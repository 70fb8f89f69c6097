//! The inventory scanner: extracts kernel versions from the two directory
//! listings and builds one record per distinct version.
//!
//! A version is discovered wherever one of the three file-name templates
//! matches: a `vmlinuz-<version>` or `initramfs-<version>.img` file in the
//! kernel-image directory, or a `<machine_id>-<version>.conf` file in the
//! entries directory. Sightings of the same version collapse into one
//! record, keyed by the version string alone; a version containing a path
//! separator or a null byte is rejected outright.

use vstd::prelude::*;
use vstd::string::*;

use crate::entry::Entry;
use crate::model::Kernel;
use crate::names::{entry_file_name, initramfs_name, lemma_entry_file_name_injective, vmlinuz_name};
use crate::text::{contains_name, contains_str, has_prefix, has_suffix};

verus! {

/// A version string that must not be interpolated into a new file name:
/// it holds a path separator or a null byte.
pub open spec fn is_bad_version(v: Seq<char>) -> bool {
    v.contains('/') || v.contains('\u{0}')
}

/// The scan failed; the run must abort.
#[derive(Debug, PartialEq, Eq)]
pub enum ScanError {
    /// A file name yielded a version string with a path separator or a
    /// null byte in it.
    InvalidVersion(String),
}

/// The file name matches `vmlinuz-<version>`.
pub open spec fn is_vmlinuz_file(f: Seq<char>) -> bool {
    "vmlinuz-"@.is_prefix_of(f)
}

/// The version a `vmlinuz-<version>` file name carries.
pub open spec fn vmlinuz_version(f: Seq<char>) -> Seq<char> {
    f.skip("vmlinuz-"@.len() as int)
}

/// The file name matches `initramfs-<version>.img`.
pub open spec fn is_initramfs_file(f: Seq<char>) -> bool {
    &&& "initramfs-"@.is_prefix_of(f)
    &&& ".img"@.is_suffix_of(f)
    &&& f.len() >= 14
}

/// The version an `initramfs-<version>.img` file name carries.
pub open spec fn initramfs_version(f: Seq<char>) -> Seq<char> {
    f.subrange("initramfs-"@.len() as int, f.len() - ".img"@.len())
}

/// The file name matches `<machine_id>-<version>.conf`.
pub open spec fn is_entry_file(machine_id: Seq<char>, f: Seq<char>) -> bool {
    &&& (machine_id + "-"@).is_prefix_of(f)
    &&& ".conf"@.is_suffix_of(f)
    &&& f.len() >= machine_id.len() + 6
}

/// The version a `<machine_id>-<version>.conf` file name carries.
pub open spec fn entry_version(machine_id: Seq<char>, f: Seq<char>) -> Seq<char> {
    f.subrange(machine_id.len() as int + 1, f.len() - ".conf"@.len())
}

/// A version was discovered: some file name in one of the listings is the
/// rendering of one of the three templates for it.
pub open spec fn discovered(
    machine_id: Seq<char>,
    boot_files: Seq<String>,
    entry_files: Seq<String>,
    v: Seq<char>,
) -> bool {
    ||| contains_str(boot_files, vmlinuz_name(v))
    ||| contains_str(boot_files, initramfs_name(v))
    ||| contains_str(entry_files, entry_file_name(machine_id, v))
}

/// The record's three booleans say exactly which artifacts the listings
/// hold for its version.
pub open spec fn record_matches(
    machine_id: Seq<char>,
    boot_files: Seq<String>,
    entry_files: Seq<String>,
    k: Kernel,
) -> bool {
    &&& k.vmlinuz == contains_str(boot_files, vmlinuz_name(k.version@))
    &&& k.initramfs == contains_str(boot_files, initramfs_name(k.version@))
    &&& k.config == contains_str(entry_files, entry_file_name(machine_id, k.version@))
}

/// Some record in the inventory carries this version.
pub open spec fn inventory_has(ks: Seq<Kernel>, v: Seq<char>) -> bool {
    exists|i: int| 0 <= i < ks.len() && ks[i].version@ == v
}

/// No two collected version strings are equal.
pub open spec fn versions_distinct(vs: Seq<String>) -> bool {
    forall|a: int, b: int| 0 <= a < b < vs.len() ==> vs[a]@ != vs[b]@
}

/// Every collected version was discovered and is clean.
pub open spec fn versions_sound(
    machine_id: Seq<char>,
    boot_files: Seq<String>,
    entry_files: Seq<String>,
    vs: Seq<String>,
) -> bool {
    forall|k: int| 0 <= k < vs.len() ==> discovered(machine_id, boot_files, entry_files, #[trigger] vs[k]@)
        && !is_bad_version(vs[k]@)
}

/// Every version carried by one of the first `bi` names of the kernel-image
/// listing or the first `ei` names of the entries listing was collected.
pub open spec fn collected_upto(
    machine_id: Seq<char>,
    boot_files: Seq<String>,
    entry_files: Seq<String>,
    bi: int,
    ei: int,
    vs: Seq<String>,
) -> bool {
    &&& forall|j: int| 0 <= j < bi && is_vmlinuz_file(#[trigger] boot_files[j]@) ==> contains_str(
        vs,
        vmlinuz_version(boot_files[j]@),
    )
    &&& forall|j: int| 0 <= j < bi && is_initramfs_file(#[trigger] boot_files[j]@) ==> contains_str(
        vs,
        initramfs_version(boot_files[j]@),
    )
    &&& forall|j: int| 0 <= j < ei && is_entry_file(machine_id, #[trigger] entry_files[j]@)
        ==> contains_str(vs, entry_version(machine_id, entry_files[j]@))
}

/// A name contained in a listing stays contained when the listing grows.
proof fn lemma_contains_str_extend(pre: Seq<String>, post: Seq<String>, name: Seq<char>)
    requires
        contains_str(pre, name),
        pre.is_prefix_of(post),
    ensures
        contains_str(post, name),
{
    let i = choose|i: int| 0 <= i < pre.len() && pre[i]@ == name;
    assert(post.subrange(0, pre.len() as int)[i] == post[i]);
    assert(post[i]@ == name);
}

/// Collected-so-far is preserved when the collection grows.
proof fn lemma_collected_extend(
    machine_id: Seq<char>,
    boot_files: Seq<String>,
    entry_files: Seq<String>,
    bi: int,
    ei: int,
    pre: Seq<String>,
    post: Seq<String>,
)
    requires
        collected_upto(machine_id, boot_files, entry_files, bi, ei, pre),
        pre.is_prefix_of(post),
    ensures
        collected_upto(machine_id, boot_files, entry_files, bi, ei, post),
{
    assert forall|j: int| 0 <= j < bi && is_vmlinuz_file(#[trigger] boot_files[j]@) implies contains_str(
        post,
        vmlinuz_version(boot_files[j]@),
    ) by {
        lemma_contains_str_extend(pre, post, vmlinuz_version(boot_files[j]@));
    }
    assert forall|j: int| 0 <= j < bi && is_initramfs_file(#[trigger] boot_files[j]@) implies contains_str(
        post,
        initramfs_version(boot_files[j]@),
    ) by {
        lemma_contains_str_extend(pre, post, initramfs_version(boot_files[j]@));
    }
    assert forall|j: int| 0 <= j < ei && is_entry_file(machine_id, #[trigger] entry_files[j]@)
        implies contains_str(post, entry_version(machine_id, entry_files[j]@)) by {
        lemma_contains_str_extend(pre, post, entry_version(machine_id, entry_files[j]@));
    }
}

/// Applying the kernel-image template and reading the version back are
/// inverse to one another.
pub proof fn lemma_vmlinuz_name_parts(v: Seq<char>)
    ensures
        is_vmlinuz_file(vmlinuz_name(v)),
        vmlinuz_version(vmlinuz_name(v)) == v,
{
    reveal_strlit("vmlinuz-");
    let n = vmlinuz_name(v);
    assert("vmlinuz-"@ =~= n.subrange(0, 8));
    assert(n.skip(8) =~= v);
}

/// A file name matching the kernel-image pattern is the template applied to
/// the version it carries.
pub proof fn lemma_vmlinuz_reconstruct(f: Seq<char>)
    requires
        is_vmlinuz_file(f),
    ensures
        vmlinuz_name(vmlinuz_version(f)) == f,
{
    reveal_strlit("vmlinuz-");
    assert(vmlinuz_name(f.skip(8)) =~= f);
}

/// Applying the initial-ramdisk template and reading the version back are
/// inverse to one another.
pub proof fn lemma_initramfs_name_parts(v: Seq<char>)
    ensures
        is_initramfs_file(initramfs_name(v)),
        initramfs_version(initramfs_name(v)) == v,
{
    reveal_strlit("initramfs-");
    reveal_strlit(".img");
    let n = initramfs_name(v);
    assert(n.len() == 14 + v.len());
    assert("initramfs-"@ =~= n.subrange(0, 10));
    assert(".img"@ =~= n.subrange(n.len() - 4, n.len() as int));
    assert(n.subrange(10, n.len() - 4) =~= v);
}

/// A file name matching the initial-ramdisk pattern is the template applied
/// to the version it carries.
pub proof fn lemma_initramfs_reconstruct(f: Seq<char>)
    requires
        is_initramfs_file(f),
    ensures
        initramfs_name(initramfs_version(f)) == f,
{
    reveal_strlit("initramfs-");
    reveal_strlit(".img");
    assert(".img"@ =~= f.subrange(f.len() - 4, f.len() as int));
    assert(initramfs_name(f.subrange(10, f.len() - 4)) =~= f);
}

/// Applying the entry-file template and reading the version back are
/// inverse to one another.
pub proof fn lemma_entry_name_parts(machine_id: Seq<char>, v: Seq<char>)
    ensures
        is_entry_file(machine_id, entry_file_name(machine_id, v)),
        entry_version(machine_id, entry_file_name(machine_id, v)) == v,
{
    reveal_strlit("-");
    reveal_strlit(".conf");
    let n = entry_file_name(machine_id, v);
    assert(n.len() == machine_id.len() + 6 + v.len());
    assert((machine_id + "-"@) =~= n.subrange(0, machine_id.len() as int + 1));
    assert(".conf"@ =~= n.subrange(n.len() - 5, n.len() as int));
    assert(n.subrange(machine_id.len() as int + 1, n.len() - 5) =~= v);
}

/// A file name matching the entry-file pattern is the template applied to
/// the version it carries.
pub proof fn lemma_entry_reconstruct(machine_id: Seq<char>, f: Seq<char>)
    requires
        is_entry_file(machine_id, f),
    ensures
        entry_file_name(machine_id, entry_version(machine_id, f)) == f,
{
    reveal_strlit("-");
    reveal_strlit(".conf");
    assert((machine_id + "-"@) =~= f.subrange(0, machine_id.len() as int + 1));
    assert(".conf"@ =~= f.subrange(f.len() - 5, f.len() as int));
    assert(entry_file_name(machine_id, f.subrange(machine_id.len() as int + 1, f.len() - 5)) =~= f);
}

/// True exactly when the version holds no path separator and no null byte.
pub fn version_is_clean(v: &str) -> (r: bool)
    ensures
        r == !is_bad_version(v@),
{
    let len = v.unicode_len();
    let mut i: usize = 0;
    while i < len
        invariant
            i <= len,
            len == v@.len(),
            forall|j: int| 0 <= j < i ==> v@[j] != '/' && v@[j] != '\u{0}',
        decreases len - i,
    {
        let c = v.get_char(i);
        if c == '/' || c == '\u{0}' {
            return false;
        }
        i += 1;
    }
    proof {
        lemma_no_bad_chars(v@);
    }
    true
}

/// A sequence none of whose characters is a path separator or a null byte
/// contains neither.
proof fn lemma_no_bad_chars(v: Seq<char>)
    requires
        forall|j: int| 0 <= j < v.len() ==> v[j] != '/' && v[j] != '\u{0}',
    ensures
        !is_bad_version(v),
{
}

/// Records one discovered version: rejects a bad one, collapses a repeated
/// sighting, appends a new one. The collection only ever grows, stays
/// duplicate-free, and keeps holding only discovered, clean versions.
fn record_version(
    machineid: &str,
    boot_files: &Vec<String>,
    entry_files: &Vec<String>,
    versions: &mut Vec<String>,
    v: String,
) -> (r: Result<(), ScanError>)
    requires
        discovered(machineid@, boot_files@, entry_files@, v@),
        versions_distinct(old(versions)@),
        versions_sound(machineid@, boot_files@, entry_files@, old(versions)@),
    ensures
        versions_distinct(final(versions)@),
        versions_sound(machineid@, boot_files@, entry_files@, final(versions)@),
        old(versions)@.is_prefix_of(final(versions)@),
        match r {
            Ok(()) => !is_bad_version(v@) && contains_str(final(versions)@, v@),
            Err(e) => final(versions)@ == old(versions)@ && is_bad_version(v@) && (e matches ScanError::InvalidVersion(b)
                && b@ == v@),
        },
{
    if !version_is_clean(v.as_str()) {
        proof {
            assert(versions@ =~= versions@.subrange(0, versions@.len() as int));
        }
        return Err(ScanError::InvalidVersion(v));
    }
    if contains_name(versions, v.as_str()) {
        proof {
            assert(versions@ =~= versions@.subrange(0, versions@.len() as int));
        }
        return Ok(());
    }
    let ghost pre = versions@;
    versions.push(v);
    proof {
        assert(pre =~= versions@.subrange(0, pre.len() as int));
        assert(versions@[pre.len() as int]@ == v@);
        assert forall|a: int, b: int| 0 <= a < b < versions@.len() implies versions@[a]@ != versions@[b]@ by {
            if b < pre.len() {
                assert(versions@[a] == pre[a] && versions@[b] == pre[b]);
            } else {
                assert(versions@[b]@ == v@);
                if a < pre.len() {
                    assert(versions@[a] == pre[a]);
                    assert(!contains_str(pre, v@));
                }
            }
        }
        assert forall|k: int| 0 <= k < versions@.len() implies discovered(
            machineid@,
            boot_files@,
            entry_files@,
            #[trigger] versions@[k]@,
        ) && !is_bad_version(versions@[k]@) by {
            if k < pre.len() {
                assert(versions@[k] == pre[k]);
            } else {
                assert(versions@[k]@ == v@);
            }
        }
    }
    Ok(())
}

/// Scans the two directory listings and builds the inventory: one record
/// per distinct discovered version, each record's booleans drawn from the
/// listings, and every discovered version represented. Fails exactly when
/// some discovered version holds a path separator or a null byte.
pub fn scan_inventory(
    machineid: &str,
    boot_files: &Vec<String>,
    entry_files: &Vec<String>,
) -> (r: Result<Vec<Kernel>, ScanError>)
    ensures
        match r {
            Ok(ks) => {
                &&& forall|a: int, b: int| 0 <= a < b < ks@.len() ==> ks@[a].version@ != ks@[b].version@
                &&& forall|i: int| 0 <= i < ks@.len() ==> record_matches(
                    machineid@,
                    boot_files@,
                    entry_files@,
                    #[trigger] ks@[i],
                )
                &&& forall|i: int| 0 <= i < ks@.len() ==> discovered(
                    machineid@,
                    boot_files@,
                    entry_files@,
                    (#[trigger] ks@[i]).version@,
                ) && !is_bad_version(ks@[i].version@)
                &&& forall|v: Seq<char>| #[trigger] discovered(machineid@, boot_files@, entry_files@, v)
                    ==> inventory_has(ks@, v) && !is_bad_version(v)
            },
            Err(e) => (e matches ScanError::InvalidVersion(b) && is_bad_version(b@) && discovered(
                machineid@,
                boot_files@,
                entry_files@,
                b@,
            )),
        },
{
    let mut versions: Vec<String> = Vec::new();

    let mut i: usize = 0;
    while i < boot_files.len()
        invariant
            i <= boot_files@.len(),
            versions_distinct(versions@),
            versions_sound(machineid@, boot_files@, entry_files@, versions@),
            collected_upto(machineid@, boot_files@, entry_files@, i as int, 0, versions@),
        decreases boot_files@.len() - i,
    {
        let f = boot_files[i].as_str();
        let f_len = f.unicode_len();
        let ghost v0 = versions@;

        if has_prefix(f, "vmlinuz-") {
            proof {
                reveal_strlit("vmlinuz-");
            }
            let ver = f.substring_char(8, f_len).to_owned();
            proof {
                lemma_vmlinuz_reconstruct(f@);
                assert(boot_files@[i as int]@ == vmlinuz_name(ver@));
            }
            match record_version(machineid, boot_files, entry_files, &mut versions, ver) {
                Err(e) => {
                    return Err(e);
                },
                Ok(()) => {},
            }
        }
        let ghost v1 = versions@;

        if has_prefix(f, "initramfs-") && has_suffix(f, ".img") && f_len >= 14 {
            proof {
                reveal_strlit("initramfs-");
                reveal_strlit(".img");
            }
            let ver = f.substring_char(10, f_len - 4).to_owned();
            proof {
                lemma_initramfs_reconstruct(f@);
                assert(boot_files@[i as int]@ == initramfs_name(ver@));
            }
            match record_version(machineid, boot_files, entry_files, &mut versions, ver) {
                Err(e) => {
                    return Err(e);
                },
                Ok(()) => {},
            }
        }

        proof {
            lemma_collected_extend(
                machineid@,
                boot_files@,
                entry_files@,
                i as int,
                0,
                v0,
                versions@,
            );
            if is_vmlinuz_file(boot_files@[i as int]@) {
                lemma_contains_str_extend(
                    v1,
                    versions@,
                    vmlinuz_version(boot_files@[i as int]@),
                );
            }
        }
        i += 1;
    }

    let mut entry_prefix = machineid.to_owned();
    entry_prefix.append("-");
    let p_len = entry_prefix.as_str().unicode_len();
    proof {
        reveal_strlit("-");
        assert(p_len == machineid@.len() + 1);
    }

    let mut j: usize = 0;
    while j < entry_files.len()
        invariant
            j <= entry_files@.len(),
            entry_prefix@ == machineid@ + "-"@,
            p_len == machineid@.len() + 1,
            versions_distinct(versions@),
            versions_sound(machineid@, boot_files@, entry_files@, versions@),
            collected_upto(
                machineid@,
                boot_files@,
                entry_files@,
                boot_files@.len() as int,
                j as int,
                versions@,
            ),
        decreases entry_files@.len() - j,
    {
        let f = entry_files[j].as_str();
        let f_len = f.unicode_len();
        let ghost v0 = versions@;

        if has_prefix(f, entry_prefix.as_str()) && has_suffix(f, ".conf") && f_len >= p_len
            && f_len - p_len >= 5 {
            proof {
                reveal_strlit(".conf");
            }
            let ver = f.substring_char(p_len, f_len - 5).to_owned();
            proof {
                lemma_entry_reconstruct(machineid@, f@);
                assert(entry_files@[j as int]@ == entry_file_name(machineid@, ver@));
            }
            match record_version(machineid, boot_files, entry_files, &mut versions, ver) {
                Err(e) => {
                    return Err(e);
                },
                Ok(()) => {},
            }
        }

        proof {
            lemma_collected_extend(
                machineid@,
                boot_files@,
                entry_files@,
                boot_files@.len() as int,
                j as int,
                v0,
                versions@,
            );
        }
        j += 1;
    }

    let mut kernels: Vec<Kernel> = Vec::new();
    let mut n: usize = 0;
    while n < versions.len()
        invariant
            n <= versions@.len(),
            kernels@.len() == n,
            versions_distinct(versions@),
            versions_sound(machineid@, boot_files@, entry_files@, versions@),
            collected_upto(
                machineid@,
                boot_files@,
                entry_files@,
                boot_files@.len() as int,
                entry_files@.len() as int,
                versions@,
            ),
            forall|k: int| 0 <= k < n ==> (#[trigger] kernels@[k]).version@ == versions@[k]@,
            forall|k: int| 0 <= k < n ==> record_matches(
                machineid@,
                boot_files@,
                entry_files@,
                #[trigger] kernels@[k],
            ),
        decreases versions@.len() - n,
    {
        let v = versions[n].clone();
        let k = Kernel::new(machineid, v, boot_files, entry_files);
        kernels.push(k);
        n += 1;
    }

    proof {
        assert forall|v: Seq<char>| #[trigger] discovered(machineid@, boot_files@, entry_files@, v)
            implies inventory_has(kernels@, v) && !is_bad_version(v) by {
            let vs = versions@;
            if contains_str(boot_files@, vmlinuz_name(v)) {
                let x = choose|x: int| 0 <= x < boot_files@.len() && boot_files@[x]@ == vmlinuz_name(v);
                lemma_vmlinuz_name_parts(v);
                assert(is_vmlinuz_file(boot_files@[x]@));
                assert(contains_str(vs, vmlinuz_version(boot_files@[x]@)));
                assert(vmlinuz_version(boot_files@[x]@) == v);
            } else if contains_str(boot_files@, initramfs_name(v)) {
                let x = choose|x: int|
                    0 <= x < boot_files@.len() && boot_files@[x]@ == initramfs_name(v);
                lemma_initramfs_name_parts(v);
                assert(is_initramfs_file(boot_files@[x]@));
                assert(contains_str(vs, initramfs_version(boot_files@[x]@)));
                assert(initramfs_version(boot_files@[x]@) == v);
            } else {
                let x = choose|x: int|
                    0 <= x < entry_files@.len() && entry_files@[x]@ == entry_file_name(machineid@, v);
                lemma_entry_name_parts(machineid@, v);
                assert(is_entry_file(machineid@, entry_files@[x]@));
                assert(contains_str(vs, entry_version(machineid@, entry_files@[x]@)));
                assert(entry_version(machineid@, entry_files@[x]@) == v);
            }
            let y = choose|y: int| 0 <= y < vs.len() && vs[y]@ == v;
            assert(kernels@[y].version@ == v);
            assert(!is_bad_version(vs[y]@));
        }
    }
    Ok(kernels)
}

/// Reads the version back out of an entry file name: returns it exactly
/// when the name is the entry-file template applied to some version for
/// this machine id.
pub fn parse_entry_version(machineid: &str, file_name: &str) -> (r: Option<String>)
    ensures
        match r {
            Some(v) => file_name@ == entry_file_name(machineid@, v@),
            None => forall|v: Seq<char>| file_name@ != entry_file_name(machineid@, v),
        },
{
    let mut entry_prefix = machineid.to_owned();
    entry_prefix.append("-");
    let p_len = entry_prefix.as_str().unicode_len();
    proof {
        reveal_strlit("-");
        assert(p_len == machineid@.len() + 1);
    }
    let f_len = file_name.unicode_len();
    let matches = has_prefix(file_name, entry_prefix.as_str()) && has_suffix(file_name, ".conf")
        && f_len >= p_len && f_len - p_len >= 5;
    if matches {
        proof {
            reveal_strlit(".conf");
        }
        let v = file_name.substring_char(p_len, f_len - 5).to_owned();
        proof {
            lemma_entry_reconstruct(machineid@, file_name@);
        }
        Some(v)
    } else {
        proof {
            reveal_strlit(".conf");
            assert forall|v: Seq<char>| file_name@ != entry_file_name(machineid@, v) by {
                if file_name@ == entry_file_name(machineid@, v) {
                    lemma_entry_name_parts(machineid@, v);
                }
            }
        }
        None
    }
}

/// Round trip: parsing the file name of a rendered entry recovers exactly
/// the version the entry was rendered from. `parsed` stands for what
/// `parse_entry_version` returned for the entry's file name, as its
/// contract describes it.
pub proof fn lemma_render_parse_round_trip(
    e: Entry,
    parsed: Option<String>,
    machine_id: Seq<char>,
    os_name: Seq<char>,
    cmdline: Seq<char>,
    microcode: Option<Seq<char>>,
    version: Seq<char>,
)
    requires
        e.is_render_of(machine_id, os_name, cmdline, microcode, version),
        match parsed {
            Some(v) => e.name@ == entry_file_name(machine_id, v@),
            None => forall|v: Seq<char>| e.name@ != entry_file_name(machine_id, v),
        },
    ensures
        parsed matches Some(v) && v@ == version,
{
    match parsed {
        Some(v) => {
            lemma_entry_file_name_injective(machine_id, v@, version);
        },
        None => {
            assert(e.name@ == entry_file_name(machine_id, version));
        },
    }
}

} // verus!
