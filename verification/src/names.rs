//! File-name and entry-line templates, as functions on character sequences.
//!
//! Every file name this tool reads or writes is built from a kernel version
//! string by one of these templates; the scanner inverts them and the
//! renderer applies them, so both sides share one definition.

use vstd::prelude::*;
use vstd::string::*;

verus! {

/// Name of a kernel image file for a version: `vmlinuz-<version>`.
pub open spec fn vmlinuz_name(version: Seq<char>) -> Seq<char> {
    "vmlinuz-"@ + version
}

/// Name of an initial-ramdisk file for a version: `initramfs-<version>.img`.
pub open spec fn initramfs_name(version: Seq<char>) -> Seq<char> {
    "initramfs-"@ + version + ".img"@
}

/// Name of a boot entry file: `<machine_id>-<version>.conf`.
pub open spec fn entry_file_name(machine_id: Seq<char>, version: Seq<char>) -> Seq<char> {
    machine_id + "-"@ + version + ".conf"@
}

/// For a fixed machine id, an entry file name determines the version:
/// two versions that render to the same file name are equal.
pub proof fn lemma_entry_file_name_injective(
    machine_id: Seq<char>,
    v1: Seq<char>,
    v2: Seq<char>,
)
    requires
        entry_file_name(machine_id, v1) == entry_file_name(machine_id, v2),
    ensures
        v1 == v2,
{
    reveal_strlit("-");
    reveal_strlit(".conf");
    let n1 = entry_file_name(machine_id, v1);
    let n2 = entry_file_name(machine_id, v2);
    assert(n1.len() == machine_id.len() + 1 + v1.len() + 5);
    assert(n2.len() == machine_id.len() + 1 + v2.len() + 5);
    assert(v1.len() == v2.len());
    assert forall|i: int| 0 <= i < v1.len() implies v1[i] == v2[i] by {
        assert(n1[machine_id.len() + 1 + i] == v1[i]);
        assert(n2[machine_id.len() + 1 + i] == v2[i]);
    }
    assert(v1 =~= v2);
}

/// Title line of an entry: `title <os_name> (<version>)`.
pub open spec fn title_line(os_name: Seq<char>, version: Seq<char>) -> Seq<char> {
    "title "@ + os_name + " ("@ + version + ")"@
}

/// Version line of an entry: `version <version>`.
pub open spec fn version_line(version: Seq<char>) -> Seq<char> {
    "version "@ + version
}

/// Kernel-image line of an entry: `linux /vmlinuz-<version>`.
pub open spec fn linux_line(version: Seq<char>) -> Seq<char> {
    "linux /vmlinuz-"@ + version
}

/// Microcode line of an entry: `initrd /<microcode>`.
pub open spec fn microcode_line(microcode: Seq<char>) -> Seq<char> {
    "initrd /"@ + microcode
}

/// Initial-ramdisk line of an entry: `initrd /initramfs-<version>.img`.
pub open spec fn initrd_line(version: Seq<char>) -> Seq<char> {
    "initrd /initramfs-"@ + version + ".img"@
}

/// Options line of an entry: `options <cmdline>`.
pub open spec fn options_line(cmdline: Seq<char>) -> Seq<char> {
    "options "@ + cmdline
}

/// Builds `vmlinuz-<version>`.
pub fn make_vmlinuz_name(version: &str) -> (r: String)
    ensures
        r@ == vmlinuz_name(version@),
{
    let mut s = String::from_str("vmlinuz-");
    s.append(version);
    s
}

/// Builds `initramfs-<version>.img`.
pub fn make_initramfs_name(version: &str) -> (r: String)
    ensures
        r@ == initramfs_name(version@),
{
    let mut s = String::from_str("initramfs-");
    s.append(version);
    s.append(".img");
    s
}

/// Builds `<machine_id>-<version>.conf`.
pub fn make_entry_file_name(machine_id: &str, version: &str) -> (r: String)
    ensures
        r@ == entry_file_name(machine_id@, version@),
{
    let mut s = machine_id.to_owned();
    s.append("-");
    s.append(version);
    s.append(".conf");
    s
}

} // verus!
