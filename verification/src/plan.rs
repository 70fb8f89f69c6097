//! The reconciler's decisions: which entry files one run writes, which it
//! removes, and why a second run over the resulting state changes nothing.
//!
//! The driver around the library applies the plan: it writes each rendered
//! entry under its file name in the entries directory and deletes each file
//! a removal names. The plan itself is a pure function of the listings, the
//! metadata, and the removal flag.

use vstd::prelude::*;

use crate::entry::{opt_view, Entry};
use crate::model::{kernel_to_entry, Kernel};
use crate::names::{entry_file_name, lemma_entry_file_name_injective, make_entry_file_name,
    initramfs_name, vmlinuz_name};
use crate::scan::{discovered, record_matches};
use crate::text::{contains_name, contains_str};

verus! {

/// What one run does about one kernel record.
#[derive(Debug, PartialEq)]
pub enum Action {
    /// Write this entry, overwriting any file of the same name.
    Write(Entry),
    /// Delete the entry file of this name.
    Remove(String),
    /// Leave the filesystem alone for this version.
    Keep,
}

/// The action a run owes one record: a valid record is rendered and
/// written; an invalid one with an existing entry file is removed when
/// removal was requested; anything else is left untouched.
pub open spec fn action_for(
    machine_id: Seq<char>,
    os_name: Seq<char>,
    cmdline: Seq<char>,
    microcode: Option<Seq<char>>,
    remove: bool,
    k: Kernel,
    a: Action,
) -> bool {
    if k.valid() {
        a matches Action::Write(e) && e.is_render_of(machine_id, os_name, cmdline, microcode, k.version@)
    } else if remove && k.config {
        a matches Action::Remove(n) && n@ == entry_file_name(machine_id, k.version@)
    } else {
        a is Keep
    }
}

/// Resolves the requested microcode file: keeps the name exactly when the
/// kernel-image directory listing holds that file, and drops it otherwise.
pub fn check_microcode(microcode: Option<&str>, boot_files: &Vec<String>) -> (r: Option<String>)
    ensures
        match microcode {
            Some(m) => if contains_str(boot_files@, m@) {
                r matches Some(res) && res@ == m@
            } else {
                r is None
            },
            None => r is None,
        },
{
    match microcode {
        Some(m) => {
            if contains_name(boot_files, m) {
                Some(m.to_owned())
            } else {
                None
            }
        },
        None => None,
    }
}

/// Plans one run: one action per record, in order, each the action the
/// record is owed.
pub fn plan_actions(
    machineid: &str,
    osname: &str,
    cmdline: &str,
    microcode: Option<&str>,
    remove: bool,
    kernels: &Vec<Kernel>,
) -> (r: Vec<Action>)
    ensures
        r@.len() == kernels@.len(),
        forall|i: int| 0 <= i < kernels@.len() ==> action_for(
            machineid@,
            osname@,
            cmdline@,
            opt_view(microcode),
            remove,
            kernels@[i],
            #[trigger] r@[i],
        ),
{
    let mut actions: Vec<Action> = Vec::new();
    let mut i: usize = 0;
    while i < kernels.len()
        invariant
            i <= kernels@.len(),
            actions@.len() == i,
            forall|j: int| 0 <= j < i ==> action_for(
                machineid@,
                osname@,
                cmdline@,
                opt_view(microcode),
                remove,
                kernels@[j],
                #[trigger] actions@[j],
            ),
        decreases kernels@.len() - i,
    {
        let kernel = &kernels[i];
        if kernel.is_valid() {
            let entry = kernel_to_entry(machineid, osname, cmdline, microcode, kernel);
            actions.push(Action::Write(entry));
        } else if remove && kernel.config {
            let name = make_entry_file_name(machineid, kernel.version.as_str());
            actions.push(Action::Remove(name));
        } else {
            actions.push(Action::Keep);
        }
        i += 1;
    }
    actions
}

/// Both required artifacts exist in the kernel-image listing for this
/// version: the validity gate, read off the filesystem.
pub open spec fn valid_version(boot_files: Seq<String>, v: Seq<char>) -> bool {
    contains_str(boot_files, vmlinuz_name(v)) && contains_str(boot_files, initramfs_name(v))
}

/// One run over this filesystem state writes the entry file for `v`.
pub open spec fn run_writes(
    machine_id: Seq<char>,
    boot_files: Seq<String>,
    entry_files: Seq<String>,
    v: Seq<char>,
) -> bool {
    discovered(machine_id, boot_files, entry_files, v) && valid_version(boot_files, v)
}

/// One run over this filesystem state removes the entry file for `v`.
pub open spec fn run_removes(
    machine_id: Seq<char>,
    boot_files: Seq<String>,
    entry_files: Seq<String>,
    remove: bool,
    v: Seq<char>,
) -> bool {
    &&& remove
    &&& discovered(machine_id, boot_files, entry_files, v)
    &&& !valid_version(boot_files, v)
    &&& contains_str(entry_files, entry_file_name(machine_id, v))
}

/// The run removes the file of this name.
pub open spec fn run_removes_name(
    machine_id: Seq<char>,
    boot_files: Seq<String>,
    entry_files: Seq<String>,
    remove: bool,
    n: Seq<char>,
) -> bool {
    exists|v: Seq<char>| n == entry_file_name(machine_id, v) && run_removes(
        machine_id,
        boot_files,
        entry_files,
        remove,
        v,
    )
}

/// `entry_files1` is the entries directory after one run over
/// (`boot_files`, `entry_files0`): it holds exactly the written entry files
/// and the old files the run did not remove. The kernel-image directory is
/// read-only to the run and carries over unchanged.
pub open spec fn entries_after_run(
    machine_id: Seq<char>,
    boot_files: Seq<String>,
    entry_files0: Seq<String>,
    entry_files1: Seq<String>,
    remove: bool,
) -> bool {
    forall|n: Seq<char>|
        #[trigger] contains_str(entry_files1, n) <==> ((exists|v: Seq<char>|
            n == entry_file_name(machine_id, v) && run_writes(machine_id, boot_files, entry_files0, v))
            || (contains_str(entry_files0, n) && !run_removes_name(
            machine_id,
            boot_files,
            entry_files0,
            remove,
            n,
        )))
}

/// Ties the plan to the filesystem-level predicates: for a record drawn
/// from the listings, the planned action writes exactly when the run-level
/// write predicate holds of its version, removes exactly when the run-level
/// remove predicate holds, and names the right file either way.
pub proof fn lemma_action_classification(
    machine_id: Seq<char>,
    boot_files: Seq<String>,
    entry_files: Seq<String>,
    os_name: Seq<char>,
    cmdline: Seq<char>,
    microcode: Option<Seq<char>>,
    remove: bool,
    k: Kernel,
    a: Action,
)
    requires
        record_matches(machine_id, boot_files, entry_files, k),
        discovered(machine_id, boot_files, entry_files, k.version@),
        action_for(machine_id, os_name, cmdline, microcode, remove, k, a),
    ensures
        (a is Write) <==> run_writes(machine_id, boot_files, entry_files, k.version@),
        (a is Remove) <==> run_removes(machine_id, boot_files, entry_files, remove, k.version@),
        a matches Action::Write(e) ==> e.is_render_of(machine_id, os_name, cmdline, microcode, k.version@)
            && e.name@ == entry_file_name(machine_id, k.version@),
        a matches Action::Remove(n) ==> n@ == entry_file_name(machine_id, k.version@),
{
}

/// Idempotence of the reconciler. With the kernel-image directory unchanged
/// and the entries directory as one run leaves it, a second run with the
/// same metadata and the same removal flag writes entry files for exactly
/// the same versions — and, by `lemma_render_deterministic`, with
/// byte-identical contents — and removes nothing.
pub proof fn lemma_reconcile_idempotent(
    machine_id: Seq<char>,
    boot_files: Seq<String>,
    entry_files0: Seq<String>,
    entry_files1: Seq<String>,
    remove: bool,
)
    requires
        entries_after_run(machine_id, boot_files, entry_files0, entry_files1, remove),
    ensures
        forall|v: Seq<char>| #[trigger] run_writes(machine_id, boot_files, entry_files1, v)
            <==> run_writes(machine_id, boot_files, entry_files0, v),
        forall|v: Seq<char>| !(#[trigger] run_removes(machine_id, boot_files, entry_files1, remove, v)),
{
    assert forall|v: Seq<char>| #[trigger] run_writes(machine_id, boot_files, entry_files1, v)
        <==> run_writes(machine_id, boot_files, entry_files0, v) by {
        if run_writes(machine_id, boot_files, entry_files0, v) {
            let n = entry_file_name(machine_id, v);
            assert(contains_str(entry_files1, n));
            assert(discovered(machine_id, boot_files, entry_files1, v));
        }
        if run_writes(machine_id, boot_files, entry_files1, v) {
            if !contains_str(boot_files, vmlinuz_name(v)) && !contains_str(
                boot_files,
                initramfs_name(v),
            ) {
                let n = entry_file_name(machine_id, v);
                assert(contains_str(entry_files1, n));
                if exists|w: Seq<char>|
                    n == entry_file_name(machine_id, w) && run_writes(
                        machine_id,
                        boot_files,
                        entry_files0,
                        w,
                    ) {
                    let w = choose|w: Seq<char>|
                        n == entry_file_name(machine_id, w) && run_writes(
                            machine_id,
                            boot_files,
                            entry_files0,
                            w,
                        );
                    lemma_entry_file_name_injective(machine_id, v, w);
                } else {
                    assert(contains_str(entry_files0, n));
                    assert(discovered(machine_id, boot_files, entry_files0, v));
                }
            }
        }
    }
    assert forall|v: Seq<char>| !(#[trigger] run_removes(
        machine_id,
        boot_files,
        entry_files1,
        remove,
        v,
    )) by {
        if run_removes(machine_id, boot_files, entry_files1, remove, v) {
            let n = entry_file_name(machine_id, v);
            assert(contains_str(entry_files1, n));
            if exists|w: Seq<char>|
                n == entry_file_name(machine_id, w) && run_writes(
                    machine_id,
                    boot_files,
                    entry_files0,
                    w,
                ) {
                let w = choose|w: Seq<char>|
                    n == entry_file_name(machine_id, w) && run_writes(
                        machine_id,
                        boot_files,
                        entry_files0,
                        w,
                    );
                lemma_entry_file_name_injective(machine_id, v, w);
                assert(valid_version(boot_files, v));
            } else {
                assert(contains_str(entry_files0, n));
                assert(discovered(machine_id, boot_files, entry_files0, v));
                assert(run_removes(machine_id, boot_files, entry_files0, remove, v));
                assert(run_removes_name(machine_id, boot_files, entry_files0, remove, n));
            }
        }
    }
}

} // verus!
