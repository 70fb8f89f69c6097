//! The per-version kernel record, its validity gate, and the entry renderer.

use vstd::prelude::*;
use vstd::string::*;

use crate::names::{
    entry_file_name, initramfs_name, make_entry_file_name, make_initramfs_name,
    make_vmlinuz_name, vmlinuz_name,
};
use crate::text::{contains_name, contains_str};

pub use crate::entry::Entry;

verus! {

/// One kernel version and which of its three artifacts exist on disk: a boot
/// entry file (`config`), a kernel image (`vmlinuz`), and an initial ramdisk
/// (`initramfs`).
#[derive(Eq, PartialEq, Hash, Debug)]
pub struct Kernel {
    pub version: String,
    pub config: bool,
    pub vmlinuz: bool,
    pub initramfs: bool,
}

impl Kernel {
    /// The validity gate: a record may be rendered only when both the kernel
    /// image and the initial ramdisk exist. Whether an entry file already
    /// exists never enters into it.
    pub open spec fn valid(self) -> bool {
        self.vmlinuz && self.initramfs
    }

    /// Builds the record for one version from the two directory listings:
    /// each artifact boolean says exactly whether the listing holds the file
    /// name that the corresponding template produces for this version.
    pub fn new(
        machineid: &str,
        version: String,
        boot_files: &Vec<String>,
        entry_files: &Vec<String>,
    ) -> (k: Kernel)
        ensures
            k.version == version,
            k.vmlinuz == contains_str(boot_files@, vmlinuz_name(version@)),
            k.initramfs == contains_str(boot_files@, initramfs_name(version@)),
            k.config == contains_str(entry_files@, entry_file_name(machineid@, version@)),
    {
        let vmlinuz_file = make_vmlinuz_name(version.as_str());
        let initramfs_file = make_initramfs_name(version.as_str());
        let config_file = make_entry_file_name(machineid, version.as_str());
        let vmlinuz = contains_name(boot_files, vmlinuz_file.as_str());
        let initramfs = contains_name(boot_files, initramfs_file.as_str());
        let config = contains_name(entry_files, config_file.as_str());
        Kernel { version, config, vmlinuz, initramfs }
    }

    /// True exactly when both the kernel image and the initial ramdisk
    /// exist, independent of whether an entry file exists.
    pub fn is_valid(&self) -> (r: bool)
        ensures
            r == self.valid(),
    {
        self.vmlinuz && self.initramfs
    }
}

/// Renders a valid record to its boot entry. The file name and every line of
/// the document are fixed by the templates; the microcode line is present
/// exactly when a microcode file name is supplied.
pub fn kernel_to_entry(
    machineid: &str,
    osname: &str,
    cmdline: &str,
    microcode: Option<&str>,
    kernel: &Kernel,
) -> (e: Entry)
    requires
        kernel.valid(),
    ensures
        e.is_render_of(
            machineid@,
            osname@,
            cmdline@,
            crate::entry::opt_view(microcode),
            kernel.version@,
        ),
{
    let name = make_entry_file_name(machineid, kernel.version.as_str());

    let mut title = String::from_str("title ");
    title.append(osname);
    title.append(" (");
    title.append(kernel.version.as_str());
    title.append(")");

    let mut version = String::from_str("version ");
    version.append(kernel.version.as_str());

    let mut linux = String::from_str("linux /vmlinuz-");
    linux.append(kernel.version.as_str());

    let microcode_entry = match microcode {
        Some(m) => {
            let mut line = String::from_str("initrd /");
            line.append(m);
            Some(line)
        },
        None => None,
    };

    let mut initrd = String::from_str("initrd /initramfs-");
    initrd.append(kernel.version.as_str());
    initrd.append(".img");

    let mut options = String::from_str("options ");
    options.append(cmdline);

    Entry { name, title, version, linux, microcode: microcode_entry, initrd, options }
}

} // verus!
