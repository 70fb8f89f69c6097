//! The rendered boot entry: one text document per valid kernel version.

use vstd::prelude::*;
use vstd::string::*;

use crate::names::{
    entry_file_name, initrd_line, linux_line, microcode_line, options_line, title_line,
    version_line,
};

verus! {

/// One rendered boot entry, line by line. `name` is the file name the entry
/// is written under; the remaining fields are the lines of the document, in
/// order, with `microcode` present only when a microcode image was resolved.
#[derive(Debug, PartialEq)]
pub struct Entry {
    pub name: String,
    pub title: String,
    pub version: String,
    pub linux: String,
    pub microcode: Option<String>,
    pub initrd: String,
    pub options: String,
}

/// The characters of an optional string slice.
pub open spec fn opt_view(s: Option<&str>) -> Option<Seq<char>> {
    match s {
        Some(x) => Some(x@),
        None => None,
    }
}

impl Entry {
    /// The entry is exactly what rendering `version` under the given
    /// metadata produces: every line matches its template, and the
    /// microcode line is present exactly when a microcode name was given.
    pub open spec fn is_render_of(
        self,
        machine_id: Seq<char>,
        os_name: Seq<char>,
        cmdline: Seq<char>,
        microcode: Option<Seq<char>>,
        version: Seq<char>,
    ) -> bool {
        &&& self.name@ == entry_file_name(machine_id, version)
        &&& self.title@ == title_line(os_name, version)
        &&& self.version@ == version_line(version)
        &&& self.linux@ == linux_line(version)
        &&& match microcode {
            Some(m) => self.microcode matches Some(mc) && mc@ == microcode_line(m),
            None => self.microcode is None,
        }
        &&& self.initrd@ == initrd_line(version)
        &&& self.options@ == options_line(cmdline)
    }

    /// The full document written to the entry file: each line followed by a
    /// newline, the microcode line (when present) between the kernel-image
    /// line and the initial-ramdisk line.
    pub open spec fn text(self) -> Seq<char> {
        match self.microcode {
            Some(mc) => self.title@ + "\n"@ + self.version@ + "\n"@ + self.linux@ + "\n"@ + mc@
                + "\n"@ + self.initrd@ + "\n"@ + self.options@ + "\n"@,
            None => self.title@ + "\n"@ + self.version@ + "\n"@ + self.linux@ + "\n"@
                + self.initrd@ + "\n"@ + self.options@ + "\n"@,
        }
    }

    /// Serializes the entry to the document text.
    pub fn to_text(&self) -> (r: String)
        ensures
            r@ == self.text(),
    {
        let mut s = String::new();
        s.append(self.title.as_str());
        s.append("\n");
        s.append(self.version.as_str());
        s.append("\n");
        s.append(self.linux.as_str());
        s.append("\n");
        match &self.microcode {
            Some(mc) => {
                s.append(mc.as_str());
                s.append("\n");
            },
            None => {},
        }
        s.append(self.initrd.as_str());
        s.append("\n");
        s.append(self.options.as_str());
        s.append("\n");
        proof {
            assert(s@ =~= self.text());
        }
        s
    }
}

/// Rendering is a function of the metadata and the version alone: two
/// entries rendered from the same inputs name the same file and serialize
/// to the same document, so re-rendering an unchanged version rewrites an
/// entry file byte for byte.
pub proof fn lemma_render_deterministic(
    e1: Entry,
    e2: Entry,
    machine_id: Seq<char>,
    os_name: Seq<char>,
    cmdline: Seq<char>,
    microcode: Option<Seq<char>>,
    version: Seq<char>,
)
    requires
        e1.is_render_of(machine_id, os_name, cmdline, microcode, version),
        e2.is_render_of(machine_id, os_name, cmdline, microcode, version),
    ensures
        e1.name@ == e2.name@,
        e1.text() == e2.text(),
{
}

} // verus!
