use boot_entries::entry::Entry;
use boot_entries::model::{kernel_to_entry, Kernel};
use boot_entries::plan::{check_microcode, plan_actions, Action};
use boot_entries::scan::{parse_entry_version, scan_inventory, ScanError};

#[test]
pub fn test() {
    let machineid = "abcdef";
    let version = "1.0";
    let osname = "test";
    let cmdline = "none";
    let microcode = Some("ucode.img");

    let kernel = Kernel {
        version: version.to_string(),
        config: false,
        initramfs: false,
        vmlinuz: true,
    };

    let expected = Entry {
        name: String::from("abcdef-1.0.conf"),
        title: String::from("title test (1.0)"),
        version: String::from("version 1.0"),
        linux: String::from("linux /vmlinuz-1.0"),
        microcode: Some(String::from("initrd /ucode.img")),
        initrd: String::from("initrd /initramfs-1.0.img"),
        options: String::from("options none"),
    };
    let existing = kernel_to_entry(machineid, osname, cmdline, microcode, &kernel);
    assert_eq!(expected, existing);
}

#[test]
fn render_file_name_and_title() {
    let kernel = Kernel {
        version: String::from("5.10.2-arch1"),
        config: true,
        vmlinuz: true,
        initramfs: true,
    };
    let entry = kernel_to_entry("0123abcd", "Arch Linux", "root=/dev/sda1 rw", None, &kernel);
    assert_eq!(entry.name, "0123abcd-5.10.2-arch1.conf");
    assert_eq!(entry.title, "title Arch Linux (5.10.2-arch1)");
    assert_eq!(entry.version, "version 5.10.2-arch1");
    assert_eq!(entry.linux, "linux /vmlinuz-5.10.2-arch1");
    assert_eq!(entry.microcode, None);
    assert_eq!(entry.initrd, "initrd /initramfs-5.10.2-arch1.img");
    assert_eq!(entry.options, "options root=/dev/sda1 rw");
}

#[test]
fn validity_all_combinations() {
    for &config in &[false, true] {
        for &vmlinuz in &[false, true] {
            for &initramfs in &[false, true] {
                let kernel = Kernel {
                    version: String::from("1.0"),
                    config,
                    vmlinuz,
                    initramfs,
                };
                assert_eq!(kernel.is_valid(), vmlinuz && initramfs);
            }
        }
    }
}

#[test]
fn entry_text_with_microcode() {
    let kernel = Kernel {
        version: String::from("1.0"),
        config: false,
        vmlinuz: true,
        initramfs: true,
    };
    let entry = kernel_to_entry("abcdef", "test", "none", Some("ucode.img"), &kernel);
    let text = entry.to_text();
    assert_eq!(
        text,
        "title test (1.0)\nversion 1.0\nlinux /vmlinuz-1.0\ninitrd /ucode.img\ninitrd /initramfs-1.0.img\noptions none\n"
    );
    let microcode_at = text.find("initrd /ucode.img\n").unwrap();
    let initramfs_at = text.find("initrd /initramfs-1.0.img\n").unwrap();
    assert!(microcode_at < initramfs_at);
    assert_eq!(text.matches("initrd /ucode.img").count(), 1);
}

#[test]
fn entry_text_without_microcode() {
    let kernel = Kernel {
        version: String::from("1.0"),
        config: false,
        vmlinuz: true,
        initramfs: true,
    };
    let entry = kernel_to_entry("abcdef", "test", "none", None, &kernel);
    let text = entry.to_text();
    assert_eq!(
        text,
        "title test (1.0)\nversion 1.0\nlinux /vmlinuz-1.0\ninitrd /initramfs-1.0.img\noptions none\n"
    );
    assert!(!text.contains("ucode"));
    assert_eq!(text.matches("initrd ").count(), 1);
}

#[test]
fn render_parse_round_trip() {
    let kernel = Kernel {
        version: String::from("6.1.0-rc2"),
        config: false,
        vmlinuz: true,
        initramfs: true,
    };
    let entry = kernel_to_entry("abcdef", "test", "none", None, &kernel);
    let parsed = parse_entry_version("abcdef", &entry.name);
    assert_eq!(parsed, Some(String::from("6.1.0-rc2")));
}

#[test]
fn parse_entry_version_cases() {
    assert_eq!(
        parse_entry_version("abc", "abc-1.0.conf"),
        Some(String::from("1.0"))
    );
    assert_eq!(parse_entry_version("abc", "abc-.conf"), Some(String::from("")));
    assert_eq!(parse_entry_version("abc", "abc-1.0.con"), None);
    assert_eq!(parse_entry_version("abc", "abd-1.0.conf"), None);
    assert_eq!(parse_entry_version("abc", "ab-1.0.conf"), None);
    assert_eq!(parse_entry_version("abc", "abc1.0.conf"), None);
}

#[test]
fn scan_merges_sightings_of_one_version() {
    let boot = vec![
        String::from("vmlinuz-5.10"),
        String::from("initramfs-5.10.img"),
        String::from("System.map"),
    ];
    let entries = vec![String::from("abc-5.10.conf")];
    let kernels = scan_inventory("abc", &boot, &entries).unwrap();
    assert_eq!(kernels.len(), 1);
    assert_eq!(kernels[0].version, "5.10");
    assert!(kernels[0].vmlinuz);
    assert!(kernels[0].initramfs);
    assert!(kernels[0].config);
}

#[test]
fn scan_discovers_each_file_class() {
    let boot = vec![
        String::from("vmlinuz-1.0"),
        String::from("initramfs-2.0.img"),
    ];
    let entries = vec![String::from("abc-3.0.conf"), String::from("other-4.0.conf")];
    let mut kernels = scan_inventory("abc", &boot, &entries).unwrap();
    kernels.sort_by(|a, b| a.version.cmp(&b.version));
    assert_eq!(kernels.len(), 3);
    assert_eq!(kernels[0].version, "1.0");
    assert!(kernels[0].vmlinuz && !kernels[0].initramfs && !kernels[0].config);
    assert_eq!(kernels[1].version, "2.0");
    assert!(!kernels[1].vmlinuz && kernels[1].initramfs && !kernels[1].config);
    assert_eq!(kernels[2].version, "3.0");
    assert!(!kernels[2].vmlinuz && !kernels[2].initramfs && kernels[2].config);
}

#[test]
fn scan_accepts_empty_version() {
    let boot = vec![String::from("vmlinuz-")];
    let entries: Vec<String> = vec![];
    let kernels = scan_inventory("abc", &boot, &entries).unwrap();
    assert_eq!(kernels.len(), 1);
    assert_eq!(kernels[0].version, "");
}

#[test]
fn scan_rejects_version_with_path_separator() {
    let boot = vec![String::from("vmlinuz-a/b")];
    let entries: Vec<String> = vec![];
    let result = scan_inventory("abc", &boot, &entries);
    assert_eq!(result, Err(ScanError::InvalidVersion(String::from("a/b"))));
}

#[test]
fn check_microcode_cases() {
    let boot = vec![String::from("vmlinuz-1.0"), String::from("ucode.img")];
    assert_eq!(
        check_microcode(Some("ucode.img"), &boot),
        Some(String::from("ucode.img"))
    );
    assert_eq!(check_microcode(Some("missing.img"), &boot), None);
    assert_eq!(check_microcode(None, &boot), None);
}

#[test]
fn removal_scenario() {
    let machineid = "abcdef";
    let boot: Vec<String> = vec![];
    let entries = vec![String::from("abcdef-1.0.conf")];
    let kernels = scan_inventory(machineid, &boot, &entries).unwrap();
    assert_eq!(kernels.len(), 1);
    assert!(!kernels[0].is_valid());

    let with_removal = plan_actions(machineid, "test", "none", None, true, &kernels);
    assert_eq!(
        with_removal,
        vec![Action::Remove(String::from("abcdef-1.0.conf"))]
    );

    let without_removal = plan_actions(machineid, "test", "none", None, false, &kernels);
    assert_eq!(without_removal, vec![Action::Keep]);
}

#[test]
fn reconcile_idempotent_on_concrete_state() {
    let machineid = "abc";
    let osname = "test";
    let cmdline = "none";
    let boot = vec![
        String::from("vmlinuz-1.0"),
        String::from("initramfs-1.0.img"),
        String::from("vmlinuz-2.0"),
    ];
    let entries0 = vec![String::from("abc-3.0.conf"), String::from("abc-1.0.conf")];

    let kernels0 = scan_inventory(machineid, &boot, &entries0).unwrap();
    let plan0 = plan_actions(machineid, osname, cmdline, None, true, &kernels0);

    let mut entries1: Vec<String> = entries0.clone();
    let mut writes0: Vec<(String, String)> = Vec::new();
    for action in &plan0 {
        match action {
            Action::Write(e) => {
                if !entries1.contains(&e.name) {
                    entries1.push(e.name.clone());
                }
                writes0.push((e.name.clone(), e.to_text()));
            }
            Action::Remove(n) => {
                entries1.retain(|x| x != n);
            }
            Action::Keep => {}
        }
    }
    assert!(entries1.contains(&String::from("abc-1.0.conf")));
    assert!(!entries1.contains(&String::from("abc-3.0.conf")));

    let kernels1 = scan_inventory(machineid, &boot, &entries1).unwrap();
    let plan1 = plan_actions(machineid, osname, cmdline, None, true, &kernels1);

    let mut writes1: Vec<(String, String)> = Vec::new();
    for action in &plan1 {
        match action {
            Action::Write(e) => writes1.push((e.name.clone(), e.to_text())),
            Action::Remove(n) => panic!("second run removed {}", n),
            Action::Keep => {}
        }
    }
    writes0.sort();
    writes1.sort();
    assert_eq!(writes0, writes1);
}

#[test]
fn plan_writes_valid_records() {
    let machineid = "abc";
    let boot = vec![String::from("vmlinuz-1.0"), String::from("initramfs-1.0.img")];
    let entries: Vec<String> = vec![];
    let kernels = scan_inventory(machineid, &boot, &entries).unwrap();
    assert_eq!(kernels.len(), 1);
    let plan = plan_actions(machineid, "test", "quiet", None, false, &kernels);
    assert_eq!(plan.len(), 1);
    match &plan[0] {
        Action::Write(e) => {
            assert_eq!(e.name, "abc-1.0.conf");
            assert_eq!(e.title, "title test (1.0)");
            assert_eq!(e.options, "options quiet");
        }
        other => panic!("expected a write, got {:?}", other),
    }
}
