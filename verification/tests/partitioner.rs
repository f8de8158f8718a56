use neoarch_installer::manual::MountedFilesystem;
use neoarch_installer::partitioner::{
    shell_failure_message, simple_subvolumes, BlockDevice, BtrfsSubvolume, Filesystem, PartitionPlan,
    Partitioner, SimpleAction, SimpleStep,
};

fn device(name: &str, path: &str, dev_type: &str, model: Option<&str>, size: &str) -> BlockDevice {
    BlockDevice {
        name: name.to_string(),
        path: path.to_string(),
        model: model.map(|m| m.to_string()),
        dev_type: dev_type.to_string(),
        mountpoints: None,
        children: None,
        size: size.to_string(),
    }
}

fn strs(v: &[&str]) -> Vec<String> {
    v.iter().map(|s| s.to_string()).collect()
}

fn cmd(program: &str, args: &[&str]) -> (String, Vec<String>) {
    (program.to_string(), strs(args))
}

#[test]
fn filesystem_names() {
    assert_eq!(Filesystem::Btrfs.as_str(), "btrfs");
    assert_eq!(Filesystem::Ext4.as_str(), "ext4");
    assert_eq!(Filesystem::Xfs.as_str(), "xfs");
    assert_eq!(Filesystem::Fat.as_str(), "fat");
    assert_eq!(Filesystem::Vfat.as_str(), "vfat");
    assert_eq!(Filesystem::Vfat.to_string(), "vfat");
}

#[test]
fn filesystem_parse_round_trip() {
    for fs in [Filesystem::Btrfs, Filesystem::Ext4, Filesystem::Xfs, Filesystem::Fat, Filesystem::Vfat] {
        assert_eq!(Filesystem::parse(fs.as_str()).unwrap(), fs);
    }
}

#[test]
fn filesystem_parse_unknown() {
    assert_eq!(Filesystem::parse("ntfs").unwrap_err(), "Unknown filesystem: 'ntfs'");
    assert_eq!(Filesystem::parse("Btrfs").unwrap_err(), "Unknown filesystem: 'Btrfs'");
    assert_eq!(Filesystem::parse("").unwrap_err(), "Unknown filesystem: ''");
}

#[test]
fn btrfs_subvolume_from_pair() {
    let s = BtrfsSubvolume::from_pair("@home", "/home");
    assert_eq!(s.name, "@home");
    assert_eq!(s.mountpoint, "/home");
}

#[test]
fn subvolume_table() {
    let t = simple_subvolumes();
    assert_eq!(
        t,
        vec![
            ("@", "/"),
            ("@home", "/home"),
            ("@var", "/var"),
            ("@log", "/var/log"),
            ("@cache", "/var/cache"),
            ("@snapshots", "/.snapshots"),
        ]
    );
}

#[test]
fn get_disks_filters_devices() {
    let p = Partitioner::new(vec![
        device("sda", "/dev/sda", "disk", Some("Samsung"), "1T"),
        device("loop0", "/dev/loop0", "disk", None, "1G"),
        device("sda1", "/dev/sda1", "part", None, "512M"),
        device("ram0", "/dev/ram0", "disk", None, "4M"),
        device("zram0", "/dev/zram0", "disk", None, "8G"),
        device("nvme0n1", "/dev/nvme0n1", "disk", None, "2T"),
        device("sr0", "/dev/sr0", "rom", None, "1G"),
    ]);
    let disks = p.get_disks();
    let paths: Vec<&str> = disks.iter().map(|d| d.path.as_str()).collect();
    assert_eq!(paths, vec!["/dev/sda", "/dev/nvme0n1"]);
    assert!(p.current_plan.is_none());
}

#[test]
fn refresh_devices_replaces_listing() {
    let mut p = Partitioner::new(vec![device("sda", "/dev/sda", "disk", None, "1T")]);
    p.refresh_devices(vec![device("sdb", "/dev/sdb", "disk", None, "2T")]);
    let paths: Vec<String> = p.get_disks().iter().map(|d| d.path.clone()).collect();
    assert_eq!(paths, vec!["/dev/sdb".to_string()]);
}

fn simple_commands(dev: &str, p1: &str, p2: &str) -> Vec<(String, Vec<String>)> {
    let mut v = vec![
        cmd("wipefs", &["-af", dev]),
        cmd("sgdisk", &["--zap-all", dev]),
        cmd("sgdisk", &["--clear", dev]),
        cmd("partprobe", &[dev]),
        cmd("udevadm", &["settle"]),
        cmd("parted", &["-s", dev, "mkpart", "ESP", "fat32", "1MiB", "1025MiB"]),
        cmd("parted", &["-s", dev, "set", "1", "esp", "on"]),
        cmd("parted", &["-s", dev, "mkpart", "primary", "btrfs", "1025MiB", "100%"]),
        cmd("partprobe", &[dev]),
        cmd("udevadm", &["settle"]),
        cmd("mkfs.vfat", &["-F32", "-n", "NEOARCH_EFI", p1]),
        cmd("mkfs.btrfs", &["-f", "-L", "NEOARCH_BTRFS_ROOT", p2]),
        cmd("mount", &[p2, "/mnt"]),
    ];
    for name in ["@", "@home", "@var", "@log", "@cache", "@snapshots"] {
        v.push(cmd("btrfs", &["subvolume", "create", &format!("/mnt/{name}")]));
    }
    v.push(cmd("umount", &["/mnt"]));
    for (name, target) in [
        ("@", "/mnt"),
        ("@home", "/mnt/home"),
        ("@var", "/mnt/var"),
        ("@log", "/mnt/var/log"),
        ("@cache", "/mnt/var/cache"),
        ("@snapshots", "/mnt/.snapshots"),
    ] {
        v.push(cmd(
            "mount",
            &["-o", &format!("subvol={name},compress=zstd,noatime"), p2, target, "--mkdir"],
        ));
    }
    v.push(cmd("mount", &[p1, "/mnt/boot/efi", "--mkdir"]));
    v
}

#[test]
fn simple_plan_commands_sata() {
    let plan = PartitionPlan::Simple { device: "/dev/sda".to_string() };
    let cmds = plan.commands();
    assert_eq!(cmds.len(), 27);
    assert_eq!(cmds, simple_commands("/dev/sda", "/dev/sda1", "/dev/sda2"));
}

#[test]
fn simple_plan_commands_nvme_and_mmc() {
    let plan = PartitionPlan::Simple { device: "/dev/nvme0n1".to_string() };
    assert_eq!(plan.commands(), simple_commands("/dev/nvme0n1", "/dev/nvme0n1p1", "/dev/nvme0n1p2"));
    let plan = PartitionPlan::Simple { device: "/dev/mmcblk0".to_string() };
    assert_eq!(plan.commands(), simple_commands("/dev/mmcblk0", "/dev/mmcblk0p1", "/dev/mmcblk0p2"));
}

#[test]
fn manual_plan_has_no_commands() {
    let plan = PartitionPlan::Manual { partitions: vec![], btrfs_subvolumes: vec![] };
    assert!(plan.commands().is_empty());
    assert_eq!(plan.dry_run_commands(), "");
}

#[test]
fn dry_run_lists_commands() {
    let plan = PartitionPlan::Simple { device: "/dev/vda".to_string() };
    let text = plan.dry_run_commands();
    let lines: Vec<&str> = text.split('\n').collect();
    assert_eq!(lines.len(), 27);
    assert_eq!(lines[0], "wipefs -af /dev/vda");
    assert_eq!(lines[4], "udevadm settle");
    assert_eq!(lines[5], "parted -s /dev/vda mkpart ESP fat32 1MiB 1025MiB");
    assert_eq!(lines[13], "btrfs subvolume create /mnt/@");
    assert_eq!(lines[20], "mount -o subvol=@,compress=zstd,noatime /dev/vda2 /mnt --mkdir");
    assert_eq!(lines[26], "mount /dev/vda1 /mnt/boot/efi --mkdir");
}

#[test]
fn simple_partitioning_without_disks() {
    let mut p = Partitioner::new(vec![device("loop0", "/dev/loop0", "loop", None, "1G")]);
    match p.run_simple_partitioning(SimpleStep::Start) {
        SimpleAction::Stop(args) => assert_eq!(
            args,
            strs(&["--title", "Error", "--clear", "--msgbox", "No suitable disks found!", "40", "120"])
        ),
        _ => panic!("expected a message"),
    }
    assert!(p.current_plan.is_none());
}

#[test]
fn simple_partitioning_menu_lists_disks() {
    let mut p = Partitioner::new(vec![
        device("sda", "/dev/sda", "disk", Some("  Samsung SSD  "), "1T"),
        device("sdb", "/dev/sdb", "disk", None, "500G"),
    ]);
    match p.run_simple_partitioning(SimpleStep::Start) {
        SimpleAction::ChooseDisk(args) => assert_eq!(
            args,
            strs(&[
                "--title",
                "Simple Partitioning",
                "--clear",
                "--menu",
                "Select disk for NEOARCH installation:",
                "17",
                "120",
                "2",
                "/dev/sda",
                "/dev/sda (1TSamsung SSD)",
                "/dev/sdb",
                "/dev/sdb (500G)",
            ])
        ),
        _ => panic!("expected the disk menu"),
    }
}

#[test]
fn simple_partitioning_confirmation_text() {
    let mut p = Partitioner::new(vec![device("nvme0n1", "/dev/nvme0n1", "disk", Some("WD"), "2T")]);
    let expected = "WARNING: This will ERASE ALL DATA on /dev/nvme0n1 (WD)\n\n\
                    Layout to create:\n\
                    - /dev/nvme0n1p1 (1GB FAT32) \u{2192} /boot/efi\n\
                    - /dev/nvme0n1p2 (Btrfs) with subvolumes:\n\
                    +-- @ (root)\n+-- @home (/home)\n+-- @var (/var)\n+-- @log (/var/log)\n\
                    +-- @cache (/var/cache)\n+-- @snapshots (/.snapshots)\n\n\
                    Proceed with destruction?";
    match p.run_simple_partitioning(SimpleStep::DiskChosen("/dev/nvme0n1".to_string())) {
        SimpleAction::Confirm { device, question } => {
            assert_eq!(device, "/dev/nvme0n1");
            assert_eq!(
                question,
                strs(&["--title", "Confirm Destructive Operation", "--clear", "--yesno", expected, "40", "120"])
            );
        }
        _ => panic!("expected a confirmation"),
    }
    assert!(p.current_plan.is_none());
}

#[test]
fn simple_partitioning_unknown_model() {
    let mut p = Partitioner::new(vec![device("sda", "/dev/sda", "disk", None, "1T")]);
    match p.run_simple_partitioning(SimpleStep::DiskChosen("/dev/sda".to_string())) {
        SimpleAction::Confirm { question, .. } => {
            assert!(question[4].starts_with("WARNING: This will ERASE ALL DATA on /dev/sda (MODEL UNKNOWN)\n"));
            assert!(question[4].contains("- /dev/sda1 (1GB FAT32)"));
        }
        _ => panic!("expected a confirmation"),
    }
}

#[test]
fn simple_partitioning_declined_keeps_plan() {
    let mut p = Partitioner::new(vec![device("sda", "/dev/sda", "disk", None, "1T")]);
    let action = p.run_simple_partitioning(SimpleStep::Confirmed { device: "/dev/sda".to_string(), proceed: false });
    assert!(matches!(action, SimpleAction::Done));
    assert!(p.current_plan.is_none());
}

#[test]
fn simple_partitioning_accepted_sets_plan() {
    let mut p = Partitioner::new(vec![device("sda", "/dev/sda", "disk", None, "1T")]);
    let action = p.run_simple_partitioning(SimpleStep::Confirmed { device: "/dev/sda".to_string(), proceed: true });
    assert!(matches!(action, SimpleAction::Done));
    match &p.current_plan {
        Some(PartitionPlan::Simple { device }) => assert_eq!(device, "/dev/sda"),
        _ => panic!("expected a simple plan"),
    }
}

fn mount(source: &str, target: &str, fstype: &str, options: Option<&str>, children: Option<Vec<MountedFilesystem>>) -> MountedFilesystem {
    MountedFilesystem {
        source: source.to_string(),
        target: target.to_string(),
        fstype: fstype.to_string(),
        options: options.map(|o| o.to_string()),
        children,
    }
}

#[test]
fn manual_partitioning_reads_mounts() {
    let mounts = vec![mount(
        "/dev/sda2[/@]",
        "/mnt",
        "btrfs",
        Some("rw,noatime,compress=zstd:3,subvol=/@"),
        Some(vec![
            mount("/dev/sda2[/@home]", "/mnt/home", "btrfs", Some("rw,subvol=/@home"), None),
            mount("/dev/sda1", "/mnt/boot/efi", "vfat", Some("rw,relatime"), None),
            mount("/dev/sdb1", "/mnt/data", "ext4", None, None),
            mount("tmpfs", "/mnt/tmp", "tmpfs", None, Some(vec![mount("/dev/sdc1", "/mnt/tmp/x", "ext4", None, None)])),
        ]),
    )];
    let mut p = Partitioner::new(vec![]);
    p.run_manual_partitioning(vec![device("sda", "/dev/sda", "disk", None, "1T")], &mounts);
    assert_eq!(p.get_disks().len(), 1);
    match &p.current_plan {
        Some(PartitionPlan::Manual { partitions, btrfs_subvolumes }) => {
            let parts: Vec<(String, Filesystem, Option<String>)> = partitions
                .iter()
                .map(|p| (p.device_path.clone(), p.filesystem, p.mountpoint.clone()))
                .collect();
            assert_eq!(
                parts,
                vec![
                    ("/dev/sda2".to_string(), Filesystem::Btrfs, None),
                    ("/dev/sda1".to_string(), Filesystem::Vfat, Some("/boot/efi".to_string())),
                    ("/dev/sdb1".to_string(), Filesystem::Ext4, Some("/data".to_string())),
                ]
            );
            let subs: Vec<(String, String)> =
                btrfs_subvolumes.iter().map(|s| (s.name.clone(), s.mountpoint.clone())).collect();
            assert_eq!(
                subs,
                vec![("@".to_string(), "/".to_string()), ("@home".to_string(), "/home".to_string())]
            );
        }
        _ => panic!("expected a manual plan"),
    }
}

#[test]
fn manual_partitioning_plain_root() {
    let mounts = vec![mount("/dev/vda1", "/mnt", "ext4", Some("rw"), None)];
    let plan = neoarch_installer::manual::detect_manual_partitioning(&mounts);
    match plan {
        PartitionPlan::Manual { partitions, btrfs_subvolumes } => {
            assert_eq!(partitions.len(), 1);
            assert_eq!(partitions[0].device_path, "/dev/vda1");
            assert_eq!(partitions[0].mountpoint.as_deref(), Some("/"));
            assert!(btrfs_subvolumes.is_empty());
        }
        _ => panic!("expected a manual plan"),
    }
}

#[test]
fn manual_partitioning_tree_prefix_and_btrfs_without_subvol() {
    let mounts = vec![
        mount("/dev/sda3", "\u{2514}\u{2500}/mnt/srv", "btrfs", Some("rw,compress=zstd"), None),
        mount("/dev/sda4", "/elsewhere", "xfs", None, None),
    ];
    let plan = neoarch_installer::manual::detect_manual_partitioning(&mounts);
    match plan {
        PartitionPlan::Manual { partitions, btrfs_subvolumes } => {
            assert_eq!(partitions.len(), 2);
            assert_eq!(partitions[0].mountpoint.as_deref(), Some("/srv"));
            assert_eq!(partitions[1].mountpoint.as_deref(), Some("/"));
            assert!(btrfs_subvolumes.is_empty());
        }
        _ => panic!("expected a manual plan"),
    }
}

#[test]
fn manual_partitioning_same_device_once() {
    let mounts = vec![
        mount("/dev/sda1", "/mnt", "ext4", None, None),
        mount("/dev/sda1", "/mnt/again", "ext4", None, None),
    ];
    match neoarch_installer::manual::detect_manual_partitioning(&mounts) {
        PartitionPlan::Manual { partitions, .. } => {
            assert_eq!(partitions.len(), 1);
            assert_eq!(partitions[0].mountpoint.as_deref(), Some("/again"));
        }
        _ => panic!("expected a manual plan"),
    }
}

#[test]
fn shell_failure_messages() {
    assert_eq!(shell_failure_message(1), "Shell exited with status: 1");
    assert_eq!(shell_failure_message(-1), "Shell exited with status: -1");
    assert_eq!(shell_failure_message(130), "Shell exited with status: 130");
}
