use neoarch_installer::error::InstallerError;
use neoarch_installer::installer::{InstallPlan, InstalledUser, Installer};
use neoarch_installer::partitioner::PartitionPlan;

fn strs(v: &[&str]) -> Vec<String> {
    v.iter().map(|s| s.to_string()).collect()
}

fn cmd(program: &str, args: &[&str]) -> (String, Vec<String>) {
    (program.to_string(), strs(args))
}

fn user(name: &str, password: Option<&str>, admin: bool) -> InstalledUser {
    InstalledUser { username: name.to_string(), password: password.map(|p| p.to_string()), admin }
}

fn settings(users: Vec<InstalledUser>) -> InstallPlan {
    InstallPlan {
        hostname: "box".to_string(),
        language: "en_US.UTF-8".to_string(),
        timezone: "Europe/Paris".to_string(),
        kernels: strs(&["linux", "linux-lts"]),
        init_system: "openrc".to_string(),
        system_packages: strs(&["vim", "git"]),
        users,
    }
}

fn manual() -> PartitionPlan {
    PartitionPlan::Manual { partitions: vec![], btrfs_subvolumes: vec![] }
}

#[test]
fn installation_commands_openrc() {
    let installer = Installer::new(manual());
    let script = installer.installation(&settings(vec![
        user("root", Some("$6$root"), false),
        user("alice", None, true),
        user("bob", Some("$6$bob"), false),
    ]));
    let c = |args: &[&str]| {
        let mut v = vec!["/mnt"];
        v.extend_from_slice(args);
        cmd("artix-chroot", &v)
    };
    let expected = vec![
        cmd("rc-service", &["ntpd", "start"]),
        cmd("rc-update", &["add", "ntpd"]),
        cmd(
            "basestrap",
            &[
                "/mnt", "base", "base-devel", "linux-firmware", "grub", "efibootmgr", "networkmanager", "napm",
                "neoarch-keyring", "ntp", "linux", "linux-headers", "linux-lts", "linux-lts-headers", "openrc",
                "artix-archlinux-support", "elogind-openrc", "networkmanager-openrc", "ntp-openrc", "vim", "git",
            ],
        ),
        cmd("cp", &["-f", "/etc/pacman.d/mirrorlist-arch", "/mnt/etc/pacman.d/mirrorlist-arch"]),
        cmd("cp", &["-f", "/etc/pacman.conf", "/mnt/etc/pacman.conf"]),
        c(&["pacman-key", "--init"]),
        c(&["pacman-key", "--populate", "artix", "archlinux", "neoarch"]),
        cmd("bash", &["-c", "fstabgen -U /mnt >> /mnt/etc/fstab"]),
        c(&["ln", "-sf", "/usr/share/zoneinfo/Europe/Paris", "/etc/localtime"]),
        c(&["hwclock", "--systohc"]),
        c(&["sed", "-i", "s/#en_US.UTF-8/en_US.UTF-8/g", "/etc/locale.gen"]),
        c(&["locale-gen"]),
        c(&["bash", "-c", "echo 'export LANG=\"en_US.UTF-8\"' > /etc/locale.conf"]),
        c(&["bash", "-c", "echo 'export LC_COLLATE=\"C\"' >> /etc/locale.conf"]),
        c(&["sed", "-i", "s|^GRUB_DISTRIBUTOR=.*|GRUB_DISTRIBUTOR=\"NeoArch\"|", "/etc/default/grub"]),
        c(&["grub-install", "--target=x86_64-efi", "--efi-directory=/boot/efi", "--bootloader-id=neoarch-grub"]),
        c(&["grub-mkconfig", "-o", "/boot/grub/grub.cfg"]),
        c(&["bash", "-c", "echo 'box' > /etc/hostname"]),
        c(&["bash", "-c", "echo \"hostname='box'\" > /etc/conf.d/hostname"]),
        c(&["bash", "-c", "echo '127.0.1.1 box.localdomain box' >> /etc/hosts"]),
        c(&["rc-update", "add", "NetworkManager"]),
        c(&["usermod", "root", "-p", "$6$root"]),
        c(&["useradd", "-m", "alice"]),
        c(&["usermod", "alice", "-a", "-G", "wheel"]),
        c(&["useradd", "-m", "bob"]),
        c(&["usermod", "bob", "-p", "$6$bob"]),
        c(&["sed", "-i", "s|^# %wheel ALL=(ALL:ALL) ALL|%wheel ALL=(ALL:ALL) ALL|", "/etc/sudoers"]),
    ];
    assert_eq!(script.commands, expected);
    assert_eq!(script.passwordless_users, strs(&["alice"]));
}

#[test]
fn installation_starts_with_partitioning() {
    let plan = PartitionPlan::Simple { device: "/dev/sda".to_string() };
    let partitioning = plan.commands();
    let installer = Installer::new(plan);
    let script = installer.installation(&settings(vec![user("root", None, true)]));
    assert_eq!(&script.commands[..partitioning.len()], &partitioning[..]);
    assert_eq!(script.commands.len(), partitioning.len() + 21 + 1);
    assert_eq!(script.passwordless_users, strs(&["root"]));
    let last = script.commands.last().unwrap();
    assert_eq!(last.1[1], "sed");
}

#[test]
fn root_admin_gets_no_wheel_command() {
    let installer = Installer::new(manual());
    let script = installer.installation(&settings(vec![user("root", Some("h"), true)]));
    assert!(!script.commands.iter().any(|(_, a)| a.contains(&"wheel".to_string())));
}

#[test]
fn command_failure_message() {
    let e = Installer::command_failure(&cmd("mount", &["/dev/sda2", "/mnt"]));
    match e {
        InstallerError::InstallError(m) => assert_eq!(m, "$ mount /dev/sda2 /mnt"),
        _ => panic!("expected an install error"),
    }
    match Installer::command_failure(&cmd("locale-gen", &[])) {
        InstallerError::InstallError(m) => assert_eq!(m, "$ locale-gen "),
        _ => panic!("expected an install error"),
    }
}

#[test]
fn password_entries() {
    assert_eq!(Installer::password_entry("alice", "s3cret", "s3cret").as_deref(), Some("alice:s3cret"));
    assert_eq!(Installer::password_entry("alice", "s3cret", "s3cre"), None);
    match Installer::password_failure("alice") {
        InstallerError::InstallError(m) => assert_eq!(m, "Failed to set password for alice"),
        _ => panic!("expected an install error"),
    }
}
