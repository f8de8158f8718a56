//! The installation: from a partition plan and the installation settings to
//! the list of commands that installs and configures the system.

use vstd::prelude::*;
use vstd::string::*;

use crate::error::InstallerError;
use crate::partitioner::{
    partition_device, simple_subvolume_table, subvolume_create_command, subvolume_mount_command,
    command_line_text, command_text, plan_commands, push_command, CommandSpec, PartitionPlan,
};
use crate::text::{concat2, concat3, owned, str_eq};

verus! {

/// A user account of the installed system. The password, when given, is
/// already hashed.
#[derive(Debug)]
pub struct InstalledUser {
    pub username: String,
    pub password: Option<String>,
    pub admin: bool,
}

/// The installation settings.
#[derive(Debug)]
pub struct InstallPlan {
    pub hostname: String,
    pub language: String,
    pub timezone: String,
    pub kernels: Vec<String>,
    pub init_system: String,
    pub system_packages: Vec<String>,
    pub users: Vec<InstalledUser>,
}

/// A user account, as the specifications speak of it.
pub struct UserView {
    pub username: Seq<char>,
    pub password: Option<Seq<char>>,
    pub admin: bool,
}

impl View for InstalledUser {
    type V = UserView;

    open spec fn view(&self) -> UserView {
        UserView {
            username: self.username@,
            password: match self.password {
                Some(p) => Some(p@),
                None => None,
            },
            admin: self.admin,
        }
    }
}

/// The installation settings, as the specifications speak of them.
pub struct InstallPlanView {
    pub hostname: Seq<char>,
    pub language: Seq<char>,
    pub timezone: Seq<char>,
    pub kernels: Seq<Seq<char>>,
    pub init_system: Seq<char>,
    pub system_packages: Seq<Seq<char>>,
    pub users: Seq<UserView>,
}

impl View for InstallPlan {
    type V = InstallPlanView;

    open spec fn view(&self) -> InstallPlanView {
        InstallPlanView {
            hostname: self.hostname@,
            language: self.language@,
            timezone: self.timezone@,
            kernels: self.kernels.deep_view(),
            init_system: self.init_system@,
            system_packages: self.system_packages.deep_view(),
            users: self.users@.map_values(|u: InstalledUser| u@),
        }
    }
}

/// Runs `args` inside the new system's root with the chroot tool `chroot`.
pub open spec fn in_chroot(chroot: Seq<char>, args: Seq<Seq<char>>) -> CommandSpec {
    (chroot, seq!["/mnt"@] + args)
}

/// The tool that runs a command inside the new system: Arch's for systemd,
/// Artix's otherwise.
pub open spec fn chroot_tool(init: Seq<char>) -> Seq<char> {
    if init == "systemd"@ {
        "arch-chroot"@
    } else {
        "artix-chroot"@
    }
}

/// The tool that writes the new system's fstab.
pub open spec fn fstab_tool(init: Seq<char>) -> Seq<char> {
    if init == "systemd"@ {
        "genfstab"@
    } else {
        "fstabgen"@
    }
}

/// The packages that every installation gets, after the target root.
pub open spec fn base_strap_args() -> Seq<Seq<char>> {
    seq![
        "/mnt"@,
        "base"@,
        "base-devel"@,
        "linux-firmware"@,
        "grub"@,
        "efibootmgr"@,
        "networkmanager"@,
        "napm"@,
        "neoarch-keyring"@,
        "ntp"@,
    ]
}

/// Each kernel followed by its headers package.
pub open spec fn kernel_packages(kernels: Seq<Seq<char>>) -> Seq<Seq<char>>
    decreases kernels.len(),
{
    if kernels.len() == 0 {
        Seq::empty()
    } else {
        kernel_packages(kernels.drop_last()).push(kernels.last()).push(kernels.last() + "-headers"@)
    }
}

/// The packages that an init system other than systemd needs.
pub open spec fn init_packages(init: Seq<char>) -> Seq<Seq<char>> {
    if init == "systemd"@ {
        Seq::empty()
    } else {
        seq![
            init,
            "artix-archlinux-support"@,
            "elogind-"@ + init,
            "networkmanager-"@ + init,
            "ntp-"@ + init,
        ]
    }
}

/// The command that installs the packages into `/mnt`.
pub open spec fn strap_command(
    init: Seq<char>,
    kernels: Seq<Seq<char>>,
    packages: Seq<Seq<char>>,
) -> CommandSpec {
    (
        if init == "systemd"@ {
            "pacstrap"@
        } else {
            "basestrap"@
        },
        base_strap_args() + kernel_packages(kernels) + init_packages(init) + packages,
    )
}

/// The commands that create or configure one user account.
pub open spec fn user_commands(chroot: Seq<char>, u: UserView) -> Seq<CommandSpec> {
    let password = match u.password {
        Some(p) => seq![in_chroot(chroot, seq!["usermod"@, u.username, "-p"@, p])],
        None => Seq::empty(),
    };
    if u.username == "root"@ {
        password
    } else {
        seq![in_chroot(chroot, seq!["useradd"@, "-m"@, u.username])] + password + if u.admin {
            seq![in_chroot(chroot, seq!["usermod"@, u.username, "-a"@, "-G"@, "wheel"@])]
        } else {
            Seq::empty()
        }
    }
}

/// The commands for all the user accounts, in order.
pub open spec fn users_commands(chroot: Seq<char>, users: Seq<UserView>) -> Seq<CommandSpec>
    decreases users.len(),
{
    if users.len() == 0 {
        Seq::empty()
    } else {
        users_commands(chroot, users.drop_last()) + user_commands(chroot, users.last())
    }
}

/// The users whose password was not given, in order: they are asked for
/// one after the installation.
pub open spec fn passwordless_users(users: Seq<UserView>) -> Seq<Seq<char>>
    decreases users.len(),
{
    if users.len() == 0 {
        Seq::empty()
    } else if users.last().password is None {
        passwordless_users(users.drop_last()).push(users.last().username)
    } else {
        passwordless_users(users.drop_last())
    }
}

/// The commands that start the NTP daemon, the OpenRC way.
pub open spec fn ntp_commands() -> Seq<CommandSpec> {
    seq![("rc-service"@, seq!["ntpd"@, "start"@]), ("rc-update"@, seq!["add"@, "ntpd"@])]
}

/// The command that copies Arch's mirror list, which an Artix system needs.
pub open spec fn mirrorlist_commands(init: Seq<char>) -> Seq<CommandSpec> {
    if init == "systemd"@ {
        Seq::empty()
    } else {
        seq![
            ("cp"@, seq!["-f"@, "/etc/pacman.d/mirrorlist-arch"@, "/mnt/etc/pacman.d/mirrorlist-arch"@]),
        ]
    }
}

/// The commands that set up pacman's keys and the fstab.
pub open spec fn keyring_commands(chroot: Seq<char>, fstab: Seq<char>) -> Seq<CommandSpec> {
    seq![
        ("cp"@, seq!["-f"@, "/etc/pacman.conf"@, "/mnt/etc/pacman.conf"@]),
        in_chroot(chroot, seq!["pacman-key"@, "--init"@]),
        in_chroot(chroot, seq!["pacman-key"@, "--populate"@, "artix"@, "archlinux"@, "neoarch"@]),
        ("bash"@, seq!["-c"@, fstab + " -U /mnt >> /mnt/etc/fstab"@]),
    ]
}

/// The commands that set the time zone and the language.
pub open spec fn locale_commands(chroot: Seq<char>, timezone: Seq<char>, l: Seq<char>) -> Seq<CommandSpec> {
    seq![
        in_chroot(chroot, seq!["ln"@, "-sf"@, "/usr/share/zoneinfo/"@ + timezone, "/etc/localtime"@]),
        in_chroot(chroot, seq!["hwclock"@, "--systohc"@]),
        in_chroot(chroot, seq!["sed"@, "-i"@, "s/#"@ + l + "/"@ + l + "/g"@, "/etc/locale.gen"@]),
        in_chroot(chroot, seq!["locale-gen"@]),
        in_chroot(
            chroot,
            seq!["bash"@, "-c"@, "echo 'export LANG=\""@ + l + "\"' > /etc/locale.conf"@],
        ),
        in_chroot(
            chroot,
            seq!["bash"@, "-c"@, "echo 'export LC_COLLATE=\"C\"' >> /etc/locale.conf"@],
        ),
    ]
}

/// The commands that install the boot loader.
pub open spec fn bootloader_commands(chroot: Seq<char>) -> Seq<CommandSpec> {
    seq![
        in_chroot(
            chroot,
            seq![
                "sed"@,
                "-i"@,
                "s|^GRUB_DISTRIBUTOR=.*|GRUB_DISTRIBUTOR=\"NeoArch\"|"@,
                "/etc/default/grub"@,
            ],
        ),
        in_chroot(
            chroot,
            seq![
                "grub-install"@,
                "--target=x86_64-efi"@,
                "--efi-directory=/boot/efi"@,
                "--bootloader-id=neoarch-grub"@,
            ],
        ),
        in_chroot(chroot, seq!["grub-mkconfig"@, "-o"@, "/boot/grub/grub.cfg"@]),
    ]
}

/// The commands that name the host and enable NetworkManager, the OpenRC way.
pub open spec fn network_commands(init: Seq<char>, chroot: Seq<char>, h: Seq<char>) -> Seq<CommandSpec> {
    seq![in_chroot(chroot, seq!["bash"@, "-c"@, "echo '"@ + h + "' > /etc/hostname"@])] + (if init
        == "openrc"@ {
        seq![
            in_chroot(
                chroot,
                seq!["bash"@, "-c"@, "echo \"hostname='"@ + h + "'\" > /etc/conf.d/hostname"@],
            ),
        ]
    } else {
        Seq::empty()
    }) + seq![
        in_chroot(
            chroot,
            seq!["bash"@, "-c"@, "echo '127.0.1.1 "@ + h + ".localdomain "@ + h + "' >> /etc/hosts"@],
        ),
        in_chroot(chroot, seq!["rc-update"@, "add"@, "NetworkManager"@]),
    ]
}

/// The commands that install the packages and configure the system, up to
/// the user accounts. Services are enabled the OpenRC way, the only way
/// that the installer knows.
pub open spec fn system_commands(plan: InstallPlanView) -> Seq<CommandSpec> {
    let init = plan.init_system;
    let chroot = chroot_tool(init);
    ntp_commands() + seq![strap_command(init, plan.kernels, plan.system_packages)]
        + mirrorlist_commands(init) + keyring_commands(chroot, fstab_tool(init)) + locale_commands(
        chroot,
        plan.timezone,
        plan.language,
    ) + bootloader_commands(chroot) + network_commands(init, chroot, plan.hostname)
}

/// The command that lets the `wheel` group use sudo.
pub open spec fn sudoers_command(chroot: Seq<char>) -> CommandSpec {
    in_chroot(
        chroot,
        seq![
            "sed"@,
            "-i"@,
            "s|^# %wheel ALL=(ALL:ALL) ALL|%wheel ALL=(ALL:ALL) ALL|"@,
            "/etc/sudoers"@,
        ],
    )
}

/// Every command of the installation, in order: the partitioning, the
/// system, the user accounts and sudo.
pub open spec fn installation_commands(partitions: PartitionPlan, plan: InstallPlanView) -> Seq<CommandSpec> {
    let chroot = chroot_tool(plan.init_system);
    plan_commands(partitions) + system_commands(plan) + users_commands(chroot, plan.users) + seq![
        sudoers_command(chroot),
    ]
}

/// Some user of `users` is called `name` and has no password.
pub open spec fn has_passwordless_user(users: Seq<UserView>, name: Seq<char>) -> bool {
    exists|i: int| 0 <= i < users.len() && users[i].password is None && users[i].username == name
}

/// The installation first carries out the partition plan, and its last
/// command lets the `wheel` group use sudo.
pub proof fn lemma_installation_order(partitions: PartitionPlan, plan: InstallPlanView)
    ensures
        installation_commands(partitions, plan).take(plan_commands(partitions).len() as int)
            == plan_commands(partitions),
        installation_commands(partitions, plan).last() == sudoers_command(
            chroot_tool(plan.init_system),
        ),
{
    let all = installation_commands(partitions, plan);
    assert(all.take(plan_commands(partitions).len() as int) =~= plan_commands(partitions));
}

/// The users asked for a password after the installation are exactly the
/// users whose password the settings do not give.
pub proof fn lemma_passwordless_users(users: Seq<UserView>)
    ensures
        forall|i: int|
            0 <= i < users.len() && users[i].password is None ==> passwordless_users(
                users,
            ).contains(#[trigger] users[i].username),
        forall|j: int|
            0 <= j < passwordless_users(users).len() ==> has_passwordless_user(
                users,
                #[trigger] passwordless_users(users)[j],
            ),
    decreases users.len(),
{
    if users.len() > 0 {
        let rest = users.drop_last();
        lemma_passwordless_users(rest);
        let prev = passwordless_users(rest);
        let cur = passwordless_users(users);
        assert forall|i: int|
            0 <= i < users.len() && users[i].password is None implies cur.contains(
            #[trigger] users[i].username,
        ) by {
            if i < users.len() - 1 {
                assert(rest[i] == users[i]);
                let k = choose|k: int| 0 <= k < prev.len() && prev[k] == rest[i].username;
                assert(cur[k] == prev[k]);
            } else {
                assert(cur[cur.len() - 1] == users.last().username);
            }
        }
        assert forall|j: int| 0 <= j < cur.len() implies has_passwordless_user(
            users,
            #[trigger] cur[j],
        ) by {
            if j < prev.len() {
                assert(cur[j] == prev[j]);
                assert(has_passwordless_user(rest, prev[j]));
                let i = choose|i: int|
                    0 <= i < rest.len() && rest[i].password is None && rest[i].username
                        == prev[j];
                assert(users[i] == rest[i]);
            } else {
                assert(users.last().password is None);
                assert(cur[j] == users.last().username);
                assert(users[users.len() - 1] == users.last());
                assert(users[users.len() - 1].username == cur[j]);
            }
        }
    } else {
        assert(passwordless_users(users).len() == 0);
    }
}

/// `c` adds the user it names third to the `wheel` group inside `/mnt`.
pub open spec fn grants_wheel(c: CommandSpec) -> bool {
    &&& c.1.len() == 6
    &&& c.1[0] == "/mnt"@
    &&& c.1[1] == "usermod"@
    &&& c.1[3] == "-a"@
    &&& c.1[4] == "-G"@
    &&& c.1[5] == "wheel"@
}

/// No command of `cmds` adds a user to the `wheel` group.
pub open spec fn wheel_free(cmds: Seq<CommandSpec>) -> bool {
    forall|k: int| 0 <= k < cmds.len() ==> !grants_wheel(#[trigger] cmds[k])
}

proof fn lemma_wheel_free_concat(a: Seq<CommandSpec>, b: Seq<CommandSpec>)
    requires
        wheel_free(a),
        wheel_free(b),
    ensures
        wheel_free(a + b),
{
    assert forall|k: int| 0 <= k < (a + b).len() implies !grants_wheel(#[trigger] (a + b)[k]) by {
        if k < a.len() {
            assert((a + b)[k] == a[k]);
        } else {
            assert((a + b)[k] == b[k - a.len()]);
        }
    }
}

proof fn lemma_partitioning_wheel_free(partitions: PartitionPlan)
    ensures
        wheel_free(plan_commands(partitions)),
{
    reveal_strlit("/mnt");
    reveal_strlit("-s");
    match partitions {
        PartitionPlan::Simple { device } => {
            let d = device@;
            let efi = partition_device(d, 1);
            let root = partition_device(d, 2);
            let table = simple_subvolume_table();
            let head = seq![
                ("wipefs"@, seq!["-af"@, d]),
                ("sgdisk"@, seq!["--zap-all"@, d]),
                ("sgdisk"@, seq!["--clear"@, d]),
                ("partprobe"@, seq![d]),
                ("udevadm"@, seq!["settle"@]),
                ("parted"@, seq!["-s"@, d, "mkpart"@, "ESP"@, "fat32"@, "1MiB"@, "1025MiB"@]),
                ("parted"@, seq!["-s"@, d, "set"@, "1"@, "esp"@, "on"@]),
                ("parted"@, seq!["-s"@, d, "mkpart"@, "primary"@, "btrfs"@, "1025MiB"@, "100%"@]),
                ("partprobe"@, seq![d]),
                ("udevadm"@, seq!["settle"@]),
                ("mkfs.vfat"@, seq!["-F32"@, "-n"@, "NEOARCH_EFI"@, efi]),
                ("mkfs.btrfs"@, seq!["-f"@, "-L"@, "NEOARCH_BTRFS_ROOT"@, root]),
                ("mount"@, seq![root, "/mnt"@]),
            ];
            let creates = table.map_values(|e: (Seq<char>, Seq<char>)| subvolume_create_command(e.0));
            let mounts = table.map_values(|e: (Seq<char>, Seq<char>)| subvolume_mount_command(e.0, e.1, root));
            let umount = seq![("umount"@, seq!["/mnt"@])];
            let efi_mount = seq![("mount"@, seq![efi, "/mnt/boot/efi"@, "--mkdir"@])];
            assert forall|k: int| 0 <= k < head.len() implies !grants_wheel(#[trigger] head[k]) by {
                if k == 6 {
                    assert(head[k].1[0] == "-s"@);
                }
            }
            assert forall|k: int| 0 <= k < creates.len() implies !grants_wheel(#[trigger] creates[k]) by {
                assert(creates[k].1.len() == 3);
            }
            assert forall|k: int| 0 <= k < mounts.len() implies !grants_wheel(#[trigger] mounts[k]) by {
                assert(mounts[k].1.len() == 5);
            }
            assert(wheel_free(umount));
            assert(wheel_free(efi_mount));
            lemma_wheel_free_concat(head, creates);
            lemma_wheel_free_concat(head + creates, umount);
            lemma_wheel_free_concat(head + creates + umount, mounts);
            lemma_wheel_free_concat(head + creates + umount + mounts, efi_mount);
            assert(plan_commands(partitions) =~= head + creates + umount + mounts + efi_mount);
        },
        PartitionPlan::Manual { .. } => {},
    }
}

proof fn lemma_system_wheel_free(plan: InstallPlanView)
    ensures
        wheel_free(system_commands(plan)),
{
    reveal_strlit("/mnt");
    reveal_strlit("pacman-key");
    reveal_strlit("usermod");
    let init = plan.init_system;
    let chroot = chroot_tool(init);
    let strap = seq![strap_command(init, plan.kernels, plan.system_packages)];
    assert(wheel_free(ntp_commands()));
    assert(strap[0].1.len() >= 10);
    assert(wheel_free(strap));
    assert(wheel_free(mirrorlist_commands(init)));
    let keyring = keyring_commands(chroot, fstab_tool(init));
    assert forall|k: int| 0 <= k < keyring.len() implies !grants_wheel(#[trigger] keyring[k]) by {
        if k == 2 {
            assert(keyring[k].1[1] == "pacman-key"@);
        }
    }
    let locale = locale_commands(chroot, plan.timezone, plan.language);
    assert forall|k: int| 0 <= k < locale.len() implies !grants_wheel(#[trigger] locale[k]) by {
        assert(locale[k].1.len() != 6);
    }
    let boot = bootloader_commands(chroot);
    assert forall|k: int| 0 <= k < boot.len() implies !grants_wheel(#[trigger] boot[k]) by {
        assert(boot[k].1.len() != 6);
    }
    let network = network_commands(init, chroot, plan.hostname);
    assert forall|k: int| 0 <= k < network.len() implies !grants_wheel(#[trigger] network[k]) by {
        assert(network[k].1.len() == 4);
    }
    lemma_wheel_free_concat(ntp_commands(), strap);
    lemma_wheel_free_concat(ntp_commands() + strap, mirrorlist_commands(init));
    lemma_wheel_free_concat(ntp_commands() + strap + mirrorlist_commands(init), keyring);
    lemma_wheel_free_concat(ntp_commands() + strap + mirrorlist_commands(init) + keyring, locale);
    lemma_wheel_free_concat(
        ntp_commands() + strap + mirrorlist_commands(init) + keyring + locale,
        boot,
    );
    lemma_wheel_free_concat(
        ntp_commands() + strap + mirrorlist_commands(init) + keyring + locale + boot,
        network,
    );
}

/// Some user of `users` other than root is an administrator called `name`.
pub open spec fn has_admin_user(users: Seq<UserView>, name: Seq<char>) -> bool {
    exists|i: int| 0 <= i < users.len() && users[i].admin && users[i].username == name && name != "root"@
}

proof fn lemma_users_wheel(chroot: Seq<char>, users: Seq<UserView>)
    ensures
        forall|i: int|
            0 <= i < users.len() && users[i].admin && users[i].username != "root"@ ==> users_commands(
                chroot,
                users,
            ).contains(
                (chroot, seq!["/mnt"@, "usermod"@, #[trigger] users[i].username, "-a"@, "-G"@, "wheel"@]),
            ),
        forall|k: int|
            0 <= k < users_commands(chroot, users).len() && grants_wheel(
                #[trigger] users_commands(chroot, users)[k],
            ) ==> has_admin_user(users, users_commands(chroot, users)[k].1[2]),
    decreases users.len(),
{
    reveal_strlit("/mnt");
    reveal_strlit("useradd");
    reveal_strlit("usermod");
    reveal_strlit("-a");
    reveal_strlit("-p");
    if users.len() > 0 {
        let rest = users.drop_last();
        let u = users.last();
        lemma_users_wheel(chroot, rest);
        let prev = users_commands(chroot, rest);
        let own = user_commands(chroot, u);
        let all = users_commands(chroot, users);
        assert(all == prev + own);
        let wheel = (chroot, seq!["/mnt"@, "usermod"@, u.username, "-a"@, "-G"@, "wheel"@]);
        if u.admin && u.username != "root"@ {
            assert(own.last() == wheel);
            assert(all[all.len() - 1] == wheel);
        }
        assert forall|i: int|
            0 <= i < users.len() && users[i].admin && users[i].username != "root"@ implies all.contains(
            (chroot, seq!["/mnt"@, "usermod"@, #[trigger] users[i].username, "-a"@, "-G"@, "wheel"@]),
        ) by {
            if i < users.len() - 1 {
                assert(rest[i] == users[i]);
                let c = (chroot, seq!["/mnt"@, "usermod"@, rest[i].username, "-a"@, "-G"@, "wheel"@]);
                assert(prev.contains(c));
                let k = choose|k: int| 0 <= k < prev.len() && prev[k] == c;
                assert(all[k] == prev[k]);
            } else {
                assert(users[i] == u);
                assert(all[all.len() - 1] == wheel);
            }
        }
        assert forall|k: int|
            0 <= k < all.len() && grants_wheel(#[trigger] all[k]) implies has_admin_user(
            users,
            all[k].1[2],
        ) by {
            if k < prev.len() {
                assert(all[k] == prev[k]);
                let j = choose|j: int|
                    0 <= j < rest.len() && rest[j].admin && rest[j].username == prev[k].1[2]
                        && prev[k].1[2] != "root"@;
                assert(users[j] == rest[j]);
            } else {
                let m = k - prev.len();
                assert(all[k] == own[m]);
                assert(users[users.len() - 1] == u);
                if u.username == "root"@ {
                    assert(own[m].1.len() == 5);
                } else {
                    if m == 0 {
                        assert(own[m].1.len() == 4);
                    } else if u.password is Some && m == 1 {
                        assert(own[m].1.len() == 5);
                    } else {
                        assert(u.admin);
                        assert(own[m] == wheel);
                    }
                }
            }
        }
    }
}

proof fn lemma_users_commands_include(chroot: Seq<char>, users: Seq<UserView>, i: int, m: int)
    requires
        0 <= i < users.len(),
        0 <= m < user_commands(chroot, users[i]).len(),
    ensures
        users_commands(chroot, users).contains(user_commands(chroot, users[i])[m]),
    decreases users.len(),
{
    let rest = users.drop_last();
    let prev = users_commands(chroot, rest);
    let own = user_commands(chroot, users.last());
    let all = users_commands(chroot, users);
    assert(all == prev + own);
    if i == users.len() - 1 {
        assert(all[prev.len() + m] == own[m]);
    } else {
        assert(rest[i] == users[i]);
        lemma_users_commands_include(chroot, rest, i, m);
        let k = choose|k: int| 0 <= k < prev.len() && prev[k] == user_commands(chroot, users[i])[m];
        assert(all[k] == prev[k]);
    }
}

/// Every user other than root gets an account, and every user whose
/// password the settings give gets that password, root included.
pub proof fn lemma_user_accounts(partitions: PartitionPlan, plan: InstallPlanView)
    ensures
        forall|i: int|
            0 <= i < plan.users.len() && plan.users[i].username != "root"@ ==> installation_commands(
                partitions,
                plan,
            ).contains(
                (
                    if plan.init_system == "systemd"@ {
                        "arch-chroot"@
                    } else {
                        "artix-chroot"@
                    },
                    seq!["/mnt"@, "useradd"@, "-m"@, #[trigger] plan.users[i].username],
                ),
            ),
        forall|i: int|
            0 <= i < plan.users.len() && (#[trigger] plan.users[i]).password is Some ==> installation_commands(
                partitions,
                plan,
            ).contains(
                (
                    if plan.init_system == "systemd"@ {
                        "arch-chroot"@
                    } else {
                        "artix-chroot"@
                    },
                    seq![
                        "/mnt"@,
                        "usermod"@,
                        plan.users[i].username,
                        "-p"@,
                        plan.users[i].password.unwrap(),
                    ],
                ),
            ),
{
    let chroot = chroot_tool(plan.init_system);
    let before = plan_commands(partitions) + system_commands(plan);
    let users = users_commands(chroot, plan.users);
    let all = installation_commands(partitions, plan);
    assert(all == before + users + seq![sudoers_command(chroot)]);
    assert forall|i: int|
        0 <= i < plan.users.len() && plan.users[i].username != "root"@ implies all.contains(
        (chroot, seq!["/mnt"@, "useradd"@, "-m"@, #[trigger] plan.users[i].username]),
    ) by {
        let u = plan.users[i];
        let own = user_commands(chroot, u);
        assert(own[0] =~~= (chroot, seq!["/mnt"@, "useradd"@, "-m"@, u.username]));
        lemma_users_commands_include(chroot, plan.users, i, 0);
        let k = choose|k: int| 0 <= k < users.len() && users[k] == own[0];
        assert(all[before.len() + k] == users[k]);
    }
    assert forall|i: int| 0 <= i < plan.users.len() && (#[trigger] plan.users[i]).password is Some implies all.contains(
        (
            chroot,
            seq!["/mnt"@, "usermod"@, plan.users[i].username, "-p"@, plan.users[i].password.unwrap()],
        ),
    ) by {
        let u = plan.users[i];
        let own = user_commands(chroot, u);
        let m: int = if u.username == "root"@ {
            0
        } else {
            1
        };
        assert(own[m] =~~= (chroot, seq!["/mnt"@, "usermod"@, u.username, "-p"@, u.password.unwrap()]));
        lemma_users_commands_include(chroot, plan.users, i, m);
        let k = choose|k: int| 0 <= k < users.len() && users[k] == own[m];
        assert(all[before.len() + k] == users[k]);
    }
}

/// The packages installed into `/mnt` hold every kernel of the settings with
/// its headers, and every package that the settings ask for.
pub proof fn lemma_strap_installs_everything(partitions: PartitionPlan, plan: InstallPlanView)
    ensures
        ({
            let c = installation_commands(partitions, plan)[plan_commands(partitions).len() + 2int];
            &&& c.0 == if plan.init_system == "systemd"@ {
                "pacstrap"@
            } else {
                "basestrap"@
            }
            &&& c.1[0] == "/mnt"@
            &&& forall|i: int|
                0 <= i < plan.kernels.len() ==> c.1.contains(#[trigger] plan.kernels[i]) && c.1.contains(
                    plan.kernels[i] + seq!['-', 'h', 'e', 'a', 'd', 'e', 'r', 's'],
                )
            &&& forall|j: int|
                0 <= j < plan.system_packages.len() ==> c.1.contains(#[trigger] plan.system_packages[j])
        }),
{
    reveal_strlit("-headers");
    assert("-headers"@ =~= seq!['-', 'h', 'e', 'a', 'd', 'e', 'r', 's']);
    let init = plan.init_system;
    let pp = plan_commands(partitions);
    let all = installation_commands(partitions, plan);
    let strap = strap_command(init, plan.kernels, plan.system_packages);
    assert(system_commands(plan)[2] == strap);
    assert(all[pp.len() + 2int] == system_commands(plan)[2]);
    let base = base_strap_args();
    let ks = kernel_packages(plan.kernels);
    let ip = init_packages(init);
    let pk = plan.system_packages;
    assert(strap.1 == base + ks + ip + pk);
    lemma_kernel_packages(plan.kernels);
    assert forall|i: int| 0 <= i < plan.kernels.len() implies strap.1.contains(#[trigger] plan.kernels[i])
        && strap.1.contains(plan.kernels[i] + seq!['-', 'h', 'e', 'a', 'd', 'e', 'r', 's']) by {
        let k1 = 2 * i;
        assert(ks[k1] == plan.kernels[i]);
        assert(ks[k1 + 1] == plan.kernels[i] + "-headers"@);
        assert(strap.1[base.len() + k1] == ks[k1]);
        assert(strap.1[base.len() + k1 + 1] == ks[k1 + 1]);
    }
    assert forall|j: int| 0 <= j < pk.len() implies strap.1.contains(#[trigger] pk[j]) by {
        assert(strap.1[base.len() + ks.len() + ip.len() + j] == pk[j]);
    }
}

proof fn lemma_kernel_packages(kernels: Seq<Seq<char>>)
    ensures
        kernel_packages(kernels).len() == 2 * kernels.len(),
        forall|i: int|
            0 <= i < kernels.len() ==> kernel_packages(kernels)[2 * i] == #[trigger] kernels[i]
                && kernel_packages(kernels)[2 * i + 1] == kernels[i] + "-headers"@,
    decreases kernels.len(),
{
    if kernels.len() > 0 {
        let rest = kernels.drop_last();
        lemma_kernel_packages(rest);
        let ks = kernel_packages(kernels);
        assert forall|i: int| 0 <= i < kernels.len() implies ks[2 * i] == #[trigger] kernels[i] && ks[2
            * i + 1] == kernels[i] + "-headers"@ by {
            if i < kernels.len() - 1 {
                assert(rest[i] == kernels[i]);
            }
        }
    }
}

/// Every administrator other than root is added to the `wheel` group,
/// whether or not the settings give their password; and every command that
/// adds someone to `wheel` names an administrator other than root.
pub proof fn lemma_admins_join_wheel(partitions: PartitionPlan, plan: InstallPlanView)
    ensures
        forall|i: int|
            0 <= i < plan.users.len() && plan.users[i].admin && plan.users[i].username != "root"@
                ==> installation_commands(partitions, plan).contains(
                (
                    if plan.init_system == "systemd"@ {
                        "arch-chroot"@
                    } else {
                        "artix-chroot"@
                    },
                    seq!["/mnt"@, "usermod"@, #[trigger] plan.users[i].username, "-a"@, "-G"@, "wheel"@],
                ),
            ),
        forall|k: int|
            0 <= k < installation_commands(partitions, plan).len() && grants_wheel(
                #[trigger] installation_commands(partitions, plan)[k],
            ) ==> has_admin_user(plan.users, installation_commands(partitions, plan)[k].1[2]),
{
    reveal_strlit("/mnt");
    reveal_strlit("usermod");
    let chroot = chroot_tool(plan.init_system);
    let before = plan_commands(partitions) + system_commands(plan);
    let users = users_commands(chroot, plan.users);
    let sudo = seq![sudoers_command(chroot)];
    let all = installation_commands(partitions, plan);
    assert(all == before + users + sudo);
    lemma_partitioning_wheel_free(partitions);
    lemma_system_wheel_free(plan);
    lemma_wheel_free_concat(plan_commands(partitions), system_commands(plan));
    lemma_users_wheel(chroot, plan.users);
    assert(sudo[0].1.len() == 5);
    assert forall|i: int|
        0 <= i < plan.users.len() && plan.users[i].admin && plan.users[i].username != "root"@
            implies all.contains(
        (chroot, seq!["/mnt"@, "usermod"@, #[trigger] plan.users[i].username, "-a"@, "-G"@, "wheel"@]),
    ) by {
        let c = (chroot, seq!["/mnt"@, "usermod"@, plan.users[i].username, "-a"@, "-G"@, "wheel"@]);
        assert(users.contains(c));
        let k = choose|k: int| 0 <= k < users.len() && users[k] == c;
        assert(all[before.len() + k] == users[k]);
    }
    assert forall|k: int| 0 <= k < all.len() && grants_wheel(#[trigger] all[k]) implies has_admin_user(
        plan.users,
        all[k].1[2],
    ) by {
        if k < before.len() {
            assert(all[k] == before[k]);
        } else if k < before.len() + users.len() {
            assert(all[k] == users[k - before.len()]);
        } else {
            assert(all[k] == sudo[0]);
        }
    }
}

fn push_in_chroot(cmds: &mut Vec<(String, Vec<String>)>, chroot: &str, args: Vec<String>)
    ensures
        final(cmds).deep_view() == old(cmds).deep_view().push(in_chroot(chroot@, args.deep_view())),
{
    let ghost inner = args.deep_view();
    let mut full = args;
    full.insert(0, owned("/mnt"));
    assert(full.deep_view() =~= seq!["/mnt"@] + inner);
    push_command(cmds, chroot, full);
}

fn strap(plan: &InstallPlan) -> (res: (String, Vec<String>))
    ensures
        res.deep_view() == strap_command(plan@.init_system, plan@.kernels, plan@.system_packages),
{
    let init = plan.init_system.as_str();
    let systemd = str_eq(init, "systemd");
    let program = if systemd {
        owned("pacstrap")
    } else {
        owned("basestrap")
    };
    let mut args = vec![
        owned("/mnt"),
        owned("base"),
        owned("base-devel"),
        owned("linux-firmware"),
        owned("grub"),
        owned("efibootmgr"),
        owned("networkmanager"),
        owned("napm"),
        owned("neoarch-keyring"),
        owned("ntp"),
    ];
    assert(args.deep_view() =~= base_strap_args());
    let ghost kernels = plan.kernels.deep_view();
    let mut i: usize = 0;
    while i < plan.kernels.len()
        invariant
            i <= kernels.len(),
            kernels == plan.kernels.deep_view(),
            args.deep_view() =~= base_strap_args() + kernel_packages(kernels.take(i as int)),
        decreases kernels.len() - i,
    {
        let k = plan.kernels[i].as_str();
        let ghost before = args.deep_view();
        args.push(owned(k));
        args.push(concat2(k, "-headers"));
        assert(kernels.take(i + 1).drop_last() =~= kernels.take(i as int));
        assert(kernels[i as int] == k@);
        assert(args.deep_view() =~= before.push(k@).push(k@ + "-headers"@));
        i = i + 1;
    }
    assert(kernels.take(i as int) =~= kernels);
    let ghost after_kernels = args.deep_view();
    if !systemd {
        args.push(owned(init));
        args.push(owned("artix-archlinux-support"));
        args.push(concat2("elogind-", init));
        args.push(concat2("networkmanager-", init));
        args.push(concat2("ntp-", init));
    }
    assert(args.deep_view() =~= after_kernels + init_packages(init@));
    let ghost after_init = args.deep_view();
    let ghost packages = plan.system_packages.deep_view();
    let mut j: usize = 0;
    while j < plan.system_packages.len()
        invariant
            j <= packages.len(),
            packages == plan.system_packages.deep_view(),
            args.deep_view() =~= after_init + packages.take(j as int),
        decreases packages.len() - j,
    {
        let ghost before = args.deep_view();
        let package = plan.system_packages[j].clone();
        assert(package@ == packages[j as int]);
        args.push(package);
        assert(args.deep_view() =~= before.push(packages[j as int]));
        assert(packages.take(j + 1) =~= packages.take(j as int).push(packages[j as int]));
        j = j + 1;
    }
    assert(packages.take(j as int) =~= packages);
    (program, args)
}

fn push_keyring_commands(cmds: &mut Vec<(String, Vec<String>)>, chroot: &str, fstab: &str)
    ensures
        final(cmds).deep_view() =~~= old(cmds).deep_view() + keyring_commands(chroot@, fstab@),
{
    push_command(cmds, "cp", vec![owned("-f"), owned("/etc/pacman.conf"), owned("/mnt/etc/pacman.conf")]);
    push_in_chroot(cmds, chroot, vec![owned("pacman-key"), owned("--init")]);
    push_in_chroot(
        cmds,
        chroot,
        vec![
            owned("pacman-key"),
            owned("--populate"),
            owned("artix"),
            owned("archlinux"),
            owned("neoarch"),
        ],
    );
    push_command(cmds, "bash", vec![owned("-c"), concat2(fstab, " -U /mnt >> /mnt/etc/fstab")]);
}

fn push_locale_commands(cmds: &mut Vec<(String, Vec<String>)>, chroot: &str, timezone: &str, l: &str)
    ensures
        final(cmds).deep_view() =~~= old(cmds).deep_view() + locale_commands(chroot@, timezone@, l@),
{
    push_in_chroot(
        cmds,
        chroot,
        vec![
            owned("ln"),
            owned("-sf"),
            concat2("/usr/share/zoneinfo/", timezone),
            owned("/etc/localtime"),
        ],
    );
    push_in_chroot(cmds, chroot, vec![owned("hwclock"), owned("--systohc")]);
    let mut sed_locale = concat3("s/#", l, "/");
    sed_locale.append(l);
    sed_locale.append("/g");
    push_in_chroot(
        cmds,
        chroot,
        vec![owned("sed"), owned("-i"), sed_locale, owned("/etc/locale.gen")],
    );
    push_in_chroot(cmds, chroot, vec![owned("locale-gen")]);
    push_in_chroot(
        cmds,
        chroot,
        vec![
            owned("bash"),
            owned("-c"),
            concat3("echo 'export LANG=\"", l, "\"' > /etc/locale.conf"),
        ],
    );
    push_in_chroot(
        cmds,
        chroot,
        vec![
            owned("bash"),
            owned("-c"),
            owned("echo 'export LC_COLLATE=\"C\"' >> /etc/locale.conf"),
        ],
    );
}

fn push_bootloader_commands(cmds: &mut Vec<(String, Vec<String>)>, chroot: &str)
    ensures
        final(cmds).deep_view() =~~= old(cmds).deep_view() + bootloader_commands(chroot@),
{
    push_in_chroot(
        cmds,
        chroot,
        vec![
            owned("sed"),
            owned("-i"),
            owned("s|^GRUB_DISTRIBUTOR=.*|GRUB_DISTRIBUTOR=\"NeoArch\"|"),
            owned("/etc/default/grub"),
        ],
    );
    push_in_chroot(
        cmds,
        chroot,
        vec![
            owned("grub-install"),
            owned("--target=x86_64-efi"),
            owned("--efi-directory=/boot/efi"),
            owned("--bootloader-id=neoarch-grub"),
        ],
    );
    push_in_chroot(
        cmds,
        chroot,
        vec![owned("grub-mkconfig"), owned("-o"), owned("/boot/grub/grub.cfg")],
    );
}

fn push_network_commands(
    cmds: &mut Vec<(String, Vec<String>)>,
    openrc: bool,
    chroot: &str,
    h: &str,
    Ghost(init): Ghost<Seq<char>>,
)
    requires
        openrc == (init == "openrc"@),
    ensures
        final(cmds).deep_view() =~~= old(cmds).deep_view() + network_commands(init, chroot@, h@),
{
    push_in_chroot(
        cmds,
        chroot,
        vec![owned("bash"), owned("-c"), concat3("echo '", h, "' > /etc/hostname")],
    );
    let ghost part1 = cmds.deep_view();
    if openrc {
        push_in_chroot(
            cmds,
            chroot,
            vec![
                owned("bash"),
                owned("-c"),
                concat3("echo \"hostname='", h, "'\" > /etc/conf.d/hostname"),
            ],
        );
    }
    let ghost part2 = cmds.deep_view();
    let mut hosts = concat3("echo '127.0.1.1 ", h, ".localdomain ");
    hosts.append(h);
    hosts.append("' >> /etc/hosts");
    push_in_chroot(cmds, chroot, vec![owned("bash"), owned("-c"), hosts]);
    push_in_chroot(cmds, chroot, vec![owned("rc-update"), owned("add"), owned("NetworkManager")]);
    let ghost conf = if init == "openrc"@ {
        seq![
            in_chroot(
                chroot@,
                seq!["bash"@, "-c"@, "echo \"hostname='"@ + h@ + "'\" > /etc/conf.d/hostname"@],
            ),
        ]
    } else {
        Seq::empty()
    };
    assert(part2 =~~= part1 + conf);
}

fn push_system_commands(cmds: &mut Vec<(String, Vec<String>)>, plan: &InstallPlan)
    ensures
        final(cmds).deep_view() == old(cmds).deep_view() + system_commands(plan@),
{
    let ghost start = cmds.deep_view();
    let init = plan.init_system.as_str();
    let systemd = str_eq(init, "systemd");
    let openrc = str_eq(init, "openrc");
    let chroot = if systemd {
        "arch-chroot"
    } else {
        "artix-chroot"
    };
    let fstab = if systemd {
        "genfstab"
    } else {
        "fstabgen"
    };
    push_command(cmds, "rc-service", vec![owned("ntpd"), owned("start")]);
    push_command(cmds, "rc-update", vec![owned("add"), owned("ntpd")]);
    let (program, args) = strap(plan);
    push_command(cmds, program.as_str(), args);
    let ghost part1 = cmds.deep_view();
    if !systemd {
        push_command(
            cmds,
            "cp",
            vec![
                owned("-f"),
                owned("/etc/pacman.d/mirrorlist-arch"),
                owned("/mnt/etc/pacman.d/mirrorlist-arch"),
            ],
        );
    }
    let ghost part2 = cmds.deep_view();
    push_keyring_commands(cmds, chroot, fstab);
    push_locale_commands(cmds, chroot, plan.timezone.as_str(), plan.language.as_str());
    push_bootloader_commands(cmds, chroot);
    push_network_commands(cmds, openrc, chroot, plan.hostname.as_str(), Ghost(plan@.init_system));
    let ghost v = plan@;
    assert(part1 =~~= start + ntp_commands() + seq![
        strap_command(v.init_system, v.kernels, v.system_packages),
    ]);
    assert(part2 =~~= part1 + mirrorlist_commands(v.init_system));
    assert(cmds.deep_view() =~~= start + system_commands(v));
}

fn push_user_commands(
    cmds: &mut Vec<(String, Vec<String>)>,
    passwordless: &mut Vec<String>,
    chroot: &str,
    u: &InstalledUser,
)
    ensures
        final(cmds).deep_view() =~~= old(cmds).deep_view() + user_commands(chroot@, u@),
        final(passwordless).deep_view() =~= if u.password is None {
            old(passwordless).deep_view().push(u.username@)
        } else {
            old(passwordless).deep_view()
        },
{
    let name = u.username.as_str();
    let root = str_eq(name, "root");
    if !root {
        push_in_chroot(cmds, chroot, vec![owned("useradd"), owned("-m"), owned(name)]);
    }
    let ghost part1 = cmds.deep_view();
    match &u.password {
        Some(hash) => {
            push_in_chroot(
                cmds,
                chroot,
                vec![owned("usermod"), owned(name), owned("-p"), hash.clone()],
            );
        },
        None => {
            let ghost before = passwordless.deep_view();
            passwordless.push(owned(name));
            assert(passwordless.deep_view() =~= before.push(u.username@));
        },
    }
    let ghost part2 = cmds.deep_view();
    if !root && u.admin {
        push_in_chroot(
            cmds,
            chroot,
            vec![
                owned("usermod"),
                owned(name),
                owned("-a"),
                owned("-G"),
                owned("wheel"),
            ],
        );
    }
    let ghost password = match u@.password {
        Some(p) => seq![in_chroot(chroot@, seq!["usermod"@, u@.username, "-p"@, p])],
        None => Seq::<CommandSpec>::empty(),
    };
    assert(part2 =~~= part1 + password);
}

fn push_users_commands(
    cmds: &mut Vec<(String, Vec<String>)>,
    passwordless: &mut Vec<String>,
    chroot: &str,
    users: &Vec<InstalledUser>,
)
    ensures
        final(cmds).deep_view() =~~= old(cmds).deep_view() + users_commands(
            chroot@,
            users@.map_values(|u: InstalledUser| u@),
        ),
        final(passwordless).deep_view() =~= old(passwordless).deep_view() + passwordless_users(
            users@.map_values(|u: InstalledUser| u@),
        ),
{
    let ghost views = users@.map_values(|u: InstalledUser| u@);
    let ghost cmds0 = cmds.deep_view();
    let ghost pw0 = passwordless.deep_view();
    let mut i: usize = 0;
    while i < users.len()
        invariant
            i <= users@.len(),
            views == users@.map_values(|u: InstalledUser| u@),
            cmds.deep_view() =~~= cmds0 + users_commands(chroot@, views.take(i as int)),
            passwordless.deep_view() =~= pw0 + passwordless_users(views.take(i as int)),
        decreases users@.len() - i,
    {
        push_user_commands(cmds, passwordless, chroot, &users[i]);
        proof {
            let t = views.take(i + 1);
            assert(t.drop_last() =~= views.take(i as int));
            assert(t.last() == users@[i as int]@);
            assert(cmds0 + users_commands(chroot@, t) =~~= cmds0 + users_commands(
                chroot@,
                views.take(i as int),
            ) + user_commands(chroot@, users@[i as int]@));
        }
        i = i + 1;
    }
    assert(views.take(i as int) =~= views);
}

/// What the installation runs: its commands, in order, and the users who
/// are asked for a password once they have run.
#[derive(Debug)]
pub struct InstallScript {
    pub commands: Vec<(String, Vec<String>)>,
    pub passwordless_users: Vec<String>,
}

/// Installs the system that a partition plan and the settings describe.
pub struct Installer {
    partition_plan: PartitionPlan,
}

impl Installer {
    /// The partition plan that the installation carries out first.
    pub closed spec fn partition_plan(&self) -> PartitionPlan {
        self.partition_plan
    }

    /// An installer for `partition_plan`.
    pub fn new(partition_plan: PartitionPlan) -> (res: Installer)
        ensures
            res.partition_plan() == partition_plan,
    {
        Installer { partition_plan }
    }

    /// The commands of the installation with the settings `plan`, and the
    /// users whose password is asked for afterwards. Only OpenRC systems
    /// can be installed.
    pub fn installation(&self, plan: &InstallPlan) -> (res: InstallScript)
        requires
            plan@.init_system == "openrc"@,
        ensures
            res.commands.deep_view() == installation_commands(self.partition_plan(), plan@),
            res.passwordless_users.deep_view() == passwordless_users(plan@.users),
    {
        let mut commands = self.partition_plan.commands();
        push_system_commands(&mut commands, plan);
        let chroot = if str_eq(plan.init_system.as_str(), "systemd") {
            "arch-chroot"
        } else {
            "artix-chroot"
        };
        let mut passwordless: Vec<String> = Vec::new();
        push_users_commands(&mut commands, &mut passwordless, chroot, &plan.users);
        push_in_chroot(
            &mut commands,
            chroot,
            vec![
                owned("sed"),
                owned("-i"),
                owned("s|^# %wheel ALL=(ALL:ALL) ALL|%wheel ALL=(ALL:ALL) ALL|"),
                owned("/etc/sudoers"),
            ],
        );
        assert(passwordless.deep_view() =~= passwordless_users(plan@.users));
        assert(commands.deep_view() =~~= installation_commands(self.partition_plan(), plan@));
        InstallScript { commands, passwordless_users: passwordless }
    }

    /// The error that stops the installation when `cmd` fails: it shows the
    /// command line as a shell prompt would.
    pub fn command_failure(cmd: &(String, Vec<String>)) -> (res: InstallerError)
        ensures
            res matches InstallerError::InstallError(msg) && msg@ == "$ "@ + command_text(
                cmd.deep_view(),
            ),
    {
        let text = command_line_text(cmd);
        InstallerError::InstallError(concat2("$ ", text.as_str()))
    }

    /// The line that `chpasswd` is given for `username`, when the password
    /// and its repetition agree; nothing when they differ and the user has
    /// to try again.
    pub fn password_entry(username: &str, password: &str, repeated: &str) -> (res: Option<String>)
        ensures
            res is Some <==> password@ == repeated@,
            res matches Some(line) ==> line@ == username@ + ":"@ + password@,
    {
        if str_eq(password, repeated) {
            Some(concat3(username, ":", password))
        } else {
            None
        }
    }

    /// The error that stops the installation when the password of
    /// `username` cannot be set.
    pub fn password_failure(username: &str) -> (res: InstallerError)
        ensures
            res matches InstallerError::InstallError(msg) && msg@ == "Failed to set password for "@
                + username@,
    {
        InstallerError::InstallError(concat2("Failed to set password for ", username))
    }
}

} // verus!
