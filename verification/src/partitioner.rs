//! Partition plans and the commands that carry them out.

use vstd::prelude::*;
use vstd::string::*;

use crate::manual::{
    detect_manual_partitioning, distinct_devices, empty_layout, layout_of, partition_views, visit_all,
    MountedFilesystem,
};
use crate::text::{
    concat2, concat3, contains, contains_seq, occurs_at, decimal, decimal_string, has_prefix, join, joined,
    owned, signed_decimal, signed_decimal_string, starts_with, str_eq, trim, trim_end,
    trim_end_class, trimmed, CharClass,
};
use crate::ui::{self, box_args, menu_args};

verus! {

/// A filesystem that the installer knows how to handle.
#[derive(Debug, Clone, Copy, PartialEq, Eq, Structural)]
pub enum Filesystem {
    Btrfs,
    Ext4,
    Xfs,
    Fat,
    Vfat,
}

/// The name under which a filesystem is known to `mkfs`, `mount` and `findmnt`.
pub open spec fn filesystem_name(fs: Filesystem) -> Seq<char> {
    match fs {
        Filesystem::Btrfs => "btrfs"@,
        Filesystem::Ext4 => "ext4"@,
        Filesystem::Xfs => "xfs"@,
        Filesystem::Fat => "fat"@,
        Filesystem::Vfat => "vfat"@,
    }
}

impl Filesystem {
    /// The name of the filesystem.
    pub fn as_str(&self) -> (res: &'static str)
        ensures
            res@ == filesystem_name(*self),
    {
        match self {
            Filesystem::Btrfs => "btrfs",
            Filesystem::Ext4 => "ext4",
            Filesystem::Xfs => "xfs",
            Filesystem::Fat => "fat",
            Filesystem::Vfat => "vfat",
        }
    }
}

impl Filesystem {
    /// The name of the filesystem, as it is displayed.
    pub fn to_string(&self) -> (res: String)
        ensures
            res@ == filesystem_name(*self),
    {
        owned(self.as_str())
    }
}

/// The filesystem whose name is `name`, if there is one.
pub open spec fn filesystem_named(name: Seq<char>) -> Option<Filesystem> {
    if name == "btrfs"@ {
        Some(Filesystem::Btrfs)
    } else if name == "ext4"@ {
        Some(Filesystem::Ext4)
    } else if name == "xfs"@ {
        Some(Filesystem::Xfs)
    } else if name == "fat"@ {
        Some(Filesystem::Fat)
    } else if name == "vfat"@ {
        Some(Filesystem::Vfat)
    } else {
        None
    }
}

/// The message with which an unknown filesystem name is refused.
pub open spec fn unknown_filesystem_message(name: Seq<char>) -> Seq<char> {
    "Unknown filesystem: '"@ + name + "'"@
}

impl Filesystem {
    /// Reads a filesystem from its name; any other name is refused with a message.
    pub fn parse(value: &str) -> (res: Result<Filesystem, String>)
        ensures
            match res {
                Ok(fs) => filesystem_named(value@) == Some(fs),
                Err(msg) => filesystem_named(value@) is None
                    && msg@ == unknown_filesystem_message(value@),
            },
    {
        if str_eq(value, "btrfs") {
            Ok(Filesystem::Btrfs)
        } else if str_eq(value, "ext4") {
            Ok(Filesystem::Ext4)
        } else if str_eq(value, "xfs") {
            Ok(Filesystem::Xfs)
        } else if str_eq(value, "fat") {
            Ok(Filesystem::Fat)
        } else if str_eq(value, "vfat") {
            Ok(Filesystem::Vfat)
        } else {
            let mut msg = concat2("Unknown filesystem: '", value);
            msg.append("'");
            Err(msg)
        }
    }
}

/// Every filesystem is read back from its own name.
pub proof fn lemma_filesystem_name_round_trip(fs: Filesystem)
    ensures
        filesystem_named(filesystem_name(fs)) == Some(fs),
{
    reveal_strlit("btrfs");
    reveal_strlit("ext4");
    reveal_strlit("xfs");
    reveal_strlit("fat");
    reveal_strlit("vfat");
    assert("xfs"@[0] != "fat"@[0]);
    assert("ext4"@[0] != "vfat"@[0]);
}

/// A block device as `lsblk --json -O` lists it.
#[derive(Debug)]
pub struct BlockDevice {
    pub name: String,
    pub path: String,
    pub model: Option<String>,
    pub dev_type: String,
    pub mountpoints: Option<Vec<String>>,
    pub children: Option<Vec<BlockDevice>>,
    pub size: String,
}

/// A device that the simple layout may be installed on: a whole disk that
/// is not a loop device or a RAM disk.
pub open spec fn is_installable_disk(d: BlockDevice) -> bool {
    &&& d.dev_type@ == "disk"@
    &&& !has_prefix(d.path@, "/dev/loop"@)
    &&& !has_prefix(d.path@, "/dev/ram"@)
    &&& !has_prefix(d.path@, "/dev/zram"@)
}

/// The installable disks among `devices`, in their order.
pub open spec fn installable_disks(devices: Seq<BlockDevice>) -> Seq<BlockDevice>
    decreases devices.len(),
{
    if devices.len() == 0 {
        Seq::empty()
    } else {
        let rest = installable_disks(devices.drop_last());
        if is_installable_disk(devices.last()) {
            rest.push(devices.last())
        } else {
            rest
        }
    }
}

/// The device node of partition `n` on `disk`: kernels name the partitions
/// of NVMe and MMC devices with a `p` before the number.
pub open spec fn partition_device(disk: Seq<char>, n: nat) -> Seq<char> {
    if contains_seq(disk, "nvme"@) || contains_seq(disk, "mmcblk"@) {
        disk + "p"@ + decimal(n)
    } else {
        disk + decimal(n)
    }
}

fn partition_name(disk: &str, n: u64) -> (res: String)
    ensures
        res@ == partition_device(disk@, n as nat),
{
    let number = decimal_string(n);
    if contains(disk, "nvme") || contains(disk, "mmcblk") {
        let mut r = concat2(disk, "p");
        r.append(number.as_str());
        r
    } else {
        concat2(disk, number.as_str())
    }
}

fn device_part(device: &str, part_n: u16) -> (res: String)
    ensures
        res@ == partition_device(device@, part_n as nat),
{
    partition_name(device, part_n as u64)
}

fn is_installable(d: &BlockDevice) -> (res: bool)
    ensures
        res == is_installable_disk(*d),
{
    str_eq(d.dev_type.as_str(), "disk") && !starts_with(d.path.as_str(), "/dev/loop")
        && !starts_with(d.path.as_str(), "/dev/ram") && !starts_with(d.path.as_str(), "/dev/zram")
}

/// A partition that the installed system mounts.
#[derive(Debug, Clone)]
pub struct Partition {
    pub device_path: String,
    pub filesystem: Filesystem,
    pub mountpoint: Option<String>,
}

/// A Btrfs subvolume and where it is mounted.
#[derive(Debug, Clone)]
pub struct BtrfsSubvolume {
    pub name: String,
    pub mountpoint: String,
}

/// What a partition is, as the specifications speak of it.
pub struct PartitionView {
    pub device_path: Seq<char>,
    pub filesystem: Filesystem,
    pub mountpoint: Option<Seq<char>>,
}

impl View for Partition {
    type V = PartitionView;

    open spec fn view(&self) -> PartitionView {
        PartitionView {
            device_path: self.device_path@,
            filesystem: self.filesystem,
            mountpoint: match self.mountpoint {
                Some(m) => Some(m@),
                None => None,
            },
        }
    }
}

impl View for BtrfsSubvolume {
    type V = (Seq<char>, Seq<char>);

    open spec fn view(&self) -> (Seq<char>, Seq<char>) {
        (self.name@, self.mountpoint@)
    }
}

impl BtrfsSubvolume {
    /// A subvolume from its name and its mountpoint.
    pub fn from_pair(name: &str, mountpoint: &str) -> (res: BtrfsSubvolume)
        ensures
            res.name@ == name@,
            res.mountpoint@ == mountpoint@,
    {
        BtrfsSubvolume { name: owned(name), mountpoint: owned(mountpoint) }
    }
}

/// How the target disks are laid out.
#[derive(Debug, Clone)]
pub enum PartitionPlan {
    /// The whole of `device` is wiped and given the standard layout.
    Simple { device: String },
    /// The user partitioned and mounted the disks under `/mnt` by hand.
    Manual { partitions: Vec<Partition>, btrfs_subvolumes: Vec<BtrfsSubvolume> },
}

/// A command line: the program and its arguments.
pub type CommandSpec = (Seq<char>, Seq<Seq<char>>);

/// The subvolumes of the simple layout and their mountpoints.
pub open spec fn simple_subvolume_table() -> Seq<(Seq<char>, Seq<char>)> {
    seq![
        ("@"@, "/"@),
        ("@home"@, "/home"@),
        ("@var"@, "/var"@),
        ("@log"@, "/var/log"@),
        ("@cache"@, "/var/cache"@),
        ("@snapshots"@, "/.snapshots"@),
    ]
}

/// The subvolumes of the simple layout and their mountpoints.
pub fn simple_subvolumes() -> (res: Vec<(&'static str, &'static str)>)
    ensures
        res@.len() == simple_subvolume_table().len(),
        forall|i: int|
            0 <= i < res@.len() ==> (#[trigger] res@[i]).0@ == simple_subvolume_table()[i].0
                && res@[i].1@ == simple_subvolume_table()[i].1,
{
    vec![
        ("@", "/"),
        ("@home", "/home"),
        ("@var", "/var"),
        ("@log", "/var/log"),
        ("@cache", "/var/cache"),
        ("@snapshots", "/.snapshots"),
    ]
}

/// The command that creates subvolume `name` under the temporary root mount.
pub open spec fn subvolume_create_command(name: Seq<char>) -> CommandSpec {
    ("btrfs"@, seq!["subvolume"@, "create"@, "/mnt/"@ + name])
}

/// The command that mounts subvolume `name` of `root` at `path` under `/mnt`.
pub open spec fn subvolume_mount_command(name: Seq<char>, path: Seq<char>, root: Seq<char>) -> CommandSpec {
    (
        "mount"@,
        seq![
            "-o"@,
            "subvol="@ + name + ",compress=zstd,noatime"@,
            root,
            trim_end_class("/mnt"@ + path, CharClass::Slash),
            "--mkdir"@,
        ],
    )
}

/// The commands that wipe `device`, give it an EFI partition and a Btrfs
/// partition, create the subvolumes of the simple layout and mount it all
/// under `/mnt`.
pub open spec fn simple_plan_commands(device: Seq<char>) -> Seq<CommandSpec> {
    let efi = partition_device(device, 1);
    let root = partition_device(device, 2);
    let table = simple_subvolume_table();
    seq![
        ("wipefs"@, seq!["-af"@, device]),
        ("sgdisk"@, seq!["--zap-all"@, device]),
        ("sgdisk"@, seq!["--clear"@, device]),
        ("partprobe"@, seq![device]),
        ("udevadm"@, seq!["settle"@]),
        ("parted"@, seq!["-s"@, device, "mkpart"@, "ESP"@, "fat32"@, "1MiB"@, "1025MiB"@]),
        ("parted"@, seq!["-s"@, device, "set"@, "1"@, "esp"@, "on"@]),
        ("parted"@, seq!["-s"@, device, "mkpart"@, "primary"@, "btrfs"@, "1025MiB"@, "100%"@]),
        ("partprobe"@, seq![device]),
        ("udevadm"@, seq!["settle"@]),
        ("mkfs.vfat"@, seq!["-F32"@, "-n"@, "NEOARCH_EFI"@, efi]),
        ("mkfs.btrfs"@, seq!["-f"@, "-L"@, "NEOARCH_BTRFS_ROOT"@, root]),
        ("mount"@, seq![root, "/mnt"@]),
    ] + table.map_values(|e: (Seq<char>, Seq<char>)| subvolume_create_command(e.0)) + seq![
        ("umount"@, seq!["/mnt"@]),
    ] + table.map_values(|e: (Seq<char>, Seq<char>)| subvolume_mount_command(e.0, e.1, root))
        + seq![("mount"@, seq![efi, "/mnt/boot/efi"@, "--mkdir"@])]
}

/// The commands that carry out `plan`; a manual plan needs none.
pub open spec fn plan_commands(plan: PartitionPlan) -> Seq<CommandSpec> {
    match plan {
        PartitionPlan::Simple { device } => simple_plan_commands(device@),
        PartitionPlan::Manual { .. } => Seq::empty(),
    }
}

/// The text of a command line: the program, a space, and the arguments
/// separated by spaces.
pub open spec fn command_text(c: CommandSpec) -> Seq<char> {
    c.0 + " "@ + joined(c.1, " "@)
}

pub(crate) fn push_command(cmds: &mut Vec<(String, Vec<String>)>, program: &str, args: Vec<String>)
    ensures
        final(cmds).deep_view() == old(cmds).deep_view().push((program@, args.deep_view())),
{
    cmds.push((owned(program), args));
    assert(final(cmds).deep_view() =~= old(cmds).deep_view().push((program@, args.deep_view())));
}

impl PartitionPlan {
    /// The commands that carry out the plan, in order.
    pub fn commands(&self) -> (res: Vec<(String, Vec<String>)>)
        ensures
            res.deep_view() == plan_commands(*self),
    {
        let mut commands: Vec<(String, Vec<String>)> = Vec::new();
        match self {
            PartitionPlan::Simple { device } => {
                let d = device.as_str();
                let efi = device_part(d, 1);
                let root = device_part(d, 2);
                push_command(&mut commands, "wipefs", vec![owned("-af"), owned(d)]);
                push_command(&mut commands, "sgdisk", vec![owned("--zap-all"), owned(d)]);
                push_command(&mut commands, "sgdisk", vec![owned("--clear"), owned(d)]);
                push_command(&mut commands, "partprobe", vec![owned(d)]);
                push_command(&mut commands, "udevadm", vec![owned("settle")]);
                push_command(
                    &mut commands,
                    "parted",
                    vec![
                        owned("-s"),
                        owned(d),
                        owned("mkpart"),
                        owned("ESP"),
                        owned("fat32"),
                        owned("1MiB"),
                        owned("1025MiB"),
                    ],
                );
                push_command(
                    &mut commands,
                    "parted",
                    vec![owned("-s"), owned(d), owned("set"), owned("1"), owned("esp"), owned("on")],
                );
                push_command(
                    &mut commands,
                    "parted",
                    vec![
                        owned("-s"),
                        owned(d),
                        owned("mkpart"),
                        owned("primary"),
                        owned("btrfs"),
                        owned("1025MiB"),
                        owned("100%"),
                    ],
                );
                push_command(&mut commands, "partprobe", vec![owned(d)]);
                push_command(&mut commands, "udevadm", vec![owned("settle")]);
                push_command(
                    &mut commands,
                    "mkfs.vfat",
                    vec![owned("-F32"), owned("-n"), owned("NEOARCH_EFI"), efi.clone()],
                );
                push_command(
                    &mut commands,
                    "mkfs.btrfs",
                    vec![owned("-f"), owned("-L"), owned("NEOARCH_BTRFS_ROOT"), root.clone()],
                );
                push_command(&mut commands, "mount", vec![root.clone(), owned("/mnt")]);
                let ghost head = commands.deep_view();
                let table = simple_subvolumes();
                let ghost spec_table = simple_subvolume_table();
                let mut i: usize = 0;
                while i < table.len()
                    invariant
                        i <= table@.len(),
                        table@.len() == spec_table.len(),
                        spec_table == simple_subvolume_table(),
                        forall|j: int|
                            0 <= j < table@.len() ==> (#[trigger] table@[j]).0@ == spec_table[j].0
                                && table@[j].1@ == spec_table[j].1,
                        commands.deep_view() == head + spec_table.take(i as int).map_values(
                            |e: (Seq<char>, Seq<char>)| subvolume_create_command(e.0),
                        ),
                    decreases table@.len() - i,
                {
                    let (name, _) = table[i];
                    let args = vec![owned("subvolume"), owned("create"), concat2("/mnt/", name)];
                    assert(args.deep_view() =~= subvolume_create_command(spec_table[i as int].0).1);
                    push_command(&mut commands, "btrfs", args);
                    assert(spec_table.take(i + 1).map_values(
                        |e: (Seq<char>, Seq<char>)| subvolume_create_command(e.0),
                    ) =~= spec_table.take(i as int).map_values(
                        |e: (Seq<char>, Seq<char>)| subvolume_create_command(e.0),
                    ).push(subvolume_create_command(spec_table[i as int].0)));
                    assert(commands.deep_view() =~= head + spec_table.take(i + 1).map_values(
                        |e: (Seq<char>, Seq<char>)| subvolume_create_command(e.0),
                    ));
                    i = i + 1;
                }
                assert(spec_table.take(table@.len() as int) =~= spec_table);
                push_command(&mut commands, "umount", vec![owned("/mnt")]);
                let ghost middle = commands.deep_view();
                let mut i: usize = 0;
                while i < table.len()
                    invariant
                        i <= table@.len(),
                        table@.len() == spec_table.len(),
                        forall|j: int|
                            0 <= j < table@.len() ==> (#[trigger] table@[j]).0@ == spec_table[j].0
                                && table@[j].1@ == spec_table[j].1,
                        root@ == partition_device(device@, 2),
                        commands.deep_view() == middle + spec_table.take(i as int).map_values(
                            |e: (Seq<char>, Seq<char>)| subvolume_mount_command(e.0, e.1, root@),
                        ),
                    decreases table@.len() - i,
                {
                    let (name, path) = table[i];
                    let mut opts = concat2("subvol=", name);
                    opts.append(",compress=zstd,noatime");
                    let target = concat2("/mnt", path);
                    let target = trim_end(target.as_str(), CharClass::Slash);
                    let args = vec![owned("-o"), opts, root.clone(), target, owned("--mkdir")];
                    assert(args.deep_view() =~= subvolume_mount_command(
                        spec_table[i as int].0,
                        spec_table[i as int].1,
                        root@,
                    ).1);
                    push_command(&mut commands, "mount", args);
                    assert(spec_table.take(i + 1).map_values(
                        |e: (Seq<char>, Seq<char>)| subvolume_mount_command(e.0, e.1, root@),
                    ) =~= spec_table.take(i as int).map_values(
                        |e: (Seq<char>, Seq<char>)| subvolume_mount_command(e.0, e.1, root@),
                    ).push(subvolume_mount_command(spec_table[i as int].0, spec_table[i as int].1, root@)));
                    assert(commands.deep_view() =~= middle + spec_table.take(i + 1).map_values(
                        |e: (Seq<char>, Seq<char>)| subvolume_mount_command(e.0, e.1, root@),
                    ));
                    i = i + 1;
                }
                push_command(
                    &mut commands,
                    "mount",
                    vec![efi.clone(), owned("/mnt/boot/efi"), owned("--mkdir")],
                );
                assert(commands.deep_view() =~~= simple_plan_commands(device@));
            },
            PartitionPlan::Manual { .. } => {
                assert(commands.deep_view() =~= Seq::<CommandSpec>::empty());
            },
        }
        commands
    }
}

/// The text of one command line, as the dry run prints it.
pub fn command_line_text(cmd: &(String, Vec<String>)) -> (res: String)
    ensures
        res@ == command_text(cmd.deep_view()),
{
    let args = join(&cmd.1, " ");
    concat3(cmd.0.as_str(), " ", args.as_str())
}

/// The texts of `cmds`, one per line.
pub fn commands_text(cmds: &Vec<(String, Vec<String>)>) -> (res: String)
    ensures
        res@ == joined(cmds.deep_view().map_values(|c: CommandSpec| command_text(c)), "\n"@),
{
    let mut lines: Vec<String> = Vec::new();
    let mut i: usize = 0;
    while i < cmds.len()
        invariant
            i <= cmds@.len(),
            lines.deep_view() =~= cmds.deep_view().take(i as int).map_values(
                |c: CommandSpec| command_text(c),
            ),
        decreases cmds@.len() - i,
    {
        let line = command_line_text(&cmds[i]);
        let ghost prev = lines.deep_view();
        lines.push(line);
        assert(lines.deep_view() =~= prev.push(line@));
        assert(cmds.deep_view()[i as int] == cmds@[i as int].deep_view());
        assert(cmds.deep_view().take(i + 1) =~= cmds.deep_view().take(i as int).push(
            cmds.deep_view()[i as int],
        ));
        i = i + 1;
        assert(lines.deep_view() =~= cmds.deep_view().take(i as int).map_values(
            |c: CommandSpec| command_text(c),
        ));
    }
    assert(cmds.deep_view().take(i as int) =~= cmds.deep_view());
    join(&lines, "\n")
}

impl PartitionPlan {
    /// Every command of the plan on a line of its own, as a dry run shows them.
    pub fn dry_run_commands(&self) -> (res: String)
        ensures
            res@ == joined(plan_commands(*self).map_values(|c: CommandSpec| command_text(c)), "\n"@),
    {
        let cmds = self.commands();
        commands_text(&cmds)
    }
}

/// What the disk menu shows for `d`: its path, then its size and model.
pub open spec fn disk_label(d: BlockDevice) -> Seq<char> {
    let model = match d.model {
        Some(m) => trimmed(m@),
        None => Seq::empty(),
    };
    d.path@ + " ("@ + d.size@ + model + ")"@
}

/// The entries of the disk menu: each disk's path as tag, its label as
/// description.
pub open spec fn disk_items(disks: Seq<BlockDevice>) -> Seq<(Seq<char>, Seq<char>)> {
    disks.map_values(|d: BlockDevice| (d.path@, disk_label(d)))
}

/// The first of `disks` whose path is `path`.
pub open spec fn disk_with_path(disks: Seq<BlockDevice>, path: Seq<char>) -> Option<BlockDevice>
    decreases disks.len(),
{
    if disks.len() == 0 {
        None
    } else if disks[0].path@ == path {
        Some(disks[0])
    } else {
        disk_with_path(disks.drop_first(), path)
    }
}

/// How a subvolume of the simple layout is listed in the confirmation.
pub open spec fn subvolume_line(e: (Seq<char>, Seq<char>)) -> Seq<char> {
    "+-- "@ + e.0 + " ("@ + (if e.1 == "/"@ {
        "root"@
    } else {
        e.1
    }) + ")"@
}

/// The question that is asked before `disk` is wiped.
pub open spec fn confirmation_text(disk: BlockDevice) -> Seq<char> {
    let model = match disk.model {
        Some(m) => m@,
        None => "MODEL UNKNOWN"@,
    };
    "WARNING: This will ERASE ALL DATA on "@ + disk.path@ + " ("@ + model + ")\n\nLayout to create:\n- "@
        + partition_device(disk.path@, 1) + " (1GB FAT32) \u{2192} /boot/efi\n- "@ + partition_device(
        disk.path@,
        2,
    ) + " (Btrfs) with subvolumes:\n"@ + joined(
        simple_subvolume_table().map_values(|e: (Seq<char>, Seq<char>)| subvolume_line(e)),
        "\n"@,
    ) + "\n\nProceed with destruction?"@
}

/// The confirmation names, as the EFI partition and as the Btrfs root, the
/// very devices that the simple plan formats with `mkfs.vfat` and
/// `mkfs.btrfs`.
pub proof fn lemma_confirmation_names_formatted_partitions(disk: BlockDevice)
    ensures
        simple_plan_commands(disk.path@)[10].0 == "mkfs.vfat"@,
        simple_plan_commands(disk.path@)[11].0 == "mkfs.btrfs"@,
        holds_word(
            confirmation_text(disk),
            ")\n\nLayout to create:\n- "@ + simple_plan_commands(disk.path@)[10].1.last()
                + " (1GB FAT32) \u{2192} /boot/efi\n- "@ + simple_plan_commands(disk.path@)[11].1.last()
                + " (Btrfs) with subvolumes:\n"@,
        ),
{
    let cmds = simple_plan_commands(disk.path@);
    let efi = partition_device(disk.path@, 1);
    let root = partition_device(disk.path@, 2);
    assert(cmds[10].1 =~= seq!["-F32"@, "-n"@, "NEOARCH_EFI"@, efi]);
    assert(cmds[11].1 =~= seq!["-f"@, "-L"@, "NEOARCH_BTRFS_ROOT"@, root]);
    let model = match disk.model {
        Some(m) => m@,
        None => "MODEL UNKNOWN"@,
    };
    let head = "WARNING: This will ERASE ALL DATA on "@ + disk.path@ + " ("@ + model;
    let word = ")\n\nLayout to create:\n- "@ + efi + " (1GB FAT32) \u{2192} /boot/efi\n- "@ + root
        + " (Btrfs) with subvolumes:\n"@;
    let tail = joined(
        simple_subvolume_table().map_values(|e: (Seq<char>, Seq<char>)| subvolume_line(e)),
        "\n"@,
    ) + "\n\nProceed with destruction?"@;
    let text = confirmation_text(disk);
    assert(text =~= head + word + tail);
    assert(segment(text, head.len() as int, word.len() as int) =~= word);
}

/// A step of the simple partitioning dialog: where it starts, and what the
/// user answered to the box of the previous step.
pub enum SimpleStep {
    /// The dialog begins.
    Start,
    /// The user chose the disk whose path is given.
    DiskChosen(String),
    /// The user answered the confirmation for `device`.
    Confirmed { device: String, proceed: bool },
}

/// What the simple partitioning dialog shows next.
pub enum SimpleAction {
    /// Show this message box; the dialog ends after it.
    Stop(Vec<String>),
    /// Show this disk menu, and come back with the chosen path.
    ChooseDisk(Vec<String>),
    /// Ask this question about `device`, and come back with the answer.
    Confirm { device: String, question: Vec<String> },
    /// The dialog is over.
    Done,
}

fn disk_label_of(d: &BlockDevice) -> (res: String)
    ensures
        res@ == disk_label(*d),
{
    let mut r = concat3(d.path.as_str(), " (", d.size.as_str());
    match &d.model {
        Some(m) => {
            let t = trim(m.as_str());
            r.append(t.as_str());
        },
        None => {},
    }
    r.append(")");
    r
}

fn subvolume_listing() -> (res: String)
    ensures
        res@ == joined(
            simple_subvolume_table().map_values(|e: (Seq<char>, Seq<char>)| subvolume_line(e)),
            "\n"@,
        ),
{
    let table = simple_subvolumes();
    let ghost spec_table = simple_subvolume_table();
    let mut lines: Vec<String> = Vec::new();
    let mut i: usize = 0;
    while i < table.len()
        invariant
            i <= table@.len(),
            table@.len() == spec_table.len(),
            spec_table == simple_subvolume_table(),
            forall|j: int|
                0 <= j < table@.len() ==> (#[trigger] table@[j]).0@ == spec_table[j].0
                    && table@[j].1@ == spec_table[j].1,
            lines.deep_view() =~= spec_table.take(i as int).map_values(
                |e: (Seq<char>, Seq<char>)| subvolume_line(e),
            ),
        decreases table@.len() - i,
    {
        let (name, path) = table[i];
        let mut line = concat3("+-- ", name, " (");
        if str_eq(path, "/") {
            line.append("root");
        } else {
            line.append(path);
        }
        line.append(")");
        let ghost prev = lines.deep_view();
        lines.push(line);
        assert(lines.deep_view() =~= prev.push(line@));
        assert(spec_table.take(i + 1) =~= spec_table.take(i as int).push(spec_table[i as int]));
        i = i + 1;
    }
    assert(spec_table.take(i as int) =~= spec_table);
    join(&lines, "\n")
}

fn confirmation_of(disk: &BlockDevice) -> (res: String)
    ensures
        res@ == confirmation_text(*disk),
{
    let path = disk.path.as_str();
    let mut r = concat3("WARNING: This will ERASE ALL DATA on ", path, " (");
    match &disk.model {
        Some(m) => r.append(m.as_str()),
        None => r.append("MODEL UNKNOWN"),
    }
    r.append(")\n\nLayout to create:\n- ");
    let efi = Partitioner::partition_path(path, 1);
    r.append(efi.as_str());
    r.append(" (1GB FAT32) \u{2192} /boot/efi\n- ");
    let root = Partitioner::partition_path(path, 2);
    r.append(root.as_str());
    r.append(" (Btrfs) with subvolumes:\n");
    let listing = subvolume_listing();
    r.append(listing.as_str());
    r.append("\n\nProceed with destruction?");
    r
}

/// The disks offered for the simple layout are exactly the devices of type
/// `disk` whose path starts with none of `/dev/loop`, `/dev/ram` and
/// `/dev/zram`, in the order in which they were listed.
pub proof fn lemma_installable_disks_are_whole_disks(devices: Seq<BlockDevice>)
    ensures
        installable_disks(devices) == devices.filter(
            |d: BlockDevice|
                d.dev_type@ == "disk"@ && !"/dev/loop"@.is_prefix_of(d.path@)
                    && !"/dev/ram"@.is_prefix_of(d.path@) && !"/dev/zram"@.is_prefix_of(d.path@),
        ),
    decreases devices.len(),
{
    reveal(Seq::filter);
    let pred = |d: BlockDevice|
        d.dev_type@ == "disk"@ && !"/dev/loop"@.is_prefix_of(d.path@)
            && !"/dev/ram"@.is_prefix_of(d.path@) && !"/dev/zram"@.is_prefix_of(d.path@);
    if devices.len() > 0 {
        lemma_installable_disks_are_whole_disks(devices.drop_last());
        let d = devices.last();
        assert(has_prefix(d.path@, "/dev/loop"@) == "/dev/loop"@.is_prefix_of(d.path@));
        assert(has_prefix(d.path@, "/dev/ram"@) == "/dev/ram"@.is_prefix_of(d.path@));
        assert(has_prefix(d.path@, "/dev/zram"@) == "/dev/zram"@.is_prefix_of(d.path@));
        assert(is_installable_disk(d) == pred(d));
    }
}

/// The `len` characters of `s` from position `i`.
pub open spec fn segment(s: Seq<char>, i: int, len: int) -> Seq<char> {
    s.subrange(i, i + len)
}

/// `s` holds the characters `w` somewhere.
pub open spec fn holds_word(s: Seq<char>, w: Seq<char>) -> bool {
    exists|i: int| 0 <= i && i + w.len() <= s.len() && #[trigger] segment(s, i, w.len() as int) == w
}

/// Partition `n` of a disk whose path contains `nvme` or `mmcblk`, wherever
/// and with whatever numbers around it, is the disk's path, `p` and the
/// decimal notation of `n`; of any other disk it is the disk's path and the
/// decimal notation of `n`.
pub proof fn lemma_partition_naming(disk: Seq<char>, n: nat)
    ensures
        holds_word(disk, seq!['n', 'v', 'm', 'e']) || holds_word(disk, seq!['m', 'm', 'c', 'b', 'l', 'k'])
            ==> partition_device(disk, n) == disk + seq!['p'] + decimal(n),
        !holds_word(disk, seq!['n', 'v', 'm', 'e']) && !holds_word(disk, seq!['m', 'm', 'c', 'b', 'l', 'k'])
            ==> partition_device(disk, n) == disk + decimal(n),
{
    reveal_strlit("nvme");
    reveal_strlit("mmcblk");
    reveal_strlit("p");
    let nv = seq!['n', 'v', 'm', 'e'];
    let mm = seq!['m', 'm', 'c', 'b', 'l', 'k'];
    assert("nvme"@ =~= nv);
    assert("mmcblk"@ =~= mm);
    assert("p"@ =~= seq!['p']);
    if holds_word(disk, nv) {
        let i = choose|i: int| 0 <= i && i + nv.len() <= disk.len() && #[trigger] segment(disk, i, nv.len() as int) == nv;
        assert(occurs_at(disk, "nvme"@, i));
    }
    if holds_word(disk, mm) {
        let i = choose|i: int| 0 <= i && i + mm.len() <= disk.len() && #[trigger] segment(disk, i, mm.len() as int) == mm;
        assert(occurs_at(disk, "mmcblk"@, i));
    }
    if contains_seq(disk, "nvme"@) {
        let i = choose|i: int| occurs_at(disk, "nvme"@, i);
        assert(segment(disk, i, 4) == nv);
    }
    if contains_seq(disk, "mmcblk"@) {
        let i = choose|i: int| occurs_at(disk, "mmcblk"@, i);
        assert(segment(disk, i, 6) == mm);
    }
}

/// The partitions of a disk are named after the disk, and the EFI
/// partition and the root partition of the simple layout are different
/// devices.
pub proof fn lemma_simple_partitions_distinct(disk: Seq<char>)
    ensures
        has_prefix(partition_device(disk, 1), disk),
        has_prefix(partition_device(disk, 2), disk),
        partition_device(disk, 1) != partition_device(disk, 2),
{
    reveal_strlit("p");
    let one = partition_device(disk, 1);
    let two = partition_device(disk, 2);
    assert(one.take(disk.len() as int) =~= disk);
    assert(two.take(disk.len() as int) =~= disk);
    assert(one.last() == '1');
    assert(two.last() == '2');
}

/// The message shown when the manual partitioning shell exits with `code`.
pub fn shell_failure_message(code: i32) -> (res: String)
    ensures
        res@ == "Shell exited with status: "@ + signed_decimal(code as int),
{
    let number = signed_decimal_string(code);
    concat2("Shell exited with status: ", number.as_str())
}

/// The first of `disks` whose path is `path`, scanning from the front.
fn find_disk<'a>(disks: &Vec<&'a BlockDevice>, path: &str, Ghost(view): Ghost<Seq<BlockDevice>>) -> (res: Option<&'a BlockDevice>)
    requires
        view.len() == disks@.len(),
        forall|i: int| 0 <= i < view.len() ==> view[i] == *disks@[i],
    ensures
        match res {
            Some(d) => disk_with_path(view, path@) == Some(*d),
            None => disk_with_path(view, path@) is None,
        },
{
    let mut i: usize = 0;
    assert(view.skip(0) =~= view);
    while i < disks.len()
        invariant
            view.len() == disks@.len(),
            forall|j: int| 0 <= j < view.len() ==> view[j] == *disks@[j],
            i <= disks@.len(),
            disk_with_path(view, path@) == disk_with_path(view.skip(i as int), path@),
        decreases disks@.len() - i,
    {
        let d = disks[i];
        assert(view.skip(i as int)[0] == *d);
        if str_eq(d.path.as_str(), path) {
            return Some(d);
        }
        assert(view.skip(i as int).drop_first() =~= view.skip(i + 1));
        i = i + 1;
    }
    assert(view.skip(i as int) =~= Seq::<BlockDevice>::empty());
    None
}

/// Looks for the disk and the plan the user chose.
pub struct Partitioner {
    devices: Vec<BlockDevice>,
    pub current_plan: Option<PartitionPlan>,
}

impl Partitioner {
    /// The block devices that the partitioner chooses from.
    pub closed spec fn devices(&self) -> Seq<BlockDevice> {
        self.devices@
    }

    /// The plan chosen so far.
    pub closed spec fn plan(&self) -> Option<PartitionPlan> {
        self.current_plan
    }

    /// A partitioner that chooses from `devices`, as `lsblk` listed them,
    /// with no plan made yet.
    pub fn new(devices: Vec<BlockDevice>) -> (res: Partitioner)
        ensures
            res.devices() == devices@,
            res.plan() is None,
    {
        Partitioner { devices, current_plan: None }
    }

    /// Replaces the known devices by a fresh listing; the plan stays.
    pub fn refresh_devices(&mut self, devices: Vec<BlockDevice>)
        ensures
            final(self).devices() == devices@,
            final(self).plan() == old(self).plan(),
    {
        self.devices = devices;
    }

    /// The device node of partition `num` on `disk`.
    fn partition_path(disk: &str, num: u32) -> (res: String)
        ensures
            res@ == partition_device(disk@, num as nat),
    {
        partition_name(disk, num as u64)
    }

    /// One step of the simple partitioning dialog. It starts with a disk
    /// menu, or a message when there is no disk to offer; it then asks for
    /// confirmation before the chosen disk is wiped, and makes the plan to
    /// wipe it only on a yes.
    pub fn run_simple_partitioning(&mut self, step: SimpleStep) -> (res: SimpleAction)
        requires
            step matches SimpleStep::DiskChosen(sel) ==> disk_with_path(
                installable_disks(old(self).devices()),
                sel@,
            ) is Some,
            step matches SimpleStep::Confirmed { device, .. } ==> disk_with_path(
                installable_disks(old(self).devices()),
                device@,
            ) is Some,
        ensures
            final(self).devices() == old(self).devices(),
            match step {
                SimpleStep::Start => {
                    &&& final(self).plan() == old(self).plan()
                    &&& if installable_disks(old(self).devices()).len() == 0 {
                        res matches SimpleAction::Stop(a) && a.deep_view() == box_args(
                            "Error"@,
                            "--msgbox"@,
                            "No suitable disks found!"@,
                        )
                    } else {
                        res matches SimpleAction::ChooseDisk(a) && a.deep_view() == menu_args(
                            "Simple Partitioning"@,
                            "Select disk for NEOARCH installation:"@,
                            disk_items(installable_disks(old(self).devices())),
                        )
                    }
                },
                SimpleStep::DiskChosen(sel) => {
                    &&& final(self).plan() == old(self).plan()
                    &&& res matches SimpleAction::Confirm { device, question }
                    &&& device@ == sel@
                    &&& question.deep_view() == box_args(
                        "Confirm Destructive Operation"@,
                        "--yesno"@,
                        confirmation_text(
                            disk_with_path(installable_disks(old(self).devices()), sel@).unwrap(),
                        ),
                    )
                },
                SimpleStep::Confirmed { device, proceed } => {
                    &&& res is Done
                    &&& if proceed {
                        final(self).plan() matches Some(PartitionPlan::Simple { device: d })
                            && d@ == device@
                    } else {
                        final(self).plan() == old(self).plan()
                    }
                },
            },
    {
        match step {
            SimpleStep::Start => {
                let disks = self.get_disks();
                if disks.len() == 0 {
                    return SimpleAction::Stop(ui::msgbox("Error", "No suitable disks found!"));
                }
                let ghost view = installable_disks(self.devices@);
                let mut items: Vec<(String, String)> = Vec::new();
                let mut i: usize = 0;
                while i < disks.len()
                    invariant
                        i <= disks@.len(),
                        view.len() == disks@.len(),
                        forall|j: int| 0 <= j < view.len() ==> view[j] == *disks@[j],
                        items.deep_view() =~= disk_items(view.take(i as int)),
                    decreases disks@.len() - i,
                {
                    let d = disks[i];
                    let label = disk_label_of(d);
                    let ghost prev = items.deep_view();
                    items.push((d.path.clone(), label));
                    assert(items.deep_view() =~= prev.push((d.path@, label@)));
                    assert(view.take(i + 1) =~= view.take(i as int).push(view[i as int]));
                    assert(disk_items(view.take(i + 1)) =~= disk_items(view.take(i as int)).push(
                        (d.path@, label@),
                    ));
                    i = i + 1;
                }
                assert(view.take(i as int) =~= view);
                SimpleAction::ChooseDisk(
                    ui::menu("Simple Partitioning", "Select disk for NEOARCH installation:", &items),
                )
            },
            SimpleStep::DiskChosen(sel) => {
                let disks = self.get_disks();
                let ghost view = installable_disks(self.devices@);
                let disk = find_disk(&disks, sel.as_str(), Ghost(view));
                match disk {
                    Some(d) => {
                        let text = confirmation_of(d);
                        let question = ui::yesno("Confirm Destructive Operation", text.as_str());
                        SimpleAction::Confirm { device: sel, question }
                    },
                    None => SimpleAction::Done,
                }
            },
            SimpleStep::Confirmed { device, proceed } => {
                if proceed {
                    self.current_plan = Some(PartitionPlan::Simple { device });
                }
                SimpleAction::Done
            },
        }
    }

    /// Takes in what the user did in the manual partitioning shell: the
    /// devices as `lsblk` lists them afterwards, and the mounts under `/mnt`
    /// as `findmnt` lists them, from which the manual plan is read.
    pub fn run_manual_partitioning(&mut self, devices: Vec<BlockDevice>, mounts: &Vec<MountedFilesystem>)
        ensures
            final(self).devices() == devices@,
            final(self).plan() matches Some(PartitionPlan::Manual { partitions, btrfs_subvolumes })
                && layout_of(partitions@, btrfs_subvolumes@) == visit_all(empty_layout(), mounts@)
                && distinct_devices(partition_views(partitions@)),
    {
        self.refresh_devices(devices);
        let plan = detect_manual_partitioning(mounts);
        self.current_plan = Some(plan);
    }

    /// The installable disks, in the order in which the devices were listed.
    pub fn get_disks(&self) -> (res: Vec<&BlockDevice>)
        ensures
            res@.len() == installable_disks(self.devices()).len(),
            forall|i: int| 0 <= i < res@.len() ==> *res@[i] == installable_disks(self.devices())[i],
    {
        let mut res: Vec<&BlockDevice> = Vec::new();
        let mut i: usize = 0;
        while i < self.devices.len()
            invariant
                i <= self.devices@.len(),
                res@.len() == installable_disks(self.devices@.take(i as int)).len(),
                forall|j: int| 0 <= j < res@.len() ==> *res@[j] == installable_disks(self.devices@.take(i as int))[j],
            decreases self.devices@.len() - i,
        {
            let d = &self.devices[i];
            proof {
                assert(self.devices@.take(i + 1).drop_last() =~= self.devices@.take(i as int));
            }
            if is_installable(d) {
                res.push(d);
            }
            i = i + 1;
        }
        assert(self.devices@.take(self.devices@.len() as int) =~= self.devices@);
        res
    }
}

} // verus!
