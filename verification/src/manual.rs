//! Reading back the layout that the user partitioned and mounted under
//! `/mnt` by hand, from the tree of mounts that `findmnt --json -R /mnt`
//! lists.

use vstd::prelude::*;
use vstd::string::*;

use crate::partitioner::{
    filesystem_named, BtrfsSubvolume, Filesystem, Partition, PartitionPlan, PartitionView,
};
use crate::text::{
    before_first, fields, in_class, lemma_leading_run_at, find_field_with_prefix, first_with_prefix, has_prefix, owned,
    prefix_before, str_eq, strip_prefix, trim_start, trim_start_class, CharClass,
};

verus! {

/// A mounted filesystem as `findmnt` lists it, with those mounted below it.
#[derive(Debug)]
pub struct MountedFilesystem {
    pub source: String,
    pub target: String,
    pub fstype: String,
    pub options: Option<String>,
    pub children: Option<Vec<MountedFilesystem>>,
}

/// The partitions and subvolumes found so far.
pub struct LayoutView {
    pub partitions: Seq<PartitionView>,
    pub subvolumes: Seq<(Seq<char>, Seq<char>)>,
}

/// Nothing found yet.
pub open spec fn empty_layout() -> LayoutView {
    LayoutView { partitions: Seq::empty(), subvolumes: Seq::empty() }
}

/// The views of `parts`.
pub open spec fn partition_views(parts: Seq<Partition>) -> Seq<PartitionView> {
    parts.map_values(|p: Partition| p@)
}

/// The views of `subvols`.
pub open spec fn subvolume_views(subvols: Seq<BtrfsSubvolume>) -> Seq<(Seq<char>, Seq<char>)> {
    subvols.map_values(|s: BtrfsSubvolume| s@)
}

/// The layout held by the two vectors.
pub open spec fn layout_of(parts: Seq<Partition>, subvols: Seq<BtrfsSubvolume>) -> LayoutView {
    LayoutView { partitions: partition_views(parts), subvolumes: subvolume_views(subvols) }
}

/// The device that a mount comes from: `findmnt` writes a Btrfs subvolume
/// mount as `device[/subvolume]`.
pub open spec fn mount_device(source: Seq<char>) -> Seq<char> {
    before_first(source, '[')
}

/// Where a mount will sit in the installed system: its target with `/mnt`
/// taken off, the root when nothing is left or the target is not under it.
pub open spec fn installed_mountpoint(target: Seq<char>) -> Seq<char> {
    let t = trim_start_class(target, CharClass::NotPathChar);
    if has_prefix(t, "/mnt"@) && t.len() > 4 {
        t.skip(4)
    } else {
        "/"@
    }
}

/// The options of a mount, empty when `findmnt` gives none.
pub open spec fn mount_options(options: Option<String>) -> Seq<char> {
    match options {
        Some(o) => o@,
        None => Seq::empty(),
    }
}

/// The subvolume that a Btrfs mount names in its `subvol=` option,
/// without leading slashes.
pub open spec fn subvolume_option(fs: Filesystem, options: Seq<char>) -> Option<Seq<char>> {
    if fs == Filesystem::Btrfs {
        match first_with_prefix(fields(options, ','), "subvol="@) {
            Some(n) => Some(trim_start_class(n, CharClass::Slash)),
            None => None,
        }
    } else {
        None
    }
}

/// Some partition of `parts` has the device path `path`.
pub open spec fn has_partition(parts: Seq<PartitionView>, path: Seq<char>) -> bool {
    exists|i: int| 0 <= i < parts.len() && parts[i].device_path == path
}

/// No two partitions of `parts` have the same device path.
pub open spec fn distinct_devices(parts: Seq<PartitionView>) -> bool {
    forall|i: int, j: int|
        0 <= i < parts.len() && 0 <= j < parts.len() && i != j ==> parts[i].device_path
            != parts[j].device_path
}

/// `parts` with the partition of device `path` mounted at `mp`.
pub open spec fn mount_partition(parts: Seq<PartitionView>, path: Seq<char>, mp: Seq<char>) -> Seq<PartitionView> {
    parts.map_values(
        |p: PartitionView|
            if p.device_path == path {
                PartitionView { device_path: p.device_path, filesystem: p.filesystem, mountpoint: Some(mp) }
            } else {
                p
            },
    )
}

/// What one mount of a known filesystem adds to the layout: its device,
/// when it is new, and either a subvolume or the device's mountpoint.
pub open spec fn record_mount(state: LayoutView, fs: MountedFilesystem, filesystem: Filesystem) -> LayoutView {
    let source = mount_device(fs.source@);
    let mp = installed_mountpoint(fs.target@);
    let parts = if has_partition(state.partitions, source) {
        state.partitions
    } else {
        state.partitions.push(PartitionView { device_path: source, filesystem, mountpoint: None })
    };
    match subvolume_option(filesystem, mount_options(fs.options)) {
        Some(name) => LayoutView { partitions: parts, subvolumes: state.subvolumes.push((name, mp)) },
        None => LayoutView { partitions: mount_partition(parts, source, mp), subvolumes: state.subvolumes },
    }
}

/// The layout after the mount `fs` and those below it. A mount of a
/// filesystem that the installer does not know is passed over together with
/// everything mounted below it.
pub open spec fn visit(state: LayoutView, fs: MountedFilesystem) -> LayoutView
    decreases fs, 1int,
{
    match filesystem_named(fs.fstype@) {
        None => state,
        Some(filesystem) => {
            let after = record_mount(state, fs, filesystem);
            match fs.children {
                Some(kids) => visit_all(after, kids@),
                None => after,
            }
        },
    }
}

/// The layout after the mounts `list`, in order, and those below them.
pub open spec fn visit_all(state: LayoutView, list: Seq<MountedFilesystem>) -> LayoutView
    decreases list, 0int,
{
    if list.len() == 0 {
        state
    } else {
        visit(visit_all(state, list.drop_last()), list.last())
    }
}

proof fn lemma_record_mount_keeps(state: LayoutView, fs: MountedFilesystem, filesystem: Filesystem, path: Seq<char>)
    ensures
        has_partition(record_mount(state, fs, filesystem).partitions, mount_device(fs.source@)),
        has_partition(state.partitions, path) ==> has_partition(
            record_mount(state, fs, filesystem).partitions,
            path,
        ),
{
    let source = mount_device(fs.source@);
    let mp = installed_mountpoint(fs.target@);
    let parts = if has_partition(state.partitions, source) {
        state.partitions
    } else {
        state.partitions.push(PartitionView { device_path: source, filesystem, mountpoint: None })
    };
    if !has_partition(state.partitions, source) {
        assert(parts[parts.len() - 1].device_path == source);
    }
    assert(has_partition(parts, source));
    if has_partition(state.partitions, path) {
        let i = choose|i: int| 0 <= i < state.partitions.len() && state.partitions[i].device_path == path;
        assert(parts[i].device_path == path);
    }
    let mounted = mount_partition(parts, source, mp);
    assert forall|q: Seq<char>| has_partition(parts, q) implies has_partition(mounted, q) by {
        let i = choose|i: int| 0 <= i < parts.len() && parts[i].device_path == q;
        assert(mounted[i].device_path == q);
    }
}

proof fn lemma_visit_keeps(state: LayoutView, fs: MountedFilesystem, path: Seq<char>)
    requires
        has_partition(state.partitions, path),
    ensures
        has_partition(visit(state, fs).partitions, path),
    decreases fs, 1int,
{
    match filesystem_named(fs.fstype@) {
        None => {},
        Some(filesystem) => {
            lemma_record_mount_keeps(state, fs, filesystem, path);
            match fs.children {
                Some(kids) => {
                    lemma_visit_all_keeps(record_mount(state, fs, filesystem), kids@, path);
                },
                None => {},
            }
        },
    }
}

proof fn lemma_visit_all_keeps(state: LayoutView, list: Seq<MountedFilesystem>, path: Seq<char>)
    requires
        has_partition(state.partitions, path),
    ensures
        has_partition(visit_all(state, list).partitions, path),
    decreases list, 0int,
{
    if list.len() > 0 {
        lemma_visit_all_keeps(state, list.drop_last(), path);
        lemma_visit_keeps(visit_all(state, list.drop_last()), list.last(), path);
    }
}

/// Every device that a filesystem the installer knows is mounted from, at
/// the top of the listing, is a partition of the detected plan.
pub proof fn lemma_mounted_devices_planned(state: LayoutView, list: Seq<MountedFilesystem>, i: int)
    requires
        0 <= i < list.len(),
        filesystem_named(list[i].fstype@) is Some,
    ensures
        has_partition(visit_all(state, list).partitions, mount_device(list[i].source@)),
    decreases list.len(),
{
    let path = mount_device(list[i].source@);
    if i == list.len() - 1 {
        let before = visit_all(state, list.drop_last());
        let fs = list.last();
        let filesystem = filesystem_named(fs.fstype@).unwrap();
        assert(fs == list[i]);
        assert(visit_all(state, list) == visit(before, fs));
        lemma_record_mount_keeps(before, fs, filesystem, path);
        match fs.children {
            Some(kids) => {
                lemma_visit_all_keeps(record_mount(before, fs, filesystem), kids@, path);
            },
            None => {},
        }
    } else {
        assert(list.drop_last()[i] == list[i]);
        lemma_mounted_devices_planned(state, list.drop_last(), i);
        lemma_visit_keeps(visit_all(state, list.drop_last()), list.last(), path);
    }
}

/// A mount at `/mnt` followed by `rest` sits at `rest` in the installed
/// system, or at the root when `rest` is empty; a target that does not
/// start with `/mnt` sits at the root.
pub proof fn lemma_installed_mountpoint(target: Seq<char>, rest: Seq<char>)
    ensures
        installed_mountpoint(seq!['/', 'm', 'n', 't'] + rest) == if rest.len() == 0 {
            seq!['/']
        } else {
            rest
        },
        target.len() > 0 && target[0] == '/' && !(target.len() >= 4 && target.take(4) == seq![
            '/',
            'm',
            'n',
            't',
        ]) ==> installed_mountpoint(target) == seq!['/'],
{
    reveal_strlit("/mnt");
    reveal_strlit("/");
    assert("/mnt"@ =~= seq!['/', 'm', 'n', 't']);
    assert("/"@ =~= seq!['/']);
    let t = seq!['/', 'm', 'n', 't'] + rest;
    assert(!in_class(CharClass::NotPathChar, t[0]));
    lemma_leading_run_at(t, CharClass::NotPathChar, 0);
    assert(trim_start_class(t, CharClass::NotPathChar) =~= t);
    assert(t.take(4) =~= seq!['/', 'm', 'n', 't']);
    assert(t.skip(4) =~= rest);
    if target.len() > 0 && target[0] == '/' {
        assert(!in_class(CharClass::NotPathChar, target[0]));
        lemma_leading_run_at(target, CharClass::NotPathChar, 0);
        assert(trim_start_class(target, CharClass::NotPathChar) =~= target);
    }
}

/// The device of a mount is its source up to the first `[`, which starts
/// the subvolume that `findmnt` shows; a source without `[` is the device
/// itself.
pub proof fn lemma_mount_device(device: Seq<char>, subvolume: Seq<char>)
    requires
        forall|i: int| 0 <= i < device.len() ==> device[i] != '[',
    ensures
        mount_device(device) == device,
        mount_device(device + seq!['['] + subvolume) == device,
{
    lemma_leading_run_at(device, CharClass::Except('['), device.len() as int);
    assert(device.take(device.len() as int) =~= device);
    let s = device + seq!['['] + subvolume;
    assert forall|j: int| 0 <= j < device.len() implies in_class(CharClass::Except('['), #[trigger] s[j]) by {
        assert(s[j] == device[j]);
    }
    assert(s[device.len() as int] == '[');
    lemma_leading_run_at(s, CharClass::Except('['), device.len() as int);
    assert(s.take(device.len() as int) =~= device);
}

/// The option word that names a Btrfs subvolume.
pub open spec fn subvol_word() -> Seq<char> {
    seq!['s', 'u', 'b', 'v', 'o', 'l', '=']
}

proof fn lemma_fields_no_sep(s: Seq<char>, sep: char)
    requires
        forall|i: int| 0 <= i < s.len() ==> s[i] != sep,
    ensures
        fields(s, sep) == seq![s],
{
    lemma_leading_run_at(s, CharClass::Except(sep), s.len() as int);
}

proof fn lemma_fields_first(a: Seq<char>, rest: Seq<char>, sep: char)
    requires
        forall|i: int| 0 <= i < a.len() ==> a[i] != sep,
    ensures
        fields(a + seq![sep] + rest, sep) == seq![a] + fields(rest, sep),
{
    let s = a + seq![sep] + rest;
    assert forall|j: int| 0 <= j < a.len() implies in_class(CharClass::Except(sep), #[trigger] s[j]) by {
        assert(s[j] == a[j]);
    }
    assert(s[a.len() as int] == sep);
    lemma_leading_run_at(s, CharClass::Except(sep), a.len() as int);
    assert(s.take(a.len() as int) =~= a);
    assert(s.skip(a.len() + 1int) =~= rest);
}

/// A Btrfs mount whose options hold `subvol=` followed by a name, as the
/// only option or after one other option, names that subvolume, without
/// its leading slash; a mount of any other filesystem names none.
pub proof fn lemma_subvolume_option(first: Seq<char>, name: Seq<char>, fs: Filesystem, options: Seq<char>)
    requires
        forall|i: int| 0 <= i < first.len() ==> first[i] != ',',
        forall|i: int| 0 <= i < name.len() ==> name[i] != ',',
        name.len() == 0 || name[0] != '/',
        !(first.len() >= 7 && first.take(7) == subvol_word()),
    ensures
        subvolume_option(Filesystem::Btrfs, subvol_word() + seq!['/'] + name) == Some(name),
        subvolume_option(Filesystem::Btrfs, first + seq![','] + subvol_word() + seq!['/'] + name) == Some(
            name,
        ),
        fs != Filesystem::Btrfs ==> subvolume_option(fs, options) is None,
{
    reveal_strlit("subvol=");
    assert("subvol="@ =~= subvol_word());
    let field = subvol_word() + seq!['/'] + name;
    assert forall|i: int| 0 <= i < field.len() implies field[i] != ',' by {
        if i >= 8 {
            assert(field[i] == name[i - 8]);
        }
    }
    lemma_fields_no_sep(field, ',');
    assert(has_prefix(field, "subvol="@)) by {
        assert(field.take(7) =~= subvol_word());
    }
    let n = field.skip(7);
    assert(n =~= seq!['/'] + name);
    assert(!in_class(CharClass::Slash, n[1]) || n.len() == 1) by {
        if n.len() > 1 {
            assert(n[1] == name[0]);
        }
    }
    lemma_leading_run_at(n, CharClass::Slash, 1);
    assert(trim_start_class(n, CharClass::Slash) =~= name);
    assert(seq![field].drop_first() =~= Seq::<Seq<char>>::empty());
    let whole = first + seq![','] + field;
    assert(whole =~= first + seq![','] + subvol_word() + seq!['/'] + name);
    lemma_fields_first(first, field, ',');
    let fs_list = seq![first] + seq![field];
    assert(fields(whole, ',') =~= fs_list);
    assert(!has_prefix(first, "subvol="@));
    assert(fs_list.drop_first() =~= seq![field]);
}

/// The mount that `path` leads to in the tree `list`: `path[0]` picks one of
/// `list`, and each further index picks one of the mounts below the last.
pub open spec fn mount_at(list: Seq<MountedFilesystem>, path: Seq<int>) -> Option<MountedFilesystem>
    decreases path.len(),
{
    if path.len() == 0 || !(0 <= path[0] < list.len()) {
        None
    } else if path.len() == 1 {
        Some(list[path[0]])
    } else {
        match list[path[0]].children {
            Some(kids) => mount_at(kids@, path.drop_first()),
            None => None,
        }
    }
}

/// `path` leads to a mount in `list`, and that mount and every mount above
/// it is of a filesystem that the installer knows.
pub open spec fn known_path(list: Seq<MountedFilesystem>, path: Seq<int>) -> bool
    decreases path.len(),
{
    &&& path.len() > 0
    &&& 0 <= path[0] < list.len()
    &&& filesystem_named(list[path[0]].fstype@) is Some
    &&& (path.len() == 1 || match list[path[0]].children {
        Some(kids) => known_path(kids@, path.drop_first()),
        None => false,
    })
}

/// Every mount of the tree, at any depth, that is of a filesystem the
/// installer knows, below mounts of known filesystems only, contributes its
/// device to the partitions of the plan, whatever the filesystems around it.
pub proof fn lemma_every_known_mount_planned(state: LayoutView, list: Seq<MountedFilesystem>, path: Seq<int>)
    requires
        known_path(list, path),
    ensures
        mount_at(list, path) is Some,
        has_partition(
            visit_all(state, list).partitions,
            mount_device(mount_at(list, path).unwrap().source@),
        ),
    decreases path.len(), list.len(),
{
    let i = path[0];
    let fs = list[i];
    if path.len() == 1 {
        lemma_mounted_devices_planned(state, list, i);
    } else if i == list.len() - 1 {
        let kids = fs.children.unwrap();
        let rest = path.drop_first();
        let before = visit_all(state, list.drop_last());
        let filesystem = filesystem_named(fs.fstype@).unwrap();
        assert(fs == list.last());
        assert(visit_all(state, list) == visit(before, fs));
        assert(visit(before, fs) == visit_all(record_mount(before, fs, filesystem), kids@));
        lemma_every_known_mount_planned(record_mount(before, fs, filesystem), kids@, rest);
        assert(mount_at(list, path) == mount_at(kids@, rest));
    } else {
        let shorter = list.drop_last();
        assert(shorter[i] == list[i]);
        assert(known_path(shorter, path));
        lemma_every_known_mount_planned(state, shorter, path);
        assert(mount_at(shorter, path) == mount_at(list, path));
        lemma_visit_keeps(
            visit_all(state, shorter),
            list.last(),
            mount_device(mount_at(list, path).unwrap().source@),
        );
    }
}

proof fn lemma_record_mount_keeps_subvolume(
    state: LayoutView,
    fs: MountedFilesystem,
    filesystem: Filesystem,
    e: (Seq<char>, Seq<char>),
)
    ensures
        state.subvolumes.contains(e) ==> record_mount(state, fs, filesystem).subvolumes.contains(e),
        subvolume_option(filesystem, mount_options(fs.options)) matches Some(n) ==> record_mount(
            state,
            fs,
            filesystem,
        ).subvolumes.contains((n, installed_mountpoint(fs.target@))),
{
    let after = record_mount(state, fs, filesystem);
    match subvolume_option(filesystem, mount_options(fs.options)) {
        Some(n) => {
            assert(after.subvolumes == state.subvolumes.push((n, installed_mountpoint(fs.target@))));
            assert(after.subvolumes[state.subvolumes.len() as int] == (n, installed_mountpoint(fs.target@)));
            if state.subvolumes.contains(e) {
                let k = choose|k: int| 0 <= k < state.subvolumes.len() && state.subvolumes[k] == e;
                assert(after.subvolumes[k] == e);
            }
        },
        None => {},
    }
}

proof fn lemma_visit_keeps_subvolume(state: LayoutView, fs: MountedFilesystem, e: (Seq<char>, Seq<char>))
    requires
        state.subvolumes.contains(e),
    ensures
        visit(state, fs).subvolumes.contains(e),
    decreases fs, 1int,
{
    match filesystem_named(fs.fstype@) {
        None => {},
        Some(filesystem) => {
            lemma_record_mount_keeps_subvolume(state, fs, filesystem, e);
            match fs.children {
                Some(kids) => {
                    lemma_visit_all_keeps_subvolume(record_mount(state, fs, filesystem), kids@, e);
                },
                None => {},
            }
        },
    }
}

proof fn lemma_visit_all_keeps_subvolume(
    state: LayoutView,
    list: Seq<MountedFilesystem>,
    e: (Seq<char>, Seq<char>),
)
    requires
        state.subvolumes.contains(e),
    ensures
        visit_all(state, list).subvolumes.contains(e),
    decreases list, 0int,
{
    if list.len() > 0 {
        lemma_visit_all_keeps_subvolume(state, list.drop_last(), e);
        lemma_visit_keeps_subvolume(visit_all(state, list.drop_last()), list.last(), e);
    }
}

/// Every Btrfs mount of the tree, at any depth below mounts of known
/// filesystems, whose options name a subvolume contributes that subvolume,
/// mounted where the mount sits in the installed system.
pub proof fn lemma_every_subvolume_mount_planned(
    state: LayoutView,
    list: Seq<MountedFilesystem>,
    path: Seq<int>,
)
    requires
        known_path(list, path),
    ensures
        mount_at(list, path) is Some,
        ({
            let m = mount_at(list, path).unwrap();
            subvolume_option(filesystem_named(m.fstype@).unwrap(), mount_options(m.options)) matches Some(
                n,
            ) ==> visit_all(state, list).subvolumes.contains((n, installed_mountpoint(m.target@)))
        }),
    decreases path.len(), list.len(),
{
    let i = path[0];
    let fs = list[i];
    let filesystem = filesystem_named(fs.fstype@).unwrap();
    if i == list.len() - 1 {
        let before = visit_all(state, list.drop_last());
        assert(fs == list.last());
        assert(visit_all(state, list) == visit(before, fs));
        let after = record_mount(before, fs, filesystem);
        if path.len() == 1 {
            match subvolume_option(filesystem, mount_options(fs.options)) {
                Some(n) => {
                    let e = (n, installed_mountpoint(fs.target@));
                    lemma_record_mount_keeps_subvolume(before, fs, filesystem, e);
                    match fs.children {
                        Some(kids) => {
                            lemma_visit_all_keeps_subvolume(after, kids@, e);
                        },
                        None => {},
                    }
                },
                None => {},
            }
        } else {
            let kids = fs.children.unwrap();
            let rest = path.drop_first();
            assert(visit(before, fs) == visit_all(after, kids@));
            lemma_every_subvolume_mount_planned(after, kids@, rest);
            assert(mount_at(list, path) == mount_at(kids@, rest));
        }
    } else {
        let shorter = list.drop_last();
        assert(shorter[i] == list[i]);
        assert(known_path(shorter, path));
        lemma_every_subvolume_mount_planned(state, shorter, path);
        assert(mount_at(shorter, path) == mount_at(list, path));
        let m = mount_at(list, path).unwrap();
        match subvolume_option(filesystem_named(m.fstype@).unwrap(), mount_options(m.options)) {
            Some(n) => {
                lemma_visit_keeps_subvolume(
                    visit_all(state, shorter),
                    list.last(),
                    (n, installed_mountpoint(m.target@)),
                );
            },
            None => {},
        }
    }
}

fn partition_index(parts: &Vec<Partition>, path: &str) -> (res: Option<usize>)
    ensures
        match res {
            Some(i) => i < parts@.len() && parts@[i as int].device_path@ == path@,
            None => !has_partition(partition_views(parts@), path@),
        },
{
    let mut i: usize = 0;
    while i < parts.len()
        invariant
            i <= parts@.len(),
            forall|j: int| 0 <= j < i ==> parts@[j].device_path@ != path@,
        decreases parts@.len() - i,
    {
        if str_eq(parts[i].device_path.as_str(), path) {
            return Some(i);
        }
        i = i + 1;
    }
    assert forall|j: int| 0 <= j < parts@.len() implies partition_views(parts@)[j].device_path
        != path@ by {
        assert(partition_views(parts@)[j] == parts@[j]@);
    }
    None
}

fn mountpoint_of(target: &str) -> (res: String)
    ensures
        res@ == installed_mountpoint(target@),
{
    proof {
        reveal_strlit("/mnt");
    }
    let t = trim_start(target, CharClass::NotPathChar);
    match strip_prefix(t.as_str(), "/mnt") {
        Some(rest) => {
            if rest.as_str().unicode_len() > 0 {
                rest
            } else {
                owned("/")
            }
        },
        None => owned("/"),
    }
}

fn subvolume_of(filesystem: Filesystem, options: &str) -> (res: Option<String>)
    ensures
        match subvolume_option(filesystem, options@) {
            Some(n) => res matches Some(r) && r@ == n,
            None => res is None,
        },
{
    if filesystem == Filesystem::Btrfs {
        match find_field_with_prefix(options, ',', "subvol=") {
            Some(n) => Some(trim_start(n.as_str(), CharClass::Slash)),
            None => None,
        }
    } else {
        None
    }
}

/// Adds the mount `fs`, and those below it, to the partitions and
/// subvolumes found so far.
fn process_fs(fs: &MountedFilesystem, parts: &mut Vec<Partition>, subvols: &mut Vec<BtrfsSubvolume>)
    requires
        distinct_devices(partition_views(old(parts)@)),
    ensures
        distinct_devices(partition_views(final(parts)@)),
        layout_of(final(parts)@, final(subvols)@) == visit(layout_of(old(parts)@, old(subvols)@), *fs),
    decreases fs,
{
    let ghost start = layout_of(parts@, subvols@);
    let source = prefix_before(fs.source.as_str(), '[');
    let mp = mountpoint_of(fs.target.as_str());
    let filesystem = match Filesystem::parse(fs.fstype.as_str()) {
        Ok(f) => f,
        Err(_) => {
            return;
        },
    };
    let opts = match &fs.options {
        Some(o) => o.clone(),
        None => String::new(),
    };
    let subvol = subvolume_of(filesystem, opts.as_str());
    let ghost before_parts = parts@;
    let idx = match partition_index(parts, source.as_str()) {
        Some(i) => {
            assert(has_partition(partition_views(parts@), source@)) by {
                assert(partition_views(parts@)[i as int] == parts@[i as int]@);
            }
            i
        },
        None => {
            parts.push(Partition { device_path: source.clone(), filesystem, mountpoint: None });
            assert(partition_views(parts@) =~= partition_views(before_parts).push(
                PartitionView { device_path: source@, filesystem, mountpoint: None },
            ));
            parts.len() - 1
        },
    };
    let ghost mid_parts = parts@;
    assert(partition_views(mid_parts) == if has_partition(partition_views(before_parts), source@) {
        partition_views(before_parts)
    } else {
        partition_views(before_parts).push(
            PartitionView { device_path: source@, filesystem, mountpoint: None },
        )
    });
    assert(distinct_devices(partition_views(mid_parts))) by {
        assert forall|i: int, j: int|
            0 <= i < mid_parts.len() && 0 <= j < mid_parts.len() && i != j implies partition_views(
            mid_parts,
        )[i].device_path != partition_views(mid_parts)[j].device_path by {
            if !has_partition(partition_views(before_parts), source@) {
                if i == mid_parts.len() - 1 {
                    assert(partition_views(before_parts)[j].device_path == partition_views(
                        mid_parts,
                    )[j].device_path);
                } else if j == mid_parts.len() - 1 {
                    assert(partition_views(before_parts)[i].device_path == partition_views(
                        mid_parts,
                    )[i].device_path);
                }
            }
        }
    }
    match subvol {
        Some(name) => {
            let ghost before_subvols = subvols@;
            subvols.push(BtrfsSubvolume { name, mountpoint: mp });
            assert(subvolume_views(subvols@) =~= subvolume_views(before_subvols).push(
                (name@, mp@),
            ));
        },
        None => {
            let updated = Partition {
                device_path: parts[idx].device_path.clone(),
                filesystem: parts[idx].filesystem,
                mountpoint: Some(mp),
            };
            parts.set(idx, updated);
            assert(partition_views(parts@) =~= mount_partition(
                partition_views(mid_parts),
                source@,
                mp@,
            )) by {
                assert forall|j: int| 0 <= j < parts@.len() implies partition_views(parts@)[j]
                    == mount_partition(partition_views(mid_parts), source@, mp@)[j] by {
                    if j != idx {
                        assert(partition_views(mid_parts)[j].device_path != partition_views(
                            mid_parts,
                        )[idx as int].device_path);
                    }
                }
            }
            assert(distinct_devices(partition_views(parts@))) by {
                assert forall|i: int, j: int|
                    0 <= i < parts@.len() && 0 <= j < parts@.len() && i != j implies partition_views(
                    parts@,
                )[i].device_path != partition_views(parts@)[j].device_path by {
                    assert(partition_views(parts@)[i].device_path == partition_views(
                        mid_parts,
                    )[i].device_path);
                    assert(partition_views(parts@)[j].device_path == partition_views(
                        mid_parts,
                    )[j].device_path);
                }
            }
        },
    }
    let ghost after = layout_of(parts@, subvols@);
    assert(after == record_mount(start, *fs, filesystem));
    match fs.children.as_ref() {
        Some(kids) => {
            let mut i: usize = 0;
            assert(kids@.take(0) =~= Seq::<MountedFilesystem>::empty());
            while i < kids.len()
                invariant
                    i <= kids@.len(),
                    fs.children == Some(*kids),
                    distinct_devices(partition_views(parts@)),
                    layout_of(parts@, subvols@) == visit_all(after, kids@.take(i as int)),
                decreases kids@.len() - i,
            {
                assert(kids@.take(i + 1).drop_last() =~= kids@.take(i as int));
                proof {
                    assert(decreases_to!(*fs => fs.children));
                    assert(decreases_to!(fs.children => fs.children->0));
                    assert(decreases_to!(*kids => kids@));
                    assert(decreases_to!(kids@ => kids@[i as int]));
                    assert(decreases_to!(*fs => kids@[i as int]));
                }
                process_fs(&kids[i], parts, subvols);
                i = i + 1;
            }
            assert(kids@.take(i as int) =~= kids@);
        },
        None => {},
    }
}

/// The manual plan that the mounts `filesystems` describe: each device that
/// a known filesystem is mounted from, once, in the order in which it first
/// appears, and each Btrfs subvolume mount.
pub fn detect_manual_partitioning(filesystems: &Vec<MountedFilesystem>) -> (res: PartitionPlan)
    ensures
        res matches PartitionPlan::Manual { partitions, btrfs_subvolumes }
            && layout_of(partitions@, btrfs_subvolumes@) == visit_all(empty_layout(), filesystems@)
            && distinct_devices(partition_views(partitions@)),
{
    let mut partitions: Vec<Partition> = Vec::new();
    let mut subvolumes: Vec<BtrfsSubvolume> = Vec::new();
    assert(partition_views(partitions@) =~= Seq::<PartitionView>::empty());
    assert(subvolume_views(subvolumes@) =~= Seq::<(Seq<char>, Seq<char>)>::empty());
    let mut i: usize = 0;
    while i < filesystems.len()
        invariant
            i <= filesystems@.len(),
            distinct_devices(partition_views(partitions@)),
            layout_of(partitions@, subvolumes@) == visit_all(empty_layout(), filesystems@.take(i as int)),
        decreases filesystems@.len() - i,
    {
        assert(filesystems@.take(i + 1).drop_last() =~= filesystems@.take(i as int));
        process_fs(&filesystems[i], &mut partitions, &mut subvolumes);
        i = i + 1;
    }
    assert(filesystems@.take(i as int) =~= filesystems@);
    PartitionPlan::Manual { partitions, btrfs_subvolumes: subvolumes }
}

} // verus!
