//! The mounts that make up the root of a command, and the capabilities that it
//! loses.

use crate::path::{
    child_path, is_under, join_path, parse_path, render_path, root_path, FsPath, PathModel,
};
use vstd::prelude::*;
use vstd::utf8::encode_utf8;

verus! {

/// Ignore the set-user-id bits.
pub const MS_NOSUID: u64 = 2;

/// Allow no device files.
pub const MS_NODEV: u64 = 4;

/// Allow no programs.
pub const MS_NOEXEC: u64 = 8;

/// Show a directory or file in another place.
pub const MS_BIND: u64 = 4096;

/// With all mounts below.
pub const MS_REC: u64 = 16384;

/// Keep mounts to this namespace.
pub const MS_PRIVATE: u64 = 262144;

/// A way of mounting.
#[derive(Debug, Clone, Copy, PartialEq, Eq, Structural)]
pub enum MountKind {
    /// Show one file or directory in another place.
    Bind,
    /// The same, with all mounts below.
    BindTree,
    /// A file system of terminals of its own.
    Terminals,
    /// An empty file system in memory.
    Memory,
    /// No new mount: what is mounted from now on stays in the namespace.
    KeepPrivate,
}

/// The flags of a way of mounting.
pub open spec fn flags_of(kind: MountKind) -> u64 {
    match kind {
        MountKind::Bind => MS_BIND,
        MountKind::BindTree => MS_BIND | MS_REC,
        MountKind::Terminals => MS_NOSUID | MS_NOEXEC,
        MountKind::Memory => MS_NOSUID | MS_NODEV,
        MountKind::KeepPrivate => MS_PRIVATE | MS_REC,
    }
}

/// The flags of a way of mounting.
pub fn mount_flags(kind: MountKind) -> (r: u64)
    ensures
        r == flags_of(kind),
{
    match kind {
        MountKind::Bind => MS_BIND,
        MountKind::BindTree => MS_BIND | MS_REC,
        MountKind::Terminals => MS_NOSUID | MS_NOEXEC,
        MountKind::Memory => MS_NOSUID | MS_NODEV,
        MountKind::KeepPrivate => MS_PRIVATE | MS_REC,
    }
}

/// Whether a file system type and its options are those of a way of mounting.
pub open spec fn is_mount_type(kind: MountKind, fs_type: Option<&'static str>, options: Option<&'static str>) -> bool {
    match kind {
        MountKind::Terminals => fs_type matches Some(t) && t@ == "devpts"@ && (options matches Some(o)
            && o@ == "newinstance,mode=666,ptmxmode=666"@),
        MountKind::Memory => (fs_type matches Some(t) && t@ == "tmpfs"@) && options is None,
        _ => fs_type is None && options is None,
    }
}

/// The file system type that a way of mounting names, and its options.
pub fn mount_type(kind: MountKind) -> (r: (Option<&'static str>, Option<&'static str>))
    ensures
        is_mount_type(kind, r.0, r.1),
{
    match kind {
        MountKind::Terminals => (Some("devpts"), Some("newinstance,mode=666,ptmxmode=666")),
        MountKind::Memory => (Some("tmpfs"), None),
        _ => (None, None),
    }
}

/// A step of making a root.
#[derive(Debug)]
pub enum MountStep {
    /// Make a directory with those above it.
    MakeDirs(FsPath),
    /// Make an empty file.
    MakeFile(FsPath),
    Mount { source: Option<Vec<u8>>, target: FsPath, kind: MountKind },
    /// Make a directory the root.
    Chroot(FsPath),
    /// Make a directory the current one.
    Chdir(FsPath),
}

/// What a step is.
pub enum MountStepModel {
    MakeDirs(PathModel),
    MakeFile(PathModel),
    Mount { source: Option<Seq<u8>>, target: PathModel, kind: MountKind },
    Chroot(PathModel),
    Chdir(PathModel),
}

impl View for MountStep {
    type V = MountStepModel;

    open spec fn view(&self) -> MountStepModel {
        match self {
            MountStep::MakeDirs(p) => MountStepModel::MakeDirs(p@),
            MountStep::MakeFile(p) => MountStepModel::MakeFile(p@),
            MountStep::Mount { source, target, kind } => MountStepModel::Mount {
                source: match source {
                    Some(s) => Some(s@),
                    None => None,
                },
                target: target@,
                kind: *kind,
            },
            MountStep::Chroot(p) => MountStepModel::Chroot(p@),
            MountStep::Chdir(p) => MountStepModel::Chdir(p@),
        }
    }
}

/// What steps are.
pub open spec fn mount_views(v: Seq<MountStep>) -> Seq<MountStepModel> {
    v.map_values(|s: MountStep| s@)
}

/// A path below another by a name.
pub open spec fn below(base: PathModel, name: Seq<char>) -> PathModel {
    child_path(base, encode_utf8(name))
}

/// A device's place below the root, and its place on the host.
pub open spec fn device_step(rootfs: PathModel, name: Seq<char>, host: Seq<char>) -> MountStepModel {
    MountStepModel::Mount {
        source: Some(encode_utf8(host)),
        target: below(below(rootfs, "dev"@), name),
        kind: MountKind::Bind,
    }
}

/// Shows a terminal as the terminal of the command, where there is one.
pub open spec fn tty_steps(rootfs: PathModel, tty: Option<PathModel>) -> Seq<MountStepModel> {
    match tty {
        Some(path) => seq![
            MountStepModel::Mount {
                source: Some(render_path(path)),
                target: below(below(rootfs, "dev"@), "tty"@),
                kind: MountKind::Bind,
            },
        ],
        None => Seq::empty(),
    }
}

/// The steps that fill the directory of devices.
pub open spec fn dev_steps(
    rootfs: PathModel,
    controlling_tty: Option<PathModel>,
    pty_slave: Option<PathModel>,
) -> Seq<MountStepModel> {
    let dev = below(rootfs, "dev"@);
    let pts = below(dev, "pts"@);
    seq![
        device_step(rootfs, "null"@, "/dev/null"@),
        device_step(rootfs, "zero"@, "/dev/zero"@),
        device_step(rootfs, "urandom"@, "/dev/urandom"@),
        device_step(rootfs, "random"@, "/dev/random"@),
    ] + tty_steps(rootfs, controlling_tty) + seq![
        MountStepModel::MakeDirs(pts),
        MountStepModel::Mount {
            source: Some(encode_utf8("devpts"@)),
            target: pts,
            kind: MountKind::Terminals,
        },
        MountStepModel::Mount {
            source: Some(render_path(below(pts, "ptmx"@))),
            target: below(dev, "ptmx"@),
            kind: MountKind::Bind,
        },
    ] + tty_steps(rootfs, pty_slave)
}

/// The steps that make the places for the mounts, and show the file system and the
/// processes of the host there.
pub open spec fn base_steps(rootfs: PathModel, mountpoint: PathModel) -> Seq<MountStepModel> {
    let dev = below(rootfs, "dev"@);
    seq![
        MountStepModel::MakeDirs(below(rootfs, "proc"@)),
        MountStepModel::MakeDirs(dev),
        MountStepModel::MakeFile(below(dev, "null"@)),
        MountStepModel::MakeFile(below(dev, "zero"@)),
        MountStepModel::MakeFile(below(dev, "random"@)),
        MountStepModel::MakeFile(below(dev, "urandom"@)),
        MountStepModel::Mount {
            source: Some(render_path(mountpoint)),
            target: rootfs,
            kind: MountKind::BindTree,
        },
        MountStepModel::Mount {
            source: Some(encode_utf8("/proc"@)),
            target: below(rootfs, "proc"@),
            kind: MountKind::BindTree,
        },
    ]
}

/// The steps that enter the new root: the current directory is entered before an
/// empty directory for temporary files hides what lay there.
pub open spec fn enter_steps(rootfs: PathModel, cwd: PathModel) -> Seq<MountStepModel> {
    seq![
        MountStepModel::Chroot(rootfs),
        MountStepModel::Chdir(cwd),
        MountStepModel::Mount {
            source: Some(encode_utf8("tmpfs"@)),
            target: below(root_path(), "tmp"@),
            kind: MountKind::Memory,
        },
    ]
}

/// The steps that make and enter the root of a command.
pub open spec fn chroot_steps(
    rootfs: PathModel,
    mountpoint: PathModel,
    cwd: PathModel,
    controlling_tty: Option<PathModel>,
    pty_slave: Option<PathModel>,
) -> Seq<MountStepModel> {
    base_steps(rootfs, mountpoint) + dev_steps(rootfs, controlling_tty, pty_slave) + enter_steps(
        rootfs,
        cwd,
    )
}

fn text_bytes(s: &str) -> (r: Vec<u8>)
    ensures
        r@ == encode_utf8(s@),
{
    let mut v: Vec<u8> = Vec::new();
    v.extend_from_slice(s.as_bytes());
    assert(v@ =~= encode_utf8(s@));
    v
}

fn name_below(base: &FsPath, name: &str) -> (r: FsPath)
    ensures
        r@ == below(base@, name@),
{
    base.child(name.as_bytes())
}

fn push_step(steps: &mut Vec<MountStep>, step: MountStep)
    ensures
        final(steps)@ == old(steps)@.push(step),
        mount_views(final(steps)@) == mount_views(old(steps)@).push(step@),
{
    steps.push(step);
    assert(mount_views(steps@) =~= mount_views(old(steps)@).push(step@));
}

fn push_bind(steps: &mut Vec<MountStep>, source: Vec<u8>, target: FsPath, kind: MountKind)
    ensures
        mount_views(final(steps)@) == mount_views(old(steps)@).push(
            MountStepModel::Mount { source: Some(source@), target: target@, kind },
        ),
{
    push_step(steps, MountStep::Mount { source: Some(source), target, kind });
}

fn push_tty(steps: &mut Vec<MountStep>, rootfs: &FsPath, tty: Option<&FsPath>)
    ensures
        mount_views(final(steps)@) == mount_views(old(steps)@) + tty_steps(
            rootfs@,
            opt_path(tty),
        ),
{
    match tty {
        Some(path) => {
            let target = name_below(&name_below(rootfs, "dev"), "tty");
            push_bind(steps, path.to_bytes(), target, MountKind::Bind);
            assert(mount_views(steps@) =~= mount_views(old(steps)@) + tty_steps(
                rootfs@,
                opt_path(tty),
            ));
        },
        None => {
            assert(mount_views(steps@) =~= mount_views(old(steps)@) + tty_steps(
                rootfs@,
                opt_path(tty),
            ));
        },
    }
}

/// What an optional path is.
pub open spec fn opt_path(p: Option<&FsPath>) -> Option<PathModel> {
    match p {
        Some(x) => Some(x@),
        None => None,
    }
}

fn bind_mount_dev(
    steps: &mut Vec<MountStep>,
    rootfs: &FsPath,
    controlling_tty: Option<&FsPath>,
    pty_slave: Option<&FsPath>,
)
    ensures
        mount_views(final(steps)@) == mount_views(old(steps)@) + dev_steps(
            rootfs@,
            opt_path(controlling_tty),
            opt_path(pty_slave),
        ),
{
    let dev = name_below(rootfs, "dev");
    push_bind(steps, text_bytes("/dev/null"), name_below(&dev, "null"), MountKind::Bind);
    push_bind(steps, text_bytes("/dev/zero"), name_below(&dev, "zero"), MountKind::Bind);
    push_bind(steps, text_bytes("/dev/urandom"), name_below(&dev, "urandom"), MountKind::Bind);
    push_bind(steps, text_bytes("/dev/random"), name_below(&dev, "random"), MountKind::Bind);
    push_tty(steps, rootfs, controlling_tty);
    let pts = name_below(&dev, "pts");
    let ptmx = name_below(&pts, "ptmx");
    push_step(steps, MountStep::MakeDirs(pts.copy()));
    push_bind(steps, text_bytes("devpts"), pts, MountKind::Terminals);
    push_bind(steps, ptmx.to_bytes(), name_below(&dev, "ptmx"), MountKind::Bind);
    push_tty(steps, rootfs, pty_slave);
    assert(mount_views(steps@) =~= mount_views(old(steps)@) + dev_steps(
        rootfs@,
        opt_path(controlling_tty),
        opt_path(pty_slave),
    ));
}

/// The mount that keeps what is mounted from now on in the namespace.
pub open spec fn private_step() -> MountStepModel {
    MountStepModel::Mount { source: None, target: root_path(), kind: MountKind::KeepPrivate }
}

/// Plans the mount that keeps what is mounted from now on in the namespace.
pub fn create_mount_ns() -> (r: MountStep)
    ensures
        r@ == private_step(),
{
    MountStep::Mount { source: None, target: FsPath::root(), kind: MountKind::KeepPrivate }
}

/// Plans the root of a command: the file system at `mountpoint`, with the host's
/// processes and a few devices, becomes the root, and `cwd` the current directory.
pub fn prepare_chroot(
    rootfs: &FsPath,
    mountpoint: &FsPath,
    cwd: &FsPath,
    controlling_tty: Option<&FsPath>,
    pty_slave: Option<&FsPath>,
) -> (r: Vec<MountStep>)
    ensures
        mount_views(r@) == chroot_steps(
            rootfs@,
            mountpoint@,
            cwd@,
            opt_path(controlling_tty),
            opt_path(pty_slave),
        ),
{
    let mut steps: Vec<MountStep> = Vec::new();
    let dev = name_below(rootfs, "dev");
    push_step(&mut steps, MountStep::MakeDirs(name_below(rootfs, "proc")));
    push_step(&mut steps, MountStep::MakeDirs(dev.copy()));
    push_step(&mut steps, MountStep::MakeFile(name_below(&dev, "null")));
    push_step(&mut steps, MountStep::MakeFile(name_below(&dev, "zero")));
    push_step(&mut steps, MountStep::MakeFile(name_below(&dev, "random")));
    push_step(&mut steps, MountStep::MakeFile(name_below(&dev, "urandom")));
    push_bind(&mut steps, mountpoint.to_bytes(), rootfs.copy(), MountKind::BindTree);
    push_bind(&mut steps, text_bytes("/proc"), name_below(rootfs, "proc"), MountKind::BindTree);
    assert(mount_views(steps@) =~= base_steps(rootfs@, mountpoint@));
    bind_mount_dev(&mut steps, rootfs, controlling_tty, pty_slave);
    let ghost before = mount_views(steps@);
    push_step(&mut steps, MountStep::Chroot(rootfs.copy()));
    push_step(&mut steps, MountStep::Chdir(cwd.copy()));
    push_bind(
        &mut steps,
        text_bytes("tmpfs"),
        name_below(&FsPath::root(), "tmp"),
        MountKind::Memory,
    );
    assert(mount_views(steps@) =~= before + enter_steps(rootfs@, cwd@));
    steps
}

/// The number of the last capability that is dropped.
pub const LAST_CAPABILITY: u8 = 31;

/// A set of capabilities.
#[derive(Debug, Clone, Copy, PartialEq, Eq, Structural)]
pub enum CapabilitySet {
    Effective,
    Permitted,
    Inheritable,
}

/// The capabilities to drop, by number, and the set that each is dropped from: every
/// one, from all three sets in turn.
pub open spec fn capability_drops() -> Seq<(CapabilitySet, u8)> {
    Seq::new(
        96,
        |i: int|
            (
                if i % 3 == 0 {
                    CapabilitySet::Effective
                } else if i % 3 == 1 {
                    CapabilitySet::Permitted
                } else {
                    CapabilitySet::Inheritable
                },
                (i / 3) as u8,
            ),
    )
}

/// Plans which capabilities are dropped; that one cannot be dropped is no matter.
pub fn drop_capabilities() -> (r: Vec<(CapabilitySet, u8)>)
    ensures
        r@ == capability_drops(),
{
    let mut drops: Vec<(CapabilitySet, u8)> = Vec::new();
    let mut c: u8 = 0;
    while c <= LAST_CAPABILITY
        invariant
            c <= LAST_CAPABILITY + 1,
            drops@ == capability_drops().take(3 * c),
        decreases LAST_CAPABILITY + 1 - c,
    {
        drops.push((CapabilitySet::Effective, c));
        drops.push((CapabilitySet::Permitted, c));
        drops.push((CapabilitySet::Inheritable, c));
        c = c + 1;
        assert(drops@ =~= capability_drops().take(3 * c));
    }
    assert(capability_drops().take(96) =~= capability_drops());
    drops
}

/// Every capability leaves every set.
pub proof fn law_all_capabilities_drop(set: CapabilitySet, c: u8)
    requires
        c <= LAST_CAPABILITY,
    ensures
        capability_drops().contains((set, c)),
{
    let k: int = match set {
        CapabilitySet::Effective => 0,
        CapabilitySet::Permitted => 1,
        CapabilitySet::Inheritable => 2,
    };
    let i = 3 * c + k;
    assert(capability_drops()[i] == (set, c));
}

/// What a step changes.
pub open spec fn target_of(step: MountStepModel) -> PathModel {
    match step {
        MountStepModel::MakeDirs(p) => p,
        MountStepModel::MakeFile(p) => p,
        MountStepModel::Mount { target, .. } => target,
        MountStepModel::Chroot(p) => p,
        MountStepModel::Chdir(p) => p,
    }
}

proof fn lemma_below(base: PathModel, name: Seq<char>)
    requires
        vstd::utf8::is_ascii_chars(name),
        name.len() > 0,
        name[0] != '/',
    ensures
        is_under(below(base, name), base),
{
    vstd::utf8::is_ascii_chars_encode_utf8(name);
    let b = encode_utf8(name);
    assert(b[0] == name[0] as u8);
    assert(b[0] != 47);
    assert(!parse_path(b).0);
    assert(below(base, name) == join_path(base, parse_path(b)));
}

proof fn lemma_device(rootfs: PathModel, name: Seq<char>)
    requires
        vstd::utf8::is_ascii_chars(name),
        name.len() > 0,
        name[0] != '/',
    ensures
        is_under(below(below(rootfs, "dev"@), name), rootfs),
{
    reveal_strlit("dev");
    let dev = below(rootfs, "dev"@);
    lemma_below(rootfs, "dev"@);
    lemma_below(dev, name);
    let p = below(dev, name);
    assert(rootfs.1 =~= p.1.subrange(0, rootfs.1.len() as int)) by {
        assert(dev.1 =~= p.1.subrange(0, dev.1.len() as int));
    }
}

/// Whether all steps work on a directory or below it.
pub open spec fn all_below(steps: Seq<MountStepModel>, base: PathModel) -> bool {
    forall|i: int| 0 <= i < steps.len() ==> is_under(target_of(#[trigger] steps[i]), base)
}

proof fn lemma_base_steps_below(rootfs: PathModel, mountpoint: PathModel)
    ensures
        all_below(base_steps(rootfs, mountpoint), rootfs),
{
    reveal_strlit("dev");
    reveal_strlit("proc");
    reveal_strlit("null");
    reveal_strlit("zero");
    reveal_strlit("random");
    reveal_strlit("urandom");
    lemma_below(rootfs, "dev"@);
    lemma_below(rootfs, "proc"@);
    lemma_device(rootfs, "null"@);
    lemma_device(rootfs, "zero"@);
    lemma_device(rootfs, "random"@);
    lemma_device(rootfs, "urandom"@);
    assert(is_under(rootfs, rootfs)) by {
        assert(rootfs.1 =~= rootfs.1.subrange(0, rootfs.1.len() as int));
    }
}

proof fn lemma_dev_steps_below(
    rootfs: PathModel,
    controlling_tty: Option<PathModel>,
    pty_slave: Option<PathModel>,
)
    ensures
        all_below(dev_steps(rootfs, controlling_tty, pty_slave), rootfs),
{
    reveal_strlit("null");
    reveal_strlit("zero");
    reveal_strlit("random");
    reveal_strlit("urandom");
    reveal_strlit("tty");
    reveal_strlit("pts");
    reveal_strlit("ptmx");
    lemma_device(rootfs, "null"@);
    lemma_device(rootfs, "zero"@);
    lemma_device(rootfs, "random"@);
    lemma_device(rootfs, "urandom"@);
    lemma_device(rootfs, "tty"@);
    lemma_device(rootfs, "pts"@);
    lemma_device(rootfs, "ptmx"@);
}

/// Up to the change of root, every step works on the new root or below it: nothing of
/// the host is changed.
pub proof fn law_mounts_stay_below_root(
    rootfs: PathModel,
    mountpoint: PathModel,
    cwd: PathModel,
    controlling_tty: Option<PathModel>,
    pty_slave: Option<PathModel>,
)
    ensures
        ({
            let all = chroot_steps(rootfs, mountpoint, cwd, controlling_tty, pty_slave);
            all_below(all.take(all.len() - 3), rootfs)
        }),
{
    lemma_base_steps_below(rootfs, mountpoint);
    lemma_dev_steps_below(rootfs, controlling_tty, pty_slave);
}

/// The new root is entered once everything is mounted, the current directory after
/// that, and only then the directory for temporary files is emptied.
pub proof fn law_root_is_entered_last(
    rootfs: PathModel,
    mountpoint: PathModel,
    cwd: PathModel,
    controlling_tty: Option<PathModel>,
    pty_slave: Option<PathModel>,
)
    ensures
        ({
            let all = chroot_steps(rootfs, mountpoint, cwd, controlling_tty, pty_slave);
            let n = all.len() - 3;
            &&& all[n] == MountStepModel::Chroot(rootfs)
            &&& all[n + 1] == MountStepModel::Chdir(cwd)
            &&& all[n + 2] is Mount
            &&& forall|i: int|
                0 <= i < n ==> !((#[trigger] all[i]) is Chroot) && !(all[i] is Chdir)
        }),
{
}

/// A name that is one component leads one level down.
proof fn lemma_one_below(base: PathModel, name: Seq<char>)
    requires
        base.0,
        vstd::utf8::is_ascii_chars(name),
        name.len() > 1,
        forall|i: int| 0 <= i < name.len() ==> #[trigger] name[i] != '/',
    ensures
        below(base, name) == (base.0, base.1.push(encode_utf8(name))),
{
    vstd::utf8::is_ascii_chars_encode_utf8(name);
    let b = encode_utf8(name);
    assert(!b.contains(47)) by {
        if b.contains(47) {
            let i = choose|i: int| 0 <= i < b.len() && b[i] == 47;
            assert(b[i] == name[i] as u8);
            assert(name[i] != '/');
        }
    }
    assert(b.len() > 1);
    crate::path_laws::law_children(base, b);
}

/// Whether a plan shows something of the host in a place.
pub open spec fn binds(steps: Seq<MountStepModel>, source: Seq<u8>, target: PathModel, kind: MountKind) -> bool {
    exists|i: int|
        0 <= i < steps.len() && #[trigger] steps[i] == (MountStepModel::Mount {
            source: Some(source),
            target,
            kind,
        })
}

/// What the root of a command holds: the mounted file system as the root, with all mounts
/// below it, the processes of the host under `proc`, and four devices, a terminal of its
/// own where there is one, and terminals of its own under `dev`; temporary files lie in
/// memory.
pub proof fn law_root_holds(
    rootfs: PathModel,
    mountpoint: PathModel,
    cwd: PathModel,
    controlling_tty: Option<PathModel>,
    pty_slave: Option<PathModel>,
)
    requires
        rootfs.0,
    ensures
        ({
            let all = chroot_steps(rootfs, mountpoint, cwd, controlling_tty, pty_slave);
            let dev = rootfs.1.push(encode_utf8("dev"@));
            &&& binds(all, render_path(mountpoint), rootfs, MountKind::BindTree)
            &&& binds(
                all,
                encode_utf8("/proc"@),
                (true, rootfs.1.push(encode_utf8("proc"@))),
                MountKind::BindTree,
            )
            &&& binds(
                all,
                encode_utf8("/dev/null"@),
                (true, dev.push(encode_utf8("null"@))),
                MountKind::Bind,
            )
            &&& binds(
                all,
                encode_utf8("/dev/zero"@),
                (true, dev.push(encode_utf8("zero"@))),
                MountKind::Bind,
            )
            &&& binds(
                all,
                encode_utf8("/dev/random"@),
                (true, dev.push(encode_utf8("random"@))),
                MountKind::Bind,
            )
            &&& binds(
                all,
                encode_utf8("/dev/urandom"@),
                (true, dev.push(encode_utf8("urandom"@))),
                MountKind::Bind,
            )
            &&& controlling_tty matches Some(tty) ==> binds(
                all,
                render_path(tty),
                (true, dev.push(encode_utf8("tty"@))),
                MountKind::Bind,
            )
            &&& pty_slave matches Some(tty) ==> binds(
                all,
                render_path(tty),
                (true, dev.push(encode_utf8("tty"@))),
                MountKind::Bind,
            )
            &&& binds(
                all,
                encode_utf8("devpts"@),
                (true, dev.push(encode_utf8("pts"@))),
                MountKind::Terminals,
            )
            &&& binds(
                all,
                encode_utf8("tmpfs"@),
                (true, seq![encode_utf8("tmp"@)]),
                MountKind::Memory,
            )
        }),
{
    let all = chroot_steps(rootfs, mountpoint, cwd, controlling_tty, pty_slave);
    reveal_strlit("dev");
    reveal_strlit("proc");
    reveal_strlit("null");
    reveal_strlit("zero");
    reveal_strlit("random");
    reveal_strlit("urandom");
    reveal_strlit("tty");
    reveal_strlit("pts");
    reveal_strlit("tmp");
    lemma_one_below(rootfs, "dev"@);
    lemma_one_below(rootfs, "proc"@);
    let dev = below(rootfs, "dev"@);
    lemma_one_below(dev, "null"@);
    lemma_one_below(dev, "zero"@);
    lemma_one_below(dev, "random"@);
    lemma_one_below(dev, "urandom"@);
    lemma_one_below(dev, "tty"@);
    lemma_one_below(dev, "pts"@);
    lemma_one_below(root_path(), "tmp"@);
    assert(root_path().1.push(encode_utf8("tmp"@)) =~= seq![encode_utf8("tmp"@)]);
    let base = base_steps(rootfs, mountpoint);
    let devs = dev_steps(rootfs, controlling_tty, pty_slave);
    let t: int = if controlling_tty is Some {
        1
    } else {
        0
    };
    assert(all[6] == base[6]);
    assert(all[7] == base[7]);
    assert(all[8] == devs[0]);
    assert(all[9] == devs[1]);
    assert(all[10] == devs[2]);
    assert(all[11] == devs[3]);
    if controlling_tty is Some {
        assert(all[12] == devs[4]);
    }
    assert(all[8 + 4 + t + 1] == devs[4 + t + 1]);
    if pty_slave is Some {
        assert(all[8 + 4 + t + 3] == devs[4 + t + 3]);
    }
    assert(all[all.len() - 1] == enter_steps(rootfs, cwd)[2]);
}

/// The places of the mounts are made before anything is mounted on them: directories for
/// the processes and the devices, and a file for each device.
pub proof fn law_places_are_made_first(
    rootfs: PathModel,
    mountpoint: PathModel,
    cwd: PathModel,
    controlling_tty: Option<PathModel>,
    pty_slave: Option<PathModel>,
    i: int,
)
    ensures
        ({
            let all = chroot_steps(rootfs, mountpoint, cwd, controlling_tty, pty_slave);
            &&& 0 <= i < 6 ==> !(all[i] is Mount)
            &&& all[6] is Mount
        }),
{
}

/// The flags that each way of mounting hands to the system.
pub proof fn law_mount_flags(kind: MountKind)
    ensures
        kind is Bind ==> flags_of(kind) == 4096,
        kind is BindTree ==> flags_of(kind) == 20480,
        kind is Terminals ==> flags_of(kind) == 10,
        kind is Memory ==> flags_of(kind) == 6,
        kind is KeepPrivate ==> flags_of(kind) == 278528,
{
    assert(4096u64 | 16384u64 == 20480u64 && 2u64 | 8u64 == 10u64 && 2u64 | 4u64 == 6u64 && 262144u64
        | 16384u64 == 278528u64) by (bit_vector);
}

/// A file system of its own is made only for terminals and for memory: what is shown of the
/// host needs no type.  All mounts from the root down are kept to the namespace.
pub proof fn law_mount_types(kind: MountKind, fs_type: Option<&'static str>, options: Option<&'static str>)
    requires
        is_mount_type(kind, fs_type, options),
    ensures
        fs_type is Some <==> kind is Terminals || kind is Memory,
        kind is Terminals ==> fs_type->0@ == "devpts"@,
        kind is Memory ==> fs_type->0@ == "tmpfs"@,
        options is Some <==> kind is Terminals,
        private_step() matches MountStepModel::Mount { source, target, kind: k } && source is None
            && target == (true, Seq::<Seq<u8>>::empty()) && k is KeepPrivate,
{
}

} // verus!
