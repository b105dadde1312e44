//! Making a sandbox, and making it anew.

use crate::path::{child_path, path_views, FsPath, PathModel};
use crate::syncing::disk::{
    access_log, access_log_path, daemon_sock, data_dir, data_dir_of, dot_sandbox, fresh_meta,
    init_dirs, init_sandbox, objects_dir, objects_name, socket_path, state_dir, InitPlan,
};
use crate::syncing::request_laws::lemma_name_below;
use vstd::prelude::*;

verus! {

/// What a file of a new sandbox holds at first.
#[derive(Debug, Clone, Copy, PartialEq, Eq, Structural)]
pub enum FileContent {
    Nothing,
    /// The configuration that every sandbox starts with.
    DefaultConfig,
    /// The names that version control leaves out.
    IgnoreList,
}

/// The configuration that every sandbox starts with.
pub const DEFAULT_CONFIG: &'static str = "whitelist = []\nblacklist = []\ndisableLog = []\nlogLevel = \"info\"\n";

/// The names that version control leaves out.
pub const IGNORE_LIST: &'static str = "data/\ndaemon.sock\n";

/// The text of a file of a new sandbox.
pub open spec fn text_of(content: FileContent) -> Seq<char> {
    match content {
        FileContent::Nothing => ""@,
        FileContent::DefaultConfig => DEFAULT_CONFIG@,
        FileContent::IgnoreList => IGNORE_LIST@,
    }
}

/// The text of a file of a new sandbox.
pub fn file_text(content: FileContent) -> (r: &'static str)
    ensures
        r@ == text_of(content),
{
    match content {
        FileContent::Nothing => "",
        FileContent::DefaultConfig => DEFAULT_CONFIG,
        FileContent::IgnoreList => IGNORE_LIST,
    }
}

/// A step of making a sandbox.
#[derive(Debug)]
pub enum CleanStep {
    /// Make a directory with those above it.
    MakeDirs(FsPath),
    /// Write the first state of the daemon.
    InitStore(InitPlan),
    WriteFile { path: FsPath, content: FileContent },
    /// Remove a directory with all that it holds.
    RemoveTree(FsPath),
    /// Remove a shared memory segment; that it fails is no matter.
    UnlinkShm(String),
    /// Remove a file; that it fails is no matter.
    RemoveFile(FsPath),
}

/// What a step is.
#[verifier::ext_equal]
pub enum CleanStepModel {
    MakeDirs(PathModel),
    /// Write the first state of the daemon of this sandbox with this shared memory.
    InitStore { root: PathModel, shm_name: Seq<char> },
    WriteFile { path: PathModel, content: FileContent },
    RemoveTree(PathModel),
    UnlinkShm(Seq<char>),
    RemoveFile(PathModel),
}

/// Whether a step does what a model says.
pub open spec fn step_is(step: CleanStep, model: CleanStepModel) -> bool {
    match (step, model) {
        (CleanStep::MakeDirs(p), CleanStepModel::MakeDirs(q)) => p@ == q,
        (CleanStep::InitStore(plan), CleanStepModel::InitStore { root, shm_name }) => {
            &&& path_views(plan.dirs@) == init_dirs(root)
            &&& plan.meta@ == fresh_meta(shm_name)
            &&& plan.map.entries@.len() == 0
        },
        (
            CleanStep::WriteFile { path, content },
            CleanStepModel::WriteFile { path: q, content: c },
        ) => path@ == q && content == c,
        (CleanStep::RemoveTree(p), CleanStepModel::RemoveTree(q)) => p@ == q,
        (CleanStep::UnlinkShm(s), CleanStepModel::UnlinkShm(t)) => s@ == t,
        (CleanStep::RemoveFile(p), CleanStepModel::RemoveFile(q)) => p@ == q,
        _ => false,
    }
}

/// Whether steps do what models say, one for one.
pub open spec fn steps_are(steps: Seq<CleanStep>, models: Seq<CleanStepModel>) -> bool {
    steps.len() == models.len() && forall|i: int|
        0 <= i < steps.len() ==> step_is(#[trigger] steps[i], models[i])
}

/// The file name `config.toml`.
pub open spec fn config_toml() -> Seq<u8> {
    seq![99u8, 111, 110, 102, 105, 103, 46, 116, 111, 109, 108]
}

/// The file name `.gitignore`.
pub open spec fn dot_gitignore() -> Seq<u8> {
    seq![46u8, 103, 105, 116, 105, 103, 110, 111, 114, 101]
}

/// The steps that both kinds of cleaning share: the directories, the first state and
/// an empty access log.
pub open spec fn fresh_steps(root: PathModel, shm_name: Seq<char>) -> Seq<CleanStepModel> {
    seq![
        CleanStepModel::MakeDirs(child_path(data_dir_of(root), objects_name())),
        CleanStepModel::InitStore { root, shm_name },
        CleanStepModel::WriteFile {
            path: child_path(data_dir_of(root), access_log()),
            content: FileContent::Nothing,
        },
    ]
}

/// The steps that make a new sandbox.
pub open spec fn create_steps(root: PathModel, shm_name: Seq<char>) -> Seq<CleanStepModel> {
    fresh_steps(root, shm_name) + seq![
        CleanStepModel::WriteFile {
            path: child_path(child_path(root, dot_sandbox()), config_toml()),
            content: FileContent::DefaultConfig,
        },
        CleanStepModel::WriteFile {
            path: child_path(child_path(root, dot_sandbox()), dot_gitignore()),
            content: FileContent::IgnoreList,
        },
    ]
}

/// What was found of an old sandbox.
#[derive(Debug)]
pub struct OldSandbox {
    /// Whether there is a data directory.
    pub has_data: bool,
    /// The name of the shared memory, where the metadata could be read.
    pub shm_name: Option<String>,
    /// Whether a segment of that name can be opened.
    pub shm_opens: bool,
    /// Whether there is a socket.
    pub has_socket: bool,
}

/// The steps that take an old sandbox away; its configuration stays.
pub open spec fn removal_steps(root: PathModel, old: OldSandbox) -> Seq<CleanStepModel> {
    let data = if old.has_data {
        seq![CleanStepModel::RemoveTree(data_dir_of(root))]
    } else {
        Seq::empty()
    };
    let shm = match old.shm_name {
        Some(name) => if name@.len() > 0 && old.shm_opens {
            seq![CleanStepModel::UnlinkShm(name@)]
        } else {
            Seq::empty()
        },
        None => Seq::empty(),
    };
    let socket = if old.has_socket {
        seq![
            CleanStepModel::RemoveFile(
                child_path(child_path(root, dot_sandbox()), daemon_sock()),
            ),
        ]
    } else {
        Seq::empty()
    };
    data + shm + socket
}

/// The steps of cleaning: a sandbox that is there is taken away and made anew without
/// its configuration being touched; where there is none, one is made.
pub open spec fn clean_steps(
    root: PathModel,
    old: Option<OldSandbox>,
    shm_name: Seq<char>,
) -> Seq<CleanStepModel> {
    match old {
        None => create_steps(root, shm_name),
        Some(o) => removal_steps(root, o) + fresh_steps(root, shm_name),
    }
}

/// Whether a shared memory segment has to be looked for before cleaning: only where
/// the metadata names one.
pub fn names_shm(shm_name: &str) -> (r: bool)
    ensures
        r == (shm_name@.len() > 0),
{
    shm_name.unicode_len() > 0
}

fn push_step(steps: &mut Vec<CleanStep>, step: CleanStep, Ghost(models): Ghost<Seq<CleanStepModel>>, Ghost(
    model,
): Ghost<CleanStepModel>)
    requires
        steps_are(old(steps)@, models),
        step_is(step, model),
    ensures
        final(steps)@ == old(steps)@.push(step),
        steps_are(final(steps)@, models.push(model)),
{
    steps.push(step);
}

/// Adds the steps that both kinds of cleaning share.
fn push_fresh(
    steps: &mut Vec<CleanStep>,
    root: &FsPath,
    shm_name: &str,
    Ghost(models): Ghost<Seq<CleanStepModel>>,
)
    requires
        steps_are(old(steps)@, models),
    ensures
        steps_are(final(steps)@, models + fresh_steps(root@, shm_name@)),
{
    let ghost all = fresh_steps(root@, shm_name@);
    push_step(steps, CleanStep::MakeDirs(objects_dir(root)), Ghost(models), Ghost(all[0]));
    push_step(
        steps,
        CleanStep::InitStore(init_sandbox(root, shm_name)),
        Ghost(models.push(all[0])),
        Ghost(all[1]),
    );
    push_step(
        steps,
        CleanStep::WriteFile {
            path: access_log_path(root),
            content: FileContent::Nothing,
        },
        Ghost(models.push(all[0]).push(all[1])),
        Ghost(all[2]),
    );
    assert(models.push(all[0]).push(all[1]).push(all[2]) =~= models + all);
}

/// Plans cleaning the sandbox of a project; the shared memory of the new one is
/// called `shm_name`.
pub fn cmd_clean(project_root: &FsPath, old: Option<OldSandbox>, shm_name: &str) -> (r: Vec<
    CleanStep,
>)
    ensures
        steps_are(r@, clean_steps(project_root@, old, shm_name@)),
{
    let mut steps: Vec<CleanStep> = Vec::new();
    let ghost mut models: Seq<CleanStepModel> = Seq::empty();
    match old {
        None => {
            push_fresh(&mut steps, project_root, shm_name, Ghost(models));
            let ghost fresh = models + fresh_steps(project_root@, shm_name@);
            let config: Vec<u8> = vec![99u8, 111, 110, 102, 105, 103, 46, 116, 111, 109, 108];
            assert(config@ =~= config_toml());
            let ignore: Vec<u8> = vec![46u8, 103, 105, 116, 105, 103, 110, 111, 114, 101];
            assert(ignore@ =~= dot_gitignore());
            let ghost all = create_steps(project_root@, shm_name@);
            assert(all[3] == (CleanStepModel::WriteFile {
                path: child_path(child_path(project_root@, dot_sandbox()), config_toml()),
                content: FileContent::DefaultConfig,
            }));
            assert(all[4] == (CleanStepModel::WriteFile {
                path: child_path(child_path(project_root@, dot_sandbox()), dot_gitignore()),
                content: FileContent::IgnoreList,
            }));
            push_step(
                &mut steps,
                CleanStep::WriteFile {
                    path: state_dir(project_root).child(config.as_slice()),
                    content: FileContent::DefaultConfig,
                },
                Ghost(fresh),
                Ghost(all[3]),
            );
            push_step(
                &mut steps,
                CleanStep::WriteFile {
                    path: state_dir(project_root).child(ignore.as_slice()),
                    content: FileContent::IgnoreList,
                },
                Ghost(fresh.push(all[3])),
                Ghost(all[4]),
            );
            assert(fresh.push(all[3]).push(all[4]) =~= all);
        },
        Some(o) => {
            let ghost whole = o;
            if o.has_data {
                let ghost model = CleanStepModel::RemoveTree(data_dir_of(project_root@));
                push_step(
                    &mut steps,
                    CleanStep::RemoveTree(data_dir(project_root)),
                    Ghost(models),
                    Ghost(model),
                );
                proof {
                    models = models.push(model);
                }
            }
            match o.shm_name {
                Some(name) => {
                    if names_shm(name.as_str()) && o.shm_opens {
                        let ghost model = CleanStepModel::UnlinkShm(name@);
                        push_step(
                            &mut steps,
                            CleanStep::UnlinkShm(name),
                            Ghost(models),
                            Ghost(model),
                        );
                        proof {
                            models = models.push(model);
                        }
                    }
                },
                None => {},
            }
            if o.has_socket {
                let ghost model = CleanStepModel::RemoveFile(
                    child_path(child_path(project_root@, dot_sandbox()), daemon_sock()),
                );
                push_step(
                    &mut steps,
                    CleanStep::RemoveFile(socket_path(project_root)),
                    Ghost(models),
                    Ghost(model),
                );
                proof {
                    models = models.push(model);
                }
            }
            assert(models =~= removal_steps(project_root@, whole));
            push_fresh(&mut steps, project_root, shm_name, Ghost(models));
        },
    }
    steps
}

/// Cleaning a sandbox that is there writes no configuration, whatever was found of
/// it: what the user wrote there stays.
pub proof fn law_clean_keeps_configuration(
    root: PathModel,
    old: OldSandbox,
    shm_name: Seq<char>,
    i: int,
)
    requires
        0 <= i < clean_steps(root, Some(old), shm_name).len(),
    ensures
        match clean_steps(root, Some(old), shm_name)[i] {
            CleanStepModel::WriteFile { path, content } => path == child_path(
                data_dir_of(root),
                access_log(),
            ) && content is Nothing,
            CleanStepModel::RemoveTree(path) => path == data_dir_of(root),
            CleanStepModel::RemoveFile(path) => path == child_path(
                child_path(root, dot_sandbox()),
                daemon_sock(),
            ),
            _ => true,
        },
{
}

/// Whatever was there before, cleaning ends with the same state of the daemon: after
/// the removals stand the steps that a new sandbox begins with.
pub proof fn law_clean_ends_fresh(root: PathModel, old: OldSandbox, shm_name: Seq<char>)
    ensures
        fresh_steps(root, shm_name).is_suffix_of(clean_steps(root, Some(old), shm_name)),
        fresh_steps(root, shm_name).is_prefix_of(clean_steps(root, None, shm_name)),
{
    let a = clean_steps(root, Some(old), shm_name);
    let f = fresh_steps(root, shm_name);
    assert(a.subrange(a.len() - f.len(), a.len() as int) =~= f);
    assert(clean_steps(root, None, shm_name).subrange(0, f.len() as int) =~= f);
}

/// Whether a plan holds a step.
pub open spec fn has_step(steps: Seq<CleanStepModel>, step: CleanStepModel) -> bool {
    exists|i: int| 0 <= i < steps.len() && #[trigger] steps[i] == step
}

/// What cleaning takes away of a sandbox that is there: its data where it has some, its
/// shared memory where it is named and can be opened, and its socket where it has one; each
/// of them exactly then.
pub proof fn law_clean_takes_away(root: PathModel, old: OldSandbox, shm_name: Seq<char>, name: Seq<char>)
    requires
        root.0,
    ensures
        ({
            let steps = clean_steps(root, Some(old), shm_name);
            let dir = root.1.push(seq![46u8, 115, 97, 110, 100, 98, 111, 120]);
            &&& has_step(
                steps,
                CleanStepModel::RemoveTree((true, dir.push(seq![100u8, 97, 116, 97]))),
            ) <==> old.has_data
            &&& has_step(
                steps,
                CleanStepModel::RemoveFile(
                    (
                        true,
                        dir.push(seq![100u8, 97, 101, 109, 111, 110, 46, 115, 111, 99, 107]),
                    ),
                ),
            ) <==> old.has_socket
            &&& has_step(steps, CleanStepModel::UnlinkShm(name)) <==> (old.shm_name matches Some(s)
                && s@ == name) && name.len() > 0 && old.shm_opens
        }),
{
    let steps = clean_steps(root, Some(old), shm_name);
    let a = dot_sandbox();
    let dir: PathModel = (true, root.1.push(a));
    lemma_name_below(root, a);
    lemma_name_below(dir, crate::syncing::disk::data_name());
    lemma_name_below(dir, daemon_sock());
    let d: int = if old.has_data {
        1
    } else {
        0
    };
    let m: int = if old.shm_name is Some && old.shm_name->0@.len() > 0 && old.shm_opens {
        1
    } else {
        0
    };
    if old.has_data {
        assert(steps[0] == CleanStepModel::RemoveTree(data_dir_of(root)));
    }
    if m == 1 {
        assert(steps[d] == CleanStepModel::UnlinkShm(old.shm_name->0@));
    }
    if old.has_socket {
        assert(steps[d + m] == CleanStepModel::RemoveFile(child_path(dir, daemon_sock())));
    }
}

/// What a sandbox is made of, new or cleaned: the directory for contents, the first state
/// of the daemon with the shared memory asked for, and an empty access log; a new one gets
/// the configuration that every sandbox starts with and the names to leave out, and a
/// cleaned one keeps its own.
pub proof fn law_clean_makes(root: PathModel, old: Option<OldSandbox>, shm_name: Seq<char>)
    requires
        root.0,
    ensures
        ({
            let steps = clean_steps(root, old, shm_name);
            let dir = root.1.push(seq![46u8, 115, 97, 110, 100, 98, 111, 120]);
            let data = dir.push(seq![100u8, 97, 116, 97]);
            &&& has_step(
                steps,
                CleanStepModel::MakeDirs(
                    (true, data.push(seq![111u8, 98, 106, 101, 99, 116, 115])),
                ),
            )
            &&& has_step(steps, CleanStepModel::InitStore { root, shm_name })
            &&& has_step(
                steps,
                CleanStepModel::WriteFile {
                    path: (
                        true,
                        data.push(seq![97u8, 99, 99, 101, 115, 115, 46, 108, 111, 103]),
                    ),
                    content: FileContent::Nothing,
                },
            )
            &&& has_step(
                steps,
                CleanStepModel::WriteFile {
                    path: (
                        true,
                        dir.push(seq![99u8, 111, 110, 102, 105, 103, 46, 116, 111, 109, 108]),
                    ),
                    content: FileContent::DefaultConfig,
                },
            ) <==> old is None
            &&& has_step(
                steps,
                CleanStepModel::WriteFile {
                    path: (
                        true,
                        dir.push(seq![46u8, 103, 105, 116, 105, 103, 110, 111, 114, 101]),
                    ),
                    content: FileContent::IgnoreList,
                },
            ) <==> old is None
            &&& text_of(FileContent::Nothing).len() == 0
        }),
{
    let steps = clean_steps(root, old, shm_name);
    let f = fresh_steps(root, shm_name);
    let a = dot_sandbox();
    let b = crate::syncing::disk::data_name();
    let dir: PathModel = (true, root.1.push(a));
    let data: PathModel = (true, root.1.push(a).push(b));
    lemma_name_below(root, a);
    lemma_name_below(dir, b);
    lemma_name_below(data, objects_name());
    lemma_name_below(data, access_log());
    lemma_name_below(dir, config_toml());
    lemma_name_below(dir, dot_gitignore());
    reveal_strlit("");
    let k: int = match old {
        None => 0,
        Some(o) => removal_steps(root, o).len() as int,
    };
    assert(steps[k] == f[0]);
    assert(steps[k + 1] == f[1]);
    assert(steps[k + 2] == f[2]);
    if old is None {
        assert(steps[3] is WriteFile && steps[4] is WriteFile);
    }
}

/// Every object has a directory to lie in: a new sandbox makes the directory of every
/// object that there can be.
pub proof fn law_every_object_has_a_directory(root: PathModel, id: u64)
    requires
        root.0,
    ensures
        init_dirs(root).contains(
            crate::path::parent_of(
                crate::syncing::object::object_path_of(
                    child_path(data_dir_of(root), objects_name()),
                    id,
                ),
            )->0,
        ),
        fresh_meta(Seq::empty()).next_id == 1,
{
    let objects = child_path(data_dir_of(root), objects_name());
    crate::syncing::object::law_object_paths(objects, id, id);
    let place = crate::syncing::object::object_path_of(objects, id);
    let low = id & 0xff;
    assert(id & 0xff < 256) by (bit_vector);
    let shard = crate::text::hex_text(low, 2);
    assert(place.1.drop_last() =~= objects.1.push(shard));
    crate::syncing::object::lemma_hex_is_name(low, 2);
    assert(child_path(objects, shard) == (objects.0, objects.1.push(shard))) by {
        assert(shard.len() == 2);
        assert(seq![shard][0].len() != 1);
        assert(crate::path::dot().len() == 1);
        assert(child_path(objects, shard).1 =~= objects.1.push(shard));
    }
    assert(init_dirs(root)[2 + low as int] == child_path(objects, shard));
}

} // verus!
