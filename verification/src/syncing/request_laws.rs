//! What each request does to the daemon's entries, and how it is answered.

use crate::fuse::ops::is_ack;
use crate::path::{empty_path, is_under, FsPath, PathModel};
use crate::syncing::closure::{known, tree_subtree};
use crate::syncing::disk::{is_loaded, MetaModel};
use crate::syncing::object::law_object_paths;
use crate::syncing::proto::{
    listing_views, opt_entry, EntryModel, FileMetadata, FuseEntry, Request, Response,
};
use crate::syncing::server::{
    dispatched, entries_moved, entry_at, is_probe_reply, log_taken_in, moved_path,
    object_taken_in, ready_object, started, ServerModel, Step,
};
use crate::syncing::server_laws::{
    law_listing, law_rename_tree_moves, law_restart, law_whiteouts, lemma_moved, movable, state_ok,
};
use crate::syncing::closure_laws::{law_subtree, regular};
use crate::tables::EntryTableModel;
use crate::text::hex_text;
use vstd::prelude::*;

verus! {

/// Whether all paths but some have the entries that they had.
pub open spec fn others_kept(pre: ServerModel, post: ServerModel, a: PathModel, b: PathModel) -> bool {
    forall|q: PathModel|
        q != a && q != b ==> #[trigger] entry_at(post.entries, q) == entry_at(pre.entries, q)
}

/// Whether all paths have the entries that they had.
pub open spec fn entries_kept(pre: ServerModel, post: ServerModel) -> bool {
    forall|q: PathModel| #[trigger] entry_at(post.entries, q) == entry_at(pre.entries, q)
}

/// Renaming a file moves its entry, whatever stood under the new name before: the new
/// name then has the entry that the old one had, the old name has none, and every other
/// path has the entry it had.  A file without an entry is not renamed, and nothing
/// changes.
pub proof fn law_rename_file(pre: ServerModel, request: Request, post: ServerModel, step: Step)
    requires
        dispatched(pre, request, post, step),
    ensures
        request matches Request::RenameFile { from, to } ==> {
            &&& entry_at(pre.entries, from@) is Some && from@ != to@ ==> {
                &&& entry_at(post.entries, to@) == entry_at(pre.entries, from@)
                &&& entry_at(post.entries, from@) is None
                &&& others_kept(pre, post, from@, to@)
                &&& step == Step::Reply(Response::RenameFile)
            }
            &&& from@ == to@ ==> entries_kept(pre, post)
            &&& entry_at(pre.entries, from@) is None ==> post == pre && (step matches Step::Reply(
                Response::Error(_),
            ))
        },
{
}

/// Storing puts under a path what is asked for, whatever stood there before, and changes
/// no other entry: a directory, a link with its target, a whiteout, or a file with the
/// contents of a number.
pub proof fn law_storing(pre: ServerModel, request: Request, post: ServerModel, step: Step)
    requires
        dispatched(pre, request, post, step),
    ensures
        request matches Request::PutDir { path, meta } ==> {
            &&& entry_at(post.entries, path@) matches Some(e) && e.entry_type is Dir && e.metadata
                == meta && e.object_id is None && e.symlink_target is None
            &&& others_kept(pre, post, path@, path@)
            &&& step == Step::Reply(Response::PutDir)
        },
        request matches Request::PutSymlink { path, target, meta } ==> {
            &&& entry_at(post.entries, path@) matches Some(e) && e.entry_type is Symlink && e.metadata
                == meta && e.object_id is None && e.symlink_target == Some(target@)
            &&& others_kept(pre, post, path@, path@)
            &&& step == Step::Reply(Response::PutSymlink)
        },
        request matches Request::PutWhiteout { path } ==> {
            &&& entry_at(post.entries, path@) matches Some(e) && e.entry_type is Whiteout
                && e.object_id is None && e.symlink_target is None
            &&& others_kept(pre, post, path@, path@)
            &&& step == Step::Reply(Response::PutWhiteout)
        },
        request matches Request::UpsertFileEntry { path, object_id, meta } ==> {
            &&& entry_at(post.entries, path@) matches Some(e) && e.entry_type is File && e.metadata
                == meta && e.object_id == Some(object_id) && e.symlink_target is None
            &&& others_kept(pre, post, path@, path@)
            &&& step == Step::Reply(Response::UpsertFileEntry)
        },
{
}

/// Storing metadata changes the metadata of an entry and nothing else of it, and no other
/// entry; where there is no entry, nothing changes and the request is refused.
pub proof fn law_storing_metadata(pre: ServerModel, request: Request, post: ServerModel, step: Step)
    requires
        dispatched(pre, request, post, step),
    ensures
        request matches Request::PutFileMeta { path, meta } ==> {
            &&& entry_at(pre.entries, path@) matches Some(e) ==> {
                &&& entry_at(post.entries, path@) matches Some(f) && f.metadata == meta && f.entry_type
                    == e.entry_type && f.object_id == e.object_id && f.symlink_target == e.symlink_target
                &&& others_kept(pre, post, path@, path@)
                &&& step == Step::Reply(Response::PutFileMeta)
            }
            &&& entry_at(pre.entries, path@) is None ==> post == pre && (step matches Step::Reply(
                Response::Error(_),
            ))
        },
{
}

/// Deleting takes the entry of one path away and no other; removing a whiteout takes a
/// whiteout away and nothing that is none.
pub proof fn law_deleting(pre: ServerModel, request: Request, post: ServerModel, step: Step)
    requires
        dispatched(pre, request, post, step),
    ensures
        request matches Request::DeleteFile { path } ==> {
            &&& entry_at(post.entries, path@) is None
            &&& others_kept(pre, post, path@, path@)
            &&& step == Step::Reply(Response::DeleteFile)
        },
        request matches Request::DeleteWhiteout { path } ==> {
            &&& entry_at(post.entries, path@) == (match entry_at(pre.entries, path@) {
                Some(e) => if e.entry_type is Whiteout {
                    None
                } else {
                    Some(e)
                },
                None => None,
            })
            &&& others_kept(pre, post, path@, path@)
            &&& step == Step::Reply(Response::DeleteWhiteout)
        },
{
}

/// Reading changes nothing, and answers with what is stored: the entry of a path, its
/// metadata, or that there is none.
pub proof fn law_reading(pre: ServerModel, request: Request, post: ServerModel, step: Step)
    requires
        dispatched(pre, request, post, step),
    ensures
        request is GetEntry || request is GetFileMeta || request is GetObjectPath
            || request is ReadDirAll || request is ListWhiteoutUnder || request is Flush ==> post == pre,
        request matches Request::GetEntry { path } ==> (step matches Step::Reply(Response::GetEntry(e))
            && match e {
            Some(entry) => entry_at(pre.entries, path@) matches Some(stored) && entry.entry_type
                == stored.entry_type && entry.metadata == stored.metadata && entry.object_id
                == stored.object_id && opt_entry(e) == Some(stored),
            None => entry_at(pre.entries, path@) is None,
        }),
        request matches Request::GetFileMeta { path } ==> (step matches Step::Reply(
            Response::GetFileMeta(m),
        ) && match entry_at(pre.entries, path@) {
            Some(stored) => m == Some(stored.metadata),
            None => m is None,
        }),
{
}

/// Listing a directory answers with every entry whose parent is the directory, each once
/// and with what is stored, and with nothing else; listing whiteouts answers with every
/// whiteout below the path and with nothing else.
pub proof fn law_listing_answers(
    pre: ServerModel,
    request: Request,
    post: ServerModel,
    step: Step,
    p: PathModel,
    e: EntryModel,
)
    requires
        dispatched(pre, request, post, step),
        state_ok(pre),
    ensures
        request matches Request::ReadDirAll { path } ==> path@ != empty_path() ==> (step matches Step::Reply(
            Response::DirEntries(v),
        ) && listing_views(v@).no_duplicates() && (listing_views(v@).contains((p, e)) <==> entry_at(
            pre.entries,
            p,
        ) == Some(e) && p.0 == path@.0 && p.1.len() > 0 && p.1.drop_last() == path@.1)),
        request matches Request::ListWhiteoutUnder { path } ==> path@ != empty_path() ==> (
        step matches Step::Reply(Response::WhiteoutPaths(v)) && (crate::path::path_views(v@).contains(p)
            <==> is_under(p, path@) && p != path@ && (entry_at(pre.entries, p) matches Some(x)
            && x.entry_type is Whiteout))),
{
    match request {
        Request::ReadDirAll { path } => {
            if path@ != empty_path() {
                law_listing(pre, path@);
            }
        },
        Request::ListWhiteoutUnder { path } => {
            if path@ != empty_path() {
                law_whiteouts(pre, path@);
            }
        },
        _ => {},
    }
}

/// Asking for the contents of a file that has some keeps them and gives their number and
/// place; where it has none a number is taken that no later contents get, nothing is
/// stored yet, and the work to do names the place of that number and the file it is for:
/// an empty object, or a copy of the host file, as was asked for.
pub proof fn law_asking_for_contents(pre: ServerModel, request: Request, post: ServerModel, step: Step)
    requires
        dispatched(pre, request, post, step),
    ensures
        request matches Request::EnsureFileObject { path, meta } ==> contents_asked(
            pre,
            path@,
            meta,
            post,
            step,
            false,
        ),
        request matches Request::EnsureFileObjectFromReal { path, meta } ==> contents_asked(
            pre,
            path@,
            meta,
            post,
            step,
            true,
        ),
        request matches Request::GetObjectPath { id } ==> (step matches Step::ProbeObject {
            id: oid,
            object,
        } && oid == id && lies_at(pre, id, object@)),
{
    law_object_paths(pre.objects_dir, pre.next_id, pre.next_id);
    match request {
        Request::EnsureFileObject { path, meta } => {
            if let Some(id) = ready_object(pre.entries, path@) {
                law_object_paths(pre.objects_dir, id, id);
            }
        },
        Request::EnsureFileObjectFromReal { path, meta } => {
            if let Some(id) = ready_object(pre.entries, path@) {
                law_object_paths(pre.objects_dir, id, id);
            }
        },
        Request::GetObjectPath { id } => {
            law_object_paths(pre.objects_dir, id, id);
        },
        _ => {},
    }
}

/// Whether a path is the place of contents by their number: two levels below the
/// directory of objects, by the number in hexadecimal.
pub open spec fn lies_at(s: ServerModel, id: u64, path: PathModel) -> bool {
    path == (s.objects_dir.0, s.objects_dir.1 + seq![hex_text(id & 0xff, 2), hex_text(id, 16)])
}

/// What asking for the contents of a file comes to.
pub open spec fn contents_asked(
    pre: ServerModel,
    path: PathModel,
    meta: FileMetadata,
    post: ServerModel,
    step: Step,
    from_host: bool,
) -> bool {
    match entry_at(pre.entries, path) {
        Some(e) if e.entry_type is File && e.object_id is Some && e.symlink_target is None => {
            &&& step matches Step::Reply(Response::EnsureFileObject { id, path: place }) && Some(id)
                == e.object_id && lies_at(pre, id, place@)
            &&& entry_at(post.entries, path) matches Some(f) && f.entry_type is File && f.object_id
                == e.object_id && f.metadata == meta && f.symlink_target is None
            &&& others_kept(pre, post, path, path)
            &&& post.next_id == pre.next_id
        },
        _ => {
            &&& entries_kept(pre, post)
            &&& pre.next_id < u64::MAX ==> post.next_id == pre.next_id + 1
            &&& if from_host {
                step matches Step::CopyObject { id, object, path: p, meta: m } && id == pre.next_id
                    && lies_at(pre, id, object@) && p@ == path && m == meta
            } else {
                step matches Step::CreateObject { id, object, path: p, meta: m } && id == pre.next_id
                    && lies_at(pre, id, object@) && p@ == path && m == meta
            }
        },
    }
}

/// Once the contents of a file were written, the file has them; where writing failed,
/// nothing is stored and the failure is answered.  Contents that are there are answered
/// with their place, and missing ones as not found.
pub proof fn law_contents_are_taken_in(
    pre: ServerModel,
    path: PathModel,
    id: u64,
    meta: FileMetadata,
    outcome: Result<(), String>,
    post: ServerModel,
    r: Response,
    on_disk: bool,
    answer: Response,
)
    requires
        object_taken_in(pre, path, id, meta, outcome, post, r),
        is_probe_reply(pre, id, on_disk, answer),
    ensures
        outcome is Ok ==> {
            &&& entry_at(post.entries, path) matches Some(e) && e.entry_type is File && e.object_id
                == Some(id) && e.metadata == meta && e.symlink_target is None
            &&& others_kept(pre, post, path, path)
            &&& r matches Response::EnsureFileObject { id: rid, path: place } && rid == id && lies_at(
                pre,
                id,
                place@,
            )
        },
        outcome matches Err(text) ==> post == pre && (r matches Response::Error(t) && t@ == text@),
        on_disk ==> (answer matches Response::GetObjectPath { path: place } && lies_at(pre, id, place@)),
        !on_disk ==> answer is NotFound,
{
    law_object_paths(pre.objects_dir, id, id);
}

/// Renaming a tree moves the entry of the tree and every entry below it to the same place
/// below the new name, leaves none behind, and keeps the entries elsewhere.
pub proof fn law_rename_tree(
    pre: ServerModel,
    request: Request,
    post: ServerModel,
    step: Step,
    rest: Seq<Seq<u8>>,
    q: PathModel,
)
    requires
        dispatched(pre, request, post, step),
        state_ok(pre),
        request matches Request::RenameTree { from, to } && known(pre.tree, from@) && movable(
            pre.tree,
            from@,
            to@,
        ) && !is_under(to@, from@) && !is_under(from@, to@),
    ensures
        request matches Request::RenameTree { from, to } ==> {
            let old_place: PathModel = (from@.0, from@.1 + rest);
            let new_place: PathModel = (to@.0, to@.1 + rest);
            &&& entry_at(post.entries, old_place) is None
            &&& entry_at(pre.entries, old_place) is Some ==> entry_at(post.entries, new_place) == entry_at(
                pre.entries,
                old_place,
            )
            &&& !is_under(q, from@) && !is_under(q, to@) ==> entry_at(post.entries, q) == entry_at(
                pre.entries,
                q,
            )
            &&& step == Step::Reply(Response::RenameTree)
        },
{
    match request {
        Request::RenameTree { from, to } => {
            let old_place: PathModel = (from@.0, from@.1 + rest);
            assert(is_under(old_place, from@)) by {
                assert(from@.1 =~= old_place.1.subrange(0, from@.1.len() as int));
            }
            law_rename_tree_moves(pre, from@, to@, old_place);
            law_rename_tree_moves(pre, from@, to@, q);
            if pre.entries.contains_key(old_place) {
                assert(known(pre.tree, old_place));
                law_subtree(pre.tree, from@);
                lemma_moved(old_place, from@, to@);
                assert(old_place.1.skip(from@.1.len() as int) =~= rest);
            }
        },
        _ => {},
    }
}

/// No request changes where the daemon keeps things and what it is called, numbers of
/// contents are only ever counted up, and only logging marks a path as logged.
pub proof fn law_requests_keep_places(pre: ServerModel, request: Request, post: ServerModel, step: Step)
    requires
        dispatched(pre, request, post, step),
    ensures
        post.objects_dir == pre.objects_dir,
        post.sandbox_dir == pre.sandbox_dir,
        post.shm_name == pre.shm_name,
        post.abi_version == pre.abi_version,
        post.logged == pre.logged,
        pre.next_id < u64::MAX ==> pre.next_id <= post.next_id <= pre.next_id + 1,
        step is CreateObject || step is CopyObject <==> post.next_id != pre.next_id,
{
}

/// Whether a path has the contents of a number.
pub open spec fn has_contents(m: EntryTableModel, p: PathModel, id: u64) -> bool {
    entry_at(m, p) matches Some(e) && e.object_id == Some(id)
}

/// Whether every number of contents that is in use lies below the next.
pub open spec fn numbers_below(s: ServerModel) -> bool {
    forall|p: PathModel, id: u64| #[trigger] has_contents(s.entries, p, id) ==> id < s.next_id
}

/// Moved entries are entries that were there.
proof fn lemma_moved_contents(
    m: EntryTableModel,
    paths: Seq<PathModel>,
    from: PathModel,
    to: PathModel,
    q: PathModel,
)
    requires
        entries_moved(m, paths, from, to).contains_key(q),
    ensures
        exists|p: PathModel| #[trigger]
            m.contains_key(p) && m[p] == entries_moved(m, paths, from, to)[q],
    decreases paths.len(),
{
    if paths.len() > 0 {
        let before = entries_moved(m, paths.drop_last(), from, to);
        let last = paths.last();
        if before.contains_key(last) && q == moved_path(last, from, to) {
            lemma_moved_contents(m, paths.drop_last(), from, to, last);
        } else {
            lemma_moved_contents(m, paths.drop_last(), from, to, q);
        }
    }
}

/// New contents never take the place of others: the number that a request hands out is
/// the number of no file, and every request keeps all numbers in use below the next.
pub proof fn law_new_contents_are_new(
    pre: ServerModel,
    request: Request,
    post: ServerModel,
    step: Step,
    p: PathModel,
)
    requires
        dispatched(pre, request, post, step),
        numbers_below(pre),
        pre.next_id < u64::MAX,
        request matches Request::UpsertFileEntry { object_id, .. } ==> object_id < pre.next_id,
    ensures
        numbers_below(post),
        step matches Step::CreateObject { id, .. } ==> !has_contents(pre.entries, p, id) && id
            < post.next_id,
        step matches Step::CopyObject { id, .. } ==> !has_contents(pre.entries, p, id) && id
            < post.next_id,
{
    assert forall|q: PathModel, id: u64| #[trigger] has_contents(post.entries, q, id) implies id
        < post.next_id by {
        match request {
            Request::RenameFile { from, to } => {
                assert(has_contents(pre.entries, q, id) || has_contents(pre.entries, from@, id));
            },
            Request::RenameTree { from, to } => {
                let paths = tree_subtree(pre.tree, from@);
                lemma_moved_contents(pre.entries, paths, from@, to@, q);
                let o = choose|o: PathModel| #[trigger]
                    pre.entries.contains_key(o) && pre.entries[o] == post.entries[q];
                assert(has_contents(pre.entries, o, id));
            },
            Request::UpsertFileEntry { path, object_id, meta } => {
                assert(q == path@ || has_contents(pre.entries, q, id));
            },
            Request::PutDir { path, .. } => {
                assert(q != path@);
                assert(has_contents(pre.entries, q, id));
            },
            Request::PutSymlink { path, .. } => {
                assert(q != path@);
                assert(has_contents(pre.entries, q, id));
            },
            Request::PutWhiteout { path } => {
                assert(q != path@);
                assert(has_contents(pre.entries, q, id));
            },
            _ => {
                assert(has_contents(pre.entries, q, id));
            },
        }
    }
}

/// What the daemon wrote out comes back after a restart: a daemon that starts from what a
/// flush stored has every entry that was there and no other, goes on numbering contents
/// where the old one stopped, finds them where they lay, and has its name; no access
/// counts as logged yet.
pub proof fn law_flushed_state_comes_back(
    pre: ServerModel,
    request: Request,
    post: ServerModel,
    step: Step,
    entries: Seq<(FsPath, FuseEntry)>,
    meta: MetaModel,
    p: PathModel,
)
    requires
        request is Flush,
        dispatched(pre, request, post, step),
        forall|q: PathModel| #[trigger] pre.entries.contains_key(q) ==> regular(q),
        step matches Step::WriteSnapshot { stored, map } ==> is_loaded(
            Some(stored),
            Some(map),
            meta,
            entries,
        ),
    ensures
        ({
            let again = started(pre.sandbox_dir, meta, listing_views(entries));
            &&& entry_at(again.entries, p) == entry_at(pre.entries, p)
            &&& again.next_id == pre.next_id
            &&& again.shm_name == pre.shm_name
            &&& again.abi_version == pre.abi_version
            &&& again.sandbox_dir == pre.sandbox_dir
            &&& again.logged == Set::<PathModel>::empty()
            &&& state_ok(again)
        }),
{
    match step {
        Step::WriteSnapshot { stored, map } => {
            law_restart(pre, listing_views(map.entries@));
        },
        _ => {},
    }
}

/// A name that is a component of its own leads one level down.
pub proof fn lemma_name_below(base: PathModel, name: Seq<u8>)
    requires
        base.1.len() > 0 || base.0,
        name.len() > 0,
        !name.contains(47),
        name != seq![46u8],
    ensures
        crate::path::child_path(base, name) == (base.0, base.1.push(name)),
{
    let p: PathModel = (false, seq![name]);
    assert(crate::path::dot() =~= seq![46u8]);
    assert forall|i: int| 0 <= i < p.1.len() implies crate::path::name_ok(#[trigger] p.1[i], i, p.0) by {
        assert(crate::path::is_component(name, i, false));
    }
    crate::path::law_parse_render(p);
    assert(crate::path::render_path(p) == name);
    assert(crate::path::child_path(base, name).1 =~= base.1.push(name));
}

/// A daemon of a project keeps its contents in the directory `.sandbox/data/objects` of
/// the project, whatever was stored.
pub proof fn law_objects_lie_in_the_project(
    dir: PathModel,
    meta: MetaModel,
    entries: Seq<(PathModel, EntryModel)>,
)
    requires
        dir.0,
    ensures
        ({
            let s = started(dir, meta, entries);
            &&& s.objects_dir.0
            &&& s.objects_dir.1 == dir.1.push(seq![46u8, 115, 97, 110, 100, 98, 111, 120]).push(
                seq![100u8, 97, 116, 97],
            ).push(seq![111u8, 98, 106, 101, 99, 116, 115])
        }),
{
    let a = crate::syncing::disk::dot_sandbox();
    let b = crate::syncing::disk::data_name();
    let c = crate::syncing::disk::objects_name();
    lemma_name_below(dir, a);
    lemma_name_below((dir.0, dir.1.push(a)), b);
    lemma_name_below((dir.0, dir.1.push(a).push(b)), c);
}

/// A sandbox without stored state starts empty, with the first number of contents.
pub proof fn law_nothing_stored_starts_empty(
    dir: PathModel,
    meta: MetaModel,
    entries: Seq<(FsPath, FuseEntry)>,
    p: PathModel,
)
    requires
        is_loaded(None, None, meta, entries),
    ensures
        entry_at(started(dir, meta, listing_views(entries)).entries, p) is None,
        started(dir, meta, listing_views(entries)).next_id == 1,
{
    assert(listing_views(entries) =~= Seq::<(PathModel, EntryModel)>::empty());
}

/// The first access to a path is marked once it was logged, and only that path; where
/// logging failed nothing is marked and the failure is answered.
pub proof fn law_logged_once(
    pre: ServerModel,
    path: PathModel,
    outcome: Result<(), String>,
    post: ServerModel,
    r: Response,
    q: PathModel,
)
    requires
        log_taken_in(pre, path, outcome, post, r),
    ensures
        outcome is Ok ==> post.logged.contains(path) && r is LogAccess,
        q != path ==> (post.logged.contains(q) <==> pre.logged.contains(q)),
        outcome is Err ==> post == pre && r is Error,
        entries_kept(pre, post),
{
}

/// What the daemon carried out counts as done for whoever asked, and what it refused does
/// not: the answer to a request that only asks for something to be done is the one that
/// the other side waits for, unless it is an error, and no other answer is.
pub proof fn law_answers_fit(
    pre: ServerModel,
    request: Request,
    post: ServerModel,
    step: Step,
    text: String,
    r: Response,
)
    requires
        dispatched(pre, request, post, step),
    ensures
        step matches Step::Reply(r) ==> !(r is Error) ==> is_ack(request, r),
        request is UpsertFileEntry || request is PutFileMeta || request is DeleteFile
            || request is RenameFile || request is PutDir || request is PutSymlink
            || request is PutWhiteout || request is DeleteWhiteout || request is RenameTree
            || request is LogAccess || request is Flush ==> !is_ack(request, Response::Error(text)),
        request is UpsertFileEntry ==> (is_ack(request, r) <==> r is UpsertFileEntry),
        request is PutFileMeta ==> (is_ack(request, r) <==> r is PutFileMeta),
        request is DeleteFile ==> (is_ack(request, r) <==> r is DeleteFile),
        request is RenameFile ==> (is_ack(request, r) <==> r is RenameFile),
        request is RenameTree ==> (is_ack(request, r) <==> r is RenameTree),
        request is PutDir ==> (is_ack(request, r) <==> r is PutDir),
        request is PutSymlink ==> (is_ack(request, r) <==> r is PutSymlink),
        request is PutWhiteout ==> (is_ack(request, r) <==> r is PutWhiteout),
        request is DeleteWhiteout ==> (is_ack(request, r) <==> r is DeleteWhiteout),
        request is LogAccess ==> (is_ack(request, r) <==> r is LogAccess),
        request is Flush ==> (is_ack(request, r) <==> r is Flush),
{
}

/// The first access to a path that was not logged yet is written to the log in the data
/// directory, with the operation and the process as they were given.
pub proof fn law_access_is_logged(pre: ServerModel, request: Request, post: ServerModel, step: Step)
    requires
        dispatched(pre, request, post, step),
    ensures
        request matches Request::LogAccess { path, operation, pid } ==> {
            &&& post == pre
            &&& pre.logged.contains(path@) ==> step == Step::Reply(Response::LogAccess)
            &&& !pre.logged.contains(path@) ==> (step matches Step::AppendLog {
                log,
                path: p,
                operation: o,
                pid: n,
            } && p@ == path@ && o@ == operation@ && n == pid && (pre.sandbox_dir.0 ==> log@ == (
                true,
                pre.sandbox_dir.1.push(seq![46u8, 115, 97, 110, 100, 98, 111, 120]).push(
                    seq![100u8, 97, 116, 97],
                ).push(seq![97u8, 99, 99, 101, 115, 115, 46, 108, 111, 103]),
            )))
        },
{
    let dir = pre.sandbox_dir;
    if dir.0 {
        let a = crate::syncing::disk::dot_sandbox();
        let b = crate::syncing::disk::data_name();
        let c = crate::syncing::disk::access_log();
        lemma_name_below(dir, a);
        lemma_name_below((dir.0, dir.1.push(a)), b);
        lemma_name_below((dir.0, dir.1.push(a).push(b)), c);
    }
}

/// Renaming a tree that is not there, or to its own name, changes no entry.
pub proof fn law_rename_tree_to_itself(
    pre: ServerModel,
    request: Request,
    post: ServerModel,
    step: Step,
    q: PathModel,
)
    requires
        dispatched(pre, request, post, step),
        state_ok(pre),
        request matches Request::RenameTree { from, to } && (!known(pre.tree, from@) || (from@ == to@
            && regular(to@))),
    ensures
        entry_at(post.entries, q) == entry_at(pre.entries, q),
{
    match request {
        Request::RenameTree { from, to } => {
            let paths = tree_subtree(pre.tree, from@);
            law_subtree(pre.tree, from@);
            assert forall|i: int| 0 <= i < paths.len() implies known(pre.tree, from@) && known(
                pre.tree,
                #[trigger] paths[i],
            ) && is_under(paths[i], from@) by {
                assert(paths.contains(paths[i]));
            }
            if !known(pre.tree, from@) {
                assert(paths.len() == 0) by {
                    if paths.len() > 0 {
                        assert(known(pre.tree, paths[0]));
                    }
                }
            } else {
                lemma_moved_onto_itself(pre, paths, from@);
            }
        },
        _ => {},
    }
}

proof fn lemma_moved_onto_itself(s: ServerModel, paths: Seq<PathModel>, from: PathModel)
    requires
        state_ok(s),
        regular(from),
        forall|i: int|
            0 <= i < paths.len() ==> known(s.tree, #[trigger] paths[i]) && is_under(paths[i], from),
    ensures
        entries_moved(s.entries, paths, from, from) == s.entries,
    decreases paths.len(),
{
    if paths.len() > 0 {
        let init = paths.drop_last();
        assert forall|i: int| 0 <= i < init.len() implies known(s.tree, #[trigger] init[i]) && is_under(
            init[i],
            from,
        ) by {
            assert(init[i] == paths[i]);
        }
        lemma_moved_onto_itself(s, init, from);
        let p = paths[paths.len() - 1];
        assert(known(s.tree, p) && is_under(p, from));
        lemma_moved(p, from, from);
        assert(from.1 + p.1.skip(from.1.len() as int) =~= p.1);
        assert(moved_path(p, from, from) == p);
        assert(entries_moved(s.entries, paths, from, from) =~= s.entries);
    }
}

/// What was written is what is read: contents that were made for a file, empty or from the
/// host, are the contents that its entry names afterwards, and they are looked for in the
/// place where they were written, whatever stood under the path before and although a
/// whiteout is removed in between.
pub proof fn law_written_contents_are_found(
    s0: ServerModel,
    ensure: Request,
    s1: ServerModel,
    step1: Step,
    path: PathModel,
    id: u64,
    meta: FileMetadata,
    outcome: Result<(), String>,
    s2: ServerModel,
    answer: Response,
    uncover: Request,
    s3: ServerModel,
    step3: Step,
    ask: Request,
    s4: ServerModel,
    step4: Step,
    locate: Request,
    s5: ServerModel,
    step5: Step,
)
    requires
        dispatched(s0, ensure, s1, step1),
        match ensure {
            Request::EnsureFileObject { path: p, meta: m } => p@ == path && m == meta,
            Request::EnsureFileObjectFromReal { path: p, meta: m } => p@ == path && m == meta,
            _ => false,
        },
        step1 is CreateObject || step1 is CopyObject,
        id == s0.next_id,
        outcome is Ok,
        object_taken_in(s1, path, id, meta, outcome, s2, answer),
        uncover matches Request::DeleteWhiteout { path: p } && p@ == path,
        dispatched(s2, uncover, s3, step3),
        ask matches Request::GetEntry { path: p } && p@ == path,
        dispatched(s3, ask, s4, step4),
        locate == (Request::GetObjectPath { id }),
        dispatched(s4, locate, s5, step5),
    ensures
        step4 matches Step::Reply(Response::GetEntry(Some(e))) && e.entry_type is File && e.object_id
            == Some(id) && e.metadata == meta,
        step5 matches Step::ProbeObject { object, .. } && (answer matches Response::EnsureFileObject {
            id: n,
            path: place,
        } && n == id && place@ == object@) && match step1 {
            Step::CreateObject { object: written, .. } => written@ == object@,
            Step::CopyObject { object: written, .. } => written@ == object@,
            _ => false,
        },
        others_kept(s0, s5, path, path),
{
    assert forall|q: PathModel| q != path implies #[trigger] entry_at(s5.entries, q) == entry_at(
        s0.entries,
        q,
    ) by {}
}

} // verus!
