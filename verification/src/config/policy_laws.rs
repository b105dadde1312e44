//! What the policy promises of every path.

use crate::config::config::{level_named, log_data_of, Config, LevelFilter};
use crate::config::globs::{
    any_glob_matches, glob_matches, glob_valid, is_plain, is_plain_char, is_tree, plain_bytes, tree_suffix,
};
use crate::config::policy::{
    all_fit, all_shallow, config_fault, expand_list, fault_of, full_blacklist, meant_by,
    policy_logs, policy_mode, policy_of, text_logs, text_mode, PolicyFault, PolicyModel,
};
use crate::fuse::policy::AccessMode;
use crate::path::{empty_path, parse_path, render_path, PathModel};
use crate::spelling::spelled_below;
use crate::syncing::disk::dot_sandbox;
use vstd::prelude::*;

verus! {

/// Whether a path is a directory with names behind it.
pub open spec fn goes_on(path: PathModel, dir: PathModel, tail: Seq<Seq<u8>>) -> bool {
    path == (dir.0, dir.1 + tail)
}

/// Whether a path is the project's directory or lies below it.
pub open spec fn in_project(p: PolicyModel, path: PathModel) -> bool {
    exists|tail: Seq<Seq<u8>>| #[trigger] goes_on(path, p.root, tail)
}

/// Whether a path is the current directory or lies below it.
pub open spec fn in_current_dir(p: PolicyModel, path: PathModel) -> bool {
    p.cwd matches Some(cwd) && exists|tail: Seq<Seq<u8>>| #[trigger] goes_on(path, cwd, tail)
}

/// A path is a directory with names behind it exactly where it begins with the
/// directory's names.
proof fn lemma_goes_on(path: PathModel, dir: PathModel)
    ensures
        (exists|tail: Seq<Seq<u8>>| #[trigger] goes_on(path, dir, tail)) <==> crate::path::is_under(
            path,
            dir,
        ),
        forall|tail: Seq<Seq<u8>>| #[trigger]
            goes_on(path, dir, tail) ==> tail == path.1.skip(dir.1.len() as int),
{
    let n = dir.1.len() as int;
    assert forall|tail: Seq<Seq<u8>>| #[trigger] goes_on(path, dir, tail) implies tail == path.1.skip(n)
        && crate::path::is_under(path, dir) by {
        assert(tail =~= path.1.skip(n));
        assert(dir.1 =~= path.1.subrange(0, n));
    }
    if crate::path::is_under(path, dir) {
        assert(path.1 =~= dir.1 + path.1.skip(n));
        assert(goes_on(path, dir, path.1.skip(n)));
    }
}

/// How an absolute path is handled, and whether its first access is logged, follows from
/// the text that the patterns see and from where it lies.  Patterns see what follows the
/// project's directory, and the whole path outside it.  The blacklist hides; else the
/// whitelist passes through, and so does what lies in the project's directory or in the
/// current one where these count as whitelisted; all else is copied on write and logged
/// unless logging is turned off for it.
pub proof fn law_mode_of_every_path(p: PolicyModel, path: PathModel, text: Seq<u8>)
    requires
        path.0,
        p.root != empty_path(),
        p.cwd != Some(empty_path()),
        in_project(p, path) ==> exists|tail: Seq<Seq<u8>>| #[trigger]
            goes_on(path, p.root, tail) && text == render_path((false, tail)),
        !in_project(p, path) ==> text == render_path(path),
    ensures
        ({
            let black = any_glob_matches(p.blacklist, text);
            let white = any_glob_matches(p.whitelist, text) || (p.root_is_whitelisted && in_project(p, path)) || (
            p.cwd_is_whitelisted && in_current_dir(p, path));
            &&& policy_mode(p, path) is FuseOnly <==> black
            &&& policy_mode(p, path) is Passthrough <==> !black && white
            &&& policy_mode(p, path) is CopyOnWrite <==> !black && !white
            &&& policy_logs(p, path) <==> !black && !white && !any_glob_matches(p.disable_log, text)
        }),
{
    lemma_goes_on(path, p.root);
    if p.cwd is Some {
        lemma_goes_on(path, p.cwd->0);
    }
}

/// An absolute path that no list matches and that lies neither in the project's
/// directory nor in the current one is copied on write, and its first access is logged
/// where logging is not turned off for it.
pub proof fn law_foreign_path_is_copied(p: PolicyModel, path: PathModel)
    requires
        path.0,
        p.root != empty_path(),
        p.cwd != Some(empty_path()),
        !in_project(p, path),
        !in_current_dir(p, path),
        !any_glob_matches(p.blacklist, render_path(path)),
        !any_glob_matches(p.whitelist, render_path(path)),
    ensures
        policy_mode(p, path) == AccessMode::CopyOnWrite,
        policy_logs(p, path) <==> !any_glob_matches(p.disable_log, render_path(path)),
{
    law_mode_of_every_path(p, path, render_path(path));
}

/// A configuration without entries: the daemon's own directory is hidden, the rest of
/// the project's directory and the current directory pass through, and every other
/// absolute path is copied on write and logged.
pub proof fn law_empty_configuration(
    config: Config,
    root: PathModel,
    cwd: Option<PathModel>,
    home: Option<Seq<char>>,
    path: PathModel,
    tail: Seq<Seq<u8>>,
)
    requires
        config.whitelist@.len() == 0,
        config.blacklist@.len() == 0,
        config.disable_log@.len() == 0,
        root.0,
        cwd matches Some(c) ==> c.0,
        path.0,
    ensures
        ({
            let p = policy_of(config, root, cwd, home);
            let own = exists|rest: Seq<Seq<u8>>| #[trigger]
                goes_on(path, (true, root.1.push(dot_sandbox())), rest);
            let inside = in_project(p, path) || in_current_dir(p, path);
            &&& !inside ==> policy_mode(p, path) is CopyOnWrite && policy_logs(p, path)
            &&& own ==> policy_mode(p, path) is FuseOnly && !policy_logs(p, path)
            &&& inside && !in_project(p, path) ==> policy_mode(p, path) is Passthrough && !policy_logs(
                p,
                path,
            )
            &&& goes_on(path, root, tail) && !own && crate::path::path_ok(path) ==> policy_mode(p, path) is Passthrough && !policy_logs(p, path)
        }),
{
    let p = policy_of(config, root, cwd, home);
    let black = expand_list(config.blacklist@, home);
    let white = expand_list(config.whitelist@, home);
    assert(black =~= Seq::<Seq<char>>::empty());
    assert(white =~= Seq::<Seq<char>>::empty());
    assert(!any_glob_matches(white, dot_sandbox()));
    let above: PathModel = (true, root.1.push(dot_sandbox()));
    lemma_goes_on(path, above);
    lemma_goes_on(path, root);
    let text = if in_project(p, path) {
        render_path((false, path.1.skip(root.1.len() as int)))
    } else {
        render_path(path)
    };
    if in_project(p, path) {
        assert(goes_on(path, root, path.1.skip(root.1.len() as int)));
    }
    law_mode_of_every_path(p, path, text);
    assert(p.root_is_whitelisted);
    assert(cwd is Some ==> p.cwd_is_whitelisted);
    if exists|rest: Seq<Seq<u8>>| #[trigger] goes_on(path, above, rest) {
        crate::config::policy::law_own_directory_blacklisted(config, root, cwd, home, path);
        assert(root.1 =~= above.1.subrange(0, root.1.len() as int));
        assert(root.1 =~= path.1.subrange(0, root.1.len() as int));
    }
    crate::config::globs::lemma_own_patterns_simple();
    reveal_strlit(".sandbox");
    reveal_strlit(".sandbox/**");
    assert(p.blacklist =~= seq![".sandbox"@, ".sandbox/**"@]);
    assert(".sandbox"@.len() == 8);
    assert(!is_plain(".sandbox/**"@)) by {
        assert(!is_plain_char(".sandbox/**"@[10]));
    }
    assert(plain_bytes(".sandbox"@) =~= dot_sandbox());
    assert(plain_bytes(".sandbox/**"@.take(9)) =~= dot_sandbox().push(47));
    if any_glob_matches(p.blacklist, text) {
        let i = choose|i: int| 0 <= i < p.blacklist.len() && glob_matches(#[trigger] p.blacklist[i], text);
        assert(text == dot_sandbox() || dot_sandbox().push(47).is_prefix_of(text));
        if !in_project(p, path) {
            assert(text[0] == 47);
            assert(dot_sandbox()[0] == 46);
            assert(dot_sandbox().push(47)[0] == 46);
        } else if goes_on(path, root, tail) && crate::path::path_ok(path) {
            if tail.len() == 0 {
                assert(text.len() == 0);
            }
            lemma_first_name(tail, dot_sandbox(), path, root);
            assert(path.1[root.1.len() as int] == dot_sandbox());
            assert(above.1 =~= path.1.subrange(0, above.1.len() as int));
            assert(goes_on(path, above, path.1.skip(above.1.len() as int))) by {
                assert(path.1 =~= above.1 + path.1.skip(above.1.len() as int));
            }
        }
    }
}

/// A spelling that is a name, or begins with it and a slash, begins with that name.
proof fn lemma_first_name(tail: Seq<Seq<u8>>, name: Seq<u8>, path: PathModel, root: PathModel)
    requires
        tail.len() > 0,
        goes_on(path, root, tail),
        crate::path::path_ok(path),
        !name.contains(47),
        render_path((false, tail)) == name || name.push(47).is_prefix_of(render_path((false, tail))),
    ensures
        tail[0] == name,
{
    let text = crate::path::join_names(tail);
    let first = tail[0];
    assert(first == path.1[root.1.len() as int]);
    assert(!first.contains(47)) by {
        assert(crate::path::name_ok(path.1[root.1.len() as int], root.1.len() as int, path.0));
    }
    lemma_join_begins(tail);
    let n = name.len() as int;
    let f = first.len() as int;
    let head = name.push(47);
    if f < n {
        if tail.len() > 1 {
            assert(first.push(47)[f] == 47);
            assert(text[f] == 47);
        } else {
            assert(text == first);
        }
        if text == name {
            assert(name[f] == 47);
        } else {
            assert(text.subrange(0, head.len() as int)[f] == head[f]);
            assert(head[f] == name[f]);
            assert(name[f] == 47);
        }
        assert(name.contains(47));
    } else if f > n {
        assert(text.subrange(0, f)[n] == first[n]);
        if text == name {
            assert(text.len() >= f);
        } else {
            assert(text.subrange(0, head.len() as int)[n] == head[n]);
            assert(first[n] == 47);
            assert(first.contains(47));
        }
    } else {
        assert forall|i: int| 0 <= i < n implies first[i] == name[i] by {
            assert(text.subrange(0, f)[i] == first[i]);
            if text != name {
                assert(text.subrange(0, head.len() as int)[i] == head[i]);
            }
        }
        assert(first =~= name);
    }
}

/// Names joined begin with the first of them, and a slash stands behind it where there
/// are more.
proof fn lemma_join_begins(names: Seq<Seq<u8>>)
    requires
        names.len() > 0,
    ensures
        names[0].is_prefix_of(crate::path::join_names(names)),
        names.len() > 1 ==> names[0].push(47).is_prefix_of(crate::path::join_names(names)),
        names.len() == 1 ==> crate::path::join_names(names) == names[0],
    decreases names.len(),
{
    let text = crate::path::join_names(names);
    if names.len() == 1 {
        assert(names[0] =~= text.subrange(0, names[0].len() as int));
    } else {
        let before = names.drop_last();
        let part = crate::path::join_names(before);
        lemma_join_begins(before);
        let first = names[0];
        assert(before[0] == first);
        assert(text == part.push(47) + names.last());
        assert(first.push(47) =~= text.subrange(0, first.len() as int + 1)) by {
            if before.len() == 1 {
                assert(part == first);
            } else {
                assert(first.push(47) =~= part.subrange(0, first.len() as int + 1));
            }
        }
        assert(first =~= text.subrange(0, first.len() as int)) by {
            assert forall|i: int| 0 <= i < first.len() implies first[i] == text[i] by {
                assert(text.subrange(0, first.len() as int + 1)[i] == first.push(47)[i]);
            }
        }
    }
}

/// Whether some entry of a list stands for a pattern.
pub open spec fn some_entry_means(list: Seq<String>, home: Option<Seq<char>>, q: Seq<char>) -> bool {
    exists|i: int| 0 <= i < list.len() && meant_by(#[trigger] list[i]@, home).contains(q)
}

/// The expanded list holds what the entries stand for, and nothing else.
proof fn lemma_expanded_list(list: Seq<String>, home: Option<Seq<char>>, q: Seq<char>)
    ensures
        expand_list(list, home).contains(q) <==> some_entry_means(list, home, q),
    decreases list.len(),
{
    let all = expand_list(list, home);
    if list.len() > 0 {
        let init = list.drop_last();
        let before = expand_list(init, home);
        let last = meant_by(list.last()@, home);
        lemma_expanded_list(init, home, q);
        assert(all == before + last);
        if all.contains(q) {
            let k = choose|k: int| 0 <= k < all.len() && all[k] == q;
            if k < before.len() {
                assert(before[k] == q);
                let i = choose|i: int| 0 <= i < init.len() && meant_by(#[trigger] init[i]@, home).contains(q);
                assert(meant_by(list[i]@, home).contains(q));
            } else {
                assert(last[k - before.len()] == q);
                assert(meant_by(list[list.len() - 1]@, home).contains(q));
            }
        }
        if some_entry_means(list, home, q) {
            let i = choose|i: int| 0 <= i < list.len() && meant_by(#[trigger] list[i]@, home).contains(q);
            if i < init.len() {
                assert(meant_by(init[i]@, home).contains(q));
                let k = choose|k: int| 0 <= k < before.len() && before[k] == q;
                assert(all[k] == q);
            } else {
                let k = choose|k: int| 0 <= k < last.len() && last[k] == q;
                assert(all[before.len() + k] == q);
            }
        }
    } else {
        assert(all =~= Seq::<Seq<char>>::empty());
    }
}

/// Every entry of a list counts, and nothing else does: a pattern is in a list of the
/// policy exactly where some entry stands for it, and the blacklist also holds the
/// daemon's own directory unless the user whitelisted that.  The project's directory
/// counts as whitelisted unless the user's blacklist matches it, and so does the current
/// directory.
pub proof fn law_lists_are_the_entries(
    config: Config,
    root: PathModel,
    cwd: Option<PathModel>,
    home: Option<Seq<char>>,
    q: Seq<char>,
    user_black: Seq<Seq<char>>,
    user_white: Seq<Seq<char>>,
)
    requires
        forall|x: Seq<char>| #[trigger]
            user_black.contains(x) <==> some_entry_means(config.blacklist@, home, x),
        forall|x: Seq<char>| #[trigger]
            user_white.contains(x) <==> some_entry_means(config.whitelist@, home, x),
    ensures
        ({
            let p = policy_of(config, root, cwd, home);
            let own = !any_glob_matches(user_white, dot_sandbox());
            &&& p.root == root
            &&& p.cwd == cwd
            &&& p.whitelist.contains(q) <==> some_entry_means(config.whitelist@, home, q)
            &&& p.disable_log.contains(q) <==> some_entry_means(config.disable_log@, home, q)
            &&& p.blacklist.contains(q) <==> some_entry_means(config.blacklist@, home, q) || (own && (q
                == ".sandbox"@ || q == ".sandbox/**"@))
            &&& p.root_is_whitelisted <==> !any_glob_matches(user_black, seq![46u8]) && !any_glob_matches(
                user_black,
                seq![],
            )
            &&& p.cwd_is_whitelisted <==> (cwd matches Some(c) && !any_glob_matches(
                user_black,
                render_path(c),
            ) && !any_glob_matches(user_black, crate::text::utf8_lossy(render_path(c))))
        }),
{
    let p = policy_of(config, root, cwd, home);
    let black = expand_list(config.blacklist@, home);
    let white = expand_list(config.whitelist@, home);
    lemma_expanded_list(config.blacklist@, home, q);
    lemma_expanded_list(config.whitelist@, home, q);
    lemma_expanded_list(config.disable_log@, home, q);
    assert forall|x: Seq<char>| #[trigger] user_black.contains(x) <==> black.contains(x) by {
        lemma_expanded_list(config.blacklist@, home, x);
    }
    assert forall|x: Seq<char>| #[trigger] user_white.contains(x) <==> white.contains(x) by {
        lemma_expanded_list(config.whitelist@, home, x);
    }
    lemma_same_patterns(user_white, white, dot_sandbox());
    lemma_same_patterns(user_black, black, seq![46u8]);
    assert(seq![46u8] =~= crate::path::dot());
    lemma_same_patterns(user_black, black, seq![]);
    assert(Seq::<u8>::empty() =~= seq![]);
    if cwd is Some {
        lemma_same_patterns(user_black, black, render_path(cwd->0));
        lemma_same_patterns(user_black, black, crate::text::utf8_lossy(render_path(cwd->0)));
    }
    if !any_glob_matches(white, dot_sandbox()) {
        let own = seq![".sandbox"@, ".sandbox/**"@];
        assert(p.blacklist =~= black + own);
        if black.contains(q) {
            let k = choose|k: int| 0 <= k < black.len() && black[k] == q;
            assert(p.blacklist[k] == q);
        }
        assert(p.blacklist[black.len() as int] == ".sandbox"@);
        assert(p.blacklist[black.len() as int + 1] == ".sandbox/**"@);
        if p.blacklist.contains(q) {
            let k = choose|k: int| 0 <= k < p.blacklist.len() && p.blacklist[k] == q;
            if k < black.len() {
                assert(black[k] == q);
            }
        }
    }
}

/// Lists of the same patterns match the same.
proof fn lemma_same_patterns(a: Seq<Seq<char>>, b: Seq<Seq<char>>, text: Seq<u8>)
    requires
        forall|x: Seq<char>| #[trigger] a.contains(x) <==> b.contains(x),
    ensures
        any_glob_matches(a, text) <==> any_glob_matches(b, text),
{
    if any_glob_matches(a, text) {
        let i = choose|i: int| 0 <= i < a.len() && glob_matches(#[trigger] a[i], text);
        assert(a.contains(a[i]));
        let j = choose|j: int| 0 <= j < b.len() && b[j] == a[i];
        assert(glob_matches(b[j], text));
    }
    if any_glob_matches(b, text) {
        let i = choose|i: int| 0 <= i < b.len() && glob_matches(#[trigger] b[i], text);
        assert(a.contains(b[i]));
        let j = choose|j: int| 0 <= j < a.len() && a[j] == b[i];
        assert(glob_matches(a[j], text));
    }
}

/// What an entry stands for: a name behind `~/` is taken below the home directory where
/// that is known; an entry that ends in a slash stands for the directory and for
/// everything below it; any other entry stands for itself.
pub proof fn law_entries_mean(pat: Seq<char>, rest: Seq<char>, home: Seq<char>, d: Seq<char>)
    ensures
        pat.len() > 0 && pat.last() != '/' ==> meant_by(pat, None) == seq![pat],
        d.len() > 0 && d.last() != '\\' ==> meant_by(d.push('/'), None) == seq![d, d + seq!['/', '*', '*']],
        !(pat.len() > 1 && pat[0] == '~' && pat[1] == '/') ==> meant_by(pat, Some(home)) == meant_by(
            pat,
            None,
        ),
        home.len() > 0 && home.last() != '/' && rest.len() > 0 && rest[0] != '/' ==> meant_by(
            seq!['~', '/'] + rest,
            Some(home),
        ) == meant_by(home + seq!['/'] + rest, None),
        rest.len() > 0 && rest[0] != '/' ==> meant_by(seq!['~', '/'] + rest, Some(home.push('/')))
            == meant_by(home.push('/') + rest, None),
{
    let e = d.push('/');
    if d.len() > 0 && d.last() != '\\' {
        assert(e.drop_last() =~= d);
        assert(e[e.len() - 2] == d.last());
        assert(tree_suffix() =~= seq!['/', '*', '*']);
    }
    let h = seq!['~', '/'] + rest;
    assert(h.skip(2) =~= rest);
    assert(home.push('/') + rest =~= home + seq!['/'] + rest);
}

/// A plain path matches itself only, and `/**` behind one matches what begins with the
/// path and a slash.
pub proof fn law_simple_patterns(d: Seq<char>, text: Seq<u8>)
    requires
        d.len() > 0,
        forall|i: int| 0 <= i < d.len() ==> is_plain_char(#[trigger] d[i]),
    ensures
        glob_matches(d, text) <==> text == Seq::new(d.len(), |i: int| d[i] as u8),
        glob_matches(d + seq!['/', '*', '*'], text) <==> Seq::new(d.len(), |i: int| d[i] as u8).push(
            47,
        ).is_prefix_of(text),
{
    let t = d + seq!['/', '*', '*'];
    let n = t.len() as int;
    assert(is_plain(d));
    assert(plain_bytes(d) =~= Seq::new(d.len(), |i: int| d[i] as u8));
    assert(t.skip(n - 3) =~= tree_suffix());
    assert(t.take(n - 3) =~= d);
    assert(is_tree(t));
    assert(!is_plain(t)) by {
        assert(!is_plain_char(t[n - 1]));
    }
    assert(plain_bytes(t.take(n - 2)) =~= plain_bytes(d).push(47)) by {
        assert(t.take(n - 2) =~= d.push('/'));
    }
}

/// The level of the log is the one that the text names; any other text, and none, is
/// taken as the usual level.
pub proof fn law_log_levels(text: Seq<char>)
    ensures
        level_named(None) == LevelFilter::Info,
        level_named(Some(text)) == LevelFilter::Error <==> text == "error"@,
        level_named(Some(text)) == LevelFilter::Warn <==> text == "warn"@,
        level_named(Some(text)) == LevelFilter::Debug <==> text == "debug"@,
        level_named(Some(text)) == LevelFilter::Trace <==> text == "trace"@,
        level_named(Some(text)) != LevelFilter::Off,
{
    reveal_strlit("error");
    reveal_strlit("warn");
    reveal_strlit("debug");
    reveal_strlit("trace");
    assert("error"@[0] == 'e' && "warn"@[0] == 'w' && "debug"@[0] == 'd' && "trace"@[0] == 't');
}

/// A path that starts at the root is handled by its spelling as it is by what it is:
/// patterns see what follows the project's directory as it is spelled, and the whole
/// spelling outside it; where the path lies decides the rest.
pub proof fn law_mode_of_every_spelling(p: PolicyModel, text: Seq<u8>)
    requires
        text.len() > 0,
        text[0] == 47,
        p.root != empty_path(),
        p.cwd != Some(empty_path()),
    ensures
        ({
            let path = parse_path(text);
            let seen = spelled_below(text, p.root);
            let black = any_glob_matches(p.blacklist, seen);
            let white = any_glob_matches(p.whitelist, seen) || (p.root_is_whitelisted && in_project(p, path)) || (
            p.cwd_is_whitelisted && in_current_dir(p, path));
            &&& in_project(p, path) ==> exists|tail: Seq<Seq<u8>>| #[trigger]
                goes_on(path, p.root, tail) && parse_path(seen) == (false, tail)
            &&& !in_project(p, path) ==> seen == text
            &&& text_mode(p, text) is FuseOnly <==> black
            &&& text_mode(p, text) is Passthrough <==> !black && white
            &&& text_mode(p, text) is CopyOnWrite <==> !black && !white
            &&& text_logs(p, text) <==> !black && !white && !any_glob_matches(p.disable_log, seen)
        }),
{
    let path = parse_path(text);
    let seen = spelled_below(text, p.root);
    lemma_goes_on(path, p.root);
    if p.cwd is Some {
        lemma_goes_on(path, p.cwd->0);
    }
    crate::path_laws::law_spelled_below(text, p.root);
    if in_project(p, path) {
        let tail = path.1.skip(p.root.1.len() as int);
        assert(goes_on(path, p.root, tail)) by {
            let t = choose|t: Seq<Seq<u8>>| #[trigger] goes_on(path, p.root, t);
            assert(t == tail);
        }
        assert(!parse_path(seen).0);
    }
}

/// Whether a text is no pattern.
pub open spec fn some_bad_pattern(patterns: Seq<Seq<char>>) -> bool {
    exists|i: int| 0 <= i < patterns.len() && !glob_valid(#[trigger] patterns[i])
}

/// A configuration with an entry that is no pattern is refused, in whichever list it
/// stands; a configuration is refused only where a pattern is too deep, too long or none,
/// or where patterns cannot be made into sets.
pub proof fn law_faults_of_configurations(config: Config, home: Option<Seq<char>>)
    ensures
        ({
            let black = expand_list(config.blacklist@, home);
            let white = expand_list(config.whitelist@, home);
            let quiet = expand_list(config.disable_log@, home);
            let fault = config_fault(config, home);
            &&& some_bad_pattern(black) || some_bad_pattern(white) || some_bad_pattern(quiet) ==> fault is Some
            &&& fault == Some(PolicyFault::Pattern) ==> some_bad_pattern(black) || some_bad_pattern(white)
                || some_bad_pattern(quiet) || some_bad_pattern(seq![".sandbox"@, ".sandbox/**"@])
            &&& fault == Some(PolicyFault::TooDeep) <==> !(all_shallow(black) && all_shallow(white)
                && all_shallow(quiet))
            &&& fault == Some(PolicyFault::TooLong) ==> !(all_fit(black) && all_fit(white) && all_fit(
                quiet,
            ))
        }),
{
    let black = expand_list(config.blacklist@, home);
    let white = expand_list(config.whitelist@, home);
    let quiet = expand_list(config.disable_log@, home);
    let full = full_blacklist(black, white);
    let own = seq![".sandbox"@, ".sandbox/**"@];
    if fault_of(full) == Some(PolicyFault::Pattern) && !some_bad_pattern(black) {
        let i = choose|i: int| 0 <= i < full.len() && !glob_valid(#[trigger] full[i]);
        if i < black.len() {
            assert(full[i] == black[i]);
        } else {
            assert(full[i] == own[i - black.len()]);
            assert(!glob_valid(own[i - black.len()]));
        }
    }
}

/// Where and how much is logged is what the configuration says, and the usual level to
/// nowhere where there is none.
pub proof fn law_log_data(config: Config, level: String)
    ensures
        log_data_of(None) == (LevelFilter::Info, None::<String>),
        log_data_of(Some(config)).1 == config.log,
        config.log_level is None ==> log_data_of(Some(config)).0 == LevelFilter::Info,
        config.log_level == Some(level) ==> log_data_of(Some(config)).0 == level_named(Some(level@)),
{
}

} // verus!
