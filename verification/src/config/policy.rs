//! The policy that a configuration describes.
//!
//! The entries of its lists are patterns for paths.  One that ends in a slash names a
//! directory and stands for the directory and everything below it.

use crate::config::config::Config;
use crate::config::globs::{
    all_simple, any_glob_matches, brace_depth, glob_matches, glob_valid, is_plain, is_plain_char,
    is_shallow, is_simple, is_tree, lemma_own_patterns_simple, lemma_simple_pattern, plain_bytes,
    plain_chars, simple_matches, tree_suffix, DEPTH_LIMIT, SET_LIMIT,
};
use crate::config::sets::{
    fits_alone, lemma_simple_parts, parts_build, PatternSets, SetsBuilder,
};
use crate::fuse::policy::{AccessMode, Policy};
use crate::path::{
    law_parse_render, name_ok, parse_path, path_ok, render_path, starts_at_root, starts_with_path,
    strip_path_prefix, FsPath, PathModel, SLASH,
};
use crate::spelling::{below_as_spelled, law_shortest_spelling, spelled_below};
use crate::text::{to_utf8_lossy, utf8_lossy};
use globset::Error as GlobError;
use vstd::prelude::*;

verus! {

/// Why a policy cannot be made of a configuration.
#[derive(Debug)]
pub enum PolicyError {
    /// The braces of a pattern are nested too deep.
    TooDeep,
    /// A pattern is too long.
    TooLong,
    /// A text is no pattern.
    Pattern(GlobError),
    /// The patterns cannot be made into a set.
    Build(GlobError),
}

/// What is wrong with a configuration.
pub enum PolicyFault {
    TooDeep,
    TooLong,
    Pattern,
    Build,
}

/// What an error says is wrong.
pub open spec fn error_fault(e: PolicyError) -> PolicyFault {
    match e {
        PolicyError::TooDeep => PolicyFault::TooDeep,
        PolicyError::TooLong => PolicyFault::TooLong,
        PolicyError::Pattern(_) => PolicyFault::Pattern,
        PolicyError::Build(_) => PolicyFault::Build,
    }
}

/// Whether a pattern starts at the home directory.
pub open spec fn is_home_pattern(pat: Seq<char>) -> bool {
    pat.len() >= 2 && pat[0] == '~' && pat[1] == '/'
}

/// The text of a path with another put behind it: a slash goes between them where
/// the first does not end in one, and a rooted second stands for itself.
pub open spec fn push_text(base: Seq<char>, tail: Seq<char>) -> Seq<char> {
    if tail.len() > 0 && tail[0] == '/' {
        tail
    } else if base.len() > 0 && base.last() != '/' {
        base.push('/') + tail
    } else {
        base + tail
    }
}

/// A pattern with the home directory put in, where it is known.
pub open spec fn expand_pattern(pat: Seq<char>, home: Option<Seq<char>>) -> Seq<char> {
    match home {
        Some(h) => if is_home_pattern(pat) {
            push_text(h, pat.skip(2))
        } else {
            pat
        },
        None => pat,
    }
}

/// Whether a pattern names a directory: it ends in a slash that no backslash stands
/// before.
pub open spec fn is_dir_pattern(pat: Seq<char>) -> bool {
    pat.len() > 0 && pat.last() == '/' && !(pat.len() > 1 && pat[pat.len() - 2] == '\\')
}

/// The patterns that a pattern stands for: one that names a directory stands for the
/// directory and for everything below it, any other for itself.
pub open spec fn dir_patterns(pat: Seq<char>) -> Seq<Seq<char>> {
    if !is_dir_pattern(pat) {
        seq![pat]
    } else if pat.len() == 1 {
        seq![pat, tree_suffix()]
    } else {
        seq![pat.drop_last(), pat.drop_last() + tree_suffix()]
    }
}

/// The patterns that an entry of a list stands for.
pub open spec fn meant_by(pat: Seq<char>, home: Option<Seq<char>>) -> Seq<Seq<char>> {
    dir_patterns(expand_pattern(pat, home))
}

/// The patterns that the entries of a list stand for.
pub open spec fn expand_list(list: Seq<String>, home: Option<Seq<char>>) -> Seq<Seq<char>>
    decreases list.len(),
{
    if list.len() == 0 {
        Seq::empty()
    } else {
        expand_list(list.drop_last(), home) + meant_by(list.last()@, home)
    }
}

/// The texts of a list.
pub open spec fn texts(list: Seq<String>) -> Seq<Seq<char>> {
    Seq::new(list.len(), |i: int| list[i]@)
}

/// Whether no pattern of a list has braces nested too deep.
pub open spec fn all_shallow(patterns: Seq<Seq<char>>) -> bool {
    forall|i: int| 0 <= i < patterns.len() ==> brace_depth(#[trigger] patterns[i]) <= DEPTH_LIMIT
}

/// Whether no pattern of a list is too long.
pub open spec fn all_fit(patterns: Seq<Seq<char>>) -> bool {
    forall|i: int| 0 <= i < patterns.len() ==> fits_alone(#[trigger] patterns[i])
}

/// Whether all texts of a list are patterns.
pub open spec fn all_valid(patterns: Seq<Seq<char>>) -> bool {
    forall|i: int| 0 <= i < patterns.len() ==> glob_valid(#[trigger] patterns[i])
}

/// The characters of a string, where there is one.
pub open spec fn opt_str(o: Option<&str>) -> Option<Seq<char>> {
    match o {
        Some(s) => Some(s@),
        None => None,
    }
}

/// Puts the home directory into a pattern that starts with it.
pub fn expand_path(pat: &str, home: Option<&str>) -> (r: String)
    ensures
        r@ == expand_pattern(pat@, opt_str(home)),
{
    let n = pat.unicode_len();
    match home {
        Some(h) => {
            if n >= 2 && pat.get_char(0) == '~' && pat.get_char(1) == '/' {
                let tail = pat.substring_char(2, n);
                proof {
                    assert(tail@ =~= pat@.skip(2));
                    reveal_strlit("/");
                }
                if n > 2 && pat.get_char(2) == '/' {
                    assert(tail@[0] == pat@[2]);
                    return String::from_str(tail);
                }
                let mut out = String::from_str(h);
                let hl = h.unicode_len();
                if hl > 0 && h.get_char(hl - 1) != '/' {
                    out.append("/");
                    assert(out@ =~= h@.push('/'));
                }
                out.append(tail);
                return out;
            }
        },
        None => {},
    }
    String::from_str(pat)
}

/// Adds the patterns that an entry of a list stands for to a list.
fn push_meant(out: &mut Vec<String>, pat: &str, home: Option<&str>)
    ensures
        texts(final(out)@) == texts(old(out)@) + meant_by(pat@, opt_str(home)),
{
    let ghost before = texts(out@);
    let expanded = expand_path(pat, home);
    let text = expanded.as_str();
    let n = text.unicode_len();
    if n > 0 && text.get_char(n - 1) == '/' && !(n > 1 && text.get_char(n - 2) == '\\') {
        let dir = text.substring_char(0, n - 1);
        let mut below = String::from_str(dir);
        below.append("/**");
        proof {
            reveal_strlit("/**");
            assert("/**"@ =~= tree_suffix());
            assert(dir@ =~= text@.drop_last());
            if n == 1 {
                assert(below@ =~= tree_suffix());
            }
        }
        if n == 1 {
            out.push(String::from_str(text));
        } else {
            out.push(String::from_str(dir));
        }
        out.push(below);
        assert(texts(out@) =~= before + meant_by(pat@, opt_str(home)));
    } else {
        out.push(expanded);
        assert(texts(out@) =~= before + meant_by(pat@, opt_str(home)));
    }
}

/// The patterns that the entries of a list stand for.
fn expand_patterns(list: &Vec<String>, home: Option<&str>) -> (r: Vec<String>)
    ensures
        texts(r@) == expand_list(list@, opt_str(home)),
{
    let mut out: Vec<String> = Vec::new();
    let mut i: usize = 0;
    proof {
        assert(texts(out@) =~= expand_list(list@.take(0), opt_str(home)));
    }
    while i < list.len()
        invariant
            i <= list.len(),
            texts(out@) == expand_list(list@.take(i as int), opt_str(home)),
        decreases list.len() - i,
    {
        proof {
            assert(list@.take(i + 1).drop_last() =~= list@.take(i as int));
        }
        push_meant(&mut out, list[i].as_str(), home);
        i = i + 1;
    }
    proof {
        assert(list@.take(list@.len() as int) =~= list@);
    }
    out
}

/// Whether no pattern of a list has braces nested too deep.
fn check_depth(patterns: &Vec<String>) -> (r: bool)
    ensures
        r == all_shallow(texts(patterns@)),
{
    let ghost all = texts(patterns@);
    let mut i: usize = 0;
    while i < patterns.len()
        invariant
            i <= patterns.len(),
            all == texts(patterns@),
            forall|k: int| 0 <= k < i ==> brace_depth(#[trigger] all[k]) <= DEPTH_LIMIT,
        decreases patterns.len() - i,
    {
        assert(all[i as int] == patterns@[i as int]@);
        if !is_shallow(patterns[i].as_str()) {
            return false;
        }
        i = i + 1;
    }
    true
}

/// Whether no pattern of a list is too long.
fn check_length(patterns: &Vec<String>) -> (r: bool)
    ensures
        r == all_fit(texts(patterns@)),
{
    let ghost all = texts(patterns@);
    let mut i: usize = 0;
    while i < patterns.len()
        invariant
            i <= patterns.len(),
            all == texts(patterns@),
            forall|k: int| 0 <= k < i ==> fits_alone(#[trigger] all[k]),
        decreases patterns.len() - i,
    {
        let text = patterns[i].as_str().as_bytes();
        assert(text@ =~= vstd::utf8::encode_utf8(all[i as int]));
        if text.len() as u64 > SET_LIMIT - 4 {
            return false;
        }
        i = i + 1;
    }
    true
}

/// Puts patterns into a builder.
fn build_globset_builder(patterns: &Vec<String>) -> (r: Result<SetsBuilder, PolicyError>)
    requires
        all_shallow(texts(patterns@)),
        all_fit(texts(patterns@)),
    ensures
        match r {
            Ok(b) => all_valid(texts(patterns@)) && b.wf() && b@ == texts(patterns@),
            Err(e) => !all_valid(texts(patterns@)) && e is Pattern,
        },
{
    let ghost list = texts(patterns@);
    let mut builder = SetsBuilder::new();
    let mut i: usize = 0;
    proof {
        assert(builder@ =~= list.take(0));
    }
    while i < patterns.len()
        invariant
            i <= patterns.len(),
            list == texts(patterns@),
            all_shallow(list),
            all_fit(list),
            builder.wf(),
            builder@ == list.take(i as int),
            forall|k: int| 0 <= k < i ==> glob_valid(#[trigger] list[k]),
        decreases patterns.len() - i,
    {
        proof {
            assert(patterns@[i as int]@ == list[i as int]);
        }
        match builder.add(patterns[i].as_str()) {
            Ok(_) => {},
            Err(e) => {
                return Err(PolicyError::Pattern(e));
            },
        }
        proof {
            assert(list.take(i + 1) =~= list.take(i as int).push(list[i as int]));
        }
        i = i + 1;
    }
    proof {
        assert(list.take(list.len() as int) =~= list);
    }
    Ok(builder)
}

/// Makes sets of the patterns of a builder.
fn finish_set(builder: &SetsBuilder) -> (r: Result<PatternSets, PolicyError>)
    requires
        builder.wf(),
    ensures
        match r {
            Ok(s) => parts_build(builder@) && s@ == builder@,
            Err(e) => !parts_build(builder@) && e is Build,
        },
{
    match builder.build() {
        Ok(s) => Ok(s),
        Err(e) => Err(PolicyError::Build(e)),
    }
}

/// Makes sets of patterns.
fn build_globset(patterns: &Vec<String>) -> (r: Result<PatternSets, PolicyError>)
    requires
        all_shallow(texts(patterns@)),
        all_fit(texts(patterns@)),
    ensures
        match r {
            Ok(s) => list_ok(texts(patterns@)) && s@ == texts(patterns@),
            Err(e) => fault_of(texts(patterns@)) == Some(error_fault(e)),
        },
{
    let builder = build_globset_builder(patterns)?;
    finish_set(&builder)
}

/// Whether a list of texts can be made into a set.
pub open spec fn list_ok(patterns: Seq<Seq<char>>) -> bool {
    all_valid(patterns) && parts_build(patterns)
}

/// What is wrong with a list of texts: one is no pattern, or they cannot be made into
/// a set.
pub open spec fn fault_of(patterns: Seq<Seq<char>>) -> Option<PolicyFault> {
    if !all_valid(patterns) {
        Some(PolicyFault::Pattern)
    } else if !parts_build(patterns) {
        Some(PolicyFault::Build)
    } else {
        None
    }
}

/// What a policy is.
pub struct PolicyModel {
    pub root: PathModel,
    pub blacklist: Seq<Seq<char>>,
    pub whitelist: Seq<Seq<char>>,
    pub disable_log: Seq<Seq<char>>,
    pub root_is_whitelisted: bool,
    pub cwd: Option<PathModel>,
    pub cwd_is_whitelisted: bool,
}

/// The patterns that keep the daemon's own directory in the sandbox.
pub open spec fn implicit_blacklist() -> Seq<Seq<char>> {
    seq![".sandbox"@, ".sandbox/**"@]
}

/// The blacklist of a policy: the user's, and the daemon's own directory unless the
/// user whitelisted it.
pub open spec fn full_blacklist(user_black: Seq<Seq<char>>, user_white: Seq<Seq<char>>) -> Seq<Seq<char>> {
    if any_glob_matches(user_white, crate::syncing::disk::dot_sandbox()) {
        user_black
    } else {
        user_black + implicit_blacklist()
    }
}

/// What a path is, where there is one.
pub open spec fn opt_path(o: Option<&FsPath>) -> Option<PathModel> {
    match o {
        Some(p) => Some(p@),
        None => None,
    }
}

/// The policy of a configuration: the user's patterns; the project's own directory
/// passes through unless the user blacklisted it, and so does the current directory.
pub open spec fn policy_of(config: Config, root: PathModel, cwd: Option<PathModel>, home: Option<Seq<char>>) -> PolicyModel {
    let black = expand_list(config.blacklist@, home);
    let white = expand_list(config.whitelist@, home);
    PolicyModel {
        root,
        blacklist: full_blacklist(black, white),
        whitelist: white,
        disable_log: expand_list(config.disable_log@, home),
        root_is_whitelisted: !any_glob_matches(black, crate::path::dot()) && !any_glob_matches(
            black,
            Seq::empty(),
        ),
        cwd,
        cwd_is_whitelisted: match cwd {
            Some(p) => !any_glob_matches(black, render_path(p)) && !any_glob_matches(
                black,
                utf8_lossy(render_path(p)),
            ),
            None => false,
        },
    }
}

/// What is wrong with a configuration, in the order in which it is found.
pub open spec fn config_fault(config: Config, home: Option<Seq<char>>) -> Option<PolicyFault> {
    let black = expand_list(config.blacklist@, home);
    let white = expand_list(config.whitelist@, home);
    let quiet = expand_list(config.disable_log@, home);
    let full = full_blacklist(black, white);
    if !all_shallow(white) || !all_shallow(black) || !all_shallow(quiet) {
        Some(PolicyFault::TooDeep)
    } else if !all_fit(white) || !all_fit(black) || !all_fit(quiet) {
        Some(PolicyFault::TooLong)
    } else if fault_of(white) is Some {
        fault_of(white)
    } else if fault_of(black) is Some {
        fault_of(black)
    } else if !all_valid(quiet) {
        Some(PolicyFault::Pattern)
    } else if fault_of(full) is Some {
        fault_of(full)
    } else if !parts_build(quiet) {
        Some(PolicyFault::Build)
    } else {
        None
    }
}

/// How a path is handled, given what matched: the blacklist comes first, then the
/// whitelist, then the project's directory, then the current directory; everything
/// else is copied on write.
pub open spec fn mode_for(blacklisted: bool, whitelisted: bool, in_root: bool, in_cwd: bool) -> AccessMode {
    if blacklisted {
        AccessMode::FuseOnly
    } else if whitelisted || in_root || in_cwd {
        AccessMode::Passthrough
    } else {
        AccessMode::CopyOnWrite
    }
}

/// How a path is handled, given what matched.
pub fn choose_mode(blacklisted: bool, whitelisted: bool, in_root: bool, in_cwd: bool) -> (r: AccessMode)
    ensures
        r == mode_for(blacklisted, whitelisted, in_root, in_cwd),
{
    if blacklisted {
        return AccessMode::FuseOnly;
    }
    if whitelisted {
        return AccessMode::Passthrough;
    }
    if in_root {
        return AccessMode::Passthrough;
    }
    if in_cwd {
        return AccessMode::Passthrough;
    }
    AccessMode::CopyOnWrite
}

/// Whether an access is logged, given what matched: only what is copied on write
/// and not excepted.
pub fn choose_log(
    blacklisted: bool,
    whitelisted: bool,
    in_root: bool,
    in_cwd: bool,
    log_disabled: bool,
) -> (r: bool)
    ensures
        r == (mode_for(blacklisted, whitelisted, in_root, in_cwd) is CopyOnWrite && !log_disabled),
{
    if blacklisted {
        return false;
    }
    if whitelisted {
        return false;
    }
    if in_root {
        return false;
    }
    if in_cwd {
        return false;
    }
    !log_disabled
}

/// The path that patterns are matched against: what follows the project's
/// directory, or the path itself where it lies outside.
pub open spec fn matched_path(p: PolicyModel, path: PathModel) -> PathModel {
    match strip_path_prefix(path, p.root) {
        Some(rest) => rest,
        None => path,
    }
}

/// Whether a path passes through because it lies in the project's directory.
pub open spec fn in_root(p: PolicyModel, path: PathModel) -> bool {
    !matched_path(p, path).0 && p.root_is_whitelisted
}

/// Whether a path passes through because it lies in the current directory.
pub open spec fn in_cwd(p: PolicyModel, path: PathModel) -> bool {
    p.cwd_is_whitelisted && p.cwd is Some && starts_with_path(path, p.cwd->0)
}

/// Whether a list of a policy matches a path.
pub open spec fn listed(p: PolicyModel, patterns: Seq<Seq<char>>, path: PathModel) -> bool {
    any_glob_matches(patterns, render_path(matched_path(p, path)))
}

/// How a policy handles a path.
pub open spec fn policy_mode(p: PolicyModel, path: PathModel) -> AccessMode {
    mode_for(
        listed(p, p.blacklist, path),
        listed(p, p.whitelist, path),
        in_root(p, path),
        in_cwd(p, path),
    )
}

/// Whether a policy logs the first access to a path.
pub open spec fn policy_logs(p: PolicyModel, path: PathModel) -> bool {
    policy_mode(p, path) is CopyOnWrite && !listed(p, p.disable_log, path)
}

/// How a policy handles a path as it is spelled: patterns see the spelling.
pub open spec fn text_mode(p: PolicyModel, text: Seq<u8>) -> AccessMode {
    let rel = spelled_below(text, p.root);
    mode_for(
        any_glob_matches(p.blacklist, rel),
        any_glob_matches(p.whitelist, rel),
        !starts_at_root(rel) && p.root_is_whitelisted,
        in_cwd(p, parse_path(text)),
    )
}

/// Whether a policy logs the first access to a path as it is spelled.
pub open spec fn text_logs(p: PolicyModel, text: Seq<u8>) -> bool {
    text_mode(p, text) is CopyOnWrite && !any_glob_matches(
        p.disable_log,
        spelled_below(text, p.root),
    )
}

/// The policy that a configuration describes.
pub struct ConfigPolicy {
    root: FsPath,
    blacklist: PatternSets,
    whitelist: PatternSets,
    disable_log: PatternSets,
    root_is_whitelisted: bool,
    cwd: Option<FsPath>,
    cwd_is_whitelisted: bool,
}

impl View for ConfigPolicy {
    type V = PolicyModel;

    closed spec fn view(&self) -> PolicyModel {
        PolicyModel {
            root: self.root@,
            blacklist: self.blacklist@,
            whitelist: self.whitelist@,
            disable_log: self.disable_log@,
            root_is_whitelisted: self.root_is_whitelisted,
            cwd: match self.cwd {
                Some(p) => Some(p@),
                None => None,
            },
            cwd_is_whitelisted: self.cwd_is_whitelisted,
        }
    }
}

impl ConfigPolicy {
    /// Makes the policy of a configuration, for a project's directory, the current
    /// directory and the home directory.
    pub fn from_config(config: &Config, root: &FsPath, cwd: Option<&FsPath>, home: Option<&str>) -> (r: Result<
        ConfigPolicy,
        PolicyError,
    >)
        ensures
            match r {
                Ok(p) => config_fault(*config, opt_str(home)) is None && p@ == policy_of(
                    *config,
                    root@,
                    opt_path(cwd),
                    opt_str(home),
                ),
                Err(e) => config_fault(*config, opt_str(home)) == Some(error_fault(e)),
            },
            cwd is Some && vstd::utf8::valid_utf8(render_path(cwd->0@)) ==> utf8_lossy(
                render_path(cwd->0@),
            ) == render_path(cwd->0@),
    {
        let ghost h = opt_str(home);
        let ghost black = expand_list(config.blacklist@, h);
        let ghost white = expand_list(config.whitelist@, h);
        let (spelled, shown) = match cwd {
            Some(p) => {
                let spelled = p.to_bytes();
                let shown = to_utf8_lossy(spelled.as_slice());
                (spelled, shown)
            },
            None => (Vec::new(), Vec::new()),
        };
        let white_list = expand_patterns(&config.whitelist, home);
        let black_list = expand_patterns(&config.blacklist, home);
        let quiet_list = expand_patterns(&config.disable_log, home);
        if !(check_depth(&white_list) && check_depth(&black_list) && check_depth(&quiet_list)) {
            return Err(PolicyError::TooDeep);
        }
        if !(check_length(&white_list) && check_length(&black_list) && check_length(&quiet_list)) {
            return Err(PolicyError::TooLong);
        }
        let user_whitelist = build_globset(&white_list)?;
        let user_blacklist = build_globset(&black_list)?;
        let mut bl_builder = build_globset_builder(&black_list)?;
        let wl_builder = build_globset_builder(&white_list)?;
        let dl_builder = build_globset_builder(&quiet_list)?;
        let own: Vec<u8> = vec![46u8, 115, 97, 110, 100, 98, 111, 120];
        proof {
            assert(own@ =~= crate::syncing::disk::dot_sandbox());
        }
        if !user_whitelist.matches(own.as_slice()) {
            let ghost full = black + implicit_blacklist();
            proof {
                lemma_own_patterns_simple();
                assert(full_blacklist(black, white) == full);
                assert(full[black.len() as int] == ".sandbox"@);
                assert(full[black.len() as int + 1] == ".sandbox/**"@);
                assert forall|i: int| 0 <= i < full.len() && glob_valid(".sandbox"@) && glob_valid(
                    ".sandbox/**"@,
                ) implies glob_valid(#[trigger] full[i]) by {
                    if i < black.len() {
                        assert(full[i] == black[i]);
                    }
                }
            }
            match bl_builder.add(".sandbox") {
                Ok(_) => {},
                Err(e) => {
                    return Err(PolicyError::Pattern(e));
                },
            }
            match bl_builder.add(".sandbox/**") {
                Ok(_) => {},
                Err(e) => {
                    return Err(PolicyError::Pattern(e));
                },
            }
            proof {
                assert(bl_builder@ =~= full);
            }
        }
        let dot_name: Vec<u8> = vec![46u8];
        let nothing: Vec<u8> = Vec::new();
        proof {
            assert(dot_name@ =~= crate::path::dot());
            assert(nothing@ =~= Seq::<u8>::empty());
        }
        let root_is_whitelisted = !user_blacklist.matches(dot_name.as_slice())
            && !user_blacklist.matches(nothing.as_slice());
        let (cwd_copy, cwd_is_whitelisted) = match cwd {
            Some(p) => {
                let ok = !user_blacklist.matches(spelled.as_slice()) && !user_blacklist.matches(shown.as_slice());
                (Some(p.copy()), ok)
            },
            None => (None, false),
        };
        let blacklist = finish_set(&bl_builder)?;
        let whitelist = finish_set(&wl_builder)?;
        let disable_log = finish_set(&dl_builder)?;
        Ok(
            ConfigPolicy {
                root: root.copy(),
                blacklist,
                whitelist,
                disable_log,
                root_is_whitelisted,
                cwd: cwd_copy,
                cwd_is_whitelisted,
            },
        )
    }

    /// What follows the project's directory in a path, or the path itself.
    fn rel(&self, path: &FsPath) -> (r: FsPath)
        ensures
            r@ == matched_path(self@, path@),
    {
        match path.strip_prefix(&self.root) {
            Some(rest) => rest,
            None => path.copy(),
        }
    }

    /// How a path is handled, as it is spelled.
    pub fn classify_text(&self, text: &[u8]) -> (r: AccessMode)
        ensures
            r == text_mode(self@, text@),
    {
        let rel = below_as_spelled(text, &self.root);
        let under_root = !(rel.len() > 0 && rel[0] == SLASH);
        choose_mode(
            self.blacklist.matches(rel.as_slice()),
            self.whitelist.matches(rel.as_slice()),
            under_root && self.root_is_whitelisted,
            self.within_cwd(&FsPath::parse(text)),
        )
    }

    /// Whether the first access to a path is logged, as it is spelled.
    pub fn should_log_text(&self, text: &[u8]) -> (r: bool)
        ensures
            r == text_logs(self@, text@),
    {
        let rel = below_as_spelled(text, &self.root);
        let under_root = !(rel.len() > 0 && rel[0] == SLASH);
        choose_log(
            self.blacklist.matches(rel.as_slice()),
            self.whitelist.matches(rel.as_slice()),
            under_root && self.root_is_whitelisted,
            self.within_cwd(&FsPath::parse(text)),
            self.disable_log.matches(rel.as_slice()),
        )
    }

    /// Whether a path passes through because it lies in the current directory.
    fn within_cwd(&self, path: &FsPath) -> (r: bool)
        ensures
            r == in_cwd(self@, path@),
    {
        if !self.cwd_is_whitelisted {
            return false;
        }
        match &self.cwd {
            Some(cwd) => path.starts_with(cwd),
            None => false,
        }
    }
}

impl Policy for ConfigPolicy {
    open spec fn spec_classify(&self, path: PathModel) -> AccessMode {
        policy_mode(self@, path)
    }

    open spec fn spec_should_log(&self, path: PathModel) -> bool {
        policy_logs(self@, path)
    }

    fn classify(&self, path: &FsPath) -> (r: AccessMode) {
        let rel = self.rel(path);
        let under_root = !rel.is_absolute();
        let spelled = rel.to_bytes();
        choose_mode(
            self.blacklist.matches(spelled.as_slice()),
            self.whitelist.matches(spelled.as_slice()),
            under_root && self.root_is_whitelisted,
            self.within_cwd(path),
        )
    }

    fn should_log(&self, path: &FsPath) -> (r: bool) {
        let rel = self.rel(path);
        let under_root = !rel.is_absolute();
        let spelled = rel.to_bytes();
        choose_log(
            self.blacklist.matches(spelled.as_slice()),
            self.whitelist.matches(spelled.as_slice()),
            under_root && self.root_is_whitelisted,
            self.within_cwd(path),
            self.disable_log.matches(spelled.as_slice()))
    }
}

/// The blacklist wins over everything; outside it the whitelist passes through;
/// only what is copied on write is ever logged.
pub proof fn law_policy_order(p: PolicyModel, path: PathModel)
    ensures
        listed(p, p.blacklist, path) <==> policy_mode(p, path) is FuseOnly,
        listed(p, p.whitelist, path) && !listed(p, p.blacklist, path) ==> policy_mode(p, path) is Passthrough,
        policy_logs(p, path) ==> policy_mode(p, path) is CopyOnWrite,
        policy_mode(p, path) is CopyOnWrite && !listed(p, p.disable_log, path) ==> policy_logs(p, path),
{
}

/// A path is handled as its shortest spelling is.
pub proof fn law_path_as_spelled(p: PolicyModel, path: PathModel)
    requires
        path_ok(path),
    ensures
        policy_mode(p, path) == text_mode(p, render_path(path)),
        policy_logs(p, path) == text_logs(p, render_path(path)),
{
    let rel = matched_path(p, path);
    law_shortest_spelling(path, p.root);
    law_parse_render(path);
    assert(path_ok(rel)) by {
        assert forall|i: int| 0 <= i < rel.1.len() implies name_ok(#[trigger] rel.1[i], i, rel.0) by {
            let k = path.1.len() - rel.1.len();
            assert(rel.1[i] == path.1[k + i]);
            assert(name_ok(path.1[k + i], k + i, path.0));
        }
    }
    law_parse_render(rel);
}

/// Everything in the project's directory passes through unless a list or the
/// user's blacklisting of the directory says otherwise, and so does everything in
/// the current directory.
pub proof fn law_implicit_passthrough(p: PolicyModel, path: PathModel)
    requires
        !listed(p, p.blacklist, path),
        (p.root_is_whitelisted && crate::path::is_under(path, p.root)) || (
        p.cwd_is_whitelisted && p.cwd is Some && crate::path::is_under(path, p.cwd->0)),
    ensures
        policy_mode(p, path) is Passthrough,
        !policy_logs(p, path),
{
}

/// The text of names begins with that of the first few of them, and a slash stands
/// behind where there are more.
proof fn lemma_join_starts(names: Seq<Seq<u8>>, k: int)
    requires
        1 <= k <= names.len(),
    ensures
        k < names.len() ==> crate::path::join_names(names.take(k)).push(47).is_prefix_of(
            crate::path::join_names(names),
        ),
    decreases names.len(),
{
    if k < names.len() {
        let before = names.drop_last();
        let head = crate::path::join_names(names.take(k));
        let part = crate::path::join_names(before);
        let text = crate::path::join_names(names);
        assert(text == part.push(47) + names.last());
        lemma_join_starts(before, k);
        assert(before.take(k) =~= names.take(k));
        if k == before.len() {
            assert(before.take(k) =~= before);
        } else {
            assert(head.push(47) =~= part.subrange(0, head.len() as int + 1));
        }
        assert(head.push(47) =~= text.subrange(0, head.len() as int + 1));
    }
}

/// The spelling of a path at or below another is that of the other, or goes on with a
/// slash behind it.
proof fn lemma_render_below(path: PathModel, above: PathModel)
    requires
        above.1.len() > 0,
        crate::path::is_under(path, above),
    ensures
        path == above || render_path(above).push(47).is_prefix_of(render_path(path)),
{
    let k = above.1.len() as int;
    assert(path.1.take(k) =~= above.1);
    lemma_join_starts(path.1, k);
    if path.1.len() == k {
        assert(path.1 =~= above.1);
    } else {
        let head = render_path(above).push(47);
        let text = render_path(path);
        let inner = crate::path::join_names(above.1).push(47);
        let whole = crate::path::join_names(path.1);
        assert(inner =~= whole.subrange(0, inner.len() as int));
        assert(head =~= text.subrange(0, head.len() as int));
    }
}

/// What an entry of a list stands for is in the expanded list.
proof fn lemma_expanded(list: Seq<String>, home: Option<Seq<char>>, i: int, k: int)
    requires
        0 <= i < list.len(),
        0 <= k < meant_by(list[i]@, home).len(),
    ensures
        expand_list(list, home).contains(meant_by(list[i]@, home)[k]),
    decreases list.len(),
{
    let before = expand_list(list.drop_last(), home);
    let last = meant_by(list.last()@, home);
    let q = meant_by(list[i]@, home)[k];
    let all = expand_list(list, home);
    assert(all == before + last);
    if i == list.len() - 1 {
        assert(all[before.len() + k] == q);
    } else {
        assert(list.drop_last()[i] == list[i]);
        lemma_expanded(list.drop_last(), home, i, k);
        let j = choose|j: int| 0 <= j < before.len() && before[j] == q;
        assert(all[j] == q);
    }
}

/// A plain path, and the pattern for everything below it, match the path and everything
/// below it.
proof fn lemma_directory_matches(patterns: Seq<Seq<char>>, d: Seq<char>, above: PathModel, path: PathModel)
    requires
        is_plain(d),
        plain_bytes(d) == render_path(above),
        above.1.len() > 0,
        crate::path::is_under(path, above),
        patterns.contains(d),
        patterns.contains(d + tree_suffix()),
    ensures
        any_glob_matches(patterns, render_path(path)),
{
    lemma_render_below(path, above);
    let tree = d + tree_suffix();
    let n = tree.len() as int;
    assert(tree.skip(n - 3) =~= tree_suffix());
    assert(tree.take(n - 3) =~= d);
    assert(is_tree(tree));
    assert(tree[n - 1] == '*');
    assert(!is_plain(tree)) by {
        assert(!is_plain_char(tree[n - 1]));
    }
    assert(plain_bytes(tree.take(n - 2)) =~= render_path(above).push(47)) by {
        assert(tree.take(n - 2) =~= d.push('/'));
    }
    let i = choose|i: int| 0 <= i < patterns.len() && patterns[i] == d;
    let j = choose|j: int| 0 <= j < patterns.len() && patterns[j] == tree;
    if path == above {
        assert(glob_matches(patterns[i], render_path(path)));
    } else {
        assert(glob_matches(patterns[j], render_path(path)));
    }
}

/// The daemon's own directory, with everything below it, stays in the sandbox, unless
/// the user whitelisted it.
pub proof fn law_own_directory_blacklisted(
    config: Config,
    root: PathModel,
    cwd: Option<PathModel>,
    home: Option<Seq<char>>,
    path: PathModel,
)
    requires
        !any_glob_matches(expand_list(config.whitelist@, home), crate::syncing::disk::dot_sandbox()),
        root.0,
        crate::path::is_under(path, (true, root.1.push(crate::syncing::disk::dot_sandbox()))),
    ensures
        policy_mode(policy_of(config, root, cwd, home), path) is FuseOnly,
        !policy_logs(policy_of(config, root, cwd, home), path),
{
    let own = crate::syncing::disk::dot_sandbox();
    let p = policy_of(config, root, cwd, home);
    let black = expand_list(config.blacklist@, home);
    let n = black.len() as int;
    lemma_own_patterns_simple();
    assert(p.blacklist == black + implicit_blacklist());
    assert(p.blacklist[n] == ".sandbox"@);
    assert(p.blacklist[n + 1] == ".sandbox/**"@);
    let above: PathModel = (false, seq![own]);
    assert(root.1.push(own) =~= root.1 + above.1);
    lemma_relative(root, above, path);
    lemma_directory_matches(p.blacklist, ".sandbox"@, above, matched_path(p, path));
}

/// What follows the project's directory in a path at or below a directory of the
/// project is at or below that directory.
proof fn lemma_relative(root: PathModel, above: PathModel, path: PathModel)
    requires
        root.0,
        !above.0,
        above.1.len() > 0,
        crate::path::is_under(path, (true, root.1 + above.1)),
    ensures
        strip_path_prefix(path, root) is Some,
        crate::path::is_under(strip_path_prefix(path, root)->0, above),
{
    let base = root.1 + above.1;
    let n = root.1.len() as int;
    assert(base =~= path.1.subrange(0, base.len() as int));
    assert forall|i: int| 0 <= i < base.len() implies base[i] == path.1[i] by {
        assert(path.1.subrange(0, base.len() as int)[i] == path.1[i]);
    }
    assert(root.1 =~= path.1.subrange(0, n)) by {
        assert forall|i: int| 0 <= i < n implies root.1[i] == path.1[i] by {
            assert(base[i] == root.1[i]);
        }
    }
    let rest = path.1.skip(n);
    assert(above.1 =~= rest.subrange(0, above.1.len() as int)) by {
        assert forall|i: int| 0 <= i < above.1.len() implies above.1[i] == rest[i] by {
            assert(base[n + i] == above.1[i]);
            assert(rest[i] == path.1[n + i]);
        }
    }
}

/// A path that a simple pattern of the user's blacklist spells, or that lies below
/// one, is hidden, whatever else the configuration says.
pub proof fn law_simple_blacklist_hides(
    config: Config,
    root: PathModel,
    cwd: Option<PathModel>,
    home: Option<Seq<char>>,
    path: PathModel,
    i: int,
    k: int,
)
    requires
        0 <= i < config.blacklist@.len(),
        0 <= k < meant_by(config.blacklist@[i]@, home).len(),
        is_simple(meant_by(config.blacklist@[i]@, home)[k]),
        simple_matches(
            meant_by(config.blacklist@[i]@, home)[k],
            render_path(matched_path(policy_of(config, root, cwd, home), path)),
        ),
    ensures
        policy_mode(policy_of(config, root, cwd, home), path) is FuseOnly,
{
    let p = policy_of(config, root, cwd, home);
    let black = expand_list(config.blacklist@, home);
    let q = meant_by(config.blacklist@[i]@, home)[k];
    lemma_expanded(config.blacklist@, home, i, k);
    let j = choose|j: int| 0 <= j < black.len() && black[j] == q;
    assert(p.blacklist[j] == q);
    assert(glob_matches(p.blacklist[j], render_path(matched_path(p, path))));
}

/// An entry of a list that names a directory by a slash at its end matches the directory
/// and everything below it.
pub proof fn law_directory_entry_matches(
    list: Seq<String>,
    home: Option<Seq<char>>,
    i: int,
    d: Seq<char>,
    dir: PathModel,
    path: PathModel,
)
    requires
        0 <= i < list.len(),
        expand_pattern(list[i]@, home) == d.push('/'),
        is_plain(d),
        plain_bytes(d) == render_path(dir),
        dir.1.len() > 0,
        crate::path::is_under(path, dir),
    ensures
        any_glob_matches(expand_list(list, home), render_path(path)),
{
    let e = d.push('/');
    assert(plain_chars(d));
    assert(e[e.len() - 2] == d[d.len() - 1]);
    assert(is_plain_char(d[d.len() - 1]));
    assert(e.drop_last() =~= d);
    let m = meant_by(list[i]@, home);
    lemma_expanded(list, home, i, 0);
    lemma_expanded(list, home, i, 1);
    assert(m[0] == d && m[1] == d + tree_suffix());
    lemma_directory_matches(expand_list(list, home), d, dir, path);
}

/// A directory of the project that the user blacklisted by its name and a slash is
/// hidden with everything below it, whatever else the configuration says.
pub proof fn law_blacklisted_directory_hidden(
    config: Config,
    root: PathModel,
    cwd: Option<PathModel>,
    home: Option<Seq<char>>,
    i: int,
    d: Seq<char>,
    names: Seq<Seq<u8>>,
    path: PathModel,
)
    requires
        0 <= i < config.blacklist@.len(),
        expand_pattern(config.blacklist@[i]@, home) == d.push('/'),
        is_plain(d),
        plain_bytes(d) == render_path((false, names)),
        names.len() > 0,
        root.0,
        crate::path::is_under(path, (true, root.1 + names)),
    ensures
        policy_mode(policy_of(config, root, cwd, home), path) is FuseOnly,
{
    let p = policy_of(config, root, cwd, home);
    let black = expand_list(config.blacklist@, home);
    let text = render_path(matched_path(p, path));
    lemma_relative(root, (false, names), path);
    law_directory_entry_matches(
        config.blacklist@,
        home,
        i,
        d,
        (false, names),
        matched_path(p, path),
    );
    let j = choose|j: int| 0 <= j < black.len() && glob_matches(#[trigger] black[j], text);
    assert(p.blacklist[j] == black[j]);
}

/// A configuration of simple patterns, none of them too long, is accepted; so is an
/// empty one.
pub proof fn law_simple_configuration_accepted(config: Config, home: Option<Seq<char>>)
    requires
        all_simple(expand_list(config.blacklist@, home)),
        all_simple(expand_list(config.whitelist@, home)),
        all_simple(expand_list(config.disable_log@, home)),
        all_fit(expand_list(config.blacklist@, home)),
        all_fit(expand_list(config.whitelist@, home)),
        all_fit(expand_list(config.disable_log@, home)),
    ensures
        config_fault(config, home) is None,
{
    let black = expand_list(config.blacklist@, home);
    let white = expand_list(config.whitelist@, home);
    let quiet = expand_list(config.disable_log@, home);
    let full = full_blacklist(black, white);
    lemma_own_patterns_simple();
    lemma_simple_is_shallow(black);
    lemma_simple_is_shallow(white);
    lemma_simple_is_shallow(quiet);
    assert forall|i: int| 0 <= i < full.len() implies is_simple(#[trigger] full[i]) by {
        if i < black.len() {
            assert(full[i] == black[i]);
        }
    }
    lemma_simple_parts(black);
    lemma_simple_parts(white);
    lemma_simple_parts(quiet);
    lemma_simple_parts(full);
}

/// Simple patterns have no braces.
proof fn lemma_simple_is_shallow(patterns: Seq<Seq<char>>)
    requires
        all_simple(patterns),
    ensures
        all_shallow(patterns),
{
    assert forall|i: int| 0 <= i < patterns.len() implies brace_depth(#[trigger] patterns[i])
        <= DEPTH_LIMIT by {
        lemma_simple_pattern(patterns[i]);
    }
}

} // verus!
