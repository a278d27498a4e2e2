//! Splitting wildcard patterns into a search strategy and file patterns.

use vstd::prelude::*;
use crate::text::{
    trim_ws, split_on, find_sub, last_index_of, trim_end_seq, lemma_find_sub, lemma_last_index_of,
    trim_white_space, split_by_char, find_str, rfind_char, trim_end_str, contains_char, substring,
    str_equal, concat,
};
use crate::wildcard::paths::{dedup_paths, sort_paths, sort_unique_paths};
use crate::wildcard::provider::{glob_accepts, compile_glob, glob_error_text};

verus! {

/// Where to look for configuration files, as a mathematical value.
pub enum SearchPlan {
    /// Search these directories (not their subdirectories)
    Directories(Seq<Seq<char>>),
    /// Search these roots and their subdirectories, to an optional depth
    Recursive(Seq<Seq<char>>, Option<usize>),
    /// Search the current directory
    Current,
    /// Test the given paths, found by the caller's own discovery
    Custom(Seq<Seq<char>>),
}

/// Where to look for configuration files.
#[derive(Debug)]
pub enum SearchStrategy {
    /// Search specific directories (not recursive)
    Directories(Vec<String>),
    /// Search recursively from root directories, to an optional depth
    Recursive { roots: Vec<String>, max_depth: Option<usize> },
    /// Search the current directory only
    Current,
    /// Test the paths that the caller's own discovery found (a database,
    /// the network, a mock file system) against the patterns
    Custom(Vec<String>),
}

impl View for SearchStrategy {
    type V = SearchPlan;

    open spec fn view(&self) -> SearchPlan {
        match self {
            SearchStrategy::Directories(d) => SearchPlan::Directories(d.deep_view()),
            SearchStrategy::Recursive { roots, max_depth } => SearchPlan::Recursive(roots.deep_view(), *max_depth),
            SearchStrategy::Current => SearchPlan::Current,
            SearchStrategy::Custom(paths) => SearchPlan::Custom(paths.deep_view()),
        }
    }
}

impl Default for SearchStrategy {
    /// The current directory.
    fn default() -> (r: Self)
        ensures
            r@ == SearchPlan::Current,
    {
        SearchStrategy::Current
    }
}

/// Why a pattern or a list of patterns was refused.
#[derive(Debug)]
pub enum PatternError {
    /// The pattern is the empty string
    EmptyPattern,
    /// No pattern was given
    NoPatterns,
    /// The glob syntax of a pattern is invalid
    InvalidPattern { pattern: String, reason: String },
    /// A brace expansion is not closed
    MalformedBraces { pattern: String },
    /// The compiled patterns could not be combined into one matcher
    GlobSet { reason: String },
}

/// The message an error reads as.
pub open spec fn error_message(e: PatternError) -> Seq<char> {
    match e {
        PatternError::EmptyPattern => "Pattern cannot be empty"@,
        PatternError::NoPatterns => "At least one pattern is required"@,
        PatternError::InvalidPattern { pattern, reason } => "Invalid pattern '"@ + pattern@ + "': "@ + reason@,
        PatternError::MalformedBraces { pattern } => "Malformed brace expansion in pattern '"@ + pattern@ + "': missing '}'"@,
        PatternError::GlobSet { reason } => "Failed to build globset: "@ + reason@,
    }
}

impl PatternError {
    /// The message the error reads as.
    pub fn message(&self) -> (r: String)
        ensures
            r@ == error_message(*self),
    {
        match self {
            PatternError::EmptyPattern => "Pattern cannot be empty".to_owned(),
            PatternError::NoPatterns => "At least one pattern is required".to_owned(),
            PatternError::InvalidPattern { pattern, reason } => {
                let a = concat("Invalid pattern '", pattern.as_str());
                let b = concat(a.as_str(), "': ");
                concat(b.as_str(), reason.as_str())
            },
            PatternError::MalformedBraces { pattern } => {
                let a = concat("Malformed brace expansion in pattern '", pattern.as_str());
                concat(a.as_str(), "': missing '}'")
            },
            PatternError::GlobSet { reason } => concat("Failed to build globset: ", reason.as_str()),
        }
    }
}

// ---------------------------------------------------------------------------
// Single patterns
// ---------------------------------------------------------------------------

/// The directories and file pattern of a brace pattern `{a,b}/rest`: the
/// text between `{` and the first `}` split at commas, each trimmed, and what
/// follows the `}` without one leading `/`.
pub open spec fn brace_parts(p: Seq<char>) -> Option<(Seq<Seq<char>>, Seq<char>)> {
    if p.len() == 0 || p[0] != '{' {
        None
    } else {
        match find_sub(p, seq!['}']) {
            None => None,
            Some(k) => {
                let dirs = split_on(p.subrange(1, k as int), ',').map_values(|d: Seq<char>| trim_ws(d));
                let rest = p.subrange(k + 1int, p.len() as int);
                let file = if rest.len() > 0 && rest[0] == '/' { rest.drop_first() } else { rest };
                Some((dirs, file))
            },
        }
    }
}

/// The root and file pattern of a recursive pattern `prefix/**/rest`.
pub open spec fn recursive_parts(p: Seq<char>) -> (Seq<Seq<char>>, Seq<char>) {
    match find_sub(p, seq!['*', '*', '/']) {
        Some(i) => {
            let prefix = p.subrange(0, i as int);
            let root = if prefix.len() == 0 || prefix == seq!['.', '/'] {
                seq!['.']
            } else {
                trim_end_seq(prefix, seq!['/'])
            };
            (seq![root], p.subrange(i + 3int, p.len() as int))
        },
        None => {
            let prefix = trim_end_seq(p, seq!['/', '*', '*']);
            let root = if prefix.len() == 0 { seq!['.'] } else { prefix };
            (seq![root], seq!['*'])
        },
    }
}

/// The directory and file pattern of a path pattern `dir/file`, split at the
/// last `/`.
pub open spec fn path_parts(p: Seq<char>) -> (Seq<char>, Seq<char>) {
    match last_index_of(p, '/') {
        Some(k) => {
            let dir = p.subrange(0, k as int);
            (if dir.len() == 0 { seq!['/'] } else { dir }, p.subrange(k + 1int, p.len() as int))
        },
        None => (seq!['.'], p),
    }
}

/// How one pattern splits into a search plan and its file pattern:
/// `{a,b}/f` searches the listed directories, `dir/**/f` searches `dir`
/// recursively, `dir/f` searches `dir`, a bare file pattern the current
/// directory.
pub open spec fn pattern_shape(p: Seq<char>) -> (SearchPlan, Seq<Seq<char>>) {
    if brace_parts(p) is Some {
        (SearchPlan::Directories(brace_parts(p).unwrap().0), seq![brace_parts(p).unwrap().1])
    } else if find_sub(p, seq!['*', '*', '/']) is Some {
        (SearchPlan::Recursive(recursive_parts(p).0, None), seq![recursive_parts(p).1])
    } else if p.contains('/') {
        (SearchPlan::Directories(seq![path_parts(p).0]), seq![path_parts(p).1])
    } else {
        (SearchPlan::Current, seq![p])
    }
}

/// Whether `p` opens a brace expansion that it never closes.
pub open spec fn brace_unclosed(p: Seq<char>) -> bool {
    p.len() > 0 && p[0] == '{' && !p.contains('}')
}

/// The search plan and file patterns of one pattern (see `pattern_shape`);
/// `None` when it is refused: the empty pattern, an unclosed brace
/// expansion, or a file pattern of invalid glob syntax.
pub open spec fn pattern_plan(p: Seq<char>) -> Option<(SearchPlan, Seq<Seq<char>>)> {
    if p.len() == 0 || brace_unclosed(p) {
        None
    } else if glob_accepts(pattern_shape(p).1[0]) {
        Some(pattern_shape(p))
    } else {
        None
    }
}

/// Whether `e` is the error that refuses the pattern `p`: the empty
/// pattern, the unclosed brace expansion, or the invalid file pattern.
pub open spec fn pattern_fault(e: PatternError, p: Seq<char>) -> bool {
    if p.len() == 0 {
        e is EmptyPattern
    } else if brace_unclosed(p) {
        e matches PatternError::MalformedBraces { pattern } && pattern@ == p
    } else {
        e matches PatternError::InvalidPattern { pattern, .. } && pattern@ == pattern_shape(p).1[0]
    }
}

/// Splits a brace pattern such as `{dir1,dir2}/*.toml` into its directories
/// and its file pattern; `None` when the pattern does not start with `{` or
/// has no `}`.
pub fn parse_brace_expansion(pattern: &str) -> (r: Option<(Vec<String>, String)>)
    ensures
        r is None <==> brace_parts(pattern@) is None,
        r matches Some((dirs, file)) ==> brace_parts(pattern@) == Some((dirs.deep_view(), file@)),
{
    let n = pattern.unicode_len();
    if n == 0 || pattern.get_char(0) != '{' {
        return None;
    }
    proof {
        reveal_strlit("}");
        assert("}"@ =~= seq!['}']);
    }
    let close = match find_str(pattern, "}") {
        None => {
            return None;
        },
        Some(k) => k,
    };
    proof {
        lemma_find_sub(pattern@, seq!['}']);
    }
    if close == 0 {
        assert(pattern@.subrange(0, 1)[0] == '}');
        return None;
    }
    let inner = substring(pattern, 1, close);
    let pieces = split_by_char(inner.as_str(), ',');
    let ghost pv = pieces.deep_view();
    let mut dirs: Vec<String> = Vec::new();
    let mut i: usize = 0;
    while i < pieces.len()
        invariant
            pv == pieces.deep_view(),
            i <= pv.len(),
            dirs.deep_view() == pv.subrange(0, i as int).map_values(|d: Seq<char>| trim_ws(d)),
        decreases pv.len() - i,
    {
        assert(pv[i as int] == pieces@[i as int]@);
        let t = trim_white_space(pieces[i].as_str());
        let ghost before = dirs.deep_view();
        dirs.push(t);
        assert(dirs.deep_view() =~= before.push(trim_ws(pv[i as int])));
        assert(pv.subrange(0, i + 1).map_values(|d: Seq<char>| trim_ws(d)) =~= pv.subrange(0, i as int).map_values(
            |d: Seq<char>| trim_ws(d),
        ).push(trim_ws(pv[i as int])));
        i = i + 1;
    }
    assert(pv.subrange(0, pv.len() as int) =~= pv);
    let rest = substring(pattern, close + 1, n);
    let file = if rest.unicode_len() > 0 && rest.as_str().get_char(0) == '/' {
        let m = rest.unicode_len();
        let f = substring(rest.as_str(), 1, m);
        assert(f@ =~= rest@.drop_first());
        f
    } else {
        rest
    };
    Some((dirs, file))
}

/// Splits a recursive pattern such as `./config/**/*.yaml` into its root and
/// the file pattern after `**/`.
pub fn parse_recursive_pattern(pattern: &str) -> (r: (Vec<String>, String))
    ensures
        (r.0.deep_view(), r.1@) == recursive_parts(pattern@),
{
    proof {
        reveal_strlit("**/");
        reveal_strlit("./");
        reveal_strlit("/**");
        reveal_strlit("/");
        reveal_strlit(".");
        reveal_strlit("*");
        assert("**/"@ =~= seq!['*', '*', '/']);
        assert("./"@ =~= seq!['.', '/']);
        assert("/**"@ =~= seq!['/', '*', '*']);
        assert("/"@ =~= seq!['/']);
        assert("."@ =~= seq!['.']);
        assert("*"@ =~= seq!['*']);
    }
    let n = pattern.unicode_len();
    let mut roots: Vec<String> = Vec::new();
    match find_str(pattern, "**/") {
        Some(i) => {
            proof {
                lemma_find_sub(pattern@, seq!['*', '*', '/']);
            }
            let prefix = substring(pattern, 0, i);
            let suffix = substring(pattern, i + 3, n);
            let root = if prefix.unicode_len() == 0 || str_equal(prefix.as_str(), "./") {
                ".".to_owned()
            } else {
                trim_end_str(prefix.as_str(), "/")
            };
            roots.push(root);
            assert(roots.deep_view() =~= seq![root@]);
            (roots, suffix)
        },
        None => {
            let prefix = trim_end_str(pattern, "/**");
            let root = if prefix.unicode_len() == 0 {
                ".".to_owned()
            } else {
                prefix
            };
            roots.push(root);
            assert(roots.deep_view() =~= seq![root@]);
            (roots, "*".to_owned())
        },
    }
}

/// Splits a path pattern such as `./config/*.toml` at its last `/` into the
/// directory (`/` when it is empty) and the file pattern; a pattern without
/// `/` belongs to the current directory.
pub fn parse_path_pattern(pattern: &str) -> (r: (String, String))
    ensures
        (r.0@, r.1@) == path_parts(pattern@),
{
    proof {
        reveal_strlit("/");
        reveal_strlit(".");
        assert("/"@ =~= seq!['/']);
        assert("."@ =~= seq!['.']);
        lemma_last_index_of(pattern@, '/');
    }
    let n = pattern.unicode_len();
    match rfind_char(pattern, '/') {
        Some(k) => {
            let dir = substring(pattern, 0, k);
            let file = substring(pattern, k + 1, n);
            if dir.unicode_len() == 0 {
                ("/".to_owned(), file)
            } else {
                (dir, file)
            }
        },
        None => (".".to_owned(), pattern.to_owned()),
    }
}

/// The search strategy and file pattern of one pattern, split as
/// `pattern_shape` says.
fn split_pattern(pattern: &str) -> (r: (SearchStrategy, Vec<String>))
    requires
        pattern@.len() > 0,
    ensures
        (r.0@, r.1.deep_view()) == pattern_shape(pattern@),
{
    if let Some((dirs, file)) = parse_brace_expansion(pattern) {
        let ghost f = file@;
        let mut files: Vec<String> = Vec::new();
        files.push(file);
        assert(files.deep_view() =~= seq![f]);
        return (SearchStrategy::Directories(dirs), files);
    }
    proof {
        reveal_strlit("**/");
        assert("**/"@ =~= seq!['*', '*', '/']);
    }
    if find_str(pattern, "**/").is_some() {
        let (roots, file) = parse_recursive_pattern(pattern);
        let ghost f = file@;
        let mut files: Vec<String> = Vec::new();
        files.push(file);
        assert(files.deep_view() =~= seq![f]);
        return (SearchStrategy::Recursive { roots, max_depth: None }, files);
    }
    if contains_char(pattern, '/') {
        let (dir, file) = parse_path_pattern(pattern);
        let ghost d = dir@;
        let ghost f = file@;
        let mut dirs: Vec<String> = Vec::new();
        dirs.push(dir);
        assert(dirs.deep_view() =~= seq![d]);
        let mut files: Vec<String> = Vec::new();
        files.push(file);
        assert(files.deep_view() =~= seq![f]);
        return (SearchStrategy::Directories(dirs), files);
    }
    let mut files: Vec<String> = Vec::new();
    files.push(pattern.to_owned());
    assert(files.deep_view() =~= seq![pattern@]);
    (SearchStrategy::Current, files)
}

/// The search strategy and file patterns of one pattern (see
/// `pattern_shape`).
///
/// The empty pattern, a brace expansion that is never closed, and a file
/// pattern of invalid glob syntax are refused (see `pattern_fault`).
pub fn parse_pattern(pattern: &str) -> (r: Result<(SearchStrategy, Vec<String>), PatternError>)
    ensures
        r is Ok <==> pattern_plan(pattern@) is Some,
        r matches Ok((s, files)) ==> pattern_plan(pattern@) == Some((s@, files.deep_view())),
        r matches Err(e) ==> pattern_fault(e, pattern@),
{
    let n = pattern.unicode_len();
    if n == 0 {
        return Err(PatternError::EmptyPattern);
    }
    if pattern.get_char(0) == '{' && !contains_char(pattern, '}') {
        return Err(PatternError::MalformedBraces { pattern: pattern.to_owned() });
    }
    let (strategy, files) = split_pattern(pattern);
    assert(pattern_shape(pattern@).1.len() == 1);
    assert(files.deep_view().len() == files@.len());
    assert(files.deep_view()[0] == files@[0]@);
    match compile_glob(files[0].as_str()) {
        Ok(_) => Ok((strategy, files)),
        Err(e) => Err(PatternError::InvalidPattern { pattern: files[0].as_str().to_owned(), reason: glob_error_text(&e) }),
    }
}


// ---------------------------------------------------------------------------
// Several patterns
// ---------------------------------------------------------------------------

/// The directories a plan contributes when plans are combined: its own, or
/// `.` for the current directory.
pub open spec fn plan_dirs(s: SearchPlan) -> Seq<Seq<char>> {
    match s {
        SearchPlan::Directories(d) => d,
        SearchPlan::Current => seq![seq!['.']],
        SearchPlan::Recursive(_, _) => Seq::empty(),
        SearchPlan::Custom(_) => Seq::empty(),
    }
}

/// The recursive roots a plan contributes when plans are combined: its own,
/// or `.` for a custom discovery, which cannot be combined with others and
/// falls back to a recursive search from the current directory.
pub open spec fn plan_roots(s: SearchPlan) -> Seq<Seq<char>> {
    match s {
        SearchPlan::Recursive(r, _) => r,
        SearchPlan::Custom(_) => seq![seq!['.']],
        _ => Seq::empty(),
    }
}

/// The paths a custom plan contributes when only custom plans are combined.
pub open spec fn plan_paths(s: SearchPlan) -> Seq<Seq<char>> {
    match s {
        SearchPlan::Custom(p) => p,
        _ => Seq::empty(),
    }
}

/// The paths of all custom plans, in order.
pub open spec fn all_paths(ss: Seq<SearchPlan>) -> Seq<Seq<char>>
    decreases ss.len(),
{
    if ss.len() == 0 {
        Seq::empty()
    } else {
        all_paths(ss.drop_last()) + plan_paths(ss.last())
    }
}

/// Number of custom plans.
pub open spec fn count_custom(ss: Seq<SearchPlan>) -> nat
    decreases ss.len(),
{
    if ss.len() == 0 {
        0
    } else {
        count_custom(ss.drop_last()) + if ss.last() is Custom { 1nat } else { 0nat }
    }
}

/// The directories of all plans, in order.
pub open spec fn all_dirs(ss: Seq<SearchPlan>) -> Seq<Seq<char>>
    decreases ss.len(),
{
    if ss.len() == 0 {
        Seq::empty()
    } else {
        all_dirs(ss.drop_last()) + plan_dirs(ss.last())
    }
}

/// The recursive roots of all plans, in order.
pub open spec fn all_roots(ss: Seq<SearchPlan>) -> Seq<Seq<char>>
    decreases ss.len(),
{
    if ss.len() == 0 {
        Seq::empty()
    } else {
        all_roots(ss.drop_last()) + plan_roots(ss.last())
    }
}

/// Number of plans that search the current directory.
pub open spec fn count_current(ss: Seq<SearchPlan>) -> nat
    decreases ss.len(),
{
    if ss.len() == 0 {
        0
    } else {
        count_current(ss.drop_last()) + if ss.last() is Current { 1nat } else { 0nat }
    }
}

/// Whether some plan searches recursively or by a custom discovery.
pub open spec fn any_recursive(ss: Seq<SearchPlan>) -> bool {
    exists|i: int| 0 <= i < ss.len() && (#[trigger] ss[i] is Recursive || ss[i] is Custom)
}

/// The plan that covers all of `ss`: the custom discovery of all their paths
/// when every plan (at least one) is custom; recursive over the sorted,
/// distinct roots when any plan is recursive or custom (a custom one adds
/// the current directory); the current directory when every plan is;
/// otherwise the sorted, distinct directories.
pub open spec fn combined_plan(ss: Seq<SearchPlan>) -> SearchPlan {
    if ss.len() > 0 && count_custom(ss) == ss.len() {
        SearchPlan::Custom(all_paths(ss))
    } else if any_recursive(ss) {
        SearchPlan::Recursive(dedup_paths(sort_paths(all_roots(ss))), None)
    } else if count_current(ss) == ss.len() {
        SearchPlan::Current
    } else {
        SearchPlan::Directories(dedup_paths(sort_paths(all_dirs(ss))))
    }
}

/// The plans of a sequence of strategies.
pub open spec fn plans_of(ss: Seq<SearchStrategy>) -> Seq<SearchPlan> {
    ss.map_values(|s: SearchStrategy| s@)
}

/// Combines the strategies of several patterns into one (see `combined_plan`).
pub fn resolve_combined_strategy(strategies: Vec<SearchStrategy>) -> (r: SearchStrategy)
    ensures
        r@ == combined_plan(plans_of(strategies@)),
{
    let ghost all = plans_of(strategies@);
    let n = strategies.len();
    let mut rest = strategies;
    let mut directories: Vec<String> = Vec::new();
    let mut roots: Vec<String> = Vec::new();
    let mut paths: Vec<String> = Vec::new();
    let mut has_recursive = false;
    let mut current_count: usize = 0;
    let mut custom_count: usize = 0;
    let mut i: usize = 0;
    assert(all.subrange(0, 0) =~= Seq::<SearchPlan>::empty());
    while i < n
        invariant
            n == all.len(),
            i <= n,
            plans_of(rest@) == all.subrange(i as int, n as int),
            directories.deep_view() == all_dirs(all.subrange(0, i as int)),
            roots.deep_view() == all_roots(all.subrange(0, i as int)),
            paths.deep_view() == all_paths(all.subrange(0, i as int)),
            has_recursive == any_recursive(all.subrange(0, i as int)),
            current_count == count_current(all.subrange(0, i as int)),
            custom_count == count_custom(all.subrange(0, i as int)),
            current_count <= i,
            custom_count <= i,
        decreases n - i,
    {
        let ghost pre = all.subrange(0, i as int);
        let ghost next = all.subrange(0, i + 1);
        assert(next.drop_last() =~= pre);
        assert(plans_of(rest@).len() == rest@.len());
        assert(rest@.len() > 0);
        assert(plans_of(rest@)[0] == rest@[0]@);
        assert(next.last() == rest@[0]@);
        let ghost old_rest = rest@;
        let s = rest.remove(0);
        assert(rest@ =~= old_rest.drop_first());
        assert forall|j: int| 0 <= j < rest@.len() implies #[trigger] plans_of(rest@)[j] == all.subrange(i + 1, n as int)[j] by {
            assert(plans_of(old_rest)[j + 1] == all.subrange(i as int, n as int)[j + 1]);
            assert(old_rest[j + 1] == rest@[j]);
        }
        assert(plans_of(rest@) =~= all.subrange(i + 1, n as int));
        match s {
            SearchStrategy::Directories(dirs) => {
                let ghost before = directories.deep_view();
                let mut d = dirs;
                let ghost dv = d.deep_view();
                directories.append(&mut d);
                assert(directories.deep_view() =~= before + dv);
            },
            SearchStrategy::Recursive { roots: rs, max_depth: _ } => {
                let ghost before = roots.deep_view();
                let mut r = rs;
                let ghost rv = r.deep_view();
                roots.append(&mut r);
                assert(roots.deep_view() =~= before + rv);
                has_recursive = true;
            },
            SearchStrategy::Current => {
                current_count = current_count + 1;
                let ghost before = directories.deep_view();
                directories.push(".".to_owned());
                proof {
                    reveal_strlit(".");
                    assert("."@ =~= seq!['.']);
                }
                assert(directories.deep_view() =~= before + seq![seq!['.']]);
            },
            SearchStrategy::Custom(ps) => {
                custom_count = custom_count + 1;
                let ghost before = paths.deep_view();
                let mut p = ps;
                let ghost pv = p.deep_view();
                paths.append(&mut p);
                assert(paths.deep_view() =~= before + pv);
                let ghost before_roots = roots.deep_view();
                roots.push(".".to_owned());
                proof {
                    reveal_strlit(".");
                    assert("."@ =~= seq!['.']);
                }
                assert(roots.deep_view() =~= before_roots + seq![seq!['.']]);
                has_recursive = true;
            },
        }
        proof {
            assert(all_roots(next) =~= all_roots(pre) + plan_roots(next.last()));
            assert(all_dirs(next) =~= all_dirs(pre) + plan_dirs(next.last()));
            assert(all_paths(next) =~= all_paths(pre) + plan_paths(next.last()));
            if any_recursive(next) && !(next.last() is Recursive || next.last() is Custom) {
                let j = choose|j: int| 0 <= j < next.len() && (#[trigger] next[j] is Recursive || next[j] is Custom);
                assert(pre[j] == next[j]);
            }
            if any_recursive(pre) {
                let j = choose|j: int| 0 <= j < pre.len() && (#[trigger] pre[j] is Recursive || pre[j] is Custom);
                assert(next[j] == pre[j]);
            }
            if next.last() is Recursive || next.last() is Custom {
                assert(next[next.len() - 1] is Recursive || next[next.len() - 1] is Custom);
            }
        }
        i = i + 1;
    }
    assert(all.subrange(0, n as int) =~= all);
    if n > 0 && custom_count == n {
        SearchStrategy::Custom(paths)
    } else if has_recursive {
        SearchStrategy::Recursive { roots: sort_unique_paths(roots), max_depth: None }
    } else if current_count == n {
        SearchStrategy::Current
    } else {
        SearchStrategy::Directories(sort_unique_paths(directories))
    }
}


/// Every pattern has a plan (none is refused).
pub open spec fn all_planned(ps: Seq<Seq<char>>) -> bool {
    forall|i: int| 0 <= i < ps.len() ==> pattern_plan(#[trigger] ps[i]) is Some
}

/// Index of the first refused pattern of `ps` (`ps.len()` when none is).
pub open spec fn first_invalid(ps: Seq<Seq<char>>) -> nat
    decreases ps.len(),
{
    if ps.len() == 0 {
        0
    } else if pattern_plan(ps[0]) is None {
        0
    } else {
        1 + first_invalid(ps.drop_first())
    }
}

/// `first_invalid` names the first refused pattern, and every pattern
/// before it has a plan.
pub proof fn lemma_first_invalid(ps: Seq<Seq<char>>)
    ensures
        first_invalid(ps) <= ps.len(),
        first_invalid(ps) < ps.len() ==> pattern_plan(ps[first_invalid(ps) as int]) is None,
        forall|j: int| 0 <= j < first_invalid(ps) ==> pattern_plan(#[trigger] ps[j]) is Some,
        first_invalid(ps) == ps.len() <==> all_planned(ps),
    decreases ps.len(),
{
    if ps.len() > 0 && pattern_plan(ps[0]) is Some {
        lemma_first_invalid(ps.drop_first());
        assert forall|j: int| 0 <= j < first_invalid(ps) implies pattern_plan(#[trigger] ps[j]) is Some by {
            if j > 0 {
                assert(ps[j] == ps.drop_first()[j - 1]);
            }
        }
        if first_invalid(ps) < ps.len() {
            assert(ps[first_invalid(ps) as int] == ps.drop_first()[first_invalid(ps.drop_first()) as int]);
        }
        if all_planned(ps) {
            assert forall|j: int| 0 <= j < ps.drop_first().len() implies pattern_plan(#[trigger] ps.drop_first()[j]) is Some by {
                assert(ps.drop_first()[j] == ps[j + 1]);
            }
        }
    } else if ps.len() > 0 {
        assert(!all_planned(ps)) by {
            assert(pattern_plan(ps[0]) is None);
        }
    }
}

/// The plan of each (accepted) pattern.
pub open spec fn plans_of_patterns(ps: Seq<Seq<char>>) -> Seq<SearchPlan> {
    ps.map_values(|p: Seq<char>| pattern_plan(p).unwrap().0)
}

/// The file patterns of all (accepted) patterns, in order.
pub open spec fn files_of_patterns(ps: Seq<Seq<char>>) -> Seq<Seq<char>>
    decreases ps.len(),
{
    if ps.len() == 0 {
        Seq::empty()
    } else {
        files_of_patterns(ps.drop_last()) + pattern_plan(ps.last()).unwrap().1
    }
}

/// The search plan and file patterns of several patterns; `None` when they
/// are refused (none at all, or one that `pattern_plan` refuses).
pub open spec fn multi_plan(ps: Seq<Seq<char>>) -> Option<(SearchPlan, Seq<Seq<char>>)> {
    if ps.len() == 0 {
        None
    } else if ps.len() == 1 {
        pattern_plan(ps[0])
    } else if all_planned(ps) {
        Some((combined_plan(plans_of_patterns(ps)), files_of_patterns(ps)))
    } else {
        None
    }
}

/// The search strategy and file patterns of several patterns.
///
/// No pattern at all is refused; one pattern is parsed alone; several are
/// parsed in turn (the first refused one gives the error) and their
/// strategies combined (see `combined_plan`), their file patterns kept in
/// order.
pub fn parse_multiple_patterns(patterns: &Vec<String>) -> (r: Result<(SearchStrategy, Vec<String>), PatternError>)
    ensures
        patterns@.len() == 0 ==> (r matches Err(e) && e is NoPatterns),
        patterns@.len() == 1 ==> (match r {
            Ok((s, f)) => pattern_plan(patterns@[0]@) == Some((s@, f.deep_view())),
            Err(e) => pattern_plan(patterns@[0]@) is None,
        }),
        patterns@.len() >= 2 ==> (match r {
            Ok((s, f)) => all_planned(patterns.deep_view()) && s@ == combined_plan(
                plans_of_patterns(patterns.deep_view()),
            ) && f.deep_view() == files_of_patterns(patterns.deep_view()),
            Err(e) => !all_planned(patterns.deep_view()),
        }),
        r matches Ok((s, f)) ==> multi_plan(patterns.deep_view()) == Some((s@, f.deep_view())),
        r is Err <==> multi_plan(patterns.deep_view()) is None,
        r matches Err(e) ==> (e is NoPatterns <==> patterns@.len() == 0),
        r matches Err(e) ==> (patterns@.len() > 0 ==> first_invalid(patterns.deep_view()) < patterns@.len()
            && pattern_fault(e, patterns.deep_view()[first_invalid(patterns.deep_view()) as int])),
{
    let n = patterns.len();
    if n == 0 {
        return Err(PatternError::NoPatterns);
    }
    let ghost pv = patterns.deep_view();
    proof {
        lemma_first_invalid(pv);
    }
    if n == 1 {
        assert(pv[0] == patterns@[0]@);
        proof {
            if pattern_plan(pv[0]) is None {
                assert(first_invalid(pv) == 0);
            }
        }
        return parse_pattern(patterns[0].as_str());
    }
    let mut strategies: Vec<SearchStrategy> = Vec::new();
    let mut files: Vec<String> = Vec::new();
    let mut i: usize = 0;
    while i < n
        invariant
            n == patterns@.len(),
            pv == patterns.deep_view(),
            i <= n,
            plans_of(strategies@) == plans_of_patterns(pv.subrange(0, i as int)),
            files.deep_view() == files_of_patterns(pv.subrange(0, i as int)),
            all_planned(pv.subrange(0, i as int)),
            first_invalid(pv) <= pv.len(),
            first_invalid(pv) < pv.len() ==> pattern_plan(pv[first_invalid(pv) as int]) is None,
            forall|j: int| 0 <= j < first_invalid(pv) ==> pattern_plan(#[trigger] pv[j]) is Some,
            first_invalid(pv) == pv.len() <==> all_planned(pv),
        decreases n - i,
    {
        assert(pv[i as int] == patterns@[i as int]@);
        let ghost pre = pv.subrange(0, i as int);
        let ghost next = pv.subrange(0, i + 1);
        assert(next.drop_last() =~= pre);
        assert(next.last() == pv[i as int]);
        match parse_pattern(patterns[i].as_str()) {
            Err(e) => {
                proof {
                    assert(pattern_plan(pv[i as int]) is None);
                    if first_invalid(pv) < i {
                        assert(pv.subrange(0, i as int)[first_invalid(pv) as int] == pv[first_invalid(pv) as int]);
                    }
                    if first_invalid(pv) > i {
                        assert(pattern_plan(pv[i as int]) is Some);
                    }
                }
                return Err(e);
            },
            Ok((s, f)) => {
                let ghost sp = strategies@;
                strategies.push(s);
                assert(plans_of(strategies@) =~= plans_of(sp).push(s@));
                assert(plans_of_patterns(next) =~= plans_of_patterns(pre).push(pattern_plan(pv[i as int]).unwrap().0));
                let ghost before = files.deep_view();
                let mut ff = f;
                let ghost fv = ff.deep_view();
                files.append(&mut ff);
                assert(files.deep_view() =~= before + fv);
                assert(all_planned(next)) by {
                    assert forall|j: int| 0 <= j < next.len() implies pattern_plan(#[trigger] next[j]) is Some by {
                        if j < i {
                            assert(next[j] == pre[j]);
                        }
                    }
                }
            },
        }
        i = i + 1;
    }
    assert(pv.subrange(0, n as int) =~= pv);
    Ok((resolve_combined_strategy(strategies), files))
}

} // verus!
