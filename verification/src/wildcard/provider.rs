//! The wildcard provider: patterns, the search strategy parsed from them, the
//! compiled glob set and the merge order of the files it finds.
//!
//! Reading directories and files happens outside this crate; the provider
//! here decides what to look for and in which order to merge what was found.

use vstd::prelude::*;
use crate::text::concat;
use crate::wildcard::parsing::{
    SearchPlan, SearchStrategy, PatternError, multi_plan, parse_multiple_patterns, error_message,
    first_invalid, pattern_fault,
};
use crate::wildcard::sorting::{ConfigFile, MergeOrder, sorted_by_rank};

verus! {

/// A compiled glob pattern of the `globset` crate.
#[verifier::external_type_specification]
#[verifier::external_body]
pub struct ExGlob(globset::Glob);

/// A set of compiled glob patterns of the `globset` crate.
#[verifier::external_type_specification]
#[verifier::external_body]
pub struct ExGlobSet(globset::GlobSet);

/// An error of the `globset` crate.
#[verifier::external_type_specification]
#[verifier::external_body]
pub struct ExGlobError(globset::Error);

/// Whether `globset::Glob::new` accepts `pattern` (default options): whether
/// it is well-formed glob syntax.
pub uninterp spec fn glob_accepts(pattern: Seq<char>) -> bool;

/// Compiles one pattern with `globset::Glob::new`.
///
/// Trusted: the call succeeds exactly on the patterns that `glob_accepts`
/// names; nothing is stated about the compiled glob.
#[verifier::external_body]
pub(crate) fn compile_glob(pattern: &str) -> (r: Result<globset::Glob, globset::Error>)
    ensures
        r is Ok <==> glob_accepts(pattern@),
{
    globset::Glob::new(pattern)
}

/// Combines compiled globs into one matcher with `globset::GlobSet::new`.
///
/// Nothing is stated: the call can fail when the combined matcher exceeds
/// the limits of the regular expression engine.
#[verifier::external_body]
fn combine_globs(globs: Vec<globset::Glob>) -> Result<globset::GlobSet, globset::Error> {
    globset::GlobSet::new(globs)
}

/// The empty matcher, `globset::GlobSet::empty()`.
#[verifier::external_body]
fn empty_glob_set() -> globset::GlobSet {
    globset::GlobSet::empty()
}

/// The text of a `globset::Error` (its `Display`). Nothing is stated about it.
#[verifier::external_body]
pub(crate) fn glob_error_text(e: &globset::Error) -> String {
    format!("{}", e)
}

/// Index of the first pattern of `ps` that `glob_accepts` refuses
/// (`ps.len()` when it accepts all).
pub open spec fn first_refused(ps: Seq<Seq<char>>) -> nat
    decreases ps.len(),
{
    if ps.len() == 0 {
        0
    } else if !glob_accepts(ps[0]) {
        0
    } else {
        1 + first_refused(ps.drop_first())
    }
}

pub proof fn lemma_first_refused(ps: Seq<Seq<char>>)
    ensures
        first_refused(ps) <= ps.len(),
        first_refused(ps) < ps.len() ==> !glob_accepts(ps[first_refused(ps) as int]),
        forall|j: int| 0 <= j < first_refused(ps) ==> glob_accepts(#[trigger] ps[j]),
    decreases ps.len(),
{
    if ps.len() > 0 && glob_accepts(ps[0]) {
        lemma_first_refused(ps.drop_first());
        assert forall|j: int| 0 <= j < first_refused(ps) implies glob_accepts(#[trigger] ps[j]) by {
            if j > 0 {
                assert(ps[j] == ps.drop_first()[j - 1]);
            }
        }
        if first_refused(ps) < ps.len() {
            assert(ps[first_refused(ps) as int] == ps.drop_first()[first_refused(ps.drop_first()) as int]);
        }
    }
}

/// A configuration provider that finds files by glob patterns.
#[derive(Debug)]
pub struct Wildcard {
    globset: globset::GlobSet,
    search_strategy: SearchStrategy,
    merge_order: MergeOrder,
    patterns: Vec<String>,
    validation_error: Option<PatternError>,
}

/// What building a provider from `ps` gives: the patterns as given, the
/// alphabetical merge order, and the search plan and error of `plan_from`.
pub open spec fn built_from(w: Wildcard, ps: Seq<Seq<char>>) -> bool {
    &&& w.pattern_list() == ps
    &&& w.order() == MergeOrder::Alphabetical
    &&& plan_from(w, ps)
}

/// The search plan and error of a provider built from `ps`: either the
/// parsed search plan, or the current directory with the error that stopped
/// the parse or compilation.
pub open spec fn plan_from(w: Wildcard, ps: Seq<Seq<char>>) -> bool {
    match multi_plan(ps) {
        None => {
            &&& w.plan() == SearchPlan::Current
            &&& w.error() matches Some(e)
            &&& (e is NoPatterns <==> ps.len() == 0)
            &&& (ps.len() > 0 ==> first_invalid(ps) < ps.len() && pattern_fault(e, ps[first_invalid(ps) as int]))
        },
        Some((plan, files)) => if first_refused(files) < files.len() {
            &&& w.plan() == SearchPlan::Current
            &&& w.error() matches Some(PatternError::InvalidPattern { pattern, .. })
            &&& pattern@ == files[first_refused(files) as int]
        } else {
            ||| w.plan() == plan && w.error() is None
            ||| w.plan() == SearchPlan::Current && (w.error() matches Some(e) && e is GlobSet)
        },
    }
}

impl Wildcard {
    /// The patterns the provider was made from.
    pub closed spec fn pattern_list(&self) -> Seq<Seq<char>> {
        self.patterns.deep_view()
    }

    /// Where the provider looks for files.
    pub closed spec fn plan(&self) -> SearchPlan {
        self.search_strategy@
    }

    /// The order in which found files are merged.
    pub closed spec fn order(&self) -> MergeOrder {
        self.merge_order
    }

    /// The error that made the patterns unusable, if any.
    pub closed spec fn error(&self) -> Option<PatternError> {
        self.validation_error
    }

    /// The compiled matcher of the file patterns.
    pub closed spec fn matcher(&self) -> globset::GlobSet {
        self.globset
    }

    /// A provider for one pattern (see `from_patterns`).
    pub fn new(pattern: &str) -> (r: Wildcard)
        ensures
            built_from(r, seq![pattern@]),
    {
        Self::from_pattern(pattern)
    }

    /// A provider for one pattern (see `from_patterns`).
    pub fn from_pattern(pattern: &str) -> (r: Wildcard)
        ensures
            built_from(r, seq![pattern@]),
    {
        let mut ps: Vec<String> = Vec::new();
        ps.push(pattern.to_owned());
        assert(ps.deep_view() =~= seq![pattern@]);
        Self::from_patterns(&ps)
    }

    /// A provider for several patterns.
    ///
    /// The patterns are parsed into a search strategy and file patterns, and
    /// the file patterns compiled into one matcher. When that fails the
    /// provider keeps the error, searches the current directory and matches
    /// nothing.
    pub fn from_patterns(patterns: &Vec<String>) -> (r: Wildcard)
        ensures
            built_from(r, patterns.deep_view()),
    {
        let mut owned: Vec<String> = Vec::new();
        let mut i: usize = 0;
        while i < patterns.len()
            invariant
                i <= patterns@.len(),
                owned.deep_view() == patterns.deep_view().subrange(0, i as int),
            decreases patterns@.len() - i,
        {
            let ghost before = owned.deep_view();
            owned.push(patterns[i].as_str().to_owned());
            assert(owned.deep_view() =~= before.push(patterns.deep_view()[i as int]));
            assert(patterns.deep_view().subrange(0, i + 1) =~= before.push(patterns.deep_view()[i as int]));
            i = i + 1;
        }
        assert(patterns.deep_view().subrange(0, patterns@.len() as int) =~= patterns.deep_view());
        match parse_multiple_patterns(&owned) {
            Err(e) => Wildcard {
                globset: empty_glob_set(),
                search_strategy: SearchStrategy::Current,
                merge_order: MergeOrder::Alphabetical,
                patterns: owned,
                validation_error: Some(e),
            },
            Ok((strategy, files)) => match compile_patterns(&files) {
                Ok(set) => Wildcard {
                    globset: set,
                    search_strategy: strategy,
                    merge_order: MergeOrder::Alphabetical,
                    patterns: owned,
                    validation_error: None,
                },
                Err(e) => Wildcard {
                    globset: empty_glob_set(),
                    search_strategy: SearchStrategy::Current,
                    merge_order: MergeOrder::Alphabetical,
                    patterns: owned,
                    validation_error: Some(e),
                },
            },
        }
    }

    /// The provider with another merge order.
    pub fn with_merge_order(self, order: MergeOrder) -> (r: Wildcard)
        ensures
            r.order() == order,
            r.pattern_list() == self.pattern_list(),
            r.plan() == self.plan(),
            r.error() == self.error(),
            r.matcher() == self.matcher(),
    {
        let mut w = self;
        w.merge_order = order;
        w
    }

    /// The provider with another search strategy.
    pub fn with_search_strategy(self, strategy: SearchStrategy) -> (r: Wildcard)
        ensures
            r.plan() == strategy@,
            r.pattern_list() == self.pattern_list(),
            r.order() == self.order(),
            r.error() == self.error(),
            r.matcher() == self.matcher(),
    {
        let mut w = self;
        w.search_strategy = strategy;
        w
    }

    /// Where the provider looks for files.
    pub fn search_strategy(&self) -> (r: &SearchStrategy)
        ensures
            r@ == self.plan(),
    {
        &self.search_strategy
    }

    /// The order in which found files are merged.
    pub fn merge_order(&self) -> (r: &MergeOrder)
        ensures
            *r == self.order(),
    {
        &self.merge_order
    }

    /// The patterns the provider was made from.
    pub fn patterns(&self) -> (r: &Vec<String>)
        ensures
            r.deep_view() == self.pattern_list(),
    {
        &self.patterns
    }

    /// The compiled matcher of the file patterns (empty when they were
    /// refused).
    pub fn glob_set(&self) -> (r: &globset::GlobSet)
        ensures
            *r == self.matcher(),
    {
        &self.globset
    }

    /// The message of the error that made the patterns unusable, if any.
    pub fn has_errors(&self) -> (r: Option<String>)
        ensures
            r is None <==> self.error() is None,
            r matches Some(m) ==> m@ == error_message(self.error().unwrap()),
    {
        match &self.validation_error {
            None => None,
            Some(e) => Some(e.message()),
        }
    }

    /// Whether the patterns were usable.
    pub fn is_valid(&self) -> (r: bool)
        ensures
            r == self.error() is None,
    {
        self.validation_error.is_none()
    }

    /// The error that made the patterns unusable, taking the provider.
    pub fn into_error(self) -> (r: Option<PatternError>)
        ensures
            r == self.error(),
    {
        self.validation_error
    }

    /// Puts found files in merge order, lowest priority first.
    pub fn order_files(&self, files: Vec<ConfigFile>) -> (r: Vec<ConfigFile>)
        ensures
            r@ == sorted_by_rank(self.order(), files@),
    {
        self.merge_order.sort_files(files)
    }
}

/// Compiles file patterns into one matcher; the first pattern with invalid
/// glob syntax is reported.
fn compile_patterns(files: &Vec<String>) -> (r: Result<globset::GlobSet, PatternError>)
    ensures
        first_refused(files.deep_view()) <= files@.len(),
        first_refused(files.deep_view()) < files@.len() ==> (r matches Err(PatternError::InvalidPattern { pattern, .. })
            && pattern@ == files.deep_view()[first_refused(files.deep_view()) as int]),
        first_refused(files.deep_view()) == files@.len() ==> (r is Ok || (r matches Err(e) && e is GlobSet)),
{
    let ghost fv = files.deep_view();
    proof {
        lemma_first_refused(fv);
    }
    let mut globs: Vec<globset::Glob> = Vec::new();
    let mut i: usize = 0;
    while i < files.len()
        invariant
            fv == files.deep_view(),
            i <= fv.len(),
            forall|j: int| 0 <= j < i ==> glob_accepts(#[trigger] fv[j]),
            first_refused(fv) <= fv.len(),
            first_refused(fv) < fv.len() ==> !glob_accepts(fv[first_refused(fv) as int]),
            forall|j: int| 0 <= j < first_refused(fv) ==> glob_accepts(#[trigger] fv[j]),
        decreases fv.len() - i,
    {
        assert(fv[i as int] == files@[i as int]@);
        match compile_glob(files[i].as_str()) {
            Ok(g) => {
                globs.push(g);
            },
            Err(e) => {
                let reason = glob_error_text(&e);
                proof {
                    if first_refused(fv) < i {
                        assert(glob_accepts(fv[first_refused(fv) as int]));
                    }
                    if first_refused(fv) > i {
                        assert(glob_accepts(fv[i as int]));
                    }
                }
                return Err(PatternError::InvalidPattern { pattern: files[i].as_str().to_owned(), reason });
            },
        }
        i = i + 1;
    }
    proof {
        if first_refused(fv) < fv.len() {
            assert(glob_accepts(fv[first_refused(fv) as int]));
        }
    }
    match combine_globs(globs) {
        Ok(set) => Ok(set),
        Err(e) => Err(PatternError::GlobSet { reason: glob_error_text(&e) }),
    }
}

/// The patterns of the XDG locations for `app_name`.
pub open spec fn xdg_patterns(app: Seq<char>) -> Seq<Seq<char>> {
    seq![
        "~/.config/"@ + app + "/*.toml"@,
        "~/.config/"@ + app + "/*.yaml"@,
        "~/.config/"@ + app + "/*.yml"@,
        "~/.config/"@ + app + "/*.json"@,
        "~/.local/share/"@ + app + "/*.toml"@,
        "~/.local/share/"@ + app + "/*.yaml"@,
        "~/.local/share/"@ + app + "/*.yml"@,
        "~/.local/share/"@ + app + "/*.json"@,
        "/etc/"@ + app + "/*.toml"@,
        "/etc/"@ + app + "/*.yaml"@,
        "/etc/"@ + app + "/*.yml"@,
        "/etc/"@ + app + "/*.json"@,
    ]
}

/// The patterns of the hierarchical layout of `app`: its directories under
/// `~/.config` and `~/.app`, then the files `app.*` in the current directory
/// and at any depth below it.
pub open spec fn hierarchical_patterns(app: Seq<char>) -> Seq<Seq<char>> {
    seq![
        "~/.config/"@ + app + "/*.toml"@,
        "~/.config/"@ + app + "/*.yaml"@,
        "~/.config/"@ + app + "/*.yml"@,
        "~/.config/"@ + app + "/*.json"@,
        "~/."@ + app + "/*.toml"@,
        "~/."@ + app + "/*.yaml"@,
        "~/."@ + app + "/*.yml"@,
        "~/."@ + app + "/*.json"@,
        "./"@ + app + ".toml"@,
        "./"@ + app + ".yaml"@,
        "./"@ + app + ".yml"@,
        "./"@ + app + ".json"@,
        "**/"@ + app + ".toml"@,
        "**/"@ + app + ".yaml"@,
        "**/"@ + app + ".yml"@,
        "**/"@ + app + ".json"@,
    ]
}

/// The patterns of a development layout around `base`.
pub open spec fn development_patterns(base: Seq<char>) -> Seq<Seq<char>> {
    seq![
        base + "/*.toml"@,
        base + "/*.yaml"@,
        base + "/*.yml"@,
        base + "/*.json"@,
        base + ".toml"@,
        base + ".yaml"@,
        base + ".yml"@,
        base + ".json"@,
    ]
}

/// The merge priorities of a development layout around `base`, by file
/// name: the literal patterns `base.*`, `env-*` and `local.*`, then the
/// top-level file `{base}.*`.
pub open spec fn development_priorities(base: Seq<char>) -> Seq<Seq<char>> {
    seq!["base.*"@, "env-*"@, "local.*"@, base + ".*"@]
}

/// `a`, then `b`, then `c`.
fn join3(a: &str, b: &str, c: &str) -> (r: String)
    ensures
        r@ == a@ + b@ + c@,
{
    let ab = concat(a, b);
    concat(ab.as_str(), c)
}

impl Wildcard {
    /// A provider for the XDG locations of `app_name`: `~/.config/<app>`,
    /// `~/.local/share/<app>` and `/etc/<app>`, each for TOML, YAML and JSON.
    pub fn xdg(app_name: &str) -> (r: Wildcard)
        ensures
            built_from(r, xdg_patterns(app_name@)),
    {
        let mut ps: Vec<String> = Vec::new();
        ps.push(join3("~/.config/", app_name, "/*.toml"));
        ps.push(join3("~/.config/", app_name, "/*.yaml"));
        ps.push(join3("~/.config/", app_name, "/*.yml"));
        ps.push(join3("~/.config/", app_name, "/*.json"));
        ps.push(join3("~/.local/share/", app_name, "/*.toml"));
        ps.push(join3("~/.local/share/", app_name, "/*.yaml"));
        ps.push(join3("~/.local/share/", app_name, "/*.yml"));
        ps.push(join3("~/.local/share/", app_name, "/*.json"));
        ps.push(join3("/etc/", app_name, "/*.toml"));
        ps.push(join3("/etc/", app_name, "/*.yaml"));
        ps.push(join3("/etc/", app_name, "/*.yml"));
        ps.push(join3("/etc/", app_name, "/*.json"));
        assert(ps.deep_view() =~= xdg_patterns(app_name@));
        Self::from_patterns(&ps)
    }

    /// A provider for the hierarchical layout of `app_name` (see
    /// `hierarchical_patterns`); the files are merged in alphabetical order.
    /// The configuration name is not used.
    pub fn hierarchical(_config_name: &str, app_name: &str) -> (r: Wildcard)
        ensures
            built_from(r, hierarchical_patterns(app_name@)),
    {
        let mut ps: Vec<String> = Vec::new();
        ps.push(join3("~/.config/", app_name, "/*.toml"));
        ps.push(join3("~/.config/", app_name, "/*.yaml"));
        ps.push(join3("~/.config/", app_name, "/*.yml"));
        ps.push(join3("~/.config/", app_name, "/*.json"));
        ps.push(join3("~/.", app_name, "/*.toml"));
        ps.push(join3("~/.", app_name, "/*.yaml"));
        ps.push(join3("~/.", app_name, "/*.yml"));
        ps.push(join3("~/.", app_name, "/*.json"));
        ps.push(join3("./", app_name, ".toml"));
        ps.push(join3("./", app_name, ".yaml"));
        ps.push(join3("./", app_name, ".yml"));
        ps.push(join3("./", app_name, ".json"));
        ps.push(join3("**/", app_name, ".toml"));
        ps.push(join3("**/", app_name, ".yaml"));
        ps.push(join3("**/", app_name, ".yml"));
        ps.push(join3("**/", app_name, ".json"));
        assert(ps.deep_view() =~= hierarchical_patterns(app_name@));
        Self::from_patterns(&ps)
    }

    /// A provider for a development layout around `base_name`: the files in
    /// the directory `base_name` and the files `base_name.*`, merged base
    /// first, then environment files, then local files, then the top-level
    /// file.
    pub fn development(base_name: &str) -> (r: Wildcard)
        ensures
            r.pattern_list() == development_patterns(base_name@),
            plan_from(r, development_patterns(base_name@)),
            r.order() matches MergeOrder::Custom(p) && p.deep_view() == development_priorities(base_name@),
    {
        let mut ps: Vec<String> = Vec::new();
        ps.push(concat(base_name, "/*.toml"));
        ps.push(concat(base_name, "/*.yaml"));
        ps.push(concat(base_name, "/*.yml"));
        ps.push(concat(base_name, "/*.json"));
        ps.push(concat(base_name, ".toml"));
        ps.push(concat(base_name, ".yaml"));
        ps.push(concat(base_name, ".yml"));
        ps.push(concat(base_name, ".json"));
        assert(ps.deep_view() =~= development_patterns(base_name@));
        let mut order: Vec<String> = Vec::new();
        order.push("base.*".to_owned());
        order.push("env-*".to_owned());
        order.push("local.*".to_owned());
        order.push(concat(base_name, ".*"));
        assert(order.deep_view() =~= development_priorities(base_name@));
        Self::from_patterns(&ps).with_merge_order(MergeOrder::Custom(order))
    }
}

} // verus!
