//! Merge order strategies for the files that wildcard patterns discover.
//!
//! Files are merged from lowest to highest priority: later files override
//! earlier ones. The merge order decides the position of each file by its
//! name, its size, its modification time or a list of priority patterns; files
//! that rank equally keep the order in which they were discovered.

use vstd::prelude::*;
use crate::text::{substring, str_equal, lex_less, str_less, lemma_lex_less_order};

verus! {

/// A discovered configuration file with the metadata that merge orders use.
///
/// `size` is the length in bytes and `modified` the modification time in
/// nanoseconds relative to the Unix epoch; each is `None` where the metadata
/// could not be read.
#[derive(Debug, Clone)]
pub struct ConfigFile {
    /// The path of the file
    pub path: String,
    /// Size in bytes (`None` when it could not be read)
    pub size: Option<u64>,
    /// Modification time in nanoseconds since the Unix epoch (`None` when it
    /// could not be read)
    pub modified: Option<i128>,
}

/// Defines how multiple configuration files are ordered before merging.
#[derive(Debug, Clone)]
pub enum MergeOrder {
    /// By file name, A to Z
    Alphabetical,
    /// By file name, Z to A
    Reverse,
    /// By size, smallest first; a file whose size cannot be read counts as
    /// size 0, and the files of size 0 go in alphabetical order
    SizeAscending,
    /// By size, largest first; sizes that cannot be read as for
    /// `SizeAscending`
    SizeDescending,
    /// By modification time, oldest first; a file whose time cannot be read
    /// counts as the Unix epoch, and the files at the epoch go in
    /// alphabetical order
    ModificationTimeAscending,
    /// By modification time, newest first; times that cannot be read as for
    /// `ModificationTimeAscending`
    ModificationTimeDescending,
    /// By the first of the patterns that matches the file name; files that
    /// match no pattern come last; ties by file name
    Custom(Vec<String>),
}

impl Default for MergeOrder {
    /// Alphabetical order.
    fn default() -> (r: Self)
        ensures
            r == MergeOrder::Alphabetical,
    {
        MergeOrder::Alphabetical
    }
}

// ---------------------------------------------------------------------------
// File names
// ---------------------------------------------------------------------------

/// `p` without its trailing separators: `/` characters and `.` components
/// (a `.` that follows a `/`), which name no file of their own.
pub open spec fn trim_trailing_slashes(p: Seq<char>) -> Seq<char>
    decreases p.len(),
{
    if p.len() > 0 && p.last() == '/' {
        trim_trailing_slashes(p.drop_last())
    } else if p.len() > 1 && p.last() == '.' && p[p.len() - 2] == '/' {
        trim_trailing_slashes(p.drop_last())
    } else {
        p
    }
}

/// Index just after the last `/` in `p` (0 when there is none).
pub open spec fn after_last_slash(p: Seq<char>) -> nat
    decreases p.len(),
{
    if p.len() == 0 {
        0
    } else if p.last() == '/' {
        p.len()
    } else {
        after_last_slash(p.drop_last())
    }
}

/// The final component of a path, as `Path::file_name` gives it: trailing
/// `/` and `.` components are skipped (`foo.txt/.` names `foo.txt`); empty
/// for a path that ends in `..`, is `.` or has no component.
pub open spec fn file_name(p: Seq<char>) -> Seq<char> {
    let t = trim_trailing_slashes(p);
    let n = t.subrange(after_last_slash(t) as int, t.len() as int);
    if n == seq!['.'] || n == seq!['.', '.'] {
        Seq::empty()
    } else {
        n
    }
}

proof fn lemma_trim_trailing_slashes(p: Seq<char>)
    ensures
        trim_trailing_slashes(p).len() <= p.len(),
        trim_trailing_slashes(p) == p.subrange(0, trim_trailing_slashes(p).len() as int),
    decreases p.len(),
{
    if (p.len() > 0 && p.last() == '/') || (p.len() > 1 && p.last() == '.' && p[p.len() - 2] == '/') {
        lemma_trim_trailing_slashes(p.drop_last());
        let t = trim_trailing_slashes(p.drop_last());
        assert(p.drop_last().subrange(0, t.len() as int) =~= p.subrange(0, t.len() as int));
    } else {
        assert(p.subrange(0, p.len() as int) =~= p);
    }
}

proof fn lemma_after_last_slash(p: Seq<char>)
    ensures
        after_last_slash(p) <= p.len(),
        after_last_slash(p) == 0 || p[after_last_slash(p) - 1] == '/',
        forall|i: int| after_last_slash(p) <= i < p.len() ==> p[i] != '/',
    decreases p.len(),
{
    if p.len() > 0 && p.last() != '/' {
        lemma_after_last_slash(p.drop_last());
        assert forall|i: int| after_last_slash(p) <= i < p.len() implies p[i] != '/' by {
            if i < p.len() - 1 {
                assert(p[i] == p.drop_last()[i]);
            }
        }
    }
}

impl ConfigFile {
    /// A file known only by its path: its metadata could not be read.
    pub fn named(path: &str) -> (r: ConfigFile)
        ensures
            r.path@ == path@,
            r.size is None,
            r.modified is None,
    {
        ConfigFile { path: path.to_owned(), size: None, modified: None }
    }

    /// The final component of the path (empty when there is none).
    pub fn file_name(&self) -> (r: String)
        ensures
            r@ == file_name(self.path@),
    {
        let p = self.path.as_str();
        let n = p.unicode_len();
        let mut end: usize = n;
        assert(p@.subrange(0, n as int) =~= p@);
        while end > 0 && (p.get_char(end - 1) == '/' || (end > 1 && p.get_char(end - 1) == '.' && p.get_char(end - 2) == '/'))
            invariant
                n == p@.len(),
                end <= n,
                trim_trailing_slashes(p@) == trim_trailing_slashes(p@.subrange(0, end as int)),
            decreases end,
        {
            assert(p@.subrange(0, end as int).drop_last() =~= p@.subrange(0, end - 1));
            end = end - 1;
        }
        assert(trim_trailing_slashes(p@.subrange(0, end as int)) == p@.subrange(0, end as int));
        let ghost t = p@.subrange(0, end as int);
        let mut start: usize = end;
        assert(t.subrange(0, end as int) =~= t);
        proof {
            lemma_after_last_slash(t);
        }
        while start > 0 && p.get_char(start - 1) != '/'
            invariant
                n == p@.len(),
                start <= end <= n,
                t == p@.subrange(0, end as int),
                after_last_slash(t) == after_last_slash(t.subrange(0, start as int)),
                after_last_slash(t.subrange(0, start as int)) <= start,
            decreases start,
        {
            assert(t.subrange(0, start as int).drop_last() =~= t.subrange(0, start - 1));
            proof {
                lemma_after_last_slash(t.subrange(0, start - 1));
            }
            start = start - 1;
        }
        if start > 0 {
            assert(t.subrange(0, start as int).last() == '/');
        }
        assert(after_last_slash(t.subrange(0, start as int)) == start);
        let name = substring(p, start, end);
        assert(trim_trailing_slashes(p@) == t);
        assert(after_last_slash(t) == start);
        assert(t.len() == end);
        assert(name@ =~= t.subrange(after_last_slash(t) as int, t.len() as int));
        proof {
            reveal_strlit(".");
            reveal_strlit("..");
            assert("."@ =~= seq!['.']);
            assert(".."@ =~= seq!['.', '.']);
        }
        if str_equal(name.as_str(), ".") || str_equal(name.as_str(), "..") {
            String::new()
        } else {
            name
        }
    }
}

// ---------------------------------------------------------------------------
// Pattern matching for custom priorities
// ---------------------------------------------------------------------------

/// Number of occurrences of `c` in `s`.
pub open spec fn count_char(s: Seq<char>, c: char) -> nat
    decreases s.len(),
{
    if s.len() == 0 {
        0
    } else {
        count_char(s.drop_last(), c) + if s.last() == c { 1nat } else { 0nat }
    }
}

/// Index of the first occurrence of `c` in `s` (`s.len()` when absent).
pub open spec fn first_index(s: Seq<char>, c: char) -> nat
    decreases s.len(),
{
    if s.len() == 0 {
        0
    } else if s[0] == c {
        0
    } else {
        1 + first_index(s.drop_first(), c)
    }
}

/// Whether `name` matches the literal pattern `pat` character for
/// character, a `?` in `pat` matching any one character.
pub open spec fn fits(name: Seq<char>, pat: Seq<char>) -> bool {
    name.len() == pat.len() && forall|i: int| 0 <= i < pat.len() ==> (#[trigger] pat[i] == '?' || name[i] == pat[i])
}

/// Whether `name` starts with a part that `fits` `pre`.
pub open spec fn starts_fit(name: Seq<char>, pre: Seq<char>) -> bool {
    pre.len() <= name.len() && fits(name.subrange(0, pre.len() as int), pre)
}

/// Whether `name` ends with a part that `fits` `suf`.
pub open spec fn ends_fit(name: Seq<char>, suf: Seq<char>) -> bool {
    suf.len() <= name.len() && fits(name.subrange(name.len() - suf.len(), name.len() as int), suf)
}

/// Whether `name` matches the simple glob `pattern`, where `?` matches any
/// one character and `*` any run of characters.
///
/// A pattern with exactly one `*` matches names that start with the part
/// before it and end with the part after it. A pattern with several `*`
/// matches by its end after a leading `*`, or by its start before a trailing
/// `*`; any other pattern, and any pattern without `*`, matches the names it
/// fits character for character.
pub open spec fn pattern_matches_spec(name: Seq<char>, pattern: Seq<char>) -> bool {
    if count_char(pattern, '*') == 0 {
        fits(name, pattern)
    } else if count_char(pattern, '*') == 1 {
        let i = first_index(pattern, '*') as int;
        starts_fit(name, pattern.subrange(0, i)) && ends_fit(name, pattern.subrange(i + 1, pattern.len() as int))
    } else if pattern[0] == '*' {
        ends_fit(name, pattern.subrange(1, pattern.len() as int))
    } else if pattern.last() == '*' {
        starts_fit(name, pattern.subrange(0, pattern.len() - 1))
    } else {
        fits(name, pattern)
    }
}

/// Whether the part of `name` from `offset` on fits `pat` (see `fits`).
fn fits_at(name: &str, pat: &str, offset: usize) -> (r: bool)
    ensures
        r == (offset + pat@.len() <= name@.len() && fits(
            name@.subrange(offset as int, offset + pat@.len()),
            pat@,
        )),
{
    let n = name.unicode_len();
    let m = pat.unicode_len();
    if offset > n || m > n - offset {
        return false;
    }
    let ghost part = name@.subrange(offset as int, offset + m);
    let mut i: usize = 0;
    while i < m
        invariant
            n == name@.len(),
            m == pat@.len(),
            offset + m <= n,
            part == name@.subrange(offset as int, offset + m),
            i <= m,
            forall|j: int| 0 <= j < i ==> (#[trigger] pat@[j] == '?' || part[j] == pat@[j]),
        decreases m - i,
    {
        let c = pat.get_char(i);
        if c != '?' && name.get_char(offset + i) != c {
            assert(part[i as int] == name@[offset + i]);
            return false;
        }
        assert(part[i as int] == name@[offset + i]);
        i = i + 1;
    }
    true
}

proof fn lemma_first_index(s: Seq<char>, c: char)
    ensures
        first_index(s, c) <= s.len(),
        first_index(s, c) < s.len() ==> s[first_index(s, c) as int] == c,
        forall|j: int| 0 <= j < first_index(s, c) ==> s[j] != c,
        count_char(s, c) == 0 <==> first_index(s, c) == s.len(),
    decreases s.len(),
{
    if s.len() > 0 {
        lemma_first_index(s.drop_first(), c);
        lemma_count_char_first(s, c);
        assert forall|j: int| 0 <= j < first_index(s, c) implies s[j] != c by {
            if j > 0 {
                assert(s[j] == s.drop_first()[j - 1]);
            }
        }
    }
}

proof fn lemma_count_char_first(s: Seq<char>, c: char)
    requires
        s.len() > 0,
    ensures
        count_char(s, c) == count_char(s.drop_first(), c) + if s[0] == c { 1nat } else { 0nat },
    decreases s.len(),
{
    if s.len() > 1 {
        lemma_count_char_first(s.drop_last(), c);
        assert(s.drop_last().drop_first() =~= s.drop_first().drop_last());
        assert(s.drop_first().last() == s.last());
        assert(s.drop_last()[0] == s[0]);
        assert(count_char(s.drop_first(), c) == count_char(s.drop_first().drop_last(), c) + if s.drop_first().last() == c { 1nat } else { 0nat });
    } else {
        assert(s.drop_first().len() == 0);
        assert(s.drop_last().len() == 0);
        assert(count_char(s.drop_first(), c) == 0);
        assert(count_char(s.drop_last(), c) == 0);
        assert(s.last() == s[0]);
    }
}

/// Number of `*` characters in `s`.
fn count_stars(s: &str) -> (r: usize)
    ensures
        r == count_char(s@, '*'),
{
    let n = s.unicode_len();
    let mut i: usize = 0;
    let mut k: usize = 0;
    while i < n
        invariant
            n == s@.len(),
            i <= n,
            k <= i,
            k == count_char(s@.subrange(0, i as int), '*'),
        decreases n - i,
    {
        assert(s@.subrange(0, i + 1).drop_last() =~= s@.subrange(0, i as int));
        if s.get_char(i) == '*' {
            k = k + 1;
        }
        i = i + 1;
    }
    assert(s@.subrange(0, n as int) =~= s@);
    k
}

/// Index of the first `*` in `s` (its length when there is none).
fn first_star(s: &str) -> (r: usize)
    ensures
        r == first_index(s@, '*'),
{
    let n = s.unicode_len();
    let mut i: usize = 0;
    proof {
        lemma_first_index(s@, '*');
    }
    while i < n && s.get_char(i) != '*'
        invariant
            n == s@.len(),
            i <= n,
            i <= first_index(s@, '*'),
            first_index(s@, '*') <= n,
            first_index(s@, '*') < n ==> s@[first_index(s@, '*') as int] == '*',
            forall|j: int| 0 <= j < first_index(s@, '*') ==> s@[j] != '*',
        decreases n - i,
    {
        i = i + 1;
    }
    i
}

/// Whether `filename` matches the simple glob `pattern` (see `pattern_matches_spec`).
pub fn pattern_matches(filename: &str, pattern: &str) -> (r: bool)
    ensures
        r == pattern_matches_spec(filename@, pattern@),
{
    let stars = count_stars(pattern);
    let n = pattern.unicode_len();
    let len = filename.unicode_len();
    if stars == 0 {
        len == n && fits_at(filename, pattern, 0)
    } else if stars == 1 {
        let i = first_star(pattern);
        proof {
            lemma_first_index(pattern@, '*');
        }
        let prefix = substring(pattern, 0, i);
        let suffix = substring(pattern, i + 1, n);
        let sl = suffix.unicode_len();
        fits_at(filename, prefix.as_str(), 0) && sl <= len && fits_at(filename, suffix.as_str(), len - sl)
    } else if pattern.get_char(0) == '*' {
        let rest = substring(pattern, 1, n);
        let rl = rest.unicode_len();
        rl <= len && fits_at(filename, rest.as_str(), len - rl)
    } else if pattern.get_char(n - 1) == '*' {
        let head = substring(pattern, 0, n - 1);
        fits_at(filename, head.as_str(), 0)
    } else {
        len == n && fits_at(filename, pattern, 0)
    }
}

/// Index of the first pattern that matches `name`, or `usize::MAX` when none does.
pub open spec fn pattern_priority_spec(name: Seq<char>, patterns: Seq<Seq<char>>) -> int
    decreases patterns.len(),
{
    if patterns.len() == 0 {
        usize::MAX as int
    } else if pattern_matches_spec(name, patterns[0]) {
        0
    } else {
        let rest = pattern_priority_spec(name, patterns.drop_first());
        if rest == usize::MAX as int { rest } else { rest + 1 }
    }
}

proof fn lemma_pattern_priority(name: Seq<char>, patterns: Seq<Seq<char>>)
    ensures
        pattern_priority_spec(name, patterns) == usize::MAX as int || (0 <= pattern_priority_spec(
            name,
            patterns,
        ) < patterns.len()),
        patterns.len() < usize::MAX ==> (pattern_priority_spec(name, patterns) == usize::MAX as int
            <==> forall|j: int| 0 <= j < patterns.len() ==> !pattern_matches_spec(name, #[trigger] patterns[j])),
        patterns.len() < usize::MAX && pattern_priority_spec(name, patterns) != usize::MAX as int
            ==> pattern_matches_spec(name, patterns[pattern_priority_spec(name, patterns)])
            && forall|j: int| 0 <= j < pattern_priority_spec(name, patterns) ==> !pattern_matches_spec(name, #[trigger] patterns[j]),
    decreases patterns.len(),
{
    if patterns.len() > 0 {
        lemma_pattern_priority(name, patterns.drop_first());
        assert forall|j: int| 0 < j < patterns.len() implies #[trigger] patterns[j] == patterns.drop_first()[j - 1] by {}
        if !pattern_matches_spec(name, patterns[0]) && pattern_priority_spec(name, patterns.drop_first()) != usize::MAX as int {
            let r = pattern_priority_spec(name, patterns.drop_first());
            assert(patterns[r + 1] == patterns.drop_first()[r]);
        }
        if patterns.len() < usize::MAX && pattern_priority_spec(name, patterns) == usize::MAX as int {
            assert forall|j: int| 0 <= j < patterns.len() implies !pattern_matches_spec(name, #[trigger] patterns[j]) by {
                if j > 0 {
                    assert(patterns[j] == patterns.drop_first()[j - 1]);
                }
            }
        }
    }
}

/// Position of the first pattern that matches the file name of `path`, or
/// `usize::MAX` when none matches.
pub fn pattern_priority(path: &ConfigFile, patterns: &Vec<String>) -> (r: usize)
    ensures
        r as int == pattern_priority_spec(file_name(path.path@), patterns.deep_view()),
{
    let name = path.file_name();
    let ghost pv = patterns.deep_view();
    proof {
        lemma_pattern_priority(name@, pv);
    }
    let mut i: usize = 0;
    assert(pv.subrange(0, pv.len() as int) =~= pv);
    while i < patterns.len()
        invariant
            i <= patterns@.len(),
            pv == patterns.deep_view(),
            pv.len() == patterns@.len(),
            name@ == file_name(path.path@),
            pattern_priority_spec(name@, pv) == if pattern_priority_spec(name@, pv.subrange(i as int, pv.len() as int)) == usize::MAX as int {
                usize::MAX as int
            } else {
                pattern_priority_spec(name@, pv.subrange(i as int, pv.len() as int)) + i
            },
        decreases patterns@.len() - i,
    {
        let ghost rest = pv.subrange(i as int, pv.len() as int);
        assert(rest[0] == patterns@[i as int]@);
        assert(rest.drop_first() =~= pv.subrange(i + 1, pv.len() as int));
        proof {
            lemma_pattern_priority(name@, rest.drop_first());
        }
        if pattern_matches(name.as_str(), patterns[i].as_str()) {
            return i;
        }
        i = i + 1;
    }
    assert(pv.subrange(i as int, pv.len() as int).len() == 0);
    usize::MAX
}


// ---------------------------------------------------------------------------
// Merge order
// ---------------------------------------------------------------------------

/// The size a file is ordered by: its size, or 0 when it cannot be read.
pub open spec fn size_key(f: ConfigFile) -> u64 {
    match f.size {
        Some(n) => n,
        None => 0,
    }
}

/// The time a file is ordered by: its modification time, or the Unix epoch
/// (0) when it cannot be read.
pub open spec fn time_key(f: ConfigFile) -> i128 {
    match f.modified {
        Some(t) => t,
        None => 0,
    }
}

/// Among files of equal size or time, whether `a` comes before `b`: files
/// whose size or time counts as 0, where every file whose metadata cannot be
/// read stands, go in alphabetical order of their names; other equal files
/// keep their order.
pub open spec fn zero_tie_before(at_zero: bool, a: ConfigFile, b: ConfigFile) -> bool {
    at_zero && lex_less(file_name(a.path@), file_name(b.path@))
}

/// The size `size_key` gives.
fn size_of_file(f: &ConfigFile) -> (r: u64)
    ensures
        r == size_key(*f),
{
    match f.size {
        Some(n) => n,
        None => 0,
    }
}

/// The time `time_key` gives.
fn time_of_file(f: &ConfigFile) -> (r: i128)
    ensures
        r == time_key(*f),
{
    match f.modified {
        Some(t) => t,
        None => 0,
    }
}

/// Whether `zero_tie_before` holds.
fn ties_at_zero(at_zero: bool, a: &ConfigFile, b: &ConfigFile) -> (r: bool)
    ensures
        r == zero_tie_before(at_zero, *a, *b),
{
    at_zero && str_less(a.file_name().as_str(), b.file_name().as_str())
}


impl MergeOrder {
    /// Whether file `a` comes strictly before file `b` in this merge order.
    pub open spec fn ranks_before(self, a: ConfigFile, b: ConfigFile) -> bool {
        match self {
            MergeOrder::Alphabetical => lex_less(file_name(a.path@), file_name(b.path@)),
            MergeOrder::Reverse => lex_less(file_name(b.path@), file_name(a.path@)),
            MergeOrder::SizeAscending => {
                let (ma, mb) = (size_key(a), size_key(b));
                ma < mb || (ma == mb && zero_tie_before(ma == 0, a, b))
            },
            MergeOrder::SizeDescending => {
                let (ma, mb) = (size_key(a), size_key(b));
                mb < ma || (ma == mb && zero_tie_before(ma == 0, a, b))
            },
            MergeOrder::ModificationTimeAscending => {
                let (ma, mb) = (time_key(a), time_key(b));
                ma < mb || (ma == mb && zero_tie_before(ma == 0, a, b))
            },
            MergeOrder::ModificationTimeDescending => {
                let (ma, mb) = (time_key(a), time_key(b));
                mb < ma || (ma == mb && zero_tie_before(ma == 0, a, b))
            },
            MergeOrder::Custom(patterns) => {
                let pa = pattern_priority_spec(file_name(a.path@), patterns.deep_view());
                let pb = pattern_priority_spec(file_name(b.path@), patterns.deep_view());
                pa < pb || (pa == pb && lex_less(file_name(a.path@), file_name(b.path@)))
            },
        }
    }

    /// Whether file `a` comes strictly before file `b` in this merge order.
    pub fn precedes(&self, a: &ConfigFile, b: &ConfigFile) -> (r: bool)
        ensures
            r == self.ranks_before(*a, *b),
    {
        match self {
            MergeOrder::Alphabetical => str_less(a.file_name().as_str(), b.file_name().as_str()),
            MergeOrder::Reverse => str_less(b.file_name().as_str(), a.file_name().as_str()),
            MergeOrder::SizeAscending => {
                let (ma, mb) = (size_of_file(a), size_of_file(b));
                ma < mb || (ma == mb && ties_at_zero(ma == 0, a, b))
            },
            MergeOrder::SizeDescending => {
                let (ma, mb) = (size_of_file(a), size_of_file(b));
                mb < ma || (ma == mb && ties_at_zero(ma == 0, a, b))
            },
            MergeOrder::ModificationTimeAscending => {
                let (ma, mb) = (time_of_file(a), time_of_file(b));
                ma < mb || (ma == mb && ties_at_zero(ma == 0, a, b))
            },
            MergeOrder::ModificationTimeDescending => {
                let (ma, mb) = (time_of_file(a), time_of_file(b));
                mb < ma || (ma == mb && ties_at_zero(ma == 0, a, b))
            },
            MergeOrder::Custom(patterns) => {
                let pa = pattern_priority(a, patterns);
                let pb = pattern_priority(b, patterns);
                pa < pb || (pa == pb && str_less(a.file_name().as_str(), b.file_name().as_str()))
            },
        }
    }
}

/// `s` with `x` inserted after every file that `x` does not come before.
///
/// When `s` is sorted, this places `x` after the files that rank equal to it,
/// which keeps equal files in the order in which they arrive.
pub open spec fn insert_by_rank(order: MergeOrder, s: Seq<ConfigFile>, x: ConfigFile) -> Seq<ConfigFile>
    decreases s.len(),
{
    if s.len() == 0 {
        seq![x]
    } else if order.ranks_before(x, s.last()) {
        insert_by_rank(order, s.drop_last(), x).push(s.last())
    } else {
        s.push(x)
    }
}

/// The stable sort of `s` by `order`: files are taken in turn and each is
/// inserted after every earlier file that it does not come before.
pub open spec fn sorted_by_rank(order: MergeOrder, s: Seq<ConfigFile>) -> Seq<ConfigFile>
    decreases s.len(),
{
    if s.len() == 0 {
        s
    } else {
        insert_by_rank(order, sorted_by_rank(order, s.drop_last()), s.last())
    }
}

/// No file of `s` comes before a file that precedes it in `s`.
pub open spec fn is_ranked(order: MergeOrder, s: Seq<ConfigFile>) -> bool {
    forall|i: int, j: int| 0 <= i < j < s.len() ==> !order.ranks_before(#[trigger] s[j], #[trigger] s[i])
}

/// Inserting at position `k` agrees with `insert_by_rank` when `x` comes before
/// every file from `k` on and not before the file just ahead of `k`.
proof fn lemma_insert_at(order: MergeOrder, s: Seq<ConfigFile>, x: ConfigFile, k: int)
    requires
        0 <= k <= s.len(),
        forall|j: int| k <= j < s.len() ==> order.ranks_before(x, #[trigger] s[j]),
        k == 0 || !order.ranks_before(x, s[k - 1]),
    ensures
        insert_by_rank(order, s, x) == s.insert(k, x),
    decreases s.len(),
{
    if s.len() == 0 {
        assert(s.insert(k, x) =~= seq![x]);
    } else if k == s.len() {
        assert(s.insert(k, x) =~= s.push(x));
    } else {
        assert(order.ranks_before(x, s[s.len() - 1]));
        lemma_insert_at(order, s.drop_last(), x, k);
        assert(s.drop_last().insert(k, x).push(s.last()) =~= s.insert(k, x));
    }
}

impl MergeOrder {
    /// Sorts files into merge order, lowest priority first.
    ///
    /// The sort is stable: files that rank equally keep the order in which
    /// they were given.
    pub fn sort_files(&self, files: Vec<ConfigFile>) -> (r: Vec<ConfigFile>)
        ensures
            r@ == sorted_by_rank(*self, files@),
    {
        let mut out: Vec<ConfigFile> = Vec::new();
        let mut rest = files;
        let ghost all = rest@;
        let n = rest.len();
        let mut i: usize = 0;
        while i < n
            invariant
                n == all.len(),
                i <= n,
                rest@ == all.subrange(i as int, n as int),
                out@ == sorted_by_rank(*self, all.subrange(0, i as int)),
            decreases n - i,
        {
            let x = rest.remove(0);
            assert(x == all[i as int]);
            assert(rest@ =~= all.subrange(i + 1, n as int));
            let mut k: usize = out.len();
            while k > 0 && self.precedes(&x, &out[k - 1])
                invariant
                    k <= out@.len(),
                    forall|j: int| k <= j < out@.len() ==> self.ranks_before(x, #[trigger] out@[j]),
                decreases k,
            {
                k = k - 1;
            }
            proof {
                lemma_insert_at(*self, out@, x, k as int);
                assert(all.subrange(0, i + 1).drop_last() =~= all.subrange(0, i as int));
            }
            out.insert(k, x);
            i = i + 1;
        }
        assert(all.subrange(0, n as int) =~= all);
        out
    }
}


/// Lexicographic order on names as a strict weak order, in the three forms
/// that sorting needs.
proof fn lemma_lex_weak(a: Seq<char>, b: Seq<char>, c: Seq<char>)
    ensures
        !lex_less(a, a),
        lex_less(a, b) ==> !lex_less(b, a),
        !lex_less(a, b) && !lex_less(b, c) ==> !lex_less(a, c),
        lex_less(a, b) && lex_less(b, c) ==> lex_less(a, c),
        !lex_less(a, b) && !lex_less(b, a) ==> a == b,
{
    lemma_lex_less_order(a, b, c);
    lemma_lex_less_order(b, a, c);
    lemma_lex_less_order(c, b, a);
    lemma_lex_less_order(b, c, a);
    lemma_lex_less_order(a, c, b);
    lemma_lex_less_order(c, a, b);
}

/// Every merge order ranks files by a strict weak order: no file comes before
/// itself, precedence is one-way, and "does not come before" is transitive.
pub proof fn lemma_rank_order(order: MergeOrder, a: ConfigFile, b: ConfigFile, c: ConfigFile)
    ensures
        !order.ranks_before(a, a),
        order.ranks_before(a, b) ==> !order.ranks_before(b, a),
        !order.ranks_before(a, b) && !order.ranks_before(b, c) ==> !order.ranks_before(a, c),
{
    let na = file_name(a.path@);
    let nb = file_name(b.path@);
    let nc = file_name(c.path@);
    lemma_lex_weak(na, nb, nc);
    lemma_lex_weak(nc, nb, na);
    lemma_lex_weak(nb, na, nc);
}

proof fn lemma_insert_by_rank(order: MergeOrder, s: Seq<ConfigFile>, x: ConfigFile)
    requires
        is_ranked(order, s),
    ensures
        is_ranked(order, insert_by_rank(order, s, x)),
        insert_by_rank(order, s, x).to_multiset() =~= s.to_multiset().insert(x),
    decreases s.len(),
{
    broadcast use vstd::seq_lib::group_to_multiset_ensures;
    if s.len() == 0 {
        assert(seq![x] =~= Seq::<ConfigFile>::empty().push(x));
    } else if order.ranks_before(x, s.last()) {
        let t = s.drop_last();
        let last = s.last();
        assert(s =~= t.push(last));
        lemma_insert_by_rank(order, t, x);
        let r = insert_by_rank(order, t, x);
        assert forall|i: int| 0 <= i < r.len() implies !order.ranks_before(last, #[trigger] r[i]) by {
            assert(r.to_multiset().count(r[i]) > 0);
            if r[i] == x {
                lemma_rank_order(order, x, last, last);
            } else {
                assert(t.to_multiset().count(r[i]) > 0);
                assert(t.contains(r[i]));
                let j = choose|j: int| 0 <= j < t.len() && t[j] == r[i];
                assert(s[j] == t[j]);
                assert(s[s.len() - 1] == last);
            }
        }
        let rr = r.push(last);
        assert forall|i: int, j: int| 0 <= i < j < rr.len() implies !order.ranks_before(#[trigger] rr[j], #[trigger] rr[i]) by {
            if j < r.len() {
                assert(rr[j] == r[j] && rr[i] == r[i]);
            } else {
                assert(rr[j] == last && rr[i] == r[i]);
            }
        }
    } else {
        let last = s.last();
        let rr = s.push(x);
        assert forall|i: int, j: int| 0 <= i < j < rr.len() implies !order.ranks_before(#[trigger] rr[j], #[trigger] rr[i]) by {
            if j < s.len() {
                assert(rr[j] == s[j] && rr[i] == s[i]);
            } else {
                assert(rr[i] == s[i]);
                if i < s.len() - 1 {
                    assert(!order.ranks_before(s[s.len() - 1], s[i]));
                    lemma_rank_order(order, x, last, s[i]);
                }
            }
        }
    }
}

proof fn lemma_sorted_by_rank(order: MergeOrder, s: Seq<ConfigFile>)
    ensures
        is_ranked(order, sorted_by_rank(order, s)),
        sorted_by_rank(order, s).to_multiset() =~= s.to_multiset(),
    decreases s.len(),
{
    broadcast use vstd::seq_lib::group_to_multiset_ensures;
    if s.len() > 0 {
        lemma_sorted_by_rank(order, s.drop_last());
        lemma_insert_by_rank(order, sorted_by_rank(order, s.drop_last()), s.last());
        assert(s =~= s.drop_last().push(s.last()));
    }
}

/// Sorting files by a merge order puts them in that order: no file comes
/// before a file ahead of it.
pub proof fn law_sorted_files_are_ranked(order: MergeOrder, files: Seq<ConfigFile>)
    ensures
        is_ranked(order, sorted_by_rank(order, files)),
{
    lemma_sorted_by_rank(order, files);
}

/// Sorting files by a merge order neither loses, adds nor duplicates a file.
pub proof fn law_sorted_files_are_a_permutation(order: MergeOrder, files: Seq<ConfigFile>)
    ensures
        sorted_by_rank(order, files).to_multiset() == files.to_multiset(),
        sorted_by_rank(order, files).len() == files.len(),
{
    broadcast use vstd::seq_lib::group_to_multiset_ensures;
    lemma_sorted_by_rank(order, files);
    let r = sorted_by_rank(order, files);
    assert(r.len() == r.to_multiset().len());
    assert(files.len() == files.to_multiset().len());
}


/// Neither file comes before the other: they rank equally.
pub open spec fn same_rank(order: MergeOrder, a: ConfigFile, b: ConfigFile) -> bool {
    !order.ranks_before(a, b) && !order.ranks_before(b, a)
}

/// The files of `s` that rank equally with `f`, in their order in `s`.
pub open spec fn rank_class(order: MergeOrder, s: Seq<ConfigFile>, f: ConfigFile) -> Seq<ConfigFile>
    decreases s.len(),
{
    if s.len() == 0 {
        s
    } else {
        let r = rank_class(order, s.drop_last(), f);
        if same_rank(order, s.last(), f) { r.push(s.last()) } else { r }
    }
}

proof fn lemma_insert_keeps_class(order: MergeOrder, s: Seq<ConfigFile>, x: ConfigFile, f: ConfigFile)
    ensures
        rank_class(order, insert_by_rank(order, s, x), f) == if same_rank(order, x, f) {
            rank_class(order, s, f).push(x)
        } else {
            rank_class(order, s, f)
        },
    decreases s.len(),
{
    if s.len() == 0 {
        assert(seq![x].drop_last() =~= Seq::<ConfigFile>::empty());
        assert(rank_class(order, seq![x].drop_last(), f) =~= Seq::<ConfigFile>::empty());
        assert(seq![x].last() == x);
        assert(Seq::<ConfigFile>::empty().push(x) =~= seq![x]);
    } else if order.ranks_before(x, s.last()) {
        let t = s.drop_last();
        let last = s.last();
        lemma_insert_keeps_class(order, t, x, f);
        let r = insert_by_rank(order, t, x);
        assert(r.push(last).drop_last() =~= r);
        assert(r.push(last).last() == last);
        assert(insert_by_rank(order, s, x) == r.push(last));
        if same_rank(order, x, f) {
            lemma_rank_order(order, x, f, last);
            lemma_rank_order(order, last, f, x);
            assert(!same_rank(order, last, f));
        }
    } else {
        assert(s.push(x).drop_last() =~= s);
        assert(s.push(x).last() == x);
    }
}

/// Sorting is stable: the files that rank equally with any file `f` come out
/// in the order in which they were given.
pub proof fn law_sort_is_stable(order: MergeOrder, files: Seq<ConfigFile>, f: ConfigFile)
    ensures
        rank_class(order, sorted_by_rank(order, files), f) == rank_class(order, files, f),
    decreases files.len(),
{
    if files.len() > 0 {
        law_sort_is_stable(order, files.drop_last(), f);
        lemma_insert_keeps_class(order, sorted_by_rank(order, files.drop_last()), files.last(), f);
    }
}

/// Whether `a` may come before `b` in a merge order, stated by the keys
/// themselves: names A to Z (alphabetical) or Z to A (reverse); sizes or
/// times ascending or descending, where a size or time that cannot be read
/// counts as 0 and files at 0 go A to Z by name; pattern priority ascending,
/// equal priorities A to Z by name.
pub open spec fn keys_in_order(order: MergeOrder, a: ConfigFile, b: ConfigFile) -> bool {
    let na = file_name(a.path@);
    let nb = file_name(b.path@);
    match order {
        MergeOrder::Alphabetical => !lex_less(nb, na),
        MergeOrder::Reverse => !lex_less(na, nb),
        MergeOrder::SizeAscending => size_key(a) <= size_key(b)
            && (size_key(a) == size_key(b) && size_key(a) == 0 ==> !lex_less(nb, na)),
        MergeOrder::SizeDescending => size_key(a) >= size_key(b)
            && (size_key(a) == size_key(b) && size_key(a) == 0 ==> !lex_less(nb, na)),
        MergeOrder::ModificationTimeAscending => time_key(a) <= time_key(b)
            && (time_key(a) == time_key(b) && time_key(a) == 0 ==> !lex_less(nb, na)),
        MergeOrder::ModificationTimeDescending => time_key(a) >= time_key(b)
            && (time_key(a) == time_key(b) && time_key(a) == 0 ==> !lex_less(nb, na)),
        MergeOrder::Custom(ps) => {
            let pa = pattern_priority_spec(na, ps.deep_view());
            let pb = pattern_priority_spec(nb, ps.deep_view());
            pa <= pb && (pa == pb ==> !lex_less(nb, na))
        },
    }
}

/// The sorted files are in key order: every file comes no later, by its
/// name, size, time or pattern priority, than each file after it (see
/// `keys_in_order`). For a custom order in particular, of two files with
/// the same priority the one whose name comes first A to Z is merged first,
/// so the other one wins.
pub proof fn law_sorted_files_in_key_order(order: MergeOrder, files: Seq<ConfigFile>)
    ensures
        forall|i: int, j: int| 0 <= i < j < sorted_by_rank(order, files).len()
            ==> keys_in_order(order, #[trigger] sorted_by_rank(order, files)[i], #[trigger] sorted_by_rank(order, files)[j]),
        order matches MergeOrder::Custom(ps) ==> forall|i: int, j: int|
            0 <= i < sorted_by_rank(order, files).len() && 0 <= j < sorted_by_rank(order, files).len()
            && pattern_priority_spec(file_name(sorted_by_rank(order, files)[i].path@), ps.deep_view())
                == pattern_priority_spec(file_name(sorted_by_rank(order, files)[j].path@), ps.deep_view())
            && lex_less(file_name(#[trigger] sorted_by_rank(order, files)[i].path@), file_name(#[trigger] sorted_by_rank(order, files)[j].path@))
            ==> i < j,
{
    law_sorted_files_are_ranked(order, files);
    let r = sorted_by_rank(order, files);
    assert forall|i: int, j: int| 0 <= i < j < r.len() implies keys_in_order(order, #[trigger] r[i], #[trigger] r[j]) by {
        assert(!order.ranks_before(r[j], r[i]));
    }
    if order is Custom {
        assert forall|i: int, j: int|
            0 <= i < r.len() && 0 <= j < r.len()
            && pattern_priority_spec(file_name(r[i].path@), order->0.deep_view())
                == pattern_priority_spec(file_name(r[j].path@), order->0.deep_view())
            && lex_less(file_name(#[trigger] r[i].path@), file_name(#[trigger] r[j].path@))
            implies i < j by {
            let ni = file_name(r[i].path@);
            let nj = file_name(r[j].path@);
            lemma_lex_less_order(ni, nj, ni);
            if j < i {
                assert(!order.ranks_before(r[i], r[j]));
            }
        }
    }
}

} // verus!
