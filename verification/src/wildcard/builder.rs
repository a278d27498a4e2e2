//! A builder for wildcard providers.

use vstd::prelude::*;
use crate::text::copy_strings;
use crate::wildcard::parsing::{SearchPlan, SearchStrategy, PatternError, multi_plan, first_invalid, pattern_fault};
use crate::wildcard::provider::{
    Wildcard, built_from, first_refused, glob_accepts, compile_glob, glob_error_text, lemma_first_refused,
};
use crate::wildcard::sorting::MergeOrder;

verus! {

/// Collects patterns, a search strategy and a merge order, then builds a
/// `Wildcard` provider.
#[derive(Debug)]
pub struct WildcardBuilder {
    patterns: Vec<String>,
    search_strategy: Option<SearchStrategy>,
    merge_order: Option<MergeOrder>,
}

impl Default for WildcardBuilder {
    /// A builder with no pattern and no choices.
    fn default() -> (r: Self)
        ensures
            r.pending() == Seq::<Seq<char>>::empty(),
            r.strategy_choice() is None,
            r.order_choice() is None,
    {
        WildcardBuilder { patterns: Vec::new(), search_strategy: None, merge_order: None }
    }
}

impl WildcardBuilder {
    /// The patterns added so far.
    pub closed spec fn pending(&self) -> Seq<Seq<char>> {
        self.patterns.deep_view()
    }

    /// The search strategy chosen, if any.
    pub closed spec fn strategy_choice(&self) -> Option<SearchPlan> {
        match self.search_strategy {
            Some(s) => Some(s@),
            None => None,
        }
    }

    /// The merge order chosen, if any.
    pub closed spec fn order_choice(&self) -> Option<MergeOrder> {
        self.merge_order
    }

    /// A builder with no pattern and no choices.
    pub fn new() -> (r: Self)
        ensures
            r.pending() == Seq::<Seq<char>>::empty(),
            r.strategy_choice() is None,
            r.order_choice() is None,
    {
        WildcardBuilder { patterns: Vec::new(), search_strategy: None, merge_order: None }
    }

    /// Adds a pattern after checking its glob syntax.
    pub fn pattern(self, pattern: &str) -> (r: Result<Self, PatternError>)
        ensures
            r is Ok <==> glob_accepts(pattern@),
            r matches Ok(b) ==> b.pending() == self.pending().push(pattern@)
                && b.strategy_choice() == self.strategy_choice() && b.order_choice() == self.order_choice(),
            r matches Err(e) ==> (e matches PatternError::InvalidPattern { pattern: p, .. } && p@ == pattern@),
    {
        match compile_glob(pattern) {
            Err(e) => Err(PatternError::InvalidPattern { pattern: pattern.to_owned(), reason: glob_error_text(&e) }),
            Ok(_) => {
                let mut b = self;
                let ghost before = b.patterns.deep_view();
                b.patterns.push(pattern.to_owned());
                assert(b.patterns.deep_view() =~= before.push(pattern@));
                Ok(b)
            },
        }
    }

    /// Adds several patterns after checking the glob syntax of all of them;
    /// the first invalid one is reported and none is added.
    pub fn patterns(self, patterns: &Vec<String>) -> (r: Result<Self, PatternError>)
        ensures
            r is Ok <==> first_refused(patterns.deep_view()) == patterns@.len(),
            r matches Ok(b) ==> b.pending() == self.pending() + patterns.deep_view()
                && b.strategy_choice() == self.strategy_choice() && b.order_choice() == self.order_choice(),
            r matches Err(e) ==> (e matches PatternError::InvalidPattern { pattern: p, .. }
                && p@ == patterns.deep_view()[first_refused(patterns.deep_view()) as int]),
    {
        let ghost pv = patterns.deep_view();
        proof {
            lemma_first_refused(pv);
        }
        let mut i: usize = 0;
        while i < patterns.len()
            invariant
                pv == patterns.deep_view(),
                i <= pv.len(),
                forall|j: int| 0 <= j < i ==> glob_accepts(#[trigger] pv[j]),
                first_refused(pv) <= pv.len(),
                first_refused(pv) < pv.len() ==> !glob_accepts(pv[first_refused(pv) as int]),
                forall|j: int| 0 <= j < first_refused(pv) ==> glob_accepts(#[trigger] pv[j]),
            decreases pv.len() - i,
        {
            assert(pv[i as int] == patterns@[i as int]@);
            match compile_glob(patterns[i].as_str()) {
                Err(e) => {
                    proof {
                        if first_refused(pv) < i {
                            assert(glob_accepts(pv[first_refused(pv) as int]));
                        }
                        if first_refused(pv) > i {
                            assert(glob_accepts(pv[i as int]));
                        }
                    }
                    return Err(
                        PatternError::InvalidPattern {
                            pattern: patterns[i].as_str().to_owned(),
                            reason: glob_error_text(&e),
                        },
                    );
                },
                Ok(_) => {},
            }
            i = i + 1;
        }
        proof {
            if first_refused(pv) < pv.len() {
                assert(glob_accepts(pv[first_refused(pv) as int]));
            }
        }
        let mut b = self;
        let ghost before = b.patterns.deep_view();
        let mut added = copy_strings(patterns);
        b.patterns.append(&mut added);
        assert(b.patterns.deep_view() =~= before + pv);
        Ok(b)
    }

    /// Chooses the search strategy.
    pub fn search_strategy(self, strategy: SearchStrategy) -> (r: Self)
        ensures
            r.strategy_choice() == Some(strategy@),
            r.pending() == self.pending(),
            r.order_choice() == self.order_choice(),
    {
        let mut b = self;
        b.search_strategy = Some(strategy);
        b
    }

    /// Chooses the merge order.
    pub fn merge_order(self, order: MergeOrder) -> (r: Self)
        ensures
            r.order_choice() == Some(order),
            r.pending() == self.pending(),
            r.strategy_choice() == self.strategy_choice(),
    {
        let mut b = self;
        b.merge_order = Some(order);
        b
    }

    /// Builds the provider: the patterns are parsed and compiled (see
    /// `Wildcard::from_patterns`), then the chosen strategy and order replace
    /// the parsed strategy and the alphabetical order.
    pub fn build(self) -> (r: Result<Wildcard, PatternError>)
        ensures
            self.pending().len() == 0 ==> (r matches Err(e) && e is NoPatterns),
            self.pending().len() > 0 && multi_plan(self.pending()) is None ==> (r matches Err(e)
                && first_invalid(self.pending()) < self.pending().len()
                && pattern_fault(e, self.pending()[first_invalid(self.pending()) as int])),
            multi_plan(self.pending()) matches Some((plan, files)) ==> (if first_refused(files) < files.len() {
                r matches Err(PatternError::InvalidPattern { pattern, .. }) && pattern@ == files[first_refused(files) as int]
            } else {
                r is Ok || (r matches Err(e) && e is GlobSet)
            }),
            r matches Ok(w) ==> {
                &&& w.pattern_list() == self.pending()
                &&& w.error() is None
                &&& multi_plan(self.pending()) is Some
                &&& w.plan() == match self.strategy_choice() {
                    Some(p) => p,
                    None => multi_plan(self.pending()).unwrap().0,
                }
                &&& w.order() == match self.order_choice() {
                    Some(o) => o,
                    None => MergeOrder::Alphabetical,
                }
            },
    {
        if self.patterns.len() == 0 {
            return Err(PatternError::NoPatterns);
        }
        let w = Wildcard::from_patterns(&self.patterns);
        if !w.is_valid() {
            let e = w.into_error();
            return match e {
                Some(e) => Err(e),
                None => Err(PatternError::NoPatterns),
            };
        }
        let w = match self.search_strategy {
            Some(s) => w.with_search_strategy(s),
            None => w,
        };
        let w = match self.merge_order {
            Some(o) => w.with_merge_order(o),
            None => w,
        };
        Ok(w)
    }

    /// Searches the current directory only.
    pub fn current_directory(self) -> (r: Self)
        ensures
            r.strategy_choice() == Some(SearchPlan::Current),
            r.pending() == self.pending(),
            r.order_choice() == self.order_choice(),
    {
        self.search_strategy(SearchStrategy::Current)
    }

    /// Searches the given directories (not their subdirectories).
    pub fn directories(self, directories: &Vec<String>) -> (r: Self)
        ensures
            r.strategy_choice() == Some(SearchPlan::Directories(directories.deep_view())),
            r.pending() == self.pending(),
            r.order_choice() == self.order_choice(),
    {
        self.search_strategy(SearchStrategy::Directories(copy_strings(directories)))
    }

    /// Searches the given roots recursively, to an optional depth.
    pub fn recursive(self, roots: &Vec<String>, max_depth: Option<usize>) -> (r: Self)
        ensures
            r.strategy_choice() == Some(SearchPlan::Recursive(roots.deep_view(), max_depth)),
            r.pending() == self.pending(),
            r.order_choice() == self.order_choice(),
    {
        self.search_strategy(SearchStrategy::Recursive { roots: copy_strings(roots), max_depth })
    }

    /// Merges files in alphabetical order of their names.
    pub fn alphabetical(self) -> (r: Self)
        ensures
            r.order_choice() == Some(MergeOrder::Alphabetical),
            r.pending() == self.pending(),
            r.strategy_choice() == self.strategy_choice(),
    {
        self.merge_order(MergeOrder::Alphabetical)
    }

    /// Merges files in reverse alphabetical order of their names.
    pub fn reverse_alphabetical(self) -> (r: Self)
        ensures
            r.order_choice() == Some(MergeOrder::Reverse),
            r.pending() == self.pending(),
            r.strategy_choice() == self.strategy_choice(),
    {
        self.merge_order(MergeOrder::Reverse)
    }

    /// Merges files by modification time, oldest first unless `newest_first`.
    pub fn by_modification_time(self, newest_first: bool) -> (r: Self)
        ensures
            r.order_choice() == Some(
                if newest_first {
                    MergeOrder::ModificationTimeDescending
                } else {
                    MergeOrder::ModificationTimeAscending
                },
            ),
            r.pending() == self.pending(),
            r.strategy_choice() == self.strategy_choice(),
    {
        let order = if newest_first {
            MergeOrder::ModificationTimeDescending
        } else {
            MergeOrder::ModificationTimeAscending
        };
        self.merge_order(order)
    }

    /// Merges files by size, smallest first unless `largest_first`.
    pub fn by_file_size(self, largest_first: bool) -> (r: Self)
        ensures
            r.order_choice() == Some(
                if largest_first {
                    MergeOrder::SizeDescending
                } else {
                    MergeOrder::SizeAscending
                },
            ),
            r.pending() == self.pending(),
            r.strategy_choice() == self.strategy_choice(),
    {
        let order = if largest_first {
            MergeOrder::SizeDescending
        } else {
            MergeOrder::SizeAscending
        };
        self.merge_order(order)
    }

    /// Merges files by the first of the priority patterns that their names
    /// match.
    pub fn custom_priority(self, priority_patterns: &Vec<String>) -> (r: Self)
        ensures
            r.order_choice() matches Some(MergeOrder::Custom(p)) && p.deep_view() == priority_patterns.deep_view(),
            r.pending() == self.pending(),
            r.strategy_choice() == self.strategy_choice(),
    {
        self.merge_order(MergeOrder::Custom(copy_strings(priority_patterns)))
    }
}

} // verus!
