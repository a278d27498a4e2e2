//! Handle identifiers: a counter hands out identifiers 1, 2, 3, ... until it
//! is reset. Zero is never handed out and marks an invalid handle.

use vstd::prelude::*;

verus! {

/// Unique identifier for configuration data.
pub type HandleID = u64;

/// The source of handle identifiers. The counter holds how many identifiers
/// it has handed out since it was made or last reset.
#[derive(Debug)]
pub struct HandleCounter {
    issued: u64,
}

impl HandleCounter {
    /// How many identifiers the counter has handed out.
    pub closed spec fn count(&self) -> u64 {
        self.issued
    }

    /// How many identifiers the counter has handed out.
    pub fn issued(&self) -> (r: u64)
        ensures
            r == self.count(),
    {
        self.issued
    }

    /// A counter that has handed out nothing.
    pub fn new() -> (r: HandleCounter)
        ensures
            r.count() == 0,
    {
        HandleCounter { issued: 0 }
    }
}

/// Handing out `id` takes the counter from `before` to `after`.
pub open spec fn hands_out(before: HandleCounter, after: HandleCounter, id: HandleID) -> bool {
    id == before.count() + 1 && after.count() == id
}

/// Hands out the next identifier: one more than the number handed out before.
pub fn generate_handle_id(counter: &mut HandleCounter) -> (r: HandleID)
    requires
        old(counter).count() < u64::MAX,
    ensures
        hands_out(*old(counter), *final(counter), r),
{
    counter.issued = counter.issued + 1;
    counter.issued
}

/// Starts the counter over, so that the next identifier is 1.
pub fn reset_handle_counter(counter: &mut HandleCounter)
    ensures
        final(counter).count() == 0,
{
    counter.issued = 0;
}

/// The identifier that the counter will hand out next.
pub fn get_current_handle_count(counter: &HandleCounter) -> (r: HandleID)
    requires
        counter.count() < u64::MAX,
    ensures
        r == counter.count() + 1,
{
    counter.issued + 1
}

/// Whether `handle_id` can name data: every identifier but zero.
pub fn is_valid_handle_id(handle_id: HandleID) -> (r: bool)
    ensures
        r == (handle_id != 0),
{
    handle_id != 0
}

/// Identifiers handed out one after another by the same counter are
/// distinct and increasing, and every one is valid.
pub proof fn law_handle_ids_increase(
    c0: HandleCounter,
    c1: HandleCounter,
    c2: HandleCounter,
    first: HandleID,
    second: HandleID,
)
    requires
        hands_out(c0, c1, first),
        hands_out(c1, c2, second),
    ensures
        first < second,
        first != 0,
        second != 0,
{
}

/// After a reset the counter hands out 1 again.
pub proof fn law_reset_restarts_at_one(c0: HandleCounter, c1: HandleCounter, id: HandleID)
    requires
        c0.count() == 0,
        hands_out(c0, c1, id),
    ensures
        id == 1,
{
}

/// Any run of hand-outs without a reset gives distinct, valid identifiers:
/// the `i`-th of them is the count before the run plus `i + 1`. Calls made
/// from several threads through one lock form such a run, whatever their
/// interleaving.
pub proof fn law_handle_ids_distinct(cs: Seq<HandleCounter>, ids: Seq<HandleID>)
    requires
        cs.len() == ids.len() + 1,
        forall|i: int| 0 <= i < ids.len() ==> hands_out(cs[i], cs[i + 1], #[trigger] ids[i]),
    ensures
        forall|i: int| 0 <= i < ids.len() ==> #[trigger] ids[i] == cs[0].count() + i + 1 && ids[i] != 0,
        forall|i: int, j: int| 0 <= i < j < ids.len() ==> #[trigger] ids[i] != #[trigger] ids[j],
    decreases ids.len(),
{
    if ids.len() > 0 {
        let n = ids.len() - 1;
        law_handle_ids_distinct(cs.subrange(0, n + 1), ids.subrange(0, n));
        assert forall|i: int| 0 <= i < ids.len() implies #[trigger] ids[i] == cs[0].count() + i + 1 by {
            if i < n {
                assert(ids.subrange(0, n)[i] == ids[i]);
                assert(cs.subrange(0, n + 1)[0] == cs[0]);
            } else {
                assert(hands_out(cs[n], cs[n + 1], ids[n]));
                if n > 0 {
                    assert(hands_out(cs[n - 1], cs[n], ids[n - 1]));
                    assert(ids.subrange(0, n)[n - 1] == ids[n - 1]);
                    assert(cs.subrange(0, n + 1)[0] == cs[0]);
                }
            }
        }
    }
}

} // verus!
