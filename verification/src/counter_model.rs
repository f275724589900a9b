//! The counting law for the atomic counter.
//!
//! A run of the counter is modelled by its increment trace: the sequence of
//! thread identities, one entry per fetch-and-add, in the single global
//! order that sequential consistency gives the increments. The law proved
//! here is interleaving-independence: the trace's order contributes nothing
//! — only how many increments each thread performed — so when K threads
//! complete T increments each, a load after they all finished reads exactly
//! the start value plus K times T, and no update is lost.

use vstd::arithmetic::mul::lemma_mul_basics;
use vstd::arithmetic::mul::lemma_mul_is_distributive_sub_other_way;
use vstd::prelude::*;

verus! {

/// How many entries of the trace belong to thread `id`.
pub open spec fn count_of(trace: Seq<int>, id: int) -> nat
    decreases trace.len(),
{
    if trace.len() == 0 {
        0
    } else {
        count_of(trace.drop_last(), id) + (if trace.last() == id {
            1nat
        } else {
            0nat
        })
    }
}

/// The counter's value after the whole trace runs, one added per entry.
pub open spec fn value_after(initial: int, trace: Seq<int>) -> int
    decreases trace.len(),
{
    if trace.len() == 0 {
        initial
    } else {
        value_after(initial, trace.drop_last()) + 1
    }
}

/// The trace uses thread identities drawn from `[0, threads)`.
pub open spec fn trace_of_threads(trace: Seq<int>, threads: int) -> bool {
    forall|i: int| 0 <= i < trace.len() ==> 0 <= #[trigger] trace[i] < threads
}

/// The per-thread counts for identities below `bound`, added up.
pub open spec fn counts_below(trace: Seq<int>, bound: int) -> nat
    decreases bound,
{
    if bound <= 0 {
        0
    } else {
        count_of(trace, bound - 1) + counts_below(trace, bound - 1)
    }
}

proof fn lemma_counts_below_step(trace: Seq<int>, bound: int)
    requires
        trace.len() > 0,
    ensures
        0 <= trace.last() < bound ==> counts_below(trace, bound) == counts_below(
            trace.drop_last(),
            bound,
        ) + 1,
        !(0 <= trace.last() < bound) ==> counts_below(trace, bound) == counts_below(
            trace.drop_last(),
            bound,
        ),
    decreases bound,
{
    if bound > 0 {
        lemma_counts_below_step(trace, bound - 1);
    }
}

proof fn lemma_counts_below_of_empty(trace: Seq<int>, bound: int)
    requires
        trace.len() == 0,
    ensures
        counts_below(trace, bound) == 0,
    decreases bound,
{
    if bound > 0 {
        lemma_counts_below_of_empty(trace, bound - 1);
    }
}

proof fn lemma_counts_below_is_length(trace: Seq<int>, threads: int)
    requires
        trace_of_threads(trace, threads),
    ensures
        counts_below(trace, threads) == trace.len(),
    decreases trace.len(),
{
    if trace.len() == 0 {
        lemma_counts_below_of_empty(trace, threads);
    } else {
        assert(trace_of_threads(trace.drop_last(), threads)) by {
            assert(forall|i: int|
                0 <= i < trace.drop_last().len() ==> trace.drop_last()[i] == trace[i]);
        }
        lemma_counts_below_is_length(trace.drop_last(), threads);
        lemma_counts_below_step(trace, threads);
        assert(trace.last() == trace[trace.len() - 1]);
    }
}

proof fn lemma_equal_counts_sum(trace: Seq<int>, bound: int, each: int)
    requires
        each >= 0,
        forall|id: int| 0 <= id < bound ==> count_of(trace, id) == each,
    ensures
        bound >= 0 ==> counts_below(trace, bound) == bound * each,
        bound < 0 ==> counts_below(trace, bound) == 0,
    decreases bound,
{
    if bound > 0 {
        lemma_equal_counts_sum(trace, bound - 1, each);
        lemma_mul_is_distributive_sub_other_way(each, bound, 1);
        lemma_mul_basics(each);
        assert((bound - 1) * each == bound * each - 1 * each);
        assert(counts_below(trace, bound) == each + (bound - 1) * each);
    } else if bound == 0 {
        lemma_mul_basics(each);
        assert(bound * each == 0);
    }
}

proof fn lemma_value_after_is_length(initial: int, trace: Seq<int>)
    ensures
        value_after(initial, trace) == initial + trace.len(),
    decreases trace.len(),
{
    if trace.len() > 0 {
        lemma_value_after_is_length(initial, trace.drop_last());
    }
}

/// The counting law: whenever `threads` threads have completed `each`
/// increments apiece — whatever order the scheduler interleaved them in —
/// the trace holds exactly `threads * each` increments, and a load that
/// happens after all of them reads the start value plus `threads * each`.
pub proof fn lemma_counter_totals(initial: int, trace: Seq<int>, threads: int, each: int)
    requires
        threads >= 0,
        each >= 0,
        trace_of_threads(trace, threads),
        forall|id: int| 0 <= id < threads ==> count_of(trace, id) == each,
    ensures
        trace.len() == threads * each,
        value_after(initial, trace) == initial + threads * each,
{
    lemma_counts_below_is_length(trace, threads);
    lemma_equal_counts_sum(trace, threads, each);
    lemma_value_after_is_length(initial, trace);
}

} // verus!
