//! When the state is pruned, and of what.
//!
//! Interpreter and discovery controller both remember processes.  Now and
//! then they forget those that have ended, so that the state does not grow
//! without end.
use vstd::prelude::*;

verus! {

/// Seconds after which the state is to be pruned again.
pub const CLEANUP_INTERVAL_SECS: u64 = 60;

/// Whether it is time to prune the state, `elapsed_secs` after the last
/// pruning.
pub fn cleanup_due(elapsed_secs: u64) -> (due: bool)
    ensures
        due == (elapsed_secs > CLEANUP_INTERVAL_SECS),
{
    elapsed_secs > CLEANUP_INTERVAL_SECS
}

/// Whether `pid` is among `pids`.
pub fn has_pid(pids: &[u32], pid: u32) -> (found: bool)
    ensures
        found == pids@.contains(pid),
{
    let mut i: usize = 0;
    while i < pids.len()
        invariant
            i <= pids@.len(),
            forall|j: int| 0 <= j < i ==> pids@[j] != pid,
        decreases pids@.len() - i,
    {
        if pids[i] == pid {
            return true;
        }
        i += 1;
    }
    false
}

/// When a sequence without repetitions is walked, the item that comes next
/// is not among those that were passed, and with it they are the items
/// passed after the next step.
pub proof fn lemma_next_of_distinct<T>(items: Seq<T>, i: int)
    requires
        0 <= i < items.len(),
        items.no_duplicates(),
    ensures
        !items.take(i).contains(items[i]),
        forall|x: T|
            #[trigger] items.take(i + 1).contains(x) <==> x == items[i] || items.take(i).contains(
                x,
            ),
{
    let done = items.take(i);
    let next = items.take(i + 1);
    assert(next =~= done.push(items[i]));
    if done.contains(items[i]) {
        let at = choose|at: int| 0 <= at < done.len() && done[at] == items[i];
        assert(items[at] == items[i]);
    }
    assert forall|x: T| #[trigger] next.contains(x) <==> x == items[i] || done.contains(x) by {
        if next.contains(x) {
            let at = choose|at: int| 0 <= at < next.len() && next[at] == x;
            if at < i {
                assert(done[at] == x);
            }
        }
        if done.contains(x) {
            let at = choose|at: int| 0 <= at < done.len() && done[at] == x;
            assert(next[at] == x);
        }
        if x == items[i] {
            assert(next[i] == x);
        }
    }
}

} // verus!
