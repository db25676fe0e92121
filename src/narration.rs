//! Choosing the narrator's next quote.

use vstd::prelude::*;

verus! {

/// What the narrator said last, and how much money it has seen collected.
#[derive(Debug, Clone, Copy, PartialEq, Eq, Structural)]
pub struct NarrationState {
    pub last_quote: Option<usize>,
    pub money_counter: u32,
}

impl NarrationState {
    /// A narrator that has said nothing yet.
    pub fn new() -> (r: NarrationState)
        ensures
            r.last_quote is None,
            r.money_counter == 0,
    {
        NarrationState { last_quote: None, money_counter: 0 }
    }
}

/// The index of the next quote of a pool of `n`: the one after the last,
/// counted round, or the first.
pub open spec fn next_quote_index(n: int, last: Option<usize>) -> int {
    if n <= 1 {
        0
    } else {
        match last {
            Some(i) => (i + 1) % n,
            None => 0,
        }
    }
}

/// Picks the next quote of `pool` in turn, so that no quote follows itself
/// when the pool has two or more; an empty pool gives an empty quote.
pub fn pick_quote<'a>(pool: &'a [&'a str], state: &mut NarrationState) -> (r: &'a str)
    requires
        old(state).last_quote != Some(usize::MAX),
    ensures
        final(state).last_quote == Some(next_quote_index(pool@.len() as int, old(state).last_quote) as usize),
        final(state).money_counter == old(state).money_counter,
        pool@.len() == 0 ==> r@.len() == 0,
        pool@.len() > 0 ==> r == pool@[next_quote_index(pool@.len() as int, old(state).last_quote)],
        forall|i: usize|
            pool@.len() >= 2 && old(state).last_quote == Some(i) && i < pool@.len() ==> next_quote_index(
                pool@.len() as int,
                old(state).last_quote,
            ) != i,
{
    if pool.len() <= 1 {
        state.last_quote = Some(0);
        if pool.len() == 0 {
            proof {
                reveal_strlit("");
            }
            return "";
        }
        return pool[0];
    }
    let idx = match state.last_quote {
        Some(i) => (i + 1) % pool.len(),
        None => 0,
    };
    state.last_quote = Some(idx);
    proof {
        let n = pool@.len() as int;
        assert forall|i: usize| old(state).last_quote == Some(i) && i < n implies (i + 1) % n != i by {
            if i + 1 < n {
                assert((i + 1) % n == i + 1) by (nonlinear_arith)
                    requires
                        0 <= i + 1 < n,
                ;
            } else {
                assert((i + 1) % n == 0) by (nonlinear_arith)
                    requires
                        i + 1 == n,
                        n >= 2,
                ;
            }
        }
    }
    pool[idx]
}

} // verus!
