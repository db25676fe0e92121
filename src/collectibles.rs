//! Money dots: collecting them and finishing a level.

use vstd::prelude::*;

use crate::grid::GridPosition;
use crate::resources::{LuxuryType, Score};

verus! {

/// Score for each money dot.
pub const MONEY_SCORE: u64 = 10;

/// Score for each luxury item.
pub const LUXURY_SCORE: u64 = 500;

/// A luxury item lying in the maze.
#[derive(Debug, Clone, Copy, PartialEq, Eq, Structural)]
pub struct LuxuryItem {
    pub pos: GridPosition,
    pub kind: LuxuryType,
}

pub open spec fn item_elsewhere(player_pos: GridPosition) -> spec_fn(LuxuryItem) -> bool {
    |i: LuxuryItem| i.pos != player_pos
}

pub open spec fn item_here(player_pos: GridPosition) -> spec_fn(LuxuryItem) -> bool {
    |i: LuxuryItem| i.pos == player_pos
}

pub open spec fn elsewhere(player_pos: GridPosition) -> spec_fn(GridPosition) -> bool {
    |p: GridPosition| p != player_pos
}

/// The player picks up every money dot on its cell; each scores and counts
/// as money collected. Returns how many were picked up.
pub fn money_collection(player_pos: GridPosition, money: &mut Vec<GridPosition>, score: &mut Score, collected: &mut u64) -> (r: u64)
    requires
        old(score).0 + MONEY_SCORE * old(money)@.len() <= u64::MAX,
        *old(collected) + MONEY_SCORE * old(money)@.len() <= u64::MAX,
    ensures
        final(money)@ == old(money)@.filter(elsewhere(player_pos)),
        r == old(money)@.len() - final(money)@.len(),
        final(score).0 == old(score).0 + MONEY_SCORE * r,
        *final(collected) == *old(collected) + MONEY_SCORE * r,
{
    let ghost start = money@;
    let mut kept: Vec<GridPosition> = Vec::new();
    let mut taken: u64 = 0;
    let mut k: usize = 0;
    while k < money.len()
        invariant
            0 <= k <= money@.len(),
            money@ == start,
            start == old(money)@,
            kept@ == start.take(k as int).filter(elsewhere(player_pos)),
            taken == k - kept@.len(),
            kept@.len() <= k,
        decreases money@.len() - k,
    {
        assert(start.take(k + 1).drop_last() == start.take(k as int));
        reveal(Seq::filter);
        let p = money[k];
        if p == player_pos {
            taken = taken + 1;
        } else {
            kept.push(p);
        }
        k += 1;
    }
    assert(start.take(k as int) == start);
    assert(MONEY_SCORE * taken <= MONEY_SCORE * start.len()) by (nonlinear_arith)
        requires
            taken <= start.len(),
    ;
    *money = kept;
    score.0 = score.0 + MONEY_SCORE * taken;
    *collected = *collected + MONEY_SCORE * taken;
    taken
}

/// The player picks up every luxury item on its cell: each scores and its
/// kind is added, in order, to the list of luxuries collected. Returns how
/// many were picked up.
pub fn luxury_collection(
    player_pos: GridPosition,
    items: &mut Vec<LuxuryItem>,
    score: &mut Score,
    collected: &mut Vec<LuxuryType>,
) -> (r: u64)
    requires
        old(score).0 + LUXURY_SCORE * old(items)@.len() <= u64::MAX,
    ensures
        final(items)@ == old(items)@.filter(item_elsewhere(player_pos)),
        final(collected)@ == old(collected)@ + old(items)@.filter(item_here(player_pos)).map_values(
            |i: LuxuryItem| i.kind,
        ),
        r == old(items)@.len() - final(items)@.len(),
        final(score).0 == old(score).0 + LUXURY_SCORE * r,
{
    let ghost start = items@;
    let ghost had = collected@;
    let mut kept: Vec<LuxuryItem> = Vec::new();
    let mut taken: u64 = 0;
    let mut k: usize = 0;
    while k < items.len()
        invariant
            0 <= k <= items@.len(),
            items@ == start,
            start == old(items)@,
            had == old(collected)@,
            kept@ == start.take(k as int).filter(item_elsewhere(player_pos)),
            collected@ == had + start.take(k as int).filter(item_here(player_pos)).map_values(
                |i: LuxuryItem| i.kind,
            ),
            taken == k - kept@.len(),
            kept@.len() <= k,
        decreases items@.len() - k,
    {
        assert(start.take(k + 1).drop_last() == start.take(k as int));
        reveal(Seq::filter);
        let item = items[k];
        if item.pos == player_pos {
            let ghost here = start.take(k as int).filter(item_here(player_pos));
            assert(start.take(k + 1).filter(item_here(player_pos)) == here.push(item));
            assert(here.push(item).map_values(|i: LuxuryItem| i.kind) =~= here.map_values(
                |i: LuxuryItem| i.kind,
            ).push(item.kind));
            collected.push(item.kind);
            assert(collected@ =~= had + start.take(k + 1).filter(item_here(player_pos)).map_values(
                |i: LuxuryItem| i.kind,
            ));
            taken = taken + 1;
        } else {
            assert(start.take(k + 1).filter(item_here(player_pos)) == start.take(k as int).filter(
                item_here(player_pos),
            ));
            kept.push(item);
        }
        k += 1;
    }
    assert(start.take(k as int) == start);
    assert(LUXURY_SCORE * taken <= LUXURY_SCORE * start.len()) by (nonlinear_arith)
        requires
            taken <= start.len(),
    ;
    *items = kept;
    score.0 = score.0 + LUXURY_SCORE * taken;
    taken
}

/// A level is complete once something was scored and no money is left.
pub fn check_level_complete(score: Score, money_left: usize) -> (r: bool)
    ensures
        r == (score.0 > 0 && money_left == 0),
{
    score.0 > 0 && money_left == 0
}

} // verus!
