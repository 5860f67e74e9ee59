//! Score arithmetic: rewards saturate at the largest score, penalties stop
//! at zero.
use vstd::prelude::*;

verus! {

/// `score + gain`, saturated at the largest representable score.
pub open spec fn add_capped(score: int, gain: int) -> int {
    if score + gain > u16::MAX {
        u16::MAX as int
    } else {
        score + gain
    }
}

/// `score - loss`, floored at zero.
pub open spec fn sub_floored(score: int, loss: int) -> int {
    if score < loss {
        0
    } else {
        score - loss
    }
}

/// The sum of a sequence of bounties.
pub open spec fn sum_of(bounties: Seq<u16>) -> int
    decreases bounties.len(),
{
    if bounties.len() == 0 {
        0
    } else {
        sum_of(bounties.drop_last()) + bounties.last()
    }
}

/// The score after a sequence of hero hits, one penalty after the other.
pub open spec fn after_hero_hits(score: int, bounties: Seq<u16>) -> int
    decreases bounties.len(),
{
    if bounties.len() == 0 {
        score
    } else {
        sub_floored(after_hero_hits(score, bounties.drop_last()), bounties.last() as int)
    }
}

/// The score after a sequence of evil hits, one reward after the other.
pub open spec fn after_evil_hits(score: int, bounties: Seq<u16>) -> int
    decreases bounties.len(),
{
    if bounties.len() == 0 {
        score
    } else {
        add_capped(after_evil_hits(score, bounties.drop_last()), bounties.last() as int)
    }
}

/// Reward for an evil hit: adds the bounty, saturating.
pub fn apply_evil_hit(score: u16, bounty: u16) -> (r: u16)
    ensures
        r == add_capped(score as int, bounty as int),
{
    score.saturating_add(bounty)
}

/// Penalty for a hero hit: subtracts the bounty, but never below zero.
pub fn apply_hero_hit(score: u16, bounty: u16) -> (r: u16)
    ensures
        r == sub_floored(score as int, bounty as int),
{
    score - if score < bounty {
        score
    } else {
        bounty
    }
}

/// Whatever sequence of hero hits lands, the score never goes negative:
/// it ends at the starting score less the sum of the penalties, or at zero
/// where that difference would be negative.
pub proof fn lemma_hero_hits_floor_at_zero(score: u16, bounties: Seq<u16>)
    ensures
        after_hero_hits(score as int, bounties) >= 0,
        after_hero_hits(score as int, bounties) == sub_floored(score as int, sum_of(bounties)),
    decreases bounties.len(),
{
    if bounties.len() > 0 {
        lemma_hero_hits_floor_at_zero(score, bounties.drop_last());
    }
}

/// A sequence of evil hits adds up its rewards, saturating once at the
/// largest score: the order of the hits does not matter.
pub proof fn lemma_evil_hits_saturate(score: u16, bounties: Seq<u16>)
    ensures
        after_evil_hits(score as int, bounties) == add_capped(score as int, sum_of(bounties)),
    decreases bounties.len(),
{
    if bounties.len() > 0 {
        lemma_evil_hits_saturate(score, bounties.drop_last());
    }
}

} // verus!
