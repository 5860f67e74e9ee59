//! Removal of targets from a collection: those that a touch hits, and those
//! that have outlived their lifetime.
use vstd::prelude::*;
use crate::shooter::{hit_indices, hits_on, inside, Target};

verus! {

/// Some touch lies inside `t`.
pub open spec fn hit_by_any(t: Target, touches: Seq<(u16, u16)>) -> bool {
    exists|j: int| 0 <= j < touches.len() && inside(t, #[trigger] touches[j].0, touches[j].1)
}

/// The targets that no touch hits, in their order.
pub open spec fn missed(s: Seq<Target>, touches: Seq<(u16, u16)>) -> Seq<Target>
    decreases s.len(),
{
    if s.len() == 0 {
        s
    } else if hit_by_any(s.last(), touches) {
        missed(s.drop_last(), touches)
    } else {
        missed(s.drop_last(), touches).push(s.last())
    }
}

/// The targets that some touch hits, in their order.
pub open spec fn shot(s: Seq<Target>, touches: Seq<(u16, u16)>) -> Seq<Target>
    decreases s.len(),
{
    if s.len() == 0 {
        s
    } else if hit_by_any(s.last(), touches) {
        shot(s.drop_last(), touches).push(s.last())
    } else {
        shot(s.drop_last(), touches)
    }
}

/// Ticks from `since` to `now`; zero if the clock reads earlier.
pub open spec fn elapsed(now: u64, since: u64) -> int {
    if now >= since {
        now - since
    } else {
        0
    }
}

/// `t` has lived longer than its lifetime at `now`.
pub open spec fn expired(t: Target, now: u64) -> bool {
    elapsed(now, t.birthday) > t.lifetime
}

/// The targets still alive at `now`, in their order.
pub open spec fn alive(s: Seq<Target>, now: u64) -> Seq<Target>
    decreases s.len(),
{
    if s.len() == 0 {
        s
    } else if expired(s.last(), now) {
        alive(s.drop_last(), now)
    } else {
        alive(s.drop_last(), now).push(s.last())
    }
}

/// The targets expired at `now`, in their order.
pub open spec fn aged_out(s: Seq<Target>, now: u64) -> Seq<Target>
    decreases s.len(),
{
    if s.len() == 0 {
        s
    } else if expired(s.last(), now) {
        aged_out(s.drop_last(), now).push(s.last())
    } else {
        aged_out(s.drop_last(), now)
    }
}

/// The bounties of a sequence of targets.
pub open spec fn bounties(s: Seq<Target>) -> Seq<u16> {
    s.map_values(|t: Target| t.bounty)
}

/// A target is alive up to and including tick `birthday + lifetime`, and
/// expired from the next tick on.
pub proof fn lemma_expiry_boundary(t: Target, now: u64)
    ensures
        expired(t, now) <==> now > t.birthday + t.lifetime,
{
}

/// Ticks from `since` to `now`; zero if the clock reads earlier.
pub fn ticks_since(now: u64, since: u64) -> (r: u64)
    ensures
        r == elapsed(now, since),
{
    now.saturating_sub(since)
}

/// `t` has lived longer than its lifetime at `now`: a target exactly at its
/// lifetime survives.
pub fn is_expired(t: &Target, now: u64) -> (r: bool)
    ensures
        r == expired(*t, now),
{
    ticks_since(now, t.birthday) > t.lifetime
}

/// Splits `targets` into those alive at `now` and those expired, each in
/// its order.
pub fn split_expired(targets: &Vec<Target>, now: u64) -> (r: (Vec<Target>, Vec<Target>))
    ensures
        r.0@ == alive(targets@, now),
        r.1@ == aged_out(targets@, now),
{
    let mut kept: Vec<Target> = Vec::new();
    let mut gone: Vec<Target> = Vec::new();
    let mut i: usize = 0;
    while i < targets.len()
        invariant
            i <= targets@.len(),
            kept@ == alive(targets@.take(i as int), now),
            gone@ == aged_out(targets@.take(i as int), now),
        decreases targets@.len() - i,
    {
        let t = targets[i];
        assert(targets@.take(i + 1).drop_last() =~= targets@.take(i as int));
        if is_expired(&t, now) {
            gone.push(t);
        } else {
            kept.push(t);
        }
        i = i + 1;
    }
    assert(targets@.take(targets@.len() as int) =~= targets@);
    (kept, gone)
}

/// The targets whose index is not listed in `idx`, in their order.
pub open spec fn unlisted(s: Seq<Target>, idx: Seq<usize>) -> Seq<Target>
    decreases s.len(),
{
    if s.len() == 0 {
        s
    } else if idx.contains((s.len() - 1) as usize) {
        unlisted(s.drop_last(), idx)
    } else {
        unlisted(s.drop_last(), idx).push(s.last())
    }
}

/// The targets whose index is listed in `idx`, in their order.
pub open spec fn listed(s: Seq<Target>, idx: Seq<usize>) -> Seq<Target>
    decreases s.len(),
{
    if s.len() == 0 {
        s
    } else if idx.contains((s.len() - 1) as usize) {
        listed(s.drop_last(), idx).push(s.last())
    } else {
        listed(s.drop_last(), idx)
    }
}

/// `idx` lists `i`.
fn lists(idx: &[usize], i: usize) -> (r: bool)
    ensures
        r == idx@.contains(i),
{
    let mut j: usize = 0;
    while j < idx.len()
        invariant
            j <= idx@.len(),
            forall|k: int| 0 <= k < j ==> idx@[k] != i,
        decreases idx@.len() - j,
    {
        if idx[j] == i {
            assert(idx@[j as int] == i);
            return true;
        }
        j = j + 1;
    }
    false
}

/// Removes every target whose index `indices` lists, however often and in
/// whatever order; indices past the end are ignored. The remaining targets
/// keep their order. Returns the removed targets in their order.
pub fn remove_hit(targets: &mut Vec<Target>, indices: &[usize]) -> (r: Vec<Target>)
    ensures
        final(targets)@ == unlisted(old(targets)@, indices@),
        r@ == listed(old(targets)@, indices@),
{
    let mut kept: Vec<Target> = Vec::new();
    let mut gone: Vec<Target> = Vec::new();
    let mut i: usize = 0;
    while i < targets.len()
        invariant
            i <= targets@.len(),
            targets@ == old(targets)@,
            kept@ == unlisted(targets@.take(i as int), indices@),
            gone@ == listed(targets@.take(i as int), indices@),
        decreases targets@.len() - i,
    {
        let t = targets[i];
        assert(targets@.take(i + 1).drop_last() =~= targets@.take(i as int));
        assert(targets@.take(i + 1).len() - 1 == i);
        if lists(indices, i) {
            gone.push(t);
        } else {
            kept.push(t);
        }
        i = i + 1;
    }
    assert(targets@.take(targets@.len() as int) =~= targets@);
    *targets = kept;
    gone
}

/// The index `i` occurs among the hits on one target exactly when that
/// target is `i` and some touch lies inside it.
proof fn lemma_hits_on_contains(t: Target, i: int, touches: Seq<(u16, u16)>, j: usize)
    requires
        0 <= i <= usize::MAX,
    ensures
        hits_on(t, i, touches).contains(j) <==> (j == i && hit_by_any(t, touches)),
    decreases touches.len(),
{
    if touches.len() > 0 {
        let rest = touches.drop_last();
        let p = touches.last();
        lemma_hits_on_contains(t, i, rest, j);
        let tail: Seq<usize> = if inside(t, p.0, p.1) {
            seq![i as usize]
        } else {
            Seq::empty()
        };
        assert(hits_on(t, i, touches) == hits_on(t, i, rest) + tail);
        if hits_on(t, i, touches).contains(j) {
            let k = choose|k: int|
                0 <= k < hits_on(t, i, touches).len() && hits_on(t, i, touches)[k] == j;
            if k < hits_on(t, i, rest).len() {
                assert(hits_on(t, i, rest)[k] == j);
                assert(hits_on(t, i, rest).contains(j));
                let w = choose|w: int|
                    0 <= w < rest.len() && inside(t, #[trigger] rest[w].0, rest[w].1);
                assert(touches[w] == rest[w]);
            } else {
                assert(tail[k - hits_on(t, i, rest).len()] == j);
                assert(touches[touches.len() - 1] == p);
            }
        }
        if j == i && hit_by_any(t, touches) {
            let w = choose|w: int|
                0 <= w < touches.len() && inside(t, #[trigger] touches[w].0, touches[w].1);
            if w < rest.len() {
                assert(rest[w] == touches[w]);
                assert(hits_on(t, i, rest).contains(j));
                let k = choose|k: int|
                    0 <= k < hits_on(t, i, rest).len() && hits_on(t, i, rest)[k] == j;
                assert(hits_on(t, i, touches)[k] == j);
            } else {
                assert(touches[w] == p);
                assert(hits_on(t, i, touches)[hits_on(t, i, rest).len() as int] == j);
            }
        }
    }
}

/// An index occurs in `check_for_hit`'s result exactly when it is the index
/// of a target that some touch hits.
proof fn lemma_hit_indices_contains(targets: Seq<Target>, touches: Seq<(u16, u16)>, j: usize)
    requires
        targets.len() <= usize::MAX + 1,
    ensures
        hit_indices(targets, touches).contains(j) <==> (j < targets.len() && hit_by_any(
            targets[j as int],
            touches,
        )),
    decreases targets.len(),
{
    if targets.len() > 0 {
        let front = targets.drop_last();
        let last = (targets.len() - 1) as int;
        lemma_hit_indices_contains(front, touches, j);
        lemma_hits_on_contains(targets.last(), last, touches, j);
        let a = hit_indices(front, touches);
        let b = hits_on(targets.last(), last, touches);
        assert(hit_indices(targets, touches) == a + b);
        if (a + b).contains(j) {
            let k = choose|k: int| 0 <= k < (a + b).len() && (a + b)[k] == j;
            if k < a.len() {
                assert(a[k] == j);
                assert(a.contains(j));
            } else {
                assert(b[k - a.len()] == j);
                assert(b.contains(j));
            }
        }
        if j < targets.len() && hit_by_any(targets[j as int], touches) {
            if j < front.len() {
                assert(front[j as int] == targets[j as int]);
                assert(a.contains(j));
                let k = choose|k: int| 0 <= k < a.len() && a[k] == j;
                assert((a + b)[k] == j);
            } else {
                assert(b.contains(j));
                let k = choose|k: int| 0 <= k < b.len() && b[k] == j;
                assert((a + b)[a.len() + k] == j);
            }
        }
    }
}

/// Removing the targets listed by an index list that names exactly the hit
/// targets leaves the targets that no touch hits, and removes those hit.
proof fn lemma_listed_by_hits(s: Seq<Target>, idx: Seq<usize>, touches: Seq<(u16, u16)>)
    requires
        forall|i: int| 0 <= i < s.len() ==> (idx.contains(i as usize) <==> hit_by_any(#[trigger] s[i], touches)),
        s.len() <= usize::MAX + 1,
    ensures
        unlisted(s, idx) == missed(s, touches),
        listed(s, idx) == shot(s, touches),
    decreases s.len(),
{
    if s.len() > 0 {
        let front = s.drop_last();
        assert forall|i: int| 0 <= i < front.len() implies (idx.contains(i as usize) <==> hit_by_any(
            #[trigger] front[i],
            touches,
        )) by {
            assert(front[i] == s[i]);
        }
        lemma_listed_by_hits(front, idx, touches);
        assert(s[s.len() - 1] == s.last());
    }
}

/// Removing the indices that `check_for_hit` reports removes exactly the
/// targets that some touch hits, duplicates and all.
pub proof fn lemma_remove_reported_hits(targets: Seq<Target>, touches: Seq<(u16, u16)>)
    requires
        targets.len() <= usize::MAX,
    ensures
        unlisted(targets, hit_indices(targets, touches)) == missed(targets, touches),
        listed(targets, hit_indices(targets, touches)) == shot(targets, touches),
{
    let idx = hit_indices(targets, touches);
    assert forall|i: int| 0 <= i < targets.len() implies (idx.contains(i as usize) <==> hit_by_any(
        #[trigger] targets[i],
        touches,
    )) by {
        lemma_hit_indices_contains(targets, touches, i as usize);
    }
    lemma_listed_by_hits(targets, idx, touches);
}

} // verus!
