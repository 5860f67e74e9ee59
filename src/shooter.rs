//! Targets and hit detection.
use vstd::prelude::*;

verus! {

/// A rectangular target with its reward or penalty and its lifespan.
#[derive(Clone, Copy, Debug, PartialEq, Eq, Structural)]
pub struct Target {
    pub x: u16,
    pub y: u16,
    pub width: u16,
    pub height: u16,
    pub bounty: u16,
    pub birthday: u64,
    pub lifetime: u64,
}

/// The point lies in the target's half-open rectangle.
pub open spec fn inside(t: Target, x: u16, y: u16) -> bool {
    t.x <= x < t.x + t.width && t.y <= y < t.y + t.height
}

/// `i` once for each touch inside `t`, in the order of the touches.
pub open spec fn hits_on(t: Target, i: int, touches: Seq<(u16, u16)>) -> Seq<usize>
    decreases touches.len(),
{
    if touches.len() == 0 {
        Seq::empty()
    } else {
        let p = touches.last();
        hits_on(t, i, touches.drop_last()) + if inside(t, p.0, p.1) {
            seq![i as usize]
        } else {
            Seq::empty()
        }
    }
}

/// For each target in order, its index once per touch inside it.
pub open spec fn hit_indices(targets: Seq<Target>, touches: Seq<(u16, u16)>) -> Seq<usize>
    decreases targets.len(),
{
    if targets.len() == 0 {
        Seq::empty()
    } else {
        hit_indices(targets.drop_last(), touches) + hits_on(
            targets.last(),
            targets.len() - 1,
            touches,
        )
    }
}

impl Target {
    pub fn new(
        x: u16,
        y: u16,
        width: u16,
        height: u16,
        bounty: u16,
        birthday: u64,
        lifetime: u64,
    ) -> (r: Self)
        ensures
            r == (Target { x, y, width, height, bounty, birthday, lifetime }),
    {
        Target { x, y, width, height, bounty, birthday, lifetime }
    }

    /// The point `(x, y)` lies in the target's half-open rectangle.
    pub fn coord_is_inside(&self, x: u16, y: u16) -> (r: bool)
        ensures
            r == inside(*self, x, y),
    {
        x >= self.x && (x as u32) < self.x as u32 + self.width as u32 && y >= self.y && (y as u32)
            < self.y as u32 + self.height as u32
    }

    /// The indices of the targets hit, once for every touch inside each:
    /// an index may repeat.
    pub fn check_for_hit(targets: &[Target], touches: &[(u16, u16)]) -> (r: Vec<usize>)
        ensures
            r@ == hit_indices(targets@, touches@),
    {
        let mut indices: Vec<usize> = Vec::new();
        let mut i: usize = 0;
        while i < targets.len()
            invariant
                i <= targets@.len(),
                indices@ == hit_indices(targets@.take(i as int), touches@),
            decreases targets@.len() - i,
        {
            let ghost before = indices@;
            let t = targets[i];
            let mut j: usize = 0;
            while j < touches.len()
                invariant
                    i < targets@.len(),
                    t == targets@[i as int],
                    j <= touches@.len(),
                    indices@ == before + hits_on(t, i as int, touches@.take(j as int)),
                decreases touches@.len() - j,
            {
                let p = touches[j];
                assert(touches@.take(j + 1).drop_last() =~= touches@.take(j as int));
                if t.coord_is_inside(p.0, p.1) {
                    indices.push(i);
                }
                assert(indices@ =~= before + hits_on(t, i as int, touches@.take(j + 1)));
                j = j + 1;
            }
            assert(touches@.take(touches@.len() as int) =~= touches@);
            assert(targets@.take(i + 1).drop_last() =~= targets@.take(i as int));
            i = i + 1;
        }
        assert(targets@.take(targets@.len() as int) =~= targets@);
        indices
    }
}

} // verus!
