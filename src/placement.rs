//! Placement of new targets: a random candidate position is accepted only
//! when none of its corners lies in an exclusion zone or in an existing
//! target.
use vstd::prelude::*;
use crate::constants::{
    DISPLAY_HEIGHT, DISPLAY_WIDTH, ELEMENT_GAP_SMALL, ELEMENT_WIDTH_SMALL, MAX_PLACEMENT_ATTEMPTS,
    SILENT_BTN_SIZE, TARGET_SIZE,
};
use crate::random::{advance, next_word, second_word, word_at, Rng};
use crate::seven_segment::{digits_width, SSDisplay};
use crate::shooter::Target;

verus! {

/// A closed rectangle given by its upper-left and lower-right corners.
pub type Zone = ((int, int), (int, int));

/// `p` lies in the closed rectangle from `ul` to `lr`.
pub open spec fn within(p: (int, int), z: Zone) -> bool {
    z.0.0 <= p.0 <= z.1.0 && z.0.1 <= p.1 <= z.1.1
}

/// Corner `k` (upper left, upper right, lower left, lower right) of a
/// target-sized rectangle at `pos`.
pub open spec fn corner(pos: (u16, u16), k: int) -> (int, int) {
    let x = pos.0 as int;
    let y = pos.1 as int;
    let s = TARGET_SIZE as int;
    if k == 0 {
        (x, y)
    } else if k == 1 {
        (x + s, y)
    } else if k == 2 {
        (x, y + s)
    } else {
        (x + s, y + s)
    }
}

/// Some corner of a target-sized rectangle at `pos` lies in `z`.
pub open spec fn corner_in(pos: (u16, u16), z: Zone) -> bool {
    exists|k: int| 0 <= k < 4 && within(#[trigger] corner(pos, k), z)
}

/// The closed rectangle that a target covers.
pub open spec fn target_zone(t: Target) -> Zone {
    ((t.x as int, t.y as int), (t.x + t.width, t.y + t.height))
}

/// The score display in the upper left corner.
pub open spec fn score_zone() -> Zone {
    ((0, 0), (digits_width(ELEMENT_WIDTH_SMALL as int, ELEMENT_GAP_SMALL as int), 2
        * ELEMENT_WIDTH_SMALL))
}

/// The countdown display in the upper right corner.
pub open spec fn timer_zone() -> Zone {
    (
        (DISPLAY_WIDTH - digits_width(ELEMENT_WIDTH_SMALL as int, ELEMENT_GAP_SMALL as int), 0),
        (DISPLAY_WIDTH as int, 2 * ELEMENT_WIDTH_SMALL),
    )
}

/// The mute button in the lower left corner.
pub open spec fn silent_zone() -> Zone {
    ((0, DISPLAY_HEIGHT - SILENT_BTN_SIZE), (SILENT_BTN_SIZE as int, DISPLAY_HEIGHT as int))
}

/// A target-sized rectangle at `pos` keeps every corner out of the
/// exclusion zones and out of every hero and evil target.
pub open spec fn pos_ok(pos: (u16, u16), hero: Seq<Target>, evil: Seq<Target>) -> bool {
    &&& !corner_in(pos, score_zone())
    &&& !corner_in(pos, timer_zone())
    &&& !corner_in(pos, silent_zone())
    &&& forall|i: int| 0 <= i < hero.len() ==> !corner_in(pos, #[trigger] target_zone(hero[i]))
    &&& forall|i: int| 0 <= i < evil.len() ==> !corner_in(pos, #[trigger] target_zone(evil[i]))
}

/// Largest coordinate at which a rectangle of `size` fits on an axis of
/// `extent` pixels, one pixel short of the edge.
pub open spec fn max_coord(extent: int, size: int) -> int {
    extent - size - 1
}

/// `v`, but no more than `max`.
pub open spec fn clamped(v: int, max: int) -> int {
    if v <= max {
        v
    } else {
        max
    }
}

/// Candidate position number `k` for a new target, drawn from state `m`:
/// words `2k` and `2k + 1` give its coordinates.
pub open spec fn candidate<R: Rng>(m: R::Model, k: nat) -> (u16, u16) {
    (
        clamped(
            ((word_at::<R>(m, 2 * k) as u16) % DISPLAY_WIDTH) as int,
            max_coord(DISPLAY_WIDTH as int, TARGET_SIZE as int),
        ) as u16,
        clamped(
            ((word_at::<R>(m, 2 * k + 1) as u16) % DISPLAY_HEIGHT) as int,
            max_coord(DISPLAY_HEIGHT as int, TARGET_SIZE as int),
        ) as u16,
    )
}

/// The first of the candidates `k` up to `MAX_PLACEMENT_ATTEMPTS` that
/// passes `pos_ok`, if any.
pub open spec fn first_fit<R: Rng>(m: R::Model, hero: Seq<Target>, evil: Seq<Target>, k: nat) -> Option<
    (u16, u16),
>
    decreases MAX_PLACEMENT_ATTEMPTS - k,
{
    if k >= MAX_PLACEMENT_ATTEMPTS {
        None
    } else if pos_ok(candidate::<R>(m, k), hero, evil) {
        Some(candidate::<R>(m, k))
    } else {
        first_fit::<R>(m, hero, evil, k + 1)
    }
}

/// The number of words that the search from candidate `k` on draws: two
/// per candidate tried.
pub open spec fn placement_draws<R: Rng>(m: R::Model, hero: Seq<Target>, evil: Seq<Target>, k: nat) -> nat
    decreases MAX_PLACEMENT_ATTEMPTS - k,
{
    if k >= MAX_PLACEMENT_ATTEMPTS {
        2 * k
    } else if pos_ok(candidate::<R>(m, k), hero, evil) {
        2 * (k + 1)
    } else {
        placement_draws::<R>(m, hero, evil, k + 1)
    }
}

/// A found position passes `pos_ok` and keeps the target on the display.
proof fn lemma_first_fit_valid<R: Rng>(m: R::Model, hero: Seq<Target>, evil: Seq<Target>, k: nat)
    ensures
        first_fit::<R>(m, hero, evil, k) matches Some(p) ==> pos_ok(p, hero, evil) && p.0
            <= max_coord(DISPLAY_WIDTH as int, TARGET_SIZE as int) && p.1 <= max_coord(
            DISPLAY_HEIGHT as int,
            TARGET_SIZE as int,
        ),
    decreases MAX_PLACEMENT_ATTEMPTS - k,
{
    if k < MAX_PLACEMENT_ATTEMPTS && !pos_ok(candidate::<R>(m, k), hero, evil) {
        lemma_first_fit_valid::<R>(m, hero, evil, k + 1);
    }
}

/// `point` lies in the closed rectangle from `corner_ul` to `corner_lr`.
pub fn point_is_within(point: (u32, u32), corner_ul: (u32, u32), corner_lr: (u32, u32)) -> (r:
    bool)
    ensures
        r == within(
            (point.0 as int, point.1 as int),
            ((corner_ul.0 as int, corner_ul.1 as int), (corner_lr.0 as int, corner_lr.1 as int)),
        ),
{
    point.0 >= corner_ul.0 && point.0 <= corner_lr.0 && point.1 >= corner_ul.1 && point.1
        <= corner_lr.1
}

/// Some corner of a target-sized rectangle at `pos` lies in the closed
/// rectangle from `corner_ul` to `corner_lr`.
fn corners_within(pos: (u16, u16), corner_ul: (u32, u32), corner_lr: (u32, u32)) -> (r: bool)
    ensures
        r == corner_in(
            pos,
            ((corner_ul.0 as int, corner_ul.1 as int), (corner_lr.0 as int, corner_lr.1 as int)),
        ),
{
    let ghost z = ((corner_ul.0 as int, corner_ul.1 as int), (corner_lr.0 as int, corner_lr.1 as int));
    let x1 = pos.0 as u32;
    let y1 = pos.1 as u32;
    let x2 = x1 + TARGET_SIZE as u32;
    let y2 = y1 + TARGET_SIZE as u32;
    let r = point_is_within((x1, y1), corner_ul, corner_lr) || point_is_within(
        (x2, y1),
        corner_ul,
        corner_lr,
    ) || point_is_within((x1, y2), corner_ul, corner_lr) || point_is_within(
        (x2, y2),
        corner_ul,
        corner_lr,
    );
    assert(corner(pos, 0) == (x1 as int, y1 as int));
    assert(corner(pos, 1) == (x2 as int, y1 as int));
    assert(corner(pos, 2) == (x1 as int, y2 as int));
    assert(corner(pos, 3) == (x2 as int, y2 as int));
    if !r {
        assert forall|k: int| 0 <= k < 4 implies !within(#[trigger] corner(pos, k), z) by {
            if k == 0 {
            } else if k == 1 {
            } else if k == 2 {
            } else {
            }
        }
    }
    r
}

/// Some corner of a target-sized rectangle at `pos` lies in `target`.
pub fn are_overlapping_targets(target: &Target, pos: (u16, u16)) -> (r: bool)
    ensures
        r == corner_in(pos, target_zone(*target)),
{
    let corner_ul = (target.x as u32, target.y as u32);
    let corner_lr = (target.x as u32 + target.width as u32, target.y as u32 + target.height as u32);
    corners_within(pos, corner_ul, corner_lr)
}

/// No corner of `pos`'s rectangle lies in any of `targets`.
fn clear_of(pos: (u16, u16), targets: &[Target]) -> (r: bool)
    ensures
        r == forall|i: int|
            0 <= i < targets@.len() ==> !corner_in(pos, #[trigger] target_zone(targets@[i])),
{
    let mut i: usize = 0;
    while i < targets.len()
        invariant
            i <= targets@.len(),
            forall|j: int| 0 <= j < i ==> !corner_in(pos, #[trigger] target_zone(targets@[j])),
        decreases targets@.len() - i,
    {
        if are_overlapping_targets(&targets[i], pos) {
            return false;
        }
        i = i + 1;
    }
    true
}

/// A target-sized rectangle at `pos` keeps every corner out of the score
/// display, the countdown display, the mute button and all given targets.
pub fn pos_is_okay(pos: (u16, u16), existing_hero: &[Target], existing_evil: &[Target]) -> (r:
    bool)
    ensures
        r == pos_ok(pos, existing_hero@, existing_evil@),
{
    let ss_width = SSDisplay::calculate_width(ELEMENT_WIDTH_SMALL, ELEMENT_GAP_SMALL) as u32;
    let ss_height = SSDisplay::calculate_height(ELEMENT_WIDTH_SMALL) as u32;
    let score_ul = (0u32, 0u32);
    let score_lr = (ss_width, ss_height);
    let timer_ul = (DISPLAY_WIDTH as u32 - ss_width, 0u32);
    let timer_lr = (DISPLAY_WIDTH as u32, ss_height);
    let silent_ul = (0u32, (DISPLAY_HEIGHT - SILENT_BTN_SIZE) as u32);
    let silent_lr = (SILENT_BTN_SIZE as u32, DISPLAY_HEIGHT as u32);
    if corners_within(pos, score_ul, score_lr) || corners_within(pos, timer_ul, timer_lr)
        || corners_within(pos, silent_ul, silent_lr) {
        return false;
    }
    clear_of(pos, existing_hero) && clear_of(pos, existing_evil)
}

/// A random position at which a `width` by `height` rectangle stays on the
/// display: each coordinate is a drawn word reduced modulo the display
/// extent, clamped one pixel short of the far edge.
pub fn get_random_pos<R: Rng>(rng: &mut R, width: u16, height: u16) -> (r: (u16, u16))
    requires
        old(rng).wf(),
        width < DISPLAY_WIDTH,
        height < DISPLAY_HEIGHT,
    ensures
        final(rng).wf(),
        final(rng).model() == R::step(R::step(old(rng).model()).0).0,
        r.0 == clamped(
            ((next_word(old(rng)) as u16) % DISPLAY_WIDTH) as int,
            max_coord(DISPLAY_WIDTH as int, width as int),
        ),
        r.1 == clamped(
            ((second_word(old(rng)) as u16) % DISPLAY_HEIGHT) as int,
            max_coord(DISPLAY_HEIGHT as int, height as int),
        ),
{
    let x = (rng.rand() as u16) % DISPLAY_WIDTH;
    let x_max = DISPLAY_WIDTH - width - 1;
    let y = (rng.rand() as u16) % DISPLAY_HEIGHT;
    let y_max = DISPLAY_HEIGHT - height - 1;
    (
        if x <= x_max {
            x
        } else {
            x_max
        },
        if y <= y_max {
            y
        } else {
            y_max
        },
    )
}

/// Draws candidate positions for a new target until one passes
/// `pos_is_okay`, or gives up after `MAX_PLACEMENT_ATTEMPTS` candidates.
/// The result is the first candidate that passes; every position it
/// returns keeps all four corners clear of the exclusion zones and of every
/// given target.
pub fn get_rnd_pos<R: Rng>(rng: &mut R, existing_hero: &[Target], existing_evil: &[Target]) -> (r:
    Option<(u16, u16)>)
    requires
        old(rng).wf(),
    ensures
        final(rng).wf(),
        r == first_fit::<R>(old(rng).model(), existing_hero@, existing_evil@, 0),
        final(rng).model() == advance::<R>(
            old(rng).model(),
            placement_draws::<R>(old(rng).model(), existing_hero@, existing_evil@, 0),
        ),
        r matches Some(p) ==> pos_ok(p, existing_hero@, existing_evil@) && p.0 <= max_coord(
            DISPLAY_WIDTH as int,
            TARGET_SIZE as int,
        ) && p.1 <= max_coord(DISPLAY_HEIGHT as int, TARGET_SIZE as int),
{
    let ghost m0 = rng.model();
    proof {
        lemma_first_fit_valid::<R>(m0, existing_hero@, existing_evil@, 0);
    }
    let mut attempts: u32 = 0;
    while attempts < MAX_PLACEMENT_ATTEMPTS
        invariant
            rng.wf(),
            m0 == old(rng).model(),
            attempts <= MAX_PLACEMENT_ATTEMPTS,
            rng.model() == advance::<R>(m0, 2 * attempts as nat),
            first_fit::<R>(m0, existing_hero@, existing_evil@, 0) == first_fit::<R>(
                m0,
                existing_hero@,
                existing_evil@,
                attempts as nat,
            ),
            placement_draws::<R>(m0, existing_hero@, existing_evil@, 0) == placement_draws::<R>(
                m0,
                existing_hero@,
                existing_evil@,
                attempts as nat,
            ),
        decreases MAX_PLACEMENT_ATTEMPTS - attempts,
    {
        let ghost a = attempts as nat;
        assert(advance::<R>(m0, 2 * a + 1) == R::step(advance::<R>(m0, 2 * a)).0);
        assert(advance::<R>(m0, 2 * a + 2) == R::step(advance::<R>(m0, 2 * a + 1)).0);
        let pos = get_random_pos(rng, TARGET_SIZE, TARGET_SIZE);
        assert(pos == candidate::<R>(m0, a));
        if pos_is_okay(pos, existing_hero, existing_evil) {
            assert(first_fit::<R>(m0, existing_hero@, existing_evil@, a) == Some(pos));
            assert(placement_draws::<R>(m0, existing_hero@, existing_evil@, a) == 2 * a + 2);
            return Some(pos);
        }
        assert(first_fit::<R>(m0, existing_hero@, existing_evil@, a) == first_fit::<R>(
            m0,
            existing_hero@,
            existing_evil@,
            a + 1,
        ));
        assert(placement_draws::<R>(m0, existing_hero@, existing_evil@, a) == placement_draws::<R>(
            m0,
            existing_hero@,
            existing_evil@,
            a + 1,
        ));
        attempts = attempts + 1;
        assert(2 * attempts as nat == 2 * a + 2);
    }
    assert(placement_draws::<R>(m0, existing_hero@, existing_evil@, attempts as nat) == 2
        * MAX_PLACEMENT_ATTEMPTS);
    None
}

} // verus!
