//! The game session: spawning targets to capacity, the super-target
//! schedule, shooting, expiry, the countdown and game over.
use vstd::prelude::*;
use crate::constants::{
    DISPLAY_HEIGHT, DISPLAY_WIDTH, EVIL_POINTS, GAME_TIME, COUNTDOWN_STEP, HERO_POINTS,
    LIFETIME_MAX, LIFETIME_MIN, MAX_EVIL_TARGETS, MAX_HERO_TARGETS, SILENT_BTN_SIZE,
    SUPER_EVIL_LIFETIME, SUPER_EVIL_POINTS, SUPER_HIDING_MAX, SUPER_HIDING_MIN, TARGET_SIZE,
    VOLUME_THRESHOLD,
};
use crate::placement::{
    first_fit, get_rnd_pos, placement_draws, point_is_within, pos_ok, silent_zone, within,
};
use crate::random::{advance, next_word, Rng};
use crate::registry::{
    aged_out, alive, bounties, elapsed, lemma_remove_reported_hits, missed, remove_hit, shot,
    split_expired, ticks_since,
};
use crate::score::{
    add_capped, after_evil_hits, after_hero_hits, apply_evil_hit, apply_hero_hit,
    lemma_evil_hits_saturate, lemma_hero_hits_floor_at_zero, sub_floored, sum_of,
};
pub use crate::shooter::Target;

verus! {

/// Opaque handles of the images a skin assigns to the three kinds of target.
#[derive(Clone, Copy, Debug, PartialEq, Eq, Structural)]
pub enum Image {
    Trump,
    SuperTrump,
    Mexican,
    SuperMexican,
}

/// Phase of the session.
#[derive(Clone, Copy, Debug, PartialEq, Eq, Structural)]
pub enum Mode {
    Idle,
    Running,
    GameOver,
}

/// No free position was found for a new target within the attempt bound.
#[derive(Clone, Copy, Debug, PartialEq, Eq, Structural)]
pub struct PlacementExhausted;

/// Position of a target's upper-left corner.
pub open spec fn pos_of(t: Target) -> (u16, u16) {
    (t.x, t.y)
}

/// An ordinary target spawned at `tick` with the given bounty.
pub open spec fn spawned_normal(t: Target, tick: u64, bounty: u16) -> bool {
    &&& t.width == TARGET_SIZE
    &&& t.height == TARGET_SIZE
    &&& t.bounty == bounty
    &&& t.birthday == tick
    &&& LIFETIME_MIN <= t.lifetime < LIFETIME_MAX
}

/// A super-evil target spawned at `tick`.
pub open spec fn spawned_super(t: Target, tick: u64) -> bool {
    &&& t.width == TARGET_SIZE
    &&& t.height == TARGET_SIZE
    &&& t.bounty == SUPER_EVIL_POINTS
    &&& t.birthday == tick
    &&& t.lifetime == SUPER_EVIL_LIFETIME
}

/// The skin chosen by a start touch: touches on the right half of the
/// display pick the first skin.
pub open spec fn skin_of(touch: (u16, u16)) -> (Image, Image, Image) {
    if touch.0 > DISPLAY_WIDTH / 2 {
        (Image::Mexican, Image::SuperTrump, Image::Trump)
    } else {
        (Image::Trump, Image::SuperMexican, Image::Mexican)
    }
}

/// The countdown after a step: one less, but not below zero.
pub open spec fn count_down(c: u16) -> u16 {
    if c > 0 {
        (c - 1) as u16
    } else {
        0
    }
}

/// A drawn lifetime: `min` plus the word reduced modulo `max - min`.
pub open spec fn drawn_in(word: u32, min: u64, max: u64) -> u64 {
    (min + (word as int) % ((max - min) as int)) as u64
}

/// One spawn of the evil fill at `tick` with `hero` on the display, on the
/// state (generator, evil targets, last reveal, hiding duration, gave up):
/// a lifetime is drawn, then a position; the new target is the super-evil
/// one, and a new hiding duration is drawn, when the reveal is due.
pub open spec fn evil_spawn<R: Rng>(
    s: (R::Model, Seq<Target>, u64, u64, bool),
    hero: Seq<Target>,
    tick: u64,
) -> (R::Model, Seq<Target>, u64, u64, bool) {
    let m1 = R::step(s.0).0;
    let lifetime = drawn_in(R::step(s.0).1, LIFETIME_MIN, LIFETIME_MAX);
    let m2 = advance::<R>(m1, placement_draws::<R>(m1, hero, s.1, 0));
    match first_fit::<R>(m1, hero, s.1, 0) {
        None => (m2, s.1, s.2, s.3, true),
        Some(p) => if elapsed(tick, s.2) >= s.3 {
            (
                R::step(m2).0,
                s.1.push(
                    Target {
                        x: p.0,
                        y: p.1,
                        width: TARGET_SIZE,
                        height: TARGET_SIZE,
                        bounty: SUPER_EVIL_POINTS,
                        birthday: tick,
                        lifetime: SUPER_EVIL_LIFETIME,
                    },
                ),
                tick,
                drawn_in(R::step(m2).1, SUPER_HIDING_MIN, SUPER_HIDING_MAX),
                false,
            )
        } else {
            (
                m2,
                s.1.push(
                    Target {
                        x: p.0,
                        y: p.1,
                        width: TARGET_SIZE,
                        height: TARGET_SIZE,
                        bounty: EVIL_POINTS,
                        birthday: tick,
                        lifetime,
                    },
                ),
                s.2,
                s.3,
                false,
            )
        },
    }
}

/// Evil spawns until the evil targets reach capacity or placement gives up.
pub open spec fn evil_fill<R: Rng>(
    s: (R::Model, Seq<Target>, u64, u64, bool),
    hero: Seq<Target>,
    tick: u64,
) -> (R::Model, Seq<Target>, u64, u64, bool)
    decreases (MAX_EVIL_TARGETS - s.1.len()) * 2 + if s.4 {
        0int
    } else {
        1int
    },
{
    if s.4 || s.1.len() >= MAX_EVIL_TARGETS {
        s
    } else {
        evil_fill::<R>(evil_spawn::<R>(s, hero, tick), hero, tick)
    }
}

/// One spawn of the hero fill at `tick` with `evil` on the display, on the
/// state (generator, hero targets, gave up).
pub open spec fn hero_spawn<R: Rng>(s: (R::Model, Seq<Target>, bool), evil: Seq<Target>, tick: u64) -> (
    R::Model,
    Seq<Target>,
    bool,
) {
    let m1 = R::step(s.0).0;
    let lifetime = drawn_in(R::step(s.0).1, LIFETIME_MIN, LIFETIME_MAX);
    let m2 = advance::<R>(m1, placement_draws::<R>(m1, s.1, evil, 0));
    match first_fit::<R>(m1, s.1, evil, 0) {
        None => (m2, s.1, true),
        Some(p) => (
            m2,
            s.1.push(
                Target {
                    x: p.0,
                    y: p.1,
                    width: TARGET_SIZE,
                    height: TARGET_SIZE,
                    bounty: HERO_POINTS,
                    birthday: tick,
                    lifetime,
                },
            ),
            false,
        ),
    }
}

/// Hero spawns until the hero targets reach capacity or placement gives up.
pub open spec fn hero_fill<R: Rng>(s: (R::Model, Seq<Target>, bool), evil: Seq<Target>, tick: u64) -> (
    R::Model,
    Seq<Target>,
    bool,
)
    decreases (MAX_HERO_TARGETS - s.1.len()) * 2 + if s.2 {
        0int
    } else {
        1int
    },
{
    if s.2 || s.1.len() >= MAX_HERO_TARGETS {
        s
    } else {
        hero_fill::<R>(hero_spawn::<R>(s, evil, tick), evil, tick)
    }
}

/// What a round of shooting did: whether the mute button was touched, and
/// the targets that were hit, in their order.
pub struct ShotReport {
    pub toggled_silent: bool,
    pub evil_hit: Vec<Target>,
    pub hero_hit: Vec<Target>,
}

/// The final score of a round, the highscore after it, and the targets
/// that were still on the display.
pub struct GameOverReport {
    pub score: u16,
    pub highscore: u16,
    pub cleared_evil: Vec<Target>,
    pub cleared_hero: Vec<Target>,
}

/// What a frame asks of the driver.
pub enum FrameOutcome {
    /// Nothing happened.
    Waiting,
    /// A touch was consumed; the driver pauses briefly before polling again.
    Debounced,
    /// The start banner is to be shown.
    ShowStartBanner,
    /// A round started.
    Started,
    /// A frame of play: the countdown, the outcome of spawning, the evil and
    /// hero targets spawned, the shots and the expired evil and hero targets.
    Played {
        countdown: u16,
        spawned: Result<(), PlacementExhausted>,
        spawned_evil: Vec<Target>,
        spawned_hero: Vec<Target>,
        shots: ShotReport,
        expired_evil: Vec<Target>,
        expired_hero: Vec<Target>,
    },
    /// The countdown ran out and the round ended.
    Over(GameOverReport),
}

/// The countdown that a frame at `now` leaves.
pub open spec fn countdown_at(countdown: u16, last_step: u64, now: u64) -> u16 {
    if elapsed(now, last_step) >= COUNTDOWN_STEP {
        count_down(countdown)
    } else {
        countdown
    }
}

/// Some touch lies on the mute button.
pub open spec fn silent_touched(touches: Seq<(u16, u16)>) -> bool {
    exists|j: int|
        0 <= j < touches.len() && within(
            (#[trigger] touches[j].0 as int, touches[j].1 as int),
            silent_zone(),
        )
}

/// The touches off the mute button, in their order.
pub open spec fn aimed(touches: Seq<(u16, u16)>) -> Seq<(u16, u16)>
    decreases touches.len(),
{
    if touches.len() == 0 {
        touches
    } else if within(
        (touches.last().0 as int, touches.last().1 as int),
        silent_zone(),
    ) {
        aimed(touches.drop_last())
    } else {
        aimed(touches.drop_last()).push(touches.last())
    }
}

/// Magnitude of a microphone sample.
pub open spec fn magnitude(a: i16) -> int {
    if a < 0 {
        -a
    } else {
        a as int
    }
}

/// The louder of the two channel samples exceeds the threshold.
pub open spec fn loud(a: i16, b: i16) -> bool {
    vstd::math::max(magnitude(a), magnitude(b)) > VOLUME_THRESHOLD
}

/// The score after the evil hits are rewarded, then the hero hits punished.
pub open spec fn score_after(score: int, evil_hit: Seq<Target>, hero_hit: Seq<Target>) -> int {
    sub_floored(add_capped(score, sum_of(bounties(evil_hit))), sum_of(bounties(hero_hit)))
}

/// The targets from position `from` on.
fn spawned_since(targets: &Vec<Target>, from: usize) -> (r: Vec<Target>)
    requires
        from <= targets@.len(),
    ensures
        r@ == targets@.skip(from as int),
{
    let mut out: Vec<Target> = Vec::new();
    let mut i: usize = from;
    while i < targets.len()
        invariant
            from <= i <= targets@.len(),
            out@ == targets@.subrange(from as int, i as int),
        decreases targets@.len() - i,
    {
        out.push(targets[i]);
        assert(out@ =~= targets@.subrange(from as int, i + 1));
        i = i + 1;
    }
    assert(out@ =~= targets@.skip(from as int));
    out
}

/// Rewards each evil hit in turn.
fn reward_all(score: u16, hits: &Vec<Target>) -> (r: u16)
    ensures
        r == add_capped(score as int, sum_of(bounties(hits@))),
{
    let mut s = score;
    let mut i: usize = 0;
    while i < hits.len()
        invariant
            i <= hits@.len(),
            s == after_evil_hits(score as int, bounties(hits@.take(i as int))),
        decreases hits@.len() - i,
    {
        assert(bounties(hits@.take(i + 1)).drop_last() =~= bounties(hits@.take(i as int)));
        s = apply_evil_hit(s, hits[i].bounty);
        i = i + 1;
    }
    assert(hits@.take(hits@.len() as int) =~= hits@);
    proof {
        lemma_evil_hits_saturate(score, bounties(hits@));
    }
    s
}

/// Punishes each hero hit in turn.
fn punish_all(score: u16, hits: &Vec<Target>) -> (r: u16)
    ensures
        r == sub_floored(score as int, sum_of(bounties(hits@))),
{
    let mut s = score;
    let mut i: usize = 0;
    while i < hits.len()
        invariant
            i <= hits@.len(),
            s == after_hero_hits(score as int, bounties(hits@.take(i as int))),
        decreases hits@.len() - i,
    {
        assert(bounties(hits@.take(i + 1)).drop_last() =~= bounties(hits@.take(i as int)));
        s = apply_hero_hit(s, hits[i].bounty);
        i = i + 1;
    }
    assert(hits@.take(hits@.len() as int) =~= hits@);
    proof {
        lemma_hero_hits_floor_at_zero(score, bounties(hits@));
    }
    s
}

/// The state of one game session.
pub struct Game<R> {
    pub evil_targets: Vec<Target>,
    pub hero_targets: Vec<Target>,
    pub score: u16,
    pub highscore: u16,
    pub countdown: u16,
    pub rand: R,
    pub tick: u64,
    pub last_super_target_render_time: u64,
    pub super_target_hiding_duration: u64,
    pub last_ssd_render_time: u64,
    pub hero_target_img: Image,
    pub super_target_img: Image,
    pub evil_target_img: Image,
    pub silent_mode: bool,
    pub mode: Mode,
    pub touches_to_start: u8,
}

impl<R: Rng> Game<R> {
    pub open spec fn wf(&self) -> bool {
        self.rand.wf()
    }

    /// The super-evil target is due: its hiding duration has passed since
    /// the last reveal.
    pub open spec fn super_due(&self) -> bool {
        elapsed(self.tick, self.last_super_target_render_time) >= self.super_target_hiding_duration
    }

    /// A new session at tick `now`, waiting for its start touch.
    pub fn new(rand: R, now: u64) -> (r: Self)
        requires
            rand.wf(),
        ensures
            r.wf(),
            r.rand == rand,
            r.evil_targets@.len() == 0,
            r.hero_targets@.len() == 0,
            r.score == 0,
            r.highscore == 0,
            r.countdown == GAME_TIME,
            r.tick == now,
            r.last_super_target_render_time == now,
            r.super_target_hiding_duration == 0,
            r.last_ssd_render_time == now,
            (r.hero_target_img, r.super_target_img, r.evil_target_img) == (
                Image::Mexican,
                Image::SuperTrump,
                Image::Trump,
            ),
            !r.silent_mode,
            r.mode == Mode::Idle,
            r.touches_to_start == 1,
    {
        Game {
            evil_targets: Vec::new(),
            hero_targets: Vec::new(),
            score: 0,
            highscore: 0,
            countdown: GAME_TIME,
            rand,
            tick: now,
            last_super_target_render_time: now,
            super_target_hiding_duration: 0,
            last_ssd_render_time: now,
            hero_target_img: Image::Mexican,
            super_target_img: Image::SuperTrump,
            evil_target_img: Image::Trump,
            silent_mode: false,
            mode: Mode::Idle,
            touches_to_start: 1,
        }
    }

    /// `min` plus the next drawn word reduced modulo `max - min`.
    pub fn get_rnd_lifetime(rnd: &mut R, min: u64, max: u64) -> (r: u64)
        requires
            old(rnd).wf(),
            min < max,
        ensures
            final(rnd).wf(),
            r == min + (next_word(old(rnd)) as int) % ((max - min) as int),
            final(rnd).model() == R::step(old(rnd).model()).0,
            min <= r < max,
    {
        let range = max - min;
        min + (rnd.rand() as u64) % range
    }

    /// Starts a round at tick `now`: the countdown and the super-target
    /// schedule restart, the targets are cleared and the touch picks the
    /// skin.
    pub fn start(&mut self, touch: (u16, u16), now: u64)
        requires
            old(self).wf(),
        ensures
            final(self).wf(),
            final(self).mode == Mode::Running,
            final(self).countdown == GAME_TIME,
            final(self).tick == now,
            final(self).last_ssd_render_time == now,
            final(self).last_super_target_render_time == now,
            final(self).super_target_hiding_duration == drawn_in(
                next_word(&old(self).rand),
                SUPER_HIDING_MIN,
                SUPER_HIDING_MAX,
            ),
            final(self).rand.model() == R::step(old(self).rand.model()).0,
            final(self).evil_targets@.len() == 0,
            final(self).hero_targets@.len() == 0,
            (final(self).hero_target_img, final(self).super_target_img, final(self).evil_target_img) == skin_of(touch),
            final(self).score == old(self).score,
            final(self).highscore == old(self).highscore,
            final(self).silent_mode == old(self).silent_mode,
            final(self).touches_to_start == old(self).touches_to_start,
    {
        self.tick = now;
        self.last_ssd_render_time = now;
        self.last_super_target_render_time = now;
        self.super_target_hiding_duration = Self::get_rnd_lifetime(
            &mut self.rand,
            SUPER_HIDING_MIN,
            SUPER_HIDING_MAX,
        );
        self.countdown = GAME_TIME;
        self.evil_targets = Vec::new();
        self.hero_targets = Vec::new();
        if touch.0 > DISPLAY_WIDTH / 2 {
            self.hero_target_img = Image::Mexican;
            self.super_target_img = Image::SuperTrump;
            self.evil_target_img = Image::Trump;
        } else {
            self.hero_target_img = Image::Trump;
            self.super_target_img = Image::SuperMexican;
            self.evil_target_img = Image::Mexican;
        }
        self.mode = Mode::Running;
    }

    /// Reads the clock: once `COUNTDOWN_STEP` ticks have passed since the
    /// last step, the countdown goes down by one, stopping at zero.
    /// Returns the countdown.
    pub fn update_countdown(&mut self, now: u64) -> (r: u16)
        requires
            old(self).wf(),
        ensures
            final(self).wf(),
            final(self).tick == now,
            elapsed(now, old(self).last_ssd_render_time) >= COUNTDOWN_STEP ==> final(self).countdown == count_down(old(self).countdown) && final(self).last_ssd_render_time
                == now,
            elapsed(now, old(self).last_ssd_render_time) < COUNTDOWN_STEP ==> final(self).countdown
                == old(self).countdown && final(self).last_ssd_render_time == old(self).last_ssd_render_time,
            r == final(self).countdown,
            final(self).rand == old(self).rand,
            final(self).evil_targets == old(self).evil_targets,
            final(self).hero_targets == old(self).hero_targets,
            final(self).score == old(self).score,
            final(self).highscore == old(self).highscore,
            final(self).mode == old(self).mode,
            final(self).silent_mode == old(self).silent_mode,
            final(self).last_super_target_render_time == old(self).last_super_target_render_time,
            final(self).super_target_hiding_duration == old(self).super_target_hiding_duration,
            final(self).touches_to_start == old(self).touches_to_start,
            Self::same_skin(old(self), final(self)),
    {
        self.tick = now;
        if ticks_since(self.tick, self.last_ssd_render_time) >= COUNTDOWN_STEP {
            self.countdown = if self.countdown > 0 {
                self.countdown - 1
            } else {
                0
            };
            self.last_ssd_render_time = self.tick;
        }
        self.countdown
    }

    /// The outcome of the evil fill from this state with the clock at `tick`.
    pub open spec fn evil_fill_at(&self, tick: u64) -> (R::Model, Seq<Target>, u64, u64, bool) {
        evil_fill::<R>(
            (
                self.rand.model(),
                self.evil_targets@,
                self.last_super_target_render_time,
                self.super_target_hiding_duration,
                false,
            ),
            self.hero_targets@,
            tick,
        )
    }

    /// The outcome of the hero fill that follows the evil fill from this
    /// state with the clock at `tick`.
    pub open spec fn hero_fill_at(&self, tick: u64) -> (R::Model, Seq<Target>, bool) {
        hero_fill::<R>(
            (self.evil_fill_at(tick).0, self.hero_targets@, false),
            self.evil_fill_at(tick).1,
            tick,
        )
    }

    /// The outcome of the evil fill from this state.
    pub open spec fn evil_fill_of(&self) -> (R::Model, Seq<Target>, u64, u64, bool) {
        self.evil_fill_at(self.tick)
    }

    /// The outcome of the hero fill that follows the evil fill from this
    /// state.
    pub open spec fn hero_fill_of(&self) -> (R::Model, Seq<Target>, bool) {
        self.hero_fill_at(self.tick)
    }

    /// The hero targets after both fills at `tick`: unchanged when the evil
    /// fill gave up.
    pub open spec fn filled_hero(&self, tick: u64) -> Seq<Target> {
        if self.evil_fill_at(tick).4 {
            self.hero_targets@
        } else {
            self.hero_fill_at(tick).1
        }
    }

    /// The generator state after both fills at `tick`.
    pub open spec fn filled_model(&self, tick: u64) -> R::Model {
        if self.evil_fill_at(tick).4 {
            self.evil_fill_at(tick).0
        } else {
            self.hero_fill_at(tick).0
        }
    }

    /// Placement gave up during one of the fills at `tick`.
    pub open spec fn fill_failed(&self, tick: u64) -> bool {
        self.evil_fill_at(tick).4 || self.hero_fill_at(tick).2
    }

    /// `r` and `after` are what a frame of play at `now` makes of `before`
    /// with the countdown left at a positive value: the countdown steps, the
    /// evil and hero targets are filled, the shots are taken (the mute
    /// button toggles silent mode; hits count in silent mode or when the
    /// microphone is loud), and the targets expired at `now` are removed.
    pub open spec fn played(
        before: &Self,
        after: &Self,
        now: u64,
        touches: Seq<(u16, u16)>,
        volume: (i16, i16),
        r: &FrameOutcome,
    ) -> bool {
        let fe = before.evil_fill_at(now).1;
        let fh = before.filled_hero(now);
        let toggled = silent_touched(touches);
        let silent = before.silent_mode != toggled;
        let gate = silent || loud(volume.0, volume.1);
        let evil_left = if gate {
            missed(fe, aimed(touches))
        } else {
            fe
        };
        let hero_left = if gate {
            missed(fh, aimed(touches))
        } else {
            fh
        };
        match *r {
            FrameOutcome::Played {
                countdown,
                spawned,
                spawned_evil,
                spawned_hero,
                shots,
                expired_evil,
                expired_hero,
            } => {
                &&& countdown == after.countdown
                &&& after.countdown == countdown_at(
                    before.countdown,
                    before.last_ssd_render_time,
                    now,
                )
                &&& after.last_ssd_render_time == if elapsed(now, before.last_ssd_render_time)
                    >= COUNTDOWN_STEP {
                    now
                } else {
                    before.last_ssd_render_time
                }
                &&& after.tick == now
                &&& (spawned is Err <==> before.fill_failed(now))
                &&& spawned_evil@ == fe.skip(before.evil_targets@.len() as int)
                &&& spawned_hero@ == fh.skip(before.hero_targets@.len() as int)
                &&& after.rand.model() == before.filled_model(now)
                &&& after.last_super_target_render_time == before.evil_fill_at(now).2
                &&& after.super_target_hiding_duration == before.evil_fill_at(now).3
                &&& shots.toggled_silent == toggled
                &&& after.silent_mode == silent
                &&& shots.evil_hit@ == if gate {
                    shot(fe, aimed(touches))
                } else {
                    Seq::empty()
                }
                &&& shots.hero_hit@ == if gate {
                    shot(fh, aimed(touches))
                } else {
                    Seq::empty()
                }
                &&& after.score == if gate {
                    score_after(before.score as int, shots.evil_hit@, shots.hero_hit@)
                } else {
                    before.score as int
                }
                &&& after.evil_targets@ == alive(evil_left, now)
                &&& after.hero_targets@ == alive(hero_left, now)
                &&& expired_evil@ == aged_out(evil_left, now)
                &&& expired_hero@ == aged_out(hero_left, now)
                &&& after.highscore == before.highscore
                &&& after.mode == Mode::Running
                &&& after.touches_to_start == before.touches_to_start
                &&& Self::same_skin(before, after)
            },
            _ => false,
        }
    }

    /// The two states show the same skin.
    pub open spec fn same_skin(a: &Self, b: &Self) -> bool {
        a.hero_target_img == b.hero_target_img && a.super_target_img == b.super_target_img
            && a.evil_target_img == b.evil_target_img
    }

    /// A fill from state `before` to state `after` revealed the super-evil
    /// target: it was due and at least one evil target was spawned.
    pub open spec fn revealed(before: &Self, after: &Self) -> bool {
        after.evil_targets@.len() > before.evil_targets@.len() && before.super_due()
    }

    /// Fills the evil targets, then the hero targets, up to their
    /// capacities. Each new target gets a random lifetime and a position
    /// that passes `pos_is_okay` against every target present at that
    /// moment. The first new evil target is the super-evil one when it is
    /// due; revealing it restarts the schedule with a new hiding duration.
    #[verifier::loop_isolation(false)]
    pub fn draw_missing_targets(&mut self) -> (r: Result<(), PlacementExhausted>)
        requires
            old(self).wf(),
        ensures
            final(self).wf(),
            final(self).score == old(self).score,
            final(self).highscore == old(self).highscore,
            final(self).countdown == old(self).countdown,
            final(self).tick == old(self).tick,
            final(self).last_ssd_render_time == old(self).last_ssd_render_time,
            final(self).mode == old(self).mode,
            final(self).silent_mode == old(self).silent_mode,
            final(self).touches_to_start == old(self).touches_to_start,
            Self::same_skin(old(self), final(self)),
            final(self).evil_targets@ == old(self).evil_fill_of().1,
            final(self).last_super_target_render_time == old(self).evil_fill_of().2,
            final(self).super_target_hiding_duration == old(self).evil_fill_of().3,
            old(self).evil_fill_of().4 ==> r is Err && final(self).rand.model() == old(
                self
            ).evil_fill_of().0 && final(self).hero_targets@ == old(self).hero_targets@,
            !old(self).evil_fill_of().4 ==> final(self).rand.model() == old(self).hero_fill_of().0
                && final(self).hero_targets@ == old(self).hero_fill_of().1 && (r is Err <==> old(
                self
            ).hero_fill_of().2),
            old(self).evil_targets@.len() <= final(self).evil_targets@.len(),
            old(self).hero_targets@.len() <= final(self).hero_targets@.len(),
            final(self).evil_targets@.take(old(self).evil_targets@.len() as int) == old(
                self
            ).evil_targets@,
            final(self).hero_targets@.take(old(self).hero_targets@.len() as int) == old(
                self
            ).hero_targets@,
            final(self).evil_targets@.len() > old(self).evil_targets@.len() ==> final(
                self
            ).evil_targets@.len() <= MAX_EVIL_TARGETS,
            final(self).hero_targets@.len() > old(self).hero_targets@.len() ==> final(
                self
            ).hero_targets@.len() <= MAX_HERO_TARGETS,
            r is Ok ==> final(self).evil_targets@.len() >= MAX_EVIL_TARGETS && final(
                self
            ).hero_targets@.len() >= MAX_HERO_TARGETS,
            r is Err ==> final(self).evil_targets@.len() < MAX_EVIL_TARGETS || final(
                self
            ).hero_targets@.len() < MAX_HERO_TARGETS,
            r is Ok && old(self).evil_targets@.len() <= MAX_EVIL_TARGETS ==> final(
                self
            ).evil_targets@.len() == MAX_EVIL_TARGETS,
            r is Ok && old(self).hero_targets@.len() <= MAX_HERO_TARGETS ==> final(
                self
            ).hero_targets@.len() == MAX_HERO_TARGETS,
            forall|k: int|
                old(self).evil_targets@.len() <= k < final(self).evil_targets@.len() ==> pos_ok(
                    pos_of(#[trigger] final(self).evil_targets@[k]),
                    old(self).hero_targets@,
                    final(self).evil_targets@.take(k),
                ),
            forall|k: int|
                old(self).hero_targets@.len() <= k < final(self).hero_targets@.len() ==> pos_ok(
                    pos_of(#[trigger] final(self).hero_targets@[k]),
                    final(self).hero_targets@.take(k),
                    final(self).evil_targets@,
                ),
            forall|k: int|
                old(self).hero_targets@.len() <= k < final(self).hero_targets@.len()
                    ==> spawned_normal(#[trigger] final(self).hero_targets@[k], old(self).tick, HERO_POINTS),
            forall|k: int|
                old(self).evil_targets@.len() <= k < final(self).evil_targets@.len() ==> if k
                    == old(self).evil_targets@.len() && old(self).super_due() {
                    spawned_super(#[trigger] final(self).evil_targets@[k], old(self).tick)
                } else {
                    spawned_normal(final(self).evil_targets@[k], old(self).tick, EVIL_POINTS)
                },
            Self::revealed(old(self), final(self)) ==> final(self).last_super_target_render_time
                == old(self).tick && SUPER_HIDING_MIN <= final(self).super_target_hiding_duration
                < SUPER_HIDING_MAX,
            !Self::revealed(old(self), final(self)) ==> final(self).last_super_target_render_time
                == old(self).last_super_target_render_time && final(self).super_target_hiding_duration
                == old(self).super_target_hiding_duration,
    {
        let ghost e0 = old(self).evil_targets@.len();
        let ghost h0 = old(self).hero_targets@.len();
        while self.evil_targets.len() < MAX_EVIL_TARGETS
            invariant
                self.wf(),
                self.score == old(self).score,
                self.highscore == old(self).highscore,
                self.countdown == old(self).countdown,
                self.tick == old(self).tick,
                self.last_ssd_render_time == old(self).last_ssd_render_time,
                self.mode == old(self).mode,
                self.silent_mode == old(self).silent_mode,
                self.touches_to_start == old(self).touches_to_start,
                Self::same_skin(old(self), self),
                self.hero_targets == old(self).hero_targets,
                e0 == old(self).evil_targets@.len(),
                e0 <= self.evil_targets@.len(),
                self.evil_targets@.len() > e0 ==> self.evil_targets@.len() <= MAX_EVIL_TARGETS,
                self.evil_targets@.take(e0 as int) == old(self).evil_targets@,
                forall|k: int|
                    e0 <= k < self.evil_targets@.len() ==> pos_ok(
                        pos_of(#[trigger] self.evil_targets@[k]),
                        old(self).hero_targets@,
                        self.evil_targets@.take(k),
                    ),
                forall|k: int|
                    e0 <= k < self.evil_targets@.len() ==> if k == e0 && old(self).super_due() {
                        spawned_super(#[trigger] self.evil_targets@[k], old(self).tick)
                    } else {
                        spawned_normal(self.evil_targets@[k], old(self).tick, EVIL_POINTS)
                    },
                Self::revealed(old(self), self) ==> self.last_super_target_render_time == old(
                    self
                ).tick && SUPER_HIDING_MIN <= self.super_target_hiding_duration < SUPER_HIDING_MAX,
                !Self::revealed(old(self), self) ==> self.last_super_target_render_time == old(
                    self
                ).last_super_target_render_time && self.super_target_hiding_duration == old(
                    self
                ).super_target_hiding_duration,
                evil_fill::<R>(
                    (
                        self.rand.model(),
                        self.evil_targets@,
                        self.last_super_target_render_time,
                        self.super_target_hiding_duration,
                        false,
                    ),
                    old(self).hero_targets@,
                    old(self).tick,
                ) == old(self).evil_fill_of(),
            decreases MAX_EVIL_TARGETS - self.evil_targets@.len(),
        {
            let ghost cur = (
                self.rand.model(),
                self.evil_targets@,
                self.last_super_target_render_time,
                self.super_target_hiding_duration,
                false,
            );
            let ghost next = evil_spawn::<R>(cur, old(self).hero_targets@, old(self).tick);
            assert(evil_fill::<R>(cur, old(self).hero_targets@, old(self).tick) == evil_fill::<R>(
                next,
                old(self).hero_targets@,
                old(self).tick,
            ));
            let lifetime = Self::get_rnd_lifetime(&mut self.rand, LIFETIME_MIN, LIFETIME_MAX);
            let pos = match get_rnd_pos(
                &mut self.rand,
                self.hero_targets.as_slice(),
                self.evil_targets.as_slice(),
            ) {
                Some(p) => p,
                None => {
                    assert(next == (
                        self.rand.model(),
                        self.evil_targets@,
                        self.last_super_target_render_time,
                        self.super_target_hiding_duration,
                        true,
                    ));
                    return Err(PlacementExhausted);
                },
            };
            let ghost before = self.evil_targets@;
            if ticks_since(self.tick, self.last_super_target_render_time)
                >= self.super_target_hiding_duration {
                self.last_super_target_render_time = self.tick;
                self.evil_targets.push(
                    Target::new(
                        pos.0,
                        pos.1,
                        TARGET_SIZE,
                        TARGET_SIZE,
                        SUPER_EVIL_POINTS,
                        self.tick,
                        SUPER_EVIL_LIFETIME,
                    ),
                );
                self.super_target_hiding_duration = Self::get_rnd_lifetime(
                    &mut self.rand,
                    SUPER_HIDING_MIN,
                    SUPER_HIDING_MAX,
                );
            } else {
                self.evil_targets.push(
                    Target::new(
                        pos.0,
                        pos.1,
                        TARGET_SIZE,
                        TARGET_SIZE,
                        EVIL_POINTS,
                        self.tick,
                        lifetime,
                    ),
                );
            }
            assert(next == (
                self.rand.model(),
                self.evil_targets@,
                self.last_super_target_render_time,
                self.super_target_hiding_duration,
                false,
            ));
            assert(self.evil_targets@.take(before.len() as int) =~= before);
            assert(self.evil_targets@.take(e0 as int) =~= before.take(e0 as int));
            assert forall|k: int| e0 <= k < before.len() implies self.evil_targets@.take(k)
                == before.take(k) by {
                assert(self.evil_targets@.take(k) =~= before.take(k));
            }
        }
        let ghost mid_evil = self.evil_targets@;
        let ghost mid_last = self.last_super_target_render_time;
        let ghost mid_hiding = self.super_target_hiding_duration;
        assert(old(self).evil_fill_of() == (
            self.rand.model(),
            mid_evil,
            mid_last,
            mid_hiding,
            false,
        ));
        assert(self.hero_targets@ == old(self).hero_targets@);
        assert(e0 <= mid_evil.len());
        assert(mid_evil.take(e0 as int) == old(self).evil_targets@);
        assert(mid_evil.len() > e0 ==> mid_evil.len() <= MAX_EVIL_TARGETS);
        assert(forall|k: int|
            e0 <= k < mid_evil.len() ==> pos_ok(
                pos_of(#[trigger] mid_evil[k]),
                old(self).hero_targets@,
                mid_evil.take(k),
            ));
        assert(forall|k: int|
            e0 <= k < mid_evil.len() ==> if k == e0 && old(self).super_due() {
                spawned_super(#[trigger] mid_evil[k], old(self).tick)
            } else {
                spawned_normal(mid_evil[k], old(self).tick, EVIL_POINTS)
            });
        assert(mid_evil.len() > e0 && old(self).super_due() ==> mid_last == old(self).tick
            && SUPER_HIDING_MIN <= mid_hiding < SUPER_HIDING_MAX);
        assert(!(mid_evil.len() > e0 && old(self).super_due()) ==> mid_last == old(
            self
        ).last_super_target_render_time && mid_hiding == old(self).super_target_hiding_duration);
        while self.hero_targets.len() < MAX_HERO_TARGETS
            invariant
                self.wf(),
                self.evil_targets@ == mid_evil,
                self.last_super_target_render_time == mid_last,
                self.super_target_hiding_duration == mid_hiding,
                self.score == old(self).score,
                self.highscore == old(self).highscore,
                self.countdown == old(self).countdown,
                self.tick == old(self).tick,
                self.last_ssd_render_time == old(self).last_ssd_render_time,
                self.mode == old(self).mode,
                self.silent_mode == old(self).silent_mode,
                self.touches_to_start == old(self).touches_to_start,
                Self::same_skin(old(self), self),
                self.evil_targets@.len() >= MAX_EVIL_TARGETS,
                h0 == old(self).hero_targets@.len(),
                h0 <= self.hero_targets@.len(),
                self.hero_targets@.len() > h0 ==> self.hero_targets@.len() <= MAX_HERO_TARGETS,
                self.hero_targets@.take(h0 as int) == old(self).hero_targets@,
                forall|k: int|
                    h0 <= k < self.hero_targets@.len() ==> pos_ok(
                        pos_of(#[trigger] self.hero_targets@[k]),
                        self.hero_targets@.take(k),
                        self.evil_targets@,
                    ),
                forall|k: int|
                    h0 <= k < self.hero_targets@.len() ==> spawned_normal(
                        #[trigger] self.hero_targets@[k],
                        old(self).tick,
                        HERO_POINTS,
                    ),
                hero_fill::<R>((self.rand.model(), self.hero_targets@, false), mid_evil, old(self).tick)
                    == old(self).hero_fill_of(),
            decreases MAX_HERO_TARGETS - self.hero_targets@.len(),
        {
            let ghost cur = (self.rand.model(), self.hero_targets@, false);
            let ghost next = hero_spawn::<R>(cur, mid_evil, old(self).tick);
            assert(hero_fill::<R>(cur, mid_evil, old(self).tick) == hero_fill::<R>(
                next,
                mid_evil,
                old(self).tick,
            ));
            let lifetime = Self::get_rnd_lifetime(&mut self.rand, LIFETIME_MIN, LIFETIME_MAX);
            let pos = match get_rnd_pos(
                &mut self.rand,
                self.hero_targets.as_slice(),
                self.evil_targets.as_slice(),
            ) {
                Some(p) => p,
                None => {
                    assert(next == (self.rand.model(), self.hero_targets@, true));
                    return Err(PlacementExhausted);
                },
            };
            let ghost before = self.hero_targets@;
            self.hero_targets.push(
                Target::new(
                    pos.0,
                    pos.1,
                    TARGET_SIZE,
                    TARGET_SIZE,
                    HERO_POINTS,
                    self.tick,
                    lifetime,
                ),
            );
            assert(next == (self.rand.model(), self.hero_targets@, false));
            assert(self.hero_targets@.take(before.len() as int) =~= before);
            assert(self.hero_targets@.take(h0 as int) =~= before.take(h0 as int));
            assert forall|k: int| h0 <= k < before.len() implies self.hero_targets@.take(k)
                == before.take(k) by {
                assert(self.hero_targets@.take(k) =~= before.take(k));
            }
        }
        Ok(())
    }

    /// The image of an evil target: the super-evil image for a target with
    /// the super-evil bounty, the evil image otherwise.
    pub fn evil_image(&self, t: &Target) -> (r: Image)
        ensures
            r == if t.bounty == SUPER_EVIL_POINTS {
                self.super_target_img
            } else {
                self.evil_target_img
            },
    {
        if t.bounty == SUPER_EVIL_POINTS {
            self.super_target_img
        } else {
            self.evil_target_img
        }
    }

    /// Some touch lies on the mute button.
    pub fn silent_btn_touched(touches: &[(u16, u16)]) -> (r: bool)
        ensures
            r == silent_touched(touches@),
    {
        let silent_ul = (0u32, (DISPLAY_HEIGHT - SILENT_BTN_SIZE) as u32);
        let silent_lr = (SILENT_BTN_SIZE as u32, DISPLAY_HEIGHT as u32);
        let mut j: usize = 0;
        while j < touches.len()
            invariant
                j <= touches@.len(),
                silent_ul == (0u32, (DISPLAY_HEIGHT - SILENT_BTN_SIZE) as u32),
                silent_lr == (SILENT_BTN_SIZE as u32, DISPLAY_HEIGHT as u32),
                forall|k: int|
                    0 <= k < j ==> !within(
                        (#[trigger] touches@[k].0 as int, touches@[k].1 as int),
                        silent_zone(),
                    ),
            decreases touches@.len() - j,
        {
            let t = touches[j];
            assert(silent_zone() == ((silent_ul.0 as int, silent_ul.1 as int), (
                silent_lr.0 as int,
                silent_lr.1 as int,
            )));
            assert(t == touches@[j as int]);
            if point_is_within((t.0 as u32, t.1 as u32), silent_ul, silent_lr) {
                assert(within((touches@[j as int].0 as int, touches@[j as int].1 as int), silent_zone()));
                return true;
            }
            j = j + 1;
        }
        false
    }

    /// The touches that do not land on the mute button, in their order.
    pub fn touches_off_button(touches: &[(u16, u16)]) -> (r: Vec<(u16, u16)>)
        ensures
            r@ == aimed(touches@),
    {
        let silent_ul = (0u32, (DISPLAY_HEIGHT - SILENT_BTN_SIZE) as u32);
        let silent_lr = (SILENT_BTN_SIZE as u32, DISPLAY_HEIGHT as u32);
        let mut out: Vec<(u16, u16)> = Vec::new();
        let mut j: usize = 0;
        while j < touches.len()
            invariant
                j <= touches@.len(),
                silent_ul == (0u32, (DISPLAY_HEIGHT - SILENT_BTN_SIZE) as u32),
                silent_lr == (SILENT_BTN_SIZE as u32, DISPLAY_HEIGHT as u32),
                out@ == aimed(touches@.take(j as int)),
            decreases touches@.len() - j,
        {
            let t = touches[j];
            assert(touches@.take(j + 1).drop_last() =~= touches@.take(j as int));
            assert(touches@.take(j + 1).last() == t);
            if !point_is_within((t.0 as u32, t.1 as u32), silent_ul, silent_lr) {
                out.push(t);
            }
            j = j + 1;
        }
        assert(touches@.take(touches@.len() as int) =~= touches@);
        out
    }

    /// The louder of two channel samples exceeds the volume threshold.
    pub fn vol_limit_reached(data0: i16, data1: i16) -> (r: bool)
        ensures
            r == loud(data0, data1),
    {
        let a: i32 = if data0 < 0 {
            -(data0 as i32)
        } else {
            data0 as i32
        };
        let b: i32 = if data1 < 0 {
            -(data1 as i32)
        } else {
            data1 as i32
        };
        let mic_data = if a > b {
            a
        } else {
            b
        };
        mic_data > VOLUME_THRESHOLD as i32
    }

    /// A touch on the mute button toggles silent mode and shoots nothing.
    /// Then, in silent mode or when the microphone is loud, every target
    /// that another touch hits is removed: evil hits add their bounty to the score, hero hits take
    /// theirs away, never below zero.
    pub fn process_shooting(&mut self, touches: &[(u16, u16)], volume: (i16, i16)) -> (r:
        ShotReport)
        requires
            old(self).wf(),
        ensures
            final(self).wf(),
            r.toggled_silent == silent_touched(touches@),
            final(self).silent_mode == (old(self).silent_mode != r.toggled_silent),
            !(final(self).silent_mode || loud(volume.0, volume.1)) ==> r.evil_hit@.len() == 0
                && r.hero_hit@.len() == 0 && final(self).evil_targets@ == old(self).evil_targets@
                && final(self).hero_targets@ == old(self).hero_targets@ && final(self).score == old(
                self
            ).score,
            final(self).silent_mode || loud(volume.0, volume.1) ==> r.evil_hit@ == shot(
                old(self).evil_targets@,
                aimed(touches@),
            ) && r.hero_hit@ == shot(old(self).hero_targets@, aimed(touches@)) && final(
                self
            ).evil_targets@ == missed(old(self).evil_targets@, aimed(touches@)) && final(
                self
            ).hero_targets@ == missed(old(self).hero_targets@, aimed(touches@)) && final(self).score
                == score_after(old(self).score as int, r.evil_hit@, r.hero_hit@),
            final(self).rand == old(self).rand,
            final(self).highscore == old(self).highscore,
            final(self).countdown == old(self).countdown,
            final(self).tick == old(self).tick,
            final(self).mode == old(self).mode,
            final(self).last_super_target_render_time == old(self).last_super_target_render_time,
            final(self).super_target_hiding_duration == old(self).super_target_hiding_duration,
            final(self).last_ssd_render_time == old(self).last_ssd_render_time,
            final(self).touches_to_start == old(self).touches_to_start,
            Self::same_skin(old(self), final(self)),
    {
        let toggled = Self::silent_btn_touched(touches);
        if toggled {
            self.silent_mode = !self.silent_mode;
        }
        if !self.silent_mode && !Self::vol_limit_reached(volume.0, volume.1) {
            return ShotReport { toggled_silent: toggled, evil_hit: Vec::new(), hero_hit: Vec::new() };
        }
        let shots = Self::touches_off_button(touches);
        let evil_indices = Target::check_for_hit(self.evil_targets.as_slice(), shots.as_slice());
        assert(self.evil_targets@.len() == self.evil_targets.len());
        proof {
            lemma_remove_reported_hits(self.evil_targets@, shots@);
        }
        let evil_hit = remove_hit(&mut self.evil_targets, evil_indices.as_slice());
        self.score = reward_all(self.score, &evil_hit);
        let hero_indices = Target::check_for_hit(self.hero_targets.as_slice(), shots.as_slice());
        assert(self.hero_targets@.len() == self.hero_targets.len());
        proof {
            lemma_remove_reported_hits(self.hero_targets@, shots@);
        }
        let hero_hit = remove_hit(&mut self.hero_targets, hero_indices.as_slice());
        self.score = punish_all(self.score, &hero_hit);
        ShotReport { toggled_silent: toggled, evil_hit, hero_hit }
    }

    /// Removes every target that has outlived its lifetime at the current
    /// tick; returns the expired evil and hero targets.
    pub fn purge_old_targets(&mut self) -> (r: (Vec<Target>, Vec<Target>))
        requires
            old(self).wf(),
        ensures
            final(self).wf(),
            final(self).evil_targets@ == alive(old(self).evil_targets@, old(self).tick),
            final(self).hero_targets@ == alive(old(self).hero_targets@, old(self).tick),
            r.0@ == aged_out(old(self).evil_targets@, old(self).tick),
            r.1@ == aged_out(old(self).hero_targets@, old(self).tick),
            final(self).rand == old(self).rand,
            final(self).score == old(self).score,
            final(self).highscore == old(self).highscore,
            final(self).countdown == old(self).countdown,
            final(self).tick == old(self).tick,
            final(self).mode == old(self).mode,
            final(self).silent_mode == old(self).silent_mode,
            final(self).last_super_target_render_time == old(self).last_super_target_render_time,
            final(self).super_target_hiding_duration == old(self).super_target_hiding_duration,
            final(self).last_ssd_render_time == old(self).last_ssd_render_time,
            final(self).touches_to_start == old(self).touches_to_start,
            Self::same_skin(old(self), final(self)),
    {
        let (evil_kept, evil_gone) = split_expired(&self.evil_targets, self.tick);
        let (hero_kept, hero_gone) = split_expired(&self.hero_targets, self.tick);
        self.evil_targets = evil_kept;
        self.hero_targets = hero_kept;
        (evil_gone, hero_gone)
    }

    /// Clears all targets and zeroes the countdown and the score; returns the
    /// evil and hero targets that were cleared.
    pub fn reset_game(&mut self) -> (r: (Vec<Target>, Vec<Target>))
        requires
            old(self).wf(),
        ensures
            final(self).wf(),
            r.0@ == old(self).evil_targets@,
            r.1@ == old(self).hero_targets@,
            final(self).evil_targets@.len() == 0,
            final(self).hero_targets@.len() == 0,
            final(self).countdown == 0,
            final(self).score == 0,
            final(self).rand == old(self).rand,
            final(self).highscore == old(self).highscore,
            final(self).tick == old(self).tick,
            final(self).mode == old(self).mode,
            final(self).silent_mode == old(self).silent_mode,
            final(self).touches_to_start == old(self).touches_to_start,
            final(self).last_super_target_render_time == old(self).last_super_target_render_time,
            final(self).super_target_hiding_duration == old(self).super_target_hiding_duration,
            final(self).last_ssd_render_time == old(self).last_ssd_render_time,
            Self::same_skin(old(self), final(self)),
    {
        let mut evil: Vec<Target> = Vec::new();
        let mut hero: Vec<Target> = Vec::new();
        std::mem::swap(&mut evil, &mut self.evil_targets);
        std::mem::swap(&mut hero, &mut self.hero_targets);
        self.countdown = 0;
        self.score = 0;
        (evil, hero)
    }

    /// Ends the round: the highscore becomes the larger of itself and the
    /// score, the session is reset and the final score is reported.
    pub fn game_over(&mut self) -> (r: GameOverReport)
        requires
            old(self).wf(),
        ensures
            final(self).wf(),
            r.score == old(self).score,
            final(self).highscore == if old(self).score > old(self).highscore {
                old(self).score
            } else {
                old(self).highscore
            },
            r.highscore == final(self).highscore,
            r.cleared_evil@ == old(self).evil_targets@,
            r.cleared_hero@ == old(self).hero_targets@,
            final(self).evil_targets@.len() == 0,
            final(self).hero_targets@.len() == 0,
            final(self).countdown == 0,
            final(self).score == 0,
            final(self).mode == Mode::GameOver,
            final(self).rand == old(self).rand,
            final(self).tick == old(self).tick,
            final(self).silent_mode == old(self).silent_mode,
            final(self).touches_to_start == old(self).touches_to_start,
            final(self).last_super_target_render_time == old(self).last_super_target_render_time,
            final(self).super_target_hiding_duration == old(self).super_target_hiding_duration,
            final(self).last_ssd_render_time == old(self).last_ssd_render_time,
            Self::same_skin(old(self), final(self)),
    {
        if self.score > self.highscore {
            self.highscore = self.score;
        }
        let score = self.score;
        let (cleared_evil, cleared_hero) = self.reset_game();
        self.mode = Mode::GameOver;
        GameOverReport { score, highscore: self.highscore, cleared_evil, cleared_hero }
    }

    /// One frame of the session at tick `now`. While running, the countdown
    /// advances; at zero the round ends, otherwise targets are spawned, shots
    /// processed and aged targets removed. Otherwise the session waits for
    /// touches: after a round, the first touch is consumed, the second shows
    /// the start banner, and the next one starts a round with the skin that
    /// its position picks.
    pub fn frame(&mut self, now: u64, touches: &[(u16, u16)], volume: (i16, i16)) -> (r:
        FrameOutcome)
        requires
            old(self).wf(),
        ensures
            final(self).wf(),
            old(self).mode == Mode::Running && countdown_at(
                old(self).countdown,
                old(self).last_ssd_render_time,
                now,
            ) > 0 ==> Self::played(old(self), final(self), now, touches@, volume, &r),
            old(self).mode == Mode::Running && countdown_at(
                old(self).countdown,
                old(self).last_ssd_render_time,
                now,
            ) == 0 ==> final(self).mode == Mode::GameOver && final(self).countdown == 0 && final(
                self
            ).score == 0 && final(self).highscore == (if old(self).score > old(self).highscore {
                old(self).score
            } else {
                old(self).highscore
            }) && (r matches FrameOutcome::Over(rep) && rep.score == old(self).score
                && rep.highscore == final(self).highscore),
            old(self).mode != Mode::Running && (touches@.len() == 0 || old(self).touches_to_start
                == 0) ==> r is Waiting && final(self).mode == Mode::Idle && final(self).touches_to_start
                == old(self).touches_to_start,
            old(self).mode != Mode::Running && touches@.len() > 0 && old(self).touches_to_start > 2
                ==> r is Debounced && final(self).mode == Mode::Idle && final(self).touches_to_start
                == old(self).touches_to_start - 1,
            old(self).mode != Mode::Running && touches@.len() > 0 && old(self).touches_to_start == 2
                ==> r is ShowStartBanner && final(self).mode == Mode::Idle && final(
                self
            ).touches_to_start == 1,
            old(self).mode != Mode::Running && touches@.len() > 0 && old(self).touches_to_start == 1
                ==> r is Started && final(self).mode == Mode::Running && final(self).countdown
                == GAME_TIME && final(self).tick == now && final(self).last_super_target_render_time
                == now && final(self).last_ssd_render_time == now && final(self).evil_targets@.len()
                == 0 && final(self).hero_targets@.len() == 0 && final(self).touches_to_start == 3
                && (final(self).hero_target_img, final(self).super_target_img, final(
                self
            ).evil_target_img) == skin_of(touches@.last()) && final(self).super_target_hiding_duration
                == drawn_in(next_word(&old(self).rand), SUPER_HIDING_MIN, SUPER_HIDING_MAX) && final(
                self
            ).rand.model() == R::step(old(self).rand.model()).0 && final(self).silent_mode == old(
                self
            ).silent_mode,
            old(self).mode != Mode::Running ==> final(self).score == old(self).score && final(
                self
            ).highscore == old(self).highscore,
    {
        match self.mode {
            Mode::Running => {
                let countdown = self.update_countdown(now);
                if 0 < countdown {
                    let ghost s1 = *self;
                    assert(s1.evil_fill_of() == old(self).evil_fill_at(now));
                    assert(s1.hero_fill_of() == old(self).hero_fill_at(now));
                    let evil_before = self.evil_targets.len();
                    let hero_before = self.hero_targets.len();
                    let spawned = self.draw_missing_targets();
                    let ghost s2 = *self;
                    assert(s2.evil_targets@ == old(self).evil_fill_at(now).1);
                    assert(s2.hero_targets@ == old(self).filled_hero(now));
                    assert(s2.rand.model() == old(self).filled_model(now));
                    assert(spawned is Err <==> old(self).fill_failed(now));
                    let spawned_evil = spawned_since(&self.evil_targets, evil_before);
                    let spawned_hero = spawned_since(&self.hero_targets, hero_before);
                    let shots = self.process_shooting(touches, volume);
                    let (expired_evil, expired_hero) = self.purge_old_targets();
                    assert(spawned_evil@ == old(self).evil_fill_at(now).1.skip(
                        old(self).evil_targets@.len() as int,
                    ));
                    assert(spawned_hero@ == old(self).filled_hero(now).skip(
                        old(self).hero_targets@.len() as int,
                    ));
                    let ghost fe = old(self).evil_fill_at(now).1;
                    let ghost fh = old(self).filled_hero(now);
                    let ghost gate = self.silent_mode || loud(volume.0, volume.1);
                    assert(shots.evil_hit@ == if gate {
                        shot(fe, aimed(touches@))
                    } else {
                        Seq::empty()
                    });
                    assert(shots.hero_hit@ == if gate {
                        shot(fh, aimed(touches@))
                    } else {
                        Seq::empty()
                    });
                    assert(self.score == if gate {
                        score_after(old(self).score as int, shots.evil_hit@, shots.hero_hit@)
                    } else {
                        old(self).score as int
                    });
                    assert(self.evil_targets@ == alive(if gate {
                        missed(fe, aimed(touches@))
                    } else {
                        fe
                    }, now));
                    assert(expired_hero@ == aged_out(if gate {
                        missed(fh, aimed(touches@))
                    } else {
                        fh
                    }, now));
                    let r = FrameOutcome::Played {
                        countdown,
                        spawned,
                        spawned_evil,
                        spawned_hero,
                        shots,
                        expired_evil,
                        expired_hero,
                    };
                    assert(Self::played(old(self), self, now, touches@, volume, &r));
                    r
                } else {
                    FrameOutcome::Over(self.game_over())
                }
            },
            _ => {
                self.mode = Mode::Idle;
                if touches.len() == 0 || self.touches_to_start == 0 {
                    FrameOutcome::Waiting
                } else if self.touches_to_start > 2 {
                    self.touches_to_start = self.touches_to_start - 1;
                    FrameOutcome::Debounced
                } else if self.touches_to_start == 2 {
                    self.touches_to_start = 1;
                    FrameOutcome::ShowStartBanner
                } else {
                    self.start(touches[touches.len() - 1], now);
                    self.touches_to_start = 3;
                    FrameOutcome::Started
                }
            },
        }
    }
}

} // verus!
