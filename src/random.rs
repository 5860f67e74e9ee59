//! Pseudo-random word generators: a 32-bit Mersenne Twister and a
//! complementary multiply-with-carry generator, behind one `Rng` capability.
use vstd::prelude::*;

verus! {

/// Number of words in the Mersenne Twister state.
pub const MT_N: usize = 624;

/// Offset of the partner word used by the twist.
pub const MT_M: usize = 397;

/// Multiplier of the seeding recurrence.
pub const MT_INIT_MULT: u32 = 1812433253;

/// Matrix constant xored in when the low bit of the mixed word is set.
pub const MT_MAGIC: u32 = 0x9908b0df;

/// First tempering mask.
pub const MT_TEMPER_B: u32 = 0x9d2c5680;

/// Second tempering mask.
pub const MT_TEMPER_C: u32 = 0xefc60000;

pub const UPPER_MASK: u32 = 0x8000_0000;

pub const LOWER_MASK: u32 = 0x7fff_ffff;

/// A source of 32-bit pseudo-random words: each draw is a function of the
/// generator's state alone.
pub trait Rng {
    /// The abstract state of the generator.
    type Model;

    /// The generator's internal state is well formed.
    spec fn wf(&self) -> bool;

    /// The generator's abstract state.
    spec fn model(&self) -> Self::Model;

    /// The state after one draw from `m`, and the word drawn.
    spec fn step(m: Self::Model) -> (Self::Model, u32);

    fn rand(&mut self) -> (r: u32)
        requires
            old(self).wf(),
        ensures
            final(self).wf(),
            (final(self).model(), r) == Self::step(old(self).model()),
    ;
}

/// Word `i` of the linear recurrence that seeds a generator from `seed`.
pub open spec fn init_word(seed: u32, i: nat) -> u32
    decreases i,
{
    if i == 0 {
        seed
    } else {
        let p = init_word(seed, (i - 1) as nat);
        MT_INIT_MULT.wrapping_mul(p ^ (p >> 30u32)).wrapping_add(i as u32)
    }
}

/// The Mersenne Twister state right after seeding.
pub open spec fn mt_seed_words(seed: u32) -> Seq<u32> {
    Seq::new(MT_N as nat, |i: int| init_word(seed, i as nat))
}

/// One twist step on a word, its successor and its partner.
pub open spec fn mt_mix(cur: u32, next: u32, partner: u32) -> u32 {
    let y = (cur & UPPER_MASK) | (next & LOWER_MASK);
    partner ^ (y >> 1u32) ^ (if y & 1u32 == 0 {
        0u32
    } else {
        MT_MAGIC
    })
}

/// Word `i` after the in-place twist of `s`: words below `i` are already
/// twisted when word `i` reads them.
pub open spec fn twisted_word(s: Seq<u32>, i: nat) -> u32
    decreases i,
{
    if i >= MT_N {
        0
    } else {
        let next = if i + 1 < MT_N {
            s[i + 1 as int]
        } else {
            twisted_word(s, 0)
        };
        let partner = if i + MT_M < MT_N {
            s[i + MT_M as int]
        } else {
            twisted_word(s, (i + MT_M - MT_N) as nat)
        };
        mt_mix(s[i as int], next, partner)
    }
}

/// The whole state after one twist.
pub open spec fn mt_twist(s: Seq<u32>) -> Seq<u32> {
    Seq::new(MT_N as nat, |i: int| twisted_word(s, i as nat))
}

/// The tempering transform applied to each drawn word.
pub open spec fn mt_temper(x: u32) -> u32 {
    let y1 = x ^ (x >> 11u32);
    let y2 = y1 ^ ((y1 << 7u32) & MT_TEMPER_B);
    let y3 = y2 ^ ((y2 << 15u32) & MT_TEMPER_C);
    y3 ^ (y3 >> 18u32)
}

/// The abstract state of a Mersenne Twister: its words and its cursor.
pub type MtView = (Seq<u32>, nat);

/// The state after one draw, and the word drawn.
pub open spec fn mt_step(v: MtView) -> (MtView, u32) {
    let words = if v.1 >= MT_N {
        mt_twist(v.0)
    } else {
        v.0
    };
    let idx: nat = if v.1 >= MT_N {
        0
    } else {
        v.1
    };
    ((words, idx + 1), mt_temper(words[idx as int]))
}

/// The first `n` words drawn from state `v`.
pub open spec fn mt_outputs(v: MtView, n: nat) -> Seq<u32>
    decreases n,
{
    if n == 0 {
        Seq::empty()
    } else {
        seq![mt_step(v).1] + mt_outputs(mt_step(v).0, (n - 1) as nat)
    }
}

/// The state after `n` draws from state `v`.
pub open spec fn mt_after(v: MtView, n: nat) -> MtView
    decreases n,
{
    if n == 0 {
        v
    } else {
        mt_after(mt_step(v).0, (n - 1) as nat)
    }
}

/// The word that the next draw from `rng` returns.
pub open spec fn next_word<R: Rng>(rng: &R) -> u32 {
    R::step(rng.model()).1
}

/// The abstract state after `n` draws from `m`.
pub open spec fn advance<R: Rng>(m: R::Model, n: nat) -> R::Model
    decreases n,
{
    if n == 0 {
        m
    } else {
        R::step(advance::<R>(m, (n - 1) as nat)).0
    }
}

/// Word number `n` (from zero) drawn from state `m`.
pub open spec fn word_at<R: Rng>(m: R::Model, n: nat) -> u32 {
    R::step(advance::<R>(m, n)).1
}

/// The word that the draw after the next one from `rng` returns.
pub open spec fn second_word<R: Rng>(rng: &R) -> u32 {
    R::step(R::step(rng.model()).0).1
}

/// Drawing `n + m` words draws the first `n`, then `m` more from the state
/// those left: a batch of draws equals the same draws one at a time.
pub proof fn lemma_mt_outputs_split(v: MtView, n: nat, m: nat)
    ensures
        mt_outputs(v, n + m) == mt_outputs(v, n) + mt_outputs(mt_after(v, n), m),
        mt_after(v, n + m) == mt_after(mt_after(v, n), m),
    decreases n,
{
    if n == 0 {
        assert(mt_outputs(v, 0) + mt_outputs(v, m) =~= mt_outputs(v, m));
    } else {
        let next = mt_step(v).0;
        lemma_mt_outputs_split(next, (n - 1) as nat, m);
        assert((n + m - 1) as nat == (n - 1) as nat + m);
        assert(mt_outputs(v, n + m) =~= mt_outputs(v, n) + mt_outputs(mt_after(v, n), m));
    }
}

/// 32-bit Mersenne Twister (MT19937).
pub struct MTRng32 {
    state: Vec<u32>,
    index: usize,
}

impl View for MTRng32 {
    type V = MtView;

    closed spec fn view(&self) -> MtView {
        (self.state@, self.index as nat)
    }
}

impl MTRng32 {
    pub closed spec fn well_formed(&self) -> bool {
        self.state@.len() == MT_N && self.index <= MT_N
    }

    /// A generator seeded with `seed`.
    pub fn new(seed: u32) -> (r: MTRng32)
        ensures
            r.well_formed(),
            r@ == (mt_seed_words(seed), MT_N as nat),
    {
        let mut state: Vec<u32> = Vec::new();
        let mut i: usize = 0;
        while i < MT_N
            invariant
                i <= MT_N,
                state@.len() == i,
            decreases MT_N - i,
        {
            state.push(0);
            i = i + 1;
        }
        let mut rng = MTRng32 { state, index: MT_N };
        rng.reset(seed);
        rng
    }

    /// Draws the next word.
    pub fn rand(&mut self) -> (r: u32)
        requires
            old(self).well_formed(),
        ensures
            final(self).well_formed(),
            (final(self)@, r) == mt_step(old(self)@),
    {
        if self.index >= MT_N {
            self.generate_words();
        }
        let x = self.state[self.index];
        self.index = self.index + 1;
        let y1 = x ^ (x >> 11u32);
        let y2 = y1 ^ ((y1 << 7u32) & MT_TEMPER_B);
        let y3 = y2 ^ ((y2 << 15u32) & MT_TEMPER_C);
        y3 ^ (y3 >> 18u32)
    }

    /// Draws the next `n` words in order.
    pub fn draws(&mut self, n: usize) -> (r: Vec<u32>)
        requires
            old(self).well_formed(),
        ensures
            final(self).well_formed(),
            r@ == mt_outputs(old(self)@, n as nat),
            final(self)@ == mt_after(old(self)@, n as nat),
    {
        let ghost start = self@;
        let mut out: Vec<u32> = Vec::new();
        let mut k: usize = 0;
        while k < n
            invariant
                self.well_formed(),
                k <= n,
                out@ + mt_outputs(self@, (n - k) as nat) == mt_outputs(start, n as nat),
                mt_after(self@, (n - k) as nat) == mt_after(start, n as nat),
            decreases n - k,
        {
            let ghost cur = self@;
            let w = self.rand();
            assert(mt_outputs(cur, (n - k) as nat) == seq![w] + mt_outputs(self@, (n - k - 1) as nat));
            assert(out@.push(w) + mt_outputs(self@, (n - k - 1) as nat) =~= out@ + mt_outputs(cur, (n - k) as nat));
            out.push(w);
            k = k + 1;
        }
        assert(out@ + mt_outputs(self@, 0) =~= out@);
        out
    }

    fn reset(&mut self, seed: u32)
        requires
            old(self).state@.len() == MT_N,
        ensures
            final(self).well_formed(),
            final(self)@ == (mt_seed_words(seed), MT_N as nat),
    {
        self.state.set(0, seed);
        let mut i: usize = 1;
        while i < MT_N
            invariant
                1 <= i <= MT_N,
                self.state@.len() == MT_N,
                forall|j: int| 0 <= j < i ==> self.state@[j] == init_word(seed, j as nat),
            decreases MT_N - i,
        {
            let prev = self.state[i - 1];
            let w = MT_INIT_MULT.wrapping_mul(prev ^ (prev >> 30u32)).wrapping_add(i as u32);
            self.state.set(i, w);
            i = i + 1;
        }
        self.index = MT_N;
        assert(self.state@ =~= mt_seed_words(seed));
    }

    fn generate_words(&mut self)
        requires
            old(self).state@.len() == MT_N,
        ensures
            final(self).state@ == mt_twist(old(self).state@),
            final(self).index == 0,
    {
        let ghost s0 = self.state@;
        let mut i: usize = 0;
        while i < MT_N
            invariant
                i <= MT_N,
                self.state@.len() == MT_N,
                forall|j: int| 0 <= j < i ==> self.state@[j] == twisted_word(s0, j as nat),
                forall|j: int| i <= j < MT_N ==> self.state@[j] == s0[j],
            decreases MT_N - i,
        {
            let next = if i + 1 < MT_N {
                self.state[i + 1]
            } else {
                self.state[0]
            };
            let partner = if i + MT_M < MT_N {
                self.state[i + MT_M]
            } else {
                self.state[i + MT_M - MT_N]
            };
            let cur = self.state[i];
            let y = (cur & UPPER_MASK) | (next & LOWER_MASK);
            let magic = if y & 1u32 == 0 {
                0u32
            } else {
                MT_MAGIC
            };
            let w = partner ^ (y >> 1u32) ^ magic;
            self.state.set(i, w);
            i = i + 1;
        }
        self.index = 0;
        assert(self.state@ =~= mt_twist(s0));
    }
}

impl Rng for MTRng32 {
    type Model = MtView;

    open spec fn wf(&self) -> bool {
        self.well_formed()
    }

    open spec fn model(&self) -> MtView {
        self@
    }

    open spec fn step(m: MtView) -> (MtView, u32) {
        mt_step(m)
    }

    fn rand(&mut self) -> (r: u32) {
        MTRng32::rand(self)
    }
}

/// Length of the lag table of the multiply-with-carry generator.
pub const CMWC_LAG: usize = 512;

/// Multiplier of the multiply-with-carry generator.
pub const CMWC_MULT: u64 = 18782;

/// The initial carry is kept below this bound.
pub const CMWC_CARRY_BOUND: u32 = 809430660;

/// The abstract state of a multiply-with-carry generator: its lag table,
/// the position of the last word written, and the carry.
pub type CmwcView = (Seq<u32>, nat, nat);

/// The lag table, position and carry right after seeding with `seed`.
pub open spec fn cmwc_seeded(seed: u32) -> CmwcView {
    (
        Seq::new(CMWC_LAG as nat, |i: int| init_word(seed, i as nat)),
        (CMWC_LAG - 1) as nat,
        (init_word(seed, CMWC_LAG as nat) % CMWC_CARRY_BOUND) as nat,
    )
}

/// The state after one draw, and the word drawn.
pub open spec fn cmwc_step(v: CmwcView) -> (CmwcView, u32) {
    let j = (v.1 + 1) % (CMWC_LAG as nat);
    let t = CMWC_MULT * v.0[j as int] + v.2;
    let c = t / 0x1_0000_0000;
    let x = (t + c) % 0x1_0000_0000;
    let x2 = if x < c {
        x + 1
    } else {
        x
    };
    let c2 = if x < c {
        c + 1
    } else {
        c
    };
    let w: u32 = if x2 <= 0xfffffffe {
        (0xfffffffe - x2) as u32
    } else {
        0xffffffff
    };
    ((v.0.update(j as int, w), j, c2 as nat), w)
}

/// The first `n` words drawn from state `v`.
pub open spec fn cmwc_outputs(v: CmwcView, n: nat) -> Seq<u32>
    decreases n,
{
    if n == 0 {
        Seq::empty()
    } else {
        seq![cmwc_step(v).1] + cmwc_outputs(cmwc_step(v).0, (n - 1) as nat)
    }
}

/// The state after `n` draws from state `v`.
pub open spec fn cmwc_after(v: CmwcView, n: nat) -> CmwcView
    decreases n,
{
    if n == 0 {
        v
    } else {
        cmwc_after(cmwc_step(v).0, (n - 1) as nat)
    }
}

/// Drawing `n + m` words draws the first `n`, then `m` more from the state
/// those left: a batch of draws equals the same draws one at a time.
pub proof fn lemma_cmwc_outputs_split(v: CmwcView, n: nat, m: nat)
    ensures
        cmwc_outputs(v, n + m) == cmwc_outputs(v, n) + cmwc_outputs(cmwc_after(v, n), m),
        cmwc_after(v, n + m) == cmwc_after(cmwc_after(v, n), m),
    decreases n,
{
    if n == 0 {
        assert(cmwc_outputs(v, 0) + cmwc_outputs(v, m) =~= cmwc_outputs(v, m));
    } else {
        let next = cmwc_step(v).0;
        lemma_cmwc_outputs_split(next, (n - 1) as nat, m);
        assert((n + m - 1) as nat == (n - 1) as nat + m);
        assert(cmwc_outputs(v, n + m) =~= cmwc_outputs(v, n) + cmwc_outputs(
            cmwc_after(v, n),
            m,
        ));
    }
}

/// Complementary multiply-with-carry generator over a lag table of
/// `CMWC_LAG` words.
pub struct Cmwc {
    q: Vec<u32>,
    i: usize,
    carry: u32,
}

impl View for Cmwc {
    type V = CmwcView;

    closed spec fn view(&self) -> CmwcView {
        (self.q@, self.i as nat, self.carry as nat)
    }
}

impl Cmwc {
    pub closed spec fn well_formed(&self) -> bool {
        self.q@.len() == CMWC_LAG && self.i < CMWC_LAG && self.carry <= CMWC_CARRY_BOUND
    }

    /// A generator seeded with `seed`.
    pub fn new(seed: u32) -> (r: Cmwc)
        ensures
            r.well_formed(),
            r@ == cmwc_seeded(seed),
    {
        let mut q: Vec<u32> = Vec::new();
        q.push(seed);
        let mut prev = seed;
        let mut k: usize = 1;
        while k < CMWC_LAG
            invariant
                1 <= k <= CMWC_LAG,
                q@.len() == k,
                prev == init_word(seed, (k - 1) as nat),
                forall|j: int| 0 <= j < k ==> q@[j] == init_word(seed, j as nat),
            decreases CMWC_LAG - k,
        {
            prev = MT_INIT_MULT.wrapping_mul(prev ^ (prev >> 30u32)).wrapping_add(k as u32);
            q.push(prev);
            k = k + 1;
        }
        let next = MT_INIT_MULT.wrapping_mul(prev ^ (prev >> 30u32)).wrapping_add(
            CMWC_LAG as u32,
        );
        let r = Cmwc { q, i: CMWC_LAG - 1, carry: next % CMWC_CARRY_BOUND };
        assert(r@.0 =~= cmwc_seeded(seed).0);
        r
    }

    /// Draws the next word.
    pub fn rand(&mut self) -> (r: u32)
        requires
            old(self).well_formed(),
        ensures
            final(self).well_formed(),
            (final(self)@, r) == cmwc_step(old(self)@),
    {
        let j = (self.i + 1) % CMWC_LAG;
        let t: u64 = CMWC_MULT * (self.q[j] as u64) + (self.carry as u64);
        let mut c: u64 = t / 0x1_0000_0000;
        let mut x: u64 = (t + c) % 0x1_0000_0000;
        if x < c {
            x = x + 1;
            c = c + 1;
        }
        let w = 0xfffffffeu32.wrapping_sub(x as u32);
        self.q.set(j, w);
        self.i = j;
        self.carry = c as u32;
        w
    }

    /// Draws the next `n` words in order.
    pub fn draws(&mut self, n: usize) -> (r: Vec<u32>)
        requires
            old(self).well_formed(),
        ensures
            final(self).well_formed(),
            r@ == cmwc_outputs(old(self)@, n as nat),
            final(self)@ == cmwc_after(old(self)@, n as nat),
    {
        let ghost start = self@;
        let mut out: Vec<u32> = Vec::new();
        let mut k: usize = 0;
        while k < n
            invariant
                self.well_formed(),
                k <= n,
                out@ + cmwc_outputs(self@, (n - k) as nat) == cmwc_outputs(start, n as nat),
                cmwc_after(self@, (n - k) as nat) == cmwc_after(start, n as nat),
            decreases n - k,
        {
            let ghost cur = self@;
            let w = self.rand();
            assert(cmwc_outputs(cur, (n - k) as nat) == seq![w] + cmwc_outputs(
                self@,
                (n - k - 1) as nat,
            ));
            assert(out@.push(w) + cmwc_outputs(self@, (n - k - 1) as nat) =~= out@
                + cmwc_outputs(cur, (n - k) as nat));
            out.push(w);
            k = k + 1;
        }
        assert(out@ + cmwc_outputs(self@, 0) =~= out@);
        out
    }
}

impl Rng for Cmwc {
    type Model = CmwcView;

    open spec fn wf(&self) -> bool {
        self.well_formed()
    }

    open spec fn model(&self) -> CmwcView {
        self@
    }

    open spec fn step(m: CmwcView) -> (CmwcView, u32) {
        cmwc_step(m)
    }

    fn rand(&mut self) -> (r: u32) {
        Cmwc::rand(self)
    }
}

} // verus!
