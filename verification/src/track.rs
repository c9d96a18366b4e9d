//! The state that the course builders work on: the segment buffer, the course
//! generator and the game generator, and the high half of the last number drawn.
//!
//! The segment buffer holds 1024 records of 16 bytes, one per road segment:
//! byte 0 the curve, byte 1 the slope, bytes 2 to 9 four roadside objects (kind and
//! position), bytes 10 and 11 the road markings, bytes 12 and 13 the accumulated curve
//! and height, bytes 14 and 15 the road edges.

use vstd::prelude::*;

use crate::crc::{crc_common, rng_step, smart_crc, GAME_RNG_ADD, TRACK_RNG_ADD};

verus! {

/// Length of the segment buffer in bytes.
pub const TRACK_BUF_LEN: usize = 16384;

/// The builders' state as a mathematical value.
pub ghost struct Gen {
    pub buf: Seq<u8>,
    pub rng: Seq<u32>,
    pub game_rng: Seq<u32>,
    pub hi: u16,
}

/// The builders' state: segment buffer, course generator, game generator, and the
/// high half of the last number drawn (from either generator).
pub struct TrackGen {
    pub buf: Vec<u8>,
    pub rng: [u32; 4],
    pub game_rng: [u32; 4],
    pub hi: u16,
}

impl View for TrackGen {
    type V = Gen;

    open spec fn view(&self) -> Gen {
        Gen { buf: self.buf@, rng: self.rng@, game_rng: self.game_rng@, hi: self.hi }
    }
}

/// The state after one number is drawn from the course generator.
#[verifier::opaque]
pub open spec fn draw(g: Gen) -> Gen {
    let r = rng_step(g.rng, TRACK_RNG_ADD@);
    Gen { rng: r, hi: (r[3] / 65536) as u16, ..g }
}

/// The state after one number is drawn from the game generator.
#[verifier::opaque]
pub open spec fn draw_game(g: Gen) -> Gen {
    let r = rng_step(g.game_rng, GAME_RNG_ADD@);
    Gen { game_rng: r, hi: (r[3] / 65536) as u16, ..g }
}

/// The low half of the last number drawn from the course generator.
pub open spec fn lo16(g: Gen) -> int {
    g.rng[3] as int % 65536
}

/// Its low byte.
pub open spec fn lo8(g: Gen) -> int {
    lo16(g) % 256
}

/// The low half of the last number drawn from the game generator.
pub open spec fn game_lo16(g: Gen) -> int {
    g.game_rng[3] as int % 65536
}

/// The state after `n` numbers are drawn from the course generator.
pub open spec fn draws(g: Gen, n: nat) -> Gen
    decreases n,
{
    if n == 0 {
        g
    } else {
        draw(draws(g, (n - 1) as nat))
    }
}

/// The buffer with byte `i` set to `v`.
pub open spec fn with_byte(g: Gen, i: int, v: u8) -> Gen {
    Gen { buf: g.buf.update(i, v), ..g }
}

/// `a / b` rounded toward zero, as the processor divides.
pub open spec fn div_trunc(a: int, b: int) -> int {
    if a >= 0 {
        a / b
    } else {
        -((-a) / b)
    }
}

/// A setting scaled to a threshold: `k * v / 100 + base` in 32 bits, the quotient
/// rounded toward zero, cut to 16 bits.
pub open spec fn scaled(k: int, v: int, base: int) -> i16 {
    (div_trunc(k * v, 100) + base) as i16
}

/// Computes [`scaled`].
pub fn scale(k: i32, v: i32, base: i32) -> (r: i16)
    requires
        -256 <= k <= 256,
        -65536 <= v <= 65536,
        -65536 <= base <= 65536,
    ensures
        r == scaled(k as int, v as int, base as int),
{
    assert(-0x100_0000 <= k * v <= 0x100_0000) by (nonlinear_arith)
        requires
            -256 <= k <= 256,
            -65536 <= v <= 65536,
    ;
    let p: i32 = k * v;
    let q: i32 = if p >= 0 {
        ((p as u32) / 100) as i32
    } else {
        let m: u32 = (0 - p) as u32;
        0 - ((m / 100) as i32)
    };
    (q + base) as i16
}

/// The bounded growth loop of the builders: starting from `c`, while `c < lim` a
/// number is drawn, and while its low byte is below `w` the count grows by `step`.
/// Gives the state and the number of times the count grew.
pub open spec fn grow(g: Gen, c: int, step: int, lim: int, w: int) -> (Gen, nat)
    decreases lim + step - c,
{
    if c >= lim || step <= 0 {
        (g, 0)
    } else {
        let g1 = draw(g);
        if lo8(g1) < w {
            let r = grow(g1, c + step, step, lim, w);
            (r.0, r.1 + 1)
        } else {
            (g1, 0)
        }
    }
}

/// Whether the high half of the last number drawn is negative as a signed word.
pub open spec fn hi_negative(g: Gen) -> bool {
    g.hi >= 0x8000
}

/// A byte read as a signed byte.
pub open spec fn signed8(b: int) -> int {
    if b >= 128 {
        b - 256
    } else {
        b
    }
}

/// A builder's pass over the records from byte `si` on, record by record, with the
/// step `f` for one record; `None` when a step fails (reads or writes past the buffer).
pub open spec fn each_record(f: spec_fn(Gen, int) -> Option<Gen>, g: Gen, si: int) -> Option<Gen>
    decreases (if si < TRACK_BUF_LEN { TRACK_BUF_LEN - si } else { 0 }),
{
    if si >= TRACK_BUF_LEN {
        Some(g)
    } else {
        match f(g, si) {
            Some(g2) => each_record(f, g2, si + 16),
            None => None,
        }
    }
}

/// The state `g` after `n` applications of `f`.
pub open spec fn iter_n<A>(f: spec_fn(A) -> A, a: A, n: nat) -> A
    decreases n,
{
    if n == 0 {
        a
    } else {
        f(iter_n(f, a, (n - 1) as nat))
    }
}

/// Whether some number of applications of `f` to `a` gives a state with `p`.
#[verifier::opaque]
pub open spec fn hits<A>(f: spec_fn(A) -> A, p: spec_fn(A) -> bool, a: A) -> bool {
    exists|n: nat| #[trigger] p(iter_n(f, a, n))
}

/// The least number of applications of `f` to `a` that gives a state with `p`.
#[verifier::opaque]
pub open spec fn first_hit<A>(f: spec_fn(A) -> A, p: spec_fn(A) -> bool, a: A) -> nat {
    choose|n: nat| p(iter_n(f, a, n)) && forall|m: nat| m < n ==> !#[trigger] p(iter_n(f, a, m))
}

/// A count at which `p` holds, with no smaller one, is the first hit.
pub proof fn lemma_first_hit<A>(f: spec_fn(A) -> A, p: spec_fn(A) -> bool, a: A, n: nat)
    requires
        p(iter_n(f, a, n)),
        forall|m: nat| m < n ==> !#[trigger] p(iter_n(f, a, m)),
    ensures
        first_hit(f, p, a) == n,
        hits(f, p, a),
{
    reveal(first_hit);
    reveal(hits);
    let k = first_hit(f, p, a);
    assert(p(iter_n(f, a, k)) && forall|m: nat| m < k ==> !#[trigger] p(iter_n(f, a, m)));
    if k < n {
        assert(!p(iter_n(f, a, k)));
    }
    if n < k {
        assert(!p(iter_n(f, a, n)));
    }
}

/// Where `p` is hit, the first hit has `p` and nothing before it has.
pub proof fn lemma_first_hit_props<A>(f: spec_fn(A) -> A, p: spec_fn(A) -> bool, a: A)
    requires
        hits(f, p, a),
    ensures
        p(iter_n(f, a, first_hit(f, p, a))),
        forall|m: nat| m < first_hit(f, p, a) ==> !#[trigger] p(iter_n(f, a, m)),
{
    reveal(first_hit);
    reveal(hits);
    let n = choose|n: nat| #[trigger] p(iter_n(f, a, n));
    lemma_least_hit(f, p, a, n);
}

/// Where `p` holds after `n` applications, some count is the least with `p`.
proof fn lemma_least_hit<A>(f: spec_fn(A) -> A, p: spec_fn(A) -> bool, a: A, n: nat)
    requires
        p(iter_n(f, a, n)),
    ensures
        exists|k: nat| p(iter_n(f, a, k)) && forall|m: nat| m < k ==> !#[trigger] p(iter_n(f, a, m)),
    decreases n,
{
    if exists|m: nat| m < n && #[trigger] p(iter_n(f, a, m)) {
        let m = choose|m: nat| m < n && #[trigger] p(iter_n(f, a, m));
        lemma_least_hit(f, p, a, m);
    } else {
        assert(forall|m: nat| m < n ==> !#[trigger] p(iter_n(f, a, m)));
    }
}

impl TrackGen {
    /// Draws a number from the course generator; returns its low half.
    pub fn draw(&mut self) -> (r: u16)
        ensures
            final(self)@ == draw(old(self)@),
            r == lo16(final(self)@),
            final(self).buf@ == old(self).buf@,
    {
        let (lo, hi) = smart_crc(&mut self.rng);
        self.hi = hi;
        reveal(draw);
        lo
    }

    /// Draws a number from the game generator; returns its low half.
    pub fn draw_game(&mut self) -> (r: u16)
        ensures
            final(self)@ == draw_game(old(self)@),
            r == game_lo16(final(self)@),
            final(self).buf@ == old(self).buf@,
    {
        let (lo, hi) = crc_common(&mut self.game_rng);
        self.hi = hi;
        reveal(draw_game);
        lo
    }

    /// The bounded growth loop (see [`grow`]); returns how many times the count grew.
    pub fn grow(&mut self, c: u16, step: u16, lim: u16, w: i16) -> (k: u16)
        requires
            step > 0,
            lim + step < 65536,
        ensures
            final(self)@ == grow(old(self)@, c as int, step as int, lim as int, w as int).0,
            k == grow(old(self)@, c as int, step as int, lim as int, w as int).1,
            k == 0 || k < lim + step,
            final(self).buf@ == old(self).buf@,
    {
        let ghost g0 = self@;
        let mut cur = c;
        let mut k: u16 = 0;
        let mut going = true;
        while going && cur < lim
            invariant
                step > 0,
                lim + step < 65536,
                k <= cur,
                k > 0 ==> cur < lim + step,
                self.buf@ == g0.buf,
                !going ==> grow(g0, c as int, step as int, lim as int, w as int) == (self@, k as nat),
                going ==> grow(g0, c as int, step as int, lim as int, w as int).0 == grow(
                    self@,
                    cur as int,
                    step as int,
                    lim as int,
                    w as int,
                ).0,
                going ==> grow(g0, c as int, step as int, lim as int, w as int).1 == k + grow(
                    self@,
                    cur as int,
                    step as int,
                    lim as int,
                    w as int,
                ).1,
            decreases (if cur < lim { lim - cur } else { 0int }) + (if going { 1int } else { 0int }),
        {
            let ghost gb = self@;
            let d = self.draw();
            assert(lo8(self@) == d % 256);
            if ((d % 256) as i16) >= w {
                assert(grow(gb, cur as int, step as int, lim as int, w as int) == (self@, 0nat));
                going = false;
            } else {
                cur = cur + step;
                k = k + 1;
            }
        }
        k
    }

    /// Byte `i` of the segment buffer.
    pub fn get(&self, i: usize) -> (b: u8)
        requires
            i < self.buf@.len(),
        ensures
            b == self.buf@[i as int],
    {
        self.buf[i]
    }

    /// Sets byte `i` of the segment buffer to `v`.
    pub fn put(&mut self, i: usize, v: u8)
        requires
            i < old(self).buf@.len(),
        ensures
            final(self)@ == with_byte(old(self)@, i as int, v),
    {
        self.buf.set(i, v);
    }
}

} // verus!
