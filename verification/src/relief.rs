//! The hills of a course: slopes and heights of the segments.
//!
//! The pass walks the segments with a position (segment number, byte in the buffer),
//! the current height and, on a course from A to B, the next checkpoint. Each step
//! either starts a slope (drawn length, steepness and direction; redrawn when the
//! height would leave -12 to 11) or continues level, possibly levelling out a
//! previous slope. On a course from A to B the checkpoints are kept level.

use vstd::prelude::*;

use crate::crc::CourseLayout;
use crate::data::Scenario;
use crate::track::{draw, grow, lo8, signed8, with_byte, Gen, TrackGen, TRACK_BUF_LEN};

verus! {

/// The walker's position and height.
#[derive(Clone, Copy, Debug, PartialEq, Eq, Structural)]
pub struct Relief {
    /// Segment number.
    pub seg: u16,
    /// Current height.
    pub h: i16,
    /// Index of the next checkpoint.
    pub cp: usize,
    /// Byte of the current record in the buffer.
    pub si: usize,
}

/// The low byte of a number, in two's complement.
pub open spec fn byte_of(x: int) -> u8 {
    (x % 256) as u8
}

/// A number taken modulo 256 into -128 to 127.
pub open spec fn wrap8(x: int) -> int {
    (x + 128) % 256 - 128
}

/// A 16-bit value read as signed.
pub open spec fn signed16(x: int) -> int {
    if x >= 32768 {
        x - 65536
    } else {
        x
    }
}

/// `n` records from byte `si` with slope `al` and heights from `ah` on, growing by
/// `al` (in 8 bits); gives the state and the height after them. `None` where a
/// record lies past the buffer.
pub open spec fn slope_run(g: Gen, si: int, n: nat, al: u8, ah: u8) -> Option<(Gen, u8)>
    decreases n,
{
    if n == 0 {
        Some((g, ah))
    } else if si + 13 >= TRACK_BUF_LEN {
        None
    } else {
        slope_run(
            with_byte(with_byte(g, si + 1, al), si + 13, ah),
            si + 16,
            (n - 1) as nat,
            al,
            ((ah + al) % 256) as u8,
        )
    }
}

/// AE3C: a slope of `bx` records, steepness `cx` in direction `dx` (1 or -1) from the
/// current height.
pub open spec fn slope(g: Gen, r: Relief, bx: int, cx: int, dx: int) -> Option<(Gen, Relief)> {
    let al = byte_of(if dx < 0 { -cx } else { cx });
    match slope_run(g, r.si as int, bx as nat, al, byte_of(r.h as int)) {
        None => None,
        Some(res) => Some(
            (
                res.0,
                Relief {
                    seg: ((r.seg + bx) % 65536) as u16,
                    h: res.1 as i16,
                    si: (r.si + 16 * bx) as usize,
                    ..r
                },
            ),
        ),
    }
}

/// `bx` level records at the current height.
pub open spec fn flat(g: Gen, r: Relief, bx: int) -> Option<(Gen, Relief)> {
    match slope_run(g, r.si as int, bx as nat, 0, byte_of(r.h as int)) {
        None => None,
        Some(res) => Some(
            (res.0, Relief { seg: ((r.seg + bx) % 65536) as u16, si: (r.si + 16 * bx) as usize, ..r }),
        ),
    }
}

/// AE5F: `bx` level records; away from height zero, a draw below 64 instead takes the
/// height back to zero by a slope of steepness one.
pub open spec fn level(g: Gen, r: Relief, bx: int) -> Option<(Gen, Relief)> {
    if r.h != 0 {
        let g1 = draw(g);
        if lo8(g1) < 64 {
            let bl = signed8(byte_of(r.h as int) as int);
            slope(g1, r, if bl < 0 { -bl } else { bl }, 1, if bl < 0 { 1 } else { -1 })
        } else {
            flat(g1, r, bx)
        }
    } else {
        flat(g, r, bx)
    }
}

/// The buffer after a checkpoint at record `ax`: the records after it, up to eighteen
/// of them, take its height, and the last of them is level.
pub open spec fn carry_heights(g: Gen, ax: int) -> Gen {
    let last = if ax + 18 < 1024 { ax + 18 } else { 1023 };
    let v = g.buf[ax * 16 + 13];
    Gen {
        buf: Seq::new(
            g.buf.len(),
            |i: int|
                if i == last * 16 + 1 {
                    0u8
                } else if i % 16 == 13 && ax < i / 16 <= last {
                    v
                } else {
                    g.buf[i]
                },
        ),
        ..g
    }
}

/// The checkpoint test of a course from A to B: when the walker has reached the next
/// checkpoint, it moves eighteen segments past it and the checkpoint's stretch is
/// made level. `None` where there is no next checkpoint.
pub open spec fn checkpoint(g: Gen, r: Relief, cps: Seq<u16>) -> Option<(Gen, Relief)> {
    if r.cp >= 17 {
        None
    } else {
        let ax = cps[r.cp as int];
        if signed16(r.seg as int) >= signed16(ax as int) {
            let seg = ((ax + 18) % 65536) as u16;
            let r1 = Relief { cp: (r.cp + 1) as usize, seg, si: (seg * 16) as usize, ..r };
            if ax >= 1024 {
                Some((g, r1))
            } else {
                let v = g.buf[ax * 16 + 13];
                let hh = ((r.h + 65536) % 65536) / 256;
                Some((carry_heights(g, ax as int), Relief { h: signed16(v + 256 * hh) as i16, ..r1 }))
            }
        } else {
            Some((g, r))
        }
    }
}

/// The thresholds and layout values of the hills pass.
pub ghost struct HillParams {
    /// Threshold of a slope.
    pub w_hill: int,
    /// Threshold of the slope length.
    pub w_len: int,
    /// Threshold of the steepness.
    pub w_steep: int,
    /// Threshold of a change of direction.
    pub w_flip: int,
    /// The section length (the pass ends past it).
    pub total: u16,
    pub circular: bool,
    pub cps: Seq<u16>,
}

/// A slope attempt after the first draw: the length `bx` (2 to 12) and steepness `cx`
/// (1 to 6) are drawn, the direction is drawn against the current one; gives the state
/// and the slope, or `None` where the height would leave -12 to 11.
pub open spec fn hill_attempt(g1: Gen, r: Relief, p: HillParams) -> (Gen, Option<(int, int, int)>) {
    let (g2, kb) = grow(g1, 2, 2, 12, p.w_len);
    let (g3, kc) = grow(g2, 1, 1, 6, p.w_steep);
    let bx: int = 2 + 2 * (kb as int);
    let cx: int = 1 + (kc as int);
    let dx0: int = if r.h < 0 { 1 } else { -1 };
    let g4 = draw(g3);
    let dx = if lo8(g4) < p.w_flip { -dx0 } else { dx0 };
    let al = wrap8((if dx < 0 { -(cx * bx) } else { cx * bx }) + signed8(byte_of(r.h as int) as int));
    if !(-12 <= al < 12) {
        (g4, None)
    } else {
        (g4, Some((bx, cx, dx)))
    }
}

/// The body of a hills step after the first draw: `Some(None)` where the slope attempt
/// is redrawn.
pub open spec fn hills_body(g1: Gen, r: Relief, p: HillParams) -> Option<Option<(Gen, Relief)>> {
    if lo8(g1) < p.w_hill {
        let (g4, a) = hill_attempt(g1, r, p);
        match a {
            None => Some(None),
            Some(t) => match slope(g4, r, t.0, t.1, t.2) {
                None => None,
                Some(s) => Some(Some(s)),
            },
        }
    } else {
        match level(g1, r, 2) {
            None => None,
            Some(s) => Some(Some(s)),
        }
    }
}

/// One step of the hills pass: the state, the walker, and `None` where the step was
/// redrawn, else whether the pass ends. `None` as a whole where the step fails.
pub open spec fn hills_step(g: Gen, r: Relief, p: HillParams) -> Option<(Gen, Relief, Option<bool>)> {
    let g1 = draw(g);
    match hills_body(g1, r, p) {
        None => None,
        Some(None) => Some((hill_attempt(g1, r, p).0, r, None)),
        Some(Some(s)) => {
            let c = if p.circular { Some(s) } else { checkpoint(s.0, s.1, p.cps) };
            match c {
                None => None,
                Some(t) => Some((t.0, t.1, Some(t.1.seg > p.total))),
            }
        },
    }
}

/// The hills steps with at most `fuel` of them: the state where the pass ends.
pub open spec fn hills_run(g: Gen, r: Relief, p: HillParams, fuel: nat) -> Option<(Gen, Relief)>
    decreases fuel,
{
    if fuel == 0 {
        None
    } else {
        match hills_step(g, r, p) {
            None => None,
            Some(s) => match s.2 {
                Some(true) => Some((s.0, s.1)),
                _ => hills_run(s.0, s.1, p, (fuel - 1) as nat),
            },
        }
    }
}

/// Whether the hills steps end without failing.
pub open spec fn hills_ends(g: Gen, r: Relief, p: HillParams) -> bool {
    exists|fuel: nat| #[trigger] hills_run(g, r, p, fuel) is Some
}

/// Where the hills steps end.
pub open spec fn hills_end(g: Gen, r: Relief, p: HillParams) -> (Gen, Relief) {
    hills_run(g, r, p, choose|fuel: nat| #[trigger] hills_run(g, r, p, fuel) is Some)->0
}

/// A signed byte's absolute value, where -128 stays -128 (as the processor's
/// negation of it gives).
pub open spec fn abs8(x: int) -> int {
    if x == -128 {
        -128
    } else if x < 0 {
        -x
    } else {
        x
    }
}

/// The end of a circular course: from byte `si` back, counting `h` up, the first
/// record whose height is within the count. Gives its byte and the count; `None` where
/// the walk leaves the buffer.
pub open spec fn tail_find(g: Gen, si: int, h: int) -> Option<(int, int)>
    decreases (if si > 0 { si } else { 0 }),
{
    let s1 = si - 16;
    if s1 < 0 || s1 + 13 >= TRACK_BUF_LEN {
        None
    } else if abs8(signed8(g.buf[s1 + 13] as int)) <= signed8(byte_of(h + 1) as int) {
        Some((s1, h + 1))
    } else {
        tail_find(g, s1, h + 1)
    }
}

/// The smoothing of the end of a circular course from record `j` on, for `h + 1`
/// records at most: each gets slope `al`, and the next takes the height plus the slope;
/// once a height reaches zero the slope stops.
pub open spec fn smooth(g: Gen, j: int, h: int, al: int) -> Gen
    decreases (if j < 1024 { 1024 - j } else { 0 }),
{
    if j >= 1024 || h < 0 || j < 0 {
        g
    } else {
        let s = smooth_one(g, j, al);
        smooth(s.0, j + 1, h - 1, s.1)
    }
}

/// One record of the smoothing: the state and the slope for the next record.
pub open spec fn smooth_one(g: Gen, j: int, al: int) -> (Gen, int) {
    let g1 = with_byte(g, j * 16 + 1, byte_of(al));
    let cl = wrap8(signed8(g1.buf[j * 16 + 13] as int) + al);
    let g2 = if j + 1 < 1024 { with_byte(g1, (j + 1) * 16 + 13, byte_of(cl)) } else { g1 };
    (g2, if cl == 0 { 0 } else { al })
}

/// One record of the smoothing (see [`smooth_one`]).
fn smooth_one_exec(tg: &mut TrackGen, j: usize, al: i32) -> (r: i32)
    requires
        old(tg).buf@.len() == TRACK_BUF_LEN,
        j < 1024,
        -1 <= al <= 1,
    ensures
        (final(tg)@, r as int) == smooth_one(old(tg)@, j as int, al as int),
        final(tg).buf@.len() == TRACK_BUF_LEN,
        -1 <= r <= 1,
{
    let ab: u8 = if al < 0 {
        255
    } else {
        al as u8
    };
    tg.put(j * 16 + 1, ab);
    let cl: i32 = (signed_byte(tg.get(j * 16 + 13)) + al + 128 + 512) % 256 - 128;
    if j + 1 < 1024 {
        let cb: u8 = ((cl + 256) % 256) as u8;
        tg.put((j + 1) * 16 + 13, cb);
    }
    if cl == 0 {
        0
    } else {
        al
    }
}

/// The layout after the hills pass: without mountains, no hills and no steepness.
pub open spec fn hills_layout(l: CourseLayout) -> CourseLayout {
    if l.scenario == Scenario::Mountains {
        l
    } else {
        CourseLayout { hills: 0, steepness: 0, ..l }
    }
}

/// The thresholds of the hills pass for layout `l` (after [`hills_layout`]).
pub open spec fn hills_params(l: CourseLayout) -> HillParams {
    HillParams {
        w_hill: (192 * l.hills / 100) as i16 as int,
        w_len: (160 * l.hills / 100 + 32) as i16 as int,
        w_flip: (128 * l.steepness / 100) as i16 as int,
        w_steep: (160 * l.steepness / 100 + 32) as i16 as int,
        total: l.section_len,
        circular: l.is_circular,
        cps: l.checkpoints@,
    }
}

/// The hills of the course with layout `l`: eighteen level records at the start, then
/// the hills steps; a circular course is then smoothed toward height zero at its end.
/// `None` where the pass fails.
pub open spec fn hills_spec(g: Gen, l: CourseLayout) -> Option<Gen> {
    let p = hills_params(hills_layout(l));
    let r0 = Relief { seg: l.start_segment, h: 0, cp: 0, si: l.buf_offset };
    match flat(g, r0, 18) {
        None => None,
        Some(s) => if !hills_ends(s.0, s.1, p) {
            None
        } else {
            let g2 = hills_end(s.0, s.1, p).0;
            if !l.is_circular {
                Some(g2)
            } else {
                match tail_find(g2, l.buf_offset + 16 * l.section_len, 0) {
                    None => None,
                    Some(f) => {
                        let x = signed8(g2.buf[f.0 + 13] as int);
                        Some(smooth(g2, f.0, f.1, if x > 0 { -1 } else if x < 0 { 1 } else { 0 }))
                    },
                }
            }
        },
    }
}

/// An upper bound of the walker's byte position.
pub const SI_BOUND: usize = 1_100_000;

/// The low byte of a height.
fn height_byte(h: i16) -> (b: u8)
    ensures
        b == byte_of(h as int),
{
    (((h as i32) + 65536) % 256) as u8
}

/// `n` records of a slope (see [`slope_run`]).
fn slope_run_exec(tg: &mut TrackGen, si: usize, n: u16, al: u8, ah: u8) -> (r: u8)
    requires
        old(tg).buf@.len() == TRACK_BUF_LEN,
        si < SI_BOUND,
        slope_run(old(tg)@, si as int, n as nat, al, ah) is Some,
    ensures
        slope_run(old(tg)@, si as int, n as nat, al, ah) == Some((final(tg)@, r)),
        final(tg).buf@.len() == TRACK_BUF_LEN,
        si + 16 * n < SI_BOUND,
{
    let ghost g0 = tg@;
    let mut j: u16 = 0;
    let mut cur = si;
    let mut h = ah;
    while j < n
        invariant
            tg.buf@.len() == TRACK_BUF_LEN,
            j <= n,
            si < SI_BOUND,
            cur == si + 16 * j,
            j > 0 ==> cur < TRACK_BUF_LEN + 16,
            slope_run(tg@, cur as int, (n - j) as nat, al, h) == slope_run(g0, si as int, n as nat, al, ah),
            slope_run(g0, si as int, n as nat, al, ah) is Some,
        decreases n - j,
    {
        tg.put(cur + 1, al);
        tg.put(cur + 13, h);
        h = h.wrapping_add(al);
        cur = cur + 16;
        j = j + 1;
    }
    h
}

/// A slope (see [`slope`]); `neg` gives the direction -1.
fn slope_exec(tg: &mut TrackGen, r: &mut Relief, bx: u16, cx: u16, neg: bool)
    requires
        old(tg).buf@.len() == TRACK_BUF_LEN,
        old(r).si < SI_BOUND,
        1 <= cx <= 255,
        bx <= 255,
        slope(old(tg)@, *old(r), bx as int, cx as int, if neg { -1 } else { 1 }) is Some,
    ensures
        slope(old(tg)@, *old(r), bx as int, cx as int, if neg { -1 } else { 1 }) == Some((final(tg)@, *final(r))),
        final(tg).buf@.len() == TRACK_BUF_LEN,
        final(r).si < SI_BOUND,
{
    let al: u8 = if neg {
        0u8.wrapping_sub(cx as u8)
    } else {
        cx as u8
    };
    assert(al == byte_of(if neg { -(cx as int) } else { cx as int }));
    let ah = slope_run_exec(tg, r.si, bx, al, height_byte(r.h));
    r.seg = r.seg.wrapping_add(bx);
    r.h = ah as i16;
    r.si = r.si + 16 * (bx as usize);
}

/// Level records (see [`flat`]).
fn flat_exec(tg: &mut TrackGen, r: &mut Relief, bx: u16)
    requires
        old(tg).buf@.len() == TRACK_BUF_LEN,
        old(r).si < SI_BOUND,
        bx <= 255,
        flat(old(tg)@, *old(r), bx as int) is Some,
    ensures
        flat(old(tg)@, *old(r), bx as int) == Some((final(tg)@, *final(r))),
        final(tg).buf@.len() == TRACK_BUF_LEN,
        final(r).si < SI_BOUND,
{
    let _ = slope_run_exec(tg, r.si, bx, 0, height_byte(r.h));
    r.seg = r.seg.wrapping_add(bx);
    r.si = r.si + 16 * (bx as usize);
}

/// AE5F: level records, or a slope back to height zero (see [`level`]).
fn level_exec(tg: &mut TrackGen, r: &mut Relief, bx: u16)
    requires
        old(tg).buf@.len() == TRACK_BUF_LEN,
        old(r).si < SI_BOUND,
        bx <= 255,
        level(old(tg)@, *old(r), bx as int) is Some,
    ensures
        level(old(tg)@, *old(r), bx as int) == Some((final(tg)@, *final(r))),
        final(tg).buf@.len() == TRACK_BUF_LEN,
        final(r).si < SI_BOUND,
{
    if r.h != 0 {
        let d = tg.draw();
        if d % 256 < 64 {
            let hb = height_byte(r.h);
            if hb >= 128 {
                slope_exec(tg, r, 256 - hb as u16, 1, false);
            } else {
                slope_exec(tg, r, hb as u16, 1, true);
            }
            return;
        }
    }
    flat_exec(tg, r, bx);
}

/// The checkpoint test (see [`checkpoint`]).
fn checkpoint_exec(tg: &mut TrackGen, r: &mut Relief, cps: &[u16; 17])
    requires
        old(tg).buf@.len() == TRACK_BUF_LEN,
        checkpoint(old(tg)@, *old(r), cps@) is Some,
        old(r).si < SI_BOUND,
    ensures
        checkpoint(old(tg)@, *old(r), cps@) == Some((final(tg)@, *final(r))),
        final(tg).buf@.len() == TRACK_BUF_LEN,
        final(r).si < SI_BOUND,
{
    let ax = cps[r.cp];
    let seg_s: i32 = if r.seg >= 32768 {
        r.seg as i32 - 65536
    } else {
        r.seg as i32
    };
    let ax_s: i32 = if ax >= 32768 {
        ax as i32 - 65536
    } else {
        ax as i32
    };
    if seg_s < ax_s {
        return;
    }
    let seg = ax.wrapping_add(18);
    r.cp = r.cp + 1;
    r.seg = seg;
    r.si = (seg as usize) * 16;
    if ax >= 1024 {
        return;
    }
    let ghost g0 = tg@;
    let a = ax as usize;
    let last: usize = if a + 18 < 1024 {
        a + 18
    } else {
        1023
    };
    let v = tg.get(a * 16 + 13);
    let mut j = a + 1;
    assert(tg.buf@ =~= Seq::new(
        TRACK_BUF_LEN as nat,
        |i: int|
            if i % 16 == 13 && a < i / 16 < j {
                v
            } else {
                g0.buf[i]
            },
    ));
    while j <= last
        invariant
            tg.buf@.len() == TRACK_BUF_LEN,
            a < 1024,
            last < 1024,
            a < j <= last + 1,
            v == g0.buf[a * 16 + 13],
            g0.buf.len() == TRACK_BUF_LEN,
            tg@ == (Gen {
                buf: Seq::new(
                    TRACK_BUF_LEN as nat,
                    |i: int|
                        if i % 16 == 13 && a < i / 16 < j {
                            v
                        } else {
                            g0.buf[i]
                        },
                ),
                ..g0
            }),
        decreases last + 1 - j,
    {
        tg.put(j * 16 + 13, v);
        j = j + 1;
        assert(tg.buf@ =~= Seq::new(
            TRACK_BUF_LEN as nat,
            |i: int|
                if i % 16 == 13 && a < i / 16 < j {
                    v
                } else {
                    g0.buf[i]
                },
        ));
    }
    tg.put(last * 16 + 1, 0);
    assert(tg.buf@ =~= carry_heights(g0, a as int).buf);
    let hh: u16 = ((r.h as i32 + 65536) % 65536 / 256) as u16;
    let w: u16 = (v as u16) + 256 * hh;
    r.h = if w >= 32768 {
        (w as i32 - 65536) as i16
    } else {
        w as i16
    };
}

/// The exec thresholds and values of the hills pass.
pub struct HillLimits {
    pub w_hill: i16,
    pub w_len: i16,
    pub w_steep: i16,
    pub w_flip: i16,
    pub total: u16,
    pub circular: bool,
    pub cps: [u16; 17],
}

impl HillLimits {
    /// The parameters as mathematical values.
    pub open spec fn params(&self) -> HillParams {
        HillParams {
            w_hill: self.w_hill as int,
            w_len: self.w_len as int,
            w_steep: self.w_steep as int,
            w_flip: self.w_flip as int,
            total: self.total,
            circular: self.circular,
            cps: self.cps@,
        }
    }
}

/// A signed byte's value.
fn signed_byte(b: u8) -> (r: i32)
    ensures
        r == signed8(b as int),
{
    if b >= 128 {
        b as i32 - 256
    } else {
        b as i32
    }
}

/// A slope attempt (see [`hill_attempt`]); gives the length, steepness and whether
/// the direction is -1.
#[verifier::spinoff_prover]
#[verifier::rlimit(40)]
fn hill_attempt_exec(tg: &mut TrackGen, r: &Relief, lim: &HillLimits) -> (res: Option<(u16, u16, bool)>)
    requires
        old(tg).buf@.len() == TRACK_BUF_LEN,
    ensures
        hill_attempt(old(tg)@, *r, lim.params()).0 == final(tg)@,
        match res {
            None => hill_attempt(old(tg)@, *r, lim.params()).1 is None,
            Some(t) => hill_attempt(old(tg)@, *r, lim.params()).1 == Some(
                (t.0 as int, t.1 as int, if t.2 { -1int } else { 1int }),
            ) && 1 <= t.1 <= 7 && t.0 <= 28,
        },
        final(tg).buf@.len() == TRACK_BUF_LEN,
{
    let kb = tg.grow(2, 2, 12, lim.w_len);
    let kc = tg.grow(1, 1, 6, lim.w_steep);
    let bx: u16 = 2 + 2 * kb;
    let cx: u16 = 1 + kc;
    let neg0 = r.h >= 0;
    let d4 = tg.draw();
    let neg = if ((d4 % 256) as i16) < lim.w_flip {
        !neg0
    } else {
        neg0
    };
    assert((cx as int) * (bx as int) <= 7 * 28) by (nonlinear_arith)
        requires
            cx <= 7,
            bx <= 28,
    ;
    let prod: i32 = (cx as i32) * (bx as i32);
    let m: i32 = if neg {
        0 - prod
    } else {
        prod
    };
    let hs = signed_byte(height_byte(r.h));
    let al: i32 = (m + hs + 128 + 512) % 256 - 128;
    assert(al == wrap8(m + hs));
    let ghost dx: int = if neg { -1 } else { 1 };
    assert(m == (if dx < 0 { -(cx * bx) } else { cx * bx }));
    if !(-12 <= al && al < 12) {
        None
    } else {
        Some((bx, cx, neg))
    }
}

/// One step of the hills pass (see [`hills_step`]).
fn hills_step_exec(tg: &mut TrackGen, r: &mut Relief, lim: &HillLimits) -> (res: Option<bool>)
    requires
        old(tg).buf@.len() == TRACK_BUF_LEN,
        old(r).si < SI_BOUND,
        hills_step(old(tg)@, *old(r), lim.params()) is Some,
    ensures
        hills_step(old(tg)@, *old(r), lim.params()) == Some((final(tg)@, *final(r), res)),
        final(tg).buf@.len() == TRACK_BUF_LEN,
        final(r).si < SI_BOUND,
{
    let ghost r0 = *r;
    let d = tg.draw();
    let ghost g1 = tg@;
    if ((d % 256) as i16) < lim.w_hill {
        match hill_attempt_exec(tg, r, lim) {
            None => {
                return None;
            },
            Some((bx, cx, neg)) => {
                slope_exec(tg, r, bx, cx, neg);
            },
        }
    } else {
        level_exec(tg, r, 2);
    }
    assert(hills_body(g1, r0, lim.params()) == Some(Some((tg@, *r))));
    if !lim.circular {
        checkpoint_exec(tg, r, &lim.cps);
    }
    Some(r.seg > lim.total)
}

/// The record that [`tail_find`] finds lies in the buffer.
proof fn lemma_tail_find_in(g: Gen, si: int, h: int)
    requires
        tail_find(g, si, h) is Some,
    ensures
        0 <= tail_find(g, si, h).unwrap().0,
        tail_find(g, si, h).unwrap().0 + 13 < TRACK_BUF_LEN,
    decreases (if si > 0 { si } else { 0 }),
{
    let s1 = si - 16;
    if !(s1 < 0 || s1 + 13 >= TRACK_BUF_LEN) && !(abs8(signed8(g.buf[s1 + 13] as int)) <= signed8(
        byte_of(h + 1) as int,
    )) {
        lemma_tail_find_in(g, s1, h + 1);
    }
}

/// The end of a circular course (see [`tail_find`] and [`smooth`]).
fn tail_exec(tg: &mut TrackGen, start: usize)
    requires
        old(tg).buf@.len() == TRACK_BUF_LEN,
        start < SI_BOUND,
        tail_find(old(tg)@, start as int, 0) is Some,
    ensures
        final(tg).buf@.len() == TRACK_BUF_LEN,
        ({
            let f = tail_find(old(tg)@, start as int, 0)->0;
            let x = signed8(old(tg)@.buf[f.0 + 13] as int);
            final(tg)@ == smooth(old(tg)@, f.0, f.1, if x > 0 { -1 } else if x < 0 { 1 } else { 0 })
        }),
{
    let ghost g0 = tg@;
    let mut h: i16 = 0;
    let mut si: usize = start;
    assert(start < TRACK_BUF_LEN + 16);
    loop
        invariant_except_break
            tail_find(g0, si as int, h as int) == tail_find(g0, start as int, 0),
        invariant
            tg@ == g0,
            g0 == old(tg)@,
            tg.buf@.len() == TRACK_BUF_LEN,
            0 <= h,
            start < TRACK_BUF_LEN + 16,
            16 * h + si == start,
            tail_find(g0, start as int, 0) is Some,
        ensures
            tail_find(g0, start as int, 0) == Some((si as int, h as int)),
        decreases si,
    {
        let x = signed_byte(tg.get(si - 16 + 13));
        h = h + 1;
        si = si - 16;
        let ax: i32 = if x == -128 {
            -128
        } else if x < 0 {
            -x
        } else {
            x
        };
        if ax <= signed_byte(height_byte(h)) {
            break;
        }
    }
    proof {
        lemma_tail_find_in(g0, start as int, 0);
    }
    let x = signed_byte(tg.get(si + 13));
    let mut al: i32 = if x > 0 {
        -1
    } else if x < 0 {
        1
    } else {
        0
    };
    let mut j: usize = si;
    let mut k: i32 = h as i32;
    while j < 1024 && k >= 0
        invariant
            tg.buf@.len() == TRACK_BUF_LEN,
            g0 == old(tg)@,
            tail_find(g0, start as int, 0) == Some((si as int, h as int)),
            si + 13 < TRACK_BUF_LEN,
            x == signed8(g0.buf[si + 13] as int),
            -1 <= al <= 1,
            smooth(tg@, j as int, k as int, al as int) == smooth(
                g0,
                si as int,
                h as int,
                if x > 0 { -1 } else if x < 0 { 1 } else { 0 },
            ),
            k <= 2000,
        decreases 1024 - j,
    {
        al = smooth_one_exec(tg, j, al);
        j = j + 1;
        k = k - 1;
    }
}

/// The hills of the course with layout `layout` (see [`hills_spec`]); without
/// mountains the layout's hills and steepness are set to zero first.
pub fn prep_track_hills(tg: &mut TrackGen, layout: &mut CourseLayout)
    requires
        old(tg).buf@.len() == TRACK_BUF_LEN,
        hills_spec(old(tg)@, *old(layout)) is Some,
    ensures
        final(tg)@ == hills_spec(old(tg)@, *old(layout))->0,
        *final(layout) == hills_layout(*old(layout)),
        final(tg).buf@.len() == TRACK_BUF_LEN,
{
    if layout.scenario != Scenario::Mountains {
        layout.hills = 0;
        layout.steepness = 0;
    }
    let lim = HillLimits {
        w_hill: (192 * (layout.hills as u32) / 100) as i16,
        w_len: (160 * (layout.hills as u32) / 100 + 32) as i16,
        w_steep: (160 * (layout.steepness as u32) / 100 + 32) as i16,
        w_flip: (128 * (layout.steepness as u32) / 100) as i16,
        total: layout.section_len,
        circular: layout.is_circular,
        cps: layout.checkpoints,
    };
    assert(lim.params() == hills_params(*layout));
    let mut r = Relief { seg: layout.start_segment, h: 0, cp: 0, si: layout.buf_offset };
    assert(r.si < TRACK_BUF_LEN);
    flat_exec(tg, &mut r, 18);
    let ghost g1 = tg@;
    let ghost r1 = r;
    let ghost fuel0 = choose|fuel: nat| #[trigger] hills_run(g1, r1, lim.params(), fuel) is Some;
    let ghost mut fuel = fuel0;
    let mut done = false;
    while !done
        invariant
            tg.buf@.len() == TRACK_BUF_LEN,
            r.si < SI_BOUND,
            hills_run(g1, r1, lim.params(), fuel0) is Some,
            !done ==> hills_run(tg@, r, lim.params(), fuel) == hills_run(g1, r1, lim.params(), fuel0),
            done ==> hills_run(g1, r1, lim.params(), fuel0) == Some((tg@, r)),
        decreases fuel,
    {
        let res = hills_step_exec(tg, &mut r, &lim);
        if res == Some(true) {
            done = true;
        }
        proof {
            fuel = (fuel - 1) as nat;
        }
    }
    if layout.is_circular {
        tail_exec(tg, layout.buf_offset + 16 * (layout.section_len as usize));
    }
}

/// The walker of the curves pass: segment number, curve rate, accumulated curve,
/// direction of the next curve, byte of the current record.
#[derive(Clone, Copy, Debug, PartialEq, Eq, Structural)]
pub struct Bends {
    pub seg: u16,
    pub rate: i16,
    pub acc: i16,
    pub dir: i16,
    pub si: usize,
}

/// A 16-bit signed wrap of `x`.
pub open spec fn wrap16(x: int) -> int {
    (x + 32768) % 65536 - 32768
}

/// A curve rate one step closer to zero.
pub open spec fn toward_zero(a: int) -> int {
    if a > 0 {
        a - 1
    } else if a < 0 {
        a + 1
    } else {
        0
    }
}

/// `n` records of a curve from byte `si` with rate `a` and accumulated curve `b`; with
/// `decay`, the rate first moves one step toward zero on each record. Gives the state,
/// the rate and the accumulated curve after them; `None` where a record lies past the
/// buffer.
pub open spec fn curve_run(g: Gen, si: int, n: nat, a: int, b: int, decay: bool) -> Option<(Gen, int, int)>
    decreases n,
{
    if n == 0 {
        Some((g, a, b))
    } else if si + 12 >= TRACK_BUF_LEN {
        None
    } else {
        let c = curve_one(g, si, a, b, decay);
        curve_run(c.0, si + 16, (n - 1) as nat, c.1, c.2, decay)
    }
}

/// AFE0 (`decay` false, rate `a`) and B005 (`decay` true, the walker's rate): `bx`
/// curve records.
pub open spec fn curve(g: Gen, s: Bends, bx: int, a: int, decay: bool) -> Option<(Gen, Bends)> {
    match curve_run(g, s.si as int, bx as nat, a, s.acc as int, decay) {
        None => None,
        Some(r) => Some(
            (
                r.0,
                Bends {
                    seg: ((s.seg + bx) % 65536) as u16,
                    rate: r.1 as i16,
                    acc: r.2 as i16,
                    si: (s.si + 16 * bx) as usize,
                    ..s
                },
            ),
        ),
    }
}

/// The thresholds and layout values of the curves pass.
pub ghost struct TurnParams {
    /// Threshold of a curve.
    pub w_curve: int,
    /// Threshold of the curve length.
    pub w_len: int,
    /// Threshold of the sharpness.
    pub w_sharp: int,
    /// Threshold of a change of direction.
    pub w_flip: int,
    /// The section length (segments of a circular course).
    pub total: u16,
    pub circular: bool,
}

/// On a circular course, how far the accumulated curve after `x` segments would be
/// from a full turn spread over the course, with `extra` added: `None` where it is
/// outside -32 to 31.
pub open spec fn on_course(x: int, total: int, extra: int, acc: int) -> bool {
    let ax = -((96 * (x % 65536)) / total) + extra - acc;
    -32 <= ax < 32
}

/// One step of the curves pass: the state, the walker, and `None` where the step was
/// redrawn, else whether the pass ends with its final curve value.
pub open spec fn turns_step(g: Gen, s: Bends, p: TurnParams) -> Option<(Gen, Bends, Option<Option<u16>>)> {
    let g1 = draw(g);
    let body: Option<Option<(Gen, Bends)>> = if lo8(g1) < p.w_curve {
        let (g2, kb) = grow(g1, 4, 4, 24, p.w_len);
        let (g3, kc) = grow(g2, 4, 1, 6, p.w_sharp);
        let bx: int = 4 + 4 * (kb as int);
        let cx: int = 4 + (kc as int);
        let g4 = draw(g3);
        let dir = if lo8(g4) < p.w_flip { -s.dir } else { s.dir as int };
        let s1 = Bends { dir: dir as i16, ..s };
        let a = if dir < 0 { -cx } else { cx };
        if p.circular && !on_course(s.seg + bx, p.total as int, a * bx, s.acc as int) {
            Some(None)
        } else {
            match curve(g4, s1, bx, a, false) {
                None => None,
                Some(t) => Some(Some(t)),
            }
        }
    } else {
        if p.circular && !on_course(s.seg + 4, p.total as int, 0, s.acc as int) {
            Some(None)
        } else {
            match curve(g1, s, 4, s.rate as int, true) {
                None => None,
                Some(t) => Some(Some(t)),
            }
        }
    };
    match body {
        None => None,
        Some(None) => Some((turns_redrawn(g1, s, p), turns_redrawn_walker(g1, s, p), None)),
        Some(Some(t)) => if p.circular {
            if t.1.seg > p.total {
                let i = 12 + 16 * p.total;
                if i >= TRACK_BUF_LEN {
                    None
                } else {
                    Some((t.0, t.1, Some(Some(((256 - t.0.buf[i]) % 256) as u16))))
                }
            } else {
                Some((t.0, t.1, Some(None)))
            }
        } else if t.1.seg >= 1024 {
            Some((t.0, t.1, Some(Some(128u16))))
        } else {
            Some((t.0, t.1, Some(None)))
        },
    }
}

/// The state after a redrawn step.
pub open spec fn turns_redrawn(g1: Gen, s: Bends, p: TurnParams) -> Gen {
    if lo8(g1) < p.w_curve {
        let (g2, kb) = grow(g1, 4, 4, 24, p.w_len);
        let (g3, kc) = grow(g2, 4, 1, 6, p.w_sharp);
        draw(g3)
    } else {
        g1
    }
}

/// The walker after a redrawn step: a curve attempt keeps its drawn direction.
pub open spec fn turns_redrawn_walker(g1: Gen, s: Bends, p: TurnParams) -> Bends {
    if lo8(g1) < p.w_curve {
        let (g2, kb) = grow(g1, 4, 4, 24, p.w_len);
        let (g3, kc) = grow(g2, 4, 1, 6, p.w_sharp);
        let g4 = draw(g3);
        Bends { dir: (if lo8(g4) < p.w_flip { -s.dir } else { s.dir as int }) as i16, ..s }
    } else {
        s
    }
}

/// The curves steps with at most `fuel` of them: the state where the pass ends and
/// the final curve value.
pub open spec fn turns_run(g: Gen, s: Bends, p: TurnParams, fuel: nat) -> Option<(Gen, u16)>
    decreases fuel,
{
    if fuel == 0 {
        None
    } else {
        match turns_step(g, s, p) {
            None => None,
            Some(t) => match t.2 {
                Some(Some(v)) => Some((t.0, v)),
                _ => turns_run(t.0, t.1, p, (fuel - 1) as nat),
            },
        }
    }
}

/// The thresholds of the curves pass for layout `l`.
pub open spec fn turns_params(l: CourseLayout) -> TurnParams {
    TurnParams {
        w_curve: (160 * l.curves / 100 + 32) as i16 as int,
        w_len: (160 * l.curves / 100 + 32) as i16 as int,
        w_flip: (160 * l.sharpness / 100 + 64) as i16 as int,
        w_sharp: (160 * l.sharpness / 100 + 32) as i16 as int,
        total: l.section_len,
        circular: l.is_circular,
    }
}

/// The curves of the course with layout `l`: sixteen records that take the rate back
/// to zero, then the curves steps. Gives the state and the final curve value (the
/// turn left at the end of a circular course, 128 otherwise). `None` where the pass
/// fails (on a circular course of no length every step divides by zero).
pub open spec fn turns_spec(g: Gen, l: CourseLayout) -> Option<(Gen, u16)> {
    let p = turns_params(l);
    let s0 = Bends { seg: l.start_segment, rate: 0, acc: 0, dir: 1, si: l.buf_offset };
    if l.is_circular && l.section_len == 0 {
        None
    } else {
        match curve(g, s0, 16, 0, true) {
            None => None,
            Some(t) => if exists|fuel: nat| #[trigger] turns_run(t.0, t.1, p, fuel) is Some {
                turns_run(t.0, t.1, p, choose|fuel: nat| #[trigger] turns_run(t.0, t.1, p, fuel) is Some)
            } else {
                None
            },
        }
    }
}

/// One curve record: the state, rate and accumulated curve after it.
pub open spec fn curve_one(g: Gen, si: int, a: int, b: int, decay: bool) -> (Gen, int, int) {
    let a1 = if decay { toward_zero(a) } else { a };
    (with_byte(with_byte(g, si, byte_of(a1)), si + 12, byte_of(b)), a1, wrap16(b + a1))
}

/// One curve record (see [`curve_one`]).
fn curve_one_exec(tg: &mut TrackGen, si: usize, a: i16, b: i16, decay: bool) -> (r: (i16, i16))
    requires
        old(tg).buf@.len() == TRACK_BUF_LEN,
        si + 12 < TRACK_BUF_LEN,
        -32 <= a <= 32,
    ensures
        curve_one(old(tg)@, si as int, a as int, b as int, decay) == (final(tg)@, r.0 as int, r.1 as int),
        final(tg).buf@.len() == TRACK_BUF_LEN,
        -32 <= r.0 <= 32,
{
    let mut ax = a;
    if decay {
        if ax > 0 {
            ax = ax - 1;
        } else if ax < 0 {
            ax = ax + 1;
        }
    }
    tg.put(si, height_byte(ax));
    tg.put(si + 12, height_byte(b));
    let bp = ((b as i32 + ax as i32 + 32768 + 65536) % 65536 - 32768) as i16;
    (ax, bp)
}

/// `n` curve records (see [`curve_run`]).
fn curve_run_exec(tg: &mut TrackGen, si: usize, n: u16, a: i16, b: i16, decay: bool) -> (r: (i16, i16))
    requires
        old(tg).buf@.len() == TRACK_BUF_LEN,
        si < SI_BOUND,
        -32 <= a <= 32,
        curve_run(old(tg)@, si as int, n as nat, a as int, b as int, decay) is Some,
    ensures
        curve_run(old(tg)@, si as int, n as nat, a as int, b as int, decay) == Some(
            (final(tg)@, r.0 as int, r.1 as int),
        ),
        final(tg).buf@.len() == TRACK_BUF_LEN,
        si + 16 * n < SI_BOUND,
        -32 <= r.0 <= 32,
{
    let ghost g0 = tg@;
    let mut j: u16 = 0;
    let mut cur = si;
    let mut ax = a;
    let mut bp = b;
    while j < n
        invariant
            tg.buf@.len() == TRACK_BUF_LEN,
            j <= n,
            si < SI_BOUND,
            -32 <= ax <= 32,
            cur == si + 16 * j,
            j > 0 ==> cur < TRACK_BUF_LEN + 16,
            curve_run(tg@, cur as int, (n - j) as nat, ax as int, bp as int, decay) == curve_run(
                g0,
                si as int,
                n as nat,
                a as int,
                b as int,
                decay,
            ),
            curve_run(g0, si as int, n as nat, a as int, b as int, decay) is Some,
        decreases n - j,
    {
        let r = curve_one_exec(tg, cur, ax, bp, decay);
        ax = r.0;
        bp = r.1;
        cur = cur + 16;
        j = j + 1;
    }
    (ax, bp)
}

/// Curve records (see [`curve`]).
fn curve_exec(tg: &mut TrackGen, s: &mut Bends, bx: u16, a: i16, decay: bool)
    requires
        old(tg).buf@.len() == TRACK_BUF_LEN,
        old(s).si < SI_BOUND,
        -32 <= a <= 32,
        bx <= 255,
        curve(old(tg)@, *old(s), bx as int, a as int, decay) is Some,
    ensures
        curve(old(tg)@, *old(s), bx as int, a as int, decay) == Some((final(tg)@, *final(s))),
        final(tg).buf@.len() == TRACK_BUF_LEN,
        final(s).si < SI_BOUND,
        -32 <= final(s).rate <= 32,
{
    let (ra, rb) = curve_run_exec(tg, s.si, bx, a, s.acc, decay);
    s.seg = s.seg.wrapping_add(bx);
    s.rate = ra;
    s.acc = rb;
    s.si = s.si + 16 * (bx as usize);
}

/// The exec thresholds and values of the curves pass.
pub struct TurnLimits {
    pub w_curve: i16,
    pub w_len: i16,
    pub w_sharp: i16,
    pub w_flip: i16,
    pub total: u16,
    pub circular: bool,
}

impl TurnLimits {
    /// The parameters as mathematical values.
    pub open spec fn params(&self) -> TurnParams {
        TurnParams {
            w_curve: self.w_curve as int,
            w_len: self.w_len as int,
            w_sharp: self.w_sharp as int,
            w_flip: self.w_flip as int,
            total: self.total,
            circular: self.circular,
        }
    }
}

/// Computes [`on_course`].
fn on_course_exec(x: u16, total: u16, extra: i32, acc: i16) -> (r: bool)
    requires
        total > 0,
        -2000 <= extra <= 2000,
    ensures
        r == on_course(x as int, total as int, extra as int, acc as int),
{
    let q: i32 = ((96 * (x as u32)) / (total as u32)) as i32;
    let ax: i32 = 0 - q + extra - acc as i32;
    -32 <= ax && ax < 32
}

/// One step of the curves pass (see [`turns_step`]).
#[verifier::spinoff_prover]
#[verifier::rlimit(40)]
fn turns_step_exec(tg: &mut TrackGen, s: &mut Bends, lim: &TurnLimits) -> (res: Option<Option<u16>>)
    requires
        old(tg).buf@.len() == TRACK_BUF_LEN,
        old(s).si < SI_BOUND,
        -32 <= old(s).rate <= 32,
        -1 <= old(s).dir <= 1,
        lim.circular ==> lim.total > 0,
        turns_step(old(tg)@, *old(s), lim.params()) is Some,
    ensures
        turns_step(old(tg)@, *old(s), lim.params()) == Some((final(tg)@, *final(s), res)),
        final(tg).buf@.len() == TRACK_BUF_LEN,
        final(s).si < SI_BOUND,
        -32 <= final(s).rate <= 32,
        -1 <= final(s).dir <= 1,
{
    let ghost g = tg@;
    let ghost s0 = *s;
    let d = tg.draw();
    let ghost g1 = tg@;
    if ((d % 256) as i16) < lim.w_curve {
        let kb = tg.grow(4, 4, 24, lim.w_len);
        let kc = tg.grow(4, 1, 6, lim.w_sharp);
        let bx: u16 = 4 + 4 * kb;
        let cx: i16 = 4 + kc as i16;
        let d4 = tg.draw();
        if ((d4 % 256) as i16) < lim.w_flip {
            s.dir = 0 - s.dir;
        }
        let a: i16 = if s.dir < 0 {
            0 - cx
        } else {
            cx
        };
        assert((a as int) * (bx as int) <= 10 * 120 && (a as int) * (bx as int) >= -10 * 120) by (nonlinear_arith)
            requires
                -10 <= a <= 10,
                bx <= 120,
        ;
        if lim.circular && !on_course_exec(s.seg.wrapping_add(bx), lim.total, (a as i32) * (bx as i32), s.acc) {
            assert(tg@ == turns_redrawn(g1, s0, lim.params()));
            return None;
        }
        curve_exec(tg, s, bx, a, false);
    } else {
        if lim.circular && !on_course_exec(s.seg.wrapping_add(4), lim.total, 0, s.acc) {
            return None;
        }
        let rate = s.rate;
        curve_exec(tg, s, 4, rate, true);
    }
    if lim.circular {
        if s.seg > lim.total {
            let i = 12 + 16 * (lim.total as usize);
            let v = tg.get(i);
            return Some(Some(((256 - v as u16) % 256) as u16));
        }
        Some(None)
    } else if s.seg >= 1024 {
        Some(Some(128))
    } else {
        Some(None)
    }
}

/// The curves of the course with layout `layout` (see [`turns_spec`]); returns the
/// final curve value.
pub fn prep_track_turns(tg: &mut TrackGen, layout: &CourseLayout) -> (v: u16)
    requires
        old(tg).buf@.len() == TRACK_BUF_LEN,
        turns_spec(old(tg)@, *layout) is Some,
    ensures
        turns_spec(old(tg)@, *layout) == Some((final(tg)@, v)),
        final(tg).buf@.len() == TRACK_BUF_LEN,
{
    let lim = TurnLimits {
        w_curve: (160 * (layout.curves as u32) / 100 + 32) as i16,
        w_len: (160 * (layout.curves as u32) / 100 + 32) as i16,
        w_sharp: (160 * (layout.sharpness as u32) / 100 + 32) as i16,
        w_flip: (160 * (layout.sharpness as u32) / 100 + 64) as i16,
        total: layout.section_len,
        circular: layout.is_circular,
    };
    assert(lim.params() == turns_params(*layout));
    let mut s = Bends { seg: layout.start_segment, rate: 0, acc: 0, dir: 1, si: layout.buf_offset };
    assert(s.si < TRACK_BUF_LEN);
    curve_exec(tg, &mut s, 16, 0, true);
    let ghost g1 = tg@;
    let ghost s1 = s;
    let ghost fuel0 = choose|fuel: nat| #[trigger] turns_run(g1, s1, lim.params(), fuel) is Some;
    let ghost mut fuel = fuel0;
    let mut out: Option<u16> = None;
    while out.is_none()
        invariant
            tg.buf@.len() == TRACK_BUF_LEN,
            s.si < SI_BOUND,
            -32 <= s.rate <= 32,
            -1 <= s.dir <= 1,
            lim.circular ==> lim.total > 0,
            turns_run(g1, s1, lim.params(), fuel0) is Some,
            out is None ==> turns_run(tg@, s, lim.params(), fuel) == turns_run(g1, s1, lim.params(), fuel0),
            out is Some ==> turns_run(g1, s1, lim.params(), fuel0) == Some((tg@, out->0)),
        decreases fuel,
    {
        match turns_step_exec(tg, &mut s, &lim) {
            Some(Some(v)) => {
                out = Some(v);
            },
            _ => {},
        }
        proof {
            fuel = (fuel - 1) as nat;
        }
    }
    match out {
        Some(v) => v,
        None => 0,
    }
}

} // verus!
