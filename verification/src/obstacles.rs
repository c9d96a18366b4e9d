//! Obstacles on the road, per scenery: road works, logs, puddles, truck parts, flooded
//! stretches and turbo zones. The passes start at the segment after the start area
//! (byte 256 of the segment buffer).

use vstd::prelude::*;

use crate::data::Scenario;
use crate::track::{
    draw, each_record, grow, hi_negative, lo16, lo8, scale, scaled, signed8, with_byte, Gen, TrackGen,
    TRACK_BUF_LEN,
};

verus! {

/// Where the obstacle passes start in the segment buffer.
pub const FIRST_OBSTACLE: usize = 256;

/// A pass that treats one record at a time.
#[derive(Clone, Copy, Debug, PartialEq, Eq, Structural)]
pub enum RecordRule {
    /// A log or a tuft of grass of this kind, on a straight and level segment.
    Log(u8),
    /// A puddle on a level segment.
    Puddle,
    /// Truck parts.
    Truck,
}

/// Position of a log: one of -12, -4, 4 and 12 from the low half of a draw.
pub open spec fn log_position(lo: int) -> u8 {
    (((lo % 32) / 8 * 8 + 244) % 256) as u8
}

/// One record of a log pass: a draw below `w` tries a log of kind `kind` at a drawn
/// position, where the segment is straight and level and the record three further on
/// has no marks. `None` where the test reads past the buffer.
pub open spec fn log_record(g: Gen, si: int, kind: u8, w: int) -> Option<Gen> {
    let g1 = draw(g);
    if lo8(g1) < w {
        let g2 = draw(g1);
        let b = g2.buf;
        if b[si] == 0 && b[si + 4] == 0 {
            if si + 42 >= TRACK_BUF_LEN {
                None
            } else if b[si + 42] == 0 && b[si + 43] == 0 && b[si + 45] == 0 {
                Some(
                    with_byte(
                        with_byte(with_byte(with_byte(g2, si + 4, kind), si + 5, log_position(lo16(g2))), si + 42, 0),
                        si + 43,
                        1,
                    ),
                )
            } else {
                Some(g2)
            }
        } else {
            Some(g2)
        }
    } else {
        Some(g1)
    }
}

/// One record of the puddle pass: a draw below `w` and a second draw, then a puddle
/// where the segment is level.
pub open spec fn puddle_record(g: Gen, si: int, w: int) -> Gen {
    let g1 = draw(g);
    if lo8(g1) < w {
        let g2 = draw(g1);
        if g2.buf[si + 13] == 0 {
            with_byte(with_byte(g2, si + 10, 0), si + 11, 0x10)
        } else {
            g2
        }
    } else {
        g1
    }
}

/// One record of the truck pass: a draw below `w` places truck parts at the position
/// of a second draw, where the record has no object in its second slot and no marks.
pub open spec fn truck_record(g: Gen, si: int, w: int) -> Gen {
    let g1 = draw(g);
    if lo8(g1) < w {
        let g2 = draw(g1);
        let b = g2.buf;
        if b[si + 4] == 0 && b[si + 10] == 0 && b[si + 11] == 0 {
            with_byte(
                with_byte(with_byte(with_byte(g2, si + 4, 0xA0), si + 5, lo8(g2) as u8), si + 10, 0x22),
                si + 11,
                0x20,
            )
        } else {
            g2
        }
    } else {
        g1
    }
}

/// The step of a record pass.
pub open spec fn rule_record(r: RecordRule, w: int, g: Gen, si: int) -> Option<Gen> {
    match r {
        RecordRule::Log(kind) => log_record(g, si, kind, w),
        RecordRule::Puddle => Some(puddle_record(g, si, w)),
        RecordRule::Truck => Some(truck_record(g, si, w)),
    }
}

/// The step of a record pass, as a function.
pub open spec fn rule_step(r: RecordRule, w: int) -> spec_fn(Gen, int) -> Option<Gen> {
    |g: Gen, si: int| rule_record(r, w, g, si)
}

/// One record of a pass by rule `r` with threshold `w`.
fn apply_rule(tg: &mut TrackGen, r: RecordRule, w: i16, si: usize)
    requires
        old(tg).buf@.len() == TRACK_BUF_LEN,
        si < TRACK_BUF_LEN,
        si % 16 == 0,
        rule_record(r, w as int, old(tg)@, si as int) is Some,
    ensures
        final(tg)@ == rule_record(r, w as int, old(tg)@, si as int)->0,
        final(tg).buf@.len() == TRACK_BUF_LEN,
{
    let d = tg.draw();
    if ((d % 256) as i16) >= w {
        return;
    }
    let d2 = tg.draw();
    match r {
        RecordRule::Log(kind) => {
            if tg.get(si) == 0 && tg.get(si + 4) == 0 && tg.get(si + 42) == 0 && tg.get(si + 43) == 0
                && tg.get(si + 45) == 0 {
                assert(d2 & 0x18 == (d2 % 32) / 8 * 8) by (bit_vector);
                let pos = ((d2 & 0x18) as u8).wrapping_add(244);
                tg.put(si + 4, kind);
                tg.put(si + 5, pos);
                tg.put(si + 42, 0);
                tg.put(si + 43, 1);
            }
        },
        RecordRule::Puddle => {
            if tg.get(si + 13) == 0 {
                tg.put(si + 10, 0);
                tg.put(si + 11, 0x10);
            }
        },
        RecordRule::Truck => {
            if tg.get(si + 4) == 0 && tg.get(si + 10) == 0 && tg.get(si + 11) == 0 {
                tg.put(si + 4, 0xA0);
                tg.put(si + 5, (d2 % 256) as u8);
                tg.put(si + 10, 0x22);
                tg.put(si + 11, 0x20);
            }
        },
    }
}

/// A record pass from the first obstacle segment to the end of the buffer.
fn run_rule(tg: &mut TrackGen, r: RecordRule, w: i16)
    requires
        old(tg).buf@.len() == TRACK_BUF_LEN,
        each_record(rule_step(r, w as int), old(tg)@, FIRST_OBSTACLE as int) is Some,
    ensures
        final(tg)@ == each_record(rule_step(r, w as int), old(tg)@, FIRST_OBSTACLE as int)->0,
        final(tg).buf@.len() == TRACK_BUF_LEN,
{
    let ghost g0 = tg@;
    let ghost f = rule_step(r, w as int);
    let mut si: usize = FIRST_OBSTACLE;
    while si < TRACK_BUF_LEN
        invariant
            tg.buf@.len() == TRACK_BUF_LEN,
            si % 16 == 0,
            si <= TRACK_BUF_LEN,
            f == rule_step(r, w as int),
            each_record(f, tg@, si as int) == each_record(f, g0, FIRST_OBSTACLE as int),
            each_record(f, g0, FIRST_OBSTACLE as int) is Some,
        decreases TRACK_BUF_LEN - si,
    {
        assert(f(tg@, si as int) == rule_record(r, w as int, tg@, si as int));
        apply_rule(tg, r, w, si);
        si = si + 16;
    }
}

/// A position byte moved one step toward the target `t`, both read as signed bytes.
pub open spec fn toward(p: u8, t: u8) -> u8 {
    if signed8(p as int) < signed8(t as int) {
        ((p + 1) % 256) as u8
    } else if signed8(p as int) > signed8(t as int) {
        ((p + 255) % 256) as u8
    } else {
        p
    }
}

/// Computes [`toward`].
fn step_toward(p: u8, t: u8) -> (r: u8)
    ensures
        r == toward(p, t),
{
    let ps: i16 = if p >= 128 {
        p as i16 - 256
    } else {
        p as i16
    };
    let ts: i16 = if t >= 128 {
        t as i16 - 256
    } else {
        t as i16
    };
    if ps < ts {
        p.wrapping_add(1)
    } else if ps > ts {
        p.wrapping_sub(1)
    } else {
        p
    }
}

/// One record of road works at byte `si`, with the cones at position `p` drifting
/// toward `t`: cones, a sign (drawn) beside the cones, cones, and a barrier on the
/// drawn side. Gives the state and the position after the record.
pub open spec fn works_record(g: Gen, si: int, p: u8, t: u8) -> (Gen, u8) {
    let g1 = with_byte(with_byte(g, si + 2, 0xD1), si + 3, p);
    let p1 = toward(p, t);
    let g2 = draw(g1);
    let side: int = if hi_negative(g2) { 248 } else { 8 };
    let sign: u8 = if lo16(g2) < 0x4000 { 0xD3 } else { 0xD4 };
    let g3 = with_byte(with_byte(g2, si + 4, sign), si + 5, ((p1 + side) % 256) as u8);
    let p2 = toward(p1, t);
    let g4 = with_byte(with_byte(g3, si + 6, 0xD1), si + 7, p2);
    let p3 = toward(p2, t);
    let barrier: u8 = if hi_negative(g2) { 0xF6 } else { 0xD8 };
    (with_byte(with_byte(g4, si + 8, barrier), si + 9, p3), p3)
}

/// `n` records of road works from byte `si`; `None` where one lies past the buffer.
pub open spec fn works_run(g: Gen, si: int, p: u8, t: u8, n: nat) -> Option<Gen>
    decreases n,
{
    if n == 0 {
        Some(g)
    } else if si + 9 >= TRACK_BUF_LEN {
        None
    } else {
        let r = works_record(g, si, p, t);
        works_run(r.0, si + 16, r.1, t, (n - 1) as nat)
    }
}

/// The gap before a stretch of road works: up to two records are skipped while a draw
/// is not below `w`.
pub open spec fn works_gap(g: Gen, w: int) -> (Gen, nat) {
    let g1 = draw(g);
    if lo8(g1) < w {
        (g1, 0)
    } else {
        let g2 = draw(g1);
        if lo8(g2) < w {
            (g2, 1)
        } else {
            (g2, 2)
        }
    }
}

/// One stretch of road works from byte `si`: a gap, a drawn side and target, a drawn
/// length of 5 to 13 records, and the stretch. `w_gap` and `w_len` are the thresholds
/// of the gap and of the length. Gives the state and where the next stretch starts.
#[verifier::opaque]
pub open spec fn works_block(g: Gen, si: int, w_gap: int, w_len: int) -> Option<(Gen, int)> {
    let (g1, skip) = works_gap(g, w_gap);
    let g2 = draw(g1);
    let p: u8 = if hi_negative(g2) { 0x10 } else { 0xF0 };
    let g3 = draw(g2);
    let t = ((lo16(g3) % 16 + 0xF8) % 256) as u8;
    let (g4, k) = grow(g3, 4, 2, 12, w_len);
    let start = si + 16 * skip;
    match works_run(g4, start, p, t, 5 + 2 * k) {
        Some(g5) => Some((g5, start + 16 * (5 + 2 * k))),
        None => None,
    }
}

/// The road works pass from byte `si` to the end of the buffer.
pub open spec fn works_from(g: Gen, si: int, w_gap: int, w_len: int) -> Option<Gen>
    decreases (if si < TRACK_BUF_LEN { TRACK_BUF_LEN - si } else { 0 }),
{
    if si >= TRACK_BUF_LEN {
        Some(g)
    } else {
        match works_block(g, si, w_gap, w_len) {
            Some(r) => if r.1 > si {
                works_from(r.0, r.1, w_gap, w_len)
            } else {
                None
            },
            None => None,
        }
    }
}

/// One record of road works (see [`works_record`]).
fn works_record_exec(tg: &mut TrackGen, si: usize, p: u8, t: u8) -> (r: u8)
    requires
        old(tg).buf@.len() == TRACK_BUF_LEN,
        si + 9 < TRACK_BUF_LEN,
    ensures
        (final(tg)@, r) == works_record(old(tg)@, si as int, p, t),
        final(tg).buf@.len() == TRACK_BUF_LEN,
{
    let ghost g0 = tg@;
    tg.put(si + 2, 0xD1);
    tg.put(si + 3, p);
    let ghost g1 = tg@;
    assert(g1 == with_byte(with_byte(g0, si + 2, 0xD1), si + 3, p));
    let p1 = step_toward(p, t);
    let d = tg.draw();
    let ghost g2 = tg@;
    let neg = tg.hi >= 0x8000;
    assert(neg == hi_negative(g2));
    let sign: u8 = if d < 0x4000 {
        0xD3
    } else {
        0xD4
    };
    let side: u8 = if neg {
        248
    } else {
        8
    };
    let at5 = p1.wrapping_add(side);
    assert(at5 == ((p1 + (if hi_negative(g2) { 248int } else { 8int })) % 256) as u8);
    tg.put(si + 4, sign);
    tg.put(si + 5, at5);
    let ghost g3 = tg@;
    let p2 = step_toward(p1, t);
    tg.put(si + 6, 0xD1);
    tg.put(si + 7, p2);
    let ghost g4 = tg@;
    assert(g4 == with_byte(with_byte(g3, si + 6, 0xD1), si + 7, p2));
    let p3 = step_toward(p2, t);
    let barrier: u8 = if neg {
        0xF6
    } else {
        0xD8
    };
    tg.put(si + 8, barrier);
    tg.put(si + 9, p3);
    p3
}

/// One stretch of road works (see [`works_block`]); returns where the next starts.
fn works_block_exec(tg: &mut TrackGen, si: usize, w_gap: i16, w_len: i16) -> (r: usize)
    requires
        old(tg).buf@.len() == TRACK_BUF_LEN,
        si < TRACK_BUF_LEN,
        works_block(old(tg)@, si as int, w_gap as int, w_len as int) is Some,
    ensures
        works_block(old(tg)@, si as int, w_gap as int, w_len as int) == Some((final(tg)@, r as int)),
        final(tg).buf@.len() == TRACK_BUF_LEN,
        si < r <= si + 600,
{
    let ghost gs = tg@;
    let mut skip: usize = 0;
    let d = tg.draw();
    if ((d % 256) as i16) >= w_gap {
        skip = 1;
        let d2 = tg.draw();
        if ((d2 % 256) as i16) >= w_gap {
            skip = 2;
        }
    }
    assert((tg@, skip as nat) == works_gap(gs, w_gap as int));
    let ghost g1 = tg@;
    let _ = tg.draw();
    let ghost g2 = tg@;
    let p: u8 = if tg.hi >= 0x8000 {
        0x10
    } else {
        0xF0
    };
    assert(p == (if hi_negative(g2) { 0x10u8 } else { 0xF0u8 }));
    let d3 = tg.draw();
    let ghost g3 = tg@;
    let t = ((d3 % 16) as u8).wrapping_add(0xF8);
    assert(t == ((lo16(g3) % 16 + 0xF8) % 256) as u8);
    let k = tg.grow(4, 2, 12, w_len);
    let n: usize = 5 + 2 * (k as usize);
    let start = si + 16 * skip;
    let ghost g4 = tg@;
    assert(works_run(g4, start as int, p, t, n as nat) is Some) by {
        reveal(works_block);
    }
    let mut cur = start;
    let mut j: usize = 0;
    let mut pp = p;
    while j < n
        invariant
            tg.buf@.len() == TRACK_BUF_LEN,
            j <= n,
            n <= 33,
            cur == start + 16 * j,
            start < TRACK_BUF_LEN + 33,
            works_run(tg@, cur as int, pp, t, (n - j) as nat) == works_run(g4, start as int, p, t, n as nat),
            works_run(g4, start as int, p, t, n as nat) is Some,
        decreases n - j,
    {
        pp = works_record_exec(tg, cur, pp, t);
        cur = cur + 16;
        j = j + 1;
    }
    assert(works_run(g4, start as int, p, t, n as nat) == Some(tg@));
    assert(works_block(gs, si as int, w_gap as int, w_len as int) == Some((tg@, cur as int))) by {
        reveal(works_block);
    }
    cur
}

/// The road works pass (see [`works_from`]).
fn road_works(tg: &mut TrackGen, w_gap: i16, w_len: i16)
    requires
        old(tg).buf@.len() == TRACK_BUF_LEN,
        works_from(old(tg)@, FIRST_OBSTACLE as int, w_gap as int, w_len as int) is Some,
    ensures
        final(tg)@ == works_from(old(tg)@, FIRST_OBSTACLE as int, w_gap as int, w_len as int)->0,
        final(tg).buf@.len() == TRACK_BUF_LEN,
{
    let ghost g0 = tg@;
    let mut si: usize = FIRST_OBSTACLE;
    while si < TRACK_BUF_LEN
        invariant
            tg.buf@.len() == TRACK_BUF_LEN,
            si < TRACK_BUF_LEN + 600,
            works_from(tg@, si as int, w_gap as int, w_len as int) == works_from(
                g0,
                FIRST_OBSTACLE as int,
                w_gap as int,
                w_len as int,
            ),
            works_from(g0, FIRST_OBSTACLE as int, w_gap as int, w_len as int) is Some,
        decreases (if si < TRACK_BUF_LEN { TRACK_BUF_LEN - si } else { 0 }),
    {
        si = works_block_exec(tg, si, w_gap, w_len);
    }
}

/// One record of a closed stretch at byte `si`: four objects `obj`, at positions
/// `left` and `right` in turn, and marks `0x22` on both sides.
pub open spec fn closed_record(g: Gen, si: int, obj: u8, left: u8, right: u8) -> Gen {
    let g1 = with_byte(with_byte(with_byte(with_byte(g, si + 2, obj), si + 3, left), si + 4, obj), si + 5, right);
    let g2 = with_byte(with_byte(with_byte(with_byte(g1, si + 6, obj), si + 7, left), si + 8, obj), si + 9, right);
    with_byte(with_byte(g2, si + 10, 0x22), si + 11, 0x22)
}

/// Up to `n` closed records from byte `si`. With `level`, the stretch stops at a
/// record that is not level. Gives the state, the number of records closed, and
/// whether the end of the buffer was reached.
pub open spec fn closed_run(g: Gen, si: int, n: nat, level: bool, obj: u8, left: u8, right: u8) -> (Gen, nat, bool)
    decreases n,
{
    if n == 0 || (level && g.buf[si + 13] != 0) {
        (g, 0, false)
    } else {
        let g1 = closed_record(g, si, obj, left, right);
        if si + 16 == TRACK_BUF_LEN {
            (g1, 1, true)
        } else {
            let r = closed_run(g1, si + 16, (n - 1) as nat, level, obj, left, right);
            (r.0, r.1 + 1, r.2)
        }
    }
}

/// The closed stretches pass from byte `si`: a draw below `rate` starts a stretch of
/// 17 to 65 records (the length drawn with threshold `w_len`), followed by sixteen
/// free records; the pass ends at the end of the buffer.
pub open spec fn closed_from(
    g: Gen,
    si: int,
    rate: int,
    w_len: int,
    level: bool,
    obj: u8,
    left: u8,
    right: u8,
) -> Gen
    decreases (if si < TRACK_BUF_LEN { TRACK_BUF_LEN - si } else { 0 }),
{
    if si >= TRACK_BUF_LEN {
        g
    } else {
        let g1 = draw(g);
        if lo8(g1) < rate {
            let (g2, k) = grow(g1, 16, 8, 64, w_len);
            let (g3, m, end) = closed_run(g2, si, 17 + 8 * k, level, obj, left, right);
            if end {
                g3
            } else {
                closed_from(g3, si + 16 * m + 272, rate, w_len, level, obj, left, right)
            }
        } else {
            closed_from(g1, si + 16, rate, w_len, level, obj, left, right)
        }
    }
}

/// The closed stretches pass (see [`closed_from`]).
fn closed_stretches(tg: &mut TrackGen, rate: i16, w_len: i16, level: bool, obj: u8, left: u8, right: u8)
    requires
        old(tg).buf@.len() == TRACK_BUF_LEN,
    ensures
        final(tg)@ == closed_from(old(tg)@, FIRST_OBSTACLE as int, rate as int, w_len as int, level, obj, left, right),
        final(tg).buf@.len() == TRACK_BUF_LEN,
{
    let ghost g0 = tg@;
    let mut si: usize = FIRST_OBSTACLE;
    while si < TRACK_BUF_LEN
        invariant
            tg.buf@.len() == TRACK_BUF_LEN,
            g0 == old(tg)@,
            si % 16 == 0,
            closed_from(tg@, si as int, rate as int, w_len as int, level, obj, left, right) == closed_from(
                g0,
                FIRST_OBSTACLE as int,
                rate as int,
                w_len as int,
                level,
                obj,
                left,
                right,
            ),
        decreases (if si < TRACK_BUF_LEN { TRACK_BUF_LEN - si } else { 0 }),
    {
        let ghost gh = tg@;
        let d = tg.draw();
        if ((d % 256) as i16) < rate {
            let ghost g1 = tg@;
            let k = tg.grow(16, 8, 64, w_len);
            let n: usize = 17 + 8 * (k as usize);
            let ghost g2 = tg@;
            let ghost start = si;
            let mut m: usize = 0;
            let mut stopped = false;
            while m < n && !stopped
                invariant
                    tg.buf@.len() == TRACK_BUF_LEN,
                    g0 == old(tg)@,
                    m <= n,
                    n <= 600,
                    n == 17 + 8 * k,
                    g1 == draw(gh),
                    lo8(g1) < rate,
                    grow(g1, 16, 8, 64, w_len as int) == (g2, k as nat),
                    closed_from(gh, start as int, rate as int, w_len as int, level, obj, left, right) == closed_from(
                        g0,
                        FIRST_OBSTACLE as int,
                        rate as int,
                        w_len as int,
                        level,
                        obj,
                        left,
                        right,
                    ),
                    start % 16 == 0,
                    start < TRACK_BUF_LEN,
                    si == start + 16 * m,
                    stopped ==> closed_run(g2, start as int, n as nat, level, obj, left, right) == (tg@, m as nat, false),
                    !stopped ==> si < TRACK_BUF_LEN,
                    !stopped ==> ({
                        let r = closed_run(tg@, si as int, (n - m) as nat, level, obj, left, right);
                        let r0 = closed_run(g2, start as int, n as nat, level, obj, left, right);
                        r0 == (r.0, r.1 + (m as nat), r.2)
                    }),
                decreases n - m + (if stopped { 0int } else { 1int }),
            {
                if level && tg.get(si + 13) != 0 {
                    stopped = true;
                } else {
                    let ghost tb = tg@;
                    let ghost sb = si;
                    tg.put(si + 2, obj);
                    tg.put(si + 3, left);
                    tg.put(si + 4, obj);
                    tg.put(si + 5, right);
                    tg.put(si + 6, obj);
                    tg.put(si + 7, left);
                    tg.put(si + 8, obj);
                    tg.put(si + 9, right);
                    tg.put(si + 10, 0x22);
                    tg.put(si + 11, 0x22);
                    si = si + 16;
                    m = m + 1;
                    if si == TRACK_BUF_LEN {
                        assert(tg@ == closed_record(tb, sb as int, obj, left, right));
                        assert(closed_run(tb, sb as int, (n - (m - 1)) as nat, level, obj, left, right) == (tg@, 1nat, true));
                        assert(closed_from(gh, start as int, rate as int, w_len as int, level, obj, left, right) == tg@);
                        return;
                    }
                }
            }
            si = si + 256;
        }
        si = si + 16;
    }
}

/// The obstacles of the scenery `scenario`, with the obstacles setting `obstacles`
/// and the scatter setting `scatter`: road works, logs (forest), puddles (rally),
/// truck parts (motorway), flooded stretches and grass (marsh), turbo zones
/// (futuristic); the other sceneries get none. `None` where a pass reads or writes
/// past the segment buffer.
pub open spec fn obstacles_spec(g: Gen, scenario: Scenario, obstacles: i16, scatter: u16) -> Option<Gen> {
    let o = obstacles as int;
    let sc = scatter as int;
    let start = FIRST_OBSTACLE as int;
    match scenario {
        Scenario::Roadworks => works_from(g, start, scaled(-48, o, 64) as int, scaled(-96, sc, 224) as int),
        Scenario::Forest => each_record(rule_step(RecordRule::Log(0x95), scaled(16, o, 0) as int), g, start),
        Scenario::Rally => each_record(rule_step(RecordRule::Puddle, scaled(24, o, 8) as int), g, start),
        Scenario::MotorWay => each_record(rule_step(RecordRule::Truck, scaled(16, o, 0) as int), g, start),
        Scenario::Marsh => each_record(
            rule_step(RecordRule::Log(0xCE), scaled(16, o, 0) as int),
            closed_from(g, start, 8, scaled(-128, sc, 224) as int, true, 0, 0, 0),
            start,
        ),
        Scenario::Futuristic => Some(
            closed_from(g, start, 4, scaled(-128, sc, 224) as int, false, 0xDE, 0xE0, 0x20),
        ),
        _ => Some(g),
    }
}

/// The sceneries without obstacles: night, fog, snow, desert, storm, wind and
/// mountains. Their courses are left as they are.
pub proof fn lemma_no_obstacles(g: Gen, scenario: Scenario, obstacles: i16, scatter: u16)
    requires
        scenario == Scenario::Night || scenario == Scenario::Fog || scenario == Scenario::Snow
            || scenario == Scenario::Desert || scenario == Scenario::Storm || scenario == Scenario::Wind
            || scenario == Scenario::Mountains,
    ensures
        obstacles_spec(g, scenario, obstacles, scatter) == Some(g),
{
}

/// Drawing numbers leaves the segment buffer as it is.
proof fn lemma_grow_keeps_buf(g: Gen, c: int, step: int, lim: int, w: int)
    ensures
        grow(g, c, step, lim, w).0.buf == g.buf,
    decreases lim + step - c,
{
    reveal(draw);
    if !(c >= lim || step <= 0) {
        let g1 = draw(g);
        if lo8(g1) < w {
            lemma_grow_keeps_buf(g1, c + step, step, lim, w);
        }
    }
}

/// Road works from byte `si` leave the buffer before `si` as it is, keep its length,
/// and mark their first record with cones (0xD1).
proof fn lemma_works_run(g: Gen, si: int, p: u8, t: u8, n: nat)
    requires
        0 <= si,
        g.buf.len() == TRACK_BUF_LEN,
        works_run(g, si, p, t, n) is Some,
    ensures
        ({
            let g2 = works_run(g, si, p, t, n)->0;
            &&& g2.buf.len() == TRACK_BUF_LEN
            &&& forall|a: int| 0 <= a < si ==> #[trigger] g2.buf[a] == g.buf[a]
            &&& n > 0 ==> g2.buf[si + 2] == 0xD1
        }),
    decreases n,
{
    reveal(draw);
    if n > 0 {
        let r = works_record(g, si, p, t);
        assert(r.0.buf.len() == TRACK_BUF_LEN);
        assert(forall|a: int| 0 <= a < si + 2 ==> #[trigger] r.0.buf[a] == g.buf[a]);
        assert(r.0.buf[si + 2] == 0xD1);
        lemma_works_run(r.0, si + 16, r.1, t, (n - 1) as nat);
    }
}

/// The road works pass from byte `si` leaves the buffer before `si` as it is.
proof fn lemma_works_from_keeps(g: Gen, si: int, w_gap: int, w_len: int)
    requires
        0 <= si,
        g.buf.len() == TRACK_BUF_LEN,
        works_from(g, si, w_gap, w_len) is Some,
    ensures
        (works_from(g, si, w_gap, w_len)->0).buf.len() == TRACK_BUF_LEN,
        forall|a: int| 0 <= a < si ==> #[trigger] (works_from(g, si, w_gap, w_len)->0).buf[a] == g.buf[a],
    decreases (if si < TRACK_BUF_LEN { TRACK_BUF_LEN - si } else { 0 }),
{
    if si < TRACK_BUF_LEN {
        let b = works_block(g, si, w_gap, w_len)->0;
        lemma_works_block(g, si, w_gap, w_len);
        lemma_works_from_keeps(b.0, b.1, w_gap, w_len);
    }
}

/// A stretch of road works from byte `si` starts within the two records after `si` with
/// cones, ends after them, and leaves the buffer before `si` as it is.
proof fn lemma_works_block(g: Gen, si: int, w_gap: int, w_len: int)
    requires
        0 <= si,
        g.buf.len() == TRACK_BUF_LEN,
        works_block(g, si, w_gap, w_len) is Some,
    ensures
        ({
            let (g5, next) = works_block(g, si, w_gap, w_len)->0;
            &&& g5.buf.len() == TRACK_BUF_LEN
            &&& next > si
            &&& forall|a: int| 0 <= a < si ==> #[trigger] g5.buf[a] == g.buf[a]
            &&& exists|k: int| 0 <= k < 3 && si + 16 * k + 2 < next && #[trigger] g5.buf[si + 16 * k + 2] == 0xD1
        }),
{
    let (g1, skip) = works_gap(g, w_gap);
    lemma_draw_buf(g);
    lemma_draw_buf(draw(g));
    assert(g1.buf == g.buf);
    let g2 = draw(g1);
    lemma_draw_buf(g1);
    let p: u8 = if hi_negative(g2) { 0x10 } else { 0xF0 };
    let g3 = draw(g2);
    lemma_draw_buf(g2);
    let t = ((lo16(g3) % 16 + 0xF8) % 256) as u8;
    let (g4, k) = grow(g3, 4, 2, 12, w_len);
    lemma_grow_keeps_buf(g3, 4, 2, 12, w_len);
    assert(g4.buf == g.buf);
    let start = si + 16 * skip;
    let n = (5 + 2 * k) as nat;
    assert(works_block(g, si, w_gap, w_len) == (match works_run(g4, start, p, t, n) {
        Some(g5) => Some((g5, start + 16 * n)),
        None => None,
    })) by {
        reveal(works_block);
    }
    lemma_works_run(g4, start, p, t, n);
    let g5 = works_run(g4, start, p, t, n)->0;
    assert(g5.buf[si + 16 * (skip as int) + 2] == 0xD1);
    assert(si + 16 * (skip as int) + 2 < start + 16 * n);
    assert(skip < 3);
    let wb = works_block(g, si, w_gap, w_len)->0;
    assert(wb.0 == g5 && wb.1 == start + 16 * n);
    let kk = skip as int;
    assert(0 <= kk < 3 && si + 16 * kk + 2 < wb.1 && wb.0.buf[si + 16 * kk + 2] == 0xD1);
}

/// Drawing a number leaves the segment buffer as it is.
proof fn lemma_draw_buf(g: Gen)
    ensures
        draw(g).buf == g.buf,
{
    reveal(draw);
}

/// The road-works course always gets road works: where the pass completes, one of the
/// first three records of the obstacle area carries cones (0xD1).
pub proof fn lemma_road_works_placed(g: Gen, obstacles: i16, scatter: u16)
    requires
        g.buf.len() == TRACK_BUF_LEN,
        obstacles_spec(g, Scenario::Roadworks, obstacles, scatter) is Some,
    ensures
        exists|k: int|
            0 <= k < 3 && #[trigger] (obstacles_spec(g, Scenario::Roadworks, obstacles, scatter)->0).buf[
                FIRST_OBSTACLE + 16 * k + 2] == 0xD1,
{
    let o = obstacles as int;
    let sc = scatter as int;
    let wg = scaled(-48, o, 64) as int;
    let wl = scaled(-96, sc, 224) as int;
    let si = FIRST_OBSTACLE as int;
    let b = works_block(g, si, wg, wl)->0;
    lemma_works_block(g, si, wg, wl);
    lemma_works_from_keeps(b.0, b.1, wg, wl);
    let k = choose|k: int| 0 <= k < 3 && si + 16 * k + 2 < b.1 && #[trigger] b.0.buf[si + 16 * k + 2] == 0xD1;
    let g2 = obstacles_spec(g, Scenario::Roadworks, obstacles, scatter)->0;
    assert(g2 == works_from(b.0, b.1, wg, wl)->0);
    assert(g2.buf[si + 16 * k + 2] == 0xD1);
}

/// B2B0: places the obstacles of the scenery (see [`obstacles_spec`]).
pub fn sub_b2b0(tg: &mut TrackGen, scenario: Scenario, obstacles: i16, scatter: u16)
    requires
        old(tg).buf@.len() == TRACK_BUF_LEN,
        obstacles_spec(old(tg)@, scenario, obstacles, scatter) is Some,
    ensures
        final(tg)@ == obstacles_spec(old(tg)@, scenario, obstacles, scatter)->0,
        final(tg).buf@.len() == TRACK_BUF_LEN,
{
    let o = obstacles as i32;
    let sc = scatter as i32;
    match scenario {
        Scenario::Roadworks => {
            let w_gap = scale(-48, o, 64);
            let w_len = scale(-96, sc, 224);
            road_works(tg, w_gap, w_len);
        },
        Scenario::Forest => {
            let w = scale(16, o, 0);
            run_rule(tg, RecordRule::Log(0x95), w);
        },
        Scenario::Rally => {
            let w = scale(24, o, 8);
            run_rule(tg, RecordRule::Puddle, w);
        },
        Scenario::MotorWay => {
            let w = scale(16, o, 0);
            run_rule(tg, RecordRule::Truck, w);
        },
        Scenario::Marsh => {
            let w_len = scale(-128, sc, 224);
            closed_stretches(tg, 8, w_len, true, 0, 0, 0);
            let w = scale(16, o, 0);
            run_rule(tg, RecordRule::Log(0xCE), w);
        },
        Scenario::Futuristic => {
            let w_len = scale(-128, sc, 224);
            closed_stretches(tg, 4, w_len, false, 0xDE, 0xE0, 0x20);
        },
        _ => {},
    }
}

} // verus!
