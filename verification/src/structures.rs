//! Structures over the road: tunnels, bridges, and the curve signs.

use vstd::prelude::*;

use crate::data::Scenario;
use crate::track::{
    draw, first_hit, grow, hits, iter_n, lemma_first_hit, lemma_first_hit_props, lo16, lo8, with_byte, Gen, TrackGen,
    TRACK_BUF_LEN,
};

verus! {

/// One number drawn, as a function.
pub open spec fn draw_fn() -> spec_fn(Gen) -> Gen {
    |g: Gen| draw(g)
}

/// Whether the last number drawn has its low byte below `w`, as a function.
pub open spec fn below(w: int) -> spec_fn(Gen) -> bool {
    |g: Gen| lo8(g) < w
}

/// `16 * v / 100` for a setting `v` taken as a signed word, all in 16 bits (the
/// product wraps, the quotient is rounded toward zero).
pub open spec fn scaled16(k: int, v: u16) -> i16 {
    let p = (k * (v as i16) as int) as i16;
    (if p >= 0 { p / 100 } else { -((-p) / 100) }) as i16
}

/// Computes [`scaled16`].
fn scale16(k: i16, v: u16) -> (r: i16)
    requires
        0 <= k <= 128,
    ensures
        r == scaled16(k as int, v),
{
    let s = v as i16;
    assert(-0x40_0000 <= (k as int) * (s as int) <= 0x40_0000) by (nonlinear_arith)
        requires
            0 <= k <= 128,
            -32768 <= s <= 32767,
    ;
    let p: i16 = ((k as i32) * (s as i32)) as i16;
    let q: i32 = if p >= 0 {
        (p as i32) / 100
    } else {
        0 - ((0 - (p as i32)) / 100)
    };
    q as i16
}

/// A station record: the start or a checkpoint.
pub open spec fn is_station(b: u8) -> bool {
    b == 0x8A || b == 0x89
}

/// The four records from byte `si` checked before a tunnel: `Some(true)` where one is a
/// station, `None` where the scan reads past the buffer.
pub open spec fn tunnel_scan(g: Gen, si: int, n: nat) -> Option<bool>
    decreases n,
{
    if n == 0 {
        Some(false)
    } else if si + 2 >= TRACK_BUF_LEN {
        None
    } else if is_station(g.buf[si + 2]) {
        Some(true)
    } else {
        tunnel_scan(g, si + 16, (n - 1) as nat)
    }
}

/// The walls and roof of a tunnel record at byte `si`; `walls` holds the bytes that
/// differ between the sceneries (bytes 5, 6 and 9 of the record).
pub open spec fn tunnel_record(g: Gen, si: int, walls: (u8, u8, u8)) -> Gen {
    let g1 = with_byte(with_byte(with_byte(with_byte(g, si + 4, 0x82), si + 5, walls.0), si + 6, walls.1), si + 7, 0);
    with_byte(with_byte(with_byte(with_byte(g1, si + 8, 0x82), si + 9, walls.2), si + 10, 0x91), si + 11, 0x11)
}

/// Up to `n` tunnel records from byte `si` (the first keeps its entry mark, the others
/// lose their objects in the first slot). Stops after a record whose second
/// successor is a station. Gives the state, the number of records before the one
/// where it stopped (or all), and whether it stopped so.
pub open spec fn tunnel_run(g: Gen, si: int, n: nat, first: bool, walls: (u8, u8, u8)) -> Option<(Gen, nat, bool)>
    decreases n,
{
    if n == 0 {
        Some((g, 0, false))
    } else if si + 11 >= TRACK_BUF_LEN {
        None
    } else {
        let g1 = if first { g } else { with_byte(with_byte(g, si + 2, 0), si + 3, 0) };
        let g2 = tunnel_record(g1, si, walls);
        if si + 34 >= TRACK_BUF_LEN {
            None
        } else if is_station(g2.buf[si + 34]) {
            Some((g2, 0, true))
        } else {
            match tunnel_run(g2, si + 16, (n - 1) as nat, false, walls) {
                Some(r) => Some((r.0, r.1 + 1, r.2)),
                None => None,
            }
        }
    }
}

/// A tunnel after its gap and length are drawn: the scan for stations, the entry mark
/// at byte `s1`, `len` tunnel records and the exit mark. Gives the state and where the
/// next gap starts (`None` where a station ends the pass); `None` where a record lies
/// past the buffer.
pub open spec fn tunnel_rest(g2: Gen, s1: int, len: nat, walls: (u8, u8, u8)) -> Option<(Gen, Option<int>)> {
    match tunnel_scan(g2, s1, 4) {
        None => None,
        Some(true) => Some((g2, None)),
        Some(false) => {
            let g3 = with_byte(with_byte(g2, s1 + 2, 0xFC), s1 + 3, 0);
            match tunnel_run(g3, s1, len, true, walls) {
                None => None,
                Some(r) => if r.2 {
                    Some((r.0, Some(s1 + 16 * r.1 + 16)))
                } else {
                    let s2 = s1 + 16 * r.1;
                    if s2 + 3 >= TRACK_BUF_LEN {
                        None
                    } else {
                        let g5 = with_byte(with_byte(with_byte(r.0, s2 + 2, 0xFD), s2 + 3, 0), s1 + 3, 0);
                        Some((g5, Some(s2 + 32)))
                    }
                },
            }
        },
    }
}

/// One tunnel from byte `si`: the gap (draws until one falls below `w_gap`), the
/// length (4 to 16 records, drawn against `w_len`), then [`tunnel_rest`]; `None` where
/// the gap never ends.
pub open spec fn tunnel_block(g: Gen, si: int, walls: (u8, u8, u8), w_gap: int, w_len: int) -> Option<(Gen, Option<int>)> {
    let h = draw(g);
    if !hits(draw_fn(), below(w_gap), h) {
        None
    } else {
        let n = first_hit(draw_fn(), below(w_gap), h);
        let (g2, k) = grow(iter_n(draw_fn(), h, n), 4, 2, 16, w_len);
        tunnel_rest(g2, si + 16 * n, 4 + 2 * k, walls)
    }
}

/// The tunnel pass from byte `si` to the end of the buffer or to a station.
pub open spec fn tunnels_from(g: Gen, si: int, walls: (u8, u8, u8), w_gap: int, w_len: int) -> Option<Gen>
    decreases (if si < TRACK_BUF_LEN { TRACK_BUF_LEN - si } else { 0 }),
{
    if si >= TRACK_BUF_LEN {
        Some(g)
    } else {
        match tunnel_block(g, si, walls, w_gap, w_len) {
            None => None,
            Some((g1, None)) => Some(g1),
            Some((g1, Some(next))) => if next > si {
                tunnels_from(g1, next, walls, w_gap, w_len)
            } else {
                None
            },
        }
    }
}

/// The wall bytes of the tunnels of a scenery, if it has tunnels.
pub open spec fn tunnel_walls(scenario: Scenario) -> Option<(u8, u8, u8)> {
    match scenario {
        Scenario::Night => Some((0xEE, 0x00, 0x12)),
        Scenario::Futuristic => Some((0xE2, 0x82, 0x1E)),
        Scenario::MotorWay => Some((0xE8, 0x82, 0x18)),
        _ => None,
    }
}

/// The tunnels of scenery `scenario` from byte `si` with the scenery setting `scenery`:
/// none for a scenery without tunnels.
pub open spec fn tunnels_spec(g: Gen, si: int, scenario: Scenario, scenery: u16) -> Option<Gen> {
    match tunnel_walls(scenario) {
        None => Some(g),
        Some(walls) => tunnels_from(
            g,
            si,
            walls,
            scaled16(32, scenery) as int,
            (scaled16(96, scenery) + 128) as i16 as int,
        ),
    }
}

/// An optional position as a mathematical integer.
pub open spec fn opt_int(r: Option<usize>) -> Option<int> {
    match r {
        Some(s) => Some(s as int),
        None => None,
    }
}

/// One tunnel record (see [`tunnel_run`]): clears the first slot unless `first`, then
/// walls and roof.
fn tunnel_record_exec(tg: &mut TrackGen, cur: usize, first: bool, walls: (u8, u8, u8))
    requires
        old(tg).buf@.len() == TRACK_BUF_LEN,
        cur + 11 < TRACK_BUF_LEN,
    ensures
        final(tg)@ == tunnel_record(
            if first { old(tg)@ } else { with_byte(with_byte(old(tg)@, cur + 2, 0), cur + 3, 0) },
            cur as int,
            walls,
        ),
        final(tg).buf@.len() == TRACK_BUF_LEN,
{
    if !first {
        tg.put(cur + 2, 0);
        tg.put(cur + 3, 0);
    }
    tg.put(cur + 4, 0x82);
    tg.put(cur + 5, walls.0);
    tg.put(cur + 6, walls.1);
    tg.put(cur + 7, 0);
    tg.put(cur + 8, 0x82);
    tg.put(cur + 9, walls.2);
    tg.put(cur + 10, 0x91);
    tg.put(cur + 11, 0x11);
}

/// The records of one tunnel (see [`tunnel_run`]).
fn tunnel_run_exec(tg: &mut TrackGen, si: usize, n: usize, walls: (u8, u8, u8)) -> (r: (usize, bool))
    requires
        old(tg).buf@.len() == TRACK_BUF_LEN,
        si < TRACK_BUF_LEN,
        n <= 40,
        tunnel_run(old(tg)@, si as int, n as nat, true, walls) is Some,
    ensures
        tunnel_run(old(tg)@, si as int, n as nat, true, walls) == Some((final(tg)@, r.0 as nat, r.1)),
        final(tg).buf@.len() == TRACK_BUF_LEN,
        r.0 <= n,
{
    let ghost g0 = tg@;
    let mut j: usize = 0;
    let mut cur = si;
    while j < n
        invariant
            tg.buf@.len() == TRACK_BUF_LEN,
            j <= n,
            n <= 40,
            si < TRACK_BUF_LEN,
            g0 == old(tg)@,
            cur == si + 16 * j,
            tunnel_run(g0, si as int, n as nat, true, walls) is Some,
            ({
                let r = tunnel_run(tg@, cur as int, (n - j) as nat, j == 0, walls);
                let r0 = tunnel_run(g0, si as int, n as nat, true, walls);
                r is Some && r0 == Some((r.unwrap().0, r.unwrap().1 + (j as nat), r.unwrap().2))
            }),
        decreases n - j,
    {
        let ghost tb = tg@;
        tunnel_record_exec(tg, cur, j == 0, walls);
        let b = tg.get(cur + 34);
        if b == 0x8A || b == 0x89 {
            assert(tunnel_run(tb, cur as int, (n - j) as nat, j == 0, walls) == Some((tg@, 0nat, true)));
            return (j, true);
        }
        cur = cur + 16;
        j = j + 1;
    }
    (j, false)
}

/// One tunnel (see [`tunnel_block`]); returns where the next gap starts, or `None` at
/// the end of the pass.
fn tunnel_block_exec(tg: &mut TrackGen, si: usize, walls: (u8, u8, u8), w_gap: i16, w_len: i16) -> (r: Option<usize>)
    requires
        old(tg).buf@.len() == TRACK_BUF_LEN,
        si < TRACK_BUF_LEN,
        tunnel_block(old(tg)@, si as int, walls, w_gap as int, w_len as int) is Some,
    ensures
        final(tg).buf@.len() == TRACK_BUF_LEN,
        tunnel_block(old(tg)@, si as int, walls, w_gap as int, w_len as int) == Some(
            (final(tg)@, opt_int(r)),
        ),
{
    let ghost g0 = tg@;
    let ghost h = draw(tg@);
    let ghost n0 = first_hit(draw_fn(), below(w_gap as int), h);
    let d0 = tg.draw();
    assert(tg@ == iter_n(draw_fn(), h, 0));
    let (n, s1) = gap_exec(tg, si, w_gap, d0, Ghost(h), Ghost(n0));
    let ghost g1 = tg@;
    let k = tg.grow(4, 2, 16, w_len);
    let len: usize = 4 + 2 * (k as usize);
    assert(tunnel_block(g0, si as int, walls, w_gap as int, w_len as int) == tunnel_rest(
        tg@,
        s1 as int,
        len as nat,
        walls,
    ));
    tunnel_rest_exec(tg, s1, len, walls)
}

/// The gap before a tunnel: draws until one falls below `w_gap`, the first already
/// drawn (`d`, with the state `h`); returns the number of further draws and where the
/// tunnel starts.
fn gap_exec(tg: &mut TrackGen, si: usize, w_gap: i16, d: u16, Ghost(h): Ghost<Gen>, Ghost(n0): Ghost<nat>) -> (r: (usize, usize))
    requires
        old(tg).buf@.len() == TRACK_BUF_LEN,
        old(tg)@ == h,
        d == lo16(h),
        hits(draw_fn(), below(w_gap as int), h),
        n0 == first_hit(draw_fn(), below(w_gap as int), h),
        si + 16 * n0 < TRACK_BUF_LEN,
    ensures
        final(tg).buf@.len() == TRACK_BUF_LEN,
        r.0 == n0,
        r.1 == si + 16 * n0,
        final(tg)@ == iter_n(draw_fn(), h, n0),
{
    proof {
        lemma_first_hit_props(draw_fn(), below(w_gap as int), h);
    }
    let mut d = d;
    let mut s1 = si;
    let mut n: usize = 0;
    while ((d % 256) as i16) >= w_gap
        invariant
            tg.buf@.len() == TRACK_BUF_LEN,
            tg@ == iter_n(draw_fn(), h, n as nat),
            d == lo16(tg@),
            n <= n0,
            s1 == si + 16 * n,
            si + 16 * n0 < TRACK_BUF_LEN,
            below(w_gap as int)(iter_n(draw_fn(), h, n0)),
            forall|m: nat| m < n ==> !#[trigger] below(w_gap as int)(iter_n(draw_fn(), h, m)),
        decreases n0 - n,
    {
        assert(!below(w_gap as int)(iter_n(draw_fn(), h, n as nat)));
        let ghost before = tg@;
        s1 = s1 + 16;
        d = tg.draw();
        n = n + 1;
        assert(tg@ == draw_fn()(before));
    }
    assert(below(w_gap as int)(iter_n(draw_fn(), h, n as nat)));
    proof {
        lemma_first_hit(draw_fn(), below(w_gap as int), h, n as nat);
    }
    (n, s1)
}

/// A tunnel after its gap and length (see [`tunnel_rest`]).
fn tunnel_rest_exec(tg: &mut TrackGen, s1: usize, len: usize, walls: (u8, u8, u8)) -> (r: Option<usize>)
    requires
        old(tg).buf@.len() == TRACK_BUF_LEN,
        len <= 40,
        s1 < TRACK_BUF_LEN,
        tunnel_rest(old(tg)@, s1 as int, len as nat, walls) is Some,
    ensures
        final(tg).buf@.len() == TRACK_BUF_LEN,
        tunnel_rest(old(tg)@, s1 as int, len as nat, walls) == Some((final(tg)@, opt_int(r))),
{
    let ghost g2 = tg@;
    let mut j: usize = 0;
    let mut scan = s1;
    while j < 4
        invariant
            tg@ == g2,
            tg.buf@.len() == TRACK_BUF_LEN,
            j <= 4,
            scan == s1 + 16 * j,
            tunnel_scan(g2, s1 as int, 4) == tunnel_scan(g2, scan as int, (4 - j) as nat),
            tunnel_scan(g2, s1 as int, 4) is Some,
        decreases 4 - j,
    {
        let b = tg.get(scan + 2);
        if b == 0x8A || b == 0x89 {
            return None;
        }
        scan = scan + 16;
        j = j + 1;
    }
    tg.put(s1 + 2, 0xFC);
    tg.put(s1 + 3, 0);
    let (m, stopped) = tunnel_run_exec(tg, s1, len, walls);
    if stopped {
        return Some(s1 + 16 * m + 16);
    }
    let s2 = s1 + 16 * m;
    tg.put(s2 + 2, 0xFD);
    tg.put(s2 + 3, 0);
    tg.put(s1 + 3, 0);
    Some(s2 + 32)
}

/// Places tunnels from byte `si` (see [`tunnels_spec`]).
pub fn add_tunnels(tg: &mut TrackGen, si: usize, scenario: Scenario, scenery: u16)
    requires
        old(tg).buf@.len() == TRACK_BUF_LEN,
        tunnels_spec(old(tg)@, si as int, scenario, scenery) is Some,
    ensures
        final(tg)@ == tunnels_spec(old(tg)@, si as int, scenario, scenery)->0,
        final(tg).buf@.len() == TRACK_BUF_LEN,
{
    let walls: (u8, u8, u8) = match scenario {
        Scenario::Night => (0xEE, 0x00, 0x12),
        Scenario::Futuristic => (0xE2, 0x82, 0x1E),
        Scenario::MotorWay => (0xE8, 0x82, 0x18),
        _ => {
            return;
        },
    };
    let w_gap = scale16(32, scenery);
    let w_len = scale16(96, scenery).wrapping_add(128);
    let ghost g0 = tg@;
    let ghost si0 = si;
    assert(tunnels_spec(g0, si0 as int, scenario, scenery) == tunnels_from(
        g0,
        si0 as int,
        walls,
        w_gap as int,
        w_len as int,
    ));
    let mut pos = si;
    while pos < TRACK_BUF_LEN
        invariant
            tg.buf@.len() == TRACK_BUF_LEN,
            g0 == old(tg)@,
            si0 == si,
            tunnels_spec(g0, si0 as int, scenario, scenery) == tunnels_from(
                g0,
                si0 as int,
                walls,
                w_gap as int,
                w_len as int,
            ),
            tunnels_from(g0, si0 as int, walls, w_gap as int, w_len as int) is Some,
            tunnels_from(tg@, pos as int, walls, w_gap as int, w_len as int) == tunnels_from(
                g0,
                si0 as int,
                walls,
                w_gap as int,
                w_len as int,
            ),
        decreases (if pos < TRACK_BUF_LEN { TRACK_BUF_LEN - pos } else { 0 }),
    {
        match tunnel_block_exec(tg, pos, walls, w_gap, w_len) {
            None => {
                return;
            },
            Some(next) => {
                pos = next;
            },
        }
    }
}

/// Whether a byte is positive as a signed byte.
pub open spec fn positive8(b: u8) -> bool {
    1 <= b <= 127
}

/// The bridge pass from byte `si` with threshold `w`: where a draw falls below `w`,
/// neither the record nor the next one is a station, and the record, the one after
/// and the one before have raised markings, a bridge is built over the record, and the
/// next record is skipped. `None` where the pass reads past the buffer.
pub open spec fn bridges_from(g: Gen, si: int, w: int) -> Option<Gen>
    decreases (if si < TRACK_BUF_LEN { TRACK_BUF_LEN - si } else { 0 }),
{
    if si >= TRACK_BUF_LEN {
        Some(g)
    } else {
        let g1 = draw(g);
        let b = g1.buf;
        if lo8(g1) >= w {
            bridges_from(g1, si + 16, w)
        } else if is_station(b[si + 2]) {
            bridges_from(g1, si + 32, w)
        } else if si + 18 >= TRACK_BUF_LEN {
            None
        } else if is_station(b[si + 18]) {
            bridges_from(g1, si + 32, w)
        } else if !positive8(b[si + 10]) {
            bridges_from(g1, si + 16, w)
        } else if si + 26 >= TRACK_BUF_LEN {
            None
        } else if !positive8(b[si + 26]) {
            bridges_from(g1, si + 16, w)
        } else if si < 6 {
            None
        } else if !positive8(b[si - 6]) {
            bridges_from(g1, si + 16, w)
        } else {
            let g2 = with_byte(with_byte(with_byte(with_byte(g1, si + 2, 0xFA), si + 3, 0), si + 4, 0xFB), si + 5, 0);
            bridges_from(with_byte(with_byte(g2, si + 10, 0x10), si + 11, 0), si + 32, w)
        }
    }
}

/// The bridges of scenery `scenario` with the scenery setting `scenery`: on the
/// motorway and at the road works, from the first obstacle segment on.
pub open spec fn bridges_spec(g: Gen, scenario: Scenario, scenery: u16) -> Option<Gen> {
    if scenario == Scenario::MotorWay || scenario == Scenario::Roadworks {
        bridges_from(g, 256, scaled16(16, scenery) as int)
    } else {
        Some(g)
    }
}

/// Places bridges (see [`bridges_spec`]).
pub fn add_bridges(tg: &mut TrackGen, scenario: Scenario, scenery: u16)
    requires
        old(tg).buf@.len() == TRACK_BUF_LEN,
        bridges_spec(old(tg)@, scenario, scenery) is Some,
    ensures
        final(tg)@ == bridges_spec(old(tg)@, scenario, scenery)->0,
        final(tg).buf@.len() == TRACK_BUF_LEN,
{
    if !(scenario == Scenario::MotorWay || scenario == Scenario::Roadworks) {
        return;
    }
    let w = scale16(16, scenery);
    let ghost g0 = tg@;
    let mut si: usize = 256;
    while si < TRACK_BUF_LEN
        invariant
            tg.buf@.len() == TRACK_BUF_LEN,
            256 <= si <= TRACK_BUF_LEN + 16,
            si % 16 == 0,
            g0 == old(tg)@,
            bridges_spec(g0, scenario, scenery) == bridges_from(g0, 256, w as int),
            bridges_from(g0, 256, w as int) is Some,
            bridges_from(tg@, si as int, w as int) == bridges_from(g0, 256, w as int),
        decreases TRACK_BUF_LEN + 16 - si,
    {
        let d = tg.draw();
        if ((d % 256) as i16) < w {
            let a = tg.get(si + 2);
            if !(a == 0x8A || a == 0x89) && !{
                let c = tg.get(si + 18);
                c == 0x8A || c == 0x89
            } {
                let m1 = tg.get(si + 10);
                if 1 <= m1 && m1 <= 127 {
                    let m2 = tg.get(si + 26);
                    if 1 <= m2 && m2 <= 127 {
                        let m3 = tg.get(si - 6);
                        if 1 <= m3 && m3 <= 127 {
                            tg.put(si + 2, 0xFA);
                            tg.put(si + 3, 0);
                            tg.put(si + 4, 0xFB);
                            tg.put(si + 5, 0);
                            tg.put(si + 10, 0x10);
                            tg.put(si + 11, 0);
                            si = si + 16;
                        }
                    }
                }
            } else {
                si = si + 16;
            }
        }
        si = si + 16;
    }
}

/// The curve signs of scenery `scenario`. The pass reads each record's fourth
/// successor, up to the last record of the buffer, so that it reads past the buffer;
/// it runs only for the sceneries other than desert, rally and mountains, which have
/// no signs. So the contract admits only these three, where nothing changes.
pub fn prep_track_signs(tg: &mut TrackGen, scenario: Scenario)
    requires
        scenario == Scenario::Desert || scenario == Scenario::Rally || scenario == Scenario::Mountains,
    ensures
        final(tg)@ == old(tg)@,
{
}

} // verus!
