//! Start, checkpoints and finish of a course, and the time limits of a race against
//! the clock.

use vstd::prelude::*;

use crate::config::Race;
use crate::crc::CourseLayout;
use crate::data::Scenario;
use crate::track::{with_byte, Gen, TrackGen, TRACK_BUF_LEN};

verus! {

/// Per scenery, then again per scenery: the slowest and the fastest speed of the
/// Esprit S4.
pub const ARR_295E_ESPRIT_S4: [u16; 26] = [
    170, 180, 170, 160, 130, 170, 140, 180, 170, 130, 170, 190, 170, 270, 280, 270, 260, 230, 270,
    240, 280, 270, 230, 270, 290, 270,
];

/// The same for the Elan SE.
pub const ARR_295E_ELAN_SE: [u16; 26] = [
    130, 140, 130, 120, 90, 130, 100, 140, 130, 90, 130, 150, 130, 230, 240, 230, 220, 190, 230, 200,
    240, 230, 190, 230, 250, 230,
];

/// The same for the M200.
pub const ARR_295E_M200: [u16; 26] = [
    150, 160, 150, 140, 110, 150, 120, 160, 150, 110, 150, 170, 150, 250, 260, 250, 240, 210, 250,
    220, 260, 250, 210, 250, 270, 250,
];

/// The speed table of car `car` (0 to 2).
pub open spec fn speed_table(car: u16) -> Seq<u16> {
    if car == 0 {
        ARR_295E_ESPRIT_S4@
    } else if car == 1 {
        ARR_295E_ELAN_SE@
    } else {
        ARR_295E_M200@
    }
}

/// `x` in 16 bits.
pub open spec fn w16(x: int) -> int {
    x % 65536
}

/// The segments that the par time covers: the section length, times the sections on a
/// circular course.
pub open spec fn pace_divisor(total: u16, sections: u16, circular: bool) -> int {
    w16(total * (if circular { sections as int } else { 1 }))
}

/// The speed of car `car` on scenery `scenario` at difficulty `difficulty` (0 to 99):
/// between the slowest and the fastest speed, in 16 bits.
pub open spec fn race_speed(car: u16, scenario: Scenario, difficulty: u16) -> int {
    let t = speed_table(car);
    let start = t[scenario.number()] as int;
    let end = t[scenario.number() + 13] as int;
    w16(start + w16(w16(end - start) * difficulty) / 99)
}

/// BA67's results: the par time (distance over speed, in 16-bit steps) and the speed
/// in the game's units (times 1000 / 3600, in 16 bits).
pub open spec fn race_pace(
    car: u16,
    scenario: Scenario,
    difficulty: u16,
    total: u16,
    sections: u16,
    circular: bool,
) -> (u16, u16) {
    let bx = race_speed(car, scenario, difficulty);
    let cx = pace_divisor(total, sections, circular);
    let dx = w16(total + (if circular { cx } else { 128 }));
    ((w16((w16(bx * 5091) / 192) * dx) / cx) as u16, (w16(bx * 1000) / 3600) as u16)
}

/// BA67: the par time and the speed (see [`race_pace`]).
pub fn sub_ba67(car: u16, scenario: Scenario, difficulty: u16, total: u16, sections: u16, circular: bool) -> (r: (u16, u16))
    requires
        car <= 2,
        pace_divisor(total, sections, circular) != 0,
    ensures
        r == race_pace(car, scenario, difficulty, total, sections, circular),
{
    let t = scenario.index();
    let (start, end) = if car == 0 {
        (ARR_295E_ESPRIT_S4[t], ARR_295E_ESPRIT_S4[t + 13])
    } else if car == 1 {
        (ARR_295E_ELAN_SE[t], ARR_295E_ELAN_SE[t + 13])
    } else {
        (ARR_295E_M200[t], ARR_295E_M200[t + 13])
    };
    assert(start == speed_table(car)[scenario.number()] && end == speed_table(car)[scenario.number() + 13]);
    let cx = total.wrapping_mul(if circular { sections } else { 1 });
    assert(cx == pace_divisor(total, sections, circular));
    let dx = total.wrapping_add(if circular { cx } else { 128 });
    assert(dx == w16(total + (if circular { cx as int } else { 128 })));
    let diff = end.wrapping_sub(start);
    assert(diff == w16(end - start));
    let prod = diff.wrapping_mul(difficulty);
    assert(prod == w16(diff * difficulty));
    let bx = start.wrapping_add(prod / 99);
    assert(bx == race_speed(car, scenario, difficulty));
    let p1 = bx.wrapping_mul(5091);
    assert(p1 == w16(bx * 5091));
    let p2 = (p1 / 192).wrapping_mul(dx);
    assert(p2 == w16((p1 / 192) * dx));
    let result = p2 / cx;
    let sp = bx.wrapping_mul(1000);
    assert(sp == w16(bx * 1000));
    (result, sp / 3600)
}

/// B9DD: the section ends of a circular course: `i + 1` section lengths for the first
/// `sections + 1` entries, then the end mark.
pub fn sub_b9dd(cps: &mut [u16; 17], sections: u16, total: u16)
    requires
        sections < 16,
    ensures
        forall|i: int| 0 <= i <= sections ==> final(cps)@[i] == w16((i + 1) * total),
        final(cps)@[sections + 1] == 0xFFFF,
        forall|i: int| sections + 1 < i < 17 ==> final(cps)@[i] == old(cps)@[i],
{
    let mut ax: u16 = 0;
    let mut i: usize = 0;
    while i <= sections as usize
        invariant
            sections < 16,
            i <= sections + 1,
            ax == w16(i * total),
            forall|j: int| 0 <= j < i ==> cps@[j] == w16((j + 1) * total),
            forall|j: int| sections + 1 <= j < 17 ==> cps@[j] == old(cps)@[j],
        decreases sections + 1 - i,
    {
        assert(w16(ax + total) == w16((i + 1) * total)) by (nonlinear_arith)
            requires
                ax == w16(i * total),
        ;
        ax = ax.wrapping_add(total);
        cps[i] = ax;
        i = i + 1;
    }
    cps[i] = 0xFFFF;
}

/// A signed byte's positivity.
pub open spec fn pos8(b: u8) -> bool {
    1 <= b <= 127
}

/// The value of byte `i` after the markings of a station whose first record is at
/// byte `di` (B9F8): the eight records from `di` get barrier posts at position `hi` on
/// both sides (unless in the mountains); the eight after them keep their objects,
/// moved six further out where they stand to the right (removed at road works), and
/// get markings `0x0800`.
pub open spec fn station_byte(b: Seq<u8>, di: int, i: int, mountains: bool, roadworks: bool, hi: u8) -> u8 {
    let k = i - di;
    if 0 <= k < 128 && !mountains && (k % 16 == 4 || k % 16 == 8) {
        0
    } else if 0 <= k < 128 && !mountains && (k % 16 == 5 || k % 16 == 9) {
        hi
    } else if 128 <= k < 256 && k % 16 == 10 {
        0
    } else if 128 <= k < 256 && k % 16 == 11 {
        8
    } else if 128 <= k < 256 && (k % 16 == 3 || k % 16 == 5 || k % 16 == 7 || k % 16 == 9) && pos8(b[i]) {
        if roadworks {
            0
        } else {
            (b[i] + 6) as u8
        }
    } else if 128 <= k < 256 && (k % 16 == 2 || k % 16 == 4 || k % 16 == 6 || k % 16 == 8) && pos8(b[i + 1])
        && roadworks {
        0
    } else {
        b[i]
    }
}

/// The post position beside a road of width `road_width`.
pub open spec fn post_position(road_width: u16) -> u8 {
    ((w16(road_width + 2) / 4 + 2) % 256) as u8
}

/// The buffer after the markings of a station at byte `di` (see [`station_byte`]).
pub open spec fn station_marks(g: Gen, di: int, scenario: Scenario, road_width: u16) -> Gen {
    Gen {
        buf: Seq::new(
            g.buf.len(),
            |i: int|
                station_byte(
                    g.buf,
                    di,
                    i,
                    scenario == Scenario::Mountains,
                    scenario == Scenario::Roadworks,
                    post_position(road_width),
                ),
        ),
        ..g
    }
}

/// B9F8: the markings of a station at byte `di` (see [`station_marks`]).
pub fn sub_b9f8(tg: &mut TrackGen, di: usize, scenario: Scenario, road_width: u16)
    requires
        old(tg).buf@.len() == TRACK_BUF_LEN,
        di + 251 < TRACK_BUF_LEN,
    ensures
        final(tg)@ == station_marks(old(tg)@, di as int, scenario, road_width),
        final(tg).buf@.len() == TRACK_BUF_LEN,
{
    let ghost g0 = tg@;
    let mountains = scenario == Scenario::Mountains;
    let roadworks = scenario == Scenario::Roadworks;
    let hi: u8 = ((road_width.wrapping_add(2) / 4 + 2) % 256) as u8;
    let mut k: usize = 0;
    while k < 8
        invariant
            tg.buf@.len() == TRACK_BUF_LEN,
            g0.buf.len() == TRACK_BUF_LEN,
            di + 251 < TRACK_BUF_LEN,
            k <= 8,
            tg@.rng == g0.rng && tg@.game_rng == g0.game_rng && tg@.hi == g0.hi,
            hi == post_position(road_width),
            mountains == (scenario == Scenario::Mountains),
            roadworks == (scenario == Scenario::Roadworks),
            forall|i: int|
                0 <= i < TRACK_BUF_LEN ==> #[trigger] tg.buf@[i] == if di <= i < di + 16 * k {
                    station_byte(g0.buf, di as int, i, mountains, roadworks, hi)
                } else {
                    g0.buf[i]
                },
        decreases 8 - k,
    {
        let r = di + 16 * k;
        if !mountains {
            tg.put(r + 4, 0);
            tg.put(r + 5, hi);
            tg.put(r + 8, 0);
            tg.put(r + 9, hi);
        }
        k = k + 1;
    }
    while k < 16
        invariant
            tg.buf@.len() == TRACK_BUF_LEN,
            g0.buf.len() == TRACK_BUF_LEN,
            di + 251 < TRACK_BUF_LEN,
            8 <= k <= 16,
            tg@.rng == g0.rng && tg@.game_rng == g0.game_rng && tg@.hi == g0.hi,
            hi == post_position(road_width),
            mountains == (scenario == Scenario::Mountains),
            roadworks == (scenario == Scenario::Roadworks),
            forall|i: int|
                0 <= i < TRACK_BUF_LEN ==> #[trigger] tg.buf@[i] == if di <= i < di + 16 * k {
                    station_byte(g0.buf, di as int, i, mountains, roadworks, hi)
                } else {
                    g0.buf[i]
                },
        decreases 16 - k,
    {
        let r = di + 16 * k;
        let mut s: usize = 2;
        while s <= 8
            invariant
                tg.buf@.len() == TRACK_BUF_LEN,
                g0.buf.len() == TRACK_BUF_LEN,
                r == di + 16 * k,
                8 <= k < 16,
                di + 251 < TRACK_BUF_LEN,
                s == 2 || s == 4 || s == 6 || s == 8 || s == 10,
                tg@.rng == g0.rng && tg@.game_rng == g0.game_rng && tg@.hi == g0.hi,
                forall|i: int|
                    0 <= i < TRACK_BUF_LEN ==> #[trigger] tg.buf@[i] == if di <= i < di + 16 * k || (r <= i < r
                        + s) {
                        station_byte(g0.buf, di as int, i, mountains, roadworks, hi)
                    } else {
                        g0.buf[i]
                    },
            decreases 10 - s,
        {
            let b = tg.get(r + s + 1);
            if 1 <= b && b <= 127 {
                tg.put(r + s + 1, b + 6);
                if roadworks {
                    tg.put(r + s, 0);
                    tg.put(r + s + 1, 0);
                }
            }
            s = s + 2;
        }
        tg.put(r + 10, 0);
        tg.put(r + 11, 8);
        k = k + 1;
    }
    assert(tg.buf@ =~= station_marks(g0, di as int, scenario, road_width).buf);
}

/// A station mark of kind `kind` (0x88 start, 0x8A checkpoint, 0x89 finish) on the
/// record at byte `di`, with the line across the road.
pub open spec fn mark(g: Gen, di: int, kind: u8) -> Gen {
    with_byte(with_byte(with_byte(with_byte(g, di + 2, kind), di + 3, 0), di + 10, 0x30), di + 11, 0)
}

/// The kind byte and the line of a station mark, the rest of the record kept.
pub open spec fn half_mark(g: Gen, di: int, kind: u8) -> Gen {
    with_byte(with_byte(g, di + 2, kind), di + 10, 0x30)
}

/// A time limit kept within 5 to 99 seconds.
pub open spec fn clamp_limit(x: int) -> u16 {
    (if x < 5 {
        5
    } else if x > 99 {
        99
    } else {
        x
    }) as u16
}

/// The time limit of section `bp` of `n` on a circular course with `ax` seconds per
/// section: more for the early sections, seven more for the first.
pub open spec fn circular_limit(bp: int, n: int, ax: int) -> u16 {
    clamp_limit(w16((n - 2 * bp) * 2 + ax + bp / 4 + (if bp == 0 { 7int } else { 0 })))
}

/// The time limit of section `bp` of `n` on a course from A to B with checkpoints
/// `cps`, at speed `speed`: the section's length over the speed (in 16 bits), plus a
/// bonus that falls with the section number, seven more for the first, plus one.
pub open spec fn linear_limit(cps: Seq<u16>, bp: int, n: int, speed: int) -> u16 {
    clamp_limit(
        w16(
            (w16(cps[bp + 1] - cps[bp]) * 0xC13 / 0xE1 / speed) % 65536 + n * 2 - bp * 4 + (if bp == 0 {
                7int
            } else {
                0
            }) + 1,
        ),
    )
}

/// The checkpoints of a circular course (see [`sub_b9dd`]).
pub open spec fn circular_checkpoints(cps: Seq<u16>, n: int, total: int) -> Seq<u16> {
    Seq::new(
        17,
        |i: int|
            if i <= n {
                w16((i + 1) * total) as u16
            } else if i == n + 1 {
                0xFFFFu16
            } else {
                cps[i]
            },
    )
}

/// The stations of a race against other cars on a course from A to B, from checkpoint
/// `j` to `n`: each gets a station mark (the first the start) and the markings of
/// [`station_marks`]. `None` where they reach past the buffer.
pub open spec fn competition_stations(g: Gen, cps: Seq<u16>, j: int, n: int, scenario: Scenario, road_width: u16) -> Option<Gen>
    decreases n + 1 - j,
{
    if j > n {
        Some(g)
    } else {
        let di = w16(cps[j] * 16);
        if di + 251 >= TRACK_BUF_LEN {
            None
        } else {
            competition_stations(
                station_marks(mark(g, di, if j == 0 { 0x88 } else { 0x8A }), di, scenario, road_width),
                cps,
                j + 1,
                n,
                scenario,
                road_width,
            )
        }
    }
}

/// The station marks of a race against the clock on a course from A to B, from
/// checkpoint `j` to `n`. `None` where one lies past the buffer.
pub open spec fn clock_stations(g: Gen, cps: Seq<u16>, j: int, n: int) -> Option<Gen>
    decreases n + 1 - j,
{
    if j > n {
        Some(g)
    } else {
        let di = cps[j] * 16;
        if di + 10 >= TRACK_BUF_LEN {
            None
        } else {
            clock_stations(half_mark(g, di, if j == 0 { 0x88 } else { 0x8A }), cps, j + 1, n)
        }
    }
}

/// The time limits and par time of a race.
pub struct RaceTimes {
    /// Seconds per section in a race against the clock.
    pub limits: [u16; 16],
    /// The par time of the course.
    pub par: u16,
}

/// The stations of a race against other cars on a circular course: the markings and
/// the mark of the start, the mark at the end of the first section, and the section
/// ends.
pub open spec fn competition_circular(g: Gen, l: CourseLayout, road_width: u16) -> Option<(Gen, Seq<u16>)> {
    let n = l.sections as int;
    let total = l.section_len as int;
    let di = 16 * total;
    if n >= 16 || di + 3 >= TRACK_BUF_LEN {
        None
    } else {
        let g1 = mark(station_marks(g, 0, l.scenario, road_width), 0, 0x8A);
        Some((with_byte(with_byte(g1, di + 2, 0x8A), di + 3, 0), circular_checkpoints(l.checkpoints@, n, total)))
    }
}

/// The stations of a race against other cars on a course from A to B: the stations of
/// [`competition_stations`], and the finish mark on the last.
pub open spec fn competition_linear(g: Gen, l: CourseLayout, road_width: u16) -> Option<Gen> {
    let n = l.sections as int;
    let cps = l.checkpoints@;
    if n >= 17 {
        None
    } else {
        match competition_stations(g, cps, 0, n, l.scenario, road_width) {
            None => None,
            Some(g1) => Some(mark(g1, w16(cps[n] * 16), 0x89)),
        }
    }
}

/// The stations and time limits of a race against the clock on a circular course.
pub open spec fn clock_circular(g: Gen, l: CourseLayout, speed: int, limits: Seq<u16>) -> Option<(Gen, Seq<u16>, Seq<u16>)> {
    let n = l.sections as int;
    let total = l.section_len as int;
    let bx = 16 * total;
    if n >= 16 || bx + 10 >= TRACK_BUF_LEN || speed == 0 {
        None
    } else {
        let ax = w16(total * 0xC13) / 0xE1 / speed;
        Some(
            (
                half_mark(half_mark(g, 0, 0x8A), bx, 0x8A),
                circular_checkpoints(l.checkpoints@, n, total),
                Seq::new(16, |i: int| if i < n { circular_limit(i, n, ax) } else { limits[i] }),
            ),
        )
    }
}

/// The stations and time limits of a race against the clock on a course from A to B.
pub open spec fn clock_linear(g: Gen, l: CourseLayout, speed: int, limits: Seq<u16>) -> Option<(Gen, Seq<u16>)> {
    let n = l.sections as int;
    let cps = l.checkpoints@;
    if n >= 17 || (n > 0 && speed == 0) {
        None
    } else {
        match clock_stations(g, cps, 0, n) {
            None => None,
            Some(g1) => Some(
                (
                    half_mark(g1, cps[n] * 16, 0x89),
                    Seq::new(16, |i: int| if i < n { linear_limit(cps, i, n, speed) } else { limits[i] }),
                ),
            ),
        }
    }
}

/// The stations of the course with layout `l` for race `race`, car `car` and road
/// width `road_width`, with the time limits `limits` before: the segment buffer, the
/// checkpoints, the time limits and the par time after. `None` where the pass
/// fails (a car number above 2, a par time over no segments, a speed of zero, too many
/// sections, or a station past the buffer).
pub open spec fn stations_spec(g: Gen, l: CourseLayout, race: Race, car: u16, road_width: u16, limits: Seq<u16>) -> Option<
    (Gen, Seq<u16>, Seq<u16>, u16),
> {
    if car > 2 || pace_divisor(l.section_len, l.sections, l.is_circular) == 0 {
        None
    } else {
        let (par, speed) = race_pace(car, l.scenario, l.obstacles, l.section_len, l.sections, l.is_circular);
        if race == Race::Competition {
            if l.is_circular {
                match competition_circular(g, l, road_width) {
                    None => None,
                    Some(r) => Some((r.0, r.1, limits, par)),
                }
            } else {
                match competition_linear(g, l, road_width) {
                    None => None,
                    Some(g1) => Some((g1, l.checkpoints@, limits, par)),
                }
            }
        } else if l.is_circular {
            match clock_circular(g, l, speed as int, limits) {
                None => None,
                Some(r) => Some((r.0, r.1, r.2, par)),
            }
        } else {
            match clock_linear(g, l, speed as int, limits) {
                None => None,
                Some(r) => Some((r.0, l.checkpoints@, r.1, par)),
            }
        }
    }
}

/// Writes a station mark (see [`mark`]).
fn mark_exec(tg: &mut TrackGen, di: usize, kind: u8)
    requires
        old(tg).buf@.len() == TRACK_BUF_LEN,
        di + 11 < TRACK_BUF_LEN,
    ensures
        final(tg)@ == mark(old(tg)@, di as int, kind),
        final(tg).buf@.len() == TRACK_BUF_LEN,
{
    tg.put(di + 2, kind);
    tg.put(di + 3, 0);
    tg.put(di + 10, 0x30);
    tg.put(di + 11, 0);
}

/// Writes the kind and line of a station mark (see [`half_mark`]).
fn half_mark_exec(tg: &mut TrackGen, di: usize, kind: u8)
    requires
        old(tg).buf@.len() == TRACK_BUF_LEN,
        di + 10 < TRACK_BUF_LEN,
    ensures
        final(tg)@ == half_mark(old(tg)@, di as int, kind),
        final(tg).buf@.len() == TRACK_BUF_LEN,
{
    tg.put(di + 2, kind);
    tg.put(di + 10, 0x30);
}

/// The stations of a race against other cars on a circular course (see
/// [`competition_circular`]).
fn competition_circular_exec(tg: &mut TrackGen, layout: &mut CourseLayout, road_width: u16)
    requires
        old(tg).buf@.len() == TRACK_BUF_LEN,
        competition_circular(old(tg)@, *old(layout), road_width) is Some,
    ensures
        competition_circular(old(tg)@, *old(layout), road_width) == Some((final(tg)@, final(layout).checkpoints@)),
        *final(layout) == (CourseLayout { checkpoints: final(layout).checkpoints, ..*old(layout) }),
        final(tg).buf@.len() == TRACK_BUF_LEN,
{
    let n = layout.sections;
    let total = layout.section_len;
    sub_b9f8(tg, 0, layout.scenario, road_width);
    mark_exec(tg, 0, 0x8A);
    let di = 16 * (total as usize);
    tg.put(di + 2, 0x8A);
    tg.put(di + 3, 0);
    sub_b9dd(&mut layout.checkpoints, n, total);
    assert(layout.checkpoints@ =~= circular_checkpoints(old(layout).checkpoints@, n as int, total as int));
}

/// The stations of a race against other cars on a course from A to B (see
/// [`competition_linear`]).
fn competition_linear_exec(tg: &mut TrackGen, layout: &CourseLayout, road_width: u16)
    requires
        old(tg).buf@.len() == TRACK_BUF_LEN,
        competition_linear(old(tg)@, *layout, road_width) is Some,
    ensures
        competition_linear(old(tg)@, *layout, road_width) == Some(final(tg)@),
        final(tg).buf@.len() == TRACK_BUF_LEN,
{
    let n = layout.sections;
    let ghost g0 = tg@;
    let mut j: usize = 0;
    while j <= n as usize
        invariant
            tg.buf@.len() == TRACK_BUF_LEN,
            n == layout.sections,
            n < 17,
            j <= n + 1,
            g0 == old(tg)@,
            competition_linear(g0, *layout, road_width) is Some,
            competition_stations(tg@, layout.checkpoints@, j as int, n as int, layout.scenario, road_width)
                == competition_stations(g0, layout.checkpoints@, 0, n as int, layout.scenario, road_width),
            forall|k: int| 0 <= k < j ==> #[trigger] w16(layout.checkpoints@[k] * 16) + 251 < TRACK_BUF_LEN,
        decreases n + 1 - j,
    {
        let di = (layout.checkpoints[j].wrapping_mul(16)) as usize;
        assert(di == w16(layout.checkpoints@[j as int] * 16));
        mark_exec(tg, di, if j == 0 { 0x88 } else { 0x8A });
        sub_b9f8(tg, di, layout.scenario, road_width);
        j = j + 1;
    }
    let di = (layout.checkpoints[n as usize].wrapping_mul(16)) as usize;
    mark_exec(tg, di, 0x89);
}

/// Computes [`circular_limit`].
fn circular_limit_exec(bp: u16, n: u16, ax: u16) -> (r: u16)
    requires
        bp < n < 16,
    ensures
        r == circular_limit(bp as int, n as int, ax as int),
{
    let e: u32 = if bp == 0 {
        7
    } else {
        0
    };
    let x: u32 = 262144 + 2 * (n as u32) + (ax as u32) + (bp as u32) / 4 + e - 4 * (bp as u32);
    let cx = (x % 65536) as u16;
    assert(cx == w16((n - 2 * bp) * 2 + ax + bp / 4 + (if bp == 0 { 7int } else { 0 })));
    if cx < 5 {
        5
    } else if cx > 99 {
        99
    } else {
        cx
    }
}

/// The stations and time limits of a race against the clock on a circular course (see
/// [`clock_circular`]).
fn clock_circular_exec(tg: &mut TrackGen, layout: &mut CourseLayout, speed: u16, times: &mut RaceTimes)
    requires
        old(tg).buf@.len() == TRACK_BUF_LEN,
        clock_circular(old(tg)@, *old(layout), speed as int, old(times).limits@) is Some,
    ensures
        clock_circular(old(tg)@, *old(layout), speed as int, old(times).limits@) == Some(
            (final(tg)@, final(layout).checkpoints@, final(times).limits@),
        ),
        *final(layout) == (CourseLayout { checkpoints: final(layout).checkpoints, ..*old(layout) }),
        final(times).par == old(times).par,
        final(tg).buf@.len() == TRACK_BUF_LEN,
{
    let n = layout.sections;
    let total = layout.section_len;
    half_mark_exec(tg, 0, 0x8A);
    let bx = 16 * (total as usize);
    half_mark_exec(tg, bx, 0x8A);
    let ax = total.wrapping_mul(0xC13) / 0xE1 / speed;
    assert(ax == w16(total * 0xC13) / 0xE1 / (speed as int));
    let mut bp: u16 = 0;
    while bp < n
        invariant
            n < 16,
            bp <= n,
            forall|i: int| 0 <= i < bp ==> times.limits@[i] == circular_limit(i, n as int, ax as int),
            forall|i: int| bp <= i < 16 ==> times.limits@[i] == old(times).limits@[i],
            times.par == old(times).par,
        decreases n - bp,
    {
        times.limits[bp as usize] = circular_limit_exec(bp, n, ax);
        bp = bp + 1;
    }
    assert(times.limits@ =~= Seq::new(
        16,
        |i: int| if i < n { circular_limit(i, n as int, ax as int) } else { old(times).limits@[i] },
    ));
    sub_b9dd(&mut layout.checkpoints, n, total);
    assert(layout.checkpoints@ =~= circular_checkpoints(old(layout).checkpoints@, n as int, total as int));
}

/// Computes [`linear_limit`].
#[verifier::spinoff_prover]
fn linear_limit_exec(cps: &[u16; 17], bp: u16, n: u16, speed: u16) -> (r: u16)
    requires
        bp < n < 17,
        speed != 0,
    ensures
        r == linear_limit(cps@, bp as int, n as int, speed as int),
{
    let d = cps[bp as usize + 1].wrapping_sub(cps[bp as usize]);
    assert(d == w16(cps@[bp + 1] - cps@[bp as int]));
    let p: u32 = (d as u32) * 0xC13;
    let q: u32 = p / 0xE1 / (speed as u32);
    assert(q == w16(cps@[bp + 1] - cps@[bp as int]) * 0xC13 / 0xE1 / (speed as int));
    let e: u32 = if bp == 0 {
        7
    } else {
        0
    };
    let x: u32 = 262144 + (q % 65536) + 2 * (n as u32) + e + 1 - 4 * (bp as u32);
    let ax = (x % 65536) as u16;
    assert(ax == w16((q % 65536) + n * 2 - bp * 4 + (if bp == 0 { 7int } else { 0 }) + 1));
    if ax < 5 {
        5
    } else if ax > 99 {
        99
    } else {
        ax
    }
}

/// The stations and time limits of a race against the clock on a course from A to B
/// (see [`clock_linear`]).
fn clock_linear_exec(tg: &mut TrackGen, layout: &CourseLayout, speed: u16, times: &mut RaceTimes)
    requires
        old(tg).buf@.len() == TRACK_BUF_LEN,
        clock_linear(old(tg)@, *layout, speed as int, old(times).limits@) is Some,
    ensures
        clock_linear(old(tg)@, *layout, speed as int, old(times).limits@) == Some((final(tg)@, final(times).limits@)),
        final(times).par == old(times).par,
        final(tg).buf@.len() == TRACK_BUF_LEN,
{
    let n = layout.sections;
    let mut bp: u16 = 0;
    while bp < n
        invariant
            n == layout.sections,
            n < 17,
            bp <= n,
            n > 0 ==> speed != 0,
            forall|i: int| 0 <= i < bp ==> times.limits@[i] == linear_limit(layout.checkpoints@, i, n as int, speed as int),
            forall|i: int| bp <= i < 16 ==> times.limits@[i] == old(times).limits@[i],
            times.par == old(times).par,
        decreases n - bp,
    {
        times.limits[bp as usize] = linear_limit_exec(&layout.checkpoints, bp, n, speed);
        bp = bp + 1;
    }
    assert(times.limits@ =~= Seq::new(
        16,
        |i: int| if i < n { linear_limit(layout.checkpoints@, i, n as int, speed as int) } else { old(times).limits@[i] },
    ));
    let ghost g0 = tg@;
    let mut j: usize = 0;
    while j <= n as usize
        invariant
            tg.buf@.len() == TRACK_BUF_LEN,
            n == layout.sections,
            n < 17,
            j <= n + 1,
            clock_stations(tg@, layout.checkpoints@, j as int, n as int) == clock_stations(g0, layout.checkpoints@, 0, n as int),
            clock_stations(g0, layout.checkpoints@, 0, n as int) is Some,
            forall|k: int| 0 <= k < j ==> #[trigger] layout.checkpoints@[k] * 16 + 10 < TRACK_BUF_LEN,
        decreases n + 1 - j,
    {
        let di = (layout.checkpoints[j] as usize) * 16;
        half_mark_exec(tg, di, if j == 0 { 0x88 } else { 0x8A });
        j = j + 1;
    }
    half_mark_exec(tg, (layout.checkpoints[n as usize] as usize) * 16, 0x89);
}

/// B803: marks the start, the checkpoints and the finish, and sets the time limits
/// and the par time (see [`stations_spec`]).
pub fn sub_b803(
    tg: &mut TrackGen,
    layout: &mut CourseLayout,
    race: Race,
    car: u16,
    road_width: u16,
    times: &mut RaceTimes,
)
    requires
        old(tg).buf@.len() == TRACK_BUF_LEN,
        stations_spec(old(tg)@, *old(layout), race, car, road_width, old(times).limits@) is Some,
    ensures
        ({
            let r = stations_spec(old(tg)@, *old(layout), race, car, road_width, old(times).limits@)->0;
            &&& final(tg)@ == r.0
            &&& final(layout).checkpoints@ == r.1
            &&& final(times).limits@ == r.2
            &&& final(times).par == r.3
        }),
        *final(layout) == (CourseLayout { checkpoints: final(layout).checkpoints, ..*old(layout) }),
        final(tg).buf@.len() == TRACK_BUF_LEN,
{
    let (par, speed) = sub_ba67(
        car,
        layout.scenario,
        layout.obstacles,
        layout.section_len,
        layout.sections,
        layout.is_circular,
    );
    times.par = par;
    if race == Race::Competition {
        if layout.is_circular {
            competition_circular_exec(tg, layout, road_width);
        } else {
            competition_linear_exec(tg, layout, road_width);
        }
    } else if layout.is_circular {
        clock_circular_exec(tg, layout, speed, times);
    } else {
        clock_linear_exec(tg, layout, speed, times);
    }
}

/// The buffer with the records from `lo`, up to `n` of them within the buffer, striped
/// across the road (markings `0x3333`).
pub open spec fn striped(g: Gen, lo: int, n: int) -> Gen {
    Gen {
        buf: Seq::new(
            g.buf.len(),
            |i: int|
                if lo <= i / 16 < lo + n && i / 16 < 1024 && (i % 16 == 10 || i % 16 == 11) {
                    0x33u8
                } else {
                    g.buf[i]
                },
        ),
        ..g
    }
}

/// Stripes records (see [`striped`]).
fn stripe_exec(tg: &mut TrackGen, lo: usize, n: usize)
    requires
        old(tg).buf@.len() == TRACK_BUF_LEN,
        lo <= 0x1_0000,
        n <= 16,
    ensures
        final(tg)@ == striped(old(tg)@, lo as int, n as int),
        final(tg).buf@.len() == TRACK_BUF_LEN,
{
    let ghost g0 = tg@;
    let end: usize = if lo + n < 1024 {
        lo + n
    } else {
        1024
    };
    let mut r = lo;
    while r < end
        invariant
            tg.buf@.len() == TRACK_BUF_LEN,
            g0.buf.len() == TRACK_BUF_LEN,
            end <= 1024,
            end == (if lo + n < 1024 { lo + n } else { 1024 }),
            lo <= r,
            lo <= end ==> r <= end,
            lo > end ==> r == lo,
            tg@.rng == g0.rng && tg@.game_rng == g0.game_rng && tg@.hi == g0.hi,
            forall|i: int|
                0 <= i < TRACK_BUF_LEN ==> #[trigger] tg.buf@[i] == if lo <= i / 16 < r && (i % 16 == 10 || i % 16
                    == 11) {
                    0x33u8
                } else {
                    g0.buf[i]
                },
        decreases end - r,
    {
        tg.put(r * 16 + 10, 0x33);
        tg.put(r * 16 + 11, 0x33);
        r = r + 1;
    }
    assert(tg.buf@ =~= striped(g0, lo as int, n as int).buf);
}

/// The stripes at the stations of the futuristic course, from checkpoint `j` to `n`:
/// sixteen records around each checkpoint (none where it lies before record 8).
pub open spec fn striped_stations(g: Gen, cps: Seq<u16>, j: int, n: int) -> Gen
    decreases n + 1 - j,
{
    if j > n {
        g
    } else {
        let g1 = if cps[j] >= 8 { striped(g, cps[j] - 8, 16) } else { g };
        striped_stations(g1, cps, j + 1, n)
    }
}

/// The stripes of scenery `scenario` at the stations of layout `l`: the futuristic
/// course has them at the start and end of a circular course (the end's where the
/// course has eight records or more), or around each checkpoint.
pub open spec fn stripes_spec(g: Gen, l: CourseLayout) -> Gen {
    if l.scenario != Scenario::Futuristic {
        g
    } else if l.is_circular {
        striped(striped(g, 0, 8), w16(l.section_len - 8), 8)
    } else {
        striped_stations(g, l.checkpoints@, 0, l.sections as int)
    }
}

/// The stations and the stripes of the course (see [`stations_spec`] and
/// [`stripes_spec`]).
pub open spec fn b7fd_spec(g: Gen, l: CourseLayout, race: Race, car: u16, road_width: u16, limits: Seq<u16>) -> Option<
    (Gen, Seq<u16>, Seq<u16>, u16),
> {
    match stations_spec(g, l, race, car, road_width, limits) {
        None => None,
        Some(r) => Some((stripes_spec(r.0, l), r.1, r.2, r.3)),
    }
}

/// B7FD: the stations of the course and, on the futuristic course, the stripes (see
/// [`b7fd_spec`]).
pub fn sub_b7fd(
    tg: &mut TrackGen,
    layout: &mut CourseLayout,
    race: Race,
    car: u16,
    road_width: u16,
    times: &mut RaceTimes,
)
    requires
        old(tg).buf@.len() == TRACK_BUF_LEN,
        b7fd_spec(old(tg)@, *old(layout), race, car, road_width, old(times).limits@) is Some,
    ensures
        ({
            let r = b7fd_spec(old(tg)@, *old(layout), race, car, road_width, old(times).limits@)->0;
            &&& final(tg)@ == r.0
            &&& final(layout).checkpoints@ == r.1
            &&& final(times).limits@ == r.2
            &&& final(times).par == r.3
        }),
        *final(layout) == (CourseLayout { checkpoints: final(layout).checkpoints, ..*old(layout) }),
        final(tg).buf@.len() == TRACK_BUF_LEN,
{
    sub_b803(tg, layout, race, car, road_width, times);
    if layout.scenario != Scenario::Futuristic {
        return;
    }
    if layout.is_circular {
        stripe_exec(tg, 0, 8);
        stripe_exec(tg, layout.section_len.wrapping_sub(8) as usize, 8);
        return;
    }
    let n = layout.sections;
    let ghost g0 = tg@;
    let mut j: usize = 0;
    while j <= n as usize
        invariant
            tg.buf@.len() == TRACK_BUF_LEN,
            n == layout.sections,
            n < 17,
            j <= n + 1,
            striped_stations(tg@, layout.checkpoints@, j as int, n as int) == striped_stations(
                g0,
                layout.checkpoints@,
                0,
                n as int,
            ),
        decreases n + 1 - j,
    {
        let c = layout.checkpoints[j];
        if c >= 8 {
            stripe_exec(tg, (c - 8) as usize, 16);
        }
        j = j + 1;
    }
}

} // verus!
