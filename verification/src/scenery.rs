//! Roadside objects: pillars in the mountains, and the passes that would place
//! billboards, trees and laser beams.
//!
//! A placement looks up the width of the drawn object in [`ARR_2674`]. That table has
//! entries only for the object kind 0x80, which none of the object tables holds, so a
//! placement never completes: the contracts below admit only the runs in which every
//! draw of a pass decides against a placement.

use vstd::prelude::*;

use crate::data::Scenario;
use crate::track::{
    draw, draw_game, each_record, game_lo16, lo16, lo8, scale, scaled, with_byte, Gen, TrackGen,
    TRACK_BUF_LEN,
};

verus! {

/// Object widths, at four times the object kind less 0x80.
pub const ARR_2674: [u8; 2] = [0, 0];

/// Whether object kind `ax` has an entry in [`ARR_2674`].
pub open spec fn has_width(ax: u16) -> bool {
    128 <= ax && (ax - 128) * 4 < 2
}

/// B67C: the right edge of object `ax` beside a road of width `road_width`: a quarter
/// of the width (rounded) plus a sixteenth of the object's width (rounded up), in
/// 16 bits.
pub fn sub_b67c(ax: u16, road_width: u16) -> (r: u16)
    requires
        has_width(ax),
    ensures
        r == ((road_width + 2) % 65536 / 4 + (ARR_2674@[(ax - 128) * 4] + 15) / 16) % 65536,
{
    let w = ARR_2674[((ax - 128) * 4) as usize] as u16;
    (road_width.wrapping_add(2) / 4).wrapping_add((w + 15) / 16)
}

/// B69D: the left edge of object `ax` beside a road of width `road_width` (see
/// [`sub_b67c`]).
pub fn sub_b69d(ax: u16, road_width: u16) -> (r: u16)
    requires
        has_width(ax),
    ensures
        r == ((road_width + 2) % 65536 / 4 - (ARR_2674@[(ax - 128) * 4] + 15) / 16 + 65536) % 65536,
{
    let w = ARR_2674[((ax - 128) * 4) as usize] as u16;
    (road_width.wrapping_add(2) / 4).wrapping_sub((w + 15) / 16)
}

/// Objects that need a straight road around them.
pub open spec fn needs_straight(al: u8) -> bool {
    al == 0xB0 || al == 0xEC || al == 0xEB || al == 0xA9 || al == 0xCD || al == 0x97
}

/// B7CD: whether object `al` may stand at the record at byte `si`: it may unless it
/// needs a straight road and the record, the one before or the one after slopes.
pub fn sub_b7cd(buf: &Vec<u8>, al: u8, si: usize) -> (r: bool)
    requires
        needs_straight(al) ==> si + 1 < buf@.len() && (buf@[si + 1] == 0 ==> si >= 15 && (buf@[si
            - 15] == 0 ==> si + 17 < buf@.len())),
    ensures
        r == !(needs_straight(al) && (buf@[si + 1] != 0 || buf@[si - 15] != 0 || buf@[si + 17] != 0)),
{
    let tall = al == 0xB0 || al == 0xEC || al == 0xEB || al == 0xA9 || al == 0xCD || al == 0x97;
    if !tall {
        return true;
    }
    let n = buf.len();
    assert(needs_straight(al) && si + 1 < n);
    !(buf[si + 1] != 0 || buf[si - 15] != 0 || buf[si + 17] != 0)
}

/// The kind of a mountain pillar from the low half of a draw.
pub open spec fn pillar(lo: int) -> u8 {
    if lo >= 0x8000 {
        0xE2
    } else {
        0x96
    }
}

/// The two pillars of the record at byte `si`: kinds drawn from the course generator,
/// positions 17 to 20 drawn from the game generator for the first and from the course
/// generator for the second.
pub open spec fn pillars_record(g: Gen, si: int) -> Gen {
    let g1 = draw(g);
    let g2 = with_byte(g1, si + 2, pillar(lo16(g1)));
    let g3 = draw_game(g2);
    let g4 = with_byte(with_byte(with_byte(g3, si + 3, (game_lo16(g3) % 4 + 17) as u8), si + 4, 0), si + 5, 0);
    let g5 = draw(g4);
    let g6 = with_byte(g5, si + 6, pillar(lo16(g5)));
    let g7 = draw(g6);
    with_byte(with_byte(with_byte(g7, si + 7, (lo16(g7) % 4 + 17) as u8), si + 8, 0), si + 9, 0)
}

/// The two pillars of a record (see [`pillars_record`]).
fn pillars_exec(tg: &mut TrackGen, si: usize)
    requires
        old(tg).buf@.len() == TRACK_BUF_LEN,
        si + 16 <= TRACK_BUF_LEN,
    ensures
        final(tg)@ == pillars_record(old(tg)@, si as int),
        final(tg).buf@.len() == TRACK_BUF_LEN,
{
    let a = tg.draw();
    tg.put(si + 2, if a >= 0x8000 { 0xE2 } else { 0x96 });
    let b = tg.draw_game();
    tg.put(si + 3, (b % 4) as u8 + 17);
    tg.put(si + 4, 0);
    tg.put(si + 5, 0);
    let c = tg.draw();
    tg.put(si + 6, if c >= 0x8000 { 0xE2 } else { 0x96 });
    let e = tg.draw();
    tg.put(si + 7, (e % 4) as u8 + 17);
    tg.put(si + 8, 0);
    tg.put(si + 9, 0);
}

/// The pillars step, as a function.
pub open spec fn pillars_step() -> spec_fn(Gen, int) -> Option<Gen> {
    |g: Gen, si: int| Some(pillars_record(g, si))
}

/// `n` draws, none of which may fall below `w`.
pub open spec fn quiet_draws(g: Gen, n: nat, w: int) -> Option<Gen>
    decreases n,
{
    if n == 0 {
        Some(g)
    } else {
        match quiet_draws(g, (n - 1) as nat, w) {
            Some(g1) => if lo8(draw(g1)) >= w {
                Some(draw(g1))
            } else {
                None
            },
            None => None,
        }
    }
}

/// A record of a placement pass with `slots` draws, as a function.
pub open spec fn quiet_step(slots: nat, w: int) -> spec_fn(Gen, int) -> Option<Gen> {
    |g: Gen, si: int| quiet_draws(g, slots, w)
}

/// A placement pass from byte `start` with `slots` draws per record against `w`.
fn quiet_pass(tg: &mut TrackGen, start: usize, slots: usize, w: u16)
    requires
        old(tg).buf@.len() == TRACK_BUF_LEN,
        each_record(quiet_step(slots as nat, w as int), old(tg)@, start as int) is Some,
    ensures
        final(tg)@ == each_record(quiet_step(slots as nat, w as int), old(tg)@, start as int)->0,
        final(tg).buf@.len() == TRACK_BUF_LEN,
{
    let ghost g0 = tg@;
    let ghost f = quiet_step(slots as nat, w as int);
    let mut si: usize = start;
    while si < TRACK_BUF_LEN
        invariant
            tg.buf@.len() == TRACK_BUF_LEN,
            f == quiet_step(slots as nat, w as int),
            each_record(f, tg@, si as int) == each_record(f, g0, start as int),
            each_record(f, g0, start as int) is Some,
        decreases (if si < TRACK_BUF_LEN { TRACK_BUF_LEN - si } else { 0 }),
    {
        let ghost gr = tg@;
        assert(f(gr, si as int) == quiet_draws(gr, slots as nat, w as int));
        let mut j: usize = 0;
        while j < slots
            invariant
                tg.buf@.len() == TRACK_BUF_LEN,
                j <= slots,
                quiet_draws(gr, j as nat, w as int) == Some(tg@),
                quiet_draws(gr, slots as nat, w as int) is Some,
            decreases slots - j,
        {
            proof {
                lemma_quiet_prefix(gr, (j + 1) as nat, slots as nat, w as int);
            }
            let d = tg.draw();
            // Only draws that decide against a placement can occur (see the module).
            assert((d % 256) as int >= w);
            j = j + 1;
        }
        si = si + 16;
    }
}

/// A run of quiet draws that succeeds succeeds on every prefix.
proof fn lemma_quiet_prefix(g: Gen, m: nat, n: nat, w: int)
    requires
        m <= n,
        quiet_draws(g, n, w) is Some,
    ensures
        quiet_draws(g, m, w) is Some,
    decreases n - m,
{
    if m < n {
        lemma_quiet_prefix(g, m + 1, n, w);
    }
}

/// The threshold of the billboard pass from the scatter setting.
pub open spec fn billboard_threshold(scatter: u16) -> u16 {
    scaled(-48, scatter as int, 64) as u16
}

/// The roadside objects of scenery `scenario` with the scatter setting `scatter`:
/// pillars on every record in the mountains; elsewhere a billboard pass with one draw
/// per record.
pub open spec fn roadside_spec(g: Gen, scenario: Scenario, scatter: u16) -> Option<Gen> {
    if scenario == Scenario::Mountains {
        each_record(pillars_step(), g, 0)
    } else {
        each_record(quiet_step(1, billboard_threshold(scatter) as int), g, 0)
    }
}

/// B0FC: places the roadside objects (see [`roadside_spec`]).
pub fn sub_b0fc(tg: &mut TrackGen, scenario: Scenario, scatter: u16)
    requires
        old(tg).buf@.len() == TRACK_BUF_LEN,
        roadside_spec(old(tg)@, scenario, scatter) is Some,
    ensures
        final(tg)@ == roadside_spec(old(tg)@, scenario, scatter)->0,
        final(tg).buf@.len() == TRACK_BUF_LEN,
{
    if scenario == Scenario::Mountains {
        let ghost g0 = tg@;
        let ghost f = pillars_step();
        let mut si: usize = 0;
        while si < TRACK_BUF_LEN
            invariant
                tg.buf@.len() == TRACK_BUF_LEN,
                si % 16 == 0,
                f == pillars_step(),
                each_record(f, tg@, si as int) == each_record(f, g0, 0),
            decreases TRACK_BUF_LEN - si,
        {
            pillars_exec(tg, si);
            si = si + 16;
        }
    } else {
        let w = scale(-48, scatter as i32, 64) as u16;
        quiet_pass(tg, 0, 1, w);
    }
}

/// The threshold of the tree pass from the scenery setting.
pub open spec fn tree_threshold(scenery: u16) -> u16 {
    (176 * scenery as int / 100 + 16) as u16
}

/// The trees pass with the scenery setting `scenery`: four draws per record.
pub open spec fn trees_spec(g: Gen, scenery: u16) -> Option<Gen> {
    each_record(quiet_step(4, tree_threshold(scenery) as int), g, 0)
}

/// Places trees (see [`trees_spec`]).
pub fn add_trees(tg: &mut TrackGen, scenery: u16)
    requires
        old(tg).buf@.len() == TRACK_BUF_LEN,
        trees_spec(old(tg)@, scenery) is Some,
    ensures
        final(tg)@ == trees_spec(old(tg)@, scenery)->0,
        final(tg).buf@.len() == TRACK_BUF_LEN,
{
    let w = ((176 * (scenery as u32)) / 100 + 16) as u16;
    quiet_pass(tg, 0, 4, w);
}

/// The threshold of the laser beam pass from the obstacles setting: the setting taken
/// as an unsigned 32-bit number, times 16 in 32 bits, divided by 100, in 16 bits.
pub open spec fn beam_threshold(obstacles: i16) -> u16 {
    ((16 * (obstacles as u32) as int) % 0x1_0000_0000 / 100) as u16
}

/// The laser beam pass with the obstacles setting `obstacles`: four draws per record
/// from the first obstacle segment on.
pub open spec fn beams_spec(g: Gen, obstacles: i16) -> Option<Gen> {
    each_record(quiet_step(4, beam_threshold(obstacles) as int), g, 256)
}

/// Places laser beams (see [`beams_spec`]).
pub fn add_laser_beams(tg: &mut TrackGen, obstacles: i16)
    requires
        old(tg).buf@.len() == TRACK_BUF_LEN,
        beams_spec(old(tg)@, obstacles) is Some,
    ensures
        final(tg)@ == beams_spec(old(tg)@, obstacles)->0,
        final(tg).buf@.len() == TRACK_BUF_LEN,
{
    let w = (16u32.wrapping_mul(obstacles as u32) / 100) as u16;
    quiet_pass(tg, 256, 4, w);
}

} // verus!
