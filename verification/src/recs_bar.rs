//! The bars of the course settings menu: one bar per setting with its value in per
//! cent, and the difficulty in two digits.

use vstd::prelude::*;

use crate::bitmap::{char_drawn, char_fits, draw_char_small, BmpVec, bmp_items};
use crate::sprite::Point;
use crate::video::{recs_percent, sub_d097};

verus! {

/// Where the bars of the eight settings stand.
pub const RECS_VALUE_POS: [(usize, usize); 8] = [
    (18, 54),
    (18, 93),
    (18, 132),
    (122, 54),
    (122, 93),
    (226, 54),
    (226, 93),
    (226, 132),
];

/// The buffer with bytes `start` to `start + len` (within it) set to `color`.
pub open spec fn filled(buf: Seq<u8>, start: int, len: int, color: u8) -> Seq<u8> {
    Seq::new(buf.len(), |i: int| if start <= i < start + len { color } else { buf[i] })
}

/// A run of a bar: `len` pixels of `color` from `pos` (cut at the buffer's end).
pub fn fill_recs_bar_run(buf: &mut Vec<u8>, pos: Point, len: usize, color: u8)
    requires
        pos.y * 320 + pos.x + len <= usize::MAX,
    ensures
        final(buf)@ == filled(old(buf)@, pos.y * 320 + pos.x, len as int, color),
{
    let start = pos.index();
    let ghost b0 = buf@;
    if start >= buf.len() {
        assert(buf@ =~= filled(b0, start as int, len as int, color));
        return;
    }
    let end = if start + len < buf.len() {
        start + len
    } else {
        buf.len()
    };
    let mut i = start;
    while i < end
        invariant
            start <= i <= end <= b0.len(),
            end == (if start + len < b0.len() { start + len } else { b0.len() as int }),
            buf@.len() == b0.len(),
            forall|j: int| 0 <= j < b0.len() ==> #[trigger] buf@[j] == if start <= j < i { color } else { b0[j] },
        decreases end - i,
    {
        buf.set(i, color);
        i = i + 1;
    }
    assert(buf@ =~= filled(b0, start as int, len as int, color));
}

/// A border row of a bar at `pos`: `bp` pixels of colour 28, one black, `dx` of 13.
pub open spec fn border_row(buf: Seq<u8>, pos: Point, bp: int, dx: int) -> Seq<u8> {
    let s = pos.y * 320 + pos.x;
    filled(filled(filled(buf, s, bp, 28), s + bp, 1, 0), s + bp + 1, dx, 13)
}

/// 4515: a border row of a bar (see [`border_row`]).
pub fn sub_4515(buf: &mut Vec<u8>, pos: Point, bp: usize, dx: usize)
    requires
        pos.y * 320 + pos.x + bp + dx + 1 <= usize::MAX,
    ensures
        final(buf)@ == border_row(old(buf)@, pos, bp as int, dx as int),
{
    fill_recs_bar_run(buf, pos, bp, 28);
    fill_recs_bar_run(buf, Point::xy(pos.x + bp, pos.y), 1, 0);
    fill_recs_bar_run(buf, Point::xy(pos.x + bp + 1, pos.y), dx, 13);
}

/// An inner row of a bar at `pos`: `bp` pixels of colour 26 and one black (where `bp`
/// is not zero), then `dx` of 30.
pub open spec fn inner_row(buf: Seq<u8>, pos: Point, bp: int, dx: int) -> Seq<u8> {
    let s = pos.y * 320 + pos.x;
    if bp != 0 {
        filled(filled(filled(buf, s, bp, 26), s + bp, 1, 0), s + bp + 1, dx, 30)
    } else {
        filled(buf, s, dx, 30)
    }
}

/// `n` inner rows from `pos` down.
pub open spec fn inner_rows(buf: Seq<u8>, pos: Point, bp: int, dx: int, n: nat) -> Seq<u8>
    decreases n,
{
    if n == 0 {
        buf
    } else {
        inner_rows(inner_row(buf, pos, bp, dx), Point { y: (pos.y + 1) as usize, ..pos }, bp, dx, (n - 1) as nat)
    }
}

/// The filled length of the bar of a setting with value `value`: three pixels per
/// step, the middle value 13 at 37.
pub open spec fn bar_len(value: u16) -> int {
    if value == 13 {
        0x25
    } else if value >= 14 {
        (value - 1) * 3
    } else {
        value * 3
    }
}

/// The empty length of a bar: the rest of 74, one more for an empty bar.
pub open spec fn bar_rest(bp: int) -> int {
    let dx = if bp < 74 { 74 - bp } else { 0 };
    if bp == 0 {
        dx + 1
    } else {
        dx
    }
}

/// The bar of a setting with value `value` at `pos`: a border row, twenty inner rows,
/// a border row.
pub open spec fn bar_drawn(buf: Seq<u8>, pos: Point, value: u16) -> Seq<u8> {
    let bp = bar_len(value);
    let dx = bar_rest(bp);
    border_row(
        inner_rows(border_row(buf, pos, bp, dx), Point { y: (pos.y + 1) as usize, ..pos }, bp, dx, 20),
        Point { y: (pos.y + 21) as usize, ..pos },
        bp,
        dx,
    )
}

/// The screen after the per cent value `value` is drawn at `pos` in font `g`: the
/// tens (a `1` to the left and a `0` at 100 and over, nothing for none), the ones, and
/// `%`. `None` where a character cannot be drawn.
pub open spec fn percent_drawn(buf: Seq<u8>, value: u16, pos: Point, g: Seq<(u16, u16, Seq<u8>)>) -> Option<Seq<u8>> {
    let tens = ((value / 10) % 256) as u8;
    let ones = (value % 10) as u8;
    let b1 = if tens >= 10 {
        match char_drawn(buf, 49, Point { x: (pos.x - 7) as usize, ..pos }, g) {
            Some(b) => char_drawn(b, 48, pos, g),
            None => None,
        }
    } else if tens != 0 {
        char_drawn(buf, ((48 + tens) % 256) as u8, pos, g)
    } else {
        Some(buf)
    };
    match b1 {
        None => None,
        Some(b) => match char_drawn(b, (48 + ones) as u8, Point { x: (pos.x + 7) as usize, ..pos }, g) {
            Some(b2) => char_drawn(b2, 37, Point { x: (pos.x + 14) as usize, ..pos }, g),
            None => None,
        },
    }
}

/// Whether every character of a per cent value fits (see [`char_fits`]).
pub open spec fn percent_fits(value: u16, pos: Point, g: Seq<(u16, u16, Seq<u8>)>) -> bool {
    let tens = ((value / 10) % 256) as u8;
    let ones = (value % 10) as u8;
    &&& tens >= 10 ==> pos.x >= 7 && char_fits(49, Point { x: (pos.x - 7) as usize, ..pos }, g) && char_fits(48, pos, g)
    &&& (tens < 10 && tens != 0) ==> char_fits(((48 + tens) % 256) as u8, pos, g)
    &&& char_fits((48 + ones) as u8, Point { x: (pos.x + 7) as usize, ..pos }, g)
    &&& char_fits(37, Point { x: (pos.x + 14) as usize, ..pos }, g)
    &&& pos.x + 14 <= usize::MAX
}

/// Draws a per cent value (see [`percent_drawn`]).
pub fn draw_recs_percent(buf: &mut Vec<u8>, value: u16, pos: Point, font4: &BmpVec)
    requires
        percent_drawn(old(buf)@, value, pos, bmp_items(*font4)) is Some,
        percent_fits(value, pos, bmp_items(*font4)),
    ensures
        final(buf)@ == percent_drawn(old(buf)@, value, pos, bmp_items(*font4))->0,
{
    let tens = ((value / 10) % 256) as u8;
    let ones = (value % 10) as u8;
    if tens >= 10 {
        draw_char_small(buf, 49u8, Point::xy(pos.x - 7, pos.y), font4);
        draw_char_small(buf, 48u8, pos, font4);
    } else if tens != 0 {
        draw_char_small(buf, 48u8.wrapping_add(tens), pos, font4);
    }
    draw_char_small(buf, 48u8 + ones, Point::xy(pos.x + 7, pos.y), font4);
    draw_char_small(buf, 37u8, Point::xy(pos.x + 14, pos.y), font4);
}

/// The value of setting `ix` of the course code `recs` (the difficulty for 8).
pub open spec fn recs_value_spec(recs: Seq<u16>, difficulty: u16, ix: int) -> u16 {
    if ix == 8 {
        difficulty
    } else {
        recs[ix + 1]
    }
}

/// The value of setting `ix` (0 to 8).
pub fn recs_value(recs: &[u16; 9], difficulty: u16, ix: usize) -> (v: u16)
    requires
        ix <= 8,
    ensures
        v == recs_value_spec(recs@, difficulty, ix as int),
{
    if ix == 8 {
        difficulty
    } else {
        recs[ix + 1]
    }
}

/// Sets setting `ix` (0 to 8) to `value`.
pub fn set_recs_value(recs: &mut [u16; 9], difficulty: &mut u16, ix: usize, value: u16)
    requires
        ix <= 8,
    ensures
        ix == 8 ==> *final(difficulty) == value && final(recs)@ == old(recs)@,
        ix < 8 ==> *final(difficulty) == *old(difficulty) && final(recs)@ == old(recs)@.update(ix + 1, value),
        recs_value_spec(final(recs)@, *final(difficulty), ix as int) == value,
{
    if ix == 8 {
        *difficulty = value;
    } else {
        recs[ix + 1] = value;
    }
}

/// The screen after the difficulty `difficulty` is drawn in two digits (the tens at
/// most 9).
pub open spec fn difficulty_drawn(buf: Seq<u8>, difficulty: u16, g: Seq<(u16, u16, Seq<u8>)>) -> Option<Seq<u8>> {
    let tens = if difficulty / 10 < 9 { difficulty / 10 } else { 9 };
    match char_drawn(buf, (48 + tens) as u8, Point { x: 144, y: 132 }, g) {
        Some(b) => char_drawn(b, (48 + difficulty % 10) as u8, Point { x: 160, y: 132 }, g),
        None => None,
    }
}

/// 452B: draws the difficulty (see [`difficulty_drawn`]).
pub fn loc_452b(buf: &mut Vec<u8>, difficulty: u16, font5: &BmpVec)
    requires
        difficulty_drawn(old(buf)@, difficulty, bmp_items(*font5)) is Some,
        char_fits((48 + (if difficulty / 10 < 9 { difficulty / 10 } else { 9 })) as u8, Point { x: 144, y: 132 }, bmp_items(*font5)),
        char_fits((48 + difficulty % 10) as u8, Point { x: 160, y: 132 }, bmp_items(*font5)),
    ensures
        final(buf)@ == difficulty_drawn(old(buf)@, difficulty, bmp_items(*font5))->0,
{
    let tens = if difficulty / 10 < 9 {
        (difficulty / 10) as u8
    } else {
        9
    };
    let ones = (difficulty % 10) as u8;
    draw_char_small(buf, 48u8 + tens, Point::xy(144, 132), font5);
    draw_char_small(buf, 48u8 + ones, Point::xy(160, 132), font5);
}

/// 445D: draws setting `ix` of the course settings menu: its bar and per cent value,
/// or for the difficulty (8) its two digits.
pub fn sub_445d(buf: &mut Vec<u8>, ix: usize, recs: &[u16; 9], difficulty: u16, font4: &BmpVec, font5: &BmpVec)
    requires
        ix <= 8,
        ix == 8 ==> {
            &&& difficulty_drawn(old(buf)@, difficulty, bmp_items(*font5)) is Some
            &&& char_fits((48 + (if difficulty / 10 < 9 { difficulty / 10 } else { 9 })) as u8, Point { x: 144, y: 132 }, bmp_items(*font5))
            &&& char_fits((48 + difficulty % 10) as u8, Point { x: 160, y: 132 }, bmp_items(*font5))
        },
        ix < 8 ==> ({
            let p = Point { x: RECS_VALUE_POS@[ix as int].0, y: RECS_VALUE_POS@[ix as int].1 };
            let v = recs@[ix + 1];
            let tp = Point { x: (p.x + 26) as usize, y: (p.y + 5) as usize };
            &&& percent_drawn(bar_drawn(old(buf)@, p, v), recs_percent(v), tp, bmp_items(*font4)) is Some
            &&& percent_fits(recs_percent(v), tp, bmp_items(*font4))
        }),
    ensures
        ix == 8 ==> final(buf)@ == difficulty_drawn(old(buf)@, difficulty, bmp_items(*font5))->0,
        ix < 8 ==> ({
            let p = Point { x: RECS_VALUE_POS@[ix as int].0, y: RECS_VALUE_POS@[ix as int].1 };
            let v = recs@[ix + 1];
            let tp = Point { x: (p.x + 26) as usize, y: (p.y + 5) as usize };
            final(buf)@ == percent_drawn(bar_drawn(old(buf)@, p, v), recs_percent(v), tp, bmp_items(*font4))->0
        }),
{
    if ix == 8 {
        loc_452b(buf, difficulty, font5);
        return;
    }
    let (px, py) = RECS_VALUE_POS[ix];
    assert(px <= 226 && py <= 132) by {
        assert(RECS_VALUE_POS@ =~= seq![(18usize, 54usize), (18, 93), (18, 132), (122, 54), (122, 93), (226, 54), (226, 93), (226, 132)]);
    }
    let pos = Point::xy(px, py);
    let value = recs[ix + 1];
    let bp: usize = if value == 13 {
        0x25
    } else if value >= 14 {
        ((value - 1) as usize) * 3
    } else {
        (value as usize) * 3
    };
    let mut dx: usize = if bp < 74 {
        74 - bp
    } else {
        0
    };
    if bp == 0 {
        dx = dx + 1;
    }
    let ghost b0 = buf@;
    sub_4515(buf, pos, bp, dx);
    let mut y = py + 1;
    while y < py + 21
        invariant
            py + 1 <= y <= py + 21,
            py <= 132,
            px <= 226,
            bp <= 196605,
            dx <= 75,
            inner_rows(buf@, Point { x: px, y }, bp as int, dx as int, (py + 21 - y) as nat) == inner_rows(
                border_row(b0, pos, bp as int, dx as int),
                Point { x: px, y: (py + 1) as usize },
                bp as int,
                dx as int,
                20,
            ),
        decreases py + 21 - y,
    {
        let mut x = px;
        if bp != 0 {
            fill_recs_bar_run(buf, Point::xy(x, y), bp, 26);
            x = x + bp;
            fill_recs_bar_run(buf, Point::xy(x, y), 1, 0);
            x = x + 1;
        }
        fill_recs_bar_run(buf, Point::xy(x, y), dx, 30);
        y = y + 1;
    }
    sub_4515(buf, Point::xy(px, py + 21), bp, dx);
    assert(buf@ == bar_drawn(b0, pos, value));
    draw_recs_percent(buf, sub_d097(value), Point::xy(px + 26, py + 5), font4);
}

} // verus!
