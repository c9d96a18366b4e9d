//! The red frame around the selected menu item, and darkening the area it covered.

use vstd::prelude::*;

use crate::sprite::Size;

verus! {

/// Black, the outer edge of the frame.
pub const BLACK: u8 = 0x60;

/// Maroon, the shading of the frame's corners.
pub const MAROON: u8 = 0x40;

/// Red, the middle of the frame.
pub const RED: u8 = 0x20;

/// `buf` after OR-ing the colours of `ws` at their offsets, one after the other.
pub open spec fn apply_or(buf: Seq<u8>, ws: Seq<(int, u8)>) -> Seq<u8>
    decreases ws.len(),
{
    if ws.len() == 0 {
        buf
    } else {
        let p = apply_or(buf, ws.drop_last());
        let (o, c) = ws.last();
        if 0 <= o < p.len() {
            p.update(o, p[o] | c)
        } else {
            p
        }
    }
}

/// The writes of `pat` moved by `base`.
pub open spec fn shift(pat: Seq<(int, u8)>, base: int) -> Seq<(int, u8)> {
    pat.map_values(|w: (int, u8)| (w.0 + base, w.1))
}

/// A pattern repeated `n` times, one byte further to the right each time.
pub open spec fn run_right(start: int, n: nat, pat: Seq<(int, u8)>) -> Seq<(int, u8)>
    decreases n,
{
    if n == 0 {
        Seq::empty()
    } else {
        run_right(start, (n - 1) as nat, pat) + shift(pat, start + n - 1)
    }
}

/// A pattern repeated `n` times, one row further down each time.
pub open spec fn run_down(start: int, n: nat, pat: Seq<(int, u8)>) -> Seq<(int, u8)>
    decreases n,
{
    if n == 0 {
        Seq::empty()
    } else {
        run_down(start, (n - 1) as nat, pat) + shift(pat, start + 320 * (n - 1))
    }
}

/// A pattern repeated `n` times, starting one byte left of `start` and going left.
pub open spec fn run_left(start: int, n: nat, pat: Seq<(int, u8)>) -> Seq<(int, u8)>
    decreases n,
{
    if n == 0 {
        Seq::empty()
    } else {
        run_left(start, (n - 1) as nat, pat) + shift(pat, start - n)
    }
}

/// A pattern repeated `n` times, starting one row above `start` and going up.
pub open spec fn run_up(start: int, n: nat, pat: Seq<(int, u8)>) -> Seq<(int, u8)>
    decreases n,
{
    if n == 0 {
        Seq::empty()
    } else {
        run_up(start, (n - 1) as nat, pat) + shift(pat, start - 320 * n)
    }
}

/// A pattern as the program keeps it: offsets and colours.
pub open spec fn pattern(p: Seq<(usize, u8)>) -> Seq<(int, u8)> {
    p.map_values(|w: (usize, u8)| (w.0 as int, w.1))
}

/// Top left corner.
pub const CORNER_TL: [(usize, u8); 14] = [
    (2, BLACK), (3, BLACK),
    (320, 0), (321, BLACK), (322, MAROON), (323, RED),
    (640, BLACK), (641, MAROON), (642, RED), (643, MAROON),
    (960, BLACK), (961, RED), (962, MAROON), (963, BLACK),
];

/// Top right corner.
pub const CORNER_TR: [(usize, u8); 14] = [
    (0, BLACK), (1, BLACK),
    (320, RED), (321, MAROON), (322, BLACK), (323, 0),
    (640, MAROON), (641, RED), (642, MAROON), (643, BLACK),
    (960, BLACK), (961, MAROON), (962, RED), (963, BLACK),
];

/// Bottom right corner.
pub const CORNER_BR: [(usize, u8); 14] = [
    (0, BLACK), (1, MAROON), (2, RED), (3, BLACK),
    (320, MAROON), (321, RED), (322, MAROON), (323, BLACK),
    (640, RED), (641, MAROON), (642, BLACK), (643, 0),
    (960, BLACK), (961, BLACK),
];

/// Bottom left corner.
pub const CORNER_BL: [(usize, u8); 14] = [
    (0, BLACK), (1, RED), (2, MAROON), (3, BLACK),
    (320, BLACK), (321, MAROON), (322, RED), (323, MAROON),
    (640, 0), (641, BLACK), (642, MAROON), (643, RED),
    (962, BLACK), (963, BLACK),
];

/// One column of the top edge.
pub const EDGE_TOP: [(usize, u8); 3] = [(0, BLACK), (320, RED), (640, BLACK)];

/// One row of the right edge.
pub const EDGE_RIGHT: [(usize, u8); 3] = [(1, BLACK), (2, RED), (3, BLACK)];

/// One column of the bottom edge.
pub const EDGE_BOTTOM: [(usize, u8); 3] = [(320, BLACK), (640, RED), (960, BLACK)];

/// One row of the left edge.
pub const EDGE_LEFT: [(usize, u8); 3] = [(0, BLACK), (1, RED), (2, BLACK)];

/// The writes of a frame whose top left corner is at `d0`, around an item of
/// `w` x `h` pixels: corner, top edge, corner, right edge, corner, bottom edge, corner,
/// left edge.
pub open spec fn frame_writes(d0: int, w: int, h: int) -> Seq<(int, u8)> {
    let d1 = d0 + w + 8;
    let d2 = d1 + 4 * 320;
    let d3 = d2 + (h + 4) * 320;
    let d4 = d3 - (w + 4) - 4;
    shift(pattern(CORNER_TL@), d0) + run_right(d0 + 4, (w + 4) as nat, pattern(EDGE_TOP@)) + shift(
        pattern(CORNER_TR@),
        d1,
    ) + run_down(d2, (h + 4) as nat, pattern(EDGE_RIGHT@)) + shift(pattern(CORNER_BR@), d3)
        + run_left(d3, (w + 4) as nat, pattern(EDGE_BOTTOM@)) + shift(pattern(CORNER_BL@), d4)
        + run_up(d4, (h + 4) as nat, pattern(EDGE_LEFT@))
}

/// OR-ing two lists of writes one after the other.
proof fn lemma_apply_or_append(buf: Seq<u8>, a: Seq<(int, u8)>, b: Seq<(int, u8)>)
    ensures
        apply_or(buf, a + b) == apply_or(apply_or(buf, a), b),
    decreases b.len(),
{
    if b.len() == 0 {
        assert(a + b =~= a);
    } else {
        assert((a + b).drop_last() =~= a + b.drop_last());
        lemma_apply_or_append(buf, a, b.drop_last());
    }
}

/// OR-ing writes leaves the buffer's length as it is.
pub proof fn lemma_apply_or_len(buf: Seq<u8>, ws: Seq<(int, u8)>)
    ensures
        apply_or(buf, ws).len() == buf.len(),
    decreases ws.len(),
{
    if ws.len() > 0 {
        lemma_apply_or_len(buf, ws.drop_last());
    }
}

/// ORs `pat`, moved by `base`, into `buf`.
fn or_pattern(buf: &mut Vec<u8>, base: usize, pat: &[(usize, u8)])
    requires
        forall|i: int| 0 <= i < pat@.len() ==> base + pat@[i].0 < old(buf).len(),
    ensures
        final(buf)@ == apply_or(old(buf)@, shift(pattern(pat@), base as int)),
        final(buf).len() == old(buf).len(),
{
    let ghost ws = shift(pattern(pat@), base as int);
    let mut i: usize = 0;
    while i < pat.len()
        invariant
            i <= pat@.len(),
            ws == shift(pattern(pat@), base as int),
            buf.len() == old(buf).len(),
            forall|j: int| 0 <= j < pat@.len() ==> base + pat@[j].0 < old(buf).len(),
            buf@ == apply_or(old(buf)@, ws.take(i as int)),
        decreases pat@.len() - i,
    {
        let (o, c) = pat[i];
        let off = base + o;
        let v = buf[off] | c;
        buf.set(off, v);
        proof {
            assert(ws.take(i + 1).drop_last() =~= ws.take(i as int));
            assert(ws.take(i + 1).last() == (off as int, c));
            lemma_apply_or_len(old(buf)@, ws.take(i as int));
        }
        i = i + 1;
        assert(buf@ =~= apply_or(old(buf)@, ws.take(i as int)));
    }
    assert(ws.take(pat@.len() as int) =~= ws);
}

/// Where a frame was drawn: its first byte and its height in rows.
#[derive(Clone, Copy, Debug, PartialEq, Eq, Structural)]
pub struct MenuFrame {
    pub start: usize,
    pub rows: u16,
}

/// The largest offset of a frame's writes.
pub open spec fn frame_last(d0: int, w: int, h: int) -> int {
    d0 + w + 9 + (h + 11) * 320
}

/// 38BD: draws the red frame around the menu item at `(col, row)` of `size` (the frame
/// starts six pixels up and left of it), and returns where it was drawn.
pub fn draw_menu_frame(buf: &mut Vec<u8>, col: u16, row: u16, size: Size) -> (r: MenuFrame)
    requires
        col >= 6,
        row >= 6,
        frame_last(320 * (row - 6) + col - 6, size.width as int, size.height as int) < old(buf).len(),
    ensures
        r.start == 320 * (row - 6) + col - 6,
        r.rows == (size.height + 12) % 65536,
        final(buf)@ == apply_or(old(buf)@, frame_writes(r.start as int, size.width as int, size.height as int)),
{
    let w = size.width;
    let h = size.height;
    let d0: usize = 320 * ((row - 6) as usize) + ((col - 6) as usize);
    let ghost s0 = buf@;
    let ghost len = buf@.len();
    assert(buf.len() == len);
    or_pattern(buf, d0, &CORNER_TL);
    let ghost a = shift(pattern(CORNER_TL@), d0 as int);
    // top edge
    let mut i: usize = 0;
    while i < w + 4
        invariant
            i <= w + 4,
            buf.len() == len,
            frame_last(d0 as int, w as int, h as int) < len,
            buf@ == apply_or(s0, a + run_right(d0 + 4, i as nat, pattern(EDGE_TOP@))),
        decreases w + 4 - i,
    {
        or_pattern(buf, d0 + 4 + i, &EDGE_TOP);
        proof {
            lemma_apply_or_append(s0, a + run_right(d0 + 4, i as nat, pattern(EDGE_TOP@)), shift(pattern(EDGE_TOP@), d0 + 4 + i));
            assert(a + run_right(d0 + 4, (i + 1) as nat, pattern(EDGE_TOP@)) =~= a + run_right(d0 + 4, i as nat, pattern(EDGE_TOP@)) + shift(pattern(EDGE_TOP@), d0 + 4 + i));
        }
        i = i + 1;
    }
    let ghost b = a + run_right(d0 + 4, (w + 4) as nat, pattern(EDGE_TOP@));
    let d1 = d0 + w + 8;
    or_pattern(buf, d1, &CORNER_TR);
    proof {
        lemma_apply_or_append(s0, b, shift(pattern(CORNER_TR@), d1 as int));
    }
    let ghost c = b + shift(pattern(CORNER_TR@), d1 as int);
    // right edge
    let d2 = d1 + 4 * 320;
    let mut j: usize = 0;
    while j < h + 4
        invariant
            j <= h + 4,
            d2 == d0 + w + 8 + 4 * 320,
            buf.len() == len,
            frame_last(d0 as int, w as int, h as int) < len,
            buf@ == apply_or(s0, c + run_down(d2 as int, j as nat, pattern(EDGE_RIGHT@))),
        decreases h + 4 - j,
    {
        or_pattern(buf, d2 + 320 * j, &EDGE_RIGHT);
        proof {
            lemma_apply_or_append(s0, c + run_down(d2 as int, j as nat, pattern(EDGE_RIGHT@)), shift(pattern(EDGE_RIGHT@), d2 + 320 * j));
            assert(c + run_down(d2 as int, (j + 1) as nat, pattern(EDGE_RIGHT@)) =~= c + run_down(d2 as int, j as nat, pattern(EDGE_RIGHT@)) + shift(pattern(EDGE_RIGHT@), d2 + 320 * j));
        }
        j = j + 1;
    }
    let ghost e = c + run_down(d2 as int, (h + 4) as nat, pattern(EDGE_RIGHT@));
    let d3 = d2 + (h + 4) * 320;
    or_pattern(buf, d3, &CORNER_BR);
    proof {
        lemma_apply_or_append(s0, e, shift(pattern(CORNER_BR@), d3 as int));
    }
    let ghost f = e + shift(pattern(CORNER_BR@), d3 as int);
    // bottom edge, from right to left
    let mut i: usize = 0;
    while i < w + 4
        invariant
            i <= w + 4,
            d3 == d0 + w + 8 + 4 * 320 + (h + 4) * 320,
            buf.len() == len,
            frame_last(d0 as int, w as int, h as int) < len,
            buf@ == apply_or(s0, f + run_left(d3 as int, i as nat, pattern(EDGE_BOTTOM@))),
        decreases w + 4 - i,
    {
        or_pattern(buf, d3 - 1 - i, &EDGE_BOTTOM);
        proof {
            lemma_apply_or_append(s0, f + run_left(d3 as int, i as nat, pattern(EDGE_BOTTOM@)), shift(pattern(EDGE_BOTTOM@), d3 - 1 - i));
            assert(f + run_left(d3 as int, (i + 1) as nat, pattern(EDGE_BOTTOM@)) =~= f + run_left(d3 as int, i as nat, pattern(EDGE_BOTTOM@)) + shift(pattern(EDGE_BOTTOM@), d3 - 1 - i));
        }
        i = i + 1;
    }
    let ghost g = f + run_left(d3 as int, (w + 4) as nat, pattern(EDGE_BOTTOM@));
    let d4 = d3 - (w + 4) - 4;
    or_pattern(buf, d4, &CORNER_BL);
    proof {
        lemma_apply_or_append(s0, g, shift(pattern(CORNER_BL@), d4 as int));
    }
    let ghost p = g + shift(pattern(CORNER_BL@), d4 as int);
    // left edge, upwards
    let mut j: usize = 0;
    while j < h + 4
        invariant
            j <= h + 4,
            d4 == d0 + 4 * 320 + (h + 4) * 320,
            buf.len() == len,
            frame_last(d0 as int, w as int, h as int) < len,
            buf@ == apply_or(s0, p + run_up(d4 as int, j as nat, pattern(EDGE_LEFT@))),
        decreases h + 4 - j,
    {
        or_pattern(buf, d4 - 320 * (j + 1), &EDGE_LEFT);
        proof {
            lemma_apply_or_append(s0, p + run_up(d4 as int, j as nat, pattern(EDGE_LEFT@)), shift(pattern(EDGE_LEFT@), d4 - 320 * (j + 1)));
            assert(p + run_up(d4 as int, (j + 1) as nat, pattern(EDGE_LEFT@)) =~= p + run_up(d4 as int, j as nat, pattern(EDGE_LEFT@)) + shift(pattern(EDGE_LEFT@), d4 - 320 * (j + 1)));
        }
        j = j + 1;
    }
    assert(p + run_up(d4 as int, (h + 4) as nat, pattern(EDGE_LEFT@)) =~= frame_writes(d0 as int, w as int, h as int));
    MenuFrame { start: d0, rows: ((h % 65536) as u16).wrapping_add(12) }
}

/// The screen after the `count` bytes from `start` on have been darkened to their low
/// five bits.
pub open spec fn darkened(s: Seq<u8>, start: int, count: int) -> Seq<u8> {
    Seq::new(s.len(), |k: int| if start <= k < start + count { s[k] & 0x1F } else { s[k] })
}

/// The number of bytes that darkening a frame of `rows` rows covers: twice the rows
/// times 168 in 16 bits, but no more than the screen has from `start` on.
pub open spec fn darken_count(len: int, start: int, rows: u16) -> int {
    let cx = (rows * 168) % 65536;
    if cx * 2 < len - start {
        cx * 2
    } else {
        len - start
    }
}

/// 389E: darkens the area that the last frame covered (its colour keeps only the low five
/// bits) before a new frame is drawn.
pub fn sub_389e(buf: &mut Vec<u8>, frame: MenuFrame)
    requires
        (frame.rows * 168) % 65536 != 0 ==> frame.start <= old(buf).len(),
    ensures
        (frame.rows * 168) % 65536 == 0 ==> final(buf)@ == old(buf)@,
        (frame.rows * 168) % 65536 != 0 ==> final(buf)@ == darkened(
            old(buf)@,
            frame.start as int,
            darken_count(old(buf).len() as int, frame.start as int, frame.rows),
        ),
{
    let cx = ((frame.rows as u32) * 168 % 65536) as u16;
    if cx == 0 {
        return;
    }
    let avail = buf.len() - frame.start;
    let count: usize = if (cx as usize) * 2 < avail {
        (cx as usize) * 2
    } else {
        avail
    };
    let mut i: usize = 0;
    while i < count
        invariant
            i <= count,
            frame.start + count <= buf.len(),
            buf.len() == old(buf).len(),
            buf@ == darkened(old(buf)@, frame.start as int, i as int),
        decreases count - i,
    {
        let v = buf[frame.start + i] & 0x1F;
        buf.set(frame.start + i, v);
        i = i + 1;
        assert(buf@ =~= darkened(old(buf)@, frame.start as int, i as int));
    }
}

} // verus!
