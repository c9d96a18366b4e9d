//! The intro's logic: the large font of the credits, the palettes that fade the credits
//! in and out, and which animation frame each moment shows.

use vstd::prelude::*;

use crate::sprite::{draw_char, glyph_drawn, lemma_glyph_drawn_len, sprite_rows, Size};

verus! {

/// The large font's glyph for character `c`: `.`, `(` and `)` after the digits and
/// letters; digits from 0 and letters from 10 (so `:` to `@` fall on 3 to 9, and
/// characters below `0` on 0). Space has no glyph.
pub open spec fn large_glyph(c: u8) -> u8 {
    if c == 46 {
        36
    } else if c == 40 {
        37
    } else if c == 41 {
        38
    } else {
        let x = if c >= 48 { c - 48 } else { 0 };
        (if x >= 10 { x - 7 } else { x }) as u8
    }
}

/// A large character (16 x 18) OR-ed onto the screen from byte `skip`.
pub open spec fn large_char(buf: Seq<u8>, font: Seq<u8>, c: u8, skip: int) -> Seq<u8> {
    let g = font.subrange(c * 288, font.len() as int);
    glyph_drawn(buf, g, skip, 16, sprite_rows(buf.len() as int, skip, g.len() as int, 16, 18) as nat)
}

/// A line of large text from byte `skip`: fourteen pixels per character, a space only
/// moves on, and a zero ends the line.
pub open spec fn large_line(buf: Seq<u8>, font: Seq<u8>, s: Seq<u8>, skip: int) -> Seq<u8>
    decreases s.len(),
{
    if s.len() == 0 || s[0] == 0 {
        buf
    } else if s[0] == 32 {
        large_line(buf, font, s.drop_first(), skip + 14)
    } else {
        large_line(large_char(buf, font, large_glyph(s[0]), skip), font, s.drop_first(), skip + 14)
    }
}

/// Whether each character of a line can be drawn: it starts on the screen and its
/// glyph lies in the font.
pub open spec fn large_line_ok(blen: int, flen: int, s: Seq<u8>, skip: int) -> bool
    decreases s.len(),
{
    if s.len() == 0 || s[0] == 0 {
        true
    } else if s[0] == 32 {
        large_line_ok(blen, flen, s.drop_first(), skip + 14)
    } else {
        &&& skip <= blen
        &&& large_glyph(s[0]) * 288 <= flen
        &&& large_line_ok(blen, flen, s.drop_first(), skip + 14)
    }
}

/// The lines of large text, each `(text, start byte)`, one after the other.
pub open spec fn large_text(buf: Seq<u8>, font: Seq<u8>, lines: Seq<(Seq<u8>, int)>) -> Seq<u8>
    decreases lines.len(),
{
    if lines.len() == 0 {
        buf
    } else {
        large_text(large_line(buf, font, lines[0].0, lines[0].1), font, lines.drop_first())
    }
}

/// Whether every line can be drawn (see [`large_line_ok`]).
pub open spec fn large_text_ok(blen: int, flen: int, lines: Seq<(Seq<u8>, int)>) -> bool {
    forall|k: int| 0 <= k < lines.len() ==> #[trigger] large_line_ok(blen, flen, lines[k].0, lines[k].1)
}

/// The glyph of a large character (see [`large_glyph`]).
fn large_glyph_of(c: u8) -> (r: u8)
    ensures
        r == large_glyph(c),
{
    if c == 46 {
        36
    } else if c == 40 {
        37
    } else if c == 41 {
        38
    } else {
        let x = c.saturating_sub(48);
        if x >= 10 {
            x - 7
        } else {
            x
        }
    }
}

proof fn lemma_large_line_len(buf: Seq<u8>, font: Seq<u8>, s: Seq<u8>, skip: int)
    ensures
        large_line(buf, font, s, skip).len() == buf.len(),
    decreases s.len(),
{
    if s.len() > 0 && s[0] != 0 {
        if s[0] == 32 {
            lemma_large_line_len(buf, font, s.drop_first(), skip + 14);
        } else {
            let c = large_glyph(s[0]);
            let g = font.subrange(c * 288, font.len() as int);
            lemma_glyph_drawn_len(buf, g, skip, 16, sprite_rows(buf.len() as int, skip, g.len() as int, 16, 18) as nat);
            lemma_large_line_len(large_char(buf, font, c, skip), font, s.drop_first(), skip + 14);
        }
    }
}

/// Draws a line of large text from byte `skip` (see [`large_line`]).
fn draw_large_line(buf: &mut Vec<u8>, font: &[u8], s: &[u8], skip: usize)
    requires
        large_line_ok(old(buf)@.len() as int, font@.len() as int, s@, skip as int),
        skip + 14 * s@.len() <= usize::MAX,
    ensures
        final(buf)@ == large_line(old(buf)@, font@, s@, skip as int),
{
    let ghost b0 = buf@;
    let mut i: usize = 0;
    let mut at = skip;
    let mut ended = false;
    assert(s@.subrange(0, s@.len() as int) =~= s@);
    while i < s.len() && !ended
        invariant
            i <= s@.len(),
            at == skip + 14 * i,
            skip + 14 * s@.len() <= usize::MAX,
            ended ==> buf@ == large_line(b0, font@, s@, skip as int),
            !ended ==> large_line_ok(buf@.len() as int, font@.len() as int, s@.subrange(i as int, s@.len() as int), at as int),
            !ended ==> large_line(buf@, font@, s@.subrange(i as int, s@.len() as int), at as int) == large_line(
                b0,
                font@,
                s@,
                skip as int,
            ),
        decreases s@.len() - i + (if ended { 0int } else { 1 }),
    {
        let c = s[i];
        let ghost rest = s@.subrange(i as int, s@.len() as int);
        assert(rest.drop_first() =~= s@.subrange(i + 1, s@.len() as int));
        assert(rest[0] == c);
        if c == 0 {
            ended = true;
        } else {
            if c != 32 {
                let g = large_glyph_of(c);
                proof {
                    let gl = font@.subrange(g * 288, font@.len() as int);
                    lemma_glyph_drawn_len(buf@, gl, at as int, 16, sprite_rows(buf@.len() as int, at as int, gl.len() as int, 16, 18) as nat);
                }
                draw_char(buf, g, font, Size::wh(16, 18), at);
            }
            at = at + 14;
            i = i + 1;
        }
    }
    if !ended {
        assert(s@.subrange(i as int, s@.len() as int) =~= Seq::<u8>::empty());
    }
}

/// 341F: draws the lines of large text, each `(text, position)` (see [`large_text`]).
pub fn draw_text_large(buf: &mut Vec<u8>, font: &[u8], lines: &[(&[u8], usize)])
    requires
        large_text_ok(old(buf)@.len() as int, font@.len() as int, lines@.map_values(|l: (&[u8], usize)| (l.0@, l.1 as int))),
        forall|k: int| 0 <= k < lines@.len() ==> #[trigger] lines@[k].1 + 14 * lines@[k].0@.len() <= usize::MAX,
    ensures
        final(buf)@ == large_text(old(buf)@, font@, lines@.map_values(|l: (&[u8], usize)| (l.0@, l.1 as int))),
{
    let ghost all = lines@.map_values(|l: (&[u8], usize)| (l.0@, l.1 as int));
    let ghost b0 = buf@;
    let mut k: usize = 0;
    assert(all.subrange(0, all.len() as int) =~= all);
    while k < lines.len()
        invariant
            k <= lines@.len(),
            all == lines@.map_values(|l: (&[u8], usize)| (l.0@, l.1 as int)),
            buf@.len() == b0.len(),
            large_text_ok(b0.len() as int, font@.len() as int, all),
            forall|j: int| 0 <= j < lines@.len() ==> #[trigger] lines@[j].1 + 14 * lines@[j].0@.len() <= usize::MAX,
            large_text(buf@, font@, all.subrange(k as int, all.len() as int)) == large_text(b0, font@, all),
        decreases lines@.len() - k,
    {
        let (s, at) = lines[k];
        let ghost rest = all.subrange(k as int, all.len() as int);
        assert(rest.drop_first() =~= all.subrange(k + 1, all.len() as int));
        assert(rest[0] == all[k as int]);
        assert(large_line_ok(b0.len() as int, font@.len() as int, all[k as int].0, all[k as int].1));
        proof {
            lemma_large_line_len(buf@, font@, s@, at as int);
        }
        draw_large_line(buf, font, s, at);
        k = k + 1;
    }
}

/// 3409: keeps only the two low bits of every pixel (the credits' text colours go).
pub fn clear_text_texture(buf: &mut Vec<u8>)
    ensures
        final(buf)@ == old(buf)@.map_values(|b: u8| b & 0xFC),
{
    let ghost b0 = buf@;
    let mut i: usize = 0;
    while i < buf.len()
        invariant
            i <= buf@.len(),
            buf@.len() == b0.len(),
            forall|j: int| 0 <= j < b0.len() ==> #[trigger] buf@[j] == if j < i { b0[j] & 0xFC } else { b0[j] },
        decreases buf@.len() - i,
    {
        let v = buf[i] & 0xFC;
        buf.set(i, v);
        i = i + 1;
    }
    assert(buf@ =~= b0.map_values(|b: u8| b & 0xFC));
}

/// The palette with the credits' text shown: in each of the first 32 groups of four
/// colours, the last three grey, dark grey and black.
pub open spec fn text_palette(pal: Seq<u8>) -> Seq<u8> {
    Seq::new(
        768,
        |i: int|
            if i < 384 && i % 12 >= 3 {
                let k = i % 12;
                if k < 6 {
                    48u8
                } else if k < 9 {
                    32u8
                } else {
                    0u8
                }
            } else {
                pal[i]
            },
    )
}

/// 33C2: shows the credits' text (see [`text_palette`]).
pub fn set_text_palette(pal: &mut [u8; 768])
    ensures
        final(pal)@ == text_palette(old(pal)@),
{
    let ghost p0 = pal@;
    let mut i: usize = 0;
    while i < 384
        invariant
            i <= 384,
            forall|j: int| 0 <= j < 768 ==> #[trigger] pal@[j] == if j < i { text_palette(p0)[j] } else { p0[j] },
        decreases 384 - i,
    {
        let k = i % 12;
        if k >= 3 {
            pal[i] = if k < 6 {
                48
            } else if k < 9 {
                32
            } else {
                0
            };
        }
        i = i + 1;
    }
    assert(pal@ =~= text_palette(p0));
}

/// The palette with the credits' text hidden: in each of the first 32 groups of four
/// colours, the last three take the first one's colour.
pub open spec fn hidden_text_palette(pal: Seq<u8>) -> Seq<u8> {
    Seq::new(768, |i: int| if i < 384 && i % 12 >= 3 { pal[i - i % 12 + i % 3] } else { pal[i] })
}

/// 33E6: hides the credits' text (see [`hidden_text_palette`]).
pub fn sub_33e6(pal: &mut [u8; 768])
    ensures
        final(pal)@ == hidden_text_palette(old(pal)@),
{
    let ghost p0 = pal@;
    let mut g: usize = 0;
    while g < 32
        invariant
            g <= 32,
            forall|j: int| 0 <= j < 768 ==> #[trigger] pal@[j] == if j < 12 * g { hidden_text_palette(p0)[j] } else { p0[j] },
        decreases 32 - g,
    {
        let base = 12 * g;
        let r = pal[base];
        let gr = pal[base + 1];
        let b = pal[base + 2];
        let mut k: usize = 3;
        while k < 12
            invariant
                3 <= k <= 12,
                g < 32,
                base == 12 * g,
                r == p0[base as int],
                gr == p0[base + 1],
                b == p0[base + 2],
                forall|j: int|
                    0 <= j < 768 ==> #[trigger] pal@[j] == if j < 12 * g || (base <= j < base + k) {
                        hidden_text_palette(p0)[j]
                    } else {
                        p0[j]
                    },
            decreases 12 - k,
        {
            pal[base + k] = if k % 3 == 0 {
                r
            } else if k % 3 == 1 {
                gr
            } else {
                b
            };
            k = k + 1;
        }
        g = g + 1;
    }
    assert(pal@ =~= hidden_text_palette(p0));
}

/// 352C: takes the first `num` colours from `src` and blacks out the next `10 num`
/// colours (bytes `3 num` to `33 num`).
pub fn sub_352c(pal: &mut [u8; 768], src: &[u8], num: usize)
    requires
        33 * num <= 768,
        3 * num <= src@.len(),
    ensures
        final(pal)@ == Seq::new(
            768,
            |i: int|
                if i < 3 * num {
                    src@[i]
                } else if i < 33 * num {
                    0u8
                } else {
                    old(pal)@[i]
                },
        ),
{
    let ghost p0 = pal@;
    let mut i: usize = 0;
    while i < 33 * num
        invariant
            i <= 33 * num <= 768,
            3 * num <= src@.len(),
            forall|j: int|
                0 <= j < 768 ==> #[trigger] pal@[j] == if j < i {
                    if j < 3 * num {
                        src@[j]
                    } else {
                        0u8
                    }
                } else {
                    p0[j]
                },
        decreases 33 * num - i,
    {
        pal[i] = if i < 3 * num {
            src[i]
        } else {
            0
        };
        i = i + 1;
    }
}

/// 30DF (the flashes): the flash picture shown `ticks` after it began: four pictures
/// out and back (0, 1, 2, 3, 2, 1, 0), 32 ticks each; `None` once it is over.
pub fn flash_frame(ticks: u16) -> (r: Option<u16>)
    ensures
        ticks / 32 >= 7 ==> r is None,
        ticks / 32 < 7 ==> r == Some((if ticks / 32 >= 4 { 6 - ticks / 32 } else { (ticks / 32) as int }) as u16),
{
    let ax = ticks / 32;
    if ax >= 7 {
        None
    } else if ax >= 4 {
        Some(6 - ax)
    } else {
        Some(ax)
    }
}

/// 2DED (the video): the frame of the magazine's video `ticks` after it began: a new one
/// every 24 ticks (counted in 8 bits), and the last of `n` frames once the time is up.
pub fn video_frame(ticks: u16, n: u16) -> (r: usize)
    requires
        n >= 1,
        n * 24 < 65536,
    ensures
        r == (if ticks < n * 24 { ((ticks / 24) % 256) as int } else { n - 1 }),
{
    if ticks < n * 24 {
        ((ticks / 24) % 256) as usize
    } else {
        (n - 1) as usize
    }
}

/// 31A6 (the animation): with the frame `shown` last, the frame to show `ticks` after
/// the animation began (a new one every eight ticks, at most the twentieth), or `None`
/// when it is still the same; and whether the animation is over.
pub fn fields_step(ticks: u16, shown: u16) -> (r: (Option<usize>, bool))
    ensures
        ticks / 8 == shown ==> r == (None::<usize>, false),
        ticks / 8 != shown ==> r == (Some((if ticks / 8 < 20 { ticks / 8 } else { 20 }) as usize), ticks / 8 >= 20),
{
    let ax = ticks / 8;
    if ax == shown {
        return (None, false);
    }
    (Some(if ax < 20 {
        ax as usize
    } else {
        20
    }), ax >= 20)
}

/// 3300 (the animation): with the car's last step `prev`, its step `ticks` after the
/// animation began (a new one every 32 ticks, at most 36), or `None` when it is still
/// the same.
pub fn approach_step(ticks: u16, prev: u16) -> (r: Option<u16>)
    ensures
        ticks / 32 == prev ==> r is None,
        ticks / 32 != prev ==> r == Some((if ticks / 32 < 36 { ticks / 32 } else { 36 }) as u16),
{
    let step = ticks / 32;
    if step == prev {
        None
    } else if step < 36 {
        Some(step)
    } else {
        Some(36)
    }
}

/// The scale of the approaching car at step `step` (0 far, 36 near): the source step
/// per screen pixel, in 1/256 pixels.
pub open spec fn car_scale(step: int) -> int {
    256 + (36 - step) * 512
}

/// Where the car's top left pixel lands at step `step`: centred on column 160 and row 64
/// less its scaled height.
pub open spec fn car_at(step: int) -> int {
    let cx = car_scale(step);
    160 - (54624int / cx) / 2 + 20480 - ((38048int / cx) * 10410 / 65536) * 320
}

/// The screen rows the car covers at step `step`.
pub open spec fn car_rows_n(step: int) -> int {
    37759int / car_scale(step) + 1
}

/// The source columns the car takes per row at step `step`.
pub open spec fn car_cols_n(step: int) -> int {
    223int / (car_scale(step) / 256) + 1
}

/// The first `j` pixels of a row of the car from source byte `offset`, every `s`-th
/// source pixel, the first at screen byte `p0`; 0xFF is transparent.
pub open spec fn car_row(buf: Seq<u8>, data: Seq<u8>, p0: int, offset: int, s: int, j: nat) -> Seq<u8>
    decreases j,
{
    if j == 0 {
        buf
    } else {
        let b = car_row(buf, data, p0, offset, s, (j - 1) as nat);
        let px = data[offset + (j - 1) * s];
        if px != 0xFF {
            b.update(p0 + j - 1, px)
        } else {
            b
        }
    }
}

/// The first `r` rows of the car at step `step`: row `k` from source row `k * scale / 256`
/// (of 224 bytes).
pub open spec fn car_rows(buf: Seq<u8>, data: Seq<u8>, step: int, r: nat) -> Seq<u8>
    decreases r,
{
    if r == 0 {
        buf
    } else {
        let k = r - 1;
        let cx = car_scale(step);
        let di = car_at(step);
        car_row(
            car_rows(buf, data, step, (r - 1) as nat),
            data,
            (di / 320 + k) * 320 + di % 320,
            ((k * cx) / 256) * 224,
            cx / 256,
            car_cols_n(step) as nat,
        )
    }
}

/// Whether the car at step `step` lies within a screen of `blen` bytes and its source
/// of `dlen` bytes.
pub open spec fn car_fits(step: int, blen: int, dlen: int) -> bool {
    let cx = car_scale(step);
    let di = car_at(step);
    &&& (di / 320 + car_rows_n(step) - 1) * 320 + di % 320 + car_cols_n(step) - 1 < blen
    &&& (((car_rows_n(step) - 1) * cx) / 256) * 224 + (car_cols_n(step) - 1) * (cx / 256) < dlen
}

/// 333E: draws the approaching car at step `step` (see [`car_rows`]) from its picture
/// `data` (224 bytes per row).
pub fn draw_a_car(buf: &mut Vec<u8>, data: &[u8], step: usize)
    requires
        step <= 36,
        car_fits(step as int, old(buf)@.len() as int, data@.len() as int),
    ensures
        final(buf)@ == car_rows(old(buf)@, data@, step as int, car_rows_n(step as int) as nat),
{
    let ghost b0 = buf@;
    let cx: usize = 256 + (36 - step) * 512;
    let s = cx / 256;
    let a = 54624 / cx;
    let h = (38048 / cx) * 10410 / 65536;
    assert(38048usize / cx <= 148) by (nonlinear_arith)
        requires
            cx >= 256,
    ;
    assert(a <= 213) by (nonlinear_arith)
        requires
            cx >= 256,
            a == 54624usize / cx,
    ;
    let di: usize = 160 - a / 2 + 20480 - h * 320;
    assert(di == car_at(step as int));
    let y0 = di / 320;
    let x0 = di % 320;
    let nr: usize = 37759 / cx + 1;
    let nc: usize = 223 / s + 1;
    assert(nr <= 148 && nc <= 224) by (nonlinear_arith)
        requires
            cx >= 256,
            s >= 1,
            nr == 37759usize / cx + 1,
            nc == 223usize / s + 1,
    ;
    let mut r: usize = 0;
    while r < nr
        invariant
            cx == car_scale(step as int),
            cx >= 256,
            cx <= 18688,
            s == cx / 256,
            s >= 1,
            di == car_at(step as int),
            y0 == di / 320,
            x0 == di % 320,
            nr == car_rows_n(step as int),
            nc == car_cols_n(step as int),
            nr <= 148,
            nc <= 224,
            car_fits(step as int, b0.len() as int, data@.len() as int),
            r <= nr,
            buf@.len() == b0.len(),
            buf@ == car_rows(b0, data@, step as int, r as nat),
        decreases nr - r,
    {
        proof {
            lemma_offset_bound(r as int, nr as int, cx as int);
        }
        assert(r * cx <= 148 * 18688) by (nonlinear_arith)
            requires
                r < 148,
                cx <= 18688,
        ;
        let offset = ((r * cx) / 256) * 224;
        assert(offset <= 2500000);
        let ghost rowbuf = buf@;
        let y = y0 + r;
        let mut j: usize = 0;
        while j < nc
            invariant
                s >= 1,
                s <= 73,
                j <= nc,
                nc == car_cols_n(step as int),
                nc <= 224,
                s == car_scale(step as int) / 256,
                r < nr,
                nr == car_rows_n(step as int),
                y == y0 + r,
                x0 == di % 320,
                y0 == di / 320,
                di == car_at(step as int),
                offset == ((r * car_scale(step as int)) / 256) * 224,
                offset <= 2500000,
                offset <= (((nr - 1) * car_scale(step as int)) / 256) * 224,
                car_fits(step as int, b0.len() as int, data@.len() as int),
                buf@.len() == b0.len(),
                rowbuf.len() == b0.len(),
                buf@ == car_row(rowbuf, data@, (y0 + r) * 320 + x0, offset as int, s as int, j as nat),
            decreases nc - j,
        {
            proof {
                lemma_col_bound(j as int, nc as int, s as int);
            }
            assert(j * s <= 224 * 73) by (nonlinear_arith)
                requires
                    j < 224,
                    s <= 73,
            ;
            let k = offset + j * s;
            let px = data[k];
            if px != 0xFF {
                buf.set(y * 320 + x0 + j, px);
            }
            j = j + 1;
        }
        r = r + 1;
    }
}

/// A source row offset grows with the row.
proof fn lemma_offset_bound(r: int, nr: int, cx: int)
    requires
        0 <= r < nr,
        cx >= 0,
    ensures
        ((r * cx) / 256) * 224 <= (((nr - 1) * cx) / 256) * 224,
        r * cx >= 0,
{
    assert(r * cx <= (nr - 1) * cx) by (nonlinear_arith)
        requires
            r <= nr - 1,
            cx >= 0,
    ;
    assert(r * cx >= 0) by (nonlinear_arith)
        requires
            r >= 0,
            cx >= 0,
    ;
    assert((r * cx) / 256 <= ((nr - 1) * cx) / 256) by (nonlinear_arith)
        requires
            r * cx <= (nr - 1) * cx,
            r * cx >= 0,
    ;
}

/// A column's source step stays within the row's last column's.
proof fn lemma_col_bound(j: int, nc: int, s: int)
    requires
        0 <= j < nc,
        s >= 1,
    ensures
        0 <= j * s <= (nc - 1) * s,
{
    assert(0 <= j * s <= (nc - 1) * s) by (nonlinear_arith)
        requires
            0 <= j <= nc - 1,
            s >= 1,
    ;
}

} // verus!
