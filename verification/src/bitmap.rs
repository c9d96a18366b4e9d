//! Bitmap fonts: their packed resource format, and how their glyphs are drawn.
//!
//! A font resource starts with a table of eight-byte entries: the glyph's data
//! position (in 16-byte units), its width (`repeat`), its height, the colour index that
//! is transparent (`skip`), and a last byte `0xFF` on the last entry. A glyph's data is
//! a stream of four-bit colour indices, high nibble first, row by row. Unpacked, each
//! row is cut into runs of up to eight pixels, each run a mask byte (bit 7 for the
//! first pixel) followed by the drawn pixels' colours.

use vstd::prelude::*;

use crate::archive::le16;
use crate::sprite::{Point, VGA_WIDTH};

verus! {

/// An unpacked glyph.
pub struct BmpItem {
    /// Width in pixels.
    pub repeat: u16,
    pub height: u16,
    /// Runs of a mask byte and the drawn pixels' colours, padded to 16 bytes.
    pub data: Vec<u8>,
}

/// A glyph as a mathematical value: width, height and data.
pub open spec fn item_view(b: BmpItem) -> (u16, u16, Seq<u8>) {
    (b.repeat, b.height, b.data@)
}

/// A font: up to 40 glyphs.
pub type BmpVec = heapless::Vec<BmpItem, 40>;

/// The glyphs of a font, first first.
pub uninterp spec fn bmp_items(v: heapless::Vec<BmpItem, 40>) -> Seq<(u16, u16, Seq<u8>)>;

/// `heapless::Vec::new`: an empty font.
#[verifier::external_body]
pub(crate) fn bmp_vec_new() -> (v: BmpVec)
    ensures
        bmp_items(v) == Seq::<(u16, u16, Seq<u8>)>::empty(),
{
    heapless::Vec::new()
}

/// `heapless::Vec::push`: appends the glyph when fewer than 40 are held (the
/// capacity) and returns `Ok`; otherwise leaves the font as it is and hands the glyph
/// back.
#[verifier::external_body]
pub(crate) fn bmp_vec_push(v: &mut BmpVec, item: BmpItem) -> (r: Result<(), BmpItem>)
    requires
        bmp_items(*old(v)).len() <= 40,
    ensures
        bmp_items(*old(v)).len() < 40 ==> r is Ok && bmp_items(*final(v)) == bmp_items(*old(v)).push(item_view(item)),
        bmp_items(*old(v)).len() == 40 ==> (r matches Err(b) && item_view(b) == item_view(item)) && bmp_items(*final(v))
            == bmp_items(*old(v)),
{
    v.push(item)
}

/// Glyph `i` of a font (`heapless::Vec` dereferences to a slice, indexed here).
#[verifier::external_body]
pub(crate) fn bmp_vec_get(v: &BmpVec, i: usize) -> (r: &BmpItem)
    requires
        i < bmp_items(*v).len(),
    ensures
        item_view(*r) == bmp_items(*v)[i as int],
{
    &v[i]
}

/// Four-bit colour index `n` of a stream, high nibble first.
pub open spec fn nibble(src: Seq<u8>, n: int) -> int {
    if n % 2 == 0 {
        src[n / 2] as int / 16
    } else {
        src[n / 2] as int % 16
    }
}

/// The mask bit of pixel `j` of a run: bit 7 for the first; none past the eighth.
pub open spec fn run_bit(j: int) -> int {
    if j == 0 {
        128
    } else if j == 1 {
        64
    } else if j == 2 {
        32
    } else if j == 3 {
        16
    } else if j == 4 {
        8
    } else if j == 5 {
        4
    } else if j == 6 {
        2
    } else if j == 7 {
        1
    } else {
        0
    }
}

/// The mask of a run of `cx` pixels from nibble `n`: the bits of the pixels that are
/// not `skip`.
pub open spec fn run_mask(src: Seq<u8>, n: int, cx: nat, skip: u8) -> int
    decreases cx,
{
    if cx == 0 {
        0
    } else {
        run_mask(src, n, (cx - 1) as nat, skip) + (if nibble(src, n + cx - 1) != skip {
            run_bit(cx - 1)
        } else {
            0
        })
    }
}

/// The colours of the drawn pixels of a run, each index plus `base` (in 8 bits).
pub open spec fn run_pixels(src: Seq<u8>, n: int, cx: nat, skip: u8, base: u8) -> Seq<u8>
    decreases cx,
{
    if cx == 0 {
        Seq::empty()
    } else {
        let j = n + cx - 1;
        run_pixels(src, n, (cx - 1) as nat, skip, base) + (if nibble(src, j) != skip {
            seq![((nibble(src, j) + base) % 256) as u8]
        } else {
            Seq::empty()
        })
    }
}

/// A run: its mask byte, then its drawn pixels.
pub open spec fn run_bytes(src: Seq<u8>, n: int, cx: nat, skip: u8, base: u8) -> Seq<u8> {
    seq![run_mask(src, n, cx, skip) as u8] + run_pixels(src, n, cx, skip, base)
}

/// Whether the nibbles `n` to `n + cx - 1` lie in the stream.
pub open spec fn nibbles_in(src: Seq<u8>, n: int, cx: int) -> bool {
    cx == 0 || (0 <= n && (n + cx - 1) / 2 < src.len())
}

/// C5B0: unpacks a run of `cx` pixels from the nibble stream `src` at byte `pos` (its
/// high nibble next where `odd`) into `dst` (see [`run_bytes`]), and moves past them.
pub fn sub_c5b0(src: &[u8], pos: &mut usize, dst: &mut Vec<u8>, skip: u8, cx: u16, odd: &mut bool, base: u8)
    requires
        nibbles_in(src@, 2 * *old(pos) + (if *old(odd) { 0int } else { 1 }), cx as int),
        old(dst)@.len() + 1 + cx <= usize::MAX,
        *old(pos) < src@.len() || cx == 0,
    ensures
        ({
            let n = 2 * *old(pos) + (if *old(odd) { 0int } else { 1 });
            &&& final(dst)@ == old(dst)@ + run_bytes(src@, n, cx as nat, skip, base)
            &&& 2 * *final(pos) + (if *final(odd) { 0int } else { 1 }) == n + cx
        }),
{
    let ghost n = 2 * *pos + (if *odd { 0int } else { 1 });
    let ghost d0 = dst@;
    let start = dst.len();
    dst.push(0);
    let mut dh: u8 = 0;
    let mut j: u16 = 0;
    while j < cx
        invariant
            nibbles_in(src@, n, cx as int),
            j <= cx,
            2 * *pos + (if *odd { 0int } else { 1 }) == n + j,
            dst@.len() == d0.len() + 1 + run_pixels(src@, n, j as nat, skip, base).len(),
            start == d0.len(),
            dst@ == (d0 + seq![0u8]) + run_pixels(src@, n, j as nat, skip, base),
            dh == run_mask(src@, n, j as nat, skip),
            0 <= run_mask(src@, n, j as nat, skip),
            j < 8 ==> run_mask(src@, n, j as nat, skip) + 2 * run_bit(j as int) <= 256,
            j >= 8 ==> run_mask(src@, n, j as nat, skip) <= 255,
            run_pixels(src@, n, j as nat, skip, base).len() <= j,
            d0.len() + 1 + cx <= usize::MAX,
        decreases cx - j,
    {
        let b = src[*pos];
        let al: u8 = if *odd {
            b / 16
        } else {
            *pos = *pos + 1;
            b % 16
        };
        *odd = !*odd;
        if al != skip {
            dst.push(al.wrapping_add(base));
        }
        let bit: u8 = if j == 0 {
            128
        } else if j == 1 {
            64
        } else if j == 2 {
            32
        } else if j == 3 {
            16
        } else if j == 4 {
            8
        } else if j == 5 {
            4
        } else if j == 6 {
            2
        } else if j == 7 {
            1
        } else {
            0
        };
        if al != skip {
            dh = dh + bit;
        }
        j = j + 1;
    }
    dst.set(start, dh);
}

/// A row of `dx` pixels from nibble `n`, cut into runs of up to eight (a row of no
/// pixels is one empty run).
pub open spec fn row_bytes(src: Seq<u8>, n: int, dx: nat, skip: u8, base: u8) -> Seq<u8>
    decreases dx,
{
    let cx: nat = if dx < 8 { dx } else { 8 };
    if dx <= 8 {
        run_bytes(src, n, cx, skip, base)
    } else {
        run_bytes(src, n, cx, skip, base) + row_bytes(src, n + cx, (dx - cx) as nat, skip, base)
    }
}

/// `rows` rows of `repeat` pixels from nibble `n`.
pub open spec fn rows_bytes(src: Seq<u8>, n: int, rows: nat, repeat: nat, skip: u8, base: u8) -> Seq<u8>
    decreases rows,
{
    if rows == 0 {
        Seq::empty()
    } else {
        row_bytes(src, n, repeat, skip, base) + rows_bytes(src, n + repeat, (rows - 1) as nat, repeat, skip, base)
    }
}

/// `s` padded with zeros to a multiple of 16 bytes.
pub open spec fn pad16(s: Seq<u8>) -> Seq<u8> {
    if s.len() % 16 > 0 {
        s + Seq::new((16 - s.len() % 16) as nat, |i: int| 0u8)
    } else {
        s
    }
}

/// The data of a glyph of `repeat` by `height` pixels packed in `src`, with
/// transparent colour `skip` and the colours moved by `base`.
pub open spec fn glyph_data(src: Seq<u8>, repeat: u16, height: u16, skip: u8, base: u8) -> Seq<u8> {
    pad16(rows_bytes(src, 0, height as nat, repeat as nat, skip, base))
}

/// One row of a glyph (see [`row_bytes`]).
fn row_exec(src: &[u8], pos: &mut usize, odd: &mut bool, dst: &mut Vec<u8>, repeat: u16, skip: u8, base: u8)
    requires
        nibbles_in(src@, 2 * *old(pos) + (if *old(odd) { 0int } else { 1 }), repeat as int),
        *old(pos) < src@.len() || repeat == 0,
        old(dst)@.len() + 2 * repeat + 2 <= 0x1000_0000,
    ensures
        ({
            let n = 2 * *old(pos) + (if *old(odd) { 0int } else { 1 });
            &&& final(dst)@ == old(dst)@ + row_bytes(src@, n, repeat as nat, skip, base)
            &&& 2 * *final(pos) + (if *final(odd) { 0int } else { 1 }) == n + repeat
        }),
        final(dst)@.len() <= old(dst)@.len() + 2 * repeat + 2,
{
    let ghost n0 = 2 * *pos + (if *odd { 0int } else { 1 });
    let ghost d0 = dst@;
    let mut dx = repeat;
    loop
        invariant_except_break
            dst@ + row_bytes(src@, n0 + (repeat - dx), dx as nat, skip, base) == d0 + row_bytes(
                src@,
                n0,
                repeat as nat,
                skip,
                base,
            ),
            *pos < src@.len() || dx == 0,
            dst@.len() <= d0.len() + 2 * (repeat - dx) + 1,
            dx == repeat ==> dst@.len() == d0.len(),
        invariant
            dx <= repeat,
            nibbles_in(src@, n0, repeat as int),
            2 * *pos + (if *odd { 0int } else { 1 }) == n0 + (repeat - dx),
            d0.len() + 2 * repeat + 2 <= 0x1000_0000,
        ensures
            dst@ == d0 + row_bytes(src@, n0, repeat as nat, skip, base),
            dst@.len() <= d0.len() + 2 * repeat + 2,
            dx == 0,
        decreases dx,
    {
        let cx = if dx < 8 {
            dx
        } else {
            8
        };
        let ghost before = dst@;
        proof {
            run_len_bound(src@, n0 + (repeat - dx), cx as nat, skip, base);
        }
        sub_c5b0(src, pos, dst, skip, cx, odd, base);
        dx = dx - cx;
        if dx == 0 {
            assert(dst@ == d0 + row_bytes(src@, n0, repeat as nat, skip, base));
            break;
        }
    }
}

proof fn run_len_bound(src: Seq<u8>, n: int, cx: nat, skip: u8, base: u8)
    ensures
        run_pixels(src, n, cx, skip, base).len() <= cx,
    decreases cx,
{
    if cx > 0 {
        run_len_bound(src, n, (cx - 1) as nat, skip, base);
    }
}

/// The rows of a glyph extend row by row.
proof fn lemma_rows_append(src: Seq<u8>, n: int, rows: nat, repeat: nat, skip: u8, base: u8)
    ensures
        rows_bytes(src, n, rows + 1, repeat, skip, base) == rows_bytes(src, n, rows, repeat, skip, base)
            + row_bytes(src, n + rows * repeat, repeat, skip, base),
    decreases rows,
{
    if rows > 0 {
        lemma_rows_append(src, n + repeat, (rows - 1) as nat, repeat, skip, base);
        assert(n + repeat + (rows - 1) * repeat == n + rows * repeat) by (nonlinear_arith);
        assert(rows_bytes(src, n, rows + 1, repeat, skip, base) =~= rows_bytes(src, n, rows, repeat, skip, base)
            + row_bytes(src, n + rows * repeat, repeat, skip, base));
    } else {
        assert(rows_bytes(src, n + repeat, 0, repeat, skip, base) =~= Seq::<u8>::empty());
        assert(rows_bytes(src, n, 0, repeat, skip, base) =~= Seq::<u8>::empty());
        assert(rows_bytes(src, n, 1, repeat, skip, base) =~= row_bytes(src, n, repeat, skip, base));
    }
}

/// C557: unpacks a glyph of `repeat` by `height` pixels from `data`, with transparent
/// colour `skip` and the colours moved by `base` (which must fit in a byte).
pub fn sub_c557(data: &[u8], repeat: u16, height: u16, skip: u8, base: u16) -> (r: BmpItem)
    requires
        base < 256,
        nibbles_in(data@, 0, height * repeat),
        height * (2 * repeat + 2) + 16 <= 0x1000_0000,
    ensures
        item_view(r) == (repeat, height, glyph_data(data@, repeat, height, skip, base as u8)),
{
    let b = base as u8;
    let mut buf: Vec<u8> = Vec::new();
    let mut odd = true;
    let mut pos: usize = 0;
    let mut row: u16 = 0;
    while row < height
        invariant
            row <= height,
            nibbles_in(data@, 0, height * repeat),
            height * (2 * repeat + 2) + 16 <= 0x1000_0000,
            2 * pos + (if odd { 0int } else { 1 }) == row * repeat,
            buf@ == rows_bytes(data@, 0, row as nat, repeat as nat, skip, b),
            buf@.len() <= row * (2 * repeat + 2),
        decreases height - row,
    {
        assert(row * repeat + repeat <= height * repeat && (row + 1) * (2 * repeat + 2) <= height * (2 * repeat + 2))
            by (nonlinear_arith)
            requires
                row < height,
        ;
        assert(row * repeat + repeat == (row + 1) * repeat) by (nonlinear_arith);
        assert(row * (2 * repeat + 2) + 2 * repeat + 2 == (row + 1) * (2 * repeat + 2)) by (nonlinear_arith);
        proof {
            lemma_rows_append(data@, 0, row as nat, repeat as nat, skip, b);
        }
        row_exec(data, &mut pos, &mut odd, &mut buf, repeat, skip, b);
        row = row + 1;
    }
    let ghost unpadded = buf@;
    if buf.len() % 16 > 0 {
        let target = buf.len() + 16 - buf.len() % 16;
        while buf.len() < target
            invariant
                target == unpadded.len() + 16 - unpadded.len() % 16,
                unpadded.len() <= buf@.len() <= target,
                buf@ == unpadded + Seq::new((buf@.len() - unpadded.len()) as nat, |i: int| 0u8),
                target <= 0x1000_0000,
            decreases target - buf.len(),
        {
            buf.push(0);
            assert(buf@ =~= unpadded + Seq::new((buf@.len() - unpadded.len()) as nat, |i: int| 0u8));
        }
    }
    assert(buf@ =~= pad16(unpadded));
    BmpItem { repeat, height, data: buf }
}

/// Where the data of font entry `j` starts: its 16-byte unit, times 16 in 16 bits.
pub open spec fn entry_offset(data: Seq<u8>, j: int) -> int {
    (le16(data, 8 * j) * 16) % 65536
}

/// The glyph of font entry `j`.
pub open spec fn entry_glyph(data: Seq<u8>, j: int, base: u8) -> (u16, u16, Seq<u8>) {
    let repeat = le16(data, 8 * j + 2) as u16;
    let height = le16(data, 8 * j + 4) as u16;
    let off = entry_offset(data, j);
    (repeat, height, glyph_data(data.subrange(off, data.len() as int), repeat, height, data[8 * j + 6], base))
}

/// The glyphs of a font resource from entry `j` on, up to the entry marked last.
pub open spec fn font_from(data: Seq<u8>, j: int, base: u8) -> Seq<(u16, u16, Seq<u8>)>
    decreases data.len() / 8 - j,
{
    if j < 0 || j >= data.len() / 8 {
        Seq::empty()
    } else {
        seq![entry_glyph(data, j, base)] + (if data[8 * j + 7] == 0xFF {
            Seq::empty()
        } else {
            font_from(data, j + 1, base)
        })
    }
}

/// Whether entry `j` can be unpacked: its data lies in the resource and is large
/// enough for its glyph (and the glyph fits in memory).
pub open spec fn entry_ok(data: Seq<u8>, j: int) -> bool {
    let repeat = le16(data, 8 * j + 2);
    let height = le16(data, 8 * j + 4);
    let off = entry_offset(data, j);
    &&& off <= data.len()
    &&& nibbles_in(data.subrange(off, data.len() as int), 0, height * repeat)
    &&& height * (2 * repeat + 2) + 16 <= 0x1000_0000
}

/// Whether the entries from `j` on, up to the one marked last, can be unpacked.
pub open spec fn font_ok(data: Seq<u8>, j: int) -> bool
    decreases data.len() / 8 - j,
{
    if j < 0 || j >= data.len() / 8 {
        true
    } else {
        entry_ok(data, j) && (data[8 * j + 7] == 0xFF || font_ok(data, j + 1))
    }
}

/// C505 (after the resource is loaded): the glyphs of font resource `data`, their
/// colours moved by `base` (see [`font_from`]). The font holds at most 40 glyphs.
pub fn bmp_load_and_prepare(data: &[u8], base: u16) -> (r: BmpVec)
    requires
        font_ok(data@, 0),
        data@.len() >= 8 ==> base < 256,
        font_from(data@, 0, base as u8).len() <= 40,
    ensures
        bmp_items(r) == font_from(data@, 0, base as u8),
{
    let mut items = bmp_vec_new();
    let n = data.len() / 8;
    let mut j: usize = 0;
    while j < n
        invariant
            n == data@.len() / 8,
            j <= n,
            data@.len() >= 8 ==> base < 256,
            font_ok(data@, j as int),
            bmp_items(items) + font_from(data@, j as int, base as u8) == font_from(data@, 0, base as u8),
            font_from(data@, 0, base as u8).len() <= 40,
            bmp_items(items).len() == j,
        decreases n - j,
    {
        let c = 8 * j;
        let pos: u16 = (data[c] as u16) + 256 * (data[c + 1] as u16);
        let repeat: u16 = (data[c + 2] as u16) + 256 * (data[c + 3] as u16);
        let height: u16 = (data[c + 4] as u16) + 256 * (data[c + 5] as u16);
        let skip = data[c + 6];
        let off = pos.wrapping_mul(16) as usize;
        assert(off == entry_offset(data@, j as int));
        let sub = vstd::slice::slice_subrange(data, off, data.len());
        let item = sub_c557(sub, repeat, height, skip, base);
        assert(item_view(item) == entry_glyph(data@, j as int, base as u8));
        let _ = bmp_vec_push(&mut items, item);
        if data[c + 7] == 0xFF {
            assert(bmp_items(items) =~= font_from(data@, 0, base as u8));
            return items;
        }
        j = j + 1;
    }
    items
}

/// Whether bit `b` (0 for the first pixel, the mask's bit 7) of mask `m` is set.
pub open spec fn mask_has(m: u8, b: int) -> bool {
    (m as int / run_bit(b)) % 2 == 1
}

/// The pixels of a mask group from bit `b` on: each set bit takes the next colour of
/// `data` (from index `k`) to screen byte `off + b`. Gives the screen and the next
/// data index; `None` where the data runs out or a pixel lies off the buffer.
pub open spec fn group_bits(buf: Seq<u8>, data: Seq<u8>, k: int, off: int, m: u8, b: int) -> Option<(Seq<u8>, int)>
    decreases 8 - b,
{
    if b >= 8 || b < 0 {
        Some((buf, k))
    } else if mask_has(m, b) {
        if k < 0 || k >= data.len() || off + b < 0 || off + b >= buf.len() {
            None
        } else {
            group_bits(buf.update(off + b, data[k]), data, k + 1, off, m, b + 1)
        }
    } else {
        group_bits(buf, data, k, off, m, b + 1)
    }
}

/// `groups` mask groups of a row from data index `k`, the first at screen byte `off`.
pub open spec fn row_groups(buf: Seq<u8>, data: Seq<u8>, k: int, off: int, groups: nat) -> Option<(Seq<u8>, int)>
    decreases groups,
{
    if groups == 0 {
        Some((buf, k))
    } else if k < 0 || k >= data.len() {
        None
    } else {
        match group_bits(buf, data, k + 1, off, data[k], 0) {
            None => None,
            Some(r) => row_groups(r.0, data, r.1, off + 8, (groups - 1) as nat),
        }
    }
}

/// `rows` rows of a glyph from data index `k`, the first at row `y` and column `x`.
pub open spec fn glyph_rows(buf: Seq<u8>, data: Seq<u8>, k: int, x: int, y: int, rows: nat, groups: nat) -> Option<Seq<u8>>
    decreases rows,
{
    if rows == 0 {
        Some(buf)
    } else {
        match row_groups(buf, data, k, y * 320 + x, groups) {
            None => None,
            Some(r) => glyph_rows(r.0, data, r.1, x, y + 1, (rows - 1) as nat, groups),
        }
    }
}

proof fn lemma_group_bits_len(buf: Seq<u8>, data: Seq<u8>, k: int, off: int, m: u8, b: int)
    requires
        group_bits(buf, data, k, off, m, b) is Some,
    ensures
        group_bits(buf, data, k, off, m, b).unwrap().0.len() == buf.len(),
    decreases 8 - b,
{
    if 0 <= b < 8 {
        if mask_has(m, b) {
            lemma_group_bits_len(buf.update(off + b, data[k]), data, k + 1, off, m, b + 1);
        } else {
            lemma_group_bits_len(buf, data, k, off, m, b + 1);
        }
    }
}

proof fn lemma_row_groups_len(buf: Seq<u8>, data: Seq<u8>, k: int, off: int, groups: nat)
    requires
        row_groups(buf, data, k, off, groups) is Some,
    ensures
        row_groups(buf, data, k, off, groups).unwrap().0.len() == buf.len(),
    decreases groups,
{
    if groups > 0 {
        lemma_group_bits_len(buf, data, k + 1, off, data[k], 0);
        let r = group_bits(buf, data, k + 1, off, data[k], 0)->0;
        lemma_row_groups_len(r.0, data, r.1, off + 8, (groups - 1) as nat);
    }
}

proof fn lemma_glyph_rows_len(buf: Seq<u8>, data: Seq<u8>, k: int, x: int, y: int, rows: nat, groups: nat)
    requires
        glyph_rows(buf, data, k, x, y, rows, groups) is Some,
    ensures
        glyph_rows(buf, data, k, x, y, rows, groups)->0.len() == buf.len(),
    decreases rows,
{
    if rows > 0 {
        lemma_row_groups_len(buf, data, k, y * 320 + x, groups);
        let r = row_groups(buf, data, k, y * 320 + x, groups)->0;
        lemma_glyph_rows_len(r.0, data, r.1, x, y + 1, (rows - 1) as nat, groups);
    }
}

/// The screen after glyph `g` is drawn at `pos`: a row of mask groups (one per eight
/// pixels of width) per pixel row.
pub open spec fn glyph_drawn_at(buf: Seq<u8>, g: (u16, u16, Seq<u8>), pos: Point) -> Option<Seq<u8>> {
    glyph_rows(buf, g.2, 0, pos.x as int, pos.y as int, g.1 as nat, (((g.0 + 7) % 65536) / 8) as nat)
}

/// The value of bit `b` of a mask.
fn bit_value(b: usize) -> (r: u8)
    requires
        b < 8,
    ensures
        r == run_bit(b as int),
{
    if b == 0 {
        128
    } else if b == 1 {
        64
    } else if b == 2 {
        32
    } else if b == 3 {
        16
    } else if b == 4 {
        8
    } else if b == 5 {
        4
    } else if b == 6 {
        2
    } else {
        1
    }
}

/// One mask group (see [`group_bits`]); returns the next data index.
fn group_exec(buf: &mut Vec<u8>, data: &Vec<u8>, k: usize, off: usize, m: u8) -> (r: usize)
    requires
        group_bits(old(buf)@, data@, k as int, off as int, m, 0) is Some,
        off + 8 <= usize::MAX,
        k <= data@.len(),
    ensures
        group_bits(old(buf)@, data@, k as int, off as int, m, 0) == Some((final(buf)@, r as int)),
        r <= data@.len(),
        final(buf)@.len() == old(buf)@.len(),
{
    let ghost b0 = buf@;
    let dlen = data.len();
    let mut b: usize = 0;
    let mut kk = k;
    while b < 8
        invariant
            dlen == data@.len(),
            b <= 8,
            kk <= data@.len(),
            buf@.len() == b0.len(),
            off + 8 <= usize::MAX,
            group_bits(buf@, data@, kk as int, off as int, m, b as int) == group_bits(b0, data@, k as int, off as int, m, 0),
            group_bits(b0, data@, k as int, off as int, m, 0) is Some,
        decreases 8 - b,
    {
        let v = bit_value(b);
        if (m / v) % 2 == 1 {
            buf.set(off + b, data[kk]);
            assert(kk < dlen);
            kk = kk + 1;
        }
        b = b + 1;
    }
    kk
}

/// A242: draws glyph `chr` of font `bmp` at `pos` into the screen buffer `buf` (see
/// [`glyph_drawn_at`]).
pub fn bmp_draw(buf: &mut Vec<u8>, chr: u8, pos: Point, bmp: &BmpVec)
    requires
        (chr as int) < bmp_items(*bmp).len(),
        glyph_drawn_at(old(buf)@, bmp_items(*bmp)[chr as int], pos) is Some,
        (pos.y + bmp_items(*bmp)[chr as int].1) * 320 + pos.x + 8 * bmp_items(*bmp)[chr as int].0 + 64 <= usize::MAX,
    ensures
        final(buf)@ == glyph_drawn_at(old(buf)@, bmp_items(*bmp)[chr as int], pos)->0,
{
    let item = bmp_vec_get(bmp, chr as usize);
    let width = (item.repeat.wrapping_add(7) / 8) as usize;
    let height = item.height as usize;
    let ghost g = bmp_items(*bmp)[chr as int];
    let ghost b0 = buf@;
    let mut k: usize = 0;
    let mut y = pos.y;
    while y < pos.y + height
        invariant
            g == item_view(*item),
            width == ((g.0 + 7) % 65536) / 8,
            height == g.1,
            pos.y <= y <= pos.y + height,
            (pos.y + height) * 320 + pos.x + 8 * g.0 + 64 <= usize::MAX,
            k <= item.data@.len(),
            glyph_rows(buf@, item.data@, k as int, pos.x as int, y as int, (pos.y + height - y) as nat, width as nat)
                == glyph_rows(b0, item.data@, 0, pos.x as int, pos.y as int, height as nat, width as nat),
            glyph_rows(b0, item.data@, 0, pos.x as int, pos.y as int, height as nat, width as nat) is Some,
        decreases pos.y + height - y,
    {
        assert(y * 320 + pos.x + 8 * width + 8 <= usize::MAX) by (nonlinear_arith)
            requires
                y < pos.y + height,
                (pos.y + height) * 320 + pos.x + 8 * g.0 + 64 <= usize::MAX,
                width == ((g.0 + 7) % 65536) / 8,
        ;
        let mut off = y * VGA_WIDTH + pos.x;
        let ghost row_start = off;
        let ghost rb = buf@;
        let ghost rk = k;
        let mut grp: usize = 0;
        while grp < width
            invariant
                grp <= width,
                off == row_start + 8 * grp,
                row_start + 8 * width + 8 <= usize::MAX,
                k <= item.data@.len(),
                row_groups(buf@, item.data@, k as int, off as int, (width - grp) as nat) == row_groups(
                    rb,
                    item.data@,
                    rk as int,
                    row_start as int,
                    width as nat,
                ),
                row_groups(rb, item.data@, rk as int, row_start as int, width as nat) is Some,
            decreases width - grp,
        {
            let m = item.data[k];
            let dl = item.data.len();
            assert(k < dl);
            k = group_exec(buf, &item.data, k + 1, off, m);
            off = off + 8;
            grp = grp + 1;
        }
        y = y + 1;
    }
}

/// The glyph of character `chr` (its low seven bits) in the small font: digits 0 to 9,
/// letters (either case) 10 to 35, then `-` 36, `.` 37, the null character 38 and
/// `%` 39; `None` for the others.
pub open spec fn small_glyph(chr: u8) -> Option<u8> {
    let c = chr % 128;
    if c == 0 {
        Some(38)
    } else if c == 37 {
        Some(39)
    } else if c == 45 {
        Some(36)
    } else if c == 46 {
        Some(37)
    } else if 97 <= c <= 122 {
        Some((c - 87) as u8)
    } else if 65 <= c <= 90 {
        Some((c - 55) as u8)
    } else if 48 <= c <= 57 {
        Some((c - 48) as u8)
    } else {
        None
    }
}

/// The screen after character `chr` is drawn at `pos` in the small font `g` (see
/// [`small_glyph`]); unchanged for a character without a glyph.
pub open spec fn char_drawn(buf: Seq<u8>, chr: u8, pos: Point, g: Seq<(u16, u16, Seq<u8>)>) -> Option<Seq<u8>> {
    match small_glyph(chr) {
        None => Some(buf),
        Some(i) => if (i as int) < g.len() {
            glyph_drawn_at(buf, g[i as int], pos)
        } else {
            None
        },
    }
}

/// Drawing a character leaves the screen's length as it is.
pub proof fn lemma_char_drawn_len(buf: Seq<u8>, chr: u8, pos: Point, g: Seq<(u16, u16, Seq<u8>)>)
    requires
        char_drawn(buf, chr, pos, g) is Some,
    ensures
        char_drawn(buf, chr, pos, g)->0.len() == buf.len(),
{
    match small_glyph(chr) {
        None => {},
        Some(i) => {
            let gl = g[i as int];
            lemma_glyph_rows_len(buf, gl.2, 0, pos.x as int, pos.y as int, gl.1 as nat, (((gl.0 + 7) % 65536) / 8) as nat);
        },
    }
}

/// Whether the character can be drawn at `pos` without the screen offsets leaving the
/// machine's range.
pub open spec fn char_fits(chr: u8, pos: Point, g: Seq<(u16, u16, Seq<u8>)>) -> bool {
    match small_glyph(chr) {
        None => true,
        Some(i) => (i as int) < g.len() ==> (pos.y + g[i as int].1) * 320 + pos.x + 8 * g[i as int].0 + 64
            <= usize::MAX,
    }
}

/// A1D6: draws character `chr` at `pos` in the small font `font` (see
/// [`char_drawn`]).
pub fn draw_char_small(buf: &mut Vec<u8>, chr: u8, pos: Point, font: &BmpVec)
    requires
        char_drawn(old(buf)@, chr, pos, bmp_items(*font)) is Some,
        char_fits(chr, pos, bmp_items(*font)),
    ensures
        final(buf)@ == char_drawn(old(buf)@, chr, pos, bmp_items(*font))->0,
{
    let c = chr % 128;
    let g: u8 = if c == 0 {
        38
    } else if c == 37 {
        39
    } else if c == 45 {
        36
    } else if c == 46 {
        37
    } else if 97 <= c && c <= 122 {
        c - 87
    } else if 65 <= c && c <= 90 {
        c - 55
    } else if 48 <= c && c <= 57 {
        c - 48
    } else {
        return;
    };
    bmp_draw(buf, g, pos, font);
}

/// The screen after `text` is drawn from `pos` in the small font, eight pixels per
/// character.
pub open spec fn text_drawn(buf: Seq<u8>, text: Seq<u8>, pos: Point, g: Seq<(u16, u16, Seq<u8>)>) -> Option<Seq<u8>>
    decreases text.len(),
{
    if text.len() == 0 {
        Some(buf)
    } else {
        match char_drawn(buf, text[0], pos, g) {
            None => None,
            Some(b) => text_drawn(b, text.subrange(1, text.len() as int), Point { x: (pos.x + 8) as usize, ..pos }, g),
        }
    }
}

/// Whether each character of `text` from `pos` on fits (see [`char_fits`]).
pub open spec fn text_fits(text: Seq<u8>, pos: Point, g: Seq<(u16, u16, Seq<u8>)>) -> bool {
    forall|i: int| 0 <= i < text.len() ==> #[trigger] char_fits(text[i], Point { x: (pos.x + 8 * i) as usize, ..pos }, g)
}

/// The position of a centred line of `len` characters at row `y`.
pub open spec fn centred(len: int, y: usize) -> Point {
    Point { x: ((320 - len * 8) / 2) as usize, y }
}

/// 8EDE: draws `text` centred at row `y` in the small font (see [`text_drawn`]); at most
/// 40 characters fit on the line.
pub fn print_string(buf: &mut Vec<u8>, text: &[u8], y: usize, font: &BmpVec)
    requires
        text@.len() <= 40,
        text_drawn(old(buf)@, text@, centred(text@.len() as int, y), bmp_items(*font)) is Some,
        text_fits(text@, centred(text@.len() as int, y), bmp_items(*font)),
    ensures
        final(buf)@ == text_drawn(old(buf)@, text@, centred(text@.len() as int, y), bmp_items(*font))->0,
{
    let ghost p0 = centred(text@.len() as int, y);
    let ghost b0 = buf@;
    let mut pos = Point::xy((VGA_WIDTH - text.len() * 8) / 2, y);
    let mut i: usize = 0;
    assert(text@.subrange(0, text@.len() as int) =~= text@);
    while i < text.len()
        invariant
            i <= text@.len() <= 40,
            pos == (Point { x: (p0.x + 8 * i) as usize, ..p0 }),
            p0.x <= 160,
            text_drawn(buf@, text@.subrange(i as int, text@.len() as int), pos, bmp_items(*font)) == text_drawn(
                b0,
                text@,
                p0,
                bmp_items(*font),
            ),
            text_drawn(b0, text@, p0, bmp_items(*font)) is Some,
            text_fits(text@, p0, bmp_items(*font)),
        decreases text@.len() - i,
    {
        assert(text@.subrange(i as int, text@.len() as int)[0] == text@[i as int]);
        assert(text@.subrange(i as int, text@.len() as int).subrange(1, text@.len() - i) =~= text@.subrange(
            i + 1,
            text@.len() as int,
        ));
        assert(char_fits(text@[i as int], Point { x: (p0.x + 8 * i) as usize, ..p0 }, bmp_items(*font)));
        draw_char_small(buf, text[i], pos, font);
        pos.x = pos.x + 8;
        i = i + 1;
    }
}

} // verus!
