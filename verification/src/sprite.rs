//! Positions and sizes on the 320x200 screen, and drawing sprites and characters into
//! the screen buffer.

use vstd::prelude::*;

verus! {

/// Width of the screen in pixels (bytes per row of the screen buffer).
pub const VGA_WIDTH: usize = 320;

/// Height of the screen in pixels.
pub const VGA_HEIGHT: usize = 200;

/// Size of the screen buffer.
pub const VGA_SIZE: usize = 64000;

/// A position on the screen.
#[derive(Clone, Copy, Debug, PartialEq, Eq, Structural)]
pub struct Point {
    pub x: usize,
    pub y: usize,
}

impl Point {
    /// The top left corner.
    pub fn start() -> (r: Self)
        ensures
            r.x == 0 && r.y == 0,
    {
        Point { x: 0, y: 0 }
    }

    /// The point `(x, y)`.
    pub fn xy(x: usize, y: usize) -> (r: Self)
        ensures
            r.x == x && r.y == y,
    {
        Point { x, y }
    }

    /// Index of the point in the screen buffer.
    pub open spec fn spec_index(&self) -> int {
        self.y * 320 + self.x
    }

    /// Index of the point in the screen buffer.
    pub fn index(&self) -> (r: usize)
        requires
            self.y * 320 + self.x <= usize::MAX,
        ensures
            r == self.y * 320 + self.x,
    {
        self.y * VGA_WIDTH + self.x
    }
}

impl From<(usize, usize)> for Point {
    /// The point whose coordinates are the pair's `(x, y)`.
    fn from(p: (usize, usize)) -> (r: Self)
        ensures
            r.x == p.0 && r.y == p.1,
    {
        Point::xy(p.0, p.1)
    }
}

impl vstd::std_specs::convert::FromSpecImpl<(usize, usize)> for Point {
    open spec fn obeys_from_spec() -> bool {
        true
    }

    open spec fn from_spec(p: (usize, usize)) -> Self {
        Point { x: p.0, y: p.1 }
    }
}

/// A width and a height in pixels.
#[derive(Clone, Copy, Debug, PartialEq, Eq, Structural)]
pub struct Size {
    pub width: usize,
    pub height: usize,
}

impl Size {
    /// The whole screen: 320x200.
    pub fn full() -> (r: Self)
        ensures
            r.width == 320 && r.height == 200,
    {
        Size { width: 320, height: 200 }
    }

    /// The size `width` x `height`.
    pub fn wh(width: usize, height: usize) -> (r: Self)
        ensures
            r.width == width && r.height == height,
    {
        Size { width, height }
    }

    /// Number of pixels.
    pub fn size(&self) -> (r: usize)
        requires
            self.width * self.height <= usize::MAX,
        ensures
            r == self.width * self.height,
    {
        self.width * self.height
    }
}

/// `s` with the bytes from `start` on replaced by `row`.
pub open spec fn blit_row(s: Seq<u8>, start: int, row: Seq<u8>) -> Seq<u8> {
    Seq::new(s.len(), |k: int| if start <= k < start + row.len() { row[k - start] } else { s[k] })
}

/// `s` with `row` OR-ed into the bytes from `start` on.
pub open spec fn or_row(s: Seq<u8>, start: int, row: Seq<u8>) -> Seq<u8> {
    Seq::new(
        s.len(),
        |k: int| if start <= k < start + row.len() { s[k] | row[k - start] } else { s[k] },
    )
}

/// The number of rows a sprite puts on the screen: its height, but no more than the
/// screen rows left from `start` and the whole rows of `width` bytes in its data.
pub open spec fn sprite_rows(buf_len: int, start: int, data_len: int, width: int, height: int) -> int {
    let a = (buf_len - start) / 320;
    let b = data_len / width;
    let m = if a < b {
        a
    } else {
        b
    };
    if height < m {
        height
    } else {
        m
    }
}

/// The screen after the first `r` rows of a sprite of `width` bytes per row from `data`
/// have been copied to the rows from `start` on.
pub open spec fn sprite_drawn(s: Seq<u8>, data: Seq<u8>, start: int, width: int, r: nat) -> Seq<u8>
    decreases r,
{
    if r == 0 {
        s
    } else {
        let p = sprite_drawn(s, data, start, width, (r - 1) as nat);
        blit_row(p, start + 320 * (r - 1), data.subrange(width * (r - 1), width * r))
    }
}

/// The screen after the first `r` rows of a character have been OR-ed onto it.
pub open spec fn glyph_drawn(s: Seq<u8>, data: Seq<u8>, start: int, width: int, r: nat) -> Seq<u8>
    decreases r,
{
    if r == 0 {
        s
    } else {
        let p = glyph_drawn(s, data, start, width, (r - 1) as nat);
        or_row(p, start + 320 * (r - 1), data.subrange(width * (r - 1), width * r))
    }
}

/// Drawing a sprite leaves the screen's length as it is.
pub proof fn lemma_sprite_drawn_len(s: Seq<u8>, data: Seq<u8>, start: int, width: int, r: nat)
    ensures
        sprite_drawn(s, data, start, width, r).len() == s.len(),
    decreases r,
{
    if r > 0 {
        lemma_sprite_drawn_len(s, data, start, width, (r - 1) as nat);
    }
}

/// Drawing a character leaves the screen's length as it is.
pub proof fn lemma_glyph_drawn_len(s: Seq<u8>, data: Seq<u8>, start: int, width: int, r: nat)
    ensures
        glyph_drawn(s, data, start, width, r).len() == s.len(),
    decreases r,
{
    if r > 0 {
        lemma_glyph_drawn_len(s, data, start, width, (r - 1) as nat);
    }
}

proof fn lemma_row_fits(buf_len: int, start: int, data_len: int, width: int, height: int, r: int)
    requires
        0 <= start <= buf_len,
        data_len >= 0,
        width >= 1,
        0 <= r < sprite_rows(buf_len, start, data_len, width, height),
    ensures
        start + 320 * (r + 1) <= buf_len,
        width * (r + 1) <= data_len,
        width * r + width <= data_len,
        0 <= width * r,
{
    assert(width * r + width == width * (r + 1)) by (nonlinear_arith);
    let a = (buf_len - start) / 320;
    let b = data_len / width;
    assert(r + 1 <= a);
    assert(r + 1 <= b);
    assert(320 * (r + 1) <= 320 * a) by (nonlinear_arith)
        requires
            r + 1 <= a,
    ;
    assert(320 * a <= buf_len - start) by (nonlinear_arith)
        requires
            a == (buf_len - start) / 320,
            buf_len - start >= 0,
    ;
    assert(width * (r + 1) <= width * b) by (nonlinear_arith)
        requires
            r + 1 <= b,
            width >= 1,
    ;
    assert(width * b <= data_len) by (nonlinear_arith)
        requires
            b == data_len / width,
            width >= 1,
            data_len >= 0,
    ;
    assert(0 <= width * r) by (nonlinear_arith)
        requires
            width >= 1,
            r >= 0,
    ;
}

/// Copies `row` into `buf` from `start` on.
fn copy_row(buf: &mut Vec<u8>, start: usize, row: &[u8], from: usize, len: usize)
    requires
        start + len <= old(buf).len(),
        from + len <= row.len(),
    ensures
        final(buf)@ == blit_row(old(buf)@, start as int, row@.subrange(from as int, from + len)),
{
    let mut c: usize = 0;
    while c < len
        invariant
            c <= len,
            start + len <= buf.len(),
            from + len <= row.len(),
            buf@.len() == old(buf)@.len(),
            buf@ == blit_row(old(buf)@, start as int, row@.subrange(from as int, from + c)),
        decreases len - c,
    {
        buf.set(start + c, row[from + c]);
        c = c + 1;
        assert(buf@ =~= blit_row(old(buf)@, start as int, row@.subrange(from as int, from + c)));
    }
}

/// ORs `row` into `buf` from `start` on.
fn or_into_row(buf: &mut Vec<u8>, start: usize, row: &[u8], from: usize, len: usize)
    requires
        start + len <= old(buf).len(),
        from + len <= row.len(),
    ensures
        final(buf)@ == or_row(old(buf)@, start as int, row@.subrange(from as int, from + len)),
{
    let mut c: usize = 0;
    while c < len
        invariant
            c <= len,
            start + len <= buf.len(),
            from + len <= row.len(),
            buf@.len() == old(buf)@.len(),
            buf@ == or_row(old(buf)@, start as int, row@.subrange(from as int, from + c)),
        decreases len - c,
    {
        let v = buf[start + c] | row[from + c];
        buf.set(start + c, v);
        c = c + 1;
        assert(buf@ =~= or_row(old(buf)@, start as int, row@.subrange(from as int, from + c)));
    }
}

/// C047: draws a sprite of `size` from `data` with its top left corner at `pos`: row
/// after row, as long as there are screen rows and whole data rows left.
pub fn draw_sprite(buf: &mut Vec<u8>, data: &[u8], size: Size, pos: Point)
    requires
        pos.y * 320 + pos.x <= old(buf).len(),
        size.width >= 1,
        sprite_rows(old(buf)@.len() as int, pos.spec_index(), data@.len() as int, size.width as int, size.height as int) > 0
            ==> size.width <= 320,
    ensures
        final(buf)@ == sprite_drawn(
            old(buf)@,
            data@,
            pos.spec_index(),
            size.width as int,
            sprite_rows(old(buf)@.len() as int, pos.spec_index(), data@.len() as int, size.width as int, size.height as int) as nat,
        ),
{
    let start = pos.index();
    let a = (buf.len() - start) / VGA_WIDTH;
    let b = data.len() / size.width;
    let m = if a < b {
        a
    } else {
        b
    };
    let rows = if size.height < m {
        size.height
    } else {
        m
    };
    let ghost s0 = buf@;
    let mut r: usize = 0;
    while r < rows
        invariant
            r <= rows,
            rows == sprite_rows(s0.len() as int, start as int, data@.len() as int, size.width as int, size.height as int),
            start <= s0.len(),
            size.width >= 1,
            rows > 0 ==> size.width <= 320,
            buf@.len() == s0.len(),
            buf.len() == s0.len(),
            data@.len() == data.len(),
            buf@ == sprite_drawn(s0, data@, start as int, size.width as int, r as nat),
        decreases rows - r,
    {
        proof {
            lemma_row_fits(s0.len() as int, start as int, data@.len() as int, size.width as int, size.height as int, r as int);
        }
        copy_row(buf, start + VGA_WIDTH * r, data, size.width * r, size.width);
        r = r + 1;
        assert(data@.subrange(size.width * (r - 1), size.width * (r - 1) + size.width) =~= data@.subrange(
            size.width * (r - 1),
            size.width * r,
        )) by {
            assert(size.width * (r - 1) + size.width == size.width * r) by (nonlinear_arith);
        }
    }
}

/// C076: ORs character `chr` of `font` (characters of `size`, one after the other) onto
/// the screen from index `skip` on, row after row, as long as there are screen rows and
/// whole font rows left.
pub fn draw_char(buf: &mut Vec<u8>, chr: u8, font: &[u8], size: Size, skip: usize)
    requires
        chr * size.width <= usize::MAX,
        chr * size.width * size.height <= font.len(),
        skip <= old(buf).len(),
        size.width >= 1,
        sprite_rows(old(buf)@.len() as int, skip as int, font@.len() - chr * size.width * size.height, size.width as int, size.height as int) > 0
            ==> size.width <= 320,
    ensures
        final(buf)@ == glyph_drawn(
            old(buf)@,
            font@.subrange(chr * size.width * size.height, font@.len() as int),
            skip as int,
            size.width as int,
            sprite_rows(old(buf)@.len() as int, skip as int, font@.len() - chr * size.width * size.height, size.width as int, size.height as int) as nat,
        ),
{
    assert(chr * size.width * size.height <= usize::MAX);
    let base = (chr as usize) * size.width * size.height;
    let ghost glyph = font@.subrange(base as int, font@.len() as int);
    let a = (buf.len() - skip) / VGA_WIDTH;
    let b = (font.len() - base) / size.width;
    let m = if a < b {
        a
    } else {
        b
    };
    let rows = if size.height < m {
        size.height
    } else {
        m
    };
    let ghost s0 = buf@;
    let mut r: usize = 0;
    while r < rows
        invariant
            r <= rows,
            base <= font@.len(),
            glyph == font@.subrange(base as int, font@.len() as int),
            rows == sprite_rows(s0.len() as int, skip as int, glyph.len() as int, size.width as int, size.height as int),
            skip <= s0.len(),
            size.width >= 1,
            rows > 0 ==> size.width <= 320,
            buf@.len() == s0.len(),
            buf.len() == s0.len(),
            font@.len() == font.len(),
            buf@ == glyph_drawn(s0, glyph, skip as int, size.width as int, r as nat),
        decreases rows - r,
    {
        proof {
            lemma_row_fits(s0.len() as int, skip as int, glyph.len() as int, size.width as int, size.height as int, r as int);
        }
        or_into_row(buf, skip + VGA_WIDTH * r, font, base + size.width * r, size.width);
        r = r + 1;
        assert(font@.subrange(base + size.width * (r - 1), base + size.width * (r - 1) + size.width) =~= glyph.subrange(
            size.width * (r - 1),
            size.width * r,
        )) by {
            assert(size.width * (r - 1) + size.width == size.width * r) by (nonlinear_arith);
        }
    }
}

} // verus!
