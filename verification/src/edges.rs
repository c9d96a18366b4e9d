//! The road edges of each segment, and the objects removed in the two-player mode.

use vstd::prelude::*;

use crate::track::{signed8, with_byte, Gen, TrackGen, TRACK_BUF_LEN};

verus! {

/// Objects that do not bound the road.
pub const EDGE_SKIP: [u8; 15] = [0, 0x88, 0x89, 0x8A, 0x97, 0xEB, 0x82, 0xB8, 0xDA, 0xFC, 0xFD, 0xA9, 0xB0, 0xA0, 0xCD];

/// Whether object kind `b` does not bound the road.
pub open spec fn edge_skip(b: u8) -> bool {
    EDGE_SKIP@.contains(b)
}

/// Whether slot `s` (at bytes `s + 2` and `s + 3`) of record `r` bounds the road.
pub open spec fn bounds(b: Seq<u8>, r: int, s: int) -> bool {
    !edge_skip(b[r * 16 + s + 2])
}

/// The right edge of record `r` before the margin: the least positive position of an
/// object that bounds the road, and at most `dl`.
pub open spec fn right_edge(b: Seq<u8>, r: int, dl: int) -> int {
    let m = |s: int, v: int| if bounds(b, r, s) && b[r * 16 + s + 3] != 0 && b[r * 16 + s + 3] < v {
        b[r * 16 + s + 3] as int
    } else {
        v
    };
    m(0, m(2, m(4, m(6, dl))))
}

/// The left edge of record `r` before the margin: zero where an object that bounds the
/// road stands at position zero, else `cl`.
pub open spec fn left_edge(b: Seq<u8>, r: int, cl: int) -> int {
    let z = |s: int| bounds(b, r, s) && b[r * 16 + s + 3] == 0;
    if z(0) || z(2) || z(4) || z(6) {
        if cl > 0 {
            0
        } else {
            cl
        }
    } else {
        cl
    }
}

/// The first pass of the edges: each record gets its left edge plus eight and its right
/// edge minus eight (in 8 bits), starting from `cl` and `dl`.
pub open spec fn edges_first(g: Gen, cl: int, dl: int) -> Gen {
    Gen {
        buf: Seq::new(
            g.buf.len(),
            |i: int|
                if i % 16 == 14 {
                    ((left_edge(g.buf, i / 16, cl) + 8) % 256) as u8
                } else if i % 16 == 15 {
                    ((right_edge(g.buf, i / 16, dl) + 248) % 256) as u8
                } else {
                    g.buf[i]
                },
        ),
        ..g
    }
}

/// `x` taken modulo 256 into -128 to 127.
pub open spec fn wrap_s8(x: int) -> int {
    (x + 128) % 256 - 128
}

/// The second pass of the edges, from record `r` back to the first: the edges widen
/// by at most one per record toward the start, `cl` and `dl` carried from the record
/// after.
pub open spec fn edges_back(g: Gen, r: int, cl: int, dl: int) -> Gen
    decreases r + 1,
{
    if r < 0 {
        g
    } else {
        let e = edge_back_one(g, r, cl, dl);
        edges_back(e.0, r - 1, e.1, e.2)
    }
}

/// One record of the second pass: the state and the carried edges.
pub open spec fn edge_back_one(g: Gen, r: int, cl: int, dl: int) -> (Gen, int, int) {
    let a = signed8(g.buf[r * 16 + 14] as int);
    let cl2 = if a == cl {
        cl
    } else if a > cl {
        a
    } else {
        wrap_s8(cl - 1)
    };
    let g1 = with_byte(g, r * 16 + 14, (cl2 % 256) as u8);
    let b = signed8(g1.buf[r * 16 + 15] as int);
    let dl2 = if b == dl {
        dl
    } else if b > dl {
        wrap_s8(dl + 1)
    } else {
        b
    };
    (with_byte(g1, r * 16 + 15, (dl2 % 256) as u8), cl2, dl2)
}

/// The road edges of every record for half road width `half` (on the motorway the left
/// edge starts from 2): the first pass, then the second from the last record back.
pub open spec fn edges_spec(g: Gen, half: i16, motorway: bool) -> Gen {
    let dl = (half as int) % 256;
    let cl = if motorway { 2 } else { (65536 - half as int) % 256 };
    edges_back(edges_first(g, cl, dl), 1023, -10, 10)
}

/// Whether object kind `b` does not bound the road (see [`edge_skip`]).
fn is_edge_skip(b: u8) -> (r: bool)
    ensures
        r == edge_skip(b),
{
    let mut k: usize = 0;
    while k < 15
        invariant
            k <= 15,
            forall|j: int| 0 <= j < k ==> EDGE_SKIP@[j] != b,
        decreases 15 - k,
    {
        if EDGE_SKIP[k] == b {
            return true;
        }
        k = k + 1;
    }
    false
}

/// One slot's part in the edges of a record (see [`left_edge`] and [`right_edge`]).
fn slot_edges(buf: &Vec<u8>, r: usize, s: usize, cl: u8, dl: u8) -> (e: (u8, u8))
    requires
        buf@.len() == TRACK_BUF_LEN,
        r < 1024,
        s <= 6,
    ensures
        e.1 == (if bounds(buf@, r as int, s as int) && buf@[r * 16 + s + 3] != 0 && buf@[r * 16 + s + 3] < dl {
            buf@[r * 16 + s + 3]
        } else {
            dl
        }),
        e.0 == (if bounds(buf@, r as int, s as int) && buf@[r * 16 + s + 3] == 0 && cl > 0 {
            0
        } else {
            cl
        }),
{
    let kind = buf[r * 16 + s + 2];
    if is_edge_skip(kind) {
        return (cl, dl);
    }
    let al = buf[r * 16 + s + 3];
    if al > 0 {
        if al < dl {
            (cl, al)
        } else {
            (cl, dl)
        }
    } else if al < cl {
        (al, dl)
    } else {
        (cl, dl)
    }
}

/// BCFE: the road edges (see [`edges_spec`]).
pub fn loc_bcfe(tg: &mut TrackGen, half: i16, motorway: bool)
    requires
        old(tg).buf@.len() == TRACK_BUF_LEN,
    ensures
        final(tg)@ == edges_spec(old(tg)@, half, motorway),
        final(tg).buf@.len() == TRACK_BUF_LEN,
{
    let ghost g0 = tg@;
    let dl0: u8 = ((half as i32 + 65536) % 256) as u8;
    let cl0: u8 = if motorway {
        2
    } else {
        ((65536 - (half as i32)) % 256) as u8
    };
    let ghost first = edges_first(g0, cl0 as int, dl0 as int);
    let mut r: usize = 0;
    while r < 1024
        invariant
            tg.buf@.len() == TRACK_BUF_LEN,
            g0.buf.len() == TRACK_BUF_LEN,
            first == edges_first(g0, cl0 as int, dl0 as int),
            r <= 1024,
            tg@.rng == g0.rng && tg@.game_rng == g0.game_rng && tg@.hi == g0.hi,
            forall|i: int|
                0 <= i < TRACK_BUF_LEN ==> #[trigger] tg.buf@[i] == if i / 16 < r {
                    first.buf[i]
                } else {
                    g0.buf[i]
                },
        decreases 1024 - r,
    {
        assert(forall|i: int| r * 16 <= i < r * 16 + 16 ==> #[trigger] tg.buf@[i] == g0.buf[i]);
        let (c6, d6) = slot_edges(&tg.buf, r, 6, cl0, dl0);
        let (c4, d4) = slot_edges(&tg.buf, r, 4, c6, d6);
        let (c2, d2) = slot_edges(&tg.buf, r, 2, c4, d4);
        let (c0, d0) = slot_edges(&tg.buf, r, 0, c2, d2);
        assert(d0 == right_edge(g0.buf, r as int, dl0 as int));
        assert(c0 == left_edge(g0.buf, r as int, cl0 as int));
        tg.put(r * 16 + 14, c0.wrapping_add(8));
        tg.put(r * 16 + 15, d0.wrapping_sub(8));
        r = r + 1;
    }
    assert(tg.buf@ =~= first.buf);
    let mut cl: i32 = -10;
    let mut dl: i32 = 10;
    let mut k: usize = 1024;
    let ghost gf = tg@;
    assert(tg@ == first);
    while k > 0
        invariant
            tg.buf@.len() == TRACK_BUF_LEN,
            k <= 1024,
            -128 <= cl <= 127,
            -128 <= dl <= 127,
            edges_back(tg@, k - 1, cl as int, dl as int) == edges_back(gf, 1023, -10, 10),
        decreases k,
    {
        let e = edge_back_exec(tg, k - 1, cl, dl);
        cl = e.0;
        dl = e.1;
        k = k - 1;
    }
}

/// One record of the second pass (see [`edge_back_one`]).
fn edge_back_exec(tg: &mut TrackGen, r: usize, cl: i32, dl: i32) -> (e: (i32, i32))
    requires
        old(tg).buf@.len() == TRACK_BUF_LEN,
        r < 1024,
        -128 <= cl <= 127,
        -128 <= dl <= 127,
    ensures
        edge_back_one(old(tg)@, r as int, cl as int, dl as int) == (final(tg)@, e.0 as int, e.1 as int),
        final(tg).buf@.len() == TRACK_BUF_LEN,
        -128 <= e.0 <= 127,
        -128 <= e.1 <= 127,
{
    let ghost g0 = tg@;
    let a = signed_byte(tg.get(r * 16 + 14));
    let cl2: i32 = if a == cl {
        cl
    } else if a > cl {
        a
    } else if cl == -128 {
        127
    } else {
        cl - 1
    };
    assert(cl2 == (if a == cl { cl as int } else if a > cl { a as int } else { wrap_s8(cl - 1) }));
    let c8: u8 = if cl2 < 0 {
        (cl2 + 256) as u8
    } else {
        cl2 as u8
    };
    assert(c8 == (cl2 % 256) as u8);
    tg.put(r * 16 + 14, c8);
    let b = signed_byte(tg.get(r * 16 + 15));
    let dl2: i32 = if b == dl {
        dl
    } else if b > dl {
        if dl == 127 {
            -128
        } else {
            dl + 1
        }
    } else {
        b
    };
    assert(dl2 == (if b == dl { dl as int } else if b > dl { wrap_s8(dl + 1) } else { b as int }));
    let d8: u8 = if dl2 < 0 {
        (dl2 + 256) as u8
    } else {
        dl2 as u8
    };
    assert(d8 == (dl2 % 256) as u8);
    tg.put(r * 16 + 15, d8);
    (cl2, dl2)
}

/// A signed byte's value.
fn signed_byte(b: u8) -> (r: i32)
    ensures
        r == signed8(b as int),
        -128 <= r <= 127,
{
    if b >= 128 {
        b as i32 - 256
    } else {
        b as i32
    }
}

/// Objects that stay in the two-player mode.
pub const TWO_PLAYER_KEEP: [u8; 12] = [0x80, 0x70, 0x82, 0xA0, 0xDA, 0xB8, 0xA5, 0x71, 0xBD, 0x74, 0xDB, 0xDC];

/// The position word of an object at position byte `ah`: the byte, and above it the
/// byte doubled (less 255 where the byte is negative), read as a signed word.
pub open spec fn object_word(ah: u8) -> int {
    let hb = ((2 * ah) % 256 - (if ah >= 128 { 255int } else { 0 }) + 256) % 256;
    let w = ah + 256 * hb;
    if w >= 32768 {
        w - 65536
    } else {
        w
    }
}

/// BE01's result for the object `al` at position `ah`, with `bp` zero for the first
/// object of the record: an object that does not stay in the two-player mode and lies
/// within `cx` to `dx` (exclusive) on the road is removed, except the first; an empty
/// slot changes nothing; otherwise the object stays and the later ones count as not
/// first.
pub open spec fn be01_spec(al: u8, ah: u8, bp: u16, cx: i16, dx: i16) -> (u8, u8, u16) {
    if al == 0 {
        (al, ah, bp)
    } else if !TWO_PLAYER_KEEP@.contains(al) && cx <= object_word(ah) < dx && bp != 0 {
        (0, 0, bp)
    } else {
        (al, ah, 1)
    }
}

/// BE01: one object of a record in the two-player mode (see [`be01_spec`]).
pub fn sub_be01(al: u8, ah: u8, bp: u16, cx: i16, dx: i16) -> (r: (u8, u8, u16))
    ensures
        r == be01_spec(al, ah, bp, cx, dx),
{
    if al == 0 {
        return (al, ah, bp);
    }
    let mut keep = false;
    let mut k: usize = 0;
    while k < 12
        invariant
            k <= 12,
            keep == (exists|j: int| 0 <= j < k && TWO_PLAYER_KEEP@[j] == al),
        decreases 12 - k,
    {
        if TWO_PLAYER_KEEP[k] == al {
            keep = true;
        }
        k = k + 1;
    }
    assert(keep == TWO_PLAYER_KEEP@.contains(al));
    if !keep {
        let twice: u32 = (2 * (ah as u32)) % 256;
        let hb: u32 = (twice + 256 - (if ah >= 128 { 255u32 } else { 0 })) % 256;
        let w: u32 = ah as u32 + 256 * hb;
        let bx: i32 = if w >= 32768 {
            w as i32 - 65536
        } else {
            w as i32
        };
        assert(bx == object_word(ah));
        if cx as i32 <= bx && bx < dx as i32 && bp != 0 {
            return (0, 0, bp);
        }
    }
    (al, ah, 1)
}

/// The objects of record `r` from slot `k` on in the two-player mode.
pub open spec fn two_player_slots(g: Gen, r: int, k: int, bp: u16, cx: i16, dx: i16) -> Gen
    decreases 4 - k,
{
    if k >= 4 {
        g
    } else {
        let i = r * 16 + 2 + 2 * k;
        let t = be01_spec(g.buf[i], g.buf[i + 1], bp, cx, dx);
        two_player_slots(with_byte(with_byte(g, i, t.0), i + 1, t.1), r, k + 1, t.2, cx, dx)
    }
}

/// The records from `r` on in the two-player mode.
pub open spec fn two_player_records(g: Gen, r: int, cx: i16, dx: i16) -> Gen
    decreases 1024 - r,
{
    if r >= 1024 {
        g
    } else {
        two_player_records(two_player_slots(g, r, 0, 0, cx, dx), r + 1, cx, dx)
    }
}

/// The objects removed in the two-player mode for half road width `half`: on every
/// record (see [`be01_spec`]), within `half + 1` to `-half`; nothing in the
/// one-player mode.
pub open spec fn two_player_spec(g: Gen, two_players: bool, half: i16) -> Gen {
    if !two_players {
        g
    } else {
        two_player_records(
            g,
            0,
            (((half as int) + 1 + 32768) % 65536 - 32768) as i16,
            ((32768 - (half as int)) % 65536 - 32768) as i16,
        )
    }
}

/// BDBC: removes objects in the two-player mode (see [`two_player_spec`]).
pub fn sub_bdbc(tg: &mut TrackGen, two_players: bool, half: i16)
    requires
        old(tg).buf@.len() == TRACK_BUF_LEN,
    ensures
        final(tg)@ == two_player_spec(old(tg)@, two_players, half),
        final(tg).buf@.len() == TRACK_BUF_LEN,
{
    if !two_players {
        return;
    }
    let cx: i16 = half.wrapping_add(1);
    let dx: i16 = 0i16.wrapping_sub(half);
    assert(cx == (((half as int) + 1 + 32768) % 65536 - 32768) as i16);
    assert(dx == ((32768 - (half as int)) % 65536 - 32768) as i16);
    let ghost g0 = tg@;
    let mut r: usize = 0;
    while r < 1024
        invariant
            tg.buf@.len() == TRACK_BUF_LEN,
            r <= 1024,
            two_player_records(tg@, r as int, cx, dx) == two_player_records(g0, 0, cx, dx),
        decreases 1024 - r,
    {
        let ghost gr = tg@;
        let mut bp: u16 = 0;
        let mut k: usize = 0;
        while k < 4
            invariant
                tg.buf@.len() == TRACK_BUF_LEN,
                r < 1024,
                k <= 4,
                two_player_slots(tg@, r as int, k as int, bp, cx, dx) == two_player_slots(gr, r as int, 0, 0, cx, dx),
            decreases 4 - k,
        {
            let i = r * 16 + 2 + 2 * k;
            let (al, ah, bb) = sub_be01(tg.get(i), tg.get(i + 1), bp, cx, dx);
            tg.put(i, al);
            tg.put(i + 1, ah);
            bp = bb;
            k = k + 1;
        }
        r = r + 1;
    }
}

} // verus!
