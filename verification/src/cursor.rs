//! The mouse pointer of the menus: drawn into the screen buffer before the buffer is
//! shown, the pixels under it saved, and put back afterwards.

use vstd::prelude::*;

verus! {

/// The pointer's shape, eight pixels by eleven rows: 0 clear, 1 border, 2 fill.
pub const ARR176_FE2: [u8; 88] = [
    1, 1, 0, 0, 0, 0, 0, 0, 1, 2, 1, 0, 0, 0, 0, 0, 1, 2, 2, 1, 0, 0, 0, 0, 1, 2, 2, 2, 1, 0, 0, 0,
    1, 2, 2, 2, 2, 1, 0, 0, 1, 2, 2, 2, 2, 2, 1, 0, 1, 1, 1, 2, 1, 1, 1, 0, 0, 0, 1, 2, 1, 0, 0, 0,
    0, 0, 0, 1, 2, 1, 0, 0, 0, 0, 0, 1, 2, 1, 0, 0, 0, 0, 0, 1, 1, 1, 0, 0,
];

/// The pointer: where its top left pixel lies in the screen buffer, how many rows of
/// the screen lie below it, and the pixels it covers.
pub struct Cursor {
    pub at: usize,
    pub rows: u16,
    pub saved: [u8; 88],
}

/// The rows of the pointer that are drawn into a buffer of `len` bytes: up to eleven,
/// no more than the screen rows below it, and each within the buffer.
pub open spec fn cursor_rows(at: int, rows: int, len: int) -> int {
    let lim = if rows < 11 { rows } else { 11 };
    if at + 8 > len {
        0
    } else if lim < (len - at - 8) / 320 + 1 {
        lim
    } else {
        (len - at - 8) / 320 + 1
    }
}

/// The shape index of buffer byte `i` under a pointer at `at` with `n` rows drawn, if
/// it lies under it.
pub open spec fn under(at: int, n: int, i: int) -> Option<int> {
    if i >= at && (i - at) % 320 < 8 && (i - at) / 320 < n {
        Some(8 * ((i - at) / 320) + (i - at) % 320)
    } else {
        None
    }
}

/// A byte under the pointer is the one of its shape index.
pub proof fn lemma_under(at: int, n: int, i: int)
    requires
        under(at, n, i) is Some,
    ensures
        i == at + (under(at, n, i)->0 / 8) * 320 + under(at, n, i)->0 % 8,
        0 <= under(at, n, i)->0 < 8 * n,
{
    let d = i - at;
    let k = 8 * (d / 320) + d % 320;
    assert(d == 320 * (d / 320) + d % 320);
    assert(k / 8 == d / 320 && k % 8 == d % 320) by (nonlinear_arith)
        requires
            k == 8 * (d / 320) + d % 320,
            0 <= d % 320 < 8,
            d >= 0,
    ;
}

/// The byte of shape index `k` is under the pointer at that index.
pub proof fn lemma_under_of(at: int, n: int, k: int)
    requires
        0 <= k < 8 * n,
        at >= 0,
    ensures
        under(at, n, at + (k / 8) * 320 + k % 8) == Some(k),
{
    let i = at + (k / 8) * 320 + k % 8;
    let d = i - at;
    assert(d / 320 == k / 8 && d % 320 == k % 8) by (nonlinear_arith)
        requires
            d == (k / 8) * 320 + k % 8,
            0 <= k % 8 < 8,
            k >= 0,
    ;
    assert(8 * (k / 8) + k % 8 == k);
}

/// The buffer with the pointer drawn: border black, fill white.
pub open spec fn cursor_drawn(buf: Seq<u8>, at: int, n: int) -> Seq<u8> {
    Seq::new(
        buf.len(),
        |i: int|
            match under(at, n, i) {
                Some(k) => if ARR176_FE2@[k] == 1 {
                    0u8
                } else if ARR176_FE2@[k] == 2 {
                    255u8
                } else {
                    buf[i]
                },
                None => buf[i],
            },
    )
}

/// The pixels saved under the pointer.
pub open spec fn cursor_saved(buf: Seq<u8>, saved: Seq<u8>, at: int, n: int) -> Seq<u8> {
    Seq::new(
        88,
        |k: int|
            if k < 8 * n && ARR176_FE2@[k] != 0 {
                buf[at + (k / 8) * 320 + k % 8]
            } else {
                saved[k]
            },
    )
}

/// The buffer with the saved pixels put back under the pointer.
pub open spec fn cursor_restored(buf: Seq<u8>, saved: Seq<u8>, at: int, n: int) -> Seq<u8> {
    Seq::new(
        buf.len(),
        |i: int|
            match under(at, n, i) {
                Some(k) => if ARR176_FE2@[k] != 0 {
                    saved[k]
                } else {
                    buf[i]
                },
                None => buf[i],
            },
    )
}

/// The pointer for the mouse at `(mx, my)` (the horizontal position in half
/// pixels): its position, kept on the screen.
pub fn place_cursor(mx: u16, my: u16, saved: [u8; 88]) -> (c: Cursor)
    ensures
        c.at == (if my < 200 { my as int } else { 200 }) * 320 + (if mx / 2 < 312 { mx / 2 } else { 312 }),
        c.rows == (if my < 200 { 200 - my } else { 0 }),
        c.saved == saved,
{
    let x = if mx / 2 < 312 {
        (mx / 2) as usize
    } else {
        312
    };
    let y = if my < 200 {
        my as usize
    } else {
        200
    };
    Cursor { at: y * 320 + x, rows: if my < 200 { 200 - my } else { 0 }, saved }
}

/// The rows drawn (see [`cursor_rows`]).
fn rows_drawn(at: usize, rows: u16, len: usize) -> (n: usize)
    ensures
        n == cursor_rows(at as int, rows as int, len as int),
        n <= 11,
{
    let lim: usize = if rows < 11 {
        rows as usize
    } else {
        11
    };
    if at > len || len - at < 8 {
        0
    } else if lim < (len - at - 8) / 320 + 1 {
        lim
    } else {
        (len - at - 8) / 320 + 1
    }
}

/// 3802: draws the pointer into the screen buffer and saves the pixels under it.
pub fn sub_3802(buf: &mut Vec<u8>, c: &mut Cursor)
    requires
        old(c).at + 11 * 320 + 8 <= usize::MAX,
    ensures
        final(buf)@ == cursor_drawn(
            old(buf)@,
            old(c).at as int,
            cursor_rows(old(c).at as int, old(c).rows as int, old(buf)@.len() as int),
        ),
        final(c).saved@ == cursor_saved(
            old(buf)@,
            old(c).saved@,
            old(c).at as int,
            cursor_rows(old(c).at as int, old(c).rows as int, old(buf)@.len() as int),
        ),
        final(c).at == old(c).at,
        final(c).rows == old(c).rows,
{
    let ghost b0 = buf@;
    let ghost s0 = c.saved@;
    let n = rows_drawn(c.at, c.rows, buf.len());
    let mut k: usize = 0;
    while k < 8 * n
        invariant
            n == cursor_rows(c.at as int, c.rows as int, b0.len() as int),
            n <= 11,
            k <= 8 * n,
            c.at + 11 * 320 + 8 <= usize::MAX,
            buf@.len() == b0.len(),
            c.at == old(c).at && c.rows == old(c).rows,
            s0 == old(c).saved@,
            forall|i: int|
                0 <= i < b0.len() ==> #[trigger] buf@[i] == match under(c.at as int, n as int, i) {
                    Some(q) => if q < k && ARR176_FE2@[q] == 1 {
                        0u8
                    } else if q < k && ARR176_FE2@[q] == 2 {
                        255u8
                    } else {
                        b0[i]
                    },
                    None => b0[i],
                },
            forall|q: int|
                0 <= q < 88 ==> #[trigger] c.saved@[q] == if q < k && ARR176_FE2@[q] != 0 {
                    b0[c.at + (q / 8) * 320 + q % 8]
                } else {
                    s0[q]
                },
        decreases 8 * n - k,
    {
        let p = c.at + (k / 8) * 320 + k % 8;
        proof {
            lemma_under_of(c.at as int, n as int, k as int);
        }
        let ghost bb = buf@;
        let al = ARR176_FE2[k];
        if al != 0 {
            c.saved[k] = buf[p];
            buf.set(p, if al == 1 { 0 } else { 255 });
        }
        proof {
            assert forall|i: int| 0 <= i < b0.len() implies #[trigger] buf@[i] == match under(c.at as int, n as int, i) {
                Some(q) => if q < k + 1 && ARR176_FE2@[q] == 1 {
                    0u8
                } else if q < k + 1 && ARR176_FE2@[q] == 2 {
                    255u8
                } else {
                    b0[i]
                },
                None => b0[i],
            } by {
                if under(c.at as int, n as int, i) is Some {
                    lemma_under(c.at as int, n as int, i);
                }
                assert(bb[i] == match under(c.at as int, n as int, i) {
                    Some(q) => if q < k && ARR176_FE2@[q] == 1 {
                        0u8
                    } else if q < k && ARR176_FE2@[q] == 2 {
                        255u8
                    } else {
                        b0[i]
                    },
                    None => b0[i],
                });
            }
        }
        k = k + 1;
    }
    assert(buf@ =~= cursor_drawn(b0, c.at as int, n as int));
    assert(c.saved@ =~= cursor_saved(b0, s0, c.at as int, n as int));
}

/// 3834: puts the saved pixels back under the pointer.
pub fn sub_3834(buf: &mut Vec<u8>, c: &Cursor)
    requires
        c.at + 11 * 320 + 8 <= usize::MAX,
    ensures
        final(buf)@ == cursor_restored(
            old(buf)@,
            c.saved@,
            c.at as int,
            cursor_rows(c.at as int, c.rows as int, old(buf)@.len() as int),
        ),
{
    let ghost b0 = buf@;
    let n = rows_drawn(c.at, c.rows, buf.len());
    let mut k: usize = 0;
    while k < 8 * n
        invariant
            n == cursor_rows(c.at as int, c.rows as int, b0.len() as int),
            n <= 11,
            k <= 8 * n,
            c.at + 11 * 320 + 8 <= usize::MAX,
            buf@.len() == b0.len(),
            forall|i: int|
                0 <= i < b0.len() ==> #[trigger] buf@[i] == match under(c.at as int, n as int, i) {
                    Some(q) => if q < k && ARR176_FE2@[q] != 0 {
                        c.saved@[q]
                    } else {
                        b0[i]
                    },
                    None => b0[i],
                },
        decreases 8 * n - k,
    {
        let p = c.at + (k / 8) * 320 + k % 8;
        proof {
            lemma_under_of(c.at as int, n as int, k as int);
        }
        let ghost bb = buf@;
        if ARR176_FE2[k] != 0 {
            buf.set(p, c.saved[k]);
        }
        proof {
            assert forall|i: int| 0 <= i < b0.len() implies #[trigger] buf@[i] == match under(c.at as int, n as int, i) {
                Some(q) => if q < k + 1 && ARR176_FE2@[q] != 0 {
                    c.saved@[q]
                } else {
                    b0[i]
                },
                None => b0[i],
            } by {
                if under(c.at as int, n as int, i) is Some {
                    lemma_under(c.at as int, n as int, i);
                }
                assert(bb[i] == match under(c.at as int, n as int, i) {
                    Some(q) => if q < k && ARR176_FE2@[q] != 0 {
                        c.saved@[q]
                    } else {
                        b0[i]
                    },
                    None => b0[i],
                });
            }
        }
        k = k + 1;
    }
    assert(buf@ =~= cursor_restored(b0, c.saved@, c.at as int, n as int));
}

/// Putting the pointer's pixels back undoes drawing it: where nothing else touched
/// the buffer, [`sub_3834`] after [`sub_3802`] gives the buffer as it was.
pub proof fn lemma_cursor_restores(buf: Seq<u8>, saved: Seq<u8>, at: int, rows: int)
    requires
        saved.len() == 88,
        at >= 0,
    ensures
        ({
            let n = cursor_rows(at, rows, buf.len() as int);
            cursor_restored(cursor_drawn(buf, at, n), cursor_saved(buf, saved, at, n), at, n) == buf
        }),
{
    let n = cursor_rows(at, rows, buf.len() as int);
    let d = cursor_drawn(buf, at, n);
    let s = cursor_saved(buf, saved, at, n);
    let r = cursor_restored(d, s, at, n);
    assert forall|i: int| 0 <= i < buf.len() implies #[trigger] r[i] == buf[i] by {
        match under(at, n, i) {
            Some(k) => {
                assert(0 <= k < 8 * n);
                assert(at + (k / 8) * 320 + k % 8 == i);
            },
            None => {},
        }
    }
    assert(r =~= buf);
}

} // verus!
