//! The copy protection question: a window number and two helmet pictures are drawn at
//! random, and the answer is a three-character code derived from them.

use vstd::prelude::*;

use crate::stack::{secret_items, secret_new, secret_push, secret_resize, SecretVec};

verus! {

/// Per window number: the kind of answer and its offset.
pub const PROT_D83: [(u8, u8); 48] = [
    (0, 0), (0, 4), (0, 8), (0, 10), (0, 13), (0, 17), (0, 19), (0, 21), (0, 25), (0, 28),
    (0, 30), (0, 35), (1, 2), (1, 5), (1, 11), (1, 12), (1, 16), (1, 20), (1, 24), (1, 29),
    (1, 31), (1, 34), (2, 0), (2, 2), (2, 4), (2, 6), (2, 10), (2, 12), (2, 14), (2, 17),
    (2, 18), (2, 21), (3, 22), (3, 1), (3, 3), (3, 5), (3, 7), (3, 9), (3, 11), (3, 13),
    (3, 15), (3, 16), (3, 21), (4, 11), (4, 2), (4, 4), (4, 7), (4, 9),
];

/// Characters of the answers of the fifth kind.
pub const PROT_DE3: [u8; 12] = [68, 67, 66, 65, 54, 63, 62, 61, 72, 71, 70, 69];

/// The number `r * n / 65536`: a random 16-bit number scaled to `0..n`.
pub fn scale_random(r: u16, n: u16) -> (s: u16)
    ensures
        s == (r * n) / 65536,
        n > 0 ==> s < n,
{
    assert((r as int) * (n as int) <= 65535 * 65535) by (nonlinear_arith)
        requires
            r <= 65535,
            n <= 65535,
    ;
    let p: u32 = (r as u32) * (n as u32);
    assert((r * n) / 65536 < n || n == 0) by (nonlinear_arith)
        requires
            r < 65536,
    ;
    (p / 65536) as u16
}

/// The question text for window `code` (0 to 47): the window number counts from one.
pub fn protection_text(code: u16) -> (t: [u8; 24])
    requires
        code < 99,
    ensures
        t@ == seq![69u8, 78, 84, 69, 82, 32, 67, 79, 68, 69, 32, 70, 79, 82, 32, 87, 73, 78, 68, 79, 87, 32,
            ((code + 1) / 10 + 48) as u8, ((code + 1) % 10 + 48) as u8],
{
    let mut t: [u8; 24] = [69, 78, 84, 69, 82, 32, 67, 79, 68, 69, 32, 70, 79, 82, 32, 87, 73, 78, 68, 79, 87, 32, 63, 63];
    t[22] = ((code + 1) / 10 + 48) as u8;
    t[23] = ((code + 1) % 10 + 48) as u8;
    assert(t@ =~= seq![69u8, 78, 84, 69, 82, 32, 67, 79, 68, 69, 32, 70, 79, 82, 32, 87, 73, 78, 68, 79, 87, 32,
            ((code + 1) / 10 + 48) as u8, ((code + 1) % 10 + 48) as u8]);
    t
}

/// The helmet difference after the first steps of the answer: the low byte of
/// `d5c - d5e` read as signed, plus twelve when negative.
pub open spec fn helmet_diff(d5c: u16, d5e: u16) -> int {
    let b = ((d5c - d5e + 65536) % 65536) % 256;
    let s = if b >= 128 { b - 256 } else { b };
    if s < 0 { s + 12 } else { s }
}

/// The value before the kind of answer is applied.
pub open spec fn secret_base(one: u8, two: u8, d5c: u16, d5e: u16) -> int {
    let cx = 3 - one / 2;
    let low = (helmet_diff(d5c, d5e) + 256) % 256;
    let p = cx * low;
    let dx1 = (p / 256) * 256 + (p % 256 + two) % 256;
    let ax = cx * 12;
    if ax <= dx1 { dx1 - ax } else { dx1 }
}

/// The answer's digits for the value `dx`: a leading `1` when the low byte is at least
/// 100, then the low and the high byte of a tenth of the (reduced) value as digits, the
/// low one left out when it equals the high byte of the marker (0, or 255 after a
/// leading `1`); padded with spaces to three characters.
#[verifier::opaque]
pub open spec fn secret_digits(dx: int) -> Seq<u8> {
    let lo = dx % 256;
    let hi = dx / 256;
    let (lead, lo2, cxl) = if lo >= 100 { (seq![49u8], lo - 100, 255int) } else { (Seq::<u8>::empty(), lo, 0int) };
    let q = (hi * 256 + lo2) / 10;
    let q0 = q % 256;
    let q1 = q / 256;
    let mid = if q0 != cxl { seq![((q0 + 48) % 256) as u8] } else { Seq::<u8>::empty() };
    let s = lead + mid + seq![((q1 + 48) % 256) as u8];
    s + Seq::new((3 - s.len()) as nat, |i: int| 32u8)
}

/// The answer for window `code` and helmets `d5c` (top) and `d5e` (bottom).
pub open spec fn secret_spec(code: u16, d5c: u16, d5e: u16) -> Seq<u8> {
    let (one, two) = PROT_D83@[code as int];
    let dx = secret_base(one, two, d5c, d5e);
    if one == 3 {
        let dl = (dx % 256 + 83) % 256;
        seq![(if dl < 89 { dl } else { dl - 24 }) as u8, 32u8, 32u8]
    } else if one == 0 {
        secret_digits(dx + 1)
    } else if one == 1 {
        secret_digits(((65536 - dx) % 65536 + 106) % 65536)
    } else if one == 2 {
        secret_digits(dx + 37)
    } else {
        secret_digits((dx / 256) * 256 + PROT_DE3@[dx])
    }
}

/// Whether the answer for window `code` can be formed: the window exists, and an answer
/// of the fifth kind finds its character.
pub open spec fn secret_defined(code: u16, d5c: u16, d5e: u16) -> bool {
    &&& code < 48
    &&& PROT_D83@[code as int].0 == 4 ==> 0 <= secret_base(PROT_D83@[code as int].0, PROT_D83@[code as int].1, d5c, d5e) < 12
}

proof fn lemma_prot_table()
    ensures
        forall|i: int| 0 <= i < 48 ==> #[trigger] PROT_D83@[i].0 <= 4 && PROT_D83@[i].1 <= 35,
{
    assert(PROT_D83@ =~= seq![
        (0u8, 0u8), (0, 4), (0, 8), (0, 10), (0, 13), (0, 17), (0, 19), (0, 21), (0, 25), (0, 28),
        (0, 30), (0, 35), (1, 2), (1, 5), (1, 11), (1, 12), (1, 16), (1, 20), (1, 24), (1, 29),
        (1, 31), (1, 34), (2, 0), (2, 2), (2, 4), (2, 6), (2, 10), (2, 12), (2, 14), (2, 17),
        (2, 18), (2, 21), (3, 22), (3, 1), (3, 3), (3, 5), (3, 7), (3, 9), (3, 11), (3, 13),
        (3, 15), (3, 16), (3, 21), (4, 11), (4, 2), (4, 4), (4, 7), (4, 9),
    ]);
}

/// The digits of the answer for value `dx` (see [`secret_digits`]).
fn push_digits(dx: u16) -> (v: SecretVec)
    ensures
        secret_items(v) == secret_digits(dx as int),
{
    let mut v = secret_new();
    let mut cx: u16 = 0;
    let mut lo = dx % 256;
    let hi = dx / 256;
    if lo >= 100 {
        lo = lo - 100;
        let _ = secret_push(&mut v, 49);
        cx = 0xFFFF;
    }
    let q = (hi * 256 + lo) / 10;
    let q0 = (q % 256) as u8;
    let q1 = (q / 256) as u8;
    if q0 != (cx % 256) as u8 {
        let _ = secret_push(&mut v, q0.wrapping_add(48));
    }
    let _ = secret_push(&mut v, q1.wrapping_add(48));
    let _ = secret_resize(&mut v, 3, 32);
    reveal(secret_digits);
    assert(secret_items(v) =~= secret_digits(dx as int));
    v
}


/// The low byte of the helmet difference (see [`helmet_diff`]).
fn helmet_low(d5c: u16, d5e: u16) -> (low: u16)
    ensures
        low == (helmet_diff(d5c, d5e) + 256) % 256,
{
    let b = d5c.wrapping_sub(d5e) % 256;
    assert(b == ((d5c - d5e + 65536) % 65536) % 256);
    if b < 128 {
        b
    } else if b < 244 {
        b + 12
    } else {
        b - 244
    }
}

/// The value before the kind of answer is applied (see [`secret_base`]).
fn compute_secret_base(one: u8, two: u8, d5c: u16, d5e: u16) -> (dx: u16)
    requires
        one <= 4,
    ensures
        dx == secret_base(one, two, d5c, d5e),
        dx <= 767,
{
    let low = helmet_low(d5c, d5e);
    let cx = (3 - one / 2) as u16;
    assert(cx * low <= 765) by (nonlinear_arith)
        requires
            cx <= 3,
            low < 256,
    ;
    let p = cx * low;
    let mut dx = (p / 256) * 256 + (((p % 256) as u8).wrapping_add(two) as u16);
    let ax = cx * 12;
    if ax <= dx {
        dx = dx - ax;
    }
    dx
}

/// The answer to the protection question for window `code` and the helmets `d5c` and
/// `d5e` (see [`secret_spec`]).
pub fn make_secret(code: u16, d5c: u16, d5e: u16) -> (v: SecretVec)
    requires
        secret_defined(code, d5c, d5e),
    ensures
        secret_items(v) == secret_spec(code, d5c, d5e),
{
    proof {
        lemma_prot_table();
    }
    let (one, two) = PROT_D83[code as usize];
    let dx = compute_secret_base(one, two, d5c, d5e);
    if one == 3 {
        let dl = ((dx % 256) as u8).wrapping_add(83);
        let mut v = secret_new();
        let _ = secret_push(&mut v, if dl < 89 {
            dl
        } else {
            dl - 24
        });
        let _ = secret_resize(&mut v, 3, 32);
        assert(secret_items(v) =~= secret_spec(code, d5c, d5e));
        return v;
    }
    let d = if one == 0 {
        dx + 1
    } else if one == 1 {
        0u16.wrapping_sub(dx).wrapping_add(106)
    } else if one == 2 {
        dx + 37
    } else {
        (dx / 256) * 256 + (PROT_DE3[dx as usize] as u16)
    };
    push_digits(d)
}

/// Whether the answer for window `code` and the helmets `d5c` and `d5e` can be computed
/// (see [`secret_defined`]).
pub fn secret_is_defined(code: u16, d5c: u16, d5e: u16) -> (b: bool)
    ensures
        b == secret_defined(code, d5c, d5e),
{
    if code >= 48 {
        return false;
    }
    proof {
        lemma_prot_table();
    }
    let (one, two) = PROT_D83[code as usize];
    if one != 4 {
        return true;
    }
    compute_secret_base(one, two, d5c, d5e) < 12
}

/// The answers for values below 256: below 10 the digit `0`; below 100 the tens digit
/// followed by `0`; from 100 on a `1`, the tens digit of the rest, and `0`; padded with
/// spaces to three characters.
pub proof fn lemma_small_answers(d: int)
    requires
        0 <= d < 256,
    ensures
        d < 10 ==> secret_digits(d) == seq![48u8, 32, 32],
        10 <= d < 100 ==> secret_digits(d) == seq![(d / 10 + 48) as u8, 48u8, 32],
        100 <= d ==> secret_digits(d) == seq![49u8, ((d - 100) / 10 + 48) as u8, 48],
{
    reveal(secret_digits);
    if d < 10 {
        assert(secret_digits(d) =~= seq![48u8, 32, 32]);
    } else if d < 100 {
        assert(secret_digits(d) =~= seq![(d / 10 + 48) as u8, 48u8, 32]);
    } else {
        assert(secret_digits(d) =~= seq![49u8, ((d - 100) / 10 + 48) as u8, 48]);
    }
}

/// Every answer has three characters.
pub proof fn lemma_answer_length(code: u16, d5c: u16, d5e: u16)
    requires
        secret_defined(code, d5c, d5e),
    ensures
        secret_spec(code, d5c, d5e).len() == 3,
{
    reveal(secret_digits);
    lemma_prot_table();
}

} // verus!
