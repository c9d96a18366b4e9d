//! Course codes: the twelve characters that a player types to name a course, and the
//! course values ("RECS") they stand for.
//!
//! The first nine characters carry the nine course values (0 to 26) through a fixed
//! permutation; characters `a` to `m` stand for 0 to 12, a space for 13 and `n` to `z`
//! for 14 to 26. Then come a dash and two digits of difficulty.

use vstd::prelude::*;

use crate::config::TextField;

verus! {

/// The permutation between course values and code characters.
pub const ARR_3D4E: [u8; 27] = [
    0x18, 0x12, 0x17, 0x10, 0x16, 0x11, 0x0C, 0x19, 0x0E, 0x13, 0x1A, 0x0F, 0x06, 0x0D, 0x08, 0x0B,
    0x03, 0x05, 0x01, 0x09, 0x15, 0x14, 0x04, 0x02, 0x00, 0x07, 0x0A,
];

/// D085: applies the code permutation to each of the nine values.
pub fn sub_d085(arr: &mut [u8; 9])
    requires
        forall|i: int| 0 <= i < 9 ==> old(arr)@[i] < 27,
    ensures
        forall|i: int| 0 <= i < 9 ==> final(arr)@[i] == ARR_3D4E@[old(arr)@[i] as int],
{
    let mut i: usize = 0;
    while i < 9
        invariant
            i <= 9,
            forall|j: int| 0 <= j < i ==> arr@[j] == ARR_3D4E@[old(arr)@[j] as int],
            forall|j: int| i <= j < 9 ==> arr@[j] == old(arr)@[j],
            forall|j: int| 0 <= j < 9 ==> old(arr)@[j] < 27,
        decreases 9 - i,
    {
        let b = arr[i];
        arr[i] = ARR_3D4E[b as usize];
        i = i + 1;
    }
}

/// The code permutation undoes itself.
pub proof fn lemma_code_permutation_involutive(x: u8)
    requires
        x < 27,
    ensures
        ARR_3D4E@[x as int] < 27,
        ARR_3D4E@[ARR_3D4E@[x as int] as int] == x,
{
    assert(ARR_3D4E@ =~= seq![
        0x18u8, 0x12, 0x17, 0x10, 0x16, 0x11, 0x0C, 0x19, 0x0E, 0x13, 0x1A, 0x0F, 0x06, 0x0D, 0x08,
        0x0B, 0x03, 0x05, 0x01, 0x09, 0x15, 0x14, 0x04, 0x02, 0x00, 0x07, 0x0A,
    ]);
}

/// The character that a permuted value becomes.
pub open spec fn value_char(al: u8) -> u8 {
    if al <= 12 {
        (97 + al) as u8
    } else if al == 13 {
        32
    } else {
        (97 + al - 1) as u8
    }
}

/// The permuted value that a code character stands for (8-bit arithmetic wraps around).
pub open spec fn char_value(chr: u8) -> u8 {
    if chr == 32 {
        13
    } else {
        let c1 = if chr < 97 {
            ((chr + 32) % 256) as u8
        } else {
            chr
        };
        let c2 = if c1 >= 110 {
            ((c1 + 1) % 256) as u8
        } else {
            c1
        };
        ((c2 - 97 + 256) % 256) as u8
    }
}

/// The code of the course values `recs` and the difficulty `difficulty`.
pub open spec fn encode_code(recs: Seq<u16>, difficulty: u16) -> Seq<u8> {
    Seq::new(
        12,
        |i: int|
            if i < 9 {
                value_char(ARR_3D4E@[(recs[i] % 256) as int])
            } else if i == 9 {
                45u8
            } else if i == 10 {
                (48 + if difficulty / 10 < 9 {
                    difficulty / 10
                } else {
                    9
                }) as u8
            } else {
                (48 + difficulty % 10) as u8
            },
    )
}

/// Whether the course values can be written as a code: each fits the permutation.
pub open spec fn recs_encodable(recs: Seq<u16>) -> bool {
    forall|i: int| 0 <= i < 9 ==> recs[i] % 256 < 27
}

/// D001: writes the code of the course values `recs` and the difficulty into `code`.
pub fn sub_d001(recs: &[u16; 9], difficulty: u16, code: &mut TextField)
    requires
        recs_encodable(recs@),
    ensures
        final(code)@ == encode_code(recs@, difficulty),
{
    let mut arr = [0u8; 9];
    let mut i: usize = 0;
    while i < 9
        invariant
            i <= 9,
            forall|j: int| 0 <= j < i ==> arr@[j] == recs@[j] % 256,
        decreases 9 - i,
    {
        arr[i] = (recs[i] % 256) as u8;
        i = i + 1;
    }
    let ghost before = arr@;
    sub_d085(&mut arr);
    let mut i: usize = 0;
    while i < 9
        invariant
            i <= 9,
            forall|j: int| 0 <= j < 9 ==> arr@[j] == ARR_3D4E@[before[j] as int],
            forall|j: int| 0 <= j < 9 ==> before[j] == recs@[j] % 256,
            forall|j: int| 0 <= j < 9 ==> arr@[j] < 27,
            forall|j: int| 0 <= j < i ==> code@[j] == value_char(arr@[j]),
        decreases 9 - i,
    {
        let al = arr[i];
        code[i] = if al <= 12 {
            97 + al
        } else if al == 13 {
            32
        } else {
            97 + al - 1
        };
        i = i + 1;
    }
    code[9] = 45;
    let tens = difficulty / 10;
    code[10] = 48 + (if tens < 9 {
        tens
    } else {
        9
    }) as u8;
    code[11] = 48 + (difficulty % 10) as u8;
    assert(code@ =~= encode_code(recs@, difficulty));
}

/// The course values and difficulty that `code` stands for.
pub open spec fn decode_code(code: Seq<u8>) -> (Seq<u16>, u16) {
    (
        Seq::new(9, |i: int| ARR_3D4E@[char_value(code[i]) as int] as u16),
        (((code[10] - 48 + 256) % 256) * 10 + (code[11] - 48 + 256) % 256) as u16,
    )
}

/// Whether every code character stands for a value of the permutation.
pub open spec fn code_decodable(code: Seq<u8>) -> bool {
    forall|i: int| 0 <= i < 9 ==> char_value(code[i]) < 27
}

/// D03E: the course values and the difficulty that `code` stands for.
#[verifier::spinoff_prover]
#[verifier::rlimit(40)]
pub fn sub_d03e(code: &TextField) -> (r: ([u16; 9], u16))
    requires
        code_decodable(code@),
    ensures
        r.0@ == decode_code(code@).0,
        r.1 == decode_code(code@).1,
{
    let mut arr = [0u8; 9];
    let mut i: usize = 0;
    while i < 9
        invariant
            i <= 9,
            forall|j: int| 0 <= j < i ==> arr@[j] == char_value(code@[j]),
        decreases 9 - i,
    {
        let chr = code[i];
        arr[i] = if chr == 32 {
            13
        } else {
            let mut c = chr;
            if c < 97 {
                c = c.wrapping_add(32);
            }
            if c >= 110 {
                c = c.wrapping_add(1);
            }
            c.wrapping_sub(97)
        };
        i = i + 1;
    }
    let ghost before = arr@;
    sub_d085(&mut arr);
    let mut recs = [0u16; 9];
    let mut i: usize = 0;
    while i < 9
        invariant
            i <= 9,
            forall|j: int| 0 <= j < 9 ==> arr@[j] == ARR_3D4E@[before[j] as int],
            forall|j: int| 0 <= j < 9 ==> before[j] == char_value(code@[j]),
            forall|j: int| 0 <= j < i ==> recs@[j] == arr@[j] as u16,
        decreases 9 - i,
    {
        recs[i] = arr[i] as u16;
        i = i + 1;
    }
    let tens = code[10].wrapping_sub(48) as u16;
    let ones = code[11].wrapping_sub(48) as u16;
    assert(recs@ =~= decode_code(code@).0);
    (recs, tens * 10 + ones)
}

/// Reading back the code of course values gives the values back, and the difficulty
/// when it has at most two digits.
pub proof fn lemma_code_roundtrip(recs: Seq<u16>, difficulty: u16)
    requires
        recs.len() == 9,
        forall|i: int| 0 <= i < 9 ==> recs[i] <= 26,
        difficulty <= 99,
    ensures
        code_decodable(encode_code(recs, difficulty)),
        decode_code(encode_code(recs, difficulty)).0 == recs,
        decode_code(encode_code(recs, difficulty)).1 == difficulty,
{
    let code = encode_code(recs, difficulty);
    assert forall|i: int| 0 <= i < 9 implies char_value(code[i]) == ARR_3D4E@[recs[i] as int] by {
        lemma_code_permutation_involutive(recs[i] as u8);
    }
    assert forall|i: int| 0 <= i < 9 implies ARR_3D4E@[char_value(code[i]) as int] == recs[i] by {
        lemma_code_permutation_involutive(recs[i] as u8);
    }
    assert(decode_code(code).0 =~= recs);
}

/// Whether `code` is written as the game writes codes: nine characters among space
/// and `a` to `z`, a dash, and two digits.
pub open spec fn code_canonical(code: Seq<u8>) -> bool {
    &&& code.len() == 12
    &&& forall|i: int| 0 <= i < 9 ==> code[i] == 32 || 97 <= code[i] <= 122
    &&& code[9] == 45
    &&& 48 <= code[10] <= 57
    &&& 48 <= code[11] <= 57
}

/// Writing out the values of a code written as the game writes codes gives the code back.
pub proof fn lemma_code_canonical_roundtrip(code: Seq<u8>)
    requires
        code_canonical(code),
    ensures
        code_decodable(code),
        recs_encodable(decode_code(code).0),
        encode_code(decode_code(code).0, decode_code(code).1) == code,
{
    let (recs, d) = decode_code(code);
    assert forall|i: int| 0 <= i < 9 implies recs[i] % 256 == ARR_3D4E@[char_value(code[i]) as int]
        && ARR_3D4E@[(recs[i] % 256) as int] == char_value(code[i]) && value_char(char_value(code[i]))
        == code[i] by {
        lemma_code_permutation_involutive(char_value(code[i]));
    }
    assert(encode_code(recs, d) =~= code);
}

/// The values of the code characters: `a` to `m` stand for 0 to 12, a space for 13,
/// `n` to `z` for 14 to 26, and a capital letter for the same value as its small one.
pub proof fn lemma_char_values(c: u8)
    ensures
        c == 32 ==> char_value(c) == 13,
        97 <= c <= 109 ==> char_value(c) == c - 97,
        110 <= c <= 122 ==> char_value(c) == c - 96,
        65 <= c <= 90 ==> char_value(c) == char_value((c + 32) as u8),
{
}

/// The code with its nine course characters in small letters: capitals become small
/// letters, everything else stays.
pub open spec fn code_lowered(code: Seq<u8>) -> Seq<u8> {
    Seq::new(code.len(), |i: int| if i < 9 && 65 <= code[i] <= 90 { (code[i] + 32) as u8 } else { code[i] })
}

/// A code typed in capitals stands for the same course as the code in small letters.
pub proof fn lemma_code_case_insensitive(code: Seq<u8>)
    requires
        code.len() == 12,
    ensures
        decode_code(code) == decode_code(code_lowered(code)),
        code_decodable(code) == code_decodable(code_lowered(code)),
{
    let l = code_lowered(code);
    assert forall|i: int| 0 <= i < 9 implies char_value(#[trigger] code[i]) == char_value(l[i]) by {
        lemma_char_values(code[i]);
    }
    assert(decode_code(code).0 =~= decode_code(l).0);
    assert(l[10] == code[10] && l[11] == code[11]);
}

} // verus!
