//! The data archive: resource names, the directory in the archive's header, and
//! unpacking resources that carry a palette.

use vstd::prelude::*;

use crate::unpack::{arc_unpack_res, unpack_spec, unpack_terminates};

verus! {

/// Size of the archive header that the game reads at start.
pub const ARC_HEADER_LEN: usize = 2816;

/// Each directory record is an 8-byte key and a 16-bit sector number.
pub const RES_PAIR_SIZE: usize = 10;

/// Length of a palette of 256 colours.
pub const PALETTE_LEN: usize = 768;

/// The upper-case hexadecimal digit of the low four bits of `num`.
pub open spec fn hex_digit(num: u8) -> u8 {
    let n = num % 16;
    if n < 10 {
        (n + 48) as u8
    } else {
        (n + 55) as u8
    }
}

/// C97E: the upper-case hexadecimal digit of the low four bits of `num`.
pub fn sub_c97e(num: u8) -> (r: u8)
    ensures
        r == hex_digit(num),
{
    let lo = num & 0xF;
    proof {
        assert(num & 0xF == num % 16) by (bit_vector);
    }
    let n = lo + 48u8;
    if n > 57u8 {
        n + 7
    } else {
        n
    }
}

/// C96D: the name of resource `ix` of kind `chr`: the kind letter, two hexadecimal
/// digits and a terminating zero, e.g. `I1F`.
pub fn sub_c96d(chr: u8, ix: u8) -> (r: [u8; 4])
    ensures
        r@ == seq![chr, hex_digit(ix / 16), hex_digit(ix), 0u8],
{
    let r = [chr, sub_c97e(ix >> 4), sub_c97e(ix), 0];
    proof {
        assert(ix >> 4 == ix / 16) by (bit_vector);
        assert(hex_digit(ix / 16) == hex_digit(ix >> 4));
    }
    assert(r@ =~= seq![chr, hex_digit(ix / 16), hex_digit(ix), 0u8]);
    r
}

/// `c` in upper case when it is a lower-case ASCII letter.
pub open spec fn ascii_upper(c: u8) -> u8 {
    if 97 <= c <= 122 {
        (c - 32) as u8
    } else {
        c
    }
}

/// Number of leading characters of `name` before its first zero.
pub open spec fn name_len(name: Seq<u8>) -> int
    decreases name.len(),
{
    if name.len() == 0 || name[0] == 0 {
        0
    } else {
        1 + name_len(name.drop_first())
    }
}

/// The directory key of a resource name: its characters up to the first zero, in upper
/// case, padded with spaces to eight.
pub open spec fn res_key(name: Seq<u8>) -> Seq<u8> {
    Seq::new(8, |i: int| if i < name_len(name) && i < name.len() { ascii_upper(name[i]) } else { 32u8 })
}

proof fn lemma_name_len(name: Seq<u8>, i: int)
    requires
        0 <= i <= name.len(),
        forall|j: int| 0 <= j < i ==> name[j] != 0,
    ensures
        name_len(name) >= i,
        i < name.len() && name[i] == 0 ==> name_len(name) == i,
    decreases i,
{
    lemma_name_len_bound(name);
    if i > 0 {
        assert(name[0] != 0);
        assert forall|j: int| 0 <= j < i - 1 implies name.drop_first()[j] != 0 by {
            assert(name.drop_first()[j] == name[j + 1]);
        }
        lemma_name_len(name.drop_first(), i - 1);
        if i < name.len() && name[i] == 0 {
            assert(name.drop_first()[i - 1] == 0);
        }
    }
}

/// The directory key for resource `name` (see [`res_key`]).
pub fn make_res_key(name: &[u8; 4]) -> (key: [u8; 8])
    ensures
        key@ == res_key(name@),
{
    let mut key = [32u8; 8];
    let mut i: usize = 0;
    while i < 4 && name[i] != 0
        invariant
            i <= 4,
            forall|j: int| 0 <= j < i ==> name@[j] != 0,
            forall|j: int| 0 <= j < i ==> key@[j] == ascii_upper(name@[j]),
            forall|j: int| i <= j < 8 ==> key@[j] == 32u8,
        decreases 4 - i,
    {
        let c = name[i];
        key[i] = if 97 <= c && c <= 122 {
            c - 32
        } else {
            c
        };
        i = i + 1;
    }
    proof {
        lemma_name_len(name@, i as int);
        if i < 4 {
            assert(name_len(name@) == i);
        } else {
            assert(name_len(name@) <= name@.len()) by {
                lemma_name_len_bound(name@);
            }
        }
    }
    assert(key@ =~= res_key(name@));
    key
}

proof fn lemma_name_len_bound(name: Seq<u8>)
    ensures
        0 <= name_len(name) <= name.len(),
    decreases name.len(),
{
    if name.len() > 0 && name[0] != 0 {
        lemma_name_len_bound(name.drop_first());
    }
}

/// Number of directory records that the search looks at: record `j` is read together
/// with record `j + 1`, both inside the header after its first two bytes.
pub open spec fn dir_slots(header: Seq<u8>) -> int {
    if header.len() < 22 {
        0
    } else {
        (header.len() - 22) / 10 + 1
    }
}

/// The 16-bit little-endian number at `p` in `s`.
pub open spec fn le16(s: Seq<u8>, p: int) -> int {
    s[p] + 256 * s[p + 1]
}

/// Whether directory record `j` of `header` holds `key`.
pub open spec fn record_matches(header: Seq<u8>, j: int, key: Seq<u8>) -> bool {
    header.subrange(2 + 10 * j, 10 + 10 * j) == key
}

/// The first record of `header` that holds `key`, if any.
pub open spec fn find_record(header: Seq<u8>, key: Seq<u8>) -> Option<int> {
    if exists|j: int| 0 <= j < dir_slots(header) && record_matches(header, j, key) {
        Some(
            choose|j: int|
                0 <= j < dir_slots(header) && record_matches(header, j, key) && forall|i: int|
                    0 <= i < j ==> !record_matches(header, i, key),
        )
    } else {
        None
    }
}

/// The first sector of the resource in record `j` and the sector after it.
pub open spec fn record_sectors(header: Seq<u8>, j: int) -> (int, int) {
    (le16(header, 10 + 10 * j), le16(header, 20 + 10 * j))
}

/// Whether the archive header lists resource `name` with a start no after its end.
pub open spec fn seek_defined(header: Seq<u8>, name: Seq<u8>) -> bool {
    match find_record(header, res_key(name)) {
        None => true,
        Some(j) => record_sectors(header, j).0 <= record_sectors(header, j).1,
    }
}

/// Whether directory record `j` of `header` holds `key`.
fn record_holds(header: &[u8], j: usize, key: &[u8; 8]) -> (r: bool)
    requires
        10 * j + 22 <= header.len(),
    ensures
        r == record_matches(header@, j as int, key@),
{
    let base = 2 + 10 * j;
    let mut same = true;
    let mut t: usize = 0;
    while t < 8
        invariant
            t <= 8,
            base == 2 + 10 * j,
            base + 20 <= header.len(),
            same <==> forall|u: int| 0 <= u < t ==> header@[base + u] == key@[u],
        decreases 8 - t,
    {
        if header[base + t] != key[t] {
            same = false;
        }
        t = t + 1;
    }
    if same {
        assert(header@.subrange(2 + 10 * j, 10 + 10 * j) =~= key@);
    } else {
        let ghost u = choose|u: int| 0 <= u < 8 && header@[base + u] != key@[u];
        assert(header@.subrange(2 + 10 * j, 10 + 10 * j)[u] != key@[u]);
    }
    same
}

/// The first matching record is the one that `find_record` names.
proof fn lemma_first_match(header: Seq<u8>, key: Seq<u8>, j: int)
    requires
        0 <= j < dir_slots(header),
        record_matches(header, j, key),
        forall|i: int| 0 <= i < j ==> !record_matches(header, i, key),
    ensures
        find_record(header, key) == Some(j),
{
    let c = choose|i: int|
        0 <= i < dir_slots(header) && record_matches(header, i, key) && forall|u: int|
            0 <= u < i ==> !record_matches(header, u, key);
    if c < j {
    } else if c > j {
    }
}

/// C9A2 (the search): finds resource `name` in the archive header. Returns the byte
/// offset of the resource in the archive (its sector times 512) and its length in bytes
/// (sectors up to the next resource, times 512, in 16 bits), or `None` when the header
/// does not list it, where the game stops with an open error.
pub fn arc_seek_res(header: &[u8], name: &[u8; 4]) -> (r: Option<(u32, u16)>)
    requires
        seek_defined(header@, name@),
    ensures
        match find_record(header@, res_key(name@)) {
            None => r is None,
            Some(j) => r == Some(
                (
                    (record_sectors(header@, j).0 * 512) as u32,
                    ((record_sectors(header@, j).1 - record_sectors(header@, j).0) * 512
                        % 65536) as u16,
                ),
            ),
        },
{
    let key = make_res_key(name);
    if header.len() < 22 {
        assert(!exists|j: int| 0 <= j < dir_slots(header@) && record_matches(header@, j, key@));
        return None;
    }
    let slots: usize = (header.len() - 22) / 10 + 1;
    let mut j: usize = 0;
    while j < slots
        invariant
            slots == dir_slots(header@),
            header.len() >= 22,
            key@ == res_key(name@),
            seek_defined(header@, name@),
            j <= slots,
            forall|i: int| 0 <= i < j ==> !record_matches(header@, i, key@),
        decreases slots - j,
    {
        let hl = header.len();
        assert(10 * j + 22 <= hl) by (nonlinear_arith)
            requires
                j < slots,
                slots == (hl - 22) / 10 + 1,
                hl >= 22,
        ;
        if record_holds(header, j, &key) {
            proof {
                lemma_first_match(header@, key@, j as int);
            }
            let base = 2 + 10 * j;
            let curr: u32 = (header[base + 8] as u32) + (header[base + 9] as u32) * 256;
            let next: u32 = (header[base + 18] as u32) + (header[base + 19] as u32) * 256;
            assert(curr == le16(header@, 10 + 10 * j));
            assert(next == le16(header@, 20 + 10 * j));
            assert(record_sectors(header@, j as int).0 <= record_sectors(header@, j as int).1);
            let len: u16 = (((next - curr) * 512) % 65536) as u16;
            return Some((curr * 512, len));
        }
        j = j + 1;
    }
    None
}


/// Whether the resource `name` can be looked up in `header` (see [`seek_defined`]).
pub fn seek_is_defined(header: &[u8], name: &[u8; 4]) -> (b: bool)
    ensures
        b == seek_defined(header@, name@),
{
    let key = make_res_key(name);
    if header.len() < 22 {
        assert(!exists|j: int| 0 <= j < dir_slots(header@) && record_matches(header@, j, key@));
        return true;
    }
    let slots: usize = (header.len() - 22) / 10 + 1;
    let mut j: usize = 0;
    while j < slots
        invariant
            slots == dir_slots(header@),
            header.len() >= 22,
            key@ == res_key(name@),
            j <= slots,
            forall|i: int| 0 <= i < j ==> !record_matches(header@, i, key@),
        decreases slots - j,
    {
        let hl = header.len();
        assert(10 * j + 22 <= hl) by (nonlinear_arith)
            requires
                j < slots,
                slots == (hl - 22) / 10 + 1,
                hl >= 22,
        ;
        if record_holds(header, j, &key) {
            proof {
                lemma_first_match(header@, key@, j as int);
            }
            let base = 2 + 10 * j;
            let curr: u32 = (header[base + 8] as u32) + (header[base + 9] as u32) * 256;
            let next: u32 = (header[base + 18] as u32) + (header[base + 19] as u32) * 256;
            assert(curr == le16(header@, 10 + 10 * j));
            assert(next == le16(header@, 20 + 10 * j));
            return curr <= next;
        }
        j = j + 1;
    }
    true
}

/// 478D: unpacks a resource that must be well formed.
pub fn res_unpack_simple(data: &[u8]) -> (r: Vec<u8>)
    requires
        unpack_terminates(data@),
        unpack_spec(data@) is Some,
    ensures
        unpack_spec(data@) == Some(r@),
{
    match arc_unpack_res(data) {
        Some(v) => v,
        None => {
            assert(false);
            Vec::new()
        },
    }
}

/// 47A2: unpacks a resource whose last 768 bytes are its palette. Returns the picture
/// without the palette, and the palette.
pub fn res_unpack_with_pal(data: &[u8]) -> (r: (Vec<u8>, [u8; 768]))
    requires
        unpack_terminates(data@),
        unpack_spec(data@) is Some,
        unpack_spec(data@).unwrap().len() >= 768,
    ensures
        ({
            let u = unpack_spec(data@).unwrap();
            &&& r.0@ == u.subrange(0, u.len() - 768)
            &&& r.1@ == u.subrange(u.len() - 768, u.len() as int)
        }),
{
    let mut v = res_unpack_simple(data);
    let start = v.len() - PALETTE_LEN;
    let mut pal = [0u8; 768];
    let mut i: usize = 0;
    while i < 768
        invariant
            i <= 768,
            start + 768 == v.len(),
            forall|j: int| 0 <= j < i ==> pal@[j] == v@[start + j],
        decreases 768 - i,
    {
        pal[i] = v[start + i];
        i = i + 1;
    }
    let ghost u = v@;
    v.truncate(start);
    assert(pal@ =~= u.subrange(u.len() - 768, u.len() as int));
    (v, pal)
}

} // verus!
