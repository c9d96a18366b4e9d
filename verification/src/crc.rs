//! The game's pseudo-random generators and the course layout that a course code
//! ("RECS" values) determines.
//!
//! A generator's state is four 32-bit words. A step adds a constant to the first word
//! and carries into the next words, each word adding its old value and a constant, as a
//! chain of 32-bit add-with-carry instructions does. The last word is the output.

use vstd::prelude::*;

use crate::data::{menu_scenario, scenario_of_menu_entry, Scenario};
use crate::video::{recs_percent, sub_d097};


verus! {

/// Constants of the generator that builds courses.
pub const TRACK_RNG_ADD: [u32; 4] = [0x736F_A41F, 0x1324_3959, 0x8686_1142, 0x44F0_2127];

/// Constants of the generators of the game itself.
pub const GAME_RNG_ADD: [u32; 4] = [0x7362_541F, 0x7FBE_6475, 0x8326_5984, 0xF029_3747];

/// `a + b` modulo 2^32.
pub open spec fn add32(a: int, b: int) -> int {
    (a + b) % 0x1_0000_0000
}

/// The carry out of `a + b` in 32 bits.
pub open spec fn carry32(a: int, b: int) -> int {
    if a + b >= 0x1_0000_0000 {
        1
    } else {
        0
    }
}

/// One step of a generator with state `s` and constants `k`: the new state; its last
/// word is the output. The carry into a word is added to the word's old value modulo
/// 2^32 before the sum is formed, so that a word of all ones swallows it.
pub open spec fn rng_step(s: Seq<u32>, k: Seq<u32>) -> Seq<u32> {
    let v0 = add32(s[0] as int, k[0] as int);
    let c0 = carry32(s[0] as int, k[0] as int);
    let b1 = add32(s[1] as int, c0);
    let t1 = add32(v0, b1);
    let d1 = carry32(v0, b1);
    let v1 = add32(t1, k[1] + d1);
    let c1 = carry32(t1, k[1] + d1);
    let b2 = add32(s[2] as int, c1);
    let t2 = add32(v1, b2);
    let d2 = carry32(v1, b2);
    let v2 = add32(t2, k[2] + d2);
    let c2 = carry32(t2, k[2] + d2);
    let b3 = add32(s[3] as int, c2);
    let t3 = add32(v2, b3);
    let d3 = carry32(v2, b3);
    let v3 = add32(t3, k[3] + d3);
    seq![v0 as u32, v1 as u32, v2 as u32, v3 as u32]
}

/// The generator state after `n` steps from `s`.
pub open spec fn rng_steps(s: Seq<u32>, k: Seq<u32>, n: nat) -> Seq<u32>
    decreases n,
{
    if n == 0 {
        s
    } else {
        rng_step(rng_steps(s, k, (n - 1) as nat), k)
    }
}

/// 32-bit addition with carry out.
fn add_carry(a: u32, b: u32) -> (r: (u32, u32))
    ensures
        r.0 == add32(a as int, b as int),
        r.1 == carry32(a as int, b as int),
{
    let sum: u64 = (a as u64) + (b as u64);
    if sum >= 0x1_0000_0000 {
        ((sum - 0x1_0000_0000) as u32, 1)
    } else {
        (sum as u32, 0)
    }
}

/// One generator step with constants `k`; returns the low and the high half of the
/// output word.
fn rng_advance(rnd: &mut [u32; 4], k: &[u32; 4]) -> (r: (u16, u16))
    requires
        forall|i: int| 0 <= i < 4 ==> k@[i] < u32::MAX,
    ensures
        final(rnd)@ == rng_step(old(rnd)@, k@),
        r.0 == final(rnd)@[3] % 65536,
        r.1 == final(rnd)@[3] / 65536,
{
    let (v0, c0) = add_carry(rnd[0], k[0]);
    let b1 = add_carry(rnd[1], c0).0;
    let (t1, d1) = add_carry(v0, b1);
    let (v1, c1) = add_carry(t1, k[1] + d1);
    let b2 = add_carry(rnd[2], c1).0;
    let (t2, d2) = add_carry(v1, b2);
    let (v2, c2) = add_carry(t2, k[2] + d2);
    let b3 = add_carry(rnd[3], c2).0;
    let (t3, d3) = add_carry(v2, b3);
    let (v3, _) = add_carry(t3, k[3] + d3);
    rnd[0] = v0;
    rnd[1] = v1;
    rnd[2] = v2;
    rnd[3] = v3;
    assert(rnd@ =~= rng_step(old(rnd)@, k@));
    ((v3 % 65536) as u16, (v3 / 65536) as u16)
}

/// The course generator: one step of the state in `rnd`. Returns the low half of the
/// output word and its high half (which the game keeps for sign tests).
pub fn smart_crc(rnd: &mut [u32; 4]) -> (r: (u16, u16))
    ensures
        final(rnd)@ == rng_step(old(rnd)@, TRACK_RNG_ADD@),
        r.0 == final(rnd)@[3] % 65536,
        r.1 == final(rnd)@[3] / 65536,
{
    let k = TRACK_RNG_ADD;
    rng_advance(rnd, &k)
}

/// A generator of the game itself: one step of the state in `rnd`. Returns the low
/// half of the output word and its high half.
pub fn crc_common(rnd: &mut [u32; 4]) -> (r: (u16, u16))
    ensures
        final(rnd)@ == rng_step(old(rnd)@, GAME_RNG_ADD@),
        r.0 == final(rnd)@[3] % 65536,
        r.1 == final(rnd)@[3] / 65536,
{
    let k = GAME_RNG_ADD;
    rng_advance(rnd, &k)
}

/// The seed that the game's generators get from the timer: the 16-bit timer value in
/// both halves of every word.
pub fn timer_seed(timer: u16) -> (r: [u32; 4])
    ensures
        forall|i: int| 0 <= i < 4 ==> r@[i] == timer * 65537,
{
    let w: u32 = (timer as u32) * 65537;
    [w, w, w, w]
}

/// `x` rotated left by three bits in 32 bits.
pub open spec fn rotl3(x: u32) -> u32 {
    ((x * 8) % 0x1_0000_0000 + x / 0x2000_0000) as u32
}

fn rotate_left3(x: u32) -> (r: u32)
    ensures
        r == rotl3(x),
{
    let r = (x << 3u32) | (x >> 29u32);
    assert(r == ((x * 8) % 0x1_0000_0000 + x / 0x2000_0000) as u32) by (bit_vector)
        requires
            r == (x << 3u32) | (x >> 29u32),
    ;
    r
}

/// The hash of `count` rounds from `eax`: round `cx`, from `count - 1` down to zero,
/// adds `cx` and rotates left by three.
pub open spec fn hash_rounds(eax: u32, count: nat) -> u32
    decreases count,
{
    if count == 0 {
        eax
    } else {
        hash_rounds(rotl3(add32(eax as int, count - 1) as u32), (count - 1) as nat)
    }
}

/// Number of hash rounds for course value `k`: the value plus `7 + 11 * k`, in 16 bits.
pub open spec fn hash_count(recs: Seq<u16>, k: int) -> nat {
    ((recs[k] + 7 + 11 * k) % 65536) as nat
}

/// The hash of the first `k` course values.
pub open spec fn course_hash_upto(recs: Seq<u16>, k: nat) -> u32
    decreases k,
{
    if k == 0 {
        0
    } else {
        hash_rounds(course_hash_upto(recs, (k - 1) as nat), hash_count(recs, k - 1))
    }
}

/// The hash of a course code: it seeds the course generator.
pub open spec fn course_hash(recs: Seq<u16>) -> u32 {
    course_hash_upto(recs, 8)
}

/// The course route number: value 13 is skipped, so values above it count one less.
pub open spec fn course_route(recs: Seq<u16>) -> int {
    if recs[0] >= 13 {
        recs[0] - 1
    } else {
        recs[0] as int
    }
}

/// Whether the course is circular rather than from A to B.
pub open spec fn course_is_circular(recs: Seq<u16>) -> bool {
    course_route(recs) % 2 == 1
}

/// The course length setting after the hash has been mixed in.
pub open spec fn course_length(recs: Seq<u16>) -> int {
    ((course_hash(recs) / 65536) % 512 + (recs_percent(recs[3]) * 256) % 65536) % 65536
}

/// Total length of the course in road segments.
pub open spec fn course_total(recs: Seq<u16>) -> int {
    let (ax, bx) = if course_is_circular(recs) {
        (2048int, 512int)
    } else {
        (992int, 256int)
    };
    ((ax - bx) * course_length(recs) % 65536) / 26111 + bx
}

/// The least number of sections of the course.
pub open spec fn course_min_sections(recs: Seq<u16>) -> int {
    let q = course_total(recs) / 240 + 1;
    if q > 3 {
        q
    } else {
        3
    }
}

/// The number of sections of the course (16-bit and 32-bit arithmetic wrap around).
pub open spec fn course_sections(recs: Seq<u16>) -> int {
    let a = course_min_sections(recs);
    let m = if course_total(recs) / 128 < 15 {
        course_total(recs) / 128
    } else {
        15
    };
    let span = (m - a + 1 + 0x1_0000_0000) % 0x1_0000_0000;
    let scaled = (span * (course_hash(recs) / 65536)) % 0x1_0000_0000;
    (scaled / 65536 + a) % 65536
}

/// Whether the layout of course `recs` can be computed: the route names a scenery, the
/// course has sections, and an A-to-B course has at most sixteen.
pub open spec fn course_defined(recs: Seq<u16>) -> bool {
    &&& recs.len() == 9
    &&& recs[0] <= 26
    &&& course_sections(recs) != 0
    &&& !course_is_circular(recs) ==> course_sections(recs) <= 16
}

/// The layout of a course as the course code describes it.
pub struct CourseLayout {
    pub is_circular: bool,
    pub scenario: Scenario,
    /// Per cent of curves.
    pub curves: u16,
    /// Per cent of sharpness.
    pub sharpness: u16,
    /// Length setting, with the hash mixed in.
    pub length: u16,
    /// Per cent of hills.
    pub hills: u16,
    /// Per cent of steepness.
    pub steepness: u16,
    /// Per cent of scenery.
    pub scenery: u16,
    /// Per cent of scatter.
    pub scatter: u16,
    /// The obstacles value as it is.
    pub obstacles: u16,
    pub hash_lo: u16,
    pub hash_hi: u16,
    /// Where the course starts in the segment buffer, in bytes.
    pub buf_offset: usize,
    /// Segment where the generators start.
    pub start_segment: u16,
    /// Total length in segments.
    pub total: u16,
    /// Least number of sections.
    pub min_sections: u16,
    /// Number of sections.
    pub sections: u16,
    /// Section length; for a course from A to B, the total length.
    pub section_len: u16,
    /// Segment where each section ends; ends with 0xFFFF (A to B only).
    pub checkpoints: [u16; 17],
    /// State of the course generator.
    pub rng: [u32; 4],
}

/// The hash of a course code.
fn compute_course_hash(recs: &[u16; 9]) -> (r: u32)
    ensures
        r == course_hash(recs@),
{
    let mut eax: u32 = 0;
    let mut di: u16 = 7;
    let mut k: usize = 0;
    while k < 8
        invariant
            k <= 8,
            di == 7 + 11 * k,
            eax == course_hash_upto(recs@, k as nat),
        decreases 8 - k,
    {
        let count = recs[k].wrapping_add(di);
        let mut cx: u16 = count;
        let ghost e0 = eax;
        while cx > 0
            invariant
                hash_rounds(e0, count as nat) == hash_rounds(eax, cx as nat),
            decreases cx,
        {
            cx = cx - 1;
            eax = rotate_left3(eax.wrapping_add(cx as u32));
        }
        assert(count == hash_count(recs@, k as int));
        di = di + 11;
        k = k + 1;
    }
    eax
}

/// Length setting, total length, least number of sections and number of sections.
fn compute_course_sizes(recs: &[u16; 9], hash: u32, circular: bool) -> (r: (u16, u16, u16, u16))
    requires
        hash == course_hash(recs@),
        circular == course_is_circular(recs@),
    ensures
        r.0 == course_length(recs@),
        r.1 == course_total(recs@),
        r.2 == course_min_sections(recs@),
        r.3 == course_sections(recs@),
{
    let hash_hi = (hash / 65536) as u16;
    let length0 = sub_d097(recs[3]);
    let length = (hash_hi & 0x1FF).wrapping_add(length0.wrapping_mul(256));
    proof {
        assert(hash_hi & 0x1FF == hash_hi % 512) by (bit_vector);
    }
    let (hi, lo): (u16, u16) = if circular {
        (2048, 512)
    } else {
        (992, 256)
    };
    let total = (hi - lo).wrapping_mul(length) / 26111 + lo;
    let q = total / 240 + 1;
    let min_sections: u16 = if q > 3 {
        q
    } else {
        3
    };
    let m: u32 = if (total as u32) / 128 < 15 {
        (total as u32) / 128
    } else {
        15
    };
    let span = m.wrapping_sub(min_sections as u32).wrapping_add(1);
    let scaled = span.wrapping_mul(hash_hi as u32);
    proof {
        assert(scaled >> 16 == scaled / 65536) by (bit_vector);
    }
    let sections = ((scaled >> 16) as u16).wrapping_add(min_sections);
    (length, total, min_sections, sections)
}

/// Segment where section `i` of a course from A to B ends: `seg` per section after the
/// first eight segments, in 16 bits.
pub open spec fn section_end(seg: u16, i: int) -> int {
    (8 + i * seg) % 65536
}

proof fn lemma_section_end_next(seg: u16, i: int)
    requires
        i >= 1,
    ensures
        section_end(seg, i) == (section_end(seg, i - 1) + seg) % 65536,
{
    assert((8 + i * seg) % 65536 == ((8 + (i - 1) * seg) % 65536 + seg) % 65536) by (nonlinear_arith);
}

/// Section ends of a course from A to B: the first at segment 8, each next one `seg`
/// further, the last at `total + 8`, then the end mark; the course generator takes one
/// step per section.
fn fill_checkpoints(cp: &mut [u16; 17], rng: &mut [u32; 4], sections: u16, seg: u16, total: u16)
    requires
        1 <= sections <= 16,
    ensures
        sections > 1 ==> final(cp)@[0] == 8,
        forall|i: int| 1 <= i < sections - 1 ==> final(cp)@[i] == section_end(seg, i),
        final(cp)@[sections - 1] == (total + 8) % 65536,
        final(cp)@[sections as int] == 0xFFFF,
        forall|i: int| sections < i < 17 ==> final(cp)@[i] == old(cp)@[i],
        final(rng)@ == rng_steps(old(rng)@, TRACK_RNG_ADD@, sections as nat),
{
    let ghost r0 = rng@;
    let mut cx: u16 = 8;
    cp[0] = cx;
    let mut i: usize = 1;
    while i <= sections as usize
        invariant
            1 <= i <= sections + 1,
            sections <= 16,
            cx == section_end(seg, i - 1),
            cp@[0] == 8,
            forall|j: int| 1 <= j < i ==> cp@[j] == section_end(seg, j),
            forall|j: int| i <= j < 17 ==> cp@[j] == old(cp)@[j],
            rng@ == rng_steps(r0, TRACK_RNG_ADD@, (i - 1) as nat),
        decreases sections + 1 - i,
    {
        let _ = smart_crc(rng);
        proof {
            lemma_section_end_next(seg, i as int);
        }
        cx = cx.wrapping_add(seg);
        cp[i] = cx;
        i = i + 1;
    }
    cp[(sections - 1) as usize] = total.wrapping_add(8);
    cp[sections as usize] = 0xFFFF;
}

/// Whether the layout of course `recs` can be computed (see [`course_defined`]).
pub fn course_is_defined(recs: &[u16; 9]) -> (b: bool)
    ensures
        b == course_defined(recs@),
{
    if recs[0] > 26 {
        return false;
    }
    let mut ax = recs[0];
    if ax >= 13 {
        ax = ax - 1;
    }
    proof {
        assert(ax & 1 == ax % 2) by (bit_vector);
    }
    let circular = ax & 1 == 1;
    let eax = compute_course_hash(recs);
    let (_, _, _, sections) = compute_course_sizes(recs, eax, circular);
    sections != 0 && (circular || sections <= 16)
}

/// A9D3: computes the course layout of the course code `recs` (route, then curves,
/// sharpness, length, hills, steepness, scenery, scatter, obstacles) and seeds the course
/// generator with the code's hash. The checkpoints of a circular course are left as
/// they were.
pub fn sub_a9d3(recs: &[u16; 9], layout: &mut CourseLayout)
    requires
        course_defined(recs@),
    ensures
        ({
            let l = *final(layout);
            let h = course_hash(recs@);
            let circ = course_is_circular(recs@);
            let n = course_sections(recs@);
            &&& l.is_circular == circ
            &&& l.scenario == menu_scenario(course_route(recs@) / 2)
            &&& l.curves == recs_percent(recs@[1])
            &&& l.sharpness == recs_percent(recs@[2])
            &&& l.length == course_length(recs@)
            &&& l.hills == recs_percent(recs@[4])
            &&& l.steepness == recs_percent(recs@[5])
            &&& l.scenery == recs_percent(recs@[6])
            &&& l.scatter == recs_percent(recs@[7])
            &&& l.obstacles == recs@[8]
            &&& l.hash_lo == h % 65536
            &&& l.hash_hi == h / 65536
            &&& l.buf_offset == (if circ { 0int } else { 128 })
            &&& l.start_segment == (if circ { 0int } else { 8 })
            &&& l.total == course_total(recs@)
            &&& l.min_sections == course_min_sections(recs@)
            &&& l.sections == n
            &&& circ ==> {
                &&& l.section_len == course_total(recs@) / n
                &&& l.checkpoints == old(layout).checkpoints
                &&& l.rng@ == seq![h, h, h, h]
            }
            &&& !circ ==> {
                &&& l.section_len == course_total(recs@)
                &&& n > 1 ==> l.checkpoints@[0] == 8
                &&& forall|i: int|
                    1 <= i < n - 1 ==> l.checkpoints@[i] == section_end((course_total(recs@) / n) as u16, i)
                &&& l.checkpoints@[n - 1] == (course_total(recs@) + 8) % 65536
                &&& l.checkpoints@[n] == 0xFFFF
                &&& forall|i: int| n < i < 17 ==> l.checkpoints@[i] == old(layout).checkpoints@[i]
                &&& l.rng@ == rng_steps(seq![h, h, h, h], TRACK_RNG_ADD@, n as nat)
            }
        }),
{
    let mut ax = recs[0];
    if ax >= 13 {
        ax = ax - 1;
    }
    proof {
        assert(ax & 1 == ax % 2) by (bit_vector);
    }
    let circular = ax & 1 == 1;
    let eax = compute_course_hash(recs);
    let (length, total, min_sections, sections) = compute_course_sizes(recs, eax, circular);
    layout.is_circular = circular;
    layout.scenario = scenario_of_menu_entry((ax / 2) as usize);
    layout.curves = sub_d097(recs[1]);
    layout.sharpness = sub_d097(recs[2]);
    layout.hills = sub_d097(recs[4]);
    layout.steepness = sub_d097(recs[5]);
    layout.scenery = sub_d097(recs[6]);
    layout.scatter = sub_d097(recs[7]);
    layout.obstacles = recs[8];
    layout.hash_lo = (eax % 65536) as u16;
    layout.hash_hi = (eax / 65536) as u16;
    layout.rng = [eax, eax, eax, eax];
    assert(layout.rng@ =~= seq![eax, eax, eax, eax]);
    if circular {
        layout.buf_offset = 0;
        layout.start_segment = 0;
    } else {
        layout.buf_offset = 128;
        layout.start_segment = 8;
    }
    layout.length = length;
    layout.total = total;
    layout.min_sections = min_sections;
    layout.sections = sections;
    let seg = total / sections;
    if circular {
        layout.section_len = seg;
        return;
    }
    fill_checkpoints(&mut layout.checkpoints, &mut layout.rng, sections, seg, total);
    layout.section_len = total;
}

} // verus!
