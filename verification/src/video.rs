//! The percentage scale of the course settings, and clearing the screen buffer.

use vstd::prelude::*;

verus! {

/// The percentage that course setting `ax` stands for: steps of four per cent, with
/// 13 in the middle of the scale standing for 50 per cent (16-bit arithmetic).
pub open spec fn recs_percent(ax: u16) -> u16 {
    if ax == 13 {
        50
    } else if ax > 13 {
        ((ax - 1) * 4 % 65536) as u16
    } else {
        (ax * 4) as u16
    }
}

/// Converts a course setting (0 to 26) to per cent: 0, 4, ..., 48, then 50 for 13,
/// then 52, ..., 100.
pub fn sub_d097(ax: u16) -> (r: u16)
    ensures
        r == recs_percent(ax),
{
    if ax == 13 {
        50
    } else if ax > 13 {
        (ax - 1).wrapping_mul(4)
    } else {
        ax * 4
    }
}

/// 92A4: clears the screen buffer: every byte 0.
pub fn sub_92a4(buf: &mut Vec<u8>)
    ensures
        final(buf)@ == Seq::new(old(buf)@.len(), |i: int| 0u8),
{
    let n = buf.len();
    let mut i: usize = 0;
    while i < n
        invariant
            i <= n == buf@.len(),
            n == old(buf)@.len(),
            forall|j: int| 0 <= j < i ==> buf@[j] == 0u8,
        decreases n - i,
    {
        buf.set(i, 0);
        i = i + 1;
    }
    assert(buf@ =~= Seq::new(n as nat, |i: int| 0u8));
}

} // verus!
