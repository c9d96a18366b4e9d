//! The program's heap: a list of blocks in address order, each with a 16-byte header,
//! allocated first fit, split when the rest is large enough, and merged with free
//! neighbours when freed.
//!
//! The blocks are kept in a vector in address order; a block's neighbours in the list
//! are its neighbours in the vector, and each block records their addresses. A block
//! reaches from its address to the next block's, the last one to the end of the heap.
//! Addresses are those of the program's data segment; the heap keeps the bookkeeping,
//! and the bytes of the blocks lie in a memory the caller holds (indexed by address),
//! which only a moving reallocation touches.

use vstd::prelude::*;

verus! {

/// The last byte of memory below the extended BIOS data area.
pub const LAST_MEMORY_BYTE_ADDR: usize = 0x9FBFF;

/// Size of a block's header.
pub const ALLOCATOR_BLOCK_SIZE: usize = 16;

/// The least payload worth splitting off.
pub const MIN_BLOCK_USEFUL_SIZE: usize = 16;

/// Alignment of the blocks and of the sizes.
pub const ALLOCATOR_ALIGN: usize = 16;

/// A block of the heap.
#[derive(Clone, Copy, Debug, PartialEq, Eq, Structural)]
pub struct AllocatorBlock {
    /// Address of the next block.
    pub next: Option<usize>,
    /// Address of the previous block.
    pub prev: Option<usize>,
    pub used: bool,
    /// The block's own address.
    pub addr: usize,
}

/// `value` rounded up to a multiple of `align` (a power of two), by the mask.
pub open spec fn align_up_spec(value: int, align: int) -> int {
    ((value + align - 1) as usize & !((align - 1) as usize)) as int
}

/// A number whose bits below the power of two `align` are clear is a multiple of it.
proof fn lemma_mask_multiple(r: usize, align: usize)
    requires
        1 <= align,
        align & (align - 1) as usize == 0,
        r & (align - 1) as usize == 0,
    ensures
        r % align == 0,
    decreases align,
{
    if align > 1 {
        let b: usize = align / 2;
        let h: usize = r / 2;
        assert(align == 2 * b && b >= 1 && b & (b - 1) as usize == 0 && h & (b - 1) as usize == 0 && r == 2 * h)
            by (bit_vector)
            requires
                align > 1,
                align & (align - 1) as usize == 0,
                r & (align - 1) as usize == 0,
                b == align / 2,
                h == r / 2,
        ;
        lemma_mask_multiple(h, b);
        assert(r % align == 0) by (nonlinear_arith)
            requires
                h % b == 0,
                align == 2 * b,
                b >= 1,
                r == 2 * h,
        {
            assert(h == b * (h / b));
            assert(r == align * (h / b));
        }
    }
}

/// The heap's alignment is a power of two.
proof fn lemma_align_pow2()
    ensures
        ALLOCATOR_ALIGN & (ALLOCATOR_ALIGN - 1) as usize == 0,
{
    assert(16usize & 15usize == 0) by (bit_vector);
}

/// Rounds `value` up to a multiple of `align` (a power of two): the least multiple of
/// `align` not below `value`.
pub fn align_up(value: usize, align: usize) -> (r: usize)
    requires
        1 <= align,
        align & (align - 1) as usize == 0,
        value + align - 1 <= usize::MAX,
    ensures
        r == align_up_spec(value as int, align as int),
        r % align == 0,
        value <= r < value + align,
        align == 16 ==> r == (value + 15) / 16 * 16,
{
    let x = value + (align - 1);
    let m = align - 1;
    let r = x & !m;
    assert(r & m == 0 && r <= x && x - r <= m) by (bit_vector)
        requires
            1 <= align,
            align & m == 0,
            m == align - 1,
            r == x & !m,
    ;
    proof {
        lemma_mask_multiple(r, align);
    }
    if align == 16 {
        assert(x & !15usize == x / 16 * 16) by (bit_vector);
    }
    r
}

impl AllocatorBlock {
    /// The block's address.
    pub fn ptr(&self) -> (r: usize)
        ensures
            r == self.addr,
    {
        self.addr
    }

    /// The block's size with its header, in a heap that ends at `heap_end`.
    pub open spec fn spec_raw_size(&self, heap_end: usize) -> int {
        match self.next {
            Some(n) => n - self.addr,
            None => heap_end - self.addr,
        }
    }

    /// The block's size with its header (see [`AllocatorBlock::spec_raw_size`]).
    pub fn raw_size(&self, heap_end: usize) -> (r: usize)
        requires
            self.spec_raw_size(heap_end) >= 0,
        ensures
            r == self.spec_raw_size(heap_end),
    {
        match self.next {
            Some(n) => n - self.addr,
            None => heap_end - self.addr,
        }
    }

    /// The block's size without its header.
    pub fn payload_size(&self, heap_end: usize) -> (r: usize)
        requires
            self.spec_raw_size(heap_end) >= ALLOCATOR_BLOCK_SIZE,
        ensures
            r == self.spec_raw_size(heap_end) - ALLOCATOR_BLOCK_SIZE,
    {
        self.raw_size(heap_end) - ALLOCATOR_BLOCK_SIZE
    }
}

/// The heap: its blocks in address order and its end.
pub struct DosAllocator {
    pub blocks: Vec<AllocatorBlock>,
    pub heap_end: usize,
}

/// A heap as a mathematical value: each block's address and whether it is used.
pub type HeapView = Seq<(int, bool)>;

/// The end of block `i` of heap `v` that ends at `he`.
pub open spec fn block_end(v: HeapView, he: int, i: int) -> int {
    if i + 1 < v.len() {
        v[i + 1].0
    } else {
        he
    }
}

/// The payload size of block `i`.
pub open spec fn payload(v: HeapView, he: int, i: int) -> int {
    block_end(v, he, i) - v[i].0 - 16
}

/// A well-formed heap: at least one block, each at a multiple of 16 and with room for
/// its header.
#[verifier::opaque]
pub open spec fn heap_wf(v: HeapView, he: int) -> bool {
    &&& v.len() > 0
    &&& v[0].0 >= 0
    &&& he + 32 <= usize::MAX
    &&& forall|i: int| 0 <= i < v.len() ==> #[trigger] v[i].0 + 16 <= block_end(v, he, i)
    &&& forall|i: int| 0 <= i < v.len() ==> (#[trigger] v[i]).0 % 16 == 0
}

/// No two neighbouring blocks are both free.
pub open spec fn coalesced(v: HeapView) -> bool {
    forall|i: int| 0 <= i < v.len() - 1 ==> #[trigger] v[i].1 || v[i + 1].1
}

/// The first free block from block `i` on with a payload of at least `sz`.
pub open spec fn fit_from(v: HeapView, he: int, i: int, sz: int) -> Option<int>
    decreases v.len() - i,
{
    if i < 0 || i >= v.len() {
        None
    } else if !v[i].1 && payload(v, he, i) >= sz {
        Some(i)
    } else {
        fit_from(v, he, i + 1, sz)
    }
}

/// Block `i` split after a payload of `sz` where the rest is worth a block (a header
/// and sixteen bytes); otherwise unchanged.
pub open spec fn split_spec(v: HeapView, he: int, i: int, sz: int) -> HeapView {
    if payload(v, he, i) < sz + 32 {
        v
    } else {
        v.insert(i + 1, (v[i].0 + 16 + sz, false))
    }
}

/// Block `i` merged with the next block where that one is free.
pub open spec fn merge_next_spec(v: HeapView, i: int) -> HeapView {
    if i + 1 < v.len() && !v[i + 1].1 {
        v.remove(i + 1)
    } else {
        v
    }
}

/// Block `i` merged into the previous block where both are free.
pub open spec fn merge_prev_spec(v: HeapView, i: int) -> HeapView {
    if !v[i].1 && i > 0 && !v[i - 1].1 {
        v.remove(i)
    } else {
        v
    }
}

/// The heap after an allocation of `size` bytes (rounded up to 16): the first free
/// block that fits is used and split; gives the payload's address, or `None` (and the
/// heap unchanged) where no block fits.
pub open spec fn alloc_spec(v: HeapView, he: int, size: int) -> (HeapView, Option<int>) {
    let sz = (size + 15) / 16 * 16;
    match fit_from(v, he, 0, sz) {
        None => (v, None),
        Some(i) => (split_spec(v.update(i, (v[i].0, true)), he, i, sz), Some(v[i].0 + 16)),
    }
}

/// The heap after block `i` is freed: merged with a free next block, then into a free
/// previous one.
pub open spec fn dealloc_spec(v: HeapView, i: int) -> HeapView {
    merge_prev_spec(merge_next_spec(v.update(i, (v[i].0, false)), i), i)
}

/// The block whose payload starts at `ptr`.
pub open spec fn block_of(v: HeapView, ptr: int) -> int {
    choose|i: int| 0 <= i < v.len() && v[i].0 + 16 == ptr
}

/// An optional address as a mathematical integer.
pub open spec fn opt_int(r: Option<usize>) -> Option<int> {
    match r {
        Some(a) => Some(a as int),
        None => None,
    }
}

/// Whether `ptr` is the payload address of a block.
pub open spec fn is_payload(v: HeapView, ptr: int) -> bool {
    exists|i: int| 0 <= i < v.len() && v[i].0 + 16 == ptr
}

/// Each block records the addresses of its neighbours in the list.
#[verifier::opaque]
pub open spec fn links_ok(bs: Seq<AllocatorBlock>) -> bool {
    forall|i: int|
        0 <= i < bs.len() ==> {
            &&& (#[trigger] bs[i]).next == (if i + 1 < bs.len() { Some(bs[i + 1].addr) } else { None })
            &&& bs[i].prev == (if i > 0 { Some(bs[i - 1].addr) } else { None })
        }
}

/// What a well-formed heap says of block `k`.
pub proof fn lemma_heap_at(v: HeapView, he: int, k: int)
    requires
        heap_wf(v, he),
        0 <= k < v.len(),
    ensures
        v[k].0 + 16 <= block_end(v, he, k),
        v[k].0 % 16 == 0,
        v.len() > 0,
        he + 32 <= usize::MAX,
{
    reveal(heap_wf);
}

/// What the links say of block `k`.
pub proof fn lemma_links_at(bs: Seq<AllocatorBlock>, k: int)
    requires
        links_ok(bs),
        0 <= k < bs.len(),
    ensures
        bs[k].next == (if k + 1 < bs.len() { Some(bs[k + 1].addr) } else { None }),
        bs[k].prev == (if k > 0 { Some(bs[k - 1].addr) } else { None }),
{
    reveal(links_ok);
}

/// The blocks after a split of block `i` with the new block at `addr`.
pub open spec fn split_blocks(bs: Seq<AllocatorBlock>, i: int, addr: usize) -> Seq<AllocatorBlock> {
    let nb = AllocatorBlock { next: bs[i].next, prev: Some(bs[i].addr), used: false, addr };
    let bs1 = if i + 1 < bs.len() { bs.update(i + 1, AllocatorBlock { prev: Some(addr), ..bs[i + 1] }) } else { bs };
    bs1.update(i, AllocatorBlock { next: Some(addr), ..bs[i] }).insert(i + 1, nb)
}

proof fn lemma_split_links(bs: Seq<AllocatorBlock>, i: int, addr: usize)
    requires
        links_ok(bs),
        0 <= i < bs.len(),
    ensures
        links_ok(split_blocks(bs, i, addr)),
{
    reveal(links_ok);
    let w = split_blocks(bs, i, addr);
    assert forall|k: int| 0 <= k < w.len() implies {
        &&& (#[trigger] w[k]).next == (if k + 1 < w.len() { Some(w[k + 1].addr) } else { None })
        &&& w[k].prev == (if k > 0 { Some(w[k - 1].addr) } else { None })
    } by {
        if k < i {
            assert(bs[k].next == (if k + 1 < bs.len() { Some(bs[k + 1].addr) } else { None }));
            assert(bs[k].prev == (if k > 0 { Some(bs[k - 1].addr) } else { None }));
        } else if k > i + 1 {
            assert(bs[k - 1].next == (if k < bs.len() { Some(bs[k].addr) } else { None }));
            assert(bs[k - 1].prev == (if k - 1 > 0 { Some(bs[k - 2].addr) } else { None }));
        } else {
            assert(bs[i].next == (if i + 1 < bs.len() { Some(bs[i + 1].addr) } else { None }));
            assert(bs[i].prev == (if i > 0 { Some(bs[i - 1].addr) } else { None }));
        }
    }
}

#[verifier::rlimit(30)]
proof fn lemma_split_heap(v: HeapView, he: int, i: int, sz: int)
    requires
        heap_wf(v, he),
        0 <= i < v.len(),
        sz >= 0,
        sz % 16 == 0,
        payload(v, he, i) >= sz + 32,
    ensures
        heap_wf(split_spec(v, he, i, sz), he),
{
    reveal(heap_wf);
    let w = split_spec(v, he, i, sz);
    assert forall|k: int| 0 <= k < w.len() implies #[trigger] w[k].0 + 16 <= block_end(w, he, k) by {
        if k < i {
            assert(v[k].0 + 16 <= block_end(v, he, k));
        } else if k > i + 1 {
            assert(v[k - 1].0 + 16 <= block_end(v, he, k - 1));
        } else {
            assert(v[i].0 + 16 <= block_end(v, he, i));
        }
    }
    if payload(v, he, i) >= sz + 32 {
        assert(w == v.insert(i + 1, (v[i].0 + 16 + sz, false)));
        assert forall|k: int| 0 <= k < w.len() implies (#[trigger] w[k]).0 % 16 == 0 by {
            if k < i + 1 {
                assert(w[k] == v[k]);
            } else if k > i + 1 {
                assert(w[k] == v[k - 1]);
            } else {
                assert(v[i].0 % 16 == 0);
            }
        }
    }
}

/// The blocks after block `i + 1` is unlinked.
pub open spec fn unlink_blocks(bs: Seq<AllocatorBlock>, i: int) -> Seq<AllocatorBlock> {
    let bs1 = if i + 2 < bs.len() {
        bs.update(i + 2, AllocatorBlock { prev: Some(bs[i].addr), ..bs[i + 2] })
    } else {
        bs
    };
    bs1.update(i, AllocatorBlock { next: bs[i + 1].next, ..bs[i] }).remove(i + 1)
}

proof fn lemma_unlink_links(bs: Seq<AllocatorBlock>, i: int)
    requires
        links_ok(bs),
        0 <= i,
        i + 1 < bs.len(),
    ensures
        links_ok(unlink_blocks(bs, i)),
{
    reveal(links_ok);
    let w = unlink_blocks(bs, i);
    assert forall|k: int| 0 <= k < w.len() implies {
        &&& (#[trigger] w[k]).next == (if k + 1 < w.len() { Some(w[k + 1].addr) } else { None })
        &&& w[k].prev == (if k > 0 { Some(w[k - 1].addr) } else { None })
    } by {
        if k < i {
            assert(bs[k].next == (if k + 1 < bs.len() { Some(bs[k + 1].addr) } else { None }));
            assert(bs[k].prev == (if k > 0 { Some(bs[k - 1].addr) } else { None }));
        } else if k > i + 1 {
            assert(bs[k + 1].next == (if k + 2 < bs.len() { Some(bs[k + 2].addr) } else { None }));
            assert(bs[k + 1].prev == (if k + 1 > 0 { Some(bs[k].addr) } else { None }));
        } else {
            assert(bs[i].next == (if i + 1 < bs.len() { Some(bs[i + 1].addr) } else { None }));
            assert(bs[i].prev == (if i > 0 { Some(bs[i - 1].addr) } else { None }));
            assert(bs[i + 1].next == (if i + 2 < bs.len() { Some(bs[i + 2].addr) } else { None }));
            if i + 2 < bs.len() {
                assert(bs[i + 2].next == (if i + 3 < bs.len() { Some(bs[i + 3].addr) } else { None }));
            }
        }
    }
}

proof fn lemma_unlink_heap(v: HeapView, he: int, i: int)
    requires
        heap_wf(v, he),
        0 <= i,
        i + 1 < v.len(),
    ensures
        heap_wf(v.remove(i + 1), he),
{
    reveal(heap_wf);
    let w = v.remove(i + 1);
    assert forall|k: int| 0 <= k < w.len() implies #[trigger] w[k].0 + 16 <= block_end(w, he, k) by {
        if k < i {
            assert(v[k].0 + 16 <= block_end(v, he, k));
        } else if k > i {
            assert(v[k + 1].0 + 16 <= block_end(v, he, k + 1));
        } else {
            assert(v[i].0 + 16 <= block_end(v, he, i));
            assert(v[i + 1].0 + 16 <= block_end(v, he, i + 1));
        }
    }
}

/// A well-formed heap has blocks.
pub proof fn lemma_heap_nonempty(v: HeapView, he: int)
    requires
        heap_wf(v, he),
    ensures
        v.len() > 0,
        he + 32 <= usize::MAX,
{
    reveal(heap_wf);
}

/// Every block of a well-formed heap, header included, lies below its end.
pub proof fn lemma_below_end(v: HeapView, he: int, k: int)
    requires
        heap_wf(v, he),
        0 <= k < v.len(),
    ensures
        v[k].0 + 16 <= block_end(v, he, k) <= he,
    decreases v.len() - k,
{
    lemma_heap_at(v, he, k);
    if k + 1 < v.len() {
        lemma_below_end(v, he, k + 1);
    }
}

/// In a well-formed heap the blocks' addresses rise.
pub proof fn lemma_rising(v: HeapView, he: int, i: int, j: int)
    requires
        heap_wf(v, he),
        0 <= i < j < v.len(),
    ensures
        v[i].0 + 16 <= v[j].0,
    decreases j - i,
{
    lemma_heap_at(v, he, i);
    if j > i + 1 {
        lemma_rising(v, he, i + 1, j);
        lemma_heap_at(v, he, i + 1);
    }
}

/// The block of a payload address is the one whose address it follows.
pub proof fn lemma_block_of(v: HeapView, he: int, i: int)
    requires
        heap_wf(v, he),
        0 <= i < v.len(),
    ensures
        is_payload(v, v[i].0 + 16),
        block_of(v, v[i].0 + 16) == i,
{
    let ptr = v[i].0 + 16;
    assert(0 <= i < v.len() && v[i].0 + 16 == ptr);
    let k = block_of(v, ptr);
    if k < i {
        lemma_rising(v, he, k, i);
    } else if k > i {
        lemma_rising(v, he, i, k);
    }
}

/// The first fit from block `i` lies at or after it, fits, and no free block before it
/// from `i` on fits.
pub proof fn lemma_fit_from(v: HeapView, he: int, i: int, sz: int)
    requires
        0 <= i,
    ensures
        fit_from(v, he, i, sz) matches Some(k) ==> i <= k < v.len() && !v[k].1 && payload(v, he, k) >= sz,
    decreases v.len() - i,
{
    if i < v.len() && !(!v[i].1 && payload(v, he, i) >= sz) {
        lemma_fit_from(v, he, i + 1, sz);
    }
}

/// An allocation keeps the heap coalesced: no two neighbouring blocks are both free.
pub proof fn lemma_alloc_coalesced(v: HeapView, he: int, size: usize)
    requires
        heap_wf(v, he),
        coalesced(v),
    ensures
        coalesced(alloc_spec(v, he, size as int).0),
        heap_wf(alloc_spec(v, he, size as int).0, he),
{
    let sz = (size + 15) / 16 * 16;
    lemma_fit_from(v, he, 0, sz);
    match fit_from(v, he, 0, sz) {
        None => {},
        Some(k) => {
            let u = v.update(k, (v[k].0, true));
            let w = split_spec(u, he, k, sz);
            assert(heap_wf(u, he)) by {
                reveal(heap_wf);
                assert forall|j: int| 0 <= j < u.len() implies #[trigger] u[j].0 + 16 <= block_end(u, he, j) by {
                    assert(v[j].0 + 16 <= block_end(v, he, j));
                }
            }
            if payload(u, he, k) >= sz + 32 {
                lemma_split_heap(u, he, k, sz);
            }
            assert forall|j: int| 0 <= j < w.len() - 1 implies #[trigger] w[j].1 || w[j + 1].1 by {
                if payload(u, he, k) >= sz + 32 {
                    if j < k {
                        assert(v[j].1 || v[j + 1].1);
                    } else if j > k + 1 {
                        assert(v[j - 1].1 || v[j].1);
                    } else if j == k + 1 {
                        if k + 1 < v.len() {
                            assert(v[k].1 || v[k + 1].1);
                        }
                    }
                } else {
                    assert(v[j].1 || v[j + 1].1);
                }
            }
        },
    }
}

/// Freeing a block keeps the heap coalesced.
pub proof fn lemma_dealloc_coalesced(v: HeapView, he: int, i: int)
    requires
        heap_wf(v, he),
        coalesced(v),
        0 <= i < v.len(),
    ensures
        coalesced(dealloc_spec(v, i)),
        heap_wf(dealloc_spec(v, i), he),
{
    let u = v.update(i, (v[i].0, false));
    assert(heap_wf(u, he)) by {
        reveal(heap_wf);
        assert forall|j: int| 0 <= j < u.len() implies #[trigger] u[j].0 + 16 <= block_end(u, he, j) by {
            assert(v[j].0 + 16 <= block_end(v, he, j));
        }
    }
    let m = merge_next_spec(u, i);
    if i + 1 < u.len() && !u[i + 1].1 {
        lemma_unlink_heap(u, he, i);
    }
    assert forall|j: int| 0 <= j < m.len() - 1 implies #[trigger] m[j].1 || m[j + 1].1 || j == i || j + 1 == i by {
        if i + 1 < u.len() && !u[i + 1].1 {
            if j < i {
                assert(v[j].1 || v[j + 1].1);
            } else if j > i {
                assert(v[j + 1].1 || v[j + 2].1);
            }
        } else {
            assert(v[j].1 || v[j + 1].1);
        }
    }
    if i + 1 < m.len() {
        assert(m[i + 1].1) by {
            if i + 1 < u.len() && !u[i + 1].1 {
                assert(v[i + 1].1 || v[i + 2].1);
            }
        }
    }
    let d = merge_prev_spec(m, i);
    if !m[i].1 && i > 0 && !m[i - 1].1 {
        lemma_unlink_heap(m, he, i - 1);
        assert(i < 2 || m[i - 2].1) by {
            if i >= 2 {
                assert(v[i - 2].1 || v[i - 1].1);
            }
        }
    }
    assert forall|j: int| 0 <= j < d.len() - 1 implies #[trigger] d[j].1 || d[j + 1].1 by {
        if !m[i].1 && i > 0 && !m[i - 1].1 {
            if j < i - 2 {
                assert(m[j].1 || m[j + 1].1 || j == i || j + 1 == i);
            } else if j >= i {
                assert(m[j + 1].1 || m[j + 2].1 || j + 1 == i || j + 2 == i);
            }
        } else {
            assert(m[j].1 || m[j + 1].1 || j == i || j + 1 == i);
            if j == i && i + 1 < m.len() {
                assert(m[i + 1].1);
            }
            if j + 1 == i {
                assert(m[i - 1].1 || m[i].1);
            }
        }
    }
}

/// On a coalesced heap, freeing the block that an allocation gave back restores the
/// heap as it was before the allocation.
pub proof fn lemma_alloc_then_dealloc(v: HeapView, he: int, size: usize)
    requires
        heap_wf(v, he),
        coalesced(v),
        alloc_spec(v, he, size as int).1 is Some,
    ensures
        is_payload(alloc_spec(v, he, size as int).0, alloc_spec(v, he, size as int).1->0),
        dealloc_spec(
            alloc_spec(v, he, size as int).0,
            block_of(alloc_spec(v, he, size as int).0, alloc_spec(v, he, size as int).1->0),
        ) == v,
{
    let sz = (size + 15) / 16 * 16;
    lemma_fit_from(v, he, 0, sz);
    let k = fit_from(v, he, 0, sz)->0;
    let u = v.update(k, (v[k].0, true));
    let w = split_spec(u, he, k, sz);
    lemma_alloc_coalesced(v, he, size);
    assert(w[k].0 == v[k].0);
    lemma_block_of(w, he, k);
    if k > 0 {
        assert(v[k - 1].1 || v[k].1);
    }
    if k + 1 < v.len() {
        assert(v[k].1 || v[k + 1].1);
    }
    let d = dealloc_spec(w, k);
    if payload(u, he, k) >= sz + 32 {
        assert(d =~= v);
    } else {
        assert(d =~= v);
    }
}

/// An allocation keeps the payload address of a block too small for it.
proof fn lemma_alloc_keeps_payload(v: HeapView, he: int, size: int, ptr: int)
    requires
        heap_wf(v, he),
        is_payload(v, ptr),
        payload(v, he, block_of(v, ptr)) < (size + 15) / 16 * 16,
    ensures
        is_payload(alloc_spec(v, he, size).0, ptr),
{
    let sz = (size + 15) / 16 * 16;
    let i = block_of(v, ptr);
    assert(0 <= i < v.len() && v[i].0 + 16 == ptr);
    lemma_fit_from(v, he, 0, sz);
    match fit_from(v, he, 0, sz) {
        None => {},
        Some(k) => {
            let u = v.update(k, (v[k].0, true));
            let w = split_spec(u, he, k, sz);
            if payload(u, he, k) >= sz + 32 && i > k {
                assert(w[i + 1].0 + 16 == ptr);
            } else {
                assert(w[i].0 + 16 == ptr);
            }
        },
    }
}

/// The heap after block `i` is shrunk to a payload of `sz`: split where the rest is
/// worth a block, the rest merged with a free next block.
pub open spec fn shrink_spec(v: HeapView, he: int, i: int, sz: int) -> HeapView {
    if payload(v, he, i) < sz + 32 {
        v
    } else {
        merge_next_spec(split_spec(v, he, i, sz), i + 1)
    }
}

impl DosAllocator {
    /// The heap as a mathematical value.
    pub open spec fn view_heap(&self) -> HeapView {
        self.blocks@.map_values(|b: AllocatorBlock| (b.addr as int, b.used))
    }

    /// The blocks' links agree with their order, and the heap is well formed.
    pub open spec fn wf(&self) -> bool {
        &&& heap_wf(self.view_heap(), self.heap_end as int)
        &&& links_ok(self.blocks@)
    }

    /// The payload size of block `i`.
    fn block_payload(&self, i: usize) -> (r: usize)
        requires
            self.wf(),
            i < self.blocks@.len(),
        ensures
            r == payload(self.view_heap(), self.heap_end as int, i as int),
    {
        proof {
            lemma_heap_at(self.view_heap(), self.heap_end as int, i as int);
            lemma_links_at(self.blocks@, i as int);
            if i + 1 < self.blocks@.len() {
                assert(self.view_heap()[i + 1].0 == self.blocks@[i + 1].addr);
            }
        }
        self.blocks[i].payload_size(self.heap_end)
    }

    /// Splits block `i` after a payload of `size` (a multiple of 16, as the heap's sizes
    /// are) where the rest is worth a block (see [`split_spec`]); returns the new block's
    /// index.
    pub fn split(&mut self, i: usize, size: usize) -> (r: Option<usize>)
        requires
            old(self).wf(),
            i < old(self).blocks@.len(),
            size + 32 <= usize::MAX,
            size % 16 == 0,
        ensures
            final(self).wf(),
            final(self).heap_end == old(self).heap_end,
            final(self).view_heap() == split_spec(old(self).view_heap(), old(self).heap_end as int, i as int, size as int),
            r is Some <==> payload(old(self).view_heap(), old(self).heap_end as int, i as int) >= size + 32,
            r matches Some(j) ==> j == i + 1,
    {
        let ghost v = self.view_heap();
        let ghost he = self.heap_end as int;
        let p = self.block_payload(i);
        if p < size + ALLOCATOR_BLOCK_SIZE + MIN_BLOCK_USEFUL_SIZE {
            return None;
        }
        let here = self.blocks[i];
        let addr = here.addr + ALLOCATOR_BLOCK_SIZE + size;
        let nb = AllocatorBlock { next: here.next, prev: Some(here.addr), used: false, addr };
        let len = self.blocks.len();
        if i + 1 < len {
            let mut after = self.blocks[i + 1];
            after.prev = Some(addr);
            self.blocks.set(i + 1, after);
        }
        let mut b = here;
        b.next = Some(addr);
        self.blocks.set(i, b);
        self.blocks.insert(i + 1, nb);
        proof {
            assert(self.blocks@ =~= split_blocks(old(self).blocks@, i as int, addr));
            lemma_split_links(old(self).blocks@, i as int, addr);
            lemma_split_heap(v, he, i as int, size as int);
            assert(self.view_heap() =~= split_spec(v, he, i as int, size as int));
        }
        Some(i + 1)
    }

    /// Unlinks block `i + 1`, so that block `i` reaches over it.
    fn unlink_after(&mut self, i: usize)
        requires
            old(self).wf(),
            i + 1 < old(self).blocks@.len(),
        ensures
            final(self).wf(),
            final(self).heap_end == old(self).heap_end,
            final(self).view_heap() == old(self).view_heap().remove(i + 1),
    {
        let len = self.blocks.len();
        let here = self.blocks[i];
        let nn = self.blocks[i + 1].next;
        if i + 2 < len {
            let mut b = self.blocks[i + 2];
            b.prev = Some(here.addr);
            self.blocks.set(i + 2, b);
        }
        let mut h = here;
        h.next = nn;
        self.blocks.set(i, h);
        let _ = self.blocks.remove(i + 1);
        proof {
            assert(self.blocks@ =~= unlink_blocks(old(self).blocks@, i as int));
            lemma_unlink_links(old(self).blocks@, i as int);
            lemma_unlink_heap(old(self).view_heap(), self.heap_end as int, i as int);
            assert(self.view_heap() =~= old(self).view_heap().remove(i + 1));
        }
    }

    /// Merges block `i` with the next block where that one is free (see
    /// [`merge_next_spec`]).
    pub fn merge_with_next(&mut self, i: usize)
        requires
            old(self).wf(),
            i < old(self).blocks@.len(),
        ensures
            final(self).wf(),
            final(self).heap_end == old(self).heap_end,
            final(self).view_heap() == merge_next_spec(old(self).view_heap(), i as int),
    {
        let len = self.blocks.len();
        if i < len - 1 && !self.blocks[i + 1].used {
            self.unlink_after(i);
        }
    }

    /// Merges block `i` into the previous block where both are free (see
    /// [`merge_prev_spec`]).
    pub fn merge_with_prev(&mut self, i: usize)
        requires
            old(self).wf(),
            i < old(self).blocks@.len(),
        ensures
            final(self).wf(),
            final(self).heap_end == old(self).heap_end,
            final(self).view_heap() == merge_prev_spec(old(self).view_heap(), i as int),
    {
        if !self.blocks[i].used && i > 0 && !self.blocks[i - 1].used {
            self.unlink_after(i - 1);
        }
    }

    /// Marks block `i` used or free.
    fn set_used(&mut self, i: usize, used: bool)
        requires
            old(self).wf(),
            i < old(self).blocks@.len(),
        ensures
            final(self).wf(),
            final(self).heap_end == old(self).heap_end,
            final(self).view_heap() == old(self).view_heap().update(i as int, (old(self).view_heap()[i as int].0, used)),
            final(self).blocks@.len() == old(self).blocks@.len(),
    {
        let mut b = self.blocks[i];
        b.used = used;
        self.blocks.set(i, b);
        proof {
            let v = old(self).view_heap();
            let w = self.view_heap();
            assert(w =~= v.update(i as int, (v[i as int].0, used)));
            reveal(heap_wf);
            reveal(links_ok);
            assert forall|k: int| 0 <= k < w.len() implies #[trigger] w[k].0 + 16 <= block_end(w, self.heap_end as int, k) by {
                assert(v[k].0 + 16 <= block_end(v, self.heap_end as int, k));
            }
            assert forall|k: int| 0 <= k < self.blocks@.len() implies {
                &&& (#[trigger] self.blocks@[k]).next == (if k + 1 < self.blocks@.len() {
                    Some(self.blocks@[k + 1].addr)
                } else {
                    None
                })
                &&& self.blocks@[k].prev == (if k > 0 { Some(self.blocks@[k - 1].addr) } else { None })
            } by {
                assert(old(self).blocks@[k].next == (if k + 1 < self.blocks@.len() {
                    Some(old(self).blocks@[k + 1].addr)
                } else {
                    None
                }));
                assert(old(self).blocks@[k].prev == (if k > 0 { Some(old(self).blocks@[k - 1].addr) } else { None }));
            }
        }
    }

    /// Allocates `size` bytes (rounded up to 16): the first free block that fits is
    /// used and split (see [`alloc_spec`]); returns the payload's address, or `None`
    /// where no block fits.
    pub fn allocate(&mut self, size: usize) -> (r: Option<usize>)
        requires
            old(self).wf(),
            size + 15 <= usize::MAX,
        ensures
            final(self).wf(),
            final(self).heap_end == old(self).heap_end,
            (final(self).view_heap(), opt_int(r)) == alloc_spec(old(self).view_heap(), old(self).heap_end as int, size as int),
            r matches Some(p) ==> p % 16 == 0,
    {
        let ghost v = self.view_heap();
        let ghost he = self.heap_end as int;
        proof {
            lemma_align_pow2();
        }
        let sz = align_up(size, ALLOCATOR_ALIGN);
        assert(sz == (size + 15) / 16 * 16);
        proof {
            lemma_heap_nonempty(v, he);
        }
        let len = self.blocks.len();
        let mut i: usize = 0;
        loop
            invariant
                self.wf(),
                self.view_heap() == v,
                v == old(self).view_heap(),
                he == old(self).heap_end,
                self.heap_end == he,
                self.blocks@.len() == len,
                i < len,
                sz == (size + 15) / 16 * 16,
                fit_from(v, he, i as int, sz as int) == fit_from(v, he, 0, sz as int),
            ensures
                i < len,
                self.view_heap() == v,
                fit_from(v, he, i as int, sz as int) == fit_from(v, he, 0, sz as int),
                !v[i as int].1 && payload(v, he, i as int) >= sz,
            decreases len - i,
        {
            let used = self.blocks[i].used;
            assert(used == v[i as int].1);
            if !used && self.block_payload(i) >= sz {
                break;
            }
            assert(fit_from(v, he, i as int, sz as int) == fit_from(v, he, (i + 1) as int, sz as int));
            if i + 1 < len {
                i = i + 1;
            } else {
                assert(fit_from(v, he, (i + 1) as int, sz as int) == None::<int>);
                assert(alloc_spec(v, he, size as int) == (v, None::<int>));
                return None;
            }
        }
        assert(fit_from(v, he, i as int, sz as int) == Some(i as int));
        let addr = self.blocks[i].addr;
        proof {
            lemma_below_end(v, he, i as int);
            lemma_fit_from(v, he, i as int, sz as int);
            lemma_heap_at(v, he, i as int);
        }
        self.set_used(i, true);
        let _ = self.split(i, sz);
        Some(addr + ALLOCATOR_BLOCK_SIZE)
    }

    /// The block whose payload starts at `ptr`.
    pub fn find_block(&self, ptr: usize) -> (i: usize)
        requires
            self.wf(),
            is_payload(self.view_heap(), ptr as int),
        ensures
            i == block_of(self.view_heap(), ptr as int),
            i < self.blocks@.len(),
    {
        let ghost v = self.view_heap();
        let ghost he = self.heap_end as int;
        let ghost target = choose|k: int| 0 <= k < v.len() && v[k].0 + 16 == ptr;
        let len = self.blocks.len();
        proof {
            assert forall|k: int| 0 <= k < len implies #[trigger] self.blocks@[k].addr + 16 <= he by {
                lemma_below_end(v, he, k);
                assert(v[k].0 == self.blocks@[k].addr);
            }
            lemma_heap_nonempty(v, he);
        }
        let mut i: usize = 0;
        while self.blocks[i].addr + ALLOCATOR_BLOCK_SIZE != ptr
            invariant
                self.wf(),
                self.view_heap() == v,
                self.heap_end == he,
                self.blocks@.len() == len,
                i <= target < len,
                v[target].0 + 16 == ptr,
                forall|k: int| 0 <= k < len ==> #[trigger] self.blocks@[k].addr + 16 <= he,
            decreases target - i,
        {
            proof {
                if i == target {
                    assert(self.blocks@[i as int].addr + 16 == ptr);
                }
            }
            i = i + 1;
        }
        proof {
            lemma_block_of(v, he, i as int);
        }
        i
    }

    /// Frees the block whose payload starts at `ptr` (nothing for a null `ptr`): it is
    /// merged with free neighbours (see [`dealloc_spec`]).
    pub fn dealloc(&mut self, ptr: usize)
        requires
            old(self).wf(),
            ptr == 0 || is_payload(old(self).view_heap(), ptr as int),
        ensures
            final(self).wf(),
            final(self).heap_end == old(self).heap_end,
            ptr == 0 ==> final(self).view_heap() == old(self).view_heap(),
            ptr != 0 ==> final(self).view_heap() == dealloc_spec(
                old(self).view_heap(),
                block_of(old(self).view_heap(), ptr as int),
            ),
    {
        if ptr == 0 {
            return;
        }
        let ghost v = self.view_heap();
        let ghost he = self.heap_end as int;
        let i = self.find_block(ptr);
        self.set_used(i, false);
        self.merge_with_next(i);
        assert(self.view_heap().len() == self.blocks@.len());
        self.merge_with_prev(i);
    }

    /// Resizes the block whose payload starts at `ptr`, holding `old_size` bytes, to
    /// `new_size` bytes (rounded up to 16): in place where it fits (see [`shrink_spec`]),
    /// else a new block is allocated, the first `old_size` or `new_size` bytes (the
    /// fewer) are copied to it in the memory `mem` (indexed by address), and the old
    /// block is freed (see [`moved_bytes`]). Returns the payload's address, or `None`
    /// (and the heap and memory unchanged) where no block fits.
    pub fn realloc(&mut self, mem: &mut Vec<u8>, ptr: usize, old_size: usize, new_size: usize) -> (r: Option<usize>)
        requires
            old(self).wf(),
            ptr != 0,
            is_payload(old(self).view_heap(), ptr as int),
            old_size <= payload(old(self).view_heap(), old(self).heap_end as int, block_of(old(self).view_heap(), ptr as int)),
            old(mem)@.len() >= old(self).heap_end,
            new_size + 15 <= usize::MAX,
        ensures
            final(self).wf(),
            match r {
                Some(p) if p != ptr => final(mem)@ == moved_bytes(old(mem)@, ptr as int, p as int, (if old_size < new_size { old_size } else { new_size }) as int),
                _ => final(mem)@ == old(mem)@,
            },
            final(self).heap_end == old(self).heap_end,
            r matches Some(p) ==> p % 16 == 0,
            ({
                let v = old(self).view_heap();
                let he = old(self).heap_end as int;
                let sz = (new_size + 15) / 16 * 16;
                let i = block_of(v, ptr as int);
                if sz <= payload(v, he, i) {
                    r == Some(ptr) && final(self).view_heap() == shrink_spec(v, he, i, sz)
                } else {
                    let (w, a) = alloc_spec(v, he, sz);
                    match a {
                        None => r is None && final(self).view_heap() == v,
                        Some(p) => r == Some(p as usize) && final(self).view_heap() == dealloc_spec(
                            w,
                            block_of(w, ptr as int),
                        ),
                    }
                }
            }),
    {
        let ghost v = self.view_heap();
        let ghost he = self.heap_end as int;
        proof {
            lemma_align_pow2();
        }
        let sz = align_up(new_size, ALLOCATOR_ALIGN);
        let i = self.find_block(ptr);
        proof {
            lemma_heap_at(v, he, i as int);
        }
        if sz <= self.block_payload(i) {
            proof {
                lemma_below_end(v, he, i as int);
                lemma_heap_nonempty(v, he);
            }
            let ghost before = self.view_heap();
            assert(before == v);
            let sp = self.split(i, sz);
            assert(self.view_heap() == split_spec(v, he, i as int, sz as int));
            match sp {
                Some(j) => {
                    assert(j == i + 1);
                    assert(self.view_heap().len() == self.blocks@.len());
                    assert(j < self.blocks@.len());
                    self.merge_with_next(j);
                    assert(self.view_heap() == shrink_spec(v, he, i as int, sz as int));
                },
                None => {
                    assert(self.view_heap() == shrink_spec(v, he, i as int, sz as int));
                },
            }
            assert(sz == (new_size + 15) / 16 * 16);
            return Some(ptr);
        }
        assert(((sz + 15) / 16 * 16) == sz);
        proof {
            lemma_alloc_keeps_payload(v, he, sz as int, ptr as int);
        }
        match self.allocate(sz) {
            None => None,
            Some(p) => {
                proof {
                    lemma_fit_from(v, he, 0, sz as int);
                    let j = fit_from(v, he, 0, sz as int)->0;
                    lemma_below_end(v, he, j);
                    lemma_below_end(v, he, i as int);
                }
                let n = if old_size < new_size {
                    old_size
                } else {
                    new_size
                };
                copy_bytes(mem, ptr, p, n);
                self.dealloc(ptr);
                Some(p)
            },
        }
    }

    /// A heap with no blocks, not yet set up.
    pub fn new() -> (r: Self)
        ensures
            r.blocks@.len() == 0,
            r.heap_end == 0,
    {
        DosAllocator { blocks: Vec::new(), heap_end: 0 }
    }

    /// Sets the heap up from the end of the program's data (`heap_off`, in the data
    /// segment `seg`) to the last byte below the extended BIOS data area: one free block
    /// at the first aligned address.
    pub fn init(&mut self, heap_off: u16, seg: u16)
        ensures
            final(self).blocks@.len() == 1,
            final(self).blocks@[0] == (AllocatorBlock {
                next: None,
                prev: None,
                used: false,
                addr: ((heap_off + 15) / 16 * 16) as usize,
            }),
            final(self).heap_end == (if LAST_MEMORY_BYTE_ADDR >= seg * 16 {
                LAST_MEMORY_BYTE_ADDR - seg * 16
            } else {
                0
            }),
            final(self).blocks@[0].addr + 16 <= final(self).heap_end ==> final(self).wf(),
    {
        proof {
            lemma_align_pow2();
        }
        let head = align_up(heap_off as usize, ALLOCATOR_ALIGN);
        let base = (seg as usize) * 16;
        self.heap_end = LAST_MEMORY_BYTE_ADDR.saturating_sub(base);
        self.blocks = Vec::new();
        self.blocks.push(AllocatorBlock { next: None, prev: None, used: false, addr: head });
        proof {
            reveal(heap_wf);
            reveal(links_ok);
        }
    }
}

/// The memory `m` after `n` bytes were copied from address `from` to address `to`.
pub open spec fn moved_bytes(m: Seq<u8>, from: int, to: int, n: int) -> Seq<u8> {
    Seq::new(m.len(), |a: int| if to <= a < to + n { m[from + a - to] } else { m[a] })
}

/// Copies `n` bytes from address `from` to address `to` (see [`moved_bytes`]).
fn copy_bytes(mem: &mut Vec<u8>, from: usize, to: usize, n: usize)
    requires
        from + n <= old(mem)@.len(),
        to + n <= old(mem)@.len(),
    ensures
        final(mem)@ == moved_bytes(old(mem)@, from as int, to as int, n as int),
{
    let len = mem.len();
    let mut tmp: Vec<u8> = Vec::new();
    let mut k: usize = 0;
    while k < n
        invariant
            k <= n,
            len == mem@.len(),
            from + n <= len,
            tmp@ == mem@.subrange(from as int, from + k),
        decreases n - k,
    {
        tmp.push(mem[from + k]);
        k = k + 1;
        assert(tmp@ =~= mem@.subrange(from as int, from + k));
    }
    let ghost m0 = mem@;
    let mut k: usize = 0;
    while k < n
        invariant
            k <= n,
            len == m0.len(),
            to + n <= len,
            from + n <= len,
            mem@.len() == len,
            tmp@ == m0.subrange(from as int, from + n),
            forall|a: int| 0 <= a < len ==> #[trigger] mem@[a] == (if to <= a < to + k { m0[from + a - to] } else { m0[a] }),
        decreases n - k,
    {
        mem.set(to + k, tmp[k]);
        k = k + 1;
    }
    assert(mem@ =~= moved_bytes(m0, from as int, to as int, n as int));
}

} // verus!
