use lotus::mem::{align_up, AllocatorBlock, DosAllocator, LAST_MEMORY_BYTE_ADDR};

fn fresh() -> DosAllocator {
    let mut a = DosAllocator::new();
    a.init(0x101, 0x1000);
    a
}

#[test]
fn aligning() {
    assert_eq!(align_up(0, 16), 0);
    assert_eq!(align_up(1, 16), 16);
    assert_eq!(align_up(16, 16), 16);
    assert_eq!(align_up(100, 16), 112);
    assert_eq!(align_up(5, 4), 8);
}

#[test]
fn heap_set_up() {
    let a = fresh();
    assert_eq!(a.blocks.len(), 1);
    assert_eq!(a.blocks[0], AllocatorBlock { next: None, prev: None, used: false, addr: 0x110 });
    assert_eq!(a.heap_end, LAST_MEMORY_BYTE_ADDR - 0x10000);
    assert_eq!(a.blocks[0].payload_size(a.heap_end), a.heap_end - 0x110 - 16);
    let mut b = DosAllocator::new();
    b.init(0, 0xFFFF);
    assert_eq!(b.heap_end, 0);
}

#[test]
fn allocations_split_the_first_fit() {
    let mut a = fresh();
    assert_eq!(a.allocate(100), Some(0x120));
    assert_eq!(a.blocks.len(), 2);
    assert!(a.blocks[0].used);
    assert_eq!(a.blocks[1].addr, 0x110 + 16 + 112);
    assert_eq!(a.blocks[1].prev, Some(0x110));
    assert_eq!(a.blocks[0].next, Some(0x190));
    assert_eq!(a.allocate(1), Some(0x1A0));
    assert_eq!(a.blocks.len(), 3);
    assert_eq!(a.allocate(0x100000), None);
}

#[test]
fn freeing_everything_restores_the_heap() {
    let mut a = fresh();
    let before = a.blocks.clone();
    let p = a.allocate(100).unwrap();
    let q = a.allocate(40).unwrap();
    a.dealloc(p);
    assert_eq!(a.blocks.len(), 3);
    assert!(!a.blocks[0].used);
    a.dealloc(q);
    assert_eq!(a.blocks, before);
}

#[test]
fn allocate_then_free_undoes() {
    let mut a = fresh();
    a.allocate(32).unwrap();
    let before = a.blocks.clone();
    let p = a.allocate(64).unwrap();
    a.dealloc(p);
    assert_eq!(a.blocks, before);
    a.dealloc(0);
    assert_eq!(a.blocks, before);
}

#[test]
fn freed_block_is_reused() {
    let mut a = fresh();
    let p = a.allocate(64).unwrap();
    let _q = a.allocate(64).unwrap();
    a.dealloc(p);
    assert_eq!(a.allocate(48), Some(p));
}

#[test]
fn realloc_in_place_and_moving() {
    let mut a = fresh();
    let mut mem = vec![0u8; a.heap_end];
    let p = a.allocate(256).unwrap();
    let _q = a.allocate(16).unwrap();
    for k in 0..100 {
        mem[p + k] = k as u8 + 1;
    }
    // Shrinking keeps the block, its bytes and frees the rest.
    let before = mem.clone();
    assert_eq!(a.realloc(&mut mem, p, 100, 64), Some(p));
    assert_eq!(mem, before);
    assert_eq!(a.blocks[1].addr, p + 64);
    assert!(!a.blocks[1].used);
    // Growing past the next used block moves it, with its first 64 bytes.
    let r = a.realloc(&mut mem, p, 64, 1000).unwrap();
    assert_ne!(r, p);
    assert!(!a.blocks[0].used);
    for k in 0..64 {
        assert_eq!(mem[r + k], k as u8 + 1);
    }
    assert_eq!(mem[r + 64], 0);
    let before = mem.clone();
    assert_eq!(a.realloc(&mut mem, r, 1000, 0x100000), None);
    assert_eq!(mem, before);
}
