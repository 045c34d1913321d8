use kernel::frame_allocator::{
    address_to_bit_index, bit_index_to_address, bitmap_placement, BitmapFrameAllocator,
    MemoryRegion,
};

#[test]
fn new_uninit_manages_nothing() {
    let a = BitmapFrameAllocator::new_uninit();
    assert_eq!(a.get_free_pages(), 0);
    assert_eq!(a.get_used_pages(), 0);
    assert_eq!(a.get_pages(), 0);
}

#[test]
fn bit_index_and_address_convert() {
    assert_eq!(address_to_bit_index(0x5000), 5);
    assert_eq!(address_to_bit_index(0x5fff), 5);
    assert_eq!(bit_index_to_address(7), 0x7000);
}

#[test]
fn reserve_frame_marks_and_counts() {
    let mut a = BitmapFrameAllocator::with_bitmap(64, 8);
    assert!(!a.bitmap_get(3));
    a.reserve_frame(3);
    assert!(a.bitmap_get(3));
    assert!(!a.bitmap_get(2));
    assert!(!a.bitmap_get(4));
    assert_eq!(a.get_free_pages(), 63);
    assert_eq!(a.get_used_pages(), 1);
    assert_eq!(a.get_pages(), 64);
}

#[test]
fn allocate_frame_skips_used_frames() {
    let mut a = BitmapFrameAllocator::with_bitmap(64, 8);
    a.reserve_frame(3);
    assert_eq!(a.allocate_frame(), 0x0000);
    assert_eq!(a.allocate_frame(), 0x1000);
    assert_eq!(a.allocate_frame(), 0x2000);
    assert_eq!(a.allocate_frame(), 0x4000);
    assert!(a.bitmap_get(4));
    assert_eq!(a.get_used_pages(), 5);
    assert_eq!(a.get_free_pages(), 59);
}

#[test]
fn free_frame_at_or_below_first_usable_address_is_ignored() {
    let mut a = BitmapFrameAllocator::with_bitmap(64, 8);
    assert_eq!(a.allocate_frame(), 0);
    a.free_frame(0);
    assert!(a.bitmap_get(0));
    assert_eq!(a.get_used_pages(), 1);
}

#[test]
fn allocate_then_free_restores_the_frame() {
    let mut a = BitmapFrameAllocator::with_bitmap(64, 8);
    a.allocate_frame();
    let f = a.allocate_frame();
    assert_eq!(f, 0x1000);
    let (free, used) = (a.get_free_pages(), a.get_used_pages());
    a.free_frame(f);
    assert!(!a.bitmap_get(1));
    assert_eq!(a.get_free_pages(), free + 1);
    assert_eq!(a.get_used_pages(), used - 1);
    // the scan position moved back to the freed frame
    assert_eq!(a.allocate_frame(), 0x1000);
}

#[test]
fn free_frame_not_in_use_is_ignored() {
    let mut a = BitmapFrameAllocator::with_bitmap(64, 8);
    a.allocate_frame();
    a.free_frame(0x5000);
    assert_eq!(a.get_used_pages(), 1);
    assert_eq!(a.get_free_pages(), 63);
}

#[test]
fn lock_all_moves_the_scan_two_frames_on() {
    let mut a = BitmapFrameAllocator::with_bitmap(64, 8);
    a.lock_all();
    // the scan now starts at frame 2
    assert_eq!(a.allocate_frame(), 0x2000);
    // frames up to the new first usable address (frame 1) are never freed
    a.free_frame(0x1000);
    assert_eq!(a.get_used_pages(), 1);
}

#[test]
fn bitmap_placement_takes_the_first_usable_region_large_enough() {
    let regions = [
        MemoryRegion { start: 0, end: 0x1000, usable: false },
        MemoryRegion { start: 0x2000, end: 0x2002, usable: true },
        MemoryRegion { start: 0x100000, end: 0x800000, usable: true },
    ];
    // 65536 pages: 8192 bytes of bitmap, three frames asked for
    assert_eq!(bitmap_placement(&regions, 65536), Some((0x100000, 0x103000)));
}

#[test]
fn bitmap_placement_without_room_is_none() {
    let regions = [
        MemoryRegion { start: 0, end: 0x100000, usable: false },
        MemoryRegion { start: 0x2000, end: 0x2002, usable: true },
    ];
    assert_eq!(bitmap_placement(&regions, 65536), None);
}

#[test]
fn new_reserves_the_bitmap_frames() {
    let regions = [
        MemoryRegion { start: 0, end: 0x1000, usable: false },
        MemoryRegion { start: 0x100000, end: 0x800000, usable: true },
    ];
    let mut a = BitmapFrameAllocator::new(65536, &regions);
    assert_eq!(a.get_used_pages(), 3);
    assert_eq!(a.get_free_pages(), 65533);
    assert!(a.bitmap_get(256));
    assert!(a.bitmap_get(257));
    assert!(a.bitmap_get(258));
    assert!(!a.bitmap_get(255));
    assert!(!a.bitmap_get(259));
    // frames of unusable regions are not marked
    assert!(!a.bitmap_get(0));
    // allocation starts after the bitmap, one frame past its end
    assert_eq!(a.allocate_frame(), 260 * 0x1000);
}

#[test]
fn scan_wraps_to_the_first_usable_frame_never_below() {
    let mut a = BitmapFrameAllocator::with_bitmap(8, 1);
    a.lock_all();
    for i in 2..8u64 {
        assert_eq!(a.allocate_frame(), i * 0x1000);
    }
    // the scan wrapped to frame 1; frame 0 is free in the bitmap but lies
    // below the first usable address
    assert!(!a.bitmap_get(0));
    a.free_frame(0x4000);
    assert_eq!(a.allocate_frame(), 0x1000);
    assert!(!a.bitmap_get(0));
    assert!(!a.bitmap_get(4));
}

#[test]
fn two_allocations_give_distinct_frames() {
    let mut a = BitmapFrameAllocator::with_bitmap(16, 2);
    let f1 = a.allocate_frame();
    let f2 = a.allocate_frame();
    assert_ne!(f1, f2);
    assert_eq!(f1 % 0x1000, 0);
    assert_eq!(f2 % 0x1000, 0);
    assert!(a.bitmap_get((f1 / 0x1000) as usize));
    assert!(a.bitmap_get((f2 / 0x1000) as usize));
    assert_eq!(a.get_pages(), 16);
}
