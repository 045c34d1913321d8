use vstd::prelude::*;

verus! {

/// Size of one physical frame in bytes.
pub const FRAME_SIZE: u64 = 0x1000;

/// Whether bit `k` of `byte` is set, counting from the most significant bit
/// (bit 0 is `0x80`, bit 7 is `0x01`), as the frame bitmap stores frames.
pub open spec fn byte_bit(byte: u8, k: u8) -> bool {
    (byte >> (7u8 - k) as u8) & 1u8 == 1u8
}

/// Whether frame `index` is marked used in a bitmap of bytes.
pub open spec fn bitmap_bit(bitmap: Seq<u8>, index: int) -> bool {
    byte_bit(bitmap[index / 8], (index % 8) as u8)
}

proof fn lemma_get_bit(b: u8, k: u8)
    requires
        k < 8,
    ensures
        (((b << k) >> 7u8) & 1u8 == 1u8) == byte_bit(b, k),
{
    assert((((b << k) >> 7u8) & 1u8 == 1u8) == ((b >> (7u8 - k) as u8) & 1u8 == 1u8))
        by (bit_vector)
        requires
            k < 8,
    ;
}

proof fn lemma_set_bit(b: u8, k: u8, j: u8)
    requires
        k < 8,
        j < 8,
    ensures
        byte_bit(b | (0x80u8 >> k), j) == (byte_bit(b, j) || j == k),
{
    assert((((b | (0x80u8 >> k)) >> (7u8 - j) as u8) & 1u8 == 1u8) == (((b >> (7u8 - j) as u8)
        & 1u8 == 1u8) || j == k)) by (bit_vector)
        requires
            k < 8,
            j < 8,
    ;
}

proof fn lemma_clear_bit(b: u8, k: u8, j: u8)
    requires
        k < 8,
        j < 8,
    ensures
        byte_bit(b & !(0x80u8 >> k), j) == (byte_bit(b, j) && j != k),
{
    assert((((b & !(0x80u8 >> k)) >> (7u8 - j) as u8) & 1u8 == 1u8) == (((b >> (7u8 - j) as u8)
        & 1u8 == 1u8) && j != k)) by (bit_vector)
        requires
            k < 8,
            j < 8,
    ;
}

/// The bitmap index of the frame that holds `address`.
pub fn address_to_bit_index(address: u64) -> (index: usize)
    requires
        address / 0x1000 <= usize::MAX,
    ensures
        index == address / 0x1000,
{
    (address / FRAME_SIZE) as usize
}

/// The physical address at which frame `index` starts.
pub fn bit_index_to_address(index: usize) -> (address: u64)
    requires
        index * 0x1000 <= usize::MAX,
    ensures
        address == index * 0x1000,
{
    (index * 0x1000) as u64
}

/// Whether position `i` is visited strictly before `r` when the allocator scans
/// for a free frame from `start`: upwards from `start + 1` to `pages - 1`, then,
/// if it wrapped, upwards again from `first`.
pub open spec fn scanned_before(start: int, r: int, first: int, pages: int, i: int) -> bool {
    if r > start {
        start < i < r
    } else {
        (start < i < pages) || (first <= i < r)
    }
}


/// A region of physical memory from the boot memory map.
#[derive(Clone, Copy, Debug, PartialEq, Eq, Structural)]
pub struct MemoryRegion {
    pub start: u64,
    pub end: u64,
    pub usable: bool,
}

/// The bytes a bitmap of `pages` bits takes.
pub open spec fn bitmap_bytes_for(pages: int) -> int {
    pages / 8
}

/// The frames the search for the bitmap's place asks of a region; the region
/// is measured in bytes against this count of frames.
pub open spec fn frames_needed(pages: int) -> int {
    bitmap_bytes_for(pages) / 0x1000 + 1
}

/// Whether `r` is where the bitmap for `pages` frames may go.
pub open spec fn fits_bitmap(r: MemoryRegion, pages: int) -> bool {
    r.usable && r.end - r.start >= frames_needed(pages)
}

/// The index of the first region of `regions` where the bitmap for `pages`
/// frames may go, searching from index `i` on.
pub open spec fn placement_from(regions: Seq<MemoryRegion>, pages: int, i: int) -> Option<int>
    decreases regions.len() - i,
{
    if i < 0 || i >= regions.len() {
        None
    } else if fits_bitmap(regions[i], pages) {
        Some(i)
    } else {
        placement_from(regions, pages, i + 1)
    }
}

/// Where the bitmap for `pages` frames goes: from the start of the first
/// region that may take it to the page boundary after its last byte.
pub open spec fn bitmap_span(regions: Seq<MemoryRegion>, pages: int) -> Option<(int, int)> {
    match placement_from(regions, pages, 0) {
        None => None,
        Some(i) => {
            let first = regions[i].start as int;
            Some((first, ((first + bitmap_bytes_for(pages)) / 0x1000 + 1) * 0x1000))
        },
    }
}

/// The span of the bitmap for `pages` frames in the regions of the boot
/// memory map, `None` when no region can take it.
pub fn bitmap_placement(regions: &[MemoryRegion], pages: usize) -> (r: Option<(u64, u64)>)
    requires
        forall|i: int| 0 <= i < regions@.len() ==> regions@[i].start <= regions@[i].end,
        forall|i: int|
            0 <= i < regions@.len() ==> regions@[i].start + pages / 8 + 0x1000 <= u64::MAX,
    ensures
        match bitmap_span(regions@, pages as int) {
            None => r is None,
            Some((first, last)) => r == Some((first as u64, last as u64)),
        },
{
    let bytes = (pages / 8) as u64;
    let needed = bytes / 0x1000 + 1;
    let mut i: usize = 0;
    while i < regions.len()
        invariant
            i <= regions@.len(),
            bytes == pages / 8,
            needed == frames_needed(pages as int),
            placement_from(regions@, pages as int, 0) == placement_from(regions@, pages as int, i as int),
            forall|j: int| 0 <= j < regions@.len() ==> regions@[j].start <= regions@[j].end,
            forall|j: int|
                0 <= j < regions@.len() ==> regions@[j].start + pages / 8 + 0x1000 <= u64::MAX,
        decreases regions@.len() - i,
    {
        let r = regions[i];
        if r.usable && r.end - r.start >= needed {
            let first = r.start;
            let last = ((first + bytes) / 0x1000 + 1) * 0x1000;
            return Some((first, last));
        }
        i = i + 1;
    }
    None
}

/// A physical frame allocator that keeps one bit per frame.
pub struct BitmapFrameAllocator {
    bitmap: Vec<u8>,
    free_pages: usize,
    used_pages: usize,
    number_of_pages: usize,
    next_free: usize,
    first_usable_address: u64,
}

impl BitmapFrameAllocator {
    /// The bytes of the bitmap.
    pub closed spec fn bitmap_view(&self) -> Seq<u8> {
        self.bitmap@
    }

    /// Whether frame `index` is marked used.
    #[verifier::inline]
    pub open spec fn frame_used(&self, index: int) -> bool {
        bitmap_bit(self.bitmap_view(), index)
    }

    /// Number of bits the bitmap holds.
    pub open spec fn capacity(&self) -> int {
        (self.bitmap_view().len() * 8) as int
    }

    pub closed spec fn spec_free_pages(&self) -> usize {
        self.free_pages
    }

    pub closed spec fn spec_used_pages(&self) -> usize {
        self.used_pages
    }

    pub closed spec fn spec_number_of_pages(&self) -> usize {
        self.number_of_pages
    }

    pub closed spec fn spec_next_free(&self) -> usize {
        self.next_free
    }

    pub closed spec fn spec_first_usable_address(&self) -> u64 {
        self.first_usable_address
    }

    /// The index of the first frame that `allocate_frame` may come back to when
    /// its scan wraps around.
    pub open spec fn first_usable_index(&self) -> int {
        (self.spec_first_usable_address() / 0x1000) as int
    }

    /// An allocator that manages nothing yet.
    pub fn new_uninit() -> (a: BitmapFrameAllocator)
        ensures
            a.bitmap_view().len() == 0,
            a.spec_free_pages() == 0,
            a.spec_used_pages() == 0,
            a.spec_number_of_pages() == 0,
            a.spec_next_free() == 0,
            a.spec_first_usable_address() == 0,
    {
        BitmapFrameAllocator {
            bitmap: Vec::new(),
            free_pages: 0,
            used_pages: 0,
            number_of_pages: 0,
            next_free: 0,
            first_usable_address: 0,
        }
    }

    /// An allocator over `number_of_pages` frames, all free, whose bitmap has
    /// `bitmap_bytes` bytes.
    pub fn with_bitmap(number_of_pages: usize, bitmap_bytes: usize) -> (a: BitmapFrameAllocator)
        ensures
            a.bitmap_view() == Seq::new(bitmap_bytes as nat, |i: int| 0u8),
            a.spec_free_pages() == number_of_pages,
            a.spec_used_pages() == 0,
            a.spec_number_of_pages() == number_of_pages,
            a.spec_next_free() == 0,
            a.spec_first_usable_address() == 0,
    {
        let bitmap = vec![0u8; bitmap_bytes];
        proof {
            assert(bitmap@ =~= Seq::new(bitmap_bytes as nat, |i: int| 0u8));
        }
        BitmapFrameAllocator {
            bitmap,
            free_pages: number_of_pages,
            used_pages: 0,
            number_of_pages,
            next_free: 0,
            first_usable_address: 0,
        }
    }

    /// An allocator over `available_pages` frames whose bitmap lies where
    /// `bitmap_placement` puts it in `regions`: the bitmap is cleared, the
    /// frames it covers are marked used, and allocation starts after them.
    /// Frames of the unusable regions are not marked.
    pub fn new(available_pages: usize, regions: &[MemoryRegion]) -> (a: BitmapFrameAllocator)
        requires
            forall|i: int| 0 <= i < regions@.len() ==> regions@[i].start <= regions@[i].end,
            forall|i: int|
                0 <= i < regions@.len() ==> regions@[i].start + available_pages / 8 + 0x1000
                    <= u64::MAX,
            bitmap_span(regions@, available_pages as int) matches Some((first, last)) && {
                &&& last - first <= usize::MAX
                &&& last / 0x1000 + 1 <= usize::MAX
                &&& last / 0x1000 <= 8 * (last - first)
                &&& last / 0x1000 - first / 0x1000 <= available_pages
                &&& last + 0x1000 <= u64::MAX
            },
        ensures
            bitmap_span(regions@, available_pages as int) matches Some((first, last)) && {
                &&& a.bitmap_view().len() == last - first
                &&& forall|i: int|
                    0 <= i < a.capacity() ==> (a.frame_used(i) <==> first / 0x1000 <= i < last
                        / 0x1000)
                &&& a.spec_used_pages() == last / 0x1000 - first / 0x1000
                &&& a.spec_free_pages() == available_pages - (last / 0x1000 - first / 0x1000)
                &&& a.spec_number_of_pages() == available_pages
                &&& a.spec_next_free() == last / 0x1000 + 1
                &&& a.spec_first_usable_address() == last + 0x1000
            },
    {
        let (first, last) = bitmap_placement(regions, available_pages).unwrap();
        let mut a = BitmapFrameAllocator::with_bitmap(available_pages, (last - first) as usize);
        proof {
            assert forall|i: int| 0 <= i < a.capacity() implies !a.frame_used(i) by {
                assert(a.bitmap_view()[i / 8] == 0u8);
                let k = (i % 8) as u8;
                assert(!byte_bit(0u8, k)) by (bit_vector);
            }
        }
        let bit_first = address_to_bit_index(first);
        let bit_last = address_to_bit_index(last);
        let mut bit = bit_first;
        while bit < bit_last
            invariant
                bit_first <= bit <= bit_last,
                bit_last == last / 0x1000,
                bit_first == first / 0x1000,
                bit_last <= a.capacity(),
                bit_last - bit_first <= available_pages,
                a.bitmap_view().len() == last - first,
                forall|i: int|
                    0 <= i < a.capacity() ==> (a.frame_used(i) <==> bit_first <= i < bit),
                a.spec_used_pages() == bit - bit_first,
                a.spec_free_pages() == available_pages - (bit - bit_first),
                a.spec_number_of_pages() == available_pages,
                a.spec_next_free() == 0,
                a.spec_first_usable_address() == 0,
            decreases bit_last - bit,
        {
            a.reserve_frame(bit);
            bit = bit + 1;
        }
        a.first_usable_address = last + 0x1000;
        a.next_free = bit_last + 1;
        a
    }

    /// Whether frame `index` is marked used.
    pub fn bitmap_get(&self, index: usize) -> (used: bool)
        requires
            index < self.capacity(),
        ensures
            used == self.frame_used(index as int),
    {
        let byte = self.bitmap[index / 8];
        let k = (index % 8) as u8;
        proof {
            lemma_get_bit(byte, k);
        }
        ((byte << k) >> 7u8) & 1 == 1
    }

    /// Marks frame `index` used.
    pub fn bitmap_set(&mut self, index: usize)
        requires
            index < old(self).capacity(),
        ensures
            final(self).bitmap_view().len() == old(self).bitmap_view().len(),
            forall|i: int|
                0 <= i < final(self).capacity() ==> final(self).frame_used(i) == (old(
                    self,
                ).frame_used(i) || i == index),
            final(self).spec_free_pages() == old(self).spec_free_pages(),
            final(self).spec_used_pages() == old(self).spec_used_pages(),
            final(self).spec_number_of_pages() == old(self).spec_number_of_pages(),
            final(self).spec_next_free() == old(self).spec_next_free(),
            final(self).spec_first_usable_address() == old(self).spec_first_usable_address(),
    {
        let byte_index = index / 8;
        let k = (index % 8) as u8;
        let old_byte = self.bitmap[byte_index];
        let new_byte = old_byte | (0x80u8 >> k);
        self.bitmap.set(byte_index, new_byte);
        proof {
            assert forall|i: int|
                0 <= i < self.capacity() implies self.frame_used(i) == (old(self).frame_used(i)
                    || i == index) by {
                if i / 8 == byte_index as int {
                    lemma_set_bit(old_byte, k, (i % 8) as u8);
                }
            }
        }
    }

    /// Marks frame `index` free.
    pub fn bitmap_clear(&mut self, index: usize)
        requires
            index < old(self).capacity(),
        ensures
            final(self).bitmap_view().len() == old(self).bitmap_view().len(),
            forall|i: int|
                0 <= i < final(self).capacity() ==> final(self).frame_used(i) == (old(
                    self,
                ).frame_used(i) && i != index),
            final(self).spec_free_pages() == old(self).spec_free_pages(),
            final(self).spec_used_pages() == old(self).spec_used_pages(),
            final(self).spec_number_of_pages() == old(self).spec_number_of_pages(),
            final(self).spec_next_free() == old(self).spec_next_free(),
            final(self).spec_first_usable_address() == old(self).spec_first_usable_address(),
    {
        let byte_index = index / 8;
        let k = (index % 8) as u8;
        let old_byte = self.bitmap[byte_index];
        let new_byte = old_byte & !(0x80u8 >> k);
        self.bitmap.set(byte_index, new_byte);
        proof {
            assert forall|i: int|
                0 <= i < self.capacity() implies self.frame_used(i) == (old(self).frame_used(i)
                    && i != index) by {
                if i / 8 == byte_index as int {
                    lemma_clear_bit(old_byte, k, (i % 8) as u8);
                }
            }
        }
    }

    /// Marks frame `frame_index` used and counts one page more used, one less free.
    pub fn reserve_frame(&mut self, frame_index: usize)
        requires
            frame_index < old(self).capacity(),
            old(self).spec_free_pages() > 0,
            old(self).spec_used_pages() < usize::MAX,
        ensures
            reserved(*old(self), *final(self), frame_index),
            final(self).bitmap_view().len() == old(self).bitmap_view().len(),
            forall|i: int|
                0 <= i < final(self).capacity() ==> final(self).frame_used(i) == (old(
                    self,
                ).frame_used(i) || i == frame_index),
            final(self).spec_free_pages() == old(self).spec_free_pages() - 1,
            final(self).spec_used_pages() == old(self).spec_used_pages() + 1,
            final(self).spec_number_of_pages() == old(self).spec_number_of_pages(),
            final(self).spec_next_free() == old(self).spec_next_free(),
            final(self).spec_first_usable_address() == old(self).spec_first_usable_address(),
    {
        self.bitmap_set(frame_index);
        self.free_pages = self.free_pages - 1;
        self.used_pages = self.used_pages + 1;
    }

    /// Hands out the frame at the scan position, marks it used, and moves the
    /// scan position on to the next free frame, wrapping around to the first
    /// usable frame after the last page.
    pub fn allocate_frame(&mut self) -> (frame: u64)
        requires
            can_allocate(*old(self)),
        ensures
            allocation(*old(self), *final(self), frame),
            allocated(*old(self), *final(self), frame),
            frame == old(self).spec_next_free() * 0x1000,
            final(self).bitmap_view().len() == old(self).bitmap_view().len(),
            forall|i: int|
                0 <= i < final(self).capacity() ==> final(self).frame_used(i) == (old(
                    self,
                ).frame_used(i) || i == old(self).spec_next_free()),
            final(self).spec_free_pages() == old(self).spec_free_pages() - 1,
            final(self).spec_used_pages() == old(self).spec_used_pages() + 1,
            final(self).spec_number_of_pages() == old(self).spec_number_of_pages(),
            final(self).spec_first_usable_address() == old(self).spec_first_usable_address(),
            final(self).spec_next_free() < final(self).spec_number_of_pages(),
            !final(self).frame_used(final(self).spec_next_free() as int),
            final(self).spec_next_free() > old(self).spec_next_free() || old(
                self,
            ).first_usable_index() <= final(self).spec_next_free() < old(self).spec_next_free(),
            forall|i: int|
                scanned_before(
                    old(self).spec_next_free() as int,
                    final(self).spec_next_free() as int,
                    old(self).first_usable_index(),
                    old(self).spec_number_of_pages() as int,
                    i,
                ) ==> final(self).frame_used(i),
    {
        let ghost q = choose|q: int|
            self.first_usable_index() <= q < self.number_of_pages && q != self.next_free
                && !self.frame_used(q);
        let ghost start = self.next_free as int;
        let ghost first = self.first_usable_index();
        let ghost pages = self.number_of_pages as int;
        let frame = bit_index_to_address(self.next_free);
        let index = self.next_free;
        self.reserve_frame(index);
        assert(!self.frame_used(q));
        let ghost mut wrapped = false;
        loop
            invariant_except_break
                self.bitmap_view().len() * 8 >= pages,
                self.number_of_pages == pages,
                self.first_usable_index() == first,
                first <= q < pages,
                q != start,
                0 <= start < pages,
                !self.frame_used(q),
                !wrapped ==> start <= self.next_free < pages,
                !wrapped ==> (q > start ==> self.next_free < q),
                wrapped ==> first <= self.next_free < q,
                wrapped ==> q <= start,
                forall|i: int|
                    (if wrapped {
                        (start < i < pages) || (first <= i <= self.next_free)
                    } else {
                        start < i <= self.next_free
                    }) ==> self.frame_used(i),
            invariant
                self.bitmap_view().len() == old(self).bitmap_view().len(),
                forall|i: int|
                    0 <= i < self.capacity() ==> self.frame_used(i) == (old(self).frame_used(i)
                        || i == start),
                self.free_pages == old(self).spec_free_pages() - 1,
                self.used_pages == old(self).spec_used_pages() + 1,
                self.number_of_pages == old(self).spec_number_of_pages(),
                self.first_usable_address == old(self).spec_first_usable_address(),
            ensures
                self.next_free < pages,
                !self.frame_used(self.next_free as int),
                self.next_free > start || first <= self.next_free < start,
                forall|i: int|
                    scanned_before(start, self.next_free as int, first, pages, i)
                        ==> self.frame_used(i),
            decreases
                (if wrapped {
                    q - self.next_free
                } else if self.next_free < q {
                    q - self.next_free
                } else {
                    pages - self.next_free + q - first + 1
                }),
        {
            let ghost prev = self.next_free as int;
            self.next_free = self.next_free + 1;
            if self.next_free >= self.number_of_pages {
                self.next_free = address_to_bit_index(self.first_usable_address);
                proof {
                    wrapped = true;
                }
            }
            if !self.bitmap_get(self.next_free) {
                break;
            }
        }
        frame
    }

    /// Gives frame `frame` back.  Frames at or below the first usable address,
    /// and frames not marked used, are left alone.
    pub fn free_frame(&mut self, frame: u64)
        requires
            frame > old(self).spec_first_usable_address() ==> frame / 0x1000 < old(self).capacity() && frame / 0x1000 <= usize::MAX,
            frame > old(self).spec_first_usable_address() && old(self).frame_used((frame / 0x1000) as int)
                ==> old(self).spec_used_pages() > 0 && old(self).spec_free_pages() < usize::MAX,
        ensures
            freed(*old(self), *final(self), frame),
            final(self).bitmap_view().len() == old(self).bitmap_view().len(),
            final(self).spec_number_of_pages() == old(self).spec_number_of_pages(),
            final(self).spec_first_usable_address() == old(self).spec_first_usable_address(),
            (frame <= old(self).spec_first_usable_address() || !old(self).frame_used((frame / 0x1000) as int)) ==> *final(self) == *old(self),
            (frame > old(self).spec_first_usable_address() && old(self).frame_used((frame / 0x1000) as int)) ==> {
                &&& forall|i: int|
                    0 <= i < final(self).capacity() ==> final(self).frame_used(i) == (old(
                        self,
                    ).frame_used(i) && i != (frame / 0x1000) as int)
                &&& final(self).spec_free_pages() == old(self).spec_free_pages() + 1
                &&& final(self).spec_used_pages() == old(self).spec_used_pages() - 1
                &&& final(self).spec_next_free() == if old(self).spec_next_free() > frame / 0x1000 {
                    (frame / 0x1000) as int
                } else {
                    old(self).spec_next_free() as int
                }
            },
    {
        if frame <= self.first_usable_address {
            return;
        }
        let bit = address_to_bit_index(frame);
        if !self.bitmap_get(bit) {
            return;
        }
        self.bitmap_clear(bit);
        self.free_pages = self.free_pages + 1;
        self.used_pages = self.used_pages - 1;
        if self.next_free > bit {
            self.next_free = bit;
        }
    }

    /// Moves the scan position two frames on and makes everything below the
    /// frame in between unusable for the wrap-around of `allocate_frame`.
    pub fn lock_all(&mut self)
        requires
            old(self).spec_next_free() + 2 <= usize::MAX,
            (old(self).spec_next_free() + 1) * 0x1000 <= usize::MAX,
        ensures
            final(self).bitmap_view() == old(self).bitmap_view(),
            final(self).spec_free_pages() == old(self).spec_free_pages(),
            final(self).spec_used_pages() == old(self).spec_used_pages(),
            final(self).spec_number_of_pages() == old(self).spec_number_of_pages(),
            final(self).spec_first_usable_address() == (old(self).spec_next_free() + 1) * 0x1000,
            final(self).spec_next_free() == old(self).spec_next_free() + 2,
    {
        self.next_free = self.next_free + 1;
        self.first_usable_address = bit_index_to_address(self.next_free);
        self.next_free = self.next_free + 1;
    }

    /// Number of frames counted free.
    pub fn get_free_pages(&self) -> (n: usize)
        ensures
            n == self.spec_free_pages(),
    {
        self.free_pages
    }

    /// Number of frames counted used.
    pub fn get_used_pages(&self) -> (n: usize)
        ensures
            n == self.spec_used_pages(),
    {
        self.used_pages
    }

    /// Number of frames counted, free and used together.
    pub fn get_pages(&self) -> (n: usize)
        requires
            self.spec_free_pages() + self.spec_used_pages() <= usize::MAX,
        ensures
            n == self.spec_free_pages() + self.spec_used_pages(),
    {
        self.free_pages + self.used_pages
    }
}

/// What allocating `frame` does to the allocator `a`, giving `b`: the frame is
/// the one at the scan position, it becomes used and nothing else changes its
/// mark, and one page moves from free to used.
pub open spec fn allocated(a: BitmapFrameAllocator, b: BitmapFrameAllocator, frame: u64) -> bool {
    &&& frame == a.spec_next_free() * 0x1000
    &&& b.bitmap_view().len() == a.bitmap_view().len()
    &&& forall|i: int|
        0 <= i < b.capacity() ==> b.frame_used(i) == (a.frame_used(i) || i == a.spec_next_free())
    &&& b.spec_free_pages() == a.spec_free_pages() - 1
    &&& b.spec_used_pages() == a.spec_used_pages() + 1
    &&& b.spec_number_of_pages() == a.spec_number_of_pages()
    &&& b.spec_first_usable_address() == a.spec_first_usable_address()
}

/// What reserving frame `index` does to the allocator `a`, giving `b`: the
/// frame becomes used and nothing else changes its mark, one page moves from
/// free to used, and the scan position stays.
pub open spec fn reserved(a: BitmapFrameAllocator, b: BitmapFrameAllocator, index: usize) -> bool {
    &&& b.bitmap_view().len() == a.bitmap_view().len()
    &&& forall|i: int| 0 <= i < b.capacity() ==> b.frame_used(i) == (a.frame_used(i) || i == index)
    &&& b.spec_free_pages() == a.spec_free_pages() - 1
    &&& b.spec_used_pages() == a.spec_used_pages() + 1
    &&& b.spec_number_of_pages() == a.spec_number_of_pages()
    &&& b.spec_next_free() == a.spec_next_free()
    &&& b.spec_first_usable_address() == a.spec_first_usable_address()
}

/// Whether `allocate_frame` may be called on `a`: the scan position is a
/// frame the bitmap covers, a frame is counted free, the counts and the
/// addresses fit, and some usable frame other than the scan position is
/// free, so that the scan for the next one ends.
pub open spec fn can_allocate(a: BitmapFrameAllocator) -> bool {
    &&& a.spec_next_free() < a.spec_number_of_pages()
    &&& a.spec_number_of_pages() <= a.capacity()
    &&& a.spec_next_free() * 0x1000 <= usize::MAX
    &&& a.first_usable_index() <= usize::MAX
    &&& a.spec_free_pages() > 0
    &&& a.spec_used_pages() < usize::MAX
    &&& exists|q: int|
        a.first_usable_index() <= q < a.spec_number_of_pages() && q != a.spec_next_free()
            && !a.frame_used(q)
}

/// What `allocate_frame` does to `a`, giving `b` and `frame`: the frame at
/// the scan position is handed out and marked, and the scan position moves
/// to the first free frame in scan order: upwards from the old position,
/// then, past the last page, upwards from the first usable frame.
pub open spec fn allocation(a: BitmapFrameAllocator, b: BitmapFrameAllocator, frame: u64) -> bool {
    &&& allocated(a, b, frame)
    &&& b.spec_next_free() < b.spec_number_of_pages()
    &&& !b.frame_used(b.spec_next_free() as int)
    &&& b.spec_next_free() > a.spec_next_free() || a.first_usable_index() <= b.spec_next_free()
        < a.spec_next_free()
    &&& forall|i: int|
        scanned_before(
            a.spec_next_free() as int,
            b.spec_next_free() as int,
            a.first_usable_index(),
            a.spec_number_of_pages() as int,
            i,
        ) ==> b.frame_used(i)
}

/// Two allocations in a row, with nothing freed between them, hand out two
/// different page-aligned frames, and both are in use afterwards.
pub proof fn lemma_allocations_distinct(
    a: BitmapFrameAllocator,
    b: BitmapFrameAllocator,
    c: BitmapFrameAllocator,
    f1: u64,
    f2: u64,
)
    requires
        can_allocate(a),
        allocation(a, b, f1),
        can_allocate(b),
        allocation(b, c, f2),
    ensures
        f1 != f2,
        f1 % 0x1000 == 0,
        f2 % 0x1000 == 0,
        c.frame_used((f1 / 0x1000) as int),
        c.frame_used((f2 / 0x1000) as int),
{
    let n1 = a.spec_next_free() as int;
    let n2 = b.spec_next_free() as int;
    assert(b.frame_used(n1));
    assert(n1 != n2);
    assert(f1 % 0x1000 == 0 && (f1 / 0x1000) as int == n1) by (nonlinear_arith)
        requires
            f1 == n1 * 0x1000,
            n1 >= 0,
    ;
    assert(f2 % 0x1000 == 0 && (f2 / 0x1000) as int == n2) by (nonlinear_arith)
        requires
            f2 == n2 * 0x1000,
            n2 >= 0,
    ;
}

/// Reserving, allocating and freeing keep the number of frames counted, free
/// and used together, so `get_pages` answers the same before and after.
pub proof fn lemma_page_count_kept(
    a: BitmapFrameAllocator,
    b: BitmapFrameAllocator,
    index: usize,
    frame: u64,
)
    requires
        reserved(a, b, index) || allocated(a, b, frame) || freed(a, b, frame),
    ensures
        b.spec_free_pages() + b.spec_used_pages() == a.spec_free_pages() + a.spec_used_pages(),
{
}

/// What freeing `frame` does to the allocator `a`, giving `b`: a frame at or
/// below the first usable address, or one not in use, changes nothing;
/// otherwise the frame becomes free and nothing else changes its mark, one
/// page moves from used to free, and the scan position moves back to the
/// frame if it was past it.
pub open spec fn freed(a: BitmapFrameAllocator, b: BitmapFrameAllocator, frame: u64) -> bool {
    let bit = (frame / 0x1000) as int;
    if frame <= a.spec_first_usable_address() || !a.frame_used(bit) {
        b == a
    } else {
        &&& b.bitmap_view().len() == a.bitmap_view().len()
        &&& forall|i: int| 0 <= i < b.capacity() ==> b.frame_used(i) == (a.frame_used(i) && i != bit)
        &&& b.spec_free_pages() == a.spec_free_pages() + 1
        &&& b.spec_used_pages() == a.spec_used_pages() - 1
        &&& b.spec_number_of_pages() == a.spec_number_of_pages()
        &&& b.spec_first_usable_address() == a.spec_first_usable_address()
        &&& b.spec_next_free() == if a.spec_next_free() > bit {
            bit
        } else {
            a.spec_next_free() as int
        }
    }
}

/// Freeing the frame that was just allocated, when it lies above the first
/// usable address, gives every frame back the mark it had before and restores
/// the free and used counts, provided the scan position was free, as
/// `allocate_frame` leaves it.
pub proof fn lemma_allocate_then_free(
    a: BitmapFrameAllocator,
    b: BitmapFrameAllocator,
    c: BitmapFrameAllocator,
    frame: u64,
)
    requires
        allocated(a, b, frame),
        freed(b, c, frame),
        frame > a.spec_first_usable_address(),
        0 <= a.spec_next_free() < a.capacity(),
        !a.frame_used(a.spec_next_free() as int),
    ensures
        c.bitmap_view().len() == a.bitmap_view().len(),
        forall|i: int| 0 <= i < a.capacity() ==> c.frame_used(i) == a.frame_used(i),
        c.spec_free_pages() == a.spec_free_pages(),
        c.spec_used_pages() == a.spec_used_pages(),
        c.spec_number_of_pages() == a.spec_number_of_pages(),
        c.spec_first_usable_address() == a.spec_first_usable_address(),
        !c.frame_used((frame / 0x1000) as int),
        c.spec_next_free() <= frame / 0x1000,
{
    let n = a.spec_next_free() as int;
    assert((frame / 0x1000) as int == n) by (nonlinear_arith)
        requires
            frame == n * 0x1000,
            n >= 0,
    ;
    assert(b.frame_used(n));
}

} // verus!
