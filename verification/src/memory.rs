//! The boot memory map and a sequential allocator over its usable 4 KiB frames.

use vstd::prelude::*;

verus! {

/// Size of a physical frame, and of a frame number step, in bytes.
pub const FRAME_SIZE: u64 = 4096;

/// One past the largest physical address: physical addresses have 52 bits.
pub const PHYS_ADDR_LIMIT: u64 = 0x10_0000_0000_0000;

/// What the firmware and bootloader report a region of physical memory to hold.
#[derive(Clone, Copy, Debug, PartialEq, Eq)]
pub enum MemoryRegionType {
    /// Unused memory, free for the kernel.
    Usable,
    /// Memory that is already in use.
    InUse,
    /// Memory reserved by the hardware.
    Reserved,
    /// ACPI reclaimable memory.
    AcpiReclaimable,
    /// ACPI NVS memory.
    AcpiNvs,
    /// Memory found to be defective.
    BadMemory,
    /// The loaded kernel image.
    Kernel,
    /// The kernel stack.
    KernelStack,
    /// Page tables built at boot.
    PageTable,
    /// The bootloader itself.
    Bootloader,
    /// The frame at address zero.
    FrameZero,
    /// A region of size zero.
    Empty,
    /// The boot information structure.
    BootInfo,
    /// A package handed over by the bootloader.
    Package,
    /// A kind that a later bootloader may report.
    NonExhaustive,
}

/// The frames `start_frame_number .. end_frame_number` (end exclusive).
#[derive(Clone, Copy, Debug, PartialEq, Eq)]
pub struct FrameRange {
    pub start_frame_number: u64,
    pub end_frame_number: u64,
}

impl FrameRange {
    /// The physical address of the first byte of the range.
    pub open spec fn start(self) -> int {
        self.start_frame_number * 4096
    }

    /// The physical address one past the last byte of the range.
    pub open spec fn end(self) -> int {
        self.end_frame_number * 4096
    }

    /// The physical start address of the range.
    pub fn start_addr(&self) -> (addr: u64)
        requires
            self.start() <= u64::MAX,
        ensures
            addr == self.start(),
    {
        self.start_frame_number * FRAME_SIZE
    }

    /// The physical end address (exclusive) of the range.
    pub fn end_addr(&self) -> (addr: u64)
        requires
            self.end() <= u64::MAX,
        ensures
            addr == self.end(),
    {
        self.end_frame_number * FRAME_SIZE
    }
}

/// One entry of the boot memory map.
#[derive(Clone, Copy, Debug, PartialEq, Eq)]
pub struct MemoryRegion {
    pub range: FrameRange,
    pub region_type: MemoryRegionType,
}

impl MemoryRegion {
    /// The region may be used freely by the kernel.
    pub open spec fn usable(self) -> bool {
        self.region_type is Usable
    }

    /// Whether the region may be used freely by the kernel.
    pub fn is_usable(&self) -> (b: bool)
        ensures
            b == self.usable(),
    {
        match self.region_type {
            MemoryRegionType::Usable => true,
            _ => false,
        }
    }
}

/// A usable region lies inside the 52-bit physical address space.
pub open spec fn region_in_physical_memory(r: MemoryRegion) -> bool {
    r.usable() ==> r.range.start() <= PHYS_ADDR_LIMIT && r.range.end() <= PHYS_ADDR_LIMIT
}

/// Every usable region of the map lies inside the physical address space.
pub open spec fn map_in_physical_memory(m: Seq<MemoryRegion>) -> bool {
    forall|i: int| 0 <= i < m.len() ==> region_in_physical_memory(#[trigger] m[i])
}

/// The least multiple of the frame size that is not below `a`.
pub open spec fn align_up(a: int) -> int {
    ((a + 4095) / 4096) * 4096
}

/// The addresses `cursor, cursor + 4096, ...` below `end`, leaving out address zero.
pub open spec fn frames_between(cursor: int, end: int) -> Seq<u64>
    decreases
            (if cursor < end {
                end - cursor
            } else {
                0
            }),
{
    if cursor >= end {
        Seq::empty()
    } else if cursor == 0 {
        frames_between(cursor + 4096, end)
    } else {
        seq![cursor as u64] + frames_between(cursor + 4096, end)
    }
}

/// The frames that a region contributes: those of a usable region, from its
/// first frame-aligned address to its end.
pub open spec fn region_frames(r: MemoryRegion) -> Seq<u64> {
    if r.usable() {
        frames_between(align_up(r.range.start()), r.range.end())
    } else {
        Seq::empty()
    }
}

/// The frames of the regions `i, i + 1, ...` of the map, region after region.
pub open spec fn frames_of_regions(m: Seq<MemoryRegion>, i: int) -> Seq<u64>
    decreases m.len() - i,
{
    if i < 0 || i >= m.len() {
        Seq::empty()
    } else {
        region_frames(m[i]) + frames_of_regions(m, i + 1)
    }
}

/// All usable frames of the map, in map order.
pub open spec fn usable_frames(m: Seq<MemoryRegion>) -> Seq<u64> {
    frames_of_regions(m, 0)
}

/// The bytes a region adds to the usable total: its size when usable, else none.
pub open spec fn region_bytes(r: MemoryRegion) -> int {
    if r.usable() {
        r.range.end() - r.range.start()
    } else {
        0
    }
}

/// The total size in bytes of the usable regions of a map.
pub open spec fn usable_bytes_of(m: Seq<MemoryRegion>) -> int
    decreases m.len(),
{
    if m.len() == 0 {
        0
    } else {
        usable_bytes_of(m.drop_last()) + region_bytes(m.last())
    }
}

/// Every usable region has its start at or below its end, and its end address fits
/// in 64 bits.
pub open spec fn usable_sizes_fit(m: Seq<MemoryRegion>) -> bool {
    forall|i: int|
        0 <= i < m.len() && #[trigger] m[i].usable() ==> m[i].range.start() <= m[i].range.end()
            <= u64::MAX
}

proof fn lemma_usable_bytes_prefix(m: Seq<MemoryRegion>, i: int)
    requires
        usable_sizes_fit(m),
        0 <= i <= m.len(),
    ensures
        0 <= usable_bytes_of(m.take(i)) <= usable_bytes_of(m),
    decreases m.len(),
{
    if m.len() > 0 {
        let last = m.last();
        if last.usable() {
            assert(m[m.len() - 1].usable());
        }
        assert(usable_sizes_fit(m.drop_last())) by {
            assert forall|j: int| 0 <= j < m.drop_last().len() && #[trigger] m.drop_last()[j].usable()
                implies m.drop_last()[j].range.start() <= m.drop_last()[j].range.end() <= u64::MAX by {
                assert(m.drop_last()[j] == m[j]);
            }
        }
        if i == m.len() {
            assert(m.take(i) =~= m);
            lemma_usable_bytes_prefix(m.drop_last(), i - 1);
        } else {
            assert(m.take(i) =~= m.drop_last().take(i));
            lemma_usable_bytes_prefix(m.drop_last(), i);
        }
    }
}

/// The total size in bytes of the usable regions of `memory_map`.
pub fn usable_bytes(memory_map: &Vec<MemoryRegion>) -> (total: u64)
    requires
        usable_sizes_fit(memory_map@),
        usable_bytes_of(memory_map@) <= u64::MAX,
    ensures
        total == usable_bytes_of(memory_map@),
{
    let mut total: u64 = 0;
    let mut i: usize = 0;
    while i < memory_map.len()
        invariant
            i <= memory_map.len(),
            usable_sizes_fit(memory_map@),
            usable_bytes_of(memory_map@) <= u64::MAX,
            total == usable_bytes_of(memory_map@.take(i as int)),
        decreases memory_map.len() - i,
    {
        let region = memory_map[i];
        proof {
            assert(memory_map@.take(i as int + 1).drop_last() =~= memory_map@.take(i as int));
            assert(memory_map@.take(i as int + 1).last() == region);
            lemma_usable_bytes_prefix(memory_map@, i as int + 1);
        }
        if region.is_usable() {
            assert(memory_map@[i as int].usable());
            total = total + (region.range.end_addr() - region.range.start_addr());
        }
        i = i + 1;
    }
    assert(memory_map@.take(memory_map.len() as int) =~= memory_map@);
    total
}

/// The usable memory of `memory_map` in whole KiB, as the boot log reports it.
pub fn usable_kib(memory_map: &Vec<MemoryRegion>) -> (kib: u64)
    requires
        usable_sizes_fit(memory_map@),
        usable_bytes_of(memory_map@) <= u64::MAX,
    ensures
        kib == usable_bytes_of(memory_map@) / 1024,
{
    usable_bytes(memory_map) / 1024
}

/// A virtual address is canonical when bits 48 to 63 repeat bit 47.
pub open spec fn is_canonical(addr: int) -> bool {
    ||| 0 <= addr < 0x8000_0000_0000
    ||| 0xffff_8000_0000_0000 <= addr <= u64::MAX
}

/// `x86_64::VirtAddr::new(base) + offset`, read back with `as_u64`: the plain sum.
/// `VirtAddr::new` panics on a base that is not canonical, and the addition panics
/// on overflow or on a sum that is not canonical; `requires` leaves those out.
#[verifier::external_body]
fn add_to_virtual_address(base: u64, offset: u64) -> (sum: u64)
    requires
        is_canonical(base as int),
        is_canonical(base + offset),
    ensures
        sum == base + offset,
{
    (x86_64::VirtAddr::new(base) + offset).as_u64()
}

/// The virtual address at which the active level-4 page table is seen, when all
/// physical memory is mapped at `physical_memory_offset` and the table's frame
/// starts at `level_4_frame_start`.
pub fn level_4_table_address(physical_memory_offset: u64, level_4_frame_start: u64) -> (addr: u64)
    requires
        is_canonical(physical_memory_offset as int),
        is_canonical(physical_memory_offset + level_4_frame_start),
    ensures
        addr == physical_memory_offset + level_4_frame_start,
{
    add_to_virtual_address(physical_memory_offset, level_4_frame_start)
}

/// A 4 KiB physical frame, known by its start address.
#[derive(Clone, Copy, Debug, PartialEq, Eq)]
pub struct PhysFrame {
    start_address: u64,
}

impl PhysFrame {
    /// The start address of the frame.
    pub closed spec fn start(self) -> u64 {
        self.start_address
    }

    /// The physical start address of the frame.
    pub fn start_address(&self) -> (addr: u64)
        ensures
            addr == self.start(),
    {
        self.start_address
    }
}

/// `x86_64::structures::paging::PhysFrame::<Size4KiB>::containing_address`, with
/// `PhysAddr::new` before it and `start_address().as_u64()` after it: the frame's
/// start is the address rounded down to a multiple of 4096. `PhysAddr::new`
/// panics on an address with any of bits 52 to 63 set, which `requires` leaves out.
#[verifier::external_body]
fn containing_frame(address: u64) -> (frame: PhysFrame)
    requires
        address < PHYS_ADDR_LIMIT,
    ensures
        frame.start() == address - address % 4096,
{
    let frame = x86_64::structures::paging::PhysFrame::<
        x86_64::structures::paging::Size4KiB,
    >::containing_address(x86_64::PhysAddr::new(address));
    PhysFrame { start_address: frame.start_address().as_u64() }
}

proof fn lemma_align_up(s: u64, mask: u64)
    requires
        s <= PHYS_ADDR_LIMIT,
        mask == !4095u64,
    ensures
        ((s + 4095) as u64) & mask == align_up(s as int),
        s <= align_up(s as int) <= s + 4095,
        align_up(s as int) % 4096 == 0,
{
    assert(((s + 4095) as u64) & mask == ((s + 4095) / 4096) * 4096) by (bit_vector)
        requires
            s <= 0x10_0000_0000_0000u64,
            mask == !4095u64,
    ;
    assert(s <= ((s + 4095) / 4096) * 4096 <= s + 4095) by (nonlinear_arith);
    assert((((s + 4095) / 4096) * 4096) % 4096 == 0) by (nonlinear_arith);
}

/// The frames between `cursor` and `end`: none when `cursor` has passed `end`;
/// otherwise `cursor` itself (unless it is zero) followed by those from the next frame.
proof fn lemma_frames_between_step(cursor: int, end: int)
    ensures
        cursor >= end ==> frames_between(cursor, end) == Seq::<u64>::empty(),
        cursor < end && cursor == 0 ==> frames_between(cursor, end) == frames_between(
            cursor + 4096,
            end,
        ),
        cursor < end && cursor != 0 ==> frames_between(cursor, end) == seq![cursor as u64]
            + frames_between(cursor + 4096, end),
{
}

/// A sequential allocator over the usable frames of a boot memory map. It walks
/// each usable region once, front to back, and never hands out frame zero.
pub struct BootInfoFrameAllocator {
    memory_map: Vec<MemoryRegion>,
    region_index: usize,
    next_address: u64,
}

impl BootInfoFrameAllocator {
    /// The memory map the allocator walks.
    pub closed spec fn map(&self) -> Seq<MemoryRegion> {
        self.memory_map@
    }

    /// The state is one that the walk can reach.
    #[verifier::type_invariant]
    spec fn wf(&self) -> bool {
        &&& map_in_physical_memory(self.memory_map@)
        &&& self.region_index <= self.memory_map.len()
        &&& self.next_address <= PHYS_ADDR_LIMIT + FRAME_SIZE
        &&& self.next_address % FRAME_SIZE == 0
        &&& self.next_address != 0 ==> {
            &&& self.region_index < self.memory_map.len()
            &&& self.memory_map@[self.region_index as int].usable()
            &&& self.memory_map@[self.region_index as int].range.start() <= self.next_address
        }
    }

    /// Where the walk resumes inside the current region.
    closed spec fn cursor(&self) -> int {
        let s: int = self.memory_map@[self.region_index as int].range.start();
        if self.next_address < s {
            align_up(s)
        } else {
            self.next_address as int
        }
    }

    /// The frames still to be handed out, in the order they will come.
    pub closed spec fn remaining(&self) -> Seq<u64> {
        if self.region_index >= self.memory_map.len() {
            Seq::empty()
        } else {
            let r = self.memory_map@[self.region_index as int];
            (if r.usable() {
                frames_between(self.cursor(), r.range.end())
            } else {
                Seq::empty()
            }) + frames_of_regions(self.memory_map@, self.region_index + 1)
        }
    }

    proof fn lemma_fresh_region(&self)
        requires
            self.wf(),
            self.next_address == 0,
        ensures
            self.remaining() == frames_of_regions(self.memory_map@, self.region_index as int),
    {
        let m = self.memory_map@;
        let i: int = self.region_index as int;
        if i < m.len() {
            let r = m[i];
            if r.usable() {
                if r.range.start() == 0 {
                    assert(align_up(0) == 0);
                }
                assert(self.cursor() == align_up(r.range.start()));
            }
            assert(self.remaining() =~= region_frames(r) + frames_of_regions(m, i + 1));
        }
    }

    /// An allocator at the start of `memory_map`.
    pub fn init(memory_map: Vec<MemoryRegion>) -> (a: BootInfoFrameAllocator)
        requires
            map_in_physical_memory(memory_map@),
        ensures
            a.map() == memory_map@,
            a.remaining() == usable_frames(memory_map@),
    {
        let a = BootInfoFrameAllocator { memory_map, region_index: 0, next_address: 0 };
        proof {
            a.lemma_fresh_region();
        }
        a
    }

    fn next_usable_frame(&mut self) -> (frame: Option<PhysFrame>)
        ensures
            final(self).map() == old(self).map(),
            old(self).remaining().len() == 0 ==> frame.is_none() && final(self).remaining()
                == old(self).remaining(),
            old(self).remaining().len() > 0 ==> frame.is_some() && frame.unwrap().start()
                == old(self).remaining()[0] && final(self).remaining() == old(
                self,
            ).remaining().drop_first(),
    {
        while self.region_index < self.memory_map.len()
            invariant
                self.memory_map@ == old(self).memory_map@,
                self.remaining() == old(self).remaining(),
            decreases
                self.memory_map.len() - self.region_index,
                PHYS_ADDR_LIMIT + 2 * FRAME_SIZE - self.next_address,
        {
            proof {
                use_type_invariant(&*self);
            }
            let region = self.memory_map[self.region_index];
            let ghost i: int = self.region_index as int;
            let ghost m: Seq<MemoryRegion> = self.memory_map@;
            assert(region_in_physical_memory(m[i]));
            if !region.is_usable() {
                self.region_index += 1;
                proof {
                    self.lemma_fresh_region();
                }
                continue;
            }
            let start: u64 = region.range.start_addr();
            let end: u64 = region.range.end_addr();
            // Initialize the cursor at the first 4 KiB-aligned address in this region.
            if self.next_address < start {
                let mask: u64 = !(FRAME_SIZE - 1);
                proof {
                    lemma_align_up(start, mask);
                }
                self.next_address = (start + FRAME_SIZE - 1) & mask;
            }
            assert(self.cursor() == self.next_address);
            if self.next_address >= end {
                proof {
                    lemma_frames_between_step(self.next_address as int, end as int);
                }
                self.next_address = 0;
                self.region_index += 1;
                proof {
                    self.lemma_fresh_region();
                }
                continue;
            }
            let address: u64 = self.next_address;
            self.next_address = self.next_address.saturating_add(FRAME_SIZE);
            proof {
                lemma_frames_between_step(address as int, end as int);
                assert(self.cursor() == address + 4096);
            }
            // Never hand physical frame zero out.
            if address == 0 {
                assert(self.remaining() =~= old(self).remaining());
                continue;
            }
            proof {
                assert(self.remaining() =~= old(self).remaining().drop_first());
            }
            return Some(containing_frame(address));
        }
        None
    }

    /// Hands out the next usable frame, or `None` once every usable frame has been
    /// handed out.
    pub fn allocate_frame(&mut self) -> (frame: Option<PhysFrame>)
        ensures
            final(self).map() == old(self).map(),
            old(self).remaining().len() == 0 ==> frame.is_none() && final(self).remaining()
                == old(self).remaining(),
            old(self).remaining().len() > 0 ==> frame.is_some() && frame.unwrap().start()
                == old(self).remaining()[0] && final(self).remaining() == old(
                self,
            ).remaining().drop_first(),
    {
        self.next_usable_frame()
    }
}

/// Usable regions come in address order and do not overlap.
pub open spec fn usable_regions_ordered(m: Seq<MemoryRegion>) -> bool {
    forall|i: int, j: int|
        0 <= i < j < m.len() && #[trigger] m[i].usable() && #[trigger] m[j].usable() ==> m[i].range.end()
            <= m[j].range.start()
}

/// Usable regions do not overlap.
pub open spec fn usable_regions_disjoint(m: Seq<MemoryRegion>) -> bool {
    forall|i: int, j: int|
        0 <= i < m.len() && 0 <= j < m.len() && i != j && #[trigger] m[i].usable()
            && #[trigger] m[j].usable() ==> m[i].range.end() <= m[j].range.start() || m[j].range.end()
            <= m[i].range.start()
}

/// The 4 KiB frame at `f` lies wholly in a usable region of `m` with index `i` or
/// later.
pub open spec fn in_usable_region_from(m: Seq<MemoryRegion>, i: int, f: int) -> bool {
    exists|j: int|
        i <= j < m.len() && #[trigger] m[j].usable() && m[j].range.start() <= f && f + 4096
            <= m[j].range.end()
}

proof fn lemma_frames_between_bounds(cursor: int, end: int)
    requires
        cursor >= 0,
        cursor % 4096 == 0,
        end <= PHYS_ADDR_LIMIT,
        end % 4096 == 0,
    ensures
        forall|k: int|
            0 <= k < frames_between(cursor, end).len() ==> {
                let f = #[trigger] frames_between(cursor, end)[k];
                &&& f != 0
                &&& cursor <= f
                &&& f + 4096 <= end
                &&& f % 4096 == 0
            },
        forall|a: int, b: int|
            0 <= a < b < frames_between(cursor, end).len() ==> #[trigger] frames_between(
                cursor,
                end,
            )[a] < #[trigger] frames_between(cursor, end)[b],
    decreases
            (if cursor < end {
                end - cursor
            } else {
                0
            }),
{
    lemma_frames_between_step(cursor, end);
    if cursor < end {
        lemma_frames_between_bounds(cursor + 4096, end);
        let rest = frames_between(cursor + 4096, end);
        if cursor != 0 {
            let s = frames_between(cursor, end);
            assert forall|k: int| 0 <= k < s.len() implies {
                let f = #[trigger] s[k];
                &&& f != 0
                &&& cursor <= f
                &&& f + 4096 <= end
                &&& f % 4096 == 0
            } by {
                assert(s == seq![cursor as u64] + rest);
                if k > 0 {
                    assert(s[k] == rest[k - 1]);
                } else {
                    assert(s[0] == cursor as u64);
                }
            }
            assert forall|a: int, b: int| 0 <= a < b < s.len() implies #[trigger] s[a] < #[trigger] s[b] by {
                if a > 0 {
                    assert(s[a] == rest[a - 1]);
                }
                assert(s[b] == rest[b - 1]);
            }
        }
    }
}

proof fn lemma_frames_of_regions_bounds(m: Seq<MemoryRegion>, i: int)
    requires
        0 <= i,
        map_in_physical_memory(m),
    ensures
        forall|k: int|
            0 <= k < frames_of_regions(m, i).len() ==> {
                let f = #[trigger] frames_of_regions(m, i)[k];
                &&& f != 0
                &&& f % 4096 == 0
                &&& in_usable_region_from(m, i, f as int)
            },
        usable_regions_ordered(m) ==> forall|a: int, b: int|
            0 <= a < b < frames_of_regions(m, i).len() ==> #[trigger] frames_of_regions(m, i)[a]
                < #[trigger] frames_of_regions(m, i)[b],
        usable_regions_disjoint(m) ==> forall|a: int, b: int|
            0 <= a < b < frames_of_regions(m, i).len() ==> #[trigger] frames_of_regions(m, i)[a]
                != #[trigger] frames_of_regions(m, i)[b],
    decreases m.len() - i,
{
    if i < m.len() {
        lemma_frames_of_regions_bounds(m, i + 1);
        let r = m[i];
        let head = region_frames(r);
        let rest = frames_of_regions(m, i + 1);
        let s = frames_of_regions(m, i);
        assert(s == head + rest);
        if r.usable() {
            assert(region_in_physical_memory(r));
            assert(r.range.start() >= 0);
            assert(align_up(r.range.start()) >= 0) by (nonlinear_arith)
                requires
                    r.range.start() >= 0,
            ;
            assert(align_up(r.range.start()) % 4096 == 0) by (nonlinear_arith);
            assert(align_up(r.range.start()) >= r.range.start()) by (nonlinear_arith);
            assert(r.range.end() % 4096 == 0) by (nonlinear_arith)
                requires
                    r.range.end() == r.range.end_frame_number * 4096,
            ;
            lemma_frames_between_bounds(align_up(r.range.start()), r.range.end());
        }
        assert forall|k: int| 0 <= k < s.len() implies {
            let f = #[trigger] s[k];
            &&& f != 0
            &&& f % 4096 == 0
            &&& in_usable_region_from(m, i, f as int)
        } by {
            if k < head.len() {
                assert(s[k] == head[k]);
                assert(m[i].usable());
            } else {
                assert(s[k] == rest[k - head.len()]);
                let f: int = rest[k - head.len()] as int;
                let j = choose|j: int|
                    i + 1 <= j < m.len() && #[trigger] m[j].usable() && m[j].range.start() <= f
                        && f + 4096 <= m[j].range.end();
                assert(m[j].usable());
            }
        }
        if usable_regions_ordered(m) {
            assert forall|a: int, b: int| 0 <= a < b < s.len() implies #[trigger] s[a]
                < #[trigger] s[b] by {
                if b < head.len() {
                    assert(s[a] == head[a] && s[b] == head[b]);
                } else if a >= head.len() {
                    assert(s[a] == rest[a - head.len()] && s[b] == rest[b - head.len()]);
                } else {
                    assert(s[a] == head[a] && s[b] == rest[b - head.len()]);
                    let f: int = rest[b - head.len()] as int;
                    assert(in_usable_region_from(m, i + 1, f));
                    let j = choose|j: int|
                        i + 1 <= j < m.len() && #[trigger] m[j].usable() && m[j].range.start()
                            <= f && f + 4096 <= m[j].range.end();
                    assert(m[i].usable());
                    assert(m[i].range.end() <= m[j].range.start());
                }
            }
        }
        if usable_regions_disjoint(m) {
            assert forall|a: int, b: int| 0 <= a < b < s.len() implies #[trigger] s[a]
                != #[trigger] s[b] by {
                if b < head.len() {
                    assert(s[a] == head[a] && s[b] == head[b]);
                } else if a >= head.len() {
                    assert(s[a] == rest[a - head.len()] && s[b] == rest[b - head.len()]);
                } else {
                    assert(s[a] == head[a] && s[b] == rest[b - head.len()]);
                    let f: int = rest[b - head.len()] as int;
                    assert(in_usable_region_from(m, i + 1, f));
                    let j = choose|j: int|
                        i + 1 <= j < m.len() && #[trigger] m[j].usable() && m[j].range.start()
                            <= f && f + 4096 <= m[j].range.end();
                    assert(m[i].usable());
                    assert(m[i].range.end() <= m[j].range.start() || m[j].range.end()
                        <= m[i].range.start());
                }
            }
        }
    }
}

/// Every frame that the allocator of a map hands out is non-zero, 4 KiB-aligned,
/// below the physical address limit, and lies wholly inside a usable region of the
/// map.
pub proof fn lemma_usable_frames_are_usable(m: Seq<MemoryRegion>, k: int)
    requires
        map_in_physical_memory(m),
        0 <= k < usable_frames(m).len(),
    ensures
        usable_frames(m)[k] != 0,
        usable_frames(m)[k] % 4096 == 0,
        usable_frames(m)[k] < PHYS_ADDR_LIMIT,
        in_usable_region_from(m, 0, usable_frames(m)[k] as int),
{
    lemma_frames_of_regions_bounds(m, 0);
    let f: int = usable_frames(m)[k] as int;
    assert(in_usable_region_from(m, 0, f));
    let j = choose|j: int|
        0 <= j < m.len() && #[trigger] m[j].usable() && m[j].range.start() <= f && f + 4096 <= m[j].range.end();
    assert(region_in_physical_memory(m[j]));
}

/// When the usable regions of a map come in address order without overlap (as the
/// bootloader sorts them), the frames handed out strictly increase, so none is
/// handed out twice.
pub proof fn lemma_usable_frames_increase(m: Seq<MemoryRegion>, a: int, b: int)
    requires
        map_in_physical_memory(m),
        usable_regions_ordered(m),
        0 <= a < b < usable_frames(m).len(),
    ensures
        usable_frames(m)[a] < usable_frames(m)[b],
{
    lemma_frames_of_regions_bounds(m, 0);
}

/// When no two usable regions of a map overlap, no frame is handed out twice.
pub proof fn lemma_usable_frames_distinct(m: Seq<MemoryRegion>, a: int, b: int)
    requires
        map_in_physical_memory(m),
        usable_regions_disjoint(m),
        0 <= a < b < usable_frames(m).len(),
    ensures
        usable_frames(m)[a] != usable_frames(m)[b],
{
    lemma_frames_of_regions_bounds(m, 0);
}

proof fn lemma_frames_between_complete(cursor: int, end: int, f: int)
    requires
        cursor >= 0,
        cursor % 4096 == 0,
        f % 4096 == 0,
        f != 0,
        cursor <= f,
        f + 4096 <= end,
    ensures
        frames_between(cursor, end).contains(f as u64),
    decreases f - cursor,
{
    lemma_frames_between_step(cursor, end);
    let s = frames_between(cursor, end);
    if cursor == f {
        assert(s == seq![cursor as u64] + frames_between(cursor + 4096, end));
        assert(s[0] == f as u64);
    } else {
        lemma_frames_between_complete(cursor + 4096, end, f);
        let rest = frames_between(cursor + 4096, end);
        let k = choose|k: int| 0 <= k < rest.len() && rest[k] == f as u64;
        if cursor == 0 {
            assert(s == rest);
            assert(s[k] == f as u64);
        } else {
            assert(s == seq![cursor as u64] + rest);
            assert(s[k + 1] == f as u64);
        }
    }
}

proof fn lemma_align_up_aligned(a: int)
    requires
        a % 4096 == 0,
    ensures
        align_up(a) == a,
{
    assert(((a + 4095) / 4096) * 4096 == a) by (nonlinear_arith)
        requires
            a % 4096 == 0,
    ;
}

proof fn lemma_frames_of_regions_complete(m: Seq<MemoryRegion>, i: int, j: int, f: int)
    requires
        0 <= i <= j < m.len(),
        m[j].usable(),
        f % 4096 == 0,
        f != 0,
        m[j].range.start() <= f,
        f + 4096 <= m[j].range.end(),
    ensures
        frames_of_regions(m, i).contains(f as u64),
    decreases j - i,
{
    let s = frames_of_regions(m, i);
    let head = region_frames(m[i]);
    assert(s == head + frames_of_regions(m, i + 1));
    if i == j {
        let start = m[j].range.start();
        assert(start % 4096 == 0) by (nonlinear_arith)
            requires
                start == m[j].range.start_frame_number * 4096,
        ;
        lemma_align_up_aligned(start);
        lemma_frames_between_complete(start, m[j].range.end(), f);
        let k = choose|k: int| 0 <= k < head.len() && head[k] == f as u64;
        assert(s[k] == f as u64);
    } else {
        lemma_frames_of_regions_complete(m, i + 1, j, f);
        let rest = frames_of_regions(m, i + 1);
        let k = choose|k: int| 0 <= k < rest.len() && rest[k] == f as u64;
        assert(s[head.len() + k] == f as u64);
    }
}

/// The allocator leaves no usable frame out: every non-zero, 4 KiB-aligned frame
/// that lies wholly inside a usable region of the map is among the frames it
/// hands out.
pub proof fn lemma_usable_frames_complete(m: Seq<MemoryRegion>, j: int, f: int)
    requires
        0 <= j < m.len(),
        m[j].usable(),
        f % 4096 == 0,
        f != 0,
        m[j].range.start() <= f,
        f + 4096 <= m[j].range.end(),
    ensures
        usable_frames(m).contains(f as u64),
{
    lemma_frames_of_regions_complete(m, 0, j, f);
}

/// Regions that are not usable add nothing to the usable total; a usable region
/// adds its size; the empty map has none.
pub proof fn lemma_usable_bytes_push(m: Seq<MemoryRegion>, r: MemoryRegion)
    ensures
        usable_bytes_of(Seq::<MemoryRegion>::empty()) == 0,
        !r.usable() ==> usable_bytes_of(m.push(r)) == usable_bytes_of(m),
        r.usable() ==> usable_bytes_of(m.push(r)) == usable_bytes_of(m) + r.range.end_frame_number
            * 4096 - r.range.start_frame_number * 4096,
{
    assert(m.push(r).drop_last() =~= m);
    assert(m.push(r).last() == r);
}

} // verus!
