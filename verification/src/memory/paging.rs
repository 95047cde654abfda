use vstd::prelude::*;
use vstd::arithmetic::div_mod::lemma_mod_multiples_vanish;
use crate::error::HvError;
use crate::memory::flags::MemFlags;
use crate::memory::region::{MemoryRegion, HUGE_PAGE_SIZE, PAGE_SIZE};

verus! {

/// One leaf of the stage-2 table: a page, or a huge page, of guest-physical
/// addresses and where it leads.
#[derive(Debug, Clone, Copy, PartialEq, Eq, Structural)]
pub struct Stage2Entry {
    /// First guest-physical address of the page.
    pub gpa: u64,
    /// Host-physical address of the page.
    pub hpa: u64,
    /// Whether the entry is a huge page.
    pub huge: bool,
    pub flags: MemFlags,
}

impl Stage2Entry {
    /// Bytes that the entry maps.
    pub open spec fn span(self) -> int {
        if self.huge {
            HUGE_PAGE_SIZE as int
        } else {
            PAGE_SIZE as int
        }
    }

    /// Whether the entry maps the guest-physical address.
    pub open spec fn covers(self, addr: int) -> bool {
        self.gpa <= addr < self.gpa + self.span()
    }

    /// The host-physical address that the entry gives a covered address.
    pub open spec fn target(self, addr: int) -> int {
        self.hpa + (addr - self.gpa)
    }

    /// Whether the entry is a piece of the region: inside its range, at its
    /// offset, with its flags.
    pub open spec fn part_of(self, region: MemoryRegion) -> bool {
        &&& region.start <= self.gpa
        &&& self.gpa + self.span() <= region.end()
        &&& self.hpa - self.gpa == region.phys_start - region.start
        &&& self.flags == region.flags
    }
}

/// Whether a region may hold huge pages: its flags allow them, and guest and
/// host addresses reach a huge-page boundary together.
pub open spec fn huge_capable(region: MemoryRegion) -> bool {
    !region.flags.forbids_hugepages() && region.start % HUGE_PAGE_SIZE == region.phys_start
        % HUGE_PAGE_SIZE
}

/// Bytes at the front of a region that are mapped page by page: up to the
/// first huge-page boundary, or all of it where huge pages cannot be used.
pub open spec fn head_size(region: MemoryRegion) -> int {
    if huge_capable(region) {
        let gap = (HUGE_PAGE_SIZE - region.start % HUGE_PAGE_SIZE) % (HUGE_PAGE_SIZE as int);
        if gap < region.size {
            gap
        } else {
            region.size as int
        }
    } else {
        region.size as int
    }
}

/// Huge pages in the middle of a region.
pub open spec fn huge_count(region: MemoryRegion) -> int {
    (region.size - head_size(region)) / (HUGE_PAGE_SIZE as int)
}

/// Pages at the front of a region.
pub open spec fn head_pages(region: MemoryRegion) -> int {
    head_size(region) / (PAGE_SIZE as int)
}

/// Bytes at the back of a region that are left over after the huge pages.
pub open spec fn tail_size(region: MemoryRegion) -> int {
    region.size - head_size(region) - huge_count(region) * HUGE_PAGE_SIZE
}

/// Pages at the back of a region.
pub open spec fn tail_pages(region: MemoryRegion) -> int {
    tail_size(region) / (PAGE_SIZE as int)
}

/// Entries that a region takes in the stage-2 table.
pub open spec fn entry_count(region: MemoryRegion) -> int {
    head_pages(region) + huge_count(region) + tail_pages(region)
}

/// Offset into the region at which its `k`-th entry begins.
pub open spec fn entry_offset(region: MemoryRegion, k: int) -> int {
    if k < head_pages(region) {
        k * PAGE_SIZE
    } else if k < head_pages(region) + huge_count(region) {
        head_size(region) + (k - head_pages(region)) * HUGE_PAGE_SIZE
    } else {
        head_size(region) + huge_count(region) * HUGE_PAGE_SIZE + (k - head_pages(region)
            - huge_count(region)) * PAGE_SIZE
    }
}

/// The `k`-th entry of a region, in ascending order of address.
pub open spec fn entry_at(region: MemoryRegion, k: int) -> Stage2Entry {
    Stage2Entry {
        gpa: (region.start + entry_offset(region, k)) as u64,
        hpa: (region.phys_start + entry_offset(region, k)) as u64,
        huge: head_pages(region) <= k < head_pages(region) + huge_count(region),
        flags: region.flags,
    }
}

/// The entries that map a region: huge pages wherever the flags allow and
/// the alignment fits, pages elsewhere.
pub open spec fn region_entries(region: MemoryRegion) -> Seq<Stage2Entry> {
    Seq::new(entry_count(region) as nat, |k: int| entry_at(region, k))
}

/// The distance from a page boundary to the next huge-page boundary is made
/// of whole pages, and leads to such a boundary.
proof fn lemma_gap(start: int, gap: int)
    requires
        0 <= start,
        start % 0x1000 == 0,
        gap == (0x20_0000 - start % 0x20_0000) % 0x20_0000,
    ensures
        0 <= gap < 0x20_0000,
        gap % 0x1000 == 0,
        (start + gap) % 0x20_0000 == 0,
{
    let r = start % 0x20_0000;
    assert(r % 0x1000 == 0);
    if r == 0 {
        assert(gap == 0);
    } else {
        assert(gap == 0x20_0000 - r);
    }
}

/// What is left of a run of whole pages after the huge pages are taken out
/// is made of whole pages.
proof fn lemma_rest(rest: int, count: int, tail: int)
    requires
        0 <= rest,
        rest % 0x1000 == 0,
        count == rest / 0x20_0000,
        tail == rest - count * 0x20_0000,
    ensures
        0 <= count,
        0 <= tail < 0x20_0000,
        tail % 0x1000 == 0,
        tail == (tail / 0x1000) * 0x1000,
        count <= rest / 0x1000,
        count + tail / 0x1000 <= rest / 0x1000,
{
    assert(tail == rest % 0x20_0000);
}

/// The layout of a valid region is made of whole pages and whole huge pages,
/// and fills the region.
pub proof fn lemma_layout(region: MemoryRegion)
    requires
        region.valid(),
    ensures
        0 <= head_size(region) <= region.size,
        head_size(region) == head_pages(region) * PAGE_SIZE,
        0 <= huge_count(region),
        0 <= tail_size(region) < HUGE_PAGE_SIZE,
        tail_size(region) == tail_pages(region) * PAGE_SIZE,
        huge_count(region) > 0 ==> huge_capable(region) && (region.start + head_size(region))
            % (HUGE_PAGE_SIZE as int) == 0,
        0 < entry_count(region) <= region.size / PAGE_SIZE,
        head_size(region) + huge_count(region) * HUGE_PAGE_SIZE + tail_size(region)
            == region.size,
{
    let start = region.start as int;
    let size = region.size as int;
    let gap = (0x20_0000 - start % 0x20_0000) % 0x20_0000;
    lemma_gap(start, gap);
    let head = head_size(region);
    assert(head == size || (head == gap && gap < size));
    assert(head % 0x1000 == 0);
    assert(head == (head / 0x1000) * 0x1000);
    let rest = size - head;
    assert(rest % 0x1000 == 0);
    lemma_rest(rest, huge_count(region), tail_size(region));
    assert(head / 0x1000 + rest / 0x1000 == size / 0x1000);
    if huge_count(region) > 0 {
        assert(head < size);
        assert(huge_capable(region));
        assert(head == gap);
    }
    if head == 0 {
        assert(rest == size);
        assert(rest >= 0x1000);
        if huge_count(region) == 0 {
            assert(tail_size(region) == rest);
            assert(tail_pages(region) >= 1);
        }
    } else {
        assert(head >= 0x1000);
        assert(head_pages(region) >= 1);
    }
}

/// Every entry of a valid region is a piece of it, and a huge entry begins on
/// a huge-page boundary on both sides.
pub proof fn lemma_entry_part_of(region: MemoryRegion, k: int)
    requires
        region.valid(),
        0 <= k < entry_count(region),
    ensures
        entry_at(region, k).part_of(region),
        entry_at(region, k).gpa == region.start + entry_offset(region, k),
        entry_at(region, k).hpa == region.phys_start + entry_offset(region, k),
        entry_at(region, k).gpa as int % entry_at(region, k).span() == 0,
        entry_at(region, k).hpa as int % entry_at(region, k).span() == 0,
{
    lemma_layout(region);
    let head = head_size(region);
    let off = entry_offset(region, k);
    let entry = entry_at(region, k);
    assert(0 <= off && off + entry.span() <= region.size);
    if entry.huge {
        let j = k - head_pages(region);
        lemma_congruent_shift(region.start as int, region.phys_start as int, head);
        lemma_mod_multiples_vanish(j, region.start + head, 0x20_0000);
        lemma_mod_multiples_vanish(j, region.phys_start + head, 0x20_0000);
        assert(off == 0x20_0000 * j + head);
        assert(entry.gpa as int % 0x20_0000 == 0);
        assert(entry.hpa as int % 0x20_0000 == 0);
    } else {
        assert(off % 0x1000 == 0);
        assert(entry.gpa as int % 0x1000 == 0);
        assert(entry.hpa as int % 0x1000 == 0);
    }
}

/// Two addresses that are congruent modulo the huge-page size stay so when
/// both move by the same distance.
proof fn lemma_congruent_shift(a: int, b: int, d: int)
    requires
        0 <= a,
        0 <= b,
        0 <= d,
        a % 0x20_0000 == b % 0x20_0000,
    ensures
        (a + d) % 0x20_0000 == (b + d) % 0x20_0000,
{
}

/// The index of the entry of a valid region that maps a covered address.
pub open spec fn entry_index(region: MemoryRegion, addr: int) -> int {
    let off = addr - region.start;
    let mid = head_size(region) + huge_count(region) * HUGE_PAGE_SIZE;
    if off < head_size(region) {
        off / (PAGE_SIZE as int)
    } else if off < mid {
        head_pages(region) + (off - head_size(region)) / (HUGE_PAGE_SIZE as int)
    } else {
        head_pages(region) + huge_count(region) + (off - mid) / (PAGE_SIZE as int)
    }
}

/// Every address of a valid region is mapped by one of its entries.
pub proof fn lemma_entries_cover(region: MemoryRegion, addr: int)
    requires
        region.valid(),
        region.covers(addr),
    ensures
        0 <= entry_index(region, addr) < entry_count(region),
        entry_at(region, entry_index(region, addr)).covers(addr),
{
    lemma_layout(region);
}

/// Bytes at the front of a valid region that are mapped page by page, and
/// the huge pages that follow them.
pub fn layout_of(region: &MemoryRegion) -> (parts: (u64, u64))
    requires
        region.valid(),
    ensures
        parts.0 == head_size(*region),
        parts.1 == huge_count(*region),
{
    proof {
        lemma_layout(*region);
    }
    let huge_ok = !region.flags.without_hugepages() && region.start % HUGE_PAGE_SIZE
        == region.phys_start % HUGE_PAGE_SIZE;
    let head: u64 = if huge_ok {
        let gap: u64 = (HUGE_PAGE_SIZE - region.start % HUGE_PAGE_SIZE) % HUGE_PAGE_SIZE;
        if gap < region.size {
            gap
        } else {
            region.size
        }
    } else {
        region.size
    };
    let count: u64 = (region.size - head) / HUGE_PAGE_SIZE;
    (head, count)
}

/// Entries that a valid region takes in the stage-2 table.
pub fn entries_needed(region: &MemoryRegion) -> (n: u64)
    requires
        region.valid(),
    ensures
        n == entry_count(*region),
        n > 0,
{
    proof {
        lemma_layout(*region);
    }
    let (head, count) = layout_of(region);
    let tail: u64 = region.size - head - count * HUGE_PAGE_SIZE;
    head / PAGE_SIZE + count + tail / PAGE_SIZE
}

/// The `k`-th entry of a valid region, given the region's layout.
fn nth_entry(region: &MemoryRegion, head: u64, count: u64, k: u64) -> (entry: Stage2Entry)
    requires
        region.valid(),
        head == head_size(*region),
        count == huge_count(*region),
        k < entry_count(*region),
    ensures
        entry == entry_at(*region, k as int),
{
    proof {
        lemma_layout(*region);
        lemma_entry_part_of(*region, k as int);
    }
    let pages: u64 = head / PAGE_SIZE;
    let huge = pages <= k && k - pages < count;
    let off: u64 = if k < pages {
        k * PAGE_SIZE
    } else if huge {
        head + (k - pages) * HUGE_PAGE_SIZE
    } else {
        head + count * HUGE_PAGE_SIZE + (k - pages - count) * PAGE_SIZE
    };
    Stage2Entry {
        gpa: region.start + off,
        hpa: region.phys_start + off,
        huge,
        flags: region.flags,
    }
}

/// Whether one of the leaves maps the guest-physical address.
pub open spec fn mapped(entries: Seq<Stage2Entry>, addr: int) -> bool {
    exists|k: int| 0 <= k < entries.len() && #[trigger] entries[k].covers(addr)
}

/// The stage-2 table of a cell: the leaves that translate guest-physical
/// addresses, in the order in which they were programmed, and the number of
/// leaves that its storage can take.
#[derive(Debug)]
pub struct Stage2PageTable {
    entries: Vec<Stage2Entry>,
    capacity: usize,
}

impl View for Stage2PageTable {
    type V = Seq<Stage2Entry>;

    closed spec fn view(&self) -> Seq<Stage2Entry> {
        self.entries@
    }
}

impl Stage2PageTable {
    /// Leaves that the table's storage can take.
    pub closed spec fn limit(&self) -> nat {
        self.capacity as nat
    }

    /// The table holds no more leaves than its storage can take.
    pub open spec fn wf(&self) -> bool {
        self@.len() <= self.limit()
    }

    /// Whether some leaf maps the guest-physical address.
    pub open spec fn maps(&self, addr: int) -> bool {
        mapped(self@, addr)
    }

    /// What the table makes of a guest-physical address: the host-physical
    /// address and the flags of a leaf that maps it, or nothing.
    pub open spec fn translate(&self, addr: int) -> Option<(int, MemFlags)> {
        if self.maps(addr) {
            let k = choose|k: int| 0 <= k < self@.len() && #[trigger] self@[k].covers(addr);
            Some((self@[k].target(addr), self@[k].flags))
        } else {
            None
        }
    }

    /// An empty table with room for `capacity` leaves.
    pub fn new(capacity: usize) -> (table: Self)
        ensures
            table@.len() == 0,
            table.limit() == capacity,
            table.wf(),
    {
        Stage2PageTable { entries: Vec::new(), capacity }
    }

    pub fn len(&self) -> (n: usize)
        ensures
            n == self@.len(),
    {
        self.entries.len()
    }

    pub fn capacity(&self) -> (n: usize)
        ensures
            n == self.limit(),
    {
        self.capacity
    }

    /// Whether the table has room for the leaves of a valid region.
    pub fn fits(&self, region: &MemoryRegion) -> (room: bool)
        requires
            self.wf(),
            region.valid(),
        ensures
            room == (self@.len() + entry_count(*region) <= self.limit()),
    {
        let n: u64 = entries_needed(region);
        let free: usize = self.capacity - self.entries.len();
        n <= free as u64
    }

    /// Programs the leaves of a valid region behind those that the table
    /// holds, or leaves the table as it is where they do not all fit.
    pub fn map(&mut self, region: &MemoryRegion) -> (res: Result<(), HvError>)
        requires
            old(self).wf(),
            region.valid(),
        ensures
            final(self).wf(),
            final(self).limit() == old(self).limit(),
            res.is_ok() <==> old(self)@.len() + entry_count(*region) <= old(self).limit(),
            res.is_ok() ==> final(self)@ == old(self)@ + region_entries(*region),
            res.is_err() ==> res == Err::<(), HvError>(HvError::PageTableExhausted),
            res.is_err() ==> final(self)@ == old(self)@,
    {
        let n: u64 = entries_needed(region);
        let free: usize = self.capacity - self.entries.len();
        if n > free as u64 {
            return Err(HvError::PageTableExhausted);
        }
        let (head, count) = layout_of(region);
        let mut k: u64 = 0;
        while k < n
            invariant
                region.valid(),
                n == entry_count(*region),
                head == head_size(*region),
                count == huge_count(*region),
                k <= n,
                self.capacity == old(self).capacity,
                old(self)@.len() + n <= self.capacity,
                self.entries@ == old(self).entries@ + region_entries(*region).subrange(
                    0,
                    k as int,
                ),
            decreases n - k,
        {
            let entry = nth_entry(region, head, count, k);
            self.entries.push(entry);
            k = k + 1;
            assert(region_entries(*region).subrange(0, k as int) == region_entries(
                *region,
            ).subrange(0, k - 1).push(entry));
        }
        assert(region_entries(*region).subrange(0, n as int) == region_entries(*region));
        Ok(())
    }

    /// The first leaf, in the order of programming, that maps the
    /// guest-physical address.
    pub fn query(&self, addr: u64) -> (found: Option<Stage2Entry>)
        ensures
            found.is_some() == self.maps(addr as int),
            match found {
                Some(leaf) => exists|k: int|
                    {
                        &&& 0 <= k < self@.len()
                        &&& self@[k] == leaf
                        &&& #[trigger] self@[k].covers(addr as int)
                        &&& forall|j: int| 0 <= j < k ==> !#[trigger] self@[j].covers(addr as int)
                    },
                None => true,
            },
    {
        let mut k: usize = 0;
        while k < self.entries.len()
            invariant
                k <= self.entries.len(),
                forall|j: int| 0 <= j < k ==> !#[trigger] self.entries@[j].covers(addr as int),
            decreases self.entries.len() - k,
        {
            let leaf = self.entries[k];
            let span: u64 = if leaf.huge {
                HUGE_PAGE_SIZE
            } else {
                PAGE_SIZE
            };
            if leaf.gpa <= addr && addr - leaf.gpa < span {
                assert(self@[k as int].covers(addr as int));
                return Some(leaf);
            }
            k = k + 1;
        }
        None
    }

    /// The `k`-th leaf, in the order of programming.
    pub fn entry(&self, k: usize) -> (leaf: Option<Stage2Entry>)
        ensures
            leaf == if k < self@.len() {
                Some(self@[k as int])
            } else {
                None
            },
    {
        if k < self.entries.len() {
            Some(self.entries[k])
        } else {
            None
        }
    }
}

} // verus!
