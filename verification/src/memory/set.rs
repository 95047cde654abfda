use vstd::prelude::*;
use crate::error::HvError;
use crate::memory::flags::MemFlags;
use crate::memory::paging::{
    entry_at, entry_count, entry_index, lemma_entries_cover, lemma_entry_part_of, lemma_layout,
    mapped, region_entries, Stage2Entry, Stage2PageTable,
};
use crate::memory::region::MemoryRegion;

verus! {

/// Leaves that the stage-2 table of a memory set can take unless the set was
/// made with another limit.
pub const DEFAULT_TABLE_CAPACITY: usize = 0x10_0000;

/// Every region is one that a memory set accepts.
pub open spec fn all_valid(regions: Seq<MemoryRegion>) -> bool {
    forall|i: int| 0 <= i < regions.len() ==> (#[trigger] regions[i]).valid()
}

/// The regions stand in ascending order of address and none reaches into the
/// next.
pub open spec fn ascending_disjoint(regions: Seq<MemoryRegion>) -> bool {
    forall|i: int, j: int|
        0 <= i < j < regions.len() ==> (#[trigger] regions[i]).end() <= (
        #[trigger] regions[j]).start
}

/// Whether the region intersects one of the given regions.
pub open spec fn overlaps_any(regions: Seq<MemoryRegion>, region: MemoryRegion) -> bool {
    exists|i: int| 0 <= i < regions.len() && (#[trigger] regions[i]).overlaps(region)
}

/// How many of the given regions begin below `start`: the place of a region
/// that begins there among regions in ascending order.
pub open spec fn slot_for(regions: Seq<MemoryRegion>, start: u64) -> int
    decreases regions.len(),
{
    if regions.len() == 0 {
        0
    } else {
        slot_for(regions.drop_last(), start) + if regions.last().start < start {
            1int
        } else {
            0int
        }
    }
}

/// Whether the leaf is a piece of one of the regions.
pub open spec fn owned(entry: Stage2Entry, regions: Seq<MemoryRegion>) -> bool {
    exists|i: int| 0 <= i < regions.len() && entry.part_of(#[trigger] regions[i])
}

/// The leaves map what the regions hold and nothing else: each leaf is a
/// piece of a region, and each address of a region has a leaf.
pub open spec fn table_agrees(entries: Seq<Stage2Entry>, regions: Seq<MemoryRegion>) -> bool {
    &&& forall|k: int| 0 <= k < entries.len() ==> owned(#[trigger] entries[k], regions)
    &&& forall|i: int, addr: int|
        0 <= i < regions.len() && #[trigger] regions[i].covers(addr) ==> mapped(entries, addr)
}

/// In regions that stand in ascending order, the place of a new region is
/// the index up to which the regions begin below it.
proof fn lemma_slot(regions: Seq<MemoryRegion>, start: u64, pos: int)
    requires
        0 <= pos <= regions.len(),
        forall|i: int| 0 <= i < pos ==> (#[trigger] regions[i]).start < start,
        forall|i: int| pos <= i < regions.len() ==> (#[trigger] regions[i]).start >= start,
    ensures
        slot_for(regions, start) == pos,
    decreases regions.len(),
{
    if regions.len() > 0 {
        let front = regions.drop_last();
        if pos == regions.len() {
            lemma_slot(front, start, pos - 1);
        } else {
            lemma_slot(front, start, pos);
        }
    }
}

/// A valid region that intersects none of the regions, put at its place
/// among them, leaves them in ascending order and disjoint.
proof fn lemma_insert_keeps_order(regions: Seq<MemoryRegion>, region: MemoryRegion, pos: int)
    requires
        all_valid(regions),
        ascending_disjoint(regions),
        region.valid(),
        !overlaps_any(regions, region),
        0 <= pos <= regions.len(),
        forall|i: int| 0 <= i < pos ==> (#[trigger] regions[i]).start < region.start,
        forall|i: int| pos <= i < regions.len() ==> (#[trigger] regions[i]).start >= region.start,
    ensures
        all_valid(regions.insert(pos, region)),
        ascending_disjoint(regions.insert(pos, region)),
{
    let after = regions.insert(pos, region);
    assert forall|i: int| 0 <= i < regions.len() implies (#[trigger] regions[i]).end()
        <= region.start || region.end() <= regions[i].start by {
        assert(!regions[i].overlaps(region));
    }
    assert forall|i: int, j: int| 0 <= i < j < after.len() implies (#[trigger] after[i]).end() <= (
    #[trigger] after[j]).start by {
        if i == pos {
            assert(after[j] == regions[j - 1]);
            assert(regions[j - 1].valid());
        } else if j == pos {
            assert(after[i] == regions[i]);
            assert(regions[i].valid());
        } else {
            let a = if i < pos {
                i
            } else {
                i - 1
            };
            let b = if j < pos {
                j
            } else {
                j - 1
            };
            assert(after[i] == regions[a]);
            assert(after[j] == regions[b]);
        }
    }
    assert forall|i: int| 0 <= i < after.len() implies (#[trigger] after[i]).valid() by {
        if i < pos {
            assert(after[i] == regions[i]);
        } else if i > pos {
            assert(after[i] == regions[i - 1]);
        }
    }
}

/// Leaves that agree with the regions still agree once a valid region is put
/// among the regions and its leaves behind the others.
proof fn lemma_insert_keeps_table(
    entries: Seq<Stage2Entry>,
    regions: Seq<MemoryRegion>,
    region: MemoryRegion,
    pos: int,
)
    requires
        table_agrees(entries, regions),
        region.valid(),
        0 <= pos <= regions.len(),
    ensures
        table_agrees(entries + region_entries(region), regions.insert(pos, region)),
{
    let added = region_entries(region);
    let leaves = entries + added;
    let after = regions.insert(pos, region);
    lemma_layout(region);
    assert forall|k: int| 0 <= k < leaves.len() implies owned(#[trigger] leaves[k], after) by {
        if k < entries.len() {
            assert(leaves[k] == entries[k]);
            assert(owned(entries[k], regions));
            let i = choose|i: int| 0 <= i < regions.len() && entries[k].part_of(#[trigger] regions[i]);
            let at = if i < pos {
                i
            } else {
                i + 1
            };
            assert(after[at] == regions[i]);
        } else {
            let n = k - entries.len();
            assert(leaves[k] == entry_at(region, n));
            lemma_entry_part_of(region, n);
            assert(after[pos] == region);
        }
    }
    assert forall|i: int, addr: int|
        0 <= i < after.len() && #[trigger] after[i].covers(addr) implies mapped(leaves, addr) by {
        if i == pos {
            lemma_entries_cover(region, addr);
            let n = entry_index(region, addr);
            assert(leaves[entries.len() + n] == entry_at(region, n));
            assert(leaves[entries.len() + n].covers(addr));
        } else {
            let was = if i < pos {
                i
            } else {
                i - 1
            };
            assert(after[i] == regions[was]);
            assert(regions[was].covers(addr));
            assert(mapped(entries, addr));
            let k = choose|k: int| 0 <= k < entries.len() && #[trigger] entries[k].covers(addr);
            assert(leaves[k] == entries[k]);
            assert(leaves[k].covers(addr));
        }
    }
}

/// The guest-physical memory of a cell: its regions in ascending order of
/// address, none intersecting another, and the stage-2 table that maps them.
#[derive(Debug)]
pub struct MemorySet {
    regions: Vec<MemoryRegion>,
    pt: Stage2PageTable,
}

impl View for MemorySet {
    type V = Seq<MemoryRegion>;

    closed spec fn view(&self) -> Seq<MemoryRegion> {
        self.regions@
    }
}

impl MemorySet {
    /// The stage-2 table that the set is built against.
    pub closed spec fn table(&self) -> Stage2PageTable {
        self.pt
    }

    /// The regions are valid, ascending and disjoint, and the table maps
    /// exactly what they hold.
    pub open spec fn wf(&self) -> bool {
        &&& all_valid(self@)
        &&& ascending_disjoint(self@)
        &&& self.table().wf()
        &&& table_agrees(self.table()@, self@)
    }

    /// An empty set whose table can take `DEFAULT_TABLE_CAPACITY` leaves.
    pub fn new() -> (set: Self)
        ensures
            set.wf(),
            set@.len() == 0,
            set.table()@.len() == 0,
            set.table().limit() == DEFAULT_TABLE_CAPACITY,
    {
        MemorySet { regions: Vec::new(), pt: Stage2PageTable::new(DEFAULT_TABLE_CAPACITY) }
    }

    /// An empty set whose table can take `capacity` leaves.
    pub fn with_table_capacity(capacity: usize) -> (set: Self)
        ensures
            set.wf(),
            set@.len() == 0,
            set.table()@.len() == 0,
            set.table().limit() == capacity,
    {
        MemorySet { regions: Vec::new(), pt: Stage2PageTable::new(capacity) }
    }

    /// Number of regions.
    pub fn len(&self) -> (n: usize)
        ensures
            n == self@.len(),
    {
        self.regions.len()
    }

    /// The `i`-th region in ascending order of address.
    pub fn region(&self, i: usize) -> (found: Option<MemoryRegion>)
        ensures
            found == if i < self@.len() {
                Some(self@[i as int])
            } else {
                None
            },
    {
        if i < self.regions.len() {
            Some(self.regions[i])
        } else {
            None
        }
    }

    /// The stage-2 table that the set is built against.
    pub fn page_table(&self) -> (table: &Stage2PageTable)
        ensures
            *table == self.table(),
    {
        &self.pt
    }

    /// Whether the region intersects one that the set holds.
    pub fn overlaps(&self, region: &MemoryRegion) -> (hit: bool)
        requires
            self.wf(),
            region.valid(),
        ensures
            hit == overlaps_any(self@, *region),
    {
        let mut i: usize = 0;
        while i < self.regions.len()
            invariant
                i <= self.regions.len(),
                all_valid(self.regions@),
                region.valid(),
                forall|j: int| 0 <= j < i ==> !(#[trigger] self.regions@[j]).overlaps(*region),
            decreases self.regions.len() - i,
        {
            if self.regions[i].is_overlap_with(region) {
                return true;
            }
            i = i + 1;
        }
        false
    }

    /// Walks the stage-2 table for a guest-physical address: the
    /// host-physical address and the flags it is mapped with, or nothing
    /// where no region holds it.
    pub fn translate(&self, addr: u64) -> (res: Option<(u64, MemFlags)>)
        requires
            self.wf(),
        ensures
            match res {
                Some((hpa, flags)) => translation(self@, addr as int) == Some((hpa as int, flags)),
                None => translation(self@, addr as int).is_none(),
            },
            self.table().translate(addr as int) == translation(self@, addr as int),
    {
        proof {
            lemma_table_follows_regions(*self, addr as int);
        }
        match self.pt.query(addr) {
            Some(leaf) => {
                proof {
                    assert(owned(leaf, self@));
                    let i = choose|i: int| 0 <= i < self@.len() && leaf.part_of(#[trigger] self@[i]);
                    assert(self@[i].covers(addr as int));
                    assert(self@[i].valid());
                }
                Some((leaf.hpa + (addr - leaf.gpa), leaf.flags))
            },
            None => None,
        }
    }

    /// Inserts the regions of `plan` in order and stops at the first that is
    /// refused; the regions before it stay in the set.
    pub fn insert_all(&mut self, plan: &Vec<MemoryRegion>) -> (res: Result<(), HvError>)
        requires
            old(self).wf(),
        ensures
            final(self).wf(),
            final(self).table().limit() == old(self).table().limit(),
            final(self)@ == insert_each(
                old(self)@,
                old(self).table()@,
                old(self).table().limit(),
                plan@,
            ).regions,
            final(self).table()@ == insert_each(
                old(self)@,
                old(self).table()@,
                old(self).table().limit(),
                plan@,
            ).entries,
            res == insert_each(
                old(self)@,
                old(self).table()@,
                old(self).table().limit(),
                plan@,
            ).outcome,
    {
        let ghost limit = self.pt.limit();
        let ghost goal = insert_each(self@, self.pt@, limit, plan@);
        let mut k: usize = 0;
        assert(plan@.skip(0) == plan@);
        while k < plan.len()
            invariant
                k <= plan.len(),
                self.wf(),
                self.pt.limit() == limit,
                limit == old(self).table().limit(),
                goal == insert_each(old(self)@, old(self).table()@, limit, plan@),
                goal == insert_each(self@, self.pt@, limit, plan@.skip(k as int)),
            decreases plan.len() - k,
        {
            let ghost rest = plan@.skip(k as int);
            assert(rest[0] == plan@[k as int]);
            assert(rest.skip(1) == plan@.skip(k + 1));
            match self.insert(plan[k]) {
                Ok(_) => {},
                Err(e) => {
                    return Err(e);
                },
            }
            k = k + 1;
        }
        assert(plan@.skip(k as int).len() == 0);
        Ok(())
    }

    /// Adds a region and programs its leaves into the stage-2 table. A region
    /// that is not valid, that intersects one of the set, or whose leaves the
    /// table cannot take, is refused, and the set stays as it was.
    pub fn insert(&mut self, region: MemoryRegion) -> (res: Result<(), HvError>)
        requires
            old(self).wf(),
        ensures
            final(self).wf(),
            final(self).table().limit() == old(self).table().limit(),
            res == insert_outcome(
                old(self)@,
                old(self).table()@.len(),
                old(self).table().limit(),
                region,
            ),
            res.is_ok() ==> final(self)@ == old(self)@.insert(
                slot_for(old(self)@, region.start),
                region,
            ),
            res.is_ok() ==> final(self).table()@ == old(self).table()@ + region_entries(region),
            res.is_err() ==> *final(self) == *old(self),
    {
        if !region.is_valid() {
            return Err(HvError::InvalidRegion);
        }
        if self.overlaps(&region) {
            return Err(HvError::Overlap);
        }
        if !self.pt.fits(&region) {
            return Err(HvError::PageTableExhausted);
        }
        let mut pos: usize = 0;
        while pos < self.regions.len() && self.regions[pos].start < region.start
            invariant
                pos <= self.regions.len(),
                ascending_disjoint(self.regions@),
                all_valid(self.regions@),
                forall|i: int| 0 <= i < pos ==> (#[trigger] self.regions@[i]).start < region.start,
            decreases self.regions.len() - pos,
        {
            pos = pos + 1;
        }
        proof {
            assert forall|i: int| pos <= i < self.regions@.len() implies (
            #[trigger] self.regions@[i]).start >= region.start by {
                if i > pos {
                    assert(self.regions@[pos as int].end() <= self.regions@[i].start);
                    assert(self.regions@[pos as int].valid());
                }
            }
            lemma_slot(self.regions@, region.start, pos as int);
            lemma_insert_keeps_order(self.regions@, region, pos as int);
            lemma_insert_keeps_table(self.pt@, self.regions@, region, pos as int);
        }
        let mapped = self.pt.map(&region);
        assert(mapped.is_ok());
        self.regions.insert(pos, region);
        Ok(())
    }
}

/// Whether one of the regions holds the guest-physical address.
pub open spec fn held(regions: Seq<MemoryRegion>, addr: int) -> bool {
    exists|i: int| 0 <= i < regions.len() && #[trigger] regions[i].covers(addr)
}

/// Where the regions send a guest-physical address: the host-physical
/// address and the flags given by a region that holds it, or nothing.
pub open spec fn translation(regions: Seq<MemoryRegion>, addr: int) -> Option<(int, MemFlags)> {
    if held(regions, addr) {
        let i = choose|i: int| 0 <= i < regions.len() && #[trigger] regions[i].covers(addr);
        Some((regions[i].target(addr), regions[i].flags))
    } else {
        None
    }
}

/// No guest-physical address belongs to two regions of a memory set.
pub proof fn lemma_regions_never_intersect(set: MemorySet, i: int, j: int, addr: int)
    requires
        set.wf(),
        0 <= i < set@.len(),
        0 <= j < set@.len(),
        i != j,
    ensures
        !(set@[i].covers(addr) && set@[j].covers(addr)),
        !set@[i].overlaps(set@[j]),
{
    if i < j {
        assert(set@[i].end() <= set@[j].start);
    } else {
        assert(set@[j].end() <= set@[i].start);
    }
}

/// The stage-2 table of a memory set translates an address exactly as the
/// regions say: an address of a region goes to the region's target with the
/// region's flags, and an address of no region is not mapped.
pub proof fn lemma_table_follows_regions(set: MemorySet, addr: int)
    requires
        set.wf(),
    ensures
        set.table().translate(addr) == translation(set@, addr),
        forall|i: int|
            0 <= i < set@.len() && #[trigger] set@[i].covers(addr) ==> translation(set@, addr)
                == Some((set@[i].target(addr), set@[i].flags)),
        !held(set@, addr) ==> translation(set@, addr).is_none(),
{
    let regions = set@;
    let entries = set.table()@;
    assert forall|i: int, j: int|
        0 <= i < regions.len() && 0 <= j < regions.len() && #[trigger] regions[i].covers(addr)
            && #[trigger] regions[j].covers(addr) implies i == j by {
        if i != j {
            lemma_regions_never_intersect(set, i, j, addr);
        }
    }
    if mapped(entries, addr) {
        let k = choose|k: int| 0 <= k < entries.len() && #[trigger] entries[k].covers(addr);
        assert(owned(entries[k], regions));
        let i = choose|i: int| 0 <= i < regions.len() && entries[k].part_of(#[trigger] regions[i]);
        assert(regions[i].covers(addr));
        assert(held(regions, addr));
    }
    if held(regions, addr) {
        let i = choose|i: int| 0 <= i < regions.len() && #[trigger] regions[i].covers(addr);
        assert(mapped(entries, addr));
    }
}

/// What `insert` answers for a region, given the regions of the set, the
/// leaves its table holds and the leaves it can take: the first of the three
/// refusals that applies, or success.
pub open spec fn insert_outcome(
    regions: Seq<MemoryRegion>,
    used: nat,
    limit: nat,
    region: MemoryRegion,
) -> Result<(), HvError> {
    if !region.valid() {
        Err(HvError::InvalidRegion)
    } else if overlaps_any(regions, region) {
        Err(HvError::Overlap)
    } else if used + entry_count(region) > limit {
        Err(HvError::PageTableExhausted)
    } else {
        Ok(())
    }
}

/// A memory set as its regions and leaves, with the answer of the last
/// insertion tried.
pub struct Built {
    pub regions: Seq<MemoryRegion>,
    pub entries: Seq<Stage2Entry>,
    pub outcome: Result<(), HvError>,
}

/// Inserts the regions of `plan` one after the other into a set with the
/// given regions and leaves, and stops at the first that is refused.
pub open spec fn insert_each(
    regions: Seq<MemoryRegion>,
    entries: Seq<Stage2Entry>,
    limit: nat,
    plan: Seq<MemoryRegion>,
) -> Built
    decreases plan.len(),
{
    if plan.len() == 0 {
        Built { regions, entries, outcome: Ok(()) }
    } else {
        match insert_outcome(regions, entries.len(), limit, plan[0]) {
            Err(e) => Built { regions, entries, outcome: Err(e) },
            Ok(_) => insert_each(
                regions.insert(slot_for(regions, plan[0].start), plan[0]),
                entries + region_entries(plan[0]),
                limit,
                plan.skip(1),
            ),
        }
    }
}

} // verus!
