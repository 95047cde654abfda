use hvcell::error::HvError;
use hvcell::memory::flags::MemFlags;
use hvcell::memory::paging::{entries_needed, layout_of, Stage2Entry, Stage2PageTable};
use hvcell::memory::region::{MemoryRegion, HUGE_PAGE_SIZE, PAGE_SIZE};
use hvcell::memory::set::{MemorySet, DEFAULT_TABLE_CAPACITY};

fn rw() -> MemFlags {
    MemFlags::read().union(MemFlags::write())
}

fn region(start: u64, phys: u64, size: u64, flags: MemFlags) -> MemoryRegion {
    MemoryRegion::new_with_offset_mapper(start, phys, size, flags)
}

#[test]
fn flags_have_their_bits() {
    assert_eq!(MemFlags::empty().bits(), 0);
    assert_eq!(MemFlags::read().bits(), 0x1);
    assert_eq!(MemFlags::write().bits(), 0x2);
    assert_eq!(MemFlags::execute().bits(), 0x4);
    assert_eq!(MemFlags::io().bits(), 0x10);
    assert_eq!(MemFlags::no_hugepages().bits(), 0x100);
    assert_eq!(rw().bits(), 0x3);
    assert_eq!(rw().union(MemFlags::io()).bits(), 0x13);
}

#[test]
fn flags_union_contains_both_sides() {
    let flags = MemFlags::read().union(MemFlags::no_hugepages());
    assert!(flags.contains(MemFlags::read()));
    assert!(flags.contains(MemFlags::no_hugepages()));
    assert!(!flags.contains(MemFlags::write()));
    assert!(flags.without_hugepages());
    assert!(!rw().without_hugepages());
    assert!(MemFlags::empty().is_empty());
    assert!(!flags.is_empty());
    assert!(flags.contains(MemFlags::empty()));
}

#[test]
fn flags_from_bits_drops_unknown_bits() {
    assert_eq!(MemFlags::from_bits_truncate(0xffff_ffff).bits(), 0x117);
    assert_eq!(MemFlags::from_bits_truncate(0x3), rw());
    assert_eq!(MemFlags::from_bits_truncate(0x8).bits(), 0);
}

#[test]
fn region_constructor_keeps_its_arguments() {
    let r = region(0x4000_0000, 0x8000_0000, 0x3000, rw());
    assert_eq!(r.start, 0x4000_0000);
    assert_eq!(r.phys_start, 0x8000_0000);
    assert_eq!(r.size, 0x3000);
    assert_eq!(r.flags, rw());
    assert!(r.is_valid());
}

#[test]
fn region_validity() {
    assert!(!region(0x1000, 0x1000, 0, rw()).is_valid());
    assert!(!region(0x1001, 0x1000, 0x1000, rw()).is_valid());
    assert!(!region(0x1000, 0x1800, 0x1000, rw()).is_valid());
    assert!(!region(0x1000, 0x1000, 0x1234, rw()).is_valid());
    // Reaches exactly to the end of the address space.
    assert!(region(0xffff_ffff_ffff_f000, 0, 0x1000, rw()).is_valid());
    // One page too far, on the guest side and on the host side.
    assert!(!region(0xffff_ffff_ffff_f000, 0, 0x2000, rw()).is_valid());
    assert!(!region(0, 0xffff_ffff_ffff_f000, 0x2000, rw()).is_valid());
}

#[test]
fn region_overlap_and_containment() {
    let a = region(0x1000, 0x1000, 0x2000, rw());
    let b = region(0x2000, 0x9000, 0x2000, rw());
    let c = region(0x3000, 0x9000, 0x1000, rw());
    assert!(a.is_overlap_with(&b));
    assert!(b.is_overlap_with(&a));
    assert!(!a.is_overlap_with(&c));
    assert!(!c.is_overlap_with(&a));
    assert!(a.is_overlap_with(&a));
    assert!(a.contains(0x1000));
    assert!(a.contains(0x2fff));
    assert!(!a.contains(0x3000));
    assert!(!a.contains(0xfff));
    let top = region(0xffff_ffff_ffff_f000, 0, 0x1000, rw());
    assert!(top.contains(u64::MAX));
    assert!(top.is_overlap_with(&top));
    assert!(!top.is_overlap_with(&a));
}

#[test]
fn layout_of_aligned_region_is_all_huge_pages() {
    let r = region(0x4000_0000, 0x4000_0000, 0x80_0000, rw());
    assert_eq!(layout_of(&r), (0, 4));
    assert_eq!(entries_needed(&r), 4);
}

#[test]
fn layout_without_hugepages_is_all_pages() {
    let r = region(0x4000_0000, 0x4000_0000, 0x80_0000, rw().union(MemFlags::no_hugepages()));
    assert_eq!(layout_of(&r), (0x80_0000, 0));
    assert_eq!(entries_needed(&r), 0x800);
}

#[test]
fn layout_with_head_and_tail() {
    // Three pages up to the boundary, two huge pages, five pages behind.
    let r = region(0x1f_d000, 0x5f_d000, 0x3000 + 0x40_0000 + 0x5000, rw());
    assert_eq!(layout_of(&r), (0x3000, 2));
    assert_eq!(entries_needed(&r), 3 + 2 + 5);
}

#[test]
fn layout_of_incongruent_region_is_all_pages() {
    // Guest and host side never reach a huge-page boundary together.
    let r = region(0x20_0000, 0x20_1000, 0x40_0000, rw());
    assert_eq!(layout_of(&r), (0x40_0000, 0));
    assert_eq!(entries_needed(&r), 0x400);
}

#[test]
fn layout_of_region_that_ends_before_the_boundary() {
    let r = region(0x1f_d000, 0x1f_d000, 0x2000, rw());
    assert_eq!(layout_of(&r), (0x2000, 0));
    assert_eq!(entries_needed(&r), 2);
}

#[test]
fn page_table_maps_leaves_in_order() {
    let mut table = Stage2PageTable::new(16);
    assert_eq!(table.len(), 0);
    assert_eq!(table.capacity(), 16);
    let r = region(0x1f_f000, 0x9f_f000, 0x1000 + 0x20_0000 + 0x2000, rw());
    assert!(table.fits(&r));
    assert_eq!(table.map(&r), Ok(()));
    assert_eq!(table.len(), 4);
    assert_eq!(
        table.entry(0),
        Some(Stage2Entry { gpa: 0x1f_f000, hpa: 0x9f_f000, huge: false, flags: rw() })
    );
    assert_eq!(
        table.entry(1),
        Some(Stage2Entry { gpa: 0x20_0000, hpa: 0xa0_0000, huge: true, flags: rw() })
    );
    assert_eq!(
        table.entry(2),
        Some(Stage2Entry { gpa: 0x40_0000, hpa: 0xc0_0000, huge: false, flags: rw() })
    );
    assert_eq!(
        table.entry(3),
        Some(Stage2Entry { gpa: 0x40_1000, hpa: 0xc0_1000, huge: false, flags: rw() })
    );
    assert_eq!(table.entry(4), None);
    assert_eq!(table.query(0x20_0000 + 0x1234).unwrap().gpa, 0x20_0000);
    assert_eq!(table.query(0x1f_efff), None);
    assert_eq!(table.query(0x40_2000), None);
}

#[test]
fn page_table_refuses_what_does_not_fit() {
    let mut table = Stage2PageTable::new(3);
    let r = region(0x1000, 0x1000, 0x4000, rw());
    assert!(!table.fits(&r));
    assert_eq!(table.map(&r), Err(HvError::PageTableExhausted));
    assert_eq!(table.len(), 0);
    let small = region(0x1000, 0x1000, 0x3000, rw());
    assert!(table.fits(&small));
    assert_eq!(table.map(&small), Ok(()));
    assert_eq!(table.len(), 3);
    assert!(!table.fits(&region(0x8000, 0x8000, 0x1000, rw())));
}

#[test]
fn new_set_is_empty() {
    let set = MemorySet::new();
    assert_eq!(set.len(), 0);
    assert_eq!(set.region(0), None);
    assert_eq!(set.page_table().len(), 0);
    assert_eq!(set.page_table().capacity(), DEFAULT_TABLE_CAPACITY);
    assert_eq!(set.translate(0x1000), None);
    assert_eq!(MemorySet::with_table_capacity(7).page_table().capacity(), 7);
}

#[test]
fn insert_keeps_regions_in_ascending_order() {
    let mut set = MemorySet::new();
    assert_eq!(set.insert(region(0x4000_0000, 0x4000_0000, 0x1000, rw())), Ok(()));
    assert_eq!(set.insert(region(0x1000_0000, 0x1000_0000, 0x2000, rw())), Ok(()));
    assert_eq!(set.insert(region(0x2000_0000, 0x9000_0000, 0x3000, rw())), Ok(()));
    assert_eq!(set.len(), 3);
    assert_eq!(set.region(0).unwrap().start, 0x1000_0000);
    assert_eq!(set.region(1).unwrap().start, 0x2000_0000);
    assert_eq!(set.region(2).unwrap().start, 0x4000_0000);
    assert_eq!(set.region(3), None);
    // The table holds the leaves in the order of insertion.
    assert_eq!(set.page_table().len(), 6);
    assert_eq!(set.page_table().entry(0).unwrap().gpa, 0x4000_0000);
    assert_eq!(set.page_table().entry(1).unwrap().gpa, 0x1000_0000);
    assert_eq!(set.page_table().entry(3).unwrap().gpa, 0x2000_0000);
}

#[test]
fn regions_of_a_set_never_intersect() {
    let mut set = MemorySet::new();
    let wanted = [
        (0x5000u64, 0x3000u64),
        (0x1000, 0x2000),
        (0x2000, 0x4000),
        (0x8000, 0x1000),
        (0x7000, 0x2000),
        (0x3000, 0x2000),
        (0x0, 0x1000),
        (0x0, 0x10000),
    ];
    for (start, size) in wanted {
        let _ = set.insert(region(start, start, size, rw()));
    }
    assert_eq!(set.len(), 5);
    for i in 0..set.len() {
        for j in 0..set.len() {
            if i != j {
                let a = set.region(i).unwrap();
                let b = set.region(j).unwrap();
                assert!(!a.is_overlap_with(&b));
            }
        }
        if i + 1 < set.len() {
            let a = set.region(i).unwrap();
            let b = set.region(i + 1).unwrap();
            assert!(a.start + a.size <= b.start);
        }
    }
}

#[test]
fn overlapping_insert_fails_and_changes_nothing() {
    let mut set = MemorySet::new();
    set.insert(region(0x4000_0000, 0x4000_0000, 0x4000, rw())).unwrap();
    let leaves = set.page_table().len();
    let res = set.insert(region(0x4000_3000, 0x5000_0000, 0x2000, rw()));
    assert_eq!(res, Err(HvError::Overlap));
    assert_eq!(set.len(), 1);
    assert_eq!(set.page_table().len(), leaves);
    assert_eq!(set.region(0), Some(region(0x4000_0000, 0x4000_0000, 0x4000, rw())));
    assert_eq!(set.translate(0x4000_3000), Some((0x4000_3000, rw())));
    // A region around the one that is there, and one inside it.
    assert_eq!(set.insert(region(0x3000_0000, 0, 0x2000_0000, rw())), Err(HvError::Overlap));
    assert_eq!(set.insert(region(0x4000_1000, 0, 0x1000, rw())), Err(HvError::Overlap));
    assert_eq!(set.len(), 1);
    // A neighbour that only touches the end is no overlap.
    assert_eq!(set.insert(region(0x4000_4000, 0x5000_0000, 0x2000, rw())), Ok(()));
    assert_eq!(set.insert(region(0x3fff_f000, 0x6000_0000, 0x1000, rw())), Ok(()));
    assert_eq!(set.len(), 3);
}

#[test]
fn overlaps_reports_what_insert_would_refuse() {
    let mut set = MemorySet::new();
    set.insert(region(0x2000, 0x2000, 0x2000, rw())).unwrap();
    assert!(set.overlaps(&region(0x3000, 0, 0x1000, rw())));
    assert!(set.overlaps(&region(0x1000, 0, 0x2000, rw())));
    assert!(!set.overlaps(&region(0x4000, 0, 0x1000, rw())));
    assert!(!set.overlaps(&region(0x1000, 0, 0x1000, rw())));
}

#[test]
fn invalid_region_is_refused_before_anything_else() {
    let mut set = MemorySet::new();
    set.insert(region(0x2000, 0x2000, 0x2000, rw())).unwrap();
    assert_eq!(set.insert(region(0x2000, 0x2000, 0, rw())), Err(HvError::InvalidRegion));
    assert_eq!(set.insert(region(0x2800, 0x2000, 0x1000, rw())), Err(HvError::InvalidRegion));
    assert_eq!(set.insert(region(0x8000, 0x2001, 0x1000, rw())), Err(HvError::InvalidRegion));
    assert_eq!(set.insert(region(0x8000, 0x2000, 0x1001, rw())), Err(HvError::InvalidRegion));
    assert_eq!(
        set.insert(region(0xffff_ffff_ffff_f000, 0, 0x2000, rw())),
        Err(HvError::InvalidRegion)
    );
    assert_eq!(set.len(), 1);
    assert_eq!(set.page_table().len(), 2);
}

#[test]
fn exhausted_table_refuses_and_changes_nothing() {
    let mut set = MemorySet::with_table_capacity(4);
    assert_eq!(set.insert(region(0x1000, 0x1000, 0x3000, rw())), Ok(()));
    assert_eq!(set.insert(region(0x8000, 0x8000, 0x2000, rw())), Err(HvError::PageTableExhausted));
    assert_eq!(set.len(), 1);
    assert_eq!(set.page_table().len(), 3);
    // An overlap is reported even where the table is full as well.
    assert_eq!(set.insert(region(0x1000, 0x1000, 0x5000, rw())), Err(HvError::Overlap));
    assert_eq!(set.insert(region(0x8000, 0x8000, 0x1000, rw())), Ok(()));
    assert_eq!(set.page_table().len(), 4);
    assert_eq!(set.insert(region(0xa000, 0xa000, 0x1000, rw())), Err(HvError::PageTableExhausted));
}

#[test]
fn translate_follows_the_offset_of_the_region() {
    let mut set = MemorySet::new();
    let io = rw().union(MemFlags::io());
    set.insert(region(0x4000_0000, 0x8000_0000, 0x40_0000, rw())).unwrap();
    set.insert(region(0x1f_f000, 0x9f_f000, 0x20_3000, io)).unwrap();
    assert_eq!(set.translate(0x4000_0000), Some((0x8000_0000, rw())));
    assert_eq!(set.translate(0x4012_3456), Some((0x8012_3456, rw())));
    assert_eq!(set.translate(0x403f_ffff), Some((0x803f_ffff, rw())));
    assert_eq!(set.translate(0x4040_0000), None);
    assert_eq!(set.translate(0x3fff_ffff), None);
    assert_eq!(set.translate(0x1f_f000), Some((0x9f_f000, io)));
    assert_eq!(set.translate(0x20_0000), Some((0xa0_0000, io)));
    assert_eq!(set.translate(0x3f_ffff), Some((0xbf_ffff, io)));
    assert_eq!(set.translate(0x40_1fff), Some((0xc0_1fff, io)));
    assert_eq!(set.translate(0x40_2000), None);
    assert_eq!(set.translate(0), None);
    assert_eq!(set.translate(u64::MAX), None);
}

#[test]
fn translate_at_the_top_of_the_address_space() {
    let mut set = MemorySet::new();
    set.insert(region(0xffff_ffff_ffe0_0000, 0xffff_ffff_ffc0_0000, 0x20_0000, rw())).unwrap();
    assert_eq!(set.page_table().len(), 1);
    assert_eq!(set.translate(u64::MAX), Some((0xffff_ffff_ffdf_ffff, rw())));
}

#[test]
fn insert_all_stops_at_the_first_refusal() {
    let mut set = MemorySet::new();
    let plan = vec![
        region(0x3000, 0x3000, 0x1000, rw()),
        region(0x1000, 0x1000, 0x1000, rw()),
        region(0x1000, 0x1000, 0x3000, rw()),
        region(0x9000, 0x9000, 0x1000, rw()),
    ];
    assert_eq!(set.insert_all(&plan), Err(HvError::Overlap));
    assert_eq!(set.len(), 2);
    assert_eq!(set.region(0).unwrap().start, 0x1000);
    assert_eq!(set.region(1).unwrap().start, 0x3000);
    assert_eq!(set.insert_all(&vec![]), Ok(()));
    assert_eq!(set.insert_all(&vec![region(0x9000, 0x9000, 0x1000, rw())]), Ok(()));
    assert_eq!(set.len(), 3);
}

#[test]
fn page_sizes() {
    assert_eq!(PAGE_SIZE, 4096);
    assert_eq!(HUGE_PAGE_SIZE, 512 * 4096);
}
