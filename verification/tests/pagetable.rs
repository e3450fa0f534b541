use reenix::errno::Errno;
use reenix::page::PageAllocator;
use reenix::pagetable::{
    vaddr_to_offset, vaddr_to_pdindex, vaddr_to_ptindex, PageDir, ENTRY_COUNT, PRESENT, USER,
    VADDR_SIZE, WRITE,
};
use reenix::user::{MEM_HIGH, MEM_LOW};

const FLAGS: usize = PRESENT | WRITE | USER;

fn pool() -> PageAllocator {
    let mut pages = PageAllocator::new();
    pages.add_range(0x0010_0000, 0x0011_0000);
    pages
}

fn directory() -> PageDir {
    let template = Some(PageDir::empty());
    PageDir::new(&template)
}

#[test]
fn address_parts_of_a_virtual_address() {
    assert_eq!(vaddr_to_pdindex(0x00c0_7abc), 3);
    assert_eq!(vaddr_to_ptindex(0x00c0_7abc), 7);
    assert_eq!(vaddr_to_offset(0x00c0_7abc), 0xabc);
    assert_eq!(vaddr_to_pdindex(MEM_LOW), 1);
    assert_eq!(vaddr_to_pdindex(MEM_HIGH), 768);
    assert_eq!(vaddr_to_ptindex(MEM_HIGH), 0);
    assert_eq!(vaddr_to_pdindex(0xffff_ffff), 1023);
    assert_eq!(vaddr_to_ptindex(0xffff_ffff), 1023);
    assert_eq!(vaddr_to_offset(0xffff_ffff), 0xfff);
    assert_eq!(ENTRY_COUNT, 1024);
    assert_eq!(VADDR_SIZE, 4096 * 1024);
}

#[test]
fn map_then_translate_returns_the_frame_and_offset() {
    let mut pages = pool();
    let mut pd = directory();
    assert_eq!(pd.map(&mut pages, 0x0040_0000, 0x0020_0000, FLAGS, FLAGS), Ok(()));
    assert_eq!(pd.virt_to_phys(0x0040_0000), 0x0020_0000);
    assert_eq!(pd.virt_to_phys(0x0040_0005), 0x0020_0005);
    assert_eq!(pd.virt_to_phys(0x0040_0fff), 0x0020_0fff);
    assert_eq!(pd.translate(0x0040_0abc), Some(0x0020_0abc));
    assert_eq!(pd.leaf_entry(0x0040_0000), Some(0x0020_0007));
    assert_eq!(pd.get_pagetable(1), Some(0x0010_f000));
    assert_eq!(pages.free_count(), 15);
}

#[test]
fn map_leaves_the_other_pages_of_the_table_unmapped() {
    let mut pages = pool();
    let mut pd = directory();
    assert_eq!(pd.map(&mut pages, 0x0040_5000, 0x0020_0000, FLAGS, FLAGS), Ok(()));
    assert_eq!(pd.translate(0x0040_4000), None);
    assert_eq!(pd.translate(0x0040_6000), None);
    assert_eq!(pd.leaf_entry(0x0040_4000), Some(0));
    assert_eq!(pd.translate(0x0080_5000), None);
    assert_eq!(pd.leaf_entry(0x0080_5000), None);
}

#[test]
fn map_takes_one_page_for_each_new_table_only() {
    let mut pages = pool();
    let mut pd = directory();
    assert_eq!(pd.map(&mut pages, 0x0040_0000, 0x0020_0000, FLAGS, FLAGS), Ok(()));
    assert_eq!(pd.map(&mut pages, 0x0040_1000, 0x0020_1000, FLAGS, FLAGS), Ok(()));
    assert_eq!(pages.free_count(), 15);
    assert_eq!(pd.map(&mut pages, 0x0080_0000, 0x0020_2000, FLAGS, FLAGS), Ok(()));
    assert_eq!(pages.free_count(), 14);
    assert_eq!(pd.get_pagetable(1), Some(0x0010_f000));
    assert_eq!(pd.get_pagetable(2), Some(0x0010_e000));
}

#[test]
fn map_again_overwrites_the_leaf_entry() {
    let mut pages = pool();
    let mut pd = directory();
    assert_eq!(pd.map(&mut pages, 0x0040_0000, 0x0020_0000, FLAGS, FLAGS), Ok(()));
    assert_eq!(pd.map(&mut pages, 0x0040_0000, 0x0030_0000, FLAGS, PRESENT | WRITE), Ok(()));
    assert_eq!(pd.leaf_entry(0x0040_0000), Some(0x0030_0003));
    assert_eq!(pd.virt_to_phys(0x0040_0010), 0x0030_0010);
    assert_eq!(pages.free_count(), 15);
}

#[test]
fn map_without_a_free_page_reports_out_of_memory() {
    let mut pages = PageAllocator::new();
    let mut pd = directory();
    assert_eq!(pd.map(&mut pages, 0x0040_0000, 0x0020_0000, FLAGS, FLAGS), Err(Errno::ENOMEM));
    assert_eq!(pd.get_pagetable(1), None);
    assert_eq!(pd.translate(0x0040_0000), None);
    assert_eq!(pages.free_count(), 0);
}

#[test]
fn map_into_a_present_table_needs_no_free_page() {
    let mut pages = PageAllocator::new();
    pages.add_range(0x0010_0000, 0x0010_1000);
    let mut pd = directory();
    assert_eq!(pd.map(&mut pages, 0x0040_0000, 0x0020_0000, FLAGS, FLAGS), Ok(()));
    assert_eq!(pages.free_count(), 0);
    assert_eq!(pd.map(&mut pages, 0x0040_1000, 0x0020_1000, FLAGS, FLAGS), Ok(()));
    assert_eq!(pd.map(&mut pages, 0x0080_0000, 0x0020_1000, FLAGS, FLAGS), Err(Errno::ENOMEM));
    assert_eq!(pd.virt_to_phys(0x0040_1234), 0x0020_1234);
}

#[test]
fn map_accepts_both_ends_of_the_allowed_range() {
    let mut pages = pool();
    let mut pd = directory();
    assert_eq!(pd.map(&mut pages, MEM_LOW, 0x0020_0000, FLAGS, FLAGS), Ok(()));
    assert_eq!(pd.map(&mut pages, MEM_HIGH, 0x0030_0000, FLAGS, FLAGS), Ok(()));
    assert_eq!(pd.virt_to_phys(MEM_LOW), 0x0020_0000);
    assert_eq!(pd.virt_to_phys(MEM_HIGH + 1), 0x0030_0001);
    assert_eq!(pd.get_pagetable(768), Some(0x0010_e000));
}

#[test]
fn map_without_the_present_flag_leaves_the_slot_absent() {
    let mut pages = pool();
    let mut pd = directory();
    assert_eq!(pd.map(&mut pages, 0x0040_0000, 0x0020_0000, WRITE | USER, FLAGS), Ok(()));
    assert_eq!(pd.get_pagetable(1), None);
    assert_eq!(pd.translate(0x0040_0000), None);
    assert_eq!(pages.free_count(), 15);
}

#[test]
fn unmap_clears_one_page_and_keeps_the_table() {
    let mut pages = pool();
    let mut pd = directory();
    assert_eq!(pd.map(&mut pages, 0x0040_0000, 0x0020_0000, FLAGS, FLAGS), Ok(()));
    assert_eq!(pd.map(&mut pages, 0x0040_1000, 0x0020_1000, FLAGS, FLAGS), Ok(()));
    pd.unmap(0x0040_0000);
    assert_eq!(pd.translate(0x0040_0000), None);
    assert_eq!(pd.leaf_entry(0x0040_0000), Some(0));
    assert_eq!(pd.virt_to_phys(0x0040_1000), 0x0020_1000);
    assert_eq!(pd.get_pagetable(1), Some(0x0010_f000));
    assert_eq!(pages.free_count(), 15);
}

#[test]
fn unmap_then_map_succeeds_without_a_free_page() {
    let mut pages = PageAllocator::new();
    pages.add_range(0x0010_0000, 0x0010_1000);
    let mut pd = directory();
    assert_eq!(pd.map(&mut pages, 0x0040_0000, 0x0020_0000, FLAGS, FLAGS), Ok(()));
    pd.unmap(0x0040_0000);
    assert_eq!(pages.free_count(), 0);
    assert_eq!(pd.map(&mut pages, 0x0040_0000, 0x0030_0000, FLAGS, FLAGS), Ok(()));
    assert_eq!(pd.leaf_entry(0x0040_0000), Some(0x0030_0007));
    assert_eq!(pd.virt_to_phys(0x0040_0000), 0x0030_0000);
}

#[test]
fn unmap_without_a_table_changes_nothing() {
    let mut pages = pool();
    let mut pd = directory();
    pd.unmap(0x0040_0000);
    assert_eq!(pd.get_pagetable(1), None);
    assert_eq!(pd.translate(0x0040_0000), None);
    assert_eq!(pages.free_count(), 16);
    assert_eq!(pd.map(&mut pages, 0x0040_0000, 0x0020_0000, FLAGS, FLAGS), Ok(()));
    assert_eq!(pd.virt_to_phys(0x0040_0000), 0x0020_0000);
}

#[test]
fn unmap_range_over_three_tables() {
    let mut pages = pool();
    let mut pd = directory();
    for vaddr in [0x0040_0000, 0x0040_5000, 0x007f_f000, 0x0080_0000, 0x00c0_0000, 0x00c0_7000, 0x00c0_8000] {
        assert_eq!(pd.map(&mut pages, vaddr, 0x0020_0000 + vaddr, FLAGS, FLAGS), Ok(()));
    }
    assert_eq!(pages.free_count(), 13);
    assert_eq!(pd.get_pagetable(2), Some(0x0010_e000));

    pd.unmap_range(&mut pages, 0x0040_5000, 0x00c0_8000);

    // Below the range, in the first table: untouched.
    assert_eq!(pd.leaf_entry(0x0040_0000), Some(0x0060_0007));
    assert_eq!(pd.virt_to_phys(0x0040_0000), 0x0060_0000);
    // From the start of the range to the end of the first table: cleared.
    assert_eq!(pd.leaf_entry(0x0040_5000), Some(0));
    assert_eq!(pd.leaf_entry(0x007f_f000), Some(0));
    assert_eq!(pd.get_pagetable(1), Some(0x0010_f000));
    // The table in the middle: released.
    assert_eq!(pd.get_pagetable(2), None);
    assert_eq!(pd.leaf_entry(0x0080_0000), None);
    assert_eq!(pages.free_count(), 14);
    // The last table: cleared before the end of the range, untouched from it on.
    assert_eq!(pd.leaf_entry(0x00c0_0000), Some(0));
    assert_eq!(pd.leaf_entry(0x00c0_7000), Some(0));
    assert_eq!(pd.leaf_entry(0x00c0_8000), Some(0x00e0_8007));
    assert_eq!(pd.get_pagetable(3), Some(0x0010_d000));
    // The page of the released table is the next to be handed out.
    assert_eq!(pages.alloc_page(), Some(0x0010_e000));
}

#[test]
fn unmap_range_within_one_table_keeps_its_neighbours() {
    let mut pages = pool();
    let mut pd = directory();
    for vaddr in [0x0040_1000, 0x0040_2000, 0x0040_3000] {
        assert_eq!(pd.map(&mut pages, vaddr, 0x0020_0000 + vaddr, FLAGS, FLAGS), Ok(()));
    }
    pd.unmap_range(&mut pages, 0x0040_2000, 0x0040_3000);
    assert_eq!(pd.virt_to_phys(0x0040_1000), 0x0060_1000);
    assert_eq!(pd.translate(0x0040_2000), None);
    assert_eq!(pd.virt_to_phys(0x0040_3000), 0x0060_3000);
    assert_eq!(pd.get_pagetable(1), Some(0x0010_f000));
    assert_eq!(pages.free_count(), 15);
}

#[test]
fn unmap_range_of_exactly_one_table_releases_it() {
    let mut pages = pool();
    let mut pd = directory();
    for vaddr in [0x007f_f000, 0x0080_0000, 0x00bf_f000, 0x00c0_0000] {
        assert_eq!(pd.map(&mut pages, vaddr, 0x0020_0000 + vaddr, FLAGS, FLAGS), Ok(()));
    }
    assert_eq!(pages.free_count(), 13);
    pd.unmap_range(&mut pages, 0x0080_0000, 0x00c0_0000);
    assert_eq!(pd.get_pagetable(2), None);
    assert_eq!(pd.virt_to_phys(0x007f_f000), 0x009f_f000);
    assert_eq!(pd.virt_to_phys(0x00c0_0000), 0x00e0_0000);
    assert_eq!(pages.free_count(), 14);
}

#[test]
fn unmap_range_with_absent_tables_at_its_ends() {
    let mut pages = pool();
    let mut pd = directory();
    assert_eq!(pd.map(&mut pages, 0x0080_0000, 0x0020_0000, FLAGS, FLAGS), Ok(()));
    pd.unmap_range(&mut pages, 0x0040_5000, 0x00c0_3000);
    assert_eq!(pd.get_pagetable(1), None);
    assert_eq!(pd.get_pagetable(2), None);
    assert_eq!(pd.get_pagetable(3), None);
    assert_eq!(pages.free_count(), 16);
}

#[test]
fn unmap_range_of_the_whole_user_window() {
    let mut pages = pool();
    let mut pd = directory();
    for vaddr in [MEM_LOW, 0x1000_0000, 0xbfff_f000, MEM_HIGH] {
        assert_eq!(pd.map(&mut pages, vaddr, 0x0020_0000, FLAGS, FLAGS), Ok(()));
    }
    assert_eq!(pages.free_count(), 12);
    pd.unmap_range(&mut pages, MEM_LOW, MEM_HIGH);
    assert_eq!(pd.get_pagetable(1), None);
    assert_eq!(pd.get_pagetable(64), None);
    assert_eq!(pd.get_pagetable(767), None);
    assert_eq!(pd.virt_to_phys(MEM_HIGH), 0x0020_0000);
    assert_eq!(pages.free_count(), 15);
}

#[test]
fn delete_page_empties_the_slot_and_frees_nothing() {
    let mut pages = pool();
    let mut pd = directory();
    assert_eq!(pd.map(&mut pages, 0x0040_0000, 0x0020_0000, FLAGS, FLAGS), Ok(()));
    pd.delete_page(1);
    assert_eq!(pd.get_pagetable(1), None);
    assert_eq!(pd.translate(0x0040_0000), None);
    assert_eq!(pages.free_count(), 15);
}

#[test]
fn destroy_releases_the_tables_of_the_user_window_only() {
    let mut pages = pool();
    let mut pd = directory();
    for vaddr in [MEM_LOW, 0x0140_0000, 0xbfc0_0000, MEM_HIGH] {
        assert_eq!(pd.map(&mut pages, vaddr, 0x0020_0000, FLAGS, FLAGS), Ok(()));
    }
    assert_eq!(pd.get_pagetable(1), Some(0x0010_f000));
    assert_eq!(pd.get_pagetable(5), Some(0x0010_e000));
    assert_eq!(pd.get_pagetable(767), Some(0x0010_d000));
    assert_eq!(pd.get_pagetable(768), Some(0x0010_c000));
    assert_eq!(pages.free_count(), 12);
    pd.destroy(&mut pages);
    assert_eq!(pages.free_count(), 15);
    assert_eq!(pages.alloc_page(), Some(0x0010_d000));
    assert_eq!(pages.alloc_page(), Some(0x0010_e000));
    assert_eq!(pages.alloc_page(), Some(0x0010_f000));
    assert_eq!(pages.alloc_page(), Some(0x0010_b000));
}

#[test]
fn destroy_of_an_empty_directory_releases_nothing() {
    let mut pages = pool();
    directory().destroy(&mut pages);
    assert_eq!(pages.free_count(), 16);
}

#[test]
fn new_copies_the_template() {
    let mut pages = pool();
    let mut template = PageDir::empty();
    assert_eq!(template.map(&mut pages, MEM_HIGH, 0x0030_0000, FLAGS, FLAGS), Ok(()));
    let template = Some(template);
    let mut pd = PageDir::new(&template);
    assert_eq!(pd.virt_to_phys(MEM_HIGH + 4), 0x0030_0004);
    assert_eq!(pd.get_pagetable(768), Some(0x0010_f000));
    assert_eq!(pd.get_pagetable(1), None);
    assert_eq!(pd.map(&mut pages, MEM_LOW, 0x0020_0000, FLAGS, FLAGS), Ok(()));
    assert_eq!(template.as_ref().unwrap().get_pagetable(1), None);
}

#[test]
fn empty_directory_maps_nothing() {
    let pd = PageDir::empty();
    for slot in [0, 1, 767, 768, 1023] {
        assert_eq!(pd.get_pagetable(slot), None);
    }
    assert_eq!(pd.translate(0), None);
    assert_eq!(pd.translate(MEM_LOW), None);
    assert_eq!(pd.translate(0xffff_f000), None);
}

#[test]
fn unmap_frame_clears_every_mapping_of_the_frame() {
    let mut pages = pool();
    let mut pd = directory();
    assert_eq!(pd.map(&mut pages, 0x0040_0000, 0x0020_0000, FLAGS, FLAGS), Ok(()));
    assert_eq!(pd.map(&mut pages, 0x0080_3000, 0x0020_0000, FLAGS, PRESENT), Ok(()));
    assert_eq!(pd.map(&mut pages, 0x0040_1000, 0x0030_0000, FLAGS, FLAGS), Ok(()));
    assert_eq!(pd.map(&mut pages, MEM_HIGH, 0x0020_0000, FLAGS, FLAGS), Ok(()));
    pd.unmap_frame(0x0020_0000);
    assert_eq!(pd.translate(0x0040_0000), None);
    assert_eq!(pd.translate(0x0080_3000), None);
    assert_eq!(pd.translate(MEM_HIGH), None);
    assert_eq!(pd.virt_to_phys(0x0040_1000), 0x0030_0000);
    assert_eq!(pd.get_pagetable(1), Some(0x0010_f000));
    assert_eq!(pd.get_pagetable(2), Some(0x0010_e000));
    assert_eq!(pages.free_count(), 13);
}
