use reenix::pagetable::PageDir;
use reenix::pframe::PFrameId;

#[test]
fn first_stage_creates_the_state() {
    let mut mm = reenix::init_stage1();
    assert_eq!(mm.pages.free_count(), 0);
    assert_eq!(mm.tlb.take_pending(), vec![]);
    assert!(mm.template.is_some());
    assert_eq!(mm.template.as_ref().unwrap().translate(0x0040_0000), None);
}

#[test]
fn second_stage_leaves_the_state() {
    let mut mm = reenix::init_stage1();
    mm.pages.add_range(0x0010_0000, 0x0010_2000);
    reenix::tlb::flush(&mut mm.tlb, 0x5000);
    reenix::init_stage2(&mut mm);
    assert_eq!(mm.pages.free_count(), 2);
    assert_eq!(mm.tlb.take_pending(), vec![reenix::tlb::Flush::Page(0x5000)]);
    let mut pd = PageDir::new(&mm.template);
    assert_eq!(pd.map(&mut mm.pages, 0x0040_0000, 0x0020_0000, 7, 7), Ok(()));
    assert_eq!(pd.virt_to_phys(0x0040_0123), 0x0020_0123);
    assert_eq!(mm.pages.free_count(), 1);
}

#[test]
fn stages_of_the_parts() {
    let mut pages = reenix::page::init_stage1();
    reenix::page::init_stage2(&mut pages);
    assert_eq!(pages.free_count(), 0);
    let mut template = reenix::pagetable::init_stage1();
    reenix::pagetable::init_stage2(&mut template);
    assert_eq!(template.get_pagetable(768), None);
    let mut cache = reenix::pframe::init_stage2(3);
    assert_eq!(cache.capacity(), 3);
    assert_eq!(cache.len(), 0);
    assert!(!cache.contains(&PFrameId::new(1, 1)));
    assert!(cache.get(&PFrameId::new(1, 1)).is_none());
}
