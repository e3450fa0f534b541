use reenix::sync::WQueue;
use reenix::tlb::{Flush, Tlb};
use reenix::utils::memmove;

#[test]
fn memmove_between_separate_regions() {
    let mut mem = vec![1u8, 2, 3, 4, 5, 6, 7, 8];
    assert_eq!(memmove(&mut mem, 5, 0, 3), 5);
    assert_eq!(mem, vec![1, 2, 3, 4, 5, 1, 2, 3]);
}

#[test]
fn memmove_to_a_higher_overlapping_region() {
    let mut mem = vec![1u8, 2, 3, 4, 5, 6, 7, 8];
    assert_eq!(memmove(&mut mem, 2, 0, 5), 2);
    assert_eq!(mem, vec![1, 2, 1, 2, 3, 4, 5, 8]);
}

#[test]
fn memmove_to_a_lower_overlapping_region() {
    let mut mem = vec![1u8, 2, 3, 4, 5, 6, 7, 8];
    assert_eq!(memmove(&mut mem, 0, 2, 5), 0);
    assert_eq!(mem, vec![3, 4, 5, 6, 7, 6, 7, 8]);
}

#[test]
fn memmove_of_nothing_and_onto_itself() {
    let mut mem = vec![1u8, 2, 3];
    assert_eq!(memmove(&mut mem, 1, 2, 0), 1);
    assert_eq!(mem, vec![1, 2, 3]);
    assert_eq!(memmove(&mut mem, 0, 0, 3), 0);
    assert_eq!(mem, vec![1, 2, 3]);
    assert_eq!(memmove(&mut mem, 3, 3, 0), 3);
    assert_eq!(mem, vec![1, 2, 3]);
}

#[test]
fn tlb_keeps_the_requests_in_order() {
    let mut tlb = Tlb::new();
    reenix::tlb::flush(&mut tlb, 0x5000);
    reenix::tlb::flush_range(&mut tlb, 0x8000, 3);
    reenix::tlb::flush_all(&mut tlb);
    reenix::tlb::flush_range(&mut tlb, 0x1000, 0);
    assert_eq!(
        tlb.take_pending(),
        vec![
            Flush::Page(0x5000),
            Flush::Page(0x8000),
            Flush::Page(0x9000),
            Flush::Page(0xa000),
            Flush::All,
        ]
    );
    assert_eq!(tlb.take_pending(), vec![]);
}

#[test]
fn tlb_flush_range_up_to_the_last_page() {
    let mut tlb = Tlb::new();
    reenix::tlb::flush_range(&mut tlb, usize::MAX - 0x1fff, 2);
    assert_eq!(
        tlb.take_pending(),
        vec![Flush::Page(usize::MAX - 0x1fff), Flush::Page(usize::MAX - 0xfff)]
    );
}

#[test]
fn tlb_start_up() {
    let mut tlb = reenix::tlb::init_stage1();
    reenix::tlb::init_stage2(&mut tlb);
    assert_eq!(tlb.take_pending(), vec![]);
}

#[test]
fn wait_queue_counts_and_wakes() {
    let mut queue = WQueue::new();
    assert_eq!(queue.len(), 0);
    assert_eq!(queue.signal(), 0);
    queue.enqueue();
    queue.enqueue();
    assert_eq!(queue.len(), 2);
    assert_eq!(queue.signal(), 2);
    assert_eq!(queue.len(), 0);
}
