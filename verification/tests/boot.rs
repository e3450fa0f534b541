use reenix::boot::{clear_screen, reaped_all, SCREEN_COLUMNS, SCREEN_ROWS};
use reenix::errno::Errno;

#[test]
fn clear_screen_blanks_every_cell() {
    let mut screen = vec![0x0741u16; SCREEN_COLUMNS * SCREEN_ROWS];
    clear_screen(&mut screen, 1);
    assert_eq!(screen.len(), 2000);
    assert!(screen.iter().all(|cell| *cell == 0x1000));
    clear_screen(&mut screen, 0);
    assert!(screen.iter().all(|cell| *cell == 0));
}

#[test]
fn clear_screen_keeps_the_colour_bits_only() {
    let mut screen = vec![0u16; 3];
    clear_screen(&mut screen, 0x1f);
    assert_eq!(screen, vec![0xf000, 0xf000, 0xf000]);
    clear_screen(&mut screen, 0x10);
    assert_eq!(screen, vec![0, 0, 0]);
    let mut nothing: Vec<u16> = Vec::new();
    clear_screen(&mut nothing, 7);
    assert_eq!(nothing, vec![]);
}

#[test]
fn waiting_ends_when_no_child_is_left() {
    assert!(reaped_all(&Err(Errno::ECHILD)));
    assert!(!reaped_all(&Err(Errno::EINTR)));
    assert!(!reaped_all(&Err(Errno::ENOMEM)));
    assert!(!reaped_all(&Ok((2, 0))));
}
