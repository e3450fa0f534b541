//! The decisions of the start-up code.
//!
//! Starting the kernel is work on the machine: the screen, the scheduler,
//! the first processes. What is decided along the way is decided here.

use crate::errno::Errno;
use vstd::prelude::*;

verus! {

/// Number of columns of the text screen.
pub const SCREEN_COLUMNS: usize = 80;

/// Number of rows of the text screen.
pub const SCREEN_ROWS: usize = 25;

/// The cell of the text screen that shows nothing on the colour `background`.
pub open spec fn blank_cell(background: u16) -> u16 {
    ((background % 16) * 4096) as u16
}

/// Fills the cells of the text screen with blanks on the colour `background`.
pub fn clear_screen(screen: &mut Vec<u16>, background: u16)
    ensures
        final(screen)@ == Seq::new(old(screen)@.len(), |i: int| blank_cell(background)),
{
    assert(background << 12 == ((background % 16) * 4096) as u16) by (bit_vector);
    let mut i: usize = 0;
    while i < screen.len()
        invariant
            i <= screen.len(),
            screen.len() == old(screen).len(),
            background << 12 == blank_cell(background),
            forall|k: int| 0 <= k < i ==> screen[k] == blank_cell(background),
        decreases screen.len() - i,
    {
        screen[i] = background << 12;
        i += 1;
    }
    assert(screen@ =~= Seq::new(old(screen)@.len(), |i: int| blank_cell(background)));
}

/// The identity of a process.
pub type ProcId = i32;

/// The status with which a process ended.
pub type ProcStatus = i32;

/// Whether the first process is done waiting for its children, after a wait
/// for any of them has ended as `waited` says: it is once no child is left.
pub fn reaped_all(waited: &Result<(ProcId, ProcStatus), Errno>) -> (done: bool)
    ensures
        done == (*waited == Err::<(ProcId, ProcStatus), Errno>(Errno::ECHILD)),
{
    match waited {
        Ok(_) => false,
        Err(errno) => *errno == Errno::ECHILD,
    }
}

} // verus!
