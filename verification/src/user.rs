//! The window of virtual addresses that belongs to user space.

use vstd::prelude::*;

verus! {

/// Lowest virtual address of the user window.
pub const MEM_LOW: usize = 0x00400000;

/// Upper bound of the user window; kernel space starts here.
pub const MEM_HIGH: usize = 0xc0000000;

} // verus!
