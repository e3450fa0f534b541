//! The state of a cached page frame: a set of independent flags.

use vstd::prelude::*;

verus! {

/// A set of the flags below.
pub type PFState = u8;

/// No flag is set.
pub const NORMAL: PFState = 0;

/// The frame has been modified since it was last written back.
pub const DIRTY: PFState = 1;

/// An operation on the frame is under way.
pub const BUSY: PFState = 2;

/// The frame has not been filled yet.
pub const INITING: PFState = 4;

/// Whether `flags` holds `DIRTY`.
pub open spec fn has_dirty(flags: PFState) -> bool {
    flags & DIRTY != NORMAL
}

/// Whether `flags` holds `BUSY`.
pub open spec fn has_busy(flags: PFState) -> bool {
    flags & BUSY != NORMAL
}

/// Whether `flags` holds `INITING`.
pub open spec fn has_initing(flags: PFState) -> bool {
    flags & INITING != NORMAL
}

/// The flags of a frame once the filling that began with `flags` has ended:
/// `BUSY` is cleared, and `INITING` too where the filling succeeded.
pub open spec fn filled(flags: PFState, ok: bool) -> PFState {
    if ok {
        ((flags | BUSY) & !BUSY) & !INITING
    } else {
        (flags | BUSY) & !BUSY
    }
}

/// The flags of a frame once the dirtying that began with `flags` has ended:
/// `BUSY` is cleared, and `DIRTY` is set where the backing object agreed.
pub open spec fn dirtied(flags: PFState, ok: bool) -> PFState {
    if ok {
        ((flags | BUSY) | DIRTY) & !BUSY
    } else {
        (flags | BUSY) & !BUSY
    }
}

/// The flags of a frame once the cleaning that began with `flags` has ended:
/// `BUSY` is cleared, and `DIRTY` is cleared where the frame was written back.
pub open spec fn cleaned(flags: PFState, ok: bool) -> PFState {
    if ok {
        ((flags & !DIRTY) | BUSY) & !BUSY
    } else {
        (((flags & !DIRTY) | BUSY) | DIRTY) & !BUSY
    }
}

/// What setting and clearing one flag does to each of the three.
pub proof fn lemma_flags(flags: PFState)
    ensures
        has_busy(flags | BUSY),
        has_dirty(flags | BUSY) == has_dirty(flags),
        has_initing(flags | BUSY) == has_initing(flags),
        !has_busy(flags & !BUSY),
        has_dirty(flags & !BUSY) == has_dirty(flags),
        has_initing(flags & !BUSY) == has_initing(flags),
        has_dirty(flags | DIRTY),
        has_busy(flags | DIRTY) == has_busy(flags),
        has_initing(flags | DIRTY) == has_initing(flags),
        !has_dirty(flags & !DIRTY),
        has_busy(flags & !DIRTY) == has_busy(flags),
        has_initing(flags & !DIRTY) == has_initing(flags),
        !has_initing(flags & !INITING),
        has_busy(flags & !INITING) == has_busy(flags),
        has_dirty(flags & !INITING) == has_dirty(flags),
        !has_busy(flags) ==> (flags | BUSY) & !BUSY == flags,
        !has_dirty(NORMAL) && !has_busy(NORMAL) && !has_initing(NORMAL),
        has_initing(INITING) && !has_busy(INITING) && !has_dirty(INITING),
        INITING & !INITING == NORMAL,
{
    assert((flags | BUSY) & BUSY != 0 && ((flags | BUSY) & DIRTY != 0)
        == (flags & DIRTY != 0) && ((flags | BUSY) & INITING != 0) == (flags & INITING != 0) && (
    flags & !BUSY) & BUSY == 0 && (((flags & !BUSY) & DIRTY != 0) == (flags & DIRTY != 0)) && (((
    flags & !BUSY) & INITING != 0) == (flags & INITING != 0)) && (flags | DIRTY) & DIRTY != 0 && (((
    flags | DIRTY) & BUSY != 0) == (flags & BUSY != 0)) && (((flags | DIRTY) & INITING != 0) == (
    flags & INITING != 0)) && (flags & !DIRTY) & DIRTY == 0 && (((flags & !DIRTY) & BUSY != 0) == (
    flags & BUSY != 0)) && (((flags & !DIRTY) & INITING != 0) == (flags & INITING != 0)) && (flags
        & !INITING) & INITING == 0 && (((flags & !INITING) & BUSY != 0) == (flags & BUSY != 0)) && (
    ((flags & !INITING) & DIRTY != 0) == (flags & DIRTY != 0)) && (flags & BUSY == 0 ==> (flags
        | BUSY) & !BUSY == flags) && NORMAL & DIRTY == 0 && NORMAL & BUSY == 0 && NORMAL & INITING
        == 0 && INITING & INITING != 0 && INITING & BUSY == 0 && INITING & DIRTY == 0 && INITING
        & !INITING == NORMAL) by (bit_vector);
}

} // verus!
