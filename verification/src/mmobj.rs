//! Backing objects: what supplies the contents of cached pages and takes
//! them back.

use crate::errno::KResult;
use crate::pframe::PFrame;
use crate::pfstate;
use vstd::prelude::*;

verus! {

/// The identity of a backing object.
///
/// A cached frame keeps the identity of the object that it belongs to, and
/// never the object: a frame in the cache does not keep its object alive.
pub type MMObjId = usize;

/// A provider of page contents: a file, anonymous memory, a device.
///
/// Every operation may block, and is called only while the frame is `BUSY`.
pub trait MMObj {
    /// Fills the page of a frame that is being created.
    fn fill_page(&self, pf: &PFrame) -> KResult<()>
        requires
            pfstate::has_busy(pf@.flags),
            pfstate::has_initing(pf@.flags),
    ;

    /// Takes note that the page of the frame is about to be modified.
    fn dirty_page(&self, pf: &PFrame) -> KResult<()>
        requires
            pfstate::has_busy(pf@.flags),
    ;

    /// Writes the page of the frame back.
    fn clean_page(&self, pf: &PFrame) -> KResult<()>
        requires
            pfstate::has_busy(pf@.flags),
            !pfstate::has_dirty(pf@.flags),
    ;

    /// Whether the frames of this object are still worth keeping.
    fn is_still_useful(&self) -> bool;
}

} // verus!
