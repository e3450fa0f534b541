//! What holds of the operations on cached frames taken together.

use crate::errno::{Errno, KResult};
use crate::mmobj::MMObjId;
use crate::pframe::{created, fresh_frame, got, PFError, PFrame, PFrameCache, PFrameId};
use crate::pfstate::{
    cleaned, dirtied, filled, has_busy, has_dirty, has_initing, lemma_flags, PFState, BUSY, DIRTY,
    INITING, NORMAL,
};
use crate::pinnable_cache::PinnedValue;
use crate::tlb::Flush;
use vstd::prelude::*;

verus! {

/// A frame that is filled with success ends in the state `NORMAL`; one that
/// could not be filled is still `INITING`. Neither is busy or dirty.
pub proof fn lemma_filled()
    ensures
        filled(INITING, true) == NORMAL,
        filled(INITING, false) == INITING,
{
    lemma_flags(INITING);
    lemma_flags(INITING | BUSY);
    lemma_flags((INITING | BUSY) & !BUSY);
}

/// Dirtying a frame that is not busy leaves it not busy, makes it dirty
/// where the backing object agreed, and leaves its other flags alone.
pub proof fn lemma_dirtied(flags: PFState, ok: bool)
    requires
        !has_busy(flags),
    ensures
        !has_busy(dirtied(flags, ok)),
        has_dirty(dirtied(flags, ok)) == (ok || has_dirty(flags)),
        has_initing(dirtied(flags, ok)) == has_initing(flags),
        !ok ==> dirtied(flags, ok) == flags,
{
    lemma_flags(flags);
    lemma_flags(flags | BUSY);
    lemma_flags((flags | BUSY) | DIRTY);
}

/// Cleaning a frame leaves it not busy, leaves it dirty exactly where the
/// write-back failed, and leaves its other flags alone.
pub proof fn lemma_cleaned(flags: PFState, ok: bool)
    ensures
        !has_busy(cleaned(flags, ok)),
        has_dirty(cleaned(flags, ok)) == !ok,
        has_initing(cleaned(flags, ok)) == has_initing(flags),
{
    lemma_flags(flags);
    lemma_flags(flags & !DIRTY);
    lemma_flags((flags & !DIRTY) | BUSY);
    lemma_flags(((flags & !DIRTY) | BUSY) | DIRTY);
}

/// A frame that is not busy and has been dirtied with success can be
/// cleaned, and once it has been written back it is neither dirty nor busy.
pub proof fn lemma_dirty_then_clean(flags: PFState)
    requires
        !has_busy(flags),
    ensures
        has_dirty(dirtied(flags, true)),
        !has_dirty(cleaned(dirtied(flags, true), true)),
        !has_busy(cleaned(dirtied(flags, true), true)),
{
    lemma_dirtied(flags, true);
    lemma_cleaned(dirtied(flags, true), true);
}

/// A frame that has never been dirtied with success is not dirty: not when
/// it has just been created, and not after the backing object refused to have
/// it dirtied. Such a frame cannot be cleaned.
pub proof fn lemma_never_dirtied(obj: MMObjId, pagenum: usize, page: usize)
    ensures
        !has_dirty(fresh_frame(obj, pagenum, page).flags),
        !has_dirty(dirtied(fresh_frame(obj, pagenum, page).flags, false)),
{
    lemma_flags(NORMAL);
    lemma_dirtied(NORMAL, false);
}

/// Two calls in a row for the frame of one key, the first with success:
/// the second succeeds too, pins the frame of the first, and neither takes a
/// physical page nor asks for an invalidation.
pub proof fn lemma_get_twice(
    cache: PFrameCache,
    pages: Seq<usize>,
    tlb: Seq<Flush>,
    key: PFrameId,
    first: KResult<PinnedValue<PFrameId>>,
    cache1: PFrameCache,
    pages1: Seq<usize>,
    tlb1: Seq<Flush>,
    second: KResult<PinnedValue<PFrameId>>,
    cache2: PFrameCache,
    pages2: Seq<usize>,
    tlb2: Seq<Flush>,
)
    requires
        got(cache, pages, tlb, key, first, cache1, pages1, tlb1),
        first is Ok,
        got(cache1, pages1, tlb1, key, second, cache2, pages2, tlb2),
    ensures
        second is Ok,
        second->Ok_0.id() == first->Ok_0.id(),
        cache2@[key].value == cache1@[key].value,
        cache2@[key].pins == cache1@[key].pins + 1,
        cache2@.dom() == cache1@.dom(),
        pages2 == pages1,
        tlb2 == tlb1,
{
    assert(cache1@.contains_key(key));
    assert(cache2@.dom() =~= cache1@.dom());
}

/// Getting a frame that is not in the cache while no physical page is left
/// fails with `ENOMEM`, and the cache holds no frame for the key afterwards.
pub proof fn lemma_get_without_pages(
    cache: PFrameCache,
    pages: Seq<usize>,
    tlb: Seq<Flush>,
    key: PFrameId,
    r: KResult<PinnedValue<PFrameId>>,
    cache1: PFrameCache,
    pages1: Seq<usize>,
    tlb1: Seq<Flush>,
)
    requires
        got(cache, pages, tlb, key, r, cache1, pages1, tlb1),
        !cache@.contains_key(key),
        pages.len() == 0,
    ensures
        r == Err::<PinnedValue<PFrameId>, Errno>(Errno::ENOMEM),
        !cache1@.contains_key(key),
        cache1@ == cache@,
        pages1 == pages,
        tlb1 == tlb,
{
}

/// Creating a frame while no physical page is left fails with `Alloc`, and
/// neither the pool nor the pending invalidations change.
pub proof fn lemma_create_without_pages(
    tlb: Seq<Flush>,
    obj: MMObjId,
    pagenum: usize,
    r: Result<PFrame, PFError>,
    pages1: Seq<usize>,
    tlb1: Seq<Flush>,
)
    requires
        created(Seq::<usize>::empty(), tlb, obj, pagenum, r, pages1, tlb1),
    ensures
        r is Err,
        r->Err_0 is Alloc,
        pages1 == Seq::<usize>::empty(),
        tlb1 == tlb,
{
}

} // verus!
