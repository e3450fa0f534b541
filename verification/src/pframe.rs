//! Cached page frames.
//!
//! A frame is one physical page that holds one page of a backing object. The
//! frames live in a pinning cache under the identity of the object and the
//! number of the page. A frame is filled when it is created, marked dirty
//! before its page is modified, and cleaned by writing the page back; each of
//! these holds the frame `BUSY` while the backing object works.

use crate::errno::{Errno, KResult};
use crate::make::Make;
use crate::mmobj::{MMObj, MMObjId};
use crate::page;
use crate::page::{AllocError, PageAllocator};
use crate::pagetable::PageDir;
use crate::pfstate;
use crate::pfstate::PFState;
use crate::pinnable_cache::{CacheKey, InsertError, Pinned, PinnableCache, PinnedValue};
use crate::sync::WQueue;
use crate::tlb;
use crate::tlb::{Flush, Tlb};
use vstd::prelude::*;

verus! {

/// The number of a page within its backing object.
pub type PageNum = usize;

/// The key of a frame: the backing object and the page of it.
#[derive(Clone, Copy, Debug, PartialEq, Eq, Structural)]
pub struct PFrameId {
    pub mmobj: MMObjId,
    pub page: PageNum,
}

impl PFrameId {
    /// The key of page `page` of the object `mmo`.
    pub fn new(mmo: MMObjId, page: PageNum) -> (id: PFrameId)
        ensures
            id == (PFrameId { mmobj: mmo, page }),
    {
        PFrameId { mmobj: mmo, page }
    }
}

impl Make<(MMObjId, PageNum)> for PFrameId {
    fn make(v: (MMObjId, PageNum)) -> (id: PFrameId)
        ensures
            id == (PFrameId { mmobj: v.0, page: v.1 }),
    {
        PFrameId::new(v.0, v.1)
    }
}

impl CacheKey for PFrameId {
    fn same(&self, other: &PFrameId) -> (r: bool) {
        self.mmobj == other.mmobj && self.page == other.page
    }

    fn duplicate(&self) -> (r: PFrameId) {
        PFrameId { mmobj: self.mmobj, page: self.page }
    }
}

/// Why a frame could not be created.
#[derive(Clone, Copy, Debug, PartialEq, Eq, Structural)]
pub enum PFError {
    /// No physical page was left.
    Alloc(AllocError),
    /// The backing object could not fill the page.
    Sys(Errno),
}

/// A frame as a mathematical value.
pub struct PFrameView {
    /// The backing object that the frame belongs to.
    pub obj: MMObjId,
    /// The page of the backing object that the frame holds.
    pub pagenum: PageNum,
    /// The physical page of the frame.
    pub page: usize,
    /// The state of the frame.
    pub flags: PFState,
    /// Number of waiters that block until the frame stops being busy.
    pub waiters: nat,
}

/// The physical page of a frame.
#[derive(Debug)]
struct FramePage {
    addr: usize,
}

impl FramePage {
    /// The address of the page of a frame is the address of a page.
    #[verifier::type_invariant]
    spec fn inv(self) -> bool {
        page::is_page(self.addr)
    }
}

/// A cached page frame.
#[derive(Debug)]
pub struct PFrame {
    obj: MMObjId,
    pagenum: PageNum,
    page: FramePage,
    flags: PFState,
    queue: WQueue,
}

impl View for PFrame {
    type V = PFrameView;

    closed spec fn view(&self) -> PFrameView {
        PFrameView {
            obj: self.obj,
            pagenum: self.pagenum,
            page: self.page.addr,
            flags: self.flags,
            waiters: self.queue.waiters(),
        }
    }
}

/// The cache of frames.
pub type PFrameCache = PinnableCache<PFrameId, PFrame>;

impl PFrame {
    /// The frame of page `page_num` of the object `mmo`, pinned, if it is in
    /// the cache. Never creates a frame.
    pub fn get_resident(cache: &mut PFrameCache, mmo: MMObjId, page_num: PageNum) -> (r: Option<
        PinnedValue<PFrameId>,
    >)
        requires
            old(cache).wf(),
            old(cache)@.contains_key(PFrameId { mmobj: mmo, page: page_num }) ==> old(cache)@[PFrameId {
                mmobj: mmo,
                page: page_num,
            }].pins < usize::MAX,
        ensures
            final(cache).wf(),
            final(cache).limit() == old(cache).limit(),
            r is Some <==> old(cache)@.contains_key(PFrameId { mmobj: mmo, page: page_num }),
            r matches Some(pin) ==> pin.id() == (PFrameId { mmobj: mmo, page: page_num })
                && final(cache)@ == old(cache)@.insert(
                pin.id(),
                Pinned { value: old(cache)@[pin.id()].value, pins: old(cache)@[pin.id()].pins + 1 },
            ),
            r is None ==> final(cache)@ == old(cache)@,
    {
        cache.get(&PFrameId::new(mmo, page_num))
    }

    /// The frame of page `pagenum` of the object `mmo`, pinned. A frame that
    /// is not in the cache is created and put there.
    ///
    /// The cache is held from the lookup to the insertion, so that no other
    /// frame of the key can enter it while this one is made.
    ///
    /// A frame that is in the cache is pinned once more, and nothing else
    /// happens: no page is taken and the object is not asked. Otherwise the
    /// call fails with `ENOMEM`, and changes nothing, where the cache has no
    /// room or no physical page is left. Otherwise the object fills a new
    /// frame; where it fails, its error is the result, the page goes back to
    /// the pool and the cache stays as it was.
    pub fn get<M: MMObj>(
        cache: &mut PFrameCache,
        pages: &mut PageAllocator,
        tlb: &mut Tlb,
        mmo: &M,
        mmo_id: MMObjId,
        pagenum: PageNum,
    ) -> (r: KResult<PinnedValue<PFrameId>>)
        requires
            old(cache).wf(),
            old(pages).wf(),
            old(cache)@.contains_key(PFrameId { mmobj: mmo_id, page: pagenum }) ==> old(cache)@[PFrameId {
                mmobj: mmo_id,
                page: pagenum,
            }].pins < usize::MAX,
        ensures
            final(cache).wf(),
            final(cache).limit() == old(cache).limit(),
            final(pages).wf(),
            got(
                *old(cache),
                old(pages)@,
                old(tlb)@,
                PFrameId { mmobj: mmo_id, page: pagenum },
                r,
                *final(cache),
                final(pages)@,
                final(tlb)@,
            ),
    {
        let key = PFrameId::new(mmo_id, pagenum);
        match cache.get(&key) {
            Some(pin) => Ok(pin),
            None => {
                if cache.is_full() {
                    return Err(Errno::ENOMEM);
                }
                let made = PFrame::try_make(key, pages, tlb, mmo);
                match cache.add_made(key, made) {
                    Ok(pin) => Ok(pin),
                    Err(InsertError::SysError(Some(e))) => Err(e),
                    // No frame of the key can have entered the cache while
                    // this one was made.
                    Err(_) => unreached(),
                }
            },
        }
    }

    /// Creates the frame of page `page_num` of the object `mmo`: takes a
    /// physical page and has the object fill it.
    ///
    /// Without a page to take the call fails with `Alloc`. Where the object
    /// fails to fill the page, the call fails with `Sys` and the error of the
    /// object, and the page goes back to the pool.
    pub fn create<M: MMObj>(
        pages: &mut PageAllocator,
        tlb: &mut Tlb,
        mmo: &M,
        mmo_id: MMObjId,
        page_num: PageNum,
    ) -> (r: Result<PFrame, PFError>)
        requires
            old(pages).wf(),
        ensures
            final(pages).wf(),
            created(old(pages)@, old(tlb)@, mmo_id, page_num, r, final(pages)@, final(tlb)@),
    {
        let page = match pages.alloc_page() {
            Some(page) => page,
            None => {
                return Err(PFError::Alloc(AllocError));
            },
        };
        let mut res = PFrame {
            obj: mmo_id,
            pagenum: page_num,
            page: FramePage { addr: page },
            flags: pfstate::NORMAL | pfstate::INITING,
            queue: WQueue::new(),
        };
        proof {
            assert(pfstate::NORMAL | pfstate::INITING == pfstate::INITING) by (bit_vector);
            pfstate::lemma_flags(pfstate::INITING);
        }
        match res.fill(mmo) {
            Ok(()) => Ok(res),
            Err(e) => {
                proof {
                    assert(old(pages)@.drop_last().push(page) =~= old(pages)@);
                }
                res.destroy(pages, tlb);
                Err(PFError::Sys(e))
            },
        }
    }

    /// Creates the frame of `key`, and reports a failure as an error number:
    /// `ENOMEM` where no physical page was left, the error of the backing
    /// object where it could not fill the page.
    pub fn try_make<M: MMObj>(
        key: PFrameId,
        pages: &mut PageAllocator,
        tlb: &mut Tlb,
        mmo: &M,
    ) -> (r: Result<PFrame, Errno>)
        requires
            old(pages).wf(),
        ensures
            final(pages).wf(),
            match r {
                Ok(frame) => {
                    &&& old(pages)@.len() > 0
                    &&& frame@ == fresh_frame(key.mmobj, key.page, old(pages)@.last())
                    &&& final(pages)@ == old(pages)@.drop_last()
                    &&& final(tlb)@ == old(tlb)@
                },
                Err(e) => {
                    &&& final(pages)@ == old(pages)@
                    &&& if old(pages)@.len() == 0 {
                        e == Errno::ENOMEM && final(tlb)@ == old(tlb)@
                    } else {
                        final(tlb)@ == old(tlb)@.push(Flush::Page(old(pages)@.last()))
                    }
                },
            },
    {
        match PFrame::create(pages, tlb, mmo, key.mmobj, key.page) {
            Ok(frame) => Ok(frame),
            Err(PFError::Alloc(_)) => Err(Errno::ENOMEM),
            Err(PFError::Sys(e)) => Err(e),
        }
    }

    /// Fills the page of a frame that has just been made, with the frame
    /// busy while the object works.
    fn fill<M: MMObj>(&mut self, obj: &M) -> (r: KResult<()>)
        requires
            old(self)@.flags == pfstate::INITING,
        ensures
            final(self)@ == (PFrameView {
                flags: pfstate::filled(pfstate::INITING, r is Ok),
                waiters: 0,
                ..old(self)@
            }),
    {
        proof {
            pfstate::lemma_flags(self.flags);
        }
        self.set_busy();
        let res = obj.fill_page(self);
        self.finish_fill(res)
    }

    /// Ends the filling of a busy frame, which the backing object has
    /// carried out with the outcome `res`: the frame stops being busy, its
    /// waiters are woken, and `INITING` is cleared where the object succeeded.
    pub fn finish_fill(&mut self, res: KResult<()>) -> (r: KResult<()>)
        requires
            pfstate::has_busy(old(self)@.flags),
        ensures
            r == res,
            final(self)@ == (PFrameView {
                flags: if res is Ok {
                    (old(self)@.flags & !pfstate::BUSY) & !pfstate::INITING
                } else {
                    old(self)@.flags & !pfstate::BUSY
                },
                waiters: 0,
                ..old(self)@
            }),
    {
        self.clear_busy();
        if res.is_ok() {
            self.flags = self.flags & !pfstate::INITING;
        }
        res
    }

    fn set_busy(&mut self)
        ensures
            final(self)@ == (PFrameView { flags: old(self)@.flags | pfstate::BUSY, ..old(self)@ }),
    {
        self.flags = self.flags | pfstate::BUSY;
    }

    fn clear_busy(&mut self)
        ensures
            final(self)@ == (PFrameView {
                flags: old(self)@.flags & !pfstate::BUSY,
                waiters: 0,
                ..old(self)@
            }),
    {
        self.flags = self.flags & !pfstate::BUSY;
        self.queue.signal();
    }

    /// Whether an operation on the frame is under way. A caller that finds
    /// the frame busy waits with `wait_busy`.
    pub fn is_busy(&self) -> (b: bool)
        ensures
            b == pfstate::has_busy(self@.flags),
    {
        self.flags & pfstate::BUSY != pfstate::NORMAL
    }

    /// Whether the frame has been dirtied and not written back since.
    pub fn is_dirty(&self) -> (b: bool)
        ensures
            b == pfstate::has_dirty(self@.flags),
    {
        self.flags & pfstate::DIRTY != pfstate::NORMAL
    }

    /// The state of the frame.
    pub fn flags(&self) -> (flags: PFState)
        ensures
            flags == self@.flags,
    {
        self.flags
    }

    /// The physical page of the frame.
    pub fn page(&self) -> (page: usize)
        ensures
            page == self@.page,
            page::is_page(page),
    {
        proof {
            use_type_invariant(&self.page);
        }
        self.page.addr
    }

    /// The page of the backing object that the frame holds.
    pub fn pagenum(&self) -> (pagenum: PageNum)
        ensures
            pagenum == self@.pagenum,
    {
        self.pagenum
    }

    /// The backing object that the frame belongs to.
    pub fn get_mmo(&self) -> (mmo: MMObjId)
        ensures
            mmo == self@.obj,
    {
        self.obj
    }

    /// Number of waiters that block until the frame stops being busy.
    pub fn waiters(&self) -> (n: usize)
        ensures
            n == self@.waiters,
    {
        self.queue.len()
    }

    /// One step of waiting for the frame to stop being busy.
    ///
    /// `wakeup` says how the last wait on the frame ended; a caller that has
    /// not waited yet passes `Ok`. The result is `Some` once the waiting is
    /// over: `Err` where the last wait was cancelled, `Ok` where the frame is
    /// not busy. Otherwise the caller is counted among the waiters of the
    /// frame and the result is `None`: the caller blocks until it is woken,
    /// and takes another step.
    pub fn wait_busy(&mut self, wakeup: Result<(), ()>) -> (r: Option<Result<(), ()>>)
        ensures
            r == wait_step(old(self)@.flags, wakeup),
            final(self)@ == (PFrameView {
                waiters: if r is None && old(self)@.waiters < usize::MAX {
                    old(self)@.waiters + 1
                } else {
                    old(self)@.waiters
                },
                ..old(self)@
            }),
    {
        if wakeup.is_err() {
            Some(Err(()))
        } else if self.flags & pfstate::BUSY != pfstate::NORMAL {
            self.queue.enqueue();
            None
        } else {
            Some(Ok(()))
        }
    }

    /// What a waiter that has been woken finds: the state of the frame, or
    /// nothing where its wait was cancelled.
    pub fn wait(&self, wakeup: Result<(), ()>) -> (r: Result<PFState, ()>)
        ensures
            r == match wakeup {
                Ok(_) => Ok::<PFState, ()>(self@.flags),
                Err(_) => Err::<PFState, ()>(()),
            },
    {
        if wakeup.is_ok() {
            Ok(self.flags)
        } else {
            Err(())
        }
    }

    /// Tells the backing object that the page is about to be modified, and
    /// marks the frame dirty where the object agrees. The frame is busy while
    /// the object works; afterwards it is not, and its waiters are woken.
    pub fn dirty<M: MMObj>(&mut self, mmo: &M) -> (r: KResult<()>)
        requires
            !pfstate::has_busy(old(self)@.flags),
        ensures
            final(self)@ == (PFrameView {
                flags: pfstate::dirtied(old(self)@.flags, r is Ok),
                waiters: 0,
                ..old(self)@
            }),
    {
        self.begin_dirty();
        let ret = mmo.dirty_page(self);
        self.finish_dirty(ret)
    }

    /// Begins the dirtying of a frame that is not busy: the frame is busy
    /// from now on, until `finish_dirty` ends what has begun.
    pub fn begin_dirty(&mut self)
        requires
            !pfstate::has_busy(old(self)@.flags),
        ensures
            final(self)@ == (PFrameView { flags: old(self)@.flags | pfstate::BUSY, ..old(self)@ }),
            pfstate::has_busy(final(self)@.flags),
    {
        proof {
            pfstate::lemma_flags(self.flags);
        }
        self.set_busy();
    }

    /// Ends the dirtying of a busy frame, which the backing object has
    /// answered with `ret`: the frame becomes dirty where the object agreed,
    /// stops being busy, and its waiters are woken.
    pub fn finish_dirty(&mut self, ret: KResult<()>) -> (r: KResult<()>)
        requires
            pfstate::has_busy(old(self)@.flags),
        ensures
            r == ret,
            final(self)@ == (PFrameView {
                flags: if ret is Ok {
                    (old(self)@.flags | pfstate::DIRTY) & !pfstate::BUSY
                } else {
                    old(self)@.flags & !pfstate::BUSY
                },
                waiters: 0,
                ..old(self)@
            }),
    {
        if ret.is_ok() {
            self.flags = self.flags | pfstate::DIRTY;
        }
        self.clear_busy();
        ret
    }

    /// Cleans a dirty frame by having the backing object write the page back.
    ///
    /// The frame stops being dirty before the object is asked: the
    /// translation of its page is invalidated and the page is taken out of
    /// every directory of `dirs`, so that a later write to it faults and
    /// dirties the frame again. The frame is busy while the object works.
    /// Where the object fails the frame is dirty again. Afterwards the frame
    /// is not busy, and its waiters are woken.
    pub fn clean<M: MMObj>(&mut self, tlb: &mut Tlb, dirs: &mut Vec<PageDir>, mmo: &M) -> (r: KResult<
        (),
    >)
        requires
            pfstate::has_dirty(old(self)@.flags),
            forall|i: int| 0 <= i < old(dirs).len() ==> (#[trigger] old(dirs)[i]).wf(),
        ensures
            final(self)@ == (PFrameView {
                flags: pfstate::cleaned(old(self)@.flags, r is Ok),
                waiters: 0,
                ..old(self)@
            }),
            final(tlb)@ == old(tlb)@.push(Flush::Page(old(self)@.page)),
            removed_from(old(dirs)@, final(dirs)@, old(self)@.page),
    {
        self.begin_clean(tlb, dirs);
        let ret = mmo.clean_page(self);
        self.finish_clean(ret)
    }

    /// Begins the cleaning of a dirty frame: the frame stops being dirty, the
    /// translation of its page is invalidated, the page is taken out of every
    /// directory of `dirs`, and the frame is busy from now on, until
    /// `finish_clean` ends what has begun.
    pub fn begin_clean(&mut self, tlb: &mut Tlb, dirs: &mut Vec<PageDir>)
        requires
            pfstate::has_dirty(old(self)@.flags),
            forall|i: int| 0 <= i < old(dirs).len() ==> (#[trigger] old(dirs)[i]).wf(),
        ensures
            final(self)@ == (PFrameView {
                flags: (old(self)@.flags & !pfstate::DIRTY) | pfstate::BUSY,
                ..old(self)@
            }),
            pfstate::has_busy(final(self)@.flags),
            !pfstate::has_dirty(final(self)@.flags),
            final(tlb)@ == old(tlb)@.push(Flush::Page(old(self)@.page)),
            removed_from(old(dirs)@, final(dirs)@, old(self)@.page),
    {
        self.flags = self.flags & !pfstate::DIRTY;
        // A later write to the page has to fault, and so dirty the frame.
        tlb::flush(tlb, self.page.addr);
        self.remove_from_pts(dirs);
        proof {
            pfstate::lemma_flags(old(self)@.flags);
            pfstate::lemma_flags(self.flags);
        }
        self.set_busy();
    }

    /// Ends the cleaning of a busy frame, which the backing object has
    /// carried out with the outcome `ret`: the frame is dirty again where the
    /// object failed, stops being busy, and its waiters are woken.
    pub fn finish_clean(&mut self, ret: KResult<()>) -> (r: KResult<()>)
        requires
            pfstate::has_busy(old(self)@.flags),
        ensures
            r == ret,
            final(self)@ == (PFrameView {
                flags: if ret is Ok {
                    old(self)@.flags & !pfstate::BUSY
                } else {
                    (old(self)@.flags | pfstate::DIRTY) & !pfstate::BUSY
                },
                waiters: 0,
                ..old(self)@
            }),
    {
        if ret.is_err() {
            self.flags = self.flags | pfstate::DIRTY;
        }
        self.clear_busy();
        ret
    }

    /// Takes the page of the frame out of every directory of `dirs`.
    fn remove_from_pts(&self, dirs: &mut Vec<PageDir>)
        requires
            forall|i: int| 0 <= i < old(dirs).len() ==> (#[trigger] old(dirs)[i]).wf(),
        ensures
            removed_from(old(dirs)@, final(dirs)@, self@.page),
    {
        let mut i: usize = 0;
        while i < dirs.len()
            invariant
                i <= dirs.len(),
                dirs.len() == old(dirs).len(),
                forall|k: int| 0 <= k < dirs.len() ==> (#[trigger] dirs[k]).wf(),
                forall|k: int|
                    0 <= k < dirs.len() ==> (#[trigger] dirs[k])@ == if k < i {
                        old(dirs)[k]@.without_frame(self@.page)
                    } else {
                        old(dirs)[k]@
                    },
            decreases dirs.len() - i,
        {
            dirs[i].unmap_frame(self.page.addr);
            i += 1;
        }
    }

    /// Whether the frame is still worth keeping: the answer that its backing
    /// object `mmo` gives when it is asked.
    pub fn is_still_useful<M: MMObj>(&self, mmo: &M) -> (useful: bool)
        ensures
            call_ensures(M::is_still_useful, (mmo,), useful),
    {
        mmo.is_still_useful()
    }

    /// Gives up a frame that is not busy: the translation of its page is
    /// invalidated and the page goes back to the pool.
    pub fn destroy(self, pages: &mut PageAllocator, tlb: &mut Tlb)
        requires
            !pfstate::has_busy(self@.flags),
            old(pages).wf(),
        ensures
            final(pages).wf(),
            final(pages)@ == old(pages)@.push(self@.page),
            final(tlb)@ == old(tlb)@.push(Flush::Page(self@.page)),
    {
        proof {
            use_type_invariant(&self.page);
        }
        tlb::flush(tlb, self.page.addr);
        pages.free_page(self.page.addr);
    }

    /// Takes the frame of `key` out of the cache and gives it up, unless it
    /// is still useful, pinned or busy.
    pub fn evict(
        cache: &mut PFrameCache,
        pages: &mut PageAllocator,
        tlb: &mut Tlb,
        key: &PFrameId,
        still_useful: bool,
    ) -> (evicted: bool)
        requires
            old(cache).wf(),
            old(pages).wf(),
        ensures
            final(cache).wf(),
            final(cache).limit() == old(cache).limit(),
            final(pages).wf(),
            evicted == evictable(old(cache)@, *key, still_useful),
            evicted ==> final(cache)@ == old(cache)@.remove(*key) && final(pages)@ == old(pages)@.push(old(cache)@[*key].value@.page) && final(tlb)@ == old(tlb)@.push(
                Flush::Page(old(cache)@[*key].value@.page),
            ),
            !evicted ==> final(cache)@ == old(cache)@ && final(pages)@ == old(pages)@ && final(tlb)@ == old(tlb)@,
    {
        if still_useful {
            return false;
        }
        let busy = match cache.peek(key) {
            Some(frame) => frame.is_busy(),
            None => {
                return false;
            },
        };
        if busy {
            return false;
        }
        match cache.evict(key) {
            Some(frame) => {
                frame.destroy(pages, tlb);
                true
            },
            None => false,
        }
    }

    /// Asks the backing object `mmo` of the frame of `key` whether its frames
    /// are still useful, and takes the frame out of the cache and gives it up
    /// where they are not, unless the frame is pinned or busy.
    ///
    /// Where the cache holds no frame for `key`, nothing happens and the
    /// object is not asked. Otherwise the frame is evicted exactly where
    /// `evict` evicts it on the answer of the object.
    pub fn reclaim<M: MMObj>(
        cache: &mut PFrameCache,
        pages: &mut PageAllocator,
        tlb: &mut Tlb,
        mmo: &M,
        key: &PFrameId,
    ) -> (evicted: bool)
        requires
            old(cache).wf(),
            old(pages).wf(),
        ensures
            final(cache).wf(),
            final(cache).limit() == old(cache).limit(),
            final(pages).wf(),
            !old(cache)@.contains_key(*key) ==> !evicted,
            old(cache)@.contains_key(*key) ==> exists|useful: bool| #[trigger]
                call_ensures(M::is_still_useful, (mmo,), useful) && evicted == evictable(
                    old(cache)@,
                    *key,
                    useful,
                ),
            evicted ==> final(cache)@ == old(cache)@.remove(*key) && final(pages)@ == old(pages)@.push(
                old(cache)@[*key].value@.page,
            ) && final(tlb)@ == old(tlb)@.push(Flush::Page(old(cache)@[*key].value@.page)),
            !evicted ==> final(cache)@ == old(cache)@ && final(pages)@ == old(pages)@ && final(tlb)@
                == old(tlb)@,
    {
        let still_useful = match cache.peek(key) {
            Some(frame) => frame.is_still_useful(mmo),
            None => {
                return false;
            },
        };
        PFrame::evict(cache, pages, tlb, key, still_useful)
    }
}

/// Whether the frame of `key` is given up by an eviction: it is in the cache
/// without a pin on it, it is not busy, and it is no longer useful.
pub open spec fn evictable(cache: Map<PFrameId, Pinned<PFrame>>, key: PFrameId, still_useful: bool) -> bool {
    &&& !still_useful
    &&& cache.contains_key(key)
    &&& cache[key].pins == 0
    &&& !pfstate::has_busy(cache[key].value@.flags)
}

/// The outcome of one step of waiting on a frame in the state `flags`, after
/// the last wait ended as `wakeup` says.
pub open spec fn wait_step(flags: PFState, wakeup: Result<(), ()>) -> Option<Result<(), ()>> {
    if wakeup is Err {
        Some(Err(()))
    } else if pfstate::has_busy(flags) {
        None
    } else {
        Some(Ok(()))
    }
}

/// Whether `after` holds the directories of `before`, each without the
/// physical page `page`.
pub open spec fn removed_from(before: Seq<PageDir>, after: Seq<PageDir>, page: usize) -> bool {
    &&& after.len() == before.len()
    &&& forall|i: int|
        0 <= i < after.len() ==> (#[trigger] after[i]).wf() && after[i]@ == before[i]@.without_frame(
            page,
        )
}

/// The frame that is created for page `pagenum` of the object `obj` on the
/// physical page `page`.
pub open spec fn fresh_frame(obj: MMObjId, pagenum: PageNum, page: usize) -> PFrameView {
    PFrameView { obj, pagenum, page, flags: pfstate::NORMAL, waiters: 0 }
}

/// How the creation of a frame relates its result to the pool of pages and
/// the pending invalidations before and after it.
pub open spec fn created(
    pages: Seq<usize>,
    tlb: Seq<Flush>,
    obj: MMObjId,
    pagenum: PageNum,
    r: Result<PFrame, PFError>,
    pages_after: Seq<usize>,
    tlb_after: Seq<Flush>,
) -> bool {
    if pages.len() == 0 {
        &&& r == Err::<PFrame, PFError>(PFError::Alloc(AllocError))
        &&& pages_after == pages
        &&& tlb_after == tlb
    } else {
        match r {
            Ok(frame) => {
                &&& frame@ == fresh_frame(obj, pagenum, pages.last())
                &&& pages_after == pages.drop_last()
                &&& tlb_after == tlb
            },
            Err(e) => {
                &&& e is Sys
                &&& pages_after == pages
                &&& tlb_after == tlb.push(Flush::Page(pages.last()))
            },
        }
    }
}

/// How getting the frame of `key` relates its result to the cache, the pool
/// of pages and the pending invalidations before and after it.
pub open spec fn got(
    cache: PFrameCache,
    pages: Seq<usize>,
    tlb: Seq<Flush>,
    key: PFrameId,
    r: KResult<PinnedValue<PFrameId>>,
    cache_after: PFrameCache,
    pages_after: Seq<usize>,
    tlb_after: Seq<Flush>,
) -> bool {
    if cache@.contains_key(key) {
        &&& r matches Ok(pin)
        &&& pin.id() == key
        &&& cache_after@ == cache@.insert(
            key,
            Pinned { value: cache@[key].value, pins: cache@[key].pins + 1 },
        )
        &&& pages_after == pages
        &&& tlb_after == tlb
    } else if cache@.len() >= cache.limit() || pages.len() == 0 {
        &&& r == Err::<PinnedValue<PFrameId>, Errno>(Errno::ENOMEM)
        &&& cache_after@ == cache@
        &&& pages_after == pages
        &&& tlb_after == tlb
    } else {
        match r {
            Ok(pin) => {
                &&& pin.id() == key
                &&& cache_after@.contains_key(key)
                &&& cache_after@[key].value@ == fresh_frame(key.mmobj, key.page, pages.last())
                &&& cache_after@ == cache@.insert(
                    key,
                    Pinned { value: cache_after@[key].value, pins: 1 },
                )
                &&& pages_after == pages.drop_last()
                &&& tlb_after == tlb
            },
            Err(_) => {
                &&& cache_after@ == cache@
                &&& pages_after == pages
                &&& tlb_after == tlb.push(Flush::Page(pages.last()))
            },
        }
    }
}

/// Start-up of the frame cache: the cache, empty, with room for `limit` frames.
pub fn init_stage2(limit: usize) -> (cache: PFrameCache)
    ensures
        cache.wf(),
        cache@ == Map::<PFrameId, Pinned<PFrame>>::empty(),
        cache.limit() == limit,
{
    PinnableCache::new(limit)
}

} // verus!
