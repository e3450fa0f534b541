//! The demand-paged virtual-memory core of a small kernel: two-level page
//! tables, and a pinning cache of physical page frames that are filled,
//! dirtied and cleaned on behalf of backing objects.
//!
//! Nothing here is global. The state of the subsystem lives in values that
//! the start-up code creates once, in two stages, and hands to every
//! operation: the pool of physical pages, the pending invalidations of the
//! translation cache, the template of the page directories, and the cache of
//! frames.

use crate::page::PageAllocator;
use crate::pagetable::PageDir;
use crate::tlb::{Flush, Tlb};
use vstd::prelude::*;

pub mod boot;
pub mod errno;
pub mod make;
pub mod mmobj;
pub mod page;
pub mod pagetable;
pub mod pagetable_laws;
pub mod pframe;
pub mod pframe_laws;
pub mod pfstate;
pub mod pinnable_cache;
pub mod sync;
pub mod tlb;
pub mod user;
pub mod utils;
pub mod vnode;

verus! {

/// The state of memory management.
pub struct MemoryManager {
    /// The pending invalidations of the translation cache.
    pub tlb: Tlb,
    /// The pool of physical pages.
    pub pages: PageAllocator,
    /// The template of the page directories, once it has been installed.
    pub template: Option<PageDir>,
}

/// First stage of start-up, to be run once: creates the state of memory
/// management, with an empty pool of pages, nothing to invalidate, and the
/// template of the page directories installed.
pub fn init_stage1() -> (mm: MemoryManager)
    ensures
        mm.tlb@ == Seq::<Flush>::empty(),
        mm.pages.wf(),
        mm.pages@ == Seq::<usize>::empty(),
        mm.template matches Some(template) && template.wf() && template@ == PageDir::empty_view(),
{
    let tlb = crate::tlb::init_stage1();
    let pages = crate::page::init_stage1();
    let template = crate::pagetable::init_stage1();
    MemoryManager { tlb, pages, template: Some(template) }
}

/// Second stage of start-up, to be run once after the first. It leaves the
/// state as it is.
pub fn init_stage2(mm: &mut MemoryManager)
    ensures
        final(mm).tlb@ == old(mm).tlb@,
        final(mm).pages@ == old(mm).pages@,
        final(mm).template is Some == old(mm).template is Some,
        old(mm).template is Some ==> final(mm).template->0@ == old(mm).template->0@,
{
    crate::tlb::init_stage2(&mut mm.tlb);
    crate::page::init_stage2(&mut mm.pages);
    match &mut mm.template {
        Some(template) => {
            crate::pagetable::init_stage2(template);
        },
        None => {},
    }
}

} // verus!
