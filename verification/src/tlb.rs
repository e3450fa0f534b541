//! Invalidation of cached address translations.
//!
//! The translation cache belongs to the processor. This module decides what
//! has to be invalidated and keeps the requests in order; the code that runs
//! on the processor takes them with [`Tlb::take_pending`] and carries them out.

use crate::page;
use vstd::prelude::*;

verus! {

/// One request to the processor.
#[derive(Clone, Copy, Debug, PartialEq, Eq, Structural)]
pub enum Flush {
    /// Drop the translation of the page that holds this address.
    Page(usize),
    /// Drop every translation.
    All,
}

/// The requests that have not been carried out yet, oldest first.
pub struct Tlb {
    pending: Vec<Flush>,
}

impl View for Tlb {
    type V = Seq<Flush>;

    closed spec fn view(&self) -> Seq<Flush> {
        self.pending@
    }
}

/// The requests that invalidate `pages` consecutive pages from `vaddr` on.
pub open spec fn range_flushes(vaddr: usize, pages: usize) -> Seq<Flush> {
    Seq::new(pages as nat, |i: int| Flush::Page((vaddr + i * page::SIZE) as usize))
}

impl Tlb {
    /// A translation cache with nothing to invalidate.
    pub fn new() -> (r: Tlb)
        ensures
            r@ == Seq::<Flush>::empty(),
    {
        Tlb { pending: Vec::new() }
    }

    /// Hands out the requests made so far, oldest first, and forgets them.
    pub fn take_pending(&mut self) -> (r: Vec<Flush>)
        ensures
            r@ == old(self)@,
            final(self)@ == Seq::<Flush>::empty(),
    {
        let mut taken: Vec<Flush> = Vec::new();
        core::mem::swap(&mut taken, &mut self.pending);
        taken
    }
}

/// Asks for the translation of the page at `vaddr` to be dropped.
pub fn flush(tlb: &mut Tlb, vaddr: usize)
    ensures
        final(tlb)@ == old(tlb)@.push(Flush::Page(vaddr)),
{
    tlb.pending.push(Flush::Page(vaddr));
}

/// Asks for the translations of `pages` consecutive pages to be dropped,
/// the page at `vaddr` first.
pub fn flush_range(tlb: &mut Tlb, vaddr: usize, pages: usize)
    requires
        pages > 0 ==> vaddr + (pages - 1) * page::SIZE <= usize::MAX,
    ensures
        final(tlb)@ == old(tlb)@ + range_flushes(vaddr, pages),
{
    let mut i: usize = 0;
    while i < pages
        invariant
            i <= pages,
            pages > 0 ==> vaddr + (pages - 1) * page::SIZE <= usize::MAX,
            tlb@ == old(tlb)@ + range_flushes(vaddr, pages).subrange(0, i as int),
        decreases pages - i,
    {
        let uv = vaddr + i * page::SIZE;
        flush(tlb, uv);
        assert(range_flushes(vaddr, pages).subrange(0, i + 1) == range_flushes(
            vaddr,
            pages,
        ).subrange(0, i as int).push(Flush::Page(uv)));
        i += 1;
    }
    assert(range_flushes(vaddr, pages).subrange(0, pages as int) == range_flushes(vaddr, pages));
}

/// Asks for every translation to be dropped.
pub fn flush_all(tlb: &mut Tlb)
    ensures
        final(tlb)@ == old(tlb)@.push(Flush::All),
{
    tlb.pending.push(Flush::All);
}

/// First stage of start-up: a translation cache with nothing to invalidate.
pub fn init_stage1() -> (r: Tlb)
    ensures
        r@ == Seq::<Flush>::empty(),
{
    Tlb::new()
}

/// Second stage of start-up: nothing is left to do.
pub fn init_stage2(tlb: &mut Tlb)
    ensures
        final(tlb)@ == old(tlb)@,
{
}

} // verus!
