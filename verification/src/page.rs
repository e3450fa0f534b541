//! Physical pages: the page geometry, arithmetic on page addresses, and the
//! pool that hands physical pages out and takes them back.

use vstd::prelude::*;

verus! {

/// Number of address bits below the page number.
pub const SHIFT: usize = 12;

/// Size of a page in bytes.
pub const SIZE: usize = 4096;

/// Mask that keeps the page-number bits of an address.
pub const MASK: usize = !0xfff;

/// Number of size classes of the page allocator.
pub const NSIZES: usize = 8;

/// Whether `addr` is the first byte of a page.
pub open spec fn is_aligned(addr: usize) -> bool {
    addr % SIZE == 0
}

/// Whether `page` can name a physical page: aligned, and not the null address.
pub open spec fn is_page(page: usize) -> bool {
    page != 0 && is_aligned(page)
}

/// The bit operations of this module, stated as arithmetic.
pub proof fn lemma_page_bits(x: usize)
    ensures
        x & MASK == x - x % SIZE,
        x & !MASK == x % SIZE,
        x >> SHIFT == x / SIZE,
        (x & MASK) % SIZE == 0,
        (x & MASK) + (x & !MASK) == x,
{
    assert(x & MASK == x - x % SIZE && x & !MASK == x % SIZE && x >> SHIFT == x / SIZE && (x
        & MASK) % SIZE == 0 && (x & MASK) + (x & !MASK) == x) by (bit_vector);
}

/// The address rounded up to the start of a page. An address in the last,
/// incomplete page of the address space wraps around to zero.
pub open spec fn aligned_up(x: usize) -> usize {
    if x % SIZE == 0 {
        x
    } else if x - x % SIZE + SIZE <= usize::MAX {
        (x - x % SIZE + SIZE) as usize
    } else {
        0
    }
}

/// The start of the page that holds `x`.
pub fn align_down(x: usize) -> (r: usize)
    ensures
        r == x - x % SIZE,
{
    proof {
        lemma_page_bits(x);
    }
    x & MASK
}

/// The start of the first page that begins at or above `x`.
pub fn align_up(x: usize) -> (r: usize)
    ensures
        r == aligned_up(x),
{
    let below = x.wrapping_sub(1);
    proof {
        lemma_page_bits(below);
        assert(usize::MAX == 0xffff_ffff || usize::MAX == 0xffff_ffff_ffff_ffff);
    }
    (below & MASK).wrapping_add(SIZE)
}

/// The offset of `x` within its page.
pub fn offset(x: usize) -> (r: usize)
    ensures
        r == x % SIZE,
{
    proof {
        lemma_page_bits(x);
    }
    x & !MASK
}

/// The address at which page number `x` starts, where it lies within the
/// address space.
pub fn num_to_addr(x: usize) -> (r: usize)
    requires
        x * SIZE <= usize::MAX,
    ensures
        r == x * SIZE,
{
    x * SIZE
}

/// The number of the page that holds `x`.
pub fn addr_to_num(x: usize) -> (r: usize)
    ensures
        r == x / SIZE,
{
    proof {
        lemma_page_bits(x);
    }
    x >> SHIFT
}

/// Whether `x` is the first byte of a page.
pub fn aligned(x: usize) -> (r: bool)
    ensures
        r == is_aligned(x),
{
    0 == x % SIZE
}

/// Whether `x` and `y` lie on one page.
pub fn same(x: usize, y: usize) -> (r: bool)
    ensures
        r == (x / SIZE == y / SIZE),
{
    align_down(x) == align_down(y)
}

/// The failure to find memory for something.
#[derive(Clone, Copy, Debug, PartialEq, Eq, Structural)]
pub struct AllocError;

/// The pages that lie between `start` and `end`, lowest first.
pub open spec fn pages_between(start: usize, end: usize) -> Seq<usize> {
    Seq::new(((end - start) / SIZE as int) as nat, |i: int| (start + i * SIZE) as usize)
}

/// The pool of free physical pages.
///
/// The pool is a stack: the page freed last is the page handed out next.
pub struct PageAllocator {
    free: Vec<usize>,
}

impl View for PageAllocator {
    type V = Seq<usize>;

    /// The free pages, the next one to be handed out last.
    closed spec fn view(&self) -> Seq<usize> {
        self.free@
    }
}

impl PageAllocator {
    /// Every free page is the address of a page.
    pub open spec fn wf(&self) -> bool {
        forall|i: int| 0 <= i < self@.len() ==> is_page(#[trigger] self@[i])
    }

    /// A pool without any page.
    pub fn new() -> (r: PageAllocator)
        ensures
            r.wf(),
            r@ == Seq::<usize>::empty(),
    {
        PageAllocator { free: Vec::new() }
    }

    /// Hands the pages of `[start, end)` to the pool, lowest first.
    pub fn add_range(&mut self, start: usize, end: usize)
        requires
            old(self).wf(),
            is_page(start),
            is_aligned(end),
            start <= end,
        ensures
            final(self).wf(),
            final(self)@ == old(self)@ + pages_between(start, end),
    {
        let count: usize = (end - start) / SIZE;
        let mut i: usize = 0;
        while i < count
            invariant
                self.wf(),
                is_page(start),
                is_aligned(end),
                start <= end,
                count == (end - start) / SIZE as int,
                i <= count,
                self@ == old(self)@ + pages_between(start, end).subrange(0, i as int),
            decreases count - i,
        {
            let page: usize = start + i * SIZE;
            assert(page == pages_between(start, end)[i as int]);
            self.free.push(page);
            assert(pages_between(start, end).subrange(0, i + 1) == pages_between(start, end).subrange(
                0,
                i as int,
            ).push(page));
            i += 1;
        }
        assert(pages_between(start, end).subrange(0, count as int) == pages_between(start, end));
    }

    /// Takes a page out of the pool, or reports that the pool is exhausted.
    pub fn alloc_page(&mut self) -> (r: Option<usize>)
        requires
            old(self).wf(),
        ensures
            final(self).wf(),
            r is Some <==> old(self)@.len() > 0,
            r matches Some(page) ==> is_page(page) && page == old(self)@.last() && final(self)@
                == old(self)@.drop_last(),
            r is None ==> final(self)@ == old(self)@,
    {
        self.free.pop()
    }

    /// Gives `page` back to the pool.
    pub fn free_page(&mut self, page: usize)
        requires
            old(self).wf(),
            is_page(page),
        ensures
            final(self).wf(),
            final(self)@ == old(self)@.push(page),
    {
        self.free.push(page);
    }

    /// Number of pages in the pool.
    pub fn free_count(&self) -> (n: usize)
        ensures
            n == self@.len(),
    {
        self.free.len()
    }
}

/// First stage of start-up: a pool without any page. The ranges of physical
/// memory that may be handed out are given to it with `add_range`.
pub fn init_stage1() -> (r: PageAllocator)
    ensures
        r.wf(),
        r@ == Seq::<usize>::empty(),
{
    PageAllocator::new()
}

/// Second stage of start-up: nothing is left to do.
pub fn init_stage2(pages: &mut PageAllocator)
    ensures
        final(pages)@ == old(pages)@,
{
}

} // verus!
