//! Two-level page tables.
//!
//! A page directory has [`ENTRY_COUNT`] slots, each covering [`VADDR_SIZE`]
//! bytes of virtual address space. A present slot owns a second-level table of
//! [`ENTRY_COUNT`] leaf entries, each of which maps one page. Entries of both
//! levels hold a physical page address in their upper bits and flags in their
//! lower twelve bits, in the layout that the hardware reads.

use crate::errno::Errno;
use crate::page;
use crate::page::PageAllocator;
use crate::user;
use vstd::prelude::*;

verus! {

/// The entry is in use.
pub const PRESENT: usize = 0x001;

/// The page may be written.
pub const WRITE: usize = 0x002;

/// The page may be used from user mode.
pub const USER: usize = 0x004;

/// Writes to the page go through to memory.
pub const WRITE_THROUGH: usize = 0x008;

/// The page is not cached.
pub const CACHE_DISABLED: usize = 0x010;

/// The page has been accessed.
pub const ACCESSED: usize = 0x020;

/// The page has been written.
pub const DIRTY: usize = 0x040;

/// The entry maps a large page.
pub const SIZE: usize = 0x080;

/// The translation of the page is kept when the directory changes.
pub const GLOBAL: usize = 0x100;

/// Number of entries of a page directory, and of a second-level table.
pub const ENTRY_COUNT: usize = 1024;

/// Bytes of virtual address space that one directory slot covers.
pub const VADDR_SIZE: usize = 0x400000;

/// Directory slot that translates `vaddr`.
pub open spec fn pdindex_of(vaddr: usize) -> usize {
    vaddr / VADDR_SIZE
}

/// Index of the leaf entry that translates `vaddr` within its table.
pub open spec fn ptindex_of(vaddr: usize) -> usize {
    (vaddr / page::SIZE) % ENTRY_COUNT
}

/// Offset of `vaddr` within its page.
pub open spec fn offset_of(vaddr: usize) -> usize {
    vaddr % page::SIZE
}

/// First byte of virtual address space that leaf entry `j` of slot `i` maps.
pub open spec fn vaddr_of(i: int, j: int) -> int {
    i * VADDR_SIZE + j * page::SIZE
}

#[verifier::when_used_as_spec(pdindex_of)]
pub fn vaddr_to_pdindex(vaddr: usize) -> (r: usize)
    ensures
        r == pdindex_of(vaddr),
{
    proof {
        page::lemma_page_bits(vaddr);
    }
    (vaddr >> page::SHIFT) / ENTRY_COUNT
}

#[verifier::when_used_as_spec(ptindex_of)]
pub fn vaddr_to_ptindex(vaddr: usize) -> (r: usize)
    ensures
        r == ptindex_of(vaddr),
{
    proof {
        page::lemma_page_bits(vaddr);
    }
    (vaddr >> page::SHIFT) % ENTRY_COUNT
}

#[verifier::when_used_as_spec(offset_of)]
pub fn vaddr_to_offset(vaddr: usize) -> (r: usize)
    ensures
        r == offset_of(vaddr),
{
    proof {
        page::lemma_page_bits(vaddr);
    }
    vaddr & !page::MASK
}

/// How an address splits into slot, leaf index and offset.
pub proof fn lemma_vaddr_split(vaddr: usize)
    ensures
        vaddr == vaddr_of(pdindex_of(vaddr) as int, ptindex_of(vaddr) as int) + offset_of(vaddr),
        ptindex_of(vaddr) < ENTRY_COUNT,
        offset_of(vaddr) < page::SIZE,
        page::is_aligned(vaddr) <==> offset_of(vaddr) == 0,
{
}

/// The slot and leaf index of an address built from them.
pub proof fn lemma_vaddr_join(i: int, j: int, off: int)
    requires
        0 <= i,
        0 <= j < ENTRY_COUNT,
        0 <= off < page::SIZE,
        vaddr_of(i, j) + off <= usize::MAX,
    ensures
        pdindex_of((vaddr_of(i, j) + off) as usize) == i,
        ptindex_of((vaddr_of(i, j) + off) as usize) == j,
        offset_of((vaddr_of(i, j) + off) as usize) == off,
{
}

/// What the flag bits of an entry do not disturb.
pub proof fn lemma_entry_bits(frame: usize, flags: usize)
    requires
        flags < page::SIZE,
    ensures
        page::is_aligned(frame) ==> (frame | flags) & page::MASK == frame,
        (frame | flags) & page::MASK == frame & page::MASK,
        frame & PRESENT != 0 ==> (frame | flags) & PRESENT != 0,
        0usize & PRESENT == 0,
        0usize & page::MASK == 0,
{
    assert(flags < page::SIZE ==> ((frame % page::SIZE == 0 ==> (frame | flags) & page::MASK
        == frame) && (frame | flags) & page::MASK == frame & page::MASK && (frame & PRESENT != 0
        ==> (frame | flags) & PRESENT != 0))) by (bit_vector);
    assert(0usize & PRESENT == 0 && 0usize & page::MASK == 0) by (bit_vector);
}

/// A second-level table as a mathematical value.
#[verifier::ext_equal]
pub struct TableView {
    /// The physical page that holds the table.
    pub page: usize,
    /// The leaf entries.
    pub entries: Seq<usize>,
}

/// A page directory as a mathematical value.
#[verifier::ext_equal]
pub struct PageDirView {
    /// The directory entries: the page of a second-level table, and flags.
    pub directory: Seq<usize>,
    /// The second-level table that is paired with each directory entry.
    pub tables: Seq<Option<TableView>>,
}

impl PageDirView {
    /// Whether slot `i` is marked present.
    pub open spec fn present(self, i: int) -> bool {
        self.directory[i] & PRESENT != 0
    }

    /// Whether slot `i` is paired with a complete table on the page that the
    /// directory entry names.
    pub open spec fn table_ok(self, i: int) -> bool {
        &&& self.tables[i] matches Some(t)
        &&& t.entries.len() == ENTRY_COUNT
        &&& page::is_page(t.page)
        &&& self.directory[i] & page::MASK == t.page
    }

    /// Both arrays are complete, and every present slot has its table.
    pub open spec fn wf(self) -> bool {
        &&& self.directory.len() == ENTRY_COUNT
        &&& self.tables.len() == ENTRY_COUNT
        &&& forall|i: int| 0 <= i < ENTRY_COUNT && #[trigger] self.present(i) ==> self.table_ok(i)
    }

    /// The leaf entry in slot `i` at index `j`.
    pub open spec fn leaf(self, i: int, j: int) -> usize
        recommends
            self.tables[i] is Some,
    {
        self.tables[i]->0.entries[j]
    }

    /// The physical address that `vaddr` translates to, if it is mapped.
    pub open spec fn translate(self, vaddr: usize) -> Option<usize> {
        let i = pdindex_of(vaddr) as int;
        let j = ptindex_of(vaddr) as int;
        if i < ENTRY_COUNT && self.present(i) && self.leaf(i, j) & page::MASK != 0 {
            Some(((self.leaf(i, j) & page::MASK) + offset_of(vaddr)) as usize)
        } else {
            None
        }
    }

    /// The directory with slot `i` emptied.
    pub open spec fn after_delete_page(self, i: int) -> PageDirView {
        PageDirView { directory: self.directory.update(i, 0), tables: self.tables.update(i, None) }
    }

    /// Whether mapping a page at `vaddr` succeeds while the pool holds
    /// `free_pages` pages: the slot is present, or a page is left for its table.
    pub open spec fn can_map(self, vaddr: usize, free_pages: nat) -> bool {
        self.present(pdindex_of(vaddr) as int) || free_pages > 0
    }

    /// The directory after `vaddr` has been mapped to `paddr`.
    ///
    /// Where the slot of `vaddr` is present, its directory entry gains
    /// `pdflags`. Where it is not, the slot gets a zeroed table on the page
    /// `fresh`. Either way the leaf entry becomes `paddr | ptflags`.
    pub open spec fn after_map(
        self,
        vaddr: usize,
        paddr: usize,
        pdflags: usize,
        ptflags: usize,
        fresh: usize,
    ) -> PageDirView {
        let i = pdindex_of(vaddr) as int;
        let j = ptindex_of(vaddr) as int;
        if self.present(i) {
            let t = self.tables[i]->0;
            PageDirView {
                directory: self.directory.update(i, self.directory[i] | pdflags),
                tables: self.tables.update(
                    i,
                    Some(TableView { page: t.page, entries: t.entries.update(j, paddr | ptflags) }),
                ),
            }
        } else {
            PageDirView {
                directory: self.directory.update(i, fresh | pdflags),
                tables: self.tables.update(
                    i,
                    Some(
                        TableView {
                            page: fresh,
                            entries: Seq::new(ENTRY_COUNT as nat, |k: int| 0usize).update(
                                j,
                                paddr | ptflags,
                            ),
                        },
                    ),
                ),
            }
        }
    }

    /// The directory after the leaf entry of `vaddr` has been cleared.
    pub open spec fn after_unmap(self, vaddr: usize) -> PageDirView {
        let i = pdindex_of(vaddr) as int;
        let j = ptindex_of(vaddr) as int;
        if self.present(i) {
            let t = self.tables[i]->0;
            PageDirView {
                directory: self.directory,
                tables: self.tables.update(
                    i,
                    Some(TableView { page: t.page, entries: t.entries.update(j, 0) }),
                ),
            }
        } else {
            self
        }
    }

    /// Whether unmapping `[low, high)` releases the table of slot `i`: the slot
    /// is present and the range covers all of it.
    pub open spec fn released_by(self, low: usize, high: usize, i: int) -> bool {
        self.present(i) && low <= vaddr_of(i, 0) && vaddr_of(i + 1, 0) <= high
    }

    /// The directory after `[low, high)` has been unmapped.
    ///
    /// A present table that the range covers is released. In every other
    /// present table exactly the leaf entries of the pages in the range are
    /// cleared.
    pub open spec fn after_unmap_range(self, low: usize, high: usize) -> PageDirView {
        PageDirView {
            directory: Seq::new(
                ENTRY_COUNT as nat,
                |i: int|
                    if self.released_by(low, high, i) {
                        0
                    } else {
                        self.directory[i]
                    },
            ),
            tables: Seq::new(
                ENTRY_COUNT as nat,
                |i: int|
                    if self.released_by(low, high, i) {
                        None
                    } else if self.present(i) && self.tables[i] is Some {
                        Some(cleared(self.tables[i]->0, i, low, high))
                    } else {
                        self.tables[i]
                    },
            ),
        }
    }

    /// The directory after the physical page `frame` has been taken out of
    /// it: every leaf entry that maps a page of the user window to `frame` is
    /// cleared, and nothing else changes.
    pub open spec fn without_frame(self, frame: usize) -> PageDirView {
        PageDirView {
            directory: self.directory,
            tables: Seq::new(
                ENTRY_COUNT as nat,
                |i: int|
                    if self.present(i) && self.tables[i] is Some {
                        Some(unmapped_from(self.tables[i]->0, i, frame))
                    } else {
                        self.tables[i]
                    },
            ),
        }
    }

    /// The pages of the tables of the present slots in `[from, to)`, in the
    /// order of the slots.
    pub open spec fn frames_in(self, from: int, to: int) -> Seq<usize>
        decreases to - from,
    {
        if to <= from {
            Seq::empty()
        } else if self.present(to - 1) {
            self.frames_in(from, to - 1).push(self.tables[to - 1]->0.page)
        } else {
            self.frames_in(from, to - 1)
        }
    }
}

/// The table `t` of slot `i` with the leaf entries of the pages in
/// `[low, high)` cleared.
pub open spec fn cleared(t: TableView, i: int, low: usize, high: usize) -> TableView {
    TableView {
        page: t.page,
        entries: Seq::new(
            ENTRY_COUNT as nat,
            |j: int|
                if low <= vaddr_of(i, j) < high {
                    0
                } else {
                    t.entries[j]
                },
        ),
    }
}

/// Whether leaf entry `j` of slot `i` maps a page of the user window, the
/// page at its upper bound included.
pub open spec fn in_user_window(i: int, j: int) -> bool {
    user::MEM_LOW <= vaddr_of(i, j) <= user::MEM_HIGH
}

/// The table `t` of slot `i` with the leaf entries cleared that map a page
/// of the user window to the physical page `frame`.
pub open spec fn unmapped_from(t: TableView, i: int, frame: usize) -> TableView {
    TableView {
        page: t.page,
        entries: Seq::new(
            ENTRY_COUNT as nat,
            |j: int|
                if in_user_window(i, j) && t.entries[j] & page::MASK == frame {
                    0
                } else {
                    t.entries[j]
                },
        ),
    }
}

/// First directory slot that begins at or above `low`.
pub open spec fn first_whole_slot(low: usize) -> int {
    (low + VADDR_SIZE - 1) / VADDR_SIZE as int
}

/// A second-level table.
struct PageTable {
    page: usize,
    entries: Vec<usize>,
}

impl View for PageTable {
    type V = TableView;

    closed spec fn view(&self) -> TableView {
        TableView { page: self.page, entries: self.entries@ }
    }
}

/// The entries of a table that maps nothing.
fn zeroed_table() -> (entries: Vec<usize>)
    ensures
        entries@ == Seq::new(ENTRY_COUNT as nat, |k: int| 0usize),
{
    let mut entries: Vec<usize> = Vec::new();
    let mut k: usize = 0;
    while k < ENTRY_COUNT
        invariant
            k <= ENTRY_COUNT,
            entries.len() == k,
            forall|n: int| 0 <= n < k ==> entries[n] == 0,
        decreases ENTRY_COUNT - k,
    {
        entries.push(0);
        k += 1;
    }
    assert(entries@ =~= Seq::new(ENTRY_COUNT as nat, |k: int| 0usize));
    entries
}

/// Clears the entries `from..to` of a table.
fn zero_entries(entries: &mut Vec<usize>, from: usize, to: usize)
    requires
        from <= to <= old(entries).len(),
    ensures
        final(entries)@ == Seq::new(
            old(entries)@.len(),
            |j: int|
                if from <= j < to {
                    0
                } else {
                    old(entries)@[j]
                },
        ),
{
    let mut j: usize = from;
    while j < to
        invariant
            from <= j <= to <= entries.len(),
            entries.len() == old(entries).len(),
            forall|n: int| 0 <= n < entries.len() ==> entries[n] == if from <= n < j {
                0
            } else {
                old(entries)[n]
            },
        decreases to - j,
    {
        entries[j] = 0;
        j += 1;
    }
    assert(entries@ =~= Seq::new(
        old(entries)@.len(),
        |j: int|
            if from <= j < to {
                0
            } else {
                old(entries)@[j]
            },
    ));
}

/// Clears the entries before `to` that hold the physical page `frame`.
fn zero_frame(entries: &mut Vec<usize>, frame: usize, to: usize)
    requires
        to <= old(entries).len(),
    ensures
        final(entries)@ == Seq::new(
            old(entries)@.len(),
            |j: int|
                if j < to && old(entries)@[j] & page::MASK == frame {
                    0
                } else {
                    old(entries)@[j]
                },
        ),
{
    let mut j: usize = 0;
    while j < to
        invariant
            j <= to <= entries.len(),
            entries.len() == old(entries).len(),
            forall|n: int|
                0 <= n < entries.len() ==> entries[n] == if n < j && old(entries)[n] & page::MASK
                    == frame {
                    0
                } else {
                    old(entries)[n]
                },
        decreases to - j,
    {
        if entries[j] & page::MASK == frame {
            entries[j] = 0;
        }
        j += 1;
    }
    assert(entries@ =~= Seq::new(
        old(entries)@.len(),
        |j: int|
            if j < to && old(entries)@[j] & page::MASK == frame {
                0
            } else {
                old(entries)@[j]
            },
    ));
}

/// A copy of the entries of a table.
fn copy_entries(entries: &Vec<usize>) -> (copy: Vec<usize>)
    ensures
        copy@ == entries@,
{
    let mut copy: Vec<usize> = Vec::new();
    let mut j: usize = 0;
    while j < entries.len()
        invariant
            j <= entries.len(),
            copy@ == entries@.subrange(0, j as int),
        decreases entries.len() - j,
    {
        copy.push(entries[j]);
        assert(entries@.subrange(0, j + 1) == entries@.subrange(0, j as int).push(entries[j as int]));
        j += 1;
    }
    assert(entries@.subrange(0, entries.len() as int) == entries@);
    copy
}

/// A page directory together with the second-level tables that it owns.
pub struct PageDir {
    pd_physical: Vec<usize>,
    pd_virtual: Vec<Option<PageTable>>,
}

impl View for PageDir {
    type V = PageDirView;

    closed spec fn view(&self) -> PageDirView {
        PageDirView {
            directory: self.pd_physical@,
            tables: Seq::new(
                self.pd_virtual.len() as nat,
                |i: int|
                    match self.pd_virtual[i] {
                        Some(t) => Some(t@),
                        None => None,
                    },
            ),
        }
    }
}

impl PageDir {
    /// The invariant of a page directory.
    pub open spec fn wf(&self) -> bool {
        self@.wf()
    }

    /// The directory in which no slot is present.
    pub open spec fn empty_view() -> PageDirView {
        PageDirView {
            directory: Seq::new(ENTRY_COUNT as nat, |i: int| 0usize),
            tables: Seq::new(ENTRY_COUNT as nat, |i: int| None::<TableView>),
        }
    }

    /// A directory in which no slot is present.
    pub fn empty() -> (r: PageDir)
        ensures
            r.wf(),
            r@ == PageDir::empty_view(),
    {
        let mut pd_physical: Vec<usize> = Vec::new();
        let mut pd_virtual: Vec<Option<PageTable>> = Vec::new();
        let mut i: usize = 0;
        while i < ENTRY_COUNT
            invariant
                i <= ENTRY_COUNT,
                pd_physical.len() == i,
                pd_virtual.len() == i,
                forall|k: int| 0 <= k < i ==> pd_physical[k] == 0,
                forall|k: int| 0 <= k < i ==> pd_virtual[k] is None,
            decreases ENTRY_COUNT - i,
        {
            pd_physical.push(0);
            pd_virtual.push(None);
            i += 1;
        }
        let r = PageDir { pd_physical, pd_virtual };
        proof {
            lemma_entry_bits(0, 0);
            assert(r@.directory =~= Seq::new(ENTRY_COUNT as nat, |i: int| 0usize));
            assert(r@.tables =~= Seq::new(ENTRY_COUNT as nat, |i: int| None::<TableView>));
        }
        r
    }

    /// A directory that is a copy of the installed template, so that the
    /// mappings of the template are in place from the start.
    ///
    /// The copy has a table of its own for every table of the template, on
    /// the same page. A template is meant to hold no table in the user window:
    /// the copy would release the page of such a table at its end.
    pub fn new(template: &Option<PageDir>) -> (r: PageDir)
        requires
            template matches Some(t) && t.wf(),
        ensures
            r.wf(),
            r@ == template->0@,
    {
        let t = template.as_ref().unwrap();
        let mut pd_physical: Vec<usize> = Vec::new();
        let mut pd_virtual: Vec<Option<PageTable>> = Vec::new();
        let mut i: usize = 0;
        while i < ENTRY_COUNT
            invariant
                i <= ENTRY_COUNT,
                t.pd_physical.len() == ENTRY_COUNT,
                t.pd_virtual.len() == ENTRY_COUNT,
                pd_physical.len() == i,
                pd_virtual.len() == i,
                forall|k: int| 0 <= k < i ==> pd_physical[k] == t.pd_physical[k],
                forall|k: int|
                    0 <= k < i ==> (#[trigger] pd_virtual[k] matches Some(c) ==> t.pd_virtual[k] is Some
                        && c@ == t.pd_virtual[k]->0@),
                forall|k: int|
                    0 <= k < i ==> (#[trigger] pd_virtual[k]) is None ==> t.pd_virtual[k] is None,
            decreases ENTRY_COUNT - i,
        {
            pd_physical.push(t.pd_physical[i]);
            let copy = match &t.pd_virtual[i] {
                Some(table) => Some(
                    PageTable { page: table.page, entries: copy_entries(&table.entries) },
                ),
                None => None,
            };
            pd_virtual.push(copy);
            i += 1;
        }
        let r = PageDir { pd_physical, pd_virtual };
        proof {
            assert(r@.directory =~= t@.directory);
            assert(r@.tables =~~= t@.tables);
        }
        r
    }

    /// Gives up the directory: the second-level table of every present slot
    /// of the user window is released to `pages`, lowest slot first. Tables
    /// outside the window are shared by all directories and stay.
    pub fn destroy(self, pages: &mut PageAllocator)
        requires
            self.wf(),
            old(pages).wf(),
        ensures
            final(pages).wf(),
            final(pages)@ == old(pages)@ + self@.frames_in(
                pdindex_of(user::MEM_LOW) as int,
                pdindex_of(user::MEM_HIGH) as int,
            ),
    {
        let begin = user::MEM_LOW / VADDR_SIZE;
        let end = user::MEM_HIGH / VADDR_SIZE;
        let mut i = begin;
        while i < end
            invariant
                begin <= i <= end < ENTRY_COUNT,
                self.wf(),
                pages.wf(),
                pages@ == old(pages)@ + self@.frames_in(begin as int, i as int),
            decreases end - i,
        {
            match self.get_pagetable(i) {
                Some(page) => {
                    pages.free_page(page);
                    assert(pages@ =~= old(pages)@ + self@.frames_in(begin as int, i + 1));
                },
                None => {},
            }
            i += 1;
        }
    }

    /// The directory entry of slot `i`, as the hardware reads it.
    pub fn directory_entry(&self, i: usize) -> (entry: usize)
        requires
            self.wf(),
            i < ENTRY_COUNT,
        ensures
            entry == self@.directory[i as int],
    {
        self.pd_physical[i]
    }

    /// The page of the second-level table in slot `i`, if the slot is present.
    pub fn get_pagetable(&self, i: usize) -> (r: Option<usize>)
        requires
            self.wf(),
            i < ENTRY_COUNT,
        ensures
            r is Some <==> self@.present(i as int),
            r matches Some(page) ==> page == self@.tables[i as int]->0.page && page::is_page(page),
    {
        if self.pd_physical[i] & PRESENT != 0 {
            assert(self@.present(i as int));
            match &self.pd_virtual[i] {
                Some(t) => Some(t.page),
                None => unreached(),
            }
        } else {
            None
        }
    }

    /// Empties slot `index`. The page of its table is not given back to any pool.
    pub fn delete_page(&mut self, index: usize)
        requires
            old(self).wf(),
            index < ENTRY_COUNT,
        ensures
            final(self).wf(),
            final(self)@ == old(self)@.after_delete_page(index as int),
    {
        self.pd_physical[index] = 0;
        self.pd_virtual[index] = None;
        proof {
            lemma_entry_bits(0, 0);
            assert(self@.directory =~= old(self)@.after_delete_page(index as int).directory);
            assert(self@.tables =~= old(self)@.after_delete_page(index as int).tables);
            assert forall|i: int| 0 <= i < ENTRY_COUNT && #[trigger] self@.present(i) implies self@.table_ok(
                i,
            ) by {
                assert(old(self)@.present(i));
            }
        }
    }

    /// Maps the page at `vaddr` to the physical page `paddr`.
    ///
    /// A slot that is not present gets a zeroed second-level table on a page
    /// taken from `pages`; without a page to take, nothing changes and the
    /// call fails with `ENOMEM`. The leaf entry is overwritten in any case.
    pub fn map(
        &mut self,
        pages: &mut PageAllocator,
        vaddr: usize,
        paddr: usize,
        pdflags: usize,
        ptflags: usize,
    ) -> (r: Result<(), Errno>)
        requires
            old(self).wf(),
            old(pages).wf(),
            page::is_aligned(vaddr),
            user::MEM_LOW <= vaddr <= user::MEM_HIGH,
            pdflags < page::SIZE,
        ensures
            final(self).wf(),
            final(pages).wf(),
            r is Ok <==> old(self)@.can_map(vaddr, old(pages)@.len()),
            r is Err ==> r == Err::<(), Errno>(Errno::ENOMEM) && final(self)@ == old(self)@
                && final(pages)@ == old(pages)@,
            r is Ok ==> final(self)@ == old(self)@.after_map(
                vaddr,
                paddr,
                pdflags,
                ptflags,
                old(pages)@.last(),
            ),
            r is Ok ==> final(pages)@ == if old(self)@.present(pdindex_of(vaddr) as int) {
                old(pages)@
            } else {
                old(pages)@.drop_last()
            },
    {
        let index = vaddr_to_pdindex(vaddr);
        let ptindex = vaddr_to_ptindex(vaddr);
        let ghost before = self@;
        match self.get_pagetable(index) {
            None => {
                match pages.alloc_page() {
                    None => {
                        return Err(Errno::ENOMEM);
                    },
                    Some(paget) => {
                        let mut entries = zeroed_table();
                        entries[ptindex] = paddr | ptflags;
                        self.pd_physical[index] = paget | pdflags;
                        self.pd_virtual[index] = Some(PageTable { page: paget, entries });
                        proof {
                            lemma_entry_bits(paget, pdflags);
                        }
                    },
                }
            },
            Some(_) => {
                proof {
                    lemma_entry_bits(self.pd_physical[index as int], pdflags);
                }
                self.pd_physical[index] = self.pd_physical[index] | pdflags;
                match &mut self.pd_virtual[index] {
                    Some(t) => {
                        t.entries[ptindex] = paddr | ptflags;
                    },
                    None => unreached(),
                }
            },
        }
        proof {
            let after = before.after_map(vaddr, paddr, pdflags, ptflags, old(pages)@.last());
            assert(self@.directory =~= after.directory);
            assert(self@.tables =~~= after.tables);
            assert forall|i: int| 0 <= i < ENTRY_COUNT && #[trigger] self@.present(i) implies self@.table_ok(
                i,
            ) by {
                if i != index {
                    assert(before.present(i));
                }
            }
        }
        Ok(())
    }

    /// Clears the leaf entry of the page at `vaddr`, if its slot is present.
    /// No second-level table is released.
    pub fn unmap(&mut self, vaddr: usize)
        requires
            old(self).wf(),
            page::is_aligned(vaddr),
            user::MEM_LOW <= vaddr <= user::MEM_HIGH,
        ensures
            final(self).wf(),
            final(self)@ == old(self)@.after_unmap(vaddr),
    {
        let index = vaddr_to_pdindex(vaddr);
        let ptindex = vaddr_to_ptindex(vaddr);
        let ghost before = self@;
        if self.get_pagetable(index).is_some() {
            match &mut self.pd_virtual[index] {
                Some(t) => {
                    t.entries[ptindex] = 0;
                },
                None => unreached(),
            }
        }
        proof {
            assert(self@.directory =~= before.after_unmap(vaddr).directory);
            assert(self@.tables =~~= before.after_unmap(vaddr).tables);
            assert forall|i: int| 0 <= i < ENTRY_COUNT && #[trigger] self@.present(i) implies self@.table_ok(
                i,
            ) by {
                assert(before.present(i));
            }
        }
    }

    /// Clears the leaf entries `from..to` of slot `i`, if the slot is present.
    fn clear_entries(&mut self, i: usize, from: usize, to: usize)
        requires
            old(self).wf(),
            i < ENTRY_COUNT,
            from <= to <= ENTRY_COUNT,
        ensures
            final(self).wf(),
            final(self)@.directory == old(self)@.directory,
            final(self)@.tables == old(self)@.tables.update(
                i as int,
                if old(self)@.present(i as int) {
                    Some(
                        TableView {
                            page: old(self)@.tables[i as int]->0.page,
                            entries: Seq::new(
                                ENTRY_COUNT as nat,
                                |j: int|
                                    if from <= j < to {
                                        0
                                    } else {
                                        old(self)@.leaf(i as int, j)
                                    },
                            ),
                        },
                    )
                } else {
                    old(self)@.tables[i as int]
                },
            ),
    {
        let ghost before = self@;
        if self.get_pagetable(i).is_some() {
            match &mut self.pd_virtual[i] {
                Some(t) => {
                    zero_entries(&mut t.entries, from, to);
                },
                None => unreached(),
            }
        }
        proof {
            assert(self@.directory =~= before.directory);
            assert(self@.tables =~~= before.tables.update(
                i as int,
                if before.present(i as int) {
                    Some(
                        TableView {
                            page: before.tables[i as int]->0.page,
                            entries: Seq::new(
                                ENTRY_COUNT as nat,
                                |j: int|
                                    if from <= j < to {
                                        0
                                    } else {
                                        before.leaf(i as int, j)
                                    },
                            ),
                        },
                    )
                } else {
                    before.tables[i as int]
                },
            ));
            assert forall|k: int| 0 <= k < ENTRY_COUNT && #[trigger] self@.present(k) implies self@.table_ok(
                k,
            ) by {
                assert(before.present(k));
            }
        }
    }

    /// Unmaps every page of `[low, high)`.
    ///
    /// The second-level tables that the range covers are released to `pages`,
    /// lowest slot first. In a table that the range covers in part, only the
    /// leaf entries of the pages in the range are cleared.
    pub fn unmap_range(&mut self, pages: &mut PageAllocator, low: usize, high: usize)
        requires
            old(self).wf(),
            old(pages).wf(),
            low < high,
            page::is_aligned(low),
            page::is_aligned(high),
            user::MEM_LOW <= low,
            high <= user::MEM_HIGH,
        ensures
            final(self).wf(),
            final(pages).wf(),
            final(self)@ == old(self)@.after_unmap_range(low, high),
            final(pages)@ == old(pages)@ + old(self)@.frames_in(
                first_whole_slot(low),
                pdindex_of(high) as int,
            ),
    {
        let ghost before = self@;
        let low_slot = vaddr_to_pdindex(low);
        let low_index = vaddr_to_ptindex(low);
        let high_slot = vaddr_to_pdindex(high);
        let high_index = vaddr_to_ptindex(high);
        proof {
            lemma_vaddr_split(low);
            lemma_vaddr_split(high);
        }
        let mut first = low_slot;
        if low_index != 0 {
            first = low_slot + 1;
        }
        if low_slot == high_slot {
            self.clear_entries(low_slot, low_index, high_index);
        } else {
            if low_index != 0 {
                self.clear_entries(low_slot, low_index, ENTRY_COUNT);
            }
            let ghost below = self@;
            if high_index != 0 {
                self.clear_entries(high_slot, 0, high_index);
            }
            assert(below.tables[high_slot as int] == before.tables[high_slot as int]);
        }
        let ghost trimmed = self@;
        proof {
            assert(first == first_whole_slot(low));
            assert forall|i: int| 0 <= i < ENTRY_COUNT && !before.released_by(
                low,
                high,
                i,
            ) implies #[trigger] trimmed.tables[i] == (if before.present(i) {
                Some(cleared(before.tables[i]->0, i, low, high))
            } else {
                before.tables[i]
            }) by {
                if before.present(i) {
                    assert(before.table_ok(i));
                    assert(trimmed.tables[i] is Some);
                    assert(trimmed.tables[i]->0.entries =~= cleared(
                        before.tables[i]->0,
                        i,
                        low,
                        high,
                    ).entries);
                }
            }
            assert forall|k: int| first <= k < high_slot && before.present(k) implies (
            #[trigger] trimmed.tables[k]) is Some && trimmed.tables[k]->0.page
                == before.tables[k]->0.page by {
                assert(before.table_ok(k));
            }
        }
        let mut i = first;
        while i < high_slot
            invariant
                first <= i,
                i <= high_slot || i == first,
                high_slot < ENTRY_COUNT,
                self.wf(),
                pages.wf(),
                before.wf(),
                trimmed.wf(),
                trimmed.directory == before.directory,
                forall|k: int|
                    0 <= k < ENTRY_COUNT ==> #[trigger] self@.directory[k] == if first <= k < i
                        && before.present(k) {
                        0
                    } else {
                        before.directory[k]
                    },
                forall|k: int|
                    0 <= k < ENTRY_COUNT ==> #[trigger] self@.tables[k] == if first <= k < i
                        && before.present(k) {
                        None
                    } else {
                        trimmed.tables[k]
                    },
                forall|k: int|
                    first <= k < high_slot && before.present(k) ==> (#[trigger] trimmed.tables[k])
                        is Some && trimmed.tables[k]->0.page == before.tables[k]->0.page,
                pages@ == old(pages)@ + before.frames_in(first as int, i as int),
            decreases high_slot - i,
        {
            let ghost current = self@;
            assert(current.directory[i as int] == before.directory[i as int]);
            assert(current.tables[i as int] == trimmed.tables[i as int]);
            match self.get_pagetable(i) {
                Some(page) => {
                    assert(before.present(i as int));
                    assert(page == before.tables[i as int]->0.page);
                    pages.free_page(page);
                    self.delete_page(i);
                    proof {
                        lemma_entry_bits(0, 0);
                        assert(before.frames_in(first as int, i + 1) == before.frames_in(
                            first as int,
                            i as int,
                        ).push(page));
                        assert(pages@ =~= old(pages)@ + before.frames_in(first as int, i + 1));
                    }
                },
                None => {
                    assert(!before.present(i as int));
                    assert(before.frames_in(first as int, i + 1) == before.frames_in(
                        first as int,
                        i as int,
                    ));
                },
            }
            i += 1;
        }
        proof {
            let after = before.after_unmap_range(low, high);
            if high_slot <= first {
                assert(before.frames_in(first as int, i as int) == Seq::<usize>::empty());
                assert(before.frames_in(first as int, high_slot as int) == Seq::<usize>::empty());
            }
            assert forall|k: int| 0 <= k < ENTRY_COUNT implies before.released_by(low, high, k) == (
            first <= k < high_slot && before.present(k)) by {}
            assert forall|k: int| 0 <= k < ENTRY_COUNT implies self@.directory[k]
                == after.directory[k] by {}
            assert forall|k: int| 0 <= k < ENTRY_COUNT implies self@.tables[k] == after.tables[k] by {
                if before.present(k) {
                    assert(before.table_ok(k));
                }
            }
            assert(self@.directory =~= after.directory);
            assert(self@.tables =~= after.tables);
        }
    }

    /// Takes the physical page `frame` out of the directory: clears every
    /// leaf entry that maps a page of the user window to it.
    pub fn unmap_frame(&mut self, frame: usize)
        requires
            old(self).wf(),
        ensures
            final(self).wf(),
            final(self)@ == old(self)@.without_frame(frame),
    {
        let ghost before = self@;
        let begin = user::MEM_LOW / VADDR_SIZE;
        let end = user::MEM_HIGH / VADDR_SIZE;
        let last = vaddr_to_ptindex(user::MEM_HIGH);
        let mut i = begin;
        while i <= end
            invariant
                begin == pdindex_of(user::MEM_LOW),
                end == pdindex_of(user::MEM_HIGH),
                last == ptindex_of(user::MEM_HIGH),
                begin <= i <= end + 1,
                before.wf(),
                self.wf(),
                self@.directory == before.directory,
                forall|k: int|
                    0 <= k < ENTRY_COUNT ==> #[trigger] self@.tables[k] == if begin <= k < i
                        && before.present(k) {
                        Some(unmapped_from(before.tables[k]->0, k, frame))
                    } else {
                        before.tables[k]
                    },
            decreases end + 1 - i,
        {
            let ghost current = self@;
            let to = if i == end {
                last + 1
            } else {
                ENTRY_COUNT
            };
            if self.get_pagetable(i).is_some() {
                assert(before.present(i as int));
                assert(before.table_ok(i as int));
                assert(current.tables[i as int] == before.tables[i as int]);
                match &mut self.pd_virtual[i] {
                    Some(t) => {
                        zero_frame(&mut t.entries, frame, to);
                    },
                    None => unreached(),
                }
                proof {
                    assert(self@.directory =~= before.directory);
                    assert(self@.tables[i as int]->0.entries =~= unmapped_from(
                        before.tables[i as int]->0,
                        i as int,
                        frame,
                    ).entries);
                    assert forall|k: int| 0 <= k < ENTRY_COUNT implies #[trigger] self@.tables[k]
                        == if begin <= k < i + 1 && before.present(k) {
                        Some(unmapped_from(before.tables[k]->0, k, frame))
                    } else {
                        before.tables[k]
                    } by {
                        if k != i {
                            assert(self@.tables[k] == current.tables[k]);
                        }
                    }
                    assert forall|k: int|
                        0 <= k < ENTRY_COUNT && #[trigger] self@.present(k) implies self@.table_ok(
                        k,
                    ) by {
                        assert(before.present(k));
                        assert(before.table_ok(k));
                    }
                }
            } else {
                assert(!before.present(i as int));
            }
            i += 1;
        }
        proof {
            let after = before.without_frame(frame);
            assert forall|k: int| 0 <= k < ENTRY_COUNT implies self@.tables[k] == after.tables[k] by {
                if before.present(k) {
                    assert(before.table_ok(k));
                    if !(begin <= k < i) {
                        assert(unmapped_from(before.tables[k]->0, k, frame).entries
                            =~= before.tables[k]->0.entries);
                    }
                }
            }
            assert(self@.tables =~= after.tables);
        }
    }

    /// The leaf entry of the page at `vaddr`, if its slot is present.
    pub fn leaf_entry(&self, vaddr: usize) -> (r: Option<usize>)
        requires
            self.wf(),
        ensures
            r == if pdindex_of(vaddr) < ENTRY_COUNT && self@.present(pdindex_of(vaddr) as int) {
                Some(self@.leaf(pdindex_of(vaddr) as int, ptindex_of(vaddr) as int))
            } else {
                None
            },
    {
        let table = vaddr_to_pdindex(vaddr);
        let entry = vaddr_to_ptindex(vaddr);
        if table >= ENTRY_COUNT {
            return None;
        }
        if self.get_pagetable(table).is_none() {
            return None;
        }
        assert(self@.table_ok(table as int));
        match &self.pd_virtual[table] {
            Some(t) => Some(t.entries[entry]),
            None => unreached(),
        }
    }

    /// The physical address that `vaddr` translates to, if it is mapped.
    pub fn translate(&self, vaddr: usize) -> (r: Option<usize>)
        requires
            self.wf(),
        ensures
            r == self@.translate(vaddr),
    {
        match self.leaf_entry(vaddr) {
            Some(leaf) => {
                let frame = leaf & page::MASK;
                if frame != 0 {
                    proof {
                        page::lemma_page_bits(leaf);
                    }
                    Some(frame + vaddr_to_offset(vaddr))
                } else {
                    None
                }
            },
            None => None,
        }
    }

    /// Translates a mapped virtual address to its physical address.
    pub fn virt_to_phys(&self, vaddr: usize) -> (r: usize)
        requires
            self.wf(),
            self@.translate(vaddr) is Some,
        ensures
            Some(r) == self@.translate(vaddr),
    {
        let table = vaddr_to_pdindex(vaddr);
        let entry = vaddr_to_ptindex(vaddr);
        let offset = vaddr_to_offset(vaddr);
        assert(self@.present(table as int));
        match &self.pd_virtual[table] {
            Some(t) => {
                let leaf = t.entries[entry];
                proof {
                    page::lemma_page_bits(leaf);
                }
                (leaf & page::MASK) + offset
            },
            None => unreached(),
        }
    }
}

/// First stage of start-up: the template from which every directory is
/// copied. Nothing is mapped in it.
pub fn init_stage1() -> (template: PageDir)
    ensures
        template.wf(),
        template@ == PageDir::empty_view(),
{
    PageDir::empty()
}

/// Second stage of start-up: nothing is left to do.
pub fn init_stage2(template: &mut PageDir)
    ensures
        final(template)@ == old(template)@,
{
}

} // verus!
