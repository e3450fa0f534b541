//! What holds of the page-table operations taken together.

use crate::page;
use crate::pagetable::{
    first_whole_slot, in_user_window, lemma_entry_bits, lemma_vaddr_join, lemma_vaddr_split, offset_of, pdindex_of,
    ptindex_of, vaddr_of, PageDirView, ENTRY_COUNT, PRESENT,
};
use crate::user;
use vstd::prelude::*;

verus! {

/// After a page has been mapped with a directory flag set that includes
/// `PRESENT`, every address of that page translates to the same offset in the
/// physical page it was mapped to.
pub proof fn lemma_map_then_translate(
    pd: PageDirView,
    vaddr: usize,
    paddr: usize,
    pdflags: usize,
    ptflags: usize,
    fresh: usize,
    off: usize,
)
    requires
        pd.wf(),
        page::is_aligned(vaddr),
        user::MEM_LOW <= vaddr <= user::MEM_HIGH,
        pdflags < page::SIZE,
        pdflags & PRESENT != 0,
        page::is_page(paddr),
        ptflags < page::SIZE,
        off < page::SIZE,
    ensures
        pd.after_map(vaddr, paddr, pdflags, ptflags, fresh).translate((vaddr + off) as usize)
            == Some((paddr + off) as usize),
{
    let i = pdindex_of(vaddr) as int;
    let j = ptindex_of(vaddr) as int;
    let after = pd.after_map(vaddr, paddr, pdflags, ptflags, fresh);
    lemma_vaddr_split(vaddr);
    lemma_vaddr_join(i, j, off as int);
    lemma_entry_bits(paddr, ptflags);
    lemma_present_bit(pd.directory[i], fresh, pdflags);
    if pd.present(i) {
        assert(pd.table_ok(i));
    }
    assert(after.present(i));
    assert(after.leaf(i, j) == paddr | ptflags);
}

/// Setting `PRESENT` among the flags of an entry marks the entry present.
proof fn lemma_present_bit(entry: usize, frame: usize, flags: usize)
    requires
        flags & PRESENT != 0,
    ensures
        (entry | flags) & PRESENT != 0,
        (frame | flags) & PRESENT != 0,
{
    assert(flags & PRESENT != 0 ==> (entry | flags) & PRESENT != 0 && (frame | flags) & PRESENT
        != 0) by (bit_vector);
}

/// Mapping a page leaves the translation of every address of every other
/// page as it was.
pub proof fn lemma_map_keeps_other_pages(
    pd: PageDirView,
    vaddr: usize,
    paddr: usize,
    pdflags: usize,
    ptflags: usize,
    fresh: usize,
    other: usize,
)
    requires
        pd.wf(),
        page::is_aligned(vaddr),
        user::MEM_LOW <= vaddr <= user::MEM_HIGH,
        pdflags < page::SIZE,
        other / page::SIZE != vaddr / page::SIZE,
    ensures
        pd.after_map(vaddr, paddr, pdflags, ptflags, fresh).translate(other) == pd.translate(other),
{
    let i = pdindex_of(vaddr) as int;
    let j = ptindex_of(vaddr) as int;
    let after = pd.after_map(vaddr, paddr, pdflags, ptflags, fresh);
    let oi = pdindex_of(other) as int;
    let oj = ptindex_of(other) as int;
    lemma_vaddr_split(vaddr);
    lemma_vaddr_split(other);
    lemma_entry_bits(pd.directory[i], pdflags);
    lemma_entry_bits(0, 0);
    if oi == i {
        assert(oj != j);
        if pd.present(i) {
            assert(pd.table_ok(i));
            assert(after.leaf(oi, oj) == pd.leaf(oi, oj));
        } else {
            assert(after.leaf(oi, oj) == 0);
        }
    } else if oi < ENTRY_COUNT {
        assert(after.directory[oi] == pd.directory[oi]);
        assert(after.tables[oi] == pd.tables[oi]);
    }
}

/// Unmapping a page does not change which slots are present, so a later
/// mapping of the same page succeeds wherever its slot is present or the pool
/// has a page left, and the mapping that results is the one that results
/// without the unmapping.
pub proof fn lemma_unmap_then_map(
    pd: PageDirView,
    vaddr: usize,
    paddr: usize,
    pdflags: usize,
    ptflags: usize,
    fresh: usize,
    free_pages: nat,
)
    requires
        pd.wf(),
        page::is_aligned(vaddr),
        user::MEM_LOW <= vaddr <= user::MEM_HIGH,
        pd.can_map(vaddr, free_pages),
    ensures
        pd.after_unmap(vaddr).wf(),
        pd.after_unmap(vaddr).can_map(vaddr, free_pages),
        pd.after_unmap(vaddr).after_map(vaddr, paddr, pdflags, ptflags, fresh) == pd.after_map(
            vaddr,
            paddr,
            pdflags,
            ptflags,
            fresh,
        ),
{
    let i = pdindex_of(vaddr) as int;
    let j = ptindex_of(vaddr) as int;
    let cleared = pd.after_unmap(vaddr);
    lemma_vaddr_split(vaddr);
    assert forall|k: int| 0 <= k < ENTRY_COUNT && #[trigger] cleared.present(k) implies cleared.table_ok(
        k,
    ) by {
        assert(pd.present(k));
    }
    if pd.present(i) {
        assert(pd.table_ok(i));
        let a = cleared.after_map(vaddr, paddr, pdflags, ptflags, fresh);
        let b = pd.after_map(vaddr, paddr, pdflags, ptflags, fresh);
        assert(a.tables[i]->0.entries =~= b.tables[i]->0.entries);
        assert(a.tables =~= b.tables);
    }
}

/// Unmapping a page whose slot is not present changes nothing.
pub proof fn lemma_unmap_absent(pd: PageDirView, vaddr: usize)
    requires
        !pd.present(pdindex_of(vaddr) as int),
    ensures
        pd.after_unmap(vaddr) == pd,
{
}

/// After a page has been unmapped none of its addresses translates, and
/// every other address translates as before.
pub proof fn lemma_unmap_translate(pd: PageDirView, vaddr: usize, other: usize)
    requires
        pd.wf(),
        page::is_aligned(vaddr),
        user::MEM_LOW <= vaddr <= user::MEM_HIGH,
    ensures
        pd.after_unmap(vaddr).translate(other) == if other / page::SIZE == vaddr / page::SIZE {
            None
        } else {
            pd.translate(other)
        },
{
    let i = pdindex_of(vaddr) as int;
    let j = ptindex_of(vaddr) as int;
    let oi = pdindex_of(other) as int;
    let oj = ptindex_of(other) as int;
    lemma_vaddr_split(vaddr);
    lemma_vaddr_split(other);
    lemma_entry_bits(0, 0);
    if pd.present(i) {
        assert(pd.table_ok(i));
    }
}

/// After a range has been unmapped no address in it translates, and every
/// address outside it translates as before.
pub proof fn lemma_unmap_range_translate(pd: PageDirView, low: usize, high: usize, other: usize)
    requires
        pd.wf(),
        low < high,
        page::is_aligned(low),
        page::is_aligned(high),
        user::MEM_LOW <= low,
        high <= user::MEM_HIGH,
    ensures
        pd.after_unmap_range(low, high).translate(other) == if low <= other < high {
            None
        } else {
            pd.translate(other)
        },
{
    let after = pd.after_unmap_range(low, high);
    let oi = pdindex_of(other) as int;
    let oj = ptindex_of(other) as int;
    lemma_vaddr_split(other);
    lemma_entry_bits(0, 0);
    if oi < ENTRY_COUNT {
        if pd.present(oi) {
            assert(pd.table_ok(oi));
        }
        assert(low <= vaddr_of(oi, oj) < high <==> low <= other < high);
    }
}

/// Unmapping a range releases the table of a present slot exactly where the
/// slot lies between the first slot that begins in the range and the slot that
/// holds the end of the range.
pub proof fn lemma_unmap_range_released(pd: PageDirView, low: usize, high: usize, i: int)
    requires
        0 <= i < ENTRY_COUNT,
        low < high,
    ensures
        pd.released_by(low, high, i) <==> pd.present(i) && first_whole_slot(low) <= i < pdindex_of(
            high,
        ),
{
}

/// After a physical page has been taken out of a directory, no address of
/// the user window translates into it, and every other address translates as
/// before.
pub proof fn lemma_unmap_frame_translate(pd: PageDirView, frame: usize, other: usize)
    requires
        pd.wf(),
    ensures
        pd.without_frame(frame).translate(other) == if user::MEM_LOW <= other < user::MEM_HIGH
            + page::SIZE && pd.translate(other) is Some && pd.translate(other)->0 - pd.translate(
            other,
        )->0 % page::SIZE == frame {
            None
        } else {
            pd.translate(other)
        },
{
    let after = pd.without_frame(frame);
    let oi = pdindex_of(other) as int;
    let oj = ptindex_of(other) as int;
    lemma_vaddr_split(other);
    lemma_entry_bits(0, 0);
    if oi < ENTRY_COUNT && pd.present(oi) {
        assert(pd.table_ok(oi));
        page::lemma_page_bits(pd.leaf(oi, oj));
        assert(in_user_window(oi, oj) <==> user::MEM_LOW <= other < user::MEM_HIGH + page::SIZE);
    }
}

/// Whether some present slot in `[from, to)` has its table on `page`.
pub open spec fn holds_table_on(pd: PageDirView, from: int, to: int, page: usize) -> bool {
    exists|i: int| from <= i < to && pd.present(i) && #[trigger] pd.tables[i]->0.page == page
}

/// The pages that a sweep over the slots `[from, to)` releases are the pages
/// of the tables of the present slots in `[from, to)`: each of them, and no
/// other page.
pub proof fn lemma_frames_in(pd: PageDirView, from: int, to: int)
    ensures
        forall|page: usize| #[trigger]
            pd.frames_in(from, to).contains(page) <==> holds_table_on(pd, from, to, page),
    decreases to - from,
{
    let all = pd.frames_in(from, to);
    if to > from {
        lemma_frames_in(pd, from, to - 1);
        let rest = pd.frames_in(from, to - 1);
        assert forall|page: usize| #[trigger] all.contains(page) <==> holds_table_on(
            pd,
            from,
            to,
            page,
        ) by {
            if pd.present(to - 1) {
                let last = pd.tables[to - 1]->0.page;
                assert(all == rest.push(last));
                assert(all[all.len() - 1] == last);
            } else {
                assert(all == rest);
            }
            if all.contains(page) {
                let n = choose|n: int| 0 <= n < all.len() && all[n] == page;
                if n < rest.len() {
                    assert(rest[n] == page);
                    assert(rest.contains(page));
                    assert(holds_table_on(pd, from, to - 1, page));
                    let i = choose|i: int|
                        from <= i < to - 1 && pd.present(i) && #[trigger] pd.tables[i]->0.page
                            == page;
                    assert(pd.tables[i]->0.page == page);
                } else {
                    assert(pd.tables[to - 1]->0.page == page);
                }
            }
            if holds_table_on(pd, from, to, page) {
                let i = choose|i: int|
                    from <= i < to && pd.present(i) && #[trigger] pd.tables[i]->0.page == page;
                if i < to - 1 {
                    assert(holds_table_on(pd, from, to - 1, page));
                    assert(rest.contains(page));
                    let n = choose|n: int| 0 <= n < rest.len() && rest[n] == page;
                    assert(all[n] == page);
                } else {
                    assert(all[all.len() - 1] == page);
                }
            }
        }
    } else {
        assert(all.len() == 0);
    }
}

} // verus!
