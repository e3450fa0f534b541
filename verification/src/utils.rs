//! Memory utilities.

use vstd::prelude::*;

verus! {

/// The bytes of `mem` after the `n` bytes at `src` have been copied to `dest`.
pub open spec fn moved(mem: Seq<u8>, dest: int, src: int, n: int) -> Seq<u8> {
    Seq::new(
        mem.len(),
        |i: int|
            if dest <= i < dest + n {
                mem[i - dest + src]
            } else {
                mem[i]
            },
    )
}

/// Copies the `n` bytes that start at `src` to `dest`, within the memory
/// `mem`, and returns `dest`. The two regions may overlap: the copy runs from
/// the end where the source lies below the destination, and from the start
/// otherwise, so that no byte is overwritten before it has been read.
pub fn memmove(mem: &mut Vec<u8>, dest: usize, src: usize, n: usize) -> (r: usize)
    requires
        dest + n <= old(mem).len(),
        src + n <= old(mem).len(),
    ensures
        r == dest,
        final(mem)@ == moved(old(mem)@, dest as int, src as int, n as int),
{
    if src < dest {
        let mut i = n;
        while i != 0
            invariant
                src < dest,
                i <= n,
                mem.len() == old(mem).len(),
                dest + n <= mem.len(),
                forall|k: int|
                    0 <= k < mem.len() ==> mem[k] == if dest + i <= k < dest + n {
                        old(mem)[k - dest + src]
                    } else {
                        old(mem)[k]
                    },
            decreases i,
        {
            i -= 1;
            let byte = mem[src + i];
            mem[dest + i] = byte;
        }
    } else {
        let mut i: usize = 0;
        while i < n
            invariant
                dest <= src,
                i <= n,
                mem.len() == old(mem).len(),
                src + n <= mem.len(),
                forall|k: int|
                    0 <= k < mem.len() ==> mem[k] == if dest <= k < dest + i {
                        old(mem)[k - dest + src]
                    } else {
                        old(mem)[k]
                    },
            decreases n - i,
        {
            let byte = mem[src + i];
            mem[dest + i] = byte;
            i += 1;
        }
    }
    assert(mem@ =~= moved(old(mem)@, dest as int, src as int, n as int));
    dest
}

} // verus!
