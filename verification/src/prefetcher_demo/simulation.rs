//! The simulated client of the demo, which reads blocks at a fixed stride.

use vstd::prelude::*;
use vstd::arithmetic::div_mod::lemma_fundamental_div_mod;
use vstd::arithmetic::div_mod::lemma_fundamental_div_mod_converse_mod;

verus! {

/// The number of blocks of the demo's disk.
pub const N_BLOCKS: usize = 1024;

/// The block that the client reads in its `i`-th round with stride `stride`: the `i`-th
/// multiple of the stride, wrapped around the disk (a negative offset wraps from the end of the
/// disk, as its two's-complement value does).
pub fn simulated_read_block(i: isize, stride: isize) -> (r: usize)
    requires
        isize::MIN <= i * stride <= isize::MAX,
    ensures
        r == (i * stride) % (N_BLOCKS as int),
        r < N_BLOCKS,
{
    let offset = i * stride;
    if offset >= 0 {
        (offset as usize) % N_BLOCKS
    } else {
        let p: usize = (-(offset + 1)) as usize;
        let q: usize = p % N_BLOCKS;
        proof {
            let n = N_BLOCKS as int;
            lemma_fundamental_div_mod(p as int, n);
            let k = -(p as int / n) - 1;
            assert(offset == n * k + (n - 1 - q)) by (nonlinear_arith)
                requires
                    offset == -(p as int) - 1,
                    p as int == n * (p as int / n) + q,
                    k == -(p as int / n) - 1,
            ;
            lemma_fundamental_div_mod_converse_mod(offset as int, n, k, n - 1 - q);
        }
        N_BLOCKS - 1 - q
    }
}

} // verus!
