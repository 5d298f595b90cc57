//! How much of the training corpus is read.
use vstd::prelude::*;

verus! {

/// The byte limit on the corpus: `n_mega_bytes` mebibytes (`n << 20`,
/// wrapping as a `u64` shift does), or no limit (`u64::MAX`) when none is
/// given.
pub fn corpus_byte_limit(n_mega_bytes: Option<u64>) -> (limit: u64)
    ensures
        limit == match n_mega_bytes {
            Some(mb) => ((mb as int * 0x10_0000) % 0x1_0000_0000_0000_0000) as u64,
            None => u64::MAX,
        },
{
    match n_mega_bytes {
        Some(mb) => {
            let limit = mb << 20u64;
            proof {
                assert(mb << 20u64 == ((mb as int * 0x10_0000) % 0x1_0000_0000_0000_0000) as u64)
                    by (bit_vector);
            }
            limit
        },
        None => u64::MAX,
    }
}

} // verus!
