//! The integer shape rules of the transformer.
use vstd::prelude::*;

verus! {

/// The width of one attention head: `d_model` split evenly over `n_heads`
/// heads. The model width must be divisible by the number of heads.
pub fn head_dim(d_model: usize, n_heads: usize) -> (d_k: usize)
    requires
        n_heads > 0,
        d_model % n_heads == 0,
    ensures
        d_k * n_heads == d_model,
        d_k == d_model / n_heads,
{
    let d_k = d_model / n_heads;
    proof {
        assert(d_k * n_heads == d_model) by (nonlinear_arith)
            requires
                n_heads > 0,
                d_model % n_heads == 0,
                d_k == d_model / n_heads,
        ;
    }
    d_k
}

} // verus!
