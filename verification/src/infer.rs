//! The integer side of autoregressive sampling: which ids the model sees.
use vstd::prelude::*;

verus! {

/// Where the context of `n_ids` ids starts: the last `context_length` ids,
/// or all of them when there are fewer.
pub open spec fn context_start(n_ids: int, context_length: int) -> int {
    if n_ids > context_length {
        n_ids - context_length
    } else {
        0
    }
}

/// The ids fed to the model at the next sampling step: the last
/// `context_length` of `ids`, or all of them when there are fewer.
pub fn context_window(ids: &[i32], context_length: usize) -> (window: &[i32])
    requires
        context_length <= isize::MAX,
    ensures
        window@ == ids@.subrange(context_start(ids@.len() as int, context_length as int), ids@.len() as int),
{
    let n = ids.len();
    let start = if n > context_length {
        n - context_length
    } else {
        0
    };
    vstd::slice::slice_subrange(ids, start, n)
}

/// The context never holds more than `context_length` ids, and it ends
/// with the newest id.
pub proof fn law_context_is_recent_suffix(ids: Seq<i32>, context_length: nat)
    ensures
        ({
            let w = ids.subrange(context_start(ids.len() as int, context_length as int), ids.len() as int);
            &&& w.len() <= context_length
            &&& w.len() == ids.len() || w.len() == context_length
            &&& ids.len() > 0 && context_length > 0 ==> w.last() == ids.last()
        }),
{
}

} // verus!
