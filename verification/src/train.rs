//! The integer plan of a training run: batch splitting, epoch size and the
//! seeds of the two data loaders.
use vstd::prelude::*;

verus! {

/// The smaller of `a` and `b`.
pub open spec fn min_usize(a: usize, b: usize) -> usize {
    if a <= b {
        a
    } else {
        b
    }
}

/// `a / b` rounded up.
pub open spec fn ceil_div(a: int, b: int) -> int
    recommends
        b > 0,
{
    (a + b - 1) / b
}

/// How a training run splits its work.
pub struct TrainingPlan {
    /// Samples forwarded through the model at once (never more than a batch).
    pub micro_batch_size: usize,
    /// Micro-batches whose gradients are summed before each optimizer step.
    pub grad_accumulation: usize,
    /// Windows drawn from the training corpus per epoch.
    pub epoch_size: usize,
    /// Samples per validation batch.
    pub validation_batch_size: usize,
    /// Seed of the training windows and of the training loader's shuffle.
    pub train_seed: u64,
    /// Seed of the validation windows: the next seed after `train_seed`.
    pub validation_seed: u64,
}

/// Plans a training run: a micro-batch is at most a batch; enough
/// micro-batches are accumulated to cover a batch (`batch_size` divided by
/// the micro-batch size, rounded up); an epoch is `batches_per_step`
/// batches; a validation batch is a micro-batch, but no larger than the
/// validation set (taken as at least one sample); the validation windows
/// use the seed after `seed`, wrapping.
pub fn training_plan(
    batch_size: usize,
    micro_batch_size: usize,
    batches_per_step: usize,
    validation_size: usize,
    seed: u64,
) -> (plan: TrainingPlan)
    requires
        batch_size > 0,
        micro_batch_size > 0,
        batches_per_step * batch_size <= usize::MAX,
    ensures
        plan.micro_batch_size == min_usize(micro_batch_size, batch_size),
        plan.micro_batch_size <= micro_batch_size,
        plan.micro_batch_size <= batch_size,
        plan.micro_batch_size == micro_batch_size || plan.micro_batch_size == batch_size,
        (plan.grad_accumulation - 1) * plan.micro_batch_size < batch_size <= plan.grad_accumulation
            * plan.micro_batch_size,
        plan.grad_accumulation == ceil_div(batch_size as int, plan.micro_batch_size as int),
        plan.epoch_size == batches_per_step * batch_size,
        plan.validation_batch_size == min_usize(
            plan.micro_batch_size,
            if validation_size >= 1 {
                validation_size
            } else {
                1
            },
        ),
        plan.validation_batch_size <= plan.micro_batch_size,
        plan.validation_batch_size <= (if validation_size >= 1 {
            validation_size
        } else {
            1
        }),
        plan.validation_batch_size == plan.micro_batch_size || plan.validation_batch_size == (
        if validation_size >= 1 {
            validation_size
        } else {
            1
        }),
        plan.train_seed == seed,
        plan.validation_seed == (seed as int + 1) % 0x1_0000_0000_0000_0000,
{
    let micro = if micro_batch_size <= batch_size {
        micro_batch_size
    } else {
        batch_size
    };
    // Division rounded up, written so that it cannot overflow.
    proof {
        assert(batch_size % micro != 0 ==> batch_size / micro < batch_size) by (nonlinear_arith)
            requires
                micro >= 1,
                batch_size >= 1,
        ;
    }
    let grad_accumulation = batch_size / micro + if batch_size % micro != 0 {
        1
    } else {
        0
    };
    proof {
        lemma_ceil_div(batch_size as int, micro as int);
        law_micro_batches_cover_batch(batch_size, micro_batch_size);
    }
    let epoch_size = batches_per_step * batch_size;
    let validation_floor = if validation_size >= 1 {
        validation_size
    } else {
        1
    };
    let validation_batch_size = if micro <= validation_floor {
        micro
    } else {
        validation_floor
    };
    TrainingPlan {
        micro_batch_size: micro,
        grad_accumulation,
        epoch_size,
        validation_batch_size,
        train_seed: seed,
        validation_seed: seed.wrapping_add(1),
    }
}

/// Rounding up by quotient and remainder.
proof fn lemma_ceil_div(a: int, b: int)
    requires
        a >= 0,
        b > 0,
    ensures
        ceil_div(a, b) == a / b + if a % b != 0 {
            1int
        } else {
            0int
        },
{
    assert(ceil_div(a, b) == a / b + if a % b != 0 {
        1int
    } else {
        0int
    }) by (nonlinear_arith)
        requires
            a >= 0,
            b > 0,
    ;
}

/// `min_usize` is the minimum: no larger than either argument, and equal to
/// one of them.
pub proof fn law_min_usize(a: usize, b: usize)
    ensures
        min_usize(a, b) <= a,
        min_usize(a, b) <= b,
        min_usize(a, b) == a || min_usize(a, b) == b,
{
}

/// The micro-batch is the requested one unless that exceeds the batch, in
/// which case it is the whole batch; the accumulated micro-batches cover a
/// batch with less than one micro-batch to spare.
pub proof fn law_micro_batches_cover_batch(batch_size: usize, micro_batch_size: usize)
    requires
        batch_size > 0,
        micro_batch_size > 0,
    ensures
        ({
            let m = min_usize(micro_batch_size, batch_size) as int;
            let g = ceil_div(batch_size as int, m);
            &&& 1 <= m <= batch_size
            &&& m <= micro_batch_size
            &&& m == micro_batch_size || m == batch_size
            &&& micro_batch_size <= batch_size ==> m == micro_batch_size
            &&& g >= 1
            &&& (g - 1) * m < batch_size <= g * m
        }),
{
    let m = min_usize(micro_batch_size, batch_size) as int;
    let b = batch_size as int;
    let g = ceil_div(b, m);
    assert(g >= 1 && (g - 1) * m < b <= g * m) by (nonlinear_arith)
        requires
            m >= 1,
            b >= 1,
            g == (b + m - 1) / m,
    ;
}

/// The validation batch is the micro-batch, capped by the validation set
/// size (counted as at least one sample).
pub proof fn law_validation_batch(micro: usize, validation_size: usize)
    ensures
        ({
            let floor = if validation_size >= 1 {
                validation_size
            } else {
                1
            };
            let v = min_usize(micro, floor);
            &&& v <= micro
            &&& v <= floor
            &&& v == micro || v == floor
            &&& micro <= floor ==> v == micro
        }),
{
}

} // verus!
