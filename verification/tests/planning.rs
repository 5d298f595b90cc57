use fuzaketa::corpus::corpus_byte_limit;
use fuzaketa::infer::context_window;
use fuzaketa::model::head_dim;
use fuzaketa::training_plan;

#[test]
fn plan_splits_a_batch_into_micro_batches() {
    let p = training_plan(32, 8, 100, 128, 5);
    assert_eq!(p.micro_batch_size, 8);
    assert_eq!(p.grad_accumulation, 4);
    assert_eq!(p.epoch_size, 3200);
    assert_eq!(p.validation_batch_size, 8);
    assert_eq!(p.train_seed, 5);
    assert_eq!(p.validation_seed, 6);
}

#[test]
fn plan_rounds_accumulation_up() {
    let p = training_plan(10, 3, 2, 128, 0);
    assert_eq!(p.micro_batch_size, 3);
    assert_eq!(p.grad_accumulation, 4);
    assert_eq!(p.epoch_size, 20);
}

#[test]
fn plan_caps_micro_batch_at_batch() {
    let p = training_plan(16, 64, 100, 128, 0);
    assert_eq!(p.micro_batch_size, 16);
    assert_eq!(p.grad_accumulation, 1);
}

#[test]
fn plan_validation_batch_is_at_most_the_validation_set() {
    assert_eq!(training_plan(32, 32, 1, 5, 0).validation_batch_size, 5);
    assert_eq!(training_plan(32, 32, 1, 0, 0).validation_batch_size, 1);
}

#[test]
fn plan_validation_seed_wraps() {
    assert_eq!(training_plan(1, 1, 1, 1, u64::MAX).validation_seed, 0);
}

#[test]
fn plan_largest_batch_does_not_overflow() {
    let p = training_plan(usize::MAX, 2, 1, 1, 0);
    assert_eq!(p.grad_accumulation, usize::MAX / 2 + 1);
    assert_eq!(p.epoch_size, usize::MAX);
}

#[test]
fn context_keeps_the_last_ids() {
    let ids: Vec<i32> = (1..=10).collect();
    assert_eq!(context_window(&ids, 4), &[7, 8, 9, 10]);
    assert_eq!(context_window(&ids, 10), &ids[..]);
    assert_eq!(context_window(&ids, 64), &ids[..]);
    assert!(context_window(&ids, 0).is_empty());
    assert!(context_window(&[], 3).is_empty());
}

#[test]
fn head_width_splits_the_model_width() {
    assert_eq!(head_dim(64, 2), 32);
    assert_eq!(head_dim(768, 12), 64);
    assert_eq!(head_dim(0, 4), 0);
}

#[test]
fn corpus_limit_in_mebibytes() {
    assert_eq!(corpus_byte_limit(None), u64::MAX);
    assert_eq!(corpus_byte_limit(Some(3)), 3 << 20);
    assert_eq!(corpus_byte_limit(Some(0)), 0);
    assert_eq!(corpus_byte_limit(Some(1 << 50)), 0);
    assert_eq!(corpus_byte_limit(Some((1 << 44) + 1)), 1 << 20);
}
