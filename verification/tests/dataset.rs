use fuzaketa::dataset::{TokenBatcher, TokenWindowDataset};
use std::sync::Arc;

fn corpus(n: i32) -> Arc<[i32]> {
    (0..n).collect::<Vec<i32>>().into()
}

#[test]
fn window_start_is_splitmix_of_index_plus_seed() {
    let d = TokenWindowDataset::new(corpus(20), 4, 5, 7);
    let expected = [7usize, 6, 4, 10, 13];
    for (i, e) in expected.iter().enumerate() {
        assert_eq!(d.window_start(i), *e);
    }
}

#[test]
fn window_start_wraps_index_plus_seed() {
    let d = TokenWindowDataset::new(corpus(20), 4, 5, u64::MAX);
    assert_eq!(d.window_start(3), 14);
}

#[test]
fn get_past_the_end_is_none() {
    let d = TokenWindowDataset::new(corpus(20), 4, 5, 7);
    assert_eq!(d.len(), 5);
    assert!(d.get(5).is_none());
    assert!(d.get(usize::MAX).is_none());
}

#[test]
fn items_are_a_window_and_its_next_tokens() {
    let d = TokenWindowDataset::new(corpus(20), 4, 5, 7);
    let (x, y) = d.get(0).unwrap();
    assert_eq!(x, vec![7, 8, 9, 10]);
    assert_eq!(y, vec![8, 9, 10, 11]);
    for i in 0..5 {
        let (x, y) = d.get(i).unwrap();
        let s = d.window_start(i);
        assert_eq!(x.len(), 4);
        assert_eq!(y.len(), 4);
        assert!(s + 4 < 20);
        assert_eq!(x[0], s as i32);
        assert_eq!(&x[1..], &y[..3]);
    }
}

#[test]
fn smallest_corpus_has_one_window() {
    let d = TokenWindowDataset::new(corpus(3), 2, 4, 11);
    for i in 0..4 {
        assert_eq!(d.get(i), Some((vec![0, 1], vec![1, 2])));
    }
}

#[test]
fn clone_gives_the_same_items() {
    let d = TokenWindowDataset::new(corpus(50), 8, 10, 3);
    let c = d.clone();
    assert_eq!(c.len(), d.len());
    for i in 0..11 {
        assert_eq!(c.get(i), d.get(i));
    }
}

#[test]
fn batch_concatenates_rows() {
    let items = vec![(vec![1, 2, 3], vec![2, 3, 4]), (vec![7, 8, 9], vec![8, 9, 10])];
    let b = TokenBatcher.batch(items);
    assert_eq!(b.batch_size, 2);
    assert_eq!(b.context_length, 3);
    assert_eq!(b.xs, vec![1, 2, 3, 7, 8, 9]);
    assert_eq!(b.ys, vec![2, 3, 4, 8, 9, 10]);
}

#[test]
fn batch_of_nothing_is_empty() {
    let b = TokenBatcher::default().batch(Vec::new());
    assert_eq!(b.batch_size, 0);
    assert_eq!(b.context_length, 0);
    assert!(b.xs.is_empty());
    assert!(b.ys.is_empty());
}

#[test]
fn batch_of_dataset_items_is_rows_of_windows() {
    let d = TokenWindowDataset::new(corpus(40), 5, 6, 1);
    let items: Vec<_> = (0..6).map(|i| d.get(i).unwrap()).collect();
    let b = TokenBatcher.batch(items.clone());
    assert_eq!(b.xs.len(), 6 * 5);
    for (r, (x, y)) in items.iter().enumerate() {
        assert_eq!(&b.xs[r * 5..r * 5 + 5], &x[..]);
        assert_eq!(&b.ys[r * 5..r * 5 + 5], &y[..]);
    }
}
