use semcache::cache::ranking::{find_nearest_ids, SearchResult};
use semcache::cache::semantic_store::flat_index_memory_usage_bytes;
use semcache::cache::similarity::Similarity;

fn sim(x: f32) -> Similarity {
    Similarity::from_bits(x.to_bits())
}

fn result(distances: &[f32], labels: &[Option<u64>]) -> SearchResult {
    SearchResult {
        distances: distances.iter().map(|d| sim(*d)).collect(),
        labels: labels.to_vec(),
    }
}

#[test]
fn nearest_ids_come_most_similar_first() {
    let found = find_nearest_ids(
        result(&[0.95, 1.0, 0.97], &[Some(1), Some(2), Some(3)]),
        sim(0.8),
    );
    assert_eq!(found, vec![2, 3, 1]);
}

#[test]
fn nearest_ids_drop_hits_below_threshold() {
    let found = find_nearest_ids(
        result(&[0.79, 0.8, -0.5, 0.81], &[Some(1), Some(2), Some(3), Some(4)]),
        sim(0.8),
    );
    assert_eq!(found, vec![4, 2]);
}

#[test]
fn nearest_ids_drop_hits_that_are_not_finite() {
    let found = find_nearest_ids(
        result(
            &[f32::NAN, f32::INFINITY, f32::NEG_INFINITY, 0.5],
            &[Some(1), Some(2), Some(3), Some(4)],
        ),
        sim(-1.0),
    );
    assert_eq!(found, vec![4]);
}

#[test]
fn nearest_ids_drop_hits_without_a_label() {
    let found = find_nearest_ids(result(&[0.9, 0.95], &[None, Some(7)]), sim(0.0));
    assert_eq!(found, vec![7]);
}

#[test]
fn nearest_ids_keep_the_order_of_ties() {
    let found = find_nearest_ids(
        result(&[0.5, 0.9, 0.5, 0.9, 0.5], &[Some(10), Some(20), Some(30), Some(40), Some(50)]),
        sim(0.0),
    );
    assert_eq!(found, vec![20, 40, 10, 30, 50]);
}

#[test]
fn nearest_ids_treat_both_zeros_alike() {
    let found = find_nearest_ids(result(&[-0.0, 0.0, -0.0], &[Some(1), Some(2), Some(3)]), sim(0.0));
    assert_eq!(found, vec![1, 2, 3]);
}

#[test]
fn nearest_ids_of_an_empty_search_are_empty() {
    let found = find_nearest_ids(result(&[], &[]), sim(0.0));
    assert_eq!(found, Vec::<u64>::new());
}

#[test]
fn nearest_ids_stop_at_the_shorter_list() {
    let found = find_nearest_ids(result(&[0.9, 0.8, 0.7], &[Some(1), Some(2)]), sim(0.0));
    assert_eq!(found, vec![1, 2]);
}

#[test]
fn nearest_ids_under_a_threshold_that_is_no_number_are_empty() {
    let found = find_nearest_ids(result(&[0.9, 1.0], &[Some(1), Some(2)]), sim(f32::NAN));
    assert_eq!(found, Vec::<u64>::new());
}

#[test]
fn similarity_orders_as_the_numbers_do() {
    let samples = [
        f32::NEG_INFINITY,
        -3.5,
        -1.0,
        -1.0e-40,
        -0.0,
        0.0,
        1.0e-40,
        0.5,
        0.99,
        1.0,
        2.0,
        f32::MAX,
        f32::INFINITY,
        f32::NAN,
    ];
    for a in samples {
        for b in samples {
            assert_eq!(sim(a).ge(sim(b)), a >= b, "{a} >= {b}");
        }
        assert_eq!(sim(a).finite(), a.is_finite(), "{a}");
        assert_eq!(sim(a).number(), !a.is_nan(), "{a}");
        assert_eq!(sim(a).is_valid_threshold(), (0.0..=1.0).contains(&a), "{a}");
    }
}

#[test]
fn similarity_keeps_its_bits() {
    assert_eq!(sim(0.9).to_bits(), 0.9f32.to_bits());
    assert_eq!(Similarity::exact_match().to_bits(), 0.99f32.to_bits());
    assert_eq!(sim(-1.0).rank_value(), -(1.0f32.to_bits() as i64));
    assert_eq!(sim(1.0).rank_value(), 0x3F80_0000);
}

#[test]
fn flat_index_memory_is_a_fifth_over_the_raw_size() {
    assert_eq!(flat_index_memory_usage_bytes(0, 384), 0);
    assert_eq!(flat_index_memory_usage_bytes(1, 3), 15);
    assert_eq!(flat_index_memory_usage_bytes(10, 384), 18432);
    assert_eq!(flat_index_memory_usage_bytes(1, 1), 5);
    assert_eq!(flat_index_memory_usage_bytes(u64::MAX, u32::MAX), usize::MAX);
}
