use call_option_oracle::address::{Address, AddressKind};
use call_option_oracle::price_store::{Asset, PriceData, PriceStore, MAX_HISTORY};

fn stellar(n: u128) -> Asset {
    Asset::Stellar(Address::new(AddressKind::Contract, 3, n))
}

fn stamps(prices: &[PriceData]) -> Vec<u64> {
    prices.iter().map(|p| p.timestamp).collect()
}

#[test]
fn eleven_inserts_keep_the_last_ten() {
    let mut store = PriceStore::new();
    let asset = stellar(1);
    for t in 0..11u64 {
        store.insert(4, asset, 100 + t as i128, t);
    }
    let all = store.last_n(4, asset, 100);
    assert_eq!(all.len(), MAX_HISTORY);
    assert_eq!(stamps(&all), (1..11u64).collect::<Vec<u64>>());
    assert_eq!(all[0], PriceData::new(101, 1));
    assert_eq!(all[9], PriceData::new(110, 10));
}

#[test]
fn last_n_returns_the_tail_in_order_unpadded() {
    let mut store = PriceStore::new();
    let asset = stellar(1);
    for t in 0..4u64 {
        store.insert(0, asset, t as i128, t);
    }
    assert_eq!(stamps(&store.last_n(0, asset, 2)), vec![2, 3]);
    assert_eq!(stamps(&store.last_n(0, asset, 9)), vec![0, 1, 2, 3]);
    assert!(store.last_n(0, asset, 0).is_empty());
    assert!(store.last_n(1, asset, 3).is_empty());
}

#[test]
fn range_query_is_inclusive_and_ordered() {
    let mut store = PriceStore::new();
    let asset = stellar(1);
    for t in [5u64, 7, 9, 11] {
        store.insert(0, asset, t as i128, t);
    }
    assert_eq!(stamps(&store.range_query(0, asset, 7, 9)), vec![7, 9]);
    assert_eq!(stamps(&store.range_query(0, asset, 6, 100)), vec![7, 9, 11]);
    assert!(store.range_query(0, asset, 12, 20).is_empty());
    assert!(store.range_query(0, stellar(2), 0, 100).is_empty());
}

#[test]
fn prune_without_bounds_clears_the_selected_history() {
    let mut store = PriceStore::new();
    let a = stellar(1);
    let b = stellar(2);
    store.insert(0, a, 1, 1);
    store.insert(0, b, 2, 2);
    store.insert(1, a, 3, 3);
    store.prune(&vec![0], &vec![a], None, None);
    assert!(store.last_n(0, a, 10).is_empty());
    assert_eq!(store.last_n(0, b, 10).len(), 1);
    assert_eq!(store.last_n(1, a, 10).len(), 1);
    assert_eq!(store.sources(), vec![0, 1]);
}

#[test]
fn prune_with_end_bound_keeps_strictly_earlier() {
    let mut store = PriceStore::new();
    let a = stellar(1);
    for t in [3u64, 4, 5, 6] {
        store.insert(0, a, t as i128, t);
    }
    store.prune(&vec![], &vec![], None, Some(5));
    assert_eq!(stamps(&store.last_n(0, a, 10)), vec![3, 4]);
}

#[test]
fn prune_with_start_bound_keeps_strictly_later() {
    let mut store = PriceStore::new();
    let a = stellar(1);
    for t in [3u64, 4, 5, 6] {
        store.insert(0, a, t as i128, t);
    }
    store.prune(&vec![], &vec![], Some(4), None);
    assert_eq!(stamps(&store.last_n(0, a, 10)), vec![5, 6]);
}

#[test]
fn prune_with_both_bounds_keeps_either_side() {
    let mut store = PriceStore::new();
    let a = stellar(1);
    for t in [3u64, 4, 5, 6, 7] {
        store.insert(0, a, t as i128, t);
    }
    store.prune(&vec![], &vec![], Some(5), Some(5));
    assert_eq!(stamps(&store.last_n(0, a, 10)), vec![3, 4, 6, 7]);
}

#[test]
fn emptied_keys_disappear_from_listings() {
    let mut store = PriceStore::new();
    let a = stellar(1);
    let b = stellar(2);
    store.insert(2, a, 1, 10);
    store.insert(3, b, 1, 20);
    assert_eq!(store.sources(), vec![2, 3]);
    store.prune(&vec![], &vec![], None, Some(15));
    assert_eq!(store.sources(), vec![2]);
    assert_eq!(store.assets(), vec![a]);
    store.prune(&vec![2], &vec![], None, None);
    assert!(store.sources().is_empty());
    assert!(store.assets().is_empty());
    store.insert(3, b, 1, 30);
    assert_eq!(store.sources(), vec![3]);
    assert_eq!(store.assets(), vec![b]);
}

#[test]
fn listings_have_no_duplicates() {
    let mut store = PriceStore::new();
    let a = stellar(1);
    let b = stellar(2);
    store.insert(0, a, 1, 1);
    store.insert(0, b, 1, 1);
    store.insert(1, a, 1, 1);
    store.insert(1, b, 1, 1);
    assert_eq!(store.sources(), vec![0, 1]);
    assert_eq!(store.assets(), vec![a, b]);
}
