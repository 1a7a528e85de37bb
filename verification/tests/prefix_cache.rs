use orangu_server::kv_cache::KvCache;
use orangu_server::prefix_cache::PrefixCache;

/// A cache with `len` committed positions.
fn cache(n_layer: usize, capacity: usize, kv_dim: usize, len: usize) -> KvCache {
    let mut c = KvCache::new(n_layer, capacity, kv_dim);
    for layer in &mut c.layers {
        for _ in 0..len {
            layer.push(&vec![0; kv_dim], &vec![0; kv_dim]);
        }
    }
    c
}

#[test]
fn take_best_match_prefers_the_longest_shared_prefix() {
    let mut pool = PrefixCache::new(4);
    pool.store(vec![1, 2, 3], cache(1, 8, 4, 3));
    pool.store(vec![1, 2, 3, 4, 5], cache(1, 8, 4, 5));
    pool.store(vec![9, 9, 9], cache(1, 8, 4, 3));

    let (prefix_len, entry) = pool.take_best_match(&[1, 2, 3, 4, 9]).unwrap();
    assert_eq!(prefix_len, 4);
    assert_eq!(entry.tokens, vec![1, 2, 3, 4, 5]);
}

#[test]
fn take_best_match_returns_none_without_any_shared_prefix() {
    let mut pool = PrefixCache::new(4);
    pool.store(vec![1, 2, 3], cache(1, 8, 4, 3));
    assert!(pool.take_best_match(&[9, 9, 9]).is_none());
}

#[test]
fn take_best_match_removes_the_returned_entry() {
    let mut pool = PrefixCache::new(4);
    pool.store(vec![1, 2, 3], cache(1, 8, 4, 3));
    assert!(pool.take_best_match(&[1, 2, 3, 4]).is_some());
    assert!(pool.take_best_match(&[1, 2, 3, 4]).is_none());
}

#[test]
fn take_best_match_never_exceeds_the_cache_s_own_committed_length() {
    let mut pool = PrefixCache::new(4);
    pool.store(vec![1, 2, 3], cache(1, 8, 4, 2));
    let (prefix_len, _) = pool.take_best_match(&[1, 2, 3, 4]).unwrap();
    assert_eq!(prefix_len, 2);
}

#[test]
fn a_cross_layer_kv_donor_s_permanently_empty_slot_does_not_block_matching_or_copying() {
    let mut donor_cache = KvCache::new_with_dims(8, &[4, 4]);
    for _ in 0..3 {
        donor_cache.layers[1].push(&[0; 4], &[0; 4]);
    }
    assert_eq!(donor_cache.layers[0].len, 0);
    assert_eq!(donor_cache.layers[1].len, 3);

    let mut pool = PrefixCache::new(4);
    pool.store(vec![1, 2, 3], donor_cache);
    let (prefix_len, entry) = pool.take_best_match(&[1, 2, 3, 4]).unwrap();
    assert_eq!(prefix_len, 3);

    let mut dst = KvCache::new_with_dims(8, &[4, 4]);
    dst.copy_prefix_from(&entry.cache, prefix_len);
    assert_eq!(dst.layers[0].len, 0, "donor slot must stay untouched");
    assert_eq!(
        dst.layers[1].len, 3,
        "the real owning layer must be fully copied"
    );
}

#[test]
fn store_evicts_the_oldest_entry_once_full() {
    let mut pool = PrefixCache::new(2);
    pool.store(vec![1], cache(1, 8, 4, 1));
    pool.store(vec![2], cache(1, 8, 4, 1));
    pool.store(vec![3], cache(1, 8, 4, 1));

    assert!(pool.take_best_match(&[1, 9]).is_none());
    assert!(pool.take_best_match(&[2, 9]).is_some());
}

#[test]
fn disabled_pool_never_stores_or_matches() {
    let mut pool = PrefixCache::new(0);
    pool.store(vec![1, 2, 3], cache(1, 8, 4, 3));
    assert!(pool.take_best_match(&[1, 2, 3]).is_none());
}

#[test]
fn a_mixed_recurrent_cache_only_matches_on_its_full_length() {
    let mut pool = PrefixCache::new(4);
    let mut mixed = KvCache::new_mixed(8, &[4], &[(2, 3, 1, 2)]);
    for layer in &mut mixed.layers {
        for _ in 0..3 {
            layer.push(&[0; 4], &[0; 4]);
        }
    }
    pool.store(vec![1, 2, 3], mixed);

    let (prefix_len, entry) = pool.take_best_match(&[1, 2, 3, 4]).unwrap();
    assert_eq!(prefix_len, 3);
    assert_eq!(entry.tokens, vec![1, 2, 3]);
}

#[test]
fn a_mixed_recurrent_cache_is_skipped_on_a_partial_match() {
    let mut pool = PrefixCache::new(4);
    let mut mixed = KvCache::new_mixed(8, &[4], &[(2, 3, 1, 2)]);
    for layer in &mut mixed.layers {
        for _ in 0..3 {
            layer.push(&[0; 4], &[0; 4]);
        }
    }
    pool.store(vec![1, 2, 3], mixed);

    assert!(pool.take_best_match(&[1, 2, 9]).is_none());
}

#[test]
fn the_first_of_equal_matches_is_taken() {
    let mut pool = PrefixCache::new(3);
    pool.store(vec![1, 2, 7], cache(1, 8, 4, 3));
    pool.store(vec![1, 2, 8], cache(1, 8, 4, 3));
    let (n, entry) = pool.take_best_match(&[1, 2]).unwrap();
    assert_eq!((n, entry.tokens), (2, vec![1, 2, 7]));
    assert_eq!(pool.len(), 1);
}
