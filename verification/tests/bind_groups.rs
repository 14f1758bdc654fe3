use codegen::bind_groups::{BindGroupSlot, DynamicBindGroup};

#[test]
fn new_cache_is_empty() {
    let mut cache = DynamicBindGroup::new();
    assert_eq!(cache.get_bind_group(7), None);
    assert_eq!(cache.bind_group_cache.cap().get(), 16);
}

#[test]
fn created_bind_group_is_found_again() {
    let mut cache = DynamicBindGroup::new();
    let first = cache.get_or_create_bind_group(42, 0);
    assert_eq!(first, BindGroupSlot::Create { index: 0, evicted: None });
    let second = cache.get_or_create_bind_group(42, 1);
    assert_eq!(second, BindGroupSlot::Cached(0));
    assert_eq!(cache.get_bind_group(42), Some(0));
}

#[test]
fn insert_replaces_an_entry_under_the_same_key() {
    let mut cache = DynamicBindGroup::new();
    assert_eq!(cache.insert(5, 3), None);
    assert_eq!(cache.insert(5, 4), Some(3));
    assert_eq!(cache.get_bind_group(5), Some(4));
}

#[test]
fn a_full_cache_evicts_the_least_recently_used() {
    let mut cache = DynamicBindGroup::new();
    for k in 0..16u64 {
        let slot = cache.get_or_create_bind_group(k, k as usize);
        assert_eq!(slot, BindGroupSlot::Create { index: k as usize, evicted: None });
    }
    // touch key 0 so that key 1 becomes the least recently used
    assert_eq!(cache.get_bind_group(0), Some(0));
    let slot = cache.get_or_create_bind_group(100, 16);
    assert_eq!(slot, BindGroupSlot::Create { index: 16, evicted: Some(1) });
    assert_eq!(cache.get_bind_group(1), None);
    assert_eq!(cache.get_bind_group(0), Some(0));
    assert_eq!(cache.get_bind_group(100), Some(16));
}
