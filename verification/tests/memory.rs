use tilemap::{tile_id, Cache, MemoryCache};

#[test]
fn test_memory_cache() {
    let mut data = Vec::<u8>::new();
    data.append(&mut "hello world".as_bytes().to_vec());
    let mut cache = MemoryCache::new();
    assert_eq!(cache.has("ID0"), false);
    cache.save("ID0", data);
    assert_eq!(cache.has("ID0"), true);
    assert_eq!(cache.get("ID0").unwrap(), &"hello world".as_bytes().to_vec());
    cache.delete("ID0");
    assert_eq!(cache.has("ID0"), false);
}

#[test]
fn test_memory_cache_overwrite() {
    let mut cache = MemoryCache::new();
    cache.save("a", vec![1, 2, 3]);
    cache.save("b", vec![9]);
    cache.save("a", vec![4, 5]);
    assert_eq!(cache.get("a").unwrap(), &vec![4u8, 5]);
    assert_eq!(cache.get("b").unwrap(), &vec![9u8]);
    assert_eq!(cache.get("c"), None);
    cache.delete("b");
    assert_eq!(cache.has("b"), false);
    assert_eq!(cache.has("a"), true);
}

#[test]
fn test_tile_id() {
    assert_eq!(tile_id(14, 13398, 6724), "tile:14-13398-6724");
    assert_eq!(tile_id(0, 0, 0), "tile:0-0-0");
}
