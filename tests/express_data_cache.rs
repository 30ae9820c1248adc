use std::collections::HashMap;

use express_data_cache::cache::ExpressDataCache;
use express_data_cache::checksums::{ChecksummedBytes, IntegrityError};
use express_data_cache::error::{DataCacheError, DataCacheResult};
use express_data_cache::keys::{derive_block_key, derive_prefix};
use express_data_cache::object::ObjectId;
use express_data_cache::reader::{ReadStep, StoreEvent};

/// An in-memory object store that serves objects in parts of `part_size` bytes.
struct MemoryStore {
    objects: HashMap<String, Vec<u8>>,
    part_size: usize,
}

impl MemoryStore {
    fn new(part_size: usize) -> Self {
        MemoryStore { objects: HashMap::new(), part_size }
    }
}

fn get_block(
    cache: &ExpressDataCache<()>,
    store: &MemoryStore,
    cache_key: &ObjectId,
    block_idx: u64,
    block_offset: u64,
) -> DataCacheResult<Option<ChecksummedBytes>> {
    let key = cache.block_object_key(cache_key, block_idx, block_offset)?;
    let mut reader = cache.begin_read();
    let mut events = Vec::new();
    match store.objects.get(&key) {
        None => events.push(StoreEvent::NotFound),
        Some(data) => {
            let mut offset = 0usize;
            for part in data.chunks(store.part_size) {
                events.push(StoreEvent::Chunk(offset as u64, part.to_vec()));
                offset += part.len();
            }
            events.push(StoreEvent::Finished);
        }
    }
    let mut window = reader.window_increment();
    assert_eq!(window, cache.block_size());
    for event in events {
        match reader.step(event) {
            ReadStep::Continue(increment) => {
                assert_eq!(increment, cache.block_size());
                window += increment;
            }
            ReadStep::Done(outcome) => return outcome,
        }
    }
    panic!("stream ended without an outcome");
}

fn put_block(
    cache: &ExpressDataCache<()>,
    store: &mut MemoryStore,
    cache_key: ObjectId,
    block_idx: u64,
    block_offset: u64,
    bytes: ChecksummedBytes,
) -> DataCacheResult<()> {
    let key = cache.block_object_key(&cache_key, block_idx, block_offset)?;
    let data = cache.upload_payload(bytes)?;
    store.objects.insert(key, data);
    Ok(())
}

fn etag() -> String {
    "test_etag".to_string()
}

fn put_get_case(part_size: usize, block_size: u64) {
    let bucket = "test-bucket";
    let mut store = MemoryStore::new(part_size);
    let cache = ExpressDataCache::new(bucket, (), "unique source description", block_size);

    let data_1 = ChecksummedBytes::new(b"Foo".to_vec());
    let data_2 = ChecksummedBytes::new(b"Bar".to_vec());
    let data_3 = ChecksummedBytes::new("a".repeat(block_size as usize).into_bytes());

    let cache_key_1 = ObjectId::new("a".into(), etag());
    let cache_key_2 = ObjectId::new("longkey_".repeat(128), etag());

    let block = get_block(&cache, &store, &cache_key_1, 0, 0).expect("cache should be accessible");
    assert!(block.is_none(), "no entry should be available to return but got {:?}", block);

    put_block(&cache, &mut store, cache_key_1.clone(), 0, 0, data_1.clone()).expect("cache should be accessible");
    let entry = get_block(&cache, &store, &cache_key_1, 0, 0)
        .expect("cache should be accessible")
        .expect("cache entry should be returned");
    assert_eq!(data_1, entry, "cache entry returned should match original bytes after put");

    put_block(&cache, &mut store, cache_key_2.clone(), 0, 0, data_2.clone()).expect("cache should be accessible");
    let entry = get_block(&cache, &store, &cache_key_2, 0, 0)
        .expect("cache should be accessible")
        .expect("cache entry should be returned");
    assert_eq!(data_2, entry, "cache entry returned should match original bytes after put");

    put_block(&cache, &mut store, cache_key_1.clone(), 1, block_size, data_3.clone())
        .expect("cache should be accessible");
    let entry = get_block(&cache, &store, &cache_key_1, 1, block_size)
        .expect("cache should be accessible")
        .expect("cache entry should be returned");
    assert_eq!(data_3, entry, "cache entry returned should match original bytes after put");

    let entry = get_block(&cache, &store, &cache_key_1, 0, 0)
        .expect("cache should be accessible")
        .expect("cache entry should be returned");
    assert_eq!(data_1, entry, "cache entry returned should match original bytes after put");
}

#[test]
fn test_put_get() {
    put_get_case(512 * 1024, 1024);
    put_get_case(512 * 1024, 8 * 1024 * 1024);
}

#[test]
fn put_get_with_parts_smaller_than_block() {
    put_get_case(1000, 1024);
    put_get_case(1, 1024);
}

#[test]
fn get_of_unwritten_block_is_no_entry() {
    let store = MemoryStore::new(16);
    let cache = ExpressDataCache::new("bucket", (), "source", 64);
    let key = ObjectId::new("name".into(), etag());
    assert_eq!(get_block(&cache, &store, &key, 3, 192), Ok(None));
}

#[test]
fn overwrite_replaces_block() {
    let mut store = MemoryStore::new(2);
    let cache = ExpressDataCache::new("bucket", (), "source", 8);
    let key = ObjectId::new("name".into(), etag());
    put_block(&cache, &mut store, key.clone(), 0, 0, ChecksummedBytes::new(b"old".to_vec())).unwrap();
    put_block(&cache, &mut store, key.clone(), 0, 0, ChecksummedBytes::new(b"newer".to_vec())).unwrap();
    let got = get_block(&cache, &store, &key, 0, 0).unwrap().unwrap();
    assert_eq!(got, ChecksummedBytes::new(b"newer".to_vec()));
}

#[test]
fn mismatched_offsets_are_rejected() {
    let mut store = MemoryStore::new(16);
    let cache = ExpressDataCache::new("bucket", (), "source", 1024);
    let key = ObjectId::new("name".into(), etag());
    for (idx, offset) in [(0u64, 1u64), (1, 0), (1, 1023), (2, 1024), (3, 3073)] {
        assert_eq!(get_block(&cache, &store, &key, idx, offset), Err(DataCacheError::InvalidBlockOffset));
        let bytes = ChecksummedBytes::new(b"x".to_vec());
        assert_eq!(
            put_block(&cache, &mut store, key.clone(), idx, offset, bytes),
            Err(DataCacheError::InvalidBlockOffset)
        );
    }
    assert!(store.objects.is_empty());
}

#[test]
fn offset_check_survives_overflowing_product() {
    let cache = ExpressDataCache::new("bucket", (), "source", 1u64 << 40);
    let key = ObjectId::new("name".into(), etag());
    // (1 << 30) * (1 << 40) wraps to 0 in 64 bits.
    assert_eq!(cache.block_object_key(&key, 1u64 << 30, 0), Err(DataCacheError::InvalidBlockOffset));
    assert_eq!(cache.block_object_key(&key, u64::MAX, u64::MAX), Err(DataCacheError::InvalidBlockOffset));
}

#[test]
fn block_size_is_the_constructed_one() {
    for size in [1u64, 1024, 8 * 1024 * 1024, u64::MAX] {
        let cache = ExpressDataCache::new("bucket", (), "source", size);
        assert_eq!(cache.block_size(), size);
        assert_eq!(cache.block_size(), size);
    }
}

#[test]
fn namespace_prefix_value() {
    let prefix = derive_prefix("unique source description", 1024);
    assert_eq!(prefix, "be88e6c00aa80ffda3f7f2372a4165afb2f5029f3242ee635c011c7d451fe1db");
    let cache = ExpressDataCache::new("test-bucket", (), "unique source description", 1024);
    assert_eq!(cache.prefix(), prefix);
    assert_eq!(cache.bucket_name(), "test-bucket");
}

#[test]
fn namespace_prefix_depends_on_every_input() {
    let base = derive_prefix("source", 1024);
    assert_eq!(base, derive_prefix("source", 1024));
    assert_ne!(base, derive_prefix("source", 2048));
    assert_ne!(base, derive_prefix("other source", 1024));
    assert_eq!(base.len(), 64);
}

#[test]
fn block_key_value() {
    let cache = ExpressDataCache::new("test-bucket", (), "unique source description", 1024);
    let key = ObjectId::new("a".into(), etag());
    let object_key = cache.block_object_key(&key, 1, 1024).unwrap();
    assert_eq!(
        object_key,
        "be88e6c00aa80ffda3f7f2372a4165afb2f5029f3242ee635c011c7d451fe1db/\
         90f88a9d674b7e2d31207d33feb84fb63b377c4759464cfd6c45d4931657091a/0000000001"
    );
}

#[test]
fn block_index_is_zero_padded() {
    let key = ObjectId::new("a".into(), etag());
    assert!(derive_block_key("p", &key, 0).ends_with("/0000000000"));
    assert!(derive_block_key("p", &key, 1234567).ends_with("/0001234567"));
    assert!(derive_block_key("p", &key, 9_999_999_999).ends_with("/9999999999"));
    assert!(derive_block_key("p", &key, 12_345_678_901).ends_with("/12345678901"));
    assert!(derive_block_key("p", &key, u64::MAX).ends_with("/18446744073709551615"));
}

#[test]
fn block_keys_separate_entities_and_indices() {
    let a = ObjectId::new("a".into(), etag());
    let b = ObjectId::new("longkey_".repeat(128), etag());
    let a_other_revision = ObjectId::new("a".into(), "another_etag".into());
    assert_ne!(derive_block_key("p", &a, 0), derive_block_key("p", &b, 0));
    assert_ne!(derive_block_key("p", &a, 0), derive_block_key("p", &a_other_revision, 0));
    assert_ne!(derive_block_key("p", &a, 0), derive_block_key("p", &a, 1));
    assert_eq!(derive_block_key("p", &a, 7), derive_block_key("p", &a, 7));
    assert!(derive_block_key("p", &a, 0).starts_with("p/"));
}

#[test]
fn reader_rejects_out_of_order_chunk() {
    let cache = ExpressDataCache::new("bucket", (), "source", 16);
    let mut reader = cache.begin_read();
    assert_eq!(reader.step(StoreEvent::Chunk(0, b"abc".to_vec())), ReadStep::Continue(16));
    assert_eq!(
        reader.step(StoreEvent::Chunk(4, b"def".to_vec())),
        ReadStep::Done(Err(DataCacheError::InvalidBlockOffset))
    );
    let mut reader = cache.begin_read();
    assert_eq!(
        reader.step(StoreEvent::Chunk(1, b"abc".to_vec())),
        ReadStep::Done(Err(DataCacheError::InvalidBlockOffset))
    );
}

#[test]
fn reader_reassembles_chunks() {
    let cache = ExpressDataCache::new("bucket", (), "source", 16);
    let mut reader = cache.begin_read();
    assert_eq!(reader.window_increment(), 16);
    assert_eq!(reader.step(StoreEvent::Chunk(0, b"ab".to_vec())), ReadStep::Continue(16));
    assert_eq!(reader.step(StoreEvent::Chunk(2, Vec::new())), ReadStep::Continue(16));
    assert_eq!(reader.step(StoreEvent::Chunk(2, b"cde".to_vec())), ReadStep::Continue(16));
    assert_eq!(
        reader.step(StoreEvent::Finished),
        ReadStep::Done(Ok(Some(ChecksummedBytes::new(b"abcde".to_vec()))))
    );
}

#[test]
fn reader_maps_store_errors() {
    let cache = ExpressDataCache::new("bucket", (), "source", 16);
    let mut reader = cache.begin_read();
    assert_eq!(reader.step(StoreEvent::Chunk(0, b"ab".to_vec())), ReadStep::Continue(16));
    assert_eq!(reader.step(StoreEvent::NotFound), ReadStep::Done(Ok(None)));
    let mut reader = cache.begin_read();
    assert_eq!(
        reader.step(StoreEvent::Failure("service unavailable".into())),
        ReadStep::Done(Err(DataCacheError::IoFailure("service unavailable".into())))
    );
}

#[test]
fn empty_object_reads_as_empty_block() {
    let cache = ExpressDataCache::new("bucket", (), "source", 16);
    let mut reader = cache.begin_read();
    assert_eq!(
        reader.step(StoreEvent::Finished),
        ReadStep::Done(Ok(Some(ChecksummedBytes::new(Vec::new()))))
    );
}

#[test]
fn checksum_is_crc32c() {
    let bytes = ChecksummedBytes::new(b"123456789".to_vec());
    assert_eq!(bytes, ChecksummedBytes::new_from_inner_data(b"123456789".to_vec(), 0xE306_9283));
    assert_eq!(bytes.len(), 9);
    assert_eq!(bytes.validate(), Ok(()));
    assert_eq!(bytes.into_inner(), Ok((b"123456789".to_vec(), 0xE306_9283)));
}

#[test]
fn corrupted_buffer_is_invalid_content() {
    let cache = ExpressDataCache::new("bucket", (), "source", 16);
    let corrupted = ChecksummedBytes::new_from_inner_data(b"123456789".to_vec(), 1);
    assert_eq!(corrupted.validate(), Err(IntegrityError::ChecksumMismatch(1, 0xE306_9283)));
    assert_eq!(cache.upload_payload(corrupted.clone()), Err(DataCacheError::InvalidBlockContent));
    let mut store = MemoryStore::new(4);
    let key = ObjectId::new("name".into(), etag());
    assert_eq!(
        put_block(&cache, &mut store, key, 0, 0, corrupted),
        Err(DataCacheError::InvalidBlockContent)
    );
    assert!(store.objects.is_empty());
    let good = ChecksummedBytes::new(b"payload".to_vec());
    assert_eq!(cache.upload_payload(good), Ok(b"payload".to_vec()));
}

#[test]
fn object_id_accessors() {
    let id = ObjectId::new("dir/file".into(), "etag-1".into());
    assert_eq!(id.key(), "dir/file");
    assert_eq!(id.etag(), "etag-1");
}
