//! Tests for the content-addressed cache: hashing, paths, the binary entry
//! format and the read interpretation.

use simulator::source_map_cache::decode_entry;
use simulator::source_map_cache::encode_entry;
use simulator::source_map_cache::entry_info;
use simulator::source_map_cache::count_cache_files;
use simulator::source_map_cache::is_cache_file;
use simulator::source_map_cache::total_cache_size;
use simulator::source_map_cache::SourceMapCache;
use simulator::source_map_cache::SourceMapCacheEntry;
use simulator::source_mapper::SourceLocation;

fn sample_location() -> SourceLocation {
    SourceLocation {
        file: "test.rs".to_string(),
        line: 42,
        column: 10,
        column_end: None,
        github_link: None,
    }
}

fn sample_entry(wasm_hash: String) -> SourceMapCacheEntry {
    SourceMapCacheEntry {
        wasm_hash,
        has_symbols: true,
        mappings: vec![(0x1234, sample_location())],
        created_at: 1234567890,
    }
}

#[test]
fn test_compute_wasm_hash() {
    let wasm_bytes = vec![0x00, 0x61, 0x73, 0x6d]; // Basic WASM header
    let hash = SourceMapCache::compute_wasm_hash(&wasm_bytes);
    assert_eq!(hash.len(), 64);
    // Known digest of the four header bytes.
    assert_eq!(hash, "cd5d4935a48c0672cb06407bb443bc0087aff947c6b864bac886982c73b3027f");
}

#[test]
fn test_compute_wasm_hash_different() {
    let wasm_bytes1 = vec![0x00, 0x61, 0x73, 0x6d];
    let wasm_bytes2 = vec![0x01, 0x61, 0x73, 0x6d];

    let hash1 = SourceMapCache::compute_wasm_hash(&wasm_bytes1);
    let hash2 = SourceMapCache::compute_wasm_hash(&wasm_bytes2);

    assert_ne!(hash1, hash2);
}

#[test]
fn test_store_and_get() {
    let wasm_bytes = vec![0x00, 0x61, 0x73, 0x6d];
    let wasm_hash = SourceMapCache::compute_wasm_hash(&wasm_bytes);
    let cache = SourceMapCache::with_cache_dir("cache".to_string());

    let entry = sample_entry(wasm_hash.clone());

    // Store: the bytes that land in the cache file under {hash}.bin.
    let stored = SourceMapCache::store_bytes(&entry);

    // Retrieve the entry — no_cache=false so the cache is used normally.
    let retrieved = cache.get(false, Some(&stored)).unwrap();
    assert_eq!(retrieved.wasm_hash, wasm_hash);
    assert!(retrieved.has_symbols);
    assert_eq!(retrieved.mappings.len(), 1);
    assert_eq!(retrieved.mappings[0].0, 0x1234);
    assert_eq!(retrieved.mappings[0].1.file, "test.rs");
    assert_eq!(retrieved.mappings[0].1.line, 42);
    assert_eq!(retrieved.mappings[0].1.column, 10);
    assert_eq!(retrieved.created_at, 1234567890);
}

#[test]
fn test_get_missing() {
    let cache = SourceMapCache::with_cache_dir("cache".to_string());

    // No cache file exists for the requested hash.
    let result = cache.get(false, None);
    assert!(result.is_none());
}

#[test]
fn test_no_cache_bypasses_cache() {
    let wasm_bytes = vec![0x00, 0x61, 0x73, 0x6d];
    let wasm_hash = SourceMapCache::compute_wasm_hash(&wasm_bytes);
    let cache = SourceMapCache::with_cache_dir("cache".to_string());

    let entry = SourceMapCacheEntry {
        wasm_hash,
        has_symbols: true,
        mappings: vec![],
        created_at: 1234567890,
    };

    // The entry exists on disk...
    let stored = SourceMapCache::store_bytes(&entry);
    assert!(cache.get(false, Some(&stored)).is_some());

    // ...but with no_cache=true it is never consulted.
    let result = cache.get(true, Some(&stored));
    assert!(result.is_none());
}

#[test]
fn bypass_ignores_any_stored_bytes() {
    let cache = SourceMapCache::with_cache_dir("cache".to_string());
    assert!(cache.get(true, None).is_none());
    let garbage = vec![0xff, 0x00, 0x17];
    assert!(cache.get(true, Some(&garbage)).is_none());
}

#[test]
fn corrupt_cache_file_is_a_miss() {
    let cache = SourceMapCache::with_cache_dir("cache".to_string());
    let garbage = vec![0xde, 0xad, 0xbe, 0xef];
    assert!(cache.get(false, Some(&garbage)).is_none());
    assert!(decode_entry(&garbage).is_none());
    assert!(decode_entry(&[]).is_none());
}

#[test]
fn entry_round_trips_through_the_codec() {
    let entry = SourceMapCacheEntry {
        wasm_hash: "ab".repeat(32),
        has_symbols: true,
        mappings: vec![
            (0, sample_location()),
            (
                u64::MAX,
                SourceLocation {
                    file: "dir/file.rs".to_string(),
                    line: 0,
                    column: 0,
                    column_end: Some(7),
                    github_link: Some("https://example.invalid/x".to_string()),
                },
            ),
        ],
        created_at: u64::MAX,
    };
    let bytes = encode_entry(&entry);
    let back = decode_entry(&bytes).unwrap();
    assert_eq!(back.wasm_hash, entry.wasm_hash);
    assert_eq!(back.has_symbols, entry.has_symbols);
    assert_eq!(back.created_at, entry.created_at);
    assert_eq!(back.mappings.len(), 2);
    assert_eq!(back.mappings[1].0, u64::MAX);
    assert_eq!(back.mappings[1].1.file, "dir/file.rs");
    assert_eq!(back.mappings[1].1.column_end, Some(7));
    assert_eq!(
        back.mappings[1].1.github_link,
        Some("https://example.invalid/x".to_string())
    );
}

#[test]
fn storing_twice_is_idempotent() {
    // Two stores of one entry write identical bytes to the one file name its
    // hash determines: the directory cannot grow past one file for one hash.
    let entry = sample_entry("aa".repeat(32));
    let first = SourceMapCache::store_bytes(&entry);
    let second = SourceMapCache::store_bytes(&entry);
    assert_eq!(first, second);

    let cache = SourceMapCache::with_cache_dir("cache".to_string());
    let path1 = cache.get_cache_path(&entry.wasm_hash);
    let path2 = cache.get_cache_path(&entry.wasm_hash);
    assert_eq!(path1, path2);

    // One distinct hash: the inventory stays at one file.
    let names = vec![format!("{}.bin", entry.wasm_hash)];
    assert_eq!(count_cache_files(&names), 1);
}

#[test]
fn independent_writers_use_distinct_files() {
    let h1 = SourceMapCache::compute_wasm_hash(&[0x00, 0x61, 0x73, 0x6d]);
    let h2 = SourceMapCache::compute_wasm_hash(&[0x01, 0x61, 0x73, 0x6d]);
    let cache = SourceMapCache::with_cache_dir("cache".to_string());
    assert_ne!(cache.get_cache_path(&h1), cache.get_cache_path(&h2));

    let e1 = sample_entry(h1);
    let e2 = sample_entry(h2);
    let b1 = SourceMapCache::store_bytes(&e1);
    let b2 = SourceMapCache::store_bytes(&e2);
    let r1 = cache.get(false, Some(&b1)).unwrap();
    let r2 = cache.get(false, Some(&b2)).unwrap();
    assert_eq!(r1.wasm_hash, e1.wasm_hash);
    assert_eq!(r2.wasm_hash, e2.wasm_hash);
}

#[test]
fn cache_paths_follow_the_layout() {
    let cache = SourceMapCache::with_cache_dir("/tmp/sm".to_string());
    assert_eq!(cache.get_cache_path("abc"), "/tmp/sm/abc.bin");
    assert_eq!(cache.get_tmp_path("abc"), "/tmp/sm/abc.tmp");
    assert_eq!(SourceMapCache::get_lock_path("/tmp/sm/abc.bin"), "/tmp/sm/abc.bin.lock");
    assert_eq!(cache.get_cache_dir(), "/tmp/sm");
}

#[test]
fn clear_counts_only_cache_entry_files() {
    // An empty directory clears zero files.
    assert_eq!(count_cache_files(&vec![]), 0);

    // Lock and staging files are never cleared; entry files are.
    assert!(is_cache_file("a.bin"));
    assert!(!is_cache_file(".bin"));
    assert!(!is_cache_file("a.bin.lock"));
    assert!(!is_cache_file("a.tmp"));
    let names = vec![
        "a.bin".to_string(),
        "a.bin.lock".to_string(),
        "b.bin".to_string(),
        "b.tmp".to_string(),
    ];
    assert_eq!(count_cache_files(&names), 2);
}

#[test]
fn cache_size_sums_file_sizes() {
    assert_eq!(total_cache_size(&vec![]), 0);
    assert_eq!(total_cache_size(&vec![10, 20, 12]), 42);
    assert_eq!(total_cache_size(&vec![u64::MAX, 1]), u64::MAX);
}

#[test]
fn listing_reports_entry_metadata_without_mappings() {
    let entry = sample_entry("cd".repeat(32));
    let bytes = encode_entry(&entry);
    let info = entry_info(&bytes, bytes.len() as u64).unwrap();
    assert_eq!(info.wasm_hash, entry.wasm_hash);
    assert!(info.has_symbols);
    assert_eq!(info.mappings_count, 1);
    assert_eq!(info.created_at, 1234567890);
    assert_eq!(info.file_size, bytes.len() as u64);

    assert!(entry_info(&[0x01, 0x02], 2).is_none());
}

#[test]
fn default_cache_dir_lives_under_the_home_directory() {
    if let Ok(cache) = SourceMapCache::new() {
        assert!(cache.get_cache_dir().ends_with("/.erst/cache/sourcemaps"));
    }
}
