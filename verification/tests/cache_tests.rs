use vdotapes_core::cache::CacheFileMeta;
use vdotapes_core::cache::ThumbnailCache;
use vdotapes_core::cache::temp_path_of;
use vdotapes_core::cache::stats_of;
use vdotapes_core::cache::total_size;

#[test]
fn test_cache_key_generation() {
    let key1 = ThumbnailCache::cache_key("/path/to/video.mp4", 10000);
    let key2 = ThumbnailCache::cache_key("/path/to/video.mp4", 10000);
    assert_eq!(key1, key2, "Same inputs should produce same key");

    let key3 = ThumbnailCache::cache_key("/path/to/video.mp4", 20000);
    assert_ne!(key1, key3, "Different timestamp should produce different key");
}

#[test]
fn test_cache_key_shape() {
    let key = ThumbnailCache::cache_key("/v.mp4", 5000);
    assert_eq!(key.len(), 64);
    assert!(key.chars().all(|c| c.is_ascii_digit() || ('a'..='f').contains(&c)));
}

#[test]
fn test_cache_key_differs_from_path() {
    // the digest is not the input echoed back
    let key = ThumbnailCache::cache_key("/v.mp4", 0);
    assert_ne!(key.as_str(), "/v.mp4");
    let other = ThumbnailCache::cache_key("/w.mp4", 0);
    assert_ne!(key, other, "Different paths should produce different keys");
}

#[test]
fn test_get_cache_path_sharding() {
    let cache = ThumbnailCache::new(String::from("/root/thumbs"), 1000);
    let path = cache.get_cache_path("abcdef", "jpeg");
    assert_eq!(path, "/root/thumbs/ab/abcdef.jpeg");
    let short = cache.get_cache_path("a", "png");
    assert_eq!(short, "/root/thumbs/a/a.png");
}

#[test]
fn test_temp_path_naming() {
    assert_eq!(temp_path_of("/t/ab/key.jpeg"), "/t/ab/key.jpeg.tmp");
}

fn meta(path: &str, size: u64, accessed: u64) -> CacheFileMeta {
    CacheFileMeta { path: String::from(path), size, accessed }
}

#[test]
fn test_eviction_targets_watermark() {
    // total 120 bytes against a budget of 100: eviction must drain to 80
    let cache = ThumbnailCache::new(String::from("/c"), 100);
    let files = vec![
        meta("/c/aa/old.jpeg", 40, 10),
        meta("/c/bb/mid.jpeg", 40, 20),
        meta("/c/cc/new.jpeg", 40, 30),
    ];
    assert_eq!(cache.watermark(), 80);
    assert!(cache.needs_eviction(total_size(&files)));
    let (sorted, k) = cache.eviction_plan(&files);
    // exactly the oldest entry goes: 120 - 40 = 80 <= watermark
    assert_eq!(k, 1);
    assert_eq!(sorted[0].path, "/c/aa/old.jpeg");
}

#[test]
fn test_eviction_recently_touched_survives() {
    // the entry touched after being written outlives never-touched ones
    let cache = ThumbnailCache::new(String::from("/c"), 100);
    let files = vec![
        meta("/c/aa/touched.jpeg", 60, 99),
        meta("/c/bb/cold1.jpeg", 60, 5),
        meta("/c/cc/cold2.jpeg", 60, 6),
    ];
    let (sorted, k) = cache.eviction_plan(&files);
    // 180 -> drop 60 -> 120 -> drop 60 -> 60 <= 80: two cold entries go
    assert_eq!(k, 2);
    assert_eq!(sorted[0].path, "/c/bb/cold1.jpeg");
    assert_eq!(sorted[1].path, "/c/cc/cold2.jpeg");
    assert_eq!(sorted[2].path, "/c/aa/touched.jpeg");
}

#[test]
fn test_eviction_exhausts_when_needed() {
    let cache = ThumbnailCache::new(String::from("/c"), 10);
    let files = vec![meta("/c/aa/a.jpeg", 100, 1)];
    let (sorted, k) = cache.eviction_plan(&files);
    assert_eq!(k, 1);
    assert_eq!(sorted.len(), 1);
}

#[test]
fn test_no_eviction_under_budget() {
    let cache = ThumbnailCache::new(String::from("/c"), 1000);
    let files = vec![meta("/c/aa/a.jpeg", 100, 1), meta("/c/bb/b.jpeg", 100, 2)];
    assert!(!cache.needs_eviction(total_size(&files)));
    let (_, k) = cache.eviction_plan(&files);
    assert_eq!(k, 0);
}

#[test]
fn test_stats_of_listing() {
    let files = vec![meta("/c/aa/a.jpeg", 100, 1), meta("/c/bb/b.jpeg", 50, 2)];
    let (count, total) = stats_of(&files);
    assert_eq!(count, 2);
    assert_eq!(total, 150);
    assert_eq!(total_size(&files), 150);
}

#[test]
fn test_cache_dir_accessor() {
    let cache = ThumbnailCache::new(String::from("/somewhere"), 7);
    assert_eq!(cache.get_cache_dir(), "/somewhere");
}
