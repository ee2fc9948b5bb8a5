use shadow_player::remux_cache::{
    after_removal, needs_eviction, remux_cache_plan, CacheFile, REMUX_CACHE_MAX_AGE_NANOS,
    REMUX_CACHE_MAX_BYTES,
};

fn file(path: &str, extension: Option<&str>, len: u64, accessed: u128) -> CacheFile {
    CacheFile {
        path: path.to_string(),
        extension: extension.map(str::to_string),
        len,
        accessed,
    }
}

#[test]
fn expired_remuxes_go_and_the_rest_give_way_least_recently_used_first() {
    let now = REMUX_CACHE_MAX_AGE_NANOS + 100;
    let plan = remux_cache_plan(
        vec![
            file("a.mp4", Some("mp4"), 10, 0),
            file("b.txt", Some("txt"), 20, 0),
            file("c.mp4", Some("mp4"), 30, 300),
            file("d.mp4", Some("mp4"), 40, 100),
            file("e.mp4", Some("mp4"), 50, 300),
            file("f.MP4", Some("MP4"), 60, 0),
            file("g", None, 70, 0),
        ],
        now,
    );
    assert_eq!(plan.expired, vec!["a.mp4".to_string()]);
    let order: Vec<&str> = plan.evictable.iter().map(|f| f.path.as_str()).collect();
    assert_eq!(order, vec!["d.mp4", "c.mp4", "e.mp4"]);
    assert_eq!(plan.total, 120);
}

#[test]
fn a_file_used_in_the_future_is_not_expired() {
    let plan = remux_cache_plan(vec![file("x.mp4", Some("mp4"), 1, 1_000)], 10);
    assert!(plan.expired.is_empty());
    assert_eq!(plan.evictable.len(), 1);
    assert_eq!(plan.total, 1);
}

#[test]
fn eviction_stops_at_the_size_limit_and_counts_only_removed_files() {
    let limit = REMUX_CACHE_MAX_BYTES as u128;
    assert!(!needs_eviction(limit));
    assert!(needs_eviction(limit + 1));
    assert_eq!(after_removal(limit + 10, 4, true), limit + 6);
    assert_eq!(after_removal(limit + 10, 4, false), limit + 10);
    assert_eq!(after_removal(3, 4, true), 0);
    assert_eq!(REMUX_CACHE_MAX_BYTES, 5 * 1024 * 1024 * 1024);
    assert_eq!(REMUX_CACHE_MAX_AGE_NANOS, 604_800_000_000_000);
}
