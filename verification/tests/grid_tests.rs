use vdotapes_core::grid::engine::VideoGridEngine;
use vdotapes_core::grid::filter::FilterEngine;
use vdotapes_core::grid::reconcile::DomReconciler;
use vdotapes_core::grid::reconcile::OperationBatcher;
use vdotapes_core::grid::sort::SortEngine;
use vdotapes_core::grid::state::VideoStateManager;
use vdotapes_core::grid::types::DomOperation;
use vdotapes_core::grid::types::FilterCriteria;
use vdotapes_core::grid::types::SortMode;
use vdotapes_core::grid::types::VideoItem;
use vdotapes_core::grid::types::VideoState;
use vdotapes_core::grid::types::Viewport;

fn create_test_video(id: &str, folder: Option<&str>, timestamp: u64) -> VideoItem {
    VideoItem {
        id: String::from(id),
        name: format!("video_{}", id),
        path: format!("/path/{}.mp4", id),
        folder: folder.map(String::from),
        size: 1024,
        last_modified: timestamp,
        duration_ms: None,
        width: None,
        height: None,
        resolution: None,
        codec: None,
        bitrate: None,
        is_favorite: false,
        is_hidden: false,
    }
}

fn criteria() -> FilterCriteria {
    FilterCriteria { folder: None, favorites_only: false, hidden_only: false, show_hidden: false }
}

#[test]
fn test_folder_filter() {
    let engine = FilterEngine::new();
    let videos = vec![
        create_test_video("1", Some("folder1"), 0),
        create_test_video("2", Some("folder2"), 0),
        create_test_video("3", Some("folder1"), 0),
    ];

    let mut c = criteria();
    c.folder = Some(String::from("folder1"));

    let filtered = engine.filter_videos(&videos, &c);
    assert_eq!(filtered.len(), 2);
    assert_eq!(filtered[0].id, "1");
    assert_eq!(filtered[1].id, "3");
}

#[test]
fn test_favorites_filter() {
    let mut engine = FilterEngine::new();
    engine.update_favorites(vec![String::from("1"), String::from("3")]);

    let videos = vec![
        create_test_video("1", None, 0),
        create_test_video("2", None, 0),
        create_test_video("3", None, 0),
    ];

    let mut c = criteria();
    c.favorites_only = true;

    let filtered = engine.filter_videos(&videos, &c);
    assert_eq!(filtered.len(), 2);
}

#[test]
fn test_hidden_filter() {
    let mut engine = FilterEngine::new();
    engine.update_hidden(vec![String::from("2")]);

    let videos = vec![
        create_test_video("1", None, 0),
        create_test_video("2", None, 0),
        create_test_video("3", None, 0),
    ];

    // Normal mode: hide hidden videos
    let filtered = engine.filter_videos(&videos, &criteria());
    assert_eq!(filtered.len(), 2);

    // Hidden only mode
    let mut c = criteria();
    c.hidden_only = true;
    let filtered = engine.filter_videos(&videos, &c);
    assert_eq!(filtered.len(), 1);
    assert_eq!(filtered[0].id, "2");
}

#[test]
fn test_reconcile_add_videos() {
    let mut reconciler = DomReconciler::new();

    let videos = vec![
        create_test_video("1", None, 0),
        create_test_video("2", None, 0),
        create_test_video("3", None, 0),
    ];

    let indices = vec![0, 1, 2];

    let viewport = Viewport {
        scroll_top: 0,
        viewport_height: 600,
        item_height: 300,
        items_per_row: 3,
        buffer_rows: 1,
    };

    let result = reconciler.reconcile(&videos, &indices, &viewport);

    // Should add all 3 videos
    let adds = result
        .operations
        .iter()
        .filter(|op| matches!(op, DomOperation::Add { .. }))
        .count();
    assert_eq!(adds, 3);
}

#[test]
fn test_reconcile_remove_videos() {
    let mut reconciler = DomReconciler::new();

    let videos = vec![
        create_test_video("1", None, 0),
        create_test_video("2", None, 0),
        create_test_video("3", None, 0),
    ];

    // First reconcile with all videos
    let indices = vec![0, 1, 2];
    let viewport = Viewport {
        scroll_top: 0,
        viewport_height: 900,
        item_height: 300,
        items_per_row: 3,
        buffer_rows: 1,
    };

    reconciler.reconcile(&videos, &indices, &viewport);

    // Now shrink the window so fewer videos stay visible
    let viewport2 = Viewport {
        scroll_top: 0,
        viewport_height: 300,
        item_height: 300,
        items_per_row: 1,
        buffer_rows: 0,
    };

    let result = reconciler.reconcile(&videos, &indices, &viewport2);

    let removes = result
        .operations
        .iter()
        .filter(|op| matches!(op, DomOperation::Remove { .. }))
        .count();
    assert!(removes > 0);
}

#[test]
fn test_operation_batching() {
    let mut batcher = OperationBatcher::new();

    batcher.add_operation(DomOperation::Add { index: 0, video_id: String::from("1") });
    batcher.add_operation(DomOperation::Remove { video_id: String::from("2") });
    batcher.add_operation(DomOperation::Move { video_id: String::from("3"), from: 0, to: 1 });

    let operations = batcher.get_ordered_operations();

    // Verify order: Remove, Move, Add
    assert!(matches!(operations[0], DomOperation::Remove { .. }));
    assert!(matches!(operations[1], DomOperation::Move { .. }));
    assert!(matches!(operations[2], DomOperation::Add { .. }));
}

#[test]
fn test_sort_by_folder() {
    let mut videos = vec![
        create_test_video("1", Some("b_folder"), 100),
        create_test_video("2", Some("a_folder"), 200),
        create_test_video("3", Some("a_folder"), 300),
    ];

    let engine = SortEngine::new(SortMode::Folder);
    engine.sort_videos(&mut videos);

    // Should be sorted: a_folder (newer first), then b_folder
    assert_eq!(videos[0].id, "3");
    assert_eq!(videos[1].id, "2");
    assert_eq!(videos[2].id, "1");
}

#[test]
fn test_sort_by_date() {
    let mut videos = vec![
        create_test_video("1", None, 100),
        create_test_video("2", None, 300),
        create_test_video("3", None, 200),
    ];

    let engine = SortEngine::new(SortMode::Date);
    engine.sort_videos(&mut videos);

    // Should be sorted by date, newest first
    assert_eq!(videos[0].id, "2");
    assert_eq!(videos[1].id, "3");
    assert_eq!(videos[2].id, "1");
}

#[test]
fn test_sort_indices() {
    let videos = vec![
        create_test_video("1", None, 100),
        create_test_video("2", None, 300),
        create_test_video("3", None, 200),
    ];

    let engine = SortEngine::new(SortMode::Date);
    let indices = engine.sort_indices(&videos);

    // Indices should point to sorted order
    assert_eq!(indices[0], 1);
    assert_eq!(indices[1], 2);
    assert_eq!(indices[2], 0);
}

#[test]
fn test_shuffle_is_deterministic_permutation() {
    let videos: Vec<VideoItem> =
        (0..5).map(|i| create_test_video(&i.to_string(), None, i as u64)).collect();
    let engine = SortEngine::new(SortMode::Shuffle);
    let a = engine.sort_indices(&videos);
    let b = engine.sort_indices(&videos);
    assert_eq!(a, b, "the shuffle is deterministic");
    let mut sorted = a.clone();
    sorted.sort();
    assert_eq!(sorted, vec![0, 1, 2, 3, 4], "the shuffle is a permutation");
}

#[test]
fn test_folderless_items_sort_last() {
    let mut videos = vec![
        create_test_video("1", None, 500),
        create_test_video("2", Some("z_folder"), 100),
    ];
    let engine = SortEngine::new(SortMode::Folder);
    engine.sort_videos(&mut videos);
    assert_eq!(videos[0].id, "2");
    assert_eq!(videos[1].id, "1");
}

#[test]
fn test_viewport_priority() {
    let mut manager = VideoStateManager::new(10);

    manager.register(String::from("video1"));
    manager.mark_in_viewport("video1", true);

    let state = manager.get_state("video1").unwrap();
    assert!(state.is_in_viewport);
    assert_eq!(state.load_priority, 10);
}

#[test]
fn test_videos_to_unload() {
    let mut manager = VideoStateManager::new(10);

    // Create 5 loaded videos
    for i in 1..=5 {
        let id = format!("video{}", i);
        manager.register(id.clone());
        manager.update_state(&id, VideoState::Loaded);
    }

    // Mark first 2 as in viewport
    manager.mark_in_viewport("video1", true);
    manager.mark_in_viewport("video2", true);

    // Ask to keep only 3 loaded
    let to_unload = manager.get_videos_to_unload(3);

    // Should unload 2 videos (not in viewport, oldest first)
    assert_eq!(to_unload.len(), 2);
}

#[test]
fn test_register_parks_oldest_over_budget() {
    let mut manager = VideoStateManager::new(2);
    manager.register(String::from("a"));
    manager.update_state("a", VideoState::Loaded);
    manager.register(String::from("b"));
    manager.register(String::from("c"));
    // "a" fell off the queue and was parked
    let a = manager.get_state("a").unwrap();
    assert!(matches!(a.state, VideoState::Paused));
    assert!(!a.is_in_viewport);
    let c = manager.get_state("c").unwrap();
    assert!(matches!(c.state, VideoState::NotLoaded));
}

#[test]
fn test_videos_to_load() {
    let mut manager = VideoStateManager::new(10);
    manager.register(String::from("a"));
    manager.register(String::from("b"));
    manager.update_state(&String::from("b"), VideoState::Loaded);
    let visible = vec![String::from("a"), String::from("b"), String::from("zz")];
    let to_load = manager.get_videos_to_load(&visible);
    // "a" is registered but not loaded; "zz" is unknown; "b" is loaded
    assert_eq!(to_load, vec![String::from("a"), String::from("zz")]);
}

#[test]
fn test_cleanup_inactive() {
    let mut manager = VideoStateManager::new(10);
    manager.register(String::from("stale"));
    manager.register(String::from("fresh"));
    let mut i = 0;
    while i < 20 {
        manager.tick();
        i += 1;
    }
    manager.update_state("fresh", VideoState::Loaded);
    manager.cleanup_inactive(5);
    assert!(manager.get_state("stale").is_none());
    assert!(manager.get_state("fresh").is_some());
}

#[test]
fn test_state_stats() {
    let mut manager = VideoStateManager::new(10);
    manager.register(String::from("a"));
    manager.register(String::from("b"));
    manager.update_state("a", VideoState::Loaded);
    let stats = manager.get_stats();
    assert_eq!(stats.total, 2);
    assert_eq!(stats.loaded, 1);
    assert_eq!(stats.not_loaded, 1);
    assert_eq!(stats.playing, 0);
}

#[test]
fn test_calculate_visible_range() {
    let viewport = Viewport {
        scroll_top: 600,
        viewport_height: 600,
        item_height: 300,
        items_per_row: 3,
        buffer_rows: 1,
    };
    // rows: scroll covers rows 2..4, buffered to 1..5; 20 items = 7 rows
    let (start, end) = viewport.calculate_visible_range(20);
    assert_eq!(start, 3);
    assert_eq!(end, 15);
    // clipped at the end of the collection
    let (start, end) = viewport.calculate_visible_range(5);
    assert_eq!(start, 3);
    assert_eq!(end, 5);
    let (start, end) = viewport.calculate_visible_range(0);
    assert_eq!(start, 0);
    assert_eq!(end, 0);
}

#[test]
fn test_engine_filter_sort_viewport() {
    let mut engine = VideoGridEngine::new(10);
    engine.set_videos(vec![
        create_test_video("1", Some("b"), 100),
        create_test_video("2", Some("a"), 200),
        create_test_video("3", Some("a"), 300),
    ]);
    let count = engine.apply_filters(&criteria());
    assert_eq!(count, 3);
    engine.set_sort_mode("folder");
    let filtered = engine.get_filtered_videos();
    assert_eq!(filtered[0].id, "3");
    assert_eq!(filtered[1].id, "2");
    assert_eq!(filtered[2].id, "1");

    let result = engine.calculate_viewport(0, 600, 300, 3, 0);
    assert_eq!(result.total_items, 3);
    assert_eq!(result.visible_start, 0);
    assert_eq!(result.visible_end, 3);
    assert_eq!(engine.get_visible_range(), vec![0, 3]);

    let to_load = engine.get_videos_to_load();
    assert_eq!(to_load.len(), 3);

    // no element was ever registered with the state manager, so marking a
    // load is a no-op and nothing counts as loaded
    engine.mark_video_loaded(String::from("3"));
    let stats = engine.get_stats();
    assert_eq!(stats.total_videos, 3);
    assert_eq!(stats.filtered_videos, 3);
    assert_eq!(stats.visible_videos, 3);
    assert_eq!(stats.loaded_videos, 0);

    engine.reset();
    let stats = engine.get_stats();
    assert_eq!(stats.total_videos, 0);
    assert_eq!(stats.filtered_videos, 0);
}
