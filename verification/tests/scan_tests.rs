use vdotapes_core::scan::ScanEntry;
use vdotapes_core::scan::VideoScanner;
use vdotapes_core::scan::build_video_record;
use vdotapes_core::scan::extract_folder;
use vdotapes_core::scan::generate_video_id;
use vdotapes_core::scan::get_supported_extensions;
use vdotapes_core::scan::is_valid_video_file;
use vdotapes_core::scan::progress_percent;
use vdotapes_core::scan::should_process_entry;
use vdotapes_core::scan::simple_hash;
use vdotapes_core::util::base36_encode;
use vdotapes_core::util::i64_to_dec;
use vdotapes_core::util::u64_to_dec;

#[test]
fn test_is_valid_video_file() {
    // Valid video files
    assert!(is_valid_video_file("video.mp4"));
    assert!(is_valid_video_file("movie.MKV"));
    assert!(is_valid_video_file("clip.webm"));
    assert!(is_valid_video_file("film.MOV"));
    assert!(is_valid_video_file("recording.avi"));
    assert!(is_valid_video_file("test.wmv"));
    assert!(is_valid_video_file("stream.flv"));
    assert!(is_valid_video_file("media.mkv"));
    assert!(is_valid_video_file("video.m4v"));
    assert!(is_valid_video_file("sound.ogg"));

    // Invalid files
    assert!(!is_valid_video_file("._hidden.mp4"));
    assert!(!is_valid_video_file("._system.mov"));
    assert!(!is_valid_video_file("document.pdf"));
    assert!(!is_valid_video_file("image.png"));
    assert!(!is_valid_video_file("text.txt"));
    assert!(!is_valid_video_file("archive.zip"));
}

#[test]
fn test_generate_video_id_consistency() {
    let id1 = generate_video_id("test.mp4", 1024, 1234567890);
    let id2 = generate_video_id("test.mp4", 1024, 1234567890);
    assert_eq!(id1, id2, "Same inputs should produce same ID");
}

#[test]
fn test_generate_video_id_uniqueness() {
    let id1 = generate_video_id("test.mp4", 1024, 1234567890);
    let id2 = generate_video_id("test.mp4", 2048, 1234567890);
    let id3 = generate_video_id("test.mp4", 1024, 9876543210);
    let id4 = generate_video_id("other.mp4", 1024, 1234567890);

    assert_ne!(id1, id2, "Different size should produce different ID");
    assert_ne!(id1, id3, "Different timestamp should produce different ID");
    assert_ne!(id1, id4, "Different filename should produce different ID");
}

#[test]
fn test_base36_encoding() {
    assert_eq!(base36_encode(0), "0");
    assert_eq!(base36_encode(35), "z");
    assert_eq!(base36_encode(36), "10");
    assert_eq!(base36_encode(1000), "rs");
}

#[test]
fn test_simple_hash() {
    let hash1 = simple_hash("test");
    let hash2 = simple_hash("test");
    assert_eq!(hash1, hash2, "Hash should be consistent");

    let hash3 = simple_hash("different");
    assert_ne!(hash1, hash3, "Different strings should produce different hashes");
}

#[test]
fn test_video_id_format() {
    let id = generate_video_id("test.mp4", 1024, 1234567890);
    assert!(
        id.chars().all(|c| c.is_ascii_digit() || ('a'..='z').contains(&c)),
        "ID should only contain 0-9 and a-z"
    );
}

#[test]
fn test_decimal_rendering() {
    assert_eq!(u64_to_dec(0), "0");
    assert_eq!(u64_to_dec(1024), "1024");
    assert_eq!(i64_to_dec(-42), "-42");
    assert_eq!(i64_to_dec(1234567890), "1234567890");
}

#[test]
fn test_should_process_entry() {
    assert!(should_process_entry("video.mp4", false));
    assert!(should_process_entry("movies", true));
    assert!(!should_process_entry(".hidden", false));
    assert!(!should_process_entry(".git", true));
    assert!(!should_process_entry("node_modules", true));
    // a file may carry an excluded directory's name
    assert!(should_process_entry("node_modules", false));
}

#[test]
fn test_extract_folder_static() {
    // Test root level file (no folder)
    let folder = extract_folder("/base/video.mp4", "/base");
    assert_eq!(folder, "");

    // Test single folder deep
    let folder = extract_folder("/base/movies/video.mp4", "/base");
    assert_eq!(folder, "movies");

    // Test nested folders (should return last folder before filename)
    let folder = extract_folder("/base/videos/2024/movies/action/video.mp4", "/base");
    assert_eq!(folder, "action");

    // Test with system files in path (should filter out)
    let folder = extract_folder("/base/videos/normal/video.mp4", "/base");
    assert_eq!(folder, "normal");
}

#[test]
fn test_extract_folder_outside_base() {
    assert_eq!(extract_folder("/elsewhere/movies/video.mp4", "/base"), "");
}

#[test]
fn test_supported_extensions() {
    let exts = get_supported_extensions();
    assert_eq!(exts.len(), 9);
    assert_eq!(exts[0], ".mp4");
    assert_eq!(exts[8], ".m4v");
}

#[test]
fn test_new_scanner() {
    let scanner = VideoScanner::new();
    let progress = scanner.get_progress();
    assert!(!progress.is_scanning);
    assert_eq!(progress.progress, 0);
    assert_eq!(progress.total_files, 0);
    assert_eq!(progress.processed_files, 0);
    assert_eq!(progress.total_videos, 0);
}

#[test]
fn test_reset() {
    let mut scanner = VideoScanner::new();
    let entries = vec![entry("video.mp4", "/base/video.mp4", true, 10, 5, 5)];
    let now = String::from("2024-01-01T00:00:00+00:00");
    scanner.scan_directory("/base", true, &entries, &now);

    scanner.reset();

    let progress = scanner.get_progress();
    assert!(!progress.is_scanning);
    assert_eq!(progress.progress, 0);
    assert_eq!(progress.total_files, 0);
    assert_eq!(progress.processed_files, 0);
    assert_eq!(progress.total_videos, 0);
}

#[test]
fn test_get_progress() {
    let scanner = VideoScanner::new();
    let progress = scanner.get_progress();

    assert!(!progress.is_scanning);
    assert_eq!(progress.progress, 0);
    assert_eq!(progress.processed_files, 0);
    assert_eq!(progress.total_files, 0);
    assert_eq!(progress.total_videos, 0);
}

#[test]
fn test_get_videos_empty() {
    let scanner = VideoScanner::new();
    let videos = scanner.get_videos();
    assert_eq!(videos.len(), 0);
}

#[test]
fn test_update_progress() {
    assert_eq!(progress_percent(50, 100), 50);
    assert_eq!(progress_percent(0, 100), 0);
    assert_eq!(progress_percent(3, 0), 0);
}

#[test]
fn test_scan_invalid_directory() {
    let mut scanner = VideoScanner::new();
    let now = String::from("2024-01-01T00:00:00+00:00");
    let result = scanner.scan_directory("/nonexistent/path", false, &Vec::new(), &now);

    assert!(!result.success);
    assert!(result.error.is_some());
    assert_eq!(result.error.as_deref(), Some("Invalid directory: /nonexistent/path"));
    assert_eq!(result.videos.len(), 0);
}

fn entry(name: &str, path: &str, is_file: bool, size: u64, lm: i64, created: i64) -> ScanEntry {
    ScanEntry {
        file_name: String::from(name),
        path: String::from(path),
        is_file,
        size,
        last_modified: lm,
        created,
    }
}

#[test]
fn test_scan_collects_videos_and_folders() {
    let mut scanner = VideoScanner::new();
    let now = String::from("2024-01-01T00:00:00+00:00");
    let entries = vec![
        entry("movies", "/base/movies", false, 0, 0, 0),
        entry("b.mkv", "/base/movies/b.mkv", true, 20, 2, 2),
        entry("a.mp4", "/base/a.mp4", true, 10, 1, 1),
        entry("notes.txt", "/base/notes.txt", true, 5, 3, 3),
        entry("clips", "/base/clips", false, 0, 0, 0),
        entry("c.avi", "/base/clips/c.avi", true, 30, 4, 4),
    ];
    let result = scanner.scan_directory("/base", true, &entries, &now);

    assert!(result.success);
    assert_eq!(result.videos.len(), 3);
    assert_eq!(result.videos[0].name, "b.mkv");
    assert_eq!(result.videos[0].folder, "movies");
    assert_eq!(result.videos[1].name, "a.mp4");
    assert_eq!(result.videos[1].folder, "");
    assert_eq!(result.videos[2].folder, "clips");
    // folders: sorted, distinct, non-empty only
    assert_eq!(result.folders, vec![String::from("clips"), String::from("movies")]);
    let stats = result.stats.unwrap();
    assert_eq!(stats.total_files, 4);
    assert_eq!(stats.valid_videos, 3);
    assert_eq!(stats.duplicates, 0);
    assert_eq!(stats.errors, 0);
    let progress = scanner.get_progress();
    assert_eq!(progress.progress, 100);
    assert_eq!(progress.processed_files, 6);
    assert_eq!(progress.total_files, 4);
}

#[test]
fn test_build_video_record_fields() {
    let now = String::from("2024-01-01T00:00:00+00:00");
    let record =
        build_video_record("a.mp4", "/base/movies/a.mp4", "/base", 10, 1234, 1000, &now).unwrap();
    assert_eq!(record.id, generate_video_id("a.mp4", 10, 1234));
    assert_eq!(record.name, "a.mp4");
    assert_eq!(record.path, "/base/movies/a.mp4");
    assert_eq!(record.folder, "movies");
    assert_eq!(record.size, 10);
    assert_eq!(record.last_modified, 1234);
    assert_eq!(record.created, 1000);
    assert_eq!(record.added_at, now);
    assert_eq!(record.updated_at, now);
    assert!(record.duration_ms.is_none());

    assert!(build_video_record("b.txt", "/base/b.txt", "/base", 1, 1, 1, &now).is_none());
}
