use vdotapes_core::extract::FrameSearch;
use vdotapes_core::extract::FrameVerdict;
use vdotapes_core::extract::duration_ms_of;
use vdotapes_core::extract::effective_fps;
use vdotapes_core::extract::is_blank_frame;
use vdotapes_core::extract::is_blank_frame_with;
use vdotapes_core::extract::metadata_of;
use vdotapes_core::extract::seek_target_units;
use vdotapes_core::extract::smart_timestamp;

#[test]
fn test_is_blank_frame() {
    // a plane too small to judge counts as blank
    assert!(is_blank_frame(&[200u8; 50]));
    // an all-black plane is blank
    assert!(is_blank_frame(&vec![0u8; 2000]));
    // a bright plane is not
    assert!(!is_blank_frame(&vec![200u8; 2000]));
    // 90% dark samples is not enough; it takes strictly more
    let mut mixed = vec![0u8; 1000];
    let mut i = 0;
    while i < 1000 {
        if (i / 10) % 10 == 0 {
            mixed[i] = 100;
        }
        i += 10;
    }
    assert!(!is_blank_frame(&mixed));
}

#[test]
fn test_blank_heuristic_tunable() {
    let mid_gray = vec![100u8; 1000];
    // under the default threshold of 20 a mid-gray plane is not blank
    assert!(!is_blank_frame_with(&mid_gray, 20, 10));
    assert!(!is_blank_frame(&mid_gray));
    // a higher threshold classifies the same plane as blank
    assert!(is_blank_frame_with(&mid_gray, 200, 10));
    // a coarser stride still judges an all-black plane blank
    assert!(is_blank_frame_with(&vec![0u8; 1000], 20, 100));
}

#[test]
fn test_smart_timestamp_typical() {
    // 60 seconds: 10% in
    assert_eq!(smart_timestamp(60_000), 6_000);
    // short video: clamped up to one second
    assert_eq!(smart_timestamp(5_000), 1_000);
    // long video: clamped down to thirty seconds
    assert_eq!(smart_timestamp(3_600_000), 30_000);
    // never closer than one second to the end
    assert_eq!(smart_timestamp(1_500), 500);
    // a degenerate duration falls through the same clamping arithmetic
    assert_eq!(smart_timestamp(500), -500);
}

#[test]
fn test_duration_scaling() {
    // 900 units at a 1/90000 time base: 10 ms
    assert_eq!(duration_ms_of(900, 1, 90000), 10);
    // a 1/1000 time base is already milliseconds
    assert_eq!(duration_ms_of(1234, 1, 1000), 1234);
    assert_eq!(duration_ms_of(-900, 1, 90000), -10);
}

#[test]
fn test_seek_target() {
    // 5 seconds at a 1/90000 time base
    assert_eq!(seek_target_units(5_000, 1, 90000), 450_000);
    // truncation toward zero
    assert_eq!(seek_target_units(999, 1, 1), 0);
    assert_eq!(seek_target_units(-5_000, 1, 90000), -450_000);
}

#[test]
fn test_fps_fallback() {
    assert_eq!(effective_fps(30000, 1001), (30000, 1001));
    assert_eq!(effective_fps(25, 0), (30, 1));
    assert_eq!(effective_fps(25, -1), (30, 1));
}

#[test]
fn test_metadata_assembly() {
    let m = metadata_of(5_400_000, 1, 90000, 1920, 1080, String::from("h264"), 4_000_000, 0, 0);
    assert_eq!(m.duration_ms, 60_000);
    assert_eq!(m.width, 1920);
    assert_eq!(m.height, 1080);
    assert_eq!(m.codec, "h264");
    assert_eq!(m.bitrate, 4_000_000);
    assert_eq!(m.fps_num, 30);
    assert_eq!(m.fps_den, 1);
}

#[test]
fn test_frame_search_accepts_first_good_frame() {
    let mut search = FrameSearch::new();
    let blank = vec![0u8; 1000];
    let good = vec![180u8; 1000];
    assert!(matches!(search.offer(&blank), FrameVerdict::Skip));
    assert!(matches!(search.offer(&blank), FrameVerdict::Skip));
    assert!(matches!(search.offer(&good), FrameVerdict::Accept));
}

#[test]
fn test_frame_search_gives_up_after_budget() {
    let mut search = FrameSearch::new();
    let blank = vec![0u8; 1000];
    let mut i = 0;
    while i < 29 {
        assert!(matches!(search.offer(&blank), FrameVerdict::Skip));
        i += 1;
    }
    assert!(matches!(search.offer(&blank), FrameVerdict::GiveUp));
}
