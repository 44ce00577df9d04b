use vdotapes_core::cache::ThumbnailCache;
use vdotapes_core::extract::smart_timestamp;
use vdotapes_core::generate::GenEvent;
use vdotapes_core::generate::GenPhase;
use vdotapes_core::generate::ThumbnailGenerator;
use vdotapes_core::raster::RgbRaster;
use vdotapes_core::raster::fit_dimensions;
use vdotapes_core::raster::jpeg_encode;
use vdotapes_core::raster::lanczos_resize;
use vdotapes_core::raster::pack_rows;
use vdotapes_core::raster::png_encode;
use vdotapes_core::types::ThumbnailConfig;
use vdotapes_core::types::ThumbnailError;

fn gray_raster(width: u32, height: u32, luma: u8) -> RgbRaster {
    RgbRaster { width, height, data: vec![luma; (width * height * 3) as usize] }
}

#[test]
fn test_resize_aspect_ratio() {
    let img = gray_raster(1920, 1080, 128);
    let resized = lanczos_resize(&img, 1280, 720);
    assert_eq!(resized.width, 1280);
    assert!(resized.height <= 720);
    assert_eq!(resized.data.len(), 1280 * 720 * 3);
}

#[test]
fn test_fit_dimensions_policy() {
    // matching aspect fits both sides exactly
    assert_eq!(fit_dimensions(1920, 1080, 1280, 720), (1280, 720));
    // a relatively wider source fits to the width
    assert_eq!(fit_dimensions(100, 50, 30, 40), (30, 15));
    // a relatively taller source fits to the height
    assert_eq!(fit_dimensions(50, 100, 40, 30), (15, 30));
    // the output never exceeds the box
    let (w, h) = fit_dimensions(123, 77, 40, 40);
    assert!(w <= 40 && h <= 40);
    assert!(w == 40 || h == 40);
}

#[test]
fn test_pack_rows_drops_stride_padding() {
    // two rows of three pixels with four bytes of padding per row
    let mut plane = Vec::new();
    for row in 0..2u8 {
        for k in 0..9u8 {
            plane.push(row * 10 + k);
        }
        for _ in 0..4 {
            plane.push(0xEE);
        }
    }
    let packed = pack_rows(&plane, 13, 3, 2);
    assert_eq!(packed.len(), 18);
    assert_eq!(&packed[0..9], &[0, 1, 2, 3, 4, 5, 6, 7, 8]);
    assert_eq!(&packed[9..18], &[10, 11, 12, 13, 14, 15, 16, 17, 18]);
}

#[test]
fn test_jpeg_encoder_emits_jpeg() {
    let raster = gray_raster(8, 8, 90);
    let bytes = jpeg_encode(&raster, 85).unwrap();
    assert!(bytes.len() > 2);
    assert_eq!(bytes[0], 0xFF);
    assert_eq!(bytes[1], 0xD8);
}

#[test]
fn test_png_encoder_emits_png() {
    let raster = gray_raster(8, 8, 90);
    let bytes = png_encode(&raster).unwrap();
    assert!(bytes.len() > 8);
    assert_eq!(&bytes[0..4], &[0x89, b'P', b'N', b'G']);
}

#[test]
fn test_generate_missing_file() {
    let gen = ThumbnailGenerator::new(String::from("/tmp/cache"), None);
    let phase = gen.step("/no/such/file.mp4", Some(5000), GenPhase::Start, GenEvent::Exists(false));
    match phase {
        GenPhase::Done { result } => {
            assert!(!result.success);
            assert_eq!(result.error.as_deref(), Some("Video file not found: /no/such/file.mp4"));
            assert!(result.thumbnail_path.is_none());
            assert_eq!(result.file_size, 0);
        },
        _ => panic!("a missing file must end the request"),
    }
}

#[test]
fn test_generate_miss_then_hit() {
    let gen = ThumbnailGenerator::new(String::from("/tmp/cache"), None);
    let video = "/tmp/v.mp4";

    // first request: no timestamp given, cache cold
    let phase = gen.step(video, None, GenPhase::Start, GenEvent::Exists(true));
    assert!(matches!(phase, GenPhase::ResolveTimestamp));
    let ts = smart_timestamp(60_000);
    assert!(1000 <= ts && ts <= 6000);
    let phase = gen.step(video, None, phase, GenEvent::Smart(Ok(ts)));
    let key = match &phase {
        GenPhase::Lookup { ts_ms } => ThumbnailCache::cache_key(video, *ts_ms),
        _ => panic!("a smart timestamp must lead to the cache lookup"),
    };
    let stored_path = gen.cache_ref().get_cache_path(&key, "jpeg");
    let phase = gen.step(video, None, phase, GenEvent::Cached(None));
    assert!(matches!(phase, GenPhase::Extract { .. }));
    let frame = gray_raster(160, 90, 140);
    let phase = gen.step(video, None, phase, GenEvent::Frame(Ok(frame)));
    let encoded_len = match &phase {
        GenPhase::Store { encoded, .. } => {
            assert!(encoded.len() > 0);
            encoded.len() as i64
        },
        _ => panic!("a decoded frame must be rendered and stored"),
    };
    let phase = gen.step(video, None, phase, GenEvent::Persisted(Ok(stored_path.clone())));
    match phase {
        GenPhase::Done { result } => {
            assert!(result.success);
            assert_eq!(result.thumbnail_path.as_deref(), Some(stored_path.as_str()));
            assert_eq!(result.width, 1280);
            assert_eq!(result.height, 720);
            assert_eq!(result.file_size, encoded_len);
            assert_eq!(result.timestamp_ms, ts);
        },
        _ => panic!("a completed write must end the request"),
    }

    // second request with the same arguments: the key is identical, the
    // cache answers, and the configured dimensions are reported
    let key2 = ThumbnailCache::cache_key(video, ts);
    assert_eq!(key, key2);
    let phase = gen.step(video, Some(ts), GenPhase::Start, GenEvent::Exists(true));
    assert!(matches!(phase, GenPhase::Lookup { .. }));
    let phase = gen.step(
        video,
        Some(ts),
        phase,
        GenEvent::Cached(Some((stored_path.clone(), encoded_len))),
    );
    match phase {
        GenPhase::Done { result } => {
            assert!(result.success);
            assert_eq!(result.thumbnail_path.as_deref(), Some(stored_path.as_str()));
            assert_eq!(result.width, 1280);
            assert_eq!(result.height, 720);
            assert_eq!(result.file_size, encoded_len);
        },
        _ => panic!("a hit must end the request"),
    }
}

#[test]
fn test_generate_unsupported_format() {
    let config = ThumbnailConfig {
        width: 320,
        height: 240,
        quality: 85,
        format: String::from("gif"),
    };
    let gen = ThumbnailGenerator::new(String::from("/tmp/cache"), Some(config));
    let phase = GenPhase::Extract { ts_ms: 1000 };
    let frame = gray_raster(64, 64, 140);
    let phase = gen.step("/tmp/v.mp4", Some(1000), phase, GenEvent::Frame(Ok(frame)));
    match phase {
        GenPhase::Done { result } => {
            assert!(!result.success);
            assert_eq!(result.error.as_deref(), Some("Encoding error: Unsupported format: gif"));
        },
        _ => panic!("an unsupported format must fail the request"),
    }
}

#[test]
fn test_generate_codec_failure() {
    let gen = ThumbnailGenerator::new(String::from("/tmp/cache"), None);
    let phase = gen.step(
        "/tmp/v.mp4",
        None,
        GenPhase::ResolveTimestamp,
        GenEvent::Smart(Err(String::from("moov atom not found"))),
    );
    match phase {
        GenPhase::Done { result } => {
            assert!(!result.success);
            assert_eq!(result.error.as_deref(), Some("FFmpeg error: moov atom not found"));
        },
        _ => panic!("a codec failure must end the request"),
    }
}

#[test]
fn test_generate_io_failure() {
    let gen = ThumbnailGenerator::new(String::from("/tmp/cache"), None);
    let phase = GenPhase::Store { ts_ms: 2000, encoded: vec![1, 2, 3] };
    let phase = gen.step(
        "/tmp/v.mp4",
        Some(2000),
        phase,
        GenEvent::Persisted(Err(String::from("disk full"))),
    );
    match phase {
        GenPhase::Done { result } => {
            assert!(!result.success);
            assert_eq!(result.error.as_deref(), Some("IO error: disk full"));
            assert_eq!(result.timestamp_ms, 2000);
        },
        _ => panic!("an I/O failure must end the request"),
    }
}

#[test]
fn test_lookup_key_defaults_to_zero() {
    let gen = ThumbnailGenerator::new(String::from("/tmp/cache"), None);
    let absent = gen.lookup_key("/tmp/v.mp4", None);
    let zero = ThumbnailCache::cache_key("/tmp/v.mp4", 0);
    assert_eq!(absent, zero);
    let explicit = gen.lookup_key("/tmp/v.mp4", Some(7000));
    assert_eq!(explicit, ThumbnailCache::cache_key("/tmp/v.mp4", 7000));
    assert_ne!(absent, explicit);
}

#[test]
fn test_default_config() {
    let config = ThumbnailConfig::default();
    assert_eq!(config.width, 1280);
    assert_eq!(config.height, 720);
    assert_eq!(config.quality, 85);
    assert_eq!(config.format, "jpeg");
}

#[test]
fn test_webp_falls_back_to_jpeg() {
    let config = ThumbnailConfig {
        width: 320,
        height: 240,
        quality: 85,
        format: String::from("webp"),
    };
    let gen = ThumbnailGenerator::new(String::from("/tmp/cache"), Some(config));
    let raster = gray_raster(32, 32, 100);
    let bytes = gen.render(&raster).unwrap();
    assert_eq!(bytes[0], 0xFF);
    assert_eq!(bytes[1], 0xD8);
}

#[test]
fn test_render_succeeds_within_limits() {
    // png path through the full render
    let config = ThumbnailConfig {
        width: 320,
        height: 240,
        quality: 85,
        format: String::from("png"),
    };
    let gen = ThumbnailGenerator::new(String::from("/tmp/cache"), Some(config));
    let raster = gray_raster(64, 48, 120);
    let bytes = gen.render(&raster).unwrap();
    assert_eq!(&bytes[0..4], &[0x89, b'P', b'N', b'G']);

    // an extreme aspect ratio fits to a zero height; the JPEG encoder still
    // accepts it (both dimensions within its 65535 limit)
    let gen = ThumbnailGenerator::new(String::from("/tmp/cache"), None);
    let wide = gray_raster(4000, 1, 140);
    let bytes = gen.render(&wide).unwrap();
    assert!(bytes.len() > 0);
    assert_eq!(bytes[0], 0xFF);
    assert_eq!(bytes[1], 0xD8);
}

#[test]
fn test_render_rejects_outside_png_limits() {
    // the same zero-height fit is outside the PNG encoder's limits
    let config = ThumbnailConfig {
        width: 1280,
        height: 720,
        quality: 85,
        format: String::from("png"),
    };
    let gen = ThumbnailGenerator::new(String::from("/tmp/cache"), Some(config));
    let wide = gray_raster(4000, 1, 140);
    let outcome = gen.render(&wide);
    assert!(matches!(outcome, Err(ThumbnailError::EncodingError(_))));
}

#[test]
fn test_error_messages() {
    assert_eq!(
        ThumbnailError::FileNotFound(String::from("/a.mp4")).message(),
        "Video file not found: /a.mp4"
    );
    assert_eq!(ThumbnailError::FFmpegError(String::from("boom")).message(), "FFmpeg error: boom");
    assert_eq!(ThumbnailError::InvalidTimestamp(-7).message(), "Invalid timestamp: -7");
    assert_eq!(ThumbnailError::EncodingError(String::from("e")).message(), "Encoding error: e");
    assert_eq!(ThumbnailError::CacheError(String::from("c")).message(), "Cache error: c");
    assert_eq!(ThumbnailError::IoError(String::from("i")).message(), "IO error: i");
    assert_eq!(ThumbnailError::NoVideoStream.message(), "No video stream found");
    assert_eq!(ThumbnailError::NoValidFrame.message(), "No valid frame found");
    assert_eq!(ThumbnailError::ImageError(String::from("x")).message(), "Image error: x");
}
