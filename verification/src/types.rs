//! Shared data types of the thumbnail subsystem.
//!
//! Durations and timestamps are carried as integer milliseconds, sizes as
//! integer bytes, and frame rates as rationals, so every field is a plain
//! value the contracts can speak about.

use vstd::prelude::*;
use crate::util::dec_str_i64;
use crate::util::i64_to_dec;

verus! {

/// Configuration for thumbnail generation.
pub struct ThumbnailConfig {
    pub width: u32,
    pub height: u32,
    /// JPEG quality, 1-100.
    pub quality: u8,
    /// "jpeg", "png", or "webp".
    pub format: String,
}

impl ThumbnailConfig {
    /// A configuration the generator can act on: a non-degenerate target box
    /// whose raster fits in memory, and a quality the encoder accepts.
    pub open spec fn wf(&self) -> bool {
        &&& 1 <= self.quality <= 100
        &&& 1 <= self.width
        &&& 1 <= self.height
        &&& self.width as int * self.height as int * 3 <= usize::MAX as int
    }
}

impl Clone for ThumbnailConfig {
    fn clone(&self) -> (r: Self)
        ensures
            r.width == self.width,
            r.height == self.height,
            r.quality == self.quality,
            r.format@ == self.format@,
    {
        ThumbnailConfig {
            width: self.width,
            height: self.height,
            quality: self.quality,
            format: self.format.clone(),
        }
    }
}

impl Default for ThumbnailConfig {
    fn default() -> (r: Self)
        ensures
            r.width == 1280,
            r.height == 720,
            r.quality == 85,
            r.format@ == "jpeg"@,
            r.wf(),
    {
        ThumbnailConfig { width: 1280, height: 720, quality: 85, format: String::from_str("jpeg") }
    }
}

/// Result of one thumbnail generation request. Failure is encoded as
/// `success == false` plus a message, never as a propagated fault.
pub struct ThumbnailResult {
    pub success: bool,
    pub thumbnail_path: Option<String>,
    pub width: u32,
    pub height: u32,
    pub format: String,
    pub file_size: i64,
    /// Resolved position in the video, in milliseconds.
    pub timestamp_ms: i64,
    pub error: Option<String>,
}

/// Video metadata derived from the container's stream headers.
pub struct VideoMetadata {
    /// Total duration in milliseconds.
    pub duration_ms: i64,
    pub width: u32,
    pub height: u32,
    pub codec: String,
    pub bitrate: i64,
    /// Frame rate as a rational `fps_num / fps_den`.
    pub fps_num: i32,
    pub fps_den: i32,
}

/// Cache statistics.
pub struct CacheStats {
    pub total_thumbnails: i32,
    pub total_size_bytes: i64,
    pub cache_dir: String,
}

/// Error taxonomy of the thumbnail subsystem.
#[derive(Debug)]
pub enum ThumbnailError {
    FileNotFound(String),
    FFmpegError(String),
    InvalidTimestamp(i64),
    EncodingError(String),
    CacheError(String),
    IoError(String),
    NoVideoStream,
    NoValidFrame,
    ImageError(String),
}

impl ThumbnailError {
    /// The human-readable message carried by each error variant.
    pub open spec fn message_spec(&self) -> Seq<char> {
        match self {
            ThumbnailError::FileNotFound(s) => "Video file not found: "@ + s@,
            ThumbnailError::FFmpegError(s) => "FFmpeg error: "@ + s@,
            ThumbnailError::InvalidTimestamp(t) => "Invalid timestamp: "@ + dec_str_i64(*t),
            ThumbnailError::EncodingError(s) => "Encoding error: "@ + s@,
            ThumbnailError::CacheError(s) => "Cache error: "@ + s@,
            ThumbnailError::IoError(s) => "IO error: "@ + s@,
            ThumbnailError::NoVideoStream => "No video stream found"@,
            ThumbnailError::NoValidFrame => "No valid frame found"@,
            ThumbnailError::ImageError(s) => "Image error: "@ + s@,
        }
    }

    /// Render the error as its message.
    pub fn message(&self) -> (r: String)
        ensures
            r@ == self.message_spec(),
    {
        match self {
            ThumbnailError::FileNotFound(s) => {
                let mut m = String::from_str("Video file not found: ");
                m.append(s.as_str());
                m
            },
            ThumbnailError::FFmpegError(s) => {
                let mut m = String::from_str("FFmpeg error: ");
                m.append(s.as_str());
                m
            },
            ThumbnailError::InvalidTimestamp(t) => {
                let mut m = String::from_str("Invalid timestamp: ");
                let d = i64_to_dec(*t);
                m.append(d.as_str());
                m
            },
            ThumbnailError::EncodingError(s) => {
                let mut m = String::from_str("Encoding error: ");
                m.append(s.as_str());
                m
            },
            ThumbnailError::CacheError(s) => {
                let mut m = String::from_str("Cache error: ");
                m.append(s.as_str());
                m
            },
            ThumbnailError::IoError(s) => {
                let mut m = String::from_str("IO error: ");
                m.append(s.as_str());
                m
            },
            ThumbnailError::NoVideoStream => String::from_str("No video stream found"),
            ThumbnailError::NoValidFrame => String::from_str("No valid frame found"),
            ThumbnailError::ImageError(s) => {
                let mut m = String::from_str("Image error: ");
                m.append(s.as_str());
                m
            },
        }
    }
}

} // verus!
