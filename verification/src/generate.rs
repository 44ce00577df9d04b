//! The thumbnail orchestrator.
//!
//! A `generate` request runs as a small state machine: the host performs each
//! I/O action (existence check, container open, cache lookup, frame decode,
//! atomic write) and feeds the outcome back as an event; `step` makes every
//! decision in between and builds the final result. A request never fails the
//! call itself: every error becomes a result with `success == false` and a
//! descriptive message.

use vstd::prelude::*;
use crate::cache::ThumbnailCache;
use crate::cache::cache_key_of;
use crate::raster::RgbRaster;
use crate::raster::fit_dimensions;
use crate::raster::fit_height;
use crate::raster::fit_width;
use crate::raster::jpeg_encode;
use crate::raster::jpeg_encoding_of;
use crate::raster::lanczos_resize;
use crate::raster::lanczos_resize_of;
use crate::raster::png_encode;
use crate::raster::png_encoding_of;
use crate::types::ThumbnailConfig;
use crate::types::ThumbnailError;
use crate::types::ThumbnailResult;
use crate::util::lower_of;
use crate::util::to_lowercase;
use vstd::string::StringExecFns;

verus! {

/// Formats encoded by the JPEG encoder: "jpeg", "jpg", and the "webp" alias
/// (no dedicated encoder is assumed available, so it falls back to JPEG).
pub open spec fn is_jpeg_format(f: Seq<char>) -> bool {
    f == "jpeg"@ || f == "jpg"@ || f == "webp"@
}

/// Formats the generator can encode at all.
pub open spec fn is_supported_format(f: Seq<char>) -> bool {
    is_jpeg_format(f) || f == "png"@
}

/// The dimensions the resize step yields for a source raster under a
/// configuration: the aspect-preserving fit into the configured box.
pub open spec fn resized_width(cfg: ThumbnailConfig, raster: RgbRaster) -> int {
    fit_width(raster.width, raster.height, cfg.width, cfg.height)
}

pub open spec fn resized_height(cfg: ThumbnailConfig, raster: RgbRaster) -> int {
    fit_height(raster.width, raster.height, cfg.width, cfg.height)
}

/// The bytes a successful render of `raster` produces: Lanczos3 resampling to
/// the fitted dimensions, then the configured encoding.
pub open spec fn rendered_bytes(cfg: ThumbnailConfig, raster: RgbRaster) -> Seq<u8> {
    let nw = resized_width(cfg, raster) as u32;
    let nh = resized_height(cfg, raster) as u32;
    let rdata = lanczos_resize_of(raster.data@, raster.width, raster.height, nw, nh);
    if is_jpeg_format(lower_of(cfg.format@)) {
        jpeg_encoding_of(rdata, nw, nh, cfg.quality)
    } else {
        png_encoding_of(rdata, nw, nh)
    }
}

/// Whether the fitted output dimensions lie within the configured encoder's
/// limits: the JPEG encoder takes any dimensions up to 65535; the PNG encoder
/// takes any non-zero dimensions.
pub open spec fn render_within_limits(cfg: ThumbnailConfig, raster: RgbRaster) -> bool {
    let nw = resized_width(cfg, raster);
    let nh = resized_height(cfg, raster);
    if is_jpeg_format(lower_of(cfg.format@)) {
        nw <= 65535 && nh <= 65535
    } else {
        1 <= nw && 1 <= nh
    }
}

/// The exact error an unsupported format string is rejected with.
pub open spec fn is_unsupported_format_error(e: ThumbnailError, cfg: ThumbnailConfig) -> bool {
    e matches ThumbnailError::EncodingError(m) && m@ == "Unsupported format: "@ + cfg.format@
}

/// A failed request: no path, zero dimensions and size, the configured
/// format, the given timestamp, and exactly the given message.
pub open spec fn failure_result_shape(
    res: ThumbnailResult,
    cfg: ThumbnailConfig,
    ts: int,
    msg: Seq<char>,
) -> bool {
    &&& res.success == false
    &&& res.thumbnail_path is None
    &&& res.width == 0
    &&& res.height == 0
    &&& res.format@ == cfg.format@
    &&& res.file_size == 0
    &&& res.timestamp_ms == ts
    &&& res.error matches Some(m) && m@ == msg
}

/// A cache hit: the cached path and its on-disk size, with the configured
/// width and height reported rather than measurements of the cached file.
pub open spec fn hit_result_shape(
    res: ThumbnailResult,
    cfg: ThumbnailConfig,
    path: Seq<char>,
    size: i64,
    ts: int,
) -> bool {
    &&& res.success == true
    &&& res.thumbnail_path matches Some(p) && p@ == path
    &&& res.width == cfg.width
    &&& res.height == cfg.height
    &&& res.format@ == cfg.format@
    &&& res.file_size == size
    &&& res.timestamp_ms == ts
    &&& res.error is None
}

/// A freshly generated thumbnail: the new path and the true encoded byte
/// count, with the configured width and height reported.
pub open spec fn stored_result_shape(
    res: ThumbnailResult,
    cfg: ThumbnailConfig,
    path: Seq<char>,
    size: int,
    ts: int,
) -> bool {
    &&& res.success == true
    &&& res.thumbnail_path matches Some(p) && p@ == path
    &&& res.width == cfg.width
    &&& res.height == cfg.height
    &&& res.format@ == cfg.format@
    &&& res.file_size == size
    &&& res.timestamp_ms == ts
    &&& res.error is None
}

/// Where a `generate` request stands between two host actions.
pub enum GenPhase {
    /// Nothing checked yet; the host must report whether the file exists.
    Start,
    /// No timestamp was requested; the host must derive the smart timestamp.
    ResolveTimestamp,
    /// The timestamp is resolved; the host must look the key up in the cache.
    Lookup { ts_ms: i64 },
    /// Cache miss; the host must decode a frame at the timestamp.
    Extract { ts_ms: i64 },
    /// A thumbnail was rendered; the host must write it through the cache.
    Store { ts_ms: i64, encoded: Vec<u8> },
    /// The request is finished.
    Done { result: ThumbnailResult },
}

/// What the host reports back after performing the pending action.
pub enum GenEvent {
    /// Whether the video file exists.
    Exists(bool),
    /// The smart timestamp, or the codec error message from opening the file.
    Smart(Result<i64, String>),
    /// The cached entry as `(absolute path, byte size)`, or a miss.
    Cached(Option<(String, i64)>),
    /// A decoded, packed RGB frame, or the extraction error message.
    Frame(Result<RgbRaster, String>),
    /// The final path of the atomic write, or the I/O error message.
    Persisted(Result<String, String>),
}

/// Thumbnail generator: output configuration plus the cache it writes
/// through.
pub struct ThumbnailGenerator {
    config: ThumbnailConfig,
    cache: ThumbnailCache,
}

impl ThumbnailGenerator {
    /// The output configuration.
    pub closed spec fn cfg(&self) -> ThumbnailConfig {
        self.config
    }

    /// The cache written through.
    pub closed spec fn store(&self) -> ThumbnailCache {
        self.cache
    }

    /// Create a generator over the given cache directory, with a 500 MiB
    /// cache budget and, absent an explicit configuration, the default one.
    pub fn new(cache_dir: String, config: Option<ThumbnailConfig>) -> (r: Self)
        ensures
            r.store().dir() == cache_dir@,
            r.store().max_size() == 500 * 1024 * 1024,
            config matches Some(c) ==> r.cfg() == c,
            config is None ==> r.cfg().width == 1280 && r.cfg().height == 720 && r.cfg().quality
                == 85 && r.cfg().format@ == "jpeg"@,
    {
        let config = match config {
            Some(c) => c,
            None => Default::default(),
        };
        let max_cache_size: u64 = 500 * 1024 * 1024;
        let cache = ThumbnailCache::new(cache_dir, max_cache_size);
        ThumbnailGenerator { config, cache }
    }

    /// Borrow the cache, for path derivation and eviction planning.
    pub fn cache_ref(&self) -> (r: &ThumbnailCache)
        ensures
            r == self.store(),
    {
        &self.cache
    }

    /// Borrow the configuration.
    pub fn config_ref(&self) -> (r: &ThumbnailConfig)
        ensures
            r == self.cfg(),
    {
        &self.config
    }

    /// The cache key a lookup-only request uses: an absent timestamp is
    /// taken literally as zero; no smart default is derived here.
    pub fn lookup_key(&self, video_path: &str, timestamp_ms: Option<i64>) -> (r: String)
        ensures
            r@ == cache_key_of(
                video_path,
                match timestamp_ms {
                    Some(t) => t,
                    None => 0,
                },
            ),
    {
        let ts: i64 = match timestamp_ms {
            Some(t) => t,
            None => 0,
        };
        ThumbnailCache::cache_key(video_path, ts)
    }

    /// Resize a decoded frame into the configured box and encode it in the
    /// configured format. An unsupported format string is rejected with an
    /// exact message; within the configured encoder's limits the render
    /// succeeds with the exact encoded bytes; an encoder failure beyond them
    /// is reported as an encoding error.
    pub fn render(&self, raster: &RgbRaster) -> (r: Result<Vec<u8>, ThumbnailError>)
        requires
            self.cfg().wf(),
            raster.wf(),
            1 <= raster.width,
            1 <= raster.height,
        ensures
            r matches Ok(bytes) ==> is_supported_format(lower_of(self.cfg().format@)) && bytes@
                == rendered_bytes(self.cfg(), *raster) && bytes@.len() > 0,
            r matches Err(e) ==> e matches ThumbnailError::EncodingError(_),
            !is_supported_format(lower_of(self.cfg().format@)) ==> (r matches Err(e)
                && is_unsupported_format_error(e, self.cfg())),
            is_supported_format(lower_of(self.cfg().format@)) && render_within_limits(
                self.cfg(),
                *raster,
            ) ==> r is Ok,
    {
        let (nw, nh) = fit_dimensions(raster.width, raster.height, self.config.width, self.config.height);
        proof {
            lemma_fitted_box_fits(
                nw as int,
                nh as int,
                self.config.width as int,
                self.config.height as int,
            );
        }
        let resized = lanczos_resize(raster, nw, nh);
        let lowered = to_lowercase(self.config.format.as_str());
        let jpeg_name = String::from_str("jpeg");
        let jpg_name = String::from_str("jpg");
        let webp_name = String::from_str("webp");
        let png_name = String::from_str("png");
        if lowered == jpeg_name || lowered == jpg_name || lowered == webp_name {
            match jpeg_encode(&resized, self.config.quality) {
                Ok(bytes) => Ok(bytes),
                Err(m) => Err(ThumbnailError::EncodingError(m)),
            }
        } else if lowered == png_name {
            match png_encode(&resized) {
                Ok(bytes) => Ok(bytes),
                Err(m) => Err(ThumbnailError::EncodingError(m)),
            }
        } else {
            let mut m = String::from_str("Unsupported format: ");
            m.append(self.config.format.as_str());
            Err(ThumbnailError::EncodingError(m))
        }
    }

    /// Advance a `generate` request by one host action.
    ///
    /// Each transition pins the next phase or the final result exactly: a
    /// missing file fails up front naming the path; a hit returns the cached
    /// path with the configured dimensions; a miss renders and stores the
    /// frame and returns the true encoded size.
    pub fn step(
        &self,
        video_path: &str,
        requested_ms: Option<i64>,
        phase: GenPhase,
        event: GenEvent,
    ) -> (r: GenPhase)
        requires
            self.cfg().wf(),
            phase is Start ==> event is Exists,
            phase is ResolveTimestamp ==> event is Smart,
            phase is Lookup ==> event is Cached,
            phase is Extract ==> event is Frame,
            phase is Store ==> event is Persisted,
            !(phase is Done),
            event matches GenEvent::Frame(Ok(raster)) ==> raster.wf() && 1 <= raster.width && 1
                <= raster.height,
            phase matches GenPhase::Store { ts_ms, encoded } ==> encoded@.len() <= i64::MAX,
        ensures
            // a missing file fails the request up front, naming the path
            (phase is Start && event matches GenEvent::Exists(false)) ==> (
            r matches GenPhase::Done { result } && failure_result_shape(
                result,
                self.cfg(),
                0,
                "Video file not found: "@ + video_path@,
            )),
            // an existing file proceeds with the requested timestamp, or asks
            // for the smart default
            (phase is Start && event matches GenEvent::Exists(true)) ==> (match requested_ms {
                Some(t) => r matches GenPhase::Lookup { ts_ms } && ts_ms == t,
                None => r is ResolveTimestamp,
            }),
            // the derived smart timestamp feeds the cache lookup; failure to
            // open the container fails the request
            phase is ResolveTimestamp ==> (match event {
                GenEvent::Smart(Ok(t)) => r matches GenPhase::Lookup { ts_ms } && ts_ms == t,
                GenEvent::Smart(Err(m)) => r matches GenPhase::Done { result }
                    && failure_result_shape(result, self.cfg(), 0, "FFmpeg error: "@ + m@),
                _ => true,
            }),
            // a cache hit returns immediately with the cached path and size
            // and the configured dimensions; a miss moves on to decoding at
            // the same timestamp
            phase matches GenPhase::Lookup { ts_ms } ==> (match event {
                GenEvent::Cached(Some((path, size))) => r matches GenPhase::Done { result }
                    && hit_result_shape(result, self.cfg(), path@, size, ts_ms as int),
                GenEvent::Cached(None) => r matches GenPhase::Extract { ts_ms: t2 } && t2
                    == ts_ms,
                _ => true,
            }),
            // a failed extraction fails the request with its message; a
            // decoded frame is rendered: an unsupported format is rejected
            // with an exact message; within the encoder's limits the render
            // succeeds and carries the exact, non-empty encoded bytes to the
            // store phase; beyond them an encoder failure fails the request
            // with the encoder's message
            phase matches GenPhase::Extract { ts_ms } ==> (match event {
                GenEvent::Frame(Err(m)) => r matches GenPhase::Done { result }
                    && failure_result_shape(result, self.cfg(), ts_ms as int, m@),
                GenEvent::Frame(Ok(raster)) => {
                    if !is_supported_format(lower_of(self.cfg().format@)) {
                        r matches GenPhase::Done { result } && failure_result_shape(
                            result,
                            self.cfg(),
                            ts_ms as int,
                            "Encoding error: "@ + ("Unsupported format: "@
                                + self.cfg().format@),
                        )
                    } else if render_within_limits(self.cfg(), raster) {
                        r matches GenPhase::Store { ts_ms: t2, encoded } && t2 == ts_ms
                            && encoded@ == rendered_bytes(self.cfg(), raster) && encoded@.len()
                            > 0
                    } else {
                        (r matches GenPhase::Store { ts_ms: t2, encoded } && t2 == ts_ms
                            && encoded@ == rendered_bytes(self.cfg(), raster) && encoded@.len()
                            > 0) || (
                        r matches GenPhase::Done { result } && result.success == false
                            && result.timestamp_ms == ts_ms && (result.error matches Some(e)
                            && exists|m: Seq<char>| e@ == "Encoding error: "@ + m))
                    }
                },
                _ => true,
            }),
            // a completed write returns the new path and the true encoded
            // size; a failed write fails the request as an I/O error
            phase matches GenPhase::Store { ts_ms, encoded } ==> (match event {
                GenEvent::Persisted(Ok(path)) => r matches GenPhase::Done { result }
                    && stored_result_shape(
                    result,
                    self.cfg(),
                    path@,
                    encoded@.len() as int,
                    ts_ms as int,
                ),
                GenEvent::Persisted(Err(m)) => r matches GenPhase::Done { result }
                    && failure_result_shape(
                    result,
                    self.cfg(),
                    ts_ms as int,
                    "IO error: "@ + m@,
                ),
                _ => true,
            }),
    {
        match (phase, event) {
            (GenPhase::Start, GenEvent::Exists(exists)) => {
                if !exists {
                    let err = ThumbnailError::FileNotFound(String::from_str(video_path));
                    GenPhase::Done { result: self.failure(0, err.message()) }
                } else {
                    match requested_ms {
                        Some(t) => GenPhase::Lookup { ts_ms: t },
                        None => GenPhase::ResolveTimestamp,
                    }
                }
            },
            (GenPhase::ResolveTimestamp, GenEvent::Smart(outcome)) => match outcome {
                Ok(t) => GenPhase::Lookup { ts_ms: t },
                Err(m) => {
                    let err = ThumbnailError::FFmpegError(m);
                    GenPhase::Done { result: self.failure(0, err.message()) }
                },
            },
            (GenPhase::Lookup { ts_ms }, GenEvent::Cached(hit)) => match hit {
                Some((path, size)) => GenPhase::Done {
                    result: ThumbnailResult {
                        success: true,
                        thumbnail_path: Some(path),
                        width: self.config.width,
                        height: self.config.height,
                        format: self.config.format.clone(),
                        file_size: size,
                        timestamp_ms: ts_ms,
                        error: None,
                    },
                },
                None => GenPhase::Extract { ts_ms },
            },
            (GenPhase::Extract { ts_ms }, GenEvent::Frame(outcome)) => match outcome {
                Ok(raster) => match self.render(&raster) {
                    Ok(encoded) => GenPhase::Store { ts_ms, encoded },
                    Err(e) => GenPhase::Done { result: self.failure(ts_ms, e.message()) },
                },
                Err(m) => GenPhase::Done { result: self.failure(ts_ms, m) },
            },
            (GenPhase::Store { ts_ms, encoded }, GenEvent::Persisted(outcome)) => match outcome {
                Ok(path) => GenPhase::Done {
                    result: ThumbnailResult {
                        success: true,
                        thumbnail_path: Some(path),
                        width: self.config.width,
                        height: self.config.height,
                        format: self.config.format.clone(),
                        file_size: encoded.len() as i64,
                        timestamp_ms: ts_ms,
                        error: None,
                    },
                },
                Err(m) => {
                    let err = ThumbnailError::IoError(m);
                    GenPhase::Done { result: self.failure(ts_ms, err.message()) }
                },
            },
            // unreachable under the phase/event pairing required of callers
            (other_phase, _) => other_phase,
        }
    }

    /// Build the failure result of a request: the configured format, the
    /// resolved timestamp, and the message.
    fn failure(&self, ts_ms: i64, msg: String) -> (r: ThumbnailResult)
        ensures
            failure_result_shape(r, self.cfg(), ts_ms as int, msg@),
    {
        ThumbnailResult {
            success: false,
            thumbnail_path: None,
            width: 0,
            height: 0,
            format: self.config.format.clone(),
            file_size: 0,
            timestamp_ms: ts_ms,
            error: Some(msg),
        }
    }
}

proof fn lemma_fitted_box_fits(nw: int, nh: int, cw: int, ch: int)
    requires
        0 <= nw <= cw,
        0 <= nh <= ch,
        cw * ch * 3 <= usize::MAX,
    ensures
        3 * nw * nh <= usize::MAX,
{
    assert(nw * nh <= cw * ch) by (nonlinear_arith)
        requires
            0 <= nw <= cw,
            0 <= nh <= ch,
    ;
    assert(3 * nw * nh <= 3 * (cw * ch)) by (nonlinear_arith)
        requires
            0 <= nw * nh <= cw * ch,
    ;
    assert(cw * ch * 3 == 3 * (cw * ch)) by (nonlinear_arith);
}

} // verus!
