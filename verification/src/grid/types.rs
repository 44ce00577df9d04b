//! Data types of the video grid engine, with the viewport arithmetic of
//! virtual scrolling. Pixel positions are integer pixels and durations are
//! integer milliseconds, so every field is a plain value.

use vstd::prelude::*;

verus! {

/// Video metadata for grid rendering.
pub struct VideoItem {
    pub id: String,
    pub name: String,
    pub path: String,
    pub folder: Option<String>,
    pub size: u64,
    pub last_modified: u64,
    /// Duration in milliseconds, when known.
    pub duration_ms: Option<i64>,
    pub width: Option<u32>,
    pub height: Option<u32>,
    pub resolution: Option<String>,
    pub codec: Option<String>,
    pub bitrate: Option<u32>,
    pub is_favorite: bool,
    pub is_hidden: bool,
}

/// The folder of an item, as an optional character sequence.
pub open spec fn folder_view(v: VideoItem) -> Option<Seq<char>> {
    match v.folder {
        Some(f) => Some(f@),
        None => None,
    }
}

/// Field-wise equality of two grid items, over the views of their strings.
pub open spec fn same_item(a: VideoItem, b: VideoItem) -> bool {
    &&& a.id@ == b.id@
    &&& a.name@ == b.name@
    &&& a.path@ == b.path@
    &&& folder_view(a) == folder_view(b)
    &&& a.size == b.size
    &&& a.last_modified == b.last_modified
    &&& a.duration_ms == b.duration_ms
    &&& a.width == b.width
    &&& a.height == b.height
    &&& (a.resolution is Some <==> b.resolution is Some)
    &&& (a.resolution matches Some(x) ==> b.resolution matches Some(y) && x@ == y@)
    &&& (a.codec is Some <==> b.codec is Some)
    &&& (a.codec matches Some(x) ==> b.codec matches Some(y) && x@ == y@)
    &&& a.bitrate == b.bitrate
    &&& a.is_favorite == b.is_favorite
    &&& a.is_hidden == b.is_hidden
}

fn clone_opt_string(s: &Option<String>) -> (r: Option<String>)
    ensures
        r is Some <==> s is Some,
        r matches Some(x) ==> s matches Some(y) && x@ == y@,
{
    match s {
        Some(x) => Some(x.clone()),
        None => None,
    }
}

impl Clone for VideoItem {
    fn clone(&self) -> (r: Self)
        ensures
            same_item(r, *self),
    {
        VideoItem {
            id: self.id.clone(),
            name: self.name.clone(),
            path: self.path.clone(),
            folder: clone_opt_string(&self.folder),
            size: self.size,
            last_modified: self.last_modified,
            duration_ms: self.duration_ms,
            width: self.width,
            height: self.height,
            resolution: clone_opt_string(&self.resolution),
            codec: clone_opt_string(&self.codec),
            bitrate: self.bitrate,
            is_favorite: self.is_favorite,
            is_hidden: self.is_hidden,
        }
    }
}

/// Filter criteria for videos.
pub struct FilterCriteria {
    pub folder: Option<String>,
    pub favorites_only: bool,
    pub hidden_only: bool,
    pub show_hidden: bool,
}

impl Default for FilterCriteria {
    fn default() -> (r: Self)
        ensures
            r.folder is None,
            !r.favorites_only,
            !r.hidden_only,
            !r.show_hidden,
    {
        FilterCriteria { folder: None, favorites_only: false, hidden_only: false, show_hidden: false }
    }
}

/// Sort mode for videos.
#[derive(Clone, Copy, PartialEq, Eq, Structural)]
pub enum SortMode {
    Folder,
    Date,
    Shuffle,
    Unsorted,
}

/// State of a video element in the grid.
#[derive(Clone, Copy, PartialEq, Eq, Structural)]
pub enum VideoState {
    NotLoaded,
    Loading,
    Loaded,
    Playing,
    Paused,
    Error,
}

/// Tracking record of one video element.
pub struct VideoElementState {
    pub video_id: String,
    pub state: VideoState,
    pub last_interaction: u64,
    pub is_in_viewport: bool,
    pub load_priority: u8,
}

impl VideoElementState {
    /// A fresh, not-yet-loaded element record.
    pub fn new(video_id: String) -> (r: Self)
        ensures
            r.video_id@ == video_id@,
            r.state == VideoState::NotLoaded,
            r.last_interaction == 0,
            !r.is_in_viewport,
            r.load_priority == 0,
    {
        VideoElementState {
            video_id,
            state: VideoState::NotLoaded,
            last_interaction: 0,
            is_in_viewport: false,
            load_priority: 0,
        }
    }
}

/// One DOM operation of a reconciliation.
pub enum DomOperation {
    Add { index: usize, video_id: String },
    Remove { video_id: String },
    Move { video_id: String, from: usize, to: usize },
    Update { video_id: String, index: usize },
}

/// Result of DOM reconciliation.
pub struct ReconciliationResult {
    pub operations: Vec<DomOperation>,
    pub total_items: usize,
    pub visible_start: usize,
    pub visible_end: usize,
}

/// Grid statistics.
pub struct GridStats {
    pub total_videos: usize,
    pub filtered_videos: usize,
    pub visible_videos: usize,
    pub loaded_videos: usize,
    pub in_viewport: usize,
}

/// Rows needed for `total` items at `ipr` per row, the last row possibly
/// partial.
pub open spec fn total_rows_of(total: int, ipr: int) -> int {
    (total + ipr - 1) / ipr
}

/// First row kept in the DOM: the row under the scroll position, minus the
/// buffer.
pub open spec fn start_row_of(scroll: int, item_h: int, buffer: int) -> int {
    let sr = scroll / item_h;
    if sr >= buffer {
        sr - buffer
    } else {
        0
    }
}

/// One past the last row kept: the last row that meets the viewport, plus the
/// buffer, capped at the row count.
pub open spec fn end_row_of(scroll: int, view_h: int, item_h: int, buffer: int, rows: int) -> int {
    let er = (scroll + view_h + item_h - 1) / item_h + buffer;
    if er <= rows {
        er
    } else {
        rows
    }
}

/// Viewport information for virtual scrolling, in integer pixels.
pub struct Viewport {
    pub scroll_top: u64,
    pub viewport_height: u64,
    pub item_height: u64,
    pub items_per_row: usize,
    pub buffer_rows: usize,
}

impl Viewport {
    /// The index range `[start, end)` of the items kept in the DOM: whole
    /// buffered rows around the visible band, clipped to the item count.
    pub fn calculate_visible_range(&self, total_items: usize) -> (r: (usize, usize))
        requires
            self.items_per_row >= 1,
            self.item_height >= 1,
        ensures
            r.0 <= r.1 <= total_items,
            ({
                let rows = total_rows_of(total_items as int, self.items_per_row as int);
                let sr = start_row_of(
                    self.scroll_top as int,
                    self.item_height as int,
                    self.buffer_rows as int,
                );
                let er = end_row_of(
                    self.scroll_top as int,
                    self.viewport_height as int,
                    self.item_height as int,
                    self.buffer_rows as int,
                    rows,
                );
                &&& r.1 == if er * self.items_per_row as int <= total_items {
                    er * self.items_per_row as int
                } else {
                    total_items as int
                }
                &&& r.0 == if sr * self.items_per_row as int <= r.1 {
                    sr * self.items_per_row as int
                } else {
                    r.1 as int
                }
            }),
    {
        let ipr = self.items_per_row as u128;
        let total = total_items as u128;
        let rows = (total + ipr - 1) / ipr;
        let sr_raw = (self.scroll_top / self.item_height) as u128;
        let sr = if sr_raw >= self.buffer_rows as u128 {
            sr_raw - self.buffer_rows as u128
        } else {
            0
        };
        let er_raw = ((self.scroll_top as u128) + (self.viewport_height as u128)
            + (self.item_height as u128) - 1) / (self.item_height as u128)
            + (self.buffer_rows as u128);
        let er = if er_raw <= rows {
            er_raw
        } else {
            rows
        };
        proof {
            lemma_row_products_bounded(
                total as int,
                ipr as int,
                sr as int,
                er as int,
                rows as int,
            );
        }
        let end_raw = er * ipr;
        let end: u128 = if end_raw <= total {
            end_raw
        } else {
            total
        };
        let start_raw = sr * ipr;
        let start: u128 = if start_raw <= end {
            start_raw
        } else {
            end
        };
        (start as usize, end as usize)
    }
}

proof fn lemma_row_products_bounded(total: int, ipr: int, sr: int, er: int, rows: int)
    requires
        ipr >= 1,
        total >= 0,
        rows == (total + ipr - 1) / ipr,
        0 <= sr,
        0 <= er <= rows,
        total <= 0xffff_ffff_ffff_ffff,
        ipr <= 0xffff_ffff_ffff_ffff,
        sr <= 0xffff_ffff_ffff_ffff,
    ensures
        er * ipr <= total + ipr - 1,
        sr * ipr <= 0xffff_ffff_ffff_fffe_0000_0000_0000_0001,
{
    assert(rows * ipr <= total + ipr - 1) by (nonlinear_arith)
        requires
            ipr >= 1,
            total >= 0,
            rows == (total + ipr - 1) / ipr,
    ;
    assert(er * ipr <= rows * ipr) by (nonlinear_arith)
        requires
            ipr >= 1,
            0 <= er <= rows,
    ;
    assert(sr * ipr <= 0xffff_ffff_ffff_ffff * 0xffff_ffff_ffff_ffff) by (nonlinear_arith)
        requires
            0 <= sr <= 0xffff_ffff_ffff_ffff,
            0 <= ipr <= 0xffff_ffff_ffff_ffff,
    ;
}

} // verus!
