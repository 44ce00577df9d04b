//! The grid engine: one object composing the filter, sort, reconciliation and
//! element-state components behind the host-facing surface.

use vstd::prelude::*;
use crate::grid::filter::FilterEngine;
use crate::grid::filter::matching_indices;
use crate::grid::reconcile::DomReconciler;
use crate::grid::reconcile::window_ids;
use crate::grid::sort::SortEngine;
use crate::grid::sort::mode_le;
use crate::grid::state::StateStats;
use crate::grid::state::has_state;
use crate::grid::state::kept_queue;
use crate::grid::state::kept_states;
use crate::grid::state::requeued;
use crate::grid::state::state_index_of;
use crate::grid::state::VideoStateManager;
use crate::grid::state::count_in_viewport;
use crate::grid::state::count_state;
use crate::grid::state::load_list;
use crate::grid::state::loaded_count;
use crate::grid::state::unload_list;
use crate::grid::types::FilterCriteria;
use crate::grid::types::GridStats;
use crate::grid::types::ReconciliationResult;
use crate::grid::types::SortMode;
use crate::grid::types::VideoItem;
use crate::grid::types::VideoState;
use crate::grid::types::Viewport;
use crate::grid::types::end_row_of;
use crate::grid::types::same_item;
use crate::grid::types::start_row_of;
use crate::grid::types::total_rows_of;
use crate::util::views_of;
use vstd::string::StringExecFns;

verus! {

/// Main video grid engine: the collection, the filtered display order, and
/// the component engines.
pub struct VideoGridEngine {
    videos: Vec<VideoItem>,
    filtered_indices: Vec<usize>,
    filter_engine: FilterEngine,
    sort_engine: SortEngine,
    reconciler: DomReconciler,
    state_manager: VideoStateManager,
}

impl VideoGridEngine {
    pub closed spec fn vids(&self) -> Seq<VideoItem> {
        self.videos@
    }

    pub closed spec fn filtered(&self) -> Seq<usize> {
        self.filtered_indices@
    }

    pub closed spec fn favorites(&self) -> Seq<String> {
        self.filter_engine.favorites()
    }

    pub closed spec fn hidden(&self) -> Seq<String> {
        self.filter_engine.hidden()
    }

    pub closed spec fn mode(&self) -> SortMode {
        self.sort_engine.current_mode()
    }

    pub closed spec fn visible_ids_view(&self) -> Seq<String> {
        self.reconciler.visible()
    }

    pub closed spec fn visible_range(&self) -> (usize, usize) {
        self.reconciler.range()
    }

    pub closed spec fn records(&self) -> Seq<crate::grid::types::VideoElementState> {
        self.state_manager.records()
    }

    pub closed spec fn time(&self) -> u64 {
        self.state_manager.time()
    }

    pub closed spec fn lru(&self) -> Seq<Seq<char>> {
        self.state_manager.queue()
    }

    /// Every filtered index points into the collection.
    pub open spec fn wf(&self) -> bool {
        forall|k: int| 0 <= k < self.filtered().len() ==> self.filtered()[k] < self.vids().len()
    }

    /// A fresh engine over an empty collection, tracking at most
    /// `max_active_videos` elements.
    pub fn new(max_active_videos: usize) -> (r: Self)
        ensures
            r.wf(),
            r.vids().len() == 0,
            r.filtered().len() == 0,
            r.mode() is Folder,
            r.visible_ids_view().len() == 0,
            r.records().len() == 0,
            r.time() == 0,
    {
        VideoGridEngine {
            videos: Vec::new(),
            filtered_indices: Vec::new(),
            filter_engine: FilterEngine::new(),
            sort_engine: SortEngine::new(SortMode::Folder),
            reconciler: DomReconciler::new(),
            state_manager: VideoStateManager::new(max_active_videos),
        }
    }

    /// Replace the whole collection; every video becomes visible to the
    /// filters, in collection order.
    pub fn set_videos(&mut self, videos: Vec<VideoItem>)
        ensures
            final(self).wf(),
            final(self).vids() == videos@,
            final(self).filtered().len() == videos@.len(),
            forall|k: int| 0 <= k < videos@.len() ==> final(self).filtered()[k] == k as usize,
    {
        let n = videos.len();
        self.videos = videos;
        let mut idx: Vec<usize> = Vec::new();
        let mut i: usize = 0;
        while i < n
            invariant
                i <= n,
                idx@.len() == i,
                forall|k: int| 0 <= k < i ==> idx@[k] == k as usize,
            decreases n - i,
        {
            idx.push(i);
            i = i + 1;
        }
        self.filtered_indices = idx;
    }

    /// Replace the favorites list.
    pub fn update_favorites(&mut self, favorites: Vec<String>)
        ensures
            final(self).favorites() == favorites@,
            final(self).hidden() == old(self).hidden(),
            final(self).vids() == old(self).vids(),
            final(self).filtered() == old(self).filtered(),
            old(self).wf() ==> final(self).wf(),
    {
        self.filter_engine.update_favorites(favorites);
    }

    /// Replace the hidden list.
    pub fn update_hidden(&mut self, hidden: Vec<String>)
        ensures
            final(self).hidden() == hidden@,
            final(self).favorites() == old(self).favorites(),
            final(self).vids() == old(self).vids(),
            final(self).filtered() == old(self).filtered(),
            old(self).wf() ==> final(self).wf(),
    {
        self.filter_engine.update_hidden(hidden);
    }

    /// Apply filter criteria and return the filtered count.
    pub fn apply_filters(&mut self, criteria: &FilterCriteria) -> (r: usize)
        ensures
            final(self).wf(),
            final(self).vids() == old(self).vids(),
            final(self).filtered() == matching_indices(
                old(self).favorites(),
                old(self).hidden(),
                old(self).vids(),
                *criteria,
                old(self).vids().len() as int,
            ),
            r == final(self).filtered().len(),
    {
        let idx = self.filter_engine.apply_filters(&self.videos, criteria);
        let count = idx.len();
        self.filtered_indices = idx;
        count
    }

    /// Set the sort mode from its name ("folder", "date", "shuffle"; anything
    /// else turns sorting off) and re-sort the filtered display order under
    /// it. The shuffle and unsorted modes leave the current order.
    pub fn set_sort_mode(&mut self, mode: &str)
        requires
            old(self).wf(),
        ensures
            final(self).wf(),
            final(self).vids() == old(self).vids(),
            final(self).mode() == mode_of_name(mode@),
            final(self).filtered().len() == old(self).filtered().len(),
            final(self).filtered().to_multiset() == old(self).filtered().to_multiset(),
            (final(self).mode() is Folder || final(self).mode() is Date) ==> forall|a: int, b: int|
                0 <= a < b < final(self).filtered().len() ==> mode_le(
                    final(self).mode(),
                    final(self).vids()[final(self).filtered()[a] as int],
                    final(self).vids()[final(self).filtered()[b] as int],
                ),
            (final(self).mode() is Shuffle || final(self).mode() is Unsorted)
                ==> final(self).filtered() == old(self).filtered(),
    {
        let folder_name = String::from_str("folder");
        let date_name = String::from_str("date");
        let shuffle_name = String::from_str("shuffle");
        let owned = mode.to_owned();
        let sort_mode: SortMode = if owned == folder_name {
            SortMode::Folder
        } else if owned == date_name {
            SortMode::Date
        } else if owned == shuffle_name {
            SortMode::Shuffle
        } else {
            SortMode::Unsorted
        };
        self.sort_engine.set_mode(sort_mode);
        let keep: bool = match sort_mode {
            SortMode::Folder => false,
            SortMode::Date => false,
            _ => true,
        };
        if !keep {
            let mut current: Vec<usize> = Vec::new();
            core::mem::swap(&mut self.filtered_indices, &mut current);
            proof {
                assert(current@ == old(self).filtered());
                assert(self.videos@ == old(self).vids());
                assert forall|k: int| 0 <= k < current@.len() implies current@[k]
                    < self.videos@.len() by {
                    assert(old(self).filtered()[k] < old(self).vids().len());
                }
            }
            let sorted = self.sort_engine.sort_index_list(&self.videos, current);
            self.filtered_indices = sorted;
        }
    }

    /// Reconcile the grid against a new viewport and refresh the element
    /// states: the videos of the new window count as in the viewport, all
    /// others as out of it, and the clock advances.
    pub fn calculate_viewport(
        &mut self,
        scroll_top: u64,
        viewport_height: u64,
        item_height: u64,
        items_per_row: usize,
        buffer_rows: usize,
    ) -> (r: ReconciliationResult)
        requires
            old(self).wf(),
            items_per_row >= 1,
            item_height >= 1,
            old(self).time() < u64::MAX,
        ensures
            final(self).wf(),
            final(self).vids() == old(self).vids(),
            final(self).filtered() == old(self).filtered(),
            final(self).time() == old(self).time() + 1,
            final(self).records().len() == old(self).records().len(),
            forall|k: int|
                0 <= k < old(self).records().len() ==> final(self).records()[k].video_id@ == old(
                    self,
                ).records()[k].video_id@,
            ({
                let total = old(self).filtered().len() as int;
                let rows = total_rows_of(total, items_per_row as int);
                let sr = start_row_of(scroll_top as int, item_height as int, buffer_rows as int);
                let er = end_row_of(
                    scroll_top as int,
                    viewport_height as int,
                    item_height as int,
                    buffer_rows as int,
                    rows,
                );
                let end = if er * items_per_row as int <= total {
                    er * items_per_row as int
                } else {
                    total
                };
                let start = if sr * items_per_row as int <= end {
                    sr * items_per_row as int
                } else {
                    end
                };
                let new_ids = window_ids(old(self).vids(), old(self).filtered(), start, end);
                &&& r.total_items == total
                &&& r.visible_start == start
                &&& r.visible_end == end
                                &&& views_of(final(self).visible_ids_view()) == new_ids
                &&& final(self).visible_range() == (start as usize, end as usize)
            }),
    {
        let viewport = Viewport {
            scroll_top,
            viewport_height,
            item_height,
            items_per_row,
            buffer_rows,
        };
        let result = self.reconciler.reconcile(&self.videos, &self.filtered_indices, &viewport);
        let ghost vids0 = self.videos@;
        let ghost filt0 = self.filtered_indices@;
        let ghost vis0 = self.reconciler.visible();
        let ghost range0 = self.reconciler.range();
        let ghost t0 = self.state_manager.time();
        let ghost rec0 = self.state_manager.records();
        // refresh viewport membership of the element states
        let m = self.reconciler.get_visible_ids().len();
        let mut i: usize = 0;
        while i < m
            invariant
                i <= m,
                self.videos@ == vids0,
                self.filtered_indices@ == filt0,
                self.reconciler.visible() == vis0,
                self.reconciler.range() == range0,
                self.state_manager.time() == t0,
                self.state_manager.records().len() == rec0.len(),
                forall|k: int|
                    0 <= k < rec0.len() ==> self.state_manager.records()[k].video_id@
                        == rec0[k].video_id@,
                m == self.reconciler.visible().len(),
            decreases m - i,
        {
            let visible_now = self.reconciler.get_visible_ids();
            let id = visible_now[i].clone();
            let ghost pre = self.state_manager.records();
            self.state_manager.mark_in_viewport(id.as_str(), true);
            proof {
                crate::grid::state::lemma_state_index(pre, id@);
            }
            i = i + 1;
        }
        let n = self.videos.len();
        let mut j: usize = 0;
        while j < n
            invariant
                j <= n,
                self.videos@ == vids0,
                self.filtered_indices@ == filt0,
                self.reconciler.visible() == vis0,
                self.reconciler.range() == range0,
                self.state_manager.time() == t0,
                self.state_manager.records().len() == rec0.len(),
                forall|k: int|
                    0 <= k < rec0.len() ==> self.state_manager.records()[k].video_id@
                        == rec0[k].video_id@,
                n == self.videos@.len(),
            decreases n - j,
        {
            let id = self.videos[j].id.clone();
            let shown = crate::util::str_list_contains(self.reconciler.get_visible_ids(), &id);
            if !shown {
                let ghost pre = self.state_manager.records();
                self.state_manager.mark_in_viewport(id.as_str(), false);
                proof {
                    crate::grid::state::lemma_state_index(pre, id@);
                }
            }
            j = j + 1;
        }
        self.state_manager.tick();
        proof {
            assert(self.videos@ == old(self).vids());
            assert(self.filtered_indices@ == old(self).filtered());
            assert forall|k: int| 0 <= k < self.filtered_indices@.len() implies #[trigger] self.filtered_indices@[k]
                < self.videos@.len() by {
                assert(old(self).filtered()[k] < old(self).vids().len());
            }
        }
        result
    }

    /// The visible videos that still need loading.
    pub fn get_videos_to_load(&self) -> (r: Vec<String>)
        ensures
            views_of(r@) == load_list(
                self.visible_ids_view(),
                self.records(),
                self.visible_ids_view().len() as int,
            ),
    {
        let visible = self.reconciler.get_visible_ids();
        self.state_manager.get_videos_to_load(visible)
    }

    /// The videos to unload under the LRU policy, oldest first.
    pub fn get_videos_to_unload(&self, max_loaded: usize) -> (r: Vec<String>)
        ensures
            loaded_count(self.records()) <= max_loaded ==> r@.len() == 0,
            loaded_count(self.records()) > max_loaded ==> views_of(r@) == unload_list(
                self.lru(),
                self.records(),
                loaded_count(self.records()) - max_loaded,
            ),
    {
        self.state_manager.get_videos_to_unload(max_loaded)
    }

    /// Record that a video finished loading: its record takes the loaded
    /// state and the current time, and its queue entry moves to the back.
    pub fn mark_video_loaded(&mut self, video_id: String)
        ensures
            final(self).vids() == old(self).vids(),
            final(self).filtered() == old(self).filtered(),
            old(self).wf() ==> final(self).wf(),
            marked_with_state(*old(self), *final(self), video_id@, VideoState::Loaded),
    {
        self.state_manager.update_state(video_id.as_str(), VideoState::Loaded);
    }

    /// Record that a video failed: its record takes the error state and the
    /// current time, and its queue entry moves to the back.
    pub fn mark_video_error(&mut self, video_id: String)
        ensures
            final(self).vids() == old(self).vids(),
            final(self).filtered() == old(self).filtered(),
            old(self).wf() ==> final(self).wf(),
            marked_with_state(*old(self), *final(self), video_id@, VideoState::Error),
    {
        self.state_manager.update_state(video_id.as_str(), VideoState::Error);
    }

    /// The filtered videos, copied out in display order.
    pub fn get_filtered_videos(&self) -> (r: Vec<VideoItem>)
        requires
            self.wf(),
        ensures
            r@.len() == self.filtered().len(),
            forall|k: int|
                0 <= k < r@.len() ==> same_item(
                    #[trigger] r@[k],
                    self.vids()[self.filtered()[k] as int],
                ),
    {
        let n = self.filtered_indices.len();
        let mut out: Vec<VideoItem> = Vec::new();
        let mut i: usize = 0;
        while i < n
            invariant
                i <= n,
                self.wf(),
                n == self.filtered().len(),
                out@.len() == i,
                forall|k: int|
                    0 <= k < i ==> same_item(
                        #[trigger] out@[k],
                        self.vids()[self.filtered()[k] as int],
                    ),
            decreases n - i,
        {
            let idx = self.filtered_indices[i];
            let item = self.videos[idx].clone();
            out.push(item);
            i = i + 1;
        }
        out
    }

    /// The rendered index range, as a two-element list.
    pub fn get_visible_range(&self) -> (r: Vec<usize>)
        ensures
            r@.len() == 2,
            r@[0] == self.visible_range().0,
            r@[1] == self.visible_range().1,
    {
        let (start, end) = self.reconciler.get_visible_range();
        let mut v: Vec<usize> = Vec::new();
        v.push(start);
        v.push(end);
        v
    }

    /// Grid statistics: collection, filter, window and load counts.
    pub fn get_stats(&self) -> (r: GridStats)
        ensures
            r.total_videos == self.vids().len(),
            r.filtered_videos == self.filtered().len(),
            r.visible_videos == self.visible_ids_view().len(),
            r.loaded_videos == count_state(self.records(), VideoState::Loaded) + count_state(
                self.records(),
                VideoState::Playing,
            ),
            r.in_viewport == count_in_viewport(self.records()),
    {
        let st: StateStats = self.state_manager.get_stats();
        proof {
            lemma_loaded_counts_fit(self.records());
        }
        GridStats {
            total_videos: self.videos.len(),
            filtered_videos: self.filtered_indices.len(),
            visible_videos: self.reconciler.get_visible_ids().len(),
            loaded_videos: st.loaded + st.playing,
            in_viewport: st.in_viewport,
        }
    }

    /// Drop element records far out of the viewport: those not in the
    /// viewport whose last interaction is older than the threshold, with
    /// their queue entries.
    pub fn cleanup(&mut self, inactive_threshold_ms: u64)
        ensures
            final(self).vids() == old(self).vids(),
            final(self).filtered() == old(self).filtered(),
            old(self).wf() ==> final(self).wf(),
            final(self).records() == kept_states(
                old(self).records(),
                old(self).time(),
                inactive_threshold_ms,
            ),
            final(self).lru() == kept_queue(old(self).lru(), final(self).records()),
            final(self).time() == old(self).time(),
    {
        self.state_manager.cleanup_inactive(inactive_threshold_ms);
    }

    /// Reset the engine: empty collection, empty window, no element records.
    pub fn reset(&mut self)
        ensures
            final(self).wf(),
            final(self).vids().len() == 0,
            final(self).filtered().len() == 0,
            final(self).visible_ids_view().len() == 0,
            final(self).records().len() == 0,
            final(self).time() == 0,
    {
        self.videos.clear();
        self.filtered_indices.clear();
        self.reconciler.reset();
        self.state_manager.clear();
    }
}

proof fn lemma_loaded_counts_fit(states: Seq<crate::grid::types::VideoElementState>)
    ensures
        count_state(states, VideoState::Loaded) + count_state(states, VideoState::Playing)
            <= states.len(),
        count_state(states, VideoState::Loaded) >= 0,
        count_state(states, VideoState::Playing) >= 0,
    decreases states.len(),
{
    if states.len() > 0 {
        lemma_loaded_counts_fit(states.drop_last());
    }
}

/// How a state change of `id` relates the engine's element records before
/// and after: an unknown id changes nothing; a tracked id's record takes the
/// new state and the clock, everything else stays, and its queue entry moves
/// to the back.
pub open spec fn marked_with_state(
    pre: VideoGridEngine,
    post: VideoGridEngine,
    id: Seq<char>,
    new_state: VideoState,
) -> bool {
    &&& post.time() == pre.time()
    &&& (!has_state(pre.records(), id) ==> post.records() == pre.records() && post.lru()
        == pre.lru())
    &&& (has_state(pre.records(), id) ==> ({
        let vi = state_index_of(pre.records(), id);
        &&& post.records().len() == pre.records().len()
        &&& (forall|k: int|
            0 <= k < post.records().len() && k != vi ==> post.records()[k] == pre.records()[k])
        &&& post.records()[vi].video_id@ == id
        &&& post.records()[vi].state == new_state
        &&& post.records()[vi].last_interaction == pre.time()
        &&& post.records()[vi].is_in_viewport == pre.records()[vi].is_in_viewport
        &&& post.records()[vi].load_priority == pre.records()[vi].load_priority
        &&& post.lru() == requeued(pre.lru(), id)
    }))
}

/// The sort mode a name selects: anything unrecognized turns sorting off.
pub open spec fn mode_of_name(name: Seq<char>) -> SortMode {
    if name == "folder"@ {
        SortMode::Folder
    } else if name == "date"@ {
        SortMode::Date
    } else if name == "shuffle"@ {
        SortMode::Shuffle
    } else {
        SortMode::Unsorted
    }
}

} // verus!
