//! Filtering of the grid's videos by folder, favorites and hidden state.

use vstd::prelude::*;
use crate::grid::types::FilterCriteria;
use crate::grid::types::VideoItem;
use crate::grid::types::same_item;
use crate::util::str_in;
use crate::util::str_list_contains;

verus! {

/// Whether one video passes the criteria, given the favorite and hidden id
/// lists: the folder must match exactly when one is asked for; favorites-only
/// keeps favorites; hidden-only keeps hidden videos, and otherwise hidden
/// videos are dropped unless they are explicitly shown.
pub open spec fn matches_spec(
    favorites: Seq<String>,
    hidden: Seq<String>,
    video: VideoItem,
    c: FilterCriteria,
) -> bool {
    &&& (c.folder matches Some(f) ==> video.folder matches Some(vf) && vf@ == f@)
    &&& (c.favorites_only ==> str_in(favorites, video.id@))
    &&& (c.hidden_only ==> str_in(hidden, video.id@))
    &&& (!c.hidden_only && !c.show_hidden ==> !str_in(hidden, video.id@))
}

/// The indices of the videos among the first `n` that pass the criteria, in
/// order.
pub open spec fn matching_indices(
    favorites: Seq<String>,
    hidden: Seq<String>,
    videos: Seq<VideoItem>,
    c: FilterCriteria,
    n: int,
) -> Seq<usize>
    decreases n,
{
    if n <= 0 {
        Seq::empty()
    } else {
        let rest = matching_indices(favorites, hidden, videos, c, n - 1);
        if matches_spec(favorites, hidden, videos[n - 1], c) {
            rest.push((n - 1) as usize)
        } else {
            rest
        }
    }
}

/// Filtering engine: the ids marked favorite and the ids marked hidden.
pub struct FilterEngine {
    favorite_ids: Vec<String>,
    hidden_ids: Vec<String>,
}

impl FilterEngine {
    pub closed spec fn favorites(&self) -> Seq<String> {
        self.favorite_ids@
    }

    pub closed spec fn hidden(&self) -> Seq<String> {
        self.hidden_ids@
    }

    /// An engine with no favorites and nothing hidden.
    pub fn new() -> (r: Self)
        ensures
            r.favorites().len() == 0,
            r.hidden().len() == 0,
    {
        FilterEngine { favorite_ids: Vec::new(), hidden_ids: Vec::new() }
    }

    /// Replace the favorites list.
    pub fn update_favorites(&mut self, ids: Vec<String>)
        ensures
            final(self).favorites() == ids@,
            final(self).hidden() == old(self).hidden(),
    {
        self.favorite_ids = ids;
    }

    /// Replace the hidden list.
    pub fn update_hidden(&mut self, ids: Vec<String>)
        ensures
            final(self).hidden() == ids@,
            final(self).favorites() == old(self).favorites(),
    {
        self.hidden_ids = ids;
    }

    /// Whether one video passes the criteria.
    fn matches_criteria(&self, video: &VideoItem, criteria: &FilterCriteria) -> (r: bool)
        ensures
            r == matches_spec(self.favorites(), self.hidden(), *video, *criteria),
    {
        match &criteria.folder {
            Some(f) => {
                match &video.folder {
                    Some(vf) => {
                        if !(*vf == *f) {
                            return false;
                        }
                    },
                    None => {
                        return false;
                    },
                }
            },
            None => {},
        }
        if criteria.favorites_only && !str_list_contains(&self.favorite_ids, &video.id) {
            return false;
        }
        let is_hidden = str_list_contains(&self.hidden_ids, &video.id);
        if criteria.hidden_only {
            if !is_hidden {
                return false;
            }
        } else {
            if is_hidden && !criteria.show_hidden {
                return false;
            }
        }
        true
    }

    /// Apply the criteria to a collection: the indices of the videos that
    /// pass, in order.
    pub fn apply_filters(&self, videos: &Vec<VideoItem>, criteria: &FilterCriteria) -> (r: Vec<
        usize,
    >)
        ensures
            r@ == matching_indices(
                self.favorites(),
                self.hidden(),
                videos@,
                *criteria,
                videos@.len() as int,
            ),
            forall|k: int| 0 <= k < r@.len() ==> r@[k] < videos@.len(),
    {
        let n = videos.len();
        let mut out: Vec<usize> = Vec::new();
        let mut i: usize = 0;
        proof {
            assert(out@ =~= matching_indices(
                self.favorites(),
                self.hidden(),
                videos@,
                *criteria,
                0,
            ));
        }
        while i < n
            invariant
                i <= n,
                n == videos@.len(),
                out@ == matching_indices(
                    self.favorites(),
                    self.hidden(),
                    videos@,
                    *criteria,
                    i as int,
                ),
                forall|k: int| 0 <= k < out@.len() ==> out@[k] < videos@.len(),
            decreases n - i,
        {
            if self.matches_criteria(&videos[i], criteria) {
                out.push(i);
            }
            i = i + 1;
        }
        out
    }

    /// The videos that pass the criteria, copied out in order.
    pub fn filter_videos(&self, videos: &Vec<VideoItem>, criteria: &FilterCriteria) -> (r: Vec<
        VideoItem,
    >)
        ensures
            ({
                let idx = matching_indices(
                    self.favorites(),
                    self.hidden(),
                    videos@,
                    *criteria,
                    videos@.len() as int,
                );
                &&& r@.len() == idx.len()
                &&& forall|k: int|
                    0 <= k < r@.len() ==> same_item(#[trigger] r@[k], videos@[idx[k] as int])
            }),
    {
        let indices = self.apply_filters(videos, criteria);
        let n = indices.len();
        let mut out: Vec<VideoItem> = Vec::new();
        let mut i: usize = 0;
        while i < n
            invariant
                i <= n,
                n == indices@.len(),
                forall|k: int| 0 <= k < indices@.len() ==> indices@[k] < videos@.len(),
                out@.len() == i,
                forall|k: int|
                    0 <= k < i ==> same_item(#[trigger] out@[k], videos@[indices@[k] as int]),
            decreases n - i,
        {
            let idx = indices[i];
            let item = videos[idx].clone();
            out.push(item);
            i = i + 1;
        }
        out
    }
}

impl Default for FilterEngine {
    fn default() -> (r: Self)
        ensures
            r.favorites().len() == 0,
            r.hidden().len() == 0,
    {
        FilterEngine::new()
    }
}

} // verus!
