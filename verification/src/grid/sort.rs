//! Sorting of the grid's videos: by folder name and then newest first within
//! a folder, by date alone, by a deterministic shuffle, or not at all.

use vstd::prelude::*;
use crate::grid::types::SortMode;
use crate::grid::types::VideoItem;
use crate::util::lemma_lex_le_antisym;
use crate::util::lemma_lex_le_total;
use crate::util::lemma_lex_le_trans;
use crate::util::lex_le;
use crate::util::str_le;

verus! {

broadcast use vstd::seq_lib::group_to_multiset_ensures;

/// Folder order: named folders in lexicographic order, all of them before the
/// folderless items.
pub open spec fn folder_le(a: VideoItem, b: VideoItem) -> bool {
    match (a.folder, b.folder) {
        (Some(fa), Some(fb)) => lex_le(fa@, fb@),
        (Some(_), None) => true,
        (None, Some(_)) => false,
        (None, None) => true,
    }
}

/// Whether two items sort into the same folder.
pub open spec fn folder_eq(a: VideoItem, b: VideoItem) -> bool {
    match (a.folder, b.folder) {
        (Some(fa), Some(fb)) => fa@ == fb@,
        (None, None) => true,
        _ => false,
    }
}

/// Order by folder, newest first within a folder.
pub open spec fn video_le_folder(a: VideoItem, b: VideoItem) -> bool {
    if folder_eq(a, b) {
        a.last_modified >= b.last_modified
    } else {
        folder_le(a, b)
    }
}

/// Order by date alone, newest first.
pub open spec fn video_le_date(a: VideoItem, b: VideoItem) -> bool {
    a.last_modified >= b.last_modified
}

/// The order a sortable mode applies.
pub open spec fn mode_le(mode: SortMode, a: VideoItem, b: VideoItem) -> bool {
    match mode {
        SortMode::Folder => video_le_folder(a, b),
        _ => video_le_date(a, b),
    }
}

proof fn lemma_mode_le_total(mode: SortMode, a: VideoItem, b: VideoItem)
    ensures
        mode_le(mode, a, b) || mode_le(mode, b, a),
{
    if mode is Folder && !folder_eq(a, b) {
        match (a.folder, b.folder) {
            (Some(fa), Some(fb)) => lemma_lex_le_total(fa@, fb@),
            _ => {},
        }
    }
}

proof fn lemma_mode_le_trans(mode: SortMode, a: VideoItem, b: VideoItem, c: VideoItem)
    requires
        mode_le(mode, a, b),
        mode_le(mode, b, c),
    ensures
        mode_le(mode, a, c),
{
    if mode is Folder {
        match (a.folder, b.folder, c.folder) {
            (Some(fa), Some(fb), Some(fc)) => {
                if folder_eq(a, b) {
                    lemma_lex_le_total(fa@, fa@);
                }
                if folder_eq(b, c) {
                    lemma_lex_le_total(fb@, fb@);
                }
                lemma_lex_le_trans(fa@, fb@, fc@);
                if fa@ == fc@ && fa@ != fb@ {
                    lemma_lex_le_antisym(fa@, fb@);
                }
            },
            _ => {},
        }
    }
}

/// Compare two items under a mode.
fn video_le_exec(mode: SortMode, a: &VideoItem, b: &VideoItem) -> (r: bool)
    ensures
        r == mode_le(mode, *a, *b),
{
    match mode {
        SortMode::Folder => {
            let same: bool = match (&a.folder, &b.folder) {
                (Some(fa), Some(fb)) => *fa == *fb,
                (None, None) => true,
                _ => false,
            };
            if same {
                a.last_modified >= b.last_modified
            } else {
                match (&a.folder, &b.folder) {
                    (Some(fa), Some(fb)) => str_le(fa.as_str(), fb.as_str()),
                    (Some(_), None) => true,
                    (None, Some(_)) => false,
                    (None, None) => true,
                }
            }
        },
        _ => a.last_modified >= b.last_modified,
    }
}

/// The identity permutation of `n` indices.
pub open spec fn identity_indices(n: int) -> Seq<usize> {
    Seq::new(n as nat, |i: int| i as usize)
}

/// One step of the deterministic shuffle: the swap it makes at position `i`.
pub open spec fn shuffle_step(s: Seq<usize>, i: int) -> Seq<usize> {
    let j = (i * 7919 + 31) % (i + 1);
    s.update(i, s[j]).update(j, s[i])
}

/// The deterministic shuffle applied down from position `i`.
pub open spec fn shuffle_rec(s: Seq<usize>, i: int) -> Seq<usize>
    decreases i,
{
    if i <= 0 {
        s
    } else {
        shuffle_rec(shuffle_step(s, i), i - 1)
    }
}

/// Sorting engine over a fixed mode.
pub struct SortEngine {
    mode: SortMode,
}

impl SortEngine {
    pub closed spec fn current_mode(&self) -> SortMode {
        self.mode
    }

    pub fn new(mode: SortMode) -> (r: Self)
        ensures
            r.current_mode() == mode,
    {
        SortEngine { mode }
    }

    pub fn set_mode(&mut self, mode: SortMode)
        ensures
            final(self).current_mode() == mode,
    {
        self.mode = mode;
    }

    /// The indices of the videos in display order: sorted under the mode's
    /// order, shuffled deterministically, or left as they are.
    pub fn sort_indices(&self, videos: &Vec<VideoItem>) -> (r: Vec<usize>)
        ensures
            r@.len() == videos@.len(),
            r@.to_multiset() == identity_indices(videos@.len() as int).to_multiset(),
            forall|k: int| 0 <= k < r@.len() ==> r@[k] < videos@.len(),
            self.current_mode() is Folder || self.current_mode() is Date ==> forall|a: int, b: int|
                0 <= a < b < r@.len() ==> mode_le(
                    self.current_mode(),
                    videos@[r@[a] as int],
                    videos@[r@[b] as int],
                ),
            self.current_mode() is Shuffle ==> r@ == shuffle_rec(
                identity_indices(videos@.len() as int),
                videos@.len() - 1,
            ),
            self.current_mode() is Unsorted ==> r@ == identity_indices(videos@.len() as int),
    {
        let n = videos.len();
        let mut indices: Vec<usize> = Vec::new();
        let mut i: usize = 0;
        while i < n
            invariant
                i <= n,
                indices@.len() == i,
                forall|k: int| 0 <= k < i ==> indices@[k] == k as usize,
            decreases n - i,
        {
            indices.push(i);
            i = i + 1;
        }
        proof {
            assert(indices@ =~= identity_indices(n as int));
        }
        match self.mode {
            SortMode::Folder => self.sort_index_list(videos, indices),
            SortMode::Date => self.sort_index_list(videos, indices),
            SortMode::Shuffle => {
                let r = shuffle_indices(indices);
                proof {
                    assert forall|k: int| 0 <= k < r@.len() implies r@[k] < videos@.len() by {
                        assert(r@.contains(r@[k]));
                        assert(r@.to_multiset().count(r@[k]) > 0);
                        assert(identity_indices(n as int).to_multiset().count(r@[k]) > 0);
                        assert(identity_indices(n as int).contains(r@[k]));
                        let j = choose|j: int|
                            0 <= j < identity_indices(n as int).len() && identity_indices(
                                n as int,
                            )[j] == r@[k];
                        assert(identity_indices(n as int)[j] == j as usize);
                    }
                }
                r
            },
            SortMode::Unsorted => indices,
        }
    }

    /// Insertion sort of an index list under the mode's order.
    pub(crate) fn sort_index_list(&self, videos: &Vec<VideoItem>, indices: Vec<usize>) -> (r: Vec<usize>)
        requires
            self.current_mode() is Folder || self.current_mode() is Date,
            forall|k: int| 0 <= k < indices@.len() ==> indices@[k] < videos@.len(),
        ensures
            r@.len() == indices@.len(),
            r@.to_multiset() == indices@.to_multiset(),
            forall|k: int| 0 <= k < r@.len() ==> r@[k] < videos@.len(),
            forall|a: int, b: int|
                0 <= a < b < r@.len() ==> mode_le(
                    self.current_mode(),
                    videos@[r@[a] as int],
                    videos@[r@[b] as int],
                ),
    {
        let n = indices.len();
        let mut v: Vec<usize> = Vec::new();
        let mut i: usize = 0;
        proof {
            assert(indices@.take(0) =~= Seq::<usize>::empty());
        }
        while i < n
            invariant
                i <= n,
                n == indices@.len(),
                forall|k: int| 0 <= k < indices@.len() ==> indices@[k] < videos@.len(),
                v@.len() == i,
                v@.to_multiset() == indices@.take(i as int).to_multiset(),
                forall|k: int| 0 <= k < v@.len() ==> v@[k] < videos@.len(),
                forall|a: int, b: int|
                    0 <= a < b < v@.len() ==> mode_le(
                        self.current_mode(),
                        videos@[v@[a] as int],
                        videos@[v@[b] as int],
                    ),
            decreases n - i,
        {
            let x = indices[i];
            let mut p: usize = 0;
            while p < v.len() && video_le_exec(self.mode, &videos[v[p]], &videos[x])
                invariant
                    p <= v@.len(),
                    x < videos@.len(),
                    forall|k: int| 0 <= k < v@.len() ==> v@[k] < videos@.len(),
                    forall|q: int|
                        0 <= q < p ==> mode_le(
                            self.current_mode(),
                            videos@[v@[q] as int],
                            videos@[x as int],
                        ),
                decreases v@.len() - p,
            {
                p = p + 1;
            }
            let ghost old_v = v@;
            v.insert(p, x);
            proof {
                assert(v@ == old_v.insert(p as int, x));
                assert(old_v.insert(p as int, x).to_multiset() == old_v.to_multiset().insert(x));
                assert(indices@.take(i as int + 1) =~= indices@.take(i as int).push(
                    indices@[i as int],
                ));
                assert(indices@.take(i as int).push(x).to_multiset() == indices@.take(
                    i as int,
                ).to_multiset().insert(x));
                let mode = self.current_mode();
                assert forall|a: int, b: int| 0 <= a < b < v@.len() implies mode_le(
                    mode,
                    videos@[v@[a] as int],
                    videos@[v@[b] as int],
                ) by {
                    if p < old_v.len() {
                        lemma_mode_le_total(
                            mode,
                            videos@[old_v[p as int] as int],
                            videos@[x as int],
                        );
                    }
                    if a < p && b == p {
                        assert(v@[a] == old_v[a]);
                    } else if a == p && b > p {
                        assert(v@[b] == old_v[b - 1]);
                        if b - 1 > p {
                            lemma_mode_le_trans(
                                mode,
                                videos@[x as int],
                                videos@[old_v[p as int] as int],
                                videos@[old_v[b - 1] as int],
                            );
                        }
                    } else if a < p && b > p {
                        assert(v@[a] == old_v[a]);
                        assert(v@[b] == old_v[b - 1]);
                    } else if a > p {
                        assert(v@[a] == old_v[a - 1]);
                        assert(v@[b] == old_v[b - 1]);
                    }
                }
            }
            i = i + 1;
        }
        proof {
            assert(indices@.take(n as int) =~= indices@);
        }
        v
    }

    /// Sort videos in place: folder mode and date mode order the collection;
    /// the shuffle and unsorted modes leave it untouched here (a shuffle of
    /// rendered order is the index list's business).
    pub fn sort_videos(&self, videos: &mut Vec<VideoItem>)
        ensures
            final(videos)@.len() == old(videos)@.len(),
            final(videos)@.to_multiset() == old(videos)@.to_multiset(),
            self.current_mode() is Folder || self.current_mode() is Date ==> forall|
                a: int,
                b: int,
            |
                0 <= a < b < final(videos)@.len() ==> mode_le(
                    self.current_mode(),
                    final(videos)@[a],
                    final(videos)@[b],
                ),
            self.current_mode() is Shuffle || self.current_mode() is Unsorted ==> final(videos)@
                == old(videos)@,
    {
        match self.mode {
            SortMode::Folder => self.insertion_sort_videos(videos),
            SortMode::Date => self.insertion_sort_videos(videos),
            SortMode::Shuffle => {},
            SortMode::Unsorted => {},
        }
    }

    fn insertion_sort_videos(&self, videos: &mut Vec<VideoItem>)
        requires
            self.current_mode() is Folder || self.current_mode() is Date,
        ensures
            final(videos)@.len() == old(videos)@.len(),
            final(videos)@.to_multiset() == old(videos)@.to_multiset(),
            forall|a: int, b: int|
                0 <= a < b < final(videos)@.len() ==> mode_le(
                    self.current_mode(),
                    final(videos)@[a],
                    final(videos)@[b],
                ),
    {
        let n = videos.len();
        let mut i: usize = 1;
        if n <= 1 {
            return ;
        }
        while i < n
            invariant
                1 <= i <= n,
                n == videos@.len(),
                videos@.to_multiset() == old(videos)@.to_multiset(),
                forall|a: int, b: int|
                    0 <= a < b < i ==> mode_le(self.current_mode(), videos@[a], videos@[b]),
            decreases n - i,
        {
            let mut p: usize = 0;
            while p < i && video_le_exec(self.mode, &videos[p], &videos[i])
                invariant
                    p <= i < videos@.len(),
                    forall|q: int|
                        0 <= q < p ==> mode_le(
                            self.current_mode(),
                            videos@[q],
                            videos@[i as int],
                        ),
                decreases i - p,
            {
                p = p + 1;
            }
            let ghost pre = videos@;
            let x = videos.remove(i);
            videos.insert(p, x);
            proof {
                let mode = self.current_mode();
                assert(pre.remove(i as int).to_multiset() == pre.to_multiset().remove(
                    pre[i as int],
                ));
                assert(pre.remove(i as int).insert(p as int, x).to_multiset() == pre.remove(
                    i as int,
                ).to_multiset().insert(x));
                assert(pre.contains(pre[i as int]));
                assert(pre.to_multiset().count(pre[i as int]) > 0);
                assert(videos@.to_multiset() =~= pre.to_multiset());
                assert forall|a: int, b: int| 0 <= a < b < i + 1 implies mode_le(
                    mode,
                    videos@[a],
                    videos@[b],
                ) by {
                    if p < i {
                        lemma_mode_le_total(mode, pre[p as int], pre[i as int]);
                    }
                    if a < p && b == p {
                        assert(videos@[a] == pre[a]);
                        assert(videos@[b] == x);
                    } else if a == p && b > p {
                        assert(videos@[a] == x);
                        assert(videos@[b] == pre[b - 1]);
                        if b - 1 > p {
                            lemma_mode_le_trans(mode, x, pre[p as int], pre[b - 1]);
                        }
                    } else if a < p && b > p {
                        assert(videos@[a] == pre[a]);
                        assert(videos@[b] == pre[b - 1]);
                    } else if a > p {
                        assert(videos@[a] == pre[a - 1]);
                        assert(videos@[b] == pre[b - 1]);
                    }
                }
            }
            i = i + 1;
        }
    }
}

/// Apply the deterministic shuffle to an index list.
fn shuffle_indices(indices: Vec<usize>) -> (r: Vec<usize>)
    ensures
        r@.len() == indices@.len(),
        r@ == shuffle_rec(indices@, indices@.len() - 1),
        r@.to_multiset() == indices@.to_multiset(),
{
    let mut v = indices;
    let n = v.len();
    if n <= 1 {
        proof {
            assert(shuffle_rec(v@, v@.len() - 1) == v@);
        }
        return v;
    }
    let mut i: usize = n - 1;
    while i >= 1
        invariant
            1 <= i <= v@.len() - 1,
            v@.len() == indices@.len(),
            shuffle_rec(indices@, indices@.len() - 1) == shuffle_rec(v@, i as int),
            v@.to_multiset() == indices@.to_multiset(),
        decreases i,
    {
        let j = (((i as u128) * 7919 + 31) % ((i as u128) + 1)) as usize;
        proof {
            assert((i as int * 7919 + 31) % (i as int + 1) == ((i as u128) * 7919 + 31) as int % ((
            i as u128) + 1) as int);
            assert(j <= i);
        }
        let ghost pre = v@;
        let a = v[i];
        let b = v[j];
        v[i] = b;
        v[j] = a;
        proof {
            assert(v@ == shuffle_step(pre, i as int));
            lemma_swap_multiset(pre, i as int, j as int);
        }
        if i == 1 {
            proof {
                assert(shuffle_rec(v@, 0) == v@);
            }
            return v;
        }
        i = i - 1;
    }
    proof {
        assert(false);
    }
    v
}

proof fn lemma_swap_multiset(s: Seq<usize>, i: int, j: int)
    requires
        0 <= j <= i < s.len(),
    ensures
        s.update(i, s[j]).update(j, s[i]).to_multiset() == s.to_multiset(),
{
    if i == j {
        assert(s.update(i, s[j]).update(j, s[i]) =~= s);
    } else {
        let s1 = s.update(i, s[j]);
        let s2 = s1.update(j, s[i]);
        assert(s1.to_multiset() == s.to_multiset().insert(s[j]).remove(s[i]));
        assert(s1[j] == s[j]);
        assert(s2.to_multiset() == s1.to_multiset().insert(s[i]).remove(s[j]));
        assert(s.contains(s[i]));
        assert(s.contains(s[j]));
        assert(s2.to_multiset() =~= s.to_multiset());
    }
}

} // verus!
