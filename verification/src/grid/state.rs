//! Tracking of video element states with a least-recently-used queue: which
//! elements are loaded, which sit in the viewport, and which should be loaded
//! or unloaded next.

use vstd::prelude::*;
use crate::grid::types::VideoElementState;
use crate::grid::types::VideoState;
use crate::util::views_of;

verus! {

/// First position of `id` among the records, or -1.
pub open spec fn state_index_of(states: Seq<VideoElementState>, id: Seq<char>) -> int
    decreases states.len(),
{
    if states.len() == 0 {
        -1
    } else if states[0].video_id@ == id {
        0
    } else {
        let rest = state_index_of(states.skip(1), id);
        if rest < 0 {
            -1
        } else {
            rest + 1
        }
    }
}

pub open spec fn has_state(states: Seq<VideoElementState>, id: Seq<char>) -> bool {
    exists|i: int| 0 <= i < states.len() && states[i].video_id@ == id
}

/// The record of `id`: the first one carrying it.
pub open spec fn state_of(states: Seq<VideoElementState>, id: Seq<char>) -> VideoElementState {
    states[state_index_of(states, id)]
}

pub proof fn lemma_state_index(states: Seq<VideoElementState>, id: Seq<char>)
    ensures
        has_state(states, id) ==> 0 <= state_index_of(states, id) < states.len()
            && states[state_index_of(states, id)].video_id@ == id && forall|j: int|
            0 <= j < state_index_of(states, id) ==> states[j].video_id@ != id,
        !has_state(states, id) ==> state_index_of(states, id) == -1,
    decreases states.len(),
{
    if states.len() > 0 && states[0].video_id@ != id {
        lemma_state_index(states.skip(1), id);
        assert forall|j: int| 0 <= j < states.len() && states[j].video_id@ == id implies has_state(
            states.skip(1),
            id,
        ) by {
            assert(states.skip(1)[j - 1].video_id@ == id);
        }
        if has_state(states, id) {
            let k = state_index_of(states.skip(1), id);
            assert(states[k + 1] == states.skip(1)[k]);
            assert forall|j: int| 0 <= j < state_index_of(states, id) implies states[j].video_id@
                != id by {
                if j > 0 {
                    assert(states[j] == states.skip(1)[j - 1]);
                }
            }
        }
        if !has_state(states, id) && has_state(states.skip(1), id) {
            let k = choose|k: int|
                0 <= k < states.skip(1).len() && states.skip(1)[k].video_id@ == id;
            assert(states[k + 1].video_id@ == id);
        }
    }
}

/// Whether a record counts as loaded for the unload policy.
pub open spec fn is_loaded_state(s: VideoState) -> bool {
    s == VideoState::Loaded || s == VideoState::Playing
}

/// Number of loaded records.
pub open spec fn loaded_count(states: Seq<VideoElementState>) -> int
    decreases states.len(),
{
    if states.len() == 0 {
        0
    } else {
        loaded_count(states.drop_last()) + if is_loaded_state(states.last().state) {
            1int
        } else {
            0int
        }
    }
}

/// Whether the queue entry `id` is a candidate for unloading: loaded and not
/// in the viewport.
pub open spec fn unload_candidate(states: Seq<VideoElementState>, id: Seq<char>) -> bool {
    has_state(states, id) && is_loaded_state(state_of(states, id).state) && !state_of(
        states,
        id,
    ).is_in_viewport
}

/// The first `want` unload candidates of the queue, oldest first.
pub open spec fn unload_list(
    queue: Seq<Seq<char>>,
    states: Seq<VideoElementState>,
    want: int,
) -> Seq<Seq<char>>
    decreases queue.len(),
{
    if want <= 0 || queue.len() == 0 {
        Seq::empty()
    } else if unload_candidate(states, queue[0]) {
        seq![queue[0]] + unload_list(queue.skip(1), states, want - 1)
    } else {
        unload_list(queue.skip(1), states, want)
    }
}

/// The ids of `visible` that have no record yet or sit in the not-loaded
/// state, in order.
pub open spec fn load_list(visible: Seq<String>, states: Seq<VideoElementState>, n: int) -> Seq<
    Seq<char>,
>
    decreases n,
{
    if n <= 0 {
        Seq::empty()
    } else {
        let rest = load_list(visible, states, n - 1);
        let id = visible[n - 1]@;
        if !has_state(states, id) || state_of(states, id).state == VideoState::NotLoaded {
            rest.push(id)
        } else {
            rest
        }
    }
}

/// Element state manager: the records, a least-recently-used queue of their
/// ids, the activity budget, and a logical clock.
pub struct VideoStateManager {
    states: Vec<VideoElementState>,
    lru_queue: Vec<String>,
    max_active: usize,
    current_time: u64,
}

impl VideoStateManager {
    pub closed spec fn records(&self) -> Seq<VideoElementState> {
        self.states@
    }

    pub closed spec fn queue(&self) -> Seq<Seq<char>> {
        views_of(self.lru_queue@)
    }

    pub closed spec fn budget(&self) -> usize {
        self.max_active
    }

    pub closed spec fn time(&self) -> u64 {
        self.current_time
    }

    /// An empty manager with the given activity budget.
    pub fn new(max_active: usize) -> (r: Self)
        ensures
            r.records().len() == 0,
            r.queue().len() == 0,
            r.budget() == max_active,
            r.time() == 0,
    {
        let r = VideoStateManager {
            states: Vec::new(),
            lru_queue: Vec::new(),
            max_active,
            current_time: 0,
        };
        proof {
            assert(views_of(r.lru_queue@) =~= Seq::<Seq<char>>::empty());
        }
        r
    }

    /// First position of `id` among the records, if any.
    fn find_state(&self, video_id: &str) -> (r: Option<usize>)
        ensures
            r is Some <==> has_state(self.records(), video_id@),
            r matches Some(k) ==> k == state_index_of(self.records(), video_id@),
    {
        find_state_in(&self.states, video_id)
    }

    /// Register a video element: a new id gets a fresh record and joins the
    /// queue; when the queue then exceeds the budget, the oldest queue entry
    /// leaves the queue and its record, if any, is parked as paused and out of
    /// the viewport. A known id changes nothing.
    pub fn register(&mut self, video_id: String)
        ensures
            final(self).budget() == old(self).budget(),
            final(self).time() == old(self).time(),
            has_state(old(self).records(), video_id@) ==> *final(self) == *old(self),
            !has_state(old(self).records(), video_id@) ==> ({
                let grown = old(self).queue().push(video_id@);
                let over = grown.len() > old(self).budget();
                &&& final(self).queue() == if over {
                    grown.skip(1)
                } else {
                    grown
                }
                &&& final(self).records().len() == old(self).records().len() + 1
                &&& final(self).records()[old(self).records().len() as int].video_id@ == video_id@
                &&& (over ==> ({
                    let pushed = old(self).records().push(
                        final(self).records()[old(self).records().len() as int],
                    );
                    let victim = grown[0];
                    if has_state(pushed, victim) {
                        let vi = state_index_of(pushed, victim);
                        &&& forall|k: int|
                            0 <= k < final(self).records().len() && k != vi
                                ==> final(self).records()[k] == pushed[k]
                        &&& final(self).records()[vi].state == VideoState::Paused
                        &&& final(self).records()[vi].is_in_viewport == false
                        &&& final(self).records()[vi].video_id@ == pushed[vi].video_id@
                        &&& final(self).records()[vi].last_interaction
                            == pushed[vi].last_interaction
                        &&& final(self).records()[vi].load_priority == pushed[vi].load_priority
                    } else {
                        final(self).records() == pushed
                    }
                }))
                &&& (!over ==> ({
                    let appended = final(self).records()[old(self).records().len() as int];
                    &&& final(self).records() == old(self).records().push(appended)
                    &&& appended.state == VideoState::NotLoaded
                    &&& appended.last_interaction == 0
                    &&& appended.is_in_viewport == false
                    &&& appended.load_priority == 0
                }))
                &&& (over ==> ({
                    let pushed_last = final(self).records()[old(self).records().len() as int];
                    pushed_last.video_id@ == video_id@
                }))
            }),
    {
        let existing = self.find_state(&video_id);
        if existing.is_some() {
            return ;
        }
        let ghost pre_records = self.records();
        let ghost pre_queue = self.queue();
        let fresh = VideoElementState::new(video_id.clone());
        let ghost freshg = fresh;
        self.states.push(fresh);
        self.lru_queue.push(video_id);
        proof {
            assert(self.queue() =~= pre_queue.push(freshg.video_id@));
        }
        if self.lru_queue.len() > self.max_active {
            let old_id = self.lru_queue.remove(0);
            proof {
                assert(views_of(self.lru_queue@) =~= pre_queue.push(freshg.video_id@).skip(1));
                assert(old_id@ == pre_queue.push(freshg.video_id@)[0]);
            }
            let ghost pushed_exec = self.records();
            let pos = self.find_state(old_id.as_str());
            match pos {
                Some(k) => {
                    proof {
                        lemma_state_index(pushed_exec, old_id@);
                    }
                    let parked = VideoElementState {
                        video_id: self.states[k].video_id.clone(),
                        state: VideoState::Paused,
                        last_interaction: self.states[k].last_interaction,
                        is_in_viewport: false,
                        load_priority: self.states[k].load_priority,
                    };
                    let ghost parkedg = parked;
                    self.states[k] = parked;
                    proof {
                        let oldlen = pre_records.len() as int;
                        let last = self.records()[oldlen];
                        let pushed_spec = pre_records.push(last);
                        if k as int == oldlen {
                            assert(last == parkedg);
                            assert(parkedg.video_id@ == pushed_exec[k as int].video_id@);
                            assert(pushed_exec[k as int] == freshg);
                            assert(pushed_spec =~= pushed_exec.update(k as int, parkedg));
                            lemma_state_index(pushed_spec, old_id@);
                            assert(pushed_spec[oldlen].video_id@ == old_id@);
                            assert(has_state(pushed_spec, old_id@));
                            let vi = state_index_of(pushed_spec, old_id@);
                            if vi < oldlen {
                                assert(pushed_spec[vi] == pushed_exec[vi]);
                                assert(false);
                            }
                            assert(vi == k as int);
                        } else {
                            assert(last == freshg);
                            assert(pushed_spec =~= pushed_exec);
                        }
                    }
                },
                None => {
                    proof {
                        let oldlen = pre_records.len() as int;
                        let last = self.records()[oldlen];
                        assert(last == freshg);
                        assert(pre_records.push(last) =~= pushed_exec);
                    }
                },
            }
        }
    }

    /// The record of a video, if it is tracked.
    pub fn get_state(&self, video_id: &str) -> (r: Option<&VideoElementState>)
        ensures
            r is Some <==> has_state(self.records(), video_id@),
            r matches Some(st) ==> *st == state_of(self.records(), video_id@),
    {
        let pos = self.find_state(video_id);
        proof {
            lemma_state_index(self.records(), video_id@);
        }
        match pos {
            Some(k) => Some(&self.states[k]),
            None => None,
        }
    }

    /// Record a state change of a tracked video: its record takes the new
    /// state and the current time, and its queue entry moves to the back. An
    /// untracked id changes nothing.
    pub fn update_state(&mut self, video_id: &str, new_state: VideoState)
        ensures
            final(self).budget() == old(self).budget(),
            final(self).time() == old(self).time(),
            !has_state(old(self).records(), video_id@) ==> *final(self) == *old(self),
            has_state(old(self).records(), video_id@) ==> ({
                let vi = state_index_of(old(self).records(), video_id@);
                &&& final(self).records().len() == old(self).records().len()
                &&& forall|k: int|
                    0 <= k < final(self).records().len() && k != vi ==> final(self).records()[k]
                        == old(self).records()[k]
                &&& final(self).records()[vi].video_id@ == video_id@
                &&& final(self).records()[vi].state == new_state
                &&& final(self).records()[vi].last_interaction == old(self).time()
                &&& final(self).records()[vi].is_in_viewport
                    == old(self).records()[vi].is_in_viewport
                &&& final(self).records()[vi].load_priority
                    == old(self).records()[vi].load_priority
                &&& final(self).queue() == requeued(old(self).queue(), video_id@)
            }),
    {
        let pos = self.find_state(video_id);
        proof {
            lemma_state_index(self.records(), video_id@);
        }
        match pos {
            Some(k) => {
                let updated = VideoElementState {
                    video_id: self.states[k].video_id.clone(),
                    state: new_state,
                    last_interaction: self.current_time,
                    is_in_viewport: self.states[k].is_in_viewport,
                    load_priority: self.states[k].load_priority,
                };
                self.states[k] = updated;
                self.requeue(video_id);
            },
            None => {},
        }
    }

    /// Mark whether a video sits in the viewport: in the viewport it takes
    /// top load priority and its queue entry moves to the back; out of it the
    /// priority drops to zero. Either way the record takes the current time.
    pub fn mark_in_viewport(&mut self, video_id: &str, in_viewport: bool)
        ensures
            final(self).budget() == old(self).budget(),
            final(self).time() == old(self).time(),
            !has_state(old(self).records(), video_id@) ==> *final(self) == *old(self),
            has_state(old(self).records(), video_id@) ==> ({
                let vi = state_index_of(old(self).records(), video_id@);
                &&& final(self).records().len() == old(self).records().len()
                &&& forall|k: int|
                    0 <= k < final(self).records().len() && k != vi ==> final(self).records()[k]
                        == old(self).records()[k]
                &&& final(self).records()[vi].video_id@ == video_id@
                &&& final(self).records()[vi].state == old(self).records()[vi].state
                &&& final(self).records()[vi].last_interaction == old(self).time()
                &&& final(self).records()[vi].is_in_viewport == in_viewport
                &&& final(self).records()[vi].load_priority == if in_viewport {
                    10u8
                } else {
                    0u8
                }
                &&& final(self).queue() == if in_viewport {
                    requeued(old(self).queue(), video_id@)
                } else {
                    old(self).queue()
                }
            }),
    {
        let pos = self.find_state(video_id);
        proof {
            lemma_state_index(self.records(), video_id@);
        }
        match pos {
            Some(k) => {
                let updated = VideoElementState {
                    video_id: self.states[k].video_id.clone(),
                    state: self.states[k].state,
                    last_interaction: self.current_time,
                    is_in_viewport: in_viewport,
                    load_priority: if in_viewport {
                        10
                    } else {
                        0
                    },
                };
                self.states[k] = updated;
                if in_viewport {
                    self.requeue(video_id);
                }
            },
            None => {},
        }
    }

    /// First position of `video_id` in the queue, if any.
    fn find_queue_index(&self, video_id: &str) -> (r: Option<usize>)
        ensures
            r is Some <==> queue_has(self.queue(), video_id@),
            r matches Some(k) ==> k == queue_index_of(self.queue(), video_id@),
    {
        let n = self.lru_queue.len();
        let mut i: usize = 0;
        while i < n
            invariant
                i <= n,
                n == self.lru_queue@.len(),
                forall|j: int| 0 <= j < i ==> views_of(self.lru_queue@)[j] != video_id@,
            decreases n - i,
        {
            if compare_str(self.lru_queue[i].as_str(), video_id) {
                proof {
                    lemma_queue_index(self.queue(), video_id@);
                    assert(self.queue()[i as int] == video_id@);
                }
                return Some(i);
            }
            i = i + 1;
        }
        proof {
            if queue_has(self.queue(), video_id@) {
                let j = choose|j: int|
                    0 <= j < self.queue().len() && self.queue()[j] == video_id@;
                assert(false);
            }
        }
        None
    }

    /// Move the first queue entry of `video_id`, if any, to the back of the
    /// queue.
    fn requeue(&mut self, video_id: &str)
        ensures
            final(self).records() == old(self).records(),
            final(self).budget() == old(self).budget(),
            final(self).time() == old(self).time(),
            final(self).queue() == requeued(old(self).queue(), video_id@),
    {
        let pos = self.find_queue_index(video_id);
        proof {
            lemma_queue_index(self.queue(), video_id@);
        }
        match pos {
            Some(i) => {
                let ghost pre = self.queue();
                let moved = self.lru_queue.remove(i);
                self.lru_queue.push(moved);
                proof {
                    assert(views_of(self.lru_queue@) =~= pre.remove(i as int).push(pre[i as int]));
                }
            },
            None => {},
        }
    }

    /// The videos that should be unloaded: when more are loaded than the
    /// allowance, the oldest loaded, out-of-viewport queue entries, as many as
    /// the excess.
    pub fn get_videos_to_unload(&self, max_loaded: usize) -> (r: Vec<String>)
        ensures
            loaded_count(self.records()) <= max_loaded ==> r@.len() == 0,
            loaded_count(self.records()) > max_loaded ==> views_of(r@) == unload_list(
                self.queue(),
                self.records(),
                loaded_count(self.records()) - max_loaded,
            ),
    {
        let total = self.count_loaded();
        if total <= max_loaded {
            return Vec::new();
        }
        let want0 = total - max_loaded;
        let mut out: Vec<String> = Vec::new();
        let mut want = want0;
        let n = self.lru_queue.len();
        let mut i: usize = 0;
        proof {
            assert(views_of(out@) =~= Seq::<Seq<char>>::empty());
            assert(self.queue().skip(0) =~= self.queue());
        }
        while i < n && want > 0
            invariant
                i <= n,
                n == self.lru_queue@.len(),
                want <= want0,
                unload_list(self.queue(), self.records(), want0 as int) == views_of(out@)
                    + unload_list(self.queue().skip(i as int), self.records(), want as int),
            decreases n - i,
        {
            proof {
                assert(self.queue().skip(i as int)[0] == self.queue()[i as int]);
                assert(self.queue().skip(i as int).skip(1) =~= self.queue().skip(i as int + 1));
            }
            let id = &self.lru_queue[i];
            let pos = self.find_state(id.as_str());
            proof {
                lemma_state_index(self.records(), id@);
            }
            let take: bool = match pos {
                Some(k) => {
                    let is_loaded = match self.states[k].state {
                        VideoState::Loaded => true,
                        VideoState::Playing => true,
                        _ => false,
                    };
                    is_loaded && !self.states[k].is_in_viewport
                },
                None => false,
            };
            if take {
                let ghost pre_out = views_of(out@);
                let picked = id.clone();
                out.push(picked);
                proof {
                    assert(views_of(out@) =~= pre_out.push(self.queue()[i as int]));
                    assert(pre_out.push(self.queue()[i as int]) =~= pre_out + seq![
                        self.queue()[i as int],
                    ]);
                }
                want = want - 1;
            }
            i = i + 1;
        }
        proof {
            if want == 0 {
                assert(unload_list(self.queue().skip(i as int), self.records(), 0) =~= Seq::<
                    Seq<char>,
                >::empty());
            } else {
                assert(i == n);
                assert(self.queue().skip(n as int) =~= Seq::<Seq<char>>::empty());
            }
            assert(views_of(out@) + Seq::<Seq<char>>::empty() =~= views_of(out@));
        }
        out
    }

    /// The visible videos that still need loading: those without a record or
    /// still in the not-loaded state.
    pub fn get_videos_to_load(&self, visible_ids: &Vec<String>) -> (r: Vec<String>)
        ensures
            views_of(r@) == load_list(visible_ids@, self.records(), visible_ids@.len() as int),
    {
        let n = visible_ids.len();
        let mut out: Vec<String> = Vec::new();
        let mut i: usize = 0;
        proof {
            assert(views_of(out@) =~= Seq::<Seq<char>>::empty());
        }
        while i < n
            invariant
                i <= n,
                n == visible_ids@.len(),
                views_of(out@) == load_list(visible_ids@, self.records(), i as int),
            decreases n - i,
        {
            let id = &visible_ids[i];
            let pos = self.find_state(id.as_str());
            proof {
                lemma_state_index(self.records(), id@);
            }
            let needs: bool = match pos {
                Some(k) => match self.states[k].state {
                    VideoState::NotLoaded => true,
                    _ => false,
                },
                None => true,
            };
            if needs {
                let ghost pre_out = views_of(out@);
                let picked = id.clone();
                out.push(picked);
                proof {
                    assert(views_of(out@) =~= pre_out.push(visible_ids@[i as int]@));
                }
            }
            i = i + 1;
        }
        out
    }

    /// Whether a record survives a cleanup at time `now` with the given
    /// threshold: it sits in the viewport or was touched recently enough.
    /// (A record stamped in the future is kept, harmlessly.)
    pub open spec fn keeps_after_cleanup(st: VideoElementState, now: u64, threshold: u64) -> bool {
        st.is_in_viewport || now < st.last_interaction || now - st.last_interaction <= threshold
    }

    /// Drop the records of videos far out of the viewport: those not in the
    /// viewport whose last interaction is older than the threshold. Their
    /// queue entries leave with them.
    pub fn cleanup_inactive(&mut self, inactive_threshold: u64)
        ensures
            final(self).budget() == old(self).budget(),
            final(self).time() == old(self).time(),
            final(self).records() == kept_states(
                old(self).records(),
                old(self).time(),
                inactive_threshold,
            ),
            final(self).queue() == kept_queue(old(self).queue(), final(self).records()),
    {
        let now = self.current_time;
        let n = self.states.len();
        let mut kept: Vec<VideoElementState> = Vec::new();
        let mut i: usize = 0;
        proof {
            assert(self.records().take(0) =~= Seq::<VideoElementState>::empty());
        }
        while i < n
            invariant
                i <= n,
                n == self.records().len(),
                now == self.time(),
                kept@ == kept_states(self.records().take(i as int), now, inactive_threshold),
            decreases n - i,
        {
            proof {
                assert(self.records().take(i as int + 1).drop_last() =~= self.records().take(
                    i as int,
                ));
                assert(self.records().take(i as int + 1).last() == self.records()[i as int]);
            }
            let st = &self.states[i];
            let keep = st.is_in_viewport || now < st.last_interaction || now
                - st.last_interaction <= inactive_threshold;
            if keep {
                let copy = clone_state(st);
                kept.push(copy);
            }
            i = i + 1;
        }
        proof {
            assert(self.records().take(n as int) =~= self.records());
        }
        let m = self.lru_queue.len();
        let mut kept_ids: Vec<String> = Vec::new();
        let mut j: usize = 0;
        proof {
            assert(views_of(kept_ids@) =~= Seq::<Seq<char>>::empty());
            assert(self.queue().take(0) =~= Seq::<Seq<char>>::empty());
        }
        while j < m
            invariant
                j <= m,
                m == self.lru_queue@.len(),
                views_of(kept_ids@) == kept_queue(self.queue().take(j as int), kept@),
            decreases m - j,
        {
            proof {
                assert(self.queue().take(j as int + 1).drop_last() =~= self.queue().take(
                    j as int,
                ));
                assert(self.queue().take(j as int + 1).last() == self.queue()[j as int]);
            }
            let id = &self.lru_queue[j];
            let still = find_state_in(&kept, id.as_str());
            if still.is_some() {
                let ghost pre = views_of(kept_ids@);
                let copy = id.clone();
                kept_ids.push(copy);
                proof {
                    assert(views_of(kept_ids@) =~= pre.push(self.queue()[j as int]));
                }
            }
            j = j + 1;
        }
        proof {
            assert(self.queue().take(m as int) =~= self.queue());
        }
        self.states = kept;
        self.lru_queue = kept_ids;
    }

    /// Counts of the records per state, and of those in the viewport.
    pub fn get_stats(&self) -> (r: StateStats)
        ensures
            r.total == self.records().len(),
            r.not_loaded == count_state(self.records(), VideoState::NotLoaded),
            r.loading == count_state(self.records(), VideoState::Loading),
            r.loaded == count_state(self.records(), VideoState::Loaded),
            r.playing == count_state(self.records(), VideoState::Playing),
            r.paused == count_state(self.records(), VideoState::Paused),
            r.error == count_state(self.records(), VideoState::Error),
            r.in_viewport == count_in_viewport(self.records()),
    {
        let n = self.states.len();
        let mut stats = StateStats {
            total: 0,
            not_loaded: 0,
            loading: 0,
            loaded: 0,
            playing: 0,
            paused: 0,
            error: 0,
            in_viewport: 0,
        };
        let mut i: usize = 0;
        proof {
            assert(self.records().take(0) =~= Seq::<VideoElementState>::empty());
            lemma_counts_bounded(self.records(), 0);
        }
        while i < n
            invariant
                i <= n,
                n == self.records().len(),
                stats.total == i,
                stats.not_loaded == count_state(
                    self.records().take(i as int),
                    VideoState::NotLoaded,
                ),
                stats.loading == count_state(self.records().take(i as int), VideoState::Loading),
                stats.loaded == count_state(self.records().take(i as int), VideoState::Loaded),
                stats.playing == count_state(self.records().take(i as int), VideoState::Playing),
                stats.paused == count_state(self.records().take(i as int), VideoState::Paused),
                stats.error == count_state(self.records().take(i as int), VideoState::Error),
                stats.in_viewport == count_in_viewport(self.records().take(i as int)),
                stats.not_loaded <= i,
                stats.loading <= i,
                stats.loaded <= i,
                stats.playing <= i,
                stats.paused <= i,
                stats.error <= i,
                stats.in_viewport <= i,
            decreases n - i,
        {
            proof {
                assert(self.records().take(i as int + 1).drop_last() =~= self.records().take(
                    i as int,
                ));
                assert(self.records().take(i as int + 1).last() == self.records()[i as int]);
            }
            stats.total = stats.total + 1;
            match self.states[i].state {
                VideoState::NotLoaded => {
                    stats.not_loaded = stats.not_loaded + 1;
                },
                VideoState::Loading => {
                    stats.loading = stats.loading + 1;
                },
                VideoState::Loaded => {
                    stats.loaded = stats.loaded + 1;
                },
                VideoState::Playing => {
                    stats.playing = stats.playing + 1;
                },
                VideoState::Paused => {
                    stats.paused = stats.paused + 1;
                },
                VideoState::Error => {
                    stats.error = stats.error + 1;
                },
            }
            if self.states[i].is_in_viewport {
                stats.in_viewport = stats.in_viewport + 1;
            }
            i = i + 1;
        }
        proof {
            assert(self.records().take(n as int) =~= self.records());
        }
        stats
    }

    /// Advance the logical clock.
    pub fn tick(&mut self)
        requires
            old(self).time() < u64::MAX,
        ensures
            final(self).time() == old(self).time() + 1,
            final(self).records() == old(self).records(),
            final(self).queue() == old(self).queue(),
            final(self).budget() == old(self).budget(),
    {
        self.current_time = self.current_time + 1;
    }

    /// Forget everything and restart the clock.
    pub fn clear(&mut self)
        ensures
            final(self).records().len() == 0,
            final(self).queue().len() == 0,
            final(self).time() == 0,
            final(self).budget() == old(self).budget(),
    {
        self.states.clear();
        self.lru_queue.clear();
        self.current_time = 0;
        proof {
            assert(views_of(self.lru_queue@) =~= Seq::<Seq<char>>::empty());
        }
    }

    /// Count the loaded records.
    fn count_loaded(&self) -> (r: usize)
        ensures
            r == loaded_count(self.records()),
    {
        let n = self.states.len();
        let mut count: usize = 0;
        let mut i: usize = 0;
        proof {
            assert(self.records().take(0) =~= Seq::<VideoElementState>::empty());
            lemma_loaded_count_bound(self.records());
        }
        while i < n
            invariant
                i <= n,
                n == self.records().len(),
                count == loaded_count(self.records().take(i as int)),
                count <= i,
            decreases n - i,
        {
            proof {
                assert(self.records().take(i as int + 1).drop_last() =~= self.records().take(
                    i as int,
                ));
                assert(self.records().take(i as int + 1).last() == self.records()[i as int]);
            }
            let is_loaded = match self.states[i].state {
                VideoState::Loaded => true,
                VideoState::Playing => true,
                _ => false,
            };
            if is_loaded {
                count = count + 1;
            }
            i = i + 1;
        }
        proof {
            assert(self.records().take(n as int) =~= self.records());
        }
        count
    }
}

proof fn lemma_loaded_count_bound(states: Seq<VideoElementState>)
    ensures
        0 <= loaded_count(states) <= states.len(),
    decreases states.len(),
{
    if states.len() > 0 {
        lemma_loaded_count_bound(states.drop_last());
    }
}

/// First position of `id` in the queue, or -1.
pub open spec fn queue_index_of(queue: Seq<Seq<char>>, id: Seq<char>) -> int
    decreases queue.len(),
{
    if queue.len() == 0 {
        -1
    } else if queue[0] == id {
        0
    } else {
        let rest = queue_index_of(queue.skip(1), id);
        if rest < 0 {
            -1
        } else {
            rest + 1
        }
    }
}

pub open spec fn queue_has(queue: Seq<Seq<char>>, id: Seq<char>) -> bool {
    exists|i: int| 0 <= i < queue.len() && queue[i] == id
}

/// A queue with the first entry of `id`, if any, moved to the back.
pub open spec fn requeued(queue: Seq<Seq<char>>, id: Seq<char>) -> Seq<Seq<char>> {
    if queue_has(queue, id) {
        queue.remove(queue_index_of(queue, id)).push(queue[queue_index_of(queue, id)])
    } else {
        queue
    }
}

proof fn lemma_queue_index(queue: Seq<Seq<char>>, id: Seq<char>)
    ensures
        queue_has(queue, id) ==> 0 <= queue_index_of(queue, id) < queue.len()
            && queue[queue_index_of(queue, id)] == id && forall|j: int|
            0 <= j < queue_index_of(queue, id) ==> queue[j] != id,
        !queue_has(queue, id) ==> queue_index_of(queue, id) == -1,
    decreases queue.len(),
{
    if queue.len() > 0 && queue[0] != id {
        lemma_queue_index(queue.skip(1), id);
        assert forall|j: int| 0 <= j < queue.len() && queue[j] == id implies queue_has(
            queue.skip(1),
            id,
        ) by {
            assert(queue.skip(1)[j - 1] == id);
        }
        if queue_has(queue, id) {
            let k = queue_index_of(queue.skip(1), id);
            assert(queue[k + 1] == queue.skip(1)[k]);
            assert forall|j: int| 0 <= j < queue_index_of(queue, id) implies queue[j] != id by {
                if j > 0 {
                    assert(queue[j] == queue.skip(1)[j - 1]);
                }
            }
        }
        if !queue_has(queue, id) && queue_has(queue.skip(1), id) {
            let k = choose|k: int| 0 <= k < queue.skip(1).len() && queue.skip(1)[k] == id;
            assert(queue[k + 1] == id);
        }
    }
}

/// First position of `id` among the records of a list, if any.
fn find_state_in(states: &Vec<VideoElementState>, video_id: &str) -> (r: Option<usize>)
    ensures
        r is Some <==> has_state(states@, video_id@),
        r matches Some(k) ==> k == state_index_of(states@, video_id@),
{
    let n = states.len();
    let mut i: usize = 0;
    while i < n
        invariant
            i <= n,
            n == states@.len(),
            forall|j: int| 0 <= j < i ==> states@[j].video_id@ != video_id@,
        decreases n - i,
    {
        if compare_str(states[i].video_id.as_str(), video_id) {
            proof {
                lemma_state_index(states@, video_id@);
            }
            return Some(i);
        }
        i = i + 1;
    }
    proof {
        if has_state(states@, video_id@) {
            let j = choose|j: int| 0 <= j < states@.len() && states@[j].video_id@ == video_id@;
            assert(false);
        }
    }
    None
}

/// Character equality of two borrowed strings.
fn compare_str(a: &str, b: &str) -> (r: bool)
    ensures
        r == (a@ == b@),
{
    let av = a.to_owned();
    let bv = b.to_owned();
    av == bv
}

/// Statistics over the tracked records.
pub struct StateStats {
    pub total: usize,
    pub not_loaded: usize,
    pub loading: usize,
    pub loaded: usize,
    pub playing: usize,
    pub paused: usize,
    pub error: usize,
    pub in_viewport: usize,
}

/// Number of records in a given state.
pub open spec fn count_state(states: Seq<VideoElementState>, which: VideoState) -> int
    decreases states.len(),
{
    if states.len() == 0 {
        0
    } else {
        count_state(states.drop_last(), which) + if states.last().state == which {
            1int
        } else {
            0int
        }
    }
}

/// Number of records in the viewport.
pub open spec fn count_in_viewport(states: Seq<VideoElementState>) -> int
    decreases states.len(),
{
    if states.len() == 0 {
        0
    } else {
        count_in_viewport(states.drop_last()) + if states.last().is_in_viewport {
            1int
        } else {
            0int
        }
    }
}

proof fn lemma_counts_bounded(states: Seq<VideoElementState>, dummy: int)
    ensures
        forall|w: VideoState| 0 <= #[trigger] count_state(states, w) <= states.len(),
        0 <= count_in_viewport(states) <= states.len(),
    decreases states.len(),
{
    if states.len() > 0 {
        lemma_counts_bounded(states.drop_last(), dummy);
        assert forall|w: VideoState| 0 <= #[trigger] count_state(states, w)
            <= states.len() by {
            assert(0 <= count_state(states.drop_last(), w) <= states.drop_last().len());
        }
    }
}

/// The records that survive a cleanup, in order.
pub open spec fn kept_states(
    states: Seq<VideoElementState>,
    now: u64,
    threshold: u64,
) -> Seq<VideoElementState>
    decreases states.len(),
{
    if states.len() == 0 {
        Seq::empty()
    } else {
        let rest = kept_states(states.drop_last(), now, threshold);
        if VideoStateManager::keeps_after_cleanup(states.last(), now, threshold) {
            rest.push(states.last())
        } else {
            rest
        }
    }
}

/// The queue entries whose records survive, in order.
pub open spec fn kept_queue(
    queue: Seq<Seq<char>>,
    states: Seq<VideoElementState>,
) -> Seq<Seq<char>>
    decreases queue.len(),
{
    if queue.len() == 0 {
        Seq::empty()
    } else {
        let rest = kept_queue(queue.drop_last(), states);
        if has_state(states, queue.last()) {
            rest.push(queue.last())
        } else {
            rest
        }
    }
}

/// Copy one element record.
fn clone_state(st: &VideoElementState) -> (r: VideoElementState)
    ensures
        r == *st,
{
    VideoElementState {
        video_id: st.video_id.clone(),
        state: st.state,
        last_interaction: st.last_interaction,
        is_in_viewport: st.is_in_viewport,
        load_priority: st.load_priority,
    }
}

} // verus!
