//! DOM reconciliation: the minimal operations that turn the currently
//! rendered window of the grid into the newly visible one, and a batcher that
//! orders operations for execution.

use vstd::prelude::*;
use crate::grid::types::DomOperation;
use crate::grid::types::ReconciliationResult;
use crate::grid::types::VideoItem;
use crate::grid::types::Viewport;
use crate::grid::types::end_row_of;
use crate::grid::types::start_row_of;
use crate::grid::types::total_rows_of;
use crate::util::str_in;
use crate::util::str_list_contains;
use crate::util::views_of;

verus! {

/// The last position of `id` in a list, or -1: where a position map built by
/// inserting each element in order would point.
pub open spec fn last_index_of(ids: Seq<Seq<char>>, id: Seq<char>) -> int
    decreases ids.len(),
{
    if ids.len() == 0 {
        -1
    } else if ids.last() == id {
        ids.len() - 1
    } else {
        last_index_of(ids.drop_last(), id)
    }
}

pub open spec fn seq_has(ids: Seq<Seq<char>>, id: Seq<char>) -> bool {
    exists|i: int| 0 <= i < ids.len() && ids[i] == id
}

/// The ids removed: those of the old window, in order, that the new window no
/// longer shows.
pub open spec fn removed_ids(old_ids: Seq<Seq<char>>, new_ids: Seq<Seq<char>>) -> Seq<Seq<char>>
    decreases old_ids.len(),
{
    if old_ids.len() == 0 {
        Seq::empty()
    } else {
        let rest = removed_ids(old_ids.drop_last(), new_ids);
        if !seq_has(new_ids, old_ids.last()) {
            rest.push(old_ids.last())
        } else {
            rest
        }
    }
}

/// The additions: position and id of each newly shown entry, in order.
pub open spec fn added_entries(old_ids: Seq<Seq<char>>, new_ids: Seq<Seq<char>>, n: int) -> Seq<
    (int, Seq<char>),
>
    decreases n,
{
    if n <= 0 {
        Seq::empty()
    } else {
        let rest = added_entries(old_ids, new_ids, n - 1);
        if !seq_has(old_ids, new_ids[n - 1]) {
            rest.push((n - 1, new_ids[n - 1]))
        } else {
            rest
        }
    }
}

/// The moves: id, old position and new position of each entry shown in both
/// windows at different positions, in new-window order.
pub open spec fn moved_entries(old_ids: Seq<Seq<char>>, new_ids: Seq<Seq<char>>, n: int) -> Seq<
    (Seq<char>, int, int),
>
    decreases n,
{
    if n <= 0 {
        Seq::empty()
    } else {
        let rest = moved_entries(old_ids, new_ids, n - 1);
        let id = new_ids[n - 1];
        if seq_has(old_ids, id) && last_index_of(old_ids, id) != n - 1 {
            rest.push((id, last_index_of(old_ids, id), n - 1))
        } else {
            rest
        }
    }
}

pub open spec fn op_is_remove(op: DomOperation, id: Seq<char>) -> bool {
    op matches DomOperation::Remove { video_id } && video_id@ == id
}

pub open spec fn op_is_add(op: DomOperation, index: int, id: Seq<char>) -> bool {
    op matches DomOperation::Add { index: i, video_id } && i == index && video_id@ == id
}

pub open spec fn op_is_move(op: DomOperation, id: Seq<char>, from: int, to: int) -> bool {
    op matches DomOperation::Move { video_id, from: f, to: t } && video_id@ == id && f == from
        && t == to
}

/// The id views of the newly visible window: the ids of the videos the
/// filtered indices pick in `[start, end)`.
pub open spec fn window_ids(
    videos: Seq<VideoItem>,
    filtered: Seq<usize>,
    start: int,
    end: int,
) -> Seq<Seq<char>> {
    Seq::new((end - start) as nat, |k: int| videos[filtered[start + k] as int].id@)
}

/// The last position of `id`, if it occurs.
fn last_position_of(ids: &Vec<String>, id: &String) -> (r: Option<usize>)
    ensures
        r is Some <==> seq_has(views_of(ids@), id@),
        r matches Some(k) ==> k == last_index_of(views_of(ids@), id@),
{
    let n = ids.len();
    let mut i: usize = n;
    proof {
        assert(views_of(ids@).take(n as int) =~= views_of(ids@));
    }
    while i > 0
        invariant
            i <= n,
            n == ids@.len(),
            last_index_of(views_of(ids@), id@) == last_index_of(
                views_of(ids@).take(i as int),
                id@,
            ),
            seq_has(views_of(ids@), id@) == seq_has(views_of(ids@).take(i as int), id@),
            forall|j: int| i <= j < n ==> views_of(ids@)[j] != id@,
        decreases i,
    {
        proof {
            assert(views_of(ids@).take(i as int).last() == views_of(ids@)[i - 1]);
            assert(views_of(ids@).take(i as int).drop_last() =~= views_of(ids@).take(i - 1));
            if views_of(ids@)[i - 1] == id@ {
                assert(seq_has(views_of(ids@).take(i as int), id@));
            }
        }
        if ids[i - 1] == *id {
            proof {
                lemma_last_index_in_range(views_of(ids@), id@);
            }
            return Some(i - 1);
        }
        i = i - 1;
    }
    proof {
        assert(views_of(ids@).take(0) =~= Seq::<Seq<char>>::empty());
        if seq_has(views_of(ids@), id@) {
            let j = choose|j: int| 0 <= j < views_of(ids@).len() && views_of(ids@)[j] == id@;
            assert(false);
        }
    }
    None
}

proof fn lemma_last_index_in_range(ids: Seq<Seq<char>>, id: Seq<char>)
    ensures
        seq_has(ids, id) ==> 0 <= last_index_of(ids, id) < ids.len() && ids[last_index_of(
            ids,
            id,
        )] == id,
        !seq_has(ids, id) ==> last_index_of(ids, id) == -1,
    decreases ids.len(),
{
    if ids.len() > 0 {
        lemma_last_index_in_range(ids.drop_last(), id);
        if ids.last() != id {
            assert forall|j: int| 0 <= j < ids.len() && ids[j] == id implies seq_has(
                ids.drop_last(),
                id,
            ) by {
                assert(ids.drop_last()[j] == id);
            }
            if seq_has(ids.drop_last(), id) {
                assert(ids[last_index_of(ids.drop_last(), id)] == ids.drop_last()[last_index_of(
                    ids.drop_last(),
                    id,
                )]);
            }
        }
    }
}

/// DOM reconciliation engine: the window currently rendered.
pub struct DomReconciler {
    current_visible: Vec<String>,
    current_range: (usize, usize),
}

impl DomReconciler {
    /// The ids currently rendered.
    pub closed spec fn visible(&self) -> Seq<String> {
        self.current_visible@
    }

    /// The index range currently rendered.
    pub closed spec fn range(&self) -> (usize, usize) {
        self.current_range
    }

    /// A reconciler that has rendered nothing.
    pub fn new() -> (r: Self)
        ensures
            r.visible().len() == 0,
            r.range() == (0usize, 0usize),
    {
        DomReconciler { current_visible: Vec::new(), current_range: (0, 0) }
    }

    /// Get current visible video ids.
    pub fn get_visible_ids(&self) -> (r: &Vec<String>)
        ensures
            r@ == self.visible(),
    {
        &self.current_visible
    }

    /// Get current visible range.
    pub fn get_visible_range(&self) -> (r: (usize, usize))
        ensures
            r == self.range(),
    {
        self.current_range
    }

    /// Forget the rendered window.
    pub fn reset(&mut self)
        ensures
            final(self).visible().len() == 0,
            final(self).range() == (0usize, 0usize),
    {
        self.current_visible.clear();
        self.current_range = (0, 0);
    }

    /// The minimal operations that turn the rendered window into
    /// `new_visible`: removals of the ids no longer shown, then additions at
    /// their grid positions, then the moves of the ids that stay.
    fn calculate_operations(&self, new_visible: &Vec<String>, new_start_idx: usize) -> (r: Vec<
        DomOperation,
    >)
        requires
            new_start_idx + new_visible@.len() <= usize::MAX,
        ensures
            ({
                let old_ids = views_of(self.visible());
                let new_ids = views_of(new_visible@);
                let rem = removed_ids(old_ids, new_ids);
                let add = added_entries(old_ids, new_ids, new_ids.len() as int);
                let mov = moved_entries(old_ids, new_ids, new_ids.len() as int);
                &&& r@.len() == rem.len() + add.len() + mov.len()
                &&& forall|k: int| 0 <= k < rem.len() ==> op_is_remove(#[trigger] r@[k], rem[k])
                &&& forall|k: int|
                    0 <= k < add.len() ==> op_is_add(
                        #[trigger] r@[rem.len() + k],
                        new_start_idx + add[k].0,
                        add[k].1,
                    )
                &&& forall|k: int|
                    0 <= k < mov.len() ==> op_is_move(
                        #[trigger] r@[rem.len() + add.len() + k],
                        mov[k].0,
                        mov[k].1,
                        mov[k].2,
                    )
            }),
    {
        let ghost old_ids = views_of(self.visible());
        let ghost new_ids = views_of(new_visible@);
        let mut ops: Vec<DomOperation> = Vec::new();
        // removals: old ids the new window no longer shows
        let n_old = self.current_visible.len();
        let mut i: usize = 0;
        proof {
            assert(old_ids.take(0) =~= Seq::<Seq<char>>::empty());
        }
        while i < n_old
            invariant
                i <= n_old,
                n_old == self.visible().len(),
                old_ids == views_of(self.visible()),
                new_ids == views_of(new_visible@),
                ops@.len() == removed_ids(old_ids.take(i as int), new_ids).len(),
                forall|k: int|
                    0 <= k < ops@.len() ==> op_is_remove(
                        #[trigger] ops@[k],
                        removed_ids(old_ids.take(i as int), new_ids)[k],
                    ),
            decreases n_old - i,
        {
            proof {
                assert(old_ids.take(i as int + 1).drop_last() =~= old_ids.take(i as int));
                assert(old_ids.take(i as int + 1).last() == old_ids[i as int]);
                assert(old_ids[i as int] == self.visible()[i as int]@);
            }
            let present = str_list_contains(new_visible, &self.current_visible[i]);
            proof {
                assert(str_in(new_visible@, self.visible()[i as int]@) == seq_has(
                    new_ids,
                    old_ids[i as int],
                )) by {
                    let target = self.visible()[i as int]@;
                    if str_in(new_visible@, target) {
                        let j = choose|j: int|
                            0 <= j < new_visible@.len() && new_visible@[j]@ == target;
                        assert(new_ids[j] == old_ids[i as int]);
                    }
                    if seq_has(new_ids, old_ids[i as int]) {
                        let j = choose|j: int|
                            0 <= j < new_ids.len() && new_ids[j] == old_ids[i as int];
                        assert(new_visible@[j]@ == self.visible()[i as int]@);
                    }
                }
            }
            if !present {
                let id = self.current_visible[i].clone();
                ops.push(DomOperation::Remove { video_id: id });
            }
            i = i + 1;
        }
        proof {
            assert(old_ids.take(n_old as int) =~= old_ids);
        }
        let ghost rem = removed_ids(old_ids, new_ids);
        // additions: new ids the old window did not show
        let n_new = new_visible.len();
        let mut i: usize = 0;
        while i < n_new
            invariant
                i <= n_new,
                n_new == new_visible@.len(),
                new_start_idx + n_new <= usize::MAX,
                old_ids == views_of(self.visible()),
                new_ids == views_of(new_visible@),
                rem == removed_ids(old_ids, new_ids),
                ops@.len() == rem.len() + added_entries(old_ids, new_ids, i as int).len(),
                forall|k: int| 0 <= k < rem.len() ==> op_is_remove(#[trigger] ops@[k], rem[k]),
                forall|k: int|
                    0 <= k < added_entries(old_ids, new_ids, i as int).len() ==> op_is_add(
                        #[trigger] ops@[rem.len() + k],
                        new_start_idx + added_entries(old_ids, new_ids, i as int)[k].0,
                        added_entries(old_ids, new_ids, i as int)[k].1,
                    ),
            decreases n_new - i,
        {
            proof {
                assert(new_ids[i as int] == new_visible@[i as int]@);
            }
            let present = str_list_contains(&self.current_visible, &new_visible[i]);
            proof {
                assert(str_in(self.visible(), new_visible@[i as int]@) == seq_has(
                    old_ids,
                    new_ids[i as int],
                )) by {
                    let target = new_visible@[i as int]@;
                    if str_in(self.visible(), target) {
                        let j = choose|j: int|
                            0 <= j < self.visible().len() && self.visible()[j]@ == target;
                        assert(old_ids[j] == new_ids[i as int]);
                    }
                    if seq_has(old_ids, new_ids[i as int]) {
                        let j = choose|j: int|
                            0 <= j < old_ids.len() && old_ids[j] == new_ids[i as int];
                        assert(self.visible()[j]@ == new_visible@[i as int]@);
                    }
                }
            }
            if !present {
                let id = new_visible[i].clone();
                ops.push(DomOperation::Add { index: new_start_idx + i, video_id: id });
            }
            i = i + 1;
        }
        let ghost add = added_entries(old_ids, new_ids, new_ids.len() as int);
        // moves: ids shown in both windows at different positions
        let mut i: usize = 0;
        while i < n_new
            invariant
                i <= n_new,
                n_new == new_visible@.len(),
                old_ids == views_of(self.visible()),
                new_ids == views_of(new_visible@),
                rem == removed_ids(old_ids, new_ids),
                add == added_entries(old_ids, new_ids, new_ids.len() as int),
                ops@.len() == rem.len() + add.len() + moved_entries(
                    old_ids,
                    new_ids,
                    i as int,
                ).len(),
                forall|k: int| 0 <= k < rem.len() ==> op_is_remove(#[trigger] ops@[k], rem[k]),
                forall|k: int|
                    0 <= k < add.len() ==> op_is_add(
                        #[trigger] ops@[rem.len() + k],
                        new_start_idx + add[k].0,
                        add[k].1,
                    ),
                forall|k: int|
                    0 <= k < moved_entries(old_ids, new_ids, i as int).len() ==> op_is_move(
                        #[trigger] ops@[rem.len() + add.len() + k],
                        moved_entries(old_ids, new_ids, i as int)[k].0,
                        moved_entries(old_ids, new_ids, i as int)[k].1,
                        moved_entries(old_ids, new_ids, i as int)[k].2,
                    ),
            decreases n_new - i,
        {
            proof {
                assert(new_ids[i as int] == new_visible@[i as int]@);
            }
            let pos = last_position_of(&self.current_visible, &new_visible[i]);
            match pos {
                Some(old_pos) => {
                    if old_pos != i {
                        let id = new_visible[i].clone();
                        ops.push(DomOperation::Move { video_id: id, from: old_pos, to: i });
                    }
                },
                None => {},
            }
            i = i + 1;
        }
        ops
    }

    /// Reconcile the grid against a new viewport: compute the visible window
    /// of the filtered collection, derive the minimal operations against the
    /// rendered one, and remember the new window.
    pub fn reconcile(
        &mut self,
        all_videos: &Vec<VideoItem>,
        filtered_indices: &Vec<usize>,
        viewport: &Viewport,
    ) -> (r: ReconciliationResult)
        requires
            viewport.items_per_row >= 1,
            viewport.item_height >= 1,
            forall|k: int|
                0 <= k < filtered_indices@.len() ==> filtered_indices@[k] < all_videos@.len(),
        ensures
            ({
                let total = filtered_indices@.len() as int;
                let rows = total_rows_of(total, viewport.items_per_row as int);
                let sr = start_row_of(
                    viewport.scroll_top as int,
                    viewport.item_height as int,
                    viewport.buffer_rows as int,
                );
                let er = end_row_of(
                    viewport.scroll_top as int,
                    viewport.viewport_height as int,
                    viewport.item_height as int,
                    viewport.buffer_rows as int,
                    rows,
                );
                let end = if er * viewport.items_per_row as int <= total {
                    er * viewport.items_per_row as int
                } else {
                    total
                };
                let start = if sr * viewport.items_per_row as int <= end {
                    sr * viewport.items_per_row as int
                } else {
                    end
                };
                let new_ids = window_ids(all_videos@, filtered_indices@, start, end);
                let old_ids = views_of(old(self).visible());
                let rem = removed_ids(old_ids, new_ids);
                let add = added_entries(old_ids, new_ids, new_ids.len() as int);
                let mov = moved_entries(old_ids, new_ids, new_ids.len() as int);
                &&& r.total_items == total
                &&& r.visible_start == start
                &&& r.visible_end == end
                &&& r.operations@.len() == rem.len() + add.len() + mov.len()
                &&& forall|k: int|
                    0 <= k < rem.len() ==> op_is_remove(#[trigger] r.operations@[k], rem[k])
                &&& forall|k: int|
                    0 <= k < add.len() ==> op_is_add(
                        #[trigger] r.operations@[rem.len() + k],
                        start + add[k].0,
                        add[k].1,
                    )
                &&& forall|k: int|
                    0 <= k < mov.len() ==> op_is_move(
                        #[trigger] r.operations@[rem.len() + add.len() + k],
                        mov[k].0,
                        mov[k].1,
                        mov[k].2,
                    )
                &&& views_of(final(self).visible()) == new_ids
                &&& final(self).range() == (start as usize, end as usize)
            }),
    {
        let total = filtered_indices.len();
        let (start_idx, end_idx) = viewport.calculate_visible_range(total);
        // gather the ids of the new window
        let mut new_visible: Vec<String> = Vec::new();
        let mut k: usize = start_idx;
        while k < end_idx
            invariant
                start_idx <= k <= end_idx,
                end_idx <= filtered_indices@.len(),
                forall|j: int|
                    0 <= j < filtered_indices@.len() ==> filtered_indices@[j] < all_videos@.len(),
                new_visible@.len() == k - start_idx,
                forall|j: int|
                    0 <= j < new_visible@.len() ==> #[trigger] new_visible@[j]@ == all_videos@[(
                    filtered_indices@[start_idx + j]) as int].id@,
            decreases end_idx - k,
        {
            let idx = filtered_indices[k];
            let id = all_videos[idx].id.clone();
            new_visible.push(id);
            k = k + 1;
        }
        proof {
            assert(views_of(new_visible@) =~= window_ids(
                all_videos@,
                filtered_indices@,
                start_idx as int,
                end_idx as int,
            ));
        }
        let operations = self.calculate_operations(&new_visible, start_idx);
        self.current_visible = new_visible;
        self.current_range = (start_idx, end_idx);
        ReconciliationResult {
            operations,
            total_items: total,
            visible_start: start_idx,
            visible_end: end_idx,
        }
    }
}

impl Default for DomReconciler {
    fn default() -> (r: Self)
        ensures
            r.visible().len() == 0,
            r.range() == (0usize, 0usize),
    {
        DomReconciler::new()
    }
}

/// Collects operations and hands them back in execution order: removals, then
/// moves, then updates, then additions.
pub struct OperationBatcher {
    adds: Vec<DomOperation>,
    removes: Vec<DomOperation>,
    moves: Vec<DomOperation>,
    updates: Vec<DomOperation>,
}

impl OperationBatcher {
    pub closed spec fn adds_view(&self) -> Seq<DomOperation> {
        self.adds@
    }

    pub closed spec fn removes_view(&self) -> Seq<DomOperation> {
        self.removes@
    }

    pub closed spec fn moves_view(&self) -> Seq<DomOperation> {
        self.moves@
    }

    pub closed spec fn updates_view(&self) -> Seq<DomOperation> {
        self.updates@
    }

    /// An empty batcher.
    pub fn new() -> (r: Self)
        ensures
            r.adds_view().len() == 0,
            r.removes_view().len() == 0,
            r.moves_view().len() == 0,
            r.updates_view().len() == 0,
    {
        OperationBatcher {
            adds: Vec::new(),
            removes: Vec::new(),
            moves: Vec::new(),
            updates: Vec::new(),
        }
    }

    /// File one operation under its kind.
    pub fn add_operation(&mut self, op: DomOperation)
        ensures
            final(self).adds_view() == if op is Add {
                old(self).adds_view().push(op)
            } else {
                old(self).adds_view()
            },
            final(self).removes_view() == if op is Remove {
                old(self).removes_view().push(op)
            } else {
                old(self).removes_view()
            },
            final(self).moves_view() == if op is Move {
                old(self).moves_view().push(op)
            } else {
                old(self).moves_view()
            },
            final(self).updates_view() == if op is Update {
                old(self).updates_view().push(op)
            } else {
                old(self).updates_view()
            },
    {
        match op {
            DomOperation::Add { .. } => self.adds.push(op),
            DomOperation::Remove { .. } => self.removes.push(op),
            DomOperation::Move { .. } => self.moves.push(op),
            DomOperation::Update { .. } => self.updates.push(op),
        }
    }

    /// All collected operations, in execution order.
    pub fn get_ordered_operations(self) -> (r: Vec<DomOperation>)
        ensures
            r@ == self.removes_view() + self.moves_view() + self.updates_view()
                + self.adds_view(),
    {
        let OperationBatcher { mut adds, mut removes, mut moves, mut updates } = self;
        let mut operations: Vec<DomOperation> = Vec::new();
        operations.append(&mut removes);
        operations.append(&mut moves);
        operations.append(&mut updates);
        operations.append(&mut adds);
        proof {
            assert(operations@ =~= self.removes_view() + self.moves_view() + self.updates_view()
                + self.adds_view());
        }
        operations
    }
}

impl Default for OperationBatcher {
    fn default() -> (r: Self)
        ensures
            r.adds_view().len() == 0,
            r.removes_view().len() == 0,
            r.moves_view().len() == 0,
            r.updates_view().len() == 0,
    {
        OperationBatcher::new()
    }
}

} // verus!
