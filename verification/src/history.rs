//! Undo and redo: two bounded stacks of whole-level snapshots.
//!
//! A snapshot is a deep copy of all layers and of the current-layer index.
//! Recording pushes a snapshot on the undo stack and discards the redo
//! branch; undo and redo move one snapshot from one stack to the caller and
//! put the caller's present state on the other stack. A stack that is full
//! loses its oldest entry when another is pushed.

use crate::layer::{Layer, LayerView};
use crate::level::{layer_views, layers_wf};
use std::collections::VecDeque;
use vstd::prelude::*;

verus! {

/// The mathematical content of a snapshot.
pub struct SnapshotView {
    pub layers: Seq<LayerView>,
    pub current_layer: usize,
}

impl SnapshotView {
    /// The layers could be those of a level.
    pub open spec fn wf(self) -> bool {
        &&& self.layers.len() >= 1
        &&& layers_wf(self.layers)
    }
}

/// A deep copy of the layers of a level and of the current-layer index.
#[derive(Debug)]
pub struct HistoryState {
    layers: Vec<Layer>,
    current_layer: usize,
}

impl View for HistoryState {
    type V = SnapshotView;

    closed spec fn view(&self) -> SnapshotView {
        SnapshotView { layers: layer_views(self.layers@), current_layer: self.current_layer }
    }
}

impl HistoryState {
    pub open spec fn wf(&self) -> bool {
        self@.wf()
    }

    pub fn new(layers: Vec<Layer>, current_layer: usize) -> (state: HistoryState)
        ensures
            state@ == (SnapshotView { layers: layer_views(layers@), current_layer }),
    {
        HistoryState { layers, current_layer }
    }

    pub fn current_layer(&self) -> (index: usize)
        ensures
            index == self@.current_layer,
    {
        self.current_layer
    }

    pub fn layers(&self) -> (layers: &Vec<Layer>)
        ensures
            layer_views(layers@) == self@.layers,
    {
        &self.layers
    }

    /// Takes the snapshot apart.
    pub fn into_parts(self) -> (parts: (Vec<Layer>, usize))
        ensures
            layer_views(parts.0@) == self@.layers,
            parts.1 == self@.current_layer,
    {
        (self.layers, self.current_layer)
    }
}

/// The views of a stack of snapshots, oldest first.
pub open spec fn snapshot_views(stack: Seq<HistoryState>) -> Seq<SnapshotView> {
    stack.map_values(|state: HistoryState| state@)
}

/// Every snapshot of the stack could be restored into a level.
pub open spec fn snapshots_wf(stack: Seq<SnapshotView>) -> bool {
    forall|i: int| 0 <= i < stack.len() ==> (#[trigger] stack[i]).wf()
}

/// The stack after a push that keeps it within `capacity`: a stack that is
/// full loses its oldest entry first.
pub open spec fn push_bounded(
    stack: Seq<SnapshotView>,
    capacity: nat,
    snapshot: SnapshotView,
) -> Seq<SnapshotView> {
    if stack.len() >= capacity && stack.len() > 0 {
        stack.drop_first().push(snapshot)
    } else {
        stack.push(snapshot)
    }
}

/// The most entries that a stack of the given capacity ever holds. A push
/// always leaves its entry on the stack, so capacity 0 holds one.
pub open spec fn stack_bound(capacity: nat) -> nat {
    if capacity == 0 {
        1
    } else {
        capacity
    }
}

/// The mathematical content of the history: both stacks, oldest entry first,
/// and their common capacity.
pub struct HistoryView {
    pub undo: Seq<SnapshotView>,
    pub redo: Seq<SnapshotView>,
    pub capacity: nat,
}

impl HistoryView {
    pub open spec fn new(capacity: nat) -> HistoryView {
        HistoryView { undo: Seq::empty(), redo: Seq::empty(), capacity }
    }

    /// Both stacks are within their bound and hold restorable snapshots.
    pub open spec fn wf(self) -> bool {
        &&& self.undo.len() <= stack_bound(self.capacity)
        &&& self.redo.len() <= stack_bound(self.capacity)
        &&& snapshots_wf(self.undo)
        &&& snapshots_wf(self.redo)
    }

    /// Recording pushes on the undo stack and empties the redo stack.
    pub open spec fn record(self, snapshot: SnapshotView) -> HistoryView {
        HistoryView {
            undo: push_bounded(self.undo, self.capacity, snapshot),
            redo: Seq::empty(),
            ..self
        }
    }

    /// Pushing on the redo stack leaves the undo stack alone.
    pub open spec fn push_redo(self, snapshot: SnapshotView) -> HistoryView {
        HistoryView { redo: push_bounded(self.redo, self.capacity, snapshot), ..self }
    }

    pub open spec fn can_undo(self) -> bool {
        self.undo.len() > 0
    }

    pub open spec fn can_redo(self) -> bool {
        self.redo.len() > 0
    }

    /// What an undo hands back: the newest undo entry, if there is one.
    pub open spec fn undo_result(self) -> Option<SnapshotView> {
        if self.can_undo() {
            Some(self.undo.last())
        } else {
            None
        }
    }

    /// The history after an undo made in the state `current`.
    pub open spec fn undo(self, current: SnapshotView) -> HistoryView {
        if self.can_undo() {
            HistoryView {
                undo: self.undo.drop_last(),
                redo: push_bounded(self.redo, self.capacity, current),
                ..self
            }
        } else {
            self
        }
    }

    /// What a redo hands back: the newest redo entry, if there is one.
    pub open spec fn redo_result(self) -> Option<SnapshotView> {
        if self.can_redo() {
            Some(self.redo.last())
        } else {
            None
        }
    }

    /// The history after a redo made in the state `current`. The undo stack
    /// grows by `current`; the rest of the redo stack stays.
    pub open spec fn redo(self, current: SnapshotView) -> HistoryView {
        if self.can_redo() {
            HistoryView {
                undo: push_bounded(self.undo, self.capacity, current),
                redo: self.redo.drop_last(),
                ..self
            }
        } else {
            self
        }
    }

    /// The history after recording the given snapshots, first to last.
    pub open spec fn record_all(self, snapshots: Seq<SnapshotView>) -> HistoryView
        decreases snapshots.len(),
    {
        if snapshots.len() == 0 {
            self
        } else {
            self.record_all(snapshots.drop_last()).record(snapshots.last())
        }
    }

    /// The history after one undo in each of the given states, first to last.
    pub open spec fn undo_all(self, currents: Seq<SnapshotView>) -> HistoryView
        decreases currents.len(),
    {
        if currents.len() == 0 {
            self
        } else {
            self.undo_all(currents.drop_last()).undo(currents.last())
        }
    }
}

/// Undo and redo stacks of snapshots with a common capacity.
#[derive(Debug)]
pub struct History {
    undo_stack: VecDeque<HistoryState>,
    redo_stack: VecDeque<HistoryState>,
    max_size: usize,
}

impl View for History {
    type V = HistoryView;

    closed spec fn view(&self) -> HistoryView {
        HistoryView {
            undo: snapshot_views(self.undo_stack@),
            redo: snapshot_views(self.redo_stack@),
            capacity: self.max_size as nat,
        }
    }
}

/// Pushes on a stack, dropping the oldest entry first where the stack is full.
fn push_within(stack: &mut VecDeque<HistoryState>, max_size: usize, state: HistoryState)
    requires
        old(stack)@.len() <= stack_bound(max_size as nat),
    ensures
        snapshot_views(final(stack)@) == push_bounded(
            snapshot_views(old(stack)@),
            max_size as nat,
            state@,
        ),
        final(stack)@.len() <= stack_bound(max_size as nat),
{
    if stack.len() >= max_size {
        stack.pop_front();
    }
    stack.push_back(state);
    proof {
        assert(snapshot_views(stack@) =~= push_bounded(
            snapshot_views(old(stack)@),
            max_size as nat,
            state@,
        ));
    }
}

impl History {
    pub open spec fn wf(&self) -> bool {
        self@.wf()
    }

    /// An empty history whose stacks hold up to `max_size` snapshots each.
    pub fn new(max_size: usize) -> (history: History)
        ensures
            history@ == HistoryView::new(max_size as nat),
            history.wf(),
    {
        let history = History {
            undo_stack: VecDeque::new(),
            redo_stack: VecDeque::new(),
            max_size,
        };
        proof {
            assert(history@.undo =~= Seq::empty());
            assert(history@.redo =~= Seq::empty());
        }
        history
    }

    pub fn max_size(&self) -> (max_size: usize)
        ensures
            max_size == self@.capacity,
    {
        self.max_size
    }

    /// Records a snapshot taken before a change: it becomes the newest undo
    /// entry, and the redo branch is discarded.
    pub fn push(&mut self, state: HistoryState)
        requires
            old(self).wf(),
            state.wf(),
        ensures
            final(self)@ == old(self)@.record(state@),
            final(self).wf(),
    {
        push_within(&mut self.undo_stack, self.max_size, state);
        self.redo_stack.clear();
        proof {
            assert(self@.redo =~= Seq::empty());
        }
    }

    /// Pushes a snapshot on the redo stack.
    pub fn push_redo(&mut self, state: HistoryState)
        requires
            old(self).wf(),
            state.wf(),
        ensures
            final(self)@ == old(self)@.push_redo(state@),
            final(self).wf(),
    {
        push_within(&mut self.redo_stack, self.max_size, state);
    }

    /// Takes the newest undo entry and puts `current`, the caller's state
    /// before it applies that entry, on the redo stack. With an empty undo
    /// stack nothing changes and `None` is returned.
    pub fn undo(&mut self, current: HistoryState) -> (previous: Option<HistoryState>)
        requires
            old(self).wf(),
            current.wf(),
        ensures
            final(self)@ == old(self)@.undo(current@),
            previous.is_some() == old(self)@.can_undo(),
            previous matches Some(state) ==> Some(state@) == old(self)@.undo_result()
                && state.wf(),
            final(self).wf(),
    {
        match self.undo_stack.pop_back() {
            Some(state) => {
                push_within(&mut self.redo_stack, self.max_size, current);
                proof {
                    assert(self@.undo =~= old(self)@.undo.drop_last());
                    assert(state@ == old(self)@.undo.last());
                }
                Some(state)
            },
            None => None,
        }
    }

    /// Takes the newest redo entry and puts `current`, the caller's state
    /// before it applies that entry, on the undo stack. With an empty redo
    /// stack nothing changes and `None` is returned.
    pub fn redo(&mut self, current: HistoryState) -> (next: Option<HistoryState>)
        requires
            old(self).wf(),
            current.wf(),
        ensures
            final(self)@ == old(self)@.redo(current@),
            next.is_some() == old(self)@.can_redo(),
            next matches Some(state) ==> Some(state@) == old(self)@.redo_result() && state.wf(),
            final(self).wf(),
    {
        match self.redo_stack.pop_back() {
            Some(state) => {
                push_within(&mut self.undo_stack, self.max_size, current);
                proof {
                    assert(self@.redo =~= old(self)@.redo.drop_last());
                    assert(state@ == old(self)@.redo.last());
                }
                Some(state)
            },
            None => None,
        }
    }

    pub fn can_undo(&self) -> (possible: bool)
        ensures
            possible == self@.can_undo(),
    {
        self.undo_stack.len() > 0
    }

    pub fn can_redo(&self) -> (possible: bool)
        ensures
            possible == self@.can_redo(),
    {
        self.redo_stack.len() > 0
    }

    /// The number of snapshots on the undo stack.
    pub fn undo_len(&self) -> (n: usize)
        ensures
            n == self@.undo.len(),
    {
        self.undo_stack.len()
    }

    /// The number of snapshots on the redo stack.
    pub fn redo_len(&self) -> (n: usize)
        ensures
            n == self@.redo.len(),
    {
        self.redo_stack.len()
    }
}

/// Recording keeps the newest entries: after `snapshots` are recorded, the
/// undo stack ends with the newest `min(n, bound)` of them, in order, and
/// holds nothing else where `n` reaches the capacity.
pub proof fn lemma_record_all(history: HistoryView, snapshots: Seq<SnapshotView>)
    requires
        history.undo.len() <= stack_bound(history.capacity),
    ensures
        ({
            let after = history.record_all(snapshots);
            let n = snapshots.len() as int;
            &&& after.capacity == history.capacity
            &&& after.undo.len() <= stack_bound(history.capacity)
            &&& n > 0 ==> after.redo.len() == 0
            &&& n <= stack_bound(history.capacity) ==> {
                &&& after.undo.len() >= n
                &&& after.undo.subrange(after.undo.len() - n, after.undo.len() as int)
                    == snapshots
                &&& after.undo.len() - n <= history.undo.len()
                &&& after.undo.subrange(0, after.undo.len() - n) == history.undo.subrange(
                    history.undo.len() - (after.undo.len() - n),
                    history.undo.len() as int,
                )
            }
        }),
    decreases snapshots.len(),
{
    if snapshots.len() > 0 {
        let earlier = snapshots.drop_last();
        lemma_record_all(history, earlier);
        let before = history.record_all(earlier);
        let after = history.record_all(snapshots);
        let n = snapshots.len() as int;
        assert(after == before.record(snapshots.last()));
        if n <= stack_bound(history.capacity) {
            let kept = after.undo.len() - n;
            assert(after.undo.subrange(kept, after.undo.len() as int) =~= snapshots) by {
                assert forall|i: int| 0 <= i < n implies after.undo[kept + i] == snapshots[i] by {
                    if i < n - 1 {
                        let tail = before.undo.subrange(
                            before.undo.len() - (n - 1),
                            before.undo.len() as int,
                        );
                        assert(tail[i] == earlier[i]);
                    }
                }
            }
            assert(after.undo.subrange(0, kept) =~= history.undo.subrange(
                history.undo.len() - kept,
                history.undo.len() as int,
            )) by {
                let kept_before = before.undo.len() - (n - 1);
                let head = before.undo.subrange(0, kept_before);
                assert forall|i: int| 0 <= i < kept implies after.undo[i] == history.undo[history.undo.len()
                    - kept + i] by {
                    if before.undo.len() >= history.capacity && before.undo.len() > 0 {
                        assert(after.undo[i] == before.undo[i + 1]);
                        assert(head[i + 1] == before.undo[i + 1]);
                    } else {
                        assert(after.undo[i] == before.undo[i]);
                        assert(head[i] == before.undo[i]);
                    }
                }
            }
        }
    } else {
        assert(history.undo.subrange(history.undo.len() as int, history.undo.len() as int)
            =~= snapshots);
        assert(history.undo.subrange(0, history.undo.len() as int) =~= history.undo);
    }
}

/// Undo takes the newest entries first: `k` undos, none of them on an empty
/// stack, leave the undo stack without its newest `k` entries.
pub proof fn lemma_undo_all(history: HistoryView, currents: Seq<SnapshotView>)
    requires
        currents.len() <= history.undo.len(),
    ensures
        history.undo_all(currents).undo == history.undo.take(
            history.undo.len() - currents.len(),
        ),
        history.undo_all(currents).capacity == history.capacity,
    decreases currents.len(),
{
    if currents.len() > 0 {
        lemma_undo_all(history, currents.drop_last());
        let before = history.undo_all(currents.drop_last());
        assert(before.undo.len() > 0);
        assert(before.undo.drop_last() =~= history.undo.take(
            history.undo.len() - currents.len(),
        ));
    } else {
        assert(history.undo.take(history.undo.len() as int) =~= history.undo);
    }
}

/// After `record(S1)`, ..., `record(Sn)` with `n` within the capacity, the
/// undo that follows `k < n` earlier undos hands back `S(n-k)`: the
/// snapshots come back newest first. This holds whatever the history held
/// before and whatever states the undos are made in.
pub proof fn lemma_undo_returns_records_in_reverse(
    history: HistoryView,
    snapshots: Seq<SnapshotView>,
    currents: Seq<SnapshotView>,
)
    requires
        history.undo.len() <= stack_bound(history.capacity),
        snapshots.len() <= history.capacity,
        currents.len() < snapshots.len(),
    ensures
        history.record_all(snapshots).undo_all(currents).undo_result() == Some(
            snapshots[snapshots.len() - 1 - currents.len()],
        ),
{
    lemma_record_all(history, snapshots);
    let recorded = history.record_all(snapshots);
    lemma_undo_all(recorded, currents);
    let n = snapshots.len() as int;
    let k = currents.len() as int;
    let tail = recorded.undo.subrange(recorded.undo.len() - n, recorded.undo.len() as int);
    assert(tail[n - 1 - k] == snapshots[n - 1 - k]);
}

/// After `record(S1)`, ..., `record(Sn)` on an empty undo stack, with `n`
/// within the capacity, the undo that follows `n` undos reports an empty
/// history.
pub proof fn lemma_undo_after_all_records_is_empty(
    history: HistoryView,
    snapshots: Seq<SnapshotView>,
    currents: Seq<SnapshotView>,
)
    requires
        history.undo.len() == 0,
        snapshots.len() <= history.capacity,
        currents.len() == snapshots.len(),
    ensures
        history.record_all(snapshots).undo_all(currents).undo_result().is_none(),
        !history.record_all(snapshots).undo_all(currents).can_undo(),
{
    lemma_record_all(history, snapshots);
    lemma_undo_all(history.record_all(snapshots), currents);
}

/// A record after an undo discards the redo branch: the redo that follows
/// reports an empty history and changes nothing.
pub proof fn lemma_record_after_undo_empties_redo(
    history: HistoryView,
    current: SnapshotView,
    snapshot: SnapshotView,
    later: SnapshotView,
)
    ensures
        !history.undo(current).record(snapshot).can_redo(),
        history.undo(current).record(snapshot).redo_result().is_none(),
        history.undo(current).record(snapshot).redo(later) == history.undo(current).record(
            snapshot,
        ),
{
}

/// With more records than the capacity, only the newest `capacity` remain:
/// the undo stack is exactly the last `capacity` snapshots recorded.
pub proof fn lemma_record_evicts_oldest(history: HistoryView, snapshots: Seq<SnapshotView>)
    requires
        history.undo.len() <= stack_bound(history.capacity),
        history.capacity >= 1,
        snapshots.len() >= history.capacity,
    ensures
        history.record_all(snapshots).undo == snapshots.subrange(
            snapshots.len() - history.capacity,
            snapshots.len() as int,
        ),
    decreases snapshots.len(),
{
    let cap = history.capacity as int;
    let n = snapshots.len() as int;
    let after = history.record_all(snapshots);
    let earlier = snapshots.drop_last();
    let before = history.record_all(earlier);
    assert(after == before.record(snapshots.last()));
    lemma_record_all(history, earlier);
    if n == cap {
        lemma_record_all(history, snapshots);
        assert(after.undo.len() == n);
        assert(after.undo.subrange(0, n) =~= after.undo);
        assert(snapshots.subrange(0, n) =~= snapshots);
    } else {
        lemma_record_evicts_oldest(history, earlier);
        assert(before.undo.len() == cap);
        assert(after.undo =~= snapshots.subrange(n - cap, n));
    }
}

} // verus!
