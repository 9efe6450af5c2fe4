//! The paint area as a value: what it holds, what an action and a tick
//! make of it, and what is drawn of it.

use crate::paint::paint_area::Input;
use crate::paint::paint_area::MouseState;
use crate::paint::paint_area::Outcome;
use crate::paint::paint_area::PaintAction;
use crate::paint::paint_window::WindowAction;
use crate::support::id::resized;
use crate::support::id::shortfall;
use crate::support::id::POOL_SIZE;
use conrod::widget::Id;
use vstd::prelude::*;

verus! {

/// What the area holds: the pointer's state, the identifiers in reserve,
/// the identifier kept for the stroke in progress, the stored lines with
/// the identifier of each, and the points of the stroke in progress.
pub struct StateView<P> {
    pub mouse_state: MouseState,
    pub pool: Seq<Id>,
    pub active: Id,
    pub line_ids: Seq<Id>,
    pub lines: Seq<Seq<P>>,
    pub points: Seq<P>,
}

impl<P> StateView<P> {
    /// Every line has its identifier and at least two points, the pool
    /// holds no more than `POOL_SIZE` identifiers, and no identifier is held
    /// twice, in the pool, for a line or for the stroke in progress.
    pub open spec fn wf(self) -> bool {
        &&& self.line_ids.len() == self.lines.len()
        &&& self.pool.len() <= POOL_SIZE
        &&& forall|i: int| 0 <= i < self.lines.len() ==> (#[trigger] self.lines[i]).len() >= 2
        &&& self.pool.no_duplicates()
        &&& self.line_ids.no_duplicates()
        &&& !self.pool.contains(self.active)
        &&& !self.line_ids.contains(self.active)
        &&& forall|i: int, j: int|
            0 <= i < self.pool.len() && 0 <= j < self.line_ids.len() ==> self.pool[i]
                != self.line_ids[j]
    }

    /// Every identifier that the area holds is among `ids`.
    pub open spec fn ids_among(self, ids: Seq<Id>) -> bool {
        &&& ids.contains(self.active)
        &&& forall|i: int| 0 <= i < self.pool.len() ==> ids.contains(#[trigger] self.pool[i])
        &&& forall|i: int|
            0 <= i < self.line_ids.len() ==> ids.contains(#[trigger] self.line_ids[i])
    }

    /// The stroke in progress fits the pointer's state: there are points
    /// exactly while the button is held after a press.
    pub open spec fn coherent(self) -> bool {
        match self.mouse_state {
            MouseState::Idle => self.points.len() == 0,
            MouseState::Pressed => self.points.len() >= 1,
            MouseState::Cancelled => self.points.len() == 0,
        }
    }

    /// A release now stores the stroke as a line, if an identifier is at
    /// hand: the stroke was not given up and has two points or more.
    pub open spec fn line_due(self) -> bool {
        self.mouse_state == MouseState::Pressed && self.points.len() >= 2
    }
}

/// The action that the input of one tick gives rise to, if any. Escape
/// comes before the button. With the button down, a stroke starts or goes
/// on, unless one was given up since the button was last up. With the
/// button up, a stroke in progress or given up ends.
pub open spec fn next_action<P>(mouse_state: MouseState, input: Input<P>) -> Option<
    PaintAction<P>,
> {
    if input.cancel {
        Some(PaintAction::Cancel)
    } else if input.button_down {
        match mouse_state {
            MouseState::Idle => Some(PaintAction::Press(input.position)),
            MouseState::Pressed => Some(PaintAction::Drag(input.position)),
            MouseState::Cancelled => None,
        }
    } else {
        match mouse_state {
            MouseState::Idle => None,
            MouseState::Pressed => Some(PaintAction::Release),
            MouseState::Cancelled => Some(PaintAction::Release),
        }
    }
}

/// The area after `action`. A cancel empties the stroke. A press starts it
/// anew with one point. A drag adds a point. A release stores the stroke as
/// the last line, under the pool's last identifier, where a line is due and
/// the pool is not empty; it always empties the stroke.
pub open spec fn apply<P>(s: StateView<P>, action: PaintAction<P>) -> StateView<P> {
    match action {
        PaintAction::Cancel => StateView {
            mouse_state: MouseState::Cancelled,
            points: Seq::empty(),
            ..s
        },
        PaintAction::Press(point) => StateView {
            mouse_state: MouseState::Pressed,
            points: seq![point],
            ..s
        },
        PaintAction::Drag(point) => StateView { points: s.points.push(point), ..s },
        PaintAction::Release => if s.line_due() && s.pool.len() > 0 {
            StateView {
                mouse_state: MouseState::Idle,
                pool: s.pool.drop_last(),
                line_ids: s.line_ids.push(s.pool.last()),
                lines: s.lines.push(s.points),
                points: Seq::empty(),
                ..s
            }
        } else {
            StateView { mouse_state: MouseState::Idle, points: Seq::empty(), ..s }
        },
    }
}

/// What `action` reports when it is applied to the area.
pub open spec fn outcome_of<P>(s: StateView<P>, action: PaintAction<P>) -> Outcome {
    if action is Release && s.line_due() {
        if s.pool.len() > 0 {
            Outcome::LineAdded(s.points.len() as usize)
        } else {
            Outcome::NoIdsLeft
        }
    } else {
        Outcome::Quiet
    }
}

/// What the window is told of a tick: that the stroke was given up, or
/// nothing.
pub open spec fn signal_of<P>(action: Option<PaintAction<P>>) -> WindowAction {
    if action == Some(PaintAction::<P>::Cancel) {
        WindowAction::Cancel
    } else {
        WindowAction::Nothing
    }
}

/// The area as an action finds it in a tick: the pool was brought to
/// `POOL_SIZE` with `fresh`.
pub open spec fn prepared<P>(s: StateView<P>, fresh: Seq<Id>) -> StateView<P> {
    StateView { pool: resized(s.pool, POOL_SIZE as nat, fresh), ..s }
}

/// The area after one tick with this input, in which the pool took `fresh`
/// from the generator. Input that gives rise to no action leaves the area
/// as it is. Before an action is applied the pool is brought to `POOL_SIZE`.
pub open spec fn step<P>(s: StateView<P>, input: Input<P>, fresh: Seq<Id>) -> StateView<P> {
    match next_action(s.mouse_state, input) {
        None => s,
        Some(action) => apply(prepared(s, fresh), action),
    }
}

/// What a tick with this input reports, in which the pool took `fresh`.
pub open spec fn step_outcome<P>(s: StateView<P>, input: Input<P>, fresh: Seq<Id>) -> Outcome {
    match next_action(s.mouse_state, input) {
        None => Outcome::Quiet,
        Some(action) => outcome_of(prepared(s, fresh), action),
    }
}

/// How many identifiers the pool takes from the generator in one tick with
/// this input.
pub open spec fn demand<P>(s: StateView<P>, input: Input<P>) -> nat {
    if next_action(s.mouse_state, input).is_some() {
        shortfall(s.pool.len(), POOL_SIZE as nat)
    } else {
        0
    }
}

/// The stored lines, each with its identifier, in the order in which they
/// were stored.
pub open spec fn stored<P>(s: StateView<P>) -> Seq<(Id, Seq<P>)> {
    Seq::new(s.lines.len(), |i: int| (s.line_ids[i], s.lines[i]))
}

/// What is to be drawn: the stored lines and then, if it has a point, the
/// stroke in progress under the identifier kept for it.
pub open spec fn drawn<P>(s: StateView<P>) -> Seq<(Id, Seq<P>)> {
    if s.points.len() > 0 {
        stored(s).push((s.active, s.points))
    } else {
        stored(s)
    }
}

/// An action leaves the area well formed.
pub proof fn lemma_apply_wf<P>(s: StateView<P>, action: PaintAction<P>)
    requires
        s.wf(),
    ensures
        apply(s, action).wf(),
{
    let t = apply(s, action);
    if action is Release && s.line_due() && s.pool.len() > 0 {
        let id = s.pool.last();
        assert(s.pool[s.pool.len() - 1] == id);
        assert forall|i: int| 0 <= i < t.lines.len() implies (#[trigger] t.lines[i]).len()
            >= 2 by {
            if i < s.lines.len() {
                assert(t.lines[i] == s.lines[i]);
            }
        }
        assert forall|i: int, j: int|
            0 <= i < t.pool.len() && 0 <= j < t.line_ids.len() implies t.pool[i]
            != t.line_ids[j] by {
            assert(t.pool[i] == s.pool[i]);
            if j < s.line_ids.len() {
                assert(t.line_ids[j] == s.line_ids[j]);
            }
        }
        assert(!t.pool.contains(t.active)) by {
            if t.pool.contains(t.active) {
                let k = choose|k: int| 0 <= k < t.pool.len() && t.pool[k] == t.active;
                assert(s.pool[k] == t.active);
            }
        }
        assert(!t.line_ids.contains(t.active)) by {
            if t.line_ids.contains(t.active) {
                let k = choose|k: int| 0 <= k < t.line_ids.len() && t.line_ids[k] == t.active;
                if k < s.line_ids.len() {
                    assert(s.line_ids[k] == t.active);
                }
            }
        }
        assert forall|i: int, j: int|
            0 <= i < t.line_ids.len() && 0 <= j < t.line_ids.len() && i != j implies t.line_ids[i]
            != t.line_ids[j] by {
            if i < s.line_ids.len() {
                assert(t.line_ids[i] == s.line_ids[i]);
            }
            if j < s.line_ids.len() {
                assert(t.line_ids[j] == s.line_ids[j]);
            }
        }
        assert forall|i: int, j: int|
            0 <= i < t.pool.len() && 0 <= j < t.pool.len() && i != j implies t.pool[i]
            != t.pool[j] by {
            assert(t.pool[i] == s.pool[i]);
            assert(t.pool[j] == s.pool[j]);
        }
    }
}

/// An action brings no identifier into the area.
pub proof fn lemma_apply_ids_among<P>(s: StateView<P>, action: PaintAction<P>, ids: Seq<Id>)
    requires
        s.ids_among(ids),
    ensures
        apply(s, action).ids_among(ids),
{
    let t = apply(s, action);
    if action is Release && s.line_due() && s.pool.len() > 0 {
        assert forall|i: int| 0 <= i < t.pool.len() implies ids.contains(#[trigger] t.pool[i]) by {
            assert(t.pool[i] == s.pool[i]);
        }
        assert forall|i: int| 0 <= i < t.line_ids.len() implies ids.contains(
            #[trigger] t.line_ids[i],
        ) by {
            if i < s.line_ids.len() {
                assert(t.line_ids[i] == s.line_ids[i]);
            } else {
                assert(t.line_ids[i] == s.pool[s.pool.len() - 1]);
            }
        }
    }
}

/// A pool that is brought to `POOL_SIZE` with what it lacks, in identifiers
/// that are new to `ids` and differ from each other, leaves the area well
/// formed, and all that it holds is among `ids` and the new ones.
pub proof fn lemma_refill_wf<P>(s: StateView<P>, ids: Seq<Id>, fresh: Seq<Id>)
    requires
        s.wf(),
        s.ids_among(ids),
        fresh.len() == shortfall(s.pool.len(), POOL_SIZE as nat),
        fresh.no_duplicates(),
        forall|i: int| 0 <= i < fresh.len() ==> !ids.contains(#[trigger] fresh[i]),
    ensures
        prepared(s, fresh).wf(),
        prepared(s, fresh).ids_among(ids + fresh),
        prepared(s, fresh).pool.len() == POOL_SIZE,
{
    let t = prepared(s, fresh);
    let all = ids + fresh;
    assert forall|x: Id| ids.contains(x) implies all.contains(x) by {
        let k = choose|k: int| 0 <= k < ids.len() && ids[k] == x;
        assert(all[k] == x);
    }
    assert forall|i: int| 0 <= i < t.pool.len() implies all.contains(#[trigger] t.pool[i]) by {
        if i < s.pool.len() {
            assert(t.pool[i] == s.pool[i]);
        } else {
            assert(t.pool[i] == fresh[i - s.pool.len()]);
            assert(all[ids.len() + i - s.pool.len()] == t.pool[i]);
        }
    }
    assert forall|i: int| 0 <= i < t.line_ids.len() implies all.contains(
        #[trigger] t.line_ids[i],
    ) by {
        assert(ids.contains(s.line_ids[i]));
    }
    assert forall|i: int, j: int|
        0 <= i < t.pool.len() && 0 <= j < t.pool.len() && i != j implies t.pool[i]
        != t.pool[j] by {
        if i < s.pool.len() {
            assert(t.pool[i] == s.pool[i]);
        } else {
            assert(t.pool[i] == fresh[i - s.pool.len()]);
        }
        if j < s.pool.len() {
            assert(t.pool[j] == s.pool[j]);
        } else {
            assert(t.pool[j] == fresh[j - s.pool.len()]);
        }
    }
    assert(!t.pool.contains(t.active)) by {
        if t.pool.contains(t.active) {
            let k = choose|k: int| 0 <= k < t.pool.len() && t.pool[k] == t.active;
            if k < s.pool.len() {
                assert(s.pool[k] == t.active);
            } else {
                assert(fresh[k - s.pool.len()] == t.active);
            }
        }
    }
    assert forall|i: int, j: int|
        0 <= i < t.pool.len() && 0 <= j < t.line_ids.len() implies t.pool[i]
        != t.line_ids[j] by {
        assert(ids.contains(s.line_ids[j]));
        if i < s.pool.len() {
            assert(t.pool[i] == s.pool[i]);
        } else {
            assert(t.pool[i] == fresh[i - s.pool.len()]);
        }
    }
}

} // verus!
