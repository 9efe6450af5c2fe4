//! What whole gestures do to the paint area.
//!
//! The statements here follow from the definitions of the area's actions
//! and ticks. They speak of the area through its view, so each holds of
//! every state that `handle_action` and `update` can be called on.

use crate::paint::model::apply;
use crate::paint::model::demand;
use crate::paint::model::drawn;
use crate::paint::model::lemma_apply_wf;
use crate::paint::model::next_action;
use crate::paint::model::outcome_of;
use crate::paint::model::step;
use crate::paint::model::step_outcome;
use crate::paint::model::stored;
use crate::paint::model::StateView;
use crate::paint::paint_area::Input;
use crate::paint::paint_area::MouseState;
use crate::paint::paint_area::Outcome;
use crate::paint::paint_area::PaintAction;
use crate::support::id::resized;
use crate::support::id::shortfall;
use crate::support::id::POOL_SIZE;
use conrod::widget::Id;
use vstd::prelude::*;

verus! {

/// The input of a tick with the button down at `position` and no escape.
pub open spec fn button_down<P>(position: P) -> Input<P> {
    Input { cancel: false, button_down: true, position }
}

/// The input of a tick with the button up at `position` and no escape.
pub open spec fn button_up<P>(position: P) -> Input<P> {
    Input { cancel: false, button_down: false, position }
}

/// A press, two drags and a release store one line of the three points, in
/// their order and after the lines that were there, under the identifier
/// that was last in the pool, which no line had. The stroke is then empty.
pub proof fn lemma_stroke_is_stored<P>(s: StateView<P>, p0: P, p1: P, p2: P)
    requires
        s.wf(),
        s.pool.len() > 0,
    ensures
        ({
            let pressed = apply(s, PaintAction::Press(p0));
            let dragged = apply(apply(pressed, PaintAction::Drag(p1)), PaintAction::Drag(p2));
            let released = apply(dragged, PaintAction::Release);
            &&& dragged.points == seq![p0, p1, p2]
            &&& outcome_of(dragged, PaintAction::Release) == Outcome::LineAdded(3)
            &&& released.lines == s.lines.push(seq![p0, p1, p2])
            &&& released.line_ids == s.line_ids.push(s.pool.last())
            &&& !s.line_ids.contains(s.pool.last())
            &&& released.pool == s.pool.drop_last()
            &&& released.active == s.active
            &&& released.points.len() == 0
            &&& released.mouse_state == MouseState::Idle
            &&& released.wf()
        }),
{
    let pressed = apply(s, PaintAction::Press(p0));
    let dragged = apply(apply(pressed, PaintAction::Drag(p1)), PaintAction::Drag(p2));
    assert(dragged.points =~= seq![p0, p1, p2]);
    lemma_apply_wf(dragged, PaintAction::Release);
    if s.line_ids.contains(s.pool.last()) {
        let k = choose|k: int| 0 <= k < s.line_ids.len() && s.line_ids[k] == s.pool.last();
        assert(s.pool[s.pool.len() - 1] != s.line_ids[k]);
    }
}

/// The area after a drag to each of `points`, in their order.
pub open spec fn dragged_through<P>(s: StateView<P>, points: Seq<P>) -> StateView<P>
    decreases points.len(),
{
    if points.len() == 0 {
        s
    } else {
        apply(dragged_through(s, points.drop_last()), PaintAction::Drag(points.last()))
    }
}

/// Drags add their points to the stroke, in their order, and change
/// nothing else.
pub proof fn lemma_drags_extend_stroke<P>(s: StateView<P>, points: Seq<P>)
    ensures
        dragged_through(s, points) == (StateView { points: s.points + points, ..s }),
    decreases points.len(),
{
    if points.len() == 0 {
        assert(s.points + points =~= s.points);
    } else {
        lemma_drags_extend_stroke(s, points.drop_last());
        assert(s.points + points =~= (s.points + points.drop_last()).push(points.last()));
    }
}

/// A stroke of any length is stored whole: a press, drags through one
/// point or more and a release store the line of all these points, in
/// their order, under the identifier that was last in the pool.
pub proof fn lemma_long_stroke_is_stored<P>(s: StateView<P>, first: P, rest: Seq<P>)
    requires
        s.wf(),
        s.pool.len() > 0,
        rest.len() >= 1,
        rest.len() < usize::MAX,
    ensures
        ({
            let dragged = dragged_through(apply(s, PaintAction::Press(first)), rest);
            let released = apply(dragged, PaintAction::Release);
            &&& dragged.points == seq![first] + rest
            &&& outcome_of(dragged, PaintAction::Release) == Outcome::LineAdded(
                (rest.len() + 1) as usize,
            )
            &&& released.lines == s.lines.push(seq![first] + rest)
            &&& released.line_ids == s.line_ids.push(s.pool.last())
            &&& released.pool == s.pool.drop_last()
            &&& released.active == s.active
            &&& released.points.len() == 0
            &&& released.mouse_state == MouseState::Idle
            &&& released.wf()
        }),
{
    let pressed = apply(s, PaintAction::Press(first));
    let dragged = dragged_through(pressed, rest);
    lemma_drags_extend_stroke(pressed, rest);
    lemma_apply_wf(dragged, PaintAction::Release);
}

/// The same gesture as four ticks of an idle area: whatever the pool held,
/// the press finds it refilled with `fresh`, the later ticks find it full
/// and take nothing, and the release stores the line.
pub proof fn lemma_gesture_draws_line<P>(
    s: StateView<P>,
    p0: P,
    p1: P,
    p2: P,
    p3: P,
    fresh: Seq<Id>,
    later: Seq<Id>,
)
    requires
        s.mouse_state == MouseState::Idle,
        fresh.len() == shortfall(s.pool.len(), POOL_SIZE as nat),
    ensures
        ({
            let pressed = step(s, button_down(p0), fresh);
            let held = step(step(pressed, button_down(p1), later), button_down(p2), later);
            let released = step(held, button_up(p3), later);
            let refilled = resized(s.pool, POOL_SIZE as nat, fresh);
            &&& refilled.len() == POOL_SIZE
            &&& demand(pressed, button_down(p1)) == 0
            &&& demand(held, button_up(p3)) == 0
            &&& held.points == seq![p0, p1, p2]
            &&& step_outcome(held, button_up(p3), later) == Outcome::LineAdded(3)
            &&& released.lines == s.lines.push(seq![p0, p1, p2])
            &&& released.line_ids == s.line_ids.push(refilled.last())
            &&& released.pool == refilled.drop_last()
            &&& released.active == s.active
            &&& released.points.len() == 0
            &&& released.mouse_state == MouseState::Idle
        }),
{
    let pressed = step(s, button_down(p0), fresh);
    let held = step(step(pressed, button_down(p1), later), button_down(p2), later);
    let refilled = resized(s.pool, POOL_SIZE as nat, fresh);
    assert(refilled.take(POOL_SIZE as int) == refilled);
    assert(pressed.pool == refilled);
    assert(held.pool == refilled);
    assert(held.points =~= seq![p0, p1, p2]);
}

/// A press and a release with no drag between them store nothing: lines,
/// their identifiers and the pool stay as they were, and the stroke is
/// empty.
pub proof fn lemma_click_stores_nothing<P>(s: StateView<P>, p0: P)
    ensures
        ({
            let pressed = apply(s, PaintAction::Press(p0));
            let released = apply(pressed, PaintAction::Release);
            &&& outcome_of(pressed, PaintAction::Release) == Outcome::Quiet
            &&& released.lines == s.lines
            &&& released.line_ids == s.line_ids
            &&& released.pool == s.pool
            &&& released.active == s.active
            &&& released.points.len() == 0
            &&& released.mouse_state == MouseState::Idle
        }),
{
}

/// A cancel empties the stroke, however long it is, and the release that
/// follows stores nothing and leaves the area idle.
pub proof fn lemma_cancel_discards<P>(s: StateView<P>)
    ensures
        ({
            let cancelled = apply(s, PaintAction::Cancel);
            let released = apply(cancelled, PaintAction::Release);
            &&& cancelled.points.len() == 0
            &&& cancelled.mouse_state == MouseState::Cancelled
            &&& cancelled.lines == s.lines
            &&& cancelled.line_ids == s.line_ids
            &&& cancelled.pool == s.pool
            &&& outcome_of(cancelled, PaintAction::Release) == Outcome::Quiet
            &&& released.lines == s.lines
            &&& released.line_ids == s.line_ids
            &&& released.pool == s.pool
            &&& released.active == s.active
            &&& released.points.len() == 0
            &&& released.mouse_state == MouseState::Idle
        }),
{
}

/// After a cancel, ticks with the button still down give rise to no action
/// and leave the area as it is; the first tick with the button up is a
/// release, which leaves the area idle with its lines as they were.
pub proof fn lemma_cancel_holds_until_release<P>(s: StateView<P>, input: Input<P>, fresh: Seq<Id>)
    requires
        s.mouse_state == MouseState::Cancelled,
        !input.cancel,
    ensures
        input.button_down ==> next_action(s.mouse_state, input).is_none() && step(s, input, fresh)
            == s,
        !input.button_down ==> next_action(s.mouse_state, input) == Some(
            PaintAction::<P>::Release,
        ) && step(s, input, fresh).mouse_state == MouseState::Idle && step(s, input, fresh).lines
            == s.lines && step(s, input, fresh).line_ids == s.line_ids,
{
}

/// A release that is due a line and finds the pool empty drops the stroke:
/// it reports `NoIdsLeft`, the lines stay as they were, and the area is
/// idle with an empty stroke, ready for the next one.
pub proof fn lemma_empty_pool_drops_stroke<P>(s: StateView<P>)
    requires
        s.line_due(),
        s.pool.len() == 0,
    ensures
        ({
            let released = apply(s, PaintAction::Release);
            &&& outcome_of(s, PaintAction::Release) == Outcome::NoIdsLeft
            &&& released.lines == s.lines
            &&& released.line_ids == s.line_ids
            &&& released.pool == s.pool
            &&& released.active == s.active
            &&& released.points.len() == 0
            &&& released.mouse_state == MouseState::Idle
        }),
{
}

/// After a stroke was dropped for want of an identifier, the next gesture
/// is stored as any other: its press refills the pool, which was empty,
/// with `POOL_SIZE` new identifiers.
pub proof fn lemma_next_stroke_is_stored<P>(
    s: StateView<P>,
    p0: P,
    p1: P,
    p2: P,
    p3: P,
    fresh: Seq<Id>,
    later: Seq<Id>,
)
    requires
        s.line_due(),
        s.pool.len() == 0,
        fresh.len() == POOL_SIZE,
    ensures
        ({
            let dropped = apply(s, PaintAction::Release);
            let pressed = step(dropped, button_down(p0), fresh);
            let held = step(step(pressed, button_down(p1), later), button_down(p2), later);
            let released = step(held, button_up(p3), later);
            &&& demand(dropped, button_down(p0)) == POOL_SIZE
            &&& step_outcome(held, button_up(p3), later) == Outcome::LineAdded(3)
            &&& released.lines == s.lines.push(seq![p0, p1, p2])
            &&& released.line_ids == s.line_ids.push(fresh.last())
            &&& released.pool == fresh.drop_last()
            &&& released.points.len() == 0
            &&& released.mouse_state == MouseState::Idle
        }),
{
    let dropped = apply(s, PaintAction::Release);
    lemma_gesture_draws_line(dropped, p0, p1, p2, p3, fresh, later);
    assert(resized(dropped.pool, POOL_SIZE as nat, fresh) == fresh);
}

/// A tick never reports `NoIdsLeft`: the pool is brought to `POOL_SIZE`
/// before the action is applied, so a line that is due is stored.
pub proof fn lemma_tick_finds_id<P>(s: StateView<P>, input: Input<P>, fresh: Seq<Id>)
    requires
        fresh.len() == shortfall(s.pool.len(), POOL_SIZE as nat),
    ensures
        !(step_outcome(s, input, fresh) is NoIdsLeft),
        step_outcome(s, input, fresh) is LineAdded ==> step(s, input, fresh).lines.len()
            == s.lines.len() + 1,
        !(step_outcome(s, input, fresh) is LineAdded) ==> step(s, input, fresh).lines == s.lines,
{
}

/// An action moves an identifier from the pool to a line or leaves both as
/// they are: none is lost, and the one kept for the stroke stays.
pub proof fn lemma_apply_keeps_ids<P>(s: StateView<P>, action: PaintAction<P>)
    ensures
        apply(s, action).pool.len() + apply(s, action).line_ids.len() == s.pool.len()
            + s.line_ids.len(),
        apply(s, action).active == s.active,
{
}

/// A tick loses no identifier either: the pool of a well-formed area is
/// never cut when it is brought to `POOL_SIZE`, so the identifiers held, in
/// the pool and for lines, grow by those that were taken.
pub proof fn lemma_step_keeps_ids<P>(s: StateView<P>, input: Input<P>, fresh: Seq<Id>)
    requires
        s.pool.len() <= POOL_SIZE,
        fresh.len() == demand(s, input),
    ensures
        step(s, input, fresh).pool.len() + step(s, input, fresh).line_ids.len() == s.pool.len()
            + s.line_ids.len() + fresh.len(),
        step(s, input, fresh).pool.len() <= POOL_SIZE,
        step(s, input, fresh).active == s.active,
{
}

/// Ticks keep the stroke fitting the pointer's state.
pub proof fn lemma_step_coherent<P>(s: StateView<P>, input: Input<P>, fresh: Seq<Id>)
    requires
        s.coherent(),
    ensures
        step(s, input, fresh).coherent(),
{
}

/// The stored lines come first in what is drawn, each with its identifier
/// and in the order of the store; the stroke in progress, if it has a
/// point, comes last, and nothing else is drawn.
pub proof fn lemma_drawn_order<P>(s: StateView<P>)
    ensures
        drawn(s).take(s.lines.len() as int) == stored(s),
        forall|i: int|
            0 <= i < s.lines.len() ==> #[trigger] drawn(s)[i] == (s.line_ids[i], s.lines[i]),
        s.points.len() > 0 ==> drawn(s).len() == s.lines.len() + 1 && drawn(s).last() == (
            s.active,
            s.points,
        ),
        s.points.len() == 0 ==> drawn(s).len() == s.lines.len(),
{
}

/// The store only grows at its end: after an action, and after a tick, the
/// lines that were stored are still the first ones, in their order and
/// under their identifiers.
pub proof fn lemma_store_grows_at_end<P>(
    s: StateView<P>,
    action: PaintAction<P>,
    input: Input<P>,
    fresh: Seq<Id>,
)
    requires
        s.line_ids.len() == s.lines.len(),
    ensures
        stored(apply(s, action)).take(s.lines.len() as int) == stored(s),
        stored(step(s, input, fresh)).take(s.lines.len() as int) == stored(s),
        apply(s, action).line_ids.len() == apply(s, action).lines.len(),
        step(s, input, fresh).line_ids.len() == step(s, input, fresh).lines.len(),
{
}

} // verus!
