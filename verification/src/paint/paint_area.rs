//! The area that is drawn on.
//!
//! A press of the mouse button starts a stroke, each further tick with the
//! button down adds the pointer's position to it, and the release stores it
//! as a line under an identifier of its own. Escape gives the stroke up.
//! The kind of a point is left open: the area keeps points and hands them
//! on, and never looks into one.

use crate::paint::model::apply;
use crate::paint::model::demand;
use crate::paint::model::drawn;
use crate::paint::model::lemma_apply_ids_among;
use crate::paint::model::lemma_apply_wf;
use crate::paint::model::lemma_refill_wf;
use crate::paint::model::next_action;
use crate::paint::model::outcome_of;
use crate::paint::model::signal_of;
use crate::paint::model::step;
use crate::paint::model::step_outcome;
use crate::paint::model::stored;
use crate::paint::model::StateView;
use crate::paint::paint_window::WindowAction;
use crate::support::id::grew;
use crate::support::id::fresh_ids;
use crate::support::id::issued;
use crate::support::id::IdPool;
use conrod::widget::id::Generator;
use conrod::widget::Id;
use vstd::prelude::*;

verus! {

/// The style of the paint area. It has nothing to set.
#[derive(Copy, Clone, Debug, Default, PartialEq)]
pub struct Style {}

/// Where the pointer stands in a stroke.
#[derive(Copy, Clone, Debug, PartialEq, Eq, Structural)]
pub enum MouseState {
    /// No stroke is in progress.
    Idle,
    /// The button went down and a stroke is in progress.
    Pressed,
    /// The stroke was given up and the button is not known to be up yet.
    Cancelled,
}

/// What one tick's input asks of the area.
#[derive(Debug, PartialEq)]
pub enum PaintAction<P> {
    /// Give the stroke up.
    Cancel,
    /// Start a stroke at this point.
    Press(P),
    /// Go on with the stroke to this point.
    Drag(P),
    /// End the stroke.
    Release,
}

/// The input of one tick, as the area sees it.
#[derive(Debug, PartialEq)]
pub struct Input<P> {
    /// Escape was pressed while the keyboard was captured.
    pub cancel: bool,
    /// The mouse button is down.
    pub button_down: bool,
    /// Where the pointer is.
    pub position: P,
}

/// What became of the stroke when an action was applied.
#[derive(Copy, Clone, Debug, PartialEq, Eq, Structural)]
pub enum Outcome {
    /// No line was due.
    Quiet,
    /// The stroke was stored as a line of this many points.
    LineAdded(usize),
    /// A line was due, the pool had no identifier for it, and the stroke
    /// was dropped.
    NoIdsLeft,
}

/// How the end of a line is drawn.
#[derive(Copy, Clone, Debug, PartialEq, Eq, Structural)]
pub enum Cap {
    /// Cut off at the last point.
    Flat,
    /// Rounded off around the last point.
    Round,
}

/// The colours that the widgets draw in.
#[derive(Copy, Clone, Debug, PartialEq, Eq, Structural)]
pub enum Color {
    /// The lines.
    Black,
    /// The window's background.
    White,
}

/// The thickness of every line.
pub const LINE_THICKNESS: u32 = 12;

/// The colour of every line.
pub const LINE_COLOR: Color = Color::Black;

/// How every line ends.
pub const LINE_CAP: Cap = Cap::Round;

/// One line for the renderer: its points in the order in which they were
/// drawn, the identifier to draw it under, and how to draw it.
#[derive(Debug, PartialEq)]
pub struct Polyline<P> {
    pub id: Id,
    pub points: Vec<P>,
    pub thickness: u32,
    pub color: Color,
    pub cap: Cap,
}

impl<P> View for Polyline<P> {
    type V = (Id, Seq<P>);

    open spec fn view(&self) -> (Id, Seq<P>) {
        (self.id, self.points@)
    }
}

impl<P> Polyline<P> {
    /// The line is black, round at its ends and `LINE_THICKNESS` thick.
    pub open spec fn styled(&self) -> bool {
        self.thickness == LINE_THICKNESS && self.color == LINE_COLOR && self.cap == LINE_CAP
    }
}

/// The identifier and the points of each line of a draw list.
pub open spec fn polylines<P>(list: Seq<Polyline<P>>) -> Seq<(Id, Seq<P>)> {
    list.map_values(|line: Polyline<P>| line@)
}

/// What one tick hands back: the lines to draw, what the window is told,
/// and what became of the stroke.
pub struct Update<P> {
    pub draw_list: Vec<Polyline<P>>,
    pub signal: WindowAction,
    pub outcome: Outcome,
}

/// The state that the paint area keeps from tick to tick.
pub struct State<P> {
    mouse_state: MouseState,
    id_pool: IdPool,
    active: Id,
    line_ids: Vec<Id>,
    lines: Vec<Vec<P>>,
    points: Vec<P>,
}

impl<P> View for State<P> {
    type V = StateView<P>;

    closed spec fn view(&self) -> StateView<P> {
        StateView {
            mouse_state: self.mouse_state,
            pool: self.id_pool@,
            active: self.active,
            line_ids: self.line_ids@,
            lines: self.lines@.map_values(|line: Vec<P>| line@),
            points: self.points@,
        }
    }
}

impl<P> State<P> {
    /// Where the pointer stands in a stroke.
    pub fn mouse_state(&self) -> (mouse_state: MouseState)
        ensures
            mouse_state == self@.mouse_state,
    {
        self.mouse_state
    }

    /// The identifiers in reserve.
    pub fn id_pool(&self) -> (pool: &IdPool)
        ensures
            pool@ == self@.pool,
    {
        &self.id_pool
    }

    /// The identifier kept for the stroke in progress.
    pub fn active(&self) -> (id: Id)
        ensures
            id == self@.active,
    {
        self.active
    }

    /// The identifiers of the stored lines, in the order of the lines.
    pub fn line_ids(&self) -> (ids: &Vec<Id>)
        ensures
            ids@ == self@.line_ids,
    {
        &self.line_ids
    }

    /// The stored lines, in the order in which they were stored.
    pub fn lines(&self) -> (lines: &Vec<Vec<P>>)
        ensures
            lines@.map_values(|line: Vec<P>| line@) == self@.lines,
    {
        &self.lines
    }

    /// The points of the stroke in progress.
    pub fn points(&self) -> (points: &Vec<P>)
        ensures
            points@ == self@.points,
    {
        &self.points
    }
}

/// A copy of the points of a line.
fn copy_points<P: Copy>(points: &Vec<P>) -> (copy: Vec<P>)
    ensures
        copy@ == points@,
{
    let mut copy: Vec<P> = Vec::new();
    let mut i: usize = 0;
    while i < points.len()
        invariant
            i <= points.len(),
            copy@ == points@.take(i as int),
        decreases points.len() - i,
    {
        copy.push(points[i]);
        i += 1;
        assert(points@.take(i as int) == points@.take(i - 1).push(points@[i - 1]));
    }
    assert(points@.take(points@.len() as int) == points@);
    copy
}

impl<P: Copy> State<P> {
    /// The lines to draw: the stored lines in the order in which they were
    /// stored and then, if it has a point, the stroke in progress.
    pub fn draw_list(&self) -> (list: Vec<Polyline<P>>)
        requires
            self@.wf(),
        ensures
            polylines(list@) == drawn(self@),
            forall|i: int| 0 <= i < list@.len() ==> (#[trigger] list@[i]).styled(),
    {
        let mut list: Vec<Polyline<P>> = Vec::new();
        let mut i: usize = 0;
        while i < self.lines.len()
            invariant
                self.line_ids@.len() == self.lines@.len(),
                i <= self.lines@.len(),
                list@.len() == i,
                forall|k: int|
                    0 <= k < i ==> (#[trigger] list@[k])@ == (self.line_ids@[k], self.lines@[k]@),
                forall|k: int| 0 <= k < i ==> (#[trigger] list@[k]).styled(),
            decreases self.lines@.len() - i,
        {
            let points = copy_points(&self.lines[i]);
            list.push(
                Polyline {
                    id: self.line_ids[i],
                    points,
                    thickness: LINE_THICKNESS,
                    color: LINE_COLOR,
                    cap: LINE_CAP,
                },
            );
            i += 1;
        }
        assert(polylines(list@) == stored(self@));
        if self.points.len() > 0 {
            let points = copy_points(&self.points);
            list.push(
                Polyline {
                    id: self.active,
                    points,
                    thickness: LINE_THICKNESS,
                    color: LINE_COLOR,
                    cap: LINE_CAP,
                },
            );
            assert(polylines(list@) == stored(self@).push((self@.active, self@.points)));
        }
        list
    }
}

/// The paint area widget.
pub struct PaintArea {
    style: Style,
}

impl View for PaintArea {
    type V = Style;

    closed spec fn view(&self) -> Style {
        self.style
    }
}

impl PaintArea {
    /// A paint area in the default style.
    pub fn new() -> (area: Self)
        ensures
            area@ == (Style {}),
    {
        PaintArea { style: Style {} }
    }

    /// Reads one tick's input as an action: escape gives the stroke up; the
    /// button down starts a stroke or goes on with it, unless one was given
    /// up and the button has not been up since; the button up ends it.
    pub fn handle_input<P: Copy>(&self, input: &Input<P>, mouse_state: MouseState) -> (action:
        Option<PaintAction<P>>)
        ensures
            action == next_action(mouse_state, *input),
    {
        if input.cancel {
            return Some(PaintAction::Cancel);
        }
        if input.button_down {
            if mouse_state == MouseState::Cancelled {
                return None;
            } else if mouse_state == MouseState::Pressed {
                return Some(PaintAction::Drag(input.position));
            } else {
                return Some(PaintAction::Press(input.position));
            }
        } else if mouse_state == MouseState::Pressed || mouse_state == MouseState::Cancelled {
            return Some(PaintAction::Release);
        }
        None
    }

    /// Applies an action to the area and says what became of the stroke.
    /// A release for which a line is due takes the pool's last identifier;
    /// with an empty pool the stroke is dropped and `NoIdsLeft` reported.
    pub fn handle_action<P: Copy>(&self, state: &mut State<P>, action: PaintAction<P>) -> (outcome:
        Outcome)
        ensures
            final(state)@ == apply(old(state)@, action),
            outcome == outcome_of(old(state)@, action),
            old(state)@.wf() ==> final(state)@.wf(),
    {
        proof {
            if state@.wf() {
                lemma_apply_wf(state@, action);
            }
        }
        match action {
            PaintAction::Cancel => {
                state.points.clear();
                state.mouse_state = MouseState::Cancelled;
                Outcome::Quiet
            },
            PaintAction::Press(point) => {
                state.points.clear();
                state.points.push(point);
                state.mouse_state = MouseState::Pressed;
                assert(state.points@ == seq![point]);
                Outcome::Quiet
            },
            PaintAction::Drag(point) => {
                state.points.push(point);
                Outcome::Quiet
            },
            PaintAction::Release => {
                let mut outcome = Outcome::Quiet;
                if state.points.len() > 1 && state.mouse_state == MouseState::Pressed {
                    match state.id_pool.get() {
                        Some(new_id) => {
                            let line = copy_points(&state.points);
                            outcome = Outcome::LineAdded(line.len());
                            state.line_ids.push(new_id);
                            state.lines.push(line);
                            assert(state@.lines == old(state)@.lines.push(old(state)@.points));
                        },
                        None => {
                            outcome = Outcome::NoIdsLeft;
                        },
                    }
                }
                state.mouse_state = MouseState::Idle;
                state.points.clear();
                outcome
            },
        }
    }

    /// The state of a new area: nothing drawn, an empty pool, and an
    /// identifier for the stroke in progress, which is new to the widget
    /// graph.
    pub fn init_state<P>(&self, id_generator: &mut Generator) -> (state: State<P>)
        requires
            issued(*old(id_generator)).len() < u32::MAX,
        ensures
            issued(*final(id_generator)) == issued(*old(id_generator)).push(state@.active),
            !issued(*old(id_generator)).contains(state@.active),
            state@ == (StateView::<P> {
                mouse_state: MouseState::Idle,
                pool: Seq::empty(),
                active: state@.active,
                line_ids: Seq::empty(),
                lines: Seq::empty(),
                points: Seq::empty(),
            }),
            state@.wf(),
            state@.coherent(),
            state@.ids_among(issued(*final(id_generator))),
    {
        let active = id_generator.next();
        let state = State {
            mouse_state: MouseState::Idle,
            id_pool: IdPool::new(),
            active,
            line_ids: Vec::new(),
            lines: Vec::new(),
            points: Vec::new(),
        };
        proof {
            let ids = issued(*id_generator);
            assert(ids[ids.len() - 1] == active);
            assert(state@.lines == Seq::<Seq<P>>::empty());
        }
        state
    }

    /// The area's style.
    pub fn style(&self) -> (style: Style)
        ensures
            style == self@,
    {
        self.style
    }

    /// One tick of the area: reads the input as an action, brings the pool
    /// to `POOL_SIZE` if there is one, applies it and lists what is to be
    /// drawn. A release that is due a line always finds an identifier.
    pub fn update<P: Copy>(
        &self,
        state: &mut State<P>,
        input: &Input<P>,
        id_generator: &mut Generator,
    ) -> (out: Update<P>)
        requires
            old(state)@.wf(),
            old(state)@.ids_among(issued(*old(id_generator))),
            issued(*old(id_generator)).len() + demand(old(state)@, *input) <= u32::MAX,
        ensures
            grew(*old(id_generator), *final(id_generator), demand(old(state)@, *input)),
            final(state)@ == step(
                old(state)@,
                *input,
                fresh_ids(*old(id_generator), *final(id_generator)),
            ),
            final(state)@.wf(),
            final(state)@.ids_among(issued(*final(id_generator))),
            old(state)@.coherent() ==> final(state)@.coherent(),
            polylines(out.draw_list@) == drawn(final(state)@),
            forall|i: int| 0 <= i < out.draw_list@.len() ==> (#[trigger] out.draw_list@[i]).styled(),
            out.signal == signal_of(next_action(old(state)@.mouse_state, *input)),
            out.outcome == step_outcome(
                old(state)@,
                *input,
                fresh_ids(*old(id_generator), *final(id_generator)),
            ),
            !(out.outcome is NoIdsLeft),
    {
        let ghost before = issued(*id_generator);
        let mut signal = WindowAction::Nothing;
        let mut outcome = Outcome::Quiet;
        assert(before == before + before.skip(before.len() as int));
        match self.handle_input(input, state.mouse_state) {
            Some(action) => {
                state.id_pool.repopulate(id_generator);
                proof {
                    lemma_refill_wf(
                        old(state)@,
                        before,
                        fresh_ids(*old(id_generator), *id_generator),
                    );
                    lemma_apply_wf(state@, action);
                    lemma_apply_ids_among(state@, action, issued(*id_generator));
                }
                if let PaintAction::Cancel = action {
                    signal = WindowAction::Cancel;
                }
                outcome = self.handle_action(state, action);
            },
            None => {},
        }
        let draw_list = state.draw_list();
        Update { draw_list, signal, outcome }
    }
}

} // verus!
