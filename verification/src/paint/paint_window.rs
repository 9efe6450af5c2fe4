//! The window around the paint area.

use crate::paint::paint_area::Color;
use crate::support::id::issued;
use conrod::widget::id::Generator;
use conrod::widget::Id;
use vstd::prelude::*;

verus! {

/// What a widget asks of the window that holds it.
#[derive(Copy, Clone, Debug, PartialEq, Eq, Structural)]
pub enum WindowAction {
    /// Nothing is asked.
    Nothing,
    /// The stroke in progress was given up.
    Cancel,
    /// The window is to close.
    Quit,
}

/// The style of the paint window. It has nothing to set.
#[derive(Copy, Clone, Debug, Default, PartialEq)]
pub struct Style {}

/// The colour of the window's background.
pub const BACKGROUND_COLOR: Color = Color::White;

/// The window widget: a background with the paint area in its middle.
pub struct PaintWindow {
    style: Style,
}

/// The identifiers of the window's two parts.
pub struct State {
    background: Id,
    paint_area: Id,
}

impl State {
    /// The identifier of the background.
    pub closed spec fn background_id(&self) -> Id {
        self.background
    }

    /// The identifier of the paint area.
    pub closed spec fn paint_area_id(&self) -> Id {
        self.paint_area
    }

    /// The identifier of the background.
    pub fn background(&self) -> (id: Id)
        ensures
            id == self.background_id(),
    {
        self.background
    }

    /// The identifier of the paint area.
    pub fn paint_area(&self) -> (id: Id)
        ensures
            id == self.paint_area_id(),
    {
        self.paint_area
    }
}

impl View for PaintWindow {
    type V = Style;

    closed spec fn view(&self) -> Style {
        self.style
    }
}

impl PaintWindow {
    /// A paint window in the default style.
    pub fn new() -> (window: Self)
        ensures
            window@ == (Style {}),
    {
        PaintWindow { style: Style {} }
    }

    /// The window's style.
    pub fn style(&self) -> (style: Style)
        ensures
            style == self@,
    {
        self.style
    }

    /// Takes an identifier for the background and one for the paint area,
    /// in this order. Both are new to the widget graph, so they differ from
    /// each other and from every identifier handed out before.
    pub fn init_state(&self, id_generator: &mut Generator) -> (state: State)
        requires
            issued(*old(id_generator)).len() + 2 <= u32::MAX,
        ensures
            issued(*final(id_generator)) == issued(*old(id_generator)).push(
                state.background_id(),
            ).push(state.paint_area_id()),
            !issued(*old(id_generator)).contains(state.background_id()),
            !issued(*old(id_generator)).contains(state.paint_area_id()),
            state.background_id() != state.paint_area_id(),
    {
        let background = id_generator.next();
        let ghost between = issued(*id_generator);
        let paint_area = id_generator.next();
        proof {
            assert(between[between.len() - 1] == background);
            if issued(*old(id_generator)).contains(paint_area) {
                let k = choose|k: int|
                    0 <= k < issued(*old(id_generator)).len() && issued(*old(id_generator))[k]
                        == paint_area;
                assert(between[k] == paint_area);
            }
        }
        State { background, paint_area }
    }
}

} // verus!
