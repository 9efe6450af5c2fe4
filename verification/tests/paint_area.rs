use conrod::widget::Id;
use conrod::{Ui, UiBuilder};
use rust_paint::paint::paint_area::{
    Cap, Color, Input, MouseState, Outcome, PaintAction, Polyline, State, Style, LINE_THICKNESS,
};
use rust_paint::paint::{PaintArea, WindowAction};

type Point = [f64; 2];

const P0: Point = [1.0, 2.0];
const P1: Point = [3.5, -4.0];
const P2: Point = [5.0, 6.25];
const P3: Point = [-7.0, 8.0];

fn new_ui() -> Ui {
    UiBuilder::new([1000.0, 600.0]).build()
}

fn down(position: Point) -> Input<Point> {
    Input { cancel: false, button_down: true, position }
}

fn up(position: Point) -> Input<Point> {
    Input { cancel: false, button_down: false, position }
}

fn escape(button_down: bool, position: Point) -> Input<Point> {
    Input { cancel: true, button_down, position }
}

fn line(id: Id, points: Vec<Point>) -> Polyline<Point> {
    Polyline { id, points, thickness: 12, color: Color::Black, cap: Cap::Round }
}

fn all_ids(state: &State<Point>) -> Vec<Id> {
    let mut ids = vec![state.active()];
    ids.extend_from_slice(state.line_ids());
    ids.extend_from_slice(state.id_pool());
    ids
}

fn all_distinct(ids: &[Id]) -> bool {
    for i in 0..ids.len() {
        for j in (i + 1)..ids.len() {
            if ids[i] == ids[j] {
                return false;
            }
        }
    }
    true
}

#[test]
fn area_style_is_the_default() {
    assert_eq!(PaintArea::new().style(), Style::default());
}

#[test]
fn line_thickness_is_twelve() {
    assert_eq!(LINE_THICKNESS, 12);
}

#[test]
fn new_state_is_idle_and_empty() {
    let mut ui = new_ui();
    let nodes = ui.widget_graph().node_count();
    let state: State<Point> = PaintArea::new().init_state(&mut ui.widget_id_generator());
    assert_eq!(state.mouse_state(), MouseState::Idle);
    assert_eq!(state.id_pool().len(), 0);
    assert!(state.line_ids().is_empty());
    assert!(state.lines().is_empty());
    assert!(state.points().is_empty());
    assert!(state.draw_list().is_empty());
    assert_eq!(ui.widget_graph().node_count(), nodes + 1);
    assert_eq!(state.active().index(), nodes);
}

#[test]
fn escape_comes_before_the_button() {
    let area = PaintArea::new();
    for mouse_state in [MouseState::Idle, MouseState::Pressed, MouseState::Cancelled] {
        assert_eq!(area.handle_input(&escape(true, P0), mouse_state), Some(PaintAction::Cancel));
        assert_eq!(area.handle_input(&escape(false, P0), mouse_state), Some(PaintAction::Cancel));
    }
}

#[test]
fn button_down_when_idle_is_a_press() {
    let area = PaintArea::new();
    assert_eq!(area.handle_input(&down(P1), MouseState::Idle), Some(PaintAction::Press(P1)));
}

#[test]
fn button_down_when_pressed_is_a_drag() {
    let area = PaintArea::new();
    assert_eq!(area.handle_input(&down(P2), MouseState::Pressed), Some(PaintAction::Drag(P2)));
}

#[test]
fn button_down_when_cancelled_is_nothing() {
    let area = PaintArea::new();
    assert_eq!(area.handle_input(&down(P2), MouseState::Cancelled), None);
}

#[test]
fn button_up_when_pressed_is_a_release() {
    let area = PaintArea::new();
    assert_eq!(area.handle_input(&up(P0), MouseState::Pressed), Some(PaintAction::Release));
}

#[test]
fn button_up_when_cancelled_is_a_release() {
    let area = PaintArea::new();
    assert_eq!(area.handle_input(&up(P0), MouseState::Cancelled), Some(PaintAction::Release));
}

#[test]
fn button_up_when_idle_is_nothing() {
    let area = PaintArea::new();
    assert_eq!(area.handle_input(&up(P0), MouseState::Idle), None);
}

#[test]
fn press_drag_release_stores_a_line() {
    let mut ui = new_ui();
    let area = PaintArea::new();
    let mut state: State<Point> = area.init_state(&mut ui.widget_id_generator());
    let active = state.active();

    let out = area.update(&mut state, &down(P0), &mut ui.widget_id_generator());
    assert_eq!(out.outcome, Outcome::Quiet);
    assert_eq!(state.mouse_state(), MouseState::Pressed);
    assert_eq!(state.points(), &vec![P0]);
    assert_eq!(out.draw_list, vec![line(active, vec![P0])]);

    area.update(&mut state, &down(P1), &mut ui.widget_id_generator());
    let out = area.update(&mut state, &down(P2), &mut ui.widget_id_generator());
    assert_eq!(out.outcome, Outcome::Quiet);
    assert_eq!(state.points(), &vec![P0, P1, P2]);
    assert_eq!(out.draw_list, vec![line(active, vec![P0, P1, P2])]);
    assert!(state.lines().is_empty());

    let out = area.update(&mut state, &up(P3), &mut ui.widget_id_generator());
    assert_eq!(out.outcome, Outcome::LineAdded(3));
    assert_eq!(out.signal, WindowAction::Nothing);
    assert_eq!(state.mouse_state(), MouseState::Idle);
    assert!(state.points().is_empty());
    assert_eq!(state.lines(), &vec![vec![P0, P1, P2]]);
    assert_eq!(state.line_ids().len(), 1);
    let id = state.line_ids()[0];
    assert_ne!(id, active);
    assert!(!state.id_pool().contains(&id));
    assert_eq!(out.draw_list, vec![line(id, vec![P0, P1, P2])]);
    assert_eq!(state.active(), active);
}

#[test]
fn release_takes_the_last_id_of_the_pool() {
    let mut ui = new_ui();
    let area = PaintArea::new();
    let mut state: State<Point> = area.init_state(&mut ui.widget_id_generator());
    for input in [down(P0), down(P1), up(P1)] {
        area.update(&mut state, &input, &mut ui.widget_id_generator());
    }
    let pool: Vec<Id> = state.id_pool().to_vec();
    assert_eq!(pool.len(), 19);
    let first = state.line_ids()[0];

    assert_eq!(area.handle_action(&mut state, PaintAction::Press(P2)), Outcome::Quiet);
    assert_eq!(area.handle_action(&mut state, PaintAction::Drag(P3)), Outcome::Quiet);
    assert_eq!(area.handle_action(&mut state, PaintAction::Release), Outcome::LineAdded(2));
    assert_eq!(state.line_ids(), &vec![first, pool[18]]);
    assert_eq!(&state.id_pool()[..], &pool[..18]);
    assert_eq!(state.lines(), &vec![vec![P0, P1], vec![P2, P3]]);
}

#[test]
fn single_click_stores_nothing() {
    let mut ui = new_ui();
    let area = PaintArea::new();
    let mut state: State<Point> = area.init_state(&mut ui.widget_id_generator());
    area.update(&mut state, &down(P0), &mut ui.widget_id_generator());
    let out = area.update(&mut state, &up(P0), &mut ui.widget_id_generator());
    assert_eq!(out.outcome, Outcome::Quiet);
    assert!(state.lines().is_empty());
    assert!(state.line_ids().is_empty());
    assert!(state.points().is_empty());
    assert_eq!(state.mouse_state(), MouseState::Idle);
    assert!(out.draw_list.is_empty());
    assert_eq!(state.id_pool().len(), 20);
}

#[test]
fn single_click_keeps_the_pool() {
    let mut ui = new_ui();
    let area = PaintArea::new();
    let mut state: State<Point> = area.init_state(&mut ui.widget_id_generator());
    for input in [down(P0), down(P1), up(P1)] {
        area.update(&mut state, &input, &mut ui.widget_id_generator());
    }
    let pool: Vec<Id> = state.id_pool().to_vec();
    assert_eq!(area.handle_action(&mut state, PaintAction::Press(P2)), Outcome::Quiet);
    assert_eq!(area.handle_action(&mut state, PaintAction::Release), Outcome::Quiet);
    assert_eq!(&state.id_pool()[..], &pool[..]);
    assert_eq!(state.lines(), &vec![vec![P0, P1]]);
    assert!(state.points().is_empty());
}

#[test]
fn cancel_discards_the_stroke() {
    let mut ui = new_ui();
    let area = PaintArea::new();
    let mut state: State<Point> = area.init_state(&mut ui.widget_id_generator());
    area.update(&mut state, &down(P0), &mut ui.widget_id_generator());
    area.update(&mut state, &down(P1), &mut ui.widget_id_generator());
    let out = area.update(&mut state, &escape(true, P2), &mut ui.widget_id_generator());
    assert_eq!(out.signal, WindowAction::Cancel);
    assert_eq!(out.outcome, Outcome::Quiet);
    assert_eq!(state.mouse_state(), MouseState::Cancelled);
    assert!(state.points().is_empty());
    assert!(out.draw_list.is_empty());

    let out = area.update(&mut state, &up(P2), &mut ui.widget_id_generator());
    assert_eq!(out.signal, WindowAction::Nothing);
    assert_eq!(out.outcome, Outcome::Quiet);
    assert_eq!(state.mouse_state(), MouseState::Idle);
    assert!(state.lines().is_empty());
    assert!(state.line_ids().is_empty());
    assert!(state.points().is_empty());
}

#[test]
fn cancel_holds_while_the_button_stays_down() {
    let mut ui = new_ui();
    let area = PaintArea::new();
    let mut state: State<Point> = area.init_state(&mut ui.widget_id_generator());
    area.update(&mut state, &down(P0), &mut ui.widget_id_generator());
    area.update(&mut state, &escape(true, P0), &mut ui.widget_id_generator());
    for position in [P1, P2, P3] {
        assert_eq!(area.handle_input(&down(position), state.mouse_state()), None);
        let out = area.update(&mut state, &down(position), &mut ui.widget_id_generator());
        assert_eq!(out.signal, WindowAction::Nothing);
        assert_eq!(out.outcome, Outcome::Quiet);
        assert_eq!(state.mouse_state(), MouseState::Cancelled);
        assert!(state.points().is_empty());
    }
    area.update(&mut state, &up(P3), &mut ui.widget_id_generator());
    assert_eq!(state.mouse_state(), MouseState::Idle);
    assert!(state.lines().is_empty());
    area.update(&mut state, &down(P1), &mut ui.widget_id_generator());
    assert_eq!(state.mouse_state(), MouseState::Pressed);
    assert_eq!(state.points(), &vec![P1]);
}

#[test]
fn points_added_after_a_cancel_are_not_stored() {
    let mut ui = new_ui();
    let area = PaintArea::new();
    let mut state: State<Point> = area.init_state(&mut ui.widget_id_generator());
    area.handle_action(&mut state, PaintAction::Cancel);
    area.handle_action(&mut state, PaintAction::Drag(P0));
    area.handle_action(&mut state, PaintAction::Drag(P1));
    assert_eq!(state.points(), &vec![P0, P1]);
    let out = area.update(&mut state, &up(P1), &mut ui.widget_id_generator());
    assert_eq!(out.outcome, Outcome::Quiet);
    assert!(state.lines().is_empty());
    assert!(state.points().is_empty());
    assert_eq!(state.id_pool().len(), 20);
}

#[test]
fn empty_pool_drops_the_stroke_and_the_next_one_is_stored() {
    let mut ui = new_ui();
    let area = PaintArea::new();
    let mut state: State<Point> = area.init_state(&mut ui.widget_id_generator());
    assert_eq!(state.id_pool().len(), 0);
    assert_eq!(area.handle_action(&mut state, PaintAction::Press(P0)), Outcome::Quiet);
    assert_eq!(area.handle_action(&mut state, PaintAction::Drag(P1)), Outcome::Quiet);
    assert_eq!(area.handle_action(&mut state, PaintAction::Drag(P2)), Outcome::Quiet);
    assert_eq!(area.handle_action(&mut state, PaintAction::Release), Outcome::NoIdsLeft);
    assert!(state.lines().is_empty());
    assert!(state.line_ids().is_empty());
    assert!(state.points().is_empty());
    assert_eq!(state.mouse_state(), MouseState::Idle);
    assert_eq!(state.id_pool().len(), 0);

    for input in [down(P1), down(P2), down(P3)] {
        area.update(&mut state, &input, &mut ui.widget_id_generator());
    }
    let out = area.update(&mut state, &up(P3), &mut ui.widget_id_generator());
    assert_eq!(out.outcome, Outcome::LineAdded(3));
    assert_eq!(state.lines(), &vec![vec![P1, P2, P3]]);
    assert_eq!(state.line_ids().len(), 1);
    assert_eq!(state.id_pool().len(), 19);
}

#[test]
fn release_of_one_point_with_empty_pool_is_quiet() {
    let mut ui = new_ui();
    let area = PaintArea::new();
    let mut state: State<Point> = area.init_state(&mut ui.widget_id_generator());
    area.handle_action(&mut state, PaintAction::Press(P0));
    assert_eq!(area.handle_action(&mut state, PaintAction::Release), Outcome::Quiet);
    assert_eq!(area.handle_action(&mut state, PaintAction::Release), Outcome::Quiet);
    assert_eq!(state.mouse_state(), MouseState::Idle);
}

#[test]
fn press_starts_the_stroke_anew() {
    let mut ui = new_ui();
    let area = PaintArea::new();
    let mut state: State<Point> = area.init_state(&mut ui.widget_id_generator());
    area.handle_action(&mut state, PaintAction::Press(P0));
    area.handle_action(&mut state, PaintAction::Drag(P1));
    area.handle_action(&mut state, PaintAction::Press(P2));
    assert_eq!(state.points(), &vec![P2]);
    assert_eq!(state.mouse_state(), MouseState::Pressed);
}

#[test]
fn drag_adds_a_point_in_any_state() {
    let mut ui = new_ui();
    let area = PaintArea::new();
    let mut state: State<Point> = area.init_state(&mut ui.widget_id_generator());
    area.handle_action(&mut state, PaintAction::Drag(P0));
    assert_eq!(state.points(), &vec![P0]);
    assert_eq!(state.mouse_state(), MouseState::Idle);
}

#[test]
fn pool_is_filled_when_an_action_is_taken() {
    let mut ui = new_ui();
    let area = PaintArea::new();
    let mut state: State<Point> = area.init_state(&mut ui.widget_id_generator());
    let nodes = ui.widget_graph().node_count();
    area.update(&mut state, &up(P0), &mut ui.widget_id_generator());
    assert_eq!(state.id_pool().len(), 0);
    assert_eq!(ui.widget_graph().node_count(), nodes);
    area.update(&mut state, &down(P0), &mut ui.widget_id_generator());
    assert_eq!(state.id_pool().len(), 20);
    assert_eq!(ui.widget_graph().node_count(), nodes + 20);
    area.update(&mut state, &down(P1), &mut ui.widget_id_generator());
    area.update(&mut state, &up(P1), &mut ui.widget_id_generator());
    assert_eq!(state.id_pool().len(), 19);
    assert_eq!(ui.widget_graph().node_count(), nodes + 20);
    area.update(&mut state, &up(P1), &mut ui.widget_id_generator());
    assert_eq!(state.id_pool().len(), 19);
    assert_eq!(ui.widget_graph().node_count(), nodes + 20);
    area.update(&mut state, &escape(false, P1), &mut ui.widget_id_generator());
    assert_eq!(state.id_pool().len(), 20);
    assert_eq!(ui.widget_graph().node_count(), nodes + 21);
}

#[test]
fn cancelled_area_with_button_down_takes_no_ids() {
    let mut ui = new_ui();
    let area = PaintArea::new();
    let mut state: State<Point> = area.init_state(&mut ui.widget_id_generator());
    area.handle_action(&mut state, PaintAction::Cancel);
    let nodes = ui.widget_graph().node_count();
    area.update(&mut state, &down(P0), &mut ui.widget_id_generator());
    assert_eq!(state.id_pool().len(), 0);
    assert_eq!(ui.widget_graph().node_count(), nodes);
}

#[test]
fn lines_are_drawn_in_the_order_stored_and_the_stroke_last() {
    let mut ui = new_ui();
    let area = PaintArea::new();
    let mut state: State<Point> = area.init_state(&mut ui.widget_id_generator());
    for input in [down(P0), down(P1), up(P1), down(P2), down(P3), down(P0), up(P0), down(P3)] {
        area.update(&mut state, &input, &mut ui.widget_id_generator());
    }
    let out = area.update(&mut state, &down(P1), &mut ui.widget_id_generator());
    let ids: Vec<Id> = state.line_ids().clone();
    assert_eq!(ids.len(), 2);
    assert_eq!(
        out.draw_list,
        vec![
            line(ids[0], vec![P0, P1]),
            line(ids[1], vec![P2, P3, P0]),
            line(state.active(), vec![P3, P1]),
        ]
    );
    assert_eq!(state.draw_list(), out.draw_list);

    let out = area.update(&mut state, &up(P1), &mut ui.widget_id_generator());
    assert_eq!(out.draw_list.len(), 3);
    assert_eq!(&state.line_ids()[..2], &ids[..]);
    assert_eq!(out.draw_list[0], line(ids[0], vec![P0, P1]));
    assert_eq!(out.draw_list[1], line(ids[1], vec![P2, P3, P0]));
    assert_eq!(out.draw_list[2], line(state.line_ids()[2], vec![P3, P1]));
}

#[test]
fn every_line_is_black_round_and_twelve_thick() {
    let mut ui = new_ui();
    let area = PaintArea::new();
    let mut state: State<Point> = area.init_state(&mut ui.widget_id_generator());
    for input in [down(P0), down(P1), up(P1), down(P2)] {
        area.update(&mut state, &input, &mut ui.widget_id_generator());
    }
    let list = state.draw_list();
    assert_eq!(list.len(), 2);
    for polyline in &list {
        assert_eq!(polyline.thickness, 12);
        assert_eq!(polyline.color, Color::Black);
        assert_eq!(polyline.cap, Cap::Round);
    }
}

#[test]
fn no_id_is_held_twice() {
    let mut ui = new_ui();
    let area = PaintArea::new();
    let mut state: State<Point> = area.init_state(&mut ui.widget_id_generator());
    let other = ui.widget_id_generator().next();
    for _ in 0..25 {
        for input in [down(P0), down(P1), up(P1)] {
            area.update(&mut state, &input, &mut ui.widget_id_generator());
        }
    }
    assert_eq!(state.lines().len(), 25);
    assert_eq!(state.line_ids().len(), 25);
    assert_eq!(state.id_pool().len(), 19);
    let ids = all_ids(&state);
    assert_eq!(ids.len(), 45);
    assert!(all_distinct(&ids));
    assert!(!ids.contains(&other));
}

#[test]
fn escape_tells_the_window_and_nothing_else_does() {
    let mut ui = new_ui();
    let area = PaintArea::new();
    let mut state: State<Point> = area.init_state(&mut ui.widget_id_generator());
    let out = area.update(&mut state, &escape(false, P0), &mut ui.widget_id_generator());
    assert_eq!(out.signal, WindowAction::Cancel);
    assert_eq!(state.mouse_state(), MouseState::Cancelled);
    let out = area.update(&mut state, &up(P0), &mut ui.widget_id_generator());
    assert_eq!(out.signal, WindowAction::Nothing);
    let out = area.update(&mut state, &down(P0), &mut ui.widget_id_generator());
    assert_eq!(out.signal, WindowAction::Nothing);
    let out = area.update(&mut state, &up(P0), &mut ui.widget_id_generator());
    assert_eq!(out.signal, WindowAction::Nothing);
}
