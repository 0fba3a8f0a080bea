use easycad::events::input::{handle_input, InputEvent, KeyCode, MouseButton};
use easycad::graphics::camera::Size;
use easycad::graphics::renderer::{apply_ui_action, Request};
use easycad::graphics::vertex::Point;
use easycad::model::line::LineOps;
use easycad::{DrawLineMode, DrawingState, Mode, MoveMode, ScreenPoint, State};

// An 800 by 600 viewport at zoom one shows the world origin at its centre,
// one world unit (1000 ticks) for each pixel.
fn session() -> State {
    State::new(Size { width: 800, height: 600 })
}

fn key(state: &mut State, key: KeyCode) {
    assert!(handle_input(state, &InputEvent::KeyPressed(key), 0));
}

fn hover(state: &mut State, world_x: i64, world_y: i64) {
    let pos = ScreenPoint { x: 400 + world_x, y: 300 - world_y };
    assert!(handle_input(state, &InputEvent::CursorMoved(pos), 0));
}

fn click(state: &mut State, now: u64) {
    assert!(handle_input(state, &InputEvent::MousePressed(MouseButton::Left), now));
}

fn ends(state: &State, i: usize) -> (Point, Point) {
    (state.lines[i].vertices[0].position, state.lines[i].vertices[1].position)
}

fn pt(x: i64, y: i64) -> Point {
    Point { x: x * 1000, y: y * 1000 }
}

#[test]
fn draw_and_finalize_line() {
    let mut state = session();
    key(&mut state, KeyCode::KeyL);
    assert_eq!(state.mode, Mode::DrawLine(DrawLineMode::Normal));
    assert_eq!(state.drawing_state, DrawingState::Idle);
    hover(&mut state, 0, 0);
    click(&mut state, 0);
    assert_eq!(state.lines.len(), 1);
    assert!(state.lines[0].is_drawing);
    assert_eq!(ends(&state, 0), (pt(0, 0), pt(0, 0)));
    assert_eq!(state.drawing_state, DrawingState::WaitingForSecondPoint(pt(0, 0)));
    assert_eq!(state.active_line_index, Some(0));
    hover(&mut state, 10, 0);
    assert_eq!(ends(&state, 0), (pt(0, 0), pt(10, 0)));
    assert!(state.lines[0].is_drawing);
    click(&mut state, 0);
    assert!(!state.lines[0].is_drawing);
    assert_eq!(ends(&state, 0), (pt(0, 0), pt(10, 0)));
    assert_eq!(state.drawing_state, DrawingState::Idle);
    assert_eq!(state.active_line_index, None);
    // the tool stays: another line can be started at once
    assert_eq!(state.mode, Mode::DrawLine(DrawLineMode::Normal));
    hover(&mut state, 50, 50);
    click(&mut state, 0);
    assert_eq!(state.lines.len(), 2);
    assert_eq!(state.active_line_index, Some(1));
}

#[test]
fn ortho_snaps_to_the_longer_axis() {
    let mut state = session();
    key(&mut state, KeyCode::KeyL);
    key(&mut state, KeyCode::KeyO);
    assert_eq!(state.mode, Mode::DrawLine(DrawLineMode::Ortho));
    hover(&mut state, 0, 0);
    click(&mut state, 0);
    hover(&mut state, 3, 10);
    assert_eq!(ends(&state, 0), (pt(0, 0), pt(0, 10)));
    hover(&mut state, 10, 3);
    assert_eq!(ends(&state, 0), (pt(0, 0), pt(10, 0)));
    // a tie goes to the vertical
    hover(&mut state, 7, 7);
    assert_eq!(ends(&state, 0), (pt(0, 0), pt(0, 7)));
    // toggling back does not reset the gesture
    key(&mut state, KeyCode::KeyO);
    assert_eq!(state.mode, Mode::DrawLine(DrawLineMode::Normal));
    assert_eq!(state.drawing_state, DrawingState::WaitingForSecondPoint(pt(0, 0)));
    hover(&mut state, 3, 10);
    assert_eq!(ends(&state, 0), (pt(0, 0), pt(3, 10)));
}

fn type_length(state: &mut State, text: &str) -> Request {
    for ch in text.chars() {
        state.ui.push_digit(ch);
    }
    state.ui.commit_input();
    apply_ui_action(state)
}

#[test]
fn numeric_override_rescales_the_line() {
    let mut state = session();
    key(&mut state, KeyCode::KeyL);
    hover(&mut state, 0, 0);
    click(&mut state, 0);
    hover(&mut state, 3, 4);
    assert_eq!(ends(&state, 0), (pt(0, 0), pt(3, 4)));
    let request = type_length(&mut state, "10");
    assert!(matches!(request, Request::Nothing));
    assert_eq!(ends(&state, 0), (pt(0, 0), pt(6, 8)));
    assert!(!state.lines[0].is_drawing);
    assert_eq!(state.drawing_state, DrawingState::Idle);
    assert_eq!(state.active_line_index, None);
    assert_eq!(state.mode, Mode::DrawLine(DrawLineMode::Normal));
    assert!(state.ui.numeric_buff.is_empty());
    assert!(!state.ui.numeric_active);
}

#[test]
fn numeric_override_takes_signs_and_exponents() {
    for text in ["+10", "1e1", "1.0E+1", "100e-1", "+.01e3"] {
        let mut state = session();
        key(&mut state, KeyCode::KeyL);
        hover(&mut state, 0, 0);
        click(&mut state, 0);
        hover(&mut state, 3, 4);
        type_length(&mut state, text);
        assert_eq!(ends(&state, 0), (pt(0, 0), pt(6, 8)), "after {:?}", text);
        assert!(!state.lines[0].is_drawing);
        assert_eq!(state.drawing_state, DrawingState::Idle);
        assert_eq!(state.active_line_index, None);
    }
}

#[test]
fn numeric_override_ignores_bad_input() {
    for text in ["", "abc", "-5", "-1e1", "0", "0.0", "0e5", "1e", "1.2.3", "+", " 7", "inf", "nan"] {
        let mut state = session();
        key(&mut state, KeyCode::KeyL);
        hover(&mut state, 0, 0);
        click(&mut state, 0);
        hover(&mut state, 3, 4);
        type_length(&mut state, text);
        assert_eq!(ends(&state, 0), (pt(0, 0), pt(3, 4)), "after {:?}", text);
        assert!(state.lines[0].is_drawing);
        assert_eq!(state.drawing_state, DrawingState::WaitingForSecondPoint(pt(0, 0)));
        assert_eq!(state.active_line_index, Some(0));
    }
}

#[test]
fn numeric_override_without_a_drawing_changes_nothing() {
    let mut state = session();
    state.add_line(pt(0, 0), pt(3, 4), false);
    type_length(&mut state, "10");
    assert_eq!(ends(&state, 0), (pt(0, 0), pt(3, 4)));
    assert_eq!(state.mode, Mode::Normal);
}

#[test]
fn numeric_override_of_a_line_without_direction_keeps_it() {
    let mut state = session();
    key(&mut state, KeyCode::KeyL);
    hover(&mut state, 2, 2);
    click(&mut state, 0);
    type_length(&mut state, "10");
    assert_eq!(ends(&state, 0), (pt(2, 2), pt(2, 2)));
    assert!(!state.lines[0].is_drawing);
    assert_eq!(state.drawing_state, DrawingState::Idle);
}

#[test]
fn numeric_override_sets_the_radius() {
    let mut state = session();
    key(&mut state, KeyCode::KeyC);
    hover(&mut state, 1, 1);
    click(&mut state, 0);
    hover(&mut state, 4, 5);
    assert_eq!(state.circles[0].radius, 5000);
    type_length(&mut state, "2.5");
    assert_eq!(state.circles[0].radius, 2500);
    assert!(!state.circles[0].is_drawing);
    assert_eq!(state.circles[0].center.position, pt(1, 1));
    assert_eq!(state.drawing_state, DrawingState::Idle);
    assert_eq!(state.active_circle_index, None);
    assert_eq!(state.mode, Mode::DrawCircle);
}

#[test]
fn move_selection() {
    let mut state = session();
    state.add_line(pt(0, 0), pt(100, 0), false);
    state.add_line(pt(0, 20), pt(100, 20), false);
    state.add_line(pt(0, 40), pt(100, 40), false);
    key(&mut state, KeyCode::KeyM);
    assert_eq!(state.mode, Mode::Move(MoveMode::Selection));
    hover(&mut state, 50, 0);
    click(&mut state, 0);
    hover(&mut state, 50, 20);
    click(&mut state, 0);
    assert!(state.lines[0].selected && state.lines[1].selected && !state.lines[2].selected);
    // selecting does not leave the move tool
    assert_eq!(state.mode, Mode::Move(MoveMode::Selection));
    key(&mut state, KeyCode::Enter);
    assert_eq!(state.mode, Mode::Move(MoveMode::SelectPoint));
    hover(&mut state, 5, 5);
    click(&mut state, 0);
    assert_eq!(state.mode, Mode::Move(MoveMode::Move(pt(5, 5))));
    // what was selected waits to be deleted, the copies are carried
    assert_eq!(state.lines.len(), 5);
    assert!(state.lines[0].del && !state.lines[0].selected);
    assert!(state.lines[1].del && !state.lines[1].selected);
    assert!(!state.lines[2].del);
    assert!(state.lines[3].selected && state.lines[3].is_drawing && !state.lines[3].del);
    assert!(state.lines[4].selected && state.lines[4].is_drawing && !state.lines[4].del);
    hover(&mut state, 5, -5);
    // the anchor stays where it was clicked
    assert_eq!(state.mode, Mode::Move(MoveMode::Move(pt(5, 5))));
    assert_eq!(ends(&state, 0), (pt(0, 0), pt(100, 0)));
    // anchor less cursor is (0, 10)
    assert_eq!(ends(&state, 3), (pt(0, 10), pt(100, 10)));
    assert_eq!(ends(&state, 4), (pt(0, 30), pt(100, 30)));
    click(&mut state, 0);
    assert_eq!(state.mode, Mode::Normal);
    assert_eq!(state.lines.len(), 3);
    assert_eq!(ends(&state, 0), (pt(0, 40), pt(100, 40)));
    assert_eq!(ends(&state, 1), (pt(0, 10), pt(100, 10)));
    assert_eq!(ends(&state, 2), (pt(0, 30), pt(100, 30)));
    for line in &state.lines {
        assert!(!line.selected && !line.del && !line.is_drawing);
    }
}

#[test]
fn carrying_is_relative_to_the_anchor() {
    let mut state = session();
    state.add_line(pt(0, 0), pt(100, 0), false);
    key(&mut state, KeyCode::KeyM);
    hover(&mut state, 50, 0);
    click(&mut state, 0);
    key(&mut state, KeyCode::Enter);
    hover(&mut state, 10, 10);
    click(&mut state, 0);
    for (x, y) in [(12, 10), (30, -7), (-40, 25), (10, 10), (17, 13)] {
        hover(&mut state, x, y);
        assert_eq!(ends(&state, 1), (pt(10 - x, 10 - y), pt(100 + 10 - x, 10 - y)));
    }
    click(&mut state, 0);
    assert_eq!(state.lines.len(), 1);
    assert_eq!(ends(&state, 0), (pt(-7, -3), pt(93, -3)));
}

#[test]
fn measure() {
    let mut state = session();
    key(&mut state, KeyCode::KeyD);
    assert_eq!(state.mode, Mode::Measure(None));
    hover(&mut state, 0, 0);
    click(&mut state, 100);
    assert_eq!(state.mode, Mode::Measure(Some(pt(0, 0))));
    assert!(state.ui.notifications.is_empty());
    hover(&mut state, 3, 4);
    click(&mut state, 250);
    assert_eq!(state.mode, Mode::Measure(None));
    assert_eq!(state.ui.notifications.len(), 1);
    let note = &state.ui.notifications[0];
    assert_eq!(note.message(), "5");
    assert_eq!(note.created_at(), 250);
    assert_eq!(note.ttl(), 5000);
    // the tool stays for the next measurement
    hover(&mut state, 1, 1);
    click(&mut state, 300);
    hover(&mut state, 2, 2);
    click(&mut state, 400);
    assert_eq!(state.ui.notifications.len(), 2);
    assert_eq!(state.ui.notifications[1].message(), "1.414");
    key(&mut state, KeyCode::Escape);
    assert_eq!(state.mode, Mode::Normal);
}
