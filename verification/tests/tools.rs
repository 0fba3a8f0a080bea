use easycad::events::input::{handle_input, InputEvent, KeyCode, MouseButton};
use easycad::graphics::camera::{screen_to_world, Camera, Size};
use easycad::graphics::gui_elements::UiAction;
use easycad::graphics::renderer::{apply_ui_action, commit_length, enter_length, Request};
use easycad::graphics::vertex::{Color, Point};
use easycad::model::circle::CircleOps;
use easycad::model::line::LineOps;
use easycad::model::text::Rect;
use easycad::{
    CopyMode, DrawLineMode, DrawingState, Mode, Modifiers, MoveMode, ScreenPoint, State,
};

fn session() -> State {
    State::new(Size { width: 800, height: 600 })
}

fn send(state: &mut State, event: InputEvent) -> bool {
    handle_input(state, &event, 0)
}

fn press(state: &mut State, key: KeyCode) {
    assert!(send(state, InputEvent::KeyPressed(key)));
}

fn hover_px(state: &mut State, x: i64, y: i64) {
    assert!(send(state, InputEvent::CursorMoved(ScreenPoint { x, y })));
}

// world units at the initial camera
fn hover(state: &mut State, x: i64, y: i64) {
    hover_px(state, 400 + x, 300 - y);
}

fn click(state: &mut State) {
    assert!(send(state, InputEvent::MousePressed(MouseButton::Left)));
}

fn pt(x: i64, y: i64) -> Point {
    Point { x: x * 1000, y: y * 1000 }
}

fn ends(state: &State, i: usize) -> (Point, Point) {
    (state.lines[i].vertices[0].position, state.lines[i].vertices[1].position)
}

#[test]
fn a_new_session_is_empty() {
    let state = session();
    assert!(state.lines.is_empty() && state.circles.is_empty() && state.texts.is_empty());
    assert_eq!(state.indicators.len(), 4);
    assert_eq!(state.mode, Mode::Normal);
    assert_eq!(state.drawing_state, DrawingState::Idle);
    assert_eq!(state.camera, Camera { x_offset: 0, y_offset: 0, zoom: 1_000_000 });
    assert_eq!(state.size, Size { width: 800, height: 600 });
    assert_eq!(state.cursor_position, None);
    assert_eq!(state.snap, None);
    assert_eq!((state.active_line_index, state.active_circle_index), (None, None));
    assert!(!state.dragging && !state.modifiers.control_key());
    assert_eq!(state.pointer(), None);
}

#[test]
fn resize_refuses_an_empty_viewport() {
    let mut state = session();
    state.resize(Size { width: 1024, height: 768 });
    assert_eq!(state.size, Size { width: 1024, height: 768 });
    state.resize(Size { width: 0, height: 768 });
    assert_eq!(state.size, Size { width: 1024, height: 768 });
    state.resize(Size { width: 10, height: 0 });
    assert_eq!(state.size, Size { width: 1024, height: 768 });
}

#[test]
fn tool_keys_choose_a_tool_from_the_normal_mode() {
    let tools = [
        (KeyCode::KeyL, Mode::DrawLine(DrawLineMode::Normal)),
        (KeyCode::KeyC, Mode::DrawCircle),
        (KeyCode::KeyK, Mode::Copy(CopyMode::Selection)),
        (KeyCode::KeyM, Mode::Move(MoveMode::Selection)),
        (KeyCode::KeyS, Mode::Selection),
        (KeyCode::KeyD, Mode::Measure(None)),
        (KeyCode::KeyT, Mode::CreateText),
        (KeyCode::Delete, Mode::Delete),
    ];
    for (key, mode) in tools {
        let mut state = session();
        press(&mut state, key);
        assert_eq!(state.mode, mode);
        // a tool is left with Escape only
        for (other, _) in tools {
            press(&mut state, other);
            assert_eq!(state.mode, mode);
        }
        press(&mut state, KeyCode::Escape);
        assert_eq!(state.mode, Mode::Normal);
    }
    let mut state = session();
    press(&mut state, KeyCode::Other);
    press(&mut state, KeyCode::Enter);
    press(&mut state, KeyCode::KeyO);
    assert_eq!(state.mode, Mode::Normal);
}

#[test]
fn events_that_are_not_the_sessions() {
    let mut state = session();
    assert!(!send(&mut state, InputEvent::Other));
    assert!(!send(&mut state, InputEvent::MouseReleased(MouseButton::Left)));
    assert!(!send(&mut state, InputEvent::MouseReleased(MouseButton::Right)));
    assert!(!send(&mut state, InputEvent::MousePressed(MouseButton::Right)));
    assert!(!send(&mut state, InputEvent::ModifiersChanged(Modifiers { control: true })));
    assert!(state.modifiers.control);
    assert!(send(&mut state, InputEvent::MousePressed(MouseButton::Middle)));
    assert!(state.dragging);
    assert!(send(&mut state, InputEvent::MouseReleased(MouseButton::Middle)));
    assert!(!state.dragging);
    // a click before the cursor was ever seen
    assert!(send(&mut state, InputEvent::MousePressed(MouseButton::Left)));
    assert!(send(&mut state, InputEvent::MouseWheel(1)));
    assert_eq!(state.camera.zoom, 1_000_000);
}

#[test]
fn escape_gives_up_the_line_being_drawn() {
    let mut state = session();
    state.add_line(pt(0, 0), pt(1, 1), false);
    press(&mut state, KeyCode::KeyL);
    hover(&mut state, 20, 20);
    click(&mut state);
    hover(&mut state, 30, 30);
    assert_eq!(state.lines.len(), 2);
    press(&mut state, KeyCode::Escape);
    assert_eq!(state.lines.len(), 1);
    assert_eq!(ends(&state, 0), (pt(0, 0), pt(1, 1)));
    assert_eq!(state.mode, Mode::Normal);
    assert_eq!(state.drawing_state, DrawingState::Idle);
    assert_eq!(state.active_line_index, None);
}

#[test]
fn escape_gives_up_the_circle_being_drawn() {
    let mut state = session();
    state.add_circle(pt(0, 0), 1000, Color::white(), false, false, false);
    press(&mut state, KeyCode::KeyC);
    hover(&mut state, 20, 20);
    click(&mut state);
    hover(&mut state, 30, 30);
    assert_eq!(state.circles.len(), 2);
    press(&mut state, KeyCode::Escape);
    assert_eq!(state.circles.len(), 1);
    assert_eq!(state.circles[0].radius, 1000);
    assert_eq!(state.mode, Mode::Normal);
    assert_eq!(state.drawing_state, DrawingState::Idle);
    assert_eq!(state.active_circle_index, None);
}

#[test]
fn cancelling_with_nothing_in_progress_removes_nothing() {
    for tool in [KeyCode::KeyL, KeyCode::KeyC, KeyCode::KeyM, KeyCode::KeyD, KeyCode::Other] {
        let mut state = session();
        state.add_line(pt(0, 0), pt(1, 1), false);
        state.add_line(pt(2, 2), pt(3, 3), false);
        state.add_circle(pt(0, 0), 1000, Color::white(), false, false, false);
        press(&mut state, tool);
        press(&mut state, KeyCode::Escape);
        assert_eq!((state.lines.len(), state.circles.len()), (2, 1));
        assert_eq!(state.mode, Mode::Normal);
        assert_eq!(state.drawing_state, DrawingState::Idle);
        press(&mut state, KeyCode::Escape);
        assert_eq!((state.lines.len(), state.circles.len()), (2, 1));
        assert_eq!(ends(&state, 1), (pt(2, 2), pt(3, 3)));
        assert_eq!(state.mode, Mode::Normal);
    }
}

#[test]
fn a_finished_line_survives_escape() {
    let mut state = session();
    press(&mut state, KeyCode::KeyL);
    hover(&mut state, 0, 0);
    click(&mut state);
    hover(&mut state, 50, 0);
    click(&mut state);
    press(&mut state, KeyCode::Escape);
    assert_eq!(state.lines.len(), 1);
    assert_eq!(ends(&state, 0), (pt(0, 0), pt(50, 0)));
}

#[test]
fn draw_a_circle() {
    let mut state = session();
    press(&mut state, KeyCode::KeyC);
    hover(&mut state, 10, 10);
    click(&mut state);
    assert_eq!(state.circles.len(), 1);
    assert_eq!(state.circles[0].center.position, pt(10, 10));
    assert_eq!(state.circles[0].radius, 0);
    assert!(state.circles[0].is_drawing);
    assert_eq!(state.drawing_state, DrawingState::WaitingForRadius(pt(10, 10)));
    assert_eq!(state.active_circle_index, Some(0));
    hover(&mut state, 13, 14);
    assert_eq!(state.circles[0].radius, 5000);
    hover(&mut state, 11, 11);
    assert_eq!(state.circles[0].radius, 1414);
    click(&mut state);
    assert!(!state.circles[0].is_drawing);
    assert_eq!(state.circles[0].radius, 1414);
    assert_eq!(state.drawing_state, DrawingState::Idle);
    assert_eq!(state.active_circle_index, None);
    assert_eq!(state.mode, Mode::DrawCircle);
}

#[test]
fn the_live_endpoint_snaps_to_geometry() {
    let mut state = session();
    state.add_line(pt(100, 100), pt(200, 100), false);
    state.add_circle(pt(0, -100), 50_000, Color::white(), false, false, false);
    press(&mut state, KeyCode::KeyL);
    hover(&mut state, 0, 0);
    click(&mut state);
    hover(&mut state, 97, 103);
    assert_eq!(state.snap.map(|v| v.position), Some(pt(100, 100)));
    assert_eq!(state.cursor_position, Some(pt(97, 103)));
    assert_eq!(state.pointer(), Some(pt(100, 100)));
    assert_eq!(ends(&state, 1), (pt(0, 0), pt(100, 100)));
    // the cross is centred on the snap point, five pixels each way
    let tips: Vec<Point> = state.indicators.iter().map(|l| l.vertices[1].position).collect();
    assert_eq!(tips, vec![pt(95, 100), pt(105, 100), pt(100, 95), pt(100, 105)]);
    for arm in &state.indicators {
        assert_eq!(arm.vertices[0].position, pt(100, 100));
    }
    // the top of the circle
    hover(&mut state, 2, -52);
    assert_eq!(state.snap.map(|v| v.position), Some(pt(0, -50)));
    assert_eq!(ends(&state, 1), (pt(0, 0), pt(0, -50)));
    // out of reach of anything: the raw cursor, and no cross
    hover(&mut state, 60, 60);
    assert_eq!(state.snap, None);
    assert_eq!(ends(&state, 1), (pt(0, 0), pt(60, 60)));
    for arm in &state.indicators {
        assert_eq!(arm.vertices[0].position, pt(0, 0));
        assert_eq!(arm.vertices[1].position, pt(0, 0));
    }
    // the click keeps the snapped endpoint
    hover(&mut state, 203, 98);
    click(&mut state);
    assert_eq!(ends(&state, 1), (pt(0, 0), pt(200, 100)));
    assert!(!state.lines[1].is_drawing);
}

#[test]
fn the_finishing_click_leaves_the_endpoint_alone() {
    let mut state = session();
    state.add_line(Point { x: 10_000, y: 3 }, pt(10, 50), false);
    press(&mut state, KeyCode::KeyL);
    press(&mut state, KeyCode::KeyO);
    hover(&mut state, 0, 0);
    click(&mut state);
    // beside the vertex: the snap point is forced onto the horizontal
    hover(&mut state, 10, 0);
    assert_eq!(state.snap.map(|v| v.position), Some(Point { x: 10_000, y: 3 }));
    assert_eq!(ends(&state, 1), (pt(0, 0), pt(10, 0)));
    press(&mut state, KeyCode::KeyO);
    assert_eq!(state.mode, Mode::DrawLine(DrawLineMode::Normal));
    click(&mut state);
    assert_eq!(ends(&state, 1), (pt(0, 0), pt(10, 0)));
    assert!(!state.lines[1].is_drawing);
    assert_eq!(state.lines.len(), 2);
    assert_eq!(state.drawing_state, DrawingState::Idle);
    assert_eq!(state.active_line_index, None);
    assert_eq!(state.mode, Mode::DrawLine(DrawLineMode::Normal));
}

#[test]
fn the_finishing_click_leaves_the_radius_alone() {
    let mut state = session();
    press(&mut state, KeyCode::KeyC);
    hover(&mut state, 0, 0);
    click(&mut state);
    hover(&mut state, 30, 40);
    assert_eq!(state.circles[0].radius, 50_000);
    // the snap point changes behind the cursor's back
    state.snap = None;
    state.cursor_position = Some(pt(1, 1));
    click(&mut state);
    assert_eq!(state.circles[0].radius, 50_000);
    assert!(!state.circles[0].is_drawing);
    assert_eq!(state.drawing_state, DrawingState::Idle);
    assert_eq!(state.active_circle_index, None);
    assert_eq!(state.mode, Mode::DrawCircle);
}

#[test]
fn the_line_being_drawn_is_no_snap_target() {
    let mut state = session();
    press(&mut state, KeyCode::KeyL);
    hover(&mut state, 0, 0);
    click(&mut state);
    hover(&mut state, 2, 2);
    assert_eq!(state.snap, None);
    assert_eq!(ends(&state, 0), (pt(0, 0), pt(2, 2)));
    click(&mut state);
    // once finished it is
    hover(&mut state, 1, -1);
    assert_eq!(state.snap.map(|v| v.position), Some(pt(0, 0)));
}

#[test]
fn the_snap_reach_shrinks_with_the_zoom() {
    let mut state = session();
    state.add_line(pt(0, 0), pt(100, 0), false);
    hover(&mut state, 4, 4);
    assert_eq!(state.snap.map(|v| v.position), Some(pt(0, 0)));
    state.camera = Camera::new(0, 0, 2_000_000);
    // 4 units are now 8 pixels
    hover_px(&mut state, 408, 292);
    assert_eq!(state.cursor_position, Some(pt(4, 4)));
    assert_eq!(state.snap, None);
    hover_px(&mut state, 404, 296);
    assert_eq!(state.snap.map(|v| v.position), Some(pt(0, 0)));
}

#[test]
fn a_click_selects_everything_under_it() {
    let mut state = session();
    state.add_line(pt(-100, 0), pt(100, 0), false);
    state.add_line(pt(0, -100), pt(0, 100), false);
    state.add_line(pt(-100, 50), pt(100, 50), false);
    state.add_circle(pt(0, 30), 30_000, Color::white(), false, false, false);
    state.add_circle(pt(0, 0), 90_000, Color::white(), false, false, false);
    hover(&mut state, 2, -3);
    click(&mut state);
    assert_eq!(state.mode, Mode::Selection);
    let selected: Vec<bool> = state.lines.iter().map(|l| l.selected).collect();
    assert_eq!(selected, vec![true, true, false]);
    // inside the second circle, on the rim of the first
    assert!(state.circles[0].selected && !state.circles[1].selected);
    // a click into the void changes nothing
    hover(&mut state, 300, 200);
    click(&mut state);
    assert_eq!(state.mode, Mode::Selection);
    assert!(state.lines[0].selected && state.lines[1].selected && state.circles[0].selected);
    hover(&mut state, 90, 0);
    click(&mut state);
    assert!(state.circles[1].selected);
    press(&mut state, KeyCode::Escape);
    assert_eq!(state.mode, Mode::Normal);
    assert!(state.lines.iter().all(|l| !l.selected));
    assert!(state.circles.iter().all(|c| !c.selected));
    assert_eq!((state.lines.len(), state.circles.len()), (3, 2));
}

#[test]
fn a_click_that_hits_nothing_leaves_the_mode() {
    let mut state = session();
    state.add_line(pt(-100, 0), pt(100, 0), false);
    hover(&mut state, 0, 5);
    click(&mut state);
    assert_eq!(state.mode, Mode::Normal);
    assert!(!state.lines[0].selected);
    hover(&mut state, 0, 4);
    click(&mut state);
    assert_eq!(state.mode, Mode::Selection);
    // hitting what is selected already selects nothing new
    let mut state = session();
    state.add_line(pt(-100, 0), pt(100, 0), false);
    state.lines[0].selected = true;
    hover(&mut state, 0, 0);
    click(&mut state);
    assert_eq!(state.mode, Mode::Normal);
    assert!(state.lines[0].selected);
}

#[test]
fn copy_selection() {
    let mut state = session();
    state.add_line(pt(0, 0), pt(100, 0), false);
    state.add_circle(pt(0, 50), 10_000, Color::white(), false, false, false);
    state.add_circle(pt(200, 200), 10_000, Color::white(), false, false, false);
    press(&mut state, KeyCode::KeyK);
    hover(&mut state, 50, 0);
    click(&mut state);
    hover(&mut state, 0, 60);
    click(&mut state);
    assert_eq!(state.mode, Mode::Copy(CopyMode::Selection));
    press(&mut state, KeyCode::Enter);
    assert_eq!(state.mode, Mode::Copy(CopyMode::SelectPoint));
    hover(&mut state, 0, 0);
    click(&mut state);
    assert_eq!(state.mode, Mode::Copy(CopyMode::Copy(pt(0, 0))));
    assert_eq!((state.lines.len(), state.circles.len()), (2, 3));
    assert!(!state.lines[0].del && !state.lines[0].selected);
    assert!(!state.circles[0].del && !state.circles[0].selected);
    assert!(state.lines[1].selected && state.lines[1].is_drawing);
    assert!(state.circles[2].selected && state.circles[2].is_drawing);
    hover(&mut state, 30, 40);
    assert_eq!(state.mode, Mode::Copy(CopyMode::Copy(pt(0, 0))));
    hover(&mut state, -20, 10);
    click(&mut state);
    assert_eq!(state.mode, Mode::Normal);
    assert_eq!((state.lines.len(), state.circles.len()), (2, 3));
    assert_eq!(ends(&state, 0), (pt(0, 0), pt(100, 0)));
    // anchor less cursor is (20, -10)
    assert_eq!(ends(&state, 1), (pt(20, -10), pt(120, -10)));
    assert_eq!(state.circles[0].center.position, pt(0, 50));
    assert_eq!(state.circles[1].center.position, pt(200, 200));
    assert_eq!(state.circles[2].center.position, pt(20, 40));
    assert_eq!(state.circles[2].radius, 10_000);
    for line in &state.lines {
        assert!(!line.selected && !line.del && !line.is_drawing);
    }
    for circle in &state.circles {
        assert!(!circle.selected && !circle.del && !circle.is_drawing);
    }
}

#[test]
fn moving_an_empty_selection_changes_nothing() {
    let mut state = session();
    state.add_line(pt(0, 0), pt(100, 0), false);
    press(&mut state, KeyCode::KeyM);
    press(&mut state, KeyCode::Enter);
    hover(&mut state, 10, 10);
    click(&mut state);
    assert_eq!(state.mode, Mode::Move(MoveMode::Move(pt(10, 10))));
    hover(&mut state, 50, 50);
    click(&mut state);
    assert_eq!(state.mode, Mode::Normal);
    assert_eq!(state.lines.len(), 1);
    assert_eq!(ends(&state, 0), (pt(0, 0), pt(100, 0)));
}

#[test]
fn enter_outside_a_selection_does_nothing() {
    for tool in [KeyCode::KeyL, KeyCode::KeyS, KeyCode::KeyD, KeyCode::Other] {
        let mut state = session();
        press(&mut state, tool);
        let before = state.mode;
        press(&mut state, KeyCode::Enter);
        assert_eq!(state.mode, before);
    }
    let mut state = session();
    press(&mut state, KeyCode::KeyM);
    press(&mut state, KeyCode::Enter);
    press(&mut state, KeyCode::Enter);
    assert_eq!(state.mode, Mode::Move(MoveMode::SelectPoint));
}

#[test]
fn the_delete_tool_removes_what_is_clicked() {
    let mut state = session();
    state.add_line(pt(-100, 0), pt(100, 0), false);
    state.add_line(pt(0, -100), pt(0, 100), false);
    state.add_line(pt(-100, 50), pt(100, 50), false);
    state.add_circle(pt(0, 30), 30_000, Color::white(), false, false, false);
    state.add_circle(pt(0, 0), 90_000, Color::white(), false, false, false);
    state.lines[2].selected = true;
    press(&mut state, KeyCode::Delete);
    hover(&mut state, 1, 1);
    click(&mut state);
    assert_eq!(state.mode, Mode::Delete);
    assert_eq!((state.lines.len(), state.circles.len()), (1, 1));
    assert_eq!(ends(&state, 0), (pt(-100, 50), pt(100, 50)));
    assert!(state.lines[0].selected);
    assert_eq!(state.circles[0].radius, 90_000);
    hover(&mut state, 300, 0);
    click(&mut state);
    assert_eq!((state.lines.len(), state.circles.len()), (1, 1));
    hover(&mut state, 50, 52);
    click(&mut state);
    assert!(state.lines.is_empty());
    press(&mut state, KeyCode::Escape);
    assert_eq!(state.mode, Mode::Normal);
}

#[test]
fn the_text_tool_places_a_text() {
    let mut state = session();
    state.add_line(pt(10, 10), pt(50, 50), false);
    press(&mut state, KeyCode::KeyT);
    hover(&mut state, 30, -20);
    click(&mut state);
    assert_eq!(state.mode, Mode::Normal);
    assert_eq!(state.texts.len(), 1);
    assert_eq!(state.texts[0].position, pt(30, -20));
    assert!(state.texts[0].editing && state.texts[0].annotative);
    assert!(state.texts[0].contents.is_empty());
    assert_eq!(state.texts[0].screen_bounds, None);
    // at the snap point where there is one
    press(&mut state, KeyCode::KeyT);
    hover(&mut state, 12, 9);
    click(&mut state);
    assert_eq!(state.texts[1].position, pt(10, 10));
}

#[test]
fn a_right_click_opens_the_text_under_the_cursor() {
    let mut state = session();
    press(&mut state, KeyCode::KeyT);
    hover(&mut state, 0, 0);
    click(&mut state);
    press(&mut state, KeyCode::KeyT);
    hover(&mut state, 100, 0);
    click(&mut state);
    for text in &mut state.texts {
        text.editing = false;
    }
    // no bounds yet: nothing to hit
    assert!(!send(&mut state, InputEvent::MousePressed(MouseButton::Right)));
    state.texts[0].screen_bounds = Some(Rect { min_x: 400, min_y: 280, max_x: 460, max_y: 300 });
    state.texts[1].screen_bounds = Some(Rect { min_x: 500, min_y: 280, max_x: 560, max_y: 300 });
    assert!(send(&mut state, InputEvent::MousePressed(MouseButton::Right)));
    assert!(!state.texts[0].editing && state.texts[1].editing);
    hover_px(&mut state, 430, 290);
    assert!(send(&mut state, InputEvent::MousePressed(MouseButton::Right)));
    assert!(state.texts[0].editing);
    hover_px(&mut state, 430, 310);
    state.texts[0].editing = false;
    assert!(!send(&mut state, InputEvent::MousePressed(MouseButton::Right)));
    assert!(!state.texts[0].editing);
}

#[test]
fn dragging_with_the_middle_button_pans() {
    let mut state = session();
    hover_px(&mut state, 400, 300);
    assert!(send(&mut state, InputEvent::MousePressed(MouseButton::Middle)));
    hover_px(&mut state, 410, 320);
    // the world follows the cursor: ten pixels right, twenty down
    assert_eq!((state.camera.x_offset, state.camera.y_offset), (-10_000, 20_000));
    hover_px(&mut state, 390, 300);
    assert_eq!((state.camera.x_offset, state.camera.y_offset), (10_000, 0));
    // the cursor in the world is not tracked while panning
    assert_eq!(state.cursor_position, Some(pt(0, 0)));
    assert!(send(&mut state, InputEvent::MouseReleased(MouseButton::Middle)));
    hover_px(&mut state, 390, 300);
    assert_eq!((state.camera.x_offset, state.camera.y_offset), (10_000, 0));
    assert_eq!(state.cursor_position, Some(pt(0, 0)));
}

#[test]
fn moving_with_control_pans() {
    let mut state = session();
    state.camera = Camera::new(0, 0, 2_000_000);
    assert!(!send(&mut state, InputEvent::ModifiersChanged(Modifiers { control: true })));
    // the first movement only records where the cursor is
    hover_px(&mut state, 100, 100);
    assert_eq!((state.camera.x_offset, state.camera.y_offset), (0, 0));
    hover_px(&mut state, 120, 100);
    assert_eq!((state.camera.x_offset, state.camera.y_offset), (-10_000, 0));
    assert!(!send(&mut state, InputEvent::ModifiersChanged(Modifiers { control: false })));
    hover_px(&mut state, 140, 100);
    assert_eq!((state.camera.x_offset, state.camera.y_offset), (-10_000, 0));
}

#[test]
fn the_wheel_zooms_about_the_cursor() {
    let mut state = session();
    hover_px(&mut state, 600, 150);
    let under = state.cursor_position.unwrap();
    assert_eq!(under, pt(200, 150));
    assert!(send(&mut state, InputEvent::MouseWheel(1)));
    assert_eq!(state.camera.zoom, 1_100_000);
    assert_eq!(screen_to_world(600, 150, state.size, &state.camera), under);
    assert_eq!(state.cursor_position, Some(under));
    assert!(send(&mut state, InputEvent::MouseWheel(-3)));
    assert_eq!(state.camera.zoom, 990_000);
    assert_eq!(screen_to_world(600, 150, state.size, &state.camera), under);
    assert!(send(&mut state, InputEvent::MouseWheel(0)));
    assert_eq!(state.camera.zoom, 1_089_000);
    for _ in 0..100 {
        send(&mut state, InputEvent::MouseWheel(1));
        assert_eq!(screen_to_world(600, 150, state.size, &state.camera), under);
    }
    assert_eq!(state.camera.zoom, 1_000_000_000);
    for _ in 0..250 {
        send(&mut state, InputEvent::MouseWheel(-1));
        assert_eq!(screen_to_world(600, 150, state.size, &state.camera), under);
    }
    assert_eq!(state.camera.zoom, 10_000);
}

#[test]
fn control_s_and_control_o_ask_for_files() {
    let mut state = session();
    send(&mut state, InputEvent::ModifiersChanged(Modifiers { control: true }));
    press(&mut state, KeyCode::KeyS);
    assert_eq!(state.mode, Mode::Normal);
    assert!(matches!(state.ui.action, Some(UiAction::SaveFile)));
    assert!(matches!(apply_ui_action(&mut state), Request::SaveFile));
    assert!(state.ui.action.is_none());
    assert!(matches!(apply_ui_action(&mut state), Request::Nothing));
    press(&mut state, KeyCode::KeyO);
    assert!(matches!(apply_ui_action(&mut state), Request::OpenFile));
    assert_eq!(state.mode, Mode::Normal);
    // control and O while drawing lines also toggles ortho
    send(&mut state, InputEvent::ModifiersChanged(Modifiers { control: false }));
    press(&mut state, KeyCode::KeyL);
    send(&mut state, InputEvent::ModifiersChanged(Modifiers { control: true }));
    press(&mut state, KeyCode::KeyO);
    assert_eq!(state.mode, Mode::DrawLine(DrawLineMode::Ortho));
    assert!(matches!(apply_ui_action(&mut state), Request::OpenFile));
}

#[test]
fn toolbar_actions() {
    let mut state = session();
    press(&mut state, KeyCode::KeyS);
    state.ui.action = Some(UiAction::DrawLine);
    assert!(matches!(apply_ui_action(&mut state), Request::Nothing));
    assert_eq!(state.mode, Mode::DrawLine(DrawLineMode::Normal));
    state.ui.action = Some(UiAction::DrawCircle);
    assert!(matches!(apply_ui_action(&mut state), Request::Nothing));
    assert_eq!(state.mode, Mode::DrawCircle);
    state.ui.action = Some(UiAction::OpenFilePath(String::from("plan.dxf")));
    match apply_ui_action(&mut state) {
        Request::LoadFile(path) => assert_eq!(path, "plan.dxf"),
        other => panic!("{:?}", other),
    }
    state.ui.action = Some(UiAction::ChangeTheme);
    assert!(matches!(apply_ui_action(&mut state), Request::Repaint));
    state.ui.action = Some(UiAction::OpenFile);
    assert!(matches!(apply_ui_action(&mut state), Request::OpenFile));
    assert_eq!(state.mode, Mode::DrawCircle);
    assert!(state.ui.action.is_none());
}

#[test]
fn lengths_are_committed_to_what_is_being_drawn() {
    let mut state = session();
    commit_length(&mut state, 5_000);
    enter_length(&mut state, "5");
    assert!(state.lines.is_empty() && state.circles.is_empty());
    press(&mut state, KeyCode::KeyL);
    press(&mut state, KeyCode::KeyO);
    hover(&mut state, 1, 1);
    click(&mut state);
    hover(&mut state, -5, 3);
    assert_eq!(ends(&state, 0), (pt(1, 1), pt(-5, 1)));
    enter_length(&mut state, "2.25");
    assert_eq!(ends(&state, 0), (pt(1, 1), Point { x: -1_250, y: 1_000 }));
    assert!(!state.lines[0].is_drawing);
    assert_eq!(state.drawing_state, DrawingState::Idle);
    assert_eq!(state.mode, Mode::DrawLine(DrawLineMode::Ortho));
    // a stale index is no line
    state.drawing_state = DrawingState::WaitingForSecondPoint(pt(1, 1));
    state.active_line_index = Some(5);
    commit_length(&mut state, 9_000);
    assert_eq!(ends(&state, 0), (pt(1, 1), Point { x: -1_250, y: 1_000 }));
    assert_eq!(state.drawing_state, DrawingState::WaitingForSecondPoint(pt(1, 1)));
}

#[test]
fn input_is_handle_input() {
    let mut state = session();
    assert!(state.input(&InputEvent::KeyPressed(KeyCode::KeyC), 0));
    assert_eq!(state.mode, Mode::DrawCircle);
    assert!(!state.input(&InputEvent::Other, 0));
}

#[test]
fn sessions_stay_well_formed() {
    let mut state = session();
    assert!(state.is_well_formed());
    state.add_line(pt(0, 0), pt(10, 10), false);
    state.add_circle(pt(5, 5), 3_000, Color::white(), false, false, false);
    press(&mut state, KeyCode::KeyL);
    hover(&mut state, 1_000_000_000, -1_000_000_000);
    click(&mut state);
    hover(&mut state, -7, 3);
    assert!(send(&mut state, InputEvent::MouseWheel(-1)));
    assert!(state.is_well_formed());
    // what the operations would not accept
    let mut broken = session();
    broken.camera.zoom = 0;
    assert!(!broken.is_well_formed());
    let mut broken = session();
    broken.add_line(pt(0, 0), pt(1, 1), false);
    broken.lines[0].vertices[1].position.x = 1_000_000_001;
    assert!(!broken.is_well_formed());
    let mut broken = session();
    broken.add_circle(pt(0, 0), 5, Color::white(), false, false, false);
    broken.circles[0].radius = -1;
    assert!(!broken.is_well_formed());
    let mut broken = session();
    broken.indicators.pop();
    assert!(!broken.is_well_formed());
    let mut broken = session();
    broken.cursor_position = Some(Point { x: 0, y: -1_000_000_001 });
    assert!(!broken.is_well_formed());
    let mut broken = session();
    broken.mode = Mode::Measure(Some(Point { x: i64::MAX, y: 0 }));
    assert!(!broken.is_well_formed());
    let mut broken = session();
    broken.drawing_state = DrawingState::WaitingForRadius(Point { x: i64::MIN, y: 0 });
    assert!(!broken.is_well_formed());
    let mut broken = session();
    broken.lifted_lines.push(easycad::model::line::Line::new(pt(0, 0), pt(1, 1), true));
    assert!(broken.is_well_formed());
    broken.lifted_lines[0].vertices[0].position.y = -1_000_000_001;
    assert!(!broken.is_well_formed());
    let mut broken = session();
    broken.lifted_circles.push(easycad::model::circle::Circle::new(
        pt(0, 0),
        5,
        Color::white(),
        true,
        false,
        true,
    ));
    assert!(broken.is_well_formed());
    broken.lifted_circles[0].radius = 3_000_000_001;
    assert!(!broken.is_well_formed());
    // stale indices are harmless
    let mut fine = session();
    fine.active_line_index = Some(9);
    fine.active_circle_index = Some(9);
    assert!(fine.is_well_formed());
}
