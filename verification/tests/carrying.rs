use easycad::events::input::{handle_input, InputEvent, KeyCode, MouseButton};
use easycad::graphics::camera::Size;
use easycad::graphics::vertex::{Color, Point};
use easycad::model::circle::{Circle, CircleOps};
use easycad::model::line::{Line, LineOps};
use easycad::transform::{
    carry_selected_circles, carry_selected_lines, drop_selected_circles, drop_selected_lines,
    lift_selected_circles, lift_selected_lines,
};
use easycad::{CopyMode, Mode, MoveMode, ScreenPoint, State};

fn p(x: i64, y: i64) -> Point {
    Point { x, y }
}

fn ends(line: &Line) -> (Point, Point) {
    (line.vertices[0].position, line.vertices[1].position)
}

fn chosen(a: Point, b: Point) -> Line {
    let mut line = Line::new(a, b, false);
    line.selected = true;
    line
}

#[test]
fn lifting_hands_out_the_selected_lines() {
    let mut lines = vec![
        chosen(p(0, 0), p(10, 0)),
        Line::new(p(0, 5), p(10, 5), false),
        chosen(p(0, 9), p(10, 9)),
    ];
    let lifted = lift_selected_lines(&mut lines, true);
    assert_eq!(lifted.len(), 2);
    assert_eq!(ends(&lifted[0]), (p(0, 0), p(10, 0)));
    assert_eq!(ends(&lifted[1]), (p(0, 9), p(10, 9)));
    assert!(lifted.iter().all(|l| l.selected && l.is_drawing && !l.del));
    assert_eq!(lines.len(), 5);
    assert!(lines[0].del && !lines[0].selected);
    assert!(!lines[1].del && !lines[1].selected);
    assert!(lines[2].del && !lines[2].selected);
    assert_eq!(ends(&lines[3]), ends(&lifted[0]));
    assert_eq!(ends(&lines[4]), ends(&lifted[1]));
    // a copy marks nothing for deletion
    let mut lines = vec![chosen(p(0, 0), p(10, 0))];
    let lifted = lift_selected_lines(&mut lines, false);
    assert_eq!((lines.len(), lifted.len()), (2, 1));
    assert!(!lines[0].del && !lines[0].selected);
}

#[test]
fn carried_lines_lie_where_they_were_lifted_plus_the_translation() {
    let mut lines = vec![
        chosen(p(0, 0), p(10, 0)),
        Line::new(p(0, 5), p(10, 5), false),
        chosen(p(0, 9), p(10, 9)),
    ];
    let lifted = lift_selected_lines(&mut lines, true);
    for (dx, dy) in [(3, 4), (-100, 7), (0, 0), (1_000, -1_000)] {
        carry_selected_lines(&mut lines, &lifted, dx, dy);
        assert_eq!(ends(&lines[0]), (p(0, 0), p(10, 0)));
        assert_eq!(ends(&lines[1]), (p(0, 5), p(10, 5)));
        assert_eq!(ends(&lines[2]), (p(0, 9), p(10, 9)));
        assert_eq!(ends(&lines[3]), (p(dx, dy), p(10 + dx, dy)));
        assert_eq!(ends(&lines[4]), (p(dx, 9 + dy), p(10 + dx, 9 + dy)));
        assert!(lines[3].selected && lines[3].is_drawing);
    }
    drop_selected_lines(&mut lines);
    assert_eq!(lines.len(), 3);
    assert_eq!(ends(&lines[0]), (p(0, 5), p(10, 5)));
    assert_eq!(ends(&lines[1]), (p(1_000, -1_000), p(1_010, -1_000)));
    assert_eq!(ends(&lines[2]), (p(1_000, -991), p(1_010, -991)));
    assert!(lines.iter().all(|l| !l.selected && !l.del && !l.is_drawing));
}

#[test]
fn carrying_to_the_edge_of_the_world_and_back_loses_nothing() {
    let mut lines = vec![chosen(p(999_999_000, 0), p(1_000_000_000, 0))];
    let lifted = lift_selected_lines(&mut lines, true);
    carry_selected_lines(&mut lines, &lifted, 5_000, 0);
    // both ends are held at the edge
    assert_eq!(ends(&lines[1]), (p(1_000_000_000, 0), p(1_000_000_000, 0)));
    carry_selected_lines(&mut lines, &lifted, i64::MAX, i64::MIN);
    assert_eq!(ends(&lines[1]), (p(1_000_000_000, -1_000_000_000), p(1_000_000_000, -1_000_000_000)));
    carry_selected_lines(&mut lines, &lifted, -1_000, 0);
    assert_eq!(ends(&lines[1]), (p(999_998_000, 0), p(999_999_000, 0)));
    carry_selected_lines(&mut lines, &lifted, 0, 0);
    assert_eq!(ends(&lines[1]), (p(999_999_000, 0), p(1_000_000_000, 0)));
}

#[test]
fn carried_circles_lie_where_they_were_lifted_plus_the_translation() {
    let mut circles = vec![
        Circle::new(p(0, 0), 5, Color::white(), false, false, false),
        Circle::new(p(10, 10), 7, Color::white(), true, false, false),
    ];
    let lifted = lift_selected_circles(&mut circles, true);
    assert_eq!(lifted.len(), 1);
    assert_eq!((lifted[0].center.position, lifted[0].radius), (p(10, 10), 7));
    assert!(lifted[0].selected && lifted[0].is_drawing);
    assert_eq!(circles.len(), 3);
    assert!(circles[1].del && !circles[1].selected);
    carry_selected_circles(&mut circles, &lifted, 5, -5);
    carry_selected_circles(&mut circles, &lifted, -2, 30);
    assert_eq!(circles[0].center.position, p(0, 0));
    assert_eq!(circles[1].center.position, p(10, 10));
    assert_eq!((circles[2].center.position, circles[2].radius), (p(8, 40), 7));
    carry_selected_circles(&mut circles, &lifted, 2_000_000_000, 0);
    assert_eq!(circles[2].center.position, p(1_000_000_000, 10));
    carry_selected_circles(&mut circles, &lifted, 1, 1);
    drop_selected_circles(&mut circles);
    assert_eq!(circles.len(), 2);
    assert_eq!((circles[0].center.position, circles[0].radius), (p(0, 0), 5));
    assert_eq!((circles[1].center.position, circles[1].radius), (p(11, 11), 7));
    assert!(circles.iter().all(|c| !c.selected && !c.del && !c.is_drawing));
}

#[test]
fn carrying_without_anything_lifted_moves_nothing() {
    let mut lines = vec![chosen(p(0, 0), p(10, 0)), Line::new(p(1, 1), p(2, 2), false)];
    carry_selected_lines(&mut lines, &Vec::new(), 5, 5);
    assert_eq!(ends(&lines[0]), (p(0, 0), p(10, 0)));
    assert_eq!(ends(&lines[1]), (p(1, 1), p(2, 2)));
    let mut circles = vec![Circle::new(p(3, 3), 1, Color::white(), true, false, false)];
    carry_selected_circles(&mut circles, &Vec::new(), 5, 5);
    assert_eq!(circles[0].center.position, p(3, 3));
}

fn session() -> State {
    State::new(Size { width: 800, height: 600 })
}

fn key(state: &mut State, key: KeyCode) {
    assert!(handle_input(state, &InputEvent::KeyPressed(key), 0));
}

fn hover(state: &mut State, x: i64, y: i64) {
    let pos = ScreenPoint { x: 400 + x, y: 300 - y };
    assert!(handle_input(state, &InputEvent::CursorMoved(pos), 0));
}

fn click(state: &mut State) {
    assert!(handle_input(state, &InputEvent::MousePressed(MouseButton::Left), 0));
}

fn units(x: i64, y: i64) -> Point {
    Point { x: x * 1000, y: y * 1000 }
}

#[test]
fn a_move_keeps_the_number_of_entities_and_the_order_of_the_rest() {
    let mut state = session();
    state.add_line(units(0, 0), units(100, 0), false);
    state.add_line(units(0, 20), units(100, 20), false);
    state.add_line(units(0, 40), units(100, 40), false);
    state.add_line(units(0, 60), units(100, 60), false);
    state.add_circle(units(200, 0), 10_000, Color::white(), false, false, false);
    state.add_circle(units(200, 100), 10_000, Color::white(), false, false, false);
    key(&mut state, KeyCode::KeyM);
    hover(&mut state, 50, 20);
    click(&mut state);
    hover(&mut state, 200, 10);
    click(&mut state);
    key(&mut state, KeyCode::Enter);
    hover(&mut state, 300, 200);
    click(&mut state);
    assert_eq!(state.mode, Mode::Move(MoveMode::Move(units(300, 200))));
    assert_eq!((state.lifted_lines.len(), state.lifted_circles.len()), (1, 1));
    hover(&mut state, 310, 170);
    hover(&mut state, 290, 230);
    click(&mut state);
    assert_eq!(state.mode, Mode::Normal);
    assert!(state.lifted_lines.is_empty() && state.lifted_circles.is_empty());
    assert_eq!((state.lines.len(), state.circles.len()), (4, 2));
    let firsts: Vec<Point> = state.lines.iter().map(|l| l.vertices[0].position).collect();
    // anchor less cursor is (10, -30)
    assert_eq!(firsts, vec![units(0, 0), units(0, 40), units(0, 60), units(10, -10)]);
    assert_eq!(state.lines[3].vertices[1].position, units(110, -10));
    assert_eq!(state.circles[0].center.position, units(200, 100));
    assert_eq!(state.circles[1].center.position, units(210, -30));
    assert_eq!(state.circles[1].radius, 10_000);
    assert!(state.lines.iter().all(|l| !l.selected && !l.del && !l.is_drawing));
    assert!(state.circles.iter().all(|c| !c.selected && !c.del && !c.is_drawing));
}

#[test]
fn a_copy_is_carried_from_the_anchor_too() {
    let mut state = session();
    state.add_line(units(0, 0), units(100, 0), false);
    key(&mut state, KeyCode::KeyK);
    hover(&mut state, 50, 0);
    click(&mut state);
    key(&mut state, KeyCode::Enter);
    hover(&mut state, 300, 200);
    click(&mut state);
    assert_eq!(state.mode, Mode::Copy(CopyMode::Copy(units(300, 200))));
    hover(&mut state, 300, 190);
    assert_eq!(state.lines[1].vertices[0].position, units(0, 10));
    hover(&mut state, 310, 200);
    assert_eq!(state.lines[1].vertices[0].position, units(-10, 0));
    click(&mut state);
    assert_eq!(state.lines.len(), 2);
    assert_eq!(state.lines[0].vertices[0].position, units(0, 0));
    assert_eq!(state.lines[1].vertices[0].position, units(-10, 0));
    assert_eq!(state.lines[1].vertices[1].position, units(90, 0));
}
