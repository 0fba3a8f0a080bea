//! The tool state machine: what each input event does to the session.
//!
//! Every event is applied to completion before the next. The effect of an
//! event is stated by [`StateView::step`], a function from the session
//! and the event to the session that follows, and [`handle_input`] is
//! proved to compute it.

use crate::geometry::{find_snap, snap_target, world_threshold, world_threshold_spec};
use crate::graphics::camera::{screen_to_world, screen_to_world_spec, Camera};
use crate::graphics::gui_elements::{
    NotificationView, UiAction, UiActionView, UiStateView, NOTIFICATION_TTL,
};
use crate::graphics::vertex::{Color, Point, Vertex};
use crate::model::circle::{distance, point_distance, CircleOps};
use crate::model::line::{Line, LineOps};
use crate::model::text::{first_text_at, text_at, Text, TextView};
use crate::numeric::{format_length, format_ticks};
use crate::selection::{
    circle_clicked, circle_missed, delete_circles_at, delete_lines_at, line_clicked, line_missed,
    select_circles_at, select_lines_at, selects_circle, selects_line,
};
use crate::transform::{
    carry_selected_circles, carry_selected_lines, circles_carried, circles_dropped,
    circles_lifted, circles_to_carry, drop_selected_circles, drop_selected_lines,
    lift_selected_circles, lift_selected_lines, lines_carried, lines_dropped, lines_lifted,
    lines_to_carry,
};
use crate::{
    CopyMode, DrawLineMode, DrawingState, Mode, Modifiers, MoveMode, ScreenPoint, State, StateView,
};
use vstd::prelude::*;

verus! {

/// The zoom factor of one step of the wheel toward the user, in millionths.
pub const ZOOM_IN_FACTOR: i64 = 1_100_000;

/// The zoom factor of one step of the wheel away from the user.
pub const ZOOM_OUT_FACTOR: i64 = 900_000;

/// A button of the mouse.
#[derive(Clone, Copy, Debug, PartialEq, Eq, Structural)]
pub enum MouseButton {
    Left,
    Middle,
    Right,
}

/// The keys the editor listens to.
#[derive(Clone, Copy, Debug, PartialEq, Eq, Structural)]
pub enum KeyCode {
    /// The line tool.
    KeyL,
    /// The circle tool.
    KeyC,
    /// The copy tool.
    KeyK,
    /// The move tool.
    KeyM,
    /// The selection tool; with control, save.
    KeyS,
    /// Toggles ortho mode while drawing lines; with control, open.
    KeyO,
    /// The measuring tool.
    KeyD,
    /// The text tool.
    KeyT,
    /// The delete tool.
    Delete,
    Escape,
    Enter,
    Other,
}

/// An input event, as the window system reports it.
#[derive(Clone, Copy, Debug, PartialEq, Eq, Structural)]
pub enum InputEvent {
    ModifiersChanged(Modifiers),
    KeyPressed(KeyCode),
    MousePressed(MouseButton),
    MouseReleased(MouseButton),
    CursorMoved(ScreenPoint),
    /// A turn of the wheel; negative away from the user.
    MouseWheel(i64),
    Other,
}

/// The world position of a screen position relative to the centre of the
/// view: what the camera shows there when it is not panned.
pub open spec fn centered(pos: ScreenPoint, size: crate::graphics::camera::Size, zoom: i64) -> Point {
    screen_to_world_spec(
        pos.x as int,
        pos.y as int,
        size,
        Camera { x_offset: 0, y_offset: 0, zoom },
    )
}

/// The four arms of the snap cross: from the snap point to the left, to
/// the right, downward and upward, each as long as the threshold, or
/// four segments of no length at the origin where there is no snap point.
pub open spec fn indicator_arms(snap: Option<Vertex>, thr: int) -> Seq<Line> {
    match snap {
        Some(v) => {
            let c = v.position;
            seq![
                Line::spec_new(c, Point::clamped(c.x - thr, c.y as int), false),
                Line::spec_new(c, Point::clamped(c.x + thr, c.y as int), false),
                Line::spec_new(c, Point::clamped(c.x as int, c.y - thr), false),
                Line::spec_new(c, Point::clamped(c.x as int, c.y + thr), false),
            ]
        },
        None => {
            let o = Point { x: 0, y: 0 };
            seq![
                Line::spec_new(o, o, false),
                Line::spec_new(o, o, false),
                Line::spec_new(o, o, false),
                Line::spec_new(o, o, false),
            ]
        },
    }
}

/// The zoom factor for a turn of the wheel.
pub open spec fn wheel_factor(delta: i64) -> int {
    if delta < 0 {
        ZOOM_OUT_FACTOR as int
    } else {
        ZOOM_IN_FACTOR as int
    }
}

impl StateView {
    /// The session in `mode` if it is in the normal mode, else unchanged.
    pub open spec fn tool_chosen(self, mode: Mode) -> StateView {
        if self.mode == Mode::Normal {
            StateView { mode, ..self }
        } else {
            self
        }
    }

    /// The session with `action` waiting to be applied.
    pub open spec fn with_action(self, action: UiActionView) -> StateView {
        StateView { ui: UiStateView { action: Some(action), ..self.ui }, ..self }
    }

    /// The session after the ortho key.
    pub open spec fn ortho_toggled(self) -> StateView {
        match self.mode {
            Mode::DrawLine(DrawLineMode::Normal) => StateView {
                mode: Mode::DrawLine(DrawLineMode::Ortho),
                ..self
            },
            Mode::DrawLine(DrawLineMode::Ortho) => StateView {
                mode: Mode::DrawLine(DrawLineMode::Normal),
                ..self
            },
            _ => self,
        }
    }

    /// The session after Escape: a line or circle being drawn is given
    /// up, a selection is cleared, and the session is in the normal mode
    /// with no gesture under way.
    pub open spec fn escaped(self) -> StateView {
        let s1 = if self.mode is DrawLine && self.drawing_state is WaitingForSecondPoint {
            self.line_cancelled()
        } else {
            self
        };
        let s2 = if s1.mode == Mode::DrawCircle && s1.drawing_state is WaitingForRadius {
            s1.circle_cancelled()
        } else {
            s1
        };
        let s3 = if s2.mode == Mode::Selection || s2.mode == Mode::Move(MoveMode::Selection) {
            s2.lines_unselected().circles_unselected()
        } else {
            s2
        };
        StateView { mode: Mode::Normal, drawing_state: DrawingState::Idle, ..s3 }
    }

    /// The session after Enter: a move or copy goes on from selecting to
    /// waiting for its anchor.
    pub open spec fn entered(self) -> StateView {
        match self.mode {
            Mode::Move(MoveMode::Selection) => StateView {
                mode: Mode::Move(MoveMode::SelectPoint),
                ..self
            },
            Mode::Copy(CopyMode::Selection) => StateView {
                mode: Mode::Copy(CopyMode::SelectPoint),
                ..self
            },
            _ => self,
        }
    }

    /// The session after a key is pressed.
    pub open spec fn key_pressed(self, key: KeyCode) -> StateView {
        match key {
            KeyCode::KeyL => self.tool_chosen(Mode::DrawLine(DrawLineMode::Normal)),
            KeyCode::KeyC => self.tool_chosen(Mode::DrawCircle),
            KeyCode::KeyK => self.tool_chosen(Mode::Copy(CopyMode::Selection)),
            KeyCode::KeyM => self.tool_chosen(Mode::Move(MoveMode::Selection)),
            KeyCode::KeyS => if self.modifiers.control {
                self.with_action(UiActionView::SaveFile)
            } else {
                self.tool_chosen(Mode::Selection)
            },
            KeyCode::KeyO => if self.modifiers.control {
                self.with_action(UiActionView::OpenFile).ortho_toggled()
            } else {
                self.ortho_toggled()
            },
            KeyCode::KeyD => self.tool_chosen(Mode::Measure(None)),
            KeyCode::KeyT => self.tool_chosen(Mode::CreateText),
            KeyCode::Delete => self.tool_chosen(Mode::Delete),
            KeyCode::Escape => self.escaped(),
            KeyCode::Enter => self.entered(),
            KeyCode::Other => self,
        }
    }

    /// The session after the cursor moves to `pos` while panning: the
    /// camera follows the cursor by as much as it moved, in world units
    /// relative to the view, since the position last seen.
    pub open spec fn panned_to(self, pos: ScreenPoint) -> StateView {
        let rel = centered(pos, self.size, self.camera.zoom);
        StateView {
            camera: match self.last_position_for_pan {
                Some(last) => self.camera.panned(-(rel.x - last.x), -(rel.y - last.y)),
                None => self.camera,
            },
            last_position_for_pan: Some(rel),
            ..self
        }
    }

    /// The session with every carried entity where it was lifted,
    /// translated by `(dx, dy)`.
    pub open spec fn selection_carried(self, dx: int, dy: int) -> StateView {
        StateView {
            lines: lines_carried(self.lines, self.lifted_lines, dx, dy),
            circles: circles_carried(self.circles, self.lifted_circles, dx, dy),
            ..self
        }
    }

    /// The session after the cursor moves to `pos` without panning: the
    /// cursor and the snap point are taken down, the entity being drawn
    /// follows the pointer, and in a move or copy every carried entity is
    /// put where it was lifted, translated by the anchor less the cursor.
    pub open spec fn hovered_at(self, pos: ScreenPoint) -> StateView {
        let world = screen_to_world_spec(pos.x as int, pos.y as int, self.size, self.camera);
        let thr = world_threshold_spec(self.camera.zoom as int);
        let snap = snap_target(self.lines, self.circles, world, thr);
        let s1 = StateView {
            last_screen_position_for_pan: Some(pos),
            cursor_position: Some(world),
            last_position_for_pan: Some(centered(pos, self.size, self.camera.zoom)),
            snap,
            indicators: indicator_arms(snap, thr),
            ..self
        };
        let p = match snap {
            Some(v) => v.position,
            None => world,
        };
        let s2 = if self.drawing_state is WaitingForSecondPoint {
            s1.line_updated(p, true)
        } else {
            s1
        };
        let s3 = if self.drawing_state is WaitingForRadius {
            s2.circle_updated(p, true)
        } else {
            s2
        };
        match self.mode {
            Mode::Move(MoveMode::Move(anchor)) => s3.selection_carried(
                anchor.x - world.x,
                anchor.y - world.y,
            ),
            Mode::Copy(CopyMode::Copy(anchor)) => s3.selection_carried(
                anchor.x - world.x,
                anchor.y - world.y,
            ),
            _ => s3,
        }
    }

    /// The session after the cursor moves to `pos`.
    pub open spec fn cursor_moved(self, pos: ScreenPoint) -> StateView {
        if self.dragging || self.modifiers.control {
            self.panned_to(pos)
        } else {
            self.hovered_at(pos)
        }
    }

    /// The session after the drawing of a line is ended: the line being
    /// drawn, if there is one, stays as the last movement of the cursor
    /// left it and is no longer being drawn, and no gesture is under way.
    pub open spec fn line_finished(self) -> StateView {
        StateView {
            lines: match self.active_line() {
                Some(i) => self.lines.update(i, Line { is_drawing: false, ..self.lines[i] }),
                None => self.lines,
            },
            active_line_index: None,
            drawing_state: DrawingState::Idle,
            ..self
        }
    }

    /// The session after the drawing of a circle is ended: the circle
    /// being drawn, if there is one, keeps its radius and is no longer
    /// being drawn, and no gesture is under way.
    pub open spec fn circle_finished(self) -> StateView {
        StateView {
            circles: match self.active_circle() {
                Some(i) => self.circles.update(
                    i,
                    crate::model::circle::Circle { is_drawing: false, ..self.circles[i] },
                ),
                None => self.circles,
            },
            active_circle_index: None,
            drawing_state: DrawingState::Idle,
            ..self
        }
    }

    /// The session after a click with a drawing tool: the first click
    /// starts a line or a circle at the cursor, the second ends the
    /// drawing of it.
    pub open spec fn draw_clicked(self, position: Point) -> StateView {
        match (self.mode, self.drawing_state) {
            (Mode::DrawLine(_), DrawingState::Idle) => StateView {
                drawing_state: DrawingState::WaitingForSecondPoint(position),
                ..self
            }.with_line(position, position, true),
            (Mode::DrawLine(_), DrawingState::WaitingForSecondPoint(_)) => self.line_finished(),
            (Mode::DrawCircle, DrawingState::Idle) => StateView {
                drawing_state: DrawingState::WaitingForRadius(position),
                ..self
            }.with_circle(position, 0, Color::white(), false, false, true),
            (Mode::DrawCircle, DrawingState::WaitingForRadius(_)) => self.circle_finished(),
            _ => self,
        }
    }

    /// The session after the click that nominates the anchor of a move or
    /// copy: the selection is lifted.
    pub open spec fn selection_lifted(self, position: Point) -> StateView {
        let is_move = self.mode is Move;
        StateView {
            lines: lines_lifted(self.lines, is_move),
            circles: circles_lifted(self.circles, is_move),
            lifted_lines: lines_to_carry(self.lines),
            lifted_circles: circles_to_carry(self.circles),
            mode: if is_move {
                Mode::Move(MoveMode::Move(position))
            } else {
                Mode::Copy(CopyMode::Copy(position))
            },
            ..self
        }
    }

    /// The session after the click that ends a move or copy: the
    /// selection is dropped where it is.
    pub open spec fn selection_dropped(self) -> StateView {
        StateView {
            lines: lines_dropped(self.lines),
            circles: circles_dropped(self.circles),
            lifted_lines: Seq::empty(),
            lifted_circles: Seq::empty(),
            active_line_index: None,
            active_circle_index: None,
            mode: Mode::Normal,
            ..self
        }
    }

    /// The session after a click with the move or copy tool.
    pub open spec fn transform_clicked(self, position: Point) -> StateView {
        if self.drawing_state is Idle {
            match self.mode {
                Mode::Move(MoveMode::SelectPoint) => self.selection_lifted(position),
                Mode::Copy(CopyMode::SelectPoint) => self.selection_lifted(position),
                Mode::Move(MoveMode::Move(_)) => self.selection_dropped(),
                Mode::Copy(CopyMode::Copy(_)) => self.selection_dropped(),
                _ => self,
            }
        } else {
            self
        }
    }

    /// The session after a selecting click at `position`: every entity
    /// under the click is selected, and if one was newly selected the
    /// session goes to the selection mode, unless a move or copy is
    /// under way.
    pub open spec fn selected_at(self, position: Point) -> StateView {
        let thr = world_threshold_spec(self.camera.zoom as int);
        let update = selects_line(self.lines, position, thr) || selects_circle(
            self.circles,
            position,
            thr,
        );
        StateView {
            lines: self.lines.map_values(|l: Line| line_clicked(l, position, thr)),
            circles: self.circles.map_values(
                |c: crate::model::circle::Circle| circle_clicked(c, position, thr),
            ),
            mode: if update && !self.mode.is_transform() {
                Mode::Selection
            } else {
                self.mode
            },
            ..self
        }
    }

    /// The session after a click at `position` with the delete tool:
    /// every entity under the click is removed.
    pub open spec fn deleted_at(self, position: Point) -> StateView {
        let thr = world_threshold_spec(self.camera.zoom as int);
        StateView {
            lines: self.lines.filter(line_missed(position, thr)),
            circles: self.circles.filter(circle_missed(position, thr)),
            active_line_index: None,
            active_circle_index: None,
            ..self
        }
    }

    /// The session after a click at `position` with the measuring tool:
    /// the first click is remembered, the second puts the distance
    /// between the two on display.
    pub open spec fn measured_at(self, position: Point, now: u64) -> StateView {
        match self.mode {
            Mode::Measure(Some(first)) => StateView {
                mode: Mode::Measure(None),
                ui: UiStateView {
                    notifications: self.ui.notifications.push(
                        NotificationView {
                            message: format_ticks(distance(first, position) as nat),
                            created_at: now,
                            ttl: NOTIFICATION_TTL,
                        },
                    ),
                    ..self.ui
                },
                ..self
            },
            _ => StateView { mode: Mode::Measure(Some(position)), ..self },
        }
    }

    /// The session after a click with the text tool: an empty text, open
    /// for editing, stands where the pointer is.
    pub open spec fn text_placed(self, position: Point) -> StateView {
        let p = match self.pointer() {
            Some(q) => q,
            None => position,
        };
        StateView {
            texts: self.texts.push(
                TextView {
                    position: p,
                    contents: Seq::empty(),
                    screen_bounds: None,
                    editing: true,
                    annotative: true,
                },
            ),
            mode: Mode::Normal,
            ..self
        }
    }

    /// The session after the left button is pressed.
    pub open spec fn left_pressed(self, now: u64) -> StateView {
        match self.cursor_position {
            None => self,
            Some(position) => match self.mode {
                Mode::DrawLine(_) => self.draw_clicked(position),
                Mode::DrawCircle => self.draw_clicked(position),
                Mode::Move(MoveMode::Selection) => self.selected_at(position),
                Mode::Copy(CopyMode::Selection) => self.selected_at(position),
                Mode::Move(_) => self.transform_clicked(position),
                Mode::Copy(_) => self.transform_clicked(position),
                Mode::Normal => self.selected_at(position),
                Mode::Selection => self.selected_at(position),
                Mode::Delete => self.deleted_at(position),
                Mode::Measure(_) => self.measured_at(position, now),
                Mode::CreateText => self.text_placed(position),
            },
        }
    }

    /// The text under the cursor, if any.
    pub open spec fn text_under_cursor(self) -> Option<usize> {
        match self.last_screen_position_for_pan {
            Some(s) => first_text_at(self.texts, s.x as int, s.y as int, 0),
            None => None,
        }
    }

    /// The session after the right button is pressed: the text under the
    /// cursor is opened for editing.
    pub open spec fn right_pressed(self) -> StateView {
        match self.text_under_cursor() {
            Some(i) => StateView {
                texts: self.texts.update(
                    i as int,
                    TextView { editing: true, ..self.texts[i as int] },
                ),
                ..self
            },
            None => self,
        }
    }

    /// The session after a turn of the wheel: the zoom changes and the
    /// camera is panned so that the world position under the cursor
    /// stays under it. Before the cursor has been seen nothing changes.
    pub open spec fn scrolled(self, delta: i64) -> StateView {
        match self.last_screen_position_for_pan {
            None => self,
            Some(s) => {
                let before = screen_to_world_spec(s.x as int, s.y as int, self.size, self.camera);
                let zoomed = self.camera.zoomed(wheel_factor(delta));
                let after = screen_to_world_spec(s.x as int, s.y as int, self.size, zoomed);
                StateView {
                    camera: zoomed.panned(before.x - after.x, before.y - after.y),
                    cursor_position: Some(before),
                    last_position_for_pan: Some(centered(s, self.size, zoomed.zoom)),
                    ..self
                }
            },
        }
    }

    /// The session after `event` at time `now`.
    pub open spec fn step(self, event: InputEvent, now: u64) -> StateView {
        match event {
            InputEvent::ModifiersChanged(m) => StateView { modifiers: m, ..self },
            InputEvent::KeyPressed(key) => self.key_pressed(key),
            InputEvent::MousePressed(MouseButton::Middle) => StateView { dragging: true, ..self },
            InputEvent::MouseReleased(MouseButton::Middle) => StateView { dragging: false, ..self },
            InputEvent::CursorMoved(pos) => self.cursor_moved(pos),
            InputEvent::MousePressed(MouseButton::Left) => self.left_pressed(now),
            InputEvent::MousePressed(MouseButton::Right) => self.right_pressed(),
            InputEvent::MouseWheel(delta) => self.scrolled(delta),
            _ => self,
        }
    }

    /// Whether the session takes `event` for itself.
    pub open spec fn handles(self, event: InputEvent) -> bool {
        match event {
            InputEvent::ModifiersChanged(_) => false,
            InputEvent::KeyPressed(_) => true,
            InputEvent::MousePressed(MouseButton::Middle) => true,
            InputEvent::MouseReleased(MouseButton::Middle) => true,
            InputEvent::CursorMoved(_) => true,
            InputEvent::MousePressed(MouseButton::Left) => true,
            InputEvent::MousePressed(MouseButton::Right) => self.text_under_cursor() is Some,
            InputEvent::MouseWheel(_) => true,
            _ => false,
        }
    }
}

fn choose_tool(state: &mut State, mode: Mode)
    ensures
        final(state)@ == old(state)@.tool_chosen(mode),
{
    if state.mode == Mode::Normal {
        state.mode = mode;
    }
}

fn toggle_ortho(state: &mut State)
    ensures
        final(state)@ == old(state)@.ortho_toggled(),
{
    match state.mode {
        Mode::DrawLine(DrawLineMode::Normal) => {
            state.mode = Mode::DrawLine(DrawLineMode::Ortho);
        },
        Mode::DrawLine(DrawLineMode::Ortho) => {
            state.mode = Mode::DrawLine(DrawLineMode::Normal);
        },
        _ => {},
    }
}

fn escape(state: &mut State)
    requires
        old(state).wf(),
    ensures
        final(state)@ == old(state)@.escaped(),
        final(state).wf(),
{
    if matches!(state.mode, Mode::DrawLine(_)) && matches!(
        state.drawing_state,
        DrawingState::WaitingForSecondPoint(_)
    ) {
        state.cancel_drawing_line();
    }
    if matches!(state.mode, Mode::DrawCircle) && matches!(
        state.drawing_state,
        DrawingState::WaitingForRadius(_)
    ) {
        state.cancel_drawing_circle();
    }
    if matches!(state.mode, Mode::Selection | Mode::Move(MoveMode::Selection)) {
        state.unselect_lines();
        state.unselect_circles();
    }
    state.mode = Mode::Normal;
    state.drawing_state = DrawingState::Idle;
}

fn key_pressed(state: &mut State, key: KeyCode)
    requires
        old(state).wf(),
    ensures
        final(state)@ == old(state)@.key_pressed(key),
        final(state).wf(),
{
    match key {
        KeyCode::KeyL => choose_tool(state, Mode::DrawLine(DrawLineMode::Normal)),
        KeyCode::KeyC => choose_tool(state, Mode::DrawCircle),
        KeyCode::KeyK => choose_tool(state, Mode::Copy(CopyMode::Selection)),
        KeyCode::KeyM => choose_tool(state, Mode::Move(MoveMode::Selection)),
        KeyCode::KeyS => {
            if state.modifiers.control_key() {
                state.ui.action = Some(UiAction::SaveFile);
            } else {
                choose_tool(state, Mode::Selection);
            }
        },
        KeyCode::KeyO => {
            if state.modifiers.control_key() {
                state.ui.action = Some(UiAction::OpenFile);
            }
            toggle_ortho(state);
        },
        KeyCode::KeyD => choose_tool(state, Mode::Measure(None)),
        KeyCode::KeyT => choose_tool(state, Mode::CreateText),
        KeyCode::Delete => choose_tool(state, Mode::Delete),
        KeyCode::Escape => escape(state),
        KeyCode::Enter => {
            match state.mode {
                Mode::Move(MoveMode::Selection) => {
                    state.mode = Mode::Move(MoveMode::SelectPoint);
                },
                Mode::Copy(CopyMode::Selection) => {
                    state.mode = Mode::Copy(CopyMode::SelectPoint);
                },
                _ => {},
            }
        },
        KeyCode::Other => {},
    }
}

/// The world position of a screen position relative to the centre of the
/// view.
fn centered_position(state: &State, pos: ScreenPoint) -> (rel: Point)
    requires
        state.wf(),
    ensures
        rel == centered(pos, state.size, state.camera.zoom),
        rel.in_range(),
{
    let unpanned = Camera { x_offset: 0, y_offset: 0, zoom: state.camera.zoom };
    screen_to_world(pos.x, pos.y, state.size, &unpanned)
}

fn make_indicators(snap: Option<Vertex>, thr: i64) -> (arms: Vec<Line>)
    requires
        snap matches Some(v) ==> v.position.in_range(),
    ensures
        arms@ == indicator_arms(snap, thr as int),
        crate::lines_wf(arms@),
        arms@.len() == 4,
{
    let mut arms: Vec<Line> = Vec::new();
    match snap {
        Some(v) => {
            let c = v.position;
            let x = c.x as i128;
            let y = c.y as i128;
            let t = thr as i128;
            arms.push(Line::new(c, Point::clamp_from(x - t, y), false));
            arms.push(Line::new(c, Point::clamp_from(x + t, y), false));
            arms.push(Line::new(c, Point::clamp_from(x, y - t), false));
            arms.push(Line::new(c, Point::clamp_from(x, y + t), false));
        },
        None => {
            let o = Point { x: 0, y: 0 };
            arms.push(Line::new(o, o, false));
            arms.push(Line::new(o, o, false));
            arms.push(Line::new(o, o, false));
            arms.push(Line::new(o, o, false));
        },
    }
    assert(arms@ =~= indicator_arms(snap, thr as int));
    arms
}

fn pan_to(state: &mut State, pos: ScreenPoint)
    requires
        old(state).wf(),
    ensures
        final(state)@ == old(state)@.panned_to(pos),
        final(state).wf(),
{
    let rel = centered_position(state, pos);
    if let Some(last) = state.last_position_for_pan {
        let dx = rel.x - last.x;
        let dy = rel.y - last.y;
        state.camera.pan(-dx, -dy);
    }
    state.last_position_for_pan = Some(rel);
}

fn hover_at(state: &mut State, pos: ScreenPoint)
    requires
        old(state).wf(),
    ensures
        final(state)@ == old(state)@.hovered_at(pos),
        final(state).wf(),
{
    let thr = world_threshold(state.camera.zoom);
    let rel = centered_position(state, pos);
    let world = screen_to_world(pos.x, pos.y, state.size, &state.camera);
    let snap = find_snap(&state.lines, &mut state.circles, world, thr);
    state.last_screen_position_for_pan = Some(pos);
    state.cursor_position = Some(world);
    state.last_position_for_pan = Some(rel);
    state.snap = snap;
    state.indicators = make_indicators(snap, thr);
    let p = match snap {
        Some(v) => v.position,
        None => world,
    };
    let was_drawing = state.drawing_state;
    if let DrawingState::WaitingForSecondPoint(_) = was_drawing {
        state.update_line(p, true);
    }
    if let DrawingState::WaitingForRadius(_) = was_drawing {
        state.update_circle(p, true);
    }
    match state.mode {
        Mode::Move(MoveMode::Move(anchor)) | Mode::Copy(CopyMode::Copy(anchor)) => {
            let dx = anchor.x - world.x;
            let dy = anchor.y - world.y;
            carry_selected_lines(&mut state.lines, &state.lifted_lines, dx, dy);
            carry_selected_circles(&mut state.circles, &state.lifted_circles, dx, dy);
        },
        _ => {},
    }
}

fn finish_line(state: &mut State)
    requires
        old(state).wf(),
    ensures
        final(state)@ == old(state)@.line_finished(),
        final(state).wf(),
{
    if let Some(i) = state.active_line_index {
        if i < state.lines.len() {
            state.lines[i].is_drawing = false;
            assert(state.lines@ =~= old(state)@.line_finished().lines);
            assert(state.lines@[i as int].wf()) by {
                assert(old(state).lines@[i as int].wf());
            }
        }
    }
    state.active_line_index = None;
    state.drawing_state = DrawingState::Idle;
}

fn finish_circle(state: &mut State)
    requires
        old(state).wf(),
    ensures
        final(state)@ == old(state)@.circle_finished(),
        final(state).wf(),
{
    if let Some(i) = state.active_circle_index {
        if i < state.circles.len() {
            state.circles[i].is_drawing = false;
            assert(state.circles@ =~= old(state)@.circle_finished().circles);
            assert(state.circles@[i as int].wf()) by {
                assert(old(state).circles@[i as int].wf());
            }
        }
    }
    state.active_circle_index = None;
    state.drawing_state = DrawingState::Idle;
}

fn draw_click(state: &mut State, position: Point)
    requires
        old(state).wf(),
        position.in_range(),
    ensures
        final(state)@ == old(state)@.draw_clicked(position),
        final(state).wf(),
{
    match state.mode {
        Mode::DrawLine(_) => {
            match state.drawing_state {
                DrawingState::Idle => {
                    state.drawing_state = DrawingState::WaitingForSecondPoint(position);
                    state.add_line(position, position, true);
                },
                DrawingState::WaitingForSecondPoint(_) => finish_line(state),
                DrawingState::WaitingForRadius(_) => {},
            }
        },
        Mode::DrawCircle => {
            match state.drawing_state {
                DrawingState::Idle => {
                    state.drawing_state = DrawingState::WaitingForRadius(position);
                    state.add_circle(position, 0, Color::white(), false, false, true);
                },
                DrawingState::WaitingForRadius(_) => finish_circle(state),
                DrawingState::WaitingForSecondPoint(_) => {},
            }
        },
        _ => {},
    }
}

fn transform_click(state: &mut State, position: Point)
    requires
        old(state).wf(),
        position.in_range(),
    ensures
        final(state)@ == old(state)@.transform_clicked(position),
        final(state).wf(),
{
    if matches!(state.drawing_state, DrawingState::Idle) {
        match state.mode {
            Mode::Move(MoveMode::SelectPoint) | Mode::Copy(CopyMode::SelectPoint) => {
                let is_move = matches!(state.mode, Mode::Move(_));
                if is_move {
                    state.mode = Mode::Move(MoveMode::Move(position));
                } else {
                    state.mode = Mode::Copy(CopyMode::Copy(position));
                }
                state.lifted_lines = lift_selected_lines(&mut state.lines, is_move);
                state.lifted_circles = lift_selected_circles(&mut state.circles, is_move);
            },
            Mode::Move(MoveMode::Move(_)) | Mode::Copy(CopyMode::Copy(_)) => {
                drop_selected_lines(&mut state.lines);
                drop_selected_circles(&mut state.circles);
                state.lifted_lines = Vec::new();
                state.lifted_circles = Vec::new();
                state.active_line_index = None;
                state.active_circle_index = None;
                state.mode = Mode::Normal;
            },
            _ => {},
        }
    }
}

fn select_at(state: &mut State, position: Point)
    requires
        old(state).wf(),
        position.in_range(),
    ensures
        final(state)@ == old(state)@.selected_at(position),
        final(state).wf(),
{
    let thr = world_threshold(state.camera.zoom);
    let hit_line = select_lines_at(&mut state.lines, position, thr);
    let hit_circle = select_circles_at(&mut state.circles, position, thr);
    if (hit_line || hit_circle) && !matches!(state.mode, Mode::Move(_) | Mode::Copy(_)) {
        state.mode = Mode::Selection;
    }
}

fn delete_at(state: &mut State, position: Point)
    requires
        old(state).wf(),
        position.in_range(),
    ensures
        final(state)@ == old(state)@.deleted_at(position),
        final(state).wf(),
{
    let thr = world_threshold(state.camera.zoom);
    delete_lines_at(&mut state.lines, position, thr);
    delete_circles_at(&mut state.circles, position, thr);
    state.active_line_index = None;
    state.active_circle_index = None;
}

fn measure_at(state: &mut State, position: Point, now: u64)
    requires
        old(state).wf(),
        position.in_range(),
    ensures
        final(state)@ == old(state)@.measured_at(position, now),
        final(state).wf(),
{
    match state.mode {
        Mode::Measure(Some(first)) => {
            let d = point_distance(first, position);
            let text = format_length(d as u64);
            state.ui.add_notification(text.as_str(), now);
            state.mode = Mode::Measure(None);
        },
        _ => {
            state.mode = Mode::Measure(Some(position));
        },
    }
}

fn place_text(state: &mut State, position: Point)
    requires
        old(state).wf(),
        position.in_range(),
    ensures
        final(state)@ == old(state)@.text_placed(position),
        final(state).wf(),
{
    let p = match state.pointer() {
        Some(q) => q,
        None => position,
    };
    let text = Text::new(p);
    state.texts.push(text);
    state.mode = Mode::Normal;
    assert(final(state)@.texts =~= old(state)@.texts.push(text@));
}

fn left_pressed(state: &mut State, now: u64)
    requires
        old(state).wf(),
    ensures
        final(state)@ == old(state)@.left_pressed(now),
        final(state).wf(),
{
    if let Some(position) = state.cursor_position {
        match state.mode {
            Mode::DrawLine(_) | Mode::DrawCircle => draw_click(state, position),
            Mode::Move(MoveMode::Selection) | Mode::Copy(CopyMode::Selection) => select_at(
                state,
                position,
            ),
            Mode::Move(_) | Mode::Copy(_) => transform_click(state, position),
            Mode::Normal | Mode::Selection => select_at(state, position),
            Mode::Delete => delete_at(state, position),
            Mode::Measure(_) => measure_at(state, position, now),
            Mode::CreateText => place_text(state, position),
        }
    }
}

fn right_pressed(state: &mut State) -> (hit: bool)
    requires
        old(state).wf(),
    ensures
        final(state)@ == old(state)@.right_pressed(),
        hit == old(state)@.text_under_cursor() is Some,
        final(state).wf(),
{
    if let Some(s) = state.last_screen_position_for_pan {
        if let Some(i) = text_at(&state.texts, s.x, s.y) {
            state.texts[i].editing = true;
            assert(final(state)@.texts =~= old(state)@.texts.update(
                i as int,
                TextView { editing: true, ..old(state)@.texts[i as int] },
            ));
            return true;
        }
    }
    false
}

fn scrolled(state: &mut State, delta: i64)
    requires
        old(state).wf(),
    ensures
        final(state)@ == old(state)@.scrolled(delta),
        final(state).wf(),
{
    let factor = if delta < 0 {
        ZOOM_OUT_FACTOR
    } else {
        ZOOM_IN_FACTOR
    };
    if let Some(s) = state.last_screen_position_for_pan {
        let before = screen_to_world(s.x, s.y, state.size, &state.camera);
        state.camera.zoom(factor);
        let after = screen_to_world(s.x, s.y, state.size, &state.camera);
        state.camera.pan(before.x - after.x, before.y - after.y);
        state.cursor_position = Some(before);
        let rel = centered_position(state, s);
        state.last_position_for_pan = Some(rel);
    }
}

/// Applies one input event, arriving at time `now`, to the session, and
/// tells whether the session took the event for itself.
pub fn handle_input(state: &mut State, event: &InputEvent, now: u64) -> (handled: bool)
    requires
        old(state).wf(),
    ensures
        final(state)@ == old(state)@.step(*event, now),
        handled == old(state)@.handles(*event),
        final(state).wf(),
{
    match *event {
        InputEvent::ModifiersChanged(modifiers) => {
            state.modifiers = modifiers;
            false
        },
        InputEvent::KeyPressed(key) => {
            key_pressed(state, key);
            true
        },
        InputEvent::MousePressed(MouseButton::Middle) => {
            state.dragging = true;
            true
        },
        InputEvent::MouseReleased(MouseButton::Middle) => {
            state.dragging = false;
            true
        },
        InputEvent::CursorMoved(pos) => {
            if state.dragging || state.modifiers.control_key() {
                pan_to(state, pos);
            } else {
                hover_at(state, pos);
            }
            true
        },
        InputEvent::MousePressed(MouseButton::Left) => {
            left_pressed(state, now);
            true
        },
        InputEvent::MousePressed(MouseButton::Right) => right_pressed(state),
        InputEvent::MouseWheel(delta) => {
            scrolled(state, delta);
            true
        },
        _ => false,
    }
}

/// Idempotent cancellation: giving up a drawing when nothing is being
/// drawn removes nothing and only resets the session to the normal mode
/// with no gesture under way; and Escape a second time changes nothing.
pub proof fn lemma_cancel_is_idempotent(s: StateView)
    ensures
        s.active_line() is None ==> s.line_cancelled() == (StateView {
            active_line_index: None,
            drawing_state: DrawingState::Idle,
            mode: Mode::Normal,
            ..s
        }),
        s.active_circle() is None ==> s.circle_cancelled() == (StateView {
            active_circle_index: None,
            drawing_state: DrawingState::Idle,
            mode: Mode::Normal,
            ..s
        }),
        s.line_cancelled().line_cancelled() == s.line_cancelled(),
        s.circle_cancelled().circle_cancelled() == s.circle_cancelled(),
        s.escaped().escaped() == s.escaped(),
        s.escaped().lines.len() <= s.lines.len(),
        s.escaped().circles.len() <= s.circles.len(),
        !(s.drawing_state is WaitingForSecondPoint) ==> s.escaped().lines.len() == s.lines.len(),
        !(s.drawing_state is WaitingForRadius) ==> s.escaped().circles.len() == s.circles.len(),
{
}

/// A turn of the wheel leaves the world position under the cursor where
/// it is: after the event the cursor's screen position shows the same
/// world position as before, wherever neither that position, seen
/// through the old or the new zoom, nor the camera's new offset had to be
/// brought into range.
pub proof fn lemma_scroll_keeps_cursor(s: StateView, delta: i64)
    requires
        s.wf(),
        s.last_screen_position_for_pan is Some,
        ({
            let p = s.last_screen_position_for_pan->0;
            let zoomed = s.camera.zoomed(wheel_factor(delta));
            let bx = crate::graphics::camera::world_x_exact(p.x as int, s.size.width as int, s.camera);
            let by = crate::graphics::camera::world_y_exact(p.y as int, s.size.height as int, s.camera);
            let ax = crate::graphics::camera::world_x_exact(p.x as int, s.size.width as int, zoomed);
            let ay = crate::graphics::camera::world_y_exact(p.y as int, s.size.height as int, zoomed);
            &&& crate::units::coord_ok(bx)
            &&& crate::units::coord_ok(by)
            &&& crate::units::coord_ok(ax)
            &&& crate::units::coord_ok(ay)
            &&& crate::units::coord_ok(zoomed.x_offset + bx - ax)
            &&& crate::units::coord_ok(zoomed.y_offset + by - ay)
        }),
    ensures
        ({
            let p = s.last_screen_position_for_pan->0;
            let after = s.scrolled(delta);
            &&& screen_to_world_spec(p.x as int, p.y as int, after.size, after.camera)
                == screen_to_world_spec(p.x as int, p.y as int, s.size, s.camera)
            &&& after.cursor_position == Some(
                screen_to_world_spec(p.x as int, p.y as int, after.size, after.camera),
            )
        }),
{
}

/// The click that ends the drawing of a line or a circle only ends it:
/// the tool stays in use, no gesture is under way, nothing is being
/// drawn, and the entity is as the last movement of the cursor left it
/// but for its `is_drawing` flag, so that the next shape can be started at
/// once.
pub proof fn lemma_finishing_keeps_the_tool(s: StateView, now: u64)
    requires
        s.cursor_position is Some,
    ensures
        s.mode is DrawLine && s.drawing_state is WaitingForSecondPoint ==> {
            let after = s.left_pressed(now);
            &&& after == (StateView {
                lines: after.lines,
                active_line_index: None,
                drawing_state: DrawingState::Idle,
                ..s
            })
            &&& after.lines.len() == s.lines.len()
            &&& forall|i: int|
                0 <= i < s.lines.len() ==> #[trigger] after.lines[i] == if s.active_line()
                    == Some(i) {
                    Line { is_drawing: false, ..s.lines[i] }
                } else {
                    s.lines[i]
                }
        },
        s.mode == Mode::DrawCircle && s.drawing_state is WaitingForRadius ==> {
            let after = s.left_pressed(now);
            &&& after == (StateView {
                circles: after.circles,
                active_circle_index: None,
                drawing_state: DrawingState::Idle,
                ..s
            })
            &&& after.circles.len() == s.circles.len()
            &&& forall|i: int|
                0 <= i < s.circles.len() ==> #[trigger] after.circles[i] == if s.active_circle()
                    == Some(i) {
                    crate::model::circle::Circle { is_drawing: false, ..s.circles[i] }
                } else {
                    s.circles[i]
                }
        },
{
}

/// Escape always ends in the normal mode with no gesture under way, and
/// adds nothing to the drawing.
pub proof fn lemma_escape_resets(s: StateView)
    ensures
        s.escaped().mode == Mode::Normal,
        s.escaped().drawing_state == DrawingState::Idle,
        s.escaped().lines.len() <= s.lines.len(),
        s.escaped().circles.len() <= s.circles.len(),
        s.escaped().texts == s.texts,
        s.escaped().camera == s.camera,
{
}

/// An event that the session does not take for itself changes nothing
/// but, for a change of the modifier keys, the modifiers it remembers.
pub proof fn lemma_unhandled_events(s: StateView, event: InputEvent, now: u64)
    requires
        !s.handles(event),
    ensures
        s.step(event, now) == match event {
            InputEvent::ModifiersChanged(m) => StateView { modifiers: m, ..s },
            _ => s,
        },
{
}

/// A click with the move or copy tool on an empty selection, and the
/// carrying that follows, leave the drawing as it is.
pub proof fn lemma_empty_selection_is_carried_nowhere(s: StateView, position: Point, dx: int, dy: int)
    requires
        crate::transform::no_line_selected(s.lines),
        crate::transform::no_circle_selected(s.circles),
    ensures
        s.selection_lifted(position).lines == s.lines,
        s.selection_lifted(position).circles == s.circles,
        s.selection_carried(dx, dy) == s,
{
    crate::transform::lemma_empty_selection(
        s.lines,
        s.lifted_lines,
        s.circles,
        s.lifted_circles,
        s.mode is Move,
        dx,
        dy,
    );
}

/// A move or copy as a whole. From a session whose entities are at rest,
/// the click that nominates the anchor, a movement of the cursor and the
/// click that drops leave the drawing as the gesture with the translation
/// of the anchor less the cursor leaves it: nothing is selected, marked
/// for deletion or flagged as being drawn any more, the tool is laid
/// down, and after a move there are as many entities as before, those
/// that were not selected first, as they were and in their order.
pub proof fn lemma_move_and_copy_as_a_whole(
    s: StateView,
    anchor: Point,
    pos: ScreenPoint,
    at: Point,
)
    requires
        s.mode == Mode::Move(MoveMode::SelectPoint) || s.mode == Mode::Copy(CopyMode::SelectPoint),
        s.drawing_state is Idle,
        crate::transform::lines_at_rest(s.lines),
        crate::transform::circles_at_rest(s.circles),
    ensures
        ({
            let world = screen_to_world_spec(pos.x as int, pos.y as int, s.size, s.camera);
            let (dx, dy) = (anchor.x - world.x, anchor.y - world.y);
            let t = s.transform_clicked(anchor).hovered_at(pos).transform_clicked(at);
            &&& t.lines == crate::transform::lines_after_gesture(s.lines, s.mode is Move, dx, dy)
            &&& t.circles == crate::transform::circles_after_gesture(
                s.circles,
                s.mode is Move,
                dx,
                dy,
            )
            &&& t.mode == Mode::Normal
            &&& t.drawing_state is Idle
            &&& t.lifted_lines.len() == 0 && t.lifted_circles.len() == 0
            &&& crate::transform::lines_at_rest(t.lines)
            &&& crate::transform::circles_at_rest(t.circles)
            &&& crate::transform::no_line_selected(t.lines)
            &&& crate::transform::no_circle_selected(t.circles)
            &&& s.mode is Move ==> t.lines.len() + t.circles.len() == s.lines.len()
                + s.circles.len()
            &&& s.mode is Move ==> t.lines == s.lines.filter(crate::transform::line_unselected())
                + s.lines.filter(crate::transform::line_selected()).map_values(
                |l: Line| crate::transform::line_arrived(l, dx, dy),
            )
        }),
{
    let world = screen_to_world_spec(pos.x as int, pos.y as int, s.size, s.camera);
    let (dx, dy) = (anchor.x - world.x, anchor.y - world.y);
    crate::transform::lemma_lines_after_gesture(s.lines, s.mode is Move, dx, dy);
    crate::transform::lemma_circles_after_gesture(s.circles, s.mode is Move, dx, dy);
}

/// Carrying forgets where the cursor has been: after the selection is
/// lifted, the entities lie after two movements of the cursor where they
/// lie after the second alone.
pub proof fn lemma_carrying_forgets_the_way(s: StateView, first: ScreenPoint, second: ScreenPoint)
    requires
        s.drawing_state is Idle,
    ensures
        s.hovered_at(first).hovered_at(second).lines == s.hovered_at(second).lines,
        s.hovered_at(first).hovered_at(second).circles == s.hovered_at(second).circles,
{
    let w1 = screen_to_world_spec(first.x as int, first.y as int, s.size, s.camera);
    let w2 = screen_to_world_spec(second.x as int, second.y as int, s.size, s.camera);
    match s.mode {
        Mode::Move(MoveMode::Move(anchor)) => {
            crate::transform::lemma_carrying_is_not_cumulative(
                s.lines,
                s.lifted_lines,
                s.circles,
                s.lifted_circles,
                anchor.x - w1.x,
                anchor.y - w1.y,
                anchor.x - w2.x,
                anchor.y - w2.y,
            );
        },
        Mode::Copy(CopyMode::Copy(anchor)) => {
            crate::transform::lemma_carrying_is_not_cumulative(
                s.lines,
                s.lifted_lines,
                s.circles,
                s.lifted_circles,
                anchor.x - w1.x,
                anchor.y - w1.y,
                anchor.x - w2.x,
                anchor.y - w2.y,
            );
        },
        _ => {},
    }
}

} // verus!
