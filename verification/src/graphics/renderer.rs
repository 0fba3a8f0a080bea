//! What a frame does to the session before it is painted: the action
//! left by the user interface is taken and applied, and what the session
//! cannot do itself is handed back as a request.
//!
//! Numeric precision input arrives here: a length typed while a line or
//! a circle is being drawn replaces the free endpoint or the radius by
//! the exact value and ends the drawing.

use crate::graphics::gui_elements::{UiAction, UiActionView, UiStateView};
use crate::model::circle::Circle;
use crate::model::line::Line;
use crate::numeric::{parse_length, parse_length_spec};
use crate::units::clamp_radius;
use crate::{DrawLineMode, DrawingState, Mode, State, StateView};
use vstd::prelude::*;

verus! {

/// What the application is asked to do after an action is applied.
#[derive(Clone, Debug)]
pub enum Request {
    /// Nothing is left to do.
    Nothing,
    /// Write the drawing to its file.
    SaveFile,
    /// Ask the user for a drawing and load it.
    OpenFile,
    /// Load the drawing at the path.
    LoadFile(String),
    /// Paint the drawing anew in the colours of the theme.
    Repaint,
}

/// A request as the contracts speak of it.
pub enum RequestView {
    Nothing,
    SaveFile,
    OpenFile,
    LoadFile(Seq<char>),
    Repaint,
}

impl View for Request {
    type V = RequestView;

    open spec fn view(&self) -> RequestView {
        match self {
            Request::Nothing => RequestView::Nothing,
            Request::SaveFile => RequestView::SaveFile,
            Request::OpenFile => RequestView::OpenFile,
            Request::LoadFile(p) => RequestView::LoadFile(p@),
            Request::Repaint => RequestView::Repaint,
        }
    }
}

impl StateView {
    /// The session after the length `len`, in ticks, is entered: the line
    /// being drawn gets that length along its direction, or the circle
    /// being drawn that radius, and the drawing of it ends. With nothing
    /// being drawn the session is unchanged.
    pub open spec fn length_committed(self, len: int) -> StateView {
        match self.drawing_state {
            DrawingState::WaitingForSecondPoint(start) => match self.active_line() {
                Some(i) => StateView {
                    lines: self.lines.update(
                        i,
                        Line {
                            is_drawing: false,
                            ..self.lines[i].with_end(self.lines[i].end_at_length(start, len))
                        },
                    ),
                    active_line_index: None,
                    drawing_state: DrawingState::Idle,
                    ..self
                },
                None => self,
            },
            DrawingState::WaitingForRadius(_) => match self.active_circle() {
                Some(i) => StateView {
                    circles: self.circles.update(
                        i,
                        Circle {
                            radius: clamp_radius(len) as i64,
                            is_drawing: false,
                            ..self.circles[i]
                        },
                    ),
                    active_circle_index: None,
                    drawing_state: DrawingState::Idle,
                    ..self
                },
                None => self,
            },
            DrawingState::Idle => self,
        }
    }

    /// The session after the text `text` is entered as a length: applied
    /// if it reads as a positive number, ignored otherwise.
    pub open spec fn length_entered(self, text: Seq<char>) -> StateView {
        match parse_length_spec(text) {
            Some(len) => if len > 0 {
                self.length_committed(len)
            } else {
                self
            },
            None => self,
        }
    }

    /// The session after the waiting action is taken and applied.
    pub open spec fn action_applied(self) -> StateView {
        let taken = StateView { ui: UiStateView { action: None, ..self.ui }, ..self };
        match self.ui.action {
            Some(UiActionView::DrawLine) => StateView {
                mode: Mode::DrawLine(DrawLineMode::Normal),
                ..taken
            },
            Some(UiActionView::DrawCircle) => StateView { mode: Mode::DrawCircle, ..taken },
            Some(UiActionView::Input(text)) => taken.length_entered(text),
            _ => taken,
        }
    }

    /// What the waiting action asks of the application.
    pub open spec fn request(self) -> RequestView {
        match self.ui.action {
            Some(UiActionView::OpenFile) => RequestView::OpenFile,
            Some(UiActionView::OpenFilePath(path)) => RequestView::LoadFile(path),
            Some(UiActionView::SaveFile) => RequestView::SaveFile,
            Some(UiActionView::ChangeTheme) => RequestView::Repaint,
            _ => RequestView::Nothing,
        }
    }
}

/// Applies a length of `len` ticks entered by the user.
pub fn commit_length(state: &mut State, len: i64)
    requires
        old(state).wf(),
    ensures
        final(state)@ == old(state)@.length_committed(len as int),
        final(state).wf(),
{
    match state.drawing_state {
        DrawingState::WaitingForSecondPoint(start) => {
            if let Some(i) = state.active_line_index {
                if i < state.lines.len() {
                    let mut line = state.lines[i];
                    assert(state.lines@[i as int].wf());
                    line.finish_line_with_length(start, len);
                    state.lines[i] = line;
                    state.active_line_index = None;
                    state.drawing_state = DrawingState::Idle;
                    assert(final(state)@.lines =~= old(state)@.length_committed(len as int).lines);
                }
            }
        },
        DrawingState::WaitingForRadius(_) => {
            if let Some(i) = state.active_circle_index {
                if i < state.circles.len() {
                    let mut circle = state.circles[i];
                    assert(state.circles@[i as int].wf());
                    circle.finish_circle_with_radius(len);
                    state.circles[i] = circle;
                    state.active_circle_index = None;
                    state.drawing_state = DrawingState::Idle;
                    assert(final(state)@.circles =~= old(state)@.length_committed(
                        len as int,
                    ).circles);
                }
            }
        },
        DrawingState::Idle => {},
    }
}

/// Applies the text of the numeric entry as a length.
pub fn enter_length(state: &mut State, text: &str)
    requires
        old(state).wf(),
    ensures
        final(state)@ == old(state)@.length_entered(text@),
        final(state).wf(),
{
    match parse_length(text) {
        Some(len) => {
            if len > 0 {
                commit_length(state, len);
            }
        },
        None => {},
    }
}

/// Takes the action left by the user interface, applies it to the
/// session, and returns what is left for the application to do.
pub fn apply_ui_action(state: &mut State) -> (request: Request)
    requires
        old(state).wf(),
    ensures
        final(state)@ == old(state)@.action_applied(),
        request@ == old(state)@.request(),
        final(state).wf(),
{
    let action = state.ui.action.take();
    match action {
        Some(UiAction::DrawLine) => {
            state.mode = Mode::DrawLine(DrawLineMode::Normal);
            Request::Nothing
        },
        Some(UiAction::DrawCircle) => {
            state.mode = Mode::DrawCircle;
            Request::Nothing
        },
        Some(UiAction::OpenFile) => Request::OpenFile,
        Some(UiAction::OpenFilePath(file_path)) => Request::LoadFile(file_path),
        Some(UiAction::SaveFile) => Request::SaveFile,
        Some(UiAction::Input(value)) => {
            enter_length(state, value.as_str());
            Request::Nothing
        },
        Some(UiAction::ChangeTheme) => Request::Repaint,
        None => Request::Nothing,
    }
}

} // verus!
