//! The interaction core of a 2D CAD editor: the tool state machine, the
//! drawing, snapping and selection engine, the move and copy
//! transformations and the camera, all in exact fixed-point arithmetic.
//!
//! One [`State`] holds the whole session. Input events are applied to it
//! one at a time by [`events::input::handle_input`]; the renderer and the
//! file exchange read the entity collections and the camera from it.

pub mod compiler;
pub mod events;
pub mod exchange;
pub mod geometry;
pub mod graphics;
pub mod model;
pub mod numeric;
pub mod selection;
pub mod transform;
pub mod units;

use crate::graphics::camera::{Camera, Size};
use crate::graphics::gui_elements::{UiState, UiStateView};
use crate::graphics::vertex::{Point, Vertex};
use crate::model::circle::Circle;
use crate::model::line::Line;
use crate::model::text::{text_views, Text, TextView};
use crate::units::ZOOM_ONE;
use vstd::prelude::*;

verus! {

/// How far a drawing gesture has come.
#[derive(Clone, Copy, Debug, PartialEq, Eq, Structural)]
pub enum DrawingState {
    Idle,
    WaitingForSecondPoint(Point),
    WaitingForRadius(Point),
}

/// How the free endpoint of a line follows the pointer.
#[derive(Clone, Copy, Debug, PartialEq, Eq, Structural)]
pub enum DrawLineMode {
    Normal,
    /// The free endpoint is held on the horizontal or the vertical
    /// through the anchor.
    Ortho,
}

/// How far a move has come: selecting, waiting for the anchor, or
/// carrying the selection from the anchor.
#[derive(Clone, Copy, Debug, PartialEq, Eq, Structural)]
pub enum MoveMode {
    Selection,
    SelectPoint,
    Move(Point),
}

/// How far a copy has come: selecting, waiting for the anchor, or
/// carrying the copies from the anchor.
#[derive(Clone, Copy, Debug, PartialEq, Eq, Structural)]
pub enum CopyMode {
    Selection,
    SelectPoint,
    Copy(Point),
}

/// The tool in use.
#[derive(Clone, Copy, Debug, PartialEq, Eq, Structural)]
pub enum Mode {
    Normal,
    Selection,
    DrawLine(DrawLineMode),
    DrawCircle,
    Move(MoveMode),
    Copy(CopyMode),
    /// Measuring, with the first point if it has been clicked.
    Measure(Option<Point>),
    CreateText,
    Delete,
}

/// A position on the screen, in pixels.
#[derive(Clone, Copy, Debug, PartialEq, Eq, Structural)]
pub struct ScreenPoint {
    pub x: i64,
    pub y: i64,
}

/// The modifier keys that are held down.
#[derive(Clone, Copy, Debug, PartialEq, Eq, Structural)]
pub struct Modifiers {
    pub control: bool,
}

impl Modifiers {
    /// Whether the control key is held down.
    pub fn control_key(&self) -> (b: bool)
        ensures
            b == self.control,
    {
        self.control
    }
}

/// The editing session.
pub struct State {
    pub size: Size,
    pub lines: Vec<Line>,
    pub circles: Vec<Circle>,
    pub texts: Vec<Text>,
    /// The four arms of the snap cross.
    pub indicators: Vec<Line>,
    pub drawing_state: DrawingState,
    pub mode: Mode,
    pub active_line_index: Option<usize>,
    pub active_circle_index: Option<usize>,
    /// The cursor in world coordinates.
    pub cursor_position: Option<Point>,
    /// The cursor in world units relative to the centre of the view.
    pub last_position_for_pan: Option<Point>,
    pub last_screen_position_for_pan: Option<ScreenPoint>,
    pub snap: Option<Vertex>,
    /// The lines that a move or copy carries, as they were lifted.
    pub lifted_lines: Vec<Line>,
    /// The circles that a move or copy carries, as they were lifted.
    pub lifted_circles: Vec<Circle>,
    pub ui: UiState,
    pub camera: Camera,
    pub dragging: bool,
    pub modifiers: Modifiers,
}

/// The session as the contracts speak of it.
pub struct StateView {
    pub size: Size,
    pub lines: Seq<Line>,
    pub circles: Seq<Circle>,
    pub texts: Seq<TextView>,
    pub indicators: Seq<Line>,
    pub drawing_state: DrawingState,
    pub mode: Mode,
    pub active_line_index: Option<usize>,
    pub active_circle_index: Option<usize>,
    pub cursor_position: Option<Point>,
    pub last_position_for_pan: Option<Point>,
    pub last_screen_position_for_pan: Option<ScreenPoint>,
    pub snap: Option<Vertex>,
    pub lifted_lines: Seq<Line>,
    pub lifted_circles: Seq<Circle>,
    pub ui: UiStateView,
    pub camera: Camera,
    pub dragging: bool,
    pub modifiers: Modifiers,
}

impl View for State {
    type V = StateView;

    open spec fn view(&self) -> StateView {
        StateView {
            size: self.size,
            lines: self.lines@,
            circles: self.circles@,
            texts: text_views(self.texts@),
            indicators: self.indicators@,
            drawing_state: self.drawing_state,
            mode: self.mode,
            active_line_index: self.active_line_index,
            active_circle_index: self.active_circle_index,
            cursor_position: self.cursor_position,
            last_position_for_pan: self.last_position_for_pan,
            last_screen_position_for_pan: self.last_screen_position_for_pan,
            snap: self.snap,
            lifted_lines: self.lifted_lines@,
            lifted_circles: self.lifted_circles@,
            ui: self.ui@,
            camera: self.camera,
            dragging: self.dragging,
            modifiers: self.modifiers,
        }
    }
}

/// The point, if there is one, is storable.
pub open spec fn in_range_if_some(p: Option<Point>) -> bool {
    p matches Some(q) ==> q.in_range()
}

impl DrawingState {
    /// The anchor, if there is one, is storable.
    pub open spec fn wf(self) -> bool {
        match self {
            DrawingState::Idle => true,
            DrawingState::WaitingForSecondPoint(p) => p.in_range(),
            DrawingState::WaitingForRadius(p) => p.in_range(),
        }
    }
}

impl Mode {
    /// The anchor, if there is one, is storable.
    pub open spec fn wf(self) -> bool {
        match self {
            Mode::Move(MoveMode::Move(p)) => p.in_range(),
            Mode::Copy(CopyMode::Copy(p)) => p.in_range(),
            Mode::Measure(Some(p)) => p.in_range(),
            _ => true,
        }
    }

    /// One of the move and copy modes.
    pub open spec fn is_transform(self) -> bool {
        self is Move || self is Copy
    }
}

/// Every line of the collection has storable endpoints.
pub open spec fn lines_wf(lines: Seq<Line>) -> bool {
    forall|i: int| 0 <= i < lines.len() ==> (#[trigger] lines[i]).wf()
}

/// Every circle of the collection has a storable centre and radius.
pub open spec fn circles_wf(circles: Seq<Circle>) -> bool {
    forall|i: int| 0 <= i < circles.len() ==> (#[trigger] circles[i]).wf()
}

/// Every text of the collection is at a storable position.
pub open spec fn texts_wf(texts: Seq<TextView>) -> bool {
    forall|i: int| 0 <= i < texts.len() ==> (#[trigger] texts[i]).position.in_range()
}

impl StateView {
    /// Every coordinate held by the session is storable, the camera is
    /// valid and the snap cross has its four arms.
    pub open spec fn wf(self) -> bool {
        &&& lines_wf(self.lines)
        &&& circles_wf(self.circles)
        &&& texts_wf(self.texts)
        &&& lines_wf(self.indicators)
        &&& lines_wf(self.lifted_lines)
        &&& circles_wf(self.lifted_circles)
        &&& self.indicators.len() == 4
        &&& self.drawing_state.wf()
        &&& self.mode.wf()
        &&& in_range_if_some(self.cursor_position)
        &&& in_range_if_some(self.last_position_for_pan)
        &&& (self.snap matches Some(v) ==> v.position.in_range())
        &&& self.camera.wf()
    }

    /// The index of the line being drawn, if it points at a line.
    pub open spec fn active_line(self) -> Option<int> {
        match self.active_line_index {
            Some(i) => if i < self.lines.len() {
                Some(i as int)
            } else {
                None
            },
            None => None,
        }
    }

    /// The index of the circle being drawn, if it points at a circle.
    pub open spec fn active_circle(self) -> Option<int> {
        match self.active_circle_index {
            Some(i) => if i < self.circles.len() {
                Some(i as int)
            } else {
                None
            },
            None => None,
        }
    }

    /// The position that drawing follows: the snap point where there
    /// is one, else the cursor.
    pub open spec fn pointer(self) -> Option<Point> {
        match self.snap {
            Some(v) => Some(v.position),
            None => self.cursor_position,
        }
    }
}

/// The session at its start: an empty drawing seen through a camera at
/// the origin with a zoom of one, no tool in use.
pub open spec fn initial_state(size: Size) -> StateView {
    StateView {
        size,
        lines: Seq::empty(),
        circles: Seq::empty(),
        texts: Seq::empty(),
        indicators: Seq::new(4, |i: int| Line::spec_new(Point { x: 0, y: 0 }, Point { x: 0, y: 0 }, false)),
        drawing_state: DrawingState::Idle,
        mode: Mode::Normal,
        active_line_index: None,
        active_circle_index: None,
        cursor_position: None,
        last_position_for_pan: None,
        last_screen_position_for_pan: None,
        snap: None,
        lifted_lines: Seq::empty(),
        lifted_circles: Seq::empty(),
        ui: UiStateView {
            theme: crate::graphics::gui_elements::spec_theme(0),
            numeric_buff: Seq::empty(),
            numeric_active: false,
            action: None,
            notifications: Seq::empty(),
        },
        camera: Camera { x_offset: 0, y_offset: 0, zoom: ZOOM_ONE },
        dragging: false,
        modifiers: Modifiers { control: false },
    }
}

impl State {
    /// Every coordinate held by the session is storable, the camera is
    /// valid and the snap cross has its four arms.
    pub open spec fn wf(&self) -> bool {
        self@.wf()
    }

    /// A fresh session for a viewport of the given size.
    pub fn new(size: Size) -> (state: State)
        ensures
            state@ == initial_state(size),
            state.wf(),
    {
        let origin = Point { x: 0, y: 0 };
        let mut indicators: Vec<Line> = Vec::new();
        indicators.push(Line::new(origin, origin, false));
        indicators.push(Line::new(origin, origin, false));
        indicators.push(Line::new(origin, origin, false));
        indicators.push(Line::new(origin, origin, false));
        let state = State {
            size,
            lines: Vec::new(),
            circles: Vec::new(),
            texts: Vec::new(),
            indicators,
            drawing_state: DrawingState::Idle,
            mode: Mode::Normal,
            active_line_index: None,
            active_circle_index: None,
            cursor_position: None,
            last_position_for_pan: None,
            last_screen_position_for_pan: None,
            snap: None,
            lifted_lines: Vec::new(),
            lifted_circles: Vec::new(),
            ui: UiState::new(),
            camera: Camera::new(0, 0, ZOOM_ONE),
            dragging: false,
            modifiers: Modifiers { control: false },
        };
        assert(state@.texts =~= Seq::<TextView>::empty());
        assert(state@.indicators =~= initial_state(size).indicators);
        state
    }

    /// Takes over the new size of the viewport, unless it is empty.
    pub fn resize(&mut self, new_size: Size)
        ensures
            final(self)@ == (StateView {
                size: if new_size.width > 0 && new_size.height > 0 {
                    new_size
                } else {
                    old(self)@.size
                },
                ..old(self)@
            }),
    {
        if new_size.width > 0 && new_size.height > 0 {
            self.size = new_size;
        }
    }

    /// Paints the lines in the colours of the theme and returns the
    /// vertices that the renderer draws them from, two for each line.
    pub fn update_vertex_buffer(&mut self) -> (vertices: Vec<Vertex>)
        ensures
            final(self)@ == (StateView {
                lines: old(self)@.lines.map_values(
                    |l: Line| l.painted(old(self)@.ui.theme.color_scheme),
                ),
                ..old(self)@
            }),
            vertices@.len() == 2 * old(self)@.lines.len(),
            forall|i: int|
                0 <= i < old(self)@.lines.len() ==> vertices@[2 * i] == (
                #[trigger] final(self)@.lines[i]).vertices[0] && vertices@[2 * i + 1]
                    == final(self)@.lines[i].vertices[1],
            old(self).wf() ==> final(self).wf(),
    {
        let vertices = crate::model::line::flatten_lines(&mut self.lines, self.ui.theme.color_scheme);
        assert(self.lines@ =~= old(self)@.lines.map_values(
            |l: Line| l.painted(old(self)@.ui.theme.color_scheme),
        ));
        proof {
            if old(self).wf() {
                assert forall|i: int| 0 <= i < self.lines@.len() implies (
                #[trigger] self.lines@[i]).wf() by {
                    assert(old(self).lines@[i].wf());
                }
            }
        }
        vertices
    }

    /// Paints the circles in the colours of the theme and returns what
    /// the renderer draws them from: the vertices of their outlines, 36
    /// for each circle, and the index pairs that join them into closed
    /// polygons.
    pub fn update_circle_vertex_buffer(&mut self) -> (buffers: (Vec<Vertex>, Vec<u32>))
        requires
            old(self).wf(),
            36 * old(self)@.circles.len() <= u32::MAX,
        ensures
            final(self)@ == (StateView {
                circles: old(self)@.circles.map_values(
                    |c: Circle| c.painted(old(self)@.ui.theme.color_scheme),
                ),
                ..old(self)@
            }),
            buffers.0@.len() == 36 * old(self)@.circles.len(),
            forall|i: int, k: int|
                0 <= i < old(self)@.circles.len() && 0 <= k < 36 ==> #[trigger] buffers.0@[36 * i
                    + k] == crate::model::outline::rim_vertex(final(self)@.circles[i], k),
            buffers.1@.len() == 72 * old(self)@.circles.len(),
            forall|j: int|
                0 <= j < buffers.1@.len() ==> #[trigger] buffers.1@[j]
                    == crate::model::outline::outline_index(j),
            final(self).wf(),
    {
        let vertices = crate::model::outline::flatten_circles(
            &mut self.circles,
            self.ui.theme.color_scheme,
        );
        let indices = crate::model::outline::circle_indices(self.circles.len() as u32);
        (vertices, indices)
    }

    /// Applies one input event, arriving at time `now`, and tells
    /// whether the session took the event for itself.
    pub fn input(&mut self, event: &crate::events::input::InputEvent, now: u64) -> (handled: bool)
        requires
            old(self).wf(),
        ensures
            final(self)@ == old(self)@.step(*event, now),
            handled == old(self)@.handles(*event),
            final(self).wf(),
    {
        crate::events::input::handle_input(self, event, now)
    }

    /// Whether every coordinate held by the session is storable, the
    /// camera is valid and the snap cross has its four arms: whether the
    /// session is one that the operations of this library accept.
    pub fn is_well_formed(&self) -> (b: bool)
        ensures
            b == self.wf(),
    {
        if !all_lines_in_range(&self.lines) || !all_lines_in_range(&self.indicators) {
            return false;
        }
        if self.indicators.len() != 4 {
            return false;
        }
        if !all_lines_in_range(&self.lifted_lines) {
            return false;
        }
        if !all_circles_in_range(&self.circles) || !all_circles_in_range(&self.lifted_circles) {
            return false;
        }
        let m = self.texts.len();
        let mut k: usize = 0;
        while k < m
            invariant
                m == self.texts@.len(),
                k <= m,
                forall|j: int| 0 <= j < k ==> (#[trigger] self@.texts[j]).position.in_range(),
            decreases m - k,
        {
            if !point_in_range(self.texts[k].position) {
                assert(self@.texts[k as int] == self.texts@[k as int]@);
                return false;
            }
            assert(self@.texts[k as int] == self.texts@[k as int]@);
            k += 1;
        }
        let anchors = match self.drawing_state {
            DrawingState::Idle => true,
            DrawingState::WaitingForSecondPoint(p) => point_in_range(p),
            DrawingState::WaitingForRadius(p) => point_in_range(p),
        };
        let mode = match self.mode {
            Mode::Move(MoveMode::Move(p)) => point_in_range(p),
            Mode::Copy(CopyMode::Copy(p)) => point_in_range(p),
            Mode::Measure(Some(p)) => point_in_range(p),
            _ => true,
        };
        let cursor = match self.cursor_position {
            Some(p) => point_in_range(p),
            None => true,
        };
        let last = match self.last_position_for_pan {
            Some(p) => point_in_range(p),
            None => true,
        };
        let snap = match self.snap {
            Some(v) => point_in_range(v.position),
            None => true,
        };
        let camera = point_in_range(Point { x: self.camera.x_offset, y: self.camera.y_offset })
            && crate::units::ZOOM_MIN <= self.camera.zoom && self.camera.zoom
            <= crate::units::ZOOM_MAX;
        anchors && mode && cursor && last && snap && camera
    }

    /// The position that drawing follows: the snap point where there
    /// is one, else the cursor.
    pub fn pointer(&self) -> (p: Option<Point>)
        ensures
            p == self@.pointer(),
    {
        match self.snap {
            Some(v) => Some(v.position),
            None => self.cursor_position,
        }
    }
}

/// Whether both coordinates of the point are storable.
pub fn point_in_range(p: Point) -> (b: bool)
    ensures
        b == p.in_range(),
{
    -crate::units::COORD_MAX <= p.x && p.x <= crate::units::COORD_MAX && -crate::units::COORD_MAX
        <= p.y && p.y <= crate::units::COORD_MAX
}

/// Whether every line of the collection has storable endpoints.
pub fn all_lines_in_range(lines: &Vec<Line>) -> (b: bool)
    ensures
        b == lines_wf(lines@),
{
    let n = lines.len();
    let mut i: usize = 0;
    while i < n
        invariant
            n == lines@.len(),
            i <= n,
            forall|j: int| 0 <= j < i ==> (#[trigger] lines@[j]).wf(),
        decreases n - i,
    {
        if !point_in_range(lines[i].vertices[0].position) || !point_in_range(
            lines[i].vertices[1].position,
        ) {
            return false;
        }
        i += 1;
    }
    true
}

/// Whether every circle of the collection has a storable centre and
/// radius.
pub fn all_circles_in_range(circles: &Vec<Circle>) -> (b: bool)
    ensures
        b == circles_wf(circles@),
{
    let n = circles.len();
    let mut i: usize = 0;
    while i < n
        invariant
            n == circles@.len(),
            i <= n,
            forall|j: int| 0 <= j < i ==> (#[trigger] circles@[j]).wf(),
        decreases n - i,
    {
        let c = &circles[i];
        if !point_in_range(c.center.position) || c.radius < 0 || c.radius
            > crate::units::RADIUS_MAX {
            return false;
        }
        i += 1;
    }
    true
}

} // verus!
