//! Circles.

use crate::graphics::gui_elements::ColorScheme;
use crate::graphics::vertex::{Color, Point, Vertex};
use crate::model::line::DEFAULT_THICKNESS;
use crate::units::{
    clamp_radius, clamp_radius_i128, isqrt_round, lemma_sqrt_floor_exists, lemma_square_strict,
    radius_ok, sqrt_floor, sqrt_round,
};
use crate::{DrawingState, Mode, State, StateView};
use vstd::prelude::*;

pub use crate::model::outline::flatten_circles;

verus! {

/// A circle: centre, radius in ticks, stroke width in pixels, and the
/// flags of the editor.
#[derive(Copy, Clone, Debug, PartialEq, Eq, Structural)]
pub struct Circle {
    pub radius: i64,
    pub center: Vertex,
    pub thickness: u32,
    pub selected: bool,
    pub del: bool,
    pub is_drawing: bool,
}

impl Circle {
    /// The centre is storable and the radius lies in `[0, RADIUS_MAX]`.
    pub open spec fn wf(&self) -> bool {
        self.center.position.in_range() && radius_ok(self.radius as int)
    }

    /// A circle of the given centre, radius, colour and flags; the radius
    /// is brought into `[0, RADIUS_MAX]`.
    pub open spec fn spec_new(
        center: Point,
        radius: int,
        color: Color,
        selected: bool,
        del: bool,
        is_drawing: bool,
    ) -> Circle {
        Circle {
            radius: clamp_radius(radius) as i64,
            center: Vertex { position: center, color },
            thickness: DEFAULT_THICKNESS,
            selected,
            del,
            is_drawing,
        }
    }

    /// This circle with its centre where that of `origin` is, translated
    /// by `(dx, dy)`.
    pub open spec fn placed(self, origin: Circle, dx: int, dy: int) -> Circle {
        Circle {
            center: Vertex { position: origin.center.position.shifted(dx, dy), ..self.center },
            ..self
        }
    }

    /// This circle with `(dx, dy)` taken off its centre.
    pub open spec fn moved(self, dx: int, dy: int) -> Circle {
        self.placed(self, -dx, -dy)
    }

    /// This circle in the colour that `scheme` gives it.
    pub open spec fn painted(self, scheme: ColorScheme) -> Circle {
        Circle { center: Vertex { color: scheme.paint(self.selected), ..self.center }, ..self }
    }

    /// The five points a cursor can snap to: top, left, bottom, right and
    /// centre, each brought into range and in the circle's colour.
    pub open spec fn snap_vertices(self) -> Seq<Vertex> {
        let x = self.center.position.x as int;
        let y = self.center.position.y as int;
        let r = self.radius as int;
        let c = self.center.color;
        seq![
            Vertex { position: Point::clamped(x, y + r), color: c },
            Vertex { position: Point::clamped(x - r, y), color: c },
            Vertex { position: Point::clamped(x, y - r), color: c },
            Vertex { position: Point::clamped(x + r, y), color: c },
            self.center,
        ]
    }

    /// A circle of the given centre, radius, colour and flags; the radius
    /// is brought into `[0, RADIUS_MAX]`.
    pub fn new(
        center: Point,
        radius: i64,
        color: Color,
        selected: bool,
        del: bool,
        is_drawing: bool,
    ) -> (circle: Circle)
        ensures
            circle == Circle::spec_new(center, radius as int, color, selected, del, is_drawing),
    {
        Circle {
            radius: clamp_radius_i128(radius as i128),
            center: Vertex { position: center, color },
            thickness: DEFAULT_THICKNESS,
            selected,
            del,
            is_drawing,
        }
    }

    /// Takes `(dx, dy)` off the centre.
    pub fn move_circle(&mut self, dx: i64, dy: i64)
        ensures
            *final(self) == old(self).moved(dx as int, dy as int),
            final(self).center.position.in_range(),
    {
        let c = self.center.position;
        self.center.position = Point::clamp_from(c.x as i128 - dx as i128, c.y as i128 - dy as i128);
    }

    /// Sets the radius, brought into `[0, RADIUS_MAX]`, and ends the
    /// drawing of the circle.
    pub fn finish_circle_with_radius(&mut self, radius: i64)
        ensures
            *final(self) == (Circle {
                radius: clamp_radius(radius as int) as i64,
                is_drawing: false,
                ..*old(self)
            }),
    {
        self.radius = clamp_radius_i128(radius as i128);
        self.is_drawing = false;
    }
}

/// The snap points of every circle that is not being drawn, circle by
/// circle in the order of the collection.
pub open spec fn circle_snap_vertices(circles: Seq<Circle>) -> Seq<Vertex>
    decreases circles.len(),
{
    if circles.len() == 0 {
        Seq::empty()
    } else {
        let rest = circle_snap_vertices(circles.drop_last());
        if circles.last().is_drawing {
            rest
        } else {
            rest + circles.last().snap_vertices()
        }
    }
}

/// The snap points of the circles: for every circle that is not being
/// drawn, the points above, left of, below and right of the centre at the
/// distance of the radius, then the centre.
pub fn flatten_circles_for_snap(circles: &mut Vec<Circle>) -> (flat: Vec<Vertex>)
    requires
        forall|i: int| 0 <= i < old(circles)@.len() ==> (#[trigger] old(circles)@[i]).wf(),
    ensures
        final(circles)@ == old(circles)@,
        flat@ == circle_snap_vertices(old(circles)@),
        forall|k: int| 0 <= k < flat@.len() ==> (#[trigger] flat@[k]).position.in_range(),
{
    let mut flat: Vec<Vertex> = Vec::new();
    let n = circles.len();
    let mut i: usize = 0;
    assert(circles@.take(0) =~= Seq::<Circle>::empty());
    while i < n
        invariant
            circles@ == old(circles)@,
            n == circles@.len(),
            i <= n,
            forall|j: int| 0 <= j < circles@.len() ==> (#[trigger] circles@[j]).wf(),
            flat@ == circle_snap_vertices(circles@.take(i as int)),
            forall|k: int| 0 <= k < flat@.len() ==> (#[trigger] flat@[k]).position.in_range(),
        decreases n - i,
    {
        let circle = circles[i];
        assert(circles@[i as int].wf());
        proof {
            assert(circles@.take(i + 1).drop_last() =~= circles@.take(i as int));
            assert(circles@.take(i + 1).last() == circle);
        }
        if !circle.is_drawing {
            let x: i128 = circle.center.position.x as i128;
            let y: i128 = circle.center.position.y as i128;
            let r: i128 = circle.radius as i128;
            let c = circle.center.color;
            let ghost before = flat@;
            flat.push(Vertex { position: Point::clamp_from(x, y + r), color: c });
            flat.push(Vertex { position: Point::clamp_from(x - r, y), color: c });
            flat.push(Vertex { position: Point::clamp_from(x, y - r), color: c });
            flat.push(Vertex { position: Point::clamp_from(x + r, y), color: c });
            flat.push(circle.center);
            assert(flat@ =~= before + circle.snap_vertices());
        }
        i += 1;
    }
    assert(circles@.take(n as int) =~= circles@);
    flat
}

/// The distance between two points, rounded to the nearest tick.
pub open spec fn distance(a: Point, b: Point) -> int {
    sqrt_round((a.x - b.x) * (a.x - b.x) + (a.y - b.y) * (a.y - b.y))
}

/// The distance between two storable points, rounded to the nearest tick.
pub fn point_distance(a: Point, b: Point) -> (d: i64)
    requires
        a.in_range(),
        b.in_range(),
    ensures
        d == distance(a, b),
        radius_ok(d as int),
{
    let dx: i128 = a.x as i128 - b.x as i128;
    let dy: i128 = a.y as i128 - b.y as i128;
    assert(0 <= dx * dx <= 4_000_000_000_000_000_000) by (nonlinear_arith)
        requires
            -2_000_000_000 <= dx <= 2_000_000_000,
    ;
    assert(0 <= dy * dy <= 4_000_000_000_000_000_000) by (nonlinear_arith)
        requires
            -2_000_000_000 <= dy <= 2_000_000_000,
    ;
    let d_sq: u128 = (dx * dx + dy * dy) as u128;
    let r = isqrt_round(d_sq);
    proof {
        let s = sqrt_floor(4 * d_sq);
        lemma_sqrt_floor_exists(4 * d_sq);
        if s >= 6_000_000_000 {
            if s > 6_000_000_000 {
                lemma_square_strict(6_000_000_000, s);
            }
            assert(false);
        }
    }
    r as i64
}

impl StateView {
    /// The session after `add_circle(..)`.
    pub open spec fn with_circle(
        self,
        coordinates: Point,
        radius: int,
        color: Color,
        selected_flag: bool,
        del_flag: bool,
        is_drawing: bool,
    ) -> StateView {
        StateView {
            circles: self.circles.push(
                Circle::spec_new(
                    Point::clamped(coordinates.x as int, coordinates.y as int),
                    radius,
                    color,
                    selected_flag,
                    del_flag,
                    is_drawing,
                ),
            ),
            active_circle_index: if is_drawing {
                Some(self.circles.len() as usize)
            } else {
                self.active_circle_index
            },
            ..self
        }
    }

    /// The session after `update_circle(position, is_drawing_flag)`.
    pub open spec fn circle_updated(self, position: Point, is_drawing_flag: bool) -> StateView {
        match self.active_circle() {
            Some(i) => StateView {
                circles: self.circles.update(
                    i,
                    Circle {
                        radius: distance(
                            Point::clamped(position.x as int, position.y as int),
                            self.circles[i].center.position,
                        ) as i64,
                        is_drawing: is_drawing_flag,
                        ..self.circles[i]
                    },
                ),
                active_circle_index: if is_drawing_flag {
                    self.active_circle_index
                } else {
                    None
                },
                ..self
            },
            None => self,
        }
    }

    /// The session after `cancel_drawing_circle()`.
    pub open spec fn circle_cancelled(self) -> StateView {
        StateView {
            circles: match self.active_circle() {
                Some(i) => self.circles.remove(i),
                None => self.circles,
            },
            active_circle_index: None,
            drawing_state: DrawingState::Idle,
            mode: Mode::Normal,
            ..self
        }
    }

    /// The session after `unselect_circles()`.
    pub open spec fn circles_unselected(self) -> StateView {
        StateView {
            circles: self.circles.map_values(|c: Circle| Circle { selected: false, ..c }),
            ..self
        }
    }
}

/// The operations of the session on its circles.
pub trait CircleOps {
    /// The session that the operations act on.
    spec fn circle_session(&self) -> StateView;

    /// Appends a circle around `coordinates`, brought into range, with
    /// the given radius, colour and flags. With `is_drawing` the circle
    /// becomes the one being drawn.
    fn add_circle(
        &mut self,
        coordinates: Point,
        radius: i64,
        color: Color,
        selected_flag: bool,
        del_flag: bool,
        is_drawing: bool,
    )
        requires
            old(self).circle_session().wf(),
        ensures
            final(self).circle_session() == old(self).circle_session().with_circle(
                coordinates,
                radius as int,
                color,
                selected_flag,
                del_flag,
                is_drawing,
            ),
            final(self).circle_session().wf(),
    ;

    /// Gives the circle being drawn the radius that reaches `position`,
    /// and with `is_drawing_flag` unset ends the drawing of it. Without
    /// a circle being drawn nothing changes.
    fn update_circle(&mut self, position: Point, is_drawing_flag: bool)
        requires
            old(self).circle_session().wf(),
        ensures
            final(self).circle_session() == old(self).circle_session().circle_updated(
                position,
                is_drawing_flag,
            ),
            final(self).circle_session().wf(),
    ;

    /// Gives up the circle being drawn: removes it, if there is one, and
    /// goes back to the normal mode with no gesture under way.
    fn cancel_drawing_circle(&mut self)
        requires
            old(self).circle_session().wf(),
        ensures
            final(self).circle_session() == old(self).circle_session().circle_cancelled(),
            final(self).circle_session().wf(),
    ;

    /// Clears the selection of every circle.
    fn unselect_circles(&mut self)
        requires
            old(self).circle_session().wf(),
        ensures
            final(self).circle_session() == old(self).circle_session().circles_unselected(),
            final(self).circle_session().wf(),
    ;
}

impl CircleOps for State {
    open spec fn circle_session(&self) -> StateView {
        self@
    }

    fn add_circle(
        &mut self,
        coordinates: Point,
        radius: i64,
        color: Color,
        selected_flag: bool,
        del_flag: bool,
        is_drawing: bool,
    ) {
        let center = Point::clamp_from(coordinates.x as i128, coordinates.y as i128);
        self.circles.push(Circle::new(center, radius, color, selected_flag, del_flag, is_drawing));
        if is_drawing {
            let index = self.circles.len() - 1;
            self.active_circle_index = Some(index);
        }
    }

    fn update_circle(&mut self, position: Point, is_drawing_flag: bool) {
        if let Some(i) = self.active_circle_index {
            if i < self.circles.len() {
                let p = Point::clamp_from(position.x as i128, position.y as i128);
                let radius = point_distance(p, self.circles[i].center.position);
                self.circles[i].radius = radius;
                self.circles[i].is_drawing = is_drawing_flag;
                if !is_drawing_flag {
                    self.active_circle_index = None;
                }
                assert(self.circles@ =~= old(self)@.circle_updated(position, is_drawing_flag).circles);
            }
        }
    }

    fn cancel_drawing_circle(&mut self) {
        if let Some(i) = self.active_circle_index {
            if i < self.circles.len() {
                self.circles.remove(i);
            }
        }
        self.active_circle_index = None;
        self.drawing_state = DrawingState::Idle;
        self.mode = Mode::Normal;
    }

    fn unselect_circles(&mut self) {
        let n = self.circles.len();
        let mut i: usize = 0;
        while i < n
            invariant
                n == self.circles@.len(),
                n == old(self).circles@.len(),
                i <= n,
                forall|j: int|
                    0 <= j < i ==> #[trigger] self.circles@[j] == (Circle {
                        selected: false,
                        ..old(self).circles@[j]
                    }),
                forall|j: int| i <= j < n ==> #[trigger] self.circles@[j] == old(self).circles@[j],
                self@ == (StateView { circles: self.circles@, ..old(self)@ }),
            decreases n - i,
        {
            if self.circles[i].selected {
                self.circles[i].selected = false;
            }
            i += 1;
        }
        assert(self.circles@ =~= old(self)@.circles_unselected().circles);
    }
}

} // verus!
