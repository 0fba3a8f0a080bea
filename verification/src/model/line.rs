//! Line segments.

use crate::graphics::gui_elements::ColorScheme;
use crate::graphics::vertex::{Color, Point, Vertex};
use crate::units::{abs, abs_i128, clamp, clamp_i128, isqrt, sqrt_floor, RADIUS_MAX};
use crate::{DrawLineMode, DrawingState, Mode, State, StateView};
use vstd::prelude::*;

verus! {

/// Stroke width, in pixels, of an entity created by the editor.
pub const DEFAULT_THICKNESS: u32 = 1;

/// A line segment: two endpoints, stroke width in pixels, and the flags
/// of the editor.
#[derive(Debug, Clone, Copy)]
pub struct Line {
    pub vertices: [Vertex; 2],
    pub thickness: u32,
    pub selected: bool,
    pub del: bool,
    pub is_drawing: bool,
}

/// `-1`, `0` or `1` as `v` is negative, zero or positive.
pub open spec fn sign(v: int) -> int {
    if v < 0 {
        -1
    } else if v == 0 {
        0
    } else {
        1
    }
}

/// One component of a direction `(.., d, ..)` of squared length
/// `dist_sq`, rescaled to the length `len`: `d * len / sqrt(dist_sq)`
/// rounded to the nearest integer, ties away from zero. A length beyond
/// [`RADIUS_MAX`] counts as [`RADIUS_MAX`].
pub open spec fn rescaled(d: int, len: int, dist_sq: int) -> int {
    let l = clamp(abs(len), 0, RADIUS_MAX as int);
    sign(d) * sign(len) * ((sqrt_floor((4 * (d * d) * (l * l)) / dist_sq) + 1) / 2)
}

impl Line {
    /// Both endpoints are storable.
    pub open spec fn wf(&self) -> bool {
        self.vertices[0].position.in_range() && self.vertices[1].position.in_range()
    }

    /// A white line from `start` to `end`, neither selected nor marked
    /// for deletion.
    pub open spec fn spec_new(start: Point, end: Point, is_drawing: bool) -> Line {
        Line {
            vertices: [
                Vertex { position: start, color: Color::white() },
                Vertex { position: end, color: Color::white() },
            ],
            thickness: DEFAULT_THICKNESS,
            selected: false,
            del: false,
            is_drawing,
        }
    }

    /// This line with its free endpoint at `end`, painted white.
    pub open spec fn with_end(self, end: Point) -> Line {
        Line {
            vertices: [self.vertices[0], Vertex { position: end, color: Color::white() }],
            ..self
        }
    }

    /// This line with its endpoints where those of `origin` are,
    /// translated by `(dx, dy)`.
    pub open spec fn placed(self, origin: Line, dx: int, dy: int) -> Line {
        Line {
            vertices: [
                Vertex { position: origin.vertices[0].position.shifted(dx, dy), ..self.vertices[0] },
                Vertex { position: origin.vertices[1].position.shifted(dx, dy), ..self.vertices[1] },
            ],
            ..self
        }
    }

    /// This line with `(dx, dy)` taken off both endpoints.
    pub open spec fn moved(self, dx: int, dy: int) -> Line {
        self.placed(self, -dx, -dy)
    }

    /// Where the free endpoint goes when the line from `start` is given
    /// the length `len` along its present direction. A line of no length
    /// has no direction, and its endpoint stays.
    pub open spec fn end_at_length(self, start: Point, len: int) -> Point {
        let end = self.vertices[1].position;
        let dx = end.x - start.x;
        let dy = end.y - start.y;
        let dist_sq = dx * dx + dy * dy;
        if dist_sq == 0 {
            end
        } else {
            Point::clamped(
                start.x + rescaled(dx, len, dist_sq),
                start.y + rescaled(dy, len, dist_sq),
            )
        }
    }

    /// This line with both vertices in the colour that `scheme` gives it.
    pub open spec fn painted(self, scheme: ColorScheme) -> Line {
        Line {
            vertices: [
                Vertex { color: scheme.paint(self.selected), ..self.vertices[0] },
                Vertex { color: scheme.paint(self.selected), ..self.vertices[1] },
            ],
            ..self
        }
    }

    /// A white line from `start` to `end`, neither selected nor marked
    /// for deletion.
    pub fn new(start: Point, end: Point, is_drawing: bool) -> (line: Line)
        ensures
            line == Line::spec_new(start, end, is_drawing),
    {
        Line {
            vertices: [
                Vertex { position: start, color: Color::white() },
                Vertex { position: end, color: Color::white() },
            ],
            thickness: DEFAULT_THICKNESS,
            selected: false,
            del: false,
            is_drawing,
        }
    }

    /// Takes `(dx, dy)` off both endpoints.
    pub fn move_line(&mut self, dx: i64, dy: i64)
        ensures
            *final(self) == old(self).moved(dx as int, dy as int),
            final(self).wf(),
    {
        let a = self.vertices[0].position;
        let b = self.vertices[1].position;
        self.vertices[0].position = Point::clamp_from(
            a.x as i128 - dx as i128,
            a.y as i128 - dy as i128,
        );
        self.vertices[1].position = Point::clamp_from(
            b.x as i128 - dx as i128,
            b.y as i128 - dy as i128,
        );
        assert(final(self).vertices =~= old(self).moved(dx as int, dy as int).vertices);
    }

    /// Gives the line from `start_pos` the length `desired_len` along its
    /// present direction and ends the drawing of it.
    pub fn finish_line_with_length(&mut self, start_pos: Point, desired_len: i64)
        requires
            old(self).wf(),
            start_pos.in_range(),
        ensures
            *final(self) == (Line {
                is_drawing: false,
                ..old(self).with_end(old(self).end_at_length(start_pos, desired_len as int))
            }),
            final(self).wf(),
    {
        let end_pos = self.vertices[1].position;
        let dx: i128 = end_pos.x as i128 - start_pos.x as i128;
        let dy: i128 = end_pos.y as i128 - start_pos.y as i128;
        assert(0 <= dx * dx <= 4_000_000_000_000_000_000) by (nonlinear_arith)
            requires
                -2_000_000_000 <= dx <= 2_000_000_000,
        ;
        assert(0 <= dy * dy <= 4_000_000_000_000_000_000) by (nonlinear_arith)
            requires
                -2_000_000_000 <= dy <= 2_000_000_000,
        ;
        let dist_sq: i128 = dx * dx + dy * dy;
        let new_end = if dist_sq == 0 {
            end_pos
        } else {
            let rx = rescale(dx, desired_len, dist_sq);
            let ry = rescale(dy, desired_len, dist_sq);
            Point::clamp_from(start_pos.x as i128 + rx as i128, start_pos.y as i128 + ry as i128)
        };
        self.vertices[1] = Vertex { position: new_end, color: Color::white() };
        self.is_drawing = false;
        assert(final(self).vertices =~= old(self).with_end(new_end).vertices);
    }
}

/// `d * len / sqrt(dist_sq)`, rounded to the nearest integer.
pub fn rescale(d: i128, len: i64, dist_sq: i128) -> (r: i64)
    requires
        -2_000_000_000 <= d <= 2_000_000_000,
        0 < dist_sq,
    ensures
        r == rescaled(d as int, len as int, dist_sq as int),
        -7_000_000_000_000_000_000 <= r <= 7_000_000_000_000_000_000,
{
    let l: i128 = clamp_i128(abs_i128(len as i128), 0, RADIUS_MAX) as i128;
    assert(0 <= d * d <= 4_000_000_000_000_000_000) by (nonlinear_arith)
        requires
            -2_000_000_000 <= d <= 2_000_000_000,
    ;
    let dd: i128 = d * d;
    assert(0 <= l * l <= 9_000_000_000_000_000_000) by (nonlinear_arith)
        requires
            0 <= l <= 3_000_000_000,
    ;
    let ll: i128 = l * l;
    assert(0 <= 4 * dd * ll <= 144_000_000_000_000_000_000_000_000_000_000_000_000)
        by (nonlinear_arith)
        requires
            0 <= dd <= 4_000_000_000_000_000_000,
            0 <= ll <= 9_000_000_000_000_000_000,
    ;
    let num: u128 = (4 * dd * ll) as u128;
    let q: u128 = num / (dist_sq as u128);
    let s: u64 = isqrt(q);
    assert(s <= 12_000_000_000_000_000_000) by {
        if s > 12_000_000_000_000_000_000 {
            crate::units::lemma_square_strict(12_000_000_000_000_000_000, s as int);
            assert(q <= num) by (nonlinear_arith)
                requires
                    q == num / (dist_sq as u128),
                    dist_sq >= 1,
            ;
        }
    }
    let m: i64 = ((s + 1) / 2) as i64;
    let negative = (d < 0) != (len < 0);
    if d == 0 || len == 0 {
        assert(m == 0 || sign(d as int) * sign(len as int) == 0);
        assert(rescaled(d as int, len as int, dist_sq as int) == 0) by (nonlinear_arith)
            requires
                sign(d as int) * sign(len as int) == 0,
                rescaled(d as int, len as int, dist_sq as int) == sign(d as int) * sign(
                    len as int,
                ) * ((sqrt_floor(
                    (4 * (d * d) * (clamp(abs(len as int), 0, RADIUS_MAX as int) * clamp(
                        abs(len as int),
                        0,
                        RADIUS_MAX as int,
                    ))) / (dist_sq as int),
                ) + 1) / 2),
        ;
        0
    } else if negative {
        assert(sign(d as int) * sign(len as int) == -1);
        -m
    } else {
        assert(sign(d as int) * sign(len as int) == 1);
        m
    }
}

/// Paints every line for the renderer and returns the vertices of all
/// lines in order, two for each.
pub fn flatten_lines(lines: &mut Vec<Line>, color_scheme: ColorScheme) -> (flat: Vec<Vertex>)
    ensures
        final(lines)@.len() == old(lines)@.len(),
        forall|i: int|
            0 <= i < old(lines)@.len() ==> #[trigger] final(lines)@[i] == old(lines)@[i].painted(
                color_scheme,
            ),
        flat@.len() == 2 * old(lines)@.len(),
        forall|i: int|
            0 <= i < old(lines)@.len() ==> flat@[2 * i] == (#[trigger] final(lines)@[i]).vertices[0]
                && flat@[2 * i + 1] == final(lines)@[i].vertices[1],
{
    let mut flat: Vec<Vertex> = Vec::new();
    let n = lines.len();
    let mut i: usize = 0;
    while i < n
        invariant
            lines@.len() == n,
            n == old(lines)@.len(),
            i <= n,
            flat@.len() == 2 * i,
            forall|j: int| 0 <= j < i ==> #[trigger] lines@[j] == old(lines)@[j].painted(color_scheme),
            forall|j: int| i <= j < n ==> #[trigger] lines@[j] == old(lines)@[j],
            forall|j: int|
                0 <= j < i ==> flat@[2 * j] == (#[trigger] lines@[j]).vertices[0] && flat@[2 * j
                    + 1] == lines@[j].vertices[1],
        decreases n - i,
    {
        let c = color_scheme.paint_color(lines[i].selected);
        let ghost before = lines@[i as int];
        lines[i].vertices[0].color = c;
        lines[i].vertices[1].color = c;
        assert(lines@[i as int].vertices =~= before.painted(color_scheme).vertices);
        flat.push(lines[i].vertices[0]);
        flat.push(lines[i].vertices[1]);
        i += 1;
    }
    flat
}

/// Where the free endpoint of a line anchored at `anchor` goes when the
/// pointer is at `p`: to `p` itself, or in ortho mode onto the
/// horizontal or the vertical through the anchor, whichever `p` is
/// further along.
pub open spec fn free_end(mode: DrawLineMode, anchor: Point, p: Point) -> Point {
    match mode {
        DrawLineMode::Normal => p,
        DrawLineMode::Ortho => if abs(anchor.x - p.x) > abs(anchor.y - p.y) {
            Point { x: p.x, y: anchor.y }
        } else {
            Point { x: anchor.x, y: p.y }
        },
    }
}

impl StateView {
    /// The session after `add_line(start, end, is_drawing_flag)`.
    pub open spec fn with_line(self, start: Point, end: Point, is_drawing_flag: bool) -> StateView {
        StateView {
            lines: self.lines.push(
                Line::spec_new(
                    Point::clamped(start.x as int, start.y as int),
                    Point::clamped(end.x as int, end.y as int),
                    is_drawing_flag,
                ),
            ),
            active_line_index: if is_drawing_flag {
                Some(self.lines.len() as usize)
            } else {
                self.active_line_index
            },
            ..self
        }
    }

    /// The session after `update_line(position, is_drawing_flag)`.
    pub open spec fn line_updated(self, position: Point, is_drawing_flag: bool) -> StateView {
        match (self.mode, self.active_line()) {
            (Mode::DrawLine(m), Some(i)) => StateView {
                lines: self.lines.update(
                    i,
                    Line {
                        is_drawing: is_drawing_flag,
                        ..self.lines[i].with_end(
                            free_end(
                                m,
                                self.lines[i].vertices[0].position,
                                Point::clamped(position.x as int, position.y as int),
                            ),
                        )
                    },
                ),
                active_line_index: if is_drawing_flag {
                    self.active_line_index
                } else {
                    None
                },
                ..self
            },
            _ => self,
        }
    }

    /// The session after `cancel_drawing_line()`.
    pub open spec fn line_cancelled(self) -> StateView {
        StateView {
            lines: match self.active_line() {
                Some(i) => self.lines.remove(i),
                None => self.lines,
            },
            active_line_index: None,
            drawing_state: DrawingState::Idle,
            mode: Mode::Normal,
            ..self
        }
    }

    /// The session after `unselect_lines()`.
    pub open spec fn lines_unselected(self) -> StateView {
        StateView {
            lines: self.lines.map_values(|l: Line| Line { selected: false, ..l }),
            ..self
        }
    }
}

/// The operations of the session on its lines.
pub trait LineOps {
    /// The session that the operations act on.
    spec fn session(&self) -> StateView;

    /// Appends a white line from `start` to `end`, each brought into
    /// range. With `is_drawing_flag` the line becomes the one being drawn.
    fn add_line(&mut self, start: Point, end: Point, is_drawing_flag: bool)
        requires
            old(self).session().wf(),
        ensures
            final(self).session() == old(self).session().with_line(start, end, is_drawing_flag),
            final(self).session().wf(),
    ;

    /// In a line drawing mode, moves the free endpoint of the line being
    /// drawn to `position`, or onto the axis through the anchor in ortho
    /// mode, and with `is_drawing_flag` unset ends the drawing of it.
    /// Without a line being drawn nothing changes.
    fn update_line(&mut self, position: Point, is_drawing_flag: bool)
        requires
            old(self).session().wf(),
        ensures
            final(self).session() == old(self).session().line_updated(position, is_drawing_flag),
            final(self).session().wf(),
    ;

    /// Gives up the line being drawn: removes it, if there is one, and
    /// goes back to the normal mode with no gesture under way.
    fn cancel_drawing_line(&mut self)
        requires
            old(self).session().wf(),
        ensures
            final(self).session() == old(self).session().line_cancelled(),
            final(self).session().wf(),
    ;

    /// Clears the selection of every line.
    fn unselect_lines(&mut self)
        requires
            old(self).session().wf(),
        ensures
            final(self).session() == old(self).session().lines_unselected(),
            final(self).session().wf(),
    ;
}

impl LineOps for State {
    open spec fn session(&self) -> StateView {
        self@
    }

    fn add_line(&mut self, start: Point, end: Point, is_drawing_flag: bool) {
        let a = Point::clamp_from(start.x as i128, start.y as i128);
        let b = Point::clamp_from(end.x as i128, end.y as i128);
        self.lines.push(Line::new(a, b, is_drawing_flag));
        if is_drawing_flag {
            let index = self.lines.len() - 1;
            self.active_line_index = Some(index);
        }
    }

    fn update_line(&mut self, position: Point, is_drawing_flag: bool) {
        let p = Point::clamp_from(position.x as i128, position.y as i128);
        if let Mode::DrawLine(m) = self.mode {
            if let Some(i) = self.active_line_index {
                if i < self.lines.len() {
                    let anchor = self.lines[i].vertices[0].position;
                    let end = match m {
                        DrawLineMode::Normal => p,
                        DrawLineMode::Ortho => {
                            let dx = abs_i128(anchor.x as i128 - p.x as i128);
                            let dy = abs_i128(anchor.y as i128 - p.y as i128);
                            if dx > dy {
                                Point { x: p.x, y: anchor.y }
                            } else {
                                Point { x: anchor.x, y: p.y }
                            }
                        },
                    };
                    let ghost before = self.lines@[i as int];
                    self.lines[i].vertices[1] = Vertex { position: end, color: Color::white() };
                    self.lines[i].is_drawing = is_drawing_flag;
                    assert(self.lines@[i as int].vertices =~= before.with_end(end).vertices);
                    if !is_drawing_flag {
                        self.active_line_index = None;
                    }
                    assert(self.lines@ =~= old(self)@.line_updated(position, is_drawing_flag).lines);
                }
            }
        }
    }

    fn cancel_drawing_line(&mut self) {
        if let Some(i) = self.active_line_index {
            if i < self.lines.len() {
                self.lines.remove(i);
            }
        }
        self.active_line_index = None;
        self.drawing_state = DrawingState::Idle;
        self.mode = Mode::Normal;
    }

    fn unselect_lines(&mut self) {
        let n = self.lines.len();
        let mut i: usize = 0;
        while i < n
            invariant
                n == self.lines@.len(),
                n == old(self).lines@.len(),
                i <= n,
                forall|j: int|
                    0 <= j < i ==> #[trigger] self.lines@[j] == (Line {
                        selected: false,
                        ..old(self).lines@[j]
                    }),
                forall|j: int| i <= j < n ==> #[trigger] self.lines@[j] == old(self).lines@[j],
                self@ == (StateView { lines: self.lines@, ..old(self)@ }),
            decreases n - i,
        {
            if self.lines[i].selected {
                self.lines[i].selected = false;
            }
            i += 1;
        }
        assert(self.lines@ =~= old(self)@.lines_unselected().lines);
    }
}

/// In ortho mode the free endpoint lies on the horizontal or on the
/// vertical through the anchor, at the pointer's coordinate along it.
pub proof fn lemma_ortho_is_axis_aligned(anchor: Point, p: Point)
    ensures
        ({
            let e = free_end(DrawLineMode::Ortho, anchor, p);
            ||| e.y == anchor.y && e.x == p.x && abs(anchor.x - p.x) > abs(anchor.y - p.y)
            ||| e.x == anchor.x && e.y == p.y && abs(anchor.x - p.x) <= abs(anchor.y - p.y)
        }),
        free_end(DrawLineMode::Normal, anchor, p) == p,
{
}

/// The magnitude `m` of a rescaled component is the integer nearest to
/// the exact value `|d| * len / sqrt(dist_sq)`:
/// `(2m - 1)^2 * dist_sq <= 4 * d^2 * len^2 < (2m + 1)^2 * dist_sq`,
/// and the component has the sign of `d * len`.
pub proof fn lemma_rescaled_is_nearest(d: int, len: int, dist_sq: int)
    requires
        dist_sq > 0,
        -RADIUS_MAX <= len <= RADIUS_MAX,
    ensures
        ({
            let m = abs(rescaled(d, len, dist_sq));
            let n = 4 * (d * d) * (len * len);
            &&& rescaled(d, len, dist_sq) == sign(d) * sign(len) * m || m == 0
            &&& m == 0 || (2 * m - 1) * (2 * m - 1) * dist_sq <= n
            &&& d != 0 && len != 0 ==> n < (2 * m + 1) * (2 * m + 1) * dist_sq
        }),
{
    let l = clamp(abs(len), 0, RADIUS_MAX as int);
    assert(l == abs(len));
    assert(l * l == len * len) by (nonlinear_arith)
        requires
            l == len || l == -len,
    ;
    let n = 4 * (d * d) * (l * l);
    assert(n >= 0) by (nonlinear_arith)
        requires
            n == 4 * (d * d) * (l * l),
    ;
    let q = n / dist_sq;
    assert(0 <= q && q * dist_sq <= n < (q + 1) * dist_sq) by (nonlinear_arith)
        requires
            q == n / dist_sq,
            dist_sq > 0,
            n >= 0,
    ;
    crate::units::lemma_sqrt_floor_exists(q);
    let s = sqrt_floor(q);
    let k = (s + 1) / 2;
    let sg = sign(d) * sign(len);
    assert(sg == 1 || sg == -1 || sg == 0);
    assert(rescaled(d, len, dist_sq) == sg * k);
    assert(sg * k == k || sg * k == -k || sg * k == 0) by (nonlinear_arith)
        requires
            sg == 1 || sg == -1 || sg == 0,
    ;
    let m = abs(rescaled(d, len, dist_sq));
    assert(m == k || m == 0);
    if d != 0 && len != 0 {
        assert(sg != 0);
        assert(m == k);
        // n < (s + 1)^2 * dist_sq <= (2k + 1)^2 * dist_sq
        assert(n < (2 * k + 1) * (2 * k + 1) * dist_sq) by (nonlinear_arith)
            requires
                n < (q + 1) * dist_sq,
                q < (s + 1) * (s + 1),
                0 <= s,
                s + 1 <= 2 * k + 1,
                dist_sq > 0,
        ;
    }
    if m != 0 {
        assert(m == k);
        assert((2 * k - 1) * (2 * k - 1) * dist_sq <= n) by (nonlinear_arith)
            requires
                s * s <= q,
                q * dist_sq <= n,
                1 <= 2 * k - 1 <= s,
                dist_sq > 0,
        ;
    }
}

} // verus!
