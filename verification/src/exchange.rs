//! The mapping between the drawing and the primitives of the exchange
//! file: every line is a two-point line primitive and every circle a
//! centre-and-radius primitive, in world ticks, and back. Reading and
//! writing the file itself is left to the application.

use crate::graphics::vertex::{Color, Point};
use crate::model::circle::{Circle, CircleOps};
use crate::model::line::{Line, LineOps};
use crate::{circles_wf, lines_wf, State, StateView};
use vstd::prelude::*;

verus! {

/// A primitive of the exchange file.
#[derive(Clone, Copy, Debug, PartialEq, Eq, Structural)]
pub enum Primitive {
    Line { start: Point, end: Point },
    Circle { center: Point, radius: i64 },
    /// Any primitive the editor has no entity for.
    Unsupported,
}

/// The primitive a line is written as.
pub open spec fn line_primitive(l: Line) -> Primitive {
    Primitive::Line { start: l.vertices[0].position, end: l.vertices[1].position }
}

/// The primitive a circle is written as.
pub open spec fn circle_primitive(c: Circle) -> Primitive {
    Primitive::Circle { center: c.center.position, radius: c.radius }
}

/// The primitives a drawing is written as: its lines, then its circles.
pub open spec fn exported(lines: Seq<Line>, circles: Seq<Circle>) -> Seq<Primitive> {
    lines.map_values(|l: Line| line_primitive(l)) + circles.map_values(
        |c: Circle| circle_primitive(c),
    )
}

/// A line as it comes back from the exchange file: the same endpoints,
/// white, with every flag cleared.
pub open spec fn line_read_back(l: Line) -> Line {
    Line::spec_new(l.vertices[0].position, l.vertices[1].position, false)
}

/// A circle as it comes back from the exchange file: the same centre and
/// radius, white, with every flag cleared.
pub open spec fn circle_read_back(c: Circle) -> Circle {
    Circle::spec_new(c.center.position, c.radius as int, Color::white(), false, false, false)
}

impl StateView {
    /// The session after one primitive is read in.
    pub open spec fn with_primitive(self, p: Primitive) -> StateView {
        match p {
            Primitive::Line { start, end } => self.with_line(start, end, false),
            Primitive::Circle { center, radius } => self.with_circle(
                center,
                radius as int,
                Color::white(),
                false,
                false,
                false,
            ),
            Primitive::Unsupported => self,
        }
    }

    /// The session after the primitives are read in, in their order:
    /// every line and circle primitive becomes a finished, unselected
    /// entity at the end of its collection, and every other primitive is
    /// passed over.
    pub open spec fn imported(self, primitives: Seq<Primitive>) -> StateView
        decreases primitives.len(),
    {
        if primitives.len() == 0 {
            self
        } else {
            self.imported(primitives.drop_last()).with_primitive(primitives.last())
        }
    }
}

impl State {
    /// The primitives to write to the exchange file.
    pub fn save_to_dxf(&self) -> (primitives: Vec<Primitive>)
        ensures
            primitives@ == exported(self@.lines, self@.circles),
    {
        let mut primitives: Vec<Primitive> = Vec::new();
        let n = self.lines.len();
        let mut i: usize = 0;
        while i < n
            invariant
                n == self.lines@.len(),
                i <= n,
                primitives@ == self.lines@.take(i as int).map_values(|l: Line| line_primitive(l)),
            decreases n - i,
        {
            let start_position = self.lines[i].vertices[0].position;
            let end_position = self.lines[i].vertices[1].position;
            let ghost before = primitives@;
            primitives.push(Primitive::Line { start: start_position, end: end_position });
            assert(primitives@ =~= self.lines@.take(i + 1).map_values(|l: Line| line_primitive(l)));
            i += 1;
        }
        assert(self.lines@.take(n as int) =~= self.lines@);
        let m = self.circles.len();
        let mut j: usize = 0;
        let ghost line_part = primitives@;
        while j < m
            invariant
                m == self.circles@.len(),
                j <= m,
                line_part == self.lines@.map_values(|l: Line| line_primitive(l)),
                primitives@ == line_part + self.circles@.take(j as int).map_values(
                    |c: Circle| circle_primitive(c),
                ),
            decreases m - j,
        {
            let circle = self.circles[j];
            primitives.push(
                Primitive::Circle { center: circle.center.position, radius: circle.radius },
            );
            assert(primitives@ =~= line_part + self.circles@.take(j + 1).map_values(
                |c: Circle| circle_primitive(c),
            ));
            j += 1;
        }
        assert(self.circles@.take(m as int) =~= self.circles@);
        primitives
    }

    /// Adds the primitives read from an exchange file to the drawing.
    pub fn load_from_dxf(&mut self, primitives: &Vec<Primitive>)
        requires
            old(self).wf(),
        ensures
            final(self)@ == old(self)@.imported(primitives@),
            final(self).wf(),
    {
        let n = primitives.len();
        let mut i: usize = 0;
        assert(primitives@.take(0) =~= Seq::<Primitive>::empty());
        while i < n
            invariant
                n == primitives@.len(),
                i <= n,
                self.wf(),
                self@ == old(self)@.imported(primitives@.take(i as int)),
            decreases n - i,
        {
            proof {
                assert(primitives@.take(i + 1).drop_last() =~= primitives@.take(i as int));
                assert(primitives@.take(i + 1).last() == primitives@[i as int]);
            }
            match primitives[i] {
                Primitive::Line { start, end } => {
                    self.add_line(start, end, false);
                },
                Primitive::Circle { center, radius } => {
                    self.add_circle(center, radius, Color::white(), false, false, false);
                },
                Primitive::Unsupported => {},
            }
            i += 1;
        }
        assert(primitives@.take(n as int) =~= primitives@);
    }
}

/// Reading in one sequence of primitives after another is reading in
/// the two joined.
pub proof fn lemma_imported_concat(s: StateView, a: Seq<Primitive>, b: Seq<Primitive>)
    ensures
        s.imported(a + b) == s.imported(a).imported(b),
    decreases b.len(),
{
    if b.len() == 0 {
        assert(a + b =~= a);
    } else {
        assert((a + b).drop_last() =~= a + b.drop_last());
        assert((a + b).last() == b.last());
        lemma_imported_concat(s, a, b.drop_last());
    }
}

/// Reading in the primitives of well-formed lines appends those lines,
/// read back, and touches nothing else.
pub proof fn lemma_imported_lines(s: StateView, lines: Seq<Line>)
    requires
        lines_wf(lines),
    ensures
        s.imported(lines.map_values(|l: Line| line_primitive(l))) == (StateView {
            lines: s.lines + lines.map_values(|l: Line| line_read_back(l)),
            ..s
        }),
    decreases lines.len(),
{
    let prims = lines.map_values(|l: Line| line_primitive(l));
    if lines.len() == 0 {
        assert(s.lines + lines.map_values(|l: Line| line_read_back(l)) =~= s.lines);
    } else {
        let rest = lines.drop_last();
        assert(prims.drop_last() =~= rest.map_values(|l: Line| line_primitive(l)));
        assert(lines_wf(rest)) by {
            assert forall|i: int| 0 <= i < rest.len() implies (#[trigger] rest[i]).wf() by {
                assert(rest[i] == lines[i]);
            }
        }
        lemma_imported_lines(s, rest);
        let last = lines.last();
        assert(last.wf());
        assert(s.lines + lines.map_values(|l: Line| line_read_back(l)) =~= (s.lines
            + rest.map_values(|l: Line| line_read_back(l))).push(line_read_back(last)));
    }
}

/// Reading in the primitives of well-formed circles appends those
/// circles, read back, and touches nothing else.
pub proof fn lemma_imported_circles(s: StateView, circles: Seq<Circle>)
    requires
        circles_wf(circles),
    ensures
        s.imported(circles.map_values(|c: Circle| circle_primitive(c))) == (StateView {
            circles: s.circles + circles.map_values(|c: Circle| circle_read_back(c)),
            ..s
        }),
    decreases circles.len(),
{
    let prims = circles.map_values(|c: Circle| circle_primitive(c));
    if circles.len() == 0 {
        assert(s.circles + circles.map_values(|c: Circle| circle_read_back(c)) =~= s.circles);
    } else {
        let rest = circles.drop_last();
        assert(prims.drop_last() =~= rest.map_values(|c: Circle| circle_primitive(c)));
        assert(circles_wf(rest)) by {
            assert forall|i: int| 0 <= i < rest.len() implies (#[trigger] rest[i]).wf() by {
                assert(rest[i] == circles[i]);
            }
        }
        lemma_imported_circles(s, rest);
        let last = circles.last();
        assert(last.wf());
        assert(s.circles + circles.map_values(|c: Circle| circle_read_back(c)) =~= (s.circles
            + rest.map_values(|c: Circle| circle_read_back(c))).push(circle_read_back(last)));
    }
}

/// Round trip: writing a drawing out and reading it into an empty
/// session gives back the same lines and the same circles, in the same
/// order and at the same positions, with every transient flag cleared;
/// written out again they are the same primitives.
pub proof fn lemma_round_trip(s: StateView, lines: Seq<Line>, circles: Seq<Circle>)
    requires
        lines_wf(lines),
        circles_wf(circles),
        s.lines.len() == 0,
        s.circles.len() == 0,
    ensures
        ({
            let back = s.imported(exported(lines, circles));
            &&& back == (StateView {
                lines: lines.map_values(|l: Line| line_read_back(l)),
                circles: circles.map_values(|c: Circle| circle_read_back(c)),
                ..s
            })
            &&& exported(back.lines, back.circles) == exported(lines, circles)
            &&& forall|i: int|
                0 <= i < back.lines.len() ==> !(#[trigger] back.lines[i]).selected
                    && !back.lines[i].del && !back.lines[i].is_drawing
            &&& forall|i: int|
                0 <= i < back.circles.len() ==> !(#[trigger] back.circles[i]).selected
                    && !back.circles[i].del && !back.circles[i].is_drawing
        }),
{
    let lp = lines.map_values(|l: Line| line_primitive(l));
    let cp = circles.map_values(|c: Circle| circle_primitive(c));
    lemma_imported_concat(s, lp, cp);
    lemma_imported_lines(s, lines);
    let mid = s.imported(lp);
    lemma_imported_circles(mid, circles);
    let back = s.imported(exported(lines, circles));
    assert(back.lines =~= lines.map_values(|l: Line| line_read_back(l)));
    assert(back.circles =~= circles.map_values(|c: Circle| circle_read_back(c)));
    assert(back.lines.map_values(|l: Line| line_primitive(l)) =~= lp);
    assert(back.circles.map_values(|c: Circle| circle_primitive(c)) =~= cp) by {
        assert forall|i: int| 0 <= i < circles.len() implies circle_primitive(
            circle_read_back(circles[i]),
        ) == circle_primitive(circles[i]) by {
            assert(circles[i].wf());
        }
    }
}

} // verus!
