//! Selecting and deleting by click: every line and every circle whose
//! outline passes within the threshold of the clicked point is hit, however
//! many lie under it.

use crate::geometry::{
    boundary_distance, circle_hit, dist_sq, point_segment_distance, segment_distance,
};
use crate::graphics::vertex::Point;
use crate::model::circle::Circle;
use crate::model::line::Line;
use crate::transform::{lemma_filter_circles_wf, lemma_filter_lines_wf};
use crate::{circles_wf, lines_wf};
use vstd::prelude::*;

verus! {

/// The line passes within `thr` of `p`.
pub open spec fn line_hit(l: Line, p: Point, thr: int) -> bool {
    segment_distance(
        p.x as int,
        p.y as int,
        l.vertices[0].position.x as int,
        l.vertices[0].position.y as int,
        l.vertices[1].position.x as int,
        l.vertices[1].position.y as int,
    ) < thr
}

/// The boundary of the circle passes within `thr` of `p`.
pub open spec fn circle_boundary_hit(c: Circle, p: Point, thr: int) -> bool {
    boundary_distance(
        dist_sq(
            p.x as int,
            p.y as int,
            c.center.position.x as int,
            c.center.position.y as int,
        ),
        c.radius as int,
    ) < thr
}

/// A line as a selecting click at `p` leaves it.
pub open spec fn line_clicked(l: Line, p: Point, thr: int) -> Line {
    if line_hit(l, p, thr) && !l.selected {
        Line { selected: true, ..l }
    } else {
        l
    }
}

/// A circle as a selecting click at `p` leaves it.
pub open spec fn circle_clicked(c: Circle, p: Point, thr: int) -> Circle {
    if circle_boundary_hit(c, p, thr) && !c.selected {
        Circle { selected: true, ..c }
    } else {
        c
    }
}

/// A click at `p` selects a line that was not selected.
pub open spec fn selects_line(lines: Seq<Line>, p: Point, thr: int) -> bool {
    exists|i: int| 0 <= i < lines.len() && line_hit(#[trigger] lines[i], p, thr) && !lines[i].selected
}

/// A click at `p` selects a circle that was not selected.
pub open spec fn selects_circle(circles: Seq<Circle>, p: Point, thr: int) -> bool {
    exists|i: int|
        0 <= i < circles.len() && circle_boundary_hit(#[trigger] circles[i], p, thr)
            && !circles[i].selected
}

/// The lines that a click at `p` misses.
pub open spec fn line_missed(p: Point, thr: int) -> spec_fn(Line) -> bool {
    |l: Line| !line_hit(l, p, thr)
}

/// The circles that a click at `p` misses.
pub open spec fn circle_missed(p: Point, thr: int) -> spec_fn(Circle) -> bool {
    |c: Circle| !circle_boundary_hit(c, p, thr)
}

/// Whether the line passes within `thr` of `p`.
pub fn hits_line(l: &Line, p: Point, thr: i64) -> (b: bool)
    requires
        l.wf(),
        p.in_range(),
    ensures
        b == line_hit(*l, p, thr as int),
{
    let a = l.vertices[0].position;
    let b = l.vertices[1].position;
    point_segment_distance(p.x, p.y, a.x, a.y, b.x, b.y) < thr
}

/// Whether the boundary of the circle passes within `thr` of `p`.
pub fn hits_circle(c: &Circle, p: Point, thr: i64) -> (b: bool)
    requires
        c.wf(),
        p.in_range(),
    ensures
        b == circle_boundary_hit(*c, p, thr as int),
{
    circle_hit(p.x, p.y, c.center.position.x, c.center.position.y, c.radius) < thr
}

/// Selects every line within `thr` of `p`; tells whether one was newly
/// selected.
pub fn select_lines_at(lines: &mut Vec<Line>, p: Point, thr: i64) -> (update: bool)
    requires
        lines_wf(old(lines)@),
        p.in_range(),
    ensures
        final(lines)@ == old(lines)@.map_values(|l: Line| line_clicked(l, p, thr as int)),
        update == selects_line(old(lines)@, p, thr as int),
        lines_wf(final(lines)@),
{
    let mut update = false;
    let n = lines.len();
    let mut i: usize = 0;
    while i < n
        invariant
            n == lines@.len(),
            n == old(lines)@.len(),
            i <= n,
            p.in_range(),
            lines_wf(lines@),
            forall|j: int|
                0 <= j < i ==> #[trigger] lines@[j] == line_clicked(old(lines)@[j], p, thr as int),
            forall|j: int| i <= j < n ==> #[trigger] lines@[j] == old(lines)@[j],
            update == selects_line(old(lines)@.take(i as int), p, thr as int),
        decreases n - i,
    {
        let hit = hits_line(&lines[i], p, thr) && !lines[i].selected;
        proof {
            let before = old(lines)@.take(i as int);
            let after = old(lines)@.take(i + 1);
            if selects_line(before, p, thr as int) {
                let k = choose|k: int|
                    0 <= k < before.len() && line_hit(#[trigger] before[k], p, thr as int)
                        && !before[k].selected;
                assert(after[k] == before[k]);
            }
            if hit {
                assert(after[i as int] == old(lines)@[i as int]);
            }
            if selects_line(after, p, thr as int) && !hit {
                let k = choose|k: int|
                    0 <= k < after.len() && line_hit(#[trigger] after[k], p, thr as int)
                        && !after[k].selected;
                assert(k < i);
                assert(before[k] == after[k]);
            }
        }
        if hit {
            lines[i].selected = true;
            update = true;
        }
        i += 1;
    }
    assert(old(lines)@.take(n as int) =~= old(lines)@);
    assert(lines@ =~= old(lines)@.map_values(|l: Line| line_clicked(l, p, thr as int)));
    update
}

/// Selects every circle whose boundary is within `thr` of `p`; tells
/// whether one was newly selected.
pub fn select_circles_at(circles: &mut Vec<Circle>, p: Point, thr: i64) -> (update: bool)
    requires
        circles_wf(old(circles)@),
        p.in_range(),
    ensures
        final(circles)@ == old(circles)@.map_values(|c: Circle| circle_clicked(c, p, thr as int)),
        update == selects_circle(old(circles)@, p, thr as int),
        circles_wf(final(circles)@),
{
    let mut update = false;
    let n = circles.len();
    let mut i: usize = 0;
    while i < n
        invariant
            n == circles@.len(),
            n == old(circles)@.len(),
            i <= n,
            p.in_range(),
            circles_wf(circles@),
            forall|j: int|
                0 <= j < i ==> #[trigger] circles@[j] == circle_clicked(
                    old(circles)@[j],
                    p,
                    thr as int,
                ),
            forall|j: int| i <= j < n ==> #[trigger] circles@[j] == old(circles)@[j],
            update == selects_circle(old(circles)@.take(i as int), p, thr as int),
        decreases n - i,
    {
        let hit = hits_circle(&circles[i], p, thr) && !circles[i].selected;
        proof {
            let before = old(circles)@.take(i as int);
            let after = old(circles)@.take(i + 1);
            if selects_circle(before, p, thr as int) {
                let k = choose|k: int|
                    0 <= k < before.len() && circle_boundary_hit(#[trigger] before[k], p, thr as int)
                        && !before[k].selected;
                assert(after[k] == before[k]);
            }
            if hit {
                assert(after[i as int] == old(circles)@[i as int]);
            }
            if selects_circle(after, p, thr as int) && !hit {
                let k = choose|k: int|
                    0 <= k < after.len() && circle_boundary_hit(#[trigger] after[k], p, thr as int)
                        && !after[k].selected;
                assert(k < i);
                assert(before[k] == after[k]);
            }
        }
        if hit {
            circles[i].selected = true;
            update = true;
        }
        i += 1;
    }
    assert(old(circles)@.take(n as int) =~= old(circles)@);
    assert(circles@ =~= old(circles)@.map_values(|c: Circle| circle_clicked(c, p, thr as int)));
    update
}

/// Removes every line within `thr` of `p`.
pub fn delete_lines_at(lines: &mut Vec<Line>, p: Point, thr: i64)
    requires
        lines_wf(old(lines)@),
        p.in_range(),
    ensures
        final(lines)@ == old(lines)@.filter(line_missed(p, thr as int)),
        lines_wf(final(lines)@),
{
    let mut kept: Vec<Line> = Vec::new();
    let n = lines.len();
    let mut i: usize = 0;
    assert(lines@.take(0) =~= Seq::<Line>::empty());
    while i < n
        invariant
            n == lines@.len(),
            lines@ == old(lines)@,
            i <= n,
            p.in_range(),
            lines_wf(lines@),
            kept@ == lines@.take(i as int).filter(line_missed(p, thr as int)),
        decreases n - i,
    {
        proof {
            assert(lines@.take(i + 1).drop_last() =~= lines@.take(i as int));
            assert(lines@.take(i + 1).last() == lines@[i as int]);
            reveal(Seq::filter);
        }
        if !hits_line(&lines[i], p, thr) {
            kept.push(lines[i]);
        }
        i += 1;
    }
    proof {
        assert(lines@.take(n as int) =~= lines@);
        lemma_filter_lines_wf(lines@, line_missed(p, thr as int));
    }
    *lines = kept;
}

/// Removes every circle whose boundary is within `thr` of `p`.
pub fn delete_circles_at(circles: &mut Vec<Circle>, p: Point, thr: i64)
    requires
        circles_wf(old(circles)@),
        p.in_range(),
    ensures
        final(circles)@ == old(circles)@.filter(circle_missed(p, thr as int)),
        circles_wf(final(circles)@),
{
    let mut kept: Vec<Circle> = Vec::new();
    let n = circles.len();
    let mut i: usize = 0;
    assert(circles@.take(0) =~= Seq::<Circle>::empty());
    while i < n
        invariant
            n == circles@.len(),
            circles@ == old(circles)@,
            i <= n,
            p.in_range(),
            circles_wf(circles@),
            kept@ == circles@.take(i as int).filter(circle_missed(p, thr as int)),
        decreases n - i,
    {
        proof {
            assert(circles@.take(i + 1).drop_last() =~= circles@.take(i as int));
            assert(circles@.take(i + 1).last() == circles@[i as int]);
            reveal(Seq::filter);
        }
        if !hits_circle(&circles[i], p, thr) {
            kept.push(circles[i]);
        }
        i += 1;
    }
    proof {
        assert(circles@.take(n as int) =~= circles@);
        lemma_filter_circles_wf(circles@, circle_missed(p, thr as int));
    }
    *circles = kept;
}

} // verus!
