//! Move and copy: lifting the selection off the drawing, carrying it
//! along with the cursor, and dropping it.
//!
//! Lifting leaves the selected entities in place, unselected, and marked
//! for deletion when the selection is moved, and appends a copy of each,
//! still selected and flagged as being drawn, to the end of its
//! collection. The copies are what the cursor carries, and the session
//! keeps them as they were lifted: on every movement of the cursor each
//! carried entity is put where it was lifted, translated by the anchor
//! less the cursor, so that the translation is worked out afresh from the
//! anchor and never accumulated. Dropping clears the flags of the carried
//! entities and purges whatever is marked for deletion.

use crate::graphics::vertex::Point;
use crate::model::circle::Circle;
use crate::model::line::Line;
use crate::{circles_wf, lines_wf};
use vstd::prelude::*;

verus! {

/// The lines that are selected.
pub open spec fn line_selected() -> spec_fn(Line) -> bool {
    |l: Line| l.selected
}

/// The circles that are selected.
pub open spec fn circle_selected() -> spec_fn(Circle) -> bool {
    |c: Circle| c.selected
}

/// The lines that are not marked for deletion.
pub open spec fn line_kept() -> spec_fn(Line) -> bool {
    |l: Line| !l.del
}

/// The circles that are not marked for deletion.
pub open spec fn circle_kept() -> spec_fn(Circle) -> bool {
    |c: Circle| !c.del
}

/// A line as lifting leaves it behind.
pub open spec fn line_left_behind(l: Line, is_move: bool) -> Line {
    if l.selected {
        Line { selected: false, del: is_move, ..l }
    } else {
        l
    }
}

/// A circle as lifting leaves it behind.
pub open spec fn circle_left_behind(c: Circle, is_move: bool) -> Circle {
    if c.selected {
        Circle { selected: false, del: is_move, ..c }
    } else {
        c
    }
}

/// The copy of a selected line that the cursor carries.
pub open spec fn line_carried(l: Line) -> Line {
    Line { is_drawing: true, ..l }
}

/// The copy of a selected circle that the cursor carries.
pub open spec fn circle_carried(c: Circle) -> Circle {
    Circle { is_drawing: true, ..c }
}

/// A line as dropping leaves it.
pub open spec fn line_set_down(l: Line) -> Line {
    if l.selected {
        Line { selected: false, is_drawing: false, ..l }
    } else {
        l
    }
}

/// A circle as dropping leaves it.
pub open spec fn circle_set_down(c: Circle) -> Circle {
    if c.selected {
        Circle { selected: false, is_drawing: false, ..c }
    } else {
        c
    }
}

/// The selected lines as lifting hands them to the cursor.
pub open spec fn lines_to_carry(lines: Seq<Line>) -> Seq<Line> {
    lines.filter(line_selected()).map_values(|l: Line| line_carried(l))
}

/// The selected circles as lifting hands them to the cursor.
pub open spec fn circles_to_carry(circles: Seq<Circle>) -> Seq<Circle> {
    circles.filter(circle_selected()).map_values(|c: Circle| circle_carried(c))
}

/// The lines after the selection is lifted.
pub open spec fn lines_lifted(lines: Seq<Line>, is_move: bool) -> Seq<Line> {
    lines.map_values(|l: Line| line_left_behind(l, is_move)) + lines_to_carry(lines)
}

/// The circles after the selection is lifted.
pub open spec fn circles_lifted(circles: Seq<Circle>, is_move: bool) -> Seq<Circle> {
    circles.map_values(|c: Circle| circle_left_behind(c, is_move)) + circles_to_carry(circles)
}

/// How many of the lines before index `i` are selected.
pub open spec fn selected_lines_before(lines: Seq<Line>, i: int) -> int {
    lines.take(i).filter(line_selected()).len() as int
}

/// How many of the circles before index `i` are selected.
pub open spec fn selected_circles_before(circles: Seq<Circle>, i: int) -> int {
    circles.take(i).filter(circle_selected()).len() as int
}

/// The `i`-th line while the selection is carried: the `k`-th selected
/// line lies where the `k`-th lifted line was lifted, translated by
/// `(dx, dy)`; a line that is not selected, or for which nothing was
/// lifted, stays.
pub open spec fn line_carried_at(lines: Seq<Line>, lifted: Seq<Line>, dx: int, dy: int, i: int) -> Line {
    let k = selected_lines_before(lines, i);
    if lines[i].selected && k < lifted.len() {
        lines[i].placed(lifted[k], dx, dy)
    } else {
        lines[i]
    }
}

/// The `i`-th circle while the selection is carried.
pub open spec fn circle_carried_at(
    circles: Seq<Circle>,
    lifted: Seq<Circle>,
    dx: int,
    dy: int,
    i: int,
) -> Circle {
    let k = selected_circles_before(circles, i);
    if circles[i].selected && k < lifted.len() {
        circles[i].placed(lifted[k], dx, dy)
    } else {
        circles[i]
    }
}

/// The lines while the selection is carried with the translation
/// `(dx, dy)` from where it was lifted.
pub open spec fn lines_carried(lines: Seq<Line>, lifted: Seq<Line>, dx: int, dy: int) -> Seq<Line> {
    Seq::new(lines.len(), |i: int| line_carried_at(lines, lifted, dx, dy, i))
}

/// The circles while the selection is carried with the translation
/// `(dx, dy)` from where it was lifted.
pub open spec fn circles_carried(
    circles: Seq<Circle>,
    lifted: Seq<Circle>,
    dx: int,
    dy: int,
) -> Seq<Circle> {
    Seq::new(circles.len(), |i: int| circle_carried_at(circles, lifted, dx, dy, i))
}

/// The lines after the selection is dropped.
pub open spec fn lines_dropped(lines: Seq<Line>) -> Seq<Line> {
    lines.map_values(|l: Line| line_set_down(l)).filter(line_kept())
}

/// The circles after the selection is dropped.
pub open spec fn circles_dropped(circles: Seq<Circle>) -> Seq<Circle> {
    circles.map_values(|c: Circle| circle_set_down(c)).filter(circle_kept())
}

/// What a filter keeps of well-formed lines is well formed.
pub proof fn lemma_filter_lines_wf(lines: Seq<Line>, pred: spec_fn(Line) -> bool)
    requires
        lines_wf(lines),
    ensures
        lines_wf(lines.filter(pred)),
        lines.filter(pred).len() <= lines.len(),
    decreases lines.len(),
{
    reveal(Seq::filter);
    if lines.len() > 0 {
        assert(lines_wf(lines.drop_last())) by {
            assert forall|i: int| 0 <= i < lines.drop_last().len() implies (
            #[trigger] lines.drop_last()[i]).wf() by {
                assert(lines.drop_last()[i] == lines[i]);
            }
        }
        lemma_filter_lines_wf(lines.drop_last(), pred);
    }
}

/// What a filter keeps of well-formed circles is well formed.
pub proof fn lemma_filter_circles_wf(circles: Seq<Circle>, pred: spec_fn(Circle) -> bool)
    requires
        circles_wf(circles),
    ensures
        circles_wf(circles.filter(pred)),
        circles.filter(pred).len() <= circles.len(),
    decreases circles.len(),
{
    reveal(Seq::filter);
    if circles.len() > 0 {
        assert(circles_wf(circles.drop_last())) by {
            assert forall|i: int| 0 <= i < circles.drop_last().len() implies (
            #[trigger] circles.drop_last()[i]).wf() by {
                assert(circles.drop_last()[i] == circles[i]);
            }
        }
        lemma_filter_circles_wf(circles.drop_last(), pred);
    }
}

/// Lifts the selected lines, and returns the copies that the cursor
/// carries as they are lifted: see the module's description.
pub fn lift_selected_lines(lines: &mut Vec<Line>, is_move: bool) -> (lifted: Vec<Line>)
    requires
        lines_wf(old(lines)@),
    ensures
        final(lines)@ == lines_lifted(old(lines)@, is_move),
        lifted@ == lines_to_carry(old(lines)@),
        lines_wf(final(lines)@),
        lines_wf(lifted@),
{
    let mut new_lines: Vec<Line> = Vec::new();
    let mut lifted: Vec<Line> = Vec::new();
    let n = lines.len();
    let mut i: usize = 0;
    let ghost carried = |l: Line| line_carried(l);
    assert(old(lines)@.take(0) =~= Seq::<Line>::empty());
    while i < n
        invariant
            n == lines@.len(),
            n == old(lines)@.len(),
            i <= n,
            lines_wf(old(lines)@),
            carried == |l: Line| line_carried(l),
            forall|j: int|
                0 <= j < i ==> #[trigger] lines@[j] == line_left_behind(old(lines)@[j], is_move),
            forall|j: int| i <= j < n ==> #[trigger] lines@[j] == old(lines)@[j],
            new_lines@ == old(lines)@.take(i as int).filter(line_selected()).map_values(carried),
            lifted@ == new_lines@,
            lines_wf(new_lines@),
        decreases n - i,
    {
        proof {
            assert(old(lines)@.take(i + 1).drop_last() =~= old(lines)@.take(i as int));
            assert(old(lines)@.take(i + 1).last() == old(lines)@[i as int]);
            reveal(Seq::filter);
        }
        if lines[i].selected {
            let mut new_line = lines[i];
            new_line.is_drawing = true;
            lines[i].selected = false;
            lines[i].del = is_move;
            let ghost before = old(lines)@.take(i as int).filter(line_selected());
            new_lines.push(new_line);
            lifted.push(new_line);
            assert(new_lines@ =~= before.push(old(lines)@[i as int]).map_values(carried));
            assert(old(lines)@[i as int].wf());
        }
        i += 1;
    }
    assert(old(lines)@.take(n as int) =~= old(lines)@);
    assert(lines@ =~= old(lines)@.map_values(|l: Line| line_left_behind(l, is_move)));
    assert(lines_wf(lines@)) by {
        assert forall|j: int| 0 <= j < lines@.len() implies (#[trigger] lines@[j]).wf() by {
            assert(old(lines)@[j].wf());
        }
    }
    lines.append(&mut new_lines);
    lifted
}

/// Lifts the selected circles, and returns the copies that the cursor
/// carries as they are lifted: see the module's description.
pub fn lift_selected_circles(circles: &mut Vec<Circle>, is_move: bool) -> (lifted: Vec<Circle>)
    requires
        circles_wf(old(circles)@),
    ensures
        final(circles)@ == circles_lifted(old(circles)@, is_move),
        lifted@ == circles_to_carry(old(circles)@),
        circles_wf(final(circles)@),
        circles_wf(lifted@),
{
    let mut new_circles: Vec<Circle> = Vec::new();
    let mut lifted: Vec<Circle> = Vec::new();
    let n = circles.len();
    let mut i: usize = 0;
    let ghost carried = |c: Circle| circle_carried(c);
    assert(old(circles)@.take(0) =~= Seq::<Circle>::empty());
    while i < n
        invariant
            n == circles@.len(),
            n == old(circles)@.len(),
            i <= n,
            circles_wf(old(circles)@),
            carried == |c: Circle| circle_carried(c),
            forall|j: int|
                0 <= j < i ==> #[trigger] circles@[j] == circle_left_behind(
                    old(circles)@[j],
                    is_move,
                ),
            forall|j: int| i <= j < n ==> #[trigger] circles@[j] == old(circles)@[j],
            new_circles@ == old(circles)@.take(i as int).filter(circle_selected()).map_values(
                carried,
            ),
            lifted@ == new_circles@,
            circles_wf(new_circles@),
        decreases n - i,
    {
        proof {
            assert(old(circles)@.take(i + 1).drop_last() =~= old(circles)@.take(i as int));
            assert(old(circles)@.take(i + 1).last() == old(circles)@[i as int]);
            reveal(Seq::filter);
        }
        if circles[i].selected {
            let mut new_circle = circles[i];
            new_circle.is_drawing = true;
            circles[i].selected = false;
            circles[i].del = is_move;
            let ghost before = old(circles)@.take(i as int).filter(circle_selected());
            new_circles.push(new_circle);
            lifted.push(new_circle);
            assert(new_circles@ =~= before.push(old(circles)@[i as int]).map_values(carried));
            assert(old(circles)@[i as int].wf());
        }
        i += 1;
    }
    assert(old(circles)@.take(n as int) =~= old(circles)@);
    assert(circles@ =~= old(circles)@.map_values(|c: Circle| circle_left_behind(c, is_move)));
    assert(circles_wf(circles@)) by {
        assert forall|j: int| 0 <= j < circles@.len() implies (#[trigger] circles@[j]).wf() by {
            assert(old(circles)@[j].wf());
        }
    }
    circles.append(&mut new_circles);
    lifted
}

/// Puts every carried line where it was lifted, translated by
/// `(dx, dy)`.
pub fn carry_selected_lines(lines: &mut Vec<Line>, lifted: &Vec<Line>, dx: i64, dy: i64)
    requires
        lines_wf(old(lines)@),
    ensures
        final(lines)@ == lines_carried(old(lines)@, lifted@, dx as int, dy as int),
        lines_wf(final(lines)@),
{
    let n = lines.len();
    let mut i: usize = 0;
    let mut k: usize = 0;
    assert(old(lines)@.take(0) =~= Seq::<Line>::empty());
    while i < n
        invariant
            n == lines@.len(),
            n == old(lines)@.len(),
            i <= n,
            k <= i,
            k == selected_lines_before(old(lines)@, i as int),
            lines_wf(lines@),
            forall|j: int|
                0 <= j < i ==> #[trigger] lines@[j] == line_carried_at(
                    old(lines)@,
                    lifted@,
                    dx as int,
                    dy as int,
                    j,
                ),
            forall|j: int| i <= j < n ==> #[trigger] lines@[j] == old(lines)@[j],
        decreases n - i,
    {
        proof {
            assert(old(lines)@.take(i + 1).drop_last() =~= old(lines)@.take(i as int));
            assert(old(lines)@.take(i + 1).last() == old(lines)@[i as int]);
            reveal(Seq::filter);
        }
        if lines[i].selected {
            if k < lifted.len() {
                let a = lifted[k].vertices[0].position;
                let b = lifted[k].vertices[1].position;
                let ghost before = lines@[i as int];
                lines[i].vertices[0].position = Point::clamp_from(
                    a.x as i128 + dx as i128,
                    a.y as i128 + dy as i128,
                );
                lines[i].vertices[1].position = Point::clamp_from(
                    b.x as i128 + dx as i128,
                    b.y as i128 + dy as i128,
                );
                assert(lines@[i as int].vertices =~= before.placed(
                    lifted@[k as int],
                    dx as int,
                    dy as int,
                ).vertices);
            }
            k += 1;
        }
        i += 1;
    }
    assert(lines@ =~= lines_carried(old(lines)@, lifted@, dx as int, dy as int));
}

/// Puts every carried circle where it was lifted, translated by
/// `(dx, dy)`.
pub fn carry_selected_circles(circles: &mut Vec<Circle>, lifted: &Vec<Circle>, dx: i64, dy: i64)
    requires
        circles_wf(old(circles)@),
    ensures
        final(circles)@ == circles_carried(old(circles)@, lifted@, dx as int, dy as int),
        circles_wf(final(circles)@),
{
    let n = circles.len();
    let mut i: usize = 0;
    let mut k: usize = 0;
    assert(old(circles)@.take(0) =~= Seq::<Circle>::empty());
    while i < n
        invariant
            n == circles@.len(),
            n == old(circles)@.len(),
            i <= n,
            k <= i,
            k == selected_circles_before(old(circles)@, i as int),
            circles_wf(circles@),
            forall|j: int|
                0 <= j < i ==> #[trigger] circles@[j] == circle_carried_at(
                    old(circles)@,
                    lifted@,
                    dx as int,
                    dy as int,
                    j,
                ),
            forall|j: int| i <= j < n ==> #[trigger] circles@[j] == old(circles)@[j],
        decreases n - i,
    {
        proof {
            assert(old(circles)@.take(i + 1).drop_last() =~= old(circles)@.take(i as int));
            assert(old(circles)@.take(i + 1).last() == old(circles)@[i as int]);
            reveal(Seq::filter);
        }
        if circles[i].selected {
            if k < lifted.len() {
                let c = lifted[k].center.position;
                circles[i].center.position = Point::clamp_from(
                    c.x as i128 + dx as i128,
                    c.y as i128 + dy as i128,
                );
            }
            k += 1;
        }
        i += 1;
    }
    assert(circles@ =~= circles_carried(old(circles)@, lifted@, dx as int, dy as int));
}

/// Drops the carried lines and purges the lines marked for deletion.
pub fn drop_selected_lines(lines: &mut Vec<Line>)
    requires
        lines_wf(old(lines)@),
    ensures
        final(lines)@ == lines_dropped(old(lines)@),
        lines_wf(final(lines)@),
{
    let ghost set_down = old(lines)@.map_values(|l: Line| line_set_down(l));
    let mut kept: Vec<Line> = Vec::new();
    let n = lines.len();
    let mut i: usize = 0;
    assert(set_down.take(0) =~= Seq::<Line>::empty());
    while i < n
        invariant
            n == lines@.len(),
            lines@ == old(lines)@,
            i <= n,
            set_down == old(lines)@.map_values(|l: Line| line_set_down(l)),
            kept@ == set_down.take(i as int).filter(line_kept()),
        decreases n - i,
    {
        proof {
            assert(set_down.take(i + 1).drop_last() =~= set_down.take(i as int));
            assert(set_down.take(i + 1).last() == line_set_down(lines@[i as int]));
            reveal(Seq::filter);
        }
        let mut line = lines[i];
        if line.selected {
            line.selected = false;
            line.is_drawing = false;
        }
        if !line.del {
            kept.push(line);
        }
        i += 1;
    }
    proof {
        assert(set_down.take(n as int) =~= set_down);
        assert(lines_wf(set_down)) by {
            assert forall|j: int| 0 <= j < set_down.len() implies (#[trigger] set_down[j]).wf() by {
                assert(old(lines)@[j].wf());
            }
        }
        lemma_filter_lines_wf(set_down, line_kept());
    }
    *lines = kept;
}

/// Drops the carried circles and purges the circles marked for deletion.
pub fn drop_selected_circles(circles: &mut Vec<Circle>)
    requires
        circles_wf(old(circles)@),
    ensures
        final(circles)@ == circles_dropped(old(circles)@),
        circles_wf(final(circles)@),
{
    let ghost set_down = old(circles)@.map_values(|c: Circle| circle_set_down(c));
    let mut kept: Vec<Circle> = Vec::new();
    let n = circles.len();
    let mut i: usize = 0;
    assert(set_down.take(0) =~= Seq::<Circle>::empty());
    while i < n
        invariant
            n == circles@.len(),
            circles@ == old(circles)@,
            i <= n,
            set_down == old(circles)@.map_values(|c: Circle| circle_set_down(c)),
            kept@ == set_down.take(i as int).filter(circle_kept()),
        decreases n - i,
    {
        proof {
            assert(set_down.take(i + 1).drop_last() =~= set_down.take(i as int));
            assert(set_down.take(i + 1).last() == circle_set_down(circles@[i as int]));
            reveal(Seq::filter);
        }
        let mut circle = circles[i];
        if circle.selected {
            circle.selected = false;
            circle.is_drawing = false;
        }
        if !circle.del {
            kept.push(circle);
        }
        i += 1;
    }
    proof {
        assert(set_down.take(n as int) =~= set_down);
        assert(circles_wf(set_down)) by {
            assert forall|j: int| 0 <= j < set_down.len() implies (#[trigger] set_down[j]).wf() by {
                assert(old(circles)@[j].wf());
            }
        }
        lemma_filter_circles_wf(set_down, circle_kept());
    }
    *circles = kept;
}

/// Offsets add up: taking `d1` and then `d2` off a line is taking
/// `d1 + d2` off it, as long as the first did not push an endpoint out of
/// range.
pub proof fn lemma_line_moves_add(l: Line, dx1: int, dy1: int, dx2: int, dy2: int)
    requires
        crate::units::coord_ok(l.vertices[0].position.x - dx1),
        crate::units::coord_ok(l.vertices[0].position.y - dy1),
        crate::units::coord_ok(l.vertices[1].position.x - dx1),
        crate::units::coord_ok(l.vertices[1].position.y - dy1),
    ensures
        l.moved(dx1, dy1).moved(dx2, dy2) == l.moved(dx1 + dx2, dy1 + dy2),
{
    assert(l.moved(dx1, dy1).moved(dx2, dy2).vertices =~= l.moved(dx1 + dx2, dy1 + dy2).vertices);
}

/// Taking `d1` and then `d2` off a circle's centre is taking `d1 + d2`
/// off it, as long as the first did not push the centre out of range.
pub proof fn lemma_circle_moves_add(c: Circle, dx1: int, dy1: int, dx2: int, dy2: int)
    requires
        crate::units::coord_ok(c.center.position.x - dx1),
        crate::units::coord_ok(c.center.position.y - dy1),
    ensures
        c.moved(dx1, dy1).moved(dx2, dy2) == c.moved(dx1 + dx2, dy1 + dy2),
{
}

/// Carrying is relative to the anchor, not cumulative: where the carried
/// entities lie depends on where they were lifted and on the last
/// translation alone, whatever translations came before.
pub proof fn lemma_carrying_is_not_cumulative(
    lines: Seq<Line>,
    lifted_lines: Seq<Line>,
    circles: Seq<Circle>,
    lifted_circles: Seq<Circle>,
    dx1: int,
    dy1: int,
    dx2: int,
    dy2: int,
)
    ensures
        lines_carried(lines_carried(lines, lifted_lines, dx1, dy1), lifted_lines, dx2, dy2)
            == lines_carried(lines, lifted_lines, dx2, dy2),
        circles_carried(circles_carried(circles, lifted_circles, dx1, dy1), lifted_circles, dx2, dy2)
            == circles_carried(circles, lifted_circles, dx2, dy2),
{
    let l1 = lines_carried(lines, lifted_lines, dx1, dy1);
    assert forall|i: int| 0 <= i <= lines.len() implies selected_lines_before(l1, i)
        == selected_lines_before(lines, i) by {
        lemma_same_selection_lines(l1.take(i), lines.take(i));
    }
    assert forall|i: int| 0 <= i < lines.len() implies line_carried_at(
        l1,
        lifted_lines,
        dx2,
        dy2,
        i,
    ) == line_carried_at(lines, lifted_lines, dx2, dy2, i) by {
        assert(selected_lines_before(l1, i) == selected_lines_before(lines, i));
        assert(line_carried_at(l1, lifted_lines, dx2, dy2, i).vertices =~= line_carried_at(
            lines,
            lifted_lines,
            dx2,
            dy2,
            i,
        ).vertices);
    }
    assert(lines_carried(l1, lifted_lines, dx2, dy2) =~= lines_carried(
        lines,
        lifted_lines,
        dx2,
        dy2,
    ));
    let c1 = circles_carried(circles, lifted_circles, dx1, dy1);
    assert forall|i: int| 0 <= i <= circles.len() implies selected_circles_before(c1, i)
        == selected_circles_before(circles, i) by {
        lemma_same_selection_circles(c1.take(i), circles.take(i));
    }
    assert(circles_carried(c1, lifted_circles, dx2, dy2) =~= circles_carried(
        circles,
        lifted_circles,
        dx2,
        dy2,
    ));
}

/// Two sequences of lines that agree on which lines are selected have
/// as many selected lines.
proof fn lemma_same_selection_lines(a: Seq<Line>, b: Seq<Line>)
    requires
        a.len() == b.len(),
        forall|i: int| 0 <= i < a.len() ==> (#[trigger] a[i]).selected == b[i].selected,
    ensures
        a.filter(line_selected()).len() == b.filter(line_selected()).len(),
    decreases a.len(),
{
    reveal(Seq::filter);
    if a.len() > 0 {
        assert(a.last().selected == b.last().selected);
        assert forall|i: int| 0 <= i < a.drop_last().len() implies (
        #[trigger] a.drop_last()[i]).selected == b.drop_last()[i].selected by {
            assert(a.drop_last()[i] == a[i]);
            assert(b.drop_last()[i] == b[i]);
        }
        lemma_same_selection_lines(a.drop_last(), b.drop_last());
    }
}

/// Two sequences of circles that agree on which circles are selected
/// have as many selected circles.
proof fn lemma_same_selection_circles(a: Seq<Circle>, b: Seq<Circle>)
    requires
        a.len() == b.len(),
        forall|i: int| 0 <= i < a.len() ==> (#[trigger] a[i]).selected == b[i].selected,
    ensures
        a.filter(circle_selected()).len() == b.filter(circle_selected()).len(),
    decreases a.len(),
{
    reveal(Seq::filter);
    if a.len() > 0 {
        assert(a.last().selected == b.last().selected);
        assert forall|i: int| 0 <= i < a.drop_last().len() implies (
        #[trigger] a.drop_last()[i]).selected == b.drop_last()[i].selected by {
            assert(a.drop_last()[i] == a[i]);
            assert(b.drop_last()[i] == b[i]);
        }
        lemma_same_selection_circles(a.drop_last(), b.drop_last());
    }
}

/// Nothing of the lines is selected.
pub open spec fn no_line_selected(lines: Seq<Line>) -> bool {
    forall|i: int| 0 <= i < lines.len() ==> !(#[trigger] lines[i]).selected
}

/// Nothing of the circles is selected.
pub open spec fn no_circle_selected(circles: Seq<Circle>) -> bool {
    forall|i: int| 0 <= i < circles.len() ==> !(#[trigger] circles[i]).selected
}

/// An empty selection is lifted and carried without any change to the
/// drawing.
pub proof fn lemma_empty_selection(
    lines: Seq<Line>,
    lifted_lines: Seq<Line>,
    circles: Seq<Circle>,
    lifted_circles: Seq<Circle>,
    is_move: bool,
    dx: int,
    dy: int,
)
    requires
        no_line_selected(lines),
        no_circle_selected(circles),
    ensures
        lines_lifted(lines, is_move) == lines,
        circles_lifted(circles, is_move) == circles,
        lines_to_carry(lines).len() == 0,
        circles_to_carry(circles).len() == 0,
        lines_carried(lines, lifted_lines, dx, dy) == lines,
        circles_carried(circles, lifted_circles, dx, dy) == circles,
{
    lemma_filter_none(lines, line_selected());
    lemma_filter_none(circles, circle_selected());
    assert(lines_lifted(lines, is_move) =~= lines);
    assert(circles_lifted(circles, is_move) =~= circles);
    assert(lines_carried(lines, lifted_lines, dx, dy) =~= lines);
    assert(circles_carried(circles, lifted_circles, dx, dy) =~= circles);
}

/// The lines that are not selected.
pub open spec fn line_unselected() -> spec_fn(Line) -> bool {
    |l: Line| !l.selected
}

/// No line is marked for deletion or flagged as being drawn: no tool is
/// in the middle of its work on the lines.
pub open spec fn lines_at_rest(lines: Seq<Line>) -> bool {
    forall|i: int| 0 <= i < lines.len() ==> !(#[trigger] lines[i]).del && !lines[i].is_drawing
}

/// A selected line where a move or copy sets it down: translated by
/// `(dx, dy)`, and no longer selected.
pub open spec fn line_arrived(l: Line, dx: int, dy: int) -> Line {
    Line { selected: false, is_drawing: false, ..l.placed(l, dx, dy) }
}

/// The lines after a whole move or copy: the selection is lifted, carried
/// with the translation `(dx, dy)`, and dropped.
pub open spec fn lines_after_gesture(lines: Seq<Line>, is_move: bool, dx: int, dy: int) -> Seq<Line> {
    lines_dropped(lines_carried(lines_lifted(lines, is_move), lines_to_carry(lines), dx, dy))
}

/// A filter keeps all of a sequence whose every element it accepts.
proof fn lemma_filter_all<T>(s: Seq<T>, pred: spec_fn(T) -> bool)
    requires
        forall|i: int| 0 <= i < s.len() ==> pred(#[trigger] s[i]),
    ensures
        s.filter(pred) == s,
    decreases s.len(),
{
    reveal(Seq::filter);
    if s.len() > 0 {
        assert forall|i: int| 0 <= i < s.drop_last().len() implies pred(
            #[trigger] s.drop_last()[i],
        ) by {
            assert(s.drop_last()[i] == s[i]);
        }
        lemma_filter_all(s.drop_last(), pred);
        assert(pred(s.last()));
        assert(s.drop_last().push(s.last()) =~= s);
    } else {
        assert(s.filter(pred) =~= s);
    }
}

/// A filter keeps nothing of a sequence none of whose elements it
/// accepts.
proof fn lemma_filter_none<T>(s: Seq<T>, pred: spec_fn(T) -> bool)
    requires
        forall|i: int| 0 <= i < s.len() ==> !pred(#[trigger] s[i]),
    ensures
        s.filter(pred) == Seq::<T>::empty(),
    decreases s.len(),
{
    reveal(Seq::filter);
    if s.len() > 0 {
        assert forall|i: int| 0 <= i < s.drop_last().len() implies !pred(
            #[trigger] s.drop_last()[i],
        ) by {
            assert(s.drop_last()[i] == s[i]);
        }
        lemma_filter_none(s.drop_last(), pred);
        assert(!pred(s.last()));
    } else {
        assert(s.filter(pred) =~= Seq::<T>::empty());
    }
}

/// What holds of every element of a sequence holds of every element
/// that a filter keeps.
proof fn lemma_filter_keeps<T>(s: Seq<T>, pred: spec_fn(T) -> bool, prop: spec_fn(T) -> bool)
    requires
        forall|i: int| 0 <= i < s.len() ==> prop(#[trigger] s[i]),
    ensures
        forall|i: int| 0 <= i < s.filter(pred).len() ==> prop(#[trigger] s.filter(pred)[i]),
    decreases s.len(),
{
    reveal(Seq::filter);
    if s.len() > 0 {
        assert forall|i: int| 0 <= i < s.drop_last().len() implies prop(
            #[trigger] s.drop_last()[i],
        ) by {
            assert(s.drop_last()[i] == s[i]);
        }
        lemma_filter_keeps(s.drop_last(), pred, prop);
        assert(prop(s.last()));
        let kept = s.filter(pred);
        let before = s.drop_last().filter(pred);
        assert forall|i: int| 0 <= i < kept.len() implies prop(#[trigger] kept[i]) by {
            if i < before.len() {
                assert(kept[i] == before[i]);
            } else {
                assert(kept[i] == s.last());
            }
        }
    }
}

/// A filter and its opposite share out a sequence between them.
proof fn lemma_filter_shares_out<T>(s: Seq<T>, pred: spec_fn(T) -> bool, other: spec_fn(T) -> bool)
    requires
        forall|i: int| 0 <= i < s.len() ==> other(#[trigger] s[i]) == !pred(s[i]),
    ensures
        s.filter(pred).len() + s.filter(other).len() == s.len(),
    decreases s.len(),
{
    reveal(Seq::filter);
    if s.len() > 0 {
        assert forall|i: int| 0 <= i < s.drop_last().len() implies other(
            #[trigger] s.drop_last()[i],
        ) == !pred(s.drop_last()[i]) by {
            assert(s.drop_last()[i] == s[i]);
        }
        lemma_filter_shares_out(s.drop_last(), pred, other);
        assert(other(s.last()) == !pred(s.last()));
    }
}

/// Of lines at rest, those that lifting for a move leaves unmarked are
/// those that were not selected.
proof fn lemma_lines_left_unmarked(lines: Seq<Line>)
    requires
        lines_at_rest(lines),
    ensures
        lines.map_values(|l: Line| line_left_behind(l, true)).filter(line_kept()) == lines.filter(
            line_unselected(),
        ),
    decreases lines.len(),
{
    reveal(Seq::filter);
    let behind = lines.map_values(|l: Line| line_left_behind(l, true));
    if lines.len() > 0 {
        assert(lines_at_rest(lines.drop_last())) by {
            assert forall|i: int| 0 <= i < lines.drop_last().len() implies !(
            #[trigger] lines.drop_last()[i]).del && !lines.drop_last()[i].is_drawing by {
                assert(lines.drop_last()[i] == lines[i]);
            }
        }
        lemma_lines_left_unmarked(lines.drop_last());
        assert(behind.drop_last() =~= lines.drop_last().map_values(
            |l: Line| line_left_behind(l, true),
        ));
        assert(behind.last() == line_left_behind(lines.last(), true));
        assert(!lines.last().del);
    } else {
        assert(behind.filter(line_kept()) =~= lines.filter(line_unselected()));
    }
}

/// The move or copy of lines as a whole. Of lines at rest, a move leaves
/// the lines that were not selected, as they were and in their order,
/// followed by the lines that were selected, each translated by
/// `(dx, dy)` and in their order; a copy leaves all the lines where they
/// were, followed by a translated copy of each that was selected. Either
/// way nothing is left selected, marked for deletion or flagged as being
/// drawn, and a move leaves as many lines as there were.
pub proof fn lemma_lines_after_gesture(lines: Seq<Line>, is_move: bool, dx: int, dy: int)
    requires
        lines_at_rest(lines),
    ensures
        lines_after_gesture(lines, true, dx, dy) == lines.filter(line_unselected())
            + lines.filter(line_selected()).map_values(|l: Line| line_arrived(l, dx, dy)),
        lines_after_gesture(lines, false, dx, dy) == lines.map_values(
            |l: Line| line_left_behind(l, false),
        ) + lines.filter(line_selected()).map_values(|l: Line| line_arrived(l, dx, dy)),
        lines_after_gesture(lines, true, dx, dy).len() == lines.len(),
        lines_at_rest(lines_after_gesture(lines, is_move, dx, dy)),
        no_line_selected(lines_after_gesture(lines, is_move, dx, dy)),
{
    lemma_lines_gesture_form(lines, true, dx, dy);
    lemma_lines_gesture_form(lines, false, dx, dy);
    lemma_lines_left_unmarked(lines);
    let behind = lines.map_values(|l: Line| line_left_behind(l, false));
    let chosen = lines.filter(line_selected());
    let arrived = chosen.map_values(|l: Line| line_arrived(l, dx, dy));
    assert forall|i: int| 0 <= i < behind.len() implies line_kept()(#[trigger] behind[i]) by {
        assert(!lines[i].del);
    }
    lemma_filter_all(behind, line_kept());
    lemma_filter_shares_out(lines, line_selected(), line_unselected());
    lemma_filter_keeps(lines, line_unselected(), |l: Line| !l.del && !l.is_drawing);
    assert forall|k: int| 0 <= k < lines.filter(line_unselected()).len() implies !(#[trigger] lines.filter(
        line_unselected(),
    )[k]).selected by {
        lines.lemma_filter_pred(line_unselected(), k);
    }
    let moved = lines.filter(line_unselected()) + arrived;
    let copied = behind + arrived;
    assert(lines_after_gesture(lines, true, dx, dy) == moved);
    assert(lines_after_gesture(lines, false, dx, dy) == copied);
    assert forall|i: int| 0 <= i < moved.len() implies !(#[trigger] moved[i]).selected
        && !moved[i].del && !moved[i].is_drawing by {
        if i < lines.filter(line_unselected()).len() {
            assert(moved[i] == lines.filter(line_unselected())[i]);
        } else {
            lemma_filter_keeps(lines, line_selected(), |l: Line| !l.del);
            let k = i - lines.filter(line_unselected()).len();
            assert(moved[i] == line_arrived(chosen[k], dx, dy));
        }
    }
    assert forall|i: int| 0 <= i < copied.len() implies !(#[trigger] copied[i]).selected
        && !copied[i].del && !copied[i].is_drawing by {
        if i < behind.len() {
            assert(copied[i] == line_left_behind(lines[i], false));
        } else {
            lemma_filter_keeps(lines, line_selected(), |l: Line| !l.del);
            let k = i - behind.len();
            assert(copied[i] == line_arrived(chosen[k], dx, dy));
        }
    }
}

/// The lines after a whole move or copy, as what lifting leaves behind
/// and is not purged, followed by the carried lines set down.
proof fn lemma_lines_gesture_form(lines: Seq<Line>, is_move: bool, dx: int, dy: int)
    requires
        lines_at_rest(lines),
    ensures
        lines_after_gesture(lines, is_move, dx, dy) == lines.map_values(
            |l: Line| line_left_behind(l, is_move),
        ).filter(line_kept()) + lines.filter(line_selected()).map_values(
            |l: Line| line_arrived(l, dx, dy),
        ),
{
    let n = lines.len() as int;
    let behind = lines.map_values(|l: Line| line_left_behind(l, is_move));
    let chosen = lines.filter(line_selected());
    let lifted = lines_to_carry(lines);
    let arrived = chosen.map_values(|l: Line| line_arrived(l, dx, dy));
    let l1 = lines_lifted(lines, is_move);
    assert(l1 == behind + lifted);
    lemma_filter_keeps(lines, line_selected(), |l: Line| !l.del);
    chosen.lemma_filter_len(line_selected());
    assert forall|k: int| 0 <= k < chosen.len() implies (#[trigger] chosen[k]).selected by {
        lines.lemma_filter_pred(line_selected(), k);
    }
    // the carried lines are the selected ones, the first of them the
    // first that was lifted
    let l2 = lines_carried(l1, lifted, dx, dy);
    let carried = lifted.map_values(|l: Line| l.placed(l, dx, dy));
    assert forall|i: int| 0 <= i < l1.len() implies #[trigger] l2[i] == (behind + carried)[i] by {
        if i < n {
            assert(l1[i] == line_left_behind(lines[i], is_move));
        } else {
            let k = i - n;
            assert(l1[i] == lifted[k]);
            assert(l1.take(i) =~= behind + lifted.take(k));
            Seq::filter_distributes_over_add(behind, lifted.take(k), line_selected());
            assert forall|j: int| 0 <= j < behind.len() implies !line_selected()(
                #[trigger] behind[j],
            ) by {}
            lemma_filter_none(behind, line_selected());
            assert forall|j: int| 0 <= j < lifted.take(k).len() implies line_selected()(
                #[trigger] lifted.take(k)[j],
            ) by {
                assert(lifted.take(k)[j] == line_carried(chosen[j]));
            }
            lemma_filter_all(lifted.take(k), line_selected());
            assert(l1.take(i).filter(line_selected()) =~= lifted.take(k));
            assert(selected_lines_before(l1, i) == k);
            assert(lifted[k] == line_carried(chosen[k]));
        }
    }
    assert(l2 =~= behind + carried);
    // setting down touches the carried lines alone, purging those left
    // behind alone
    let down = l2.map_values(|l: Line| line_set_down(l));
    assert(down =~= behind + arrived) by {
        assert forall|i: int| 0 <= i < down.len() implies #[trigger] down[i] == (behind
            + arrived)[i] by {
            if i < n {
                assert(l2[i] == line_left_behind(lines[i], is_move));
            } else {
                let k = i - n;
                assert(l2[i] == carried[k]);
                assert(lifted[k] == line_carried(chosen[k]));
                assert(down[i].vertices =~= line_arrived(chosen[k], dx, dy).vertices);
            }
        }
    }
    Seq::filter_distributes_over_add(behind, arrived, line_kept());
    assert forall|k: int| 0 <= k < arrived.len() implies line_kept()(#[trigger] arrived[k]) by {
        assert(!chosen[k].del);
    }
    lemma_filter_all(arrived, line_kept());
}

/// The circles that are not selected.
pub open spec fn circle_unselected() -> spec_fn(Circle) -> bool {
    |c: Circle| !c.selected
}

/// No circle is marked for deletion or flagged as being drawn: no tool is
/// in the middle of its work on the circles.
pub open spec fn circles_at_rest(circles: Seq<Circle>) -> bool {
    forall|i: int| 0 <= i < circles.len() ==> !(#[trigger] circles[i]).del && !circles[i].is_drawing
}

/// A selected circle where a move or copy sets it down: translated by
/// `(dx, dy)`, and no longer selected.
pub open spec fn circle_arrived(c: Circle, dx: int, dy: int) -> Circle {
    Circle { selected: false, is_drawing: false, ..c.placed(c, dx, dy) }
}

/// The circles after a whole move or copy: the selection is lifted, carried
/// with the translation `(dx, dy)`, and dropped.
pub open spec fn circles_after_gesture(circles: Seq<Circle>, is_move: bool, dx: int, dy: int) -> Seq<Circle> {
    circles_dropped(circles_carried(circles_lifted(circles, is_move), circles_to_carry(circles), dx, dy))
}

/// Of circles at rest, those that lifting for a move leaves unmarked are
/// those that were not selected.
proof fn lemma_circles_left_unmarked(circles: Seq<Circle>)
    requires
        circles_at_rest(circles),
    ensures
        circles.map_values(|c: Circle| circle_left_behind(c, true)).filter(circle_kept()) == circles.filter(
            circle_unselected(),
        ),
    decreases circles.len(),
{
    reveal(Seq::filter);
    let behind = circles.map_values(|c: Circle| circle_left_behind(c, true));
    if circles.len() > 0 {
        assert(circles_at_rest(circles.drop_last())) by {
            assert forall|i: int| 0 <= i < circles.drop_last().len() implies !(
            #[trigger] circles.drop_last()[i]).del && !circles.drop_last()[i].is_drawing by {
                assert(circles.drop_last()[i] == circles[i]);
            }
        }
        lemma_circles_left_unmarked(circles.drop_last());
        assert(behind.drop_last() =~= circles.drop_last().map_values(
            |c: Circle| circle_left_behind(c, true),
        ));
        assert(behind.last() == circle_left_behind(circles.last(), true));
        assert(!circles.last().del);
    } else {
        assert(behind.filter(circle_kept()) =~= circles.filter(circle_unselected()));
    }
}

/// The move or copy of circles as a whole. Of circles at rest, a move leaves
/// the circles that were not selected, as they were and in their order,
/// followed by the circles that were selected, each translated by
/// `(dx, dy)` and in their order; a copy leaves all the circles where they
/// were, followed by a translated copy of each that was selected. Either
/// way nothing is left selected, marked for deletion or flagged as being
/// drawn, and a move leaves as many circles as there were.
pub proof fn lemma_circles_after_gesture(circles: Seq<Circle>, is_move: bool, dx: int, dy: int)
    requires
        circles_at_rest(circles),
    ensures
        circles_after_gesture(circles, true, dx, dy) == circles.filter(circle_unselected())
            + circles.filter(circle_selected()).map_values(|c: Circle| circle_arrived(c, dx, dy)),
        circles_after_gesture(circles, false, dx, dy) == circles.map_values(
            |c: Circle| circle_left_behind(c, false),
        ) + circles.filter(circle_selected()).map_values(|c: Circle| circle_arrived(c, dx, dy)),
        circles_after_gesture(circles, true, dx, dy).len() == circles.len(),
        circles_at_rest(circles_after_gesture(circles, is_move, dx, dy)),
        no_circle_selected(circles_after_gesture(circles, is_move, dx, dy)),
{
    lemma_circles_gesture_form(circles, true, dx, dy);
    lemma_circles_gesture_form(circles, false, dx, dy);
    lemma_circles_left_unmarked(circles);
    let behind = circles.map_values(|c: Circle| circle_left_behind(c, false));
    let chosen = circles.filter(circle_selected());
    let arrived = chosen.map_values(|c: Circle| circle_arrived(c, dx, dy));
    assert forall|i: int| 0 <= i < behind.len() implies circle_kept()(#[trigger] behind[i]) by {
        assert(!circles[i].del);
    }
    lemma_filter_all(behind, circle_kept());
    lemma_filter_shares_out(circles, circle_selected(), circle_unselected());
    lemma_filter_keeps(circles, circle_unselected(), |c: Circle| !c.del && !c.is_drawing);
    assert forall|k: int| 0 <= k < circles.filter(circle_unselected()).len() implies !(#[trigger] circles.filter(
        circle_unselected(),
    )[k]).selected by {
        circles.lemma_filter_pred(circle_unselected(), k);
    }
    let moved = circles.filter(circle_unselected()) + arrived;
    let copied = behind + arrived;
    assert(circles_after_gesture(circles, true, dx, dy) == moved);
    assert(circles_after_gesture(circles, false, dx, dy) == copied);
    assert forall|i: int| 0 <= i < moved.len() implies !(#[trigger] moved[i]).selected
        && !moved[i].del && !moved[i].is_drawing by {
        if i < circles.filter(circle_unselected()).len() {
            assert(moved[i] == circles.filter(circle_unselected())[i]);
        } else {
            lemma_filter_keeps(circles, circle_selected(), |c: Circle| !c.del);
            let k = i - circles.filter(circle_unselected()).len();
            assert(moved[i] == circle_arrived(chosen[k], dx, dy));
        }
    }
    assert forall|i: int| 0 <= i < copied.len() implies !(#[trigger] copied[i]).selected
        && !copied[i].del && !copied[i].is_drawing by {
        if i < behind.len() {
            assert(copied[i] == circle_left_behind(circles[i], false));
        } else {
            lemma_filter_keeps(circles, circle_selected(), |c: Circle| !c.del);
            let k = i - behind.len();
            assert(copied[i] == circle_arrived(chosen[k], dx, dy));
        }
    }
}

/// The circles after a whole move or copy, as what lifting leaves behind
/// and is not purged, followed by the carried circles set down.
proof fn lemma_circles_gesture_form(circles: Seq<Circle>, is_move: bool, dx: int, dy: int)
    requires
        circles_at_rest(circles),
    ensures
        circles_after_gesture(circles, is_move, dx, dy) == circles.map_values(
            |c: Circle| circle_left_behind(c, is_move),
        ).filter(circle_kept()) + circles.filter(circle_selected()).map_values(
            |c: Circle| circle_arrived(c, dx, dy),
        ),
{
    let n = circles.len() as int;
    let behind = circles.map_values(|c: Circle| circle_left_behind(c, is_move));
    let chosen = circles.filter(circle_selected());
    let lifted = circles_to_carry(circles);
    let arrived = chosen.map_values(|c: Circle| circle_arrived(c, dx, dy));
    let l1 = circles_lifted(circles, is_move);
    assert(l1 == behind + lifted);
    lemma_filter_keeps(circles, circle_selected(), |c: Circle| !c.del);
    chosen.lemma_filter_len(circle_selected());
    assert forall|k: int| 0 <= k < chosen.len() implies (#[trigger] chosen[k]).selected by {
        circles.lemma_filter_pred(circle_selected(), k);
    }
    // the carried circles are the selected ones, the first of them the
    // first that was lifted
    let l2 = circles_carried(l1, lifted, dx, dy);
    let carried = lifted.map_values(|c: Circle| c.placed(c, dx, dy));
    assert forall|i: int| 0 <= i < l1.len() implies #[trigger] l2[i] == (behind + carried)[i] by {
        if i < n {
            assert(l1[i] == circle_left_behind(circles[i], is_move));
        } else {
            let k = i - n;
            assert(l1[i] == lifted[k]);
            assert(l1.take(i) =~= behind + lifted.take(k));
            Seq::filter_distributes_over_add(behind, lifted.take(k), circle_selected());
            assert forall|j: int| 0 <= j < behind.len() implies !circle_selected()(
                #[trigger] behind[j],
            ) by {}
            lemma_filter_none(behind, circle_selected());
            assert forall|j: int| 0 <= j < lifted.take(k).len() implies circle_selected()(
                #[trigger] lifted.take(k)[j],
            ) by {
                assert(lifted.take(k)[j] == circle_carried(chosen[j]));
            }
            lemma_filter_all(lifted.take(k), circle_selected());
            assert(l1.take(i).filter(circle_selected()) =~= lifted.take(k));
            assert(selected_circles_before(l1, i) == k);
            assert(lifted[k] == circle_carried(chosen[k]));
        }
    }
    assert(l2 =~= behind + carried);
    // setting down touches the carried circles alone, purging those left
    // behind alone
    let down = l2.map_values(|c: Circle| circle_set_down(c));
    assert(down =~= behind + arrived) by {
        assert forall|i: int| 0 <= i < down.len() implies #[trigger] down[i] == (behind
            + arrived)[i] by {
            if i < n {
                assert(l2[i] == circle_left_behind(circles[i], is_move));
            } else {
                let k = i - n;
                assert(l2[i] == carried[k]);
                assert(lifted[k] == circle_carried(chosen[k]));
                }
        }
    }
    Seq::filter_distributes_over_add(behind, arrived, circle_kept());
    assert forall|k: int| 0 <= k < arrived.len() implies circle_kept()(#[trigger] arrived[k]) by {
        assert(!chosen[k].del);
    }
    lemma_filter_all(arrived, circle_kept());
}

} // verus!
