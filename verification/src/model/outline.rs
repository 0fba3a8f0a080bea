//! The outline of a circle as the renderer draws it: a closed polygon of
//! [`SEGMENTS`] vertices on the circle, one every ten degrees from the
//! point to the right of the centre, counter-clockwise.

use crate::graphics::gui_elements::ColorScheme;
use crate::graphics::vertex::{Point, Vertex};
use crate::model::circle::Circle;
use crate::units::{div_round, div_round_i128};
use crate::circles_wf;
use vstd::prelude::*;

verus! {

/// The number of vertices of an outline.
pub const SEGMENTS: usize = 36;

/// What the cosines and sines of the table are multiplied by.
pub const TRIG_SCALE: i64 = 1_000_000_000;

/// The cosine of `k` times ten degrees, for the first quarter turn,
/// times [`TRIG_SCALE`] and rounded.
pub open spec fn quarter_cos(k: int) -> int {
    if k == 0 {
        1_000_000_000
    } else if k == 1 {
        984_807_753
    } else if k == 2 {
        939_692_621
    } else if k == 3 {
        866_025_404
    } else if k == 4 {
        766_044_443
    } else if k == 5 {
        642_787_610
    } else if k == 6 {
        500_000_000
    } else if k == 7 {
        342_020_143
    } else if k == 8 {
        173_648_178
    } else {
        0
    }
}

/// The cosine of `i` times ten degrees times [`TRIG_SCALE`].
pub open spec fn unit_cos(i: int) -> int {
    let k = i % 36;
    if k <= 9 {
        quarter_cos(k)
    } else if k <= 18 {
        -quarter_cos(18 - k)
    } else if k <= 27 {
        -quarter_cos(k - 18)
    } else {
        quarter_cos(36 - k)
    }
}

/// The sine of `i` times ten degrees times [`TRIG_SCALE`].
pub open spec fn unit_sin(i: int) -> int {
    unit_cos(i + 27)
}

/// The `i`-th vertex of the outline of `c`, in the colour of its centre.
pub open spec fn rim_vertex(c: Circle, i: int) -> Vertex {
    Vertex {
        position: Point::clamped(
            c.center.position.x + div_round(c.radius * unit_cos(i), TRIG_SCALE as int),
            c.center.position.y + div_round(c.radius * unit_sin(i), TRIG_SCALE as int),
        ),
        color: c.center.color,
    }
}

fn quarter(k: usize) -> (v: i64)
    requires
        k <= 9,
    ensures
        v == quarter_cos(k as int),
        0 <= v <= 1_000_000_000,
{
    if k == 0 {
        1_000_000_000
    } else if k == 1 {
        984_807_753
    } else if k == 2 {
        939_692_621
    } else if k == 3 {
        866_025_404
    } else if k == 4 {
        766_044_443
    } else if k == 5 {
        642_787_610
    } else if k == 6 {
        500_000_000
    } else if k == 7 {
        342_020_143
    } else if k == 8 {
        173_648_178
    } else {
        0
    }
}

/// The cosine of `i` times ten degrees times [`TRIG_SCALE`].
pub fn cos36(i: usize) -> (v: i64)
    ensures
        v == unit_cos(i as int),
        -1_000_000_000 <= v <= 1_000_000_000,
{
    let k = i % 36;
    if k <= 9 {
        quarter(k)
    } else if k <= 18 {
        -quarter(18 - k)
    } else if k <= 27 {
        -quarter(k - 18)
    } else {
        quarter(36 - k)
    }
}

/// The sine of `i` times ten degrees times [`TRIG_SCALE`].
pub fn sin36(i: usize) -> (v: i64)
    ensures
        v == unit_sin(i as int),
        -1_000_000_000 <= v <= 1_000_000_000,
{
    assert(((i % 36) + 27) % 36 == (i + 27) % 36);
    cos36(i % 36 + 27)
}

/// Every entry of the table lies on the unit circle to within a
/// billionth: `cos^2 + sin^2` differs from `TRIG_SCALE^2` by less than
/// `TRIG_SCALE`.
pub proof fn lemma_unit_circle(i: int)
    requires
        0 <= i,
    ensures
        ({
            let c = unit_cos(i);
            let s = unit_sin(i);
            -TRIG_SCALE < c * c + s * s - TRIG_SCALE * TRIG_SCALE < TRIG_SCALE
        }),
{
    let k = i % 36;
    let m = (i + 27) % 36;
    assert(m == if k < 9 {
        k + 27
    } else {
        k - 9
    });
    let c = unit_cos(i);
    let s = unit_sin(i);
    let q = if k <= 9 {
        k
    } else if k <= 18 {
        18 - k
    } else if k <= 27 {
        k - 18
    } else {
        36 - k
    };
    let a = quarter_cos(q);
    let b = quarter_cos(9 - q);
    assert(c == a || c == -a);
    assert(s == b || s == -b);
    assert(c * c == a * a) by (nonlinear_arith)
        requires
            c == a || c == -a,
    ;
    assert(s * s == b * b) by (nonlinear_arith)
        requires
            s == b || s == -b,
    ;
    let sum = a * a + b * b;
    if q == 0 {
        assert(sum == 1000000000000000000) by (nonlinear_arith)
            requires
                sum == a * a + b * b,
                a == 1000000000,
                b == 0,
        ;
    } else if q == 1 {
        assert(sum == 1000000000091628693) by (nonlinear_arith)
            requires
                sum == a * a + b * b,
                a == 984807753,
                b == 173648178,
        ;
    } else if q == 2 {
        assert(sum == 1000000000179590090) by (nonlinear_arith)
            requires
                sum == a * a + b * b,
                a == 939692621,
                b == 342020143,
        ;
    } else if q == 3 {
        assert(sum == 1000000000373363216) by (nonlinear_arith)
            requires
                sum == a * a + b * b,
                a == 866025404,
                b == 500000000,
        ;
    } else if q == 4 {
        assert(sum == 1000000000220692349) by (nonlinear_arith)
            requires
                sum == a * a + b * b,
                a == 766044443,
                b == 642787610,
        ;
    } else if q == 5 {
        assert(sum == 1000000000220692349) by (nonlinear_arith)
            requires
                sum == a * a + b * b,
                a == 642787610,
                b == 766044443,
        ;
    } else if q == 6 {
        assert(sum == 1000000000373363216) by (nonlinear_arith)
            requires
                sum == a * a + b * b,
                a == 500000000,
                b == 866025404,
        ;
    } else if q == 7 {
        assert(sum == 1000000000179590090) by (nonlinear_arith)
            requires
                sum == a * a + b * b,
                a == 342020143,
                b == 939692621,
        ;
    } else if q == 8 {
        assert(sum == 1000000000091628693) by (nonlinear_arith)
            requires
                sum == a * a + b * b,
                a == 173648178,
                b == 984807753,
        ;
    } else if q == 9 {
        assert(sum == 1000000000000000000) by (nonlinear_arith)
            requires
                sum == a * a + b * b,
                a == 0,
                b == 1000000000,
        ;
    }
}

/// The `i`-th vertex of the outline of a circle.
pub fn rim(c: &Circle, i: usize) -> (v: Vertex)
    requires
        c.wf(),
        i < 36,
    ensures
        v == rim_vertex(*c, i as int),
        v.position.in_range(),
{
    let r: i128 = c.radius as i128;
    let cs: i128 = cos36(i) as i128;
    let sn: i128 = sin36(i) as i128;
    assert(-3_000_000_000_000_000_000 <= r * cs <= 3_000_000_000_000_000_000) by (nonlinear_arith)
        requires
            0 <= r <= 3_000_000_000,
            -1_000_000_000 <= cs <= 1_000_000_000,
    ;
    assert(-3_000_000_000_000_000_000 <= r * sn <= 3_000_000_000_000_000_000) by (nonlinear_arith)
        requires
            0 <= r <= 3_000_000_000,
            -1_000_000_000 <= sn <= 1_000_000_000,
    ;
    let dx = div_round_i128(r * cs, TRIG_SCALE as i128);
    let dy = div_round_i128(r * sn, TRIG_SCALE as i128);
    proof {
        crate::units::lemma_div_round_magnitude(r * cs, TRIG_SCALE as int, 3_000_000_000_000_000_000);
        crate::units::lemma_div_round_magnitude(r * sn, TRIG_SCALE as int, 3_000_000_000_000_000_000);
    }
    Vertex {
        position: Point::clamp_from(
            c.center.position.x as i128 + dx,
            c.center.position.y as i128 + dy,
        ),
        color: c.center.color,
    }
}

/// Paints every circle for the renderer and returns the outlines of all
/// circles in order, [`SEGMENTS`] vertices for each.
pub fn flatten_circles(circles: &mut Vec<Circle>, color_scheme: ColorScheme) -> (flat: Vec<Vertex>)
    requires
        circles_wf(old(circles)@),
    ensures
        final(circles)@ == old(circles)@.map_values(|c: Circle| c.painted(color_scheme)),
        flat@.len() == 36 * old(circles)@.len(),
        forall|i: int, k: int|
            0 <= i < old(circles)@.len() && 0 <= k < 36 ==> #[trigger] flat@[36 * i + k]
                == rim_vertex(final(circles)@[i], k),
        circles_wf(final(circles)@),
{
    let mut flat: Vec<Vertex> = Vec::new();
    let n = circles.len();
    let mut i: usize = 0;
    while i < n
        invariant
            n == circles@.len(),
            n == old(circles)@.len(),
            i <= n,
            circles_wf(circles@),
            flat@.len() == 36 * i,
            forall|j: int|
                0 <= j < i ==> #[trigger] circles@[j] == old(circles)@[j].painted(color_scheme),
            forall|j: int| i <= j < n ==> #[trigger] circles@[j] == old(circles)@[j],
            forall|j: int, k: int|
                0 <= j < i && 0 <= k < 36 ==> #[trigger] flat@[36 * j + k] == rim_vertex(
                    circles@[j],
                    k,
                ),
        decreases n - i,
    {
        circles[i].center.color = color_scheme.paint_color(circles[i].selected);
        let circle = circles[i];
        assert(circle.wf()) by {
            assert(old(circles)@[i as int].wf());
        }
        let mut k: usize = 0;
        while k < 36
            invariant
                k <= 36,
                circle.wf(),
                i < n,
                flat@.len() == 36 * i + k,
                forall|j: int, m: int|
                    0 <= j < i && 0 <= m < 36 ==> #[trigger] flat@[36 * j + m] == rim_vertex(
                        circles@[j],
                        m,
                    ),
                forall|m: int| 0 <= m < k ==> #[trigger] flat@[36 * i + m] == rim_vertex(circle, m),
            decreases 36 - k,
        {
            flat.push(rim(&circle, k));
            k += 1;
        }
        assert forall|j: int, m: int| 0 <= j < i + 1 && 0 <= m < 36 implies #[trigger] flat@[36 * j
            + m] == rim_vertex(circles@[j], m) by {
            if j == i {
                assert(flat@[36 * i + m] == rim_vertex(circle, m));
            }
        }
        i += 1;
    }
    assert(circles@ =~= old(circles)@.map_values(|c: Circle| c.painted(color_scheme)));
    flat
}

/// The `j`-th entry of the index list that draws outlines as line
/// segments: entries `2k` and `2k + 1` of the 72 of a circle join its
/// vertex `k` to the next, the last pair closing the outline.
pub open spec fn outline_index(j: int) -> int {
    let base = 36 * (j / 72);
    let k = (j % 72) / 2;
    if j % 2 == 0 {
        base + k
    } else {
        base + (k + 1) % 36
    }
}

/// The index list that draws the outlines of `count` circles as line
/// segments.
pub fn circle_indices(count: u32) -> (indices: Vec<u32>)
    requires
        36 * count <= u32::MAX,
    ensures
        indices@.len() == 72 * count,
        forall|j: int| 0 <= j < indices@.len() ==> #[trigger] indices@[j] == outline_index(j),
{
    let mut indices: Vec<u32> = Vec::new();
    let mut c: u32 = 0;
    while c < count
        invariant
            c <= count,
            36 * count <= u32::MAX,
            indices@.len() == 72 * c,
            forall|j: int| 0 <= j < indices@.len() ==> #[trigger] indices@[j] == outline_index(j),
        decreases count - c,
    {
        let base_index: u32 = 36 * c;
        let mut k: u32 = 0;
        while k < 36
            invariant
                k <= 36,
                c < count,
                36 * count <= u32::MAX,
                base_index == 36 * c,
                indices@.len() == 72 * c + 2 * k,
                forall|j: int| 0 <= j < indices@.len() ==> #[trigger] indices@[j] == outline_index(j),
            decreases 36 - k,
        {
            let ghost j0 = indices@.len() as int;
            assert(j0 / 72 == c && j0 % 72 == 2 * k && (j0 + 1) / 72 == c && (j0 + 1) % 72 == 2 * k
                + 1);
            indices.push(base_index + k);
            indices.push(base_index + (k + 1) % 36);
            k += 1;
        }
        c += 1;
    }
    indices
}

} // verus!
