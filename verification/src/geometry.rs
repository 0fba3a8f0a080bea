//! Hit testing and snapping: distances from a point to a segment and to
//! the boundary of a circle, and the search for the snap point nearest
//! in order to the cursor.
//!
//! Distances are exact: the squared distance from a point to a segment
//! is the fraction [`segment_dist_num`] / [`segment_dist_den`], and the
//! executable functions return the integer part of its square root, so
//! that comparing the result with a whole threshold decides exactly
//! whether the true distance is under the threshold.

use crate::graphics::vertex::{Point, Vertex};
use crate::model::circle::{circle_snap_vertices, flatten_circles_for_snap, Circle};
use crate::model::line::Line;
use crate::{circles_wf, lines_wf};
use crate::units::{
    abs, coord_ok, div_round, div_round_i128, isqrt, isqrt_ceil, lemma_sqrt_floor_exists,
    lemma_sqrt_floor_lt, lemma_square_strict, radius_ok, sqrt_ceil, sqrt_floor, zoom_ok,
    WORLD_SCALE,
};
use vstd::prelude::*;

verus! {

/// The reach of a click or of a snap, in pixels.
pub const PIXEL_THRESHOLD: i64 = 5;

/// The squared distance between `(ax, ay)` and `(bx, by)`.
pub open spec fn dist_sq(ax: int, ay: int, bx: int, by: int) -> int {
    (ax - bx) * (ax - bx) + (ay - by) * (ay - by)
}

/// The cross product of `p - a` and `b - a`: its magnitude is the
/// distance from `p` to the line through `a` and `b`, times `|b - a|`.
pub open spec fn cross(px: int, py: int, ax: int, ay: int, bx: int, by: int) -> int {
    (px - ax) * (by - ay) - (py - ay) * (bx - ax)
}

/// The dot product of `p - a` and `b - a`: the projection parameter of
/// `p` on the segment, times `|b - a|^2`.
pub open spec fn dot(px: int, py: int, ax: int, ay: int, bx: int, by: int) -> int {
    (px - ax) * (bx - ax) + (py - ay) * (by - ay)
}

/// `p` projects onto the inside of the segment from `a` to `b`.
pub open spec fn projects_inside(px: int, py: int, ax: int, ay: int, bx: int, by: int) -> bool {
    0 < dot(px, py, ax, ay, bx, by) < dist_sq(ax, ay, bx, by)
}

/// Numerator of the squared distance from `p` to the segment from `a` to
/// `b`. Where the projection of `p` falls before `a` (or the segment has
/// no length) it is the squared distance to `a`, where it falls after `b`
/// the squared distance to `b`, and in between the squared cross product,
/// to be divided by the squared length of the segment.
pub open spec fn segment_dist_num(px: int, py: int, ax: int, ay: int, bx: int, by: int) -> int {
    if projects_inside(px, py, ax, ay, bx, by) {
        cross(px, py, ax, ay, bx, by) * cross(px, py, ax, ay, bx, by)
    } else if dot(px, py, ax, ay, bx, by) <= 0 {
        dist_sq(px, py, ax, ay)
    } else {
        dist_sq(px, py, bx, by)
    }
}

/// Denominator of the squared distance from `p` to the segment.
pub open spec fn segment_dist_den(px: int, py: int, ax: int, ay: int, bx: int, by: int) -> int {
    if projects_inside(px, py, ax, ay, bx, by) {
        dist_sq(ax, ay, bx, by)
    } else {
        1
    }
}

/// The distance from `p` to the segment from `a` to `b`, rounded down.
pub open spec fn segment_distance(px: int, py: int, ax: int, ay: int, bx: int, by: int) -> int {
    sqrt_floor(
        segment_dist_num(px, py, ax, ay, bx, by) / segment_dist_den(px, py, ax, ay, bx, by),
    )
}

/// `p` lies on the segment from `a` to `b`, ends included.
pub open spec fn on_segment(px: int, py: int, ax: int, ay: int, bx: int, by: int) -> bool {
    if ax == bx && ay == by {
        px == ax && py == ay
    } else {
        &&& cross(px, py, ax, ay, bx, by) == 0
        &&& 0 <= dot(px, py, ax, ay, bx, by) <= dist_sq(ax, ay, bx, by)
    }
}

/// The distance from a point at squared distance `d_sq` from the centre
/// to the boundary of a circle of radius `r`, rounded down.
pub open spec fn boundary_distance(d_sq: int, r: int) -> int {
    if d_sq >= r * r {
        sqrt_floor(d_sq) - r
    } else {
        r - sqrt_ceil(d_sq)
    }
}

/// A point at squared distance `d_sq` from the centre is nearer than `t`
/// to the boundary of a circle of radius `r`: `|sqrt(d_sq) - r| < t`.
pub open spec fn near_boundary(d_sq: int, r: int, t: int) -> bool {
    &&& d_sq < (r + t) * (r + t)
    &&& (r < t || d_sq > (r - t) * (r - t))
}

/// The pixel threshold in world ticks at the given zoom: `5 / zoom`.
pub open spec fn world_threshold_spec(zoom: int) -> int {
    div_round(PIXEL_THRESHOLD * WORLD_SCALE, zoom)
}

/// `v` is within `thr` of `p` on both axes.
pub open spec fn within_box(v: Point, p: Point, thr: int) -> bool {
    abs(v.x - p.x) < thr && abs(v.y - p.y) < thr
}

/// The first of `cands`, from index `from` on, that is within `thr` of `p`
/// on both axes.
pub open spec fn first_within(cands: Seq<Vertex>, p: Point, thr: int, from: int) -> Option<Vertex>
    decreases cands.len() - from,
{
    if from < 0 || from >= cands.len() {
        None
    } else if within_box(cands[from].position, p, thr) {
        Some(cands[from])
    } else {
        first_within(cands, p, thr, from + 1)
    }
}

/// The endpoints of every line that is not being drawn, line by line in
/// the order of the collection.
pub open spec fn line_snap_vertices(lines: Seq<Line>) -> Seq<Vertex>
    decreases lines.len(),
{
    if lines.len() == 0 {
        Seq::empty()
    } else {
        let rest = line_snap_vertices(lines.drop_last());
        if lines.last().is_drawing {
            rest
        } else {
            rest.push(lines.last().vertices[0]).push(lines.last().vertices[1])
        }
    }
}

/// All snap candidates in the order in which they are tried: the
/// endpoints of the lines, then the snap points of the circles.
pub open spec fn snap_candidates(lines: Seq<Line>, circles: Seq<Circle>) -> Seq<Vertex> {
    line_snap_vertices(lines) + circle_snap_vertices(circles)
}

/// The snap point for a cursor at `p`: the first candidate within `thr`
/// of it on both axes, if there is one.
pub open spec fn snap_target(lines: Seq<Line>, circles: Seq<Circle>, p: Point, thr: int) -> Option<
    Vertex,
> {
    first_within(snap_candidates(lines, circles), p, thr, 0)
}

/// The pixel threshold in world ticks.
pub fn world_threshold(zoom: i64) -> (thr: i64)
    requires
        zoom_ok(zoom as int),
    ensures
        thr == world_threshold_spec(zoom as int),
        0 < thr <= 500_000,
{
    let n: i128 = 5_000_000_000;
    assert(n == PIXEL_THRESHOLD * WORLD_SCALE);
    let q = div_round_i128(n, zoom as i128);
    proof {
        crate::units::lemma_div_round_bounds(5_000_000_000, zoom as int);
        assert(0 < q <= 500_000) by (nonlinear_arith)
            requires
                10_000 <= zoom <= 1_000_000_000,
                2 * 5_000_000_000 - zoom < 2 * zoom * q <= 2 * 5_000_000_000 + zoom,
        ;
    }
    q as i64
}

/// The product of two differences of storable coordinates.
proof fn lemma_diff_product(a: int, b: int)
    requires
        -2_000_000_000 <= a <= 2_000_000_000,
        -2_000_000_000 <= b <= 2_000_000_000,
    ensures
        -4_000_000_000_000_000_000 <= a * b <= 4_000_000_000_000_000_000,
        0 <= a * a,
{
    assert(-4_000_000_000_000_000_000 <= a * b <= 4_000_000_000_000_000_000) by (nonlinear_arith)
        requires
            -2_000_000_000 <= a <= 2_000_000_000,
            -2_000_000_000 <= b <= 2_000_000_000,
    ;
    assert(0 <= a * a) by (nonlinear_arith);
}

/// The distance from `(px, py)` to the segment from `(ax, ay)` to
/// `(bx, by)`, rounded down to whole ticks.
pub fn point_segment_distance(px: i64, py: i64, ax: i64, ay: i64, bx: i64, by: i64) -> (d: i64)
    requires
        coord_ok(px as int),
        coord_ok(py as int),
        coord_ok(ax as int),
        coord_ok(ay as int),
        coord_ok(bx as int),
        coord_ok(by as int),
    ensures
        d == segment_distance(px as int, py as int, ax as int, ay as int, bx as int, by as int),
        0 <= d,
{
    let abx: i128 = bx as i128 - ax as i128;
    let aby: i128 = by as i128 - ay as i128;
    let apx: i128 = px as i128 - ax as i128;
    let apy: i128 = py as i128 - ay as i128;
    proof {
        lemma_diff_product(abx as int, abx as int);
        lemma_diff_product(aby as int, aby as int);
        lemma_diff_product(apx as int, apx as int);
        lemma_diff_product(apy as int, apy as int);
        lemma_diff_product(apx as int, abx as int);
        lemma_diff_product(apy as int, aby as int);
        lemma_diff_product(apx as int, aby as int);
        lemma_diff_product(apy as int, abx as int);
        assert((ax - bx) * (ax - bx) == abx * abx) by (nonlinear_arith)
            requires
                abx == bx - ax,
        ;
        assert((ay - by) * (ay - by) == aby * aby) by (nonlinear_arith)
            requires
                aby == by - ay,
        ;
    }
    let ab_len_squared: i128 = abx * abx + aby * aby;
    let t: i128 = apx * abx + apy * aby;
    assert(ab_len_squared == dist_sq(ax as int, ay as int, bx as int, by as int));
    assert(t == dot(px as int, py as int, ax as int, ay as int, bx as int, by as int));
    let s: u64 = if 0 < t && t < ab_len_squared {
        let c: i128 = apx * aby - apy * abx;
        assert(0 <= c * c <= 64_000_000_000_000_000_000_000_000_000_000_000_000)
            by (nonlinear_arith)
            requires
                -8_000_000_000_000_000_000 <= c <= 8_000_000_000_000_000_000,
        ;
        let num: u128 = (c * c) as u128;
        let q: u128 = num / (ab_len_squared as u128);
        assert(q <= num) by (nonlinear_arith)
            requires
                q == num / (ab_len_squared as u128),
                ab_len_squared >= 1,
        ;
        isqrt(q)
    } else if t <= 0 {
        isqrt((apx * apx + apy * apy) as u128)
    } else {
        let bpx: i128 = px as i128 - bx as i128;
        let bpy: i128 = py as i128 - by as i128;
        proof {
            lemma_diff_product(bpx as int, bpx as int);
            lemma_diff_product(bpy as int, bpy as int);
        }
        isqrt((bpx * bpx + bpy * bpy) as u128)
    };
    assert(s <= 8_000_000_000_000_000_000) by {
        if s > 8_000_000_000_000_000_000 {
            lemma_square_strict(8_000_000_000_000_000_000, s as int);
        }
    }
    s as i64
}

/// The distance from `(px, py)` to the boundary of the circle around
/// `(cx, cy)` with radius `r`, rounded down to whole ticks.
pub fn circle_hit(px: i64, py: i64, cx: i64, cy: i64, r: i64) -> (d: i64)
    requires
        coord_ok(px as int),
        coord_ok(py as int),
        coord_ok(cx as int),
        coord_ok(cy as int),
        radius_ok(r as int),
    ensures
        d == boundary_distance(dist_sq(px as int, py as int, cx as int, cy as int), r as int),
        0 <= d,
{
    let dx: i128 = px as i128 - cx as i128;
    let dy: i128 = py as i128 - cy as i128;
    proof {
        lemma_diff_product(dx as int, dx as int);
        lemma_diff_product(dy as int, dy as int);
        assert(0 <= r * r <= 9_000_000_000_000_000_000) by (nonlinear_arith)
            requires
                0 <= r <= 3_000_000_000,
        ;
    }
    let d_sq: i128 = dx * dx + dy * dy;
    let rr: i128 = (r as i128) * (r as i128);
    proof {
        lemma_sqrt_floor_exists(d_sq as int);
    }
    if d_sq >= rr {
        let s = isqrt(d_sq as u128);
        assert(s >= r) by {
            if s < r {
                lemma_square_strict(s as int, r as int);
            }
        }
        assert(s <= 3_000_000_000) by {
            if s > 3_000_000_000 {
                lemma_square_strict(3_000_000_000, s as int);
            }
        }
        (s as i64) - r
    } else {
        let s = isqrt_ceil(d_sq as u128);
        assert(s <= r) by {
            let f = sqrt_floor(d_sq as int);
            if f >= r {
                if f > r {
                    lemma_square_strict(r as int, f);
                }
            }
        }
        r - (s as i64)
    }
}

/// A rounded-down distance is under a whole threshold exactly when the
/// exact distance is: `segment_distance < t` if and only if
/// `num < t * t * den`.
pub proof fn lemma_segment_distance_lt(px: int, py: int, ax: int, ay: int, bx: int, by: int, t: int)
    requires
        0 <= t,
    ensures
        segment_distance(px, py, ax, ay, bx, by) < t <==> segment_dist_num(px, py, ax, ay, bx, by)
            < t * t * segment_dist_den(px, py, ax, ay, bx, by),
{
    let num = segment_dist_num(px, py, ax, ay, bx, by);
    let den = segment_dist_den(px, py, ax, ay, bx, by);
    let c = cross(px, py, ax, ay, bx, by);
    assert(c * c >= 0) by (nonlinear_arith);
    assert(dist_sq(px, py, ax, ay) >= 0) by (nonlinear_arith)
        requires
            dist_sq(px, py, ax, ay) == (px - ax) * (px - ax) + (py - ay) * (py - ay),
    ;
    assert(dist_sq(px, py, bx, by) >= 0) by (nonlinear_arith)
        requires
            dist_sq(px, py, bx, by) == (px - bx) * (px - bx) + (py - by) * (py - by),
    ;
    assert(den >= 1);
    assert(num >= 0);
    let q = num / den;
    assert(0 <= q && (q < t * t <==> num < t * t * den)) by (nonlinear_arith)
        requires
            q == num / den,
            den >= 1,
            num >= 0,
    ;
    lemma_sqrt_floor_lt(q, t);
}

/// A rounded-down distance to the boundary is under a whole threshold
/// exactly when the exact one is.
pub proof fn lemma_boundary_distance_lt(d_sq: int, r: int, t: int)
    requires
        0 <= d_sq,
        0 <= r,
        0 <= t,
    ensures
        boundary_distance(d_sq, r) < t <==> near_boundary(d_sq, r, t),
{
    lemma_sqrt_floor_exists(d_sq);
    let f = sqrt_floor(d_sq);
    if d_sq >= r * r {
        // on or outside the boundary: floor(sqrt) - r < t  <=>  d_sq < (r + t)^2
        if f < r {
            lemma_square_strict(f, r);
        }
        lemma_sqrt_floor_lt(d_sq, r + t);
        if t > 0 && r >= t {
            lemma_square_strict(r - t, r);
        }
    } else {
        // inside: r - ceil(sqrt) < t  <=>  r < t or d_sq > (r - t)^2
        let c = sqrt_ceil(d_sq);
        assert(d_sq < (r + t) * (r + t)) by (nonlinear_arith)
            requires
                d_sq < r * r,
                0 <= r,
                0 <= t,
        ;
        if f > r {
            lemma_square_strict(r, f);
        }
        assert(f < r);
        assert(c * c >= d_sq);
        if r >= t {
            let k = r - t;
            if c > k {
                if f * f == d_sq {
                    lemma_square_strict(k, f);
                } else if k < f {
                    lemma_square_strict(k, f);
                }
                assert(d_sq > k * k);
            } else {
                if c < k {
                    lemma_square_strict(c, k);
                }
                assert(d_sq <= k * k);
            }
        }
    }
}

/// The snap point for the cursor: the first snap candidate within
/// `threshold` of the cursor on both axes.
pub fn find_snap(lines: &Vec<Line>, circles: &mut Vec<Circle>, cursor: Point, threshold: i64) -> (snap:
    Option<Vertex>)
    requires
        lines_wf(lines@),
        circles_wf(old(circles)@),
    ensures
        final(circles)@ == old(circles)@,
        snap == snap_target(lines@, old(circles)@, cursor, threshold as int),
        snap matches Some(v) ==> v.position.in_range(),
{
    let mut cands: Vec<Vertex> = Vec::new();
    let n = lines.len();
    let mut i: usize = 0;
    assert(lines@.take(0) =~= Seq::<Line>::empty());
    while i < n
        invariant
            n == lines@.len(),
            i <= n,
            lines_wf(lines@),
            cands@ == line_snap_vertices(lines@.take(i as int)),
            forall|k: int| 0 <= k < cands@.len() ==> (#[trigger] cands@[k]).position.in_range(),
        decreases n - i,
    {
        proof {
            assert(lines@.take(i + 1).drop_last() =~= lines@.take(i as int));
            assert(lines@.take(i + 1).last() == lines@[i as int]);
        }
        if !lines[i].is_drawing {
            assert(lines@[i as int].wf());
            cands.push(lines[i].vertices[0]);
            cands.push(lines[i].vertices[1]);
        }
        i += 1;
    }
    assert(lines@.take(n as int) =~= lines@);
    let mut circle_cands = flatten_circles_for_snap(circles);
    cands.append(&mut circle_cands);
    assert(cands@ == snap_candidates(lines@, circles@));
    let m = cands.len();
    let mut j: usize = 0;
    while j < m
        invariant
            m == cands@.len(),
            j <= m,
            circles@ == old(circles)@,
            cands@ == snap_candidates(lines@, circles@),
            forall|k: int| 0 <= k < cands@.len() ==> (#[trigger] cands@[k]).position.in_range(),
            first_within(cands@, cursor, threshold as int, 0) == first_within(
                cands@,
                cursor,
                threshold as int,
                j as int,
            ),
        decreases m - j,
    {
        let v = cands[j];
        let dx: i128 = v.position.x as i128 - cursor.x as i128;
        let dy: i128 = v.position.y as i128 - cursor.y as i128;
        let adx: i128 = if dx < 0 { -dx } else { dx };
        let ady: i128 = if dy < 0 { -dy } else { dy };
        if adx < threshold as i128 && ady < threshold as i128 {
            return Some(v);
        }
        j += 1;
    }
    None
}

/// The identities behind the distance to a segment: with `l` the squared
/// length of the segment, `|p - a|^2 * l = dot^2 + cross^2`, and
/// `|p - b|^2 = |p - a|^2 - 2 * dot + l`.
pub proof fn lemma_segment_identities(px: int, py: int, ax: int, ay: int, bx: int, by: int)
    ensures
        dist_sq(px, py, ax, ay) * dist_sq(ax, ay, bx, by) == dot(px, py, ax, ay, bx, by) * dot(
            px,
            py,
            ax,
            ay,
            bx,
            by,
        ) + cross(px, py, ax, ay, bx, by) * cross(px, py, ax, ay, bx, by),
        dist_sq(px, py, bx, by) == dist_sq(px, py, ax, ay) - 2 * dot(px, py, ax, ay, bx, by)
            + dist_sq(ax, ay, bx, by),
        dist_sq(px, py, ax, ay) >= 0,
        dist_sq(px, py, bx, by) >= 0,
        dist_sq(ax, ay, bx, by) >= 0,
        dist_sq(ax, ay, bx, by) == 0 <==> (ax == bx && ay == by),
        dist_sq(px, py, ax, ay) == 0 <==> (px == ax && py == ay),
        dist_sq(px, py, bx, by) == 0 <==> (px == bx && py == by),
{
    let u = px - ax;
    let v = py - ay;
    let w = bx - ax;
    let z = by - ay;
    lemma_lagrange(u, v, w, z);
    assert((ax - bx) * (ax - bx) == w * w) by (nonlinear_arith)
        requires
            w == bx - ax,
    ;
    assert((ay - by) * (ay - by) == z * z) by (nonlinear_arith)
        requires
            z == by - ay,
    ;
    assert((px - bx) * (px - bx) + (py - by) * (py - by) == (u * u + v * v) - 2 * (u * w + v * z)
        + (w * w + z * z)) by (nonlinear_arith)
        requires
            u == px - ax,
            v == py - ay,
            w == bx - ax,
            z == by - ay,
    ;
    lemma_sum_of_squares(u, v);
    lemma_sum_of_squares(w, z);
    lemma_sum_of_squares(px - bx, py - by);
}

/// Lagrange's identity in two dimensions:
/// `|a|^2 * |b|^2 = (a . b)^2 + (a x b)^2`.
pub proof fn lemma_lagrange(u: int, v: int, w: int, z: int)
    ensures
        (u * u + v * v) * (w * w + z * z) == (u * w + v * z) * (u * w + v * z) + (u * z - v * w) * (
        u * z - v * w),
{
    let a = u * w;
    let b = v * z;
    let c = u * z;
    let d = v * w;
    assert((a + b) * (a + b) + (c - d) * (c - d) == a * a + b * b + c * c + d * d + 2 * (a * b)
        - 2 * (c * d)) by (nonlinear_arith);
    assert(a * b == c * d) by (nonlinear_arith)
        requires
            a == u * w,
            b == v * z,
            c == u * z,
            d == v * w,
    ;
    assert(a * a == (u * u) * (w * w)) by (nonlinear_arith)
        requires
            a == u * w,
    ;
    assert(b * b == (v * v) * (z * z)) by (nonlinear_arith)
        requires
            b == v * z,
    ;
    assert(c * c == (u * u) * (z * z)) by (nonlinear_arith)
        requires
            c == u * z,
    ;
    assert(d * d == (v * v) * (w * w)) by (nonlinear_arith)
        requires
            d == v * w,
    ;
    let uu = u * u;
    let vv = v * v;
    let ww = w * w;
    let zz = z * z;
    assert((uu + vv) * (ww + zz) == uu * ww + uu * zz + vv * ww + vv * zz) by (nonlinear_arith);
}

/// A sum of two squares is never negative, and is zero only when both
/// terms are.
pub proof fn lemma_sum_of_squares(u: int, v: int)
    ensures
        u * u + v * v >= 0,
        u * u + v * v == 0 <==> (u == 0 && v == 0),
{
    assert(u * u >= 0 && (u * u == 0 <==> u == 0)) by (nonlinear_arith);
    assert(v * v >= 0 && (v * v == 0 <==> v == 0)) by (nonlinear_arith);
}

/// Hit-test law, first half: the distance from a point to a segment is
/// zero exactly when the point lies on the segment, in particular at
/// either endpoint.
pub proof fn lemma_distance_zero_iff_on_segment(
    px: int,
    py: int,
    ax: int,
    ay: int,
    bx: int,
    by: int,
)
    ensures
        segment_dist_num(px, py, ax, ay, bx, by) == 0 <==> on_segment(px, py, ax, ay, bx, by),
        segment_dist_den(px, py, ax, ay, bx, by) > 0,
        on_segment(ax, ay, ax, ay, bx, by),
        on_segment(bx, by, ax, ay, bx, by),
        segment_dist_num(px, py, ax, ay, bx, by) == 0 ==> segment_distance(px, py, ax, ay, bx, by)
            == 0,
{
    lemma_segment_identities(px, py, ax, ay, bx, by);
    lemma_segment_identities(ax, ay, ax, ay, bx, by);
    lemma_segment_identities(bx, by, ax, ay, bx, by);
    let l = dist_sq(ax, ay, bx, by);
    let t = dot(px, py, ax, ay, bx, by);
    let c = cross(px, py, ax, ay, bx, by);
    let a = dist_sq(px, py, ax, ay);
    let b = dist_sq(px, py, bx, by);
    lemma_sum_of_squares(t, c);
    assert(c * c == 0 <==> c == 0) by (nonlinear_arith);
    // the endpoints
    assert(cross(ax, ay, ax, ay, bx, by) == 0) by (nonlinear_arith)
        requires
            cross(ax, ay, ax, ay, bx, by) == (ax - ax) * (by - ay) - (ay - ay) * (bx - ax),
    ;
    assert(dot(ax, ay, ax, ay, bx, by) == 0) by (nonlinear_arith)
        requires
            dot(ax, ay, ax, ay, bx, by) == (ax - ax) * (bx - ax) + (ay - ay) * (by - ay),
    ;
    assert(cross(bx, by, ax, ay, bx, by) == 0) by (nonlinear_arith)
        requires
            cross(bx, by, ax, ay, bx, by) == (bx - ax) * (by - ay) - (by - ay) * (bx - ax),
    ;
    assert(dot(bx, by, ax, ay, bx, by) == l) by (nonlinear_arith)
        requires
            dot(bx, by, ax, ay, bx, by) == (bx - ax) * (bx - ax) + (by - ay) * (by - ay),
            l == (ax - bx) * (ax - bx) + (ay - by) * (ay - by),
    ;
    if projects_inside(px, py, ax, ay, bx, by) {
    } else if t <= 0 {
        if l > 0 {
            // on the segment means t == 0 and c == 0, that is a * l == 0
            assert(a * l == 0 <==> a == 0) by (nonlinear_arith)
                requires
                    l > 0,
            ;
            assert(t * t == 0 <==> t == 0) by (nonlinear_arith);
        } else {
            assert(t == 0) by (nonlinear_arith)
                requires
                    ax == bx,
                    ay == by,
                    t == (px - ax) * (bx - ax) + (py - ay) * (by - ay),
            ;
        }
    } else {
        assert(l > 0) by (nonlinear_arith)
            requires
                t > 0,
                l >= 0,
                l == 0 ==> (ax == bx && ay == by),
                t == (px - ax) * (bx - ax) + (py - ay) * (by - ay),
        ;
        if c == 0 && t == l {
            assert(a == l) by (nonlinear_arith)
                requires
                    a * l == l * l + 0,
                    l > 0,
            ;
        }
        if b == 0 {
            assert(px == bx && py == by);
        }
    }
    if segment_dist_num(px, py, ax, ay, bx, by) == 0 {
        assert(0int / segment_dist_den(px, py, ax, ay, bx, by) == 0) by (nonlinear_arith)
            requires
                segment_dist_den(px, py, ax, ay, bx, by) > 0,
        ;
        crate::units::lemma_sqrt_round_square(0);
    }
}

/// The integer part of a square root keeps the order of its arguments.
pub proof fn lemma_sqrt_floor_monotone(n1: int, n2: int)
    requires
        0 <= n1 <= n2,
    ensures
        sqrt_floor(n1) <= sqrt_floor(n2),
{
    lemma_sqrt_floor_exists(n2);
    lemma_sqrt_floor_lt(n1, sqrt_floor(n2) + 1);
}

/// Hit-test law, second half: moving a point away from a segment along
/// the perpendicular never brings it nearer. Two points lie on one
/// perpendicular to the line through `a` and `b` when their dot products
/// along the segment are equal, and the one with the cross product of
/// the greater magnitude lies further from that line, on whichever side.
/// Of two such points, `p` is no further from the segment than `q`.
pub proof fn lemma_distance_monotone_along_perpendicular(
    px: int,
    py: int,
    qx: int,
    qy: int,
    ax: int,
    ay: int,
    bx: int,
    by: int,
)
    requires
        ax != bx || ay != by,
        dot(px, py, ax, ay, bx, by) == dot(qx, qy, ax, ay, bx, by),
        crate::units::abs(cross(px, py, ax, ay, bx, by)) <= crate::units::abs(
            cross(qx, qy, ax, ay, bx, by),
        ),
    ensures
        segment_dist_den(px, py, ax, ay, bx, by) == segment_dist_den(qx, qy, ax, ay, bx, by),
        segment_dist_num(px, py, ax, ay, bx, by) <= segment_dist_num(qx, qy, ax, ay, bx, by),
        segment_distance(px, py, ax, ay, bx, by) <= segment_distance(qx, qy, ax, ay, bx, by),
{
    let l = dist_sq(ax, ay, bx, by);
    let t = dot(px, py, ax, ay, bx, by);
    let c1 = cross(px, py, ax, ay, bx, by);
    let c2 = cross(qx, qy, ax, ay, bx, by);
    lemma_segment_identities(px, py, ax, ay, bx, by);
    lemma_segment_identities(qx, qy, ax, ay, bx, by);
    assert(0 <= c1 * c1 <= c2 * c2) by (nonlinear_arith)
        requires
            (if c1 >= 0 {
                c1
            } else {
                -c1
            }) <= (if c2 >= 0 {
                c2
            } else {
                -c2
            }),
    ;
    let n1 = segment_dist_num(px, py, ax, ay, bx, by);
    let n2 = segment_dist_num(qx, qy, ax, ay, bx, by);
    let d = segment_dist_den(px, py, ax, ay, bx, by);
    assert(l > 0);
    if !projects_inside(px, py, ax, ay, bx, by) {
        // both are squared distances to the same endpoint e, and
        // |p - e|^2 * l = dot_e^2 + cross^2 with the same dot_e
        let a1 = dist_sq(px, py, ax, ay);
        let a2 = dist_sq(qx, qy, ax, ay);
        assert(a1 <= a2) by (nonlinear_arith)
            requires
                a1 * l == t * t + c1 * c1,
                a2 * l == t * t + c2 * c2,
                c1 * c1 <= c2 * c2,
                l > 0,
        ;
    }
    assert(n1 <= n2);
    assert(n1 >= 0 && n2 >= 0);
    assert(0 <= n1 / d <= n2 / d) by (nonlinear_arith)
        requires
            0 <= n1 <= n2,
            d > 0,
    ;
    lemma_sqrt_floor_monotone(n1 / d, n2 / d);
}

/// Moving a point away from a segment in steps: from `p`, on the side of
/// the line through `a` and `b` where the cross product is not positive
/// (or on the line), `k` steps of `n = (-(by - ay), bx - ax)`, which is
/// perpendicular to the segment, lead further to that side as `k` grows,
/// and never nearer to the segment; the other side is the same statement
/// with `a` and `b` exchanged.
pub proof fn lemma_distance_monotone_in_steps(
    px: int,
    py: int,
    ax: int,
    ay: int,
    bx: int,
    by: int,
    k1: int,
    k2: int,
)
    requires
        ax != bx || ay != by,
        cross(px, py, ax, ay, bx, by) <= 0,
        0 <= k1 <= k2,
    ensures
        ({
            let nx = -(by - ay);
            let ny = bx - ax;
            let (x1, y1) = (px + k1 * nx, py + k1 * ny);
            let (x2, y2) = (px + k2 * nx, py + k2 * ny);
            segment_distance(x1, y1, ax, ay, bx, by) <= segment_distance(x2, y2, ax, ay, bx, by)
        }),
{
    let nx = -(by - ay);
    let ny = bx - ax;
    let (x1, y1) = (px + k1 * nx, py + k1 * ny);
    let (x2, y2) = (px + k2 * nx, py + k2 * ny);
    let l = dist_sq(ax, ay, bx, by);
    lemma_segment_identities(px, py, ax, ay, bx, by);
    lemma_perpendicular_step(px, py, ax, ay, bx, by, k1);
    lemma_perpendicular_step(px, py, ax, ay, bx, by, k2);
    assert(0 <= k1 * l <= k2 * l) by (nonlinear_arith)
        requires
            0 <= k1 <= k2,
            l >= 0,
    ;
    lemma_distance_monotone_along_perpendicular(x1, y1, x2, y2, ax, ay, bx, by);
}

/// A step of `k` along the perpendicular leaves the dot product as it
/// is and lowers the cross product by `k` times the squared length.
proof fn lemma_perpendicular_step(px: int, py: int, ax: int, ay: int, bx: int, by: int, k: int)
    ensures
        ({
            let x = px + k * (-(by - ay));
            let y = py + k * (bx - ax);
            &&& dot(x, y, ax, ay, bx, by) == dot(px, py, ax, ay, bx, by)
            &&& cross(x, y, ax, ay, bx, by) == cross(px, py, ax, ay, bx, by) - k * dist_sq(
                ax,
                ay,
                bx,
                by,
            )
        }),
{
    let u = px - ax;
    let v = py - ay;
    let w = bx - ax;
    let z = by - ay;
    let x = px + k * (-z);
    let y = py + k * w;
    assert((x - ax) * w + (y - ay) * z == u * w + v * z) by (nonlinear_arith)
        requires
            x == px + k * (-z),
            y == py + k * w,
            u == px - ax,
            v == py - ay,
    ;
    assert((x - ax) * z - (y - ay) * w == (u * z - v * w) - k * (w * w + z * z))
        by (nonlinear_arith)
        requires
            x == px + k * (-z),
            y == py + k * w,
            u == px - ax,
            v == py - ay,
    ;
    assert((ax - bx) * (ax - bx) == w * w) by (nonlinear_arith)
        requires
            w == bx - ax,
    ;
    assert((ay - by) * (ay - by) == z * z) by (nonlinear_arith)
        requires
            z == by - ay,
    ;
}

} // verus!
