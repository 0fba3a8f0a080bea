use easycad::geometry::{circle_hit, find_snap, point_segment_distance, world_threshold};
use easycad::graphics::vertex::{Color, Point, Vertex};
use easycad::model::circle::Circle;
use easycad::model::line::Line;

#[test]
fn distance_is_zero_on_the_segment() {
    assert_eq!(point_segment_distance(0, 0, 0, 0, 10, 0), 0);
    assert_eq!(point_segment_distance(10, 0, 0, 0, 10, 0), 0);
    assert_eq!(point_segment_distance(4, 0, 0, 0, 10, 0), 0);
    assert_eq!(point_segment_distance(3, 3, 0, 0, 10, 10), 0);
    assert_eq!(point_segment_distance(-6, 8, -3, 4, -9, 12), 0);
}

#[test]
fn distance_to_the_inside_is_perpendicular() {
    assert_eq!(point_segment_distance(5, 3, 0, 0, 10, 0), 3);
    assert_eq!(point_segment_distance(5, -3, 0, 0, 10, 0), 3);
    assert_eq!(point_segment_distance(2, 7, 0, 0, 0, 10), 2);
    // 10 / sqrt(2) = 7.07
    assert_eq!(point_segment_distance(10, 0, 0, 0, 10, 10), 7);
    assert_eq!(point_segment_distance(10_000, 0, 0, 0, 10_000, 10_000), 7_071);
}

#[test]
fn distance_beyond_the_ends_is_to_the_endpoint() {
    assert_eq!(point_segment_distance(13, 4, 0, 0, 10, 0), 5);
    assert_eq!(point_segment_distance(-3, -4, 0, 0, 10, 0), 5);
    assert_eq!(point_segment_distance(-1, 0, 0, 0, 10, 0), 1);
    assert_eq!(point_segment_distance(11, 0, 0, 0, 10, 0), 1);
}

#[test]
fn distance_to_a_segment_without_length_is_to_the_point() {
    assert_eq!(point_segment_distance(3, 4, 0, 0, 0, 0), 5);
    assert_eq!(point_segment_distance(7, 7, 7, 7, 7, 7), 0);
    assert_eq!(point_segment_distance(1, 1, 0, 0, 0, 0), 1);
}

#[test]
fn distance_grows_along_the_perpendicular() {
    let mut last = 0;
    for k in 0..50 {
        // away from (0,0)-(30,40) along (-4, 3)
        let d = point_segment_distance(15 - 4 * k, 20 + 3 * k, 0, 0, 30, 40);
        assert!(d >= last);
        assert_eq!(d, 5 * k);
        last = d;
    }
    let mut last = 0;
    for k in 0..50 {
        let d = point_segment_distance(60 + 4 * k, 80 - 3 * k, 0, 0, 30, 40);
        assert!(d >= last);
        last = d;
    }
}

#[test]
fn distance_at_the_edge_of_the_world() {
    let m = 1_000_000_000;
    assert_eq!(point_segment_distance(m, m, -m, -m, -m, -m), 2_828_427_124);
    assert_eq!(point_segment_distance(-m, m, -m, -m, m, m), 1_414_213_562);
    assert_eq!(point_segment_distance(m, -m, -m, -m, m, m), 1_414_213_562);
}

#[test]
fn circle_hit_measures_to_the_boundary() {
    assert_eq!(circle_hit(10, 0, 0, 0, 10), 0);
    assert_eq!(circle_hit(13, 0, 0, 0, 10), 3);
    assert_eq!(circle_hit(4, 0, 0, 0, 10), 6);
    assert_eq!(circle_hit(0, 0, 0, 0, 10), 10);
    assert_eq!(circle_hit(3, 4, 0, 0, 10), 5);
    assert_eq!(circle_hit(6, 8, 0, 0, 10), 0);
    assert_eq!(circle_hit(5, 5, 5, 5, 0), 0);
    assert_eq!(circle_hit(8, 9, 5, 5, 0), 5);
    // sqrt(2) from the centre: 8.58 inside, 0.41 outside
    assert_eq!(circle_hit(1, 1, 0, 0, 10), 8);
    assert_eq!(circle_hit(1, 1, 0, 0, 1), 0);
    assert_eq!(circle_hit(1_001, 1_001, 1_000, 1_000, 2), 0);
}

#[test]
fn threshold_is_five_pixels() {
    assert_eq!(world_threshold(1_000_000), 5_000);
    assert_eq!(world_threshold(1_000_000_000), 5);
    assert_eq!(world_threshold(10_000), 500_000);
    assert_eq!(world_threshold(2_000_000), 2_500);
    assert_eq!(world_threshold(3_000_000), 1_667);
}

fn line(ax: i64, ay: i64, bx: i64, by: i64) -> Line {
    Line::new(Point { x: ax, y: ay }, Point { x: bx, y: by }, false)
}

fn circle(x: i64, y: i64, r: i64) -> Circle {
    Circle::new(Point { x, y }, r, Color::white(), false, false, false)
}

fn at(x: i64, y: i64) -> Option<Point> {
    Some(Point { x, y })
}

fn snap(lines: &Vec<Line>, circles: &mut Vec<Circle>, x: i64, y: i64, thr: i64) -> Option<Point> {
    find_snap(lines, circles, Point { x, y }, thr).map(|v: Vertex| v.position)
}

#[test]
fn snap_finds_endpoints_in_a_box() {
    let lines = vec![line(0, 0, 100, 0)];
    let mut circles = vec![];
    assert_eq!(snap(&lines, &mut circles, 3, -4, 5), at(0, 0));
    assert_eq!(snap(&lines, &mut circles, 104, 4, 5), at(100, 0));
    // a box, not a disc
    assert_eq!(snap(&lines, &mut circles, 4, 4, 5), at(0, 0));
    // the threshold itself is out of reach
    assert_eq!(snap(&lines, &mut circles, 5, 0, 5), None);
    assert_eq!(snap(&lines, &mut circles, 0, -5, 5), None);
    assert_eq!(snap(&lines, &mut circles, 50, 0, 5), None);
    assert_eq!(snap(&lines, &mut circles, 0, 0, 0), None);
}

#[test]
fn snap_takes_the_first_candidate() {
    let lines = vec![line(10, 10, 50, 50), line(12, 12, 11, 11)];
    let mut circles = vec![circle(13, 13, 0)];
    assert_eq!(snap(&lines, &mut circles, 11, 11, 5), at(10, 10));
    assert_eq!(snap(&lines, &mut circles, 15, 15, 5), at(12, 12));
    assert_eq!(snap(&lines, &mut circles, 17, 17, 5), at(13, 13));
    // within a line the first endpoint comes first
    let lines = vec![line(2, 0, 0, 0)];
    assert_eq!(snap(&lines, &mut circles, 1, 0, 5), at(2, 0));
}

#[test]
fn snap_passes_over_what_is_being_drawn() {
    let mut drawing = line(0, 0, 100, 0);
    drawing.is_drawing = true;
    let lines = vec![drawing, line(3, 3, 200, 200)];
    let mut being_drawn = circle(1, 1, 50);
    being_drawn.is_drawing = true;
    let mut circles = vec![being_drawn];
    assert_eq!(snap(&lines, &mut circles, 0, 0, 5), at(3, 3));
    assert_eq!(snap(&lines, &mut circles, 100, 0, 5), None);
    assert_eq!(snap(&lines, &mut circles, 1, 51, 5), None);
    assert_eq!(circles.len(), 1);
}

#[test]
fn snap_finds_the_cardinal_points_of_circles() {
    let lines = vec![];
    let mut circles = vec![circle(100, 100, 50)];
    assert_eq!(snap(&lines, &mut circles, 101, 151, 5), at(100, 150));
    assert_eq!(snap(&lines, &mut circles, 49, 99, 5), at(50, 100));
    assert_eq!(snap(&lines, &mut circles, 100, 52, 5), at(100, 50));
    assert_eq!(snap(&lines, &mut circles, 152, 102, 5), at(150, 100));
    assert_eq!(snap(&lines, &mut circles, 98, 98, 5), at(100, 100));
    assert_eq!(snap(&lines, &mut circles, 135, 135, 5), None);
    // top before left, bottom, right and centre
    let mut circles = vec![circle(0, 0, 2)];
    assert_eq!(snap(&lines, &mut circles, 0, 0, 5), at(0, 2));
    assert_eq!(snap(&lines, &mut circles, 0, 0, 2), at(0, 0));
}
