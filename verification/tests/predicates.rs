use earclip::geometry::{is_convex, orientation, point_in_triangle, Vertex};

fn v(x: i32, y: i32) -> Vertex {
    Vertex { x, y }
}

#[test]
fn new_turns_the_vertical_axis_over() {
    let p = Vertex::new(165, 380, 600);
    assert_eq!(p, v(165, 220));
    assert_eq!(Vertex::new(0, 0, 4), v(0, 4));
    assert_eq!(Vertex::new(-3, 7, 0), v(-3, -7));
    assert_eq!(Vertex::new(5, -1, i32::MAX - 1), v(5, i32::MAX));
}

#[test]
fn orientation_is_the_cross_product() {
    // (b - a) x (c - a) = (4 * 5) - (1 * 2)
    assert_eq!(orientation(&v(1, 1), &v(5, 2), &v(3, 6)), 18);
    assert_eq!(orientation(&v(1, 1), &v(3, 6), &v(5, 2)), -18);
    assert_eq!(orientation(&v(0, 4), &v(4, 4), &v(4, 0)), -16);
    assert_eq!(orientation(&v(0, 0), &v(1, 1), &v(2, 2)), 0);
}

#[test]
fn orientation_does_not_overflow() {
    let lo = i32::MIN;
    let hi = i32::MAX;
    let side: i128 = (hi as i128) - (lo as i128);
    assert_eq!(orientation(&v(lo, lo), &v(hi, lo), &v(hi, hi)), side * side);
    assert_eq!(orientation(&v(lo, lo), &v(hi, hi), &v(hi, lo)), -side * side);
    // (lo - hi) * (hi - lo) - (hi - lo) * 0
    assert_eq!(orientation(&v(hi, lo), &v(lo, hi), &v(hi, hi)), -(side * side));
    // (lo - hi) * (hi - lo) - (hi - lo) * (lo - hi): the two products cancel
    assert_eq!(orientation(&v(hi, lo), &v(lo, hi), &v(lo, hi)), 0);
    // (hi - lo) * 0 - (lo - hi) * (hi - lo)
    assert_eq!(orientation(&v(lo, hi), &v(hi, lo), &v(hi, hi)), side * side);
    assert_eq!(orientation(&v(lo, hi), &v(hi, lo), &v(lo, lo)), -(side * side));
}

#[test]
fn orientation_is_the_same_from_every_corner() {
    let (a, b, c) = (v(-7, 3), v(12, -5), v(4, 9));
    let d = orientation(&a, &b, &c);
    assert_eq!(orientation(&b, &c, &a), d);
    assert_eq!(orientation(&c, &a, &b), d);
    assert_eq!(orientation(&a, &c, &b), -d);
}

#[test]
fn convex_is_a_negative_cross_product() {
    assert!(is_convex(&v(0, 4), &v(4, 4), &v(4, 0)));
    assert!(!is_convex(&v(4, 0), &v(4, 4), &v(0, 4)));
}

#[test]
fn three_points_on_a_line_are_not_convex() {
    assert!(!is_convex(&v(0, 0), &v(1, 1), &v(2, 2)));
    assert!(!is_convex(&v(2, 2), &v(1, 1), &v(0, 0)));
    assert!(!is_convex(&v(3, 3), &v(3, 3), &v(3, 3)));
    assert!(!is_convex(&v(0, 0), &v(0, 0), &v(5, 1)));
}

#[test]
fn corners_of_a_flipped_counter_clockwise_square_are_convex() {
    let sq: Vec<Vertex> =
        [(0, 0), (4, 0), (4, 4), (0, 4)].iter().map(|&(x, y)| Vertex::new(x, y, 4)).collect();
    for i in 0..4 {
        assert!(is_convex(&sq[(i + 3) % 4], &sq[i], &sq[(i + 1) % 4]));
    }
}

#[test]
fn point_inside_is_in_the_triangle() {
    let (a, b, c) = (v(0, 0), v(8, 0), v(0, 8));
    assert!(point_in_triangle(&v(2, 2), &a, &b, &c));
    assert!(point_in_triangle(&v(1, 6), &a, &b, &c));
    // the same triangle taken the other way round
    assert!(point_in_triangle(&v(2, 2), &a, &c, &b));
    assert!(point_in_triangle(&v(2, 2), &c, &b, &a));
}

#[test]
fn point_outside_is_not_in_the_triangle() {
    let (a, b, c) = (v(0, 0), v(8, 0), v(0, 8));
    assert!(!point_in_triangle(&v(5, 5), &a, &b, &c));
    assert!(!point_in_triangle(&v(-1, 2), &a, &b, &c));
    assert!(!point_in_triangle(&v(2, -1), &a, &b, &c));
    assert!(!point_in_triangle(&v(9, 0), &a, &b, &c));
    assert!(!point_in_triangle(&v(5, 5), &a, &c, &b));
}

#[test]
fn boundary_counts_as_inside() {
    let (a, b, c) = (v(0, 0), v(8, 0), v(0, 8));
    // on each edge
    assert!(point_in_triangle(&v(4, 0), &a, &b, &c));
    assert!(point_in_triangle(&v(4, 4), &a, &b, &c));
    assert!(point_in_triangle(&v(0, 3), &a, &b, &c));
    // on each corner
    assert!(point_in_triangle(&a, &a, &b, &c));
    assert!(point_in_triangle(&b, &a, &b, &c));
    assert!(point_in_triangle(&c, &a, &b, &c));
    // and the other way round
    assert!(point_in_triangle(&v(4, 4), &c, &b, &a));
}

#[test]
fn triangle_without_area_holds_nothing() {
    let (a, b, c) = (v(0, 0), v(2, 2), v(6, 6));
    assert!(!point_in_triangle(&v(1, 1), &a, &b, &c));
    assert!(!point_in_triangle(&a, &a, &b, &c));
    assert!(!point_in_triangle(&v(3, 0), &a, &b, &c));
    assert!(!point_in_triangle(&a, &a, &a, &a));
    assert!(!point_in_triangle(&v(9, 9), &a, &a, &b));
}

#[test]
fn point_in_triangle_at_the_ends_of_the_range() {
    let lo = i32::MIN;
    let hi = i32::MAX;
    let (a, b, c) = (v(lo, lo), v(hi, lo), v(lo, hi));
    assert!(point_in_triangle(&v(0, -1), &a, &b, &c));
    assert!(point_in_triangle(&v(-1, 0), &a, &b, &c));
    assert!(!point_in_triangle(&v(0, 0), &a, &b, &c));
    assert!(!point_in_triangle(&v(hi, hi), &a, &b, &c));
    assert!(point_in_triangle(&v(lo, lo), &a, &b, &c));
}

#[test]
fn predicates_answer_the_same_every_time() {
    let pts = [v(0, 0), v(5, 1), v(3, 7), v(-2, 4), v(1, 1), v(5, 1)];
    for a in &pts {
        for b in &pts {
            for c in &pts {
                let first = is_convex(a, b, c);
                assert_eq!(is_convex(a, b, c), first);
                assert_eq!(is_convex(&a.clone(), &b.clone(), &c.clone()), first);
                for p in &pts {
                    let inside = point_in_triangle(p, a, b, c);
                    assert_eq!(point_in_triangle(p, a, b, c), inside);
                    assert_eq!(point_in_triangle(&p.clone(), a, b, c), inside);
                }
            }
        }
    }
}
