use earclip::clipping::{ear_clipping, find_ear, has_three_distinct, is_ear, Outcome};
use earclip::geometry::{orientation, Triangle, Vertex};
use earclip::outline::{polygon_outline, Segment};

fn turned_over(points: &[(i32, i32)], height: i32) -> Vec<Vertex> {
    points.iter().map(|&(x, y)| Vertex::new(x, y, height)).collect()
}

fn tri(v: &[Vertex], a: usize, b: usize, c: usize) -> Triangle {
    Triangle { a: v[a], b: v[b], c: v[c] }
}

fn twice_area(t: &Triangle) -> i128 {
    orientation(&t.a, &t.b, &t.c).abs()
}

#[test]
fn square_gives_two_triangles() {
    let square = turned_over(&[(0, 0), (4, 0), (4, 4), (0, 4)], 4);
    let out = ear_clipping(square.clone());
    assert_eq!(out.outcome, Outcome::Complete);
    assert_eq!(out.triangles, vec![tri(&square, 3, 0, 1), tri(&square, 3, 1, 2)]);
    assert_eq!(out.leftover, vec![square[2], square[3]]);
    for t in &out.triangles {
        assert_eq!(twice_area(t), 16);
    }
    let total: i128 = out.triangles.iter().map(twice_area).sum();
    assert_eq!(total, 2 * 16);
}

#[test]
fn l_shape_gives_four_triangles() {
    let points = [(0, 0), (2, 0), (2, 1), (1, 1), (1, 2), (0, 2)];
    let hexagon = turned_over(&points, 2);
    let out = ear_clipping(hexagon.clone());
    assert_eq!(out.outcome, Outcome::Complete);
    assert_eq!(
        out.triangles,
        vec![
            tri(&hexagon, 0, 1, 2),
            tri(&hexagon, 0, 2, 3),
            tri(&hexagon, 5, 0, 3),
            tri(&hexagon, 5, 3, 4),
        ]
    );
    assert_eq!(out.leftover, vec![hexagon[4], hexagon[5]]);
    let total: i128 = out.triangles.iter().map(twice_area).sum();
    assert_eq!(total, 2 * 3);
    // No triangle leaves the hexagon: the centre of each, and the middle of
    // each of its edges, lie in one of the two bars of the L. Coordinates
    // are taken six times as large, and read with y upwards again.
    let in_l = |x: i32, y: i32| {
        (0 <= x && x <= 12 && 0 <= y && y <= 6) || (0 <= x && x <= 6 && 0 <= y && y <= 12)
    };
    for t in &out.triangles {
        let c = [t.a, t.b, t.c].map(|p| (p.x, 2 - p.y));
        assert!(in_l(2 * (c[0].0 + c[1].0 + c[2].0), 2 * (c[0].1 + c[1].1 + c[2].1)));
        for k in 0..3 {
            let (p, q) = (c[k], c[(k + 1) % 3]);
            assert!(in_l(3 * (p.0 + q.0), 3 * (p.1 + q.1)));
        }
    }
}

#[test]
fn three_vertices_give_their_own_triangle() {
    let points = turned_over(&[(377, 249), (411, 197), (436, 249)], 600);
    let out = ear_clipping(points.clone());
    assert_eq!(out.outcome, Outcome::Complete);
    assert_eq!(out.triangles, vec![tri(&points, 2, 0, 1)]);
    assert_eq!(out.leftover, vec![points[1], points[2]]);
}

#[test]
fn three_vertices_wound_the_other_way_give_nothing() {
    let points = vec![
        Vertex { x: 377, y: 249 },
        Vertex { x: 411, y: 197 },
        Vertex { x: 436, y: 249 },
    ];
    let out = ear_clipping(points.clone());
    assert_eq!(out.outcome, Outcome::Partial { remaining: 3 });
    assert!(out.triangles.is_empty());
    assert_eq!(out.leftover, points);
}

#[test]
fn fewer_than_three_vertices_give_nothing() {
    let none = ear_clipping(Vec::new());
    assert_eq!(none.outcome, Outcome::Degenerate);
    assert!(none.triangles.is_empty());
    assert!(none.leftover.is_empty());

    let one = ear_clipping(vec![Vertex { x: 1, y: 2 }]);
    assert_eq!(one.outcome, Outcome::Degenerate);
    assert!(one.triangles.is_empty());
    assert_eq!(one.leftover, vec![Vertex { x: 1, y: 2 }]);

    let two = vec![Vertex { x: 1, y: 2 }, Vertex { x: 5, y: 9 }];
    let out = ear_clipping(two.clone());
    assert_eq!(out.outcome, Outcome::Degenerate);
    assert!(out.triangles.is_empty());
    assert_eq!(out.leftover, two);
}

#[test]
fn fewer_than_three_different_points_are_degenerate() {
    let a = Vertex { x: 0, y: 0 };
    let b = Vertex { x: 3, y: 1 };
    for points in [vec![a, a, a], vec![a, a, b], vec![a, b, a, b], vec![b, a, a, a, b]] {
        assert!(!has_three_distinct(&points));
        let out = ear_clipping(points.clone());
        assert_eq!(out.outcome, Outcome::Degenerate);
        assert!(out.triangles.is_empty());
        assert_eq!(out.leftover, points);
    }
    let c = Vertex { x: 3, y: 2 };
    assert!(has_three_distinct(&vec![a, b, c]));
    assert!(has_three_distinct(&vec![a, a, b, b, a, c]));
    assert!(!has_three_distinct(&vec![]));
    assert!(!has_three_distinct(&vec![c]));
}

#[test]
fn vertices_on_one_line_give_nothing() {
    let line = turned_over(&[(0, 0), (1, 1), (2, 2), (5, 5)], 10);
    let out = ear_clipping(line.clone());
    assert_eq!(out.outcome, Outcome::Partial { remaining: 4 });
    assert!(out.triangles.is_empty());
    assert_eq!(out.leftover, line);
}

#[test]
fn polygon_wound_the_other_way_stops_at_once() {
    // Clockwise in the source, so no corner passes the orientation test.
    let square = turned_over(&[(0, 4), (4, 4), (4, 0), (0, 0)], 4);
    assert_eq!(find_ear(&square), None);
    let out = ear_clipping(square.clone());
    assert_eq!(out.outcome, Outcome::Partial { remaining: 4 });
    assert!(out.triangles.is_empty());
    assert_eq!(out.leftover, square);
}

#[test]
fn polygon_that_crosses_itself_is_cut_in_part() {
    let bow = turned_over(&[(0, 0), (4, 4), (4, 0), (0, 4)], 4);
    let out = ear_clipping(bow.clone());
    assert_eq!(out.outcome, Outcome::Partial { remaining: 3 });
    assert_eq!(out.triangles, vec![tri(&bow, 3, 0, 1)]);
    assert_eq!(out.leftover, vec![bow[1], bow[2], bow[3]]);
}

#[test]
fn vertex_in_the_way_is_no_ear() {
    // An arrow head: the notch at index 3 lies inside the corner at index 0.
    let arrow = turned_over(&[(0, 0), (4, 0), (4, 4), (2, 1), (0, 4)], 4);
    assert!(!is_ear(&arrow, 0));
    assert!(!is_ear(&arrow, 1));
    assert!(is_ear(&arrow, 2));
    assert!(!is_ear(&arrow, 3));
    assert!(is_ear(&arrow, 4));
    assert!(!is_ear(&arrow, 5));
    assert_eq!(find_ear(&arrow), Some(2));
    let out = ear_clipping(arrow.clone());
    assert_eq!(out.outcome, Outcome::Complete);
    assert_eq!(
        out.triangles,
        vec![tri(&arrow, 1, 2, 3), tri(&arrow, 0, 1, 3), tri(&arrow, 4, 0, 3)]
    );
}

#[test]
fn vertex_on_the_edge_of_a_corner_is_in_the_way() {
    // The notch at index 3 lies on the line between the neighbours of the
    // corner at index 1: on the boundary of that corner's triangle.
    let notched = turned_over(&[(0, 0), (4, 0), (4, 4), (2, 2), (0, 4)], 4);
    assert!(!is_ear(&notched, 1));
    assert!(is_ear(&notched, 2));
    assert_eq!(find_ear(&notched), Some(2));
}

#[test]
fn vertex_in_the_middle_of_a_side_is_no_ear() {
    let square = turned_over(&[(0, 0), (2, 0), (4, 0), (4, 4), (0, 4)], 4);
    assert!(is_ear(&square, 0));
    // three vertices on one line
    assert!(!is_ear(&square, 1));
    assert!(is_ear(&square, 2));
    assert!(is_ear(&square, 3));
    let out = ear_clipping(square.clone());
    assert_eq!(out.outcome, Outcome::Complete);
    assert_eq!(
        out.triangles,
        vec![tri(&square, 4, 0, 1), tri(&square, 4, 1, 2), tri(&square, 4, 2, 3)]
    );
}

#[test]
fn first_ear_is_taken_not_the_best() {
    let square = turned_over(&[(0, 0), (4, 0), (4, 4), (0, 4)], 4);
    for i in 0..4 {
        assert!(is_ear(&square, i));
    }
    assert_eq!(find_ear(&square), Some(0));
    assert_eq!(find_ear(&Vec::new()), None);
    assert_eq!(find_ear(&square[..2].to_vec()), None);
    assert!(!is_ear(&square, 4));
    assert!(!is_ear(&square[..2].to_vec(), 0));
}

#[test]
fn input_is_left_as_it_was() {
    let square = turned_over(&[(0, 0), (4, 0), (4, 4), (0, 4)], 4);
    let copy = square.clone();
    let first = ear_clipping(square.clone());
    let second = ear_clipping(square.clone());
    assert_eq!(square, copy);
    assert_eq!(first.triangles, second.triangles);
    assert_eq!(first.leftover, second.leftover);
    assert_eq!(first.outcome, second.outcome);
}

#[test]
fn outline_joins_each_point_to_the_next() {
    let points = [(321, 335), (288, 286), (339, 251), (374, 302)];
    let lines = polygon_outline(&points, 600);
    let v = turned_over(&points, 600);
    assert_eq!(
        lines,
        vec![
            Segment { from: v[0], to: v[1] },
            Segment { from: v[1], to: v[2] },
            Segment { from: v[2], to: v[3] },
            Segment { from: v[3], to: v[0] },
        ]
    );
    assert_eq!(lines[0].from, Vertex { x: 321, y: 265 });
    assert_eq!(lines[3].to, Vertex { x: 321, y: 265 });
}

#[test]
fn outline_of_few_points() {
    assert!(polygon_outline(&[], 600).is_empty());
    let p = Vertex { x: 7, y: 591 };
    assert_eq!(polygon_outline(&[(7, 9)], 600), vec![Segment { from: p, to: p }]);
    let q = Vertex { x: 1, y: 598 };
    assert_eq!(
        polygon_outline(&[(7, 9), (1, 2)], 600),
        vec![Segment { from: p, to: q }, Segment { from: q, to: p }]
    );
}
