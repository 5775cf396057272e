use smartknob::peripherals::display::graphics::raster::{bresenham, midpoint_circle, Point};

fn points(list: &[(i32, i32)]) -> Vec<Point> {
    list.iter().map(|&(x, y)| Point { x, y }).collect()
}

/// The error-term walk written out independently, in signed arithmetic.
fn reference_line(x1: i32, y1: i32, x2: i32, y2: i32) -> Vec<Point> {
    let dx = (x2 - x1).abs();
    let dy = (y2 - y1).abs();
    let sx = if x1 < x2 { 1 } else { -1 };
    let sy = if y1 < y2 { 1 } else { -1 };
    let mut err = dx - dy;
    let (mut x, mut y) = (x1, y1);
    let mut out = Vec::new();
    loop {
        out.push(Point { x, y });
        if x == x2 && y == y2 {
            break;
        }
        let err2 = err * 2;
        if err2 > -dy {
            err -= dy;
            x += sx;
        }
        if err2 < dx {
            err += dx;
            y += sy;
        }
    }
    out
}

/// The midpoint walk written out independently.
fn reference_circle(cx: i32, cy: i32, r: i32) -> Vec<Point> {
    let mut f = 1 - r;
    let mut dd_f_x = 1;
    let mut dd_f_y = -2 * r;
    let mut x = 0;
    let mut y = r;
    let mut out = Vec::new();
    while x < y {
        if f >= 0 {
            y -= 1;
            dd_f_y += 2;
            f += dd_f_y;
        }
        x += 1;
        dd_f_x += 2;
        f += dd_f_x;
        out.push(Point { x: cx + x, y: cy + y });
        out.push(Point { x: cx - x, y: cy + y });
        out.push(Point { x: cx + x, y: cy - y });
        out.push(Point { x: cx - x, y: cy - y });
        out.push(Point { x: cx + y, y: cy + x });
        out.push(Point { x: cx - y, y: cy + x });
        out.push(Point { x: cx + y, y: cy - x });
        out.push(Point { x: cx - y, y: cy - x });
    }
    out.push(Point { x: cx, y: cy + r });
    out.push(Point { x: cx, y: cy - r });
    out.push(Point { x: cx + r, y: cy });
    out.push(Point { x: cx - r, y: cy });
    out
}

#[test]
fn horizontal_line_has_exactly_its_five_points() {
    assert_eq!(bresenham(0, 0, 4, 0), points(&[(0, 0), (1, 0), (2, 0), (3, 0), (4, 0)]));
}

#[test]
fn diagonal_line_has_five_connected_points() {
    let line = bresenham(0, 0, 4, 4);
    assert_eq!(line, points(&[(0, 0), (1, 1), (2, 2), (3, 3), (4, 4)]));
    for pair in line.windows(2) {
        assert!((pair[1].x - pair[0].x).abs() <= 1);
        assert!((pair[1].y - pair[0].y).abs() <= 1);
    }
}

#[test]
fn vertical_line_needs_no_special_case() {
    assert_eq!(bresenham(7, 2, 7, 5), points(&[(7, 2), (7, 3), (7, 4), (7, 5)]));
}

#[test]
fn single_point_is_a_line_of_one() {
    assert_eq!(bresenham(9, 9, 9, 9), points(&[(9, 9)]));
}

#[test]
fn lines_run_in_every_direction() {
    assert_eq!(bresenham(4, 0, 0, 0), points(&[(4, 0), (3, 0), (2, 0), (1, 0), (0, 0)]));
    assert_eq!(bresenham(3, 3, 0, 0), points(&[(3, 3), (2, 2), (1, 1), (0, 0)]));
    assert_eq!(bresenham(0, 3, 3, 0), points(&[(0, 3), (1, 2), (2, 1), (3, 0)]));
    assert_eq!(bresenham(2, 5, 2, 3), points(&[(2, 5), (2, 4), (2, 3)]));
}

#[test]
fn shallow_line_steps_along_y_where_the_error_says() {
    assert_eq!(
        bresenham(0, 0, 5, 2),
        points(&[(0, 0), (1, 0), (2, 1), (3, 1), (4, 2), (5, 2)])
    );
}

#[test]
fn steep_line_steps_along_x_where_the_error_says() {
    assert_eq!(
        bresenham(1, 1, 3, 6),
        points(&[(1, 1), (1, 2), (2, 3), (2, 4), (3, 5), (3, 6)])
    );
}

#[test]
fn lines_agree_with_the_walk_written_out() {
    let ends: [u16; 9] = [0, 1, 2, 5, 17, 100, 239, 1000, 65535];
    for &x1 in &ends {
        for &y1 in &ends {
            for &x2 in &ends {
                for &y2 in &ends {
                    if (x1 as i32 - x2 as i32).abs() > 2000 || (y1 as i32 - y2 as i32).abs() > 2000
                    {
                        continue;
                    }
                    assert_eq!(
                        bresenham(x1, y1, x2, y2),
                        reference_line(x1 as i32, y1 as i32, x2 as i32, y2 as i32)
                    );
                }
            }
        }
    }
}

#[test]
fn the_longest_line_ends_where_it_should() {
    let line = bresenham(0, 65535, 65535, 0);
    assert_eq!(line.len(), 65536);
    assert_eq!(line[0], Point { x: 0, y: 65535 });
    assert_eq!(line[65535], Point { x: 65535, y: 0 });
}

#[test]
fn every_line_is_connected_and_never_repeats() {
    for &(x1, y1, x2, y2) in
        &[(0u16, 0u16, 239u16, 100u16), (239, 239, 0, 0), (10, 200, 180, 3), (50, 0, 60, 239)]
    {
        let line = bresenham(x1, y1, x2, y2);
        assert_eq!(line.first(), Some(&Point { x: x1 as i32, y: y1 as i32 }));
        assert_eq!(line.last(), Some(&Point { x: x2 as i32, y: y2 as i32 }));
        let longer = (x1 as i32 - x2 as i32).abs().max((y1 as i32 - y2 as i32).abs());
        assert_eq!(line.len() as i32, longer + 1);
        for pair in line.windows(2) {
            assert!((pair[1].x - pair[0].x).abs() <= 1);
            assert!((pair[1].y - pair[0].y).abs() <= 1);
            assert_ne!(pair[0], pair[1]);
        }
    }
}

#[test]
fn circle_of_radius_ten_stays_within_one_of_its_radius() {
    let circle = midpoint_circle(50, 50, 10);
    assert!(!circle.is_empty());
    for p in &circle {
        let dx = (p.x - 50) as f64;
        let dy = (p.y - 50) as f64;
        let distance = (dx * dx + dy * dy).sqrt().round() as i32;
        assert!((distance - 10).abs() <= 1, "({}, {}) is {} away", p.x, p.y, distance);
    }
}

#[test]
fn circle_of_radius_ten_covers_all_eight_octants() {
    let circle = midpoint_circle(50, 50, 10);
    let mut seen = [false; 8];
    for p in &circle {
        let dx = p.x - 50;
        let dy = p.y - 50;
        if dx == 0 || dy == 0 || dx.abs() == dy.abs() {
            continue;
        }
        let octant = (if dx > 0 { 0 } else { 1 })
            + (if dy > 0 { 0 } else { 2 })
            + (if dx.abs() > dy.abs() { 0 } else { 4 });
        seen[octant] = true;
    }
    assert_eq!(seen, [true; 8]);
}

#[test]
fn circle_of_radius_ten_has_its_points_in_drawing_order() {
    let circle = midpoint_circle(50, 50, 10);
    assert_eq!(circle.len(), 7 * 8 + 4);
    assert_eq!(
        &circle[..8],
        &points(&[
            (51, 60),
            (49, 60),
            (51, 40),
            (49, 40),
            (60, 51),
            (40, 51),
            (60, 49),
            (40, 49),
        ])[..]
    );
    assert_eq!(&circle[56..], &points(&[(50, 60), (50, 40), (60, 50), (40, 50)])[..]);
}

#[test]
fn circle_of_radius_zero_is_its_centre_four_times() {
    assert_eq!(midpoint_circle(5, 6, 0), points(&[(5, 6), (5, 6), (5, 6), (5, 6)]));
}

#[test]
fn circle_of_radius_one_is_one_step_and_the_poles() {
    assert_eq!(
        midpoint_circle(10, 10, 1),
        points(&[
            (11, 10),
            (9, 10),
            (11, 10),
            (9, 10),
            (10, 11),
            (10, 11),
            (10, 9),
            (10, 9),
            (10, 11),
            (10, 9),
            (11, 10),
            (9, 10),
        ])
    );
}

#[test]
fn circles_agree_with_the_walk_written_out() {
    for &(cx, cy) in &[(0u16, 0u16), (50, 50), (120, 120), (239, 0), (65535, 65535)] {
        for r in [0u16, 1, 2, 3, 4, 5, 10, 37, 120, 500] {
            assert_eq!(
                midpoint_circle(cx, cy, r),
                reference_circle(cx as i32, cy as i32, r as i32)
            );
        }
    }
}

#[test]
fn the_largest_circle_stays_within_reach_of_its_centre() {
    let circle = midpoint_circle(65535, 0, 65535);
    assert_eq!(circle.last(), Some(&Point { x: 0, y: 0 }));
    for p in &circle {
        assert!((0..=131070).contains(&p.x));
        assert!((-65535..=65535).contains(&p.y));
    }
}
