//! The line rasteriser: an integer walk from one end of a line to the
//! other, steered by an error term.

use crate::peripherals::display::graphics::raster::Point;
use vstd::prelude::*;

verus! {

/// The error term of a line walk that has gone `a` steps along x and `b`
/// steps along y: it starts at `dx - dy`, loses `dy` with every x step and
/// gains `dx` with every y step.
pub open spec fn line_error(dx: int, dy: int, a: int, b: int) -> int {
    dx - dy - a * dy + b * dx
}

/// The walk steps along x when twice the error exceeds `-dy`.
pub open spec fn steps_along_x(dx: int, dy: int, a: int, b: int) -> bool {
    2 * line_error(dx, dy, a, b) > -dy
}

/// The walk steps along y when twice the error is below `dx`.
pub open spec fn steps_along_y(dx: int, dy: int, a: int, b: int) -> bool {
    2 * line_error(dx, dy, a, b) < dx
}

/// The offsets from a line's start that the walk visits from `(a, b)` on,
/// for a line that spans `dx` by `dy`. The walk ends, inclusively, at
/// `(dx, dy)`.
pub open spec fn line_walk(dx: int, dy: int, a: int, b: int) -> Seq<(int, int)>
    decreases (dx - a) + (dy - b),
    when 0 <= a <= dx && 0 <= b <= dy
    via line_walk_decreases
{
    if a == dx && b == dy {
        seq![(a, b)]
    } else {
        seq![(a, b)] + line_walk(
            dx,
            dy,
            if steps_along_x(dx, dy, a, b) {
                a + 1
            } else {
                a
            },
            if steps_along_y(dx, dy, a, b) {
                b + 1
            } else {
                b
            },
        )
    }
}

/// Short of the end, the walk moves, and it never leaves the span: it steps
/// along x only while `a < dx`, along y only while `b < dy`, and at least
/// one of the two.
pub proof fn lemma_line_step(dx: int, dy: int, a: int, b: int)
    requires
        0 <= a <= dx,
        0 <= b <= dy,
        !(a == dx && b == dy),
    ensures
        steps_along_x(dx, dy, a, b) ==> a < dx,
        steps_along_y(dx, dy, a, b) ==> b < dy,
        steps_along_x(dx, dy, a, b) || steps_along_y(dx, dy, a, b),
{
    let ady = a * dy;
    let bdx = b * dx;
    let dxdy = dx * dy;
    assert(a == dx ==> ady == dxdy) by (nonlinear_arith)
        requires
            ady == a * dy,
            dxdy == dx * dy,
    ;
    assert(b == dy ==> bdx == dxdy) by (nonlinear_arith)
        requires
            bdx == b * dx,
            dxdy == dx * dy,
    ;
    assert(b < dy ==> bdx + dx <= dxdy) by (nonlinear_arith)
        requires
            bdx == b * dx,
            dxdy == dx * dy,
            0 <= b,
            0 <= dx,
    ;
    assert(a < dx ==> ady + dy <= dxdy) by (nonlinear_arith)
        requires
            ady == a * dy,
            dxdy == dx * dy,
            0 <= a,
            0 <= dy,
    ;
    assert(0 <= ady && 0 <= bdx) by (nonlinear_arith)
        requires
            ady == a * dy,
            bdx == b * dx,
            0 <= a,
            0 <= b,
            0 <= dx,
            0 <= dy,
    ;
}

#[via_fn]
proof fn line_walk_decreases(dx: int, dy: int, a: int, b: int) {
    if !(a == dx && b == dy) {
        lemma_line_step(dx, dy, a, b);
    }
}

/// The point at offset `(a, b)` from `(x1, y1)` on the way to `(x2, y2)`:
/// each axis counts towards the end point.
pub open spec fn line_point(x1: u16, y1: u16, x2: u16, y2: u16, offset: (int, int)) -> Point {
    Point {
        x: (if x1 < x2 {
            x1 + offset.0
        } else {
            x1 - offset.0
        }) as i32,
        y: (if y1 < y2 {
            y1 + offset.1
        } else {
            y1 - offset.1
        }) as i32,
    }
}

/// The distance between two coordinates.
pub open spec fn span(from: u16, to: u16) -> int {
    if from < to {
        to - from
    } else {
        from - to
    }
}

/// The pixels of the line from `(x1, y1)` to `(x2, y2)`, in drawing order,
/// both ends included.
pub open spec fn line_points(x1: u16, y1: u16, x2: u16, y2: u16) -> Seq<Point> {
    line_walk(span(x1, x2), span(y1, y2), 0, 0).map_values(
        |offset: (int, int)| line_point(x1, y1, x2, y2, offset),
    )
}

/// Rasterises the line from `(x1, y1)` to `(x2, y2)` with the integer
/// error-term walk. Vertical and horizontal lines and single points are not
/// special cases.
pub fn bresenham(x1: u16, y1: u16, x2: u16, y2: u16) -> (points: Vec<Point>)
    ensures
        points@ == line_points(x1, y1, x2, y2),
{
    let dx: i32 = if x1 < x2 {
        x2 as i32 - x1 as i32
    } else {
        x1 as i32 - x2 as i32
    };
    let dy: i32 = if y1 < y2 {
        y2 as i32 - y1 as i32
    } else {
        y1 as i32 - y2 as i32
    };
    let sx: i32 = if x1 < x2 {
        1
    } else {
        -1
    };
    let sy: i32 = if y1 < y2 {
        1
    } else {
        -1
    };
    let mut err: i32 = dx - dy;
    let mut x: i32 = x1 as i32;
    let mut y: i32 = y1 as i32;
    let mut points: Vec<Point> = Vec::new();
    let ghost mut a: int = 0;
    let ghost mut b: int = 0;
    let ghost mut visited: Seq<(int, int)> = Seq::empty();
    let ghost to_point = |offset: (int, int)| line_point(x1, y1, x2, y2, offset);
    assert(line_error(dx as int, dy as int, 0, 0) == dx - dy) by (nonlinear_arith);
    loop
        invariant_except_break
            visited + line_walk(dx as int, dy as int, a, b) == line_walk(
                dx as int,
                dy as int,
                0,
                0,
            ),
        invariant
            dx == span(x1, x2),
            dy == span(y1, y2),
            sx == (if x1 < x2 { 1i32 } else { -1i32 }),
            sy == (if y1 < y2 { 1i32 } else { -1i32 }),
            0 <= a <= dx,
            0 <= b <= dy,
            x == (if x1 < x2 { x1 + a } else { x1 - a }),
            y == (if y1 < y2 { y1 + b } else { y1 - b }),
            err == line_error(dx as int, dy as int, a, b),
            -2 * dy <= err <= 2 * dx,
            to_point == |offset: (int, int)| line_point(x1, y1, x2, y2, offset),
            points@ == visited.map_values(to_point),
        ensures
            visited == line_walk(dx as int, dy as int, 0, 0),
        decreases (dx - a) + (dy - b),
    {
        proof {
            assert(visited.push((a, b)).map_values(to_point) =~= visited.map_values(
                to_point,
            ).push(to_point((a, b))));
            assert(visited.push((a, b)) =~= visited + seq![(a, b)]);
        }
        points.push(Point { x, y });
        if x == x2 as i32 && y == y2 as i32 {
            proof {
                assert(a == dx && b == dy);
                visited = visited.push((a, b));
            }
            break ;
        }
        proof {
            lemma_line_step(dx as int, dy as int, a, b);
            lemma_line_error_moves(dx as int, dy as int, a, b);
        }
        let ghost next_a: int = if steps_along_x(dx as int, dy as int, a, b) {
            a + 1
        } else {
            a
        };
        let ghost next_b: int = if steps_along_y(dx as int, dy as int, a, b) {
            b + 1
        } else {
            b
        };
        let err2: i32 = err * 2;
        if err2 > -dy {
            err -= dy;
            x += sx;
        }
        if err2 < dx {
            err += dx;
            y += sy;
        }
        proof {
            assert(visited.push((a, b)) + line_walk(dx as int, dy as int, next_a, next_b)
                =~= visited + line_walk(dx as int, dy as int, a, b));
            visited = visited.push((a, b));
            a = next_a;
            b = next_b;
        }
    }
    points
}

/// Two offsets are neighbours when the second is one step on from the
/// first: each axis advances by at most one, and at least one advances.
pub open spec fn one_step_on(from: (int, int), to: (int, int)) -> bool {
    &&& from.0 <= to.0 <= from.0 + 1
    &&& from.1 <= to.1 <= from.1 + 1
    &&& from != to
}

/// The walk's offset at `i + 1` is one step on from its offset at `i`.
pub open spec fn walk_steps_at(walk: Seq<(int, int)>, i: int) -> bool {
    one_step_on(walk[i], walk[i + 1])
}

/// The shape of a walk: it starts where it is asked to, ends at the far
/// corner of the span, stays inside the span and moves one step at a time.
pub proof fn lemma_line_walk_shape(dx: int, dy: int, a: int, b: int)
    requires
        0 <= a <= dx,
        0 <= b <= dy,
    ensures
        line_walk(dx, dy, a, b).len() >= 1,
        line_walk(dx, dy, a, b).first() == (a, b),
        line_walk(dx, dy, a, b).last() == (dx, dy),
        forall|i: int|
            #![trigger line_walk(dx, dy, a, b)[i]]
            0 <= i < line_walk(dx, dy, a, b).len() ==> a <= line_walk(dx, dy, a, b)[i].0 <= dx
                && b <= line_walk(dx, dy, a, b)[i].1 <= dy,
        forall|i: int|
            0 <= i < line_walk(dx, dy, a, b).len() - 1 ==> #[trigger] walk_steps_at(
                line_walk(dx, dy, a, b),
                i,
            ),
    decreases (dx - a) + (dy - b),
{
    let walk = line_walk(dx, dy, a, b);
    if a == dx && b == dy {
        assert(walk =~= seq![(a, b)]);
    } else {
        lemma_line_step(dx, dy, a, b);
        let next_a = if steps_along_x(dx, dy, a, b) {
            a + 1
        } else {
            a
        };
        let next_b = if steps_along_y(dx, dy, a, b) {
            b + 1
        } else {
            b
        };
        let rest = line_walk(dx, dy, next_a, next_b);
        lemma_line_walk_shape(dx, dy, next_a, next_b);
        assert(walk =~= seq![(a, b)] + rest);
        assert(walk.len() == rest.len() + 1);
        assert(walk[0] == (a, b));
        assert forall|i: int| 1 <= i < walk.len() implies #[trigger] walk[i] == rest[i - 1] by {}
        assert(walk.last() == rest.last());
        assert(rest.first() == (next_a, next_b));
        assert forall|i: int| 0 <= i < walk.len() - 1 implies #[trigger] walk_steps_at(
            walk,
            i,
        ) by {
            if i == 0 {
                assert(walk[1] == rest[0]);
            } else {
                assert(walk_steps_at(rest, i - 1));
                assert(walk[i] == rest[i - 1]);
                assert(walk[i + 1] == rest[i]);
            }
        }
    }
}

/// Along a walk neither coordinate ever goes back, and the later of two
/// different places lies further on.
pub proof fn lemma_line_walk_monotone(dx: int, dy: int, a: int, b: int, i: int, j: int)
    requires
        0 <= a <= dx,
        0 <= b <= dy,
        0 <= i <= j < line_walk(dx, dy, a, b).len(),
    ensures
        line_walk(dx, dy, a, b)[i].0 <= line_walk(dx, dy, a, b)[j].0,
        line_walk(dx, dy, a, b)[i].1 <= line_walk(dx, dy, a, b)[j].1,
        i < j ==> line_walk(dx, dy, a, b)[i] != line_walk(dx, dy, a, b)[j],
    decreases j - i,
{
    if i < j {
        lemma_line_walk_shape(dx, dy, a, b);
        lemma_line_walk_monotone(dx, dy, a, b, i, j - 1);
        assert(walk_steps_at(line_walk(dx, dy, a, b), j - 1));
    }
}

/// The point that a line's walk gives at index `i`.
pub proof fn lemma_line_point_at(x1: u16, y1: u16, x2: u16, y2: u16, i: int)
    requires
        0 <= i < line_points(x1, y1, x2, y2).len(),
    ensures
        line_points(x1, y1, x2, y2).len() == line_walk(span(x1, x2), span(y1, y2), 0, 0).len(),
        line_points(x1, y1, x2, y2)[i] == line_point(
            x1,
            y1,
            x2,
            y2,
            line_walk(span(x1, x2), span(y1, y2), 0, 0)[i],
        ),
        0 <= line_walk(span(x1, x2), span(y1, y2), 0, 0)[i].0 <= span(x1, x2),
        0 <= line_walk(span(x1, x2), span(y1, y2), 0, 0)[i].1 <= span(y1, y2),
{
    lemma_line_walk_shape(span(x1, x2), span(y1, y2), 0, 0);
}

/// Where the span is wider than tall the walk steps along x every time:
/// its offset at index `i` is `i` steps along x from where it started, and
/// it is as long as the way along x that is left.
proof fn lemma_walk_wide(dx: int, dy: int, a: int, b: int)
    requires
        0 <= a <= dx,
        0 <= b <= dy,
        dx > dy,
        !(a == dx && b == dy) ==> 2 * line_error(dx, dy, a, b) + dy > 0,
    ensures
        line_walk(dx, dy, a, b).len() == dx - a + 1,
        forall|i: int|
            0 <= i < line_walk(dx, dy, a, b).len() ==> (#[trigger] line_walk(dx, dy, a, b)[i]).0
                == a + i,
    decreases (dx - a) + (dy - b),
{
    let walk = line_walk(dx, dy, a, b);
    if a == dx && b == dy {
        assert(walk =~= seq![(a, b)]);
    } else {
        lemma_line_step(dx, dy, a, b);
        lemma_line_error_moves(dx, dy, a, b);
        let next_b = if steps_along_y(dx, dy, a, b) {
            b + 1
        } else {
            b
        };
        let rest = line_walk(dx, dy, a + 1, next_b);
        lemma_walk_wide(dx, dy, a + 1, next_b);
        assert(walk =~= seq![(a, b)] + rest);
        assert forall|i: int| 0 <= i < walk.len() implies (#[trigger] walk[i]).0 == a + i by {
            if i > 0 {
                assert(walk[i] == rest[i - 1]);
            }
        }
    }
}

/// Where the span is taller than wide the walk steps along y every time.
proof fn lemma_walk_tall(dx: int, dy: int, a: int, b: int)
    requires
        0 <= a <= dx,
        0 <= b <= dy,
        dy > dx,
        !(a == dx && b == dy) ==> 2 * line_error(dx, dy, a, b) - dx < 0,
    ensures
        line_walk(dx, dy, a, b).len() == dy - b + 1,
        forall|i: int|
            0 <= i < line_walk(dx, dy, a, b).len() ==> (#[trigger] line_walk(dx, dy, a, b)[i]).1
                == b + i,
    decreases (dx - a) + (dy - b),
{
    let walk = line_walk(dx, dy, a, b);
    if a == dx && b == dy {
        assert(walk =~= seq![(a, b)]);
    } else {
        lemma_line_step(dx, dy, a, b);
        lemma_line_error_moves(dx, dy, a, b);
        let next_a = if steps_along_x(dx, dy, a, b) {
            a + 1
        } else {
            a
        };
        let rest = line_walk(dx, dy, next_a, b + 1);
        lemma_walk_tall(dx, dy, next_a, b + 1);
        assert(walk =~= seq![(a, b)] + rest);
        assert forall|i: int| 0 <= i < walk.len() implies (#[trigger] walk[i]).1 == b + i by {
            if i > 0 {
                assert(walk[i] == rest[i - 1]);
            }
        }
    }
}

/// Where the span is square the walk steps along both axes every time.
proof fn lemma_walk_square(d: int, a: int)
    requires
        0 <= a <= d,
    ensures
        line_walk(d, d, a, a).len() == d - a + 1,
        forall|i: int|
            0 <= i < line_walk(d, d, a, a).len() ==> #[trigger] line_walk(d, d, a, a)[i] == (
                a + i,
                a + i,
            ),
    decreases d - a,
{
    let walk = line_walk(d, d, a, a);
    if a == d {
        assert(walk =~= seq![(a, a)]);
    } else {
        assert(line_error(d, d, a, a) == 0) by (nonlinear_arith);
        let rest = line_walk(d, d, a + 1, a + 1);
        lemma_walk_square(d, a + 1);
        assert(walk =~= seq![(a, a)] + rest);
        assert forall|i: int| 0 <= i < walk.len() implies #[trigger] walk[i] == (a + i, a + i) by {
            if i > 0 {
                assert(walk[i] == rest[i - 1]);
            }
        }
    }
}

/// The larger of two spans.
pub open spec fn longer(dx: int, dy: int) -> int {
    if dx >= dy {
        dx
    } else {
        dy
    }
}

/// A line has one pixel for every step along its longer axis, and one more:
/// along that axis it advances with every pixel, so the pixel at index `i`
/// is `i` steps from the first.
pub proof fn lemma_line_length(x1: u16, y1: u16, x2: u16, y2: u16)
    ensures
        line_points(x1, y1, x2, y2).len() == longer(span(x1, x2), span(y1, y2)) + 1,
        span(x1, x2) >= span(y1, y2) ==> forall|i: int|
            0 <= i < line_points(x1, y1, x2, y2).len() ==> (#[trigger] line_points(
                x1,
                y1,
                x2,
                y2,
            )[i]).x == (if x1 < x2 {
                x1 + i
            } else {
                x1 - i
            }),
        span(y1, y2) >= span(x1, x2) ==> forall|i: int|
            0 <= i < line_points(x1, y1, x2, y2).len() ==> (#[trigger] line_points(
                x1,
                y1,
                x2,
                y2,
            )[i]).y == (if y1 < y2 {
                y1 + i
            } else {
                y1 - i
            }),
{
    let dx = span(x1, x2);
    let dy = span(y1, y2);
    let walk = line_walk(dx, dy, 0, 0);
    let points = line_points(x1, y1, x2, y2);
    assert(line_error(dx, dy, 0, 0) == dx - dy) by (nonlinear_arith);
    if dx > dy {
        lemma_walk_wide(dx, dy, 0, 0);
    } else if dy > dx {
        lemma_walk_tall(dx, dy, 0, 0);
    } else {
        lemma_walk_square(dx, 0);
    }
    assert(points.len() == walk.len());
    assert forall|i: int| 0 <= i < points.len() implies #[trigger] points[i] == line_point(
        x1,
        y1,
        x2,
        y2,
        walk[i],
    ) by {}
    if dx >= dy {
        assert forall|i: int| 0 <= i < points.len() implies (#[trigger] points[i]).x == (if x1
            < x2 {
            x1 + i
        } else {
            x1 - i
        }) by {
            assert(walk[i].0 == i);
        }
    }
    if dy >= dx {
        assert forall|i: int| 0 <= i < points.len() implies (#[trigger] points[i]).y == (if y1
            < y2 {
            y1 + i
        } else {
            y1 - i
        }) by {
            assert(walk[i].1 == i);
        }
    }
}

/// A horizontal line is its row from one end to the other: exactly the
/// pixels between the ends, each once, in order.
pub proof fn lemma_horizontal_line(x1: u16, y: u16, x2: u16)
    ensures
        line_points(x1, y, x2, y).len() == span(x1, x2) + 1,
        forall|i: int|
            0 <= i < line_points(x1, y, x2, y).len() ==> #[trigger] line_points(x1, y, x2, y)[i]
                == (Point {
                x: (if x1 < x2 {
                    x1 + i
                } else {
                    x1 - i
                }) as i32,
                y: y as i32,
            }),
{
    lemma_line_length(x1, y, x2, y);
    lemma_line_ends(x1, y, x2, y);
    let points = line_points(x1, y, x2, y);
    assert forall|i: int| 0 <= i < points.len() implies #[trigger] points[i] == (Point {
        x: (if x1 < x2 {
            x1 + i
        } else {
            x1 - i
        }) as i32,
        y: y as i32,
    }) by {
        assert(within_corners(points[i], x1, y, x2, y));
    }
}

/// A vertical line is its column from one end to the other.
pub proof fn lemma_vertical_line(x: u16, y1: u16, y2: u16)
    ensures
        line_points(x, y1, x, y2).len() == span(y1, y2) + 1,
        forall|i: int|
            0 <= i < line_points(x, y1, x, y2).len() ==> #[trigger] line_points(x, y1, x, y2)[i]
                == (Point {
                x: x as i32,
                y: (if y1 < y2 {
                    y1 + i
                } else {
                    y1 - i
                }) as i32,
            }),
{
    lemma_line_length(x, y1, x, y2);
    lemma_line_ends(x, y1, x, y2);
    let points = line_points(x, y1, x, y2);
    assert forall|i: int| 0 <= i < points.len() implies #[trigger] points[i] == (Point {
        x: x as i32,
        y: (if y1 < y2 {
            y1 + i
        } else {
            y1 - i
        }) as i32,
    }) by {
        assert(within_corners(points[i], x, y1, x, y2));
    }
}

/// The pixel at `i + 1` touches the pixel at `i`, along an edge or at a
/// corner.
pub open spec fn touches_next(points: Seq<Point>, i: int) -> bool {
    &&& -1 <= points[i + 1].x - points[i].x <= 1
    &&& -1 <= points[i + 1].y - points[i].y <= 1
}

/// A point lies in the rectangle that two corners span.
pub open spec fn within_corners(p: Point, x1: u16, y1: u16, x2: u16, y2: u16) -> bool {
    &&& (x1 <= p.x <= x2 || x2 <= p.x <= x1)
    &&& (y1 <= p.y <= y2 || y2 <= p.y <= y1)
}

/// Every line runs from its first end to its second inside the rectangle
/// the two ends span.
pub proof fn lemma_line_ends(x1: u16, y1: u16, x2: u16, y2: u16)
    ensures
        line_points(x1, y1, x2, y2).len() >= 1,
        line_points(x1, y1, x2, y2).first() == (Point { x: x1 as i32, y: y1 as i32 }),
        line_points(x1, y1, x2, y2).last() == (Point { x: x2 as i32, y: y2 as i32 }),
        forall|i: int|
            0 <= i < line_points(x1, y1, x2, y2).len() ==> within_corners(
                #[trigger] line_points(x1, y1, x2, y2)[i],
                x1,
                y1,
                x2,
                y2,
            ),
{
    let points = line_points(x1, y1, x2, y2);
    lemma_line_walk_shape(span(x1, x2), span(y1, y2), 0, 0);
    lemma_line_point_at(x1, y1, x2, y2, 0);
    lemma_line_point_at(x1, y1, x2, y2, points.len() - 1);
    assert forall|i: int| 0 <= i < points.len() implies within_corners(
        #[trigger] points[i],
        x1,
        y1,
        x2,
        y2,
    ) by {
        lemma_line_point_at(x1, y1, x2, y2, i);
    }
}

/// Every line is drawn without gaps and without repeats: each pixel touches
/// the one before it, along an edge or at a corner, and no pixel is drawn
/// twice.
pub proof fn lemma_line_connected(x1: u16, y1: u16, x2: u16, y2: u16)
    ensures
        forall|i: int|
            0 <= i < line_points(x1, y1, x2, y2).len() - 1 ==> #[trigger] touches_next(
                line_points(x1, y1, x2, y2),
                i,
            ),
        forall|i: int, j: int|
            #![trigger line_points(x1, y1, x2, y2)[i], line_points(x1, y1, x2, y2)[j]]
            0 <= i < j < line_points(x1, y1, x2, y2).len() ==> line_points(x1, y1, x2, y2)[i]
                != line_points(x1, y1, x2, y2)[j],
{
    let dx = span(x1, x2);
    let dy = span(y1, y2);
    let walk = line_walk(dx, dy, 0, 0);
    let points = line_points(x1, y1, x2, y2);
    assert forall|i: int| 0 <= i < points.len() - 1 implies #[trigger] touches_next(
        points,
        i,
    ) by {
        lemma_line_point_at(x1, y1, x2, y2, i);
        lemma_line_point_at(x1, y1, x2, y2, i + 1);
        lemma_line_walk_shape(dx, dy, 0, 0);
        assert(walk_steps_at(walk, i));
    }
    assert forall|i: int, j: int| 0 <= i < j < points.len() implies #[trigger] points[i]
        != #[trigger] points[j] by {
        lemma_line_point_at(x1, y1, x2, y2, i);
        lemma_line_point_at(x1, y1, x2, y2, j);
        lemma_line_walk_monotone(dx, dy, 0, 0, i, j);
    }
}

/// How a step changes the error term.
proof fn lemma_line_error_moves(dx: int, dy: int, a: int, b: int)
    ensures
        line_error(dx, dy, a + 1, b) == line_error(dx, dy, a, b) - dy,
        line_error(dx, dy, a, b + 1) == line_error(dx, dy, a, b) + dx,
        line_error(dx, dy, a + 1, b + 1) == line_error(dx, dy, a, b) - dy + dx,
{
    assert((a + 1) * dy == a * dy + dy) by (nonlinear_arith);
    assert((b + 1) * dx == b * dx + dx) by (nonlinear_arith);
}

} // verus!
