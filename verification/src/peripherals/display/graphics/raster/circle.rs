//! The circle rasteriser: a midpoint walk along one octant, mirrored into
//! the other seven, and the four poles.

use crate::peripherals::display::graphics::raster::Point;
use vstd::prelude::*;

verus! {

/// The decision value of the midpoint circle walk at octant offset
/// `(x, y)` for radius `r`. It starts at `1 - r` for `(0, r)`; a step along
/// x adds `2x + 3`, a step inwards along y adds `2 - 2y`. It is negative
/// while the midpoint ahead is still inside the circle.
pub open spec fn circle_decision(r: int, x: int, y: int) -> int {
    x * x + y * y - r * r + 2 * x - y + 1
}

/// Where the walk goes from octant offset `(x, y)`: one step along x, and
/// one step inwards along y unless the decision value is negative.
pub open spec fn circle_next(r: int, x: int, y: int) -> (int, int) {
    (
        x + 1,
        if circle_decision(r, x, y) >= 0 {
            y - 1
        } else {
            y
        },
    )
}

/// The eight mirror images of the octant offset `(x, y)` about the centre
/// `(cx, cy)`, in drawing order.
pub open spec fn circle_mirrors(cx: int, cy: int, x: int, y: int) -> Seq<Point> {
    seq![
        Point { x: (cx + x) as i32, y: (cy + y) as i32 },
        Point { x: (cx - x) as i32, y: (cy + y) as i32 },
        Point { x: (cx + x) as i32, y: (cy - y) as i32 },
        Point { x: (cx - x) as i32, y: (cy - y) as i32 },
        Point { x: (cx + y) as i32, y: (cy + x) as i32 },
        Point { x: (cx - y) as i32, y: (cy + x) as i32 },
        Point { x: (cx + y) as i32, y: (cy - x) as i32 },
        Point { x: (cx - y) as i32, y: (cy - x) as i32 },
    ]
}

/// The pixels the walk draws from octant offset `(x, y)` on: after each
/// step the eight mirror images of the new offset, until x has caught up
/// with y.
pub open spec fn circle_arcs(cx: int, cy: int, r: int, x: int, y: int) -> Seq<Point>
    decreases y - x + 1,
{
    if x >= y {
        Seq::empty()
    } else {
        let next = circle_next(r, x, y);
        circle_mirrors(cx, cy, next.0, next.1) + circle_arcs(cx, cy, r, next.0, next.1)
    }
}

/// The four pixels where the circle crosses the axes through its centre,
/// in drawing order.
pub open spec fn circle_poles(cx: int, cy: int, r: int) -> Seq<Point> {
    seq![
        Point { x: cx as i32, y: (cy + r) as i32 },
        Point { x: cx as i32, y: (cy - r) as i32 },
        Point { x: (cx + r) as i32, y: cy as i32 },
        Point { x: (cx - r) as i32, y: cy as i32 },
    ]
}

/// The pixels of the circle of radius `radius` about `(cx, cy)`, in drawing
/// order: the arcs first, then the four poles. `radius` is a radius, not a
/// diameter.
pub open spec fn circle_points(cx: u16, cy: u16, radius: u16) -> Seq<Point> {
    circle_arcs(cx as int, cy as int, radius as int, 0, radius as int) + circle_poles(
        cx as int,
        cy as int,
        radius as int,
    )
}

/// A point is within `radius` of `(cx, cy)` along each axis.
pub open spec fn within_reach(p: Point, cx: u16, cy: u16, radius: u16) -> bool {
    &&& cx - radius <= p.x <= cx + radius
    &&& cy - radius <= p.y <= cy + radius
}

/// How a step changes the decision value.
proof fn lemma_circle_decision_moves(r: int, x: int, y: int)
    ensures
        circle_decision(r, x + 1, y) == circle_decision(r, x, y) + 2 * x + 3,
        circle_decision(r, x + 1, y - 1) == circle_decision(r, x, y) + 2 * x + 3 + 2 - 2 * y,
        circle_decision(r, 0, r) == 1 - r,
{
    assert((x + 1) * (x + 1) == x * x + 2 * x + 1) by (nonlinear_arith);
    assert((y - 1) * (y - 1) == y * y - 2 * y + 1) by (nonlinear_arith);
}

/// The squared distance of a point from a centre.
pub open spec fn distance_squared(p: Point, cx: int, cy: int) -> int {
    (p.x - cx) * (p.x - cx) + (p.y - cy) * (p.y - cy)
}

/// A point is no more than one pixel away from the circle of radius `r`
/// about `(cx, cy)`.
pub open spec fn near_circle(p: Point, cx: int, cy: int, r: int) -> bool {
    &&& distance_squared(p, cx, cy) <= (r + 1) * (r + 1)
    &&& r >= 1 ==> distance_squared(p, cx, cy) >= (r - 1) * (r - 1)
}

/// All eight mirror images of an octant offset are as far from the centre
/// as the offset is from the origin.
proof fn lemma_mirrors_distance(cx: int, cy: int, x: int, y: int, k: int)
    requires
        0 <= cx <= 65535,
        0 <= cy <= 65535,
        0 <= x <= 65536,
        0 <= y <= 65536,
        0 <= k < 8,
    ensures
        circle_mirrors(cx, cy, x, y).len() == 8,
        distance_squared(circle_mirrors(cx, cy, x, y)[k], cx, cy) == x * x + y * y,
{
    assert((0 - x) * (0 - x) == x * x) by (nonlinear_arith);
    assert((0 - y) * (0 - y) == y * y) by (nonlinear_arith);
    let p = circle_mirrors(cx, cy, x, y)[k];
    assert(p.x - cx == x || p.x - cx == 0 - x || p.x - cx == y || p.x - cx == 0 - y);
    if k < 4 {
        assert(p.x - cx == x || p.x - cx == 0 - x);
        assert(p.y - cy == y || p.y - cy == 0 - y);
    } else {
        assert(p.x - cx == y || p.x - cx == 0 - y);
        assert(p.y - cy == x || p.y - cy == 0 - x);
    }
}

/// From an octant offset whose decision value lies within the bounds the
/// walk keeps, every pixel of the remaining arcs is near the circle.
proof fn lemma_circle_arcs_near(cx: int, cy: int, r: int, x: int, y: int, i: int)
    requires
        0 <= cx <= 65535,
        0 <= cy <= 65535,
        1 <= r <= 65535,
        0 <= x,
        0 <= y <= r,
        x <= y + 1,
        circle_decision(r, x, y) >= 2 * x - y - 2 * r + 2,
        x < y ==> circle_decision(r, x, y) <= 2 * x + 2,
        0 <= i < circle_arcs(cx, cy, r, x, y).len(),
    ensures
        near_circle(circle_arcs(cx, cy, r, x, y)[i], cx, cy, r),
    decreases y - x + 1,
{
    if x < y {
        let next = circle_next(r, x, y);
        let mirrors = circle_mirrors(cx, cy, next.0, next.1);
        let rest = circle_arcs(cx, cy, r, next.0, next.1);
        lemma_circle_decision_moves(r, x, y);
        assert(circle_arcs(cx, cy, r, x, y) =~= mirrors + rest);
        let f = circle_decision(r, next.0, next.1);
        let d2 = next.0 * next.0 + next.1 * next.1;
        assert(d2 - r * r == f - 2 * next.0 + next.1 - 1);
        assert(1 - 2 * r <= d2 - r * r <= r + 1);
        assert((r + 1) * (r + 1) == r * r + 2 * r + 1) by (nonlinear_arith);
        assert((r - 1) * (r - 1) == r * r - 2 * r + 1) by (nonlinear_arith);
        if i < 8 {
            lemma_mirrors_distance(cx, cy, next.0, next.1, i);
            assert(circle_arcs(cx, cy, r, x, y)[i] == mirrors[i]);
        } else {
            lemma_mirrors_distance(cx, cy, next.0, next.1, 0);
            assert(circle_arcs(cx, cy, r, x, y)[i] == rest[i - 8]);
            lemma_circle_arcs_near(cx, cy, r, next.0, next.1, i - 8);
        }
    }
}

/// Every pixel of a circle is no more than one pixel away from the true
/// circle: its distance from the centre, squared, lies between `(r - 1)^2`
/// and `(r + 1)^2`.
pub proof fn lemma_circle_near(cx: u16, cy: u16, radius: u16)
    ensures
        forall|i: int|
            0 <= i < circle_points(cx, cy, radius).len() ==> near_circle(
                #[trigger] circle_points(cx, cy, radius)[i],
                cx as int,
                cy as int,
                radius as int,
            ),
{
    let points = circle_points(cx, cy, radius);
    let r = radius as int;
    let arcs = circle_arcs(cx as int, cy as int, r, 0, r);
    let poles = circle_poles(cx as int, cy as int, r);
    assert((r + 1) * (r + 1) == r * r + 2 * r + 1) by (nonlinear_arith);
    assert((r - 1) * (r - 1) == r * r - 2 * r + 1) by (nonlinear_arith);
    assert((0 - r) * (0 - r) == r * r) by (nonlinear_arith);
    assert(0 * 0 == 0int);
    assert forall|i: int| 0 <= i < points.len() implies near_circle(
        #[trigger] points[i],
        cx as int,
        cy as int,
        r,
    ) by {
        if i < arcs.len() {
            assert(points[i] == arcs[i]);
            if r >= 1 {
                lemma_circle_decision_moves(r, 0, r);
                lemma_circle_arcs_near(cx as int, cy as int, r, 0, r, i);
            }
        } else {
            let p = poles[i - arcs.len()];
            assert(points[i] == p);
            assert(p.x - cx == 0 || p.x - cx == r || p.x - cx == 0 - r);
            assert(p.x - cx == 0 ==> p.y - cy == r || p.y - cy == 0 - r);
            assert(p.x - cx != 0 ==> p.y - cy == 0);
        }
    }
}

/// No pixel of the arcs that the walk draws from octant offset `(x, y)` on
/// is further than the radius from the centre along either axis.
proof fn lemma_circle_arcs_within_reach(cx: u16, cy: u16, radius: u16, x: int, y: int, i: int)
    requires
        0 <= x,
        0 <= y <= radius,
        0 <= i < circle_arcs(cx as int, cy as int, radius as int, x, y).len(),
    ensures
        within_reach(
            circle_arcs(cx as int, cy as int, radius as int, x, y)[i],
            cx,
            cy,
            radius,
        ),
    decreases y - x + 1,
{
    if x < y {
        let r = radius as int;
        let next = circle_next(r, x, y);
        let mirrors = circle_mirrors(cx as int, cy as int, next.0, next.1);
        let rest = circle_arcs(cx as int, cy as int, r, next.0, next.1);
        assert(circle_arcs(cx as int, cy as int, r, x, y) =~= mirrors + rest);
        if i < 8 {
            assert(circle_arcs(cx as int, cy as int, r, x, y)[i] == mirrors[i]);
        } else {
            assert(circle_arcs(cx as int, cy as int, r, x, y)[i] == rest[i - 8]);
            lemma_circle_arcs_within_reach(cx, cy, radius, next.0, next.1, i - 8);
        }
    }
}

/// A circle stays within its radius of its centre along both axes, and its
/// last four pixels are its poles: straight below, above, right and left
/// of the centre at the radius's distance.
pub proof fn lemma_circle_extent(cx: u16, cy: u16, radius: u16)
    ensures
        circle_points(cx, cy, radius).len() >= 4,
        forall|i: int|
            0 <= i < circle_points(cx, cy, radius).len() ==> within_reach(
                #[trigger] circle_points(cx, cy, radius)[i],
                cx,
                cy,
                radius,
            ),
        circle_points(cx, cy, radius).skip(circle_points(cx, cy, radius).len() - 4)
            == circle_poles(cx as int, cy as int, radius as int),
{
    let points = circle_points(cx, cy, radius);
    let arcs = circle_arcs(cx as int, cy as int, radius as int, 0, radius as int);
    let poles = circle_poles(cx as int, cy as int, radius as int);
    assert(points.skip(points.len() - 4) =~= poles);
    assert forall|i: int| 0 <= i < points.len() implies within_reach(
        #[trigger] points[i],
        cx,
        cy,
        radius,
    ) by {
        if i < arcs.len() {
            assert(points[i] == arcs[i]);
            lemma_circle_arcs_within_reach(cx, cy, radius, 0, radius as int, i);
        } else {
            assert(points[i] == poles[i - arcs.len()]);
        }
    }
}

/// A circle of radius two or more reaches into all eight octants about its
/// centre: its first eight pixels are one step off the four poles, one on
/// either side of each.
pub proof fn lemma_circle_octants(cx: u16, cy: u16, radius: u16)
    requires
        radius >= 2,
    ensures
        circle_points(cx, cy, radius).len() >= 12,
        circle_points(cx, cy, radius).take(8) == circle_mirrors(
            cx as int,
            cy as int,
            1,
            radius as int,
        ),
{
    let r = radius as int;
    lemma_circle_decision_moves(r, 0, r);
    assert(circle_next(r, 0, r) == (1int, r));
    let arcs = circle_arcs(cx as int, cy as int, r, 0, r);
    let rest = circle_arcs(cx as int, cy as int, r, 1, r);
    assert(arcs =~= circle_mirrors(cx as int, cy as int, 1, r) + rest);
    assert(circle_points(cx, cy, radius).take(8) =~= circle_mirrors(cx as int, cy as int, 1, r));
}

/// Rasterises the circle of radius `radius` about `(cx, cy)` with the
/// midpoint walk: eight mirrored pixels per step, then the four poles.
pub fn midpoint_circle(cx: u16, cy: u16, radius: u16) -> (points: Vec<Point>)
    ensures
        points@ == circle_points(cx, cy, radius),
        forall|i: int|
            0 <= i < points@.len() ==> within_reach(#[trigger] points@[i], cx, cy, radius),
{
    let x0: i32 = cx as i32;
    let y0: i32 = cy as i32;
    let r: i32 = radius as i32;
    let mut f: i32 = 1 - r;
    let mut dd_f_x: i32 = 1;
    let mut dd_f_y: i32 = 0 - 2 * r;
    let mut x: i32 = 0;
    let mut y: i32 = r;
    let mut points: Vec<Point> = Vec::new();
    proof {
        lemma_circle_decision_moves(r as int, 0, r as int);
    }
    while x < y
        invariant
            x0 == cx,
            y0 == cy,
            r == radius,
            0 <= x,
            0 <= y <= r,
            x <= y + 1,
            dd_f_x == 2 * x + 1,
            dd_f_y == -2 * y,
            f == circle_decision(r as int, x as int, y as int),
            x < y ==> f <= 2 * x + 2,
            -3 * r <= f <= 4 * r + 8,
            forall|i: int|
                0 <= i < points@.len() ==> within_reach(#[trigger] points@[i], cx, cy, radius),
            points@ + circle_arcs(x0 as int, y0 as int, r as int, x as int, y as int)
                == circle_arcs(x0 as int, y0 as int, r as int, 0, r as int),
        decreases y - x + 1,
    {
        let ghost before = points@;
        let ghost old_x = x as int;
        let ghost old_y = y as int;
        proof {
            lemma_circle_decision_moves(r as int, x as int, y as int);
        }
        if f >= 0 {
            y -= 1;
            dd_f_y += 2;
            f += dd_f_y;
        }
        x += 1;
        dd_f_x += 2;
        f += dd_f_x;
        assert((x as int, y as int) == circle_next(r as int, old_x, old_y));

        points.push(Point { x: x0 + x, y: y0 + y });
        points.push(Point { x: x0 - x, y: y0 + y });
        points.push(Point { x: x0 + x, y: y0 - y });
        points.push(Point { x: x0 - x, y: y0 - y });
        points.push(Point { x: x0 + y, y: y0 + x });
        points.push(Point { x: x0 - y, y: y0 + x });
        points.push(Point { x: x0 + y, y: y0 - x });
        points.push(Point { x: x0 - y, y: y0 - x });
        proof {
            assert(points@ =~= before + circle_mirrors(
                x0 as int,
                y0 as int,
                x as int,
                y as int,
            ));
            assert(points@ + circle_arcs(x0 as int, y0 as int, r as int, x as int, y as int)
                =~= before + circle_arcs(x0 as int, y0 as int, r as int, old_x, old_y));
        }
    }
    let ghost arcs = points@;
    points.push(Point { x: x0, y: y0 + r });
    points.push(Point { x: x0, y: y0 - r });
    points.push(Point { x: x0 + r, y: y0 });
    points.push(Point { x: x0 - r, y: y0 });
    proof {
        assert(arcs =~= circle_arcs(x0 as int, y0 as int, r as int, 0, r as int));
        assert(points@ =~= arcs + circle_poles(x0 as int, y0 as int, r as int));
    }
    points
}

} // verus!
