//! Leaf geometry helpers on an unsigned coordinate space: adjacency,
//! clamping, squared distances and the nearest point on a rectangle's edge.

use core::cmp::Ordering;
use vstd::prelude::*;
use vstd::std_specs::cmp::OrdSpec;

verus! {

/// A position on the grid, as `(x, y)`.
pub type Point2D = (usize, usize);

/// A position in the world, as `(x, y, z)`.
pub type Point3D = (usize, usize, usize);

/// Two opposite corners of a rectangle and the elevation it lies on.
pub type Rect2D3D = ((usize, usize), (usize, usize), usize);

/// Two opposite corners of a rectangle.
pub type Rect2D = ((usize, usize), (usize, usize));

/// The predecessor of a coordinate, held at zero.
pub open spec fn step_down(v: usize) -> usize {
    if v == 0 {
        0
    } else {
        (v - 1) as usize
    }
}

/// The four axis neighbours of `p`, in the order east, west, north, south.
/// Towards zero a coordinate is held at zero, so a point on the west or
/// north edge lists itself.
pub open spec fn strict_adjacent_spec(p: Point2D) -> Seq<Point2D> {
    seq![
        ((p.0 + 1) as usize, p.1),
        (step_down(p.0), p.1),
        (p.0, step_down(p.1)),
        (p.0, (p.1 + 1) as usize),
    ]
}

/// `strict_adjacent_spec(p)` followed by `p` itself.
pub open spec fn weak_adjacent_spec(p: Point2D) -> Seq<Point2D> {
    strict_adjacent_spec(p).push(p)
}

/// Returns the coordinates adjacent to the given point.
pub fn strict_adjacent(p: Point2D) -> (out: Vec<Point2D>)
    requires
        p.0 < usize::MAX,
        p.1 < usize::MAX,
    ensures
        out@ == strict_adjacent_spec(p),
{
    let x: usize = p.0;
    let y: usize = p.1;
    let west: usize = x.checked_sub(1).unwrap_or(0);
    let north: usize = y.checked_sub(1).unwrap_or(0);
    let out = vec![(x + 1, y), (west, y), (x, north), (x, y + 1)];
    assert(out@ =~= strict_adjacent_spec(p));
    out
}

/// Returns the coordinates adjacent to the given point, and the point itself.
pub fn weak_adjacent(p: Point2D) -> (out: Vec<Point2D>)
    requires
        p.0 < usize::MAX,
        p.1 < usize::MAX,
    ensures
        out@ == weak_adjacent_spec(p),
{
    let mut v = strict_adjacent(p);
    v.push(p);
    v
}

/// Every point that `strict_adjacent_spec` lists differs from `p` in at most
/// one coordinate, by at most one; the only repeats are copies of `p`.
pub proof fn lemma_strict_adjacent_shape(p: Point2D, k: int)
    requires
        p.0 < usize::MAX,
        p.1 < usize::MAX,
        0 <= k < 4,
    ensures
        strict_adjacent_spec(p).len() == 4,
        weak_adjacent_spec(p).len() == 5,
        weak_adjacent_spec(p)[4] == p,
        ({
            let q = strict_adjacent_spec(p)[k];
            &&& q.0 == p.0 || q.1 == p.1
            &&& p.0 - 1 <= q.0 <= p.0 + 1
            &&& p.1 - 1 <= q.1 <= p.1 + 1
        }),
        forall|j: int|
            #![trigger strict_adjacent_spec(p)[j]]
            0 <= j < 4 && j != k && strict_adjacent_spec(p)[j] == strict_adjacent_spec(p)[k]
                ==> strict_adjacent_spec(p)[k] == p,
{
}

/// The larger of two values as `Ord::max` picks it: `b` unless `b` is less.
pub open spec fn max_of<T: Ord>(a: T, b: T) -> T {
    match b.cmp_spec(&a) {
        Ordering::Less => a,
        _ => b,
    }
}

/// The smaller of two values as `Ord::min` picks it: `a` unless `b` is less.
pub open spec fn min_of<T: Ord>(a: T, b: T) -> T {
    match b.cmp_spec(&a) {
        Ordering::Less => b,
        _ => a,
    }
}

/// `value` raised to at least `min`, then cut to at most `max`.
pub open spec fn clamp_spec<T: Ord>(value: T, max: T, min: T) -> T {
    min_of(max, max_of(min, value))
}

/// Make sure a value is between two others. The upper bound comes before
/// the lower one.
pub fn clamp<T: Ord>(value: T, max: T, min: T) -> (out: T)
    ensures
        T::obeys_cmp_spec() ==> out == clamp_spec(value, max, min),
{
    max.min(min.max(value))
}

/// With ordered bounds the clamped integer lies between them, and a value
/// already between them is returned as it is.
pub proof fn lemma_clamp_bounds(value: usize, max: usize, min: usize)
    requires
        min <= max,
    ensures
        min <= clamp_spec(value, max, min) <= max,
        min <= value <= max ==> clamp_spec(value, max, min) == value,
        value < min ==> clamp_spec(value, max, min) == min,
        value > max ==> clamp_spec(value, max, min) == max,
{
}

/// With the bounds the wrong way round the result is the first bound.
pub proof fn lemma_clamp_crossed_bounds(value: usize, max: usize, min: usize)
    requires
        max < min,
    ensures
        clamp_spec(value, max, min) == max,
{
}

/// The distance between two coordinates on one axis.
pub open spec fn gap(a: usize, b: usize) -> nat {
    if a >= b {
        (a - b) as nat
    } else {
        (b - a) as nat
    }
}

/// The distance between two coordinates on one axis.
pub fn axis_gap(a: usize, b: usize) -> (d: usize)
    ensures
        d == gap(a, b),
{
    if a >= b {
        a - b
    } else {
        b - a
    }
}

/// The square of the Euclidean distance between two grid points.
pub open spec fn squared_distance_spec(a: Point2D, b: Point2D) -> nat {
    gap(a.0, b.0) * gap(a.0, b.0) + gap(a.1, b.1) * gap(a.1, b.1)
}

/// The square of the Euclidean distance between two points of the world.
pub open spec fn squared_distance_3d_spec(a: Point3D, b: Point3D) -> nat {
    gap(a.0, b.0) * gap(a.0, b.0) + gap(a.1, b.1) * gap(a.1, b.1) + gap(a.2, b.2) * gap(
        a.2,
        b.2,
    )
}

/// The square of the Euclidean distance between two grid points, or `None`
/// when it does not fit in a `usize`. The deltas are taken larger minus
/// smaller, so the order of the points does not matter.
pub fn squared_distance(a: Point2D, b: Point2D) -> (out: Option<usize>)
    ensures
        match out {
            Some(d) => d == squared_distance_spec(a, b),
            None => squared_distance_spec(a, b) > usize::MAX,
        },
{
    let dx: usize = axis_gap(a.0, b.0);
    let dy: usize = axis_gap(a.1, b.1);
    assert(0 <= dx * dx && 0 <= dy * dy) by (nonlinear_arith);
    match dx.checked_mul(dx) {
        Some(sx) => match dy.checked_mul(dy) {
            Some(sy) => sx.checked_add(sy),
            None => None,
        },
        None => None,
    }
}

/// The square of the Euclidean distance between two points of the world, or
/// `None` when it does not fit in a `usize`.
pub fn squared_distance_3d(a: Point3D, b: Point3D) -> (out: Option<usize>)
    ensures
        match out {
            Some(d) => d == squared_distance_3d_spec(a, b),
            None => squared_distance_3d_spec(a, b) > usize::MAX,
        },
{
    let dx: usize = axis_gap(a.0, b.0);
    let dy: usize = axis_gap(a.1, b.1);
    let dz: usize = axis_gap(a.2, b.2);
    assert(0 <= dx * dx && 0 <= dy * dy && 0 <= dz * dz) by (nonlinear_arith);
    match dx.checked_mul(dx) {
        Some(sx) => match dy.checked_mul(dy) {
            Some(sy) => match dz.checked_mul(dz) {
                Some(sz) => match sx.checked_add(sy) {
                    Some(sxy) => sxy.checked_add(sz),
                    None => None,
                },
                None => None,
            },
            None => None,
        },
        None => None,
    }
}

/// The squared distance does not depend on the order of its arguments, and
/// it is zero exactly between a point and itself.
pub proof fn lemma_squared_distance_symmetric(a: Point2D, b: Point2D)
    ensures
        squared_distance_spec(a, b) == squared_distance_spec(b, a),
        squared_distance_spec(a, b) == 0 <==> a == b,
{
    let dx = gap(a.0, b.0);
    let dy = gap(a.1, b.1);
    assert(dx * dx + dy * dy == 0 <==> dx == 0 && dy == 0) by (nonlinear_arith)
        requires
            dx >= 0,
            dy >= 0,
    ;
}

/// The smallest of four distances.
pub open spec fn least_of_four(a: nat, b: nat, c: nat, d: nat) -> nat {
    let ab = if a <= b { a } else { b };
    let cd = if c <= d { c } else { d };
    if ab <= cd {
        ab
    } else {
        cd
    }
}

/// The point of the rectangle's edge that `nearest_perimeter_point` picks.
/// The rectangle's first corner holds the upper bounds and its second the
/// lower ones. The point is first brought inside the bounds; then it is moved
/// onto the edge it is nearest to, the edges tried in the order `y1`, `y2`,
/// `x1`, `x2`.
pub open spec fn nearest_perimeter_point_spec(rect: Rect2D3D, p: Point3D) -> Point3D {
    let x1 = rect.0.0;
    let y1 = rect.0.1;
    let x2 = rect.1.0;
    let y2 = rect.1.1;
    let x = clamp_spec(p.0, x1, x2);
    let y = clamp_spec(p.1, y1, y2);
    let m = least_of_four(gap(x, x1), gap(x, x2), gap(y, y1), gap(y, y2));
    if m == gap(y, y1) {
        (x, y1, p.2)
    } else if m == gap(y, y2) {
        (x, y2, p.2)
    } else if m == gap(x, x1) {
        (x1, y, p.2)
    } else {
        (x2, y, p.2)
    }
}

/// Whether `q` lies on the edge of the rectangle whose upper corner is
/// `rect.0` and whose lower corner is `rect.1`.
pub open spec fn on_perimeter(rect: Rect2D3D, q: Point2D) -> bool {
    let x1 = rect.0.0;
    let y1 = rect.0.1;
    let x2 = rect.1.0;
    let y2 = rect.1.1;
    &&& x2 <= q.0 <= x1
    &&& y2 <= q.1 <= y1
    &&& (q.0 == x1 || q.0 == x2 || q.1 == y1 || q.1 == y2)
}

/// Moves a point onto the nearest edge of a rectangle, keeping its
/// elevation.
pub fn nearest_perimeter_point(rect: Rect2D3D, p: Point3D) -> (out: Point3D)
    ensures
        out == nearest_perimeter_point_spec(rect, p),
{
    let x1: usize = rect.0.0;
    let y1: usize = rect.0.1;
    let x2: usize = rect.1.0;
    let y2: usize = rect.1.1;
    let z: usize = p.2;
    let x: usize = clamp(p.0, x1, x2);
    let y: usize = clamp(p.1, y1, y2);

    let dl: usize = axis_gap(x, x1);
    let dr: usize = axis_gap(x, x2);
    let dt: usize = axis_gap(y, y1);
    let db: usize = axis_gap(y, y2);

    let lr: usize = if dl <= dr { dl } else { dr };
    let tb: usize = if dt <= db { dt } else { db };
    let m: usize = if lr <= tb { lr } else { tb };
    if m == dt {
        (x, y1, z)
    } else if m == db {
        (x, y2, z)
    } else if m == dl {
        (x1, y, z)
    } else {
        (x2, y, z)
    }
}

/// For a rectangle with ordered corners the chosen point lies on the edge,
/// and no point of the edge is nearer to the clamped input.
pub proof fn lemma_nearest_perimeter_point(rect: Rect2D3D, p: Point3D, q: Point2D)
    requires
        rect.1.0 <= rect.0.0,
        rect.1.1 <= rect.0.1,
        on_perimeter(rect, q),
    ensures
        ({
            let out = nearest_perimeter_point_spec(rect, p);
            let inside = (clamp_spec(p.0, rect.0.0, rect.1.0), clamp_spec(p.1, rect.0.1, rect.1.1));
            &&& out.2 == p.2
            &&& on_perimeter(rect, (out.0, out.1))
            &&& squared_distance_spec(inside, (out.0, out.1)) <= squared_distance_spec(inside, q)
        }),
{
    let x1 = rect.0.0;
    let y1 = rect.0.1;
    let x2 = rect.1.0;
    let y2 = rect.1.1;
    lemma_clamp_bounds(p.0, x1, x2);
    lemma_clamp_bounds(p.1, y1, y2);
    let x = clamp_spec(p.0, x1, x2);
    let y = clamp_spec(p.1, y1, y2);
    let out = nearest_perimeter_point_spec(rect, p);
    let m = least_of_four(gap(x, x1), gap(x, x2), gap(y, y1), gap(y, y2));
    let ex = gap(x, q.0);
    let ey = gap(y, q.1);
    assert(squared_distance_spec((x, y), (out.0, out.1)) == m * m) by (nonlinear_arith)
        requires
            squared_distance_spec((x, y), (out.0, out.1)) == gap(x, out.0) * gap(x, out.0) + gap(
                y,
                out.1,
            ) * gap(y, out.1),
            (gap(x, out.0) == 0 && gap(y, out.1) == m) || (gap(x, out.0) == m && gap(y, out.1)
                == 0),
    ;
    assert(m <= ex || m <= ey);
    assert(m * m <= ex * ex + ey * ey) by (nonlinear_arith)
        requires
            0 <= m,
            0 <= ex,
            0 <= ey,
            m <= ex || m <= ey,
    ;
}

} // verus!
