//! Downsampling by largest triangles (LTTB).
//!
//! The first and the last point are kept. The points between them are split
//! into equal buckets, and of each bucket the point is kept that forms the
//! largest triangle with the point kept before it and the mean point of the
//! next bucket. What follows the final bucket is the last point.
//!
//! A single point that is asked for is the last one.
//!
//! Areas are compared exactly: both mean coordinates are taken times the
//! number of points in the next bucket, which scales every triangle of a
//! bucket alike.

use vstd::prelude::*;

verus! {

/// A point of a curve.
#[derive(Clone, Copy, Debug, PartialEq, Eq, Structural)]
pub struct SamplePoint {
    pub x: u32,
    pub y: i16,
}

/// The sum of the x coordinates from `lo` to before `hi`.
pub open spec fn sum_x(p: Seq<SamplePoint>, lo: int, hi: int) -> int
    decreases hi - lo,
{
    if hi <= lo {
        0
    } else {
        sum_x(p, lo, hi - 1) + p[hi - 1].x
    }
}

/// The sum of the y coordinates from `lo` to before `hi`.
pub open spec fn sum_y(p: Seq<SamplePoint>, lo: int, hi: int) -> int
    decreases hi - lo,
{
    if hi <= lo {
        0
    } else {
        sum_y(p, lo, hi - 1) + p[hi - 1].y
    }
}

/// The mean point of a bucket, each coordinate times `weight`.
pub struct Mean {
    pub x: int,
    pub y: int,
    pub weight: int,
}

/// The mean point of the points from `lo` to before `hi`.
pub open spec fn mean_of(p: Seq<SamplePoint>, lo: int, hi: int) -> Mean {
    Mean {
        x: sum_x(p, lo, hi),
        y: sum_y(p, lo, hi),
        weight: hi - lo,
    }
}

pub open spec fn magnitude(v: int) -> int {
    if v < 0 {
        -v
    } else {
        v
    }
}

/// Twice the area of the triangle of two points and a mean point, times the
/// weight of the mean.
pub open spec fn area(a: SamplePoint, b: SamplePoint, c: Mean) -> int {
    magnitude((a.x * c.weight - c.x) * (b.y - a.y) - (a.x - b.x) * (c.y - a.y * c.weight))
}

/// The first of the points from `lo` to before `hi` with the largest triangle.
pub open spec fn largest(p: Seq<SamplePoint>, a: SamplePoint, c: Mean, lo: int, hi: int) -> int
    decreases hi - lo,
{
    if hi <= lo + 1 {
        lo
    } else {
        let best = largest(p, a, c, lo, hi - 1);
        if area(a, p[hi - 1], c) > area(a, p[best], c) {
            hi - 1
        } else {
            best
        }
    }
}

/// Where bucket number `i` of `buckets` starts among `n` points.
pub open spec fn bucket_start(n: int, buckets: int, i: int) -> int {
    i * (n - 2) / buckets + 1
}

/// Where the bucket after bucket number `i` ends. After the final bucket comes
/// the last point.
pub open spec fn next_end(n: int, buckets: int, i: int) -> int {
    if i + 1 < buckets {
        bucket_start(n, buckets, i + 2)
    } else {
        n
    }
}

/// The indices that are kept of the first point and the first `i` buckets.
pub open spec fn kept(p: Seq<SamplePoint>, buckets: int, i: nat) -> Seq<int>
    decreases i,
{
    if i == 0 {
        seq![0int]
    } else {
        let before = kept(p, buckets, (i - 1) as nat);
        let n = p.len() as int;
        let end = bucket_start(n, buckets, i as int);
        before.push(
            largest(
                p,
                p[before.last()],
                mean_of(p, end, next_end(n, buckets, i - 1)),
                bucket_start(n, buckets, i - 1),
                end,
            ),
        )
    }
}

/// The indices that are kept of a curve: all where there are no more than
/// `threshold`, and `threshold` of them otherwise.
pub open spec fn lttb(p: Seq<SamplePoint>, threshold: int) -> Seq<int> {
    if p.len() <= threshold {
        Seq::new(p.len(), |i: int| i)
    } else if threshold <= 0 {
        Seq::empty()
    } else if threshold == 1 {
        seq![p.len() - 1]
    } else {
        kept(p, threshold - 2, (threshold - 2) as nat).push(p.len() - 1)
    }
}

// ── What is kept ─────────────────────────────────────────────────────────────

/// Buckets are not empty where there are more points than are kept.
proof fn bucket_bounds(n: int, buckets: int, i: int)
    requires
        buckets >= 1,
        n - 2 > buckets,
        0 <= i < buckets,
    ensures
        1 <= bucket_start(n, buckets, i) < bucket_start(n, buckets, i + 1) <= n - 1,
        bucket_start(n, buckets, 0) == 1,
        bucket_start(n, buckets, buckets) == n - 1,
        bucket_start(n, buckets, i + 1) < next_end(n, buckets, i) <= n,
{
    let m = n - 2;
    assert(i * m / buckets >= 0) by (nonlinear_arith)
        requires
            i >= 0,
            m >= 0,
            buckets >= 1,
    ;
    assert((i + 1) * m / buckets >= i * m / buckets + 1) by (nonlinear_arith)
        requires
            buckets >= 1,
            m >= buckets,
            i >= 0,
    ;
    assert((i + 1) * m / buckets <= m) by (nonlinear_arith)
        requires
            0 <= i < buckets,
            m >= 0,
    ;
    assert(buckets * m / buckets == m) by (nonlinear_arith)
        requires
            buckets >= 1,
    ;
    assert(0 * m / buckets == 0) by (nonlinear_arith)
        requires
            buckets >= 1,
    ;
    if i + 1 < buckets {
        assert((i + 2) * m / buckets >= (i + 1) * m / buckets + 1) by (nonlinear_arith)
            requires
                buckets >= 1,
                m >= buckets,
                i >= 0,
        ;
        assert((i + 2) * m / buckets <= m) by (nonlinear_arith)
            requires
                0 <= i,
                i + 1 < buckets,
                m >= 0,
        ;
    }
}

/// The point with the largest triangle lies in its bucket, no other point of
/// the bucket has a larger one, and none before it has one as large.
pub proof fn largest_is(p: Seq<SamplePoint>, a: SamplePoint, c: Mean, lo: int, hi: int, j: int)
    requires
        lo < hi,
        lo <= j < hi,
    ensures
        lo <= largest(p, a, c, lo, hi) < hi,
        area(a, p[j], c) <= area(a, p[largest(p, a, c, lo, hi)], c),
        j < largest(p, a, c, lo, hi) ==> area(a, p[j], c) < area(
            a,
            p[largest(p, a, c, lo, hi)],
            c,
        ),
    decreases hi - lo,
{
    if hi > lo + 1 {
        if j < hi - 1 {
            largest_is(p, a, c, lo, hi - 1, j);
        } else {
            largest_is(p, a, c, lo, hi - 1, lo);
        }
    }
}

/// The index kept of each bucket lies in it.
proof fn kept_is(p: Seq<SamplePoint>, buckets: int, i: nat)
    requires
        buckets >= 1,
        p.len() - 2 > buckets,
        i <= buckets,
    ensures
        kept(p, buckets, i).len() == i + 1,
        kept(p, buckets, i)[0] == 0,
        forall|k: int|
            1 <= k <= i ==> bucket_start(p.len() as int, buckets, k - 1) <= #[trigger] kept(
                p,
                buckets,
                i,
            )[k] < bucket_start(p.len() as int, buckets, k),
        forall|j: int, k: int|
            0 <= j < k <= i ==> #[trigger] kept(p, buckets, i)[j] < #[trigger] kept(
                p,
                buckets,
                i,
            )[k],
        kept(p, buckets, i).last() < p.len() - 1,
    decreases i,
{
    let n = p.len() as int;
    bucket_bounds(n, buckets, 0);
    if i > 0 {
        let before = kept(p, buckets, (i - 1) as nat);
        kept_is(p, buckets, (i - 1) as nat);
        bucket_bounds(n, buckets, i - 1);
        let end = bucket_start(n, buckets, i as int);
        let start = bucket_start(n, buckets, i - 1);
        let c = mean_of(p, end, next_end(n, buckets, i - 1));
        largest_is(p, p[before.last()], c, start, end, start);
        let new = largest(p, p[before.last()], c, start, end);
        assert(before.last() < start) by {
            if i > 1 {
                assert(before[i - 1] < bucket_start(n, buckets, i - 1));
            }
        }
    }
}

/// Downsampling keeps the order and as many points as asked for, among them the
/// last one and, where it is not the only one, the first.
pub proof fn lttb_spans_the_curve(p: Seq<SamplePoint>, threshold: int)
    requires
        threshold >= 0,
    ensures
        ({
            let s = lttb(p, threshold);
            &&& s.len() == (if p.len() <= threshold {
                p.len() as int
            } else {
                threshold
            })
            &&& forall|i: int| 0 <= i < s.len() ==> 0 <= #[trigger] s[i] < p.len()
            &&& forall|i: int, j: int|
                0 <= i < j < s.len() ==> #[trigger] s[i] < #[trigger] s[j]
            &&& p.len() > 0 && threshold >= 1 ==> s.last() == p.len() - 1
            &&& p.len() > 0 && threshold >= 2 ==> s[0] == 0
        }),
{
    if p.len() > threshold && threshold > 2 {
        kept_is(p, threshold - 2, (threshold - 2) as nat);
        let k = kept(p, threshold - 2, (threshold - 2) as nat);
        assert forall|i: int| 0 <= i < k.len() implies 0 <= #[trigger] k[i] < p.len() - 1 by {
            if i > 0 {
                assert(k[0] < k[i]);
            }
            if i < k.len() - 1 {
                assert(k[i] < k[k.len() - 1]);
            }
        }
    } else if p.len() > threshold && threshold == 2 {
        assert(kept(p, 0, 0) == seq![0int]);
    }
}

/// What is kept of the first buckets does not depend on the later ones.
proof fn kept_before(p: Seq<SamplePoint>, buckets: int, i: nat, m: nat)
    requires
        i <= m,
    ensures
        kept(p, buckets, i).len() == i + 1,
        kept(p, buckets, m).len() == m + 1,
        kept(p, buckets, m)[i as int] == kept(p, buckets, i)[i as int],
    decreases m,
{
    if i < m {
        kept_before(p, buckets, i, (m - 1) as nat);
    } else if i > 0 {
        kept_before(p, buckets, (i - 1) as nat, (m - 1) as nat);
    }
}

/// Of each bucket a point is kept that no other point `j` of it exceeds in its
/// triangle with the point kept before it and the mean of the next bucket, or
/// the last point after the final bucket. Of equal ones it is the first.
pub proof fn lttb_keeps_the_largest_triangles(p: Seq<SamplePoint>, threshold: int, i: int, j: int)
    requires
        3 <= threshold < p.len(),
        0 <= i < threshold - 2,
        bucket_start(p.len() as int, threshold - 2, i) <= j < bucket_start(
            p.len() as int,
            threshold - 2,
            i + 1,
        ),
    ensures
        ({
            let n = p.len() as int;
            let buckets = threshold - 2;
            let s = lttb(p, threshold);
            let end = bucket_start(n, buckets, i + 1);
            let c = if i + 1 < buckets {
                mean_of(p, end, bucket_start(n, buckets, i + 2))
            } else {
                Mean { x: p.last().x as int, y: p.last().y as int, weight: 1 }
            };
            &&& bucket_start(n, buckets, i) <= s[i + 1] < end
            &&& area(p[s[i]], p[j], c) <= area(p[s[i]], p[s[i + 1]], c)
            &&& j < s[i + 1] ==> area(p[s[i]], p[j], c) < area(p[s[i]], p[s[i + 1]], c)
        }),
{
    let n = p.len() as int;
    let buckets = threshold - 2;
    let end = bucket_start(n, buckets, i + 1);
    let before = kept(p, buckets, i as nat);
    kept_before(p, buckets, i as nat, buckets as nat);
    kept_before(p, buckets, (i + 1) as nat, buckets as nat);
    if i + 1 == buckets {
        the_last_point_follows_the_final_bucket(p, buckets);
    }
    largest_is(
        p,
        p[before.last()],
        mean_of(p, end, next_end(n, buckets, i)),
        bucket_start(n, buckets, i),
        end,
        j,
    );
}

/// Buckets follow each other without a gap from the second point to the last
/// but one, and each boundary is the whole part of an even share of the points
/// between the two ends.
pub proof fn buckets_are_even_shares(n: int, buckets: int, i: int)
    requires
        buckets >= 1,
        n - 2 > buckets,
        0 <= i <= buckets,
    ensures
        (bucket_start(n, buckets, i) - 1) * buckets <= i * (n - 2) < bucket_start(n, buckets, i)
            * buckets,
        bucket_start(n, buckets, 0) == 1,
        bucket_start(n, buckets, buckets) == n - 1,
{
    bucket_bounds(n, buckets, 0);
    let m = i * (n - 2);
    let q = m / buckets;
    assert(q * buckets <= m < (q + 1) * buckets) by (nonlinear_arith)
        requires
            buckets >= 1,
            q == m / buckets,
    ;
}

// ── Triangles ────────────────────────────────────────────────────────────────

/// The area that triangles are compared by is that of the triangle: each of the
/// three corners counts alike, with the mean taken times its weight.
pub proof fn area_is_that_of_the_triangle(a: SamplePoint, b: SamplePoint, c: Mean)
    ensures
        ({
            let twice = c.weight * (a.x * b.y - b.x * a.y) + (b.x * c.y - c.x * b.y) + (c.x * a.y
                - a.x * c.y);
            area(a, b, c) == (if twice < 0 {
                -twice
            } else {
                twice
            })
        }),
{
    let w = c.weight;
    let (ax, ay, bx, by, cx, cy) = (
        a.x as int,
        a.y as int,
        b.x as int,
        b.y as int,
        c.x,
        c.y,
    );
    let (aw, ayw) = (ax * w, ay * w);
    assert((aw - cx) * (by - ay) == aw * by - aw * ay - cx * by + cx * ay) by (nonlinear_arith);
    assert((ax - bx) * (cy - ayw) == ax * cy - ax * ayw - bx * cy + bx * ayw) by (nonlinear_arith);
    assert(aw * by == w * (ax * by)) by (nonlinear_arith)
        requires
            aw == ax * w,
    ;
    assert(aw * ay == ax * ayw) by (nonlinear_arith)
        requires
            aw == ax * w,
            ayw == ay * w,
    ;
    assert(bx * ayw == w * (bx * ay)) by (nonlinear_arith)
        requires
            ayw == ay * w,
    ;
    let (ab, ba) = (ax * by, bx * ay);
    assert(w * (ab - ba) == w * ab - w * ba) by (nonlinear_arith);
}

/// Three points on one line span no area: the point `b` lies `s` steps from
/// `a`, and the mean `t` steps, in one and the same direction.
pub proof fn points_on_a_line_span_nothing(
    a: SamplePoint,
    b: SamplePoint,
    c: Mean,
    dx: int,
    dy: int,
    s: int,
    t: int,
)
    requires
        b.x == a.x + s * dx,
        b.y == a.y + s * dy,
        c.x == a.x * c.weight + t * dx,
        c.y == a.y * c.weight + t * dy,
    ensures
        area(a, b, c) == 0,
{
    assert((-(t * dx)) * (s * dy) - (-(s * dx)) * (t * dy) == 0) by (nonlinear_arith);
}

/// How far a point lies above or below the line from `a` to the mean is what
/// its area grows with: a point `off` the line spans the distance of the two
/// ends times `off`. So a point off the line always beats one on it.
pub proof fn area_grows_with_the_distance_from_the_line(
    a: SamplePoint,
    b: SamplePoint,
    c: Mean,
    dx: int,
    dy: int,
    s: int,
    t: int,
    off: int,
)
    requires
        b.x == a.x + s * dx,
        b.y == a.y + s * dy + off,
        c.x == a.x * c.weight + t * dx,
        c.y == a.y * c.weight + t * dy,
    ensures
        area(a, b, c) == t * dx * off || area(a, b, c) == -(t * dx * off),
        t != 0 && dx != 0 && off != 0 ==> area(a, b, c) > 0,
{
    assert((-(t * dx)) * (s * dy + off) - (-(s * dx)) * (t * dy) == -(t * dx * off))
        by (nonlinear_arith);
    if t != 0 && dx != 0 && off != 0 {
        assert(t * dx * off != 0) by (nonlinear_arith)
            requires
                t != 0,
                dx != 0,
                off != 0,
        ;
    }
}

/// A point spans no area only where it lies on the line through the other two:
/// its rise from `a` and that of the mean have the same slope.
pub proof fn no_area_only_on_a_line(a: SamplePoint, b: SamplePoint, c: Mean)
    ensures
        area(a, b, c) == 0 <==> (b.y - a.y) * (c.x - a.x * c.weight) == (c.y - a.y * c.weight) * (
        b.x - a.x),
{
    let (p, q, r, u) = (
        c.x - a.x * c.weight,
        b.y - a.y,
        b.x - a.x,
        c.y - a.y * c.weight,
    );
    assert((-p) * q - (-r) * u == u * r - q * p) by (nonlinear_arith);
}

/// A slope that is added to a whole curve changes no area: what stands out of a
/// level curve stands out of a ramp alike.
pub proof fn a_ramp_changes_no_area(
    a: SamplePoint,
    b: SamplePoint,
    c: Mean,
    a2: SamplePoint,
    b2: SamplePoint,
    c2: Mean,
    slope: int,
    rise: int,
)
    requires
        a2.x == a.x,
        b2.x == b.x,
        c2.x == c.x,
        c2.weight == c.weight,
        a2.y == a.y + slope * a.x + rise,
        b2.y == b.y + slope * b.x + rise,
        c2.y == c.y + slope * c.x + rise * c.weight,
    ensures
        area(a2, b2, c2) == area(a, b, c),
{
    let w = c.weight;
    let (m, k) = (slope, rise);
    let u = a.x * w - c.x;
    let v = a.x - b.x;
    let y = b.y - a.y;
    let z = c.y - a.y * w;
    let (ax, bx, cx, ay) = (a.x as int, b.x as int, c.x, a.y as int);
    let aw = ax * w;
    assert(m * bx - m * ax == -(m * v)) by (nonlinear_arith)
        requires
            v == ax - bx,
    ;
    assert(b2.y - a2.y == y - m * v);
    let top = ay + m * ax + k;
    assert(top * w == ay * w + m * (ax * w) + k * w) by (nonlinear_arith)
        requires
            top == ay + m * ax + k,
    ;
    assert(m * cx - m * aw == -(m * u)) by (nonlinear_arith)
        requires
            u == aw - cx,
    ;
    assert(c2.y - a2.y * w == z - m * u);
    let (mv, mu) = (m * v, m * u);
    assert(u * (y - mv) == u * y - u * mv) by (nonlinear_arith);
    assert(v * (z - mu) == v * z - v * mu) by (nonlinear_arith);
    assert(u * mv == v * mu) by (nonlinear_arith)
        requires
            mv == m * v,
            mu == m * u,
    ;
}

/// Time that passes before a curve changes no area.
pub proof fn a_later_start_changes_no_area(
    a: SamplePoint,
    b: SamplePoint,
    c: Mean,
    a2: SamplePoint,
    b2: SamplePoint,
    c2: Mean,
    later: int,
)
    requires
        a2.y == a.y,
        b2.y == b.y,
        c2.y == c.y,
        c2.weight == c.weight,
        a2.x == a.x + later,
        b2.x == b.x + later,
        c2.x == c.x + later * c.weight,
    ensures
        area(a2, b2, c2) == area(a, b, c),
{
    let w = c.weight;
    let (ax, cx, k) = (a.x as int, c.x, later);
    assert((ax + k) * w - (cx + k * w) == ax * w - cx) by (nonlinear_arith);
}

/// The mean of one point is that point, and the means of two pieces that follow
/// each other add up to that of both.
pub proof fn means_add_up(p: Seq<SamplePoint>, lo: int, mid: int, hi: int)
    requires
        0 <= lo <= mid <= hi <= p.len(),
    ensures
        lo < p.len() ==> mean_of(p, lo, lo + 1) == (Mean {
            x: p[lo].x as int,
            y: p[lo].y as int,
            weight: 1,
        }),
        mean_of(p, lo, hi).x == mean_of(p, lo, mid).x + mean_of(p, mid, hi).x,
        mean_of(p, lo, hi).y == mean_of(p, lo, mid).y + mean_of(p, mid, hi).y,
        mean_of(p, lo, hi).weight == hi - lo,
    decreases hi - mid,
{
    reveal_with_fuel(sum_x, 2);
    reveal_with_fuel(sum_y, 2);
    if mid < hi {
        means_add_up(p, lo, mid, hi - 1);
    }
}

/// What follows the final bucket is the last point alone.
pub proof fn the_last_point_follows_the_final_bucket(p: Seq<SamplePoint>, buckets: int)
    requires
        buckets >= 1,
        p.len() - 2 > buckets,
    ensures
        ({
            let n = p.len() as int;
            mean_of(p, bucket_start(n, buckets, buckets), next_end(n, buckets, buckets - 1)) == (
            Mean { x: p.last().x as int, y: p.last().y as int, weight: 1 })
        }),
{
    let n = p.len() as int;
    bucket_bounds(n, buckets, buckets - 1);
    reveal_with_fuel(sum_x, 2);
    reveal_with_fuel(sum_y, 2);
}

// ── Computing it ─────────────────────────────────────────────────────────────

/// The mean point of a bucket.
struct MeanPoint {
    x: i128,
    y: i128,
    weight: i128,
}

impl View for MeanPoint {
    type V = Mean;

    closed spec fn view(&self) -> Mean {
        Mean { x: self.x as int, y: self.y as int, weight: self.weight as int }
    }
}

/// Whether a mean is that of few enough points for exact areas.
spec fn small(c: Mean) -> bool {
    &&& 1 <= c.weight <= 0x1_0000_0000_0000_0000
    &&& 0 <= c.x <= 0x1_0000_0000 * c.weight
    &&& -0x8000 * c.weight <= c.y <= 0x8000 * c.weight
}

fn mean_point(p: &[SamplePoint], lo: usize, hi: usize) -> (r: MeanPoint)
    requires
        lo < hi <= p@.len(),
    ensures
        r@ == mean_of(p@, lo as int, hi as int),
        small(r@),
{
    let mut x: i128 = 0;
    let mut y: i128 = 0;
    let mut i: usize = lo;
    while i < hi
        invariant
            lo <= i <= hi <= p@.len(),
            x == sum_x(p@, lo as int, i as int),
            y == sum_y(p@, lo as int, i as int),
            0 <= x <= 0x1_0000_0000 * (i - lo),
            -0x8000 * (i - lo) <= y <= 0x8000 * (i - lo),
        decreases hi - i,
    {
        x = x + p[i].x as i128;
        y = y + p[i].y as i128;
        i = i + 1;
    }
    MeanPoint { x, y, weight: (hi - lo) as i128 }
}

fn triangle(a: SamplePoint, b: SamplePoint, c: &MeanPoint) -> (r: i128)
    requires
        small(c@),
    ensures
        r == area(a, b, c@),
        r >= 0,
{
    let ghost w = c.weight as int;
    proof {
        assert(0 <= a.x * w <= 0x1_0000_0000 * w && -0x8000 * w <= a.y * w <= 0x8000 * w)
            by (nonlinear_arith)
            requires
                0 <= a.x <= 0xffff_ffff,
                -0x8000 <= a.y <= 0x7fff,
                w >= 1,
        ;
    }
    let dx: i128 = a.x as i128 * c.weight - c.x;
    let dy: i128 = c.y - a.y as i128 * c.weight;
    let by: i128 = b.y as i128 - a.y as i128;
    let bx: i128 = a.x as i128 - b.x as i128;
    proof {
        let m = 0x1_0000_0000 * 0x1_0000_0000_0000_0000int;
        assert(-m <= dx <= m);
        assert(-0x1_0000 * 0x1_0000_0000_0000_0000int <= dy <= 0x1_0000
            * 0x1_0000_0000_0000_0000int);
        assert(-m * 0x1_0000 <= dx * by <= m * 0x1_0000) by (nonlinear_arith)
            requires
                -m <= dx <= m,
                -0x1_0000 <= by <= 0x1_0000,
        ;
        assert(-m * 0x1_0000 <= bx * dy <= m * 0x1_0000) by (nonlinear_arith)
            requires
                m == 0x1_0000_0000 * 0x1_0000_0000_0000_0000int,
                -0x1_0000 * 0x1_0000_0000_0000_0000int <= dy <= 0x1_0000
                    * 0x1_0000_0000_0000_0000int,
                -0x1_0000_0000 <= bx <= 0x1_0000_0000,
        ;
    }
    let d: i128 = dx * by - bx * dy;
    if d < 0 {
        -d
    } else {
        d
    }
}

fn largest_in(p: &[SamplePoint], a: SamplePoint, c: &MeanPoint, lo: usize, hi: usize) -> (r: usize)
    requires
        lo < hi <= p@.len(),
        small(c@),
    ensures
        r == largest(p@, a, c@, lo as int, hi as int),
        lo <= r < hi,
{
    let mut best: usize = lo;
    let mut best_area: i128 = triangle(a, p[lo], c);
    let mut j: usize = lo + 1;
    while j < hi
        invariant
            lo < j <= hi <= p@.len(),
            lo <= best < j,
            small(c@),
            best == largest(p@, a, c@, lo as int, j as int),
            best_area == area(a, p@[best as int], c@),
        decreases hi - j,
    {
        let this: i128 = triangle(a, p[j], c);
        if this > best_area {
            best_area = this;
            best = j;
        }
        j = j + 1;
    }
    best
}

fn start_of(n: usize, buckets: usize, i: usize) -> (r: usize)
    requires
        1 <= buckets,
        n - 2 > buckets,
        i <= buckets,
    ensures
        r == bucket_start(n as int, buckets as int, i as int),
        1 <= r <= n - 1,
{
    proof {
        if i < buckets {
            bucket_bounds(n as int, buckets as int, i as int);
        } else {
            bucket_bounds(n as int, buckets as int, 0);
        }
        assert(i * (n - 2) <= 0xffff_ffff_ffff_ffff * 0xffff_ffff_ffff_ffff) by (nonlinear_arith)
            requires
                0 <= i <= 0xffff_ffff_ffff_ffff,
                0 <= n - 2 <= 0xffff_ffff_ffff_ffff,
        ;
    }
    (i as u128 * (n - 2) as u128 / buckets as u128) as usize + 1
}

/// Indices as mathematical values.
pub open spec fn indices(s: Seq<usize>) -> Seq<int> {
    s.map_values(|i: usize| i as int)
}

/// Finds the indices that downsampling keeps.
pub fn lttb_indices(p: &[SamplePoint], threshold: usize) -> (r: Vec<usize>)
    ensures
        indices(r@) == lttb(p@, threshold as int),
{
    let n: usize = p.len();
    let mut selected: Vec<usize> = Vec::new();
    if n <= threshold {
        let mut i: usize = 0;
        while i < n
            invariant
                i <= n == p@.len(),
                selected@.len() == i,
                forall|j: int| 0 <= j < i ==> selected@[j] == j,
            decreases n - i,
        {
            selected.push(i);
            i = i + 1;
        }
        assert(indices(selected@) == lttb(p@, threshold as int));
        return selected;
    }
    if threshold < 2 {
        if threshold == 1 {
            selected.push(n - 1);
        }
        assert(indices(selected@) == lttb(p@, threshold as int));
        return selected;
    }
    let buckets: usize = threshold - 2;
    let mut a: usize = 0;
    selected.push(0);
    assert(indices(selected@) == seq![0int]);
    let mut i: usize = 0;
    while i < buckets
        invariant
            i <= buckets,
            buckets == threshold - 2,
            n == p@.len(),
            n - 2 > buckets,
            a < n,
            indices(selected@) == kept(p@, buckets as int, i as nat),
            indices(selected@).last() == a,
        decreases buckets - i,
    {
        proof {
            bucket_bounds(n as int, buckets as int, i as int);
        }
        let start: usize = start_of(n, buckets, i);
        let end: usize = start_of(n, buckets, i + 1);
        let next: usize = if i + 1 < buckets {
            start_of(n, buckets, i + 2)
        } else {
            n
        };
        let c: MeanPoint = mean_point(p, end, next);
        let j: usize = largest_in(p, p[a], &c, start, end);
        assert(indices(selected@.push(j)) == indices(selected@).push(j as int));
        selected.push(j);
        a = j;
        i = i + 1;
    }
    assert(indices(selected@.push((n - 1) as usize)) == indices(selected@).push(n - 1));
    selected.push(n - 1);
    selected
}

} // verus!
