//! The sand-mass polygon: fill-line placement, clipping of the body outline
//! against the fill line (flat or mounded), wall inset and the falling stream.

use vstd::prelude::*;
use crate::curves::{point_within, points_within, Point2D};
use crate::fixed::{lerp, lerp_coord, tdiv, within, COORD_LIMIT, FACTOR_LIMIT, HALF_UNIT, SCALE};

verus! {

/// Which bulb the sand is for.
#[derive(Clone, Copy, Debug, PartialEq, Eq, Structural)]
pub enum SandBulb {
    Top,
    Bottom,
}

/// The height of the fill line. The top bulb's line rises from the middle
/// (`y == 0`) to `max_y` as `fill` goes from 0 to `SCALE`; the bottom bulb's
/// line falls from the neck's bottom edge to `min_y`.
pub open spec fn fill_line(fill: int, bulb: SandBulb, neck_height: int, min_y: int, max_y: int) -> int {
    match bulb {
        SandBulb::Top => lerp(0, max_y, fill, SCALE as int),
        SandBulb::Bottom => lerp(min_y, -tdiv(neck_height, 2), SCALE - fill, SCALE as int),
    }
}

/// For the top bulb, a larger fill never lowers the fill line, and every
/// outline point on the sand side of the lower line is on the sand side of
/// the higher one.
pub proof fn lemma_top_fill_line_rises(fill1: int, fill2: int, neck_height: int, min_y: int, max_y: int, p: Point2D)
    requires
        0 <= fill1 <= fill2 <= SCALE,
        max_y >= 0,
    ensures
        fill_line(fill1, SandBulb::Top, neck_height, min_y, max_y) <= fill_line(fill2, SandBulb::Top, neck_height, min_y, max_y),
        included(p, fill_line(fill1, SandBulb::Top, neck_height, min_y, max_y), SandBulb::Top) ==> included(
            p,
            fill_line(fill2, SandBulb::Top, neck_height, min_y, max_y),
            SandBulb::Top,
        ),
{
    assert(0 <= max_y * fill1 <= max_y * fill2) by (nonlinear_arith)
        requires max_y >= 0, 0 <= fill1 <= fill2;
    assert((max_y * fill1) / 1000 <= (max_y * fill2) / 1000) by (nonlinear_arith)
        requires max_y * fill1 <= max_y * fill2;
}

/// Every x of `s` is at most `COORD_LIMIT` in magnitude.
pub open spec fn xs_within(s: Seq<Point2D>) -> bool {
    forall|k: int| 0 <= k < s.len() ==> within((#[trigger] s[k]).x as int, COORD_LIMIT as int)
}

/// The x where the segment `p q` meets the horizontal line at height `f`.
pub open spec fn crossing_x(p: Point2D, q: Point2D, f: int) -> int {
    let num = (f - p.y) * (q.x - p.x);
    let den = q.y - p.y;
    if den > 0 {
        p.x + tdiv(num, den)
    } else {
        p.x + tdiv(-num, -den)
    }
}

/// Where the segment `p q` meets the horizontal line at height `f`; none
/// for a horizontal segment or a line outside the segment's height range.
pub open spec fn intersection(p: Point2D, q: Point2D, f: int) -> Option<Point2D> {
    if p.y == q.y {
        None
    } else if f < p.y && f < q.y || f > p.y && f > q.y {
        None
    } else {
        Some(Point2D { x: crossing_x(p, q, f) as i64, y: f as i64 })
    }
}

/// The crossing lies between the segment's ends.
pub proof fn lemma_crossing_between(p: Point2D, q: Point2D, f: int)
    requires
        p.y != q.y,
        p.y <= f <= q.y || q.y <= f <= p.y,
    ensures
        p.x <= q.x ==> p.x <= crossing_x(p, q, f) <= q.x,
        q.x <= p.x ==> q.x <= crossing_x(p, q, f) <= p.x,
{
    let a = f - p.y;
    let b = q.x - p.x;
    let d = q.y - p.y;
    let (aa, dd) = if d > 0 { (a, d) } else { (-a, -d) };
    assert(0 <= aa <= dd);
    let n = aa * b;
    if b >= 0 {
        assert(0 <= n <= dd * b) by (nonlinear_arith)
            requires 0 <= aa <= dd, b >= 0, n == aa * b;
        assert(n / dd <= (dd * b) / dd) by (nonlinear_arith)
            requires n <= dd * b, dd > 0;
        assert((dd * b) / dd == b) by (nonlinear_arith)
            requires dd > 0;
        assert(0 <= n / dd) by (nonlinear_arith)
            requires 0 <= n, dd > 0;
        assert(tdiv(n, dd) == n / dd);
    } else {
        let c = -b;
        assert(0 <= aa * c <= dd * c) by (nonlinear_arith)
            requires 0 <= aa <= dd, c >= 0;
        assert((aa * c) / dd <= (dd * c) / dd) by (nonlinear_arith)
            requires aa * c <= dd * c, dd > 0;
        assert((dd * c) / dd == c) by (nonlinear_arith)
            requires dd > 0;
        assert(0 <= (aa * c) / dd) by (nonlinear_arith)
            requires 0 <= aa * c, dd > 0;
        assert(n == -(aa * c)) by (nonlinear_arith)
            requires n == aa * b, c == -b;
        if aa * c == 0 {
            assert(n == 0);
        }
    }
    if d > 0 {
        assert(crossing_x(p, q, f) == p.x + tdiv(n, dd));
    } else {
        assert(-((f - p.y) * (q.x - p.x)) == n) by (nonlinear_arith)
            requires aa == -a, a == f - p.y, b == q.x - p.x, n == aa * b;
        assert(crossing_x(p, q, f) == p.x + tdiv(n, dd));
    }
}

/// Computes `intersection(p, q, y_line)`.
pub fn calculate_line_intersection(p: Point2D, q: Point2D, y_line: i64) -> (r: Option<Point2D>)
    requires
        point_within(p, COORD_LIMIT as int),
        point_within(q, COORD_LIMIT as int),
    ensures
        r == intersection(p, q, y_line as int),
        r matches Some(x) ==> point_within(x, COORD_LIMIT as int) && x.y == y_line,
{
    if p.y == q.y {
        return None;
    }
    if y_line < p.y && y_line < q.y || y_line > p.y && y_line > q.y {
        return None;
    }
    proof {
        lemma_crossing_between(p, q, y_line as int);
        let a = y_line - p.y;
        let b = q.x - p.x;
        assert(-4 * COORD_LIMIT * COORD_LIMIT <= a * b <= 4 * COORD_LIMIT * COORD_LIMIT) by (nonlinear_arith)
            requires -2 * COORD_LIMIT <= a <= 2 * COORD_LIMIT, -2 * COORD_LIMIT <= b <= 2 * COORD_LIMIT;
    }
    let num: i128 = (y_line as i128 - p.y as i128) * (q.x as i128 - p.x as i128);
    let den: i128 = q.y as i128 - p.y as i128;
    let step: i128 = if den > 0 { num / den } else { (-num) / (-den) };
    Some(Point2D { x: (p.x as i128 + step) as i64, y: y_line })
}

/// A point moved toward the vertical centerline by `wall_offset`. Within
/// the neck band (`|y| <= band`) the move is cut short so the point stays
/// on its own side, at least half a unit from the centerline when it was.
pub open spec fn inset(p: Point2D, wall_offset: int, band: int) -> Point2D {
    let right = p.x >= 0;
    let pot = if right { p.x - wall_offset } else { p.x + wall_offset };
    let off = if within(p.y as int, band) && right && pot <= HALF_UNIT {
        if p.x - HALF_UNIT > 0 { p.x - HALF_UNIT } else { 0 }
    } else if within(p.y as int, band) && !right && pot >= -HALF_UNIT {
        if -p.x - HALF_UNIT > 0 { -p.x - HALF_UNIT } else { 0 }
    } else {
        wall_offset
    };
    Point2D { x: (if right { p.x - off } else { p.x + off }) as i64, y: p.y }
}

/// Within the neck band, an inset point never crosses the centerline and
/// never moves outward: a right-side point ends between `min(x, 1/2)` and
/// `x`, a left-side point between `x` and `max(x, -1/2)`.
pub proof fn lemma_inset_keeps_side(p: Point2D, wall_offset: int, band: int)
    requires
        wall_offset >= 0,
        within(p.y as int, band),
    ensures
        inset(p, wall_offset, band).y == p.y,
        p.x >= 0 ==> (if p.x < HALF_UNIT { p.x as int } else { HALF_UNIT as int }) <= inset(p, wall_offset, band).x <= p.x,
        p.x < 0 ==> p.x <= inset(p, wall_offset, band).x <= (if p.x > -HALF_UNIT { p.x as int } else { -HALF_UNIT }),
{
}

/// With no wall offset, every point stays where it is.
pub proof fn lemma_inset_zero(p: Point2D, band: int)
    ensures
        inset(p, 0, band) == p,
{
}

/// Computes `inset(p, wall_offset, band)`.
fn inset_point(p: Point2D, wall_offset: i64, band: i64) -> (r: Point2D)
    requires
        within(p.x as int, COORD_LIMIT as int),
        within(wall_offset as int, COORD_LIMIT as int),
        within(band as int, COORD_LIMIT as int),
    ensures
        r == inset(p, wall_offset as int, band as int),
        within(r.x as int, 2 * COORD_LIMIT),
{
    let mut off = wall_offset;
    if -band <= p.y && p.y <= band {
        let pot = if p.x >= 0 { p.x - wall_offset } else { p.x + wall_offset };
        if p.x >= 0 && pot <= HALF_UNIT {
            off = if p.x - HALF_UNIT > 0 { p.x - HALF_UNIT } else { 0 };
        } else if p.x < 0 && pot >= -HALF_UNIT {
            off = if -p.x - HALF_UNIT > 0 { -p.x - HALF_UNIT } else { 0 };
        }
    }
    if p.x >= 0 {
        Point2D { x: p.x - off, y: p.y }
    } else {
        Point2D { x: p.x + off, y: p.y }
    }
}


/// `p` lies on the sand side of the flat fill line `f`: between the middle
/// and the line for the top bulb, below both for the bottom bulb.
pub open spec fn included(p: Point2D, f: int, bulb: SandBulb) -> bool {
    match bulb {
        SandBulb::Top => 0 <= p.y && p.y <= f,
        SandBulb::Bottom => p.y <= 0 && p.y <= f,
    }
}

/// The segment `p q` passes from one side of the line `f` to the other.
pub open spec fn crosses(p: Point2D, q: Point2D, f: int) -> bool {
    (p.y <= f && q.y > f) || (p.y > f && q.y <= f)
}

/// A crossing of the fill line is kept only on the bulb's own half.
pub open spec fn hit_valid(f: int, bulb: SandBulb) -> bool {
    match bulb {
        SandBulb::Top => f >= 0,
        SandBulb::Bottom => f <= 0,
    }
}

/// The point after `o[i]`, wrapping around the closed polygon.
pub open spec fn next_point(o: Seq<Point2D>, i: int) -> Point2D {
    o[(i + 1) % (o.len() as int)]
}

pub open spec fn crossing_point(p: Point2D, q: Point2D, f: int) -> Point2D {
    Point2D { x: crossing_x(p, q, f) as i64, y: f as i64 }
}

/// The fill-line crossing of edge `i`, if it has a kept one.
pub open spec fn edge_hit(o: Seq<Point2D>, i: int, f: int, bulb: SandBulb) -> Seq<Point2D> {
    let p = o[i];
    let q = next_point(o, i);
    if crosses(p, q, f) && hit_valid(f, bulb) {
        seq![crossing_point(p, q, f)]
    } else {
        seq![]
    }
}

/// What edge `i` adds to the clipped polygon: its start point when that is
/// on the sand side, then its crossing when the edge enters or leaves.
pub open spec fn edge_emit(o: Seq<Point2D>, i: int, f: int, bulb: SandBulb) -> Seq<Point2D> {
    let p = o[i];
    let q = next_point(o, i);
    (if included(p, f, bulb) {
        seq![p]
    } else {
        seq![]
    }) + (if included(p, f, bulb) != included(q, f, bulb) {
        edge_hit(o, i, f, bulb)
    } else {
        seq![]
    })
}

/// What the first `k` edges add.
pub open spec fn walk(o: Seq<Point2D>, k: int, f: int, bulb: SandBulb) -> Seq<Point2D>
    decreases k,
{
    if k <= 0 {
        seq![]
    } else {
        walk(o, k - 1, f, bulb) + edge_emit(o, k - 1, f, bulb)
    }
}

/// The kept crossings of the first `k` edges.
pub open spec fn hits(o: Seq<Point2D>, k: int, f: int, bulb: SandBulb) -> Seq<Point2D>
    decreases k,
{
    if k <= 0 {
        seq![]
    } else {
        hits(o, k - 1, f, bulb) + edge_hit(o, k - 1, f, bulb)
    }
}

/// `p` put into `s` after every point of the trailing run with a larger x.
pub open spec fn insert_by_x(s: Seq<Point2D>, p: Point2D) -> Seq<Point2D>
    decreases s.len(),
{
    if s.len() == 0 {
        seq![p]
    } else if s.last().x <= p.x {
        s.push(p)
    } else {
        insert_by_x(s.drop_last(), p).push(s.last())
    }
}

/// `s` stably sorted by x.
pub open spec fn sort_by_x(s: Seq<Point2D>) -> Seq<Point2D>
    decreases s.len(),
{
    if s.len() == 0 {
        seq![]
    } else {
        insert_by_x(sort_by_x(s.drop_last()), s.last())
    }
}

/// `acc` followed by each point of `s`, in order, that is not already there.
pub open spec fn add_missing(acc: Seq<Point2D>, s: Seq<Point2D>) -> Seq<Point2D>
    decreases s.len(),
{
    if s.len() == 0 {
        acc
    } else {
        let a = add_missing(acc, s.drop_last());
        if a.contains(s.last()) {
            a
        } else {
            a.push(s.last())
        }
    }
}

/// The outline clipped against the flat fill line `f`, closed along the
/// line by its crossings sorted by x: right to left for the top bulb, left
/// to right for the bottom bulb.
pub open spec fn flat_clip(o: Seq<Point2D>, f: int, bulb: SandBulb) -> Seq<Point2D> {
    let h = sort_by_x(hits(o, o.len() as int, f, bulb));
    let ordered = match bulb {
        SandBulb::Top => h.reverse(),
        SandBulb::Bottom => h,
    };
    add_missing(walk(o, o.len() as int, f, bulb), ordered)
}

/// Whether `v` holds `p`.
fn contains_point(v: &Vec<Point2D>, p: Point2D) -> (r: bool)
    ensures
        r == v@.contains(p),
{
    let mut i: usize = 0;
    while i < v.len()
        invariant
            i <= v@.len(),
            forall|k: int| 0 <= k < i ==> v@[k] != p,
        decreases v@.len() - i,
    {
        if v[i] == p {
            assert(v@[i as int] == p);
            return true;
        }
        i = i + 1;
    }
    false
}

/// Computes `insert_by_x(s@, p)`.
fn insert_point_by_x(s: &Vec<Point2D>, p: Point2D) -> (r: Vec<Point2D>)
    requires
        xs_within(s@),
        within(p.x as int, COORD_LIMIT as int),
    ensures
        r@ == insert_by_x(s@, p),
        xs_within(r@),
{
    let mut j = s.len();
    assert(s@.take(j as int) =~= s@);
    assert(insert_by_x(s@, p) + s@.skip(j as int) =~= insert_by_x(s@, p));
    while j > 0 && s[j - 1].x > p.x
        invariant
            j <= s@.len(),
            insert_by_x(s@, p) == insert_by_x(s@.take(j as int), p) + s@.skip(j as int),
        decreases j,
    {
        proof {
            let t = s@.take(j as int);
            assert(t.drop_last() =~= s@.take(j - 1));
            assert(t.last() == s@[j - 1]);
            assert(s@.skip(j - 1) =~= seq![s@[j - 1]] + s@.skip(j as int));
            assert(insert_by_x(s@.take(j - 1), p).push(s@[j - 1]) + s@.skip(j as int)
                =~= insert_by_x(s@.take(j - 1), p) + s@.skip(j - 1));
        }
        j = j - 1;
    }
    let mut r: Vec<Point2D> = Vec::new();
    let mut k: usize = 0;
    while k < j
        invariant
            k <= j <= s@.len(),
            r@ == s@.take(k as int),
            xs_within(s@),
        decreases j - k,
    {
        r.push(s[k]);
        k = k + 1;
        assert(r@ =~= s@.take(k as int));
    }
    r.push(p);
    while k < s.len()
        invariant
            j <= k <= s@.len(),
            r@ == s@.take(j as int).push(p) + s@.subrange(j as int, k as int),
            xs_within(s@),
            xs_within(r@),
        decreases s@.len() - k,
    {
        r.push(s[k]);
        k = k + 1;
        assert(r@ =~= s@.take(j as int).push(p) + s@.subrange(j as int, k as int));
    }
    proof {
        assert(s@.subrange(j as int, s@.len() as int) =~= s@.skip(j as int));
        assert(insert_by_x(s@.take(j as int), p) == s@.take(j as int).push(p));
    }
    r
}

/// Computes `sort_by_x(s@)`.
fn sort_points_by_x(s: &Vec<Point2D>) -> (r: Vec<Point2D>)
    requires
        xs_within(s@),
    ensures
        r@ == sort_by_x(s@),
        xs_within(r@),
{
    let mut r: Vec<Point2D> = Vec::new();
    let mut i: usize = 0;
    while i < s.len()
        invariant
            i <= s@.len(),
            r@ == sort_by_x(s@.take(i as int)),
            xs_within(s@),
            xs_within(r@),
        decreases s@.len() - i,
    {
        r = insert_point_by_x(&r, s[i]);
        proof {
            let t = s@.take(i + 1);
            assert(t.drop_last() =~= s@.take(i as int));
            assert(t.last() == s@[i as int]);
        }
        i = i + 1;
    }
    assert(s@.take(s@.len() as int) =~= s@);
    r
}

/// Computes `add_missing(acc@, s@)` (or with `s` reversed) in place.
fn append_missing(acc: &mut Vec<Point2D>, s: &Vec<Point2D>, reversed: bool)
    requires
        xs_within(old(acc)@),
        xs_within(s@),
    ensures
        final(acc)@ == add_missing(old(acc)@, if reversed { s@.reverse() } else { s@ }),
        xs_within(final(acc)@),
{
    let ghost t = if reversed { s@.reverse() } else { s@ };
    let n = s.len();
    let mut i: usize = 0;
    while i < n
        invariant
            n == s@.len(),
            t.len() == n,
            t == (if reversed { s@.reverse() } else { s@ }),
            i <= n,
            acc@ == add_missing(old(acc)@, t.take(i as int)),
            xs_within(s@),
            xs_within(acc@),
        decreases n - i,
    {
        let p = if reversed { s[n - 1 - i] } else { s[i] };
        proof {
            assert(within(p.x as int, COORD_LIMIT as int));
            assert(p == t[i as int]);
            let u = t.take(i + 1);
            assert(u.drop_last() =~= t.take(i as int));
            assert(u.last() == t[i as int]);
        }
        if !contains_point(acc, p) {
            acc.push(p);
        }
        i = i + 1;
    }
    assert(t.take(n as int) =~= t);
}

/// The outline clipped against the flat fill line `f`.
fn generate_outline_with_fill_line(o: &[Point2D], f: i64, bulb: SandBulb) -> (r: Vec<Point2D>)
    requires
        points_within(o@, COORD_LIMIT as int),
        within(f as int, COORD_LIMIT as int),
    ensures
        r@ == flat_clip(o@, f as int, bulb),
        xs_within(r@),
{
    let n = o.len();
    let mut result: Vec<Point2D> = Vec::new();
    let mut found: Vec<Point2D> = Vec::new();
    let mut i: usize = 0;
    while i < n
        invariant
            n == o@.len(),
            i <= n,
            points_within(o@, COORD_LIMIT as int),
            within(f as int, COORD_LIMIT as int),
            result@ == walk(o@, i as int, f as int, bulb),
            found@ == hits(o@, i as int, f as int, bulb),
            xs_within(result@),
            xs_within(found@),
        decreases n - i,
    {
        let p = o[i];
        let q = o[(i + 1) % n];
        assert(point_within(o@[i as int], COORD_LIMIT as int));
        let cur_in = match bulb {
            SandBulb::Top => p.y >= 0 && p.y <= f,
            SandBulb::Bottom => p.y <= 0 && p.y <= f,
        };
        let next_in = match bulb {
            SandBulb::Top => q.y >= 0 && q.y <= f,
            SandBulb::Bottom => q.y <= 0 && q.y <= f,
        };
        let ghost before = result@;
        let ghost found_before = found@;
        if cur_in {
            result.push(p);
        }
        let crossing = (p.y <= f && q.y > f) || (p.y > f && q.y <= f);
        if crossing {
            proof {
                assert(point_within(o@[(i + 1) % (n as int)], COORD_LIMIT as int));
            }
            match calculate_line_intersection(p, q, f) {
                Some(x) => {
                    let valid = match bulb {
                        SandBulb::Top => x.y >= 0,
                        SandBulb::Bottom => x.y <= 0,
                    };
                    if valid {
                        found.push(x);
                        if cur_in != next_in {
                            result.push(x);
                        }
                    }
                },
                None => {},
            }
        }
        proof {
            assert(p == o@[i as int]);
            assert(q == next_point(o@, i as int));
            assert(result@ =~= before + edge_emit(o@, i as int, f as int, bulb));
            assert(found@ =~= found_before + edge_hit(o@, i as int, f as int, bulb));
        }
        i = i + 1;
    }
    let sorted = sort_points_by_x(&found);
    let reversed = match bulb {
        SandBulb::Top => true,
        SandBulb::Bottom => false,
    };
    append_missing(&mut result, &sorted, reversed);
    result
}


/// Samples taken along an edge to find where it meets a mounded fill line.
pub const EDGE_SAMPLES: usize = 10;

/// Samples of the mound's crown between its outermost crossings.
pub const CROWN_SAMPLES: usize = 20;

/// Largest magnitude of a y on a mounded fill line.
pub const MOUND_Y_LIMIT: i64 = 400_000_000_000_000_000;

/// The left and right x where the flat line `base` meets the outline, as
/// found by the last crossing on each side of the centerline among the
/// first `k` edges (zero where there is none).
pub open spec fn sand_span(o: Seq<Point2D>, k: int, base: int) -> (int, int)
    decreases k,
{
    if k <= 0 {
        (0, 0)
    } else {
        let (l, r) = sand_span(o, k - 1, base);
        match intersection(o[k - 1], next_point(o, k - 1), base) {
            Some(x) => if x.x < 0 {
                (x.x as int, r)
            } else {
                (l, x.x as int)
            },
            None => (l, r),
        }
    }
}

/// A fill line raised into a parabolic mound between `left` and `right`.
/// `strength` is in thousandths; the crest stands `strength / 10` times the
/// width above `base`.
#[derive(Clone, Copy, Debug, PartialEq, Eq, Structural)]
pub struct MoundedLine {
    pub base: i64,
    pub strength: i64,
    pub left: i64,
    pub right: i64,
}

impl MoundedLine {
    pub open spec fn wf(&self) -> bool {
        &&& within(self.base as int, COORD_LIMIT as int)
        &&& 0 <= self.strength <= FACTOR_LIMIT
        &&& within(self.left as int, COORD_LIMIT as int)
        &&& within(self.right as int, COORD_LIMIT as int)
        &&& self.left < self.right
    }

    /// `base + strength * width / 10 * (1 - u^2)`, with `u` the position of
    /// `x` across the span, from -1 to 1, clamped there.
    pub open spec fn y_at(&self, x: int) -> int {
        let w = self.right - self.left;
        let c0 = 2 * x - (self.left + self.right);
        let c = if c0 < -w {
            -w
        } else if c0 > w {
            w
        } else {
            c0
        };
        self.base + (self.strength * (w * w - c * c)) / (10 * SCALE * w)
    }

    /// The point `(x, y)` lies under the mound and below the middle.
    pub open spec fn holds(&self, x: int, y: int) -> bool {
        y <= 0 && y <= self.y_at(x)
    }

    /// Computes `y_at(x)`.
    pub fn y_of(&self, x: i64) -> (r: i64)
        requires
            self.wf(),
            within(x as int, COORD_LIMIT as int),
        ensures
            r == self.y_at(x as int),
            within(r as int, MOUND_Y_LIMIT as int),
    {
        let w: i128 = self.right as i128 - self.left as i128;
        let c0: i128 = 2 * (x as i128) - (self.left as i128 + self.right as i128);
        let c: i128 = if c0 < -w {
            -w
        } else if c0 > w {
            w
        } else {
            c0
        };
        let ghost s = self.strength as int;
        assert(0 < w <= 2 * COORD_LIMIT);
        let d: i128 = 10_000 * w;
        assert(d == 10 * SCALE * w);
        proof {
            let w = w as int;
            let c = c as int;
            let d = d as int;
            assert(0 <= w * w - c * c <= w * w) by (nonlinear_arith)
                requires -w <= c <= w, w > 0;
            assert(w * w <= 4 * COORD_LIMIT * COORD_LIMIT) by (nonlinear_arith)
                requires 0 < w <= 2 * COORD_LIMIT;
            assert(0 <= s * (w * w - c * c) <= FACTOR_LIMIT * (4 * COORD_LIMIT * COORD_LIMIT)) by (nonlinear_arith)
                requires 0 <= s <= FACTOR_LIMIT, 0 <= w * w - c * c <= 4 * COORD_LIMIT * COORD_LIMIT;
            let num = s * (w * w - c * c);
            let h = num / d;
            assert(h * d <= num) by (nonlinear_arith)
                requires d > 0, h == num / d;
            assert(num <= (s * w) * w) by (nonlinear_arith)
                requires 0 <= s, w * w - c * c <= w * w, num == s * (w * w - c * c);
            assert((h * 10 * SCALE) * w <= (s * w) * w) by (nonlinear_arith)
                requires h * d <= num, num <= (s * w) * w, d == 10 * SCALE * w;
            assert(h * 10 * SCALE <= s * w) by (nonlinear_arith)
                requires (h * 10 * SCALE) * w <= (s * w) * w, w > 0;
            assert(s * w <= FACTOR_LIMIT * (2 * COORD_LIMIT)) by (nonlinear_arith)
                requires 0 <= s <= FACTOR_LIMIT, 0 < w <= 2 * COORD_LIMIT;
            assert(0 <= h) by (nonlinear_arith)
                requires 0 <= num, d > 0, h == num / d;
        }
        let num: i128 = (self.strength as i128) * (w * w - c * c);
        let h: i128 = num / d;
        (self.base as i128 + h) as i64
    }
}

/// Sample `j` of the `EDGE_SAMPLES` steps from `p` to `q`.
pub open spec fn edge_sample(p: Point2D, q: Point2D, j: int) -> (int, int) {
    (lerp(p.x as int, q.x as int, j, EDGE_SAMPLES as int), lerp(p.y as int, q.y as int, j, EDGE_SAMPLES as int))
}

/// The first sample from `j` on along `p q` whose side of the mound differs
/// from `p`'s, lifted onto the mound.
pub open spec fn probe(p: Point2D, q: Point2D, j: int, m: MoundedLine) -> Option<Point2D>
    decreases EDGE_SAMPLES - j,
{
    if j >= EDGE_SAMPLES {
        None
    } else {
        let (sx, sy) = edge_sample(p, q, j);
        if m.holds(sx, sy) != m.holds(p.x as int, p.y as int) {
            Some(Point2D { x: sx as i64, y: m.y_at(sx) as i64 })
        } else {
            probe(p, q, j + 1, m)
        }
    }
}

/// The approximate crossing of edge `i` with the mound, where the edge's
/// ends lie on different sides.
pub open spec fn mound_hit(o: Seq<Point2D>, i: int, m: MoundedLine) -> Seq<Point2D> {
    let p = o[i];
    let q = next_point(o, i);
    if m.holds(p.x as int, p.y as int) != m.holds(q.x as int, q.y as int) {
        match probe(p, q, 1, m) {
            Some(x) => seq![x],
            None => seq![],
        }
    } else {
        seq![]
    }
}

/// What edge `i` adds: its start point when under the mound, then its crossing.
pub open spec fn mound_emit(o: Seq<Point2D>, i: int, m: MoundedLine) -> Seq<Point2D> {
    let p = o[i];
    (if m.holds(p.x as int, p.y as int) {
        seq![p]
    } else {
        seq![]
    }) + mound_hit(o, i, m)
}

pub open spec fn mound_walk(o: Seq<Point2D>, k: int, m: MoundedLine) -> Seq<Point2D>
    decreases k,
{
    if k <= 0 {
        seq![]
    } else {
        mound_walk(o, k - 1, m) + mound_emit(o, k - 1, m)
    }
}

pub open spec fn mound_hits(o: Seq<Point2D>, k: int, m: MoundedLine) -> Seq<Point2D>
    decreases k,
{
    if k <= 0 {
        seq![]
    } else {
        mound_hits(o, k - 1, m) + mound_hit(o, k - 1, m)
    }
}

/// The least x in a non-empty `s`.
pub open spec fn min_x(s: Seq<Point2D>) -> int
    decreases s.len(),
{
    if s.len() <= 1 {
        s[0].x as int
    } else {
        let a = min_x(s.drop_last());
        if s.last().x < a {
            s.last().x as int
        } else {
            a
        }
    }
}

/// The greatest x in a non-empty `s`.
pub open spec fn max_x(s: Seq<Point2D>) -> int
    decreases s.len(),
{
    if s.len() <= 1 {
        s[0].x as int
    } else {
        let a = max_x(s.drop_last());
        if s.last().x > a {
            s.last().x as int
        } else {
            a
        }
    }
}

/// `CROWN_SAMPLES + 1` points along the mound from `lo` to `hi`.
pub open spec fn crown(lo: int, hi: int, m: MoundedLine) -> Seq<Point2D> {
    Seq::new(
        (CROWN_SAMPLES + 1) as nat,
        |i: int|
            Point2D {
                x: lerp(lo, hi, i, CROWN_SAMPLES as int) as i64,
                y: m.y_at(lerp(lo, hi, i, CROWN_SAMPLES as int)) as i64,
            },
    )
}

/// The mound's strength: the mound factor scaled by how full the top bulb is.
pub open spec fn mound_strength(mound_factor: int, fill: int) -> int {
    (mound_factor * fill) / (SCALE as int)
}

/// The outline clipped for the bottom bulb under a mounded fill line: the
/// flat clip where the factor is zero or the line meets no width; else the
/// clip under the mound, followed by the crown between its outermost
/// crossings when there are at least two.
pub open spec fn mounded_clip(o: Seq<Point2D>, base: int, mound_factor: int, fill: int) -> Seq<Point2D> {
    let (l, r) = sand_span(o, o.len() as int, base);
    if mound_factor == 0 || r - l <= 0 {
        flat_clip(o, base, SandBulb::Bottom)
    } else {
        let m = MoundedLine {
            base: base as i64,
            strength: mound_strength(mound_factor, fill) as i64,
            left: l as i64,
            right: r as i64,
        };
        let h = mound_hits(o, o.len() as int, m);
        let w = mound_walk(o, o.len() as int, m);
        if h.len() >= 2 {
            w + crown(min_x(h), max_x(h), m)
        } else {
            w
        }
    }
}


/// Computes `sand_span(o@, o@.len(), base)`.
fn find_sand_span(o: &[Point2D], base: i64) -> (r: (i64, i64))
    requires
        points_within(o@, COORD_LIMIT as int),
    ensures
        (r.0 as int, r.1 as int) == sand_span(o@, o@.len() as int, base as int),
        within(r.0 as int, COORD_LIMIT as int),
        within(r.1 as int, COORD_LIMIT as int),
{
    let n = o.len();
    let mut left: i64 = 0;
    let mut right: i64 = 0;
    let mut i: usize = 0;
    while i < n
        invariant
            n == o@.len(),
            i <= n,
            points_within(o@, COORD_LIMIT as int),
            (left as int, right as int) == sand_span(o@, i as int, base as int),
            within(left as int, COORD_LIMIT as int),
            within(right as int, COORD_LIMIT as int),
        decreases n - i,
    {
        proof {
            assert(point_within(o@[(i + 1) % (n as int)], COORD_LIMIT as int));
        }
        match calculate_line_intersection(o[i], o[(i + 1) % n], base) {
            Some(x) => {
                if x.x < 0 {
                    left = x.x;
                } else {
                    right = x.x;
                }
            },
            None => {},
        }
        i = i + 1;
    }
    (left, right)
}

/// Computes `probe(p, q, 1, m)`.
fn find_mound_crossing(p: Point2D, q: Point2D, m: &MoundedLine) -> (r: Option<Point2D>)
    requires
        m.wf(),
        point_within(p, COORD_LIMIT as int),
        point_within(q, COORD_LIMIT as int),
    ensures
        r == probe(p, q, 1, *m),
        r matches Some(x) ==> within(x.x as int, COORD_LIMIT as int),
{
    let start_in = p.y <= 0 && p.y <= m.y_of(p.x);
    let mut j: usize = 1;
    while j < EDGE_SAMPLES
        invariant
            m.wf(),
            point_within(p, COORD_LIMIT as int),
            point_within(q, COORD_LIMIT as int),
            start_in == m.holds(p.x as int, p.y as int),
            1 <= j <= EDGE_SAMPLES,
            probe(p, q, 1, *m) == probe(p, q, j as int, *m),
        decreases EDGE_SAMPLES - j,
    {
        let sx = lerp_coord(p.x, q.x, j, EDGE_SAMPLES);
        let sy = lerp_coord(p.y, q.y, j, EDGE_SAMPLES);
        let sm = m.y_of(sx);
        let sample_in = sy <= 0 && sy <= sm;
        if sample_in != start_in {
            return Some(Point2D { x: sx, y: sm });
        }
        j = j + 1;
    }
    None
}

/// Computes `min_x(s@)` and `max_x(s@)` of a non-empty `s`.
fn x_extent(s: &Vec<Point2D>) -> (r: (i64, i64))
    requires
        s@.len() > 0,
        forall|k: int| 0 <= k < s@.len() ==> within((#[trigger] s@[k]).x as int, COORD_LIMIT as int),
    ensures
        r.0 == min_x(s@),
        r.1 == max_x(s@),
        within(r.0 as int, COORD_LIMIT as int),
        within(r.1 as int, COORD_LIMIT as int),
{
    let mut lo = s[0].x;
    let mut hi = s[0].x;
    let mut i: usize = 1;
    assert(s@.take(1).len() == 1);
    assert(s@.take(1)[0] == s@[0]);
    while i < s.len()
        invariant
            1 <= i <= s@.len(),
            forall|k: int| 0 <= k < s@.len() ==> within((#[trigger] s@[k]).x as int, COORD_LIMIT as int),
            lo == min_x(s@.take(i as int)),
            hi == max_x(s@.take(i as int)),
            within(lo as int, COORD_LIMIT as int),
            within(hi as int, COORD_LIMIT as int),
        decreases s@.len() - i,
    {
        let x = s[i].x;
        proof {
            let t = s@.take(i + 1);
            assert(t.drop_last() =~= s@.take(i as int));
            assert(t.last() == s@[i as int]);
        }
        if x < lo {
            lo = x;
        }
        if x > hi {
            hi = x;
        }
        i = i + 1;
    }
    assert(s@.take(s@.len() as int) =~= s@);
    (lo, hi)
}

/// The outline clipped for the bottom bulb under a mounded fill line.
fn generate_outline_with_mounded_fill_line(
    o: &[Point2D],
    base: i64,
    mound_factor: i64,
    fill: i64,
) -> (r: Vec<Point2D>)
    requires
        points_within(o@, COORD_LIMIT as int),
        within(base as int, COORD_LIMIT as int),
        0 <= mound_factor <= FACTOR_LIMIT,
        0 <= fill <= SCALE,
    ensures
        r@ == mounded_clip(o@, base as int, mound_factor as int, fill as int),
        xs_within(r@),
{
    let (left, right) = find_sand_span(o, base);
    if mound_factor == 0 || right - left <= 0 {
        return generate_outline_with_fill_line(o, base, SandBulb::Bottom);
    }
    proof {
        assert(0 <= mound_factor * fill <= FACTOR_LIMIT * SCALE) by (nonlinear_arith)
            requires 0 <= mound_factor <= FACTOR_LIMIT, 0 <= fill <= SCALE;
        let prod = mound_factor * fill;
        assert(prod / 1000 <= 1_000_000) by (nonlinear_arith)
            requires prod <= 1_000_000 * 1000, prod >= 0;
    }
    let m = MoundedLine { base, strength: mound_factor * fill / SCALE, left, right };
    let n = o.len();
    let mut result: Vec<Point2D> = Vec::new();
    let mut found: Vec<Point2D> = Vec::new();
    let mut i: usize = 0;
    while i < n
        invariant
            n == o@.len(),
            i <= n,
            m.wf(),
            points_within(o@, COORD_LIMIT as int),
            result@ == mound_walk(o@, i as int, m),
            found@ == mound_hits(o@, i as int, m),
            xs_within(result@),
            forall|k: int| 0 <= k < found@.len() ==> within((#[trigger] found@[k]).x as int, COORD_LIMIT as int),
        decreases n - i,
    {
        let p = o[i];
        let q = o[(i + 1) % n];
        proof {
            assert(point_within(o@[(i + 1) % (n as int)], COORD_LIMIT as int));
            assert(point_within(o@[i as int], COORD_LIMIT as int));
        }
        let cur_in = p.y <= 0 && p.y <= m.y_of(p.x);
        let next_in = q.y <= 0 && q.y <= m.y_of(q.x);
        let ghost before = result@;
        let ghost found_before = found@;
        if cur_in {
            result.push(p);
        }
        if cur_in != next_in {
            match find_mound_crossing(p, q, &m) {
                Some(x) => {
                    found.push(x);
                    result.push(x);
                },
                None => {},
            }
        }
        proof {
            assert(p == o@[i as int]);
            assert(q == next_point(o@, i as int));
            assert(result@ =~= before + mound_emit(o@, i as int, m));
            assert(found@ =~= found_before + mound_hit(o@, i as int, m));
        }
        i = i + 1;
    }
    if found.len() >= 2 {
        let (lo, hi) = x_extent(&found);
        let ghost before = result@;
        let mut k: usize = 0;
        while k <= CROWN_SAMPLES
            invariant
                m.wf(),
                within(lo as int, COORD_LIMIT as int),
                within(hi as int, COORD_LIMIT as int),
                k <= CROWN_SAMPLES + 1,
                result@ == before + crown(lo as int, hi as int, m).take(k as int),
                xs_within(result@),
            decreases CROWN_SAMPLES + 1 - k,
        {
            let x = lerp_coord(lo, hi, k, CROWN_SAMPLES);
            let y = m.y_of(x);
            result.push(Point2D { x, y });
            k = k + 1;
            assert(result@ =~= before + crown(lo as int, hi as int, m).take(k as int));
        }
        assert(crown(lo as int, hi as int, m).take(k as int) =~= crown(lo as int, hi as int, m));
    }
    result
}


/// The chosen bulb holds no sand: the top when `fill` is zero, the bottom
/// when `fill` is `SCALE` (all sand still on top).
pub open spec fn empty_chamber(fill: int, bulb: SandBulb) -> bool {
    match bulb {
        SandBulb::Top => fill == 0,
        SandBulb::Bottom => fill == SCALE,
    }
}

/// The outline clipped for `bulb`: flat for the top bulb, mounded for the bottom.
pub open spec fn clipped(
    o: Seq<Point2D>,
    fill: int,
    bulb: SandBulb,
    neck_height: int,
    min_y: int,
    max_y: int,
    mound_factor: int,
) -> Seq<Point2D> {
    let f = fill_line(fill, bulb, neck_height, min_y, max_y);
    match bulb {
        SandBulb::Top => flat_clip(o, f, SandBulb::Top),
        SandBulb::Bottom => mounded_clip(o, f, mound_factor, fill),
    }
}

/// The sand polygon: empty for an empty outline, an empty chamber or an
/// empty clip; else the clipped outline inset from the walls, and for the
/// top bulb the falling stream from the neck's two sides down to `min_y`.
pub open spec fn sand_outline(
    o: Seq<Point2D>,
    fill: int,
    wall_offset: int,
    bulb: SandBulb,
    neck_height: int,
    min_y: int,
    max_y: int,
    mound_factor: int,
) -> Seq<Point2D> {
    let c = clipped(o, fill, bulb, neck_height, min_y, max_y, mound_factor);
    if o.len() == 0 || empty_chamber(fill, bulb) || c.len() == 0 {
        seq![]
    } else {
        let band = tdiv(neck_height, 2);
        let s = Seq::new(c.len(), |i: int| inset(c[i], wall_offset, band));
        match bulb {
            SandBulb::Top => s.push(Point2D { x: s.last().x, y: min_y as i64 }).push(
                Point2D { x: s[0].x, y: min_y as i64 },
            ),
            SandBulb::Bottom => s,
        }
    }
}

/// The inputs are small enough to compute with.
pub open spec fn sand_inputs_ok(
    o: Seq<Point2D>,
    fill: int,
    wall_offset: int,
    neck_height: int,
    min_y: int,
    max_y: int,
    mound_factor: int,
) -> bool {
    &&& points_within(o, COORD_LIMIT as int)
    &&& 0 <= fill <= SCALE
    &&& within(wall_offset, COORD_LIMIT as int)
    &&& within(neck_height, COORD_LIMIT as int)
    &&& within(min_y, COORD_LIMIT as int)
    &&& within(max_y, COORD_LIMIT as int)
    &&& 0 <= mound_factor <= FACTOR_LIMIT
}

/// Whether `sand_inputs_ok` holds of these inputs.
pub fn sand_inputs_valid(
    hourglass_outline: &[Point2D],
    fill_percent: i64,
    wall_offset: i64,
    neck_height: i64,
    min_y: i64,
    max_y: i64,
    bottom_mound_factor: i64,
) -> (r: bool)
    ensures
        r == sand_inputs_ok(
            hourglass_outline@,
            fill_percent as int,
            wall_offset as int,
            neck_height as int,
            min_y as int,
            max_y as int,
            bottom_mound_factor as int,
        ),
{
    let mut i: usize = 0;
    while i < hourglass_outline.len()
        invariant
            i <= hourglass_outline@.len(),
            forall|k: int| 0 <= k < i ==> point_within(#[trigger] hourglass_outline@[k], COORD_LIMIT as int),
        decreases hourglass_outline@.len() - i,
    {
        let p = hourglass_outline[i];
        if !(-COORD_LIMIT <= p.x && p.x <= COORD_LIMIT && -COORD_LIMIT <= p.y && p.y <= COORD_LIMIT) {
            assert(p == hourglass_outline@[i as int]);
            assert(!point_within(hourglass_outline@[i as int], COORD_LIMIT as int));
            return false;
        }
        i = i + 1;
    }
    let in_range = |v: i64| -> (b: bool)
        ensures
            b == within(v as int, COORD_LIMIT as int),
        { -COORD_LIMIT <= v && v <= COORD_LIMIT };
    0 <= fill_percent && fill_percent <= SCALE && in_range(wall_offset) && in_range(neck_height) && in_range(min_y)
        && in_range(max_y) && 0 <= bottom_mound_factor && bottom_mound_factor <= FACTOR_LIMIT
}

/// The sand-mass polygon of `bulb` for the body outline `hourglass_outline`
/// at fill fraction `fill_percent` (thousandths; `SCALE` is a full top bulb).
pub fn generate_sand_outline(
    hourglass_outline: &[Point2D],
    fill_percent: i64,
    wall_offset: i64,
    bulb: SandBulb,
    neck_height: i64,
    min_y: i64,
    max_y: i64,
    bottom_mound_factor: i64,
) -> (r: Vec<Point2D>)
    requires
        sand_inputs_ok(
            hourglass_outline@,
            fill_percent as int,
            wall_offset as int,
            neck_height as int,
            min_y as int,
            max_y as int,
            bottom_mound_factor as int,
        ),
    ensures
        r@ == sand_outline(
            hourglass_outline@,
            fill_percent as int,
            wall_offset as int,
            bulb,
            neck_height as int,
            min_y as int,
            max_y as int,
            bottom_mound_factor as int,
        ),
        empty_chamber(fill_percent as int, bulb) ==> r@.len() == 0,
        bulb == SandBulb::Top && r@.len() > 0 ==> r@.len() >= 3 && r@[r@.len() - 1].y == min_y && r@[r@.len()
            - 2].y == min_y,
        wall_offset >= 0 ==> forall|i: int|
            0 <= i < r@.len() && i < clipped(
                hourglass_outline@,
                fill_percent as int,
                bulb,
                neck_height as int,
                min_y as int,
                max_y as int,
                bottom_mound_factor as int,
            ).len() && within(#[trigger] r@[i].y as int, tdiv(neck_height as int, 2)) ==> {
                let c = clipped(
                    hourglass_outline@,
                    fill_percent as int,
                    bulb,
                    neck_height as int,
                    min_y as int,
                    max_y as int,
                    bottom_mound_factor as int,
                );
                &&& c[i].x >= 0 ==> r@[i].x >= 0
                &&& c[i].x < 0 ==> r@[i].x <= 0
            },
{
    let o = hourglass_outline;
    let ghost c = clipped(
        o@,
        fill_percent as int,
        bulb,
        neck_height as int,
        min_y as int,
        max_y as int,
        bottom_mound_factor as int,
    );
    if o.len() == 0 {
        return Vec::new();
    }
    let empty = match bulb {
        SandBulb::Top => fill_percent == 0,
        SandBulb::Bottom => fill_percent == SCALE,
    };
    if empty {
        return Vec::new();
    }
    let band = neck_height / 2;
    let neck_bottom = -band;
    let f = match bulb {
        SandBulb::Top => lerp_coord(0, max_y, fill_percent as usize, SCALE as usize),
        SandBulb::Bottom => lerp_coord(min_y, neck_bottom, (SCALE - fill_percent) as usize, SCALE as usize),
    };
    let filtered = match bulb {
        SandBulb::Bottom => generate_outline_with_mounded_fill_line(o, f, bottom_mound_factor, fill_percent),
        SandBulb::Top => generate_outline_with_fill_line(o, f, SandBulb::Top),
    };
    assert(filtered@ == c);
    if filtered.len() == 0 {
        return Vec::new();
    }
    let mut sand: Vec<Point2D> = Vec::new();
    let mut i: usize = 0;
    while i < filtered.len()
        invariant
            i <= filtered@.len(),
            xs_within(filtered@),
            within(wall_offset as int, COORD_LIMIT as int),
            within(band as int, COORD_LIMIT as int),
            sand@.len() == i,
            forall|k: int| 0 <= k < i ==> sand@[k] == inset(filtered@[k], wall_offset as int, band as int),
        decreases filtered@.len() - i,
    {
        let p = filtered[i];
        assert(within(filtered@[i as int].x as int, COORD_LIMIT as int));
        sand.push(inset_point(p, wall_offset, band));
        i = i + 1;
    }
    let ghost body = sand@;
    assert(body =~= Seq::new(c.len(), |k: int| inset(c[k], wall_offset as int, band as int)));
    match bulb {
        SandBulb::Top => {
            let left_x = sand[0].x;
            let right_x = sand[sand.len() - 1].x;
            sand.push(Point2D { x: right_x, y: min_y });
            sand.push(Point2D { x: left_x, y: min_y });
        },
        SandBulb::Bottom => {},
    }
    proof {
        assert forall|k: int|
            0 <= k < sand@.len() && k < c.len() && within(#[trigger] sand@[k].y as int, band as int)
            implies (c[k].x >= 0 ==> sand@[k].x >= 0) && (c[k].x < 0 ==> sand@[k].x <= 0) by {
            if wall_offset >= 0 {
                assert(sand@[k] == body[k]);
                assert(within(c[k].x as int, COORD_LIMIT as int));
                lemma_inset_keeps_side(c[k], wall_offset as int, band as int);
            }
        }
    }
    sand
}

/// An empty chamber yields no sand: the top bulb at fill zero, the bottom
/// bulb at a full top.
pub proof fn lemma_empty_chamber_has_no_sand(
    o: Seq<Point2D>,
    fill: int,
    wall_offset: int,
    bulb: SandBulb,
    neck_height: int,
    min_y: int,
    max_y: int,
    mound_factor: int,
)
    requires
        (bulb == SandBulb::Top && fill == 0) || (bulb == SandBulb::Bottom && fill == SCALE),
    ensures
        sand_outline(o, fill, wall_offset, bulb, neck_height, min_y, max_y, mound_factor).len() == 0,
{
}

/// The sand polygon is a function of the inputs alone: two computations
/// from the same inputs give the same point sequence.
pub proof fn lemma_sand_outline_repeatable(
    o1: Seq<Point2D>,
    o2: Seq<Point2D>,
    fill: int,
    wall_offset: int,
    bulb: SandBulb,
    neck_height: int,
    min_y: int,
    max_y: int,
    mound_factor: int,
)
    requires
        o1 == o2,
    ensures
        sand_outline(o1, fill, wall_offset, bulb, neck_height, min_y, max_y, mound_factor)
            == sand_outline(o2, fill, wall_offset, bulb, neck_height, min_y, max_y, mound_factor),
{
}


/// Insetting the sand from the walls keeps the two neck walls apart: for any
/// wall offset `>= 0`, the polygon has as many points as without an offset,
/// and each clipped point in the neck band keeps its height and its side of
/// the centerline, moving inward at most to half a unit from it.
pub proof fn lemma_wall_offset_keeps_sides(
    o: Seq<Point2D>,
    fill: int,
    wall_offset: int,
    bulb: SandBulb,
    neck_height: int,
    min_y: int,
    max_y: int,
    mound_factor: int,
)
    requires
        wall_offset >= 0,
    ensures
        ({
            let r = sand_outline(o, fill, wall_offset, bulb, neck_height, min_y, max_y, mound_factor);
            let r0 = sand_outline(o, fill, 0, bulb, neck_height, min_y, max_y, mound_factor);
            let n = clipped(o, fill, bulb, neck_height, min_y, max_y, mound_factor).len();
            &&& r.len() == r0.len()
            &&& forall|i: int|
                0 <= i < r0.len() && i < n && within(#[trigger] r0[i].y as int, tdiv(neck_height, 2)) ==> {
                    &&& r[i].y == r0[i].y
                    &&& r0[i].x >= 0 ==> (if r0[i].x < HALF_UNIT { r0[i].x as int } else { HALF_UNIT as int }) <= r[i].x <= r0[i].x
                    &&& r0[i].x < 0 ==> r0[i].x <= r[i].x <= (if r0[i].x > -HALF_UNIT { r0[i].x as int } else { -HALF_UNIT })
                }
        }),
{
    let r = sand_outline(o, fill, wall_offset, bulb, neck_height, min_y, max_y, mound_factor);
    let r0 = sand_outline(o, fill, 0, bulb, neck_height, min_y, max_y, mound_factor);
    let c = clipped(o, fill, bulb, neck_height, min_y, max_y, mound_factor);
    let band = tdiv(neck_height, 2);
    assert forall|i: int|
        0 <= i < r0.len() && i < c.len() && within(#[trigger] r0[i].y as int, band) implies {
            &&& r[i].y == r0[i].y
            &&& r0[i].x >= 0 ==> (if r0[i].x < HALF_UNIT { r0[i].x as int } else { HALF_UNIT as int }) <= r[i].x <= r0[i].x
            &&& r0[i].x < 0 ==> r0[i].x <= r[i].x <= (if r0[i].x > -HALF_UNIT { r0[i].x as int } else { -HALF_UNIT })
        } by {
        lemma_inset_zero(c[i], band);
        assert(r0[i] == c[i]);
        assert(r[i] == inset(c[i], wall_offset, band));
        lemma_inset_keeps_side(c[i], wall_offset, band);
    }
}

} // verus!
