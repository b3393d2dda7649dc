//! Curves sampled into point sequences: circular arcs, smooth transitions,
//! and chains of them.

use vstd::prelude::*;
use crate::fixed::{
    cos_angle, cosine, lemma_lerp, lerp, lerp_coord, sin_angle, sine,
    sine_frac, sine_fraction, tdiv, within, COORD_LIMIT, CURVE_LIMIT, FACTOR_LIMIT, FULL_TURN,
    HALF_TURN, MAX_RESOLUTION, QUARTER_TURN, SINE_ONE,
};

verus! {

/// A point of the hourglass's local frame, in thousandths of a unit.
/// `y == 0` is the vertical middle of the neck.
#[derive(Clone, Copy, Debug, PartialEq, Eq, Structural)]
pub struct Point2D {
    pub x: i64,
    pub y: i64,
}

/// Both coordinates of `p` are at most `limit` in magnitude.
pub open spec fn point_within(p: Point2D, limit: int) -> bool {
    within(p.x as int, limit) && within(p.y as int, limit)
}

/// Every point of `s` is at most `limit` in magnitude.
pub open spec fn points_within(s: Seq<Point2D>, limit: int) -> bool {
    forall|i: int| 0 <= i < s.len() ==> point_within(#[trigger] s[i], limit)
}

/// The quadrant of a quarter circle.
#[derive(Clone, Copy, Debug, PartialEq, Eq, Structural)]
pub enum CircleQuadrant {
    TopRight,
    TopLeft,
    BottomLeft,
    BottomRight,
}

/// Which way a smooth transition bends.
#[derive(Clone, Copy, Debug, PartialEq, Eq, Structural)]
pub enum CurveDirection {
    Straight,
    Inward,
    Outward,
}

/// `-1`, `0` or `1`: the sign of the bend.
pub open spec fn direction_sign(d: CurveDirection) -> int {
    match d {
        CurveDirection::Straight => 0,
        CurveDirection::Inward => -1,
        CurveDirection::Outward => 1,
    }
}

/// An arc of a circle. Angles count thousandths of a degree.
#[derive(Clone, Copy, Debug)]
pub struct CircularArc {
    pub center: Point2D,
    pub radius: i64,
    pub start_angle: i64,
    pub end_angle: i64,
    pub clockwise: bool,
}

impl CircularArc {
    /// The parameters are small enough to compute with.
    pub open spec fn wf(&self) -> bool {
        &&& point_within(self.center, CURVE_LIMIT as int)
        &&& within(self.radius as int, CURVE_LIMIT as int)
        &&& within(self.start_angle as int, CURVE_LIMIT as int)
        &&& within(self.end_angle as int, CURVE_LIMIT as int)
    }

    /// The point of the circle at angle `a`.
    pub open spec fn point_at(&self, a: int) -> Point2D {
        Point2D {
            x: (self.center.x + tdiv(self.radius * cosine(a), SINE_ONE as int)) as i64,
            y: (self.center.y + tdiv(self.radius * sine(a), SINE_ONE as int)) as i64,
        }
    }

    /// The difference of the end and start angles, measured in the arc's
    /// direction.
    pub open spec fn raw_sweep(&self) -> int {
        if self.clockwise {
            self.start_angle - self.end_angle
        } else {
            self.end_angle - self.start_angle
        }
    }

    /// The angle swept from start to end in the arc's direction: the raw
    /// difference when it is positive, else that difference normalised into
    /// `(0, FULL_TURN]`; ends that coincide, up to whole turns, sweep a
    /// full turn in either direction.
    pub open spec fn sweep(&self) -> int {
        let d = self.raw_sweep();
        if d > 0 {
            d
        } else if d % (FULL_TURN as int) == 0 {
            FULL_TURN as int
        } else {
            d % (FULL_TURN as int)
        }
    }

    /// The angle of sample `i` of `n`.
    pub open spec fn angle_at(&self, i: int, n: int) -> int {
        if self.clockwise {
            self.start_angle - self.sweep() * i / n
        } else {
            self.start_angle + self.sweep() * i / n
        }
    }

    pub open spec fn start_spec(&self) -> Point2D {
        self.point_at(self.start_angle as int)
    }

    pub open spec fn end_spec(&self) -> Point2D {
        self.point_at(self.end_angle as int)
    }

    /// `[start, end]` for resolution 0; else `n + 1` evenly spaced angles.
    pub open spec fn points_spec(&self, n: int) -> Seq<Point2D> {
        if n == 0 {
            seq![self.start_spec(), self.end_spec()]
        } else {
            Seq::new((n + 1) as nat, |i: int| self.point_at(self.angle_at(i, n)))
        }
    }

    pub fn new(center: Point2D, radius: i64, start_angle: i64, end_angle: i64, clockwise: bool) -> (r: Self)
        ensures
            r.center == center,
            r.radius == radius,
            r.start_angle == start_angle,
            r.end_angle == end_angle,
            r.clockwise == clockwise,
    {
        CircularArc { center, radius, start_angle, end_angle, clockwise }
    }

    /// A counterclockwise quarter circle in the given quadrant.
    pub fn quarter_circle(center: Point2D, radius: i64, quadrant: CircleQuadrant) -> (r: Self)
        ensures
            r.center == center,
            r.radius == radius,
            !r.clockwise,
            r.end_angle == r.start_angle + QUARTER_TURN,
            r.start_angle == match quadrant {
                CircleQuadrant::TopRight => 0int,
                CircleQuadrant::TopLeft => QUARTER_TURN as int,
                CircleQuadrant::BottomLeft => HALF_TURN as int,
                CircleQuadrant::BottomRight => HALF_TURN + QUARTER_TURN,
            },
    {
        let (start_angle, end_angle) = match quadrant {
            CircleQuadrant::TopRight => (0, QUARTER_TURN),
            CircleQuadrant::TopLeft => (QUARTER_TURN, HALF_TURN),
            CircleQuadrant::BottomLeft => (HALF_TURN, HALF_TURN + QUARTER_TURN),
            CircleQuadrant::BottomRight => (HALF_TURN + QUARTER_TURN, FULL_TURN),
        };
        Self::new(center, radius, start_angle, end_angle, false)
    }

    fn point_of_angle(&self, a: i64) -> (r: Point2D)
        requires
            self.wf(),
            within(a as int, 4 * CURVE_LIMIT),
        ensures
            r == self.point_at(a as int),
            point_within(r, 2 * CURVE_LIMIT),
    {
        let c = cos_angle(a);
        let s = sin_angle(a);
        proof {
            assert(-CURVE_LIMIT * SINE_ONE <= self.radius * c <= CURVE_LIMIT * SINE_ONE) by (nonlinear_arith)
                requires -CURVE_LIMIT <= self.radius <= CURVE_LIMIT, -SINE_ONE <= c <= SINE_ONE;
            assert(-CURVE_LIMIT * SINE_ONE <= self.radius * s <= CURVE_LIMIT * SINE_ONE) by (nonlinear_arith)
                requires -CURVE_LIMIT <= self.radius <= CURVE_LIMIT, -SINE_ONE <= s <= SINE_ONE;
        }
        let px: i128 = (self.radius as i128) * (c as i128);
        let py: i128 = (self.radius as i128) * (s as i128);
        let dx: i128 = px / (SINE_ONE as i128);
        let dy: i128 = py / (SINE_ONE as i128);
        Point2D { x: (self.center.x as i128 + dx) as i64, y: (self.center.y as i128 + dy) as i64 }
    }

    pub fn start_point(&self) -> (r: Point2D)
        requires
            self.wf(),
        ensures
            r == self.start_spec(),
            point_within(r, 2 * CURVE_LIMIT),
    {
        self.point_of_angle(self.start_angle)
    }

    pub fn end_point(&self) -> (r: Point2D)
        requires
            self.wf(),
        ensures
            r == self.end_spec(),
            point_within(r, 2 * CURVE_LIMIT),
    {
        self.point_of_angle(self.end_angle)
    }

    /// The last sample lands on the end angle, up to whole turns.
    pub proof fn lemma_last_sample(&self, n: int)
        requires
            n > 0,
        ensures
            self.point_at(self.angle_at(n, n)) == self.end_spec(),
    {
        let w = self.sweep();
        assert(w * n / n == w) by (nonlinear_arith)
            requires n > 0;
        let a = self.angle_at(n, n);
        let e = self.end_angle as int;
        let t = FULL_TURN as int;
        let d = self.raw_sweep();
        vstd::arithmetic::div_mod::lemma_fundamental_div_mod(d, t);
        let k = if d > 0 {
            0
        } else if d % t == 0 {
            1 - d / t
        } else {
            -(d / t)
        };
        assert(w - d == t * k) by (nonlinear_arith)
            requires
                w == (if d > 0 { d } else if d % t == 0 { t } else { d % t }),
                d == t * (d / t) + d % t,
                k == (if d > 0 { 0 } else if d % t == 0 { 1 - d / t } else { -(d / t) }),
        ;
        let m = if self.clockwise { -k } else { k };
        assert(a == t * m + e) by (nonlinear_arith)
            requires
                a == (if self.clockwise { self.start_angle - w } else { self.start_angle + w }),
                d == (if self.clockwise { self.start_angle - e } else { e - self.start_angle }),
                w - d == t * k,
                m == (if self.clockwise { -k } else { k }),
        ;
        vstd::arithmetic::div_mod::lemma_mod_multiples_vanish(m, e, t);
        vstd::arithmetic::div_mod::lemma_mod_multiples_vanish(m, e + QUARTER_TURN, t);
        assert(a + QUARTER_TURN == t * m + (e + QUARTER_TURN));
        assert(sine(a) == sine(e));
        assert(cosine(a) == cosine(e));
    }

    fn sample_angle(&self, sweep: i64, i: usize, n: usize) -> (r: i64)
        requires
            self.wf(),
            sweep == self.sweep(),
            0 <= sweep <= FULL_TURN + 2 * CURVE_LIMIT,
            i <= n,
            0 < n <= MAX_RESOLUTION,
        ensures
            r == self.angle_at(i as int, n as int),
            within(r as int, 4 * CURVE_LIMIT),
    {
        proof {
            let w = sweep as int;
            let k = i as int;
            let m = n as int;
            assert(0 <= w * k <= w * m) by (nonlinear_arith)
                requires 0 <= w, 0 <= k <= m;
            assert(w * k / m <= w * m / m) by (nonlinear_arith)
                requires w * k <= w * m, 0 < m;
            assert(w * m / m == w) by (nonlinear_arith)
                requires 0 < m;
            assert(0 <= w * k / m) by (nonlinear_arith)
                requires 0 <= w * k, 0 < m;
            assert(w * k <= (FULL_TURN + 2 * CURVE_LIMIT) * MAX_RESOLUTION) by (nonlinear_arith)
                requires 0 <= w <= FULL_TURN + 2 * CURVE_LIMIT, 0 <= k <= MAX_RESOLUTION;
        }
        let step: i128 = (sweep as i128) * (i as i128) / (n as i128);
        if self.clockwise {
            (self.start_angle as i128 - step) as i64
        } else {
            (self.start_angle as i128 + step) as i64
        }
    }

    fn sweep_angle(&self) -> (r: i64)
        requires
            self.wf(),
        ensures
            r == self.sweep(),
            0 < r <= FULL_TURN + 2 * CURVE_LIMIT,
    {
        let d = if self.clockwise {
            self.start_angle - self.end_angle
        } else {
            self.end_angle - self.start_angle
        };
        if d > 0 {
            d
        } else {
            let m = d % FULL_TURN;
            if m == 0 {
                FULL_TURN
            } else if m < 0 {
                m + FULL_TURN
            } else {
                m
            }
        }
    }

    /// Samples the arc: `[start, end]` at resolution 0, else `resolution + 1`
    /// points from the start point to the end point.
    pub fn generate_points(&self, resolution: usize) -> (r: Vec<Point2D>)
        requires
            self.wf(),
            resolution <= MAX_RESOLUTION,
        ensures
            r@ == self.points_spec(resolution as int),
            r@.len() >= 2,
            r@[0] == self.start_spec(),
            r@.last() == self.end_spec(),
            points_within(r@, 2 * CURVE_LIMIT),
    {
        if resolution == 0 {
            let v = vec![self.start_point(), self.end_point()];
            assert(v@ =~= self.points_spec(0));
            return v;
        }
        let n = resolution;
        let sweep = self.sweep_angle();
        let mut points: Vec<Point2D> = Vec::new();
        let mut i: usize = 0;
        while i <= n
            invariant
                self.wf(),
                0 < n <= MAX_RESOLUTION,
                i <= n + 1,
                sweep == self.sweep(),
                0 <= sweep <= FULL_TURN + 2 * CURVE_LIMIT,
                points@.len() == i,
                forall|k: int| 0 <= k < i ==> points@[k] == self.point_at(self.angle_at(k, n as int)),
                points_within(points@, 2 * CURVE_LIMIT),
            decreases n + 1 - i,
        {
            let a = self.sample_angle(sweep, i, n);
            let p = self.point_of_angle(a);
            points.push(p);
            i = i + 1;
        }
        proof {
            lemma_arc_points(*self, n as int);
            assert(points@ =~= self.points_spec(n as int));
        }
        points
    }
}


/// Divisor of a transition's bend: curvature (thousandths) times sine
/// (millionths), times a tenth of the segment length.
pub const BEND_DIV: i64 = 10_000_000_000;

/// A curve from `start` to `end` that bows sideways by a half sine wave.
/// `curvature` is in thousandths; the bulge at the middle is `curvature / 10`
/// times the segment's length.
#[derive(Clone, Copy, Debug)]
pub struct SmoothTransition {
    pub start: Point2D,
    pub end: Point2D,
    pub curvature: i64,
    pub curve_direction: CurveDirection,
}

impl SmoothTransition {
    /// The parameters are small enough to compute with.
    pub open spec fn wf(&self) -> bool {
        &&& point_within(self.start, CURVE_LIMIT as int)
        &&& point_within(self.end, CURVE_LIMIT as int)
        &&& 0 <= self.curvature <= FACTOR_LIMIT
    }

    /// The signed bend at sample `i` of `n`: curvature times the sine of `pi * i / n`.
    pub open spec fn bend(&self, i: int, n: int) -> int {
        self.curvature * direction_sign(self.curve_direction) * sine_frac(i, n)
    }

    /// Sample `i` of `n`: the straight interpolation, pushed along the
    /// perpendicular `(-dy, dx)` of the segment by the bend.
    pub open spec fn point_at(&self, i: int, n: int) -> Point2D {
        let dx = self.end.x - self.start.x;
        let dy = self.end.y - self.start.y;
        Point2D {
            x: (lerp(self.start.x as int, self.end.x as int, i, n) + tdiv(-dy * self.bend(i, n), BEND_DIV as int)) as i64,
            y: (lerp(self.start.y as int, self.end.y as int, i, n) + tdiv(dx * self.bend(i, n), BEND_DIV as int)) as i64,
        }
    }

    pub open spec fn start_spec(&self) -> Point2D {
        self.start
    }

    pub open spec fn end_spec(&self) -> Point2D {
        self.end
    }

    /// `[start, end]` for resolution 0; else `n + 1` samples.
    pub open spec fn points_spec(&self, n: int) -> Seq<Point2D> {
        if n == 0 {
            seq![self.start, self.end]
        } else {
            Seq::new((n + 1) as nat, |i: int| self.point_at(i, n))
        }
    }

    /// A transition; a negative curvature counts as zero.
    pub fn new(start: Point2D, end: Point2D, curvature: i64, curve_direction: CurveDirection) -> (r: Self)
        ensures
            r.start == start,
            r.end == end,
            r.curvature == (if curvature < 0 { 0 } else { curvature }),
            r.curve_direction == curve_direction,
    {
        SmoothTransition {
            start,
            end,
            curvature: if curvature < 0 { 0 } else { curvature },
            curve_direction,
        }
    }

    /// The straight segment from `start` to `end`.
    pub fn straight_line(start: Point2D, end: Point2D) -> (r: Self)
        ensures
            r.start == start,
            r.end == end,
            r.curvature == 0,
            r.curve_direction == CurveDirection::Straight,
    {
        Self::new(start, end, 0, CurveDirection::Straight)
    }

    pub fn start_point(&self) -> (r: Point2D)
        ensures
            r == self.start_spec(),
    {
        self.start
    }

    pub fn end_point(&self) -> (r: Point2D)
        ensures
            r == self.end_spec(),
    {
        self.end
    }

    fn sample(&self, i: usize, n: usize) -> (r: Point2D)
        requires
            self.wf(),
            i <= n,
            0 < n <= MAX_RESOLUTION,
        ensures
            r == self.point_at(i as int, n as int),
            point_within(r, COORD_LIMIT as int),
    {
        let bx = lerp_coord(self.start.x, self.end.x, i, n);
        let by = lerp_coord(self.start.y, self.end.y, i, n);
        proof {
            lemma_lerp(self.start.x as int, self.end.x as int, i as int, n as int);
            lemma_lerp(self.start.y as int, self.end.y as int, i as int, n as int);
        }
        let s = sine_fraction(i as u64, n as u64);
        let sign: i128 = match self.curve_direction {
            CurveDirection::Straight => 0,
            CurveDirection::Inward => -1,
            CurveDirection::Outward => 1,
        };
        proof {
            assert(0 <= self.curvature * s <= FACTOR_LIMIT * SINE_ONE) by (nonlinear_arith)
                requires 0 <= self.curvature <= FACTOR_LIMIT, 0 <= s <= SINE_ONE;
        }
        let mag: i128 = (self.curvature as i128) * (s as i128);
        let bend: i128 = mag * sign;
        let dx: i128 = self.end.x as i128 - self.start.x as i128;
        let dy: i128 = self.end.y as i128 - self.start.y as i128;
        proof {
            let c = self.curvature as int;
            let sn = s as int;
            assert(-FACTOR_LIMIT * SINE_ONE <= bend <= FACTOR_LIMIT * SINE_ONE) by (nonlinear_arith)
                requires
                    0 <= c <= FACTOR_LIMIT,
                    0 <= sn <= SINE_ONE,
                    -1 <= sign <= 1,
                    mag == c * sn,
                    bend == mag * sign,
            ;
            assert(c * sign * sn == mag * sign) by (nonlinear_arith)
                requires mag == c * sn;
            assert(bend == self.bend(i as int, n as int));
            let lim = 2 * CURVE_LIMIT * (FACTOR_LIMIT * SINE_ONE);
            assert(-lim <= -dy * bend <= lim) by (nonlinear_arith)
                requires
                    -2 * CURVE_LIMIT <= dy <= 2 * CURVE_LIMIT,
                    -FACTOR_LIMIT * SINE_ONE <= bend <= FACTOR_LIMIT * SINE_ONE,
                    lim == 2 * CURVE_LIMIT * (FACTOR_LIMIT * SINE_ONE),
            ;
            assert(-lim <= dx * bend <= lim) by (nonlinear_arith)
                requires
                    -2 * CURVE_LIMIT <= dx <= 2 * CURVE_LIMIT,
                    -FACTOR_LIMIT * SINE_ONE <= bend <= FACTOR_LIMIT * SINE_ONE,
                    lim == 2 * CURVE_LIMIT * (FACTOR_LIMIT * SINE_ONE),
            ;
        }
        let ox: i128 = (-dy * bend) / (BEND_DIV as i128);
        let oy: i128 = (dx * bend) / (BEND_DIV as i128);
        Point2D { x: (bx as i128 + ox) as i64, y: (by as i128 + oy) as i64 }
    }

    /// Samples the transition: `[start, end]` at resolution 0, else
    /// `resolution + 1` points from `start` to `end`.
    pub fn generate_points(&self, resolution: usize) -> (r: Vec<Point2D>)
        requires
            self.wf(),
            resolution <= MAX_RESOLUTION,
        ensures
            r@ == self.points_spec(resolution as int),
            r@.len() >= 2,
            r@[0] == self.start_spec(),
            r@.last() == self.end_spec(),
            points_within(r@, COORD_LIMIT as int),
    {
        if resolution == 0 {
            let v = vec![self.start, self.end];
            assert(v@ =~= self.points_spec(0));
            return v;
        }
        let n = resolution;
        let mut points: Vec<Point2D> = Vec::new();
        let mut i: usize = 0;
        while i <= n
            invariant
                self.wf(),
                0 < n <= MAX_RESOLUTION,
                i <= n + 1,
                points@.len() == i,
                forall|k: int| 0 <= k < i ==> points@[k] == self.point_at(k, n as int),
                points_within(points@, COORD_LIMIT as int),
            decreases n + 1 - i,
        {
            let p = self.sample(i, n);
            points.push(p);
            i = i + 1;
        }
        proof {
            lemma_transition_points(*self, n as int);
            assert(points@ =~= self.points_spec(n as int));
        }
        points
    }
}


/// Appends `src[from..]` to `dst`.
pub fn append_from(dst: &mut Vec<Point2D>, src: &Vec<Point2D>, from: usize)
    requires
        from <= src@.len(),
    ensures
        final(dst)@ == old(dst)@ + src@.subrange(from as int, src@.len() as int),
{
    let mut j = from;
    while j < src.len()
        invariant
            from <= j <= src@.len(),
            dst@ == old(dst)@ + src@.subrange(from as int, j as int),
        decreases src@.len() - j,
    {
        dst.push(src[j]);
        j = j + 1;
        assert(dst@ =~= old(dst)@ + src@.subrange(from as int, j as int));
    }
}

/// One piece of a composite curve.
#[derive(Clone, Copy, Debug)]
pub enum CurveSegment {
    Arc(CircularArc),
    Transition(SmoothTransition),
}

impl CurveSegment {
    pub open spec fn wf(&self) -> bool {
        match self {
            CurveSegment::Arc(a) => a.wf(),
            CurveSegment::Transition(t) => t.wf(),
        }
    }

    pub open spec fn points_spec(&self, n: int) -> Seq<Point2D> {
        match self {
            CurveSegment::Arc(a) => a.points_spec(n),
            CurveSegment::Transition(t) => t.points_spec(n),
        }
    }

    pub open spec fn start_spec(&self) -> Point2D {
        match self {
            CurveSegment::Arc(a) => a.start_spec(),
            CurveSegment::Transition(t) => t.start_spec(),
        }
    }

    pub open spec fn end_spec(&self) -> Point2D {
        match self {
            CurveSegment::Arc(a) => a.end_spec(),
            CurveSegment::Transition(t) => t.end_spec(),
        }
    }

    pub fn generate_points(&self, resolution: usize) -> (r: Vec<Point2D>)
        requires
            self.wf(),
            resolution <= MAX_RESOLUTION,
        ensures
            r@ == self.points_spec(resolution as int),
            r@.len() >= 2,
            r@[0] == self.start_spec(),
            r@.last() == self.end_spec(),
            points_within(r@, COORD_LIMIT as int),
    {
        match self {
            CurveSegment::Arc(a) => a.generate_points(resolution),
            CurveSegment::Transition(t) => t.generate_points(resolution),
        }
    }

    pub fn start_point(&self) -> (r: Point2D)
        requires
            self.wf(),
        ensures
            r == self.start_spec(),
    {
        match self {
            CurveSegment::Arc(a) => a.start_point(),
            CurveSegment::Transition(t) => t.start_point(),
        }
    }

    pub fn end_point(&self) -> (r: Point2D)
        requires
            self.wf(),
        ensures
            r == self.end_spec(),
    {
        match self {
            CurveSegment::Arc(a) => a.end_point(),
            CurveSegment::Transition(t) => t.end_point(),
        }
    }
}

/// The samples of `segs` chained, each at resolution `n`, where every
/// segment after the first drops its first point (shared with the
/// previous segment's last).
pub open spec fn chain(segs: Seq<CurveSegment>, n: int) -> Seq<Point2D>
    decreases segs.len(),
{
    if segs.len() == 0 {
        seq![]
    } else if segs.len() == 1 {
        segs[0].points_spec(n)
    } else {
        let p = segs.last().points_spec(n);
        chain(segs.drop_last(), n) + p.subrange(1, p.len() as int)
    }
}

/// Segments chained end to end.
#[derive(Debug)]
pub struct CompositeCurve {
    pub segments: Vec<CurveSegment>,
}

impl CompositeCurve {
    pub open spec fn wf(&self) -> bool {
        forall|i: int| 0 <= i < self.segments@.len() ==> (#[trigger] self.segments@[i]).wf()
    }

    /// The resolution is split evenly over the segments, the remainder dropped.
    pub open spec fn points_spec(&self, resolution: int) -> Seq<Point2D> {
        if self.segments@.len() == 0 {
            seq![]
        } else {
            chain(self.segments@, resolution / (self.segments@.len() as int))
        }
    }

    /// The first segment's start, or the origin when there is none.
    pub open spec fn start_spec(&self) -> Point2D {
        if self.segments@.len() == 0 {
            Point2D { x: 0, y: 0 }
        } else {
            self.segments@[0].start_spec()
        }
    }

    /// The last segment's end, or the origin when there is none.
    pub open spec fn end_spec(&self) -> Point2D {
        if self.segments@.len() == 0 {
            Point2D { x: 0, y: 0 }
        } else {
            self.segments@.last().end_spec()
        }
    }

    pub fn new() -> (r: Self)
        ensures
            r.segments@ == Seq::<CurveSegment>::empty(),
    {
        CompositeCurve { segments: Vec::new() }
    }

    pub fn add_segment(self, segment: CurveSegment) -> (r: Self)
        ensures
            r.segments@ == self.segments@.push(segment),
    {
        let mut c = self;
        c.segments.push(segment);
        c
    }

    pub fn add_arc(self, arc: CircularArc) -> (r: Self)
        ensures
            r.segments@ == self.segments@.push(CurveSegment::Arc(arc)),
    {
        self.add_segment(CurveSegment::Arc(arc))
    }

    pub fn add_transition(self, transition: SmoothTransition) -> (r: Self)
        ensures
            r.segments@ == self.segments@.push(CurveSegment::Transition(transition)),
    {
        self.add_segment(CurveSegment::Transition(transition))
    }

    pub fn start_point(&self) -> (r: Point2D)
        requires
            self.wf(),
        ensures
            r == self.start_spec(),
    {
        if self.segments.len() == 0 {
            Point2D { x: 0, y: 0 }
        } else {
            self.segments[0].start_point()
        }
    }

    pub fn end_point(&self) -> (r: Point2D)
        requires
            self.wf(),
        ensures
            r == self.end_spec(),
    {
        let n = self.segments.len();
        if n == 0 {
            Point2D { x: 0, y: 0 }
        } else {
            self.segments[n - 1].end_point()
        }
    }

    /// A chain of valid segments starts at the first start and ends at the last end.
    proof fn lemma_chain_ends(segs: Seq<CurveSegment>, n: int)
        requires
            segs.len() > 0,
            forall|i: int| 0 <= i < segs.len() ==> (#[trigger] segs[i]).wf(),
            0 <= n <= MAX_RESOLUTION,
        ensures
            chain(segs, n).len() >= 2,
            chain(segs, n)[0] == segs[0].start_spec(),
            chain(segs, n).last() == segs.last().end_spec(),
        decreases segs.len(),
    {
        lemma_segment_points(segs.last(), n);
        if segs.len() > 1 {
            let s = segs.drop_last();
            assert forall|i: int| 0 <= i < s.len() implies (#[trigger] s[i]).wf() by {
                assert(s[i] == segs[i]);
            }
            Self::lemma_chain_ends(s, n);
        } else {
            lemma_segment_points(segs[0], n);
        }
    }

    /// Samples every segment at `resolution / segments` and chains them,
    /// dropping each shared point once.
    pub fn generate_points(&self, resolution: usize) -> (r: Vec<Point2D>)
        requires
            self.wf(),
            resolution <= MAX_RESOLUTION,
        ensures
            r@ == self.points_spec(resolution as int),
            self.segments@.len() > 0 ==> r@.len() >= 2 && r@[0] == self.start_spec()
                && r@.last() == self.end_spec(),
            points_within(r@, COORD_LIMIT as int),
    {
        let count = self.segments.len();
        if count == 0 {
            return Vec::new();
        }
        let per = resolution / count;
        let mut all: Vec<Point2D> = Vec::new();
        let mut idx: usize = 0;
        while idx < count
            invariant
                self.wf(),
                count == self.segments@.len(),
                0 < count,
                idx <= count,
                per <= MAX_RESOLUTION,
                all@ == chain(self.segments@.take(idx as int), per as int),
                points_within(all@, COORD_LIMIT as int),
            decreases count - idx,
        {
            let pts = self.segments[idx].generate_points(per);
            let from: usize = if idx > 0 { 1 } else { 0 };
            let ghost before = all@;
            append_from(&mut all, &pts, from);
            proof {
                let t = self.segments@.take(idx as int + 1);
                assert(t.drop_last() =~= self.segments@.take(idx as int));
                assert(t.last() == self.segments@[idx as int]);
                if idx == 0 {
                    assert(pts@.subrange(0, pts@.len() as int) =~= pts@);
                }
                assert(all@ == chain(t, per as int));
                assert forall|k: int| 0 <= k < all@.len() implies point_within(#[trigger] all@[k], COORD_LIMIT as int) by {
                    if k >= before.len() {
                        assert(all@[k] == pts@[k - before.len() + from]);
                    } else {
                        assert(all@[k] == before[k]);
                    }
                }
            }
            idx = idx + 1;
        }
        proof {
            assert(self.segments@.take(count as int) =~= self.segments@);
            Self::lemma_chain_ends(self.segments@, per as int);
        }
        all
    }
}

impl Default for CompositeCurve {
    fn default() -> (r: Self)
        ensures
            r.segments@ == Seq::<CurveSegment>::empty(),
    {
        Self::new()
    }
}

/// The samples of a valid segment run from its start to its end.
pub proof fn lemma_segment_points(s: CurveSegment, n: int)
    requires
        s.wf(),
        0 <= n <= MAX_RESOLUTION,
    ensures
        s.points_spec(n).len() >= 2,
        s.points_spec(n)[0] == s.start_spec(),
        s.points_spec(n).last() == s.end_spec(),
{
    match s {
        CurveSegment::Arc(a) => lemma_arc_points(a, n),
        CurveSegment::Transition(t) => lemma_transition_points(t, n),
    }
}


/// An arc sampled at resolution 0 is exactly `[start, end]`; at any other
/// resolution its samples begin at the start point and end at the end point.
pub proof fn lemma_arc_points(a: CircularArc, n: int)
    requires
        0 <= n,
    ensures
        a.points_spec(0) == seq![a.start_spec(), a.end_spec()],
        a.points_spec(n).len() >= 2,
        a.points_spec(n)[0] == a.start_spec(),
        a.points_spec(n).last() == a.end_spec(),
{
    if n > 0 {
        a.lemma_last_sample(n);
        assert(a.sweep() * 0 / n == 0);
        assert(a.angle_at(0, n) == a.start_angle);
    }
}

/// A transition sampled at resolution 0 is exactly `[start, end]`; at any
/// other resolution its samples begin at `start` and end at `end`.
pub proof fn lemma_transition_points(t: SmoothTransition, n: int)
    requires
        0 <= n,
    ensures
        t.points_spec(0) == seq![t.start_spec(), t.end_spec()],
        t.points_spec(n).len() >= 2,
        t.points_spec(n)[0] == t.start_spec(),
        t.points_spec(n).last() == t.end_spec(),
{
    if n > 0 {
        let m = n;
        lemma_lerp(t.start.x as int, t.end.x as int, 0, m);
        lemma_lerp(t.start.y as int, t.end.y as int, 0, m);
        lemma_lerp(t.start.x as int, t.end.x as int, m, m);
        lemma_lerp(t.start.y as int, t.end.y as int, m, m);
        assert(sine_frac(0, m) == 0) by (nonlinear_arith)
            requires m > 0;
        assert(sine_frac(m, m) == 0) by (nonlinear_arith)
            requires m > 0;
        assert(t.bend(0, m) == 0);
        assert(t.bend(m, m) == 0);
    }
}


/// A curve that can be sampled into points.
pub trait CurveGenerator {
    /// The curve's parameters are small enough to compute with.
    spec fn valid(&self) -> bool;

    /// The samples at a resolution.
    spec fn points_of(&self, resolution: int) -> Seq<Point2D>;

    spec fn start_of(&self) -> Point2D;

    spec fn end_of(&self) -> Point2D;

    /// Samples the curve.
    fn generate_points(&self, resolution: usize) -> (r: Vec<Point2D>)
        requires
            self.valid(),
            resolution <= MAX_RESOLUTION,
        ensures
            r@ == self.points_of(resolution as int),
    ;

    /// The first point of the curve, whatever the resolution.
    fn start_point(&self) -> (r: Point2D)
        requires
            self.valid(),
        ensures
            r == self.start_of(),
    ;

    /// The last point of the curve, whatever the resolution.
    fn end_point(&self) -> (r: Point2D)
        requires
            self.valid(),
        ensures
            r == self.end_of(),
    ;
}

impl CurveGenerator for CircularArc {
    open spec fn valid(&self) -> bool {
        self.wf()
    }

    open spec fn points_of(&self, resolution: int) -> Seq<Point2D> {
        self.points_spec(resolution)
    }

    open spec fn start_of(&self) -> Point2D {
        self.start_spec()
    }

    open spec fn end_of(&self) -> Point2D {
        self.end_spec()
    }

    fn generate_points(&self, resolution: usize) -> (r: Vec<Point2D>) {
        CircularArc::generate_points(self, resolution)
    }

    fn start_point(&self) -> (r: Point2D) {
        CircularArc::start_point(self)
    }

    fn end_point(&self) -> (r: Point2D) {
        CircularArc::end_point(self)
    }
}

impl CurveGenerator for SmoothTransition {
    open spec fn valid(&self) -> bool {
        self.wf()
    }

    open spec fn points_of(&self, resolution: int) -> Seq<Point2D> {
        self.points_spec(resolution)
    }

    open spec fn start_of(&self) -> Point2D {
        self.start_spec()
    }

    open spec fn end_of(&self) -> Point2D {
        self.end_spec()
    }

    fn generate_points(&self, resolution: usize) -> (r: Vec<Point2D>) {
        SmoothTransition::generate_points(self, resolution)
    }

    fn start_point(&self) -> (r: Point2D) {
        SmoothTransition::start_point(self)
    }

    fn end_point(&self) -> (r: Point2D) {
        SmoothTransition::end_point(self)
    }
}

impl CurveGenerator for CompositeCurve {
    open spec fn valid(&self) -> bool {
        self.wf()
    }

    open spec fn points_of(&self, resolution: int) -> Seq<Point2D> {
        self.points_spec(resolution)
    }

    open spec fn start_of(&self) -> Point2D {
        self.start_spec()
    }

    open spec fn end_of(&self) -> Point2D {
        self.end_spec()
    }

    fn generate_points(&self, resolution: usize) -> (r: Vec<Point2D>) {
        CompositeCurve::generate_points(self, resolution)
    }

    fn start_point(&self) -> (r: Point2D) {
        CompositeCurve::start_point(self)
    }

    fn end_point(&self) -> (r: Point2D) {
        CompositeCurve::end_point(self)
    }
}

} // verus!
