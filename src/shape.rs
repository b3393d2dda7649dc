//! Bulb and neck styles, and the builder of the hourglass's outline.

use vstd::prelude::*;
use crate::curves::{
    append_from, point_within, points_within, CurveDirection, Point2D,
    SmoothTransition,
};
use crate::fixed::{
    tdiv, within, COORD_LIMIT, CURVE_LIMIT, FACTOR_LIMIT, MAX_RESOLUTION, PARAM_LIMIT, SCALE,
};

verus! {

/// Narrowest neck: three units.
pub const MIN_NECK_WIDTH: i64 = 3000;

/// Least gap kept between the two inset sand walls in the neck: two units.
pub const MIN_NECK_GAP: i64 = 2000;

/// Resolution used for straight pieces, which need no tessellation.
pub const STRAIGHT_RESOLUTION: usize = 2;

/// The shape of the two bulbs. `width_factor` and `curvature` are in thousandths.
#[derive(Clone, Copy, Debug)]
pub enum BulbStyle {
    /// Bulbs that bow outward.
    Circular { curvature: i64, width_factor: i64, curve_resolution: usize },
    /// Straight-sided, triangular bulbs.
    Straight { width_factor: i64 },
}

impl BulbStyle {
    pub open spec fn wf(&self) -> bool {
        match self {
            BulbStyle::Circular { curvature, width_factor, curve_resolution } => {
                &&& *curvature <= FACTOR_LIMIT
                &&& within(*width_factor as int, FACTOR_LIMIT as int)
                &&& *curve_resolution <= MAX_RESOLUTION
            },
            BulbStyle::Straight { width_factor } => within(*width_factor as int, FACTOR_LIMIT as int),
        }
    }

    pub open spec fn width_factor_spec(&self) -> int {
        match self {
            BulbStyle::Circular { width_factor, .. } => *width_factor as int,
            BulbStyle::Straight { width_factor } => *width_factor as int,
        }
    }

    pub open spec fn curve_resolution_spec(&self) -> int {
        match self {
            BulbStyle::Circular { curve_resolution, .. } => *curve_resolution as int,
            BulbStyle::Straight { .. } => STRAIGHT_RESOLUTION as int,
        }
    }

    /// Bulb width over bulb height, in thousandths.
    pub fn width_factor(&self) -> (r: i64)
        ensures
            r == self.width_factor_spec(),
    {
        match self {
            BulbStyle::Circular { width_factor, .. } => *width_factor,
            BulbStyle::Straight { width_factor } => *width_factor,
        }
    }

    /// Samples per bulb side.
    pub fn curve_resolution(&self) -> (r: usize)
        ensures
            r == self.curve_resolution_spec(),
    {
        match self {
            BulbStyle::Circular { curve_resolution, .. } => *curve_resolution,
            BulbStyle::Straight { .. } => STRAIGHT_RESOLUTION,
        }
    }
}

impl Default for BulbStyle {
    /// Circular, curvature 1.0, width factor 0.75, resolution 20.
    fn default() -> (r: Self)
        ensures
            r == (BulbStyle::Circular { curvature: 1000, width_factor: 750, curve_resolution: 20 }),
    {
        BulbStyle::Circular { curvature: 1000, width_factor: 750, curve_resolution: 20 }
    }
}

/// The shape of the neck. Lengths are in thousandths of a unit.
#[derive(Clone, Copy, Debug)]
pub enum NeckStyle {
    /// Straight neck walls.
    Straight { width: i64, height: i64 },
    /// Neck walls that pinch inward.
    Curved { curvature: i64, width: i64, height: i64, curve_resolution: usize },
}

impl NeckStyle {
    pub open spec fn wf(&self) -> bool {
        match self {
            NeckStyle::Straight { width, height } => {
                &&& within(*width as int, PARAM_LIMIT as int)
                &&& within(*height as int, PARAM_LIMIT as int)
            },
            NeckStyle::Curved { curvature, width, height, curve_resolution } => {
                &&& *curvature <= FACTOR_LIMIT
                &&& within(*width as int, PARAM_LIMIT as int)
                &&& within(*height as int, PARAM_LIMIT as int)
                &&& *curve_resolution <= MAX_RESOLUTION
            },
        }
    }

    /// The configured width, floored at `MIN_NECK_WIDTH`.
    pub open spec fn width_spec(&self) -> int {
        let w = match self {
            NeckStyle::Straight { width, .. } => *width as int,
            NeckStyle::Curved { width, .. } => *width as int,
        };
        if w < MIN_NECK_WIDTH {
            MIN_NECK_WIDTH as int
        } else {
            w
        }
    }

    /// The width, widened to `2 * wall_offset + MIN_NECK_GAP` where that is more.
    pub open spec fn width_with_wall_offset_spec(&self, wall_offset: int) -> int {
        let m = 2 * wall_offset + MIN_NECK_GAP;
        if self.width_spec() < m {
            m
        } else {
            self.width_spec()
        }
    }

    pub open spec fn height_spec(&self) -> int {
        match self {
            NeckStyle::Straight { height, .. } => *height as int,
            NeckStyle::Curved { height, .. } => *height as int,
        }
    }

    pub open spec fn curve_resolution_spec(&self) -> int {
        match self {
            NeckStyle::Straight { .. } => STRAIGHT_RESOLUTION as int,
            NeckStyle::Curved { curve_resolution, .. } => *curve_resolution as int,
        }
    }

    pub fn width(&self) -> (r: i64)
        ensures
            r == self.width_spec(),
    {
        let w = match self {
            NeckStyle::Straight { width, .. } => *width,
            NeckStyle::Curved { width, .. } => *width,
        };
        if w < MIN_NECK_WIDTH {
            MIN_NECK_WIDTH
        } else {
            w
        }
    }

    pub fn width_with_wall_offset(&self, wall_offset: i64) -> (r: i64)
        requires
            within(wall_offset as int, PARAM_LIMIT as int),
        ensures
            r == self.width_with_wall_offset_spec(wall_offset as int),
    {
        let m = 2 * wall_offset + MIN_NECK_GAP;
        let w = self.width();
        if w < m {
            m
        } else {
            w
        }
    }

    pub fn height(&self) -> (r: i64)
        ensures
            r == self.height_spec(),
    {
        match self {
            NeckStyle::Straight { height, .. } => *height,
            NeckStyle::Curved { height, .. } => *height,
        }
    }

    pub fn curve_resolution(&self) -> (r: usize)
        ensures
            r == self.curve_resolution_spec(),
    {
        match self {
            NeckStyle::Straight { .. } => STRAIGHT_RESOLUTION,
            NeckStyle::Curved { curve_resolution, .. } => *curve_resolution,
        }
    }
}

impl Default for NeckStyle {
    /// Curved, curvature 0.2, width 12, height 8, resolution 5.
    fn default() -> (r: Self)
        ensures
            r == (NeckStyle::Curved { curvature: 200, width: 12000, height: 8000, curve_resolution: 5 }),
    {
        NeckStyle::Curved { curvature: 200, width: 12000, height: 8000, curve_resolution: 5 }
    }
}

/// `s` without its first point.
pub open spec fn tail(s: Seq<Point2D>) -> Seq<Point2D> {
    s.subrange(1, s.len() as int)
}

/// Appends the samples of `c` at resolution `res`, from index `from` on.
fn append_curve(outline: &mut Vec<Point2D>, c: &SmoothTransition, res: usize, from: usize)
    requires
        c.wf(),
        res <= MAX_RESOLUTION,
        from <= 1,
        points_within(old(outline)@, COORD_LIMIT as int),
    ensures
        final(outline)@ == old(outline)@ + c.points_spec(res as int).subrange(
            from as int,
            c.points_spec(res as int).len() as int,
        ),
        points_within(final(outline)@, COORD_LIMIT as int),
{
    let pts = c.generate_points(res);
    let ghost before = outline@;
    append_from(outline, &pts, from);
    proof {
        assert forall|k: int| 0 <= k < outline@.len() implies point_within(#[trigger] outline@[k], COORD_LIMIT as int) by {
            if k >= before.len() {
                assert(outline@[k] == pts@[k - before.len() + from]);
            } else {
                assert(outline@[k] == before[k]);
            }
        }
    }
}

/// Builds the closed outline of the glass body.
#[derive(Clone, Copy, Debug)]
pub struct HourglassShapeBuilder {
    pub total_height: i64,
    pub bulb_style: BulbStyle,
    pub neck_style: NeckStyle,
}

impl HourglassShapeBuilder {
    pub open spec fn wf(&self) -> bool {
        &&& within(self.total_height as int, PARAM_LIMIT as int)
        &&& self.bulb_style.wf()
        &&& self.neck_style.wf()
    }

    pub open spec fn half_height(&self) -> int {
        tdiv(self.total_height as int, 2)
    }

    /// Half the neck width; with a positive wall offset, widened so the inset
    /// walls keep their gap.
    pub open spec fn neck_half_width(&self, wall_offset: int) -> int {
        let w = if wall_offset > 0 {
            self.neck_style.width_with_wall_offset_spec(wall_offset)
        } else {
            self.neck_style.width_spec()
        };
        tdiv(w, 2)
    }

    pub open spec fn neck_half_height(&self) -> int {
        tdiv(self.neck_style.height_spec(), 2)
    }

    /// `(total_height - neck_height) / 2`.
    pub open spec fn bulb_height(&self) -> int {
        tdiv(self.total_height - self.neck_style.height_spec(), 2)
    }

    /// `bulb_height * width_factor`.
    pub open spec fn bulb_width(&self) -> int {
        tdiv(self.bulb_height() * self.bulb_style.width_factor_spec(), SCALE as int)
    }

    /// A bulb side: bowed outward for circular bulbs, straight otherwise.
    pub open spec fn bulb_curve(&self, start: Point2D, end: Point2D) -> SmoothTransition {
        match self.bulb_style {
            BulbStyle::Circular { curvature, .. } => SmoothTransition {
                start,
                end,
                curvature: if curvature < 0 { 0 } else { curvature },
                curve_direction: CurveDirection::Outward,
            },
            BulbStyle::Straight { .. } => SmoothTransition {
                start,
                end,
                curvature: 0,
                curve_direction: CurveDirection::Straight,
            },
        }
    }

    /// A neck wall: straight, or pinched inward for a curved neck.
    pub open spec fn neck_curve(&self, start: Point2D, end: Point2D) -> SmoothTransition {
        match self.neck_style {
            NeckStyle::Straight { .. } => SmoothTransition {
                start,
                end,
                curvature: 0,
                curve_direction: CurveDirection::Straight,
            },
            NeckStyle::Curved { curvature, .. } => SmoothTransition {
                start,
                end,
                curvature: if curvature < 0 { 0 } else { curvature },
                curve_direction: CurveDirection::Inward,
            },
        }
    }

    /// The outline, counterclockwise from the bottom left: left bottom bulb
    /// side, left neck wall, left top bulb side, the top right corner, right
    /// top bulb side, right neck wall, right bottom bulb side; each piece after
    /// the first drops the point it shares with the previous one.
    pub open spec fn outline_spec(&self, wall_offset: int) -> Seq<Point2D> {
        let hh = self.half_height();
        let nw = self.neck_half_width(wall_offset);
        let nh = self.neck_half_height();
        let bw = self.bulb_width();
        let br = self.bulb_style.curve_resolution_spec();
        let nr = self.neck_style.curve_resolution_spec();
        let p = |x: int, y: int| Point2D { x: x as i64, y: y as i64 };
        self.bulb_curve(p(-bw, -hh), p(-nw, -nh)).points_spec(br)
            + tail(self.neck_curve(p(-nw, -nh), p(-nw, nh)).points_spec(nr))
            + tail(self.bulb_curve(p(-nw, nh), p(-bw, hh)).points_spec(br))
            + seq![p(bw, hh)]
            + tail(self.bulb_curve(p(bw, hh), p(nw, nh)).points_spec(br))
            + tail(self.neck_curve(p(nw, nh), p(nw, -nh)).points_spec(nr))
            + tail(self.bulb_curve(p(nw, -nh), p(bw, -hh)).points_spec(br))
    }

    /// Whether the parameters are small enough to build an outline from.
    pub fn is_valid(&self) -> (r: bool)
        ensures
            r == self.wf(),
    {
        let height_ok = -PARAM_LIMIT <= self.total_height && self.total_height <= PARAM_LIMIT;
        let bulb_ok = match self.bulb_style {
            BulbStyle::Circular { curvature, width_factor, curve_resolution } => {
                curvature <= FACTOR_LIMIT && -FACTOR_LIMIT <= width_factor && width_factor <= FACTOR_LIMIT
                    && curve_resolution <= MAX_RESOLUTION
            },
            BulbStyle::Straight { width_factor } => -FACTOR_LIMIT <= width_factor && width_factor <= FACTOR_LIMIT,
        };
        let neck_ok = match self.neck_style {
            NeckStyle::Straight { width, height } => {
                -PARAM_LIMIT <= width && width <= PARAM_LIMIT && -PARAM_LIMIT <= height && height <= PARAM_LIMIT
            },
            NeckStyle::Curved { curvature, width, height, curve_resolution } => {
                curvature <= FACTOR_LIMIT && -PARAM_LIMIT <= width && width <= PARAM_LIMIT && -PARAM_LIMIT
                    <= height && height <= PARAM_LIMIT && curve_resolution <= MAX_RESOLUTION
            },
        };
        height_ok && bulb_ok && neck_ok
    }

    /// Total height 200 units, default bulb and neck styles.
    pub fn new() -> (r: Self)
        ensures
            r.total_height == 200_000,
            r.bulb_style == (BulbStyle::Circular { curvature: 1000, width_factor: 750, curve_resolution: 20 }),
            r.neck_style == (NeckStyle::Curved { curvature: 200, width: 12000, height: 8000, curve_resolution: 5 }),
    {
        HourglassShapeBuilder {
            total_height: 200_000,
            bulb_style: BulbStyle::default(),
            neck_style: NeckStyle::default(),
        }
    }

    pub fn with_bulb_style(self, style: BulbStyle) -> (r: Self)
        ensures
            r == (HourglassShapeBuilder { bulb_style: style, ..self }),
    {
        HourglassShapeBuilder { bulb_style: style, ..self }
    }

    pub fn with_neck_style(self, style: NeckStyle) -> (r: Self)
        ensures
            r == (HourglassShapeBuilder { neck_style: style, ..self }),
    {
        HourglassShapeBuilder { neck_style: style, ..self }
    }

    fn create_bulb_curve(&self, start: Point2D, end: Point2D) -> (r: SmoothTransition)
        ensures
            r == self.bulb_curve(start, end),
    {
        match self.bulb_style {
            BulbStyle::Circular { curvature, .. } => SmoothTransition::new(
                start,
                end,
                curvature,
                CurveDirection::Outward,
            ),
            BulbStyle::Straight { .. } => SmoothTransition::straight_line(start, end),
        }
    }

    fn create_neck_curve(&self, start: Point2D, end: Point2D) -> (r: SmoothTransition)
        ensures
            r == self.neck_curve(start, end),
    {
        match self.neck_style {
            NeckStyle::Straight { .. } => SmoothTransition::straight_line(start, end),
            NeckStyle::Curved { curvature, .. } => SmoothTransition::new(
                start,
                end,
                curvature,
                CurveDirection::Inward,
            ),
        }
    }

    /// The outline of the glass body.
    pub fn generate_outline(&self) -> (r: Vec<Point2D>)
        requires
            self.wf(),
        ensures
            r@ == self.outline_spec(0),
            points_within(r@, COORD_LIMIT as int),
    {
        self.generate_outline_with_wall_offset(0)
    }

    /// The outline, with the neck widened where `wall_offset` needs it.
    #[verifier::rlimit(40)]
    pub fn generate_outline_with_wall_offset(&self, wall_offset: i64) -> (r: Vec<Point2D>)
        requires
            self.wf(),
            within(wall_offset as int, PARAM_LIMIT as int),
        ensures
            r@ == self.outline_spec(wall_offset as int),
            points_within(r@, COORD_LIMIT as int),
    {
        let half_height = self.total_height / 2;
        let neck_width = if wall_offset > 0 {
            self.neck_style.width_with_wall_offset(wall_offset)
        } else {
            self.neck_style.width()
        };
        let nw = neck_width / 2;
        let nh = self.neck_style.height() / 2;
        let bulb_height = (self.total_height - self.neck_style.height()) / 2;
        proof {
            let f = self.bulb_style.width_factor_spec();
            assert(-PARAM_LIMIT * FACTOR_LIMIT <= bulb_height * f <= PARAM_LIMIT * FACTOR_LIMIT) by (nonlinear_arith)
                requires
                    -PARAM_LIMIT <= bulb_height <= PARAM_LIMIT,
                    -FACTOR_LIMIT <= f <= FACTOR_LIMIT,
            ;
        }
        let bw = ((bulb_height as i128) * (self.bulb_style.width_factor() as i128) / (SCALE as i128)) as i64;
        let br = self.bulb_style.curve_resolution();
        let nr = self.neck_style.curve_resolution();
        assert(bw == self.bulb_width());
        assert(nw == self.neck_half_width(wall_offset as int));

        let hh = half_height;
        proof {
            assert(within(bw as int, CURVE_LIMIT as int));
        }
        let mut outline: Vec<Point2D> = Vec::new();
        let c1 = self.create_bulb_curve(Point2D { x: -bw, y: -hh }, Point2D { x: -nw, y: -nh });
        append_curve(&mut outline, &c1, br, 0);
        let c2 = self.create_neck_curve(Point2D { x: -nw, y: -nh }, Point2D { x: -nw, y: nh });
        append_curve(&mut outline, &c2, nr, 1);
        let c3 = self.create_bulb_curve(Point2D { x: -nw, y: nh }, Point2D { x: -bw, y: hh });
        append_curve(&mut outline, &c3, br, 1);
        outline.push(Point2D { x: bw, y: hh });
        let c4 = self.create_bulb_curve(Point2D { x: bw, y: hh }, Point2D { x: nw, y: nh });
        append_curve(&mut outline, &c4, br, 1);
        let c5 = self.create_neck_curve(Point2D { x: nw, y: nh }, Point2D { x: nw, y: -nh });
        append_curve(&mut outline, &c5, nr, 1);
        let c6 = self.create_bulb_curve(Point2D { x: nw, y: -nh }, Point2D { x: bw, y: -hh });
        append_curve(&mut outline, &c6, br, 1);
        proof {
            let p0 = c1.points_spec(br as int);
            assert(p0.subrange(0, p0.len() as int) =~= p0);
            assert(outline@ =~= self.outline_spec(wall_offset as int));
        }
        outline
    }
}

impl Default for HourglassShapeBuilder {
    fn default() -> (r: Self)
        ensures
            r.total_height == 200_000,
            r.bulb_style == (BulbStyle::Circular { curvature: 1000, width_factor: 750, curve_resolution: 20 }),
            r.neck_style == (NeckStyle::Curved { curvature: 200, width: 12000, height: 8000, curve_resolution: 5 }),
    {
        Self::new()
    }
}

} // verus!
