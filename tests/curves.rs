use hourglass_geometry::curves::{
    CircleQuadrant, CurveGenerator, CircularArc, CompositeCurve, CurveDirection, CurveSegment, Point2D,
    SmoothTransition,
};
use hourglass_geometry::fixed::{cos_angle, sin_angle, sine_fraction};

fn pt(x: i64, y: i64) -> Point2D {
    Point2D { x, y }
}

#[test]
fn sine_exact_points() {
    assert_eq!(sin_angle(0), 0);
    assert_eq!(sin_angle(90_000), 1_000_000);
    assert_eq!(sin_angle(180_000), 0);
    assert_eq!(sin_angle(270_000), -1_000_000);
    assert_eq!(sin_angle(-90_000), -1_000_000);
    assert_eq!(sin_angle(30_000), 500_000);
    assert_eq!(sin_angle(390_000), 500_000);
    assert_eq!(cos_angle(0), 1_000_000);
    assert_eq!(cos_angle(180_000), -1_000_000);
    assert_eq!(sine_fraction(1, 2), 1_000_000);
}

#[test]
fn sine_is_close_to_true_sine() {
    for deg in 0..360 {
        let a = deg as f64;
        let approx = sin_angle(deg * 1000) as f64 / 1e6;
        assert!((approx - a.to_radians().sin()).abs() < 0.002, "degree {}", deg);
    }
}

#[test]
fn arc_resolution_zero_gives_ends() {
    let arc = CircularArc::quarter_circle(pt(0, 0), 10_000, CircleQuadrant::TopRight);
    let pts = arc.generate_points(0);
    assert_eq!(pts, vec![arc.start_point(), arc.end_point()]);
    assert_eq!(pts, vec![pt(10_000, 0), pt(0, 10_000)]);
}

#[test]
fn transition_resolution_zero_gives_ends() {
    let t = SmoothTransition::new(pt(-5, 7), pt(300, -40), 1500, CurveDirection::Inward);
    assert_eq!(t.generate_points(0), vec![pt(-5, 7), pt(300, -40)]);
}

#[test]
fn arc_samples_run_from_start_to_end() {
    let arcs = [
        CircularArc::new(pt(100, -200), 5_000, 10_000, 250_000, false),
        CircularArc::new(pt(100, -200), 5_000, 250_000, 10_000, false),
        CircularArc::new(pt(0, 0), 7_000, 45_000, 300_000, true),
        CircularArc::new(pt(0, 0), 7_000, 300_000, 45_000, true),
        CircularArc::new(pt(3, 4), 9_000, 0, 0, true),
    ];
    for arc in arcs.iter() {
        for res in [1usize, 2, 7, 33] {
            let pts = arc.generate_points(res);
            assert_eq!(pts.len(), res + 1);
            assert_eq!(pts[0], arc.start_point());
            assert_eq!(*pts.last().unwrap(), arc.end_point());
        }
    }
}

#[test]
fn quarter_arc_midpoint() {
    let arc = CircularArc::quarter_circle(pt(0, 0), 10_000, CircleQuadrant::TopRight);
    let pts = arc.generate_points(2);
    assert_eq!(pts.len(), 3);
    assert!((pts[1].x - 7071).abs() < 20);
    assert!((pts[1].y - 7071).abs() < 20);
}

#[test]
fn quarter_circle_angles() {
    let arc = CircularArc::quarter_circle(pt(0, 0), 1, CircleQuadrant::BottomLeft);
    assert_eq!(arc.start_angle, 180_000);
    assert_eq!(arc.end_angle, 270_000);
    assert!(!arc.clockwise);
}

#[test]
fn straight_transition_interpolates() {
    let t = SmoothTransition::straight_line(pt(0, 0), pt(1000, 2000));
    assert_eq!(
        t.generate_points(4),
        vec![pt(0, 0), pt(250, 500), pt(500, 1000), pt(750, 1500), pt(1000, 2000)]
    );
}

#[test]
fn curved_transition_bulges_sideways() {
    let out = SmoothTransition::new(pt(0, 0), pt(0, 10_000), 1000, CurveDirection::Outward);
    assert_eq!(out.generate_points(2), vec![pt(0, 0), pt(-1000, 5000), pt(0, 10_000)]);
    let inward = SmoothTransition::new(pt(0, 0), pt(0, 10_000), 1000, CurveDirection::Inward);
    assert_eq!(inward.generate_points(2)[1], pt(1000, 5000));
    let flat = SmoothTransition::new(pt(0, 0), pt(0, 10_000), 1000, CurveDirection::Straight);
    assert_eq!(flat.generate_points(2)[1], pt(0, 5000));
}

#[test]
fn transition_samples_run_from_start_to_end() {
    let t = SmoothTransition::new(pt(-7_000, 3_000), pt(12_345, -999), 2500, CurveDirection::Outward);
    for res in [1usize, 3, 20] {
        let pts = t.generate_points(res);
        assert_eq!(pts.len(), res + 1);
        assert_eq!(pts[0], t.start_point());
        assert_eq!(*pts.last().unwrap(), t.end_point());
    }
}

#[test]
fn negative_curvature_counts_as_zero() {
    let t = SmoothTransition::new(pt(0, 0), pt(10, 10), -5, CurveDirection::Outward);
    assert_eq!(t.curvature, 0);
}

#[test]
fn composite_drops_shared_points() {
    let c = CompositeCurve::new()
        .add_transition(SmoothTransition::straight_line(pt(0, 0), pt(1000, 0)))
        .add_transition(SmoothTransition::straight_line(pt(1000, 0), pt(1000, 1000)));
    let pts = c.generate_points(4);
    assert_eq!(pts, vec![pt(0, 0), pt(500, 0), pt(1000, 0), pt(1000, 500), pt(1000, 1000)]);
    assert_eq!(c.start_point(), pt(0, 0));
    assert_eq!(c.end_point(), pt(1000, 1000));
}

#[test]
fn composite_splits_resolution_with_remainder_dropped() {
    let c = CompositeCurve::new()
        .add_segment(CurveSegment::Transition(SmoothTransition::straight_line(pt(0, 0), pt(600, 0))))
        .add_transition(SmoothTransition::straight_line(pt(600, 0), pt(600, 600)))
        .add_arc(CircularArc::quarter_circle(pt(0, 600), 600, CircleQuadrant::TopRight));
    // 8 / 3 == 2 samples per segment: 3 + 2 + 2 points.
    let pts = c.generate_points(8);
    assert_eq!(pts.len(), 7);
    assert_eq!(pts[0], pt(0, 0));
    assert_eq!(pts[2], pt(600, 0));
    assert_eq!(pts[4], pt(600, 600));
    assert_eq!(*pts.last().unwrap(), pt(0, 1200));
}

#[test]
fn empty_composite() {
    let c = CompositeCurve::default();
    assert!(c.generate_points(10).is_empty());
    assert_eq!(c.start_point(), pt(0, 0));
    assert_eq!(c.end_point(), pt(0, 0));
}

#[test]
fn curves_through_the_trait() {
    let curves: Vec<Box<dyn Fn(usize) -> (Vec<Point2D>, Point2D, Point2D)>> = vec![
        Box::new(|r| {
            let a = CircularArc::quarter_circle(pt(0, 0), 4_000, CircleQuadrant::TopLeft);
            (CurveGenerator::generate_points(&a, r), CurveGenerator::start_point(&a), CurveGenerator::end_point(&a))
        }),
        Box::new(|r| {
            let t = SmoothTransition::new(pt(0, 0), pt(4_000, 0), 300, CurveDirection::Inward);
            (CurveGenerator::generate_points(&t, r), CurveGenerator::start_point(&t), CurveGenerator::end_point(&t))
        }),
    ];
    for f in curves.iter() {
        let (pts, s, e) = f(0);
        assert_eq!(pts, vec![s, e]);
        let (pts, s, e) = f(6);
        assert_eq!(pts[0], s);
        assert_eq!(pts[6], e);
    }
    let a = CircularArc::quarter_circle(pt(0, 0), 4_000, CircleQuadrant::TopLeft);
    assert_eq!(CurveGenerator::start_point(&a), pt(0, 4_000));
    assert_eq!(CurveGenerator::end_point(&a), pt(-4_000, 0));
}

#[test]
fn coinciding_ends_sweep_a_full_turn() {
    let arcs = [
        CircularArc::new(pt(0, 0), 1000, 0, 0, false),
        CircularArc::new(pt(0, 0), 1000, 0, 0, true),
        CircularArc::new(pt(0, 0), 1000, 360_000, 0, false),
        CircularArc::new(pt(0, 0), 1000, 0, 360_000, true),
    ];
    for arc in arcs.iter() {
        let pts = arc.generate_points(2);
        assert_eq!(pts[0], pt(1000, 0));
        assert_eq!(pts[1], pt(-1000, 0));
        assert_eq!(pts[2], pt(1000, 0));
    }
    let quarter = CircularArc::new(pt(0, 0), 1000, 0, 90_000, true).generate_points(2);
    // Clockwise from 0 to 90 degrees goes the long way, through 225 degrees.
    assert!(quarter[1].x < 0 && quarter[1].y < 0);
}
