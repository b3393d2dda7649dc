use hourglass_geometry::curves::Point2D;
use hourglass_geometry::sand::{calculate_line_intersection, generate_sand_outline, SandBulb};
use hourglass_geometry::shape::HourglassShapeBuilder;

const WALL: i64 = 8_000;
const NECK_H: i64 = 8_000;
const MIN_Y: i64 = -100_000;
const MAX_Y: i64 = 100_000;

fn body() -> Vec<Point2D> {
    HourglassShapeBuilder::new().generate_outline_with_wall_offset(WALL)
}

fn sand(fill: i64, bulb: SandBulb, mound: i64) -> Vec<Point2D> {
    generate_sand_outline(&body(), fill, WALL, bulb, NECK_H, MIN_Y, MAX_Y, mound)
}

fn area(points: &[Point2D]) -> f64 {
    let n = points.len();
    let mut twice = 0.0f64;
    for i in 0..n {
        let a = points[i];
        let b = points[(i + 1) % n];
        twice += a.x as f64 * b.y as f64 - b.x as f64 * a.y as f64;
    }
    (twice / 2.0).abs()
}

#[test]
fn intersection_cases() {
    let a = Point2D { x: 0, y: 0 };
    let b = Point2D { x: 1000, y: 2000 };
    assert_eq!(calculate_line_intersection(a, b, 500), Some(Point2D { x: 250, y: 500 }));
    assert_eq!(calculate_line_intersection(b, a, 500), Some(Point2D { x: 250, y: 500 }));
    assert_eq!(calculate_line_intersection(a, b, 2500), None);
    assert_eq!(calculate_line_intersection(a, Point2D { x: 10, y: 0 }, 0), None);
    let c = Point2D { x: -300, y: -100 };
    let d = Point2D { x: 700, y: -1100 };
    assert_eq!(calculate_line_intersection(c, d, -600), Some(Point2D { x: 200, y: -600 }));
}

#[test]
fn empty_top_and_empty_bottom() {
    assert!(sand(0, SandBulb::Top, 0).is_empty());
    assert!(sand(1000, SandBulb::Bottom, 0).is_empty());
    assert!(sand(1000, SandBulb::Bottom, 500).is_empty());
}

#[test]
fn empty_outline_gives_no_sand() {
    let none: Vec<Point2D> = Vec::new();
    assert!(generate_sand_outline(&none, 500, WALL, SandBulb::Top, NECK_H, MIN_Y, MAX_Y, 0).is_empty());
}

#[test]
fn full_top_bulb() {
    let s = sand(1000, SandBulb::Top, 0);
    assert!(!s.is_empty());
    let body_top = body().iter().map(|p| p.y).max().unwrap();
    let n = s.len();
    let sand_top = s[..n - 2].iter().map(|p| p.y).max().unwrap();
    assert_eq!(sand_top, body_top);
    assert_eq!(s[n - 2].y, MIN_Y);
    assert_eq!(s[n - 1].y, MIN_Y);
    assert_eq!(s[n - 2].x, s[n - 3].x);
    assert_eq!(s[n - 1].x, s[0].x);
}

#[test]
fn partial_top_stays_between_neck_and_fill_line() {
    let s = sand(500, SandBulb::Top, 0);
    let n = s.len();
    assert!(n > 4);
    for p in &s[..n - 2] {
        assert!(p.y >= 0 && p.y <= 50_000, "{:?}", p);
    }
    assert!(s[..n - 2].iter().any(|p| p.y == 50_000));
}

#[test]
fn bottom_flat_fill_line() {
    // Fill 0: all sand below; the fill line sits at the neck's bottom edge.
    let s = sand(0, SandBulb::Bottom, 0);
    assert!(!s.is_empty());
    for p in &s {
        assert!(p.y <= -4_000, "{:?}", p);
    }
    assert!(s.iter().any(|p| p.y == -4_000));
    // Half drained: the line is half way from the bottom to the neck.
    let h = sand(500, SandBulb::Bottom, 0);
    for p in &h {
        assert!(p.y <= -52_000, "{:?}", p);
    }
}

#[test]
fn bottom_mound_rises_in_the_middle() {
    let flat = sand(500, SandBulb::Bottom, 0);
    let mounded = sand(500, SandBulb::Bottom, 1000);
    assert_ne!(flat, mounded);
    let flat_top = flat.iter().map(|p| p.y).max().unwrap();
    let mound_top = mounded.iter().map(|p| p.y).max().unwrap();
    assert!(mound_top > flat_top);
    // The crown closes the shape: it rises toward the middle and falls again.
    let crown = &mounded[mounded.len() - 21..];
    assert!(crown[10].y > crown[0].y);
    assert!(crown[10].y > crown[20].y);
}

#[test]
fn repeated_calls_agree() {
    for bulb in [SandBulb::Top, SandBulb::Bottom] {
        for fill in [0, 130, 500, 999, 1000] {
            assert_eq!(sand(fill, bulb, 700), sand(fill, bulb, 700));
        }
    }
}

#[test]
fn top_area_grows_with_fill() {
    let mut last = -1.0f64;
    for fill in (100..=1000).step_by(100) {
        let s = sand(fill, SandBulb::Top, 0);
        let a = area(&s[..s.len() - 2]);
        assert!(a >= last, "fill {} area {} after {}", fill, a, last);
        last = a;
    }
}

#[test]
fn neck_walls_never_cross() {
    let neck_outline = HourglassShapeBuilder::new().generate_outline();
    for wall in [0i64, 1_000, 5_000, 6_000, 20_000] {
        for fill in [100, 500, 1000] {
            let s = generate_sand_outline(&neck_outline, fill, wall, SandBulb::Top, NECK_H, MIN_Y, MAX_Y, 0);
            let n = s.len();
            let band: Vec<Point2D> = s[..n - 2].iter().copied().filter(|p| p.y.abs() <= NECK_H / 2).collect();
            assert!(!band.is_empty());
            for p in &band {
                // Each neck point keeps its side: its mirror image is there too.
                assert!(band.contains(&Point2D { x: -p.x, y: p.y }), "{:?}", p);
                assert!(p.x != 0);
                if wall >= 6_000 {
                    assert_eq!(p.x.abs(), 500, "{:?}", p);
                } else {
                    assert!(p.x.abs() >= 5_800 - wall, "{:?}", p);
                }
            }
        }
    }
}
