use hourglass_geometry::curves::Point2D;
use hourglass_geometry::shape::{BulbStyle, HourglassShapeBuilder, NeckStyle};

#[test]
fn default_outline_height_and_neck() {
    let outline = HourglassShapeBuilder::new().generate_outline();
    let max_abs_y = outline.iter().map(|p| p.y.abs()).max().unwrap();
    assert_eq!(max_abs_y, 100_000);
    let nearest = outline.iter().min_by_key(|p| p.y.abs()).unwrap();
    assert!((nearest.x.abs() - 6_000).abs() <= 200, "neck x {}", nearest.x);
}

#[test]
fn default_outline_layout() {
    let outline = HourglassShapeBuilder::default().generate_outline();
    // 21 + 5 + 20 + 1 + 20 + 5 + 20 points.
    assert_eq!(outline.len(), 92);
    assert_eq!(outline[0], Point2D { x: -72_000, y: -100_000 });
    assert_eq!(outline[46], Point2D { x: 72_000, y: 100_000 });
    assert_eq!(outline[45], Point2D { x: -72_000, y: 100_000 });
    assert_eq!(*outline.last().unwrap(), Point2D { x: 72_000, y: -100_000 });
    for w in outline.windows(2) {
        assert_ne!(w[0], w[1]);
    }
}

#[test]
fn straight_styles_give_straight_outline() {
    let b = HourglassShapeBuilder::new()
        .with_bulb_style(BulbStyle::Straight { width_factor: 500 })
        .with_neck_style(NeckStyle::Straight { width: 10_000, height: 20_000 });
    let outline = b.generate_outline();
    // 3 + 2 + 2 + 1 + 2 + 2 + 2 points.
    assert_eq!(outline.len(), 14);
    assert_eq!(outline[0], Point2D { x: -45_000, y: -100_000 });
    assert_eq!(outline[1], Point2D { x: -25_000, y: -55_000 });
    assert_eq!(outline[2], Point2D { x: -5_000, y: -10_000 });
    assert_eq!(outline[4], Point2D { x: -5_000, y: 10_000 });
}

#[test]
fn neck_width_floor_and_wall_offset() {
    let narrow = NeckStyle::Straight { width: 1_000, height: 8_000 };
    assert_eq!(narrow.width(), 3_000);
    assert_eq!(narrow.width_with_wall_offset(8_000), 18_000);
    assert_eq!(NeckStyle::default().width_with_wall_offset(1_000), 12_000);
    assert_eq!(NeckStyle::default().height(), 8_000);
    assert_eq!(NeckStyle::default().curve_resolution(), 5);
    assert_eq!(narrow.curve_resolution(), 2);
}

#[test]
fn bulb_style_accessors() {
    assert_eq!(BulbStyle::default().width_factor(), 750);
    assert_eq!(BulbStyle::default().curve_resolution(), 20);
    assert_eq!(BulbStyle::Straight { width_factor: 400 }.curve_resolution(), 2);
    assert_eq!(BulbStyle::Straight { width_factor: 400 }.width_factor(), 400);
}

#[test]
fn wall_offset_widens_neck() {
    let b = HourglassShapeBuilder::new();
    let plain = b.generate_outline();
    let widened = b.generate_outline_with_wall_offset(8_000);
    // Neck width becomes 2 * 8 + 2 = 18 units: the neck wall starts at x = -9.
    assert_eq!(plain[20], Point2D { x: -6_000, y: -4_000 });
    assert_eq!(widened[20], Point2D { x: -9_000, y: -4_000 });
    assert_eq!(widened.len(), plain.len());
}
