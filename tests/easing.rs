use hourglass_geometry::easing::EasingFunction;

#[test]
fn easing_values() {
    assert_eq!(EasingFunction::Linear.apply(300), 300);
    assert_eq!(EasingFunction::QuadraticIn.apply(500), 250);
    assert_eq!(EasingFunction::QuadraticOut.apply(500), 750);
    assert_eq!(EasingFunction::QuadraticInOut.apply(250), 125);
    assert_eq!(EasingFunction::QuadraticInOut.apply(750), 875);
    assert_eq!(EasingFunction::CubicIn.apply(500), 125);
    assert_eq!(EasingFunction::CubicOut.apply(500), 875);
    assert_eq!(EasingFunction::CubicInOut.apply(250), 62);
    assert_eq!(EasingFunction::CubicInOut.apply(750), 938);
}

#[test]
fn easing_ends() {
    let all = [
        EasingFunction::Linear,
        EasingFunction::QuadraticIn,
        EasingFunction::QuadraticOut,
        EasingFunction::QuadraticInOut,
        EasingFunction::CubicIn,
        EasingFunction::CubicOut,
        EasingFunction::CubicInOut,
    ];
    for e in all.iter() {
        assert_eq!(e.apply(0), 0);
        assert_eq!(e.apply(1000), 1000);
    }
}
