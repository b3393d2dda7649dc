//! Easing curves for animations, on fixed-point progress values.

use vstd::prelude::*;
use crate::fixed::{tdiv, within, FACTOR_LIMIT, SCALE};

verus! {

/// How an animation's progress maps to its displayed position.
#[derive(Clone, Copy, Debug, PartialEq, Eq, Structural)]
pub enum EasingFunction {
    Linear,
    QuadraticIn,
    QuadraticOut,
    QuadraticInOut,
    CubicIn,
    CubicOut,
    CubicInOut,
}

/// The eased value of progress `t`; both in thousandths, `SCALE` being 1.
pub open spec fn ease(e: EasingFunction, t: int) -> int {
    let s = SCALE as int;
    match e {
        EasingFunction::Linear => t,
        EasingFunction::QuadraticIn => tdiv(t * t, s),
        EasingFunction::QuadraticOut => tdiv(t * (2 * s - t), s),
        EasingFunction::QuadraticInOut => if 2 * t < s {
            tdiv(2 * t * t, s)
        } else {
            -s + tdiv((4 * s - 2 * t) * t, s)
        },
        EasingFunction::CubicIn => tdiv(t * t * t, s * s),
        EasingFunction::CubicOut => s + tdiv((t - s) * (t - s) * (t - s), s * s),
        EasingFunction::CubicInOut => if 2 * t < s {
            tdiv(4 * t * t * t, s * s)
        } else {
            s + tdiv(4 * (t - s) * (t - s) * (t - s), s * s)
        },
    }
}

impl EasingFunction {
    /// Applies the curve to progress `t` (thousandths).
    pub fn apply(&self, t: i64) -> (r: i64)
        requires
            within(t as int, FACTOR_LIMIT as int),
        ensures
            r == ease(*self, t as int),
    {
        let ti = t as i128;
        let s = SCALE as i128;
        let u = ti - s;
        proof {
            let b = FACTOR_LIMIT + SCALE;
            assert(-b <= ti <= b);
            assert(-b <= u <= b);
            assert(-b * b <= ti * ti <= b * b) by (nonlinear_arith)
                requires -b <= ti <= b;
            assert(-b * b * b <= ti * ti * ti <= b * b * b) by (nonlinear_arith)
                requires -b <= ti <= b;
            assert(-b * b * b <= u * u * u <= b * b * b) by (nonlinear_arith)
                requires -b <= u <= b;
            assert(-b * b <= u * u <= b * b) by (nonlinear_arith)
                requires -b <= u <= b;
            assert(-3 * b * b <= ti * (2 * s - ti) <= 3 * b * b) by (nonlinear_arith)
                requires -b <= ti <= b, s == 1000, b == 1_001_000;
            assert(-6 * b * b <= (4 * s - 2 * ti) * ti <= 6 * b * b) by (nonlinear_arith)
                requires -b <= ti <= b, s == 1000, b == 1_001_000;
            assert(4 * ti * ti * ti == 4 * (ti * ti * ti)) by (nonlinear_arith);
            assert(4 * u * u * u == 4 * (u * u * u)) by (nonlinear_arith);
            assert(2 * ti * ti == 2 * (ti * ti)) by (nonlinear_arith);
        }
        let r: i128 = match self {
            EasingFunction::Linear => ti,
            EasingFunction::QuadraticIn => ti * ti / s,
            EasingFunction::QuadraticOut => ti * (2 * s - ti) / s,
            EasingFunction::QuadraticInOut => {
                if 2 * ti < s {
                    2 * (ti * ti) / s
                } else {
                    -s + (4 * s - 2 * ti) * ti / s
                }
            },
            EasingFunction::CubicIn => ti * ti * ti / (s * s),
            EasingFunction::CubicOut => s + u * u * u / (s * s),
            EasingFunction::CubicInOut => {
                if 2 * ti < s {
                    4 * (ti * ti * ti) / (s * s)
                } else {
                    s + 4 * (u * u * u) / (s * s)
                }
            },
        };
        r as i64
    }
}

} // verus!
