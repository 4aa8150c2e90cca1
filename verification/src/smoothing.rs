//! Frame-rate-independent smoothing of replicated transforms.
//!
//! Every tick, each `Remote` entity's rendered transform is nudged toward
//! its staging transform by a blend factor `t` in `[0, 1]`. The factor is
//! derived by the caller from a nominal per-tick factor and the actual
//! elapsed time through the exponential-decay formula
//! `t = 1 - (1 - f)^(elapsed / reference)`, and handed in as a ratio of
//! integers. The blend itself runs here on fixed-point coordinates (signed
//! 64-bit integers in whatever unit scale the caller picked), component by
//! component: translation and rotation are blended linearly, scale is
//! assigned directly. A nonzero factor always moves a nonconverged
//! component by at least one fixed-point unit, so a constant target is
//! reached — not only approached — in a bounded number of ticks.

use vstd::prelude::*;
use vstd::arithmetic::div_mod::{lemma_div_by_multiple, lemma_div_is_ordered, lemma_div_pos_is_pos};
use vstd::arithmetic::mul::lemma_mul_inequality;

verus! {

/// A blend factor `num / den` in `[0, 1]`.
#[derive(Clone, Copy, Debug, PartialEq, Eq, Structural)]
pub struct BlendFactor {
    pub num: u32,
    pub den: u32,
}

impl BlendFactor {
    /// A valid factor: a ratio within `[0, 1]`.
    pub open spec fn wf(self) -> bool {
        1 <= self.den && self.num <= self.den
    }

    /// Builds a factor, clamping the ratio into `[0, 1]`: a zero
    /// denominator is read as the unit factor, an oversized numerator is
    /// capped at the denominator.
    pub fn new(num: u32, den: u32) -> (r: BlendFactor)
        ensures
            r.wf(),
            1 <= den && num <= den ==> r == (BlendFactor { num, den }),
    {
        if den == 0 {
            BlendFactor { num: 1, den: 1 }
        } else if num > den {
            BlendFactor { num: den, den }
        } else {
            BlendFactor { num, den }
        }
    }
}

/// One smoothing step of a single fixed-point component: `current` moves
/// toward `target` by `floor(|target - current| * num / den)`, but by at
/// least one unit whenever the factor is nonzero and the component has not
/// converged. The result never overshoots the target.
pub open spec fn spec_smooth_step(current: int, target: int, num: int, den: int) -> int
    recommends
        1 <= den,
        0 <= num <= den,
{
    let diff = target - current;
    if num <= 0 || diff == 0 {
        current
    } else {
        let mag = if diff > 0 {
            diff
        } else {
            -diff
        };
        let raw = (mag * num) / den;
        let step = if raw == 0 {
            1
        } else {
            raw
        };
        if diff > 0 {
            current + step
        } else {
            current - step
        }
    }
}

/// The component after `n` smoothing steps toward a constant target.
pub open spec fn spec_smooth_iter(current: int, target: int, num: int, den: int, n: nat) -> int
    decreases n,
{
    if n == 0 {
        current
    } else {
        spec_smooth_step(spec_smooth_iter(current, target, num, den, (n - 1) as nat), target, num, den)
    }
}

/// Distance of a component from its target.
pub open spec fn spec_distance(current: int, target: int) -> int {
    if target >= current {
        target - current
    } else {
        current - target
    }
}

/// One step never overshoots and never moves away: the result stays
/// between `current` and `target`, the distance to the target never grows,
/// and with a nonzero factor it strictly shrinks until the target is hit.
pub proof fn lemma_smooth_step_monotone(current: int, target: int, num: int, den: int)
    requires
        1 <= den,
        0 <= num <= den,
    ensures
        spec_distance(spec_smooth_step(current, target, num, den), target) <= spec_distance(
            current,
            target,
        ),
        current <= target ==> current <= spec_smooth_step(current, target, num, den) <= target,
        current >= target ==> current >= spec_smooth_step(current, target, num, den) >= target,
        1 <= num && current != target ==> spec_distance(
            spec_smooth_step(current, target, num, den),
            target,
        ) < spec_distance(current, target),
{
    let diff = target - current;
    if num <= 0 || diff == 0 {
    } else {
        let mag = if diff > 0 {
            diff
        } else {
            -diff
        };
        let raw = (mag * num) / den;
        lemma_div_pos_is_pos(mag * num, den);
        lemma_mul_inequality(num, den, mag);
        lemma_div_is_ordered(mag * num, mag * den, den);
        lemma_div_by_multiple(mag, den);
        assert(num * mag == mag * num) by (nonlinear_arith);
        assert(den * mag == mag * den) by (nonlinear_arith);
        assert(raw <= mag);
    }
}

/// Convergence: smoothing toward a constant target with a nonzero factor
/// reaches the target exactly, within as many ticks as the initial
/// fixed-point distance, and the distance shrinks monotonically on the way.
pub proof fn lemma_smoothing_converges(current: int, target: int, num: int, den: int, n: nat)
    requires
        1 <= den,
        1 <= num <= den,
        n >= spec_distance(current, target),
    ensures
        spec_smooth_iter(current, target, num, den, n) == target,
        forall|k: nat|
            spec_distance(#[trigger] spec_smooth_iter(current, target, num, den, (k + 1) as nat), target)
                <= spec_distance(spec_smooth_iter(current, target, num, den, k), target),
    decreases n,
{
    assert forall|k: nat|
        spec_distance(
            #[trigger] spec_smooth_iter(current, target, num, den, (k + 1) as nat),
            target,
        ) <= spec_distance(spec_smooth_iter(current, target, num, den, k), target) by {
        lemma_smooth_step_monotone(
            spec_smooth_iter(current, target, num, den, k),
            target,
            num,
            den,
        );
    }
    if n > 0 {
        if current == target {
            lemma_smooth_iter_fixed(current, target, num, den, n);
        } else {
            lemma_smooth_step_monotone(current, target, num, den);
            let next = spec_smooth_step(current, target, num, den);
            lemma_smooth_iter_shift(current, target, num, den, (n - 1) as nat);
            lemma_smoothing_converges(next, target, num, den, (n - 1) as nat);
        }
    }
}

/// A component already at the target stays there, tick after tick.
pub proof fn lemma_smooth_iter_fixed(current: int, target: int, num: int, den: int, n: nat)
    requires
        current == target,
    ensures
        spec_smooth_iter(current, target, num, den, n) == current,
    decreases n,
{
    if n > 0 {
        lemma_smooth_iter_fixed(current, target, num, den, (n - 1) as nat);
    }
}

/// Iterating `n + 1` times from `current` is iterating `n` times from the
/// first step's result.
proof fn lemma_smooth_iter_shift(current: int, target: int, num: int, den: int, n: nat)
    ensures
        spec_smooth_iter(current, target, num, den, (n + 1) as nat) == spec_smooth_iter(
            spec_smooth_step(current, target, num, den),
            target,
            num,
            den,
            n,
        ),
    decreases n,
{
    let next = spec_smooth_step(current, target, num, den);
    if n == 0 {
        assert(spec_smooth_iter(current, target, num, den, 1) == spec_smooth_step(
            spec_smooth_iter(current, target, num, den, 0),
            target,
            num,
            den,
        ));
    } else {
        lemma_smooth_iter_shift(current, target, num, den, (n - 1) as nat);
        assert(spec_smooth_iter(current, target, num, den, (n + 1) as nat) == spec_smooth_step(
            spec_smooth_iter(current, target, num, den, n),
            target,
            num,
            den,
        ));
        assert(spec_smooth_iter(next, target, num, den, n) == spec_smooth_step(
            spec_smooth_iter(next, target, num, den, (n - 1) as nat),
            target,
            num,
            den,
        ));
    }
}

/// A three-component vector in fixed-point coordinates.
#[derive(Clone, Copy, Debug, PartialEq, Eq, Structural)]
pub struct SmoothVec3 {
    pub x: i64,
    pub y: i64,
    pub z: i64,
}

/// A quaternion in fixed-point coordinates (x, y, z, w).
#[derive(Clone, Copy, Debug, PartialEq, Eq, Structural)]
pub struct SmoothQuat {
    pub x: i64,
    pub y: i64,
    pub z: i64,
    pub w: i64,
}

/// A full transform in fixed-point coordinates, as smoothing sees it.
#[derive(Clone, Copy, Debug, PartialEq, Eq, Structural)]
pub struct SmoothTransform {
    pub translation: SmoothVec3,
    pub rotation: SmoothQuat,
    pub scale: SmoothVec3,
}

/// One smoothing tick of a full transform: position and rotation are
/// blended toward the staging value component by component — the rotation
/// blend is linear, not spherical, matching the per-component quaternion
/// lerp of the rendering path — while scale is assigned directly.
pub open spec fn spec_smooth_transform(
    rendered: SmoothTransform,
    staging: SmoothTransform,
    num: int,
    den: int,
) -> SmoothTransform {
    SmoothTransform {
        translation: SmoothVec3 {
            x: spec_smooth_step(rendered.translation.x as int, staging.translation.x as int, num, den) as i64,
            y: spec_smooth_step(rendered.translation.y as int, staging.translation.y as int, num, den) as i64,
            z: spec_smooth_step(rendered.translation.z as int, staging.translation.z as int, num, den) as i64,
        },
        rotation: SmoothQuat {
            x: spec_smooth_step(rendered.rotation.x as int, staging.rotation.x as int, num, den) as i64,
            y: spec_smooth_step(rendered.rotation.y as int, staging.rotation.y as int, num, den) as i64,
            z: spec_smooth_step(rendered.rotation.z as int, staging.rotation.z as int, num, den) as i64,
            w: spec_smooth_step(rendered.rotation.w as int, staging.rotation.w as int, num, den) as i64,
        },
        scale: staging.scale,
    }
}

/// The iterate of a component stays between where it started and its
/// target, so in particular it stays within the 64-bit range of its ends.
proof fn lemma_smooth_iter_in_range(current: int, target: int, num: int, den: int, n: nat)
    requires
        1 <= den,
        0 <= num <= den,
    ensures
        current <= target ==> current <= spec_smooth_iter(current, target, num, den, n) <= target,
        current >= target ==> current >= spec_smooth_iter(current, target, num, den, n) >= target,
    decreases n,
{
    if n > 0 {
        lemma_smooth_iter_in_range(current, target, num, den, (n - 1) as nat);
        lemma_smooth_step_monotone(
            spec_smooth_iter(current, target, num, den, (n - 1) as nat),
            target,
            num,
            den,
        );
    }
}

/// The iterate of a component that started from a 64-bit value toward a
/// 64-bit target is itself a 64-bit value.
proof fn lemma_component_iter_fits(c: i64, t: i64, num: int, den: int, n: nat)
    requires
        1 <= den,
        0 <= num <= den,
    ensures
        spec_smooth_iter(c as int, t as int, num, den, n) as i64 as int == spec_smooth_iter(
            c as int,
            t as int,
            num,
            den,
            n,
        ),
{
    lemma_smooth_iter_in_range(c as int, t as int, num, den, n);
}

/// The rendered transform after `n` smoothing ticks toward a constant
/// staging target.
pub open spec fn spec_smooth_transform_iter(
    rendered: SmoothTransform,
    staging: SmoothTransform,
    num: int,
    den: int,
    n: nat,
) -> SmoothTransform
    decreases n,
{
    if n == 0 {
        rendered
    } else {
        spec_smooth_transform(
            spec_smooth_transform_iter(rendered, staging, num, den, (n - 1) as nat),
            staging,
            num,
            den,
        )
    }
}

/// Iterating a full transform is iterating each blended component, with the
/// scale assigned on the first tick.
proof fn lemma_smooth_transform_iter_componentwise(
    rendered: SmoothTransform,
    staging: SmoothTransform,
    num: int,
    den: int,
    n: nat,
)
    requires
        1 <= den,
        0 <= num <= den,
    ensures
        spec_smooth_transform_iter(rendered, staging, num, den, n) == (if n == 0 {
            rendered
        } else {
            SmoothTransform {
                translation: SmoothVec3 {
                    x: spec_smooth_iter(rendered.translation.x as int, staging.translation.x as int, num, den, n) as i64,
                    y: spec_smooth_iter(rendered.translation.y as int, staging.translation.y as int, num, den, n) as i64,
                    z: spec_smooth_iter(rendered.translation.z as int, staging.translation.z as int, num, den, n) as i64,
                },
                rotation: SmoothQuat {
                    x: spec_smooth_iter(rendered.rotation.x as int, staging.rotation.x as int, num, den, n) as i64,
                    y: spec_smooth_iter(rendered.rotation.y as int, staging.rotation.y as int, num, den, n) as i64,
                    z: spec_smooth_iter(rendered.rotation.z as int, staging.rotation.z as int, num, den, n) as i64,
                    w: spec_smooth_iter(rendered.rotation.w as int, staging.rotation.w as int, num, den, n) as i64,
                },
                scale: staging.scale,
            }
        }),
    decreases n,
{
    if n > 0 {
        lemma_smooth_transform_iter_componentwise(rendered, staging, num, den, (n - 1) as nat);
        lemma_component_iter_fits(rendered.translation.x, staging.translation.x, num, den, (n - 1) as nat);
        lemma_component_iter_fits(rendered.translation.y, staging.translation.y, num, den, (n - 1) as nat);
        lemma_component_iter_fits(rendered.translation.z, staging.translation.z, num, den, (n - 1) as nat);
        lemma_component_iter_fits(rendered.rotation.x, staging.rotation.x, num, den, (n - 1) as nat);
        lemma_component_iter_fits(rendered.rotation.y, staging.rotation.y, num, den, (n - 1) as nat);
        lemma_component_iter_fits(rendered.rotation.z, staging.rotation.z, num, den, (n - 1) as nat);
        lemma_component_iter_fits(rendered.rotation.w, staging.rotation.w, num, den, (n - 1) as nat);
    }
}

/// Convergence of a full transform: smoothing toward a constant staging
/// target with a nonzero factor makes the rendered transform equal the
/// target — position and rotation exactly, scale from the first tick on —
/// within as many ticks as the largest componentwise fixed-point distance.
pub proof fn lemma_transform_smoothing_converges(
    rendered: SmoothTransform,
    staging: SmoothTransform,
    num: int,
    den: int,
    n: nat,
)
    requires
        1 <= den,
        1 <= num <= den,
        n >= 1,
        n >= spec_distance(rendered.translation.x as int, staging.translation.x as int),
        n >= spec_distance(rendered.translation.y as int, staging.translation.y as int),
        n >= spec_distance(rendered.translation.z as int, staging.translation.z as int),
        n >= spec_distance(rendered.rotation.x as int, staging.rotation.x as int),
        n >= spec_distance(rendered.rotation.y as int, staging.rotation.y as int),
        n >= spec_distance(rendered.rotation.z as int, staging.rotation.z as int),
        n >= spec_distance(rendered.rotation.w as int, staging.rotation.w as int),
    ensures
        spec_smooth_transform_iter(rendered, staging, num, den, n) == staging,
{
    lemma_smooth_transform_iter_componentwise(rendered, staging, num, den, n);
    lemma_smoothing_converges(rendered.translation.x as int, staging.translation.x as int, num, den, n);
    lemma_smoothing_converges(rendered.translation.y as int, staging.translation.y as int, num, den, n);
    lemma_smoothing_converges(rendered.translation.z as int, staging.translation.z as int, num, den, n);
    lemma_smoothing_converges(rendered.rotation.x as int, staging.rotation.x as int, num, den, n);
    lemma_smoothing_converges(rendered.rotation.y as int, staging.rotation.y as int, num, den, n);
    lemma_smoothing_converges(rendered.rotation.z as int, staging.rotation.z as int, num, den, n);
    lemma_smoothing_converges(rendered.rotation.w as int, staging.rotation.w as int, num, den, n);
}

/// One executable smoothing tick of a full transform, as run for every
/// `Remote` entity that holds both a rendered and a staging transform.
pub fn apply_synced_transform(
    rendered: &SmoothTransform,
    staging: &SmoothTransform,
    factor: BlendFactor,
) -> (r: SmoothTransform)
    requires
        factor.wf(),
    ensures
        r == spec_smooth_transform(*rendered, *staging, factor.num as int, factor.den as int),
{
    SmoothTransform {
        translation: SmoothVec3 {
            x: smooth_step(rendered.translation.x, staging.translation.x, factor),
            y: smooth_step(rendered.translation.y, staging.translation.y, factor),
            z: smooth_step(rendered.translation.z, staging.translation.z, factor),
        },
        rotation: SmoothQuat {
            x: smooth_step(rendered.rotation.x, staging.rotation.x, factor),
            y: smooth_step(rendered.rotation.y, staging.rotation.y, factor),
            z: smooth_step(rendered.rotation.z, staging.rotation.z, factor),
            w: smooth_step(rendered.rotation.w, staging.rotation.w, factor),
        },
        scale: staging.scale,
    }
}

/// One executable smoothing step of a single fixed-point component.
pub fn smooth_step(current: i64, target: i64, factor: BlendFactor) -> (r: i64)
    requires
        factor.wf(),
    ensures
        r as int == spec_smooth_step(current as int, target as int, factor.num as int, factor.den as int),
{
    if factor.num == 0 || target == current {
        return current;
    }
    proof {
        lemma_smooth_step_monotone(
            current as int,
            target as int,
            factor.num as int,
            factor.den as int,
        );
    }
    if target > current {
        let mag: u128 = (target as i128 - current as i128) as u128;
        proof {
            assert(mag <= 0xffff_ffff_ffff_ffff_ffffu128);
            assert(mag as int * (factor.num as u128) as int
                <= 0xffff_ffff_ffff_ffff_ffff_ffff_ffffint) by (nonlinear_arith)
                requires
                    mag <= 0xffff_ffff_ffff_ffff_ffffu128,
                    (factor.num as u128) < 0x1_0000_0000u128,
            ;
        }
        let raw: u128 = mag * (factor.num as u128) / (factor.den as u128);
        let step: u128 = if raw == 0 {
            1
        } else {
            raw
        };
        proof {
            lemma_div_pos_is_pos(mag as int * factor.num as int, factor.den as int);
        }
        let r: i128 = current as i128 + step as i128;
        r as i64
    } else {
        let mag: u128 = (current as i128 - target as i128) as u128;
        proof {
            assert(mag <= 0xffff_ffff_ffff_ffff_ffffu128);
            assert(mag as int * (factor.num as u128) as int
                <= 0xffff_ffff_ffff_ffff_ffff_ffff_ffffint) by (nonlinear_arith)
                requires
                    mag <= 0xffff_ffff_ffff_ffff_ffffu128,
                    (factor.num as u128) < 0x1_0000_0000u128,
            ;
        }
        let raw: u128 = mag * (factor.num as u128) / (factor.den as u128);
        let step: u128 = if raw == 0 {
            1
        } else {
            raw
        };
        proof {
            lemma_div_pos_is_pos(mag as int * factor.num as int, factor.den as int);
        }
        let r: i128 = current as i128 - step as i128;
        r as i64
    }
}

} // verus!
