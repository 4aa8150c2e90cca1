use netsync::smoothing::{
    apply_synced_transform, smooth_step, BlendFactor, SmoothQuat, SmoothTransform, SmoothVec3,
};

fn state(translation: (i64, i64, i64), scale: (i64, i64, i64)) -> SmoothTransform {
    SmoothTransform {
        translation: SmoothVec3 {
            x: translation.0,
            y: translation.1,
            z: translation.2,
        },
        rotation: SmoothQuat {
            x: 0,
            y: 0,
            z: 0,
            w: 65536,
        },
        scale: SmoothVec3 {
            x: scale.0,
            y: scale.1,
            z: scale.2,
        },
    }
}

#[test]
fn one_step_moves_a_quarter_of_the_way() {
    let factor = BlendFactor::new(1, 4);
    assert_eq!(smooth_step(0, 1000, factor), 250);
    assert_eq!(smooth_step(1000, 0, factor), 750);
    assert_eq!(smooth_step(-1000, 1000, factor), -500);
}

#[test]
fn a_zero_factor_holds_still() {
    let factor = BlendFactor::new(0, 30);
    assert_eq!(smooth_step(123, 9999, factor), 123);
}

#[test]
fn a_unit_factor_snaps_to_the_target() {
    let factor = BlendFactor::new(7, 7);
    assert_eq!(smooth_step(123, 9999, factor), 9999);
}

#[test]
fn a_nonzero_factor_always_makes_progress() {
    // The proportional step rounds down to zero here; the blend still moves
    // by one unit so a constant target is eventually reached.
    let factor = BlendFactor::new(1, 1000);
    assert_eq!(smooth_step(0, 3, factor), 1);
    assert_eq!(smooth_step(3, 0, factor), 2);
}

#[test]
fn repeated_steps_converge_monotonically() {
    let factor = BlendFactor::new(1, 8);
    let target: i64 = 5000;
    let mut current: i64 = 0;
    let mut last_distance = (target - current).abs();
    let mut ticks = 0usize;
    while current != target {
        current = smooth_step(current, target, factor);
        let distance = (target - current).abs();
        assert!(distance < last_distance, "distance must strictly shrink");
        last_distance = distance;
        ticks += 1;
        assert!(ticks <= 5000, "must converge within the distance bound");
    }
    assert_eq!(current, target);
}

#[test]
fn never_overshoots_the_target() {
    let factor = BlendFactor::new(3, 4);
    let mut current: i64 = -100;
    for _ in 0..100 {
        current = smooth_step(current, 7, factor);
        assert!(current <= 7);
    }
    assert_eq!(current, 7);
}

#[test]
fn transform_blend_lerps_position_and_snaps_scale() {
    let rendered = state((0, 0, 0), (65536, 65536, 65536));
    let staging = state((1000, -1000, 500), (131072, 131072, 131072));
    let factor = BlendFactor::new(1, 2);
    let next = apply_synced_transform(&rendered, &staging, factor);
    assert_eq!(next.translation, SmoothVec3 { x: 500, y: -500, z: 250 });
    // Scale is assigned directly, not smoothed.
    assert_eq!(next.scale, staging.scale);
    // The rotation was already at its target and stays there.
    assert_eq!(next.rotation, staging.rotation);
}

#[test]
fn blend_factor_is_clamped_into_the_unit_interval() {
    let oversized = BlendFactor::new(9, 4);
    assert_eq!(oversized, BlendFactor { num: 4, den: 4 });
    let zero_den = BlendFactor::new(3, 0);
    assert_eq!(zero_den, BlendFactor { num: 1, den: 1 });
    let kept = BlendFactor::new(3, 30);
    assert_eq!(kept, BlendFactor { num: 3, den: 30 });
}

#[test]
fn extreme_coordinates_do_not_overflow() {
    let factor = BlendFactor::new(1, 2);
    let r = smooth_step(i64::MIN, i64::MAX, factor);
    assert!(i64::MIN <= r);
    let r2 = smooth_step(i64::MAX, i64::MIN, factor);
    assert!(r2 <= i64::MAX);
}
