use riganim::algebra::{Quat, Vec3};
use riganim::num::{euclid_mod, isqrt, lerp_fx, FX_ONE};
use riganim::track::{
    Interpolation, QuaternionFrame, QuaternionTrack, VectorFrame, VectorTrack,
};

fn vtrack(frames: Vec<VectorFrame>, interpolation: Interpolation) -> VectorTrack {
    VectorTrack { frames, interpolation }
}

fn v(x: i64, y: i64, z: i64) -> Vec3 {
    Vec3 { x, y, z }
}

#[test]
fn euclid_mod_wraps_negative_values() {
    assert_eq!(euclid_mod(7, 3), 1);
    assert_eq!(euclid_mod(-1, 3), 2);
    assert_eq!(euclid_mod(-6, 3), 0);
    assert_eq!(euclid_mod(0, 5), 0);
}

#[test]
fn lerp_is_exact_at_endpoints_and_midpoint() {
    assert_eq!(lerp_fx(10, 30, 0, 4), 10);
    assert_eq!(lerp_fx(10, 30, 4, 4), 30);
    assert_eq!(lerp_fx(10, 30, 2, 4), 20);
    assert_eq!(lerp_fx(30, 10, 1, 4), 25);
}

#[test]
fn isqrt_exact_values() {
    assert_eq!(isqrt(0), 0);
    assert_eq!(isqrt(1), 1);
    assert_eq!(isqrt(15), 3);
    assert_eq!(isqrt(16), 4);
    assert_eq!(isqrt((FX_ONE * FX_ONE) as u64), FX_ONE as u64);
}

#[test]
fn empty_track_yields_fallback() {
    let track = vtrack(Vec::new(), Interpolation::Linear);
    let fallback = v(1, 2, 3);
    assert_eq!(track.sample(500, false, &fallback), fallback);
    assert_eq!(track.sample(500, true, &fallback), fallback);
}

#[test]
fn single_keyframe_yields_its_value_everywhere() {
    let track = vtrack(
        vec![VectorFrame { time: FX_ONE, value: v(7, 8, 9) }],
        Interpolation::Linear,
    );
    let fb = v(0, 0, 0);
    assert_eq!(track.sample(-FX_ONE, false, &fb), v(7, 8, 9));
    assert_eq!(track.sample(10 * FX_ONE, true, &fb), v(7, 8, 9));
}

#[test]
fn clamp_below_first_and_above_last() {
    let track = vtrack(
        vec![
            VectorFrame { time: 0, value: v(0, 0, 0) },
            VectorFrame { time: FX_ONE, value: v(FX_ONE, 0, 0) },
        ],
        Interpolation::Linear,
    );
    let fb = v(-1, -1, -1);
    assert_eq!(track.sample(-5 * FX_ONE, false, &fb), v(0, 0, 0));
    assert_eq!(track.sample(9 * FX_ONE, false, &fb), v(FX_ONE, 0, 0));
}

#[test]
fn linear_interpolation_midpoint() {
    let track = vtrack(
        vec![
            VectorFrame { time: 0, value: v(0, 0, 0) },
            VectorFrame { time: FX_ONE, value: v(FX_ONE, 0, 0) },
        ],
        Interpolation::Linear,
    );
    let fb = v(0, 0, 0);
    assert_eq!(track.sample(FX_ONE / 2, false, &fb), v(FX_ONE / 2, 0, 0));
}

#[test]
fn constant_interpolation_steps() {
    let track = vtrack(
        vec![
            VectorFrame { time: 0, value: v(10, 0, 0) },
            VectorFrame { time: FX_ONE, value: v(90, 0, 0) },
        ],
        Interpolation::Constant,
    );
    let fb = v(0, 0, 0);
    assert_eq!(track.sample(FX_ONE / 2, false, &fb), v(10, 0, 0));
    assert_eq!(track.sample(FX_ONE, false, &fb), v(90, 0, 0));
}

#[test]
fn looped_sampling_is_periodic() {
    let track = vtrack(
        vec![
            VectorFrame { time: 0, value: v(0, 0, 0) },
            VectorFrame { time: 2 * FX_ONE, value: v(2 * FX_ONE, 0, 0) },
        ],
        Interpolation::Linear,
    );
    let fb = v(0, 0, 0);
    let period: i64 = 2 * FX_ONE;
    for t in [0, FX_ONE / 3, FX_ONE, 3 * FX_ONE / 2, -FX_ONE] {
        assert_eq!(
            track.sample(t, true, &fb),
            track.sample(t + period, true, &fb)
        );
    }
}

#[test]
fn rotation_endpoints_reproduce_unit_keyframes() {
    let a = Quat { x: 0, y: 0, z: 0, w: FX_ONE };
    let b = Quat { x: FX_ONE, y: 0, z: 0, w: 0 };
    let track = QuaternionTrack {
        frames: vec![
            QuaternionFrame { time: 0, value: a },
            QuaternionFrame { time: FX_ONE, value: b },
        ],
        interpolation: Interpolation::Linear,
    };
    let fb = Quat { x: 0, y: 0, z: 0, w: FX_ONE };
    assert_eq!(track.sample(0, false, &fb), a);
    assert_eq!(track.sample(FX_ONE, false, &fb), b);
}

#[test]
fn interpolated_rotation_is_near_unit_length() {
    let a = Quat { x: 0, y: 0, z: 0, w: FX_ONE };
    let b = Quat { x: FX_ONE, y: 0, z: 0, w: 0 };
    let track = QuaternionTrack {
        frames: vec![
            QuaternionFrame { time: 0, value: a },
            QuaternionFrame { time: FX_ONE, value: b },
        ],
        interpolation: Interpolation::Linear,
    };
    let fb = Quat { x: 0, y: 0, z: 0, w: FX_ONE };
    let mid = track.sample(FX_ONE / 2, false, &fb);
    let norm2 = mid.x * mid.x + mid.y * mid.y + mid.z * mid.z + mid.w * mid.w;
    let unit2 = FX_ONE * FX_ONE;
    assert!((norm2 - unit2).abs() < unit2 / 1000);
}

#[test]
fn shortest_arc_flips_opposed_hemisphere() {
    // b is the same rotation as a but on the opposite hemisphere: the blend
    // must not pass near zero length.
    let a = Quat { x: 0, y: 0, z: 0, w: FX_ONE };
    let b = Quat { x: 0, y: 0, z: 0, w: -FX_ONE };
    let track = QuaternionTrack {
        frames: vec![
            QuaternionFrame { time: 0, value: a },
            QuaternionFrame { time: FX_ONE, value: b },
        ],
        interpolation: Interpolation::Linear,
    };
    let fb = Quat { x: 0, y: 0, z: 0, w: FX_ONE };
    let mid = track.sample(FX_ONE / 2, false, &fb);
    assert_eq!(mid, a);
}
