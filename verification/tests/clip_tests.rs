use riganim::algebra::{Quat, Vec3};
use riganim::clip::{Clip, TransformTrack};
use riganim::mesh::{Model, Shape};
use riganim::num::FX_ONE;
use riganim::skeleton::Pose;
use riganim::track::{Interpolation, VectorFrame, VectorTrack};

fn vx(x: i64, y: i64, z: i64) -> Vec3 {
    Vec3 { x, y, z }
}

fn position_track(frames: Vec<VectorFrame>) -> TransformTrack {
    let mut tt = TransformTrack::new();
    tt.position = VectorTrack { frames, interpolation: Interpolation::Linear };
    tt
}

#[test]
fn empty_transform_track_samples_identity_components() {
    let tt = TransformTrack::new();
    let t = tt.sample(12345, false);
    assert_eq!(t.translation, vx(0, 0, 0));
    assert_eq!(t.orientation, Quat { x: 0, y: 0, z: 0, w: FX_ONE });
    assert_eq!(t.scaling, vx(FX_ONE, FX_ONE, FX_ONE));
}

#[test]
fn clip_duration_is_latest_keyframe_time() {
    let mut clip = Clip::new();
    clip.tracks.push(position_track(vec![
        VectorFrame { time: 0, value: vx(0, 0, 0) },
        VectorFrame { time: 2 * FX_ONE, value: vx(1, 0, 0) },
    ]));
    clip.tracks.push(position_track(vec![
        VectorFrame { time: 0, value: vx(0, 0, 0) },
        VectorFrame { time: 5 * FX_ONE, value: vx(2, 0, 0) },
    ]));
    clip.re_calculate_duration();
    assert_eq!(clip.duration, 5 * FX_ONE);
}

#[test]
fn empty_clip_has_zero_duration() {
    let mut clip = Clip::new();
    clip.re_calculate_duration();
    assert_eq!(clip.duration, 0);
}

#[test]
fn clip_sample_replaces_only_targeted_joints() {
    let mut pose = Pose::new();
    pose.resize(3);
    let mut clip = Clip::new();
    let mut tt = position_track(vec![VectorFrame { time: 0, value: vx(9, 9, 9) }]);
    tt.id = 2;
    clip.tracks.push(tt);
    clip.sample(&mut pose, 0, false);
    assert_eq!(pose.joints[2].translation, vx(9, 9, 9));
    assert_eq!(pose.joints[0].translation, vx(0, 0, 0));
    assert_eq!(pose.joints[1].translation, vx(0, 0, 0));
}

#[test]
fn pose_resize_fills_identity_and_root_sentinel() {
    let mut pose = Pose::new();
    pose.resize(2);
    assert_eq!(pose.len(), 2);
    assert_eq!(pose.parents, vec![-1, -1]);
    assert_eq!(pose.joints[1].scaling, vx(FX_ONE, FX_ONE, FX_ONE));
    pose.resize(1);
    assert_eq!(pose.len(), 1);
}

#[test]
fn model_update_moves_position_by_velocity() {
    let mut model = Model::new(Shape::Unset, vx(FX_ONE, 0, 0), vx(FX_ONE, FX_ONE, FX_ONE)).unwrap();
    model.velocity = vx(FX_ONE, 2 * FX_ONE, 0);
    model.update_properties();
    assert_eq!(model.pos, vx(2 * FX_ONE, 2 * FX_ONE, 0));
    // derived transform carries the new position in its fourth column
    assert_eq!(model.transform.m[3], 2 * FX_ONE);
    assert_eq!(model.transform.m[7], 2 * FX_ONE);
    assert_eq!(model.transform.m[11], 0);
}

#[test]
fn model_transform_scales_by_cube_dimensions() {
    let mut model = Model::new(
        Shape::Cube { dimensions: vx(2 * FX_ONE, 3 * FX_ONE, FX_ONE) },
        vx(0, 0, 0),
        vx(FX_ONE, FX_ONE, FX_ONE),
    )
    .unwrap();
    model.update_properties();
    assert_eq!(model.transform.m[0], 2 * FX_ONE);
    assert_eq!(model.transform.m[5], 3 * FX_ONE);
    assert_eq!(model.transform.m[10], FX_ONE);
}
