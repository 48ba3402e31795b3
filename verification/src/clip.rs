//! Transform tracks and clips: the three per-joint tracks bundled with their
//! target joint, and a named collection of such tracks with a derived,
//! cached duration.

use crate::algebra::{q4_identity, Quat, Vec3, Q4, V3};
use crate::num::{FX_LIMIT, FX_ONE};
use crate::skeleton::{transform_bounded, Pose, Transform};
use crate::track::{
    spec_sample_quat, spec_sample_vec, Interpolation, QuaternionTrack, VectorTrack,
};
use vstd::prelude::*;

verus! {

/// A bounded vector view cast back to its concrete value.
pub open spec fn v3_to_vec(v: V3) -> Vec3 {
    Vec3 { x: v.x as i64, y: v.y as i64, z: v.z as i64 }
}

/// A bounded quaternion view cast back to its concrete value.
pub open spec fn q4_to_quat(q: Q4) -> Quat {
    Quat { x: q.x as i64, y: q.y as i64, z: q.z as i64, w: q.w as i64 }
}

/// The position, rotation and scaling tracks of one animated joint. Any of
/// the three may be empty: a joint animated only in rotation has an empty
/// position track.
#[derive(Clone, Debug, PartialEq, Eq)]
pub struct TransformTrack {
    /// The target joint index.
    pub id: u32,
    pub position: VectorTrack,
    pub rotation: QuaternionTrack,
    pub scaling: VectorTrack,
}

/// The ending keyframe time of a vector track; zero when empty.
pub open spec fn vtrack_end(frames: Seq<crate::track::VectorFrame>) -> int {
    if frames.len() == 0 {
        0
    } else {
        frames.last().time as int
    }
}

/// The ending keyframe time of a quaternion track; zero when empty.
pub open spec fn qtrack_end(frames: Seq<crate::track::QuaternionFrame>) -> int {
    if frames.len() == 0 {
        0
    } else {
        frames.last().time as int
    }
}

/// The sampled local transform of a transform track at a time: each component
/// sampled independently, defaulting to its identity component (zero
/// translation, identity rotation, unit scale) when its own track is empty.
pub open spec fn spec_sampled_transform(tt: TransformTrack, t: int, looping: bool) -> Transform {
    Transform {
        translation: v3_to_vec(
            spec_sample_vec(
                tt.position.frames@,
                tt.position.interpolation,
                t,
                looping,
                V3 { x: 0, y: 0, z: 0 },
            ),
        ),
        orientation: q4_to_quat(
            spec_sample_quat(tt.rotation.frames@, tt.rotation.interpolation, t, looping, q4_identity()),
        ),
        scaling: v3_to_vec(
            spec_sample_vec(
                tt.scaling.frames@,
                tt.scaling.interpolation,
                t,
                looping,
                V3 { x: FX_ONE as int, y: FX_ONE as int, z: FX_ONE as int },
            ),
        ),
    }
}

impl TransformTrack {
    /// Well-formed: all three tracks well-formed.
    pub open spec fn wf(&self) -> bool {
        &&& self.position.wf()
        &&& self.rotation.wf()
        &&& self.scaling.wf()
    }

    /// The latest keyframe time over the three tracks; zero when all are
    /// empty.
    pub open spec fn spec_end_time(&self) -> int {
        let p = vtrack_end(self.position.frames@);
        let r = qtrack_end(self.rotation.frames@);
        let s = vtrack_end(self.scaling.frames@);
        let pr = if p >= r {
            p
        } else {
            r
        };
        if pr >= s {
            pr
        } else {
            s
        }
    }

    /// An empty transform track targeting joint 0.
    pub fn new() -> (r: TransformTrack)
        ensures
            r.id == 0,
            r.position.frames@.len() == 0,
            r.rotation.frames@.len() == 0,
            r.scaling.frames@.len() == 0,
            r.wf(),
    {
        TransformTrack {
            id: 0,
            position: VectorTrack::new(Interpolation::Linear),
            rotation: QuaternionTrack::new(Interpolation::Linear),
            scaling: VectorTrack::new(Interpolation::Linear),
        }
    }

    /// The latest keyframe time over the three tracks.
    pub fn end_time(&self) -> (r: i64)
        requires
            self.wf(),
        ensures
            r == self.spec_end_time(),
            -FX_LIMIT <= r <= FX_LIMIT,
    {
        let n = self.position.frames.len();
        let p: i64 = if n == 0 {
            0
        } else {
            self.position.frames[n - 1].time
        };
        let m = self.rotation.frames.len();
        let r: i64 = if m == 0 {
            0
        } else {
            self.rotation.frames[m - 1].time
        };
        let k = self.scaling.frames.len();
        let s: i64 = if k == 0 {
            0
        } else {
            self.scaling.frames[k - 1].time
        };
        proof {
            if n > 0 {
                assert(crate::track::vframe_ok(self.position.frames@[n - 1]));
            }
            if m > 0 {
                assert(crate::track::qframe_ok(self.rotation.frames@[m - 1]));
            }
            if k > 0 {
                assert(crate::track::vframe_ok(self.scaling.frames@[k - 1]));
            }
        }
        let pr = if p >= r {
            p
        } else {
            r
        };
        if pr >= s {
            pr
        } else {
            s
        }
    }

    /// Sample the track at time `t`: the three components independently, each
    /// defaulting to its identity component when empty.
    pub fn sample(&self, t: i64, looping: bool) -> (r: Transform)
        requires
            self.wf(),
            -FX_LIMIT <= t <= FX_LIMIT,
        ensures
            r == spec_sampled_transform(*self, t as int, looping),
            transform_bounded(r),
    {
        let zero = Vec3::zero();
        let one = Vec3::one();
        let ident = Quat::identity();
        let translation = self.position.sample(t, looping, &zero);
        let orientation = self.rotation.sample(t, looping, &ident);
        let scaling = self.scaling.sample(t, looping, &one);
        let r = Transform { translation, orientation, scaling };
        proof {
            assert(r.translation == v3_to_vec(r.translation@));
            assert(r.orientation == q4_to_quat(r.orientation@));
            assert(r.scaling == v3_to_vec(r.scaling@));
        }
        r
    }
}

/// The derived duration of a set of transform tracks: the latest keyframe
/// time across all of them, never below zero.
pub open spec fn spec_clip_duration(tracks: Seq<TransformTrack>) -> int
    decreases tracks.len(),
{
    if tracks.len() == 0 {
        0
    } else {
        let rest = spec_clip_duration(tracks.drop_last());
        let e = tracks.last().spec_end_time();
        if e >= rest {
            e
        } else {
            rest
        }
    }
}

/// Replay a sequence of transform tracks onto a pose's joints: each track
/// replaces its target joint's local transform with the track's sampled
/// transform; tracks targeting joints outside the pose are ignored, and a
/// later track targeting the same joint wins.
pub open spec fn spec_apply_clip(
    tracks: Seq<TransformTrack>,
    joints: Seq<Transform>,
    t: int,
    looping: bool,
) -> Seq<Transform>
    decreases tracks.len(),
{
    if tracks.len() == 0 {
        joints
    } else {
        let prev = spec_apply_clip(tracks.drop_last(), joints, t, looping);
        let tt = tracks.last();
        if tt.id < prev.len() {
            prev.update(tt.id as int, spec_sampled_transform(tt, t, looping))
        } else {
            prev
        }
    }
}

/// A named animation: one transform track per animated joint (sparse — not
/// every joint need appear) and a cached duration, recomputed once after all
/// tracks are added.
#[derive(Clone, Debug, PartialEq, Eq)]
pub struct Clip {
    /// The clip name, UTF-8 bytes.
    pub name: Vec<u8>,
    pub tracks: Vec<TransformTrack>,
    pub duration: i64,
}

impl Clip {
    /// Well-formed: every track well-formed.
    pub open spec fn wf(&self) -> bool {
        forall|i: int| 0 <= i < self.tracks@.len() ==> (#[trigger] self.tracks@[i]).wf()
    }

    /// An empty, unnamed clip.
    pub fn new() -> (r: Clip)
        ensures
            r.name@.len() == 0,
            r.tracks@.len() == 0,
            r.duration == 0,
            r.wf(),
    {
        Clip { name: Vec::new(), tracks: Vec::new(), duration: 0 }
    }

    /// Recompute the cached duration: the latest keyframe time across all
    /// contained tracks (zero for an empty clip).
    pub fn re_calculate_duration(&mut self)
        requires
            old(self).wf(),
        ensures
            final(self).name == old(self).name,
            final(self).tracks == old(self).tracks,
            final(self).wf(),
            final(self).duration == spec_clip_duration(old(self).tracks@),
            0 <= final(self).duration <= FX_LIMIT,
    {
        let n = self.tracks.len();
        let mut acc: i64 = 0;
        let mut i: usize = 0;
        while i < n
            invariant
                self.wf(),
                n == self.tracks@.len(),
                i <= n,
                acc == spec_clip_duration(self.tracks@.take(i as int)),
                0 <= acc <= FX_LIMIT,
            decreases n - i,
        {
            proof {
                assert((#[trigger] self.tracks@[i as int]).wf());
            }
            let e = self.tracks[i].end_time();
            if e > acc {
                acc = e;
            }
            proof {
                assert(self.tracks@.take(i + 1).drop_last() =~= self.tracks@.take(i as int));
                assert(self.tracks@.take(i + 1).last() == self.tracks@[i as int]);
            }
            i = i + 1;
        }
        proof {
            assert(self.tracks@.take(n as int) =~= self.tracks@);
        }
        self.duration = acc;
    }

    /// Sample the whole clip into a working pose (a mutable copy of the rest
    /// pose): each track's target joint gets the track's sampled local
    /// transform, all other joints keep their current transform.
    pub fn sample(&self, pose: &mut Pose, t: i64, looping: bool)
        requires
            self.wf(),
            old(pose).wf(),
            -FX_LIMIT <= t <= FX_LIMIT,
        ensures
            final(pose).wf(),
            final(pose).parents == old(pose).parents,
            final(pose).joints@ == spec_apply_clip(self.tracks@, old(pose).joints@, t as int, looping),
    {
        let n = self.tracks.len();
        let mut i: usize = 0;
        while i < n
            invariant
                self.wf(),
                pose.wf(),
                -FX_LIMIT <= t <= FX_LIMIT,
                n == self.tracks@.len(),
                i <= n,
                pose.parents == old(pose).parents,
                pose.joints@.len() == old(pose).joints@.len(),
                pose.joints@ == spec_apply_clip(
                    self.tracks@.take(i as int),
                    old(pose).joints@,
                    t as int,
                    looping,
                ),
            decreases n - i,
        {
            proof {
                assert((#[trigger] self.tracks@[i as int]).wf());
                assert(self.tracks@.take(i + 1).drop_last() =~= self.tracks@.take(i as int));
                assert(self.tracks@.take(i + 1).last() == self.tracks@[i as int]);
            }
            let track = &self.tracks[i];
            let id = track.id as usize;
            if id < pose.joints.len() {
                let sampled = track.sample(t, looping);
                pose.joints[id] = sampled;
                proof {
                    assert(pose.joints@ =~= spec_apply_clip(
                        self.tracks@.take(i + 1),
                        old(pose).joints@,
                        t as int,
                        looping,
                    ));
                }
            }
            i = i + 1;
        }
        proof {
            assert(self.tracks@.take(n as int) =~= self.tracks@);
        }
    }
}

} // verus!
