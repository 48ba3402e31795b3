//! Keyframe tracks and the time-sampling contract: clamped or periodic time
//! adjustment, bracketing-keyframe search over sorted times, and exact
//! interpolation between the bracketing pair.

use crate::algebra::{
    q4_bounded, spec_lerp_v3, spec_normalize, spec_quat_mix, v3_bounded, lerp_vec3, quat_mix,
    quat_normalize, Quat, Vec3, Q4, V3,
};
use crate::num::{euclid_mod, lemma_spec_lerp_endpoints, FX_LIMIT, FX_ONE};
use crate::algebra::{lemma_normalize_unit, q4_dot};
use vstd::prelude::*;

verus! {

/// How values between two bracketing keyframes blend. The keyframe model
/// stores no tangent data, so `Cubic` tracks fall back to the linear blend;
/// the mode is kept so that a source document's declared mode survives
/// import.
#[derive(Clone, Copy, Debug, PartialEq, Eq, Structural)]
pub enum Interpolation {
    Constant,
    Linear,
    Cubic,
}

/// A vector keyframe: a fixed-point time (seconds scaled by `FX_ONE`) and a
/// raw 3-component value.
#[derive(Clone, Copy, Debug, PartialEq, Eq, Structural)]
pub struct VectorFrame {
    pub time: i64,
    pub value: Vec3,
}

/// A quaternion keyframe, in the source document's raw component order.
#[derive(Clone, Copy, Debug, PartialEq, Eq, Structural)]
pub struct QuaternionFrame {
    pub time: i64,
    pub value: Quat,
}

/// A time-ordered sequence of vector keyframes with an interpolation mode.
#[derive(Clone, Debug, PartialEq, Eq)]
pub struct VectorTrack {
    pub frames: Vec<VectorFrame>,
    pub interpolation: Interpolation,
}

/// A time-ordered sequence of quaternion keyframes with an interpolation
/// mode.
#[derive(Clone, Debug, PartialEq, Eq)]
pub struct QuaternionTrack {
    pub frames: Vec<QuaternionFrame>,
    pub interpolation: Interpolation,
}

/// The keyframe times of a vector track, as mathematical integers.
pub open spec fn vtimes(frames: Seq<VectorFrame>) -> Seq<int> {
    frames.map_values(|f: VectorFrame| f.time as int)
}

/// The keyframe times of a quaternion track, as mathematical integers.
pub open spec fn qtimes(frames: Seq<QuaternionFrame>) -> Seq<int> {
    frames.map_values(|f: QuaternionFrame| f.time as int)
}

/// A vector keyframe with its time and value components in fixed-point range.
pub open spec fn vframe_ok(f: VectorFrame) -> bool {
    -FX_LIMIT <= f.time <= FX_LIMIT && v3_bounded(f.value@)
}

/// A quaternion keyframe with its time and value components in range.
pub open spec fn qframe_ok(f: QuaternionFrame) -> bool {
    -FX_LIMIT <= f.time <= FX_LIMIT && q4_bounded(f.value@)
}

/// Times are sorted in non-decreasing order.
pub open spec fn times_sorted(times: Seq<int>) -> bool {
    forall|i: int, j: int| 0 <= i <= j < times.len() ==> times[i] <= times[j]
}

/// Times are strictly increasing (no duplicate keyframe times).
pub open spec fn times_strict(times: Seq<int>) -> bool {
    forall|i: int, j: int| 0 <= i < j < times.len() ==> times[i] < times[j]
}

impl VectorTrack {
    /// Well-formed per the track invariant: times sorted ascending and every
    /// time and value component in fixed-point range.
    pub open spec fn wf(&self) -> bool {
        &&& times_sorted(vtimes(self.frames@))
        &&& forall|i: int| 0 <= i < self.frames@.len() ==> vframe_ok(#[trigger] self.frames@[i])
    }

    /// An empty track of the given mode.
    pub fn new(interpolation: Interpolation) -> (r: VectorTrack)
        ensures
            r.frames@.len() == 0,
            r.interpolation == interpolation,
            r.wf(),
    {
        VectorTrack { frames: Vec::new(), interpolation }
    }
}

impl QuaternionTrack {
    /// Well-formed per the track invariant: times sorted ascending and every
    /// time and value component in range.
    pub open spec fn wf(&self) -> bool {
        &&& times_sorted(qtimes(self.frames@))
        &&& forall|i: int| 0 <= i < self.frames@.len() ==> qframe_ok(#[trigger] self.frames@[i])
    }

    /// An empty track of the given mode.
    pub fn new(interpolation: Interpolation) -> (r: QuaternionTrack)
        ensures
            r.frames@.len() == 0,
            r.interpolation == interpolation,
            r.wf(),
    {
        QuaternionTrack { frames: Vec::new(), interpolation }
    }
}

/// The sampling time after loop or clamp adjustment: looping wraps `t` into
/// `[first, last)` by a Euclidean remainder over the span, clamping pins `t`
/// into `[first, last]`.
pub open spec fn spec_adjust_time(t: int, first: int, last: int, looping: bool) -> int {
    if looping {
        if last > first {
            first + (t - first) % (last - first)
        } else {
            first
        }
    } else {
        if t < first {
            first
        } else if t > last {
            last
        } else {
            t
        }
    }
}

/// The bracketing frame index: the largest `i` with `times[i] <= t`, or `-1`
/// when every time lies above `t`.
pub open spec fn spec_frame_index(times: Seq<int>, t: int) -> int
    decreases times.len(),
{
    if times.len() == 0 {
        -1
    } else if times[times.len() - 1] <= t {
        times.len() - 1
    } else {
        spec_frame_index(times.drop_last(), t)
    }
}

/// `spec_frame_index` is characterized by bracketing: `times[i] <= t` and
/// every later time lies strictly above `t`.
pub proof fn lemma_frame_index_char(times: Seq<int>, t: int, i: int)
    requires
        0 <= i < times.len(),
        times[i] <= t,
        forall|j: int| i < j < times.len() ==> times[j] > t,
    ensures
        spec_frame_index(times, t) == i,
    decreases times.len(),
{
    if i == times.len() - 1 {
    } else {
        assert(times[times.len() - 1] > t);
        assert(times.drop_last()[i] == times[i]);
        lemma_frame_index_char(times.drop_last(), t, i);
    }
}

/// The mapped time sequence of a vector track reads back pointwise.
pub proof fn lemma_vtimes_index(frames: Seq<VectorFrame>)
    ensures
        vtimes(frames).len() == frames.len(),
        forall|j: int| 0 <= j < frames.len() ==> #[trigger] vtimes(frames)[j] == frames[j].time,
{
}

/// The mapped time sequence of a quaternion track reads back pointwise.
pub proof fn lemma_qtimes_index(frames: Seq<QuaternionFrame>)
    ensures
        qtimes(frames).len() == frames.len(),
        forall|j: int| 0 <= j < frames.len() ==> #[trigger] qtimes(frames)[j] == frames[j].time,
{
}

/// Adjust a sampling time into the track's time range: wrap when looping,
/// clamp otherwise.
pub fn adjust_time(t: i64, first: i64, last: i64, looping: bool) -> (r: i64)
    requires
        -FX_LIMIT <= t <= FX_LIMIT,
        -FX_LIMIT <= first <= FX_LIMIT,
        first <= last <= FX_LIMIT,
    ensures
        r == spec_adjust_time(t as int, first as int, last as int, looping),
        first <= r <= last,
{
    if looping {
        let span = last - first;
        if span > 0 {
            let m = euclid_mod(t - first, span);
            first + m
        } else {
            first
        }
    } else {
        if t < first {
            first
        } else if t > last {
            last
        } else {
            t
        }
    }
}

/// Locate the bracketing frame of `tt` in a vector track: scans from the end
/// for the last frame at or before `tt`.
fn frame_index_vec(frames: &Vec<VectorFrame>, tt: i64) -> (i: usize)
    requires
        frames@.len() >= 1,
        frames@[0].time <= tt,
    ensures
        i < frames@.len(),
        i == spec_frame_index(vtimes(frames@), tt as int),
        frames@[i as int].time <= tt,
        i + 1 < frames@.len() ==> frames@[i + 1].time > tt,
{
    let n = frames.len();
    let mut i = n - 1;
    while frames[i].time > tt
        invariant
            frames@.len() == n,
            0 <= i < n,
            frames@[0].time <= tt,
            forall|j: int| i < j < n ==> frames@[j].time > tt,
        decreases i,
    {
        i = i - 1;
    }
    proof {
        lemma_vtimes_index(frames@);
        lemma_frame_index_char(vtimes(frames@), tt as int, i as int);
    }
    i
}

/// Locate the bracketing frame of `tt` in a quaternion track.
fn frame_index_quat(frames: &Vec<QuaternionFrame>, tt: i64) -> (i: usize)
    requires
        frames@.len() >= 1,
        frames@[0].time <= tt,
    ensures
        i < frames@.len(),
        i == spec_frame_index(qtimes(frames@), tt as int),
        frames@[i as int].time <= tt,
        i + 1 < frames@.len() ==> frames@[i + 1].time > tt,
{
    let n = frames.len();
    let mut i = n - 1;
    while frames[i].time > tt
        invariant
            frames@.len() == n,
            0 <= i < n,
            frames@[0].time <= tt,
            forall|j: int| i < j < n ==> frames@[j].time > tt,
        decreases i,
    {
        i = i - 1;
    }
    proof {
        lemma_qtimes_index(frames@);
        lemma_frame_index_char(qtimes(frames@), tt as int, i as int);
    }
    i
}

/// The sampled value of a vector track at time `t`: the fallback when empty,
/// the sole value when singular, and otherwise the (constant or linear) blend
/// of the bracketing pair at the adjusted time. `Cubic` blends linearly: the
/// keyframe model stores no tangents.
pub open spec fn spec_sample_vec(
    frames: Seq<VectorFrame>,
    interpolation: Interpolation,
    t: int,
    looping: bool,
    fallback: V3,
) -> V3 {
    let n = frames.len() as int;
    if n == 0 {
        fallback
    } else if n == 1 {
        frames[0].value@
    } else {
        let first = frames[0].time as int;
        let last = frames[n - 1].time as int;
        let tt = spec_adjust_time(t, first, last, looping);
        let i = spec_frame_index(vtimes(frames), tt);
        if i < 0 {
            frames[0].value@
        } else if i >= n - 1 {
            frames[n - 1].value@
        } else {
            let a = frames[i];
            let b = frames[i + 1];
            let den = b.time - a.time;
            if interpolation == Interpolation::Constant || den <= 0 {
                a.value@
            } else {
                spec_lerp_v3(a.value@, b.value@, tt - a.time, den as int)
            }
        }
    }
}

/// The sampled value of a quaternion track at time `t`: as the vector case,
/// but a linear blend takes the shortest arc and renormalizes.
pub open spec fn spec_sample_quat(
    frames: Seq<QuaternionFrame>,
    interpolation: Interpolation,
    t: int,
    looping: bool,
    fallback: Q4,
) -> Q4 {
    let n = frames.len() as int;
    if n == 0 {
        fallback
    } else if n == 1 {
        frames[0].value@
    } else {
        let first = frames[0].time as int;
        let last = frames[n - 1].time as int;
        let tt = spec_adjust_time(t, first, last, looping);
        let i = spec_frame_index(qtimes(frames), tt);
        if i < 0 {
            frames[0].value@
        } else if i >= n - 1 {
            frames[n - 1].value@
        } else {
            let a = frames[i];
            let b = frames[i + 1];
            let den = b.time - a.time;
            if interpolation == Interpolation::Constant || den <= 0 {
                a.value@
            } else {
                spec_normalize(spec_quat_mix(a.value@, b.value@, tt - a.time, den as int))
            }
        }
    }
}

impl VectorTrack {
    /// Sample the track at time `t`. An empty track yields `fallback`, a
    /// single keyframe yields its value regardless of `t`; otherwise `t` is
    /// wrapped (looping) or clamped into the track's time range and the
    /// bracketing pair blends per the interpolation mode.
    pub fn sample(&self, t: i64, looping: bool, fallback: &Vec3) -> (r: Vec3)
        requires
            self.wf(),
            -FX_LIMIT <= t <= FX_LIMIT,
            v3_bounded(fallback@),
        ensures
            r@ == spec_sample_vec(self.frames@, self.interpolation, t as int, looping, fallback@),
            v3_bounded(r@),
    {
        let n = self.frames.len();
        if n == 0 {
            return *fallback;
        }
        proof {
            assert(vframe_ok(self.frames@[0]));
            assert(vframe_ok(self.frames@[n - 1]));
            lemma_vtimes_index(self.frames@);
            assert(vtimes(self.frames@)[0] <= vtimes(self.frames@)[n - 1]);
        }
        if n == 1 {
            return self.frames[0].value;
        }
        let first = self.frames[0].time;
        let last = self.frames[n - 1].time;
        let tt = adjust_time(t, first, last, looping);
        let i = frame_index_vec(&self.frames, tt);
        if i >= n - 1 {
            return self.frames[n - 1].value;
        }
        proof {
            assert(vframe_ok(self.frames@[i as int]));
            assert(vframe_ok(self.frames@[i + 1]));
        }
        let a = self.frames[i];
        let b = self.frames[i + 1];
        let den = b.time - a.time;
        if matches!(self.interpolation, Interpolation::Constant) || den <= 0 {
            a.value
        } else {
            lerp_vec3(&a.value, &b.value, tt - a.time, den)
        }
    }
}

impl QuaternionTrack {
    /// Sample the track at time `t`: as the vector case, with the identity
    /// quaternion's role taken by `fallback` and linear blends renormalized
    /// along the shortest arc.
    pub fn sample(&self, t: i64, looping: bool, fallback: &Quat) -> (r: Quat)
        requires
            self.wf(),
            -FX_LIMIT <= t <= FX_LIMIT,
            q4_bounded(fallback@),
        ensures
            r@ == spec_sample_quat(self.frames@, self.interpolation, t as int, looping, fallback@),
            q4_bounded(r@),
    {
        let n = self.frames.len();
        if n == 0 {
            return *fallback;
        }
        proof {
            assert(qframe_ok(self.frames@[0]));
            assert(qframe_ok(self.frames@[n - 1]));
            lemma_qtimes_index(self.frames@);
            assert(qtimes(self.frames@)[0] <= qtimes(self.frames@)[n - 1]);
        }
        if n == 1 {
            return self.frames[0].value;
        }
        let first = self.frames[0].time;
        let last = self.frames[n - 1].time;
        let tt = adjust_time(t, first, last, looping);
        let i = frame_index_quat(&self.frames, tt);
        if i >= n - 1 {
            return self.frames[n - 1].value;
        }
        proof {
            assert(qframe_ok(self.frames@[i as int]));
            assert(qframe_ok(self.frames@[i + 1]));
        }
        let a = self.frames[i];
        let b = self.frames[i + 1];
        let den = b.time - a.time;
        if matches!(self.interpolation, Interpolation::Constant) || den <= 0 {
            a.value
        } else {
            let mixed = quat_mix(&a.value, &b.value, tt - a.time, den);
            quat_normalize(&mixed)
        }
    }
}

/// The loop period of a track: the span from its first to its last keyframe
/// time.
pub open spec fn vtrack_period(frames: Seq<VectorFrame>) -> int {
    if frames.len() == 0 {
        0
    } else {
        frames.last().time - frames[0].time
    }
}

/// The loop period of a quaternion track.
pub open spec fn qtrack_period(frames: Seq<QuaternionFrame>) -> int {
    if frames.len() == 0 {
        0
    } else {
        frames.last().time - frames[0].time
    }
}

/// Looping time adjustment is periodic in the track span.
proof fn lemma_adjust_time_periodic(t: int, first: int, last: int)
    ensures
        spec_adjust_time(t + (last - first), first, last, true) == spec_adjust_time(
            t,
            first,
            last,
            true,
        ),
{
    if last > first {
        let span = last - first;
        vstd::arithmetic::div_mod::lemma_mod_multiples_vanish(1, t - first, span);
        assert(1 * span + (t - first) == t + span - first);
    }
}

/// Looped sampling of a vector track is periodic: shifting the sampling time
/// by the track's span (last keyframe time minus first) leaves the sampled
/// value unchanged.
pub proof fn lemma_sample_vec_periodic(
    frames: Seq<VectorFrame>,
    interpolation: Interpolation,
    t: int,
    fallback: V3,
)
    ensures
        spec_sample_vec(frames, interpolation, t + vtrack_period(frames), true, fallback)
            == spec_sample_vec(frames, interpolation, t, true, fallback),
{
    if frames.len() >= 2 {
        lemma_adjust_time_periodic(t, frames[0].time as int, frames.last().time as int);
    }
}

/// Looped sampling of a quaternion track is periodic in the track's span.
pub proof fn lemma_sample_quat_periodic(
    frames: Seq<QuaternionFrame>,
    interpolation: Interpolation,
    t: int,
    fallback: Q4,
)
    ensures
        spec_sample_quat(frames, interpolation, t + qtrack_period(frames), true, fallback)
            == spec_sample_quat(frames, interpolation, t, true, fallback),
{
    if frames.len() >= 2 {
        lemma_adjust_time_periodic(t, frames[0].time as int, frames.last().time as int);
    }
}

/// Unlooped sampling clamps: any time at or below the first keyframe samples
/// the first keyframe's value, and any time at or above the last keyframe
/// samples the last keyframe's value. Stated for tracks with strictly
/// increasing times (duplicate-time keyframes shadow their predecessors).
pub proof fn lemma_sample_vec_clamped(
    frames: Seq<VectorFrame>,
    interpolation: Interpolation,
    t: int,
    fallback: V3,
)
    requires
        frames.len() >= 1,
        times_strict(vtimes(frames)),
    ensures
        t <= frames[0].time ==> spec_sample_vec(frames, interpolation, t, false, fallback)
            == frames[0].value@,
        t >= frames.last().time ==> spec_sample_vec(frames, interpolation, t, false, fallback)
            == frames.last().value@,
{
    let n = frames.len() as int;
    lemma_vtimes_index(frames);
    if n >= 2 {
        let times = vtimes(frames);
        let first = frames[0].time as int;
        let last = frames[n - 1].time as int;
        assert(times[0] < times[n - 1]);
        if t <= first {
            let tt = spec_adjust_time(t, first, last, false);
            assert(tt == first);
            lemma_frame_index_char(times, tt, 0);
            assert(times[0] < times[1]);
            let den = frames[1].time - frames[0].time;
            lemma_spec_lerp_endpoints(frames[0].value@.x, frames[1].value@.x, 0, den as int);
            lemma_spec_lerp_endpoints(frames[0].value@.y, frames[1].value@.y, 0, den as int);
            lemma_spec_lerp_endpoints(frames[0].value@.z, frames[1].value@.z, 0, den as int);
        }
        if t >= last {
            let tt = spec_adjust_time(t, first, last, false);
            assert(tt == last);
            lemma_frame_index_char(times, tt, n - 1);
        }
    }
}

/// Unlooped sampling of a quaternion track clamps, as the vector case; the
/// first keyframe must be exactly unit length so that renormalizing it is the
/// identity.
pub proof fn lemma_sample_quat_clamped(
    frames: Seq<QuaternionFrame>,
    interpolation: Interpolation,
    t: int,
    fallback: Q4,
)
    requires
        frames.len() >= 1,
        times_strict(qtimes(frames)),
        q4_dot(frames[0].value@, frames[0].value@) == FX_ONE * FX_ONE,
    ensures
        t <= frames[0].time ==> spec_sample_quat(frames, interpolation, t, false, fallback)
            == frames[0].value@,
        t >= frames.last().time ==> spec_sample_quat(frames, interpolation, t, false, fallback)
            == frames.last().value@,
{
    let n = frames.len() as int;
    lemma_qtimes_index(frames);
    if n >= 2 {
        let times = qtimes(frames);
        let first = frames[0].time as int;
        let last = frames[n - 1].time as int;
        assert(times[0] < times[n - 1]);
        if t <= first {
            let tt = spec_adjust_time(t, first, last, false);
            assert(tt == first);
            lemma_frame_index_char(times, tt, 0);
            assert(times[0] < times[1]);
            let a = frames[0].value@;
            let b = frames[1].value@;
            let den = frames[1].time - frames[0].time;
            let bb = if q4_dot(a, b) < 0 { crate::algebra::q4_neg(b) } else { b };
            lemma_spec_lerp_endpoints(a.x, bb.x, 0, den as int);
            lemma_spec_lerp_endpoints(a.y, bb.y, 0, den as int);
            lemma_spec_lerp_endpoints(a.z, bb.z, 0, den as int);
            lemma_spec_lerp_endpoints(a.w, bb.w, 0, den as int);
            lemma_normalize_unit(a);
        }
        if t >= last {
            let tt = spec_adjust_time(t, first, last, false);
            assert(tt == last);
            lemma_frame_index_char(times, tt, n - 1);
        }
    }
}

/// Sampling exactly at a keyframe's time (unlooped) reproduces that
/// keyframe's value. A blend fraction of one is the same point as a fraction
/// of zero in the next bracket, so this covers both ends of every bracketing
/// pair. Stated for tracks with strictly increasing times.
pub proof fn lemma_sample_vec_at_keyframe(
    frames: Seq<VectorFrame>,
    interpolation: Interpolation,
    k: int,
    fallback: V3,
)
    requires
        times_strict(vtimes(frames)),
        0 <= k < frames.len(),
    ensures
        spec_sample_vec(frames, interpolation, frames[k].time as int, false, fallback)
            == frames[k].value@,
{
    let n = frames.len() as int;
    lemma_vtimes_index(frames);
    if n >= 2 {
        let times = vtimes(frames);
        let t = frames[k].time as int;
        let first = frames[0].time as int;
        let last = frames[n - 1].time as int;
        assert(times[0] <= times[k] && times[k] <= times[n - 1]);
        let tt = spec_adjust_time(t, first, last, false);
        assert(tt == t);
        lemma_frame_index_char(times, tt, k);
        if k < n - 1 {
            assert(times[k] < times[k + 1]);
            let den = frames[k + 1].time - frames[k].time;
            lemma_spec_lerp_endpoints(frames[k].value@.x, frames[k + 1].value@.x, 0, den as int);
            lemma_spec_lerp_endpoints(frames[k].value@.y, frames[k + 1].value@.y, 0, den as int);
            lemma_spec_lerp_endpoints(frames[k].value@.z, frames[k + 1].value@.z, 0, den as int);
        }
    }
}

/// Sampling exactly at a keyframe's time (unlooped) reproduces that keyframe,
/// provided the keyframe is exactly unit length so that renormalizing it is
/// the identity.
pub proof fn lemma_sample_quat_at_keyframe(
    frames: Seq<QuaternionFrame>,
    interpolation: Interpolation,
    k: int,
    fallback: Q4,
)
    requires
        times_strict(qtimes(frames)),
        0 <= k < frames.len(),
        q4_dot(frames[k].value@, frames[k].value@) == FX_ONE * FX_ONE,
    ensures
        spec_sample_quat(frames, interpolation, frames[k].time as int, false, fallback)
            == frames[k].value@,
{
    let n = frames.len() as int;
    lemma_qtimes_index(frames);
    if n >= 2 {
        let times = qtimes(frames);
        let t = frames[k].time as int;
        let first = frames[0].time as int;
        let last = frames[n - 1].time as int;
        assert(times[0] <= times[k] && times[k] <= times[n - 1]);
        let tt = spec_adjust_time(t, first, last, false);
        assert(tt == t);
        lemma_frame_index_char(times, tt, k);
        if k < n - 1 {
            assert(times[k] < times[k + 1]);
            let a = frames[k].value@;
            let b = frames[k + 1].value@;
            let den = frames[k + 1].time - frames[k].time;
            let bb = if q4_dot(a, b) < 0 { crate::algebra::q4_neg(b) } else { b };
            lemma_spec_lerp_endpoints(a.x, bb.x, 0, den as int);
            lemma_spec_lerp_endpoints(a.y, bb.y, 0, den as int);
            lemma_spec_lerp_endpoints(a.z, bb.z, 0, den as int);
            lemma_spec_lerp_endpoints(a.w, bb.w, 0, den as int);
            lemma_normalize_unit(a);
        }
    }
}

} // verus!
