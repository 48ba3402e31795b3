//! The scene-graph import adapter: reads a plain-value source document model
//! (nodes with decomposed transforms and child lists, skins with joint tables
//! and raw inverse bind matrices, animations as channels of keyed samples)
//! and produces the engine-native mesh, skeleton and clip structures.
//!
//! The byte-level parsing of the container format is delegated to an outside
//! reader; this adapter consumes that reader's document object model, carried
//! here as plain values.

use crate::algebra::{Quat, Vec3};
use crate::clip::{Clip, TransformTrack};
use crate::error::{ImportError, Unsupported};
use crate::matrix::{
    mat_in_range, spec_mat_identity, spec_mat_transpose, transpose, Mat4,
};
use crate::mesh::{assemble_mesh, spec_streams_ok, spec_vertex_at, AttributeStreams, Mesh};
use crate::skeleton::{Pose, Transform};
use crate::track::{Interpolation, QuaternionTrack, VectorTrack};
use vstd::prelude::*;

verus! {

/// One node of the source document: its name (UTF-8 bytes), its decomposed
/// local transform, and the node indices of its children.
#[derive(Clone, Debug, PartialEq, Eq)]
pub struct SourceNode {
    pub name: Vec<u8>,
    pub transform: Transform,
    pub children: Vec<u32>,
}

/// One skin: the node indices of its joints in skin-local order, and one raw
/// inverse bind matrix per joint, still in the source document's convention
/// (import transposes them into the engine's row-major convention).
#[derive(Clone, Debug, PartialEq, Eq)]
pub struct SourceSkin {
    pub joints: Vec<u32>,
    pub inverse_bind: Vec<Mat4>,
}

/// One mesh primitive: its attribute streams and its index stream.
#[derive(Clone, Debug, PartialEq, Eq)]
pub struct SourcePrimitive {
    pub streams: AttributeStreams,
    pub indices: Vec<u32>,
}

/// The source document's named interpolation modes.
#[derive(Clone, Copy, Debug, PartialEq, Eq, Structural)]
pub enum SourceInterpolation {
    Step,
    Linear,
    CubicSpline,
}

/// The keyed samples of one animation channel: which transform property they
/// target decides which of the three tracks they fill.
#[derive(Clone, Debug, PartialEq, Eq)]
pub enum SourceSamples {
    Translations(Vec<Vec3>),
    Rotations(Vec<Quat>),
    Scales(Vec<Vec3>),
    /// A property this model does not animate (morph-target weights).
    Other,
}

/// One animation channel: the node it targets, its declared interpolation,
/// its keyframe times and samples. `sparse` marks a sparse keyframe accessor,
/// which is unsupported: the channel's track is left empty.
#[derive(Clone, Debug, PartialEq, Eq)]
pub struct SourceChannel {
    pub target: u32,
    pub interpolation: SourceInterpolation,
    pub times: Vec<i64>,
    pub samples: SourceSamples,
    pub sparse: bool,
}

/// One animation: its name and its channels.
#[derive(Clone, Debug, PartialEq, Eq)]
pub struct SourceAnimation {
    pub name: Vec<u8>,
    pub channels: Vec<SourceChannel>,
}

/// A whole scene-graph source document, as plain values.
#[derive(Clone, Debug, PartialEq, Eq)]
pub struct SourceDocument {
    pub nodes: Vec<SourceNode>,
    pub skins: Vec<SourceSkin>,
    pub primitives: Vec<SourcePrimitive>,
    pub animations: Vec<SourceAnimation>,
}

/// Copy a byte string.
fn copy_bytes(v: &Vec<u8>) -> (r: Vec<u8>)
    ensures
        r@ == v@,
{
    let mut out: Vec<u8> = Vec::new();
    let mut i: usize = 0;
    while i < v.len()
        invariant
            i <= v@.len(),
            out@ == v@.take(i as int),
        decreases v@.len() - i,
    {
        out.push(v[i]);
        proof {
            assert(out@ =~= v@.take(i + 1));
        }
        i = i + 1;
    }
    proof {
        assert(v@.take(v@.len() as int) =~= v@);
    }
    out
}

/// `c` occurs among the first `k` children of the node.
pub open spec fn child_in_prefix(node: SourceNode, k: int, c: int) -> bool {
    exists|t: int| 0 <= t < k && node.children@[t] == c
}

/// `c` is a declared child of the node.
pub open spec fn node_has_child(node: SourceNode, c: int) -> bool {
    child_in_prefix(node, node.children@.len() as int, c)
}

/// The parent that the two-pass rest-pose build assigns to node `c`: the
/// highest-indexed node declaring `c` among its children (a later declaration
/// overwrites an earlier one), or the root sentinel when none does.
pub open spec fn spec_parent(nodes: Seq<SourceNode>, c: int) -> int
    decreases nodes.len(),
{
    if nodes.len() == 0 {
        -1
    } else if node_has_child(nodes.last(), c) {
        nodes.len() - 1
    } else {
        spec_parent(nodes.drop_last(), c)
    }
}

/// The rest pose can be extracted: the node count fits the signed parent
/// index range and every declared child index refers to a node.
pub open spec fn rest_pose_extractable(nodes: Seq<SourceNode>) -> bool {
    &&& nodes.len() <= 0x7FFF_FFFF
    &&& forall|i: int, k: int|
        0 <= i < nodes.len() && 0 <= k < nodes[i].children@.len()
            ==> (#[trigger] nodes[i].children@[k]) < nodes.len()
}

/// Appending a node reparents exactly the node's declared children onto it.
proof fn lemma_spec_parent_step(nodes: Seq<SourceNode>, i: int, c: int)
    requires
        0 <= i < nodes.len(),
    ensures
        spec_parent(nodes.take(i + 1), c) == (if node_has_child(nodes[i], c) {
            i
        } else {
            spec_parent(nodes.take(i), c)
        }),
{
    assert(nodes.take(i + 1).drop_last() =~= nodes.take(i));
    assert(nodes.take(i + 1).last() == nodes[i]);
}

/// The skin-local slot that the inverse-bind scatter leaves in charge of
/// joint `j`: the highest slot whose joint index is `j`, or `-1`.
pub open spec fn spec_skin_slot(joints: Seq<u32>, j: int) -> int
    decreases joints.len(),
{
    if joints.len() == 0 {
        -1
    } else if joints.last() == j {
        joints.len() - 1
    } else {
        spec_skin_slot(joints.drop_last(), j)
    }
}

/// The inverse bind matrix the scatter leaves at joint `j`: the transposed
/// source matrix of its skin slot, or the identity for a joint outside the
/// skin.
pub open spec fn spec_ibm_at(skin: SourceSkin, j: int) -> Seq<int> {
    let slot = spec_skin_slot(skin.joints@, j);
    if slot >= 0 {
        spec_mat_transpose(skin.inverse_bind@[slot]@)
    } else {
        spec_mat_identity()
    }
}

/// The inverse bind matrices can be extracted from a skin: one matrix per
/// joint, every matrix well-formed, every joint index inside the node range.
pub open spec fn skin_extractable(skin: SourceSkin, node_count: int) -> bool {
    &&& skin.inverse_bind@.len() == skin.joints@.len()
    &&& forall|k: int| 0 <= k < skin.joints@.len() ==> (#[trigger] skin.joints@[k]) < node_count
    &&& forall|k: int| 0 <= k < skin.inverse_bind@.len() ==> (#[trigger] skin.inverse_bind@[k]).wf()
}

/// The skin-local-to-global joint index table of the document: the first
/// skin's joint list, or empty when the document has no skin.
pub open spec fn spec_joint_table(skins: Seq<SourceSkin>) -> Seq<i32> {
    if skins.len() == 0 {
        Seq::empty()
    } else {
        skins[0].joints@.map_values(|x: u32| x as i32)
    }
}

impl SourceDocument {
    /// The per-node names, in node-index order; the skeleton's joint names.
    pub fn load_joint_names(&self) -> (r: Vec<Vec<u8>>)
        ensures
            r@.len() == self.nodes@.len(),
            forall|i: int| 0 <= i < r@.len() ==> (#[trigger] r@[i])@ == self.nodes@[i].name@,
    {
        let mut names: Vec<Vec<u8>> = Vec::new();
        let mut i: usize = 0;
        while i < self.nodes.len()
            invariant
                i <= self.nodes@.len(),
                names@.len() == i,
                forall|j: int| 0 <= j < i ==> (#[trigger] names@[j])@ == self.nodes@[j].name@,
            decreases self.nodes@.len() - i,
        {
            names.push(copy_bytes(&self.nodes[i].name));
            i = i + 1;
        }
        names
    }

    /// The decomposed local transform of a node.
    pub fn get_local_transform(node: &SourceNode) -> (r: Transform)
        ensures
            r == node.transform,
    {
        node.transform
    }

    /// Extract the rest pose in two passes: first one joint slot per node
    /// with the node's local transform and a root-sentinel parent, then fill
    /// parent links by visiting each node's declared children (a child
    /// declared by several nodes keeps the last declaration). Fails with
    /// `MalformedDocument` exactly when a child index points past the nodes
    /// or the node count exceeds the parent index range.
    pub fn exctract_rest_pose(&self) -> (r: Result<Pose, ImportError>)
        ensures
            r is Ok <==> rest_pose_extractable(self.nodes@),
            r matches Ok(p) ==> p.joints@.len() == self.nodes@.len() && p.parents@.len()
                == self.nodes@.len() && (forall|i: int|
                0 <= i < self.nodes@.len() ==> #[trigger] p.joints@[i]
                    == self.nodes@[i].transform) && (forall|c: int|
                0 <= c < self.nodes@.len() ==> #[trigger] p.parents@[c] as int == spec_parent(
                    self.nodes@,
                    c,
                )),
            r matches Err(e) ==> e == ImportError::MalformedDocument,
    {
        let n = self.nodes.len();
        if n > 0x7FFF_FFFF {
            return Err(ImportError::MalformedDocument);
        }
        let mut joints: Vec<Transform> = Vec::new();
        let mut parents: Vec<i32> = Vec::new();
        let mut i: usize = 0;
        while i < n
            invariant
                n == self.nodes@.len(),
                i <= n,
                joints@.len() == i,
                parents@.len() == i,
                forall|j: int| 0 <= j < i ==> #[trigger] joints@[j] == self.nodes@[j].transform,
                forall|j: int| 0 <= j < i ==> #[trigger] parents@[j] == -1,
            decreases n - i,
        {
            joints.push(self.nodes[i].transform);
            parents.push(-1);
            i = i + 1;
        }
        proof {
            assert forall|c: int| 0 <= c < n implies #[trigger] parents@[c] as int == spec_parent(
                self.nodes@.take(0),
                c,
            ) by {
                assert(self.nodes@.take(0).len() == 0);
            }
        }
        let mut i: usize = 0;
        while i < n
            invariant
                n == self.nodes@.len(),
                n <= 0x7FFF_FFFF,
                i <= n,
                joints@.len() == n,
                parents@.len() == n,
                forall|j: int| 0 <= j < n ==> #[trigger] joints@[j] == self.nodes@[j].transform,
                forall|c: int|
                    0 <= c < n ==> #[trigger] parents@[c] as int == spec_parent(
                        self.nodes@.take(i as int),
                        c,
                    ),
                forall|j: int, k: int|
                    0 <= j < i && 0 <= k < self.nodes@[j].children@.len()
                        ==> (#[trigger] self.nodes@[j].children@[k]) < n,
            decreases n - i,
        {
            let node = &self.nodes[i];
            let mut k: usize = 0;
            while k < node.children.len()
                invariant
                    n == self.nodes@.len(),
                    n <= 0x7FFF_FFFF,
                    i < n,
                    node == &self.nodes@[i as int],
                    k <= node.children@.len(),
                    parents@.len() == n,
                    forall|c: int|
                        0 <= c < n ==> #[trigger] parents@[c] as int == (if child_in_prefix(
                            self.nodes@[i as int],
                            k as int,
                            c,
                        ) {
                            i as int
                        } else {
                            spec_parent(self.nodes@.take(i as int), c)
                        }),
                    forall|t: int|
                        0 <= t < k ==> (#[trigger] node.children@[t]) < n,
                decreases node.children@.len() - k,
            {
                let c = node.children[k];
                if c as usize >= n {
                    proof {
                        assert(!rest_pose_extractable(self.nodes@));
                    }
                    return Err(ImportError::MalformedDocument);
                }
                parents[c as usize] = i as i32;
                proof {
                    let ghost node_g = self.nodes@[i as int];
                    assert(child_in_prefix(node_g, k + 1, c as int)) by {
                        assert(node_g.children@[k as int] == c);
                    }
                    assert forall|cc: int|
                        0 <= cc < n && cc != c as int implies child_in_prefix(node_g, k + 1, cc)
                        == child_in_prefix(node_g, k as int, cc) by {
                        if child_in_prefix(node_g, k + 1, cc) {
                            let t = choose|t: int|
                                0 <= t < k + 1 && node_g.children@[t] == cc;
                            if t == k {
                                assert(node_g.children@[t] == c);
                            } else {
                                assert(child_in_prefix(node_g, k as int, cc));
                            }
                        }
                        if child_in_prefix(node_g, k as int, cc) {
                            let t = choose|t: int| 0 <= t < k && node_g.children@[t] == cc;
                            assert(child_in_prefix(node_g, k + 1, cc));
                        }
                    }
                }
                k = k + 1;
            }
            proof {
                assert forall|c: int| 0 <= c < n implies #[trigger] parents@[c] as int
                    == spec_parent(self.nodes@.take(i + 1), c) by {
                    lemma_spec_parent_step(self.nodes@, i as int, c);
                    assert(node_has_child(self.nodes@[i as int], c) == child_in_prefix(
                        self.nodes@[i as int],
                        self.nodes@[i as int].children@.len() as int,
                        c,
                    ));
                }
            }
            i = i + 1;
        }
        proof {
            assert(self.nodes@.take(n as int) =~= self.nodes@);
        }
        Ok(Pose { joints, parents })
    }

    /// Extract the inverse bind matrix set: the identity for every joint,
    /// overwritten for each joint of the (first) skin by that joint's source
    /// matrix transposed into the engine's row-major convention. Fails with
    /// `MalformedDocument` exactly when the skin's matrix count differs from
    /// its joint count, a joint index points past the nodes, or a matrix is
    /// malformed or out of range. A document with more than one skin degrades:
    /// only the first skin is applied, and the condition is reported.
    pub fn extract_inverse_bind_mats(&self) -> (r: Result<
        (Vec<Mat4>, Vec<Unsupported>),
        ImportError,
    >)
        ensures
            r is Ok <==> (self.skins@.len() == 0 || skin_extractable(
                self.skins@[0],
                self.nodes@.len() as int,
            )),
            r matches Ok((mats, warns)) ==> mats@.len() == self.nodes@.len() && (forall|j: int|
                0 <= j < mats@.len() ==> (#[trigger] mats@[j])@ == (if self.skins@.len() > 0 {
                    spec_ibm_at(self.skins@[0], j)
                } else {
                    spec_mat_identity()
                })) && (warns@.len() > 0 <==> self.skins@.len() > 1) && (forall|w: int|
                0 <= w < warns@.len() ==> warns@[w] == Unsupported::MultipleSkins) && (forall|
                j: int,
            |
                0 <= j < mats@.len() ==> (#[trigger] mats@[j]).wf()),
            r matches Err(e) ==> e == ImportError::MalformedDocument,
    {
        let n = self.nodes.len();
        let mut mats: Vec<Mat4> = Vec::new();
        let mut j: usize = 0;
        while j < n
            invariant
                j <= n,
                mats@.len() == j,
                forall|t: int|
                    0 <= t < j ==> (#[trigger] mats@[t])@ == spec_mat_identity() && mats@[t].wf(),
            decreases n - j,
        {
            mats.push(Mat4::new());
            j = j + 1;
        }
        if self.skins.len() == 0 {
            return Ok((mats, Vec::new()));
        }
        let skin = &self.skins[0];
        let m = skin.joints.len();
        if skin.inverse_bind.len() != m {
            return Err(ImportError::MalformedDocument);
        }
        let mut k: usize = 0;
        while k < m
            invariant
                n == self.nodes@.len(),
                self.skins@.len() > 0,
                skin == &self.skins@[0],
                m == skin.joints@.len(),
                skin.inverse_bind@.len() == m,
                k <= m,
                mats@.len() == n,
                forall|t: int|
                    0 <= t < k ==> (#[trigger] skin.joints@[t]) < n && skin.inverse_bind@[t].wf(),
                forall|j: int|
                    0 <= j < n ==> (#[trigger] mats@[j])@ == ({
                        let slot = spec_skin_slot(skin.joints@.take(k as int), j);
                        if slot >= 0 {
                            spec_mat_transpose(skin.inverse_bind@[slot]@)
                        } else {
                            spec_mat_identity()
                        }
                    }) && mats@[j].wf(),
            decreases m - k,
        {
            let target = skin.joints[k];
            if target as usize >= n {
                proof {
                    assert(!skin_extractable(self.skins@[0], self.nodes@.len() as int));
                }
                return Err(ImportError::MalformedDocument);
            }
            if !mat_in_range(&skin.inverse_bind[k]) {
                proof {
                    assert(!(#[trigger] skin.inverse_bind@[k as int]).wf());
                    assert(!skin_extractable(self.skins@[0], self.nodes@.len() as int));
                }
                return Err(ImportError::MalformedDocument);
            }
            let t = transpose(&skin.inverse_bind[k]);
            mats[target as usize] = t;
            proof {
                assert forall|j: int| 0 <= j < n implies #[trigger] mats@[j]@ == ({
                    let slot = spec_skin_slot(skin.joints@.take(k + 1), j);
                    if slot >= 0 {
                        spec_mat_transpose(skin.inverse_bind@[slot]@)
                    } else {
                        spec_mat_identity()
                    }
                }) by {
                    assert(skin.joints@.take(k + 1).drop_last() =~= skin.joints@.take(k as int));
                    assert(skin.joints@.take(k + 1).last() == skin.joints@[k as int]);
                }
            }
            k = k + 1;
        }
        proof {
            assert(skin.joints@.take(m as int) =~= skin.joints@);
            assert forall|t: int| 0 <= t < self.skins@[0].joints@.len() implies (
            #[trigger] self.skins@[0].joints@[t]) < self.nodes@.len() as int by {
                assert(self.skins@[0].joints@[t] == skin.joints@[t]);
                assert(skin.joints@[t] < n);
            }
            assert forall|t: int| 0 <= t < self.skins@[0].inverse_bind@.len() implies (
            #[trigger] self.skins@[0].inverse_bind@[t]).wf() by {
                assert(skin.joints@[t] < n);
                assert(self.skins@[0].inverse_bind@[t] == skin.inverse_bind@[t]);
            }
            assert(skin_extractable(self.skins@[0], self.nodes@.len() as int));
        }
        let mut warns: Vec<Unsupported> = Vec::new();
        if self.skins.len() > 1 {
            warns.push(Unsupported::MultipleSkins);
        }
        Ok((mats, warns))
    }

    /// Assemble every mesh primitive against the (first) skin's joint table.
    /// Fails exactly as the assembler does on the first failing primitive,
    /// and with `MalformedDocument` when a table entry exceeds the signed
    /// index range.
    pub fn meshes(&self) -> (r: Result<Vec<Mesh>, ImportError>)
        ensures
            r is Ok <==> (joint_table_ok(self.skins@) && forall|p: int|
                0 <= p < self.primitives@.len() ==> spec_streams_ok(
                    (#[trigger] self.primitives@[p]).streams,
                    self.primitives@[p].indices@,
                    spec_joint_table(self.skins@),
                )),
            r matches Ok(ms) ==> ms@.len() == self.primitives@.len() && (forall|p: int, i: int|
                0 <= p < ms@.len() && 0 <= i
                    < self.primitives@[p].streams.positions@.len() ==> (#[trigger] ms@[p].vertices@[i])
                    == spec_vertex_at(
                    self.primitives@[p].streams,
                    spec_joint_table(self.skins@),
                    i,
                )) && (forall|p: int|
                0 <= p < ms@.len() ==> (#[trigger] ms@[p]).indices@
                    == self.primitives@[p].indices@ && ms@[p].vertices@.len()
                    == self.primitives@[p].streams.positions@.len()),
            r matches Err(e) ==> e == ImportError::AttributeLengthMismatch || e
                == ImportError::MalformedDocument,
    {
        let table = match self.build_joint_table() {
            Ok(t) => t,
            Err(e) => {
                return Err(e);
            },
        };
        let mut out: Vec<Mesh> = Vec::new();
        let mut p: usize = 0;
        while p < self.primitives.len()
            invariant
                table@ == spec_joint_table(self.skins@),
                p <= self.primitives@.len(),
                out@.len() == p,
                forall|q: int|
                    0 <= q < p ==> spec_streams_ok(
                        (#[trigger] self.primitives@[q]).streams,
                        self.primitives@[q].indices@,
                        spec_joint_table(self.skins@),
                    ),
                forall|q: int, i: int|
                    0 <= q < p && 0 <= i
                        < self.primitives@[q].streams.positions@.len() ==> (#[trigger] out@[q].vertices@[i])
                        == spec_vertex_at(
                        self.primitives@[q].streams,
                        spec_joint_table(self.skins@),
                        i,
                    ),
                forall|q: int|
                    0 <= q < p ==> (#[trigger] out@[q]).indices@ == self.primitives@[q].indices@
                        && out@[q].vertices@.len() == self.primitives@[q].streams.positions@.len(),
            decreases self.primitives@.len() - p,
        {
            let prim = &self.primitives[p];
            match assemble_mesh(&prim.streams, &prim.indices, &table) {
                Ok(m) => {
                    out.push(m);
                },
                Err(e) => {
                    return Err(e);
                },
            }
            p = p + 1;
        }
        Ok(out)
    }

    /// The skin-local-to-global joint index table: the first skin's joint
    /// list as signed indices; empty without a skin.
    fn build_joint_table(&self) -> (r: Result<Vec<i32>, ImportError>)
        ensures
            r is Ok <==> joint_table_ok(self.skins@),
            r matches Ok(t) ==> t@ == spec_joint_table(self.skins@),
            r matches Err(e) ==> e == ImportError::MalformedDocument,
    {
        let mut table: Vec<i32> = Vec::new();
        if self.skins.len() == 0 {
            proof {
                assert(table@ =~= spec_joint_table(self.skins@));
            }
            return Ok(table);
        }
        let skin = &self.skins[0];
        let m = skin.joints.len();
        let mut k: usize = 0;
        while k < m
            invariant
                skin == &self.skins@[0],
                self.skins@.len() > 0,
                m == skin.joints@.len(),
                k <= m,
                table@.len() == k,
                forall|t: int| 0 <= t < k ==> (#[trigger] skin.joints@[t]) <= 0x7FFF_FFFF,
                forall|t: int|
                    0 <= t < k ==> #[trigger] table@[t] == skin.joints@[t] as i32,
            decreases m - k,
        {
            let j = skin.joints[k];
            if j > 0x7FFF_FFFF {
                proof {
                    assert(!joint_table_ok(self.skins@));
                }
                return Err(ImportError::MalformedDocument);
            }
            table.push(j as i32);
            k = k + 1;
        }
        proof {
            assert(table@ =~= spec_joint_table(self.skins@));
        }
        Ok(table)
    }
}

/// The engine interpolation mode of a source-document mode name:
/// `step` maps to constant, `linear` to linear, `cubic-spline` to cubic
/// (which, carrying no tangent data, blends linearly).
pub open spec fn spec_interp_of(si: SourceInterpolation) -> Interpolation {
    match si {
        SourceInterpolation::Step => Interpolation::Constant,
        SourceInterpolation::Linear => Interpolation::Linear,
        SourceInterpolation::CubicSpline => Interpolation::Cubic,
    }
}

/// The first `m` keyframe times are sorted ascending, in fixed-point range,
/// and at least `m` times are present.
pub open spec fn times_valid(times: Seq<i64>, m: int) -> bool {
    &&& times.len() >= m
    &&& forall|i: int, j: int| 0 <= i <= j < m ==> times[i] <= times[j]
    &&& forall|i: int| 0 <= i < m ==> -crate::num::FX_LIMIT <= #[trigger] times[i]
        <= crate::num::FX_LIMIT
}

/// A vector-valued sample set pairs with its times: enough sorted bounded
/// times and every value in range.
pub open spec fn vec_samples_valid(times: Seq<i64>, vals: Seq<Vec3>) -> bool {
    &&& times_valid(times, vals.len() as int)
    &&& forall|i: int| 0 <= i < vals.len() ==> crate::algebra::v3_bounded((#[trigger] vals[i])@)
}

/// A quaternion-valued sample set pairs with its times.
pub open spec fn quat_samples_valid(times: Seq<i64>, vals: Seq<Quat>) -> bool {
    &&& times_valid(times, vals.len() as int)
    &&& forall|i: int| 0 <= i < vals.len() ==> crate::algebra::q4_bounded((#[trigger] vals[i])@)
}

/// A channel converts into a track: sparse channels always (they degrade to
/// an empty track), keyed channels when their samples pair with their times.
pub open spec fn channel_valid(ch: SourceChannel) -> bool {
    ch.sparse || match ch.samples {
        SourceSamples::Translations(vals) => vec_samples_valid(ch.times@, vals@),
        SourceSamples::Rotations(vals) => quat_samples_valid(ch.times@, vals@),
        SourceSamples::Scales(vals) => vec_samples_valid(ch.times@, vals@),
        SourceSamples::Other => true,
    }
}

/// The track a channel converts into: the declared interpolation on all
/// three component tracks, the channel's property track filled with its
/// time/value pairs, the other two empty; a sparse or morph-weight channel
/// leaves all three empty.
pub open spec fn track_matches_channel(ch: SourceChannel, tt: TransformTrack) -> bool {
    let interp = spec_interp_of(ch.interpolation);
    &&& tt.id == ch.target
    &&& tt.position.interpolation == interp
    &&& tt.rotation.interpolation == interp
    &&& tt.scaling.interpolation == interp
    &&& if ch.sparse {
        tt.position.frames@.len() == 0 && tt.rotation.frames@.len() == 0
            && tt.scaling.frames@.len() == 0
    } else {
        match ch.samples {
            SourceSamples::Translations(vals) => {
                &&& tt.rotation.frames@.len() == 0
                &&& tt.scaling.frames@.len() == 0
                &&& tt.position.frames@.len() == vals@.len()
                &&& forall|i: int|
                    0 <= i < vals@.len() ==> (#[trigger] tt.position.frames@[i]).time
                        == ch.times@[i] && tt.position.frames@[i].value == vals@[i]
            },
            SourceSamples::Rotations(vals) => {
                &&& tt.position.frames@.len() == 0
                &&& tt.scaling.frames@.len() == 0
                &&& tt.rotation.frames@.len() == vals@.len()
                &&& forall|i: int|
                    0 <= i < vals@.len() ==> (#[trigger] tt.rotation.frames@[i]).time
                        == ch.times@[i] && tt.rotation.frames@[i].value == vals@[i]
            },
            SourceSamples::Scales(vals) => {
                &&& tt.position.frames@.len() == 0
                &&& tt.rotation.frames@.len() == 0
                &&& tt.scaling.frames@.len() == vals@.len()
                &&& forall|i: int|
                    0 <= i < vals@.len() ==> (#[trigger] tt.scaling.frames@[i]).time
                        == ch.times@[i] && tt.scaling.frames@[i].value == vals@[i]
            },
            SourceSamples::Other => {
                &&& tt.position.frames@.len() == 0
                &&& tt.rotation.frames@.len() == 0
                &&& tt.scaling.frames@.len() == 0
            },
        }
    }
}

/// Build the vector keyframes of a keyed channel: value `i` paired with time
/// `i`. Fails with `MalformedDocument` exactly when times run short, are
/// unsorted or out of range, or a value is out of range.
fn build_vector_frames(times: &Vec<i64>, vals: &Vec<Vec3>) -> (r: Result<
    Vec<crate::track::VectorFrame>,
    ImportError,
>)
    ensures
        r is Ok <==> vec_samples_valid(times@, vals@),
        r matches Ok(fs) ==> fs@.len() == vals@.len() && (forall|i: int|
            0 <= i < vals@.len() ==> (#[trigger] fs@[i]).time == times@[i] && fs@[i].value
                == vals@[i]) && crate::track::times_sorted(crate::track::vtimes(fs@)) && (forall|
            i: int,
        |
            0 <= i < fs@.len() ==> crate::track::vframe_ok(#[trigger] fs@[i])),
        r matches Err(e) ==> e == ImportError::MalformedDocument,
{
    let m = vals.len();
    if times.len() < m {
        return Err(ImportError::MalformedDocument);
    }
    let mut fs: Vec<crate::track::VectorFrame> = Vec::new();
    let mut i: usize = 0;
    while i < m
        invariant
            m == vals@.len(),
            times@.len() >= m,
            i <= m,
            fs@.len() == i,
            forall|j: int|
                0 <= j < i ==> (#[trigger] fs@[j]).time == times@[j] && fs@[j].value == vals@[j],
            forall|j: int, k: int| 0 <= j <= k < i ==> times@[j] <= times@[k],
            forall|j: int|
                0 <= j < i ==> -crate::num::FX_LIMIT <= #[trigger] times@[j]
                    <= crate::num::FX_LIMIT,
            forall|j: int| 0 <= j < i ==> crate::algebra::v3_bounded((#[trigger] vals@[j])@),
        decreases m - i,
    {
        let t = times[i];
        if !crate::num::in_fx_range(t) {
            return Err(ImportError::MalformedDocument);
        }
        if i > 0 && times[i - 1] > t {
            return Err(ImportError::MalformedDocument);
        }
        let v = vals[i];
        if !(crate::num::in_fx_range(v.x) && crate::num::in_fx_range(v.y)
            && crate::num::in_fx_range(v.z)) {
            return Err(ImportError::MalformedDocument);
        }
        fs.push(crate::track::VectorFrame { time: t, value: v });
        i = i + 1;
    }
    proof {
        crate::track::lemma_vtimes_index(fs@);
    }
    Ok(fs)
}

/// Build the quaternion keyframes of a keyed channel, as the vector case.
fn build_quat_frames(times: &Vec<i64>, vals: &Vec<Quat>) -> (r: Result<
    Vec<crate::track::QuaternionFrame>,
    ImportError,
>)
    ensures
        r is Ok <==> quat_samples_valid(times@, vals@),
        r matches Ok(fs) ==> fs@.len() == vals@.len() && (forall|i: int|
            0 <= i < vals@.len() ==> (#[trigger] fs@[i]).time == times@[i] && fs@[i].value
                == vals@[i]) && crate::track::times_sorted(crate::track::qtimes(fs@)) && (forall|
            i: int,
        |
            0 <= i < fs@.len() ==> crate::track::qframe_ok(#[trigger] fs@[i])),
        r matches Err(e) ==> e == ImportError::MalformedDocument,
{
    let m = vals.len();
    if times.len() < m {
        return Err(ImportError::MalformedDocument);
    }
    let mut fs: Vec<crate::track::QuaternionFrame> = Vec::new();
    let mut i: usize = 0;
    while i < m
        invariant
            m == vals@.len(),
            times@.len() >= m,
            i <= m,
            fs@.len() == i,
            forall|j: int|
                0 <= j < i ==> (#[trigger] fs@[j]).time == times@[j] && fs@[j].value == vals@[j],
            forall|j: int, k: int| 0 <= j <= k < i ==> times@[j] <= times@[k],
            forall|j: int|
                0 <= j < i ==> -crate::num::FX_LIMIT <= #[trigger] times@[j]
                    <= crate::num::FX_LIMIT,
            forall|j: int| 0 <= j < i ==> crate::algebra::q4_bounded((#[trigger] vals@[j])@),
        decreases m - i,
    {
        let t = times[i];
        if !crate::num::in_fx_range(t) {
            return Err(ImportError::MalformedDocument);
        }
        if i > 0 && times[i - 1] > t {
            return Err(ImportError::MalformedDocument);
        }
        let v = vals[i];
        if !(crate::algebra::in_quat_range(v.x) && crate::algebra::in_quat_range(v.y)
            && crate::algebra::in_quat_range(v.z) && crate::algebra::in_quat_range(v.w)) {
            return Err(ImportError::MalformedDocument);
        }
        fs.push(crate::track::QuaternionFrame { time: t, value: v });
        i = i + 1;
    }
    proof {
        crate::track::lemma_qtimes_index(fs@);
    }
    Ok(fs)
}

/// Convert one animation channel into a transform track: the channel's
/// property track is filled with its time/value pairs, the other two stay
/// empty, and all three carry the channel's declared interpolation mode. A
/// sparse channel degrades to an empty track rather than aborting the
/// import.
pub fn extract_animation(channel: &SourceChannel) -> (r: Result<TransformTrack, ImportError>)
    ensures
        r is Ok <==> channel_valid(*channel),
        r matches Ok(tt) ==> track_matches_channel(*channel, tt) && tt.wf(),
        r matches Err(e) ==> e == ImportError::MalformedDocument,
{
    let interp = match channel.interpolation {
        SourceInterpolation::Step => Interpolation::Constant,
        SourceInterpolation::Linear => Interpolation::Linear,
        SourceInterpolation::CubicSpline => Interpolation::Cubic,
    };
    let mut tt = TransformTrack::new();
    tt.id = channel.target;
    tt.position.interpolation = interp;
    tt.rotation.interpolation = interp;
    tt.scaling.interpolation = interp;
    if channel.sparse {
        return Ok(tt);
    }
    match &channel.samples {
        SourceSamples::Translations(vals) => {
            match build_vector_frames(&channel.times, vals) {
                Ok(fs) => {
                    tt.position.frames = fs;
                    Ok(tt)
                },
                Err(e) => Err(e),
            }
        },
        SourceSamples::Rotations(vals) => {
            match build_quat_frames(&channel.times, vals) {
                Ok(fs) => {
                    tt.rotation.frames = fs;
                    Ok(tt)
                },
                Err(e) => Err(e),
            }
        },
        SourceSamples::Scales(vals) => {
            match build_vector_frames(&channel.times, vals) {
                Ok(fs) => {
                    tt.scaling.frames = fs;
                    Ok(tt)
                },
                Err(e) => Err(e),
            }
        },
        SourceSamples::Other => Ok(tt),
    }
}

/// Every entry of the first skin's joint list fits the signed index range.
pub open spec fn joint_table_ok(skins: Seq<SourceSkin>) -> bool {
    skins.len() == 0 || forall|t: int|
        0 <= t < skins[0].joints@.len() ==> (#[trigger] skins[0].joints@[t]) <= 0x7FFF_FFFF
}

/// How many of the channels are sparse.
pub open spec fn sparse_count_channels(chs: Seq<SourceChannel>) -> int
    decreases chs.len(),
{
    if chs.len() == 0 {
        0
    } else {
        sparse_count_channels(chs.drop_last()) + if chs.last().sparse {
            1int
        } else {
            0int
        }
    }
}

/// How many sparse channels the animations hold in all.
pub open spec fn sparse_count(anims: Seq<SourceAnimation>) -> int
    decreases anims.len(),
{
    if anims.len() == 0 {
        0
    } else {
        sparse_count(anims.drop_last()) + sparse_count_channels(anims.last().channels@)
    }
}

/// Every channel of every animation converts.
pub open spec fn animations_valid(anims: Seq<SourceAnimation>) -> bool {
    forall|a: int, c: int|
        0 <= a < anims.len() && 0 <= c < anims[a].channels@.len() ==> channel_valid(
            #[trigger] anims[a].channels@[c],
        )
}

/// A produced clip matches its source animation: same name, one track per
/// channel, each matching its channel, and the cached duration recomputed.
pub open spec fn clip_matches_animation(anim: SourceAnimation, clip: Clip) -> bool {
    &&& clip.name@ == anim.name@
    &&& clip.tracks@.len() == anim.channels@.len()
    &&& forall|c: int|
        0 <= c < anim.channels@.len() ==> track_matches_channel(
            #[trigger] anim.channels@[c],
            clip.tracks@[c],
        )
    &&& clip.duration == crate::clip::spec_clip_duration(clip.tracks@)
    &&& clip.wf()
}

impl SourceDocument {
    /// Convert every animation into a clip: one transform track per channel
    /// and the duration recomputed once all tracks are in. Sparse channels
    /// degrade to empty tracks, each reported once; any other malformed
    /// channel aborts the import.
    pub fn extrat_animations(&self) -> (r: Result<(Vec<Clip>, Vec<Unsupported>), ImportError>)
        ensures
            r is Ok <==> animations_valid(self.animations@),
            r matches Ok((clips, warns)) ==> clips@.len() == self.animations@.len() && (forall|
                a: int,
            |
                0 <= a < clips@.len() ==> clip_matches_animation(
                    #[trigger] self.animations@[a],
                    clips@[a],
                )) && warns@.len() == sparse_count(self.animations@) && (forall|w: int|
                0 <= w < warns@.len() ==> warns@[w] == Unsupported::SparseKeyframes),
            r matches Err(e) ==> e == ImportError::MalformedDocument,
    {
        let mut clips: Vec<Clip> = Vec::new();
        let mut warns: Vec<Unsupported> = Vec::new();
        let mut a: usize = 0;
        while a < self.animations.len()
            invariant
                a <= self.animations@.len(),
                clips@.len() == a,
                forall|x: int|
                    0 <= x < a ==> clip_matches_animation(
                        #[trigger] self.animations@[x],
                        clips@[x],
                    ),
                forall|x: int, c: int|
                    0 <= x < a && 0 <= c < self.animations@[x].channels@.len() ==> channel_valid(
                        #[trigger] self.animations@[x].channels@[c],
                    ),
                warns@.len() == sparse_count(self.animations@.take(a as int)),
                forall|w: int| 0 <= w < warns@.len() ==> warns@[w] == Unsupported::SparseKeyframes,
            decreases self.animations@.len() - a,
        {
            let anim = &self.animations[a];
            let mut clip = Clip::new();
            clip.name = copy_bytes(&anim.name);
            let mut c: usize = 0;
            while c < anim.channels.len()
                invariant
                    a < self.animations@.len(),
                    anim == &self.animations@[a as int],
                    c <= anim.channels@.len(),
                    clip.name@ == anim.name@,
                    clip.tracks@.len() == c,
                    clip.wf(),
                    forall|x: int|
                        0 <= x < c ==> track_matches_channel(
                            #[trigger] anim.channels@[x],
                            clip.tracks@[x],
                        ),
                    forall|x: int|
                        0 <= x < c ==> channel_valid(#[trigger] anim.channels@[x]),
                    warns@.len() == sparse_count(self.animations@.take(a as int))
                        + sparse_count_channels(anim.channels@.take(c as int)),
                    forall|w: int|
                        0 <= w < warns@.len() ==> warns@[w] == Unsupported::SparseKeyframes,
                decreases anim.channels@.len() - c,
            {
                let channel = &anim.channels[c];
                match extract_animation(channel) {
                    Ok(tt) => {
                        if channel.sparse {
                            warns.push(Unsupported::SparseKeyframes);
                        }
                        clip.tracks.push(tt);
                    },
                    Err(e) => {
                        proof {
                            assert(!channel_valid(anim.channels@[c as int]));
                            assert(!animations_valid(self.animations@));
                        }
                        return Err(e);
                    },
                }
                proof {
                    assert(anim.channels@.take(c + 1).drop_last() =~= anim.channels@.take(
                        c as int,
                    ));
                    assert(anim.channels@.take(c + 1).last() == anim.channels@[c as int]);
                }
                c = c + 1;
            }
            proof {
                assert(anim.channels@.take(anim.channels@.len() as int) =~= anim.channels@);
            }
            clip.re_calculate_duration();
            clips.push(clip);
            proof {
                assert(self.animations@.take(a + 1).drop_last() =~= self.animations@.take(
                    a as int,
                ));
                assert(self.animations@.take(a + 1).last() == self.animations@[a as int]);
            }
            a = a + 1;
        }
        proof {
            assert(self.animations@.take(self.animations@.len() as int) =~= self.animations@);
        }
        Ok((clips, warns))
    }
}

/// The parent index sequence that rest-pose extraction produces, as
/// mathematical integers.
pub open spec fn spec_parent_seq(nodes: Seq<SourceNode>) -> Seq<int> {
    Seq::new(nodes.len() as nat, |c: int| spec_parent(nodes, c))
}

/// The whole document produces a skeleton: the rest pose extracts, every
/// node transform is in range, and the reconstructed parent graph is acyclic.
pub open spec fn document_skeleton_ok(doc: SourceDocument) -> bool {
    &&& rest_pose_extractable(doc.nodes@)
    &&& forall|i: int|
        0 <= i < doc.nodes@.len() ==> crate::skeleton::transform_bounded(
            (#[trigger] doc.nodes@[i]).transform,
        )
    &&& crate::skeleton::wf_parents(spec_parent_seq(doc.nodes@))
}

/// Everything a successful import hands back: the assembled meshes, the
/// immutable skeleton, the clips, and the non-fatal conditions met on the
/// way.
#[derive(Clone, Debug, PartialEq, Eq)]
pub struct ImportedAsset {
    pub meshes: Vec<Mesh>,
    pub skeleton: crate::skeleton::Skeleton,
    pub clips: Vec<Clip>,
    pub warnings: Vec<Unsupported>,
}

impl SourceDocument {
    /// Import the whole document: extract the rest pose, joint names and
    /// inverse bind matrices, build the skeleton, assemble the meshes and
    /// convert the animations. Fatal conditions abort with their error and
    /// no partial result; unsupported features (extra skins, sparse
    /// channels) degrade and are reported in the returned warnings.
    pub fn import_document(&self) -> (r: Result<ImportedAsset, ImportError>)
        ensures
            r is Ok <==> (document_skeleton_ok(*self) && (self.skins@.len() == 0
                || skin_extractable(self.skins@[0], self.nodes@.len() as int)) && joint_table_ok(
                self.skins@,
            ) && (forall|p: int|
                0 <= p < self.primitives@.len() ==> spec_streams_ok(
                    (#[trigger] self.primitives@[p]).streams,
                    self.primitives@[p].indices@,
                    spec_joint_table(self.skins@),
                )) && animations_valid(self.animations@)),
            r matches Ok(asset) ==> asset.skeleton.wf() && asset.skeleton.spec_joint_count()
                == self.nodes@.len() && (forall|i: int|
                0 <= i < self.nodes@.len() ==> #[trigger] asset.skeleton.rest.joints@[i]
                    == self.nodes@[i].transform) && (forall|c: int|
                0 <= c < self.nodes@.len() ==> #[trigger] asset.skeleton.rest.parents@[c] as int
                    == spec_parent(self.nodes@, c)) && (forall|i: int|
                0 <= i < self.nodes@.len() ==> (#[trigger] asset.skeleton.names@[i])@
                    == self.nodes@[i].name@) && (forall|j: int|
                0 <= j < self.nodes@.len() ==> (#[trigger] asset.skeleton.inverse_bind@[j])@ == (
                if self.skins@.len() > 0 {
                    spec_ibm_at(self.skins@[0], j)
                } else {
                    spec_mat_identity()
                })) && asset.meshes@.len() == self.primitives@.len() && (forall|p: int, i: int|
                0 <= p < asset.meshes@.len() && 0 <= i
                    < self.primitives@[p].streams.positions@.len() ==> (
                #[trigger] asset.meshes@[p].vertices@[i]) == spec_vertex_at(
                    self.primitives@[p].streams,
                    spec_joint_table(self.skins@),
                    i,
                )) && (forall|p: int|
                0 <= p < asset.meshes@.len() ==> (#[trigger] asset.meshes@[p]).indices@
                    == self.primitives@[p].indices@) && asset.clips@.len()
                == self.animations@.len() && (forall|a: int|
                0 <= a < asset.clips@.len() ==> clip_matches_animation(
                    #[trigger] self.animations@[a],
                    asset.clips@[a],
                )),
    {
        let rest = match self.exctract_rest_pose() {
            Ok(p) => p,
            Err(e) => {
                return Err(e);
            },
        };
        let names = self.load_joint_names();
        let (ibms, mut warnings) = match self.extract_inverse_bind_mats() {
            Ok(x) => x,
            Err(e) => {
                return Err(e);
            },
        };
        proof {
            crate::skeleton::lemma_parents_index(rest.parents@);
            assert(crate::skeleton::parents_of(rest.parents@) =~= spec_parent_seq(self.nodes@));
            if forall|i: int|
                0 <= i < self.nodes@.len() ==> crate::skeleton::transform_bounded(
                    (#[trigger] self.nodes@[i]).transform,
                ) {
                assert forall|i: int| 0 <= i < rest.joints@.len() implies
                    crate::skeleton::transform_bounded(#[trigger] rest.joints@[i]) by {
                    assert(rest.joints@[i] == self.nodes@[i].transform);
                    assert(crate::skeleton::transform_bounded(self.nodes@[i].transform));
                }
                assert(rest.wf());
            }
            if rest.wf() {
                assert forall|i: int| 0 <= i < self.nodes@.len() implies
                    crate::skeleton::transform_bounded(
                    (#[trigger] self.nodes@[i]).transform,
                ) by {
                    assert(rest.joints@[i] == self.nodes@[i].transform);
                    assert(crate::skeleton::transform_bounded(rest.joints@[i]));
                }
            }
            assert(crate::skeleton::skeleton_valid(rest, names@, ibms@)
                == document_skeleton_ok(*self));
        }
        let skeleton = match crate::skeleton::Skeleton::build(rest, names, ibms) {
            Ok(s) => s,
            Err(e) => {
                proof {
                    assert(!document_skeleton_ok(*self));
                }
                return Err(e);
            },
        };
        let meshes = match self.meshes() {
            Ok(ms) => ms,
            Err(e) => {
                return Err(e);
            },
        };
        let (clips, mut anim_warns) = match self.extrat_animations() {
            Ok(x) => x,
            Err(e) => {
                return Err(e);
            },
        };
        let mut all_warns: Vec<Unsupported> = Vec::new();
        let mut w: usize = 0;
        while w < warnings.len()
            invariant
                w <= warnings@.len(),
                all_warns@ == warnings@.take(w as int),
            decreases warnings@.len() - w,
        {
            all_warns.push(warnings[w]);
            proof {
                assert(all_warns@ =~= warnings@.take(w + 1));
            }
            w = w + 1;
        }
        let mut w: usize = 0;
        while w < anim_warns.len()
            invariant
                w <= anim_warns@.len(),
                all_warns@.len() == warnings@.take(warnings@.len() as int).len() + w,
            decreases anim_warns@.len() - w,
        {
            all_warns.push(anim_warns[w]);
            w = w + 1;
        }
        Ok(ImportedAsset { meshes, skeleton, clips, warnings: all_warns })
    }
}

/// One vertex-texture-normal index triple of the XML scene format; the
/// texture and normal references may be absent.
#[derive(Clone, Copy, Debug, PartialEq, Eq, Structural)]
pub struct VtnIndex {
    pub v: u32,
    pub t: Option<u32>,
    pub n: Option<u32>,
}

/// One triangle of VTN triples.
#[derive(Clone, Copy, Debug, PartialEq, Eq, Structural)]
pub struct VtnTriangle {
    pub a: VtnIndex,
    pub b: VtnIndex,
    pub c: VtnIndex,
}

/// One plain index triangle.
#[derive(Clone, Copy, Debug, PartialEq, Eq, Structural)]
pub struct IndexTriangle {
    pub a: u32,
    pub b: u32,
    pub c: u32,
}

/// One object of an XML scene document: per-attribute value streams,
/// referenced by independent per-attribute indices.
#[derive(Clone, Debug, PartialEq, Eq)]
pub struct XmlObject {
    pub vertices: Vec<crate::mesh::Attr3>,
    pub tex_vertices: Vec<crate::mesh::Attr2>,
    pub normals: Vec<crate::mesh::Attr3>,
    pub index_triangles: Vec<IndexTriangle>,
    pub vtn_triangles: Vec<VtnTriangle>,
}

/// The VTN triple resolves: all three references present and inside their
/// streams.
pub open spec fn vtn_valid(obj: XmlObject, idx: VtnIndex) -> bool {
    &&& idx.v < obj.vertices@.len()
    &&& idx.t matches Some(t) && t < obj.tex_vertices@.len()
    &&& idx.n matches Some(n) && n < obj.normals@.len()
}

/// The vertex a VTN triple resolves to: position, texture coordinate and
/// normal each read through their own index; color, weights and joint
/// indices zero (the XML path carries no skinning data).
pub open spec fn spec_vtn_vertex(obj: XmlObject, idx: VtnIndex) -> crate::mesh::Vertex {
    crate::mesh::Vertex {
        pos: obj.vertices@[idx.v as int],
        norm: obj.normals@[idx.n.unwrap() as int],
        col: crate::mesh::Attr3 { x: 0, y: 0, z: 0 },
        tex: obj.tex_vertices@[idx.t.unwrap() as int],
        weights: crate::mesh::Attr4 { a: 0, b: 0, c: 0, d: 0 },
        bone_ids: crate::mesh::BoneIds { a: 0, b: 0, c: 0, d: 0 },
    }
}

/// Resolve one VTN triple into a vertex. Fails with `MalformedDocument`
/// exactly when a reference is absent or out of range.
pub fn get_attributs(obj: &XmlObject, index: &VtnIndex) -> (r: Result<
    crate::mesh::Vertex,
    ImportError,
>)
    ensures
        r is Ok <==> vtn_valid(*obj, *index),
        r matches Ok(v) ==> v == spec_vtn_vertex(*obj, *index),
        r matches Err(e) ==> e == ImportError::MalformedDocument,
{
    let t = match index.t {
        Some(t) => t,
        None => {
            return Err(ImportError::MalformedDocument);
        },
    };
    let n = match index.n {
        Some(n) => n,
        None => {
            return Err(ImportError::MalformedDocument);
        },
    };
    if (index.v as usize) >= obj.vertices.len() || (t as usize) >= obj.tex_vertices.len() || (
    n as usize) >= obj.normals.len() {
        return Err(ImportError::MalformedDocument);
    }
    Ok(
        crate::mesh::Vertex {
            pos: obj.vertices[index.v as usize],
            norm: obj.normals[n as usize],
            col: crate::mesh::Attr3 { x: 0, y: 0, z: 0 },
            tex: obj.tex_vertices[t as usize],
            weights: crate::mesh::Attr4 { a: 0, b: 0, c: 0, d: 0 },
            bone_ids: crate::mesh::BoneIds { a: 0, b: 0, c: 0, d: 0 },
        },
    )
}

/// Every VTN corner of every object resolves.
pub open spec fn xml_objects_valid(objects: Seq<XmlObject>) -> bool {
    forall|o: int, k: int|
        0 <= o < objects.len() && 0 <= k < objects[o].vtn_triangles@.len() ==> {
            let tri = #[trigger] objects[o].vtn_triangles@[k];
            vtn_valid(objects[o], tri.a) && vtn_valid(objects[o], tri.b) && vtn_valid(
                objects[o],
                tri.c,
            )
        }
}

/// One produced mesh matches its XML object: the index buffer is the
/// triangle indices flattened in order, and the vertex buffer holds the
/// resolved corners of each VTN triangle, three per triangle, in order.
pub open spec fn mesh_matches_xml(obj: XmlObject, m: Mesh) -> bool {
    &&& m.indices@.len() == 3 * obj.index_triangles@.len()
    &&& forall|k: int|
        0 <= k < obj.index_triangles@.len() ==> {
            let tri = #[trigger] obj.index_triangles@[k];
            m.indices@[3 * k] == tri.a && m.indices@[3 * k + 1] == tri.b && m.indices@[3 * k + 2]
                == tri.c
        }
    &&& m.vertices@.len() == 3 * obj.vtn_triangles@.len()
    &&& forall|k: int|
        0 <= k < obj.vtn_triangles@.len() ==> {
            let tri = #[trigger] obj.vtn_triangles@[k];
            m.vertices@[3 * k] == spec_vtn_vertex(obj, tri.a) && m.vertices@[3 * k + 1]
                == spec_vtn_vertex(obj, tri.b) && m.vertices@[3 * k + 2] == spec_vtn_vertex(
                obj,
                tri.c,
            )
        }
}

/// Import an XML scene document's objects into a model: one mesh per object,
/// each triangle contributing three indices and each VTN triangle three
/// resolved vertices, with no deduplication. The skeletal path of this
/// format is unspecified and not imported. Fails with `MalformedDocument`
/// exactly when a VTN reference is absent or out of range.
pub fn from_dae(objects: &Vec<XmlObject>) -> (r: Result<crate::mesh::Model, ImportError>)
    ensures
        r is Ok <==> xml_objects_valid(objects@),
        r matches Ok(model) ==> model.meshes@.len() == objects@.len() && forall|o: int|
            0 <= o < objects@.len() ==> mesh_matches_xml(
                #[trigger] objects@[o],
                model.meshes@[o],
            ),
        r matches Err(e) ==> e == ImportError::MalformedDocument,
{
    let mut meshes: Vec<Mesh> = Vec::new();
    let mut o: usize = 0;
    while o < objects.len()
        invariant
            o <= objects@.len(),
            meshes@.len() == o,
            forall|x: int|
                0 <= x < o ==> mesh_matches_xml(#[trigger] objects@[x], meshes@[x]),
            forall|x: int, k: int|
                0 <= x < o && 0 <= k < objects@[x].vtn_triangles@.len() ==> {
                    let tri = #[trigger] objects@[x].vtn_triangles@[k];
                    vtn_valid(objects@[x], tri.a) && vtn_valid(objects@[x], tri.b) && vtn_valid(
                        objects@[x],
                        tri.c,
                    )
                },
        decreases objects@.len() - o,
    {
        let obj = &objects[o];
        let mut indices: Vec<u32> = Vec::new();
        let mut k: usize = 0;
        while k < obj.index_triangles.len()
            invariant
                obj == &objects@[o as int],
                o < objects@.len(),
                k <= obj.index_triangles@.len(),
                indices@.len() == 3 * k,
                forall|x: int|
                    0 <= x < k ==> {
                        let tri = #[trigger] obj.index_triangles@[x];
                        indices@[3 * x] == tri.a && indices@[3 * x + 1] == tri.b && indices@[3 * x
                            + 2] == tri.c
                    },
            decreases obj.index_triangles@.len() - k,
        {
            let tri = obj.index_triangles[k];
            indices.push(tri.a);
            indices.push(tri.b);
            indices.push(tri.c);
            k = k + 1;
        }
        let mut vertices: Vec<crate::mesh::Vertex> = Vec::new();
        let mut k: usize = 0;
        while k < obj.vtn_triangles.len()
            invariant
                obj == &objects@[o as int],
                o < objects@.len(),
                k <= obj.vtn_triangles@.len(),
                vertices@.len() == 3 * k,
                forall|x: int|
                    0 <= x < k ==> {
                        let tri = #[trigger] obj.vtn_triangles@[x];
                        vertices@[3 * x] == spec_vtn_vertex(objects@[o as int], tri.a)
                            && vertices@[3 * x + 1] == spec_vtn_vertex(objects@[o as int], tri.b)
                            && vertices@[3 * x + 2] == spec_vtn_vertex(objects@[o as int], tri.c)
                    },
                forall|x: int|
                    0 <= x < k ==> {
                        let tri = #[trigger] obj.vtn_triangles@[x];
                        vtn_valid(objects@[o as int], tri.a) && vtn_valid(
                            objects@[o as int],
                            tri.b,
                        ) && vtn_valid(objects@[o as int], tri.c)
                    },
            decreases obj.vtn_triangles@.len() - k,
        {
            let tri = obj.vtn_triangles[k];
            let va = match get_attributs(obj, &tri.a) {
                Ok(v) => v,
                Err(e) => {
                    proof {
                        assert(!xml_objects_valid(objects@));
                    }
                    return Err(e);
                },
            };
            let vb = match get_attributs(obj, &tri.b) {
                Ok(v) => v,
                Err(e) => {
                    proof {
                        assert(!xml_objects_valid(objects@));
                    }
                    return Err(e);
                },
            };
            let vc = match get_attributs(obj, &tri.c) {
                Ok(v) => v,
                Err(e) => {
                    proof {
                        assert(!xml_objects_valid(objects@));
                    }
                    return Err(e);
                },
            };
            vertices.push(va);
            vertices.push(vb);
            vertices.push(vc);
            k = k + 1;
        }
        meshes.push(Mesh { vertices, indices });
        o = o + 1;
    }
    let mut model = match crate::mesh::Model::new(
        crate::mesh::Shape::Unset,
        Vec3::zero(),
        Vec3::one(),
    ) {
        Ok(m) => m,
        Err(_) => {
            return Err(ImportError::MalformedDocument);
        },
    };
    model.meshes = meshes;
    Ok(model)
}

} // verus!
