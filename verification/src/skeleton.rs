//! The skeleton model: decomposed local transforms, the rest pose with its
//! parallel parent-index list, and the immutable skeleton built from them.
//! Parent links use `-1` as the root sentinel; building validates that every
//! parent index is in range and that the parent graph is acyclic, so that
//! global-transform evaluation by recursion up the parent chain terminates.

use crate::algebra::{q4_bounded, q4_identity, v3_bounded, Quat, Vec3, V3};
use crate::error::ImportError;
use crate::matrix::{
    m16_bounded, mat_mul, spec_checked, spec_mat_mul, spec_trs_matrix, trs_matrix, Mat4,
};
use crate::num::{FX_LIMIT, FX_ONE};
use vstd::prelude::*;

verus! {

/// A decomposed local transform: translation, rotation, scale.
#[derive(Clone, Copy, Debug, PartialEq, Eq, Structural)]
pub struct Transform {
    pub translation: Vec3,
    pub orientation: Quat,
    pub scaling: Vec3,
}

/// All components of the transform within fixed-point range.
pub open spec fn transform_bounded(t: Transform) -> bool {
    &&& v3_bounded(t.translation@)
    &&& q4_bounded(t.orientation@)
    &&& v3_bounded(t.scaling@)
}

impl Transform {
    /// The identity transform: zero translation, identity rotation, unit
    /// scale.
    pub fn identity() -> (r: Transform)
        ensures
            r.translation@ == (V3 { x: 0, y: 0, z: 0 }),
            r.orientation@ == q4_identity(),
            r.scaling@ == (V3 { x: FX_ONE as int, y: FX_ONE as int, z: FX_ONE as int }),
            transform_bounded(r),
    {
        Transform {
            translation: Vec3::zero(),
            orientation: Quat::identity(),
            scaling: Vec3::one(),
        }
    }

    /// The local matrix of this transform: translation times rotation times
    /// scale.
    pub open spec fn local_matrix(self) -> Seq<int> {
        spec_trs_matrix(self.translation@, self.orientation@, self.scaling@)
    }
}

/// The rest pose: one local transform per joint, indexed by joint index, with
/// the parallel parent-index list (`-1` marks a root).
#[derive(Clone, Debug, PartialEq, Eq)]
pub struct Pose {
    pub joints: Vec<Transform>,
    pub parents: Vec<i32>,
}

/// Parent indices as mathematical integers.
pub open spec fn parents_of(p: Seq<i32>) -> Seq<int> {
    p.map_values(|x: i32| x as int)
}

/// The parent sequence reads back pointwise.
pub proof fn lemma_parents_index(p: Seq<i32>)
    ensures
        parents_of(p).len() == p.len(),
        forall|i: int| 0 <= i < p.len() ==> #[trigger] parents_of(p)[i] == p[i] as int,
{
}

impl Pose {
    /// Well-formed: one parent entry per joint and every transform bounded.
    pub open spec fn wf(&self) -> bool {
        &&& self.joints@.len() == self.parents@.len()
        &&& forall|i: int|
            0 <= i < self.joints@.len() ==> transform_bounded(#[trigger] self.joints@[i])
    }

    /// An empty pose.
    pub fn new() -> (r: Pose)
        ensures
            r.joints@.len() == 0,
            r.parents@.len() == 0,
            r.wf(),
    {
        Pose { joints: Vec::new(), parents: Vec::new() }
    }

    /// The number of joints.
    pub fn len(&self) -> (r: usize)
        ensures
            r == self.joints@.len(),
    {
        self.joints.len()
    }

    /// Resize to `n` joints: keeps the existing prefix, fills new slots with
    /// the identity transform and the root sentinel.
    pub fn resize(&mut self, n: usize)
        requires
            old(self).wf(),
        ensures
            final(self).wf(),
            final(self).joints@.len() == n,
            final(self).parents@.len() == n,
            forall|i: int|
                0 <= i < n && i < old(self).joints@.len() ==> final(self).joints@[i] == old(
                    self,
                ).joints@[i] && final(self).parents@[i] == old(self).parents@[i],
            forall|i: int|
                old(self).joints@.len() <= i < n ==> final(self).joints@[i]
                    == (Transform {
                    translation: Vec3 { x: 0, y: 0, z: 0 },
                    orientation: Quat { x: 0, y: 0, z: 0, w: FX_ONE },
                    scaling: Vec3 { x: FX_ONE, y: FX_ONE, z: FX_ONE },
                }) && final(self).parents@[i] == -1,
    {
        let mut joints: Vec<Transform> = Vec::new();
        let mut parents: Vec<i32> = Vec::new();
        let keep = if n < self.joints.len() {
            n
        } else {
            self.joints.len()
        };
        let mut i: usize = 0;
        while i < keep
            invariant
                self.wf(),
                keep <= n,
                keep <= self.joints@.len(),
                i <= keep,
                joints@.len() == i,
                parents@.len() == i,
                forall|j: int|
                    0 <= j < i ==> joints@[j] == self.joints@[j] && parents@[j]
                        == self.parents@[j],
            decreases keep - i,
        {
            joints.push(self.joints[i]);
            parents.push(self.parents[i]);
            i = i + 1;
        }
        while joints.len() < n
            invariant
                self.wf(),
                keep <= n,
                keep <= joints@.len() <= n,
                parents@.len() == joints@.len(),
                forall|j: int|
                    0 <= j < keep ==> joints@[j] == self.joints@[j] && parents@[j]
                        == self.parents@[j],
                forall|j: int|
                    keep <= j < joints@.len() ==> joints@[j]
                        == (Transform {
                        translation: Vec3 { x: 0, y: 0, z: 0 },
                        orientation: Quat { x: 0, y: 0, z: 0, w: FX_ONE },
                        scaling: Vec3 { x: FX_ONE, y: FX_ONE, z: FX_ONE },
                    }) && parents@[j] == -1,
                forall|j: int| 0 <= j < joints@.len() ==> transform_bounded(#[trigger] joints@[j]),
            decreases n - joints@.len(),
        {
            joints.push(Transform::identity());
            parents.push(-1);
        }
        self.joints = joints;
        self.parents = parents;
    }
}

/// Following parent links from joint `i` reaches a root within `fuel` steps,
/// staying inside the index range the whole way.
pub open spec fn reaches_root(parents: Seq<int>, i: int, fuel: nat) -> bool
    decreases fuel,
{
    if fuel == 0 {
        false
    } else if !(0 <= i < parents.len()) {
        false
    } else if parents[i] == -1 {
        true
    } else {
        reaches_root(parents, parents[i], (fuel - 1) as nat)
    }
}

/// The chain of joint indices from the root down to joint `i`, inclusive.
pub open spec fn chain(parents: Seq<int>, i: int, fuel: nat) -> Seq<int>
    decreases fuel,
{
    if fuel == 0 {
        Seq::empty()
    } else if !(0 <= i < parents.len()) {
        Seq::empty()
    } else if parents[i] == -1 {
        seq![i]
    } else {
        chain(parents, parents[i], (fuel - 1) as nat).push(i)
    }
}

/// The canonical root chain of a joint: one more unit of fuel than there are
/// joints always suffices on an acyclic graph.
pub open spec fn joint_chain(parents: Seq<int>, i: int) -> Seq<int> {
    chain(parents, i, (parents.len() + 1) as nat)
}

/// Every joint's parent chain reaches a root: the hierarchy is acyclic with
/// all parent indices in range.
pub open spec fn wf_parents(parents: Seq<int>) -> bool {
    forall|i: int|
        0 <= i < parents.len() ==> #[trigger] reaches_root(parents, i, (parents.len() + 1) as nat)
}

/// Once a chain reaches the root, more fuel changes nothing.
pub proof fn lemma_chain_fuel(parents: Seq<int>, i: int, f1: nat, f2: nat)
    requires
        reaches_root(parents, i, f1),
        f1 <= f2,
    ensures
        reaches_root(parents, i, f2),
        chain(parents, i, f2) == chain(parents, i, f1),
    decreases f1,
{
    if parents[i] == -1 {
    } else {
        lemma_chain_fuel(parents, parents[i], (f1 - 1) as nat, (f2 - 1) as nat);
    }
}

/// A non-root joint's chain extends its parent's chain by one entry, so the
/// parent's chain is strictly shorter.
pub proof fn lemma_chain_parent(parents: Seq<int>, i: int)
    requires
        0 <= i < parents.len(),
        reaches_root(parents, i, (parents.len() + 1) as nat),
        parents[i] != -1,
    ensures
        0 <= parents[i] < parents.len(),
        reaches_root(parents, parents[i], (parents.len() + 1) as nat),
        joint_chain(parents, i) == joint_chain(parents, parents[i]).push(i),
        joint_chain(parents, parents[i]).len() < joint_chain(parents, i).len(),
{
    let n = parents.len() as int;
    assert(reaches_root(parents, parents[i], n as nat));
    assert(0 <= parents[i] < n);
    lemma_chain_fuel(parents, parents[i], n as nat, (n + 1) as nat);
}

/// A chain that reaches the root is non-empty and ends at the joint itself.
pub proof fn lemma_chain_last(parents: Seq<int>, i: int)
    requires
        0 <= i < parents.len(),
        reaches_root(parents, i, (parents.len() + 1) as nat),
    ensures
        joint_chain(parents, i).len() >= 1,
        joint_chain(parents, i).last() == i,
{
    if parents[i] == -1 {
    } else {
        lemma_chain_parent(parents, i);
    }
}

/// Byte-string equality, exact over the views.
pub fn bytes_eq(a: &[u8], b: &[u8]) -> (r: bool)
    ensures
        r == (a@ == b@),
{
    if a.len() != b.len() {
        proof {
            assert(a@.len() != b@.len());
        }
        return false;
    }
    let n = a.len();
    let mut i: usize = 0;
    while i < n
        invariant
            a@.len() == n,
            b@.len() == n,
            i <= n,
            forall|j: int| 0 <= j < i ==> a@[j] == b@[j],
        decreases n - i,
    {
        if a[i] != b[i] {
            return false;
        }
        i = i + 1;
    }
    proof {
        assert(a@ =~= b@);
    }
    true
}

/// An immutable skeleton: the rest pose, per-joint names (UTF-8 bytes), and
/// one inverse bind matrix per joint (identity for joints outside any skin).
#[derive(Clone, Debug, PartialEq, Eq)]
pub struct Skeleton {
    pub rest: Pose,
    pub names: Vec<Vec<u8>>,
    pub inverse_bind: Vec<Mat4>,
}

/// The inputs a skeleton can be built from: equal counts everywhere, bounded
/// transforms and matrices, and an acyclic in-range parent graph.
pub open spec fn skeleton_valid(rest: Pose, names: Seq<Vec<u8>>, ibms: Seq<Mat4>) -> bool {
    &&& rest.wf()
    &&& names.len() == rest.joints@.len()
    &&& ibms.len() == rest.joints@.len()
    &&& forall|i: int| 0 <= i < ibms.len() ==> (#[trigger] ibms[i]).wf()
    &&& wf_parents(parents_of(rest.parents@))
}

impl Skeleton {
    /// Well-formed: built from valid inputs.
    pub open spec fn wf(&self) -> bool {
        skeleton_valid(self.rest, self.names@, self.inverse_bind@)
    }

    /// The number of joints.
    pub open spec fn spec_joint_count(&self) -> int {
        self.rest.joints@.len() as int
    }

    /// Build an immutable skeleton from a rest pose, per-joint names and an
    /// inverse bind matrix set of equal joint count. Fails with
    /// `InvalidSkeleton` exactly when a count disagrees, a transform or
    /// matrix is out of fixed-point range or malformed, or the parent graph
    /// has a cycle or an out-of-range index.
    pub fn build(rest: Pose, names: Vec<Vec<u8>>, inverse_bind: Vec<Mat4>) -> (r: Result<
        Skeleton,
        ImportError,
    >)
        ensures
            r is Ok <==> skeleton_valid(rest, names@, inverse_bind@),
            r matches Ok(s) ==> s.rest == rest && s.names == names && s.inverse_bind
                == inverse_bind && s.wf() && s.spec_joint_count() == rest.joints@.len(),
            r matches Err(e) ==> e == ImportError::InvalidSkeleton,
    {
        let n = rest.joints.len();
        if rest.parents.len() != n || names.len() != n || inverse_bind.len() != n {
            return Err(ImportError::InvalidSkeleton);
        }
        let mut i: usize = 0;
        while i < n
            invariant
                n == rest.joints@.len(),
                n == inverse_bind@.len(),
                i <= n,
                forall|j: int| 0 <= j < i ==> transform_bounded(#[trigger] rest.joints@[j]),
                forall|j: int| 0 <= j < i ==> (#[trigger] inverse_bind@[j]).wf(),
            decreases n - i,
        {
            if !transform_in_range(&rest.joints[i]) {
                return Err(ImportError::InvalidSkeleton);
            }
            if !crate::matrix::mat_in_range(&inverse_bind[i]) {
                return Err(ImportError::InvalidSkeleton);
            }
            i = i + 1;
        }
        if !check_parents(&rest.parents) {
            return Err(ImportError::InvalidSkeleton);
        }
        proof {
            assert(rest.wf());
            assert(skeleton_valid(rest, names@, inverse_bind@));
        }
        Ok(Skeleton { rest, names, inverse_bind })
    }

    /// The number of joints.
    pub fn joint_count(&self) -> (r: usize)
        ensures
            r == self.spec_joint_count(),
    {
        self.rest.joints.len()
    }

    /// The parent index of a joint; `-1` for a root.
    pub fn parent_of(&self, i: usize) -> (r: i32)
        requires
            i < self.spec_joint_count(),
            self.rest.parents@.len() == self.rest.joints@.len(),
        ensures
            r == self.rest.parents@[i as int],
    {
        self.rest.parents[i]
    }

    /// The local rest transform of a joint.
    pub fn local_rest(&self, i: usize) -> (r: Transform)
        requires
            i < self.spec_joint_count(),
        ensures
            r == self.rest.joints@[i as int],
    {
        self.rest.joints[i]
    }

    /// The inverse bind matrix of a joint.
    pub fn inverse_bind_of(&self, i: usize) -> (r: &Mat4)
        requires
            i < self.spec_joint_count(),
            self.inverse_bind@.len() == self.rest.joints@.len(),
        ensures
            r == self.inverse_bind@[i as int],
    {
        &self.inverse_bind[i]
    }

    /// Look a joint up by name: the lowest joint index whose name matches, or
    /// `JointNotFound` when no joint has that name.
    pub fn joint_index(&self, name: &[u8]) -> (r: Result<usize, ImportError>)
        ensures
            r matches Ok(i) ==> i < self.names@.len() && self.names@[i as int]@ == name@
                && forall|j: int| 0 <= j < i ==> self.names@[j]@ != name@,
            r matches Err(e) ==> e == ImportError::JointNotFound && forall|j: int|
                0 <= j < self.names@.len() ==> self.names@[j]@ != name@,
    {
        let n = self.names.len();
        let mut i: usize = 0;
        while i < n
            invariant
                n == self.names@.len(),
                i <= n,
                forall|j: int| 0 <= j < i ==> self.names@[j]@ != name@,
            decreases n - i,
        {
            if bytes_eq(self.names[i].as_slice(), name) {
                return Ok(i);
            }
            i = i + 1;
        }
        Err(ImportError::JointNotFound)
    }
}

/// The local matrices along a joint's root chain, root first.
pub open spec fn local_mats_along(joints: Seq<Transform>, parents: Seq<int>, i: int) -> Seq<
    Seq<int>,
> {
    joint_chain(parents, i).map_values(|j: int| joints[j].local_matrix())
}

/// Left fold of the checked fixed-point matrix product over a root-first
/// chain of local matrices: the global transform of the chain's last joint,
/// or nothing when any entry along the way leaves the fixed-point range.
pub open spec fn spec_fold_mul(mats: Seq<Seq<int>>) -> Option<Seq<int>>
    decreases mats.len(),
{
    if mats.len() == 0 {
        None
    } else if mats.len() == 1 {
        spec_checked(mats[0])
    } else {
        match spec_fold_mul(mats.drop_last()) {
            Option::None => None,
            Option::Some(g) => match spec_checked(mats.last()) {
                Option::None => None,
                Option::Some(l) => spec_mat_mul(g, l),
            },
        }
    }
}

/// The global transform of a joint: the fold of the local matrices along its
/// root chain.
pub open spec fn spec_global(joints: Seq<Transform>, parents: Seq<int>, i: int) -> Option<
    Seq<int>,
> {
    spec_fold_mul(local_mats_along(joints, parents, i))
}

/// The skinning matrix of a joint: its global transform composed with its
/// inverse bind matrix.
pub open spec fn spec_skinning(
    joints: Seq<Transform>,
    parents: Seq<int>,
    ibm: Seq<int>,
    i: int,
) -> Option<Seq<int>> {
    match spec_global(joints, parents, i) {
        Option::None => None,
        Option::Some(g) => spec_mat_mul(g, ibm),
    }
}

impl Skeleton {
    /// The global transform of a joint: its local matrix composed onto its
    /// parent's global transform, evaluated root-first by recursion up the
    /// parent chain (the build-time acyclicity check is what makes this
    /// recursion terminate). Reports overflow as `None` rather than returning
    /// a wrapped value.
    pub fn global_matrix(&self, i: usize) -> (r: Option<Mat4>)
        requires
            self.wf(),
            i < self.spec_joint_count(),
        ensures
            match r {
                Some(m) => Some(m@) == spec_global(
                    self.rest.joints@,
                    parents_of(self.rest.parents@),
                    i as int,
                ) && m.wf(),
                None => spec_global(self.rest.joints@, parents_of(self.rest.parents@), i as int)
                    is None,
            },
        decreases joint_chain(parents_of(self.rest.parents@), i as int).len(),
    {
        let ghost pview = parents_of(self.rest.parents@);
        let ghost joints = self.rest.joints@;
        proof {
            lemma_parents_index(self.rest.parents@);
            assert(reaches_root(pview, i as int, (pview.len() + 1) as nat));
        }
        let p = self.rest.parents[i];
        let t = self.rest.joints[i];
        let local = trs_matrix(&t.translation, &t.orientation, &t.scaling);
        if p < 0 {
            proof {
                if pview[i as int] != -1 {
                    assert(!reaches_root(pview, pview[i as int], pview.len() as nat));
                    assert(!reaches_root(pview, i as int, (pview.len() + 1) as nat));
                }
                assert(pview[i as int] == -1);
                assert(joint_chain(pview, i as int) =~= seq![i as int]);
                assert(local_mats_along(joints, pview, i as int) =~= seq![
                    joints[i as int].local_matrix(),
                ]);
            }
            local
        } else {
            proof {
                lemma_chain_parent(pview, i as int);
                lemma_chain_last(pview, p as int);
                assert(local_mats_along(joints, pview, i as int) =~= local_mats_along(
                    joints,
                    pview,
                    p as int,
                ).push(joints[i as int].local_matrix()));
                assert(local_mats_along(joints, pview, i as int).drop_last() =~= local_mats_along(
                    joints,
                    pview,
                    p as int,
                ));
            }
            let g_opt = self.global_matrix(p as usize);
            match g_opt {
                None => None,
                Some(g) => {
                    match local {
                        None => None,
                        Some(lm) => mat_mul(&g, &lm),
                    }
                },
            }
        }
    }

    /// The skinning matrix of a joint: `global_transform(joint)` composed
    /// with `inverse_bind_matrix(joint)`; this is what is handed to the GPU
    /// per joint per frame. Reports overflow as `None`.
    pub fn skinning_matrix(&self, i: usize) -> (r: Option<Mat4>)
        requires
            self.wf(),
            i < self.spec_joint_count(),
        ensures
            match r {
                Some(m) => Some(m@) == spec_skinning(
                    self.rest.joints@,
                    parents_of(self.rest.parents@),
                    self.inverse_bind@[i as int]@,
                    i as int,
                ) && m.wf(),
                None => spec_skinning(
                    self.rest.joints@,
                    parents_of(self.rest.parents@),
                    self.inverse_bind@[i as int]@,
                    i as int,
                ) is None,
            },
    {
        proof {
            assert(self.inverse_bind@[i as int].wf());
        }
        match self.global_matrix(i) {
            None => None,
            Some(g) => mat_mul(&g, &self.inverse_bind[i]),
        }
    }
}

/// `(joints2, parents2)` is a relabeling of `(joints, parents)`: `perm` maps
/// each new joint index to the old index it came from, `inv` is its inverse,
/// each new joint carries the old joint's local transform, and each new
/// parent link is the old parent link carried through the relabeling (roots
/// stay roots).
pub open spec fn is_relabeling(
    joints: Seq<Transform>,
    parents: Seq<int>,
    joints2: Seq<Transform>,
    parents2: Seq<int>,
    perm: Seq<int>,
    inv: Seq<int>,
) -> bool {
    let n = parents.len() as int;
    &&& joints.len() == n
    &&& joints2.len() == n
    &&& parents2.len() == n
    &&& perm.len() == n
    &&& inv.len() == n
    &&& forall|i: int| 0 <= i < n ==> 0 <= #[trigger] perm[i] < n
    &&& forall|i: int| 0 <= i < n ==> 0 <= #[trigger] inv[i] < n
    &&& forall|i: int| 0 <= i < n ==> inv[#[trigger] perm[i]] == i
    &&& forall|i: int| 0 <= i < n ==> perm[#[trigger] inv[i]] == i
    &&& forall|i: int| 0 <= i < n ==> #[trigger] joints2[i] == joints[perm[i]]
    &&& forall|i: int| 0 <= i < n ==> ((#[trigger] parents[i]) == -1 || 0 <= parents[i] < n)
    &&& forall|i: int|
        0 <= i < n ==> #[trigger] parents2[i] == (if parents[perm[i]] == -1 {
            -1int
        } else {
            inv[parents[perm[i]]]
        })
}

/// Every entry of a root chain is a valid joint index.
pub proof fn lemma_chain_elems_in_range(parents: Seq<int>, i: int, fuel: nat)
    ensures
        forall|k: int|
            0 <= k < chain(parents, i, fuel).len() ==> 0 <= #[trigger] chain(parents, i, fuel)[k]
                < parents.len(),
    decreases fuel,
{
    if fuel == 0 || !(0 <= i < parents.len()) || parents[i] == -1 {
    } else {
        let sub = chain(parents, parents[i], (fuel - 1) as nat);
        lemma_chain_elems_in_range(parents, parents[i], (fuel - 1) as nat);
        assert forall|k: int| 0 <= k < chain(parents, i, fuel).len() implies 0 <= #[trigger] chain(
            parents,
            i,
            fuel,
        )[k] < parents.len() by {
            if k < sub.len() {
                assert(chain(parents, i, fuel)[k] == sub[k]);
            } else {
                assert(chain(parents, i, fuel)[k] == i);
            }
        }
    }
}

/// The root chain of a relabeled hierarchy is the original chain of the
/// corresponding original joint, carried through the relabeling.
proof fn lemma_chain_relabel(
    parents: Seq<int>,
    parents2: Seq<int>,
    perm: Seq<int>,
    inv: Seq<int>,
    i: int,
    fuel: nat,
)
    requires
        parents2.len() == parents.len(),
        perm.len() == parents.len(),
        inv.len() == parents.len(),
        forall|x: int| 0 <= x < parents.len() ==> 0 <= #[trigger] perm[x] < parents.len(),
        forall|x: int| 0 <= x < parents.len() ==> 0 <= #[trigger] inv[x] < parents.len(),
        forall|x: int| 0 <= x < parents.len() ==> inv[#[trigger] perm[x]] == x,
        forall|x: int| 0 <= x < parents.len() ==> perm[#[trigger] inv[x]] == x,
        forall|x: int|
            0 <= x < parents.len() ==> ((#[trigger] parents[x]) == -1 || 0 <= parents[x]
                < parents.len()),
        forall|x: int|
            0 <= x < parents.len() ==> #[trigger] parents2[x] == (if parents[perm[x]] == -1 {
                -1int
            } else {
                inv[parents[perm[x]]]
            }),
        0 <= i < parents.len(),
    ensures
        chain(parents2, i, fuel).map_values(|j: int| perm[j]) == chain(parents, perm[i], fuel),
    decreases fuel,
{
    if fuel == 0 {
        assert(chain(parents2, i, fuel).map_values(|j: int| perm[j]) =~= chain(
            parents,
            perm[i],
            fuel,
        ));
    } else if parents2[i] == -1 {
        assert(parents[perm[i]] == -1);
        assert(chain(parents2, i, fuel).map_values(|j: int| perm[j]) =~= chain(
            parents,
            perm[i],
            fuel,
        ));
    } else {
        let p2 = parents2[i];
        let p1 = parents[perm[i]];
        assert(p1 != -1);
        assert(0 <= p1 < parents.len());
        assert(p2 == inv[p1]);
        lemma_chain_relabel(parents, parents2, perm, inv, p2, (fuel - 1) as nat);
        assert(perm[p2] == p1);
        assert(chain(parents2, i, fuel) == chain(parents2, p2, (fuel - 1) as nat).push(i));
        assert(chain(parents, perm[i], fuel) == chain(parents, p1, (fuel - 1) as nat).push(
            perm[i],
        ));
        assert(chain(parents2, i, fuel).map_values(|j: int| perm[j]) =~= chain(
            parents2,
            p2,
            (fuel - 1) as nat,
        ).map_values(|j: int| perm[j]).push(perm[i]));
    }
}

/// Global-transform evaluation is invariant to the order joints are declared
/// in: relabeling the joint indices while carrying the parent graph and the
/// local transforms through the relabeling yields, at each relabeled joint,
/// exactly the global transform of the joint it came from.
pub proof fn lemma_global_relabel(
    joints: Seq<Transform>,
    parents: Seq<int>,
    joints2: Seq<Transform>,
    parents2: Seq<int>,
    perm: Seq<int>,
    inv: Seq<int>,
    i: int,
)
    requires
        is_relabeling(joints, parents, joints2, parents2, perm, inv),
        0 <= i < parents.len(),
    ensures
        spec_global(joints2, parents2, i) == spec_global(joints, parents, perm[i]),
{
    let n = parents.len() as int;
    lemma_chain_relabel(parents, parents2, perm, inv, i, (n + 1) as nat);
    lemma_chain_elems_in_range(parents2, i, (n + 1) as nat);
    let c2 = joint_chain(parents2, i);
    let c1 = joint_chain(parents, perm[i]);
    assert(c2.map_values(|j: int| perm[j]) == c1);
    assert(local_mats_along(joints2, parents2, i) =~= local_mats_along(
        joints,
        parents,
        perm[i],
    )) by {
        assert(c1.len() == c2.len());
        assert forall|k: int| 0 <= k < c2.len() implies #[trigger] local_mats_along(
            joints2,
            parents2,
            i,
        )[k] == local_mats_along(joints, parents, perm[i])[k] by {
            assert(0 <= c2[k] < n);
            assert(c1[k] == c2.map_values(|j: int| perm[j])[k]);
            assert(c1[k] == perm[c2[k]]);
            assert(joints2[c2[k]] == joints[perm[c2[k]]]);
        }
    }
}

/// Range check for one transform.
fn transform_in_range(t: &Transform) -> (r: bool)
    ensures
        r == transform_bounded(*t),
{
    crate::num::in_fx_range(t.translation.x) && crate::num::in_fx_range(t.translation.y)
        && crate::num::in_fx_range(t.translation.z) && crate::algebra::in_quat_range(
        t.orientation.x,
    ) && crate::algebra::in_quat_range(t.orientation.y) && crate::algebra::in_quat_range(
        t.orientation.z,
    ) && crate::algebra::in_quat_range(t.orientation.w) && crate::num::in_fx_range(t.scaling.x)
        && crate::num::in_fx_range(t.scaling.y) && crate::num::in_fx_range(t.scaling.z)
}

/// Walk the parent chain from `start`: `true` exactly when a root is reached
/// within one step per joint, every index along the way in range.
fn walk_reaches_root(parents: &Vec<i32>, start: usize) -> (ok: bool)
    requires
        start < parents@.len(),
    ensures
        ok == reaches_root(parents_of(parents@), start as int, (parents@.len() + 1) as nat),
{
    let n = parents.len();
    let ghost pview = parents_of(parents@);
    proof {
        lemma_parents_index(parents@);
    }
    let mut cur: usize = start;
    let mut steps: usize = 0;
    loop
        invariant
            parents@.len() == n,
            pview == parents_of(parents@),
            cur < n,
            steps <= n,
            reaches_root(pview, start as int, (n + 1) as nat) == reaches_root(
                pview,
                cur as int,
                (n + 1 - steps) as nat,
            ),
        decreases n - steps,
    {
        let ghost fuel = (n + 1 - steps) as nat;
        proof {
            assert(fuel >= 1);
        }
        let p = parents[cur];
        proof {
            assert(pview[cur as int] == p as int);
        }
        if p == -1 {
            proof {
                assert(reaches_root(pview, cur as int, fuel));
            }
            return true;
        }
        if p < 0 || p as usize >= n {
            proof {
                assert(!reaches_root(pview, p as int, (fuel - 1) as nat));
                assert(!reaches_root(pview, cur as int, fuel));
            }
            return false;
        }
        if steps == n {
            proof {
                assert(fuel == 1);
                assert(!reaches_root(pview, p as int, 0));
                assert(!reaches_root(pview, cur as int, fuel));
            }
            return false;
        }
        proof {
            assert(reaches_root(pview, cur as int, fuel) == reaches_root(
                pview,
                p as int,
                (fuel - 1) as nat,
            ));
        }
        cur = p as usize;
        steps = steps + 1;
    }
}

/// Validate the whole parent graph: every joint reaches a root.
fn check_parents(parents: &Vec<i32>) -> (ok: bool)
    ensures
        ok == wf_parents(parents_of(parents@)),
{
    let n = parents.len();
    proof {
        lemma_parents_index(parents@);
    }
    let mut i: usize = 0;
    while i < n
        invariant
            parents@.len() == n,
            i <= n,
            forall|j: int|
                0 <= j < i ==> #[trigger] reaches_root(parents_of(parents@), j, (n + 1) as nat),
        decreases n - i,
    {
        if !walk_reaches_root(parents, i) {
            return false;
        }
        i = i + 1;
    }
    true
}

} // verus!
