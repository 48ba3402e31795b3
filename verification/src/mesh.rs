//! The mesh assembler and model: merges independently indexed per-attribute
//! streams into a unified vertex buffer plus index buffer, remapping
//! skin-local joint indices into global joint indices on the way.
//!
//! Vertex attribute components are opaque 32-bit patterns: this subsystem
//! never computes with them, it only routes them, so they are carried
//! unchanged from the source document to the vertex buffer.

use crate::algebra::{q4_bounded, v3_bounded, Quat, Vec3};
use crate::error::ImportError;
use crate::matrix::{spec_checked, spec_mat_identity, spec_trs_matrix, trs_matrix, Mat4};
use crate::num::FX_LIMIT;
use vstd::prelude::*;

verus! {

/// A two-component raw attribute (a texture coordinate).
#[derive(Clone, Copy, Debug, PartialEq, Eq, Structural)]
pub struct Attr2 {
    pub u: u32,
    pub v: u32,
}

/// A three-component raw attribute (a position, normal or color).
#[derive(Clone, Copy, Debug, PartialEq, Eq, Structural)]
pub struct Attr3 {
    pub x: u32,
    pub y: u32,
    pub z: u32,
}

/// A four-component raw attribute (skin weights).
#[derive(Clone, Copy, Debug, PartialEq, Eq, Structural)]
pub struct Attr4 {
    pub a: u32,
    pub b: u32,
    pub c: u32,
    pub d: u32,
}

/// Four skin-local joint indices, as read from the source document.
#[derive(Clone, Copy, Debug, PartialEq, Eq, Structural)]
pub struct LocalJoints {
    pub a: u32,
    pub b: u32,
    pub c: u32,
    pub d: u32,
}

/// Four global joint indices, after the skin remap.
#[derive(Clone, Copy, Debug, PartialEq, Eq, Structural)]
pub struct BoneIds {
    pub a: i32,
    pub b: i32,
    pub c: i32,
    pub d: i32,
}

/// One vertex of the unified buffer: position, normal, color, texture
/// coordinate, up to four skin weight / global joint index pairs. The layout
/// order is fixed by the rendering interface.
#[derive(Clone, Copy, Debug, PartialEq, Eq, Structural)]
pub struct Vertex {
    pub pos: Attr3,
    pub norm: Attr3,
    pub col: Attr3,
    pub tex: Attr2,
    pub weights: Attr4,
    pub bone_ids: BoneIds,
}

/// A mesh: the unified vertex sequence and its index sequence.
#[derive(Clone, Debug, PartialEq, Eq)]
pub struct Mesh {
    pub vertices: Vec<Vertex>,
    pub indices: Vec<u32>,
}

impl Mesh {
    /// An empty mesh.
    pub fn new() -> (r: Mesh)
        ensures
            r.vertices@.len() == 0,
            r.indices@.len() == 0,
    {
        Mesh { vertices: Vec::new(), indices: Vec::new() }
    }
}

/// Independently indexed attribute streams, each either absent or aligned
/// 1:1 with the position stream.
#[derive(Clone, Debug, PartialEq, Eq)]
pub struct AttributeStreams {
    pub positions: Vec<Attr3>,
    pub normals: Option<Vec<Attr3>>,
    pub colors: Option<Vec<Attr3>>,
    pub texcoords: Option<Vec<Attr2>>,
    pub weights: Option<Vec<Attr4>>,
    pub joints: Option<Vec<LocalJoints>>,
}

/// All four local indices fall inside the skin's joint table.
pub open spec fn joints_in_range(j: LocalJoints, m: int) -> bool {
    j.a < m && j.b < m && j.c < m && j.d < m
}

/// Every present attribute stream is as long as the position stream.
pub open spec fn spec_lens_ok(s: AttributeStreams) -> bool {
    let n = s.positions@.len();
    &&& (s.normals matches Some(ns) ==> ns@.len() == n)
    &&& (s.colors matches Some(cs) ==> cs@.len() == n)
    &&& (s.texcoords matches Some(ts) ==> ts@.len() == n)
    &&& (s.weights matches Some(ws) ==> ws@.len() == n)
    &&& (s.joints matches Some(js) ==> js@.len() == n)
}

/// The streams assemble: lengths match, every skin-local joint index falls
/// inside the joint table, and every index refers to a vertex.
pub open spec fn spec_streams_ok(s: AttributeStreams, indices: Seq<u32>, table: Seq<i32>) -> bool {
    let n = s.positions@.len();
    &&& spec_lens_ok(s)
    &&& (s.joints matches Some(js) ==> forall|i: int|
        0 <= i < n ==> joints_in_range(#[trigger] js@[i], table.len() as int))
    &&& forall|k: int| 0 <= k < indices.len() ==> (#[trigger] indices[k]) < n
}

/// The vertex that assembly produces at position `i`: each present attribute
/// read at `i`, each absent one zero, and skin-local joint indices remapped
/// through the joint table into global joint indices.
pub open spec fn spec_vertex_at(s: AttributeStreams, table: Seq<i32>, i: int) -> Vertex {
    Vertex {
        pos: s.positions@[i],
        norm: match s.normals {
            Some(ns) => ns@[i],
            None => Attr3 { x: 0, y: 0, z: 0 },
        },
        col: match s.colors {
            Some(cs) => cs@[i],
            None => Attr3 { x: 0, y: 0, z: 0 },
        },
        tex: match s.texcoords {
            Some(ts) => ts@[i],
            None => Attr2 { u: 0, v: 0 },
        },
        weights: match s.weights {
            Some(ws) => ws@[i],
            None => Attr4 { a: 0, b: 0, c: 0, d: 0 },
        },
        bone_ids: match s.joints {
            Some(js) => BoneIds {
                a: table[js@[i].a as int],
                b: table[js@[i].b as int],
                c: table[js@[i].c as int],
                d: table[js@[i].d as int],
            },
            None => BoneIds { a: 0, b: 0, c: 0, d: 0 },
        },
    }
}

/// Remap one skin-local joint index through the skin's joint table into a
/// global joint index; an index outside the table marks a corrupt asset.
pub fn remap_joint_index(table: &Vec<i32>, local: u32) -> (r: Result<i32, ImportError>)
    ensures
        r matches Ok(g) ==> local < table@.len() && g == table@[local as int],
        r is Err <==> local >= table@.len(),
        r matches Err(e) ==> e == ImportError::MalformedDocument,
{
    if (local as usize) < table.len() {
        Ok(table[local as usize])
    } else {
        Err(ImportError::MalformedDocument)
    }
}

/// Merge independently indexed attribute streams into a unified vertex
/// sequence plus a matching index sequence. Vertex `i` aggregates all present
/// attributes at position `i` (absent attributes read zero), skin-local joint
/// indices are remapped through `joint_table` into global joint indices, and
/// the index sequence is returned unchanged. Fails with
/// `AttributeLengthMismatch` exactly when a present stream's length differs
/// from the position stream's, and with `MalformedDocument` when a joint
/// index falls outside the table or an index outside the vertex range.
pub fn assemble_mesh(streams: &AttributeStreams, indices: &Vec<u32>, joint_table: &Vec<i32>) -> (r:
    Result<Mesh, ImportError>)
    ensures
        r is Ok <==> spec_streams_ok(*streams, indices@, joint_table@),
        r matches Ok(m) ==> m.vertices@.len() == streams.positions@.len() && m.indices@ == indices@
            && forall|i: int|
            0 <= i < streams.positions@.len() ==> #[trigger] m.vertices@[i] == spec_vertex_at(
                *streams,
                joint_table@,
                i,
            ),
        r matches Err(e) ==> e == (if !spec_lens_ok(*streams) {
            ImportError::AttributeLengthMismatch
        } else {
            ImportError::MalformedDocument
        }),
{
    let n = streams.positions.len();
    if let Some(ns) = &streams.normals {
        if ns.len() != n {
            return Err(ImportError::AttributeLengthMismatch);
        }
    }
    if let Some(cs) = &streams.colors {
        if cs.len() != n {
            return Err(ImportError::AttributeLengthMismatch);
        }
    }
    if let Some(ts) = &streams.texcoords {
        if ts.len() != n {
            return Err(ImportError::AttributeLengthMismatch);
        }
    }
    if let Some(ws) = &streams.weights {
        if ws.len() != n {
            return Err(ImportError::AttributeLengthMismatch);
        }
    }
    proof {
        assert(spec_lens_ok(*streams) || streams.joints is Some);
    }
    if let Some(js) = &streams.joints {
        if js.len() != n {
            return Err(ImportError::AttributeLengthMismatch);
        }
        let m = joint_table.len();
        let mut i: usize = 0;
        while i < n
            invariant
                spec_lens_ok(*streams),
                streams.joints == Some(*js),
                n == streams.positions@.len(),
                js@.len() == n,
                m == joint_table@.len(),
                i <= n,
                forall|j: int| 0 <= j < i ==> joints_in_range(#[trigger] js@[j], m as int),
            decreases n - i,
        {
            let b = js[i];
            if b.a as usize >= m || b.b as usize >= m || b.c as usize >= m || b.d as usize >= m {
                proof {
                    assert(spec_lens_ok(*streams));
                    assert(!joints_in_range(js@[i as int], joint_table@.len() as int));
                    assert(!spec_streams_ok(*streams, indices@, joint_table@));
                }
                return Err(ImportError::MalformedDocument);
            }
            i = i + 1;
        }
    }
    let mut k: usize = 0;
    while k < indices.len()
        invariant
            spec_lens_ok(*streams),
            k <= indices@.len(),
            n == streams.positions@.len(),
            forall|j: int| 0 <= j < k ==> (#[trigger] indices@[j]) < n,
        decreases indices@.len() - k,
    {
        if indices[k] as usize >= n {
            proof {
                assert(spec_lens_ok(*streams));
                assert(!(indices@[k as int] < n));
                assert(!spec_streams_ok(*streams, indices@, joint_table@));
            }
            return Err(ImportError::MalformedDocument);
        }
        k = k + 1;
    }
    let mut vertices: Vec<Vertex> = Vec::new();
    let mut i: usize = 0;
    while i < n
        invariant
            n == streams.positions@.len(),
            spec_streams_ok(*streams, indices@, joint_table@),
            i <= n,
            vertices@.len() == i,
            forall|j: int|
                0 <= j < i ==> #[trigger] vertices@[j] == spec_vertex_at(
                    *streams,
                    joint_table@,
                    j,
                ),
        decreases n - i,
    {
        let norm = match &streams.normals {
            Some(ns) => ns[i],
            None => Attr3 { x: 0, y: 0, z: 0 },
        };
        let col = match &streams.colors {
            Some(cs) => cs[i],
            None => Attr3 { x: 0, y: 0, z: 0 },
        };
        let tex = match &streams.texcoords {
            Some(ts) => ts[i],
            None => Attr2 { u: 0, v: 0 },
        };
        let weights = match &streams.weights {
            Some(ws) => ws[i],
            None => Attr4 { a: 0, b: 0, c: 0, d: 0 },
        };
        let bone_ids = match &streams.joints {
            Some(js) => {
                proof {
                    assert(joints_in_range(js@[i as int], joint_table@.len() as int));
                }
                let b = js[i];
                BoneIds {
                    a: joint_table[b.a as usize],
                    b: joint_table[b.b as usize],
                    c: joint_table[b.c as usize],
                    d: joint_table[b.d as usize],
                }
            },
            None => BoneIds { a: 0, b: 0, c: 0, d: 0 },
        };
        vertices.push(
            Vertex { pos: streams.positions[i], norm, col, tex, weights, bone_ids },
        );
        i = i + 1;
    }
    let mut out_indices: Vec<u32> = Vec::new();
    let mut k: usize = 0;
    while k < indices.len()
        invariant
            k <= indices@.len(),
            out_indices@ == indices@.take(k as int),
        decreases indices@.len() - k,
    {
        out_indices.push(indices[k]);
        proof {
            assert(out_indices@ =~= indices@.take(k + 1));
        }
        k = k + 1;
    }
    proof {
        assert(indices@.take(indices@.len() as int) =~= indices@);
    }
    Ok(Mesh { vertices, indices: out_indices })
}

/// The bounding-volume tag of a model, used for collision.
#[derive(Clone, Copy, Debug, PartialEq, Eq, Structural)]
pub enum Shape {
    Sphere { radius: i64 },
    Cube { dimensions: Vec3 },
    /// No bounding volume.
    Unset,
}

/// The shape's dimensions within fixed-point range.
pub open spec fn shape_bounded(s: Shape) -> bool {
    match s {
        Shape::Sphere { radius } => -FX_LIMIT <= radius <= FX_LIMIT,
        Shape::Cube { dimensions } => v3_bounded(dimensions@),
        Shape::Unset => true,
    }
}

/// The scale vector a shape contributes to its model's transform.
pub open spec fn spec_shape_scale(s: Shape) -> Vec3 {
    match s {
        Shape::Sphere { radius } => Vec3 { x: radius, y: radius, z: radius },
        Shape::Cube { dimensions } => dimensions,
        Shape::Unset => Vec3 { x: crate::num::FX_ONE, y: crate::num::FX_ONE, z: crate::num::FX_ONE },
    }
}

/// The derived model matrix: translation by the position, rotation by the
/// quaternion, scale by the shape's dimensions; the identity when the exact
/// product leaves the fixed-point range.
pub open spec fn spec_model_matrix(pos: Vec3, rotation: Quat, shape: Shape) -> Seq<int> {
    match spec_checked(spec_trs_matrix(pos@, rotation@, spec_shape_scale(shape)@)) {
        Some(m) => m,
        None => spec_mat_identity(),
    }
}

/// Saturating fixed-point addition: the exact sum, pinned to the
/// representable range.
pub open spec fn spec_sat_add(a: int, b: int) -> int {
    if a + b > FX_LIMIT {
        FX_LIMIT as int
    } else if a + b < -FX_LIMIT {
        -FX_LIMIT as int
    } else {
        a + b
    }
}

/// Saturating fixed-point addition.
pub fn sat_add(a: i64, b: i64) -> (r: i64)
    requires
        -FX_LIMIT <= a <= FX_LIMIT,
        -FX_LIMIT <= b <= FX_LIMIT,
    ensures
        r == spec_sat_add(a as int, b as int),
        -FX_LIMIT <= r <= FX_LIMIT,
{
    let s = a + b;
    if s > FX_LIMIT {
        FX_LIMIT
    } else if s < -FX_LIMIT {
        -FX_LIMIT
    } else {
        s
    }
}

/// A model: its meshes, bounding shape, colors and flags, and a transform
/// derived from position and rotation (a cache, recomputed by
/// `update_properties`).
#[derive(Clone, Debug, PartialEq, Eq)]
pub struct Model {
    pub meshes: Vec<Mesh>,
    pub shape: Shape,
    pub color: Vec3,
    pub transform: Mat4,
    pub pos: Vec3,
    pub rotation: Quat,
    pub velocity: Vec3,
    pub textured: bool,
    pub checkered: bool,
    pub squares: i64,
    pub sub_dvd: bool,
    pub lines: i64,
}

impl Model {
    /// The motion state the derived transform depends on, within range.
    pub open spec fn wf(&self) -> bool {
        &&& v3_bounded(self.pos@)
        &&& v3_bounded(self.velocity@)
        &&& q4_bounded(self.rotation@)
        &&& shape_bounded(self.shape)
    }

    /// A fresh model with no meshes, the identity transform, zero velocity
    /// and the zero rotation.
    pub fn new(shape: Shape, pos: Vec3, col: Vec3) -> (r: Result<Model, String>)
        requires
            v3_bounded(pos@),
            shape_bounded(shape),
        ensures
            r matches Ok(m) ==> m.meshes@.len() == 0 && m.shape == shape && m.pos == pos && m.color
                == col && m.transform@ == spec_mat_identity() && m.velocity@ == (
            crate::algebra::V3 { x: 0, y: 0, z: 0 }) && m.rotation == (Quat {
                x: 0,
                y: 0,
                z: 0,
                w: 0,
            }) && !m.textured && !m.checkered && !m.sub_dvd && m.squares == 0 && m.lines == 0
                && m.wf(),
            r is Ok,
    {
        Ok(
            Model {
                meshes: Vec::new(),
                shape,
                color: col,
                transform: Mat4::new(),
                pos,
                rotation: Quat { x: 0, y: 0, z: 0, w: 0 },
                velocity: Vec3::zero(),
                textured: false,
                checkered: false,
                squares: 0,
                sub_dvd: false,
                lines: 0,
            },
        )
    }

    /// Advance the position by the velocity (saturating at the representable
    /// range) and recompute the cached transform from the new position, the
    /// rotation and the shape's scale.
    pub fn update_properties(&mut self)
        requires
            old(self).wf(),
        ensures
            final(self).wf(),
            final(self).pos@.x == spec_sat_add(old(self).pos@.x, old(self).velocity@.x),
            final(self).pos@.y == spec_sat_add(old(self).pos@.y, old(self).velocity@.y),
            final(self).pos@.z == spec_sat_add(old(self).pos@.z, old(self).velocity@.z),
            final(self).transform@ == spec_model_matrix(
                final(self).pos,
                final(self).rotation,
                final(self).shape,
            ),
            final(self).meshes == old(self).meshes,
            final(self).shape == old(self).shape,
            final(self).rotation == old(self).rotation,
            final(self).velocity == old(self).velocity,
            final(self).color == old(self).color,
    {
        self.pos = Vec3 {
            x: sat_add(self.pos.x, self.velocity.x),
            y: sat_add(self.pos.y, self.velocity.y),
            z: sat_add(self.pos.z, self.velocity.z),
        };
        let dims = match self.shape {
            Shape::Sphere { radius } => Vec3 { x: radius, y: radius, z: radius },
            Shape::Cube { dimensions } => dimensions,
            Shape::Unset => Vec3::one(),
        };
        match trs_matrix(&self.pos, &self.rotation, &dims) {
            Some(m) => {
                self.transform = m;
            },
            None => {
                self.transform = Mat4::new();
            },
        }
    }
}

} // verus!
