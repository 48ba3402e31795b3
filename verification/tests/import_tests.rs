use riganim::algebra::{Quat, Vec3};
use riganim::error::{ImportError, Unsupported};
use riganim::import::{
    from_dae, get_attributs, IndexTriangle, SourceAnimation, SourceChannel, SourceDocument,
    SourceInterpolation, SourceNode, SourcePrimitive, SourceSamples, SourceSkin, VtnIndex,
    VtnTriangle, XmlObject,
};
use riganim::matrix::{mat4, transpose, Mat4};
use riganim::mesh::{
    assemble_mesh, remap_joint_index, Attr2, Attr3, Attr4, AttributeStreams, LocalJoints,
};
use riganim::num::FX_ONE;
use riganim::skeleton::Transform;
use riganim::track::Interpolation;

fn base_transform() -> Transform {
    Transform {
        translation: Vec3 { x: 0, y: 0, z: 0 },
        orientation: Quat { x: 0, y: 0, z: 0, w: FX_ONE },
        scaling: Vec3 { x: FX_ONE, y: FX_ONE, z: FX_ONE },
    }
}

fn node(name: &str, children: Vec<u32>) -> SourceNode {
    SourceNode { name: name.as_bytes().to_vec(), transform: base_transform(), children }
}

fn a3(x: u32, y: u32, z: u32) -> Attr3 {
    Attr3 { x, y, z }
}

fn empty_doc() -> SourceDocument {
    SourceDocument { nodes: Vec::new(), skins: Vec::new(), primitives: Vec::new(), animations: Vec::new() }
}

#[test]
fn mesh_assembly_positions_normals_no_texcoords() {
    let streams = AttributeStreams {
        positions: vec![a3(1, 2, 3), a3(4, 5, 6), a3(7, 8, 9), a3(10, 11, 12)],
        normals: Some(vec![a3(20, 0, 0), a3(21, 0, 0), a3(22, 0, 0), a3(23, 0, 0)]),
        colors: None,
        texcoords: None,
        weights: None,
        joints: None,
    };
    let indices = vec![0, 1, 2, 0, 2, 3];
    let mesh = assemble_mesh(&streams, &indices, &Vec::new()).unwrap();
    assert_eq!(mesh.vertices.len(), 4);
    assert_eq!(mesh.indices, indices);
    for (i, v) in mesh.vertices.iter().enumerate() {
        assert_eq!(v.pos, streams.positions[i]);
        assert_eq!(v.norm, a3(20 + i as u32, 0, 0));
        assert_eq!(v.tex, Attr2 { u: 0, v: 0 });
        assert_eq!(v.col, a3(0, 0, 0));
        assert_eq!(v.weights, Attr4 { a: 0, b: 0, c: 0, d: 0 });
    }
}

#[test]
fn mesh_assembly_rejects_length_mismatch() {
    let streams = AttributeStreams {
        positions: vec![a3(1, 2, 3), a3(4, 5, 6), a3(7, 8, 9), a3(10, 11, 12)],
        normals: Some(vec![a3(20, 0, 0), a3(21, 0, 0)]),
        colors: None,
        texcoords: None,
        weights: None,
        joints: None,
    };
    let r = assemble_mesh(&streams, &vec![0, 1, 2], &Vec::new());
    assert_eq!(r.unwrap_err(), ImportError::AttributeLengthMismatch);
}

#[test]
fn mesh_assembly_rejects_out_of_range_index() {
    let streams = AttributeStreams {
        positions: vec![a3(1, 2, 3)],
        normals: None,
        colors: None,
        texcoords: None,
        weights: None,
        joints: None,
    };
    let r = assemble_mesh(&streams, &vec![0, 4, 0], &Vec::new());
    assert_eq!(r.unwrap_err(), ImportError::MalformedDocument);
}

#[test]
fn skin_joint_indices_remap_through_table() {
    let table: Vec<i32> = vec![5, 2, 7];
    assert_eq!(remap_joint_index(&table, 1), Ok(2));
    assert_eq!(remap_joint_index(&table, 0), Ok(5));
    assert_eq!(remap_joint_index(&table, 2), Ok(7));
    assert_eq!(remap_joint_index(&table, 3), Err(ImportError::MalformedDocument));
}

#[test]
fn vertex_joint_batch_remaps_through_table() {
    let streams = AttributeStreams {
        positions: vec![a3(0, 0, 0)],
        normals: None,
        colors: None,
        texcoords: None,
        weights: Some(vec![Attr4 { a: 1, b: 1, c: 1, d: 0 }]),
        joints: Some(vec![LocalJoints { a: 1, b: 0, c: 2, d: 0 }]),
    };
    let table: Vec<i32> = vec![5, 2, 7];
    let mesh = assemble_mesh(&streams, &Vec::new(), &table).unwrap();
    let ids = mesh.vertices[0].bone_ids;
    assert_eq!((ids.a, ids.b, ids.c, ids.d), (2, 5, 7, 5));
}

#[test]
fn rest_pose_reconstructs_parent_links_from_children() {
    let doc = SourceDocument {
        nodes: vec![node("root", vec![1, 2]), node("left", Vec::new()), node("right", vec![3]), node("tip", Vec::new())],
        ..empty_doc()
    };
    let pose = doc.exctract_rest_pose().unwrap();
    assert_eq!(pose.parents, vec![-1, 0, 0, 2]);
    assert_eq!(pose.joints.len(), 4);
}

#[test]
fn rest_pose_rejects_child_index_out_of_range() {
    let doc = SourceDocument { nodes: vec![node("root", vec![9])], ..empty_doc() };
    assert_eq!(doc.exctract_rest_pose().unwrap_err(), ImportError::MalformedDocument);
}

#[test]
fn joint_names_follow_node_order() {
    let doc = SourceDocument {
        nodes: vec![node("hip", Vec::new()), node("knee", Vec::new())],
        ..empty_doc()
    };
    let names = doc.load_joint_names();
    assert_eq!(names, vec![b"hip".to_vec(), b"knee".to_vec()]);
}

#[test]
fn inverse_bind_matrices_are_transposed_and_scattered() {
    let raw = mat4(1, 2, 3, 4, 5, 6, 7, 8, 9, 10, 11, 12, 13, 14, 15, 16);
    let doc = SourceDocument {
        nodes: vec![node("a", vec![1]), node("b", Vec::new())],
        skins: vec![SourceSkin { joints: vec![1], inverse_bind: vec![raw.clone()] }],
        ..empty_doc()
    };
    let (mats, warns) = doc.extract_inverse_bind_mats().unwrap();
    assert_eq!(mats.len(), 2);
    assert_eq!(mats[0], Mat4::new());
    assert_eq!(mats[1], transpose(&raw));
    assert!(warns.is_empty());
}

#[test]
fn extra_skins_degrade_with_a_warning() {
    let skin = SourceSkin { joints: Vec::new(), inverse_bind: Vec::new() };
    let doc = SourceDocument {
        nodes: vec![node("a", Vec::new())],
        skins: vec![skin.clone(), skin],
        ..empty_doc()
    };
    let (_, warns) = doc.extract_inverse_bind_mats().unwrap();
    assert_eq!(warns, vec![Unsupported::MultipleSkins]);
}

fn rotation_doc() -> SourceDocument {
    SourceDocument {
        nodes: vec![node("spin", Vec::new())],
        animations: vec![SourceAnimation {
            name: b"turn".to_vec(),
            channels: vec![SourceChannel {
                target: 0,
                interpolation: SourceInterpolation::Linear,
                times: vec![0, FX_ONE, 3 * FX_ONE],
                samples: SourceSamples::Rotations(vec![
                    Quat { x: 0, y: 0, z: 0, w: FX_ONE },
                    Quat { x: FX_ONE, y: 0, z: 0, w: 0 },
                    Quat { x: 0, y: 0, z: 0, w: FX_ONE },
                ]),
                sparse: false,
            }],
        }],
        ..empty_doc()
    }
}

#[test]
fn imported_clip_duration_equals_last_keyframe_time() {
    let asset = rotation_doc().import_document().unwrap();
    assert_eq!(asset.clips.len(), 1);
    let clip = &asset.clips[0];
    assert_eq!(clip.name, b"turn".to_vec());
    assert_eq!(clip.duration, 3 * FX_ONE);
    assert_eq!(clip.tracks.len(), 1);
    assert_eq!(clip.tracks[0].rotation.frames.len(), 3);
    assert_eq!(clip.tracks[0].rotation.interpolation, Interpolation::Linear);
    assert_eq!(clip.tracks[0].position.frames.len(), 0);
}

#[test]
fn sparse_channel_degrades_to_empty_track_with_warning() {
    let mut doc = rotation_doc();
    doc.animations[0].channels[0].sparse = true;
    let (clips, warns) = doc.extrat_animations().unwrap();
    assert_eq!(warns, vec![Unsupported::SparseKeyframes]);
    assert_eq!(clips[0].tracks[0].rotation.frames.len(), 0);
    assert_eq!(clips[0].duration, 0);
}

#[test]
fn unsorted_keyframe_times_are_rejected() {
    let mut doc = rotation_doc();
    doc.animations[0].channels[0].times = vec![FX_ONE, 0, 3 * FX_ONE];
    assert_eq!(
        doc.extrat_animations().unwrap_err(),
        ImportError::MalformedDocument
    );
}

#[test]
fn animated_child_samples_between_keyframes() {
    // A root and an animated child: position keyframes (0,0,0) at t=0 and
    // (1,0,0) at t=1, sampled unlooped at t=0.5, give (0.5, 0, 0).
    let doc = SourceDocument {
        nodes: vec![node("root", vec![1]), node("child", Vec::new())],
        animations: vec![SourceAnimation {
            name: b"slide".to_vec(),
            channels: vec![SourceChannel {
                target: 1,
                interpolation: SourceInterpolation::Linear,
                times: vec![0, FX_ONE],
                samples: SourceSamples::Translations(vec![
                    Vec3 { x: 0, y: 0, z: 0 },
                    Vec3 { x: FX_ONE, y: 0, z: 0 },
                ]),
                sparse: false,
            }],
        }],
        ..empty_doc()
    };
    let asset = doc.import_document().unwrap();
    assert_eq!(asset.skeleton.joint_count(), 2);
    assert_eq!(asset.skeleton.parent_of(1), 0);
    let mut pose = asset.skeleton.rest.clone();
    asset.clips[0].sample(&mut pose, FX_ONE / 2, false);
    assert_eq!(pose.joints[1].translation, Vec3 { x: FX_ONE / 2, y: 0, z: 0 });
    assert_eq!(pose.joints[0].translation, Vec3 { x: 0, y: 0, z: 0 });
}

#[test]
fn step_mode_maps_to_constant_interpolation() {
    let mut doc = rotation_doc();
    doc.animations[0].channels[0].interpolation = SourceInterpolation::Step;
    let (clips, _) = doc.extrat_animations().unwrap();
    assert_eq!(clips[0].tracks[0].rotation.interpolation, Interpolation::Constant);
}

#[test]
fn xml_objects_produce_flat_vertices_and_indices() {
    let obj = XmlObject {
        vertices: vec![a3(1, 0, 0), a3(2, 0, 0), a3(3, 0, 0)],
        tex_vertices: vec![Attr2 { u: 7, v: 8 }],
        normals: vec![a3(9, 9, 9)],
        index_triangles: vec![IndexTriangle { a: 0, b: 1, c: 2 }],
        vtn_triangles: vec![VtnTriangle {
            a: VtnIndex { v: 0, t: Some(0), n: Some(0) },
            b: VtnIndex { v: 1, t: Some(0), n: Some(0) },
            c: VtnIndex { v: 2, t: Some(0), n: Some(0) },
        }],
    };
    let model = from_dae(&vec![obj]).unwrap();
    assert_eq!(model.meshes.len(), 1);
    let mesh = &model.meshes[0];
    assert_eq!(mesh.indices, vec![0, 1, 2]);
    assert_eq!(mesh.vertices.len(), 3);
    assert_eq!(mesh.vertices[0].pos, a3(1, 0, 0));
    assert_eq!(mesh.vertices[2].pos, a3(3, 0, 0));
    assert_eq!(mesh.vertices[1].tex, Attr2 { u: 7, v: 8 });
    assert_eq!(mesh.vertices[1].norm, a3(9, 9, 9));
}

#[test]
fn xml_triple_without_texture_reference_is_rejected() {
    let obj = XmlObject {
        vertices: vec![a3(1, 0, 0)],
        tex_vertices: Vec::new(),
        normals: vec![a3(9, 9, 9)],
        index_triangles: Vec::new(),
        vtn_triangles: Vec::new(),
    };
    let idx = VtnIndex { v: 0, t: None, n: Some(0) };
    assert_eq!(get_attributs(&obj, &idx).unwrap_err(), ImportError::MalformedDocument);
}
