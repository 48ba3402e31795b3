use riganim::algebra::{Quat, Vec3};
use riganim::error::ImportError;
use riganim::matrix::{mat4, mat_mul, mat_scalar_mul, transpose, translate, trs_matrix, Mat4};
use riganim::num::FX_ONE;
use riganim::skeleton::{Pose, Skeleton, Transform};

fn identity_transform() -> Transform {
    Transform {
        translation: Vec3 { x: 0, y: 0, z: 0 },
        orientation: Quat { x: 0, y: 0, z: 0, w: FX_ONE },
        scaling: Vec3 { x: FX_ONE, y: FX_ONE, z: FX_ONE },
    }
}

fn translated(x: i64) -> Transform {
    Transform {
        translation: Vec3 { x, y: 0, z: 0 },
        orientation: Quat { x: 0, y: 0, z: 0, w: FX_ONE },
        scaling: Vec3 { x: FX_ONE, y: FX_ONE, z: FX_ONE },
    }
}

fn chain_skeleton(n: usize) -> Skeleton {
    let mut joints = Vec::new();
    let mut parents = Vec::new();
    let mut names = Vec::new();
    let mut ibms = Vec::new();
    for i in 0..n {
        joints.push(identity_transform());
        parents.push(i as i32 - 1);
        names.push(format!("joint{}", i).into_bytes());
        ibms.push(Mat4::new());
    }
    Skeleton::build(Pose { joints, parents }, names, ibms).unwrap()
}

#[test]
fn built_skeleton_exposes_joint_count_and_root_sentinel() {
    for n in 1..6 {
        let skel = chain_skeleton(n);
        assert_eq!(skel.joint_count(), n);
        assert_eq!(skel.parent_of(0), -1);
        for i in 1..n {
            assert_eq!(skel.parent_of(i), i as i32 - 1);
        }
    }
}

#[test]
fn build_rejects_count_mismatch() {
    let pose = Pose { joints: vec![identity_transform()], parents: vec![-1, 0] };
    let r = Skeleton::build(pose, vec![b"a".to_vec()], vec![Mat4::new()]);
    assert_eq!(r.unwrap_err(), ImportError::InvalidSkeleton);
}

#[test]
fn build_rejects_out_of_range_parent() {
    let pose = Pose {
        joints: vec![identity_transform(), identity_transform()],
        parents: vec![-1, 7],
    };
    let r = Skeleton::build(
        pose,
        vec![b"a".to_vec(), b"b".to_vec()],
        vec![Mat4::new(), Mat4::new()],
    );
    assert_eq!(r.unwrap_err(), ImportError::InvalidSkeleton);
}

#[test]
fn build_rejects_parent_cycle() {
    let pose = Pose {
        joints: vec![identity_transform(), identity_transform()],
        parents: vec![1, 0],
    };
    let r = Skeleton::build(
        pose,
        vec![b"a".to_vec(), b"b".to_vec()],
        vec![Mat4::new(), Mat4::new()],
    );
    assert_eq!(r.unwrap_err(), ImportError::InvalidSkeleton);
}

#[test]
fn joint_lookup_by_name() {
    let skel = chain_skeleton(3);
    assert_eq!(skel.joint_index(b"joint1"), Ok(1));
    assert_eq!(skel.joint_index(b"nope"), Err(ImportError::JointNotFound));
}

#[test]
fn global_transform_composes_along_parent_chain() {
    let mut joints = Vec::new();
    let mut parents = Vec::new();
    let mut names = Vec::new();
    let mut ibms = Vec::new();
    for i in 0..2 {
        joints.push(translated(FX_ONE * (i + 1)));
        parents.push(i as i32 - 1);
        names.push(format!("j{}", i).into_bytes());
        ibms.push(Mat4::new());
    }
    let skel = Skeleton::build(Pose { joints, parents }, names, ibms).unwrap();
    let g = skel.global_matrix(1).unwrap();
    // root translates by 1, child by 2 more: global x-translation is 3.
    assert_eq!(g.m[3], 3 * FX_ONE);
    assert_eq!(g.m[0], FX_ONE);
}

#[test]
fn global_transform_invariant_under_declaration_order() {
    // The same two-joint hierarchy declared in both index orders: the child's
    // global transform is the same.
    let a = {
        let joints = vec![translated(FX_ONE), translated(2 * FX_ONE)];
        let parents = vec![-1, 0];
        let names = vec![b"root".to_vec(), b"child".to_vec()];
        let ibms = vec![Mat4::new(), Mat4::new()];
        Skeleton::build(Pose { joints, parents }, names, ibms).unwrap()
    };
    let b = {
        let joints = vec![translated(2 * FX_ONE), translated(FX_ONE)];
        let parents = vec![1, -1];
        let names = vec![b"child".to_vec(), b"root".to_vec()];
        let ibms = vec![Mat4::new(), Mat4::new()];
        Skeleton::build(Pose { joints, parents }, names, ibms).unwrap()
    };
    assert_eq!(a.global_matrix(1).unwrap(), b.global_matrix(0).unwrap());
    assert_eq!(a.global_matrix(0).unwrap(), b.global_matrix(1).unwrap());
}

#[test]
fn skinning_matrix_composes_with_inverse_bind() {
    let joints = vec![translated(FX_ONE)];
    let parents = vec![-1];
    let names = vec![b"root".to_vec()];
    // inverse bind translates back by one unit.
    let inv = translate(&Vec3 { x: -FX_ONE, y: 0, z: 0 });
    let skel = Skeleton::build(Pose { joints, parents }, names, vec![inv]).unwrap();
    let s = skel.skinning_matrix(0).unwrap();
    assert_eq!(s, Mat4::new());
}

#[test]
fn transpose_swaps_rows_and_columns() {
    let m = mat4(1, 2, 3, 4, 5, 6, 7, 8, 9, 10, 11, 12, 13, 14, 15, 16);
    let t = transpose(&m);
    assert_eq!(t.m, vec![1, 5, 9, 13, 2, 6, 10, 14, 3, 7, 11, 15, 4, 8, 12, 16]);
}

#[test]
fn matrix_product_with_identity() {
    let t = translate(&Vec3 { x: 5 * FX_ONE, y: 0, z: 0 });
    let p = mat_mul(&Mat4::new(), &t).unwrap();
    assert_eq!(p, t);
}

#[test]
fn trs_matrix_of_identity_transform_is_identity() {
    let m = trs_matrix(
        &Vec3 { x: 0, y: 0, z: 0 },
        &Quat { x: 0, y: 0, z: 0, w: FX_ONE },
        &Vec3 { x: FX_ONE, y: FX_ONE, z: FX_ONE },
    )
    .unwrap();
    assert_eq!(m, Mat4::new());
}

#[test]
fn trs_matrix_quarter_turn_about_z() {
    // A 90-degree rotation about z: q = (0, 0, sqrt(1/2), sqrt(1/2)).
    let h: i64 = 46341; // sqrt(1/2) in fixed point, rounded
    let m = trs_matrix(
        &Vec3 { x: 0, y: 0, z: 0 },
        &Quat { x: 0, y: 0, z: h, w: h },
        &Vec3 { x: FX_ONE, y: FX_ONE, z: FX_ONE },
    )
    .unwrap();
    // first row is close to (0, -1, 0, 0)
    assert!(m.m[0].abs() < FX_ONE / 100);
    assert!((m.m[1] + FX_ONE).abs() < FX_ONE / 100);
    // second row is close to (1, 0, 0, 0)
    assert!((m.m[4] - FX_ONE).abs() < FX_ONE / 100);
    assert!(m.m[5].abs() < FX_ONE / 100);
    assert_eq!(m.m[10], FX_ONE);
}

#[test]
fn scalar_matrix_product_scales_entries() {
    let doubled = mat_scalar_mul(2 * FX_ONE, &Mat4::new()).unwrap();
    assert_eq!(doubled.m[0], 2 * FX_ONE);
    assert_eq!(doubled.m[5], 2 * FX_ONE);
    assert_eq!(doubled.m[1], 0);
}

#[test]
fn error_descriptions_are_nonempty() {
    assert!(!ImportError::MalformedDocument.describe().is_empty());
    assert!(!ImportError::InvalidSkeleton.describe().is_empty());
    assert!(!ImportError::AttributeLengthMismatch.describe().is_empty());
    assert!(!ImportError::JointNotFound.describe().is_empty());
}
