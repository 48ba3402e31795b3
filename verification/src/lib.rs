//! Import and normalization of skeletal 3D assets: a fixed-point data model
//! for joint hierarchies, keyframe animation tracks and clips, a mesh
//! assembler that merges independently indexed attribute streams, and import
//! adapters from plain-value source document models to the engine-native
//! structures.
//!
//! All arithmetic in this crate is exact integer arithmetic: scalar engine
//! quantities (times, transform components, matrix entries) are binary
//! fixed-point numbers with `FX_ONE` as the unit, and raw vertex attributes
//! are carried as opaque 32-bit patterns that this crate never computes with.

pub mod algebra;
pub mod clip;
pub mod error;
pub mod import;
pub mod matrix;
pub mod mesh;
pub mod num;
pub mod skeleton;
pub mod track;

pub use algebra::{Quat, Vec3};
pub use clip::{Clip, TransformTrack};
pub use error::{ImportError, Unsupported};
pub use matrix::Mat4;
pub use mesh::{Mesh, Model, Shape, Vertex};
pub use num::{FX_LIMIT, FX_ONE};
pub use skeleton::{Pose, Skeleton, Transform};
pub use track::{Interpolation, QuaternionTrack, VectorTrack};
