//! The error taxonomy of the import pipeline. Fatal conditions abort the
//! import call that raised them; unsupported-feature conditions are reported
//! beside a best-effort result instead of failing the import.

use vstd::prelude::*;

verus! {

/// A fatal import error.
#[derive(Clone, Copy, Debug, PartialEq, Eq, Structural)]
pub enum ImportError {
    /// The source document is unreadable or structurally broken (an index
    /// points past the data it refers to, a value stream is missing).
    MalformedDocument,
    /// The joint hierarchy is inconsistent: counts disagree, a parent index
    /// is out of range, or the parent graph has a cycle.
    InvalidSkeleton,
    /// A present vertex attribute stream differs in length from the position
    /// stream.
    AttributeLengthMismatch,
    /// A joint name lookup found no joint of that name.
    JointNotFound,
}

/// A non-fatal condition: the affected piece degrades to an empty or default
/// value and import continues.
#[derive(Clone, Copy, Debug, PartialEq, Eq, Structural)]
pub enum Unsupported {
    /// Sparse keyframe accessors: the affected track is left empty.
    SparseKeyframes,
    /// More than one skin in a document: only the first is used.
    MultipleSkins,
}

impl ImportError {
    /// A short human-readable description.
    pub fn describe(&self) -> (r: &'static str)
        ensures
            r@.len() > 0,
    {
        proof {
            reveal_strlit("malformed source document");
            reveal_strlit("invalid skeleton hierarchy");
            reveal_strlit("attribute stream length mismatch");
            reveal_strlit("joint name not found");
        }
        match self {
            ImportError::MalformedDocument => "malformed source document",
            ImportError::InvalidSkeleton => "invalid skeleton hierarchy",
            ImportError::AttributeLengthMismatch => "attribute stream length mismatch",
            ImportError::JointNotFound => "joint name not found",
        }
    }
}

} // verus!
