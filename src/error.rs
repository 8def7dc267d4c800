//! Failures of generating the derivatives of one original.
use vstd::prelude::*;

verus! {

/// Why no derivative, or no complete one, was produced for an original.
pub enum GenerationError {
    /// The raster original could not be decoded.
    Decode { path: String, cause: String },
    /// The RAW container holds no embedded preview.
    Extraction { path: String },
    /// A derivative could not be written.
    Write { path: String, cause: String },
    /// The derivative was written, but the original's metadata could not be
    /// copied onto it.
    MetadataCopy { path: String, cause: String },
}

} // verus!
