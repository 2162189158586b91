//! The failures of device selection, index resolution and tensor lookup.
use vstd::prelude::*;

verus! {

/// Every way loading a sharded model can fail; each one ends the run.
#[derive(Debug, Clone, PartialEq, Eq)]
pub enum ModelError {
    /// The hardware reported itself available but could not be initialised.
    DeviceInitError,
    /// The index document does not exist.
    IndexNotFound,
    /// The index document is not valid JSON.
    IndexParseError,
    /// The index has no weight-map field.
    MissingWeightMap,
    /// The weight-map field is not an object.
    MalformedWeightMap,
    /// A shard file named by the index is not in the model directory.
    ShardFileMissing(String),
    /// The weight map names no shard file.
    EmptyWeightMap,
    /// A shard file is corrupt or does not match the index.
    UnsafeMappingError,
    /// No shard provides a tensor of this name.
    TensorNotFound(String),
}

} // verus!
