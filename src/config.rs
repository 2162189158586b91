//! Where the model comes from: exactly one of a hub identifier or a local path.
use vstd::prelude::*;

verus! {

/// Why the model source given on the command line cannot be used.
#[derive(Debug, Clone, PartialEq, Eq, Structural)]
pub enum SourceError {
    /// A local path was asked for but none was given.
    PathMissing,
    /// Retrieval from the model hub is not available.
    HubNotSupported,
    /// Neither or both of a hub identifier and a local path were given.
    NeedExactlyOneSource,
}

/// The model directory from a local path option.
pub fn load_model_from_local_path(model_path: &Option<String>) -> (r: Result<String, SourceError>)
    ensures
        model_path matches Some(p) ==> (r matches Ok(q) && q@ == p@),
        model_path is None ==> r == Err::<String, SourceError>(SourceError::PathMissing),
{
    match model_path {
        Some(path) => Ok(path.clone()),
        None => Err(SourceError::PathMissing),
    }
}

/// The model directory from the two mutually exclusive source options: a
/// local path alone is used; a hub identifier alone is not supported; any
/// other combination is a configuration error.
pub fn load_model(model_id: &Option<String>, model_path: &Option<String>) -> (r: Result<String, SourceError>)
    ensures
        (model_id is None && model_path is Some) ==> (r matches Ok(q) && q@ == model_path->0@),
        (model_id is Some && model_path is None) ==> r == Err::<String, SourceError>(SourceError::HubNotSupported),
        (model_id is Some) == (model_path is Some) ==> r == Err::<String, SourceError>(SourceError::NeedExactlyOneSource),
{
    match (model_id.is_some(), model_path.is_some()) {
        (true, false) => Err(SourceError::HubNotSupported),
        (false, true) => load_model_from_local_path(model_path),
        _ => Err(SourceError::NeedExactlyOneSource),
    }
}

} // verus!
