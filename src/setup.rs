//! What the filesystem reports about a path, and the validation of the two roots.
use vstd::prelude::*;

verus! {

/// What a path refers to on disk, following symbolic links.
#[derive(Clone, Copy, Debug, PartialEq, Eq, Structural)]
pub enum PathKind {
    /// Nothing exists at the path.
    Missing,
    /// Something exists at the path and it is not a directory.
    File,
    /// The path refers to a directory.
    Directory,
}

/// Why the two roots of a run were refused.
#[derive(Clone, Copy, Debug, PartialEq, Eq, Structural)]
pub enum SetupError {
    /// A path that must exist is absent.
    NotFound,
    /// A path exists but is not a directory.
    InvalidInput,
}

/// What must happen to the destination root before the run goes on.
#[derive(Clone, Copy, Debug, PartialEq, Eq, Structural)]
pub enum DestinationAction {
    /// The destination root is an existing directory and is used as it is.
    UseExisting,
    /// The destination root is absent and is created as an empty directory.
    Create,
}

/// Accepts a path only when it is a directory.
pub fn check_path_is_dir(kind: PathKind) -> (r: Result<(), SetupError>)
    ensures
        r is Ok <==> kind == PathKind::Directory,
        r is Err ==> r == Err::<(), SetupError>(SetupError::InvalidInput),
{
    match kind {
        PathKind::Directory => Ok(()),
        _ => Err(SetupError::InvalidInput),
    }
}

/// The validation of the two roots, as a value: the error, or what the run does
/// to the destination root.
pub open spec fn roots_verdict(source: PathKind, destination: PathKind) -> Result<DestinationAction, SetupError> {
    if source == PathKind::Missing {
        Err(SetupError::NotFound)
    } else if source == PathKind::File {
        Err(SetupError::InvalidInput)
    } else if destination == PathKind::File {
        Err(SetupError::InvalidInput)
    } else if destination == PathKind::Missing {
        Ok(DestinationAction::Create)
    } else {
        Ok(DestinationAction::UseExisting)
    }
}

/// Decides whether a run may start on these roots. The source root must be an
/// existing directory; the destination root must be a directory or absent, and is
/// created when absent. An error leaves the filesystem untouched: the only
/// change the run makes before any clone or fetch is the one returned here.
pub fn validate_roots(source: PathKind, destination: PathKind) -> (r: Result<DestinationAction, SetupError>)
    ensures
        r == roots_verdict(source, destination),
        source == PathKind::Missing ==> r == Err::<DestinationAction, SetupError>(SetupError::NotFound),
        source == PathKind::File ==> r == Err::<DestinationAction, SetupError>(SetupError::InvalidInput),
        source == PathKind::Directory && destination == PathKind::File
            ==> r == Err::<DestinationAction, SetupError>(SetupError::InvalidInput),
        r == Ok::<DestinationAction, SetupError>(DestinationAction::Create)
            <==> (source == PathKind::Directory && destination == PathKind::Missing),
        r == Ok::<DestinationAction, SetupError>(DestinationAction::UseExisting)
            <==> (source == PathKind::Directory && destination == PathKind::Directory),
{
    if source == PathKind::Missing {
        return Err(SetupError::NotFound);
    }
    if let Err(e) = check_path_is_dir(source) {
        return Err(e);
    }
    match destination {
        PathKind::Missing => Ok(DestinationAction::Create),
        _ => match check_path_is_dir(destination) {
            Ok(()) => Ok(DestinationAction::UseExisting),
            Err(e) => Err(e),
        },
    }
}

} // verus!
