use std::path::{Path, PathBuf};
use vstd::prelude::*;

use crate::error::HyperspaceError;
use crate::state::{is_demo_state, HyperspaceState};

verus! {

#[verifier::external_type_specification]
#[verifier::external_body]
pub struct ExPathBuf(PathBuf);

#[verifier::external_type_specification]
#[verifier::external_body]
pub struct ExPath(Path);

/// The path that `PathBuf::as_path` borrows from `buf`: the same path, as a `Path` slice.
pub uninterp spec fn path_slice(buf: &PathBuf) -> &Path;

/// Calls `PathBuf::as_path`. Claimed: the result is `path_slice` of the argument, that
/// is, it depends on the path buffer alone; what a `Path` holds is not modelled.
#[verifier::external_body]
fn path_of(path: &PathBuf) -> (r: &Path)
    ensures
        r == path_slice(path),
{
    path.as_path()
}

/// Where a workspace is saved as JSON. Reading and writing the file is done by the shell.
pub struct JsonWorkspaceStore {
    path: PathBuf,
}

impl JsonWorkspaceStore {
    /// The file this store reads and writes.
    pub closed spec fn file(&self) -> PathBuf {
        self.path
    }

    /// A store for the given file.
    pub fn new(path: PathBuf) -> (s: Self)
        ensures
            s.file() == path,
    {
        JsonWorkspaceStore { path }
    }

    /// The file this store reads and writes.
    pub fn path(&self) -> (r: &Path)
        ensures
            r == path_slice(&self.file()),
    {
        path_of(&self.path)
    }

    /// The state a load yields: the loaded state, or the demo workspace when loading failed.
    pub fn state_or_demo(loaded: Result<HyperspaceState, HyperspaceError>) -> (state: HyperspaceState)
        ensures
            match loaded {
                Ok(s) => state == s,
                Err(_) => is_demo_state(state),
            },
    {
        match loaded {
            Ok(state) => state,
            Err(_) => HyperspaceState::with_demo_content(),
        }
    }
}

} // verus!
