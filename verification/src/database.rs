//! Where the embedded database of the host keeps its data.

use std::path::PathBuf;
use vstd::prelude::*;

verus! {

/// The place of an in-process database: in memory only, or in a file.
#[derive(Debug)]
pub enum InProcDatabaseLocation {
    InMemory,
    Path(PathBuf),
}

impl Clone for InProcDatabaseLocation {
    fn clone(&self) -> (r: Self)
        ensures
            r == *self,
    {
        match self {
            InProcDatabaseLocation::InMemory => InProcDatabaseLocation::InMemory,
            InProcDatabaseLocation::Path(path) => InProcDatabaseLocation::Path(path.clone()),
        }
    }
}

} // verus!
