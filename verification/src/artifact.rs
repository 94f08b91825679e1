//! The records of the build tool's progress stream that name an executable.

use crate::text::same_text;
use vstd::prelude::*;

verus! {

/// A record of the build tool's progress stream, as far as the exporter reads
/// it.
#[derive(Clone, Debug, PartialEq, Eq)]
pub struct CompilerArtifact {
    /// The kind of the record.
    pub reason: String,
    /// The path of the executable that was built.
    pub executable: String,
}

impl CompilerArtifact {
    /// Whether the record reports an artifact of the compiler. Only such records
    /// are exported; the stream holds other kinds with an executable as well.
    pub fn is_compiler_artifact(&self) -> (yes: bool)
        ensures
            yes == (self.reason@ == "compiler-artifact"@),
    {
        same_text(self.reason.as_str(), "compiler-artifact")
    }
}

} // verus!
