use vstd::prelude::*;

use crate::paths::{contains_str, vec_contains};

verus! {

/// Per-kind policy for resolving an artifact's dynamic libraries.
#[derive(Debug, Clone)]
pub struct DynamicLinkingConfig {
    /// Library names that are never embedded (the runtime provides them).
    pub skip_libraries: Vec<String>,
    /// Library names resolved beyond those the artifact declares.
    pub extra_libraries: Vec<String>,
    /// Whether a library found on no search path is dropped rather than fatal.
    pub skip_unknown_libraries: bool,
}

impl DynamicLinkingConfig {
    pub open spec fn skips(&self, name: Seq<char>) -> bool {
        contains_str(self.skip_libraries.deep_view(), name)
    }

    /// Whether `name` is in the skip-set.
    pub fn is_skipped(&self, name: &str) -> (r: bool)
        ensures
            r == self.skips(name@),
    {
        vec_contains(&self.skip_libraries, name)
    }
}

/// Policy for wrapping dynamically linked executables.
#[derive(Debug, Clone)]
pub struct DynamicBinaryConfig {
    /// The generic packed-executable stub copied as the output's base.
    pub packed_executable: String,
    pub dynamic_linking: DynamicLinkingConfig,
}

/// Policy for wrapping shared libraries.
#[derive(Debug, Clone)]
pub struct SharedLibraryConfig {
    pub dynamic_linking: DynamicLinkingConfig,
}

/// Policy for rewrapping already-packed artifacts.
#[derive(Debug, Clone)]
pub struct RewrapConfig {}

} // verus!
