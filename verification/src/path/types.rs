//! Core types for path handling: provenance and resolved paths.

use vstd::prelude::*;
use crate::error::Error;
use crate::path::components::is_absolute;
use crate::text::owned;

verus! {

/// Indicates how a path was provided to the system.
///
/// Explicit paths (CLI args, env vars) are normalized but not canonicalized;
/// implicit paths (working directory, inferred) are normalized and canonicalized.
#[derive(Debug, Clone, Copy, PartialEq, Eq, Structural, Hash)]
pub enum PathProvenance {
    /// Path explicitly provided via CLI argument or environment variable.
    Explicit,
    /// Path inferred from the current working directory or similar context.
    Implicit,
}

/// A path that has been normalized to absolute form.
#[derive(Debug, Clone, PartialEq, Eq, Hash)]
pub struct NormalizedPath {
    path: String,
    provenance: PathProvenance,
}

impl NormalizedPath {
    /// The path text.
    pub closed spec fn spec_path(&self) -> Seq<char> { self.path@ }
    /// How the path was provided.
    pub closed spec fn spec_provenance(&self) -> PathProvenance { self.provenance }

    /// Creates a normalized path; the path must be absolute.
    pub fn new(path: String, provenance: PathProvenance) -> (r: Result<Self, Error>)
        ensures
            r is Ok <==> is_absolute(path@),
            r matches Ok(n) ==> n.spec_path() == path@ && n.spec_provenance() == provenance,
            r matches Err(e) ==> e matches Error::InvalidPath { path: p, reason } && p@ == path@
                && reason@ == "Path must be absolute after normalization"@,
    {
        let chars = crate::text::chars_of(path.as_str());
        if !(chars.len() > 0 && chars[0] == '/') {
            return Err(Error::InvalidPath {
                path,
                reason: owned("Path must be absolute after normalization"),
            });
        }
        Ok(Self { path, provenance })
    }

    /// Gets the path text.
    pub fn as_path(&self) -> (r: &str)
        ensures r@ == self.spec_path(),
    {
        self.path.as_str()
    }

    /// Gets the provenance of this path.
    pub fn provenance(&self) -> (r: PathProvenance)
        ensures r == self.spec_provenance(),
    {
        self.provenance
    }

    /// Converts into the underlying path string.
    pub fn into_path_buf(self) -> (r: String)
        ensures r@ == self.spec_path(),
    {
        self.path
    }
}

/// A fully resolved path with metadata about the resolution process.
#[derive(Debug, Clone, PartialEq, Eq, Hash)]
pub struct ResolvedPath {
    path: String,
    original: String,
    canonicalized: bool,
    provenance: PathProvenance,
}

impl ResolvedPath {
    /// The resolved path text.
    pub closed spec fn spec_path(&self) -> Seq<char> { self.path@ }
    /// The path as given before any processing.
    pub closed spec fn spec_original(&self) -> Seq<char> { self.original@ }
    /// Whether canonicalization was applied.
    pub closed spec fn spec_canonicalized(&self) -> bool { self.canonicalized }
    /// How the path was provided.
    pub closed spec fn spec_provenance(&self) -> PathProvenance { self.provenance }

    /// Creates a resolved path.
    pub fn new(path: String, original: String, canonicalized: bool, provenance: PathProvenance) -> (r: Self)
        ensures
            r.spec_path() == path@,
            r.spec_original() == original@,
            r.spec_canonicalized() == canonicalized,
            r.spec_provenance() == provenance,
    {
        Self { path, original, canonicalized, provenance }
    }

    /// Gets the resolved path.
    pub fn path(&self) -> (r: &str)
        ensures r@ == self.spec_path(),
    {
        self.path.as_str()
    }

    /// Gets the path as given before resolution.
    pub fn original(&self) -> (r: &str)
        ensures r@ == self.spec_original(),
    {
        self.original.as_str()
    }

    /// Whether this path was canonicalized.
    pub fn was_canonicalized(&self) -> (r: bool)
        ensures r == self.spec_canonicalized(),
    {
        self.canonicalized
    }

    /// Gets the provenance of this path.
    pub fn provenance(&self) -> (r: PathProvenance)
        ensures r == self.spec_provenance(),
    {
        self.provenance
    }

    /// Converts into the underlying resolved path string.
    pub fn into_path_buf(self) -> (r: String)
        ensures r@ == self.spec_path(),
    {
        self.path
    }
}

} // verus!
