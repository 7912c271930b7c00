//! Path resolution with provenance-aware canonicalization.
//!
//! Normalization is computed here; following symlinks needs the filesystem,
//! so callers hand in the outcome of that lookup and the resolver decides
//! what the resolved path is.

use vstd::prelude::*;
use crate::error::Error;
use crate::path::normalize::{normalize_in, spec_normalize, starts_with};
use crate::path::types::{PathProvenance, ResolvedPath};
use crate::path::canonicalize::{
    canonical_result_matches, canonicalize_safe, lemma_walk_depth_limit, link_step, walk_run, CanonicalOutcome,
    CanonicalizeStep, LinkRead, SymlinkWalk,
};
use crate::path::components::components;
use crate::text::{decimal, owned};

verus! {

/// Resolves paths according to provenance rules.
#[derive(Debug, Clone)]
pub struct PathResolver {
    warn_on_nonexistent: bool,
    max_symlink_depth: usize,
}

impl Default for PathResolver {
    fn default() -> (r: Self)
        ensures
            r.spec_warn_on_nonexistent(),
            r.spec_max_symlink_depth() == 40,
    {
        Self { warn_on_nonexistent: true, max_symlink_depth: 40 }
    }
}

impl PathResolver {
    /// Whether a warning is due for non-existent implicit paths.
    pub closed spec fn spec_warn_on_nonexistent(&self) -> bool { self.warn_on_nonexistent }
    /// How many symlinks may be followed.
    pub closed spec fn spec_max_symlink_depth(&self) -> usize { self.max_symlink_depth }

    /// Creates a resolver that warns on non-existent paths and follows up to 40 symlinks.
    pub fn new() -> (r: Self)
        ensures
            r.spec_warn_on_nonexistent(),
            r.spec_max_symlink_depth() == 40,
    {
        Self::default()
    }

    /// Configures whether to warn on non-existent paths.
    pub fn with_nonexistent_warning(self, warn: bool) -> (r: Self)
        ensures
            r.spec_warn_on_nonexistent() == warn,
            r.spec_max_symlink_depth() == self.spec_max_symlink_depth(),
    {
        Self { warn_on_nonexistent: warn, max_symlink_depth: self.max_symlink_depth }
    }

    /// Configures the maximum symlink depth.
    pub fn with_max_symlink_depth(self, depth: usize) -> (r: Self)
        ensures
            r.spec_max_symlink_depth() == depth,
            r.spec_warn_on_nonexistent() == self.spec_warn_on_nonexistent(),
    {
        Self { warn_on_nonexistent: self.warn_on_nonexistent, max_symlink_depth: depth }
    }

    /// Whether a warning is due for non-existent implicit paths.
    pub fn warns_on_nonexistent(&self) -> (r: bool)
        ensures r == self.spec_warn_on_nonexistent(),
    {
        self.warn_on_nonexistent
    }

    /// How many symlinks may be followed.
    pub fn max_symlink_depth(&self) -> (r: usize)
        ensures r == self.spec_max_symlink_depth(),
    {
        self.max_symlink_depth
    }

    /// Resolves an explicit path: normalized against `working_dir`, never canonicalized.
    pub fn resolve_explicit(&self, path: &str, working_dir: &str) -> (r: Result<ResolvedPath, Error>)
        ensures
            exists|h: Option<Seq<char>>| ({
                &&& (r is Ok <==> #[trigger] spec_normalize(path@, h, working_dir@) is Some)
                &&& (r matches Ok(p) ==> Some(p.spec_path()) == spec_normalize(path@, h, working_dir@))
            }),
            !starts_with(path@, "~"@) ==> (r is Ok <==> spec_normalize(path@, None, working_dir@) is Some),
            r matches Ok(p) ==> !p.spec_canonicalized() && p.spec_provenance() == PathProvenance::Explicit
                && p.spec_original() == path@,
            r matches Ok(p) ==> (!starts_with(path@, "~"@)
                ==> Some(p.spec_path()) == spec_normalize(path@, None, working_dir@)),
    {
        let normalized = normalize_in(path, working_dir)?;
        Ok(ResolvedPath::new(normalized, owned(path), false, PathProvenance::Explicit))
    }

    /// Decides the resolution of an implicit path from the outcome of
    /// canonicalizing its normalized form: the canonical path when it exists,
    /// the normalized path when it does not, and the error otherwise.
    pub fn resolve_implicit(
        &self,
        path: &str,
        normalized: String,
        canonical: Result<String, Error>,
    ) -> (r: Result<ResolvedPath, Error>)
        ensures
            canonical matches Ok(c) ==> (r matches Ok(p) && p.spec_path() == c@ && p.spec_canonicalized()),
            canonical matches Err(e) ==> (e is PathNotFound <==> r is Ok),
            canonical matches Err(e) ==> (r matches Ok(p) ==> p.spec_path() == normalized@
                && !p.spec_canonicalized()),
            canonical matches Err(e) ==> (r matches Err(e2) ==> e2 == e),
            r matches Ok(p) ==> p.spec_provenance() == PathProvenance::Implicit && p.spec_original() == path@,
    {
        match canonical {
            Ok(c) => Ok(ResolvedPath::new(c, owned(path), true, PathProvenance::Implicit)),
            Err(e) => {
                if e.is_not_found() {
                    Ok(ResolvedPath::new(normalized, owned(path), false, PathProvenance::Implicit))
                } else {
                    Err(e)
                }
            },
        }
    }

    /// Starts canonicalizing `path` regardless of provenance, from its
    /// normalized form `normalized`: symlinks are followed one at a time,
    /// at most this resolver's maximum symlink depth of them, with loops
    /// detected; the target must exist.
    pub fn resolve_canonical(&self, path: &str, normalized: &str) -> (r: (CanonicalResolution, ResolveStep))
        ensures
            r.0.spec_original() == path@,
            r.0.spec_walk().spec_original() == normalized@,
            r.0.spec_walk().spec_current() == normalized@,
            r.0.spec_walk().spec_visited() == seq![components(normalized@)],
            r.0.spec_walk().spec_depth() == 0,
            r.0.spec_walk().spec_max_depth() == self.spec_max_symlink_depth(),
            self.spec_max_symlink_depth() == 0 ==> (r.1 matches ResolveStep::Done(Err(Error::InvalidPath { path: p, reason }))
                && p@ == normalized@ && reason@ == "Too many symlinks (max "@ + decimal(0) + ")"@),
            self.spec_max_symlink_depth() > 0 ==> (r.1 matches ResolveStep::ReadLink(p) && p@ == normalized@),
    {
        let (walk, first) = canonicalize_safe(normalized, self.max_symlink_depth);
        let step = continue_resolution(first);
        (CanonicalResolution { original: owned(path), walk }, step)
    }
}

/// What a forced canonicalization needs next.
#[derive(Debug)]
pub enum ResolveStep {
    /// Read the symlink at this path, and report with `CanonicalResolution::on_link`.
    ReadLink(String),
    /// Canonicalize this path, and report with `CanonicalResolution::on_canonical`.
    Canonicalize(String),
    /// The resolution is over.
    Done(Result<ResolvedPath, Error>),
}

/// Whether `step` is how a forced canonicalization continues when its
/// symlink walk continues with `walk_step`: the same question to the
/// filesystem; a walk that ends at a missing path ends it with
/// `PathNotFound` for that path, since the target must exist; a walk that
/// fails ends it with the same error.
pub open spec fn resolution_step(walk_step: CanonicalizeStep, step: ResolveStep) -> bool {
    match walk_step {
        CanonicalizeStep::ReadLink(p) => step matches ResolveStep::ReadLink(q) && q@ == p@,
        CanonicalizeStep::Canonicalize(p) => step matches ResolveStep::Canonicalize(q) && q@ == p@,
        CanonicalizeStep::Done(Ok(p)) => step matches ResolveStep::Done(Err(Error::PathNotFound { path })) && path@ == p@,
        CanonicalizeStep::Done(Err(e)) => step matches ResolveStep::Done(Err(e2)) && e2 == e,
    }
}

/// The step of a forced canonicalization for a step of its symlink walk.
fn continue_resolution(walk_step: CanonicalizeStep) -> (step: ResolveStep)
    ensures
        resolution_step(walk_step, step),
{
    match walk_step {
        CanonicalizeStep::ReadLink(p) => ResolveStep::ReadLink(p),
        CanonicalizeStep::Canonicalize(p) => ResolveStep::Canonicalize(p),
        CanonicalizeStep::Done(Ok(p)) => ResolveStep::Done(Err(Error::PathNotFound { path: p })),
        CanonicalizeStep::Done(Err(e)) => ResolveStep::Done(Err(e)),
    }
}

/// A forced canonicalization in progress: the path as given, and the walk
/// along its chain of symlinks.
#[derive(Debug)]
pub struct CanonicalResolution {
    original: String,
    walk: SymlinkWalk,
}

impl CanonicalResolution {
    /// The path as given.
    pub closed spec fn spec_original(&self) -> Seq<char> { self.original@ }
    /// The walk along the chain of symlinks.
    pub closed spec fn spec_walk(&self) -> SymlinkWalk { self.walk }

    /// Continues after reading the link at the walk's current path, as the
    /// walk does (see `link_step`), with a missing path not found.
    pub fn on_link(&mut self, read: LinkRead) -> (step: ResolveStep)
        ensures
            final(self).spec_original() == old(self).spec_original(),
            final(self).spec_walk().spec_original() == old(self).spec_walk().spec_original(),
            final(self).spec_walk().spec_max_depth() == old(self).spec_walk().spec_max_depth(),
            exists|s: CanonicalizeStep| #[trigger] link_step(old(self).spec_walk(), read, final(self).spec_walk(), s)
                && resolution_step(s, step),
            old(self).spec_walk().spec_depth() <= old(self).spec_walk().spec_max_depth()
                ==> final(self).spec_walk().spec_depth() <= final(self).spec_walk().spec_max_depth(),
            step is ReadLink ==> final(self).spec_walk().spec_depth() < final(self).spec_walk().spec_max_depth(),
    {
        let ghost before = self.walk;
        let ghost read_seen = read;
        let walk_step = self.walk.on_link(read);
        let ghost seen = walk_step;
        let step = continue_resolution(walk_step);
        assert(link_step(before, read_seen, self.walk, seen) && resolution_step(seen, step));
        step
    }

    /// The resolution once the path the walk reached was canonicalized:
    /// its canonical form, marked canonicalized, or the error for it.
    pub fn on_canonical(&self, outcome: CanonicalOutcome) -> (r: Result<ResolvedPath, Error>)
        ensures
            outcome matches CanonicalOutcome::Resolved(c) ==> (r matches Ok(p) && p.spec_path() == c@
                && p.spec_original() == self.spec_original() && p.spec_canonicalized()
                && p.spec_provenance() == PathProvenance::Explicit),
            !(outcome is Resolved) ==> (r matches Err(e)
                && canonical_result_matches(self.spec_walk().spec_current(), outcome, Err::<String, Error>(e))),
    {
        match self.walk.on_canonical(outcome) {
            Ok(c) => Ok(ResolvedPath::new(c, owned(self.original.as_str()), true, PathProvenance::Explicit)),
            Err(e) => Err(e),
        }
    }
}

/// The depth limit: once a forced canonicalization has followed as many
/// symlinks as one fewer than its limit, reading another symlink ends it
/// with an error (the depth error, or a loop or a missing parent found
/// first), never with a path.
pub proof fn lemma_symlink_depth_limit(
    before: SymlinkWalk,
    target: String,
    after: SymlinkWalk,
    walk_step: CanonicalizeStep,
    step: ResolveStep,
)
    requires
        link_step(before, LinkRead::Target(target), after, walk_step),
        resolution_step(walk_step, step),
        before.spec_depth() + 1 >= before.spec_max_depth(),
    ensures
        step matches ResolveStep::Done(Err(e)) && (e is InvalidPath || e is SymlinkLoop),
{
}

/// A resolver follows no chain longer than its depth: a forced
/// canonicalization started by `resolve_canonical` with depth `d > 0`,
/// whose every read found a symlink, has read at most `d` of them, has not
/// ended with a path, and has ended with an error once it read `d`. So a
/// path reached through more than `d` symlinks is refused.
pub proof fn lemma_resolver_chain_limit(
    resolver: PathResolver,
    walks: Seq<SymlinkWalk>,
    reads: Seq<LinkRead>,
    walk_steps: Seq<CanonicalizeStep>,
    steps: Seq<ResolveStep>,
)
    requires
        walk_run(walks, reads, walk_steps),
        walks[0].spec_depth() == 0,
        walks[0].spec_max_depth() == resolver.spec_max_symlink_depth(),
        resolver.spec_max_symlink_depth() > 0,
        reads.len() > 0,
        forall|k: int| 0 <= k < reads.len() ==> (#[trigger] reads[k]) is Target,
        steps.len() == walk_steps.len(),
        forall|k: int| 0 <= k < steps.len() ==> resolution_step(#[trigger] walk_steps[k], steps[k]),
    ensures
        reads.len() <= resolver.spec_max_symlink_depth(),
        steps.last() is ReadLink || steps.last() matches ResolveStep::Done(Err(_)),
        reads.len() == resolver.spec_max_symlink_depth() ==>
            (steps.last() matches ResolveStep::Done(Err(e)) && (e is InvalidPath || e is SymlinkLoop)),
{
    let n = reads.len() as int;
    assert(reads[n - 1] is Target);
    lemma_walk_depth_limit(walks, reads, walk_steps);
    assert(resolution_step(walk_steps[n - 1], steps[n - 1]));
}

} // verus!
