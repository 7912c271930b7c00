//! Following symlinks with loop detection and a depth limit.
//!
//! The walk is a state machine: it says which filesystem question to ask
//! next (read the link at a path, or canonicalize a path), the caller asks
//! it and reports the answer, and the walk decides what follows. Paths are
//! compared by components when looking for loops.

use vstd::prelude::*;
use crate::error::Error;
use crate::path::components::{components, cur_component, is_absolute, join_slash, parent_component, path_components, render, root_component, seqs_of};
use crate::path::normalize::{join, join_path, render_components};
use crate::operations::reserve_group::{parent_of, spec_parent};
use crate::ordering::comps_equal;
use crate::text::{decimal, owned, push_decimal};

verus! {

/// What reading the current path as a symlink found.
#[derive(Debug)]
pub enum LinkRead {
    /// It is a symlink to this target.
    Target(String),
    /// It exists and is not a symlink.
    NotALink,
    /// It does not exist.
    Missing,
    /// Reading it failed with this message.
    Failed(String),
}

/// What canonicalizing a path found.
#[derive(Debug)]
pub enum CanonicalOutcome {
    /// The canonical path.
    Resolved(String),
    /// The path does not exist.
    NotFound,
    /// Access was denied.
    PermissionDenied,
    /// Another failure, with its message.
    Failed(String),
}

/// What the walk needs next.
#[derive(Debug)]
pub enum CanonicalizeStep {
    /// Read the symlink at this path, and report with `on_link`.
    ReadLink(String),
    /// Canonicalize this path, and report with `on_canonical`.
    Canonicalize(String),
    /// The walk is over.
    Done(Result<String, Error>),
}

/// A walk along a chain of symlinks.
#[derive(Debug)]
pub struct SymlinkWalk {
    original: String,
    current: String,
    visited: Vec<Vec<Vec<char>>>,
    depth: usize,
    max_depth: usize,
}

/// Whether `p` was visited, compared by components.
pub open spec fn visited_contains(visited: Seq<Seq<Seq<char>>>, p: Seq<char>) -> bool {
    exists|i: int| 0 <= i < visited.len() && visited[i] == #[trigger] components(p)
}

/// Whether `step`, with the walk moved from `before` to `after`, is how
/// the walk continues after reading the link at its current path: a link
/// moves it to the link's target (relative targets taken from the link's
/// directory) unless the depth limit is reached or the target was seen; a
/// path that is not a link is canonicalized; a missing path ends the walk
/// with it as it is; a failed read ends it with an I/O error.
pub open spec fn link_step(before: SymlinkWalk, read: LinkRead, after: SymlinkWalk, step: CanonicalizeStep) -> bool {
    match read {
        LinkRead::Target(t) => {
            let next = if is_absolute(t@) { Some(t@) } else {
                match spec_parent(before.spec_current()) {
                    Some(dir) => Some(join_path(dir, t@)),
                    None => None,
                }
            };
            match next {
                None => step matches CanonicalizeStep::Done(Err(Error::InvalidPath { path, reason }))
                    && path@ == before.spec_current() && reason@ == "Symlink has no parent directory"@,
                Some(n) => (before.spec_depth() >= before.spec_max_depth() ==> (step matches
                    CanonicalizeStep::Done(Err(Error::InvalidPath { path, reason }))
                    && path@ == before.spec_original()
                    && reason@ == "Too many symlinks (max "@ + decimal(before.spec_max_depth() as nat) + ")"@))
                    && (before.spec_depth() < before.spec_max_depth() ==> (after.spec_current() == n
                    && after.spec_depth() == before.spec_depth() + 1
                    && (visited_contains(before.spec_visited(), n) ==>
                        (step matches CanonicalizeStep::Done(Err(Error::SymlinkLoop { path })) && path@ == n))
                    && (!visited_contains(before.spec_visited(), n) ==>
                        after.spec_visited() == before.spec_visited().push(components(n))
                        && (before.spec_depth() + 1 >= before.spec_max_depth() ==>
                            (step matches CanonicalizeStep::Done(Err(Error::InvalidPath { path, reason }))
                            && path@ == before.spec_original()
                            && reason@ == "Too many symlinks (max "@ + decimal(before.spec_max_depth() as nat) + ")"@))
                        && (before.spec_depth() + 1 < before.spec_max_depth() ==>
                            (step matches CanonicalizeStep::ReadLink(p) && p@ == n))))),
            }
        },
        LinkRead::NotALink => step matches CanonicalizeStep::Canonicalize(p) && p@ == before.spec_current(),
        LinkRead::Missing => step matches CanonicalizeStep::Done(Ok(p)) && p@ == before.spec_current(),
        LinkRead::Failed(m) => step matches CanonicalizeStep::Done(Err(Error::Io { message })) && message == m,
    }
}

impl SymlinkWalk {
    /// The path the walk started from.
    pub closed spec fn spec_original(&self) -> Seq<char> { self.original@ }
    /// The path the walk is at.
    pub closed spec fn spec_current(&self) -> Seq<char> { self.current@ }
    /// The component sequences of the paths visited.
    pub closed spec fn spec_visited(&self) -> Seq<Seq<Seq<char>>> { self.visited@.map_values(|v: Vec<Vec<char>>| seqs_of(v@)) }
    /// How many links were followed.
    pub closed spec fn spec_depth(&self) -> usize { self.depth }
    /// How many links may be followed.
    pub closed spec fn spec_max_depth(&self) -> usize { self.max_depth }

    /// The round at the top of the walk: a path seen before is a loop;
    /// reaching the depth limit is refused; otherwise the link at the
    /// current path is read.
    fn round(&mut self) -> (step: CanonicalizeStep)
        ensures
            final(self).spec_original() == old(self).spec_original(),
            final(self).spec_current() == old(self).spec_current(),
            final(self).spec_depth() == old(self).spec_depth(),
            final(self).spec_max_depth() == old(self).spec_max_depth(),
            visited_contains(old(self).spec_visited(), old(self).spec_current()) ==>
                final(self).spec_visited() == old(self).spec_visited()
                && (step matches CanonicalizeStep::Done(Err(Error::SymlinkLoop { path })) && path@ == old(self).spec_current()),
            !visited_contains(old(self).spec_visited(), old(self).spec_current()) ==>
                final(self).spec_visited() == old(self).spec_visited().push(components(old(self).spec_current()))
                && (old(self).spec_depth() >= old(self).spec_max_depth() ==> (step matches CanonicalizeStep::Done(Err(Error::InvalidPath { path, reason }))
                    && path@ == old(self).spec_original()
                    && reason@ == "Too many symlinks (max "@ + decimal(old(self).spec_max_depth() as nat) + ")"@))
                && (old(self).spec_depth() < old(self).spec_max_depth() ==> (step matches CanonicalizeStep::ReadLink(p)
                    && p@ == old(self).spec_current())),
    {
        let cs = path_components(self.current.as_str());
        let mut i: usize = 0;
        while i < self.visited.len()
            invariant
                i <= self.visited@.len(),
                seqs_of(cs@) == components(self.current@),
                forall|k: int| 0 <= k < i ==> seqs_of(#[trigger] self.visited@[k]@) != components(self.current@),
            decreases self.visited@.len() - i,
        {
            if comps_equal(&self.visited[i], &cs) {
                proof {
                    assert(self.spec_visited()[i as int] == components(self.current@));
                }
                return CanonicalizeStep::Done(Err(Error::SymlinkLoop { path: self.current.clone() }));
            }
            i = i + 1;
        }
        proof {
            assert forall|k: int| 0 <= k < self.spec_visited().len() implies
                self.spec_visited()[k] != #[trigger] components(self.current@) by {
                assert(self.spec_visited()[k] == seqs_of(self.visited@[k]@));
            }
        }
        let ghost before = self.spec_visited();
        self.visited.push(cs);
        assert(self.spec_visited() =~= before.push(components(self.current@)));
        if self.depth >= self.max_depth {
            let mut reason = owned("Too many symlinks (max ");
            push_decimal(&mut reason, self.max_depth as u64);
            reason.push_str(")");
            return CanonicalizeStep::Done(Err(Error::InvalidPath { path: self.original.clone(), reason }));
        }
        CanonicalizeStep::ReadLink(self.current.clone())
    }

    /// Continues after reading the link at the current path.
    ///
    /// A link moves the walk to its target (relative targets are taken from
    /// the link's directory) and starts the next round; a path that is not a
    /// link is canonicalized; a missing path ends the walk with it as it is;
    /// a failed read ends it with an I/O error.
    pub fn on_link(&mut self, read: LinkRead) -> (step: CanonicalizeStep)
        ensures
            final(self).spec_original() == old(self).spec_original(),
            final(self).spec_max_depth() == old(self).spec_max_depth(),
            link_step(*old(self), read, *final(self), step),
            old(self).spec_depth() <= old(self).spec_max_depth() ==> final(self).spec_depth() <= final(self).spec_max_depth(),
            step is ReadLink ==> final(self).spec_depth() < final(self).spec_max_depth(),
    {
        match read {
            LinkRead::Target(target) => {
                let chars = crate::text::chars_of(target.as_str());
                let next = if chars.len() > 0 && chars[0] == '/' {
                    target
                } else {
                    match parent_of(self.current.as_str()) {
                        Some(dir) => join(dir.as_str(), target.as_str()),
                        None => {
                            return CanonicalizeStep::Done(Err(Error::InvalidPath {
                                path: self.current.clone(),
                                reason: owned("Symlink has no parent directory"),
                            }));
                        },
                    }
                };
                if self.depth >= self.max_depth {
                    let mut reason = owned("Too many symlinks (max ");
                    push_decimal(&mut reason, self.max_depth as u64);
                    reason.push_str(")");
                    return CanonicalizeStep::Done(Err(Error::InvalidPath { path: self.original.clone(), reason }));
                }
                self.current = next;
                self.depth = self.depth + 1;
                self.round()
            },
            LinkRead::NotALink => CanonicalizeStep::Canonicalize(self.current.clone()),
            LinkRead::Missing => CanonicalizeStep::Done(Ok(self.current.clone())),
            LinkRead::Failed(message) => CanonicalizeStep::Done(Err(Error::Io { message })),
        }
    }

    /// The walk's outcome once the path it reached was canonicalized.
    pub fn on_canonical(&self, outcome: CanonicalOutcome) -> (r: Result<String, Error>)
        ensures
            canonical_result_matches(self.spec_current(), outcome, r),
    {
        canonicalize(self.current.as_str(), outcome)
    }
}

/// Whether `walks`, `reads` and `steps` are a run of a walk: each read
/// moved the walk from one state to the next with the step it gave, keeping
/// where it started and its limit, and every step but the last asked for
/// another link to be read.
pub open spec fn walk_run(walks: Seq<SymlinkWalk>, reads: Seq<LinkRead>, steps: Seq<CanonicalizeStep>) -> bool {
    &&& walks.len() == reads.len() + 1
    &&& steps.len() == reads.len()
    &&& forall|k: int| #![trigger reads[k]] 0 <= k < reads.len() ==> link_step(walks[k], reads[k], walks[k + 1], steps[k])
        && walks[k + 1].spec_max_depth() == walks[k].spec_max_depth()
        && walks[k + 1].spec_original() == walks[k].spec_original()
    &&& forall|k: int| 0 <= k < reads.len() - 1 ==> (#[trigger] steps[k]) is ReadLink
}

/// Along a run, the walk has followed one link per read.
proof fn lemma_walk_run_depth(walks: Seq<SymlinkWalk>, reads: Seq<LinkRead>, steps: Seq<CanonicalizeStep>, k: int)
    requires
        walk_run(walks, reads, steps),
        walks[0].spec_depth() == 0,
        0 <= k < walks.len(),
        k < reads.len() || (k == reads.len() && reads.len() > 0 && steps[k - 1] is ReadLink),
    ensures
        walks[k].spec_depth() == k,
        walks[k].spec_max_depth() == walks[0].spec_max_depth(),
        walks[k].spec_original() == walks[0].spec_original(),
    decreases k,
{
    if k > 0 {
        lemma_walk_run_depth(walks, reads, steps, k - 1);
        let r = reads[k - 1];
        assert(link_step(walks[k - 1], r, walks[k], steps[k - 1]));
        assert(steps[k - 1] is ReadLink);
    }
}

/// The depth limit over a whole walk: started at depth 0 with a positive
/// limit (so that it asks for a first read), a walk reads at most
/// `max_depth` links, and once it has read that many (every one a
/// symlink) it has ended with an error; reading a symlink never ends a walk
/// with a path. So a chain longer than the limit always fails.
pub proof fn lemma_walk_depth_limit(walks: Seq<SymlinkWalk>, reads: Seq<LinkRead>, steps: Seq<CanonicalizeStep>)
    requires
        walk_run(walks, reads, steps),
        walks[0].spec_depth() == 0,
        walks[0].spec_max_depth() > 0,
        reads.len() > 0,
    ensures
        reads.len() <= walks[0].spec_max_depth(),
        reads.len() >= walks[0].spec_max_depth() && reads.last() is Target ==>
            (steps.last() matches CanonicalizeStep::Done(Err(e)) && (e is InvalidPath || e is SymlinkLoop)),
        reads.last() is Target ==> (steps.last() is ReadLink || steps.last() matches CanonicalizeStep::Done(Err(_))),
{
    let n: int = reads.len() as int;
    lemma_walk_run_depth(walks, reads, steps, n - 1);
    let last = reads[n - 1];
    assert(link_step(walks[n - 1], last, walks[n], steps[n - 1]));
    if n > 1 {
        let prev = reads[n - 2];
        assert(link_step(walks[n - 2], prev, walks[n - 1], steps[n - 2]));
        assert(steps[n - 2] is ReadLink);
        lemma_walk_run_depth(walks, reads, steps, n - 2);
    }
}

/// Starts resolving `path` while following at most `max_depth` symlinks:
/// the walk asks for each link to be read in turn, detects loops by
/// comparing components, and ends with the canonical path, the path as it
/// is when it does not exist, or an error.
pub fn canonicalize_safe(path: &str, max_depth: usize) -> (r: (SymlinkWalk, CanonicalizeStep))
    ensures
        r.0.spec_original() == path@,
        r.0.spec_current() == path@,
        r.0.spec_visited() == seq![components(path@)],
        r.0.spec_depth() == 0,
        r.0.spec_max_depth() == max_depth,
        max_depth == 0 ==> (r.1 matches CanonicalizeStep::Done(Err(Error::InvalidPath { path: p, reason }))
            && p@ == path@ && reason@ == "Too many symlinks (max "@ + decimal(0) + ")"@),
        max_depth > 0 ==> (r.1 matches CanonicalizeStep::ReadLink(p) && p@ == path@),
{
    let mut walk = SymlinkWalk {
        original: owned(path),
        current: owned(path),
        visited: Vec::new(),
        depth: 0,
        max_depth,
    };
    assert(walk.spec_visited() =~= Seq::<Seq<Seq<char>>>::empty());
    let step = walk.round();
    assert(walk.spec_visited() =~= seq![components(path@)]);
    (walk, step)
}

/// Whether `r` is what canonicalizing `path` reports for `outcome`: the
/// canonical path, or the error for the path (`PathNotFound`,
/// `PermissionDenied`) or with the failure's message (`Io`).
pub open spec fn canonical_result_matches(path: Seq<char>, outcome: CanonicalOutcome, r: Result<String, Error>) -> bool {
    match outcome {
        CanonicalOutcome::Resolved(s) => r == Ok::<String, Error>(s),
        CanonicalOutcome::NotFound => r matches Err(Error::PathNotFound { path: p }) && p@ == path,
        CanonicalOutcome::PermissionDenied => r matches Err(Error::PermissionDenied { path: p }) && p@ == path,
        CanonicalOutcome::Failed(m) => r matches Err(Error::Io { message }) && message == m,
    }
}

/// The result of canonicalizing `path`, given what the filesystem reported.
pub fn canonicalize(path: &str, outcome: CanonicalOutcome) -> (r: Result<String, Error>)
    ensures
        canonical_result_matches(path@, outcome, r),
{
    match outcome {
        CanonicalOutcome::Resolved(s) => Ok(s),
        CanonicalOutcome::NotFound => Err(Error::PathNotFound { path: owned(path) }),
        CanonicalOutcome::PermissionDenied => Err(Error::PermissionDenied { path: owned(path) }),
        CanonicalOutcome::Failed(message) => Err(Error::Io { message }),
    }
}

/// Canonicalizes `path`, falling back to the path itself when it does not exist.
pub fn try_canonicalize(path: &str, outcome: CanonicalOutcome) -> (r: Result<String, Error>)
    ensures
        outcome is NotFound ==> (r matches Ok(s) && s@ == path@),
        !(outcome is NotFound) ==> canonical_result_matches(path@, outcome, r),
{
    match outcome {
        CanonicalOutcome::NotFound => Ok(owned(path)),
        _ => canonicalize(path, outcome),
    }
}

/// A copy of a component.
fn copy_chars(v: &Vec<char>) -> (r: Vec<char>)
    ensures
        r@ == v@,
{
    let mut out: Vec<char> = Vec::new();
    let mut i: usize = 0;
    while i < v.len()
        invariant
            i <= v@.len(),
            out@ == v@.take(i as int),
        decreases v@.len() - i,
    {
        out.push(v[i]);
        assert(out@ =~= v@.take(i + 1));
        i = i + 1;
    }
    assert(v@.take(v@.len() as int) =~= v@);
    out
}

/// Whether a component names a directory entry (it is not the root, `.` or `..`).
pub open spec fn is_named(c: Seq<char>) -> bool {
    c != root_component() && c != cur_component() && c != parent_component()
}

/// The path reached from `path` after removing its last `k` components
/// (`path` itself when `k` is 0).
pub open spec fn ancestor_at(path: Seq<char>, k: int) -> Seq<char> {
    if k == 0 {
        path
    } else {
        render(components(path).take(components(path).len() - k))
    }
}

/// Whether the search may move up from the path `k` components above
/// `path`: that path's last component names an entry.
pub open spec fn can_pop(path: Seq<char>, k: int) -> bool {
    let cs = components(path);
    0 <= k < cs.len() && is_named(cs[cs.len() - 1 - k])
}

/// The part of `path` below its ancestor `k` components up, if any.
pub open spec fn remainder_at(path: Seq<char>, k: int) -> Option<Seq<char>> {
    if k == 0 {
        None
    } else {
        let cs = components(path);
        Some(join_slash(cs.skip(cs.len() - k)))
    }
}

/// Where a search for the existing part of a path stands.
#[derive(Debug, Clone, Copy, PartialEq, Eq, Structural)]
pub enum SearchPhase {
    /// Waiting for the whole path's canonicalization.
    Whole,
    /// Waiting to learn whether the current ancestor exists.
    Probing,
    /// Waiting for the existing ancestor's canonicalization.
    Resolving,
}

/// What a search for the existing part of a path needs next.
#[derive(Debug)]
pub enum ExistingStep {
    /// Canonicalize this path, and report with `on_canonical`.
    Canonicalize(String),
    /// Find out whether this path exists, and report with `on_exists`.
    CheckExists(String),
    /// The search is over: the canonical existing part and what lies below it.
    Done(Result<(String, Option<String>), Error>),
}

/// A search for the longest existing ancestor of a path.
#[derive(Debug)]
pub struct ExistingPrefixSearch {
    path: String,
    comps: Vec<Vec<char>>,
    popped: usize,
    phase: SearchPhase,
}

impl ExistingPrefixSearch {
    #[verifier::type_invariant]
    spec fn consistent(&self) -> bool {
        &&& seqs_of(self.comps@) == components(self.path@)
        &&& self.popped <= self.comps@.len()
        &&& forall|j: int| 0 <= j < self.popped ==> can_pop(self.path@, j)
    }

    /// The path searched.
    pub closed spec fn spec_path(&self) -> Seq<char> { self.path@ }
    /// How many components were removed so far.
    pub closed spec fn spec_popped(&self) -> int { self.popped as int }
    /// What the search waits for.
    pub closed spec fn spec_phase(&self) -> SearchPhase { self.phase }

    /// What the search waits for.
    pub fn phase(&self) -> (r: SearchPhase)
        ensures r == self.spec_phase(),
    {
        self.phase
    }

    /// The path `popped` components above the searched one.
    fn current(&self) -> (r: String)
        ensures r@ == ancestor_at(self.spec_path(), self.spec_popped()),
    {
        proof { use_type_invariant(self); }
        if self.popped == 0 {
            return self.path.clone();
        }
        let n = self.comps.len() - self.popped;
        let mut prefix: Vec<Vec<char>> = Vec::new();
        let mut i: usize = 0;
        while i < n
            invariant
                i <= n,
                n <= self.comps@.len(),
                seqs_of(prefix@) == seqs_of(self.comps@).take(i as int),
            decreases n - i,
        {
            let ghost before = prefix@;
            let c = copy_chars(&self.comps[i]);
            prefix.push(c);
            assert(seqs_of(prefix@) =~= seqs_of(before).push(self.comps@[i as int]@));
            assert(seqs_of(prefix@) =~= seqs_of(self.comps@).take(i + 1));
            i = i + 1;
        }
        render_components(&prefix)
    }

    /// The components removed so far, joined: `None` when none were.
    fn remainder(&self) -> (r: Option<String>)
        ensures
            match remainder_at(self.spec_path(), self.spec_popped()) {
                Some(s) => r matches Some(t) && t@ == s,
                None => r is None,
            },
    {
        proof { use_type_invariant(self); }
        if self.popped == 0 {
            return None;
        }
        let n = self.comps.len();
        let start = n - self.popped;
        let mut tail: Vec<Vec<char>> = Vec::new();
        let mut i: usize = start;
        while i < n
            invariant
                start <= i <= n,
                n == self.comps@.len(),
                seqs_of(tail@) == seqs_of(self.comps@).subrange(start as int, i as int),
            decreases n - i,
        {
            let ghost before = tail@;
            let c = copy_chars(&self.comps[i]);
            tail.push(c);
            assert(seqs_of(tail@) =~= seqs_of(before).push(self.comps@[i as int]@));
            assert(seqs_of(tail@) =~= seqs_of(self.comps@).subrange(start as int, i + 1));
            i = i + 1;
        }
        let ghost cs = components(self.path@);
        assert(seqs_of(tail@) =~= cs.skip(start as int));
        assert(can_pop(self.path@, self.popped - 1));
        assert(cs.skip(start as int)[0] == cs[cs.len() - 1 - (self.popped - 1)]);
        Some(render_components(&tail))
    }

    /// Continues with the outcome of the canonicalization asked for.
    ///
    /// After the whole path's: its canonical form ends the search with no
    /// remainder; any failure starts probing the path and its ancestors.
    /// After an ancestor's: the search ends with its canonical form and the
    /// removed components, or with the error for that ancestor.
    pub fn on_canonical(&mut self, outcome: CanonicalOutcome) -> (step: ExistingStep)
        requires
            old(self).spec_phase() != SearchPhase::Probing,
        ensures
            final(self).spec_path() == old(self).spec_path(),
            old(self).spec_phase() == SearchPhase::Whole ==> match outcome {
                CanonicalOutcome::Resolved(c) => step matches ExistingStep::Done(Ok((s, None))) && s == c,
                _ => final(self).spec_phase() == SearchPhase::Probing && final(self).spec_popped() == 0
                    && (step matches ExistingStep::CheckExists(p) && p@ == old(self).spec_path()),
            },
            old(self).spec_phase() == SearchPhase::Resolving ==> ({
                let here = ancestor_at(old(self).spec_path(), old(self).spec_popped());
                let rem = remainder_at(old(self).spec_path(), old(self).spec_popped());
                match outcome {
                    CanonicalOutcome::Resolved(c) => step matches ExistingStep::Done(Ok((s, r))) && s == c
                        && match rem { Some(t) => r matches Some(u) && u@ == t, None => r is None },
                    _ => step matches ExistingStep::Done(Err(e))
                        && canonical_result_matches(here, outcome, Err::<String, Error>(e)),
                }
            }),
    {
        proof { use_type_invariant(&*self); }
        if self.phase == SearchPhase::Whole {
            match outcome {
                CanonicalOutcome::Resolved(c) => ExistingStep::Done(Ok((c, None))),
                _ => {
                    self.phase = SearchPhase::Probing;
                    self.popped = 0;
                    ExistingStep::CheckExists(self.path.clone())
                },
            }
        } else {
            let here = self.current();
            match canonicalize(here.as_str(), outcome) {
                Ok(c) => ExistingStep::Done(Ok((c, self.remainder()))),
                Err(e) => ExistingStep::Done(Err(e)),
            }
        }
    }

    /// Continues with whether the current ancestor exists: an existing one
    /// is canonicalized; otherwise the search moves up one component while
    /// the last one names an entry, and fails when it cannot.
    pub fn on_exists(&mut self, exists: bool) -> (step: ExistingStep)
        requires
            old(self).spec_phase() == SearchPhase::Probing,
        ensures
            final(self).spec_path() == old(self).spec_path(),
            exists ==> final(self).spec_phase() == SearchPhase::Resolving
                && final(self).spec_popped() == old(self).spec_popped()
                && (step matches ExistingStep::Canonicalize(p)
                    && p@ == ancestor_at(old(self).spec_path(), old(self).spec_popped())),
            !exists && can_pop(old(self).spec_path(), old(self).spec_popped()) ==>
                final(self).spec_phase() == SearchPhase::Probing
                && final(self).spec_popped() == old(self).spec_popped() + 1
                && (step matches ExistingStep::CheckExists(p)
                    && p@ == ancestor_at(old(self).spec_path(), old(self).spec_popped() + 1)),
            !exists && !can_pop(old(self).spec_path(), old(self).spec_popped()) ==>
                (step matches ExistingStep::Done(Err(Error::InvalidPath { path, reason }))
                && path@ == old(self).spec_path() && reason@ == "Cannot find any existing portion of path"@),
    {
        proof { use_type_invariant(&*self); }
        if exists {
            self.phase = SearchPhase::Resolving;
            return ExistingStep::Canonicalize(self.current());
        }
        let n = self.comps.len();
        let ghost cs = components(self.path@);
        if self.popped < n {
            let last = &self.comps[n - 1 - self.popped];
            assert(last@ == cs[cs.len() - 1 - self.popped]);
            let special = (last.len() == 1 && (last[0] == '/' || last[0] == '.'))
                || (last.len() == 2 && last[0] == '.' && last[1] == '.');
            proof {
                if last.len() == 1 && last[0] == '/' { assert(last@ =~= root_component()); }
                if last.len() == 1 && last[0] == '.' { assert(last@ =~= cur_component()); }
                if last.len() == 2 && last[0] == '.' && last[1] == '.' { assert(last@ =~= parent_component()); }
                if !special {
                    assert(last@ != root_component() && last@ != cur_component() && last@ != parent_component()) by {
                        if last@.len() == 1 { assert(last@[0] != '/' && last@[0] != '.'); }
                        if last@.len() == 2 { assert(!(last@[0] == '.' && last@[1] == '.')); }
                    }
                }
            }
            if !special {
                self.popped = self.popped + 1;
                return ExistingStep::CheckExists(self.current());
            }
        }
        ExistingStep::Done(Err(Error::InvalidPath {
            path: self.path.clone(),
            reason: owned("Cannot find any existing portion of path"),
        }))
    }
}

/// Starts a search for the longest existing ancestor of `path`, beginning
/// with the canonicalization of the whole path.
pub fn canonicalize_existing(path: &str) -> (r: (ExistingPrefixSearch, ExistingStep))
    ensures
        r.0.spec_path() == path@,
        r.0.spec_popped() == 0,
        r.0.spec_phase() == SearchPhase::Whole,
        r.1 matches ExistingStep::Canonicalize(p) && p@ == path@,
{
    let search = ExistingPrefixSearch {
        path: owned(path),
        comps: path_components(path),
        popped: 0,
        phase: SearchPhase::Whole,
    };
    (search, ExistingStep::Canonicalize(owned(path)))
}

} // verus!
