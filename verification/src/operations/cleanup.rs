//! Cleanup operations for removing stale and expired reservations.
//!
//! Pruning removes reservations whose path is missing or is not a directory;
//! expiring removes reservations not used for longer than a configured number
//! of days. Each distinct path is inspected once per invocation, by a probe
//! the caller supplies; an inspection that fails without proving absence keeps
//! the reservations. A dry run reports the same selection and changes nothing.

use vstd::prelude::*;
use crate::config::CleanupConfig;
use crate::database::{key_index, lookup, Database, entries_unique, lemma_key_index_first, lemma_key_index_unique};
use crate::path::components::{components, path_components, seqs_of};
use crate::reservation::Reservation;
use crate::text::owned;
use crate::error::Error;
use crate::ordering::{comps_equal, comps_less, comps_lt, path_lt, lemma_comps_lt_irreflexive, lemma_comps_lt_total, lemma_comps_lt_transitive};

verus! {

/// The platform error numbers that pruning interprets.
#[derive(Debug, Clone, Copy, PartialEq, Eq, Structural)]
pub enum ErrnoName {
    /// "Not a directory".
    NotDirectory,
    /// "File name too long".
    NameTooLong,
    /// "Too many levels of symbolic links".
    Loop,
    /// "Stale file handle".
    Stale,
    /// "Device or resource busy".
    Busy,
    /// "Resource deadlock avoided".
    Deadlock,
    /// "Text file busy".
    TextBusy,
    /// "Network is down".
    NetDown,
    /// "Network is unreachable".
    NetUnreachable,
    /// "No route to host".
    HostUnreachable,
}

/// The number the platform gives the error `name` (a constant of the `libc` crate).
pub uninterp spec fn errno_value(name: ErrnoName) -> i32;

/// The `libc` constant for the error `name`: `ENOTDIR`, `ENAMETOOLONG`,
/// `ELOOP`, `ESTALE`, `EBUSY`, `EDEADLK`, `ETXTBSY`, `ENETDOWN`,
/// `ENETUNREACH` or `EHOSTUNREACH`. The values differ between platforms, so
/// the contract only names them.
#[verifier::external_body]
fn errno(name: ErrnoName) -> (code: i32)
    ensures
        code == errno_value(name),
{
    match name {
        ErrnoName::NotDirectory => libc::ENOTDIR,
        ErrnoName::NameTooLong => libc::ENAMETOOLONG,
        ErrnoName::Loop => libc::ELOOP,
        ErrnoName::Stale => libc::ESTALE,
        ErrnoName::Busy => libc::EBUSY,
        ErrnoName::Deadlock => libc::EDEADLK,
        ErrnoName::TextBusy => libc::ETXTBSY,
        ErrnoName::NetDown => libc::ENETDOWN,
        ErrnoName::NetUnreachable => libc::ENETUNREACH,
        ErrnoName::HostUnreachable => libc::EHOSTUNREACH,
    }
}

/// Number of seconds in a day, used for expiration.
pub const SECONDS_PER_DAY: u64 = 86400;

/// Broad category of a filesystem error that made a reserved path uninspectable.
#[derive(Debug, Clone, Copy, PartialEq, Eq, Structural)]
pub enum PrunePathErrorKind {
    /// Access to the path or one of its parents was denied.
    PermissionDenied,
    /// Symlink traversal looped or exceeded the platform limit.
    SymlinkLoop,
    /// A retryable or availability-related I/O failure.
    Transient,
    /// The filesystem or platform does not support the inspection.
    Unsupported,
    /// Any other error that is no evidence of absence.
    Other,
}

impl PrunePathErrorKind {
    /// A short description of the category.
    pub open spec fn spec_text(self) -> Seq<char> {
        match self {
            PrunePathErrorKind::PermissionDenied => "permission denied"@,
            PrunePathErrorKind::SymlinkLoop => "symlink loop"@,
            PrunePathErrorKind::Transient => "transient I/O error"@,
            PrunePathErrorKind::Unsupported => "unsupported filesystem operation"@,
            PrunePathErrorKind::Other => "unknown filesystem error"@,
        }
    }

    /// Describes the category.
    pub fn to_display_string(&self) -> (s: String)
        ensures
            s@ == self.spec_text(),
    {
        match self {
            PrunePathErrorKind::PermissionDenied => owned("permission denied"),
            PrunePathErrorKind::SymlinkLoop => owned("symlink loop"),
            PrunePathErrorKind::Transient => owned("transient I/O error"),
            PrunePathErrorKind::Unsupported => owned("unsupported filesystem operation"),
            PrunePathErrorKind::Other => owned("unknown filesystem error"),
        }
    }
}

/// An inspection error that kept the reservations of one path.
#[derive(Debug, Clone, PartialEq, Eq)]
pub struct PrunePathError {
    /// The error category.
    pub kind: PrunePathErrorKind,
    /// The platform's error text.
    pub message: String,
    /// The platform error number, when there is one.
    pub raw_os_error: Option<i32>,
}

/// The filesystem status of one distinct reserved path.
#[derive(Debug, Clone, PartialEq, Eq)]
pub enum PrunePathStatus {
    /// The path is a directory: its reservations are kept.
    ExistingDirectory,
    /// The path does not exist.
    Missing,
    /// The path does not resolve to a directory (or is invalid on this host).
    NotDirectory,
    /// Inspection failed without proving absence: reservations are kept.
    Uninspectable(PrunePathError),
}

impl PrunePathStatus {
    /// Whether this status makes a reservation eligible for pruning.
    pub open spec fn spec_is_prunable(&self) -> bool {
        self is Missing || self is NotDirectory
    }

    /// Whether this status makes a reservation eligible for pruning.
    pub fn is_prunable(&self) -> (r: bool)
        ensures
            r == self.spec_is_prunable(),
    {
        match self {
            PrunePathStatus::Missing | PrunePathStatus::NotDirectory => true,
            _ => false,
        }
    }
}

/// The status recorded for one distinct reserved path.
#[derive(Debug, Clone, PartialEq, Eq)]
pub struct PrunePathDecision {
    /// The inspected path.
    pub path: String,
    /// Its status.
    pub status: PrunePathStatus,
}

/// What a successful filesystem probe found.
#[derive(Debug, Clone, Copy, PartialEq, Eq, Structural)]
pub enum ProbedPath {
    /// The path resolves to a directory.
    Directory,
    /// The path resolves to something else.
    NonDirectory,
}

/// The kind of a failed probe, as the standard library classifies I/O errors.
#[derive(Debug, Clone, Copy, PartialEq, Eq, Structural)]
pub enum ProbeErrorKind {
    NotFound,
    PermissionDenied,
    Unsupported,
    InvalidInput,
    InvalidFilename,
    Interrupted,
    WouldBlock,
    TimedOut,
    ConnectionRefused,
    ConnectionReset,
    ConnectionAborted,
    NotConnected,
    Other,
}

/// A failed probe: its kind, text and platform error number.
#[derive(Debug, Clone, PartialEq, Eq)]
pub struct ProbeError {
    /// The error kind.
    pub kind: ProbeErrorKind,
    /// The error text.
    pub message: String,
    /// The platform error number, when there is one.
    pub raw_os_error: Option<i32>,
}

/// Whether the error reports that a path component is not a directory.
pub open spec fn is_not_directory(e: ProbeError) -> bool {
    e.raw_os_error == Some(errno_value(ErrnoName::NotDirectory))
}

/// Whether the error reports a path that is invalid on this host.
pub open spec fn is_invalid_path(e: ProbeError) -> bool {
    e.kind is InvalidInput || e.kind is InvalidFilename || e.raw_os_error == Some(errno_value(ErrnoName::NameTooLong))
}

/// Whether the error reports a symlink loop.
pub open spec fn is_symlink_loop(e: ProbeError) -> bool {
    e.raw_os_error == Some(errno_value(ErrnoName::Loop))
}

/// Whether the error number is one of the platform's availability errors.
pub open spec fn is_transient_os_error(e: ProbeError) -> bool {
    match e.raw_os_error {
        Some(c) => c == errno_value(ErrnoName::Stale) || c == errno_value(ErrnoName::Busy) || c == errno_value(ErrnoName::Deadlock) || c == errno_value(ErrnoName::TextBusy)
            || c == errno_value(ErrnoName::NetDown) || c == errno_value(ErrnoName::NetUnreachable) || c == errno_value(ErrnoName::HostUnreachable),
        None => false,
    }
}

/// The category of an error that proves nothing about the path.
pub open spec fn spec_classify_probe_error(e: ProbeError) -> PrunePathErrorKind {
    if is_symlink_loop(e) {
        PrunePathErrorKind::SymlinkLoop
    } else if is_transient_os_error(e) {
        PrunePathErrorKind::Transient
    } else {
        match e.kind {
            ProbeErrorKind::PermissionDenied => PrunePathErrorKind::PermissionDenied,
            ProbeErrorKind::Unsupported => PrunePathErrorKind::Unsupported,
            ProbeErrorKind::Interrupted | ProbeErrorKind::WouldBlock | ProbeErrorKind::TimedOut
            | ProbeErrorKind::ConnectionRefused | ProbeErrorKind::ConnectionReset
            | ProbeErrorKind::ConnectionAborted | ProbeErrorKind::NotConnected => PrunePathErrorKind::Transient,
            _ => PrunePathErrorKind::Other,
        }
    }
}

/// The status a probe outcome gives a path.
pub open spec fn spec_classify_path(outcome: Result<ProbedPath, ProbeError>) -> PrunePathStatus {
    match outcome {
        Ok(ProbedPath::Directory) => PrunePathStatus::ExistingDirectory,
        Ok(ProbedPath::NonDirectory) => PrunePathStatus::NotDirectory,
        Err(e) => if e.kind is NotFound {
            PrunePathStatus::Missing
        } else if is_not_directory(e) || is_invalid_path(e) {
            PrunePathStatus::NotDirectory
        } else {
            PrunePathStatus::Uninspectable(PrunePathError {
                kind: spec_classify_probe_error(e),
                message: e.message,
                raw_os_error: e.raw_os_error,
            })
        },
    }
}

/// Whether the error number is one of the platform's availability errors.
fn transient_code(code: Option<i32>) -> (r: bool)
    ensures
        r == match code {
            Some(c) => c == errno_value(ErrnoName::Stale) || c == errno_value(ErrnoName::Busy) || c == errno_value(ErrnoName::Deadlock) || c == errno_value(ErrnoName::TextBusy)
                || c == errno_value(ErrnoName::NetDown) || c == errno_value(ErrnoName::NetUnreachable) || c == errno_value(ErrnoName::HostUnreachable),
            None => false,
        },
{
    match code {
        Some(c) => c == errno(ErrnoName::Stale) || c == errno(ErrnoName::Busy) || c == errno(ErrnoName::Deadlock)
            || c == errno(ErrnoName::TextBusy) || c == errno(ErrnoName::NetDown)
            || c == errno(ErrnoName::NetUnreachable) || c == errno(ErrnoName::HostUnreachable),
        None => false,
    }
}

/// Whether an optional error number is `Some(code)`.
fn code_is(code: Option<i32>, expected: i32) -> (r: bool)
    ensures
        r == (code == Some(expected)),
{
    match code {
        Some(c) => c == expected,
        None => false,
    }
}

/// Who is to blame for an inspection failure that proves nothing.
pub fn classify_probe_error(error: &ProbeError) -> (r: PrunePathErrorKind)
    ensures
        r == spec_classify_probe_error(*error),
{
    if code_is(error.raw_os_error, errno(ErrnoName::Loop)) {
        return PrunePathErrorKind::SymlinkLoop;
    }
    if transient_code(error.raw_os_error) {
        return PrunePathErrorKind::Transient;
    }
    match error.kind {
        ProbeErrorKind::PermissionDenied => PrunePathErrorKind::PermissionDenied,
        ProbeErrorKind::Unsupported => PrunePathErrorKind::Unsupported,
        ProbeErrorKind::Interrupted | ProbeErrorKind::WouldBlock | ProbeErrorKind::TimedOut
        | ProbeErrorKind::ConnectionRefused | ProbeErrorKind::ConnectionReset
        | ProbeErrorKind::ConnectionAborted | ProbeErrorKind::NotConnected => PrunePathErrorKind::Transient,
        _ => PrunePathErrorKind::Other,
    }
}

/// The status of a path given what probing it found.
///
/// A directory is kept; absence, a non-directory, a non-directory ancestor
/// and a path invalid on this host make it prunable; any other failure keeps
/// it and records why.
pub fn classify_path(outcome: &Result<ProbedPath, ProbeError>) -> (r: PrunePathStatus)
    ensures
        r == spec_classify_path(*outcome),
{
    match outcome {
        Ok(ProbedPath::Directory) => PrunePathStatus::ExistingDirectory,
        Ok(ProbedPath::NonDirectory) => PrunePathStatus::NotDirectory,
        Err(e) => {
            if e.kind == ProbeErrorKind::NotFound {
                PrunePathStatus::Missing
            } else if code_is(e.raw_os_error, errno(ErrnoName::NotDirectory)) || e.kind == ProbeErrorKind::InvalidInput
                || e.kind == ProbeErrorKind::InvalidFilename || code_is(e.raw_os_error, errno(ErrnoName::NameTooLong)) {
                PrunePathStatus::NotDirectory
            } else {
                PrunePathStatus::Uninspectable(PrunePathError {
                    kind: classify_probe_error(e),
                    message: e.message.clone(),
                    raw_os_error: e.raw_os_error,
                })
            }
        },
    }
}

/// Whether a reservation unused since `last_used_at` is older than `max_age`
/// seconds at time `now`.
pub open spec fn spec_is_expired_at(last_used_at: u64, now: u64, max_age: u64) -> bool {
    now >= last_used_at && now - last_used_at > max_age
}

/// Whether the reservation was last used more than `max_age` seconds before `now`.
pub fn is_expired_at(reservation: &Reservation, now: u64, max_age: u64) -> (r: bool)
    ensures
        r == spec_is_expired_at(reservation@.last_used_at, now, max_age),
{
    let last = reservation.last_used_at();
    now >= last && now - last > max_age
}

/// Whether the decisions are in strictly increasing path order (so no two
/// share a path, compared by components).
pub open spec fn decisions_sorted(ds: Seq<PrunePathDecision>) -> bool {
    forall|a: int, b: int| 0 <= a < b < ds.len() ==> path_lt(#[trigger] ds[a].path@, #[trigger] ds[b].path@)
}

/// Whether decision `k` is about the path `p`, compared by components.
pub open spec fn decision_matches(ds: Seq<PrunePathDecision>, k: int, p: Seq<char>) -> bool {
    0 <= k < ds.len() && components(ds[k].path@) == components(p)
}

/// The status recorded for the path `p`, if any.
pub open spec fn status_for(ds: Seq<PrunePathDecision>, p: Seq<char>) -> Option<PrunePathStatus> {
    if exists|k: int| #[trigger] decision_matches(ds, k, p) {
        Some(ds[choose|k: int| #[trigger] decision_matches(ds, k, p)].status)
    } else {
        None
    }
}

/// Whether every one of the first `n` entries of `es` has a decision for its path.
#[verifier::opaque]
pub open spec fn decisions_cover(ds: Seq<PrunePathDecision>, es: Seq<Reservation>, n: int) -> bool {
    forall|j: int| 0 <= j < n ==> exists|k: int| #[trigger] decision_matches(ds, k, (#[trigger] es[j])@.key.0)
}

/// Whether every decision is about the path of one of the first `n` entries of `es`.
#[verifier::opaque]
pub open spec fn decisions_from(ds: Seq<PrunePathDecision>, es: Seq<Reservation>, n: int) -> bool {
    forall|k: int| 0 <= k < ds.len() ==> exists|j: int| 0 <= j < n && (#[trigger] es[j])@.key.0 == (#[trigger] ds[k]).path@
}

/// Whether every decision's status is that of an outcome the probe can return for its path.
#[verifier::opaque]
pub open spec fn decisions_probed<F: Fn(&String) -> Result<ProbedPath, ProbeError>>(ds: Seq<PrunePathDecision>, probe: F) -> bool {
    forall|k: int| 0 <= k < ds.len() ==> exists|o: Result<ProbedPath, ProbeError>|
        call_ensures(probe, (&(#[trigger] ds[k]).path,), o) && ds[k].status == spec_classify_path(o)
}

/// Whether `ds` records, in path order, one decision for each distinct path
/// of the first `n` entries of `es` (under the first spelling met), each with
/// the status of an outcome that the probe can return for it.
pub open spec fn decisions_for_prefix<F: Fn(&String) -> Result<ProbedPath, ProbeError>>(
    ds: Seq<PrunePathDecision>,
    es: Seq<Reservation>,
    n: int,
    probe: F,
) -> bool {
    &&& decisions_sorted(ds)
    &&& decisions_cover(ds, es, n)
    &&& decisions_from(ds, es, n)
    &&& decisions_probed(ds, probe)
}

/// Whether `ds` records one decision for each distinct path of `es` (see
/// `decisions_for_prefix`).
pub open spec fn decisions_for<F: Fn(&String) -> Result<ProbedPath, ProbeError>>(
    ds: Seq<PrunePathDecision>,
    es: Seq<Reservation>,
    probe: F,
) -> bool {
    decisions_for_prefix(ds, es, es.len() as int, probe)
}

/// What `decisions_for` says, spelled out.
pub proof fn lemma_decisions_for<F: Fn(&String) -> Result<ProbedPath, ProbeError>>(
    ds: Seq<PrunePathDecision>,
    es: Seq<Reservation>,
    probe: F,
)
    requires
        decisions_for(ds, es, probe),
    ensures
        decisions_sorted(ds),
        forall|j: int| 0 <= j < es.len() ==> exists|k: int| #[trigger] decision_matches(ds, k, (#[trigger] es[j])@.key.0),
        forall|k: int| 0 <= k < ds.len() ==> exists|j: int| 0 <= j < es.len() && (#[trigger] es[j])@.key.0 == (#[trigger] ds[k]).path@,
        forall|k: int| 0 <= k < ds.len() ==> exists|o: Result<ProbedPath, ProbeError>|
            call_ensures(probe, (&(#[trigger] ds[k]).path,), o) && ds[k].status == spec_classify_path(o),
{
    reveal(decisions_cover);
    reveal(decisions_from);
    reveal(decisions_probed);
}

/// In sorted decisions, the one matching a path is the one `status_for` reports.
pub proof fn lemma_status_for(ds: Seq<PrunePathDecision>, p: Seq<char>, k: int)
    requires
        decisions_sorted(ds),
        decision_matches(ds, k, p),
    ensures
        status_for(ds, p) == Some(ds[k].status),
{
    let i = choose|i: int| #[trigger] decision_matches(ds, i, p);
    assert(decision_matches(ds, i, p));
    if i != k {
        lemma_comps_lt_irreflexive(components(p));
        if i < k {
            assert(path_lt(ds[i].path@, ds[k].path@));
        } else {
            assert(path_lt(ds[k].path@, ds[i].path@));
        }
    }
}

/// Where the components `pc` go among the sorted components `dc`: the index
/// of an equal entry (`true`), or the index before which they belong (`false`).
fn find_slot(dc: &Vec<Vec<Vec<char>>>, pc: &Vec<Vec<char>>) -> (r: (usize, bool))
    requires
        forall|a: int, b: int| 0 <= a < b < dc@.len() ==> comps_lt(seqs_of(#[trigger] dc@[a]@), seqs_of(#[trigger] dc@[b]@)),
    ensures
        r.0 <= dc@.len(),
        r.1 ==> r.0 < dc@.len() && seqs_of(dc@[r.0 as int]@) == seqs_of(pc@),
        !r.1 ==> forall|a: int| 0 <= a < r.0 ==> comps_lt(seqs_of(#[trigger] dc@[a]@), seqs_of(pc@)),
        !r.1 && r.0 < dc@.len() ==> comps_lt(seqs_of(pc@), seqs_of(dc@[r.0 as int]@)),
{
    let mut pos: usize = 0;
    while pos < dc.len()
        invariant
            pos <= dc@.len(),
            forall|a: int| 0 <= a < pos ==> comps_lt(seqs_of(#[trigger] dc@[a]@), seqs_of(pc@)),
        decreases dc@.len() - pos,
    {
        if comps_equal(&dc[pos], pc) {
            return (pos, true);
        }
        if comps_less(pc, &dc[pos]) {
            return (pos, false);
        }
        proof { lemma_comps_lt_total(seqs_of(dc@[pos as int]@), seqs_of(pc@)); }
        pos = pos + 1;
    }
    (pos, false)
}

/// Inserting a decision at its place keeps the decisions sorted.
proof fn lemma_insert_sorted(ds: Seq<PrunePathDecision>, p: int, d: PrunePathDecision)
    requires
        decisions_sorted(ds),
        0 <= p <= ds.len(),
        forall|a: int| 0 <= a < p ==> path_lt(#[trigger] ds[a].path@, d.path@),
        p < ds.len() ==> path_lt(d.path@, ds[p].path@),
    ensures
        decisions_sorted(ds.insert(p, d)),
{
    let n = ds.insert(p, d);
    assert forall|a: int, b: int| 0 <= a < b < n.len() implies path_lt(#[trigger] n[a].path@, #[trigger] n[b].path@) by {
        if b < p {
            assert(n[a] == ds[a] && n[b] == ds[b]);
        } else if a > p {
            assert(n[a] == ds[a - 1] && n[b] == ds[b - 1]);
        } else if a < p && b > p {
            assert(n[a] == ds[a] && n[b] == ds[b - 1]);
        } else if a == p {
            assert(n[b] == ds[b - 1]);
            if b - 1 > p {
                assert(path_lt(ds[p].path@, ds[b - 1].path@));
                lemma_comps_lt_transitive(components(d.path@), components(ds[p].path@), components(ds[b - 1].path@));
            }
        } else {
            assert(n[a] == ds[a]);
        }
    }
}

/// Inserting the decision for entry `i` keeps every entry up to `i` covered.
proof fn lemma_insert_cover(ds: Seq<PrunePathDecision>, p: int, d: PrunePathDecision, es: Seq<Reservation>, i: int)
    requires
        0 <= p <= ds.len(),
        0 <= i < es.len(),
        d.path@ == es[i]@.key.0,
        forall|j: int| 0 <= j < i ==> exists|k: int| #[trigger] decision_matches(ds, k, (#[trigger] es[j])@.key.0),
    ensures
        forall|j: int| 0 <= j < i + 1 ==> exists|k: int| #[trigger] decision_matches(ds.insert(p, d), k, (#[trigger] es[j])@.key.0),
{
    let n = ds.insert(p, d);
    assert forall|j: int| 0 <= j < i + 1 implies exists|k: int| #[trigger] decision_matches(n, k, (#[trigger] es[j])@.key.0) by {
        if j == i {
            assert(decision_matches(n, p, es[j]@.key.0));
        } else {
            let k0 = choose|k: int| #[trigger] decision_matches(ds, k, es[j]@.key.0);
            if k0 < p {
                assert(n[k0] == ds[k0]);
                assert(decision_matches(n, k0, es[j]@.key.0));
            } else {
                assert(n[k0 + 1] == ds[k0]);
                assert(decision_matches(n, k0 + 1, es[j]@.key.0));
            }
        }
    }
}

/// Inserting the decision for entry `i` keeps every decision's path that of some entry up to `i`.
proof fn lemma_insert_origin(ds: Seq<PrunePathDecision>, p: int, d: PrunePathDecision, es: Seq<Reservation>, i: int)
    requires
        0 <= p <= ds.len(),
        0 <= i < es.len(),
        d.path@ == es[i]@.key.0,
        forall|k: int| 0 <= k < ds.len() ==> exists|j: int| 0 <= j < i && (#[trigger] es[j])@.key.0 == (#[trigger] ds[k]).path@,
    ensures
        forall|k: int| 0 <= k < ds.len() + 1 ==> exists|j: int| 0 <= j < i + 1
            && (#[trigger] es[j])@.key.0 == (#[trigger] ds.insert(p, d)[k]).path@,
{
    let n = ds.insert(p, d);
    assert forall|k: int| 0 <= k < ds.len() + 1 implies exists|j: int| 0 <= j < i + 1
        && (#[trigger] es[j])@.key.0 == (#[trigger] n[k]).path@ by {
        if k == p {
            assert(es[i]@.key.0 == n[k].path@);
        } else {
            let k0 = if k < p { k } else { k - 1 };
            assert(n[k] == ds[k0]);
            let j0 = choose|j: int| 0 <= j < i && (#[trigger] es[j])@.key.0 == ds[k0].path@;
            assert(es[j0]@.key.0 == n[k].path@);
        }
    }
}

/// Inserting a decision made from a probe outcome keeps every status justified by the probe.
proof fn lemma_insert_probe<F: Fn(&String) -> Result<ProbedPath, ProbeError>>(
    ds: Seq<PrunePathDecision>,
    p: int,
    d: PrunePathDecision,
    probe: F,
    outcome: Result<ProbedPath, ProbeError>,
)
    requires
        0 <= p <= ds.len(),
        call_ensures(probe, (&d.path,), outcome),
        d.status == spec_classify_path(outcome),
        forall|k: int| 0 <= k < ds.len() ==> exists|o: Result<ProbedPath, ProbeError>|
            call_ensures(probe, (&(#[trigger] ds[k]).path,), o) && ds[k].status == spec_classify_path(o),
    ensures
        forall|k: int| 0 <= k < ds.len() + 1 ==> exists|o: Result<ProbedPath, ProbeError>|
            call_ensures(probe, (&(#[trigger] ds.insert(p, d)[k]).path,), o) && ds.insert(p, d)[k].status == spec_classify_path(o),
{
    let n = ds.insert(p, d);
    assert forall|k: int| 0 <= k < ds.len() + 1 implies exists|o: Result<ProbedPath, ProbeError>|
        call_ensures(probe, (&(#[trigger] n[k]).path,), o) && n[k].status == spec_classify_path(o) by {
        if k == p {
            assert(n[k] == d);
        } else {
            let k0 = if k < p { k } else { k - 1 };
            assert(n[k] == ds[k0]);
        }
    }
}

/// Decisions for a prefix are sorted.
proof fn lemma_prefix_sorted<F: Fn(&String) -> Result<ProbedPath, ProbeError>>(
    ds: Seq<PrunePathDecision>, es: Seq<Reservation>, n: int, probe: F)
    requires
        decisions_for_prefix(ds, es, n, probe),
    ensures
        decisions_sorted(ds),
{
}

/// An entry whose path already has a decision extends the covered prefix.
proof fn lemma_probe_found<F: Fn(&String) -> Result<ProbedPath, ProbeError>>(
    ds: Seq<PrunePathDecision>, es: Seq<Reservation>, i: int, probe: F, pos: int)
    requires
        decisions_for_prefix(ds, es, i, probe),
        0 <= i < es.len(),
        decision_matches(ds, pos, es[i]@.key.0),
    ensures
        decisions_for_prefix(ds, es, i + 1, probe),
{
    reveal(decisions_cover);
    reveal(decisions_from);
    assert forall|j: int| 0 <= j < i + 1 implies exists|k: int| #[trigger] decision_matches(ds, k, (#[trigger] es[j])@.key.0) by {
        if j == i { assert(decision_matches(ds, pos, es[j]@.key.0)); }
    }
    assert forall|k: int| 0 <= k < ds.len() implies exists|j: int| 0 <= j < i + 1
        && (#[trigger] es[j])@.key.0 == (#[trigger] ds[k]).path@ by {
        let j0 = choose|j: int| 0 <= j < i && (#[trigger] es[j])@.key.0 == ds[k].path@;
        assert(es[j0]@.key.0 == ds[k].path@);
    }
}

/// Inserting the decision for entry `i` at its place extends the covered prefix.
proof fn lemma_probe_insert<F: Fn(&String) -> Result<ProbedPath, ProbeError>>(
    ds: Seq<PrunePathDecision>, es: Seq<Reservation>, i: int, probe: F, p: int, d: PrunePathDecision,
    outcome: Result<ProbedPath, ProbeError>)
    requires
        decisions_for_prefix(ds, es, i, probe),
        0 <= i < es.len(),
        0 <= p <= ds.len(),
        d.path@ == es[i]@.key.0,
        forall|a: int| 0 <= a < p ==> path_lt(#[trigger] ds[a].path@, d.path@),
        p < ds.len() ==> path_lt(d.path@, ds[p].path@),
        call_ensures(probe, (&d.path,), outcome),
        d.status == spec_classify_path(outcome),
    ensures
        decisions_for_prefix(ds.insert(p, d), es, i + 1, probe),
{
    lemma_insert_sorted(ds, p, d);
    assert(decisions_cover(ds.insert(p, d), es, i + 1)) by {
        reveal(decisions_cover);
        lemma_insert_cover(ds, p, d, es, i);
    }
    assert(decisions_from(ds.insert(p, d), es, i + 1)) by {
        reveal(decisions_from);
        lemma_insert_origin(ds, p, d, es, i);
    }
    assert(decisions_probed(ds.insert(p, d), probe)) by {
        reveal(decisions_probed);
        lemma_insert_probe(ds, p, d, probe, outcome);
    }
}

/// Probes each distinct path of `entries` once and records its status, in path order.
fn probe_paths<F: Fn(&String) -> Result<ProbedPath, ProbeError>>(entries: &Vec<Reservation>, probe: &F)
    -> (r: (Vec<PrunePathDecision>, Vec<Vec<Vec<char>>>))
    requires
        forall|s: &String| #[trigger] call_requires(*probe, (s,)),
    ensures
        decisions_for(r.0@, entries@, *probe),
        r.1@.len() == r.0@.len(),
        forall|k: int| 0 <= k < r.1@.len() ==> seqs_of(#[trigger] r.1@[k]@) == components(r.0@[k].path@),
{
    let ghost es = entries@;
    let mut ds: Vec<PrunePathDecision> = Vec::new();
    let mut dc: Vec<Vec<Vec<char>>> = Vec::new();
    proof { reveal(decisions_cover); reveal(decisions_from); reveal(decisions_probed); }
    let mut i: usize = 0;
    while i < entries.len()
        invariant
            i <= es.len(),
            es == entries@,
            forall|s: &String| #[trigger] call_requires(*probe, (s,)),
            ds@.len() == dc@.len(),
            forall|k: int| 0 <= k < dc@.len() ==> seqs_of(#[trigger] dc@[k]@) == components(ds@[k].path@),
            decisions_for_prefix(ds@, es, i as int, *probe),
        decreases es.len() - i,
    {
        let path = &entries[i].key().path;
        let pc = path_components(path.as_str());
        proof {
            lemma_prefix_sorted(ds@, es, i as int, *probe);
            assert forall|a: int, b: int| 0 <= a < b < dc@.len() implies
                comps_lt(seqs_of(#[trigger] dc@[a]@), seqs_of(#[trigger] dc@[b]@)) by {
                assert(path_lt(ds@[a].path@, ds@[b].path@));
            }
        }
        let (pos, found) = find_slot(&dc, &pc);
        if found {
            proof {
                assert(decision_matches(ds@, pos as int, es[i as int]@.key.0));
                lemma_probe_found(ds@, es, i as int, *probe, pos as int);
            }
        } else {
            let outcome = probe(path);
            let status = classify_path(&outcome);
            let ghost old_ds = ds@;
            let ghost old_dc = dc@;
            let decision = PrunePathDecision { path: path.clone(), status };
            ds.insert(pos, decision);
            dc.insert(pos, pc);
            proof {
                let p = pos as int;
                assert(ds@ == old_ds.insert(p, decision));
                assert(dc@ == old_dc.insert(p, pc));
                assert forall|k: int| 0 <= k < dc@.len() implies seqs_of(#[trigger] dc@[k]@) == components(ds@[k].path@) by {
                    if k < p { assert(dc@[k] == old_dc[k] && ds@[k] == old_ds[k]); }
                    else if k > p { assert(dc@[k] == old_dc[k - 1] && ds@[k] == old_ds[k - 1]); }
                }
                assert forall|a: int| 0 <= a < p implies path_lt(#[trigger] old_ds[a].path@, decision.path@) by {
                    assert(seqs_of(old_dc[a]@) == components(old_ds[a].path@));
                }
                if p < old_ds.len() {
                    assert(seqs_of(old_dc[p]@) == components(old_ds[p].path@));
                }
                lemma_probe_insert(old_ds, es, i as int, *probe, p, decision, outcome);
            }
        }
        i = i + 1;
    }
    (ds, dc)
}

/// Why a reservation is removed.
#[derive(Debug, Clone, Copy, PartialEq, Eq, Structural)]
pub enum CleanupReason {
    /// Its path is missing or not a directory.
    Prune,
    /// It was not used within the configured age.
    Expire,
}

/// What a cleanup selects: prunable paths, and (when set) reservations older
/// than `max_age` seconds.
#[derive(Debug, Clone, Copy, PartialEq, Eq, Structural)]
pub struct CleanupSelection {
    /// Select reservations whose path is prunable.
    pub prune: bool,
    /// Select reservations unused for longer than this many seconds.
    pub max_age: Option<u64>,
}

/// Why `r` is removed, if it is: pruning takes precedence over expiry.
pub open spec fn cleanup_reason(r: Reservation, ds: Seq<PrunePathDecision>, sel: CleanupSelection, now: u64) -> Option<CleanupReason> {
    let prunable = sel.prune && (status_for(ds, r@.key.0) matches Some(st) && st.spec_is_prunable());
    let expired = sel.max_age matches Some(m) && spec_is_expired_at(r@.last_used_at, now, m);
    if prunable {
        Some(CleanupReason::Prune)
    } else if expired {
        Some(CleanupReason::Expire)
    } else {
        None
    }
}

/// The entries of `es` a cleanup keeps, in order.
pub open spec fn preserved_entries(es: Seq<Reservation>, ds: Seq<PrunePathDecision>, sel: CleanupSelection, now: u64) -> Seq<Reservation>
    decreases es.len(),
{
    if es.len() == 0 {
        Seq::empty()
    } else {
        let rest = preserved_entries(es.drop_last(), ds, sel, now);
        if cleanup_reason(es.last(), ds, sel, now) is None { rest.push(es.last()) } else { rest }
    }
}

/// The entries of `es` a cleanup removes, in order, with their reasons.
pub open spec fn removed_entries(es: Seq<Reservation>, ds: Seq<PrunePathDecision>, sel: CleanupSelection, now: u64)
    -> Seq<(Reservation, CleanupReason)>
    decreases es.len(),
{
    if es.len() == 0 {
        Seq::empty()
    } else {
        let rest = removed_entries(es.drop_last(), ds, sel, now);
        match cleanup_reason(es.last(), ds, sel, now) {
            Some(reason) => rest.push((es.last(), reason)),
            None => rest,
        }
    }
}

/// Every kept entry is one of the entries.
proof fn lemma_preserved_from(es: Seq<Reservation>, ds: Seq<PrunePathDecision>, sel: CleanupSelection, now: u64)
    ensures
        forall|t: int| 0 <= t < preserved_entries(es, ds, sel, now).len() ==>
            exists|j: int| 0 <= j < es.len() && #[trigger] preserved_entries(es, ds, sel, now)[t] == es[j],
    decreases es.len(),
{
    if es.len() > 0 {
        let rest = es.drop_last();
        lemma_preserved_from(rest, ds, sel, now);
        let p = preserved_entries(es, ds, sel, now);
        assert forall|t: int| 0 <= t < p.len() implies exists|j: int| 0 <= j < es.len() && #[trigger] p[t] == es[j] by {
            let pr = preserved_entries(rest, ds, sel, now);
            if t < pr.len() {
                assert(p[t] == pr[t]);
                let j0 = choose|j: int| 0 <= j < rest.len() && #[trigger] pr[t] == rest[j];
                assert(rest[j0] == es[j0]);
            } else {
                assert(p[t] == es[es.len() - 1]);
            }
        }
    }
}

/// A removal selected by a cleanup.
#[derive(Debug)]
pub struct PlannedRemoval {
    /// The reservation.
    pub reservation: Reservation,
    /// Why it is removed.
    pub reason: CleanupReason,
}

/// The reservations and reasons of a list of removals.
pub open spec fn removal_views(v: Seq<PlannedRemoval>) -> Seq<(Reservation, CleanupReason)> {
    v.map_values(|p: PlannedRemoval| (p.reservation, p.reason))
}

/// What one cleanup invocation saw and did.
pub struct CleanupExecution {
    /// The reservations evaluated, in store order.
    pub considered_reservations: Vec<Reservation>,
    /// The evaluated reservations kept.
    pub preserved_reservations: Vec<Reservation>,
    /// The reservations removed (or selected, in a dry run), with reasons.
    pub removed: Vec<PlannedRemoval>,
    /// One decision for each distinct reserved path, in path order.
    pub path_decisions: Vec<PrunePathDecision>,
}

/// The index of the components equal to `pc`, if any.
fn find_decision(dc: &Vec<Vec<Vec<char>>>, pc: &Vec<Vec<char>>) -> (r: Option<usize>)
    ensures
        match r {
            Some(k) => k < dc@.len() && seqs_of(dc@[k as int]@) == seqs_of(pc@),
            None => forall|j: int| 0 <= j < dc@.len() ==> seqs_of(#[trigger] dc@[j]@) != seqs_of(pc@),
        },
{
    let mut k: usize = 0;
    while k < dc.len()
        invariant
            k <= dc@.len(),
            forall|j: int| 0 <= j < k ==> seqs_of(#[trigger] dc@[j]@) != seqs_of(pc@),
        decreases dc@.len() - k,
    {
        if comps_equal(&dc[k], pc) {
            return Some(k);
        }
        k = k + 1;
    }
    None
}

/// Why the reservation is removed under the recorded decisions.
fn reason_of(
    r: &Reservation,
    ds: &Vec<PrunePathDecision>,
    dc: &Vec<Vec<Vec<char>>>,
    sel: CleanupSelection,
    now: u64,
) -> (reason: Option<CleanupReason>)
    requires
        decisions_sorted(ds@),
        dc@.len() == ds@.len(),
        forall|k: int| 0 <= k < dc@.len() ==> seqs_of(#[trigger] dc@[k]@) == components(ds@[k].path@),
        !sel.prune ==> ds@.len() == 0,
    ensures
        reason == cleanup_reason(*r, ds@, sel, now),
{
    let mut prunable = false;
    if sel.prune {
        let pc = path_components(r.key().path.as_str());
        match find_decision(dc, &pc) {
            Some(k) => {
                proof {
                    assert(decision_matches(ds@, k as int, r@.key.0));
                    lemma_status_for(ds@, r@.key.0, k as int);
                }
                prunable = ds[k].status.is_prunable();
            },
            None => {
                assert forall|j: int| !(#[trigger] decision_matches(ds@, j, r@.key.0)) by {
                    if 0 <= j < dc@.len() {
                        assert(seqs_of(dc@[j]@) != seqs_of(pc@));
                    }
                }
            },
        }
    }
    let expired = match sel.max_age {
        Some(m) => is_expired_at(r, now, m),
        None => false,
    };
    if prunable {
        Some(CleanupReason::Prune)
    } else if expired {
        Some(CleanupReason::Expire)
    } else {
        None
    }
}

/// Removing the first remaining entry after the kept ones: the store goes
/// from `P + es[i..]` to `P + es[i+1..]`.
proof fn lemma_remove_next(es: Seq<Reservation>, ds: Seq<PrunePathDecision>, sel: CleanupSelection, now: u64, i: int)
    requires
        entries_unique(es),
        0 <= i < es.len(),
    ensures
        ({
            let p = preserved_entries(es.take(i), ds, sel, now);
            let cur = p + es.skip(i);
            &&& key_index(cur, es[i]@.key) == p.len()
            &&& lookup(cur, es[i]@.key) == Some(es[i])
            &&& cur.remove(p.len() as int) =~= p + es.skip(i + 1)
        }),
{
    let p = preserved_entries(es.take(i), ds, sel, now);
    let cur = p + es.skip(i);
    lemma_preserved_from(es.take(i), ds, sel, now);
    assert forall|l: int| 0 <= l < p.len() implies (#[trigger] cur[l])@.key != es[i]@.key by {
        assert(cur[l] == p[l]);
        let j = choose|j: int| 0 <= j < es.take(i).len() && #[trigger] p[l] == es.take(i)[j];
        assert(es.take(i)[j] == es[j]);
        assert(es[j]@.key != es[i]@.key);
    }
    assert(cur[p.len() as int] == es[i]);
    lemma_key_index_first(cur, es[i]@.key, p.len() as int);
}

/// Runs one cleanup at time `now`: inspects each distinct path once (when
/// pruning), selects every reservation that is prunable or expired (pruning
/// first), calls `barrier` once the selection is made, and then (unless
/// `dry_run`) removes each selected reservation after checking that it is
/// unchanged and still eligible.
fn execute_cleanup<F: Fn(&String) -> Result<ProbedPath, ProbeError>, B: FnOnce()>(
    db: &mut Database,
    sel: CleanupSelection,
    dry_run: bool,
    probe: F,
    barrier: B,
    now: u64,
) -> (r: CleanupExecution)
    requires
        forall|s: &String| #[trigger] call_requires(probe, (s,)),
        call_requires(barrier, ()),
    ensures
        ({
            let es = old(db).spec_entries();
            let ds = r.path_decisions@;
            &&& sel.prune ==> decisions_for(ds, es, probe)
            &&& !sel.prune ==> ds.len() == 0
            &&& r.considered_reservations@ == es
            &&& r.preserved_reservations@ == preserved_entries(es, ds, sel, now)
            &&& removal_views(r.removed@) == removed_entries(es, ds, sel, now)
            &&& dry_run ==> final(db).spec_entries() == es
            &&& !dry_run ==> final(db).spec_entries() == preserved_entries(es, ds, sel, now)
        }),
{
    let ghost es = db.spec_entries();
    db.check_unique();
    let considered = db.list_all_reservations();
    let (ds, dc) = if sel.prune {
        probe_paths(&considered, &probe)
    } else {
        (Vec::new(), Vec::new())
    };
    let ghost dsv = ds@;
    proof {
        if sel.prune {
            lemma_decisions_for(ds@, es, probe);
        }
    }
    let n = considered.len();
    let mut preserved: Vec<Reservation> = Vec::new();
    let mut planned: Vec<PlannedRemoval> = Vec::new();
    let mut reasons: Vec<Option<CleanupReason>> = Vec::new();
    let mut i: usize = 0;
    while i < n
        invariant
            n == es.len(),
            es == considered@,
            i <= n,
            dsv == ds@,
            decisions_sorted(dsv),
            dc@.len() == ds@.len(),
            forall|k: int| 0 <= k < dc@.len() ==> seqs_of(#[trigger] dc@[k]@) == components(ds@[k].path@),
            !sel.prune ==> ds@.len() == 0,
            reasons@.len() == i,
            forall|j: int| 0 <= j < i ==> #[trigger] reasons@[j] == cleanup_reason(es[j], dsv, sel, now),
            preserved@ == preserved_entries(es.take(i as int), dsv, sel, now),
            removal_views(planned@) == removed_entries(es.take(i as int), dsv, sel, now),
        decreases n - i,
    {
        proof {
            assert(es.take(i + 1).drop_last() =~= es.take(i as int));
            assert(es.take(i + 1).last() == es[i as int]);
        }
        let reason = reason_of(&considered[i], &ds, &dc, sel, now);
        reasons.push(reason);
        match reason {
            Some(why) => {
                planned.push(PlannedRemoval { reservation: considered[i].clone(), reason: why });
                assert(removal_views(planned@) =~= removed_entries(es.take(i + 1), dsv, sel, now));
            },
            None => {
                preserved.push(considered[i].clone());
            },
        }
        i = i + 1;
    }
    assert(es.take(n as int) =~= es);
    barrier();
    if dry_run {
        return CleanupExecution {
            considered_reservations: considered,
            preserved_reservations: preserved,
            removed: planned,
            path_decisions: ds,
        };
    }
    let mut removed: Vec<PlannedRemoval> = Vec::new();
    assert(es.skip(0) =~= es);
    assert(preserved_entries(es.take(0), dsv, sel, now) + es.skip(0) =~= es);
    let mut i: usize = 0;
    while i < n
        invariant
            n == es.len(),
            es == considered@,
            entries_unique(es),
            i <= n,
            dsv == ds@,
            decisions_sorted(dsv),
            dc@.len() == ds@.len(),
            forall|k: int| 0 <= k < dc@.len() ==> seqs_of(#[trigger] dc@[k]@) == components(ds@[k].path@),
            !sel.prune ==> ds@.len() == 0,
            reasons@.len() == n,
            forall|j: int| 0 <= j < n ==> #[trigger] reasons@[j] == cleanup_reason(es[j], dsv, sel, now),
            preserved@ == preserved_entries(es, dsv, sel, now),
            db.spec_entries() == preserved_entries(es.take(i as int), dsv, sel, now) + es.skip(i as int),
            removal_views(removed@) == removed_entries(es.take(i as int), dsv, sel, now),
        decreases n - i,
    {
        let ghost p = preserved_entries(es.take(i as int), dsv, sel, now);
        proof {
            assert(es.take(i + 1).drop_last() =~= es.take(i as int));
            assert(es.take(i + 1).last() == es[i as int]);
            lemma_remove_next(es, dsv, sel, now, i as int);
        }
        if let Some(why) = reasons[i] {
            let planned_reservation = &considered[i];
            match db.get_reservation(planned_reservation.key()) {
                None => {
                    removed.push(PlannedRemoval { reservation: planned_reservation.clone(), reason: why });
                },
                Some(current) => {
                    let still_eligible = reason_of(&current, &ds, &dc, sel, now) == Some(why);
                    if !current.same_as(planned_reservation) || !still_eligible {
                        preserved.push(current);
                    } else if db.delete_reservation_if_unchanged(&current) {
                        removed.push(PlannedRemoval { reservation: planned_reservation.clone(), reason: why });
                        proof {
                            assert(db.spec_entries() =~= p + es.skip(i + 1));
                            assert(removal_views(removed@) =~= removed_entries(es.take(i + 1), dsv, sel, now));
                        }
                    } else {
                        match db.get_reservation(planned_reservation.key()) {
                            Some(again) => {
                                preserved.push(again);
                            },
                            None => {
                                removed.push(PlannedRemoval { reservation: planned_reservation.clone(), reason: why });
                            },
                        }
                    }
                },
            }
        } else {
            proof {
                assert(p + es.skip(i as int) =~= p.push(es[i as int]) + es.skip(i + 1));
            }
        }
        i = i + 1;
    }
    assert(es.take(n as int) =~= es);
    assert(es.skip(n as int) =~= Seq::<Reservation>::empty());
    assert(db.spec_entries() =~= preserved_entries(es, dsv, sel, now));
    CleanupExecution {
        considered_reservations: considered,
        preserved_reservations: preserved,
        removed,
        path_decisions: ds,
    }
}

/// The reservations a cleanup removes, in order.
pub open spec fn removed_reservations(es: Seq<Reservation>, ds: Seq<PrunePathDecision>, sel: CleanupSelection, now: u64) -> Seq<Reservation> {
    removed_entries(es, ds, sel, now).map_values(|x: (Reservation, CleanupReason)| x.0)
}

/// The reservations a cleanup removes for the given reason, in order.
pub open spec fn removed_for(es: Seq<Reservation>, ds: Seq<PrunePathDecision>, sel: CleanupSelection, now: u64, why: CleanupReason)
    -> Seq<Reservation>
    decreases es.len(),
{
    if es.len() == 0 {
        Seq::empty()
    } else {
        let rest = removed_for(es.drop_last(), ds, sel, now, why);
        if cleanup_reason(es.last(), ds, sel, now) == Some(why) { rest.push(es.last()) } else { rest }
    }
}

/// A cleanup partitions what it considers: each entry is kept or removed,
/// never both; an entry is removed exactly when it has a cleanup reason (so
/// every entry with no reason, such as a fresh reservation of an existing
/// directory, is kept); and the removals split into the pruned and the
/// expired ones, each removal counted once.
pub proof fn lemma_cleanup_partition(es: Seq<Reservation>, ds: Seq<PrunePathDecision>, sel: CleanupSelection, now: u64)
    ensures
        preserved_entries(es, ds, sel, now).to_multiset().add(removed_reservations(es, ds, sel, now).to_multiset())
            == es.to_multiset(),
        removed_for(es, ds, sel, now, CleanupReason::Prune).to_multiset()
            .add(removed_for(es, ds, sel, now, CleanupReason::Expire).to_multiset())
            == removed_reservations(es, ds, sel, now).to_multiset(),
        forall|j: int| 0 <= j < es.len() && cleanup_reason(es[j], ds, sel, now) is None
            ==> preserved_entries(es, ds, sel, now).contains(#[trigger] es[j]),
        forall|j: int| 0 <= j < es.len() && cleanup_reason(es[j], ds, sel, now) is Some
            ==> removed_reservations(es, ds, sel, now).contains(#[trigger] es[j]),
    decreases es.len(),
{
    broadcast use vstd::seq_lib::group_to_multiset_ensures;
    broadcast use vstd::multiset::group_multiset_axioms;
    if es.len() == 0 {
        assert(preserved_entries(es, ds, sel, now) =~= Seq::<Reservation>::empty());
        assert(removed_reservations(es, ds, sel, now) =~= Seq::<Reservation>::empty());
        assert(es =~= Seq::<Reservation>::empty());
        assert(preserved_entries(es, ds, sel, now).to_multiset().add(removed_reservations(es, ds, sel, now).to_multiset())
            =~= es.to_multiset());
        assert(removed_for(es, ds, sel, now, CleanupReason::Prune).to_multiset()
            .add(removed_for(es, ds, sel, now, CleanupReason::Expire).to_multiset())
            =~= removed_reservations(es, ds, sel, now).to_multiset());
    } else {
        let rest = es.drop_last();
        let x = es.last();
        lemma_cleanup_partition(rest, ds, sel, now);
        let p0 = preserved_entries(rest, ds, sel, now);
        let r0 = removed_reservations(rest, ds, sel, now);
        let pr0 = removed_for(rest, ds, sel, now, CleanupReason::Prune);
        let ex0 = removed_for(rest, ds, sel, now, CleanupReason::Expire);
        let p = preserved_entries(es, ds, sel, now);
        let r = removed_reservations(es, ds, sel, now);
        let pr = removed_for(es, ds, sel, now, CleanupReason::Prune);
        let ex = removed_for(es, ds, sel, now, CleanupReason::Expire);
        assert(rest.push(x) =~= es);
        match cleanup_reason(x, ds, sel, now) {
            None => {
                assert(p == p0.push(x));
                assert(r =~= r0);
                assert(pr == pr0 && ex == ex0);
                assert(p.to_multiset().add(r.to_multiset()) =~= es.to_multiset());
            },
            Some(why) => {
                assert(p == p0);
                let re0 = removed_entries(rest, ds, sel, now);
                assert(removed_entries(es, ds, sel, now) == re0.push((x, why)));
                assert(r =~= r0.push(x));
                assert(p.to_multiset().add(r.to_multiset()) =~= es.to_multiset());
                if why == CleanupReason::Prune {
                    assert(pr == pr0.push(x) && ex == ex0);
                } else {
                    assert(pr == pr0 && ex == ex0.push(x));
                }
            },
        }
        assert(pr.to_multiset().add(ex.to_multiset()) =~= r.to_multiset());
        assert forall|j: int| 0 <= j < es.len() && cleanup_reason(es[j], ds, sel, now) is None
            implies p.contains(#[trigger] es[j]) by {
            if j < rest.len() {
                assert(es[j] == rest[j]);
                assert(p0.contains(rest[j]));
                let k = choose|k: int| 0 <= k < p0.len() && p0[k] == rest[j];
                assert(p[k] == p0[k]);
            } else {
                assert(p[p.len() - 1] == x);
            }
        }
        assert forall|j: int| 0 <= j < es.len() && cleanup_reason(es[j], ds, sel, now) is Some
            implies r.contains(#[trigger] es[j]) by {
            if j < rest.len() {
                assert(es[j] == rest[j]);
                assert(r0.contains(rest[j]));
                let k = choose|k: int| 0 <= k < r0.len() && r0[k] == rest[j];
                assert(r[k] == r0[k]);
            } else {
                assert(r[r.len() - 1] == x);
            }
        }
    }
}

/// A dry run reports the selection a live run makes: with the same path
/// decisions and time, both report the same kept, removed, pruned and
/// expired reservations; only the live run changes the store, leaving
/// exactly the kept ones.
pub proof fn lemma_autoclean_preview_matches_live<F: Fn(&String) -> Result<ProbedPath, ProbeError>>(
    es: Seq<Reservation>,
    after_preview: Seq<Reservation>,
    after_live: Seq<Reservation>,
    config: CleanupConfig,
    probe: F,
    now: u64,
    preview: AutocleanResult,
    live: AutocleanResult,
)
    requires
        autoclean_outcome(es, after_preview, config, true, probe, now, preview),
        autoclean_outcome(es, after_live, config, false, probe, now, live),
        preview.prune_path_decisions@ == live.prune_path_decisions@,
    ensures
        preview.preserved_reservations@ == live.preserved_reservations@,
        preview.removed_reservations@ == live.removed_reservations@,
        preview.pruned_reservations@ == live.pruned_reservations@,
        preview.expired_reservations@ == live.expired_reservations@,
        preview.total_removed == live.total_removed,
        after_preview == es,
        after_live == live.preserved_reservations@,
{
}

/// The result of pruning.
#[derive(Debug)]
pub struct PruneResult {
    /// Number of reservations evaluated.
    pub considered_count: usize,
    /// Number of evaluated reservations kept.
    pub preserved_count: usize,
    /// Number of reservations removed (or that would be, in a dry run).
    pub removed_count: usize,
    /// The reservations evaluated.
    pub considered_reservations: Vec<Reservation>,
    /// The evaluated reservations kept.
    pub preserved_reservations: Vec<Reservation>,
    /// The reservations removed (or that would be).
    pub removed_reservations: Vec<Reservation>,
    /// One decision for every distinct reserved path.
    pub path_decisions: Vec<PrunePathDecision>,
}

/// The result of expiring.
#[derive(Debug)]
pub struct ExpireResult {
    /// Number of reservations evaluated.
    pub considered_count: usize,
    /// Number of evaluated reservations kept.
    pub preserved_count: usize,
    /// Number of reservations removed (or that would be, in a dry run).
    pub removed_count: usize,
    /// The reservations evaluated.
    pub considered_reservations: Vec<Reservation>,
    /// The evaluated reservations kept.
    pub preserved_reservations: Vec<Reservation>,
    /// The reservations removed (or that would be).
    pub removed_reservations: Vec<Reservation>,
}

/// The result of pruning and expiring together.
#[derive(Debug)]
pub struct AutocleanResult {
    /// Number of reservations evaluated.
    pub considered_count: usize,
    /// Number of evaluated reservations kept.
    pub preserved_count: usize,
    /// Number of reservations pruned.
    pub pruned_count: usize,
    /// Number of reservations expired.
    pub expired_count: usize,
    /// Total number of reservations removed.
    pub total_removed: usize,
    /// The reservations evaluated.
    pub considered_reservations: Vec<Reservation>,
    /// The evaluated reservations kept.
    pub preserved_reservations: Vec<Reservation>,
    /// Every removed reservation, once.
    pub removed_reservations: Vec<Reservation>,
    /// The reservations pruned.
    pub pruned_reservations: Vec<Reservation>,
    /// The reservations expired and not pruned.
    pub expired_reservations: Vec<Reservation>,
    /// The decisions of the prune part.
    pub prune_path_decisions: Vec<PrunePathDecision>,
}

/// What expiring at time `now` reports and leaves: without a configured age
/// nothing; otherwise every entry is evaluated, those older than the age are
/// removed (unless in a dry run), and the rest are kept.
pub open spec fn expire_outcome(
    es: Seq<Reservation>,
    after: Seq<Reservation>,
    config: CleanupConfig,
    dry_run: bool,
    now: u64,
    res: ExpireResult,
) -> bool {
    match config.expire_after_days {
        None => after == es
            && res.considered_reservations@.len() == 0 && res.preserved_reservations@.len() == 0
            && res.removed_reservations@.len() == 0
            && res.considered_count == 0 && res.preserved_count == 0 && res.removed_count == 0,
        Some(days) => {
            let sel = CleanupSelection { prune: false, max_age: Some((days * SECONDS_PER_DAY) as u64) };
            let ds = Seq::<PrunePathDecision>::empty();
            &&& res.considered_reservations@ == es
            &&& res.preserved_reservations@ == preserved_entries(es, ds, sel, now)
            &&& res.removed_reservations@ == removed_reservations(es, ds, sel, now)
            &&& res.considered_count == es.len()
            &&& res.preserved_count == res.preserved_reservations@.len()
            &&& res.removed_count == res.removed_reservations@.len()
            &&& after == if dry_run { es } else { preserved_entries(es, ds, sel, now) }
        },
    }
}

/// What pruning and expiring together at time `now` report and leave: each
/// entry is removed once (unless in a dry run), as pruned when its path is
/// prunable, otherwise as expired when older than the configured age.
pub open spec fn autoclean_outcome<F: Fn(&String) -> Result<ProbedPath, ProbeError>>(
    es: Seq<Reservation>,
    after: Seq<Reservation>,
    config: CleanupConfig,
    dry_run: bool,
    probe: F,
    now: u64,
    res: AutocleanResult,
) -> bool {
    let ds = res.prune_path_decisions@;
    let sel = CleanupSelection {
        prune: true,
        max_age: match config.expire_after_days { Some(d) => Some((d * SECONDS_PER_DAY) as u64), None => None },
    };
    &&& decisions_for(ds, es, probe)
    &&& res.considered_reservations@ == es
    &&& res.preserved_reservations@ == preserved_entries(es, ds, sel, now)
    &&& res.removed_reservations@ == removed_reservations(es, ds, sel, now)
    &&& res.pruned_reservations@ == removed_for(es, ds, sel, now, CleanupReason::Prune)
    &&& res.expired_reservations@ == removed_for(es, ds, sel, now, CleanupReason::Expire)
    &&& res.considered_count == es.len()
    &&& res.preserved_count == res.preserved_reservations@.len()
    &&& res.pruned_count == res.pruned_reservations@.len()
    &&& res.expired_count == res.expired_reservations@.len()
    &&& res.total_removed == res.removed_reservations@.len()
    &&& after == if dry_run { es } else { preserved_entries(es, ds, sel, now) }
}

/// The reservations of a list of removals.
fn reservations_of(removed: Vec<PlannedRemoval>) -> (r: Vec<Reservation>)
    ensures
        r@ == removal_views(removed@).map_values(|x: (Reservation, CleanupReason)| x.0),
{
    let mut out: Vec<Reservation> = Vec::new();
    let mut i: usize = 0;
    while i < removed.len()
        invariant
            i <= removed@.len(),
            out@.len() == i,
            forall|j: int| 0 <= j < i ==> #[trigger] out@[j] == removed@[j].reservation,
        decreases removed@.len() - i,
    {
        out.push(removed[i].reservation.clone());
        i = i + 1;
    }
    assert(out@ =~= removal_views(removed@).map_values(|x: (Reservation, CleanupReason)| x.0));
    out
}

/// The reservations of a list of removals with the given reason.
fn reservations_for(removed: &Vec<PlannedRemoval>, why: CleanupReason, es: Ghost<Seq<Reservation>>,
    ds: Ghost<Seq<PrunePathDecision>>, sel: CleanupSelection, now: u64) -> (r: Vec<Reservation>)
    requires
        removal_views(removed@) == removed_entries(es@, ds@, sel, now),
    ensures
        r@ == removed_for(es@, ds@, sel, now, why),
{
    let ghost rv = removal_views(removed@);
    proof { lemma_removed_for(es@, ds@, sel, now, why); }
    let mut out: Vec<Reservation> = Vec::new();
    let mut i: usize = 0;
    while i < removed.len()
        invariant
            i <= removed@.len(),
            rv == removal_views(removed@),
            out@ == select_reason(rv.take(i as int), why),
        decreases removed@.len() - i,
    {
        proof {
            assert(rv.take(i + 1).drop_last() =~= rv.take(i as int));
        }
        if removed[i].reason == why {
            out.push(removed[i].reservation.clone());
        }
        i = i + 1;
    }
    assert(rv.take(removed@.len() as int) =~= rv);
    out
}

/// The reservations among removals that have the given reason.
pub open spec fn select_reason(rv: Seq<(Reservation, CleanupReason)>, why: CleanupReason) -> Seq<Reservation>
    decreases rv.len(),
{
    if rv.len() == 0 {
        Seq::empty()
    } else {
        let rest = select_reason(rv.drop_last(), why);
        if rv.last().1 == why { rest.push(rv.last().0) } else { rest }
    }
}

/// Selecting a reason among the removals gives the removals for that reason.
proof fn lemma_removed_for(es: Seq<Reservation>, ds: Seq<PrunePathDecision>, sel: CleanupSelection, now: u64, why: CleanupReason)
    ensures
        select_reason(removed_entries(es, ds, sel, now), why) == removed_for(es, ds, sel, now, why),
    decreases es.len(),
{
    if es.len() > 0 {
        lemma_removed_for(es.drop_last(), ds, sel, now, why);
        let rest = removed_entries(es.drop_last(), ds, sel, now);
        match cleanup_reason(es.last(), ds, sel, now) {
            Some(reason) => {
                assert(rest.push((es.last(), reason)).drop_last() =~= rest);
            },
            None => {},
        }
    }
}

/// Cleanup operations for removing stale reservations.
pub struct CleanupOperations;

impl CleanupOperations {
    /// Removes the reservations whose path is missing or not a directory.
    ///
    /// Each distinct path is passed to `probe` once. Failures that do not
    /// prove absence keep the reservations and are reported in
    /// `path_decisions`. A dry run reports the same selection and changes nothing.
    pub fn prune<F: Fn(&String) -> Result<ProbedPath, ProbeError>>(db: &mut Database, dry_run: bool, probe: F)
        -> (r: Result<PruneResult, Error>)
        requires
            forall|s: &String| #[trigger] call_requires(probe, (s,)),
        ensures
            r matches Ok(res) && ({
                let es = old(db).spec_entries();
                let ds = res.path_decisions@;
                let sel = CleanupSelection { prune: true, max_age: None };
                &&& decisions_for(ds, es, probe)
                &&& res.considered_reservations@ == es
                &&& res.preserved_reservations@ == preserved_entries(es, ds, sel, 0)
                &&& res.removed_reservations@ == removed_reservations(es, ds, sel, 0)
                &&& res.considered_count == es.len()
                &&& res.preserved_count == res.preserved_reservations@.len()
                &&& res.removed_count == res.removed_reservations@.len()
                &&& final(db).spec_entries() == if dry_run { es } else { preserved_entries(es, ds, sel, 0) }
            }),
    {
        let sel = CleanupSelection { prune: true, max_age: None };
        let execution = execute_cleanup(db, sel, dry_run, probe, || {}, 0);
        let considered_count = execution.considered_reservations.len();
        let preserved_count = execution.preserved_reservations.len();
        let removed_reservations = reservations_of(execution.removed);
        Ok(PruneResult {
            considered_count,
            preserved_count,
            removed_count: removed_reservations.len(),
            considered_reservations: execution.considered_reservations,
            preserved_reservations: execution.preserved_reservations,
            removed_reservations,
            path_decisions: execution.path_decisions,
        })
    }

    /// Removes the reservations not used within the configured number of days,
    /// judged at time `now` (seconds since the Unix epoch). Without a
    /// configured age nothing is evaluated or removed.
    pub fn expire_at(db: &mut Database, config: &CleanupConfig, dry_run: bool, now: u64) -> (r: Result<ExpireResult, Error>)
        ensures
            r matches Ok(res) && expire_outcome(old(db).spec_entries(), final(db).spec_entries(), *config, dry_run, now, res),
    {
        Self::expire_with_candidate_barrier_at(db, config, dry_run, || {}, now)
    }

    /// Like `expire_at`, calling `barrier` once the selection is made and
    /// before anything is removed.
    pub fn expire_with_candidate_barrier_at<B: FnOnce()>(
        db: &mut Database,
        config: &CleanupConfig,
        dry_run: bool,
        barrier: B,
        now: u64,
    ) -> (r: Result<ExpireResult, Error>)
        requires
            call_requires(barrier, ()),
        ensures
            r matches Ok(res) && expire_outcome(old(db).spec_entries(), final(db).spec_entries(), *config, dry_run, now, res),
    {
        let days = match config.expire_after_days {
            Some(d) => d,
            None => {
                return Ok(ExpireResult {
                    considered_count: 0,
                    preserved_count: 0,
                    removed_count: 0,
                    considered_reservations: Vec::new(),
                    preserved_reservations: Vec::new(),
                    removed_reservations: Vec::new(),
                });
            },
        };
        let max_age: u64 = days as u64 * SECONDS_PER_DAY;
        let sel = CleanupSelection { prune: false, max_age: Some(max_age) };
        let never = |path: &String| -> (o: Result<ProbedPath, ProbeError>) { Ok(ProbedPath::Directory) };
        let execution = execute_cleanup(db, sel, dry_run, never, barrier, now);
        assert(execution.path_decisions@ =~= Seq::<PrunePathDecision>::empty());
        let considered_count = execution.considered_reservations.len();
        let preserved_count = execution.preserved_reservations.len();
        let removed_reservations = reservations_of(execution.removed);
        Ok(ExpireResult {
            considered_count,
            preserved_count,
            removed_count: removed_reservations.len(),
            considered_reservations: execution.considered_reservations,
            preserved_reservations: execution.preserved_reservations,
            removed_reservations,
        })
    }

    /// Removes the reservations not used within the configured number of
    /// days, judged at the current time.
    pub fn expire(db: &mut Database, config: &CleanupConfig, dry_run: bool) -> (r: Result<ExpireResult, Error>)
        ensures
            r matches Ok(res) && exists|now: u64|
                #[trigger] expire_outcome(old(db).spec_entries(), final(db).spec_entries(), *config, dry_run, now, res),
    {
        Self::expire_with_candidate_barrier(db, config, dry_run, || {})
    }

    /// Like `expire`, calling `barrier` once the selection is made and
    /// before anything is removed.
    pub fn expire_with_candidate_barrier<B: FnOnce()>(db: &mut Database, config: &CleanupConfig, dry_run: bool, barrier: B)
        -> (r: Result<ExpireResult, Error>)
        requires
            call_requires(barrier, ()),
        ensures
            r matches Ok(res) && exists|now: u64|
                #[trigger] expire_outcome(old(db).spec_entries(), final(db).spec_entries(), *config, dry_run, now, res),
    {
        let now = crate::reservation::unix_time_now();
        Self::expire_with_candidate_barrier_at(db, config, dry_run, barrier, now)
    }

    /// Prunes and expires in one pass at time `now`: each reservation is
    /// removed once, as pruned when its path is prunable, otherwise as
    /// expired when it is older than the configured number of days.
    pub fn autoclean_at<F: Fn(&String) -> Result<ProbedPath, ProbeError>>(
        db: &mut Database,
        config: &CleanupConfig,
        dry_run: bool,
        probe: F,
        now: u64,
    ) -> (r: Result<AutocleanResult, Error>)
        requires
            forall|s: &String| #[trigger] call_requires(probe, (s,)),
        ensures
            r matches Ok(res) && autoclean_outcome(old(db).spec_entries(), final(db).spec_entries(), *config, dry_run, probe, now, res),
    {
        let max_age = match config.expire_after_days {
            Some(days) => Some(days as u64 * SECONDS_PER_DAY),
            None => None,
        };
        let sel = CleanupSelection { prune: true, max_age };
        let ghost es = db.spec_entries();
        let execution = execute_cleanup(db, sel, dry_run, probe, || {}, now);
        let ghost ds = execution.path_decisions@;
        let pruned = reservations_for(&execution.removed, CleanupReason::Prune, Ghost(es), Ghost(ds), sel, now);
        let expired = reservations_for(&execution.removed, CleanupReason::Expire, Ghost(es), Ghost(ds), sel, now);
        let considered_count = execution.considered_reservations.len();
        let preserved_count = execution.preserved_reservations.len();
        let removed_reservations = reservations_of(execution.removed);
        Ok(AutocleanResult {
            considered_count,
            preserved_count,
            pruned_count: pruned.len(),
            expired_count: expired.len(),
            total_removed: removed_reservations.len(),
            considered_reservations: execution.considered_reservations,
            preserved_reservations: execution.preserved_reservations,
            removed_reservations,
            pruned_reservations: pruned,
            expired_reservations: expired,
            prune_path_decisions: execution.path_decisions,
        })
    }

    /// Prunes and expires in one pass at the current time (see `autoclean_at`).
    pub fn autoclean<F: Fn(&String) -> Result<ProbedPath, ProbeError>>(
        db: &mut Database,
        config: &CleanupConfig,
        dry_run: bool,
        probe: F,
    ) -> (r: Result<AutocleanResult, Error>)
        requires
            forall|s: &String| #[trigger] call_requires(probe, (s,)),
        ensures
            r matches Ok(res) && exists|now: u64|
                #[trigger] autoclean_outcome(old(db).spec_entries(), final(db).spec_entries(), *config, dry_run, probe, now, res),
    {
        let now = crate::reservation::unix_time_now();
        Self::autoclean_at(db, config, dry_run, probe, now)
    }
}

} // verus!
