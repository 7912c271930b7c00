//! The error type shared by every fallible operation of the library.

use vstd::prelude::*;
use crate::port::PortRange;
use crate::text::{decimal, owned};

verus! {

/// Errors reported by path handling, planning, execution and formatting.
#[derive(Debug, Clone)]
pub enum Error {
    /// A path could not be used; `reason` says why.
    InvalidPath { path: String, reason: String },
    /// A path does not exist.
    PathNotFound { path: String },
    /// Access to a path was denied.
    PermissionDenied { path: String },
    /// Any other input/output failure, with its message.
    Io { message: String },
    /// A symlink chain loops back on itself.
    SymlinkLoop { path: String },
    /// A value failed validation.
    Validation { field: String, message: String },
    /// A sticky field (project or task) would change without permission.
    StickyFieldChange { field: String, details: String },
    /// Every port of the range is unavailable.
    PortExhausted { range: PortRange, tried_cleanup: bool },
    /// The reservation path is unrelated to the working directory.
    PathRelationshipViolation { path: String, working_dir: String },
    /// A requested resource does not exist.
    NotFound { resource: String },
    /// Reservations already exist where new ones would go.
    ReservationConflict { details: String },
}

impl Error {
    /// Whether this error reports a missing path.
    pub fn is_not_found(&self) -> (r: bool)
        ensures
            r == (self is PathNotFound),
    {
        match self {
            Error::PathNotFound { .. } => true,
            _ => false,
        }
    }

    /// The one-line description of the error.
    pub open spec fn spec_text(&self) -> Seq<char> {
        match self {
            Error::InvalidPath { path, reason } => "Invalid path "@ + path@ + ": "@ + reason@,
            Error::PathNotFound { path } => "Path not found: "@ + path@,
            Error::PermissionDenied { path } => "Permission denied: "@ + path@,
            Error::Io { message } => "I/O error: "@ + message@,
            Error::SymlinkLoop { path } => "Symlink loop detected at "@ + path@,
            Error::Validation { field, message } => "Validation error in "@ + field@ + ": "@ + message@,
            Error::StickyFieldChange { field, details } => "Cannot change sticky field "@ + field@ + ": "@ + details@,
            Error::PortExhausted { range, tried_cleanup } => "No available ports in range "@
                + decimal(range.spec_min()@ as nat) + "-"@ + decimal(range.spec_max()@ as nat)
                + if *tried_cleanup { " (after cleanup)"@ } else { Seq::empty() },
            Error::PathRelationshipViolation { path, working_dir } => "Path "@ + path@
                + " is unrelated to the current directory "@ + working_dir@
                + "; use --allow-unrelated-path or --force"@,
            Error::NotFound { resource } => "Not found: "@ + resource@,
            Error::ReservationConflict { details } => "Reservation conflict: "@ + details@,
        }
    }

    /// A one-line description of the error.
    pub fn to_display_string(&self) -> (s: String)
        ensures
            s@ == self.spec_text(),
    {
        match self {
            Error::InvalidPath { path, reason } => {
                let mut s = owned("Invalid path ");
                s.push_str(path.as_str());
                s.push_str(": ");
                s.push_str(reason.as_str());
                s
            },
            Error::PathNotFound { path } => {
                let mut s = owned("Path not found: ");
                s.push_str(path.as_str());
                s
            },
            Error::PermissionDenied { path } => {
                let mut s = owned("Permission denied: ");
                s.push_str(path.as_str());
                s
            },
            Error::Io { message } => {
                let mut s = owned("I/O error: ");
                s.push_str(message.as_str());
                s
            },
            Error::SymlinkLoop { path } => {
                let mut s = owned("Symlink loop detected at ");
                s.push_str(path.as_str());
                s
            },
            Error::Validation { field, message } => {
                let mut s = owned("Validation error in ");
                s.push_str(field.as_str());
                s.push_str(": ");
                s.push_str(message.as_str());
                s
            },
            Error::StickyFieldChange { field, details } => {
                let mut s = owned("Cannot change sticky field ");
                s.push_str(field.as_str());
                s.push_str(": ");
                s.push_str(details.as_str());
                s
            },
            Error::PortExhausted { range, tried_cleanup } => {
                let mut s = owned("No available ports in range ");
                let r = range.to_display_string();
                s.push_str(r.as_str());
                if *tried_cleanup {
                    s.push_str(" (after cleanup)");
                }
                s
            },
            Error::PathRelationshipViolation { path, working_dir } => {
                let mut s = owned("Path ");
                s.push_str(path.as_str());
                s.push_str(" is unrelated to the current directory ");
                s.push_str(working_dir.as_str());
                s.push_str("; use --allow-unrelated-path or --force");
                s
            },
            Error::NotFound { resource } => {
                let mut s = owned("Not found: ");
                s.push_str(resource.as_str());
                s
            },
            Error::ReservationConflict { details } => {
                let mut s = owned("Reservation conflict: ");
                s.push_str(details.as_str());
                s
            },
        }
    }
}

} // verus!
