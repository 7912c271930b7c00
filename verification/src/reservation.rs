//! Reservations: a port held for a directory path and an optional tag.

use vstd::prelude::*;
use crate::error::Error;
use crate::port::Port;
use crate::text::owned;

verus! {

/// The characters of an optional string.
pub open spec fn opt_view(o: Option<String>) -> Option<Seq<char>> {
    match o {
        Some(s) => Some(s@),
        None => None,
    }
}

/// A copy of an optional string.
pub fn clone_opt_string(o: &Option<String>) -> (r: Option<String>)
    ensures
        r == *o,
{
    match o {
        Some(s) => Some(s.clone()),
        None => None,
    }
}

/// Whether two optional strings hold the same text.
pub fn opt_string_eq(a: &Option<String>, b: &Option<String>) -> (r: bool)
    ensures
        r == (opt_view(*a) == opt_view(*b)),
{
    match (a, b) {
        (Some(x), Some(y)) => *x == *y,
        (None, None) => true,
        _ => false,
    }
}

/// The given time, or `now` when none is given.
pub open spec fn or_now(t: Option<u64>, now: u64) -> u64 {
    match t {
        Some(x) => x,
        None => now,
    }
}

/// Identifies a reservation: a directory path plus an optional tag.
#[derive(Debug)]
pub struct ReservationKey {
    /// The directory the reservation belongs to.
    pub path: String,
    /// Distinguishes several reservations for one path.
    pub tag: Option<String>,
}

impl View for ReservationKey {
    type V = (Seq<char>, Option<Seq<char>>);

    open spec fn view(&self) -> (Seq<char>, Option<Seq<char>>) {
        (self.path@, opt_view(self.tag))
    }
}

impl Clone for ReservationKey {
    fn clone(&self) -> (r: Self)
        ensures
            r == *self,
    {
        ReservationKey { path: self.path.clone(), tag: clone_opt_string(&self.tag) }
    }
}

impl ReservationKey {
    /// Creates a key; a tag, when given, must not be empty.
    pub fn new(path: String, tag: Option<String>) -> (r: Result<Self, Error>)
        ensures
            r is Err <==> (tag matches Some(t) && t@.len() == 0),
            r matches Ok(k) ==> k.path == path && k.tag == tag,
            r matches Err(e) ==> e is Validation,
    {
        if let Some(t) = &tag {
            if t.as_str().is_empty() {
                return Err(Error::Validation {
                    field: owned("tag"),
                    message: owned("Tag cannot be empty"),
                });
            }
        }
        Ok(ReservationKey { path, tag })
    }

    /// Whether two keys name the same reservation.
    pub fn same_key(&self, other: &ReservationKey) -> (r: bool)
        ensures
            r == (self@ == other@),
    {
        self.path == other.path && opt_string_eq(&self.tag, &other.tag)
    }

    /// The key rendered as `path` or `path:tag`.
    pub open spec fn spec_display(self) -> Seq<char> {
        match self.tag {
            Some(t) => self.path@ + ":"@ + t@,
            None => self.path@,
        }
    }

    /// Renders the key as `path` or `path:tag`.
    pub fn to_display_string(&self) -> (s: String)
        ensures
            s@ == self.spec_display(),
    {
        let mut s = self.path.clone();
        if let Some(t) = &self.tag {
            s.push_str(":");
            s.push_str(t.as_str());
        }
        s
    }
}

/// A port reserved for a key, with its sticky metadata and timestamps
/// (seconds since the Unix epoch).
#[derive(Debug)]
pub struct Reservation {
    key: ReservationKey,
    port: Port,
    project: Option<String>,
    task: Option<String>,
    created_at: u64,
    last_used_at: u64,
}

impl Clone for Reservation {
    fn clone(&self) -> (r: Self)
        ensures
            r == *self,
    {
        Reservation {
            key: self.key.clone(),
            port: self.port,
            project: clone_opt_string(&self.project),
            task: clone_opt_string(&self.task),
            created_at: self.created_at,
            last_used_at: self.last_used_at,
        }
    }
}

/// The current time in whole seconds since the Unix epoch, read with
/// `std::time::SystemTime::now`; a clock set before the epoch reads as 0.
/// Nothing is promised of the value: it depends on the machine's clock.
#[verifier::external_body]
pub(crate) fn unix_time_now() -> u64 {
    std::time::SystemTime::now()
        .duration_since(std::time::UNIX_EPOCH)
        .map(|d| d.as_secs())
        .unwrap_or(0)
}

/// Everything a reservation records, as plain values.
pub struct ReservationView {
    pub key: (Seq<char>, Option<Seq<char>>),
    pub port: u16,
    pub project: Option<Seq<char>>,
    pub task: Option<Seq<char>>,
    pub created_at: u64,
    pub last_used_at: u64,
}

impl View for Reservation {
    type V = ReservationView;

    open spec fn view(&self) -> ReservationView {
        ReservationView {
            key: self.spec_key()@,
            port: self.spec_port()@,
            project: opt_view(self.spec_project()),
            task: opt_view(self.spec_task()),
            created_at: self.spec_created_at(),
            last_used_at: self.spec_last_used_at(),
        }
    }
}

impl Reservation {
    /// The reservation's key.
    pub closed spec fn spec_key(self) -> ReservationKey { self.key }
    /// The reserved port.
    pub closed spec fn spec_port(self) -> Port { self.port }
    /// The project identifier.
    pub closed spec fn spec_project(self) -> Option<String> { self.project }
    /// The task identifier.
    pub closed spec fn spec_task(self) -> Option<String> { self.task }
    /// When the reservation was created.
    pub closed spec fn spec_created_at(self) -> u64 { self.created_at }
    /// When the reservation was last used.
    pub closed spec fn spec_last_used_at(self) -> u64 { self.last_used_at }

    /// The reservation with exactly these fields.
    pub closed spec fn spec_make(
        key: ReservationKey,
        port: Port,
        project: Option<String>,
        task: Option<String>,
        created_at: u64,
        last_used_at: u64,
    ) -> Reservation {
        Reservation { key, port, project, task, created_at, last_used_at }
    }

    /// A reservation made from fields records those fields.
    pub proof fn lemma_make(
        key: ReservationKey,
        port: Port,
        project: Option<String>,
        task: Option<String>,
        created_at: u64,
        last_used_at: u64,
    )
        ensures
            ({
                let r = Reservation::spec_make(key, port, project, task, created_at, last_used_at);
                &&& r.spec_key() == key
                &&& r.spec_port() == port
                &&& r.spec_project() == project
                &&& r.spec_task() == task
                &&& r.spec_created_at() == created_at
                &&& r.spec_last_used_at() == last_used_at
            }),
    {
    }

    /// Refreshing a reservation changes only its last-used time.
    pub proof fn lemma_touched(self, now: u64)
        ensures
            self.touched_spec(now).spec_key() == self.spec_key(),
            self.touched_spec(now).spec_port() == self.spec_port(),
            self.touched_spec(now).spec_project() == self.spec_project(),
            self.touched_spec(now).spec_task() == self.spec_task(),
            self.touched_spec(now).spec_created_at() == self.spec_created_at(),
            self.touched_spec(now).spec_last_used_at() == now,
    {
    }

    /// Starts building a reservation of `port` for `key`.
    pub fn builder(key: ReservationKey, port: Port) -> (b: ReservationBuilder)
        ensures
            b.key == key,
            b.port == port,
            b.project is None,
            b.task is None,
            b.created_at is None,
            b.last_used_at is None,
    {
        ReservationBuilder { key, port, project: None, task: None, created_at: None, last_used_at: None }
    }

    /// The reservation's key.
    pub fn key(&self) -> (r: &ReservationKey)
        ensures *r == self.spec_key(),
    {
        &self.key
    }

    /// The reserved port.
    pub fn port(&self) -> (r: Port)
        ensures r == self.spec_port(),
    {
        self.port
    }

    /// The project identifier, if any.
    pub fn project(&self) -> (r: Option<&str>)
        ensures
            match self.spec_project() {
                Some(p) => r matches Some(s) && s@ == p@,
                None => r is None,
            },
    {
        match &self.project {
            Some(p) => Some(p.as_str()),
            None => None,
        }
    }

    /// The task identifier, if any.
    pub fn task(&self) -> (r: Option<&str>)
        ensures
            match self.spec_task() {
                Some(t) => r matches Some(s) && s@ == t@,
                None => r is None,
            },
    {
        match &self.task {
            Some(t) => Some(t.as_str()),
            None => None,
        }
    }

    /// When the reservation was created.
    pub fn created_at(&self) -> (r: u64)
        ensures r == self.spec_created_at(),
    {
        self.created_at
    }

    /// When the reservation was last used.
    pub fn last_used_at(&self) -> (r: u64)
        ensures r == self.spec_last_used_at(),
    {
        self.last_used_at
    }

    /// The project identifier, owned.
    pub fn project_owned(&self) -> (r: Option<String>)
        ensures r == self.spec_project(),
    {
        clone_opt_string(&self.project)
    }

    /// The task identifier, owned.
    pub fn task_owned(&self) -> (r: Option<String>)
        ensures r == self.spec_task(),
    {
        clone_opt_string(&self.task)
    }

    /// The same reservation with its last-used time set to `now`.
    pub closed spec fn touched_spec(self, now: u64) -> Reservation {
        Reservation { last_used_at: now, ..self }
    }

    /// The same reservation with a new last-used time.
    pub fn touched(&self, now: u64) -> (r: Reservation)
        ensures
            r == self.touched_spec(now),
            r@ == (ReservationView { last_used_at: now, ..self@ }),
            r.spec_key() == self.spec_key(),
            r.spec_port() == self.spec_port(),
    {
        let mut r = self.clone();
        r.last_used_at = now;
        r
    }

    /// Whether two reservations record exactly the same values.
    pub fn same_as(&self, other: &Reservation) -> (r: bool)
        ensures
            r == (self@ == other@),
    {
        self.key.same_key(&other.key)
            && self.port.value() == other.port.value()
            && opt_string_eq(&self.project, &other.project)
            && opt_string_eq(&self.task, &other.task)
            && self.created_at == other.created_at
            && self.last_used_at == other.last_used_at
    }
}

/// Collects the fields of a new reservation.
#[derive(Debug)]
pub struct ReservationBuilder {
    pub key: ReservationKey,
    pub port: Port,
    pub project: Option<String>,
    pub task: Option<String>,
    pub created_at: Option<u64>,
    pub last_used_at: Option<u64>,
}

impl ReservationBuilder {
    /// Sets the project identifier.
    pub fn project(self, project: Option<String>) -> (b: Self)
        ensures b == (ReservationBuilder { project, ..self }),
    {
        ReservationBuilder { project, ..self }
    }

    /// Sets the task identifier.
    pub fn task(self, task: Option<String>) -> (b: Self)
        ensures b == (ReservationBuilder { task, ..self }),
    {
        ReservationBuilder { task, ..self }
    }

    /// Sets the creation time.
    pub fn created_at(self, at: u64) -> (b: Self)
        ensures b == (ReservationBuilder { created_at: Some(at), ..self }),
    {
        ReservationBuilder { created_at: Some(at), ..self }
    }

    /// Sets the last-used time.
    pub fn last_used_at(self, at: u64) -> (b: Self)
        ensures b == (ReservationBuilder { last_used_at: Some(at), ..self }),
    {
        ReservationBuilder { last_used_at: Some(at), ..self }
    }

    /// Builds the reservation with the given creation and last-used times;
    /// unset times take `now`.
    pub fn build_at(self, now: u64) -> (r: Reservation)
        ensures
            r.spec_key() == self.key,
            r.spec_port() == self.port,
            r.spec_project() == self.project,
            r.spec_task() == self.task,
            r.spec_created_at() == match self.created_at { Some(t) => t, None => now },
            r.spec_last_used_at() == match self.last_used_at { Some(t) => t, None => now },
            r == Reservation::spec_make(self.key, self.port, self.project, self.task,
                match self.created_at { Some(t) => t, None => now },
                match self.last_used_at { Some(t) => t, None => now }),
    {
        let created_at = match self.created_at { Some(t) => t, None => now };
        let last_used_at = match self.last_used_at { Some(t) => t, None => now };
        Reservation {
            key: self.key,
            port: self.port,
            project: self.project,
            task: self.task,
            created_at,
            last_used_at,
        }
    }

    /// Builds the reservation; unset times take the current time.
    pub fn build(self) -> (r: Result<Reservation, Error>)
        ensures
            r matches Ok(res) && res.spec_key() == self.key && res.spec_port() == self.port
                && res.spec_project() == self.project && res.spec_task() == self.task
                && (self.created_at matches Some(t) ==> res.spec_created_at() == t)
                && (self.last_used_at matches Some(t) ==> res.spec_last_used_at() == t),
            r matches Ok(res) && exists|now: u64| res == #[trigger] Reservation::spec_make(self.key, self.port,
                self.project, self.task, or_now(self.created_at, now), or_now(self.last_used_at, now)),
    {
        let now = unix_time_now();
        let r = self.build_at(now);
        assert(r == Reservation::spec_make(self.key, self.port, self.project, self.task,
            or_now(self.created_at, now), or_now(self.last_used_at, now)));
        Ok(r)
    }
}

} // verus!
