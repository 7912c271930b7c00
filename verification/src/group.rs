//! Requests for reserving a group of related ports.

use vstd::prelude::*;
use crate::port::Port;
use crate::reservation::clone_opt_string;
use crate::allocator::{lemma_available_iff_not_blocked, port_blocked, Allocator};
use crate::database::{key_index, lookup, port_reserved, upsert, Database, lemma_key_index};
use crate::error::Error;
use crate::reservation::{opt_view, Reservation, ReservationKey};
use crate::tag_map::TagMap;
use crate::text::owned;
use crate::operations::reserve::{can_change_field, spec_can_change_field};
use crate::config::OccupancyCheckConfig;
use crate::reservation::ReservationView;
use crate::database::{lemma_lookup_upsert, entries_unique};
use crate::database::{port_taken_by_other, lemma_key_index_unique};

verus! {

/// One service of a group request.
#[derive(Debug)]
pub struct ServiceAllocationRequest {
    /// The service tag (the reservation key's tag).
    pub tag: String,
    /// Offset from the group's base port.
    pub offset: Option<u16>,
    /// A specific port to prefer.
    pub preferred: Option<Port>,
}

impl Clone for ServiceAllocationRequest {
    fn clone(&self) -> (r: Self)
        ensures r == *self,
    {
        ServiceAllocationRequest { tag: self.tag.clone(), offset: self.offset, preferred: self.preferred }
    }
}

/// A request to reserve ports for several services under one base path.
#[derive(Debug)]
pub struct GroupAllocationRequest {
    /// The directory the group's reservations belong to.
    pub base_path: String,
    /// Project identifier recorded on each reservation.
    pub project: Option<String>,
    /// Task identifier recorded on each reservation.
    pub task: Option<String>,
    /// The services, by tag.
    pub services: Vec<ServiceAllocationRequest>,
}

/// A copy of a list of service requests.
pub fn clone_service_requests(v: &Vec<ServiceAllocationRequest>) -> (r: Vec<ServiceAllocationRequest>)
    ensures r@ == v@,
{
    let mut out: Vec<ServiceAllocationRequest> = Vec::new();
    let mut i: usize = 0;
    while i < v.len()
        invariant
            i <= v@.len(),
            out@ == v@.take(i as int),
        decreases v@.len() - i,
    {
        out.push(v[i].clone());
        assert(out@ =~= v@.take(i + 1));
        i = i + 1;
    }
    assert(v@.take(v@.len() as int) =~= v@);
    out
}

impl Clone for GroupAllocationRequest {
    fn clone(&self) -> (r: Self)
        ensures
            r.base_path == self.base_path,
            r.project == self.project,
            r.task == self.task,
            r.services@ == self.services@,
    {
        GroupAllocationRequest {
            base_path: self.base_path.clone(),
            project: clone_opt_string(&self.project),
            task: clone_opt_string(&self.task),
            services: clone_service_requests(&self.services),
        }
    }
}

/// Which sticky-field changes a group reservation may make.
#[derive(Debug, Clone, Copy, PartialEq, Eq, Structural)]
pub struct GroupReconciliationPolicy {
    /// Allow changing the project field.
    pub allow_project_change: bool,
    /// Allow changing the task field.
    pub allow_task_change: bool,
    /// Authorize every change.
    pub force: bool,
}

/// The key of a group service's reservation: the base path and the service tag.
pub open spec fn service_key(base: Seq<char>, s: ServiceAllocationRequest) -> (Seq<char>, Option<Seq<char>>) {
    (base, Some(s.tag@))
}

/// A service's offset from the base port (0 when unset).
pub open spec fn offset_of(s: ServiceAllocationRequest) -> int {
    match s.offset {
        Some(o) => o as int,
        None => 0,
    }
}

/// How ports are judged free during one group allocation.
pub struct Availability {
    pub entries: Seq<crate::reservation::Reservation>,
    pub exclusions: Seq<crate::config::PortExclusion>,
    pub occupied: Seq<u16>,
    pub check_exclusions: bool,
    pub check_occupancy: bool,
}

/// Whether `p` is free under `a`.
pub open spec fn free(a: Availability, p: int) -> bool {
    1 <= p <= 65535 && crate::allocator::port_available(a.entries, a.exclusions, a.occupied,
        a.check_exclusions, a.check_occupancy, p as u16)
}

/// The port a new service gets for base `b`: its preferred port when free,
/// otherwise `b` plus its offset.
pub open spec fn candidate(a: Availability, s: ServiceAllocationRequest, b: int) -> int {
    match s.preferred {
        Some(p) => if free(a, p@ as int) { p@ as int } else { b + offset_of(s) },
        None => b + offset_of(s),
    }
}

/// Whether a service has no reservation yet.
pub open spec fn is_new(a: Availability, base: Seq<char>, s: ServiceAllocationRequest) -> bool {
    crate::database::lookup(a.entries, service_key(base, s)) is None
}

/// Whether base `b` gives every new service a free port, offset ports stay
/// within `hi`, and no two new services share a port.
pub open spec fn base_fits(a: Availability, base: Seq<char>, services: Seq<ServiceAllocationRequest>, b: int, hi: int) -> bool {
    &&& forall|i: int| 0 <= i < services.len() && is_new(a, base, services[i]) ==> free(a, #[trigger] candidate(a, services[i], b))
    &&& forall|i: int| 0 <= i < services.len() && is_new(a, base, services[i]) ==> candidate(a, #[trigger] services[i], b) <= hi
        || (services[i].preferred matches Some(p) && free(a, p@ as int))
    &&& forall|i: int, j: int| 0 <= i < j < services.len() && is_new(a, base, services[i]) && is_new(a, base, services[j]) ==>
        candidate(a, #[trigger] services[i], b) != candidate(a, #[trigger] services[j], b)
}

/// The lowest base in `lo..=hi` that fits, if any.
pub open spec fn first_fitting_base(a: Availability, base: Seq<char>, services: Seq<ServiceAllocationRequest>, lo: int, hi: int) -> Option<int>
    decreases hi - lo + 1,
{
    if hi < lo {
        None
    } else if base_fits(a, base, services, lo, hi) {
        Some(lo)
    } else {
        first_fitting_base(a, base, services, lo + 1, hi)
    }
}

/// Whether the existing reservation of a service may keep serving the group
/// under the request's project and task.
pub open spec fn sticky_ok(existing: Reservation, request: GroupAllocationRequest, policy: GroupReconciliationPolicy) -> bool {
    &&& spec_can_change_field(opt_view(request.project), opt_view(existing.spec_project()), policy.force, policy.allow_project_change)
    &&& spec_can_change_field(opt_view(request.task), opt_view(existing.spec_task()), policy.force, policy.allow_task_change)
}

/// Whether every existing reservation of the group may be kept.
pub open spec fn all_sticky_ok(es: Seq<Reservation>, request: GroupAllocationRequest, policy: GroupReconciliationPolicy) -> bool {
    forall|i: int| 0 <= i < request.services@.len() ==>
        (lookup(es, service_key(request.base_path@, #[trigger] request.services@[i])) matches Some(e)
            ==> sticky_ok(e, request, policy))
}

/// Whether the service tags of a request are non-empty and pairwise distinct.
pub open spec fn tags_valid(services: Seq<ServiceAllocationRequest>) -> bool {
    &&& forall|i: int| 0 <= i < services.len() ==> (#[trigger] services[i]).tag@.len() > 0
    &&& forall|i: int, j: int| 0 <= i < j < services.len() ==> (#[trigger] services[i]).tag@ != (#[trigger] services[j]).tag@
}

/// The tags of service requests.
pub open spec fn request_tags(services: Seq<ServiceAllocationRequest>) -> Seq<Seq<char>> {
    services.map_values(|s: ServiceAllocationRequest| s.tag@)
}

/// Whether tags are non-empty and pairwise distinct.
pub open spec fn tag_list_valid(ts: Seq<Seq<char>>) -> bool {
    &&& forall|i: int| 0 <= i < ts.len() ==> (#[trigger] ts[i]).len() > 0
    &&& forall|i: int, j: int| 0 <= i < j < ts.len() ==> #[trigger] ts[i] != #[trigger] ts[j]
}

/// Whether the first tag that spoils `tag_list_valid`, in order, does so by
/// being empty (rather than by repeating an earlier tag).
pub open spec fn first_tag_failure_empty(ts: Seq<Seq<char>>) -> bool
    decreases ts.len(),
{
    if ts.len() == 0 {
        false
    } else if !tag_list_valid(ts.drop_last()) {
        first_tag_failure_empty(ts.drop_last())
    } else {
        ts.last().len() == 0
    }
}

/// The refusal of a group's service tags `ts`: no service at all, then the
/// first empty or repeated tag.
pub open spec fn services_error(ts: Seq<Seq<char>>, e: Error) -> bool {
    e matches Error::Validation { field, message } && field@ == "services"@ && message@ == if ts.len() == 0 {
        "Group must contain at least one service"@
    } else if first_tag_failure_empty(ts) {
        "Service tags must not be empty"@
    } else {
        "Service tags must be unique"@
    }
}

/// A prefix of valid tags is valid.
proof fn lemma_tag_list_valid_prefix(ts: Seq<Seq<char>>, k: int)
    requires
        0 <= k <= ts.len(),
        tag_list_valid(ts),
    ensures
        tag_list_valid(ts.take(k)),
{
    let t = ts.take(k);
    assert forall|i: int| 0 <= i < t.len() implies (#[trigger] t[i]).len() > 0 by {
        assert(t[i] == ts[i]);
    }
    assert forall|i: int, j: int| 0 <= i < j < t.len() implies #[trigger] t[i] != #[trigger] t[j] by {
        assert(t[i] == ts[i] && t[j] == ts[j]);
    }
}

/// The first failure of `ts` is that of any prefix that already fails.
proof fn lemma_first_tag_failure_prefix(ts: Seq<Seq<char>>, k: int)
    requires
        0 <= k <= ts.len(),
        !tag_list_valid(ts.take(k)),
    ensures
        first_tag_failure_empty(ts) == first_tag_failure_empty(ts.take(k)),
    decreases ts.len() - k,
{
    if k == ts.len() {
        assert(ts.take(k) =~= ts);
    } else {
        let d = ts.drop_last();
        assert(d.take(k) =~= ts.take(k));
        lemma_first_tag_failure_prefix(d, k);
        if tag_list_valid(d) {
            lemma_tag_list_valid_prefix(d, k);
        }
    }
}

impl GroupAllocationRequest {
    /// Validates the request: at least one service, and non-empty, distinct
    /// tags; the refusal names the first problem found.
    pub fn normalized(self) -> (r: Result<Self, Error>)
        ensures
            r is Ok <==> self.services@.len() > 0 && tags_valid(self.services@),
            r matches Ok(q) ==> q == self,
            r matches Err(e) ==> services_error(request_tags(self.services@), e),
    {
        let ghost ts = request_tags(self.services@);
        if self.services.len() == 0 {
            return Err(Error::Validation {
                field: owned("services"),
                message: owned("Group must contain at least one service"),
            });
        }
        let mut i: usize = 0;
        while i < self.services.len()
            invariant
                i <= self.services@.len(),
                ts == request_tags(self.services@),
                forall|a: int| 0 <= a < i ==> (#[trigger] self.services@[a]).tag@.len() > 0,
                forall|a: int, b: int| 0 <= a < b < i ==> (#[trigger] self.services@[a]).tag@ != (#[trigger] self.services@[b]).tag@,
            decreases self.services@.len() - i,
        {
            proof {
                let t = ts.take(i as int);
                assert forall|a: int| 0 <= a < t.len() implies (#[trigger] t[a]).len() > 0 by {
                    assert(t[a] == self.services@[a].tag@);
                }
                assert forall|a: int, b: int| 0 <= a < b < t.len() implies #[trigger] t[a] != #[trigger] t[b] by {
                    assert(t[a] == self.services@[a].tag@ && t[b] == self.services@[b].tag@);
                }
                assert(tag_list_valid(t));
                assert(ts.take(i + 1).drop_last() =~= t);
                assert(ts.take(i + 1).last() == self.services@[i as int].tag@);
            }
            if self.services[i].tag.as_str().is_empty() {
                proof {
                    assert(!tag_list_valid(ts.take(i + 1)));
                    lemma_first_tag_failure_prefix(ts, i + 1);
                }
                return Err(Error::Validation { field: owned("services"), message: owned("Service tags must not be empty") });
            }
            let mut j: usize = 0;
            while j < i
                invariant
                    j <= i < self.services@.len(),
                    ts == request_tags(self.services@),
                    self.services@[i as int].tag@.len() > 0,
                    tag_list_valid(ts.take(i as int)),
                    ts.take(i + 1).drop_last() == ts.take(i as int),
                    ts.take(i + 1).last() == self.services@[i as int].tag@,
                    forall|a: int| 0 <= a < j ==> self.services@[a].tag@ != self.services@[i as int].tag@,
                decreases i - j,
            {
                if self.services[j].tag == self.services[i].tag {
                    proof {
                        let t = ts.take(i + 1);
                        assert(t[j as int] == self.services@[j as int].tag@ && t[i as int] == self.services@[i as int].tag@);
                        assert(!tag_list_valid(t));
                        assert(!first_tag_failure_empty(t));
                        lemma_first_tag_failure_prefix(ts, i + 1);
                    }
                    return Err(Error::Validation { field: owned("services"), message: owned("Service tags must be unique") });
                }
                j = j + 1;
            }
            i = i + 1;
        }
        Ok(self)
    }
}

/// The availability rules of one group allocation against the entries `es`:
/// exclusions always apply, occupancy when enabled.
pub open spec fn group_availability(es: Seq<Reservation>, allocator: Allocator, occupancy_enabled: bool, occupied: Seq<u16>) -> Availability {
    Availability {
        entries: es,
        exclusions: allocator.spec_exclusions(),
        occupied,
        check_exclusions: true,
        check_occupancy: occupancy_enabled,
    }
}

/// The port service `s` ends with when the group sits at base `b`: the port it
/// already holds, or its candidate.
pub open spec fn chosen_port(a: Availability, base: Seq<char>, s: ServiceAllocationRequest, b: int) -> int {
    match lookup(a.entries, service_key(base, s)) {
        Some(e) => e@.port as int,
        None => candidate(a, s, b),
    }
}

/// The reservation service `s` has after the group is allocated at base `b`
/// at time `now`: an existing one keeps its port and creation time and takes
/// the request's project and task; a new one gets its candidate port.
pub open spec fn service_record(a: Availability, request: GroupAllocationRequest, s: ServiceAllocationRequest, b: int, now: u64) -> ReservationView {
    let key = service_key(request.base_path@, s);
    match lookup(a.entries, key) {
        Some(e) => ReservationView {
            key,
            port: e@.port,
            project: opt_view(request.project),
            task: opt_view(request.task),
            created_at: e@.created_at,
            last_used_at: now,
        },
        None => ReservationView {
            key,
            port: candidate(a, s, b) as u16,
            project: opt_view(request.project),
            task: opt_view(request.task),
            created_at: now,
            last_used_at: now,
        },
    }
}

/// The key record of a service's reservation.
pub open spec fn service_key_record(request: GroupAllocationRequest, s: ServiceAllocationRequest) -> ReservationKey {
    ReservationKey { path: request.base_path, tag: Some(s.tag) }
}

/// The reservation service `s` has after the group is allocated at base `b`
/// at time `now` (see `service_record` for its fields).
pub open spec fn service_reservation(a: Availability, request: GroupAllocationRequest, s: ServiceAllocationRequest, b: int, now: u64) -> Reservation {
    let key = service_key_record(request, s);
    match lookup(a.entries, service_key(request.base_path@, s)) {
        Some(e) => Reservation::spec_make(key, e.spec_port(), request.project, request.task, e.spec_created_at(), now),
        None => Reservation::spec_make(key, Port::port_of(candidate(a, s, b) as u16), request.project, request.task, now, now),
    }
}

/// The entries after the first `i` services of a group are stored, in order.
pub open spec fn group_applied(a: Availability, request: GroupAllocationRequest, b: int, now: u64, i: nat) -> Seq<Reservation>
    decreases i,
{
    if i == 0 {
        a.entries
    } else {
        upsert(group_applied(a, request, b, now, (i - 1) as nat),
            service_reservation(a, request, request.services@[i - 1], b, now))
    }
}

/// Whether an entry stored during a group allocation holds either a port it
/// held before (under the same key) or the candidate of a new service among
/// the first `i`.
spec fn origin_ok(a: Availability, base: Seq<char>, services: Seq<ServiceAllocationRequest>, b: int, i: int, x: Reservation) -> bool {
    ||| (lookup(a.entries, x@.key) matches Some(e) && e@.port == x@.port)
    ||| exists|j: int| 0 <= j < i && is_new(a, base, #[trigger] services[j])
            && x@.key == service_key(base, services[j]) && x@.port == candidate(a, services[j], b)
}

/// The ports assigned to a group, by service tag.
#[derive(Debug)]
pub struct GroupAllocationResult {
    /// Service tag to port, in the order of the request's services.
    pub allocations: TagMap<Port>,
}

/// The key of a service's reservation.
fn service_key_of(base: &String, s: &ServiceAllocationRequest) -> (k: ReservationKey)
    ensures
        k@ == service_key(base@, *s),
        k == (ReservationKey { path: *base, tag: Some(s.tag) }),
{
    ReservationKey { path: base.clone(), tag: Some(s.tag.clone()) }
}

/// Whether the service list is non-empty with non-empty, distinct tags.
fn services_valid(services: &Vec<ServiceAllocationRequest>) -> (r: bool)
    ensures
        r == (services@.len() > 0 && tags_valid(services@)),
{
    if services.len() == 0 {
        return false;
    }
    let mut i: usize = 0;
    while i < services.len()
        invariant
            i <= services@.len(),
            forall|a: int| 0 <= a < i ==> (#[trigger] services@[a]).tag@.len() > 0,
            forall|a: int, b: int| 0 <= a < b < i ==> (#[trigger] services@[a]).tag@ != (#[trigger] services@[b]).tag@,
        decreases services@.len() - i,
    {
        if services[i].tag.as_str().is_empty() {
            return false;
        }
        let mut j: usize = 0;
        while j < i
            invariant
                j <= i < services@.len(),
                forall|a: int| 0 <= a < j ==> services@[a].tag@ != services@[i as int].tag@,
            decreases i - j,
        {
            if services[j].tag == services[i].tag {
                return false;
            }
            j = j + 1;
        }
        i = i + 1;
    }
    true
}

/// A stored service reservation has the service's key and its record.
proof fn lemma_service_reservation(a: Availability, request: GroupAllocationRequest, s: ServiceAllocationRequest, b: int, now: u64)
    requires
        lookup(a.entries, service_key(request.base_path@, s)) is None ==> 1 <= candidate(a, s, b) <= 65535,
    ensures
        service_reservation(a, request, s, b, now)@ == service_record(a, request, s, b, now),
{
    let key = service_key_record(request, s);
    match lookup(a.entries, service_key(request.base_path@, s)) {
        Some(e) => {
            Reservation::lemma_make(key, e.spec_port(), request.project, request.task, e.spec_created_at(), now);
        },
        None => {
            let p = candidate(a, s, b) as u16;
            Reservation::lemma_make(key, Port::port_of(p), request.project, request.task, now, now);
            Port::lemma_port_of(p);
        },
    }
}

/// After the first `n` services are stored, each of them is found under its
/// key with the reservation stored for it.
proof fn lemma_group_applied_lookup(a: Availability, request: GroupAllocationRequest, b: int, now: u64, n: nat, i: int)
    requires
        tags_valid(request.services@),
        0 <= i < n <= request.services@.len(),
    ensures
        lookup(group_applied(a, request, b, now, n), service_key(request.base_path@, request.services@[i]))
            == Some(service_reservation(a, request, request.services@[i], b, now)),
    decreases n,
{
    let base = request.base_path@;
    let last = request.services@[n - 1];
    let stored = service_reservation(a, request, last, b, now);
    let key = service_key_record(request, last);
    match lookup(a.entries, service_key(base, last)) {
        Some(e) => Reservation::lemma_make(key, e.spec_port(), request.project, request.task, e.spec_created_at(), now),
        None => Reservation::lemma_make(key, Port::port_of(candidate(a, last, b) as u16), request.project, request.task, now, now),
    }
    assert(stored@.key == service_key(base, last));
    let ki = service_key(base, request.services@[i]);
    lemma_lookup_upsert(group_applied(a, request, b, now, (n - 1) as nat), stored, ki);
    if i < n - 1 {
        assert(request.services@[i].tag@ != request.services@[n - 1].tag@);
        assert(ki != stored@.key);
        lemma_group_applied_lookup(a, request, b, now, (n - 1) as nat, i);
    }
}

/// Compatible group requests are idempotent: once a request's group is
/// stored, allocating the same request again (against the stored entries, at
/// any base and any later time) gives each service the port it already has,
/// keeps its creation time, and only refreshes its last-used time.
pub proof fn lemma_group_reallocation_keeps_ports(
    a: Availability,
    a2: Availability,
    request: GroupAllocationRequest,
    b: int,
    b2: int,
    now: u64,
    later: u64,
    i: int,
)
    requires
        tags_valid(request.services@),
        0 <= i < request.services@.len(),
        lookup(a.entries, service_key(request.base_path@, request.services@[i])) is None
            ==> 1 <= candidate(a, request.services@[i], b) <= 65535,
        a2.entries == group_applied(a, request, b, now, request.services@.len()),
    ensures
        chosen_port(a2, request.base_path@, request.services@[i], b2)
            == chosen_port(a, request.base_path@, request.services@[i], b),
        service_record(a2, request, request.services@[i], b2, later)
            == (ReservationView { last_used_at: later, ..service_record(a, request, request.services@[i], b, now) }),
{
    let s = request.services@[i];
    lemma_group_applied_lookup(a, request, b, now, request.services@.len(), i);
    lemma_service_reservation(a, request, s, b, now);
}

/// What allocating the group `request` against the entries `es0` leaves
/// (`es1`) and gives (see `Allocator::allocate_group`).
pub open spec fn group_allocation_outcome(
    allocator: Allocator,
    es0: Seq<Reservation>,
    es1: Seq<Reservation>,
    request: GroupAllocationRequest,
    policy: GroupReconciliationPolicy,
    occupancy_enabled: bool,
    occupied: Seq<u16>,
    now: u64,
    r: Result<GroupAllocationResult, Error>,
) -> bool {
    let a = group_availability(es0, allocator, occupancy_enabled, occupied);
    let base = request.base_path@;
    let services = request.services@;
    let valid = services.len() > 0 && tags_valid(services);
    let sticky = all_sticky_ok(es0, request, policy);
    let fit = first_fitting_base(a, base, services,
        allocator.spec_range().spec_min()@ as int, allocator.spec_range().spec_max()@ as int);
    &&& r is Err ==> es1 == es0
    &&& !valid ==> (r matches Err(e) && e is Validation)
    &&& (valid && !sticky) ==> (r matches Err(e) && e is StickyFieldChange)
    &&& (valid && sticky && fit is None) ==> (r matches Err(e) && e matches Error::PortExhausted { range, tried_cleanup }
        && range == allocator.spec_range() && !tried_cleanup)
    &&& (valid && sticky && fit is Some) ==> (r matches Ok(res) && ({ let b = fit->0;
        es1 == group_applied(a, request, b, now, services.len())
        && res.allocations.spec_entries().len() == services.len()
        && (forall|i: int| 0 <= i < services.len() ==>
            (#[trigger] res.allocations.spec_entries()[i]).0 == services[i].tag@
            && res.allocations.spec_entries()[i].1@ == chosen_port(a, base, services[i], b))
        && (forall|i: int| 0 <= i < services.len() ==>
            (lookup(es1, #[trigger] service_key(base, services[i])) matches Some(x)
            && x@ == service_record(a, request, services[i], b, now)))
        && (forall|k: (Seq<char>, Option<Seq<char>>)|
            (forall|i: int| 0 <= i < services.len() ==> k != #[trigger] service_key(base, services[i]))
            ==> #[trigger] lookup(es1, k) == lookup(es0, k)) }))
}

/// A new service whose preferred port is free gets exactly that port: when
/// the group is allocated, the service's port in the result and in the
/// store is its preferred port, wherever the other services land. Free
/// means no reservation holds it, it lies in no excluded range, and the
/// operating system does not report it occupied (when occupancy counts).
pub proof fn lemma_free_preferred_port_is_pinned(
    allocator: Allocator,
    es0: Seq<Reservation>,
    es1: Seq<Reservation>,
    request: GroupAllocationRequest,
    policy: GroupReconciliationPolicy,
    occupancy_enabled: bool,
    occupied: Seq<u16>,
    now: u64,
    r: Result<GroupAllocationResult, Error>,
    i: int,
    p: Port,
)
    requires
        group_allocation_outcome(allocator, es0, es1, request, policy, occupancy_enabled, occupied, now, r),
        r is Ok,
        0 <= i < request.services@.len(),
        lookup(es0, service_key(request.base_path@, request.services@[i])) is None,
        request.services@[i].preferred == Some(p),
        1 <= p@,
        !port_blocked(es0, allocator.spec_exclusions(), occupied, true, occupancy_enabled, p@),
    ensures
        r matches Ok(res) && res.allocations.spec_entries()[i].1@ == p@,
        lookup(es1, service_key(request.base_path@, request.services@[i])) matches Some(x) && x@.port == p@,
{
    lemma_available_iff_not_blocked(es0, allocator.spec_exclusions(), occupied, true, occupancy_enabled, p@);
    let a = group_availability(es0, allocator, occupancy_enabled, occupied);
    assert(free(a, p@ as int));
}

impl Allocator {
    /// The candidate ports of the new services when the group sits at base `b`,
    /// or `None` when that base does not fit.
    fn fits_at(
        &self,
        db: &Database,
        request: &GroupAllocationRequest,
        existing: &Vec<Option<Reservation>>,
        pref_free: &Vec<bool>,
        occupancy_enabled: bool,
        occupied: &Vec<u16>,
        b: u32,
        hi: u32,
    ) -> (r: Option<Vec<u32>>)
        requires
            1 <= b <= 65535,
            hi <= 65535,
            existing@.len() == request.services@.len(),
            pref_free@.len() == request.services@.len(),
            forall|i: int| 0 <= i < request.services@.len() ==> #[trigger] existing@[i]
                == lookup(db.spec_entries(), service_key(request.base_path@, request.services@[i])),
            forall|i: int| 0 <= i < request.services@.len() ==> #[trigger] pref_free@[i]
                == (request.services@[i].preferred matches Some(p)
                    && free(group_availability(db.spec_entries(), *self, occupancy_enabled, occupied@), p@ as int)),
        ensures
            ({
                let a = group_availability(db.spec_entries(), *self, occupancy_enabled, occupied@);
                let base = request.base_path@;
                let services = request.services@;
                &&& r is Some <==> base_fits(a, base, services, b as int, hi as int)
                &&& r matches Some(v) ==> v@.len() == services.len() && forall|i: int| 0 <= i < services.len()
                    && is_new(a, base, services[i]) ==> #[trigger] v@[i] == candidate(a, services[i], b as int)
            }),
    {
        let ghost a = group_availability(db.spec_entries(), *self, occupancy_enabled, occupied@);
        let ghost base = request.base_path@;
        let ghost services = request.services@;
        let n = request.services.len();
        let mut cands: Vec<u32> = Vec::new();
        let mut i: usize = 0;
        while i < n
            invariant
                n == services.len(),
                i <= n,
                cands@.len() == i,
                1 <= b <= 65535,
                hi <= 65535,
                a == group_availability(db.spec_entries(), *self, occupancy_enabled, occupied@),
                base == request.base_path@,
                services == request.services@,
                existing@.len() == n,
                pref_free@.len() == n,
                forall|k: int| 0 <= k < n ==> #[trigger] existing@[k] == lookup(a.entries, service_key(base, services[k])),
                forall|k: int| 0 <= k < n ==> #[trigger] pref_free@[k]
                    == (services[k].preferred matches Some(p) && free(a, p@ as int)),
                forall|k: int| 0 <= k < i && is_new(a, base, services[k]) ==> #[trigger] cands@[k] == candidate(a, services[k], b as int),
                forall|k: int| 0 <= k < i && is_new(a, base, services[k]) ==> free(a, #[trigger] candidate(a, services[k], b as int)),
                forall|k: int| 0 <= k < i && is_new(a, base, services[k]) ==> candidate(a, #[trigger] services[k], b as int) <= hi
                    || (services[k].preferred matches Some(p) && free(a, p@ as int)),
            decreases n - i,
        {
            let ghost s = services[i as int];
            if existing[i].is_none() {
                assert(is_new(a, base, s));
                let c: u32 = if pref_free[i] {
                    match request.services[i].preferred {
                        Some(p) => p.value() as u32,
                        None => b,
                    }
                } else {
                    let off: u32 = match request.services[i].offset {
                        Some(o) => o as u32,
                        None => 0,
                    };
                    b + off
                };
                assert(c == candidate(a, s, b as int));
                let ok = if c >= 1 && c <= 65535 {
                    self.is_available(db, c as u16, true, occupancy_enabled, occupied)
                } else {
                    false
                };
                if !ok {
                    assert(!free(a, candidate(a, s, b as int)));
                    return None;
                }
                if !(c <= hi || pref_free[i]) {
                    assert(!(candidate(a, services[i as int], b as int) <= hi
                        || (services[i as int].preferred matches Some(p) && free(a, p@ as int))));
                    return None;
                }
                cands.push(c);
            } else {
                cands.push(0);
            }
            i = i + 1;
        }
        let mut x: usize = 0;
        while x < n
            invariant
                n == services.len(),
                x <= n,
                cands@.len() == n,
                a == group_availability(db.spec_entries(), *self, occupancy_enabled, occupied@),
                base == request.base_path@,
                services == request.services@,
                existing@.len() == n,
                forall|k: int| 0 <= k < n ==> #[trigger] existing@[k] == lookup(a.entries, service_key(base, services[k])),
                forall|k: int| 0 <= k < n && is_new(a, base, services[k]) ==> #[trigger] cands@[k] == candidate(a, services[k], b as int),
                forall|p: int, q: int| 0 <= p < q < n && p < x && is_new(a, base, services[p]) && is_new(a, base, services[q]) ==>
                    candidate(a, #[trigger] services[p], b as int) != candidate(a, #[trigger] services[q], b as int),
            decreases n - x,
        {
            if existing[x].is_none() {
                let mut y: usize = x + 1;
                while y < n
                    invariant
                        n == services.len(),
                        x < y <= n,
                        cands@.len() == n,
                        a == group_availability(db.spec_entries(), *self, occupancy_enabled, occupied@),
                        base == request.base_path@,
                        services == request.services@,
                        existing@.len() == n,
                        existing@[x as int] is None,
                        forall|k: int| 0 <= k < n ==> #[trigger] existing@[k] == lookup(a.entries, service_key(base, services[k])),
                        forall|k: int| 0 <= k < n && is_new(a, base, services[k]) ==> #[trigger] cands@[k] == candidate(a, services[k], b as int),
                        forall|q: int| x < q < y && is_new(a, base, services[q]) ==>
                            candidate(a, services[x as int], b as int) != candidate(a, #[trigger] services[q], b as int),
                    decreases n - y,
                {
                    if existing[y].is_none() && cands[y] == cands[x] {
                        assert(is_new(a, base, services[x as int]) && is_new(a, base, services[y as int]));
                        assert(candidate(a, services[x as int], b as int) == candidate(a, services[y as int], b as int));
                        assert(!base_fits(a, base, services, b as int, hi as int));
                        return None;
                    }
                    y = y + 1;
                }
            }
            x = x + 1;
        }
        Some(cands)
    }
}

impl Allocator {
    /// The lowest base of the range at which the group fits, with the new
    /// services' candidate ports there.
    fn find_base(
        &self,
        db: &Database,
        request: &GroupAllocationRequest,
        existing: &Vec<Option<Reservation>>,
        pref_free: &Vec<bool>,
        occupancy_enabled: bool,
        occupied: &Vec<u16>,
    ) -> (r: Option<(u32, Vec<u32>)>)
        requires
            existing@.len() == request.services@.len(),
            pref_free@.len() == request.services@.len(),
            forall|i: int| 0 <= i < request.services@.len() ==> #[trigger] existing@[i]
                == lookup(db.spec_entries(), service_key(request.base_path@, request.services@[i])),
            forall|i: int| 0 <= i < request.services@.len() ==> #[trigger] pref_free@[i]
                == (request.services@[i].preferred matches Some(p)
                    && free(group_availability(db.spec_entries(), *self, occupancy_enabled, occupied@), p@ as int)),
        ensures
            ({
                let a = group_availability(db.spec_entries(), *self, occupancy_enabled, occupied@);
                let base = request.base_path@;
                let services = request.services@;
                let lo = self.spec_range().spec_min()@ as int;
                let hi = self.spec_range().spec_max()@ as int;
                &&& r is None <==> first_fitting_base(a, base, services, lo, hi) is None
                &&& r matches Some((b, v)) ==> first_fitting_base(a, base, services, lo, hi) == Some(b as int)
                    && v@.len() == services.len()
                    && forall|i: int| 0 <= i < services.len() && is_new(a, base, services[i])
                        ==> #[trigger] v@[i] == candidate(a, services[i], b as int)
            }),
    {
        let ghost a = group_availability(db.spec_entries(), *self, occupancy_enabled, occupied@);
        let lo = self.range().min().value() as u32;
        let hi = self.range().max().value() as u32;
        let mut b: u32 = lo;
        while b <= hi
            invariant
                1 <= lo <= b <= hi + 1,
                hi <= 65535,
                lo == self.spec_range().spec_min()@,
                hi == self.spec_range().spec_max()@,
                a == group_availability(db.spec_entries(), *self, occupancy_enabled, occupied@),
                existing@.len() == request.services@.len(),
                pref_free@.len() == request.services@.len(),
                forall|i: int| 0 <= i < request.services@.len() ==> #[trigger] existing@[i]
                    == lookup(db.spec_entries(), service_key(request.base_path@, request.services@[i])),
                forall|i: int| 0 <= i < request.services@.len() ==> #[trigger] pref_free@[i]
                    == (request.services@[i].preferred matches Some(p) && free(a, p@ as int)),
                first_fitting_base(a, request.base_path@, request.services@, lo as int, hi as int)
                    == first_fitting_base(a, request.base_path@, request.services@, b as int, hi as int),
            decreases hi + 1 - b,
        {
            match self.fits_at(db, request, existing, pref_free, occupancy_enabled, occupied, b, hi) {
                Some(v) => {
                    return Some((b, v));
                },
                None => {},
            }
            b = b + 1;
        }
        None
    }
}

/// At step `i` of a group allocation, the port service `i` is about to take is
/// held by no other key.
proof fn lemma_group_port_free(
    a: Availability,
    base: Seq<char>,
    services: Seq<ServiceAllocationRequest>,
    b: int,
    hi: int,
    cur: Seq<Reservation>,
    i: int,
)
    requires
        entries_unique(a.entries),
        base_fits(a, base, services, b, hi),
        0 <= i < services.len(),
        forall|idx: int| 0 <= idx < cur.len() ==> origin_ok(a, base, services, b, i, #[trigger] cur[idx]),
    ensures
        0 <= chosen_port(a, base, services[i], b) <= 65535,
        !port_taken_by_other(cur, chosen_port(a, base, services[i], b) as u16, service_key(base, services[i])),
{
    let s = services[i];
    let ki = service_key(base, s);
    let es0 = a.entries;
    lemma_key_index(es0, ki);
    if is_new(a, base, s) {
        assert(free(a, candidate(a, services[i], b)));
    } else {
        let ii = key_index(es0, ki);
        assert(port_reserved(es0, es0[ii]@.port));
    }
    let p = chosen_port(a, base, s, b) as u16;
    if port_taken_by_other(cur, p, ki) {
        let idx = choose|idx: int| 0 <= idx < cur.len() && (#[trigger] cur[idx])@.port == p && cur[idx]@.key != ki;
        let x = cur[idx];
        assert(origin_ok(a, base, services, b, i, x));
        if lookup(es0, x@.key) is Some {
            lemma_key_index(es0, x@.key);
            let kx = key_index(es0, x@.key);
            assert(es0[kx]@.port == p);
            if is_new(a, base, s) {
                assert(port_reserved(es0, p));
            } else {
                let ii = key_index(es0, ki);
                assert(kx != ii);
                if kx < ii {
                    assert(es0[kx]@.port != es0[ii]@.port);
                } else {
                    assert(es0[ii]@.port != es0[kx]@.port);
                }
            }
        } else {
            let j = choose|j: int| 0 <= j < i && is_new(a, base, #[trigger] services[j])
                && x@.key == service_key(base, services[j]) && x@.port == candidate(a, services[j], b);
            assert(free(a, candidate(a, services[j], b)));
            if is_new(a, base, s) {
                assert(candidate(a, services[j], b) != candidate(a, services[i], b));
            } else {
                assert(port_reserved(es0, p));
            }
        }
    }
}

impl Allocator {
    /// Reserves ports for every service of a group under one base path.
    ///
    /// Services that already hold a reservation keep their port, provided its
    /// project and task may be replaced by the request's; the new services get
    /// their preferred port when it is free, otherwise the lowest base of the
    /// range is found at which every new service's `base + offset` port is
    /// free, inside the range, and distinct from the others. Nothing is stored
    /// unless every service can be placed.
    pub fn allocate_group(
        &self,
        db: &mut Database,
        request: &GroupAllocationRequest,
        policy: GroupReconciliationPolicy,
        occupancy: &OccupancyCheckConfig,
        occupied: &Vec<u16>,
        now: u64,
    ) -> (r: Result<GroupAllocationResult, Error>)
        ensures
            group_allocation_outcome(*self, old(db).spec_entries(), final(db).spec_entries(), *request, policy,
                occupancy.enabled, occupied@, now, r),
    {
        let ghost es0 = db.spec_entries();
        let ghost a = group_availability(es0, *self, occupancy.enabled, occupied@);
        let ghost base = request.base_path@;
        let ghost services = request.services@;
        db.check_unique();
        if !services_valid(&request.services) {
            return Err(Error::Validation {
                field: owned("services"),
                message: owned("Group must contain at least one service, with non-empty, distinct tags"),
            });
        }
        let n = request.services.len();

        // The reservations the services already hold.
        let mut existing: Vec<Option<Reservation>> = Vec::new();
        let mut i: usize = 0;
        while i < n
            invariant
                n == services.len(),
                i <= n,
                es0 == db.spec_entries(),
                base == request.base_path@,
                services == request.services@,
                existing@.len() == i,
                forall|k: int| 0 <= k < i ==> #[trigger] existing@[k] == lookup(es0, service_key(base, services[k])),
            decreases n - i,
        {
            let key = service_key_of(&request.base_path, &request.services[i]);
            existing.push(db.get_reservation(&key));
            i = i + 1;
        }

        // Existing reservations must accept the request's project and task.
        let mut i: usize = 0;
        while i < n
            invariant
                n == services.len(),
                i <= n,
                base == request.base_path@,
                services == request.services@,
                existing@.len() == n,
                forall|k: int| 0 <= k < n ==> #[trigger] existing@[k] == lookup(es0, service_key(base, services[k])),
                forall|k: int| 0 <= k < i ==> (lookup(es0, service_key(base, #[trigger] services[k])) matches Some(e)
                    ==> sticky_ok(e, *request, policy)),
                es0 == db.spec_entries(),
                services.len() > 0 && tags_valid(services),
            decreases n - i,
        {
            if let Some(e) = &existing[i] {
                proof {
                    assert(lookup(es0, service_key(base, services[i as int])) == Some(*e));
                }
                if !can_change_field(request.project.as_ref(), e.project(), policy.force, policy.allow_project_change) {
                    assert(!sticky_ok(*e, *request, policy));
                    assert(!all_sticky_ok(es0, *request, policy));
                    return Err(Error::StickyFieldChange {
                        field: owned("project"),
                        details: owned("Cannot change the project of the group's reservations without --force or --allow-project-change"),
                    });
                }
                if !can_change_field(request.task.as_ref(), e.task(), policy.force, policy.allow_task_change) {
                    assert(!sticky_ok(*e, *request, policy));
                    assert(!all_sticky_ok(es0, *request, policy));
                    return Err(Error::StickyFieldChange {
                        field: owned("task"),
                        details: owned("Cannot change the task of the group's reservations without --force or --allow-task-change"),
                    });
                }
            }
            i = i + 1;
        }

        // Which preferred ports are free.
        let mut pref_free: Vec<bool> = Vec::new();
        let mut i: usize = 0;
        while i < n
            invariant
                n == services.len(),
                i <= n,
                es0 == db.spec_entries(),
                a == group_availability(es0, *self, occupancy.enabled, occupied@),
                services == request.services@,
                pref_free@.len() == i,
                forall|k: int| 0 <= k < i ==> #[trigger] pref_free@[k]
                    == (services[k].preferred matches Some(p) && free(a, p@ as int)),
            decreases n - i,
        {
            let f = match request.services[i].preferred {
                Some(p) => self.is_available(db, p.value(), true, occupancy.enabled, occupied),
                None => false,
            };
            pref_free.push(f);
            i = i + 1;
        }

        let (b, cands) = match self.find_base(db, request, &existing, &pref_free, occupancy.enabled, occupied) {
            Some(found) => found,
            None => {
                return Err(Error::PortExhausted { range: *self.range(), tried_cleanup: false });
            },
        };
        let ghost hi = self.spec_range().spec_max()@ as int;
        assert(base_fits(a, base, services, b as int, hi)) by {
            let lo = self.spec_range().spec_min()@ as int;
            lemma_first_fitting_base(a, base, services, lo, hi);
        }

        // Store every service's reservation.
        proof {
            assert forall|idx: int| 0 <= idx < es0.len()
                implies origin_ok(a, base, services, b as int, 0, #[trigger] es0[idx]) by {
                lemma_key_index_unique(es0, es0[idx]@.key, idx);
            }
        }
        let mut allocations: TagMap<Port> = TagMap::new();
        let mut i: usize = 0;
        while i < n
            invariant
                n == services.len(),
                i <= n,
                entries_unique(es0),
                tags_valid(services),
                base_fits(a, base, services, b as int, hi),
                a == group_availability(es0, *self, occupancy.enabled, occupied@),
                base == request.base_path@,
                services == request.services@,
                existing@.len() == n,
                cands@.len() == n,
                forall|k: int| 0 <= k < n ==> #[trigger] existing@[k] == lookup(es0, service_key(base, services[k])),
                forall|k: int| 0 <= k < n && is_new(a, base, services[k]) ==> #[trigger] cands@[k] == candidate(a, services[k], b as int),
                forall|idx: int| 0 <= idx < db.spec_entries().len()
                    ==> origin_ok(a, base, services, b as int, i as int, #[trigger] db.spec_entries()[idx]),
                forall|j: int| 0 <= j < i ==> (lookup(db.spec_entries(), #[trigger] service_key(base, services[j])) matches Some(x)
                    && x@ == service_record(a, *request, services[j], b as int, now)),
                forall|k: (Seq<char>, Option<Seq<char>>)|
                    (forall|j: int| 0 <= j < i ==> k != #[trigger] service_key(base, services[j]))
                    ==> #[trigger] lookup(db.spec_entries(), k) == lookup(es0, k),
                db.spec_entries() == group_applied(a, *request, b as int, now, i as nat),
                allocations.spec_entries().len() == i,
                forall|j: int| 0 <= j < i ==> (#[trigger] allocations.spec_entries()[j]).0 == services[j].tag@
                    && allocations.spec_entries()[j].1@ == chosen_port(a, base, services[j], b as int),
            decreases n - i,
        {
            let ghost cur = db.spec_entries();
            let ghost s = services[i as int];
            let ghost ki = service_key(base, s);
            db.check_unique();
            proof {
                lemma_group_port_free(a, base, services, b as int, hi, cur, i as int);
                assert forall|j: int| 0 <= j < i implies ki != #[trigger] service_key(base, services[j]) by {
                    assert(services[j].tag@ != services[i as int].tag@);
                }
                assert(lookup(cur, ki) == lookup(es0, ki));
            }
            let key = service_key_of(&request.base_path, &request.services[i]);
            let rec = match &existing[i] {
                Some(e) => {
                    Reservation::builder(key, e.port())
                        .project(clone_opt_string(&request.project))
                        .task(clone_opt_string(&request.task))
                        .created_at(e.created_at())
                        .build_at(now)
                },
                None => {
                    let port = match Port::try_from(cands[i] as u16) {
                        Ok(p) => p,
                        Err(_) => {
                            proof { assert(false); }
                            return Err(Error::PortExhausted { range: *self.range(), tried_cleanup: false });
                        },
                    };
                    Reservation::builder(key, port)
                        .project(clone_opt_string(&request.project))
                        .task(clone_opt_string(&request.task))
                        .build_at(now)
                },
            };
            proof {
                let e0 = lookup(es0, ki);
                if e0 is None {
                    Port::lemma_port_of(cands@[i as int] as u16);
                }
                let exp = service_reservation(a, *request, s, b as int, now);
                assert(rec == exp);
                Reservation::lemma_make(exp.spec_key(), exp.spec_port(), exp.spec_project(), exp.spec_task(),
                    exp.spec_created_at(), exp.spec_last_used_at());
            }
            assert(rec@ == service_record(a, *request, s, b as int, now));
            assert(rec@.port == chosen_port(a, base, s, b as int));
            let port = rec.port();
            let stored = db.create_reservation(&rec);
            proof {
                assert(stored is Ok);
                let nw = db.spec_entries();
                assert(nw == upsert(cur, rec));
                assert forall|j: int| 0 <= j < i + 1 implies (lookup(nw, #[trigger] service_key(base, services[j])) matches Some(x)
                    && x@ == service_record(a, *request, services[j], b as int, now)) by {
                    lemma_lookup_upsert(cur, rec, service_key(base, services[j]));
                    if j < i {
                        assert(services[j].tag@ != services[i as int].tag@);
                    }
                }
                assert forall|k: (Seq<char>, Option<Seq<char>>)|
                    (forall|j: int| 0 <= j < i + 1 ==> k != #[trigger] service_key(base, services[j]))
                    implies #[trigger] lookup(nw, k) == lookup(es0, k) by {
                    lemma_lookup_upsert(cur, rec, k);
                    assert(k != service_key(base, services[i as int]));
                    assert forall|j: int| 0 <= j < i implies k != #[trigger] service_key(base, services[j]) by {
                        assert(k != service_key(base, services[j]));
                    }
                }
                lemma_key_index(cur, rec@.key);
                assert forall|idx: int| 0 <= idx < nw.len()
                    implies origin_ok(a, base, services, b as int, i + 1, #[trigger] nw[idx]) by {
                    let ix = key_index(cur, rec@.key);
                    if (ix < 0 && idx == cur.len()) || (ix >= 0 && idx == ix) {
                        assert(nw[idx] == rec);
                        if !is_new(a, base, s) {
                            assert(lookup(es0, rec@.key) is Some);
                        } else {
                            assert(is_new(a, base, services[i as int]));
                        }
                    } else {
                        assert(nw[idx] == cur[idx]);
                        assert(origin_ok(a, base, services, b as int, i as int, cur[idx]));
                    }
                }
                assert forall|j: int| 0 <= j < allocations.spec_entries().len()
                    implies (#[trigger] allocations.spec_entries()[j]).0 != request.services[i as int].tag@ by {
                    assert(services[j].tag@ != services[i as int].tag@);
                }
            }
            allocations.check_distinct();
            allocations.insert(request.services[i].tag.clone(), port);
            i = i + 1;
        }
        Ok(GroupAllocationResult { allocations })
    }
}

/// The base `first_fitting_base` finds fits.
proof fn lemma_first_fitting_base(a: Availability, base: Seq<char>, services: Seq<ServiceAllocationRequest>, lo: int, hi: int)
    ensures
        first_fitting_base(a, base, services, lo, hi) matches Some(b) ==> base_fits(a, base, services, b, hi),
    decreases hi - lo + 1,
{
    if hi >= lo && !base_fits(a, base, services, lo, hi) {
        lemma_first_fitting_base(a, base, services, lo + 1, hi);
    }
}

} // verus!
