//! Reserve operation planning: idempotency, sticky-field protection, path
//! validation and port allocation.

use vstd::prelude::*;
use crate::allocator::{
    allocator_from_config, first_available, lemma_available_iff_not_blocked, lemma_first_available, port_available,
    port_blocked, spec_range_bounds, AllocationOptions, AllocationResult,
};
use crate::config::Config;
use crate::database::{touch_key, key_index, lemma_key_index, lemma_key_index_first, lemma_lookup_upsert, lookup, port_taken_by_other, upsert, Database};
use crate::error::Error;
use crate::operations::executor::{action_outcome, reported_port, run_actions};
use crate::operations::plan::{OperationPlan, PlanAction};
use crate::path::relationship::spec_between;
use crate::port::Port;
use crate::reservation::{clone_opt_string, opt_view, Reservation, ReservationKey};
use crate::text::owned;

verus! {

/// Options for a reserve operation.
#[derive(Debug)]
pub struct ReserveOptions {
    /// The reservation key (path + optional tag).
    pub key: ReservationKey,
    /// Optional project identifier (sticky field).
    pub project: Option<String>,
    /// Optional task identifier (sticky field).
    pub task: Option<String>,
    /// The port to reserve. If None, automatic allocation will be used.
    pub port: Option<Port>,
    /// Preferred port for automatic allocation (hint).
    pub preferred_port: Option<Port>,
    /// Whether to ignore system occupancy checks during allocation.
    pub ignore_occupied: bool,
    /// Whether to ignore configured exclusions during allocation.
    pub ignore_exclusions: bool,
    /// Force flag - overrides all protections.
    pub force: bool,
    /// Allow operations on unrelated paths.
    pub allow_unrelated_path: bool,
    /// Allow changing the project field.
    pub allow_project_change: bool,
    /// Allow changing the task field.
    pub allow_task_change: bool,
}

impl ReserveOptions {
    /// Creates options for `key` and `port`; every flag off, no project, task or preferred port.
    pub fn new(key: ReservationKey, port: Option<Port>) -> (o: Self)
        ensures
            o.key == key,
            o.port == port,
            o.project is None,
            o.task is None,
            o.preferred_port is None,
            !o.ignore_occupied,
            !o.ignore_exclusions,
            !o.force,
            !o.allow_unrelated_path,
            !o.allow_project_change,
            !o.allow_task_change,
    {
        ReserveOptions {
            key,
            project: None,
            task: None,
            port,
            preferred_port: None,
            ignore_occupied: false,
            ignore_exclusions: false,
            force: false,
            allow_unrelated_path: false,
            allow_project_change: false,
            allow_task_change: false,
        }
    }

    /// Sets the project field.
    pub fn with_project(self, project: Option<String>) -> (o: Self)
        ensures o == (ReserveOptions { project, ..self }),
    {
        ReserveOptions { project, ..self }
    }

    /// Sets the task field.
    pub fn with_task(self, task: Option<String>) -> (o: Self)
        ensures o == (ReserveOptions { task, ..self }),
    {
        ReserveOptions { task, ..self }
    }

    /// Sets the force flag.
    pub fn with_force(self, force: bool) -> (o: Self)
        ensures o == (ReserveOptions { force, ..self }),
    {
        ReserveOptions { force, ..self }
    }

    /// Sets the `allow_unrelated_path` flag.
    pub fn with_allow_unrelated_path(self, allow: bool) -> (o: Self)
        ensures o == (ReserveOptions { allow_unrelated_path: allow, ..self }),
    {
        ReserveOptions { allow_unrelated_path: allow, ..self }
    }

    /// Sets the `allow_project_change` flag.
    pub fn with_allow_project_change(self, allow: bool) -> (o: Self)
        ensures o == (ReserveOptions { allow_project_change: allow, ..self }),
    {
        ReserveOptions { allow_project_change: allow, ..self }
    }

    /// Sets the `allow_task_change` flag.
    pub fn with_allow_task_change(self, allow: bool) -> (o: Self)
        ensures o == (ReserveOptions { allow_task_change: allow, ..self }),
    {
        ReserveOptions { allow_task_change: allow, ..self }
    }

    /// Sets the preferred port for automatic allocation.
    pub fn with_preferred_port(self, port: Option<Port>) -> (o: Self)
        ensures o == (ReserveOptions { preferred_port: port, ..self }),
    {
        ReserveOptions { preferred_port: port, ..self }
    }

    /// Sets the `ignore_occupied` flag.
    pub fn with_ignore_occupied(self, ignore: bool) -> (o: Self)
        ensures o == (ReserveOptions { ignore_occupied: ignore, ..self }),
    {
        ReserveOptions { ignore_occupied: ignore, ..self }
    }

    /// Sets the `ignore_exclusions` flag.
    pub fn with_ignore_exclusions(self, ignore: bool) -> (o: Self)
        ensures o == (ReserveOptions { ignore_exclusions: ignore, ..self }),
    {
        ReserveOptions { ignore_exclusions: ignore, ..self }
    }
}

/// Whether a sticky field may go from `existing` to `new`: always with
/// `force` or the field's allow flag, otherwise only when it does not change.
pub open spec fn spec_can_change_field(
    new_value: Option<Seq<char>>,
    existing_value: Option<Seq<char>>,
    force: bool,
    allow_change: bool,
) -> bool {
    force || allow_change || new_value == existing_value
}

/// Checks whether a sticky field may change.
pub fn can_change_field(
    new_value: Option<&String>,
    existing_value: Option<&str>,
    force: bool,
    allow_change: bool,
) -> (r: bool)
    ensures
        r == spec_can_change_field(
            match new_value { Some(s) => Some(s@), None => None },
            match existing_value { Some(s) => Some(s@), None => None },
            force,
            allow_change,
        ),
{
    if force || allow_change {
        return true;
    }
    match (new_value, existing_value) {
        (None, None) => true,
        (Some(new), Some(old)) => {
            let n = crate::text::chars_of(new.as_str());
            let o = crate::text::chars_of(old);
            crate::path::components::chars_equal(&n, &o)
        },
        _ => false,
    }
}

/// The port a reservation ends up with: the requested port when it is free,
/// otherwise the lowest free port of the range.
pub open spec fn spec_pick_port(
    es: Seq<Reservation>,
    config: Config,
    occupied: Seq<u16>,
    options: ReserveOptions,
    lo: int,
    hi: int,
) -> Option<u16> {
    let ce = !options.ignore_exclusions;
    let co = config.occupancy_check != Some(crate::config::OccupancyCheckConfig { enabled: false })
        && !options.ignore_occupied;
    let ex = config.excluded_ports@;
    let requested = match options.port { Some(p) => Some(p), None => options.preferred_port };
    match requested {
        Some(p) => if port_available(es, ex, occupied, ce, co, p@) {
            Some(p@)
        } else {
            first_available(es, ex, occupied, ce, co, lo, hi)
        },
        None => first_available(es, ex, occupied, ce, co, lo, hi),
    }
}

/// What planning the reservation `o` under `config` against the entries
/// `es` from `working_dir` gives, with `occupied` the ports the operating
/// system reports in use (see `ReservePlan::build_plan`).
pub open spec fn reserve_plan_outcome(
    o: ReserveOptions,
    config: Config,
    es: Seq<Reservation>,
    working_dir: Seq<char>,
    occupied: Seq<u16>,
    r: Result<OperationPlan, Error>,
) -> bool {
    let path_bad = !o.force && !o.allow_unrelated_path
        && spec_between(o.key.path@, working_dir) is Unrelated;
    &&& path_bad ==> (r matches Err(Error::PathRelationshipViolation { .. }))
    &&& (!path_bad && lookup(es, o.key@) is Some) ==> {
        let existing = lookup(es, o.key@)->0;
        let project_ok = spec_can_change_field(opt_view(o.project), opt_view(existing.spec_project()),
            o.force, o.allow_project_change);
        let task_ok = spec_can_change_field(opt_view(o.task), opt_view(existing.spec_task()),
            o.force, o.allow_task_change);
        &&& !project_ok ==> (r matches Err(Error::StickyFieldChange { field, .. }) && field@ == "project"@)
        &&& (project_ok && !task_ok) ==> (r matches Err(Error::StickyFieldChange { field, .. }) && field@ == "task"@)
        &&& (project_ok && task_ok) ==> (r matches Ok(plan) && plan.actions@.len() == 1
            && (plan.actions@[0] matches PlanAction::UpdateLastUsed(k) && k@ == o.key@))
    }
    &&& (!path_bad && lookup(es, o.key@) is None) ==> match spec_range_bounds(config) {
        None => (r matches Err(Error::Validation { .. })),
        Some((lo, hi)) => match spec_pick_port(es, config, occupied, o, lo as int, hi as int) {
            Some(p) => (r matches Ok(plan) && plan.actions@.len() == 1
                && (plan.actions@[0] matches PlanAction::CreateReservation(res)
                && res.spec_key()@ == o.key@ && res.spec_port()@ == p
                && opt_view(res.spec_project()) == opt_view(o.project)
                && opt_view(res.spec_task()) == opt_view(o.task))),
            None => (r matches Err(Error::PortExhausted { range, tried_cleanup })
                && range.spec_min()@ == lo && range.spec_max()@ == hi && !tried_cleanup),
        },
    }
    &&& (r matches Ok(plan) ==> plan.warnings@.len() == 0
        && plan.description@ == "Reserve port for "@ + o.key.spec_display())
}

/// Whether occupancy counts for the reservation `o` under `config`.
pub open spec fn reserve_checks_occupancy(o: ReserveOptions, config: Config) -> bool {
    config.occupancy_check != Some(crate::config::OccupancyCheckConfig { enabled: false }) && !o.ignore_occupied
}

/// The port a reservation asks for: the explicit port, else the preferred one.
pub open spec fn requested_port(o: ReserveOptions) -> Option<Port> {
    match o.port {
        Some(p) => Some(p),
        None => o.preferred_port,
    }
}

/// A new reservation that asks for a port (explicitly, or as its preferred
/// port when no explicit one is given) gets exactly that port whenever it is
/// free: no reservation holds it, it lies in no excluded range (unless
/// exclusions are ignored) and the operating system does not report it
/// occupied (when occupancy counts).
pub proof fn lemma_reserve_takes_requested_port(
    o: ReserveOptions,
    config: Config,
    es: Seq<Reservation>,
    working_dir: Seq<char>,
    occupied: Seq<u16>,
    r: Result<OperationPlan, Error>,
    p: Port,
)
    requires
        reserve_plan_outcome(o, config, es, working_dir, occupied, r),
        o.force || o.allow_unrelated_path || !(spec_between(o.key.path@, working_dir) is Unrelated),
        lookup(es, o.key@) is None,
        spec_range_bounds(config) is Some,
        o.port == Some(p) || (o.port is None && o.preferred_port == Some(p)),
        !port_blocked(es, config.excluded_ports@, occupied, !o.ignore_exclusions, reserve_checks_occupancy(o, config), p@),
    ensures
        r matches Ok(plan) && plan.actions@.len() == 1
            && (plan.actions@[0] matches PlanAction::CreateReservation(res) && res.spec_port()@ == p@
                && res.spec_key()@ == o.key@),
{
    lemma_available_iff_not_blocked(es, config.excluded_ports@, occupied, !o.ignore_exclusions,
        reserve_checks_occupancy(o, config), p@);
}

/// A newly planned reservation never takes a blocked port: no reservation
/// holds it, it lies in no excluded range (unless exclusions are ignored)
/// and the operating system does not report it occupied (when occupancy
/// counts). Without a requested port it is the lowest such port of the
/// configured range.
pub proof fn lemma_reserved_port_is_free(
    o: ReserveOptions,
    config: Config,
    es: Seq<Reservation>,
    working_dir: Seq<char>,
    occupied: Seq<u16>,
    plan: OperationPlan,
    res: Reservation,
)
    requires
        reserve_plan_outcome(o, config, es, working_dir, occupied, Ok(plan)),
        lookup(es, o.key@) is None,
        plan.actions@.len() > 0,
        plan.actions@[0] == PlanAction::CreateReservation(res),
    ensures
        !port_blocked(es, config.excluded_ports@, occupied, !o.ignore_exclusions, reserve_checks_occupancy(o, config), res.spec_port()@),
        requested_port(o) is None ==> ({
            let (lo, hi) = spec_range_bounds(config)->0;
            let ce = !o.ignore_exclusions;
            let co = reserve_checks_occupancy(o, config);
            &&& lo <= res.spec_port()@ <= hi
            &&& forall|q: u16| lo <= q < res.spec_port()@ ==> #[trigger] port_blocked(es, config.excluded_ports@, occupied, ce, co, q)
        }),
{
    let ce = !o.ignore_exclusions;
    let co = reserve_checks_occupancy(o, config);
    let ex = config.excluded_ports@;
    let (lo, hi) = spec_range_bounds(config)->0;
    lemma_first_available(es, ex, occupied, ce, co, lo as int, hi as int);
    let q = res.spec_port()@;
    lemma_available_iff_not_blocked(es, ex, occupied, ce, co, q);
    if requested_port(o) is None {
        assert forall|x: u16| lo <= x < q implies #[trigger] port_blocked(es, ex, occupied, ce, co, x) by {
            let y = x as int;
            assert((y as u16) == x);
            lemma_available_iff_not_blocked(es, ex, occupied, ce, co, x);
        }
    }
}

/// Refreshing the reservation under `k` keeps it findable under `k`, refreshed.
proof fn lemma_lookup_touch_key(es: Seq<Reservation>, k: (Seq<char>, Option<Seq<char>>), now: u64)
    requires
        lookup(es, k) is Some,
    ensures
        lookup(touch_key(es, k, now), k) == Some(lookup(es, k)->0.touched_spec(now)),
{
    lemma_key_index(es, k);
    let i = key_index(es, k);
    let n = touch_key(es, k, now);
    es[i].lemma_touched(now);
    assert forall|l: int| 0 <= l < i implies (#[trigger] n[l])@.key != k by {
        assert(n[l] == es[l]);
    }
    lemma_key_index_first(n, k, i);
}

/// Reserving is idempotent: once the reservation created for some options
/// is stored, the same options find it under their key with sticky fields
/// that accept them, so reserving again only refreshes it; the refresh keeps
/// its port, which is the port reported.
pub proof fn lemma_reserve_idempotent(
    es: Seq<Reservation>,
    o: ReserveOptions,
    r: Reservation,
    occupied: Seq<u16>,
    now: u64,
    later: u64,
)
    requires
        r@.key == o.key@,
        r@.project == opt_view(o.project),
        r@.task == opt_view(o.task),
        !port_taken_by_other(es, r@.port, r@.key),
    ensures
        action_outcome(es, PlanAction::CreateReservation(r), occupied, now) == Some(upsert(es, r)),
        lookup(upsert(es, r), o.key@) == Some(r),
        spec_can_change_field(opt_view(o.project), opt_view(r.spec_project()), o.force, o.allow_project_change),
        spec_can_change_field(opt_view(o.task), opt_view(r.spec_task()), o.force, o.allow_task_change),
        ({
            let again = run_actions(upsert(es, r), seq![PlanAction::UpdateLastUsed(o.key)], occupied, later);
            &&& again.1
            &&& lookup(again.0, o.key@) == Some(r.touched_spec(later))
            &&& r.touched_spec(later)@.port == r@.port
            &&& reported_port(seq![PlanAction::UpdateLastUsed(o.key)], again.0) == Some(r@.port)
        }),
{
    lemma_lookup_upsert(es, r, o.key@);
    let stored = upsert(es, r);
    lemma_lookup_touch_key(stored, o.key@, later);
    r.lemma_touched(later);
    let acts = seq![PlanAction::UpdateLastUsed(o.key)];
    assert(acts.drop_first() =~= Seq::<PlanAction>::empty());
    assert(run_actions(touch_key(stored, o.key@, later), acts.drop_first(), occupied, later)
        == (touch_key(stored, o.key@, later), true));
}

/// A reservation plan generator.
pub struct ReservePlan<'a> {
    options: ReserveOptions,
    config: &'a Config,
}

impl<'a> ReservePlan<'a> {
    /// The options being planned.
    pub closed spec fn spec_options(&self) -> ReserveOptions { self.options }
    /// The configuration consulted.
    pub closed spec fn spec_config(&self) -> Config { *self.config }

    /// Creates a new reserve plan with the given options and config.
    pub fn new(options: ReserveOptions, config: &'a Config) -> (p: Self)
        ensures
            p.spec_options() == options,
            p.spec_config() == *config,
    {
        ReservePlan { options, config }
    }

    /// Builds the plan for this reserve request without changing the store.
    ///
    /// In order: unless forced or allowed, the key's path must be related to
    /// `working_dir`; an existing reservation for the key yields a single
    /// last-used update, provided its sticky fields may change as requested;
    /// otherwise a port is allocated (the requested port if free, else the
    /// lowest free port of the range, with `occupied` listing the ports the
    /// operating system reports in use) and a single creation is planned.
    pub fn build_plan(&self, db: &Database, working_dir: &str, occupied: &Vec<u16>) -> (r: Result<OperationPlan, Error>)
        ensures
            reserve_plan_outcome(self.spec_options(), self.spec_config(), db.spec_entries(), working_dir@, occupied@, r),
    {
        let key_text = self.options.key.to_display_string();
        let mut description = owned("Reserve port for ");
        description.push_str(key_text.as_str());
        let mut plan = OperationPlan::new(description.as_str());

        // Step 1: the path must be related to the working directory.
        if !self.options.force && !self.options.allow_unrelated_path {
            Database::validate_path_relationship(self.options.key.path.as_str(), false, working_dir)?;
        }

        // Step 2: an existing reservation is reused when its sticky fields allow it.
        if let Some(existing) = db.get_reservation(&self.options.key) {
            self.validate_sticky_fields(&existing)?;
            plan = plan.add_action(PlanAction::UpdateLastUsed(self.options.key.clone()));
            return Ok(plan);
        }

        // Step 3: allocate, trying the requested port first.
        let allocator = allocator_from_config(self.config)?;
        let occupancy_enabled = self.config.occupancy_config().enabled;
        let requested = match self.options.port {
            Some(p) => Some(p),
            None => self.options.preferred_port,
        };
        let allocation_options = AllocationOptions {
            preferred: requested,
            ignore_occupied: self.options.ignore_occupied,
            ignore_exclusions: self.options.ignore_exclusions,
        };
        let port = match allocator.allocate_single(db, &allocation_options, occupancy_enabled, occupied) {
            AllocationResult::Allocated(port) => port,
            AllocationResult::PreferredUnavailable { .. } => {
                let fallback_options = AllocationOptions {
                    preferred: None,
                    ignore_occupied: self.options.ignore_occupied,
                    ignore_exclusions: self.options.ignore_exclusions,
                };
                match allocator.allocate_single(db, &fallback_options, occupancy_enabled, occupied) {
                    AllocationResult::Allocated(fallback_port) => fallback_port,
                    AllocationResult::Exhausted { tried_cleanup } => {
                        return Err(Error::PortExhausted { range: *allocator.range(), tried_cleanup });
                    },
                    AllocationResult::PreferredUnavailable { .. } => {
                        return Err(Error::PortExhausted { range: *allocator.range(), tried_cleanup: false });
                    },
                }
            },
            AllocationResult::Exhausted { tried_cleanup } => {
                return Err(Error::PortExhausted { range: *allocator.range(), tried_cleanup });
            },
        };

        // Step 4: create the new reservation.
        let reservation = Reservation::builder(self.options.key.clone(), port)
            .project(clone_opt_string(&self.options.project))
            .task(clone_opt_string(&self.options.task))
            .build()?;
        plan = plan.add_action(PlanAction::CreateReservation(reservation));
        Ok(plan)
    }

    /// Rejects a change of a sticky field that is not permitted.
    fn validate_sticky_fields(&self, existing: &Reservation) -> (r: Result<(), Error>)
        ensures
            ({
                let o = self.spec_options();
                let project_ok = spec_can_change_field(opt_view(o.project), opt_view(existing.spec_project()),
                    o.force, o.allow_project_change);
                let task_ok = spec_can_change_field(opt_view(o.task), opt_view(existing.spec_task()),
                    o.force, o.allow_task_change);
                &&& !project_ok ==> (r matches Err(Error::StickyFieldChange { field, .. }) && field@ == "project"@)
                &&& (project_ok && !task_ok) ==> (r matches Err(Error::StickyFieldChange { field, .. }) && field@ == "task"@)
                &&& (project_ok && task_ok) ==> r is Ok
            }),
    {
        if !self.can_change_project(existing) {
            return Err(Error::StickyFieldChange {
                field: owned("project"),
                details: owned("Cannot change project without --force or --allow-project-change"),
            });
        }
        if !self.can_change_task(existing) {
            return Err(Error::StickyFieldChange {
                field: owned("task"),
                details: owned("Cannot change task without --force or --allow-task-change"),
            });
        }
        Ok(())
    }

    fn can_change_project(&self, existing: &Reservation) -> (r: bool)
        ensures
            r == spec_can_change_field(opt_view(self.spec_options().project), opt_view(existing.spec_project()),
                self.spec_options().force, self.spec_options().allow_project_change),
    {
        can_change_field(self.options.project.as_ref(), existing.project(), self.options.force,
            self.options.allow_project_change)
    }

    fn can_change_task(&self, existing: &Reservation) -> (r: bool)
        ensures
            r == spec_can_change_field(opt_view(self.spec_options().task), opt_view(existing.spec_task()),
                self.spec_options().force, self.spec_options().allow_task_change),
    {
        can_change_field(self.options.task.as_ref(), existing.task(), self.options.force,
            self.options.allow_task_change)
    }
}

} // verus!
