//! Applying operation plans to the reservation store.
//!
//! Actions run in order; the first one that fails stops the run and leaves
//! the changes of the actions before it in place. A dry run changes nothing.

use vstd::prelude::*;
use crate::allocator::{allocator_from_config, spec_range_bounds};
use crate::config::{Config, OccupancyCheckConfig};
use crate::database::{key_index, lookup, touch_key, port_taken_by_other, remove_key, upsert, Database};
use crate::error::Error;
use crate::group::{
    all_sticky_ok, chosen_port, first_fitting_base, group_applied, tags_valid, Availability,
    GroupAllocationRequest, GroupReconciliationPolicy,
};
use crate::port::Port;
use crate::reservation::Reservation;
use crate::tag_map::TagMap;
use crate::text::owned;
use super::plan::{OperationPlan, PlanAction};

verus! {

/// How a group action judges ports free against the entries `es`.
pub open spec fn config_availability(
    es: Seq<Reservation>,
    config: Config,
    occupancy: OccupancyCheckConfig,
    occupied: Seq<u16>,
) -> Availability {
    Availability {
        entries: es,
        exclusions: config.excluded_ports@,
        occupied,
        check_exclusions: true,
        check_occupancy: occupancy.enabled,
    }
}

/// The base a group action settles on against `es`, or `None` when the action fails.
pub open spec fn group_base(
    es: Seq<Reservation>,
    request: GroupAllocationRequest,
    policy: GroupReconciliationPolicy,
    config: Config,
    occupancy: OccupancyCheckConfig,
    occupied: Seq<u16>,
) -> Option<int> {
    match spec_range_bounds(config) {
        None => None,
        Some((lo, hi)) => {
            if request.services@.len() > 0 && tags_valid(request.services@) && all_sticky_ok(es, request, policy) {
                first_fitting_base(config_availability(es, config, occupancy, occupied), request.base_path@,
                    request.services@, lo as int, hi as int)
            } else {
                None
            }
        },
    }
}

/// The tags and ports a successful group action reports, in service order.
pub open spec fn group_ports(
    es: Seq<Reservation>,
    request: GroupAllocationRequest,
    config: Config,
    occupancy: OccupancyCheckConfig,
    occupied: Seq<u16>,
    b: int,
) -> Seq<(Seq<char>, u16)> {
    let a = config_availability(es, config, occupancy, occupied);
    Seq::new(request.services@.len(), |j: int|
        (request.services@[j].tag@, chosen_port(a, request.base_path@, request.services@[j], b) as u16))
}

/// The entries after one action against `es`, or `None` when it fails.
pub open spec fn action_outcome(es: Seq<Reservation>, action: PlanAction, occupied: Seq<u16>, now: u64) -> Option<Seq<Reservation>> {
    match action {
        PlanAction::CreateReservation(r) => if port_taken_by_other(es, r@.port, r@.key) { None } else { Some(upsert(es, r)) },
        PlanAction::UpdateReservation(r) => if port_taken_by_other(es, r@.port, r@.key) { None } else { Some(upsert(es, r)) },
        PlanAction::UpdateLastUsed(k) => Some(touch_key(es, k@, now)),
        PlanAction::DeleteReservation(k) => Some(remove_key(es, k@)),
        PlanAction::AllocateGroup { request, policy, full_config, occupancy_config } =>
            match group_base(es, request, policy, full_config, occupancy_config, occupied) {
                Some(b) => Some(group_applied(config_availability(es, full_config, occupancy_config, occupied),
                    request, b, now, request.services@.len())),
                None => None,
            },
    }
}

/// Running `actions` in order from `es`: the entries when the run stops, and
/// whether every action succeeded.
pub open spec fn run_actions(es: Seq<Reservation>, actions: Seq<PlanAction>, occupied: Seq<u16>, now: u64) -> (Seq<Reservation>, bool)
    decreases actions.len(),
{
    if actions.len() == 0 {
        (es, true)
    } else {
        match action_outcome(es, actions[0], occupied, now) {
            None => (es, false),
            Some(next) => run_actions(next, actions.drop_first(), occupied, now),
        }
    }
}

/// The ports of the last group action of a successful run, starting with `acc`.
pub open spec fn run_group_ports(
    es: Seq<Reservation>,
    actions: Seq<PlanAction>,
    occupied: Seq<u16>,
    now: u64,
    acc: Option<Seq<(Seq<char>, u16)>>,
) -> Option<Seq<(Seq<char>, u16)>>
    decreases actions.len(),
{
    if actions.len() == 0 {
        acc
    } else {
        match action_outcome(es, actions[0], occupied, now) {
            None => acc,
            Some(next) => {
                let acc2 = match actions[0] {
                    PlanAction::AllocateGroup { request, policy, full_config, occupancy_config } =>
                        Some(group_ports(es, request, full_config, occupancy_config, occupied,
                            group_base(es, request, policy, full_config, occupancy_config, occupied)->0)),
                    _ => acc,
                };
                run_group_ports(next, actions.drop_first(), occupied, now, acc2)
            },
        }
    }
}

/// The port a plan reports after running against the final entries `es`: that
/// of the first action that creates or updates a reservation, or of the first
/// refreshed reservation that exists, whichever comes first.
pub open spec fn reported_port(actions: Seq<PlanAction>, es: Seq<Reservation>) -> Option<u16>
    decreases actions.len(),
{
    if actions.len() == 0 {
        None
    } else {
        match actions[0] {
            PlanAction::CreateReservation(r) => Some(r@.port),
            PlanAction::UpdateReservation(r) => Some(r@.port),
            PlanAction::UpdateLastUsed(k) => match lookup(es, k@) {
                Some(x) => Some(x@.port),
                None => reported_port(actions.drop_first(), es),
            },
            _ => reported_port(actions.drop_first(), es),
        }
    }
}

/// The port a plan reports in a dry run: that of its first action that
/// creates or updates a reservation.
pub open spec fn reported_port_dry_run(actions: Seq<PlanAction>) -> Option<u16>
    decreases actions.len(),
{
    if actions.len() == 0 {
        None
    } else {
        match actions[0] {
            PlanAction::CreateReservation(r) => Some(r@.port),
            PlanAction::UpdateReservation(r) => Some(r@.port),
            _ => reported_port_dry_run(actions.drop_first()),
        }
    }
}

/// Whether an action creates or updates a reservation, and with which port.
pub open spec fn sets_port(a: PlanAction) -> Option<u16> {
    match a {
        PlanAction::CreateReservation(r) => Some(r@.port),
        PlanAction::UpdateReservation(r) => Some(r@.port),
        _ => None,
    }
}

/// The dry-run port of a plan whose first action that creates or updates a
/// reservation stands at `k` is that action's port.
proof fn lemma_dry_run_port_at(actions: Seq<PlanAction>, k: int)
    requires
        0 <= k < actions.len(),
        sets_port(actions[k]) is Some,
        forall|j: int| 0 <= j < k ==> sets_port(#[trigger] actions[j]) is None,
    ensures
        reported_port_dry_run(actions) == sets_port(actions[k]),
    decreases k,
{
    if k > 0 {
        let rest = actions.drop_first();
        assert(sets_port(actions[0]) is None);
        assert forall|j: int| 0 <= j < k - 1 implies sets_port(#[trigger] rest[j]) is None by {
            assert(rest[j] == actions[j + 1]);
        }
        lemma_dry_run_port_at(rest, k - 1);
    }
}

/// A plan with no action that creates or updates a reservation reports no
/// port in a dry run.
proof fn lemma_dry_run_no_port(actions: Seq<PlanAction>)
    requires
        forall|j: int| 0 <= j < actions.len() ==> sets_port(#[trigger] actions[j]) is None,
    ensures
        reported_port_dry_run(actions) is None,
    decreases actions.len(),
{
    if actions.len() > 0 {
        let rest = actions.drop_first();
        assert(sets_port(actions[0]) is None);
        assert forall|j: int| 0 <= j < rest.len() implies sets_port(#[trigger] rest[j]) is None by {
            assert(rest[j] == actions[j + 1]);
        }
        lemma_dry_run_no_port(rest);
    }
}

/// A dry run reports the port of the plan's first action that creates or
/// updates a reservation, and no port when the plan has no such action;
/// it changes nothing.
pub proof fn lemma_dry_run_reports_first_port(
    es0: Seq<Reservation>,
    es1: Seq<Reservation>,
    plan: OperationPlan,
    occupied: Seq<u16>,
    now: u64,
    r: Result<ExecutionResult, Error>,
)
    requires
        execution_outcome(es0, es1, plan, true, occupied, now, r),
    ensures
        es1 == es0,
        r matches Ok(res) && ({
            let acts = plan.actions@;
            &&& forall|k: int| 0 <= k < acts.len() && sets_port(#[trigger] acts[k]) is Some
                && (forall|j: int| 0 <= j < k ==> sets_port(#[trigger] acts[j]) is None)
                ==> (res.port matches Some(p) && Some(p@) == sets_port(acts[k]))
            &&& (forall|j: int| 0 <= j < acts.len() ==> sets_port(#[trigger] acts[j]) is None) ==> res.port is None
        }),
{
    let acts = plan.actions@;
    let res = r->Ok_0;
    assert forall|k: int| 0 <= k < acts.len() && sets_port(#[trigger] acts[k]) is Some
        && (forall|j: int| 0 <= j < k ==> sets_port(#[trigger] acts[j]) is None)
        implies (res.port matches Some(p) && Some(p@) == sets_port(acts[k])) by {
        lemma_dry_run_port_at(acts, k);
    }
    if forall|j: int| 0 <= j < acts.len() ==> sets_port(#[trigger] acts[j]) is None {
        lemma_dry_run_no_port(acts);
    }
}

/// An optional port as an optional number.
pub open spec fn opt_port(p: Option<Port>) -> Option<u16> {
    match p {
        Some(q) => Some(q@),
        None => None,
    }
}

/// Tag/port entries as plain values.
pub open spec fn port_entries(m: TagMap<Port>) -> Seq<(Seq<char>, u16)> {
    m.spec_entries().map_values(|e: (Seq<char>, Port)| (e.0, e.1@))
}

/// What a plan's execution reports.
#[derive(Debug)]
pub struct ExecutionResult {
    /// Whether the execution was successful.
    pub success: bool,
    /// Whether this was a dry run (nothing changed).
    pub dry_run: bool,
    /// Descriptions of the actions taken (or that would be taken).
    pub actions_taken: Vec<String>,
    /// Warnings from the plan.
    pub warnings: Vec<String>,
    /// The port that was reserved, if the plan reserves one.
    pub port: Option<Port>,
    /// The ports of a group allocation, by tag.
    pub allocated_ports: Option<TagMap<Port>>,
}

/// What executing `plan` from the entries `es0` at time `now` leaves (`es1`)
/// and reports: a dry run changes nothing and reports the plan's first
/// created or updated port; otherwise the actions run in order until one
/// fails, and the result reports the port and group ports of the run.
pub open spec fn execution_outcome(
    es0: Seq<Reservation>,
    es1: Seq<Reservation>,
    plan: OperationPlan,
    dry_run: bool,
    occupied: Seq<u16>,
    now: u64,
    r: Result<ExecutionResult, Error>,
) -> bool {
    let run = run_actions(es0, plan.actions@, occupied, now);
    &&& dry_run ==> es1 == es0
        && (r matches Ok(res) && res.dry_run
            && opt_port(res.port) == reported_port_dry_run(plan.actions@)
            && res.allocated_ports is None)
    &&& !dry_run ==> es1 == run.0
        && (r is Ok <==> run.1)
        && (r matches Ok(res) ==> !res.dry_run
            && opt_port(res.port) == reported_port(plan.actions@, run.0)
            && match run_group_ports(es0, plan.actions@, occupied, now, None) {
                Some(ports) => res.allocated_ports matches Some(m) && port_entries(m) == ports,
                None => res.allocated_ports is None,
            })
    &&& r matches Ok(res) ==> res.success
        && res.actions_taken@.len() == plan.actions@.len()
        && (forall|i: int| 0 <= i < res.actions_taken@.len()
            ==> (#[trigger] res.actions_taken@[i])@ == plan.actions@[i].spec_description())
        && res.warnings@ == plan.warnings@
}

/// The descriptions of a plan's actions, in order.
fn describe_actions(plan: &OperationPlan) -> (v: Vec<String>)
    ensures
        v@.len() == plan.actions@.len(),
        forall|i: int| 0 <= i < v@.len() ==> (#[trigger] v@[i])@ == plan.actions@[i].spec_description(),
{
    let mut v: Vec<String> = Vec::new();
    let mut i: usize = 0;
    while i < plan.actions.len()
        invariant
            i <= plan.actions@.len(),
            v@.len() == i,
            forall|j: int| 0 <= j < i ==> (#[trigger] v@[j])@ == plan.actions@[j].spec_description(),
        decreases plan.actions@.len() - i,
    {
        v.push(plan.actions[i].description());
        i = i + 1;
    }
    v
}

/// A copy of a list of strings.
fn clone_strings(v: &Vec<String>) -> (r: Vec<String>)
    ensures
        r@ == v@,
{
    let mut out: Vec<String> = Vec::new();
    let mut i: usize = 0;
    while i < v.len()
        invariant
            i <= v@.len(),
            out@ == v@.take(i as int),
        decreases v@.len() - i,
    {
        out.push(v[i].clone());
        assert(out@ =~= v@.take(i + 1));
        i = i + 1;
    }
    assert(v@.take(v@.len() as int) =~= v@);
    out
}

impl ExecutionResult {
    /// The result of a run that applied the plan.
    fn success(plan: &OperationPlan, port: Option<Port>, allocated_ports: Option<TagMap<Port>>) -> (r: Self)
        ensures
            r.success,
            !r.dry_run,
            r.actions_taken@.len() == plan.actions@.len(),
            forall|i: int| 0 <= i < r.actions_taken@.len() ==> (#[trigger] r.actions_taken@[i])@ == plan.actions@[i].spec_description(),
            r.warnings@ == plan.warnings@,
            r.port == port,
            r.allocated_ports == allocated_ports,
    {
        ExecutionResult {
            success: true,
            dry_run: false,
            actions_taken: describe_actions(plan),
            warnings: clone_strings(&plan.warnings),
            port,
            allocated_ports,
        }
    }

    /// The result of a dry run.
    fn dry_run(plan: &OperationPlan, port: Option<Port>, allocated_ports: Option<TagMap<Port>>) -> (r: Self)
        ensures
            r.success,
            r.dry_run,
            r.actions_taken@.len() == plan.actions@.len(),
            forall|i: int| 0 <= i < r.actions_taken@.len() ==> (#[trigger] r.actions_taken@[i])@ == plan.actions@[i].spec_description(),
            r.warnings@ == plan.warnings@,
            r.port == port,
            r.allocated_ports == allocated_ports,
    {
        ExecutionResult {
            success: true,
            dry_run: true,
            actions_taken: describe_actions(plan),
            warnings: clone_strings(&plan.warnings),
            port,
            allocated_ports,
        }
    }
}

/// Executes operation plans against a store.
///
/// Ports the operating system reports in use are supplied by the caller
/// (`with_occupied_ports`); group allocations avoid them when occupancy
/// checking is enabled.
pub struct PlanExecutor<'a> {
    /// The store the plans change.
    pub db: &'a mut Database,
    /// Whether plans are only validated, leaving the store unchanged.
    pub dry_run: bool,
    /// Ports found in use on this machine.
    pub occupied: Vec<u16>,
}

impl<'a> PlanExecutor<'a> {
    /// Creates an executor that applies plans to `db`.
    pub fn new(db: &'a mut Database) -> (r: Self)
        ensures
            *r.db == *old(db),
            *final(r.db) == *final(db),
            !r.dry_run,
            r.occupied@.len() == 0,
    {
        PlanExecutor { db, dry_run: false, occupied: Vec::new() }
    }

    /// Switches the executor to dry-run mode.
    pub fn dry_run(self) -> (r: Self)
        ensures
            *r.db == *old(self.db),
            *final(r.db) == *final(self.db),
            r.dry_run,
            r.occupied@ == self.occupied@,
    {
        PlanExecutor { db: self.db, dry_run: true, occupied: self.occupied }
    }

    /// Records the ports found in use on this machine.
    pub fn with_occupied_ports(self, ports: Vec<u16>) -> (r: Self)
        ensures
            *r.db == *old(self.db),
            *final(r.db) == *final(self.db),
            r.dry_run == self.dry_run,
            r.occupied@ == ports@,
    {
        PlanExecutor { db: self.db, dry_run: self.dry_run, occupied: ports }
    }

    /// Executes `plan`, with the current time taken from the system clock.
    pub fn execute(&mut self, plan: &OperationPlan) -> (r: Result<ExecutionResult, Error>)
        ensures
            final(self).dry_run == old(self).dry_run,
            final(self).occupied@ == old(self).occupied@,
            *final(final(self).db) == *final(old(self).db),
            old(self).dry_run ==> *final(self).db == *old(self).db,
            exists|now: u64| #[trigger] execution_outcome(old(self).db.spec_entries(), final(self).db.spec_entries(),
                *plan, old(self).dry_run, old(self).occupied@, now, r),
    {
        let now = crate::reservation::unix_time_now();
        self.execute_at(plan, now)
    }

    /// Executes `plan` at time `now`.
    ///
    /// In a dry run nothing changes and the reported port is that of the first
    /// action that creates or updates a reservation. Otherwise the actions run
    /// in order until one fails; the changes of the actions before it remain.
    pub fn execute_at(&mut self, plan: &OperationPlan, now: u64) -> (r: Result<ExecutionResult, Error>)
        ensures
            final(self).dry_run == old(self).dry_run,
            final(self).occupied@ == old(self).occupied@,
            *final(final(self).db) == *final(old(self).db),
            old(self).dry_run ==> *final(self).db == *old(self).db,
            execution_outcome(old(self).db.spec_entries(), final(self).db.spec_entries(), *plan,
                old(self).dry_run, old(self).occupied@, now, r),
    {
        if self.dry_run {
            let port = Self::extract_port_from_plan_dry_run(plan);
            let allocated_ports = Self::extract_allocated_ports_dry_run(plan);
            return Ok(ExecutionResult::dry_run(plan, port, allocated_ports));
        }
        let ghost es0 = self.db.spec_entries();
        let ghost actions = plan.actions@;
        let ghost occ = self.occupied@;
        let mut allocated_ports: Option<TagMap<Port>> = None;
        assert(actions.skip(0) =~= actions);
        let mut i: usize = 0;
        while i < plan.actions.len()
            invariant
                i <= actions.len(),
                actions == plan.actions@,
                !self.dry_run,
                !old(self).dry_run,
                self.occupied@ == occ,
                occ == old(self).occupied@,
                es0 == old(self).db.spec_entries(),
                *final(self.db) == *final(old(self).db),
                run_actions(es0, actions, occ, now) == run_actions(self.db.spec_entries(), actions.skip(i as int), occ, now),
                run_group_ports(es0, actions, occ, now, None) == run_group_ports(self.db.spec_entries(),
                    actions.skip(i as int), occ, now, match allocated_ports { Some(m) => Some(port_entries(m)), None => None }),
            decreases actions.len() - i,
        {
            proof {
                assert(actions.skip(i as int)[0] == actions[i as int]);
                assert(actions.skip(i as int).drop_first() =~= actions.skip(i + 1));
            }
            let step = self.execute_action(&plan.actions[i], now);
            match step {
                Ok(Some(ports)) => {
                    allocated_ports = Some(ports);
                },
                Ok(None) => {},
                Err(e) => {
                    return Err(e);
                },
            }
            i = i + 1;
        }
        proof {
            assert(actions.skip(actions.len() as int).len() == 0);
        }
        let port = self.extract_port_from_plan(plan);
        Ok(ExecutionResult::success(plan, port, allocated_ports))
    }

    /// Applies one action; a group allocation reports its ports.
    fn execute_action(&mut self, action: &PlanAction, now: u64) -> (r: Result<Option<TagMap<Port>>, Error>)
        ensures
            final(self).dry_run == old(self).dry_run,
            final(self).occupied@ == old(self).occupied@,
            *final(final(self).db) == *final(old(self).db),
            ({
                let es = old(self).db.spec_entries();
                let occ = old(self).occupied@;
                match action_outcome(es, *action, occ, now) {
                    Some(next) => final(self).db.spec_entries() == next && (r matches Ok(ports) &&
                        match *action {
                            PlanAction::AllocateGroup { request, policy, full_config, occupancy_config } =>
                                ports matches Some(m) && port_entries(m) == group_ports(es, request, full_config,
                                    occupancy_config, occ, group_base(es, request, policy, full_config, occupancy_config, occ)->0),
                            _ => ports is None,
                        }),
                    None => final(self).db.spec_entries() == es && r is Err,
                }
            }),
    {
        match action {
            PlanAction::CreateReservation(reservation) => {
                let created = self.db.try_create_reservation_atomic(reservation);
                match created {
                    Ok(true) => Ok(None),
                    _ => {
                        let mut message = owned("Port ");
                        crate::text::push_decimal(&mut message, reservation.port().value() as u64);
                        message.push_str(" was allocated by another process during execution. Please retry the operation.");
                        Err(Error::Validation { field: owned("port"), message })
                    },
                }
            },
            PlanAction::UpdateReservation(reservation) => {
                match self.db.create_reservation(reservation) {
                    Ok(()) => Ok(None),
                    Err(e) => Err(e),
                }
            },
            PlanAction::UpdateLastUsed(key) => {
                let _ = self.db.update_last_used_at(key, now);
                Ok(None)
            },
            PlanAction::DeleteReservation(key) => {
                let _ = self.db.delete_reservation(key);
                Ok(None)
            },
            PlanAction::AllocateGroup { request, policy, full_config, occupancy_config } => {
                let allocator = match allocator_from_config(full_config) {
                    Ok(a) => a,
                    Err(e) => {
                        return Err(e);
                    },
                };
                match allocator.allocate_group(self.db, request, *policy, occupancy_config, &self.occupied, now) {
                    Ok(result) => Ok(Some(result.allocations)),
                    Err(e) => Err(e),
                }
            },
        }
    }

    /// The port the executed plan reports, reading refreshed reservations from the store.
    fn extract_port_from_plan(&self, plan: &OperationPlan) -> (r: Option<Port>)
        ensures
            opt_port(r) == reported_port(plan.actions@, old(self.db).spec_entries()),
    {
        let ghost es = self.db.spec_entries();
        assert(plan.actions@.skip(0) =~= plan.actions@);
        let mut i: usize = 0;
        while i < plan.actions.len()
            invariant
                i <= plan.actions@.len(),
                es == self.db.spec_entries(),
                reported_port(plan.actions@, es) == reported_port(plan.actions@.skip(i as int), es),
            decreases plan.actions@.len() - i,
        {
            proof {
                assert(plan.actions@.skip(i as int)[0] == plan.actions@[i as int]);
                assert(plan.actions@.skip(i as int).drop_first() =~= plan.actions@.skip(i + 1));
            }
            match &plan.actions[i] {
                PlanAction::CreateReservation(r) => {
                    return Some(r.port());
                },
                PlanAction::UpdateReservation(r) => {
                    return Some(r.port());
                },
                PlanAction::UpdateLastUsed(key) => {
                    if let Some(reservation) = self.db.get_reservation(key) {
                        return Some(reservation.port());
                    }
                },
                _ => {},
            }
            i = i + 1;
        }
        None
    }

    /// The port a dry run reports, without reading the store.
    fn extract_port_from_plan_dry_run(plan: &OperationPlan) -> (r: Option<Port>)
        ensures
            opt_port(r) == reported_port_dry_run(plan.actions@),
    {
        assert(plan.actions@.skip(0) =~= plan.actions@);
        let mut i: usize = 0;
        while i < plan.actions.len()
            invariant
                i <= plan.actions@.len(),
                reported_port_dry_run(plan.actions@) == reported_port_dry_run(plan.actions@.skip(i as int)),
            decreases plan.actions@.len() - i,
        {
            proof {
                assert(plan.actions@.skip(i as int)[0] == plan.actions@[i as int]);
                assert(plan.actions@.skip(i as int).drop_first() =~= plan.actions@.skip(i + 1));
            }
            match &plan.actions[i] {
                PlanAction::CreateReservation(r) => {
                    return Some(r.port());
                },
                PlanAction::UpdateReservation(r) => {
                    return Some(r.port());
                },
                _ => {},
            }
            i = i + 1;
        }
        None
    }

    /// A dry run allocates no group ports.
    fn extract_allocated_ports_dry_run(_plan: &OperationPlan) -> (r: Option<TagMap<Port>>)
        ensures
            r is None,
    {
        None
    }
}

} // verus!
