//! Plan types for reservation operations.

use vstd::prelude::*;
use crate::config::{Config, OccupancyCheckConfig};
use crate::group::{GroupAllocationRequest, GroupReconciliationPolicy};
use crate::reservation::{Reservation, ReservationKey};
use crate::text::{decimal, owned, push_decimal};

verus! {

/// A single action to be taken during plan execution.
///
/// `CreateReservation` and `UpdateReservation` both store the reservation;
/// they differ only in the intent they record.
#[derive(Debug)]
pub enum PlanAction {
    /// Create a new reservation.
    CreateReservation(Reservation),
    /// Update an existing reservation.
    UpdateReservation(Reservation),
    /// Update the last-used time of a reservation.
    UpdateLastUsed(ReservationKey),
    /// Delete a reservation.
    DeleteReservation(ReservationKey),
    /// Allocate a group of related ports.
    AllocateGroup {
        /// The group allocation request.
        request: GroupAllocationRequest,
        /// Which sticky-field changes are permitted.
        policy: GroupReconciliationPolicy,
        /// Full configuration (needed for port allocation).
        full_config: Config,
        /// Occupancy check configuration.
        occupancy_config: OccupancyCheckConfig,
    },
}

impl PlanAction {
    /// The human-readable description of an action.
    pub open spec fn spec_description(&self) -> Seq<char> {
        match self {
            PlanAction::CreateReservation(r) => "Create reservation for "@ + r.spec_key().spec_display()
                + " on port "@ + decimal(r.spec_port()@ as nat),
            PlanAction::UpdateReservation(r) => "Update reservation for "@ + r.spec_key().spec_display()
                + " to port "@ + decimal(r.spec_port()@ as nat),
            PlanAction::UpdateLastUsed(k) => "Update last_used_at timestamp for "@ + k.spec_display(),
            PlanAction::DeleteReservation(k) => "Delete reservation for "@ + k.spec_display(),
            PlanAction::AllocateGroup { request, .. } => "Allocate group of "@
                + decimal(request.services@.len()) + " services at "@ + request.base_path@,
        }
    }

    /// Returns a human-readable description of this action.
    pub fn description(&self) -> (s: String)
        ensures
            s@ == self.spec_description(),
    {
        match self {
            PlanAction::CreateReservation(r) => {
                let mut s = owned("Create reservation for ");
                let k = r.key().to_display_string();
                s.push_str(k.as_str());
                s.push_str(" on port ");
                push_decimal(&mut s, r.port().value() as u64);
                s
            },
            PlanAction::UpdateReservation(r) => {
                let mut s = owned("Update reservation for ");
                let k = r.key().to_display_string();
                s.push_str(k.as_str());
                s.push_str(" to port ");
                push_decimal(&mut s, r.port().value() as u64);
                s
            },
            PlanAction::UpdateLastUsed(key) => {
                let mut s = owned("Update last_used_at timestamp for ");
                let k = key.to_display_string();
                s.push_str(k.as_str());
                s
            },
            PlanAction::DeleteReservation(key) => {
                let mut s = owned("Delete reservation for ");
                let k = key.to_display_string();
                s.push_str(k.as_str());
                s
            },
            PlanAction::AllocateGroup { request, .. } => {
                let mut s = owned("Allocate group of ");
                push_decimal(&mut s, request.services.len() as u64);
                s.push_str(" services at ");
                s.push_str(request.base_path.as_str());
                s
            },
        }
    }
}

/// A complete operation plan: a description, the actions in order, and warnings.
#[derive(Debug)]
pub struct OperationPlan {
    /// A human-readable description of the operation.
    pub description: String,
    /// The sequence of actions to perform.
    pub actions: Vec<PlanAction>,
    /// Warnings to communicate to the user.
    pub warnings: Vec<String>,
}

impl OperationPlan {
    /// Creates an empty plan with the given description.
    pub fn new(description: &str) -> (p: Self)
        ensures
            p.description@ == description@,
            p.actions@.len() == 0,
            p.warnings@.len() == 0,
    {
        OperationPlan { description: owned(description), actions: Vec::new(), warnings: Vec::new() }
    }

    /// Adds an action to the end of the plan.
    pub fn add_action(self, action: PlanAction) -> (p: Self)
        ensures
            p.description == self.description,
            p.actions@ == self.actions@.push(action),
            p.warnings@ == self.warnings@,
    {
        let mut p = self;
        p.actions.push(action);
        p
    }

    /// Adds a warning to the end of the plan.
    pub fn add_warning(self, warning: &str) -> (p: Self)
        ensures
            p.description == self.description,
            p.actions@ == self.actions@,
            p.warnings@.len() == self.warnings@.len() + 1,
            forall|i: int| 0 <= i < self.warnings@.len() ==> p.warnings@[i] == self.warnings@[i],
            p.warnings@.last()@ == warning@,
    {
        let mut p = self;
        p.warnings.push(owned(warning));
        p
    }

    /// Checks if the plan has no actions.
    pub fn is_empty(&self) -> (r: bool)
        ensures
            r == (self.actions@.len() == 0),
    {
        self.actions.len() == 0
    }

    /// Returns the number of actions in the plan.
    pub fn len(&self) -> (r: usize)
        ensures
            r == self.actions@.len(),
    {
        self.actions.len()
    }
}

} // verus!
