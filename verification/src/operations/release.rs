//! Release operation planning: path validation and idempotent removal.

use vstd::prelude::*;
use crate::database::{entries_unique, key_index, lemma_key_index, lemma_key_index_unique, lookup, remove_key, Database};
use crate::operations::executor::{action_outcome, run_actions};
use crate::reservation::Reservation;
use crate::error::Error;
use crate::operations::plan::{OperationPlan, PlanAction};
use crate::path::relationship::spec_between;
use crate::reservation::ReservationKey;
use crate::text::owned;

verus! {

/// Options for a release operation.
#[derive(Debug)]
pub struct ReleaseOptions {
    /// The reservation key to release.
    pub key: ReservationKey,
    /// Force flag - overrides all protections.
    pub force: bool,
    /// Allow operations on unrelated paths.
    pub allow_unrelated_path: bool,
}

impl ReleaseOptions {
    /// Creates options for releasing `key`, with every flag off.
    pub fn new(key: ReservationKey) -> (o: Self)
        ensures
            o.key == key,
            !o.force,
            !o.allow_unrelated_path,
    {
        ReleaseOptions { key, force: false, allow_unrelated_path: false }
    }

    /// Sets the force flag.
    pub fn with_force(self, force: bool) -> (o: Self)
        ensures o == (ReleaseOptions { force, ..self }),
    {
        ReleaseOptions { force, ..self }
    }

    /// Sets the `allow_unrelated_path` flag.
    pub fn with_allow_unrelated_path(self, allow: bool) -> (o: Self)
        ensures o == (ReleaseOptions { allow_unrelated_path: allow, ..self }),
    {
        ReleaseOptions { allow_unrelated_path: allow, ..self }
    }
}

/// A release plan generator.
pub struct ReleasePlan {
    options: ReleaseOptions,
}

impl ReleasePlan {
    /// The options being planned.
    pub closed spec fn spec_options(&self) -> ReleaseOptions { self.options }

    /// Creates a new release plan with the given options.
    pub fn new(options: ReleaseOptions) -> (p: Self)
        ensures p.spec_options() == options,
    {
        ReleasePlan { options }
    }

    /// Builds the plan for this release request without changing the store.
    ///
    /// Unless forced or allowed, the key's path must be related to
    /// `working_dir`. An existing reservation yields one deletion; a missing
    /// one yields no action and a warning (releasing is idempotent).
    pub fn build_plan(&self, db: &Database, working_dir: &str) -> (r: Result<OperationPlan, Error>)
        ensures
            ({
                let o = self.spec_options();
                let path_bad = !o.force && !o.allow_unrelated_path
                    && spec_between(o.key.path@, working_dir@) is Unrelated;
                &&& path_bad ==> (r matches Err(Error::PathRelationshipViolation { .. }))
                &&& !path_bad ==> (r is Ok)
                &&& (r matches Ok(plan) ==> plan.description@ == "Release reservation for "@ + o.key.spec_display())
                &&& (!path_bad && lookup(db.spec_entries(), o.key@) is Some) ==> (r matches Ok(plan)
                    && plan.actions@.len() == 1 && plan.warnings@.len() == 0
                    && (plan.actions@[0] matches PlanAction::DeleteReservation(k) && k@ == o.key@))
                &&& (!path_bad && lookup(db.spec_entries(), o.key@) is None) ==> (r matches Ok(plan)
                    && plan.actions@.len() == 0 && plan.warnings@.len() == 1
                    && plan.warnings@[0]@ == "No reservation found for "@ + o.key.spec_display()
                        + " (already released)"@)
            }),
    {
        let key_text = self.options.key.to_display_string();
        let mut description = owned("Release reservation for ");
        description.push_str(key_text.as_str());
        let mut plan = OperationPlan::new(description.as_str());

        if !self.options.force && !self.options.allow_unrelated_path {
            Database::validate_path_relationship(self.options.key.path.as_str(), false, working_dir)?;
        }

        if db.get_reservation(&self.options.key).is_some() {
            plan = plan.add_action(PlanAction::DeleteReservation(self.options.key.clone()));
        } else {
            let mut warning = owned("No reservation found for ");
            warning.push_str(key_text.as_str());
            warning.push_str(" (already released)");
            plan = plan.add_warning(warning.as_str());
        }
        Ok(plan)
    }
}

/// Releasing is idempotent: with keys unique, running a release's deletion
/// leaves nothing under the key, so releasing again plans no action, and
/// every other key keeps what it held.
pub proof fn lemma_release_idempotent(es: Seq<Reservation>, k: ReservationKey, occupied: Seq<u16>, now: u64)
    requires
        entries_unique(es),
    ensures
        ({
            let after = run_actions(es, seq![PlanAction::DeleteReservation(k)], occupied, now);
            &&& after.1
            &&& after.0 == remove_key(es, k@)
            &&& lookup(after.0, k@) is None
            &&& forall|k2: (Seq<char>, Option<Seq<char>>)| k2 != k@ ==> #[trigger] lookup(after.0, k2) == lookup(es, k2)
        }),
{
    let acts = seq![PlanAction::DeleteReservation(k)];
    assert(acts.drop_first() =~= Seq::<PlanAction>::empty());
    let n = remove_key(es, k@);
    assert(action_outcome(es, acts[0], occupied, now) == Some(n));
    assert(run_actions(n, acts.drop_first(), occupied, now) == (n, true));
    lemma_key_index(es, k@);
    let i = key_index(es, k@);
    lemma_key_index(n, k@);
    if i >= 0 {
        assert forall|j: int| 0 <= j < n.len() implies (#[trigger] n[j])@.key != k@ by {
            if j < i {
                assert(n[j] == es[j]);
                assert(es[j]@.key != es[i]@.key);
            } else {
                assert(n[j] == es[j + 1]);
                assert(es[i]@.key != es[j + 1]@.key);
            }
        }
    }
    assert forall|k2: (Seq<char>, Option<Seq<char>>)| k2 != k@ implies #[trigger] lookup(n, k2) == lookup(es, k2) by {
        lemma_key_index(es, k2);
        lemma_key_index(n, k2);
        let j = key_index(es, k2);
        if i >= 0 {
            assert(entries_unique(n)) by {
                assert forall|x: int, y: int| 0 <= x < y < n.len() implies
                    (#[trigger] n[x])@.key != (#[trigger] n[y])@.key && n[x]@.port != n[y]@.port by {
                    let xo = if x < i { x } else { x + 1 };
                    let yo = if y < i { y } else { y + 1 };
                    assert(n[x] == es[xo] && n[y] == es[yo] && xo < yo);
                }
            }
            if j >= 0 {
                assert(j != i);
                let jn = if j < i { j } else { j - 1 };
                assert(n[jn] == es[j]);
                lemma_key_index_unique(n, k2, jn);
            } else {
                assert forall|m: int| 0 <= m < n.len() implies (#[trigger] n[m])@.key != k2 by {
                    if m < i { assert(n[m] == es[m]); } else { assert(n[m] == es[m + 1]); }
                }
            }
        }
    }
}

} // verus!
