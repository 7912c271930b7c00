//! Moving reservations from one path to another.
//!
//! A migration keeps every reservation's port, tag, project, task and
//! timestamps; only the path changes, by replacing the source prefix with the
//! destination.

use vstd::prelude::*;
use crate::database::{lookup, Database};
use crate::error::Error;
use crate::path::components::{components, path_components, render, seqs_of};
use crate::path::normalize::{join, join_path, normalize_with, render_components, spec_normalize};
use crate::path::relationship::{components_prefix, lemma_between_reflexive, spec_between, PathRelationship};
use crate::reservation::{clone_opt_string, opt_view, Reservation, ReservationKey, ReservationView};
use crate::text::{owned, push_decimal};
use super::executor::{run_actions, PlanExecutor};
use super::plan::{OperationPlan, PlanAction};

verus! {

/// Options for a migration.
#[derive(Debug, Clone)]
pub struct MigrateOptions {
    /// Source path to migrate from.
    pub from_path: String,
    /// Destination path to migrate to.
    pub to_path: String,
    /// Migrate all sub-paths too.
    pub recursive: bool,
    /// Overwrite existing reservations at the destination.
    pub force: bool,
    /// Preview changes without applying them.
    pub dry_run: bool,
}

impl MigrateOptions {
    /// Options for moving `from_path` to `to_path`, with every flag off.
    pub fn new(from_path: String, to_path: String) -> (o: Self)
        ensures
            o.from_path == from_path,
            o.to_path == to_path,
            !o.recursive,
            !o.force,
            !o.dry_run,
    {
        MigrateOptions { from_path, to_path, recursive: false, force: false, dry_run: false }
    }

    /// Sets the recursive flag.
    pub fn with_recursive(self, recursive: bool) -> (o: Self)
        ensures o == (MigrateOptions { recursive, ..self }),
    {
        MigrateOptions { recursive, ..self }
    }

    /// Sets the force flag.
    pub fn with_force(self, force: bool) -> (o: Self)
        ensures o == (MigrateOptions { force, ..self }),
    {
        MigrateOptions { force, ..self }
    }

    /// Sets the dry-run flag.
    pub fn with_dry_run(self, dry_run: bool) -> (o: Self)
        ensures o == (MigrateOptions { dry_run, ..self }),
    {
        MigrateOptions { dry_run, ..self }
    }
}

/// The path `original` takes when its prefix `from` is replaced by `to`
/// (component-wise), or `None` when `from` is not a prefix of it.
pub open spec fn spec_new_path(original: Seq<char>, from: Seq<char>, to: Seq<char>) -> Option<Seq<char>> {
    let co = components(original);
    let cf = components(from);
    if cf.is_prefix_of(co) {
        let rest = co.skip(cf.len() as int);
        Some(if rest.len() == 0 { to } else { join_path(to, render(rest)) })
    } else {
        None
    }
}

/// Replaces the prefix `from_prefix` of `original_path` with `to_prefix`.
///
/// Fails with `InvalidPath` when `original_path` does not start with
/// `from_prefix`, compared component by component.
pub fn calculate_new_path(original_path: &str, from_prefix: &str, to_prefix: &str) -> (r: Result<String, Error>)
    ensures
        r is Ok <==> spec_new_path(original_path@, from_prefix@, to_prefix@) is Some,
        r matches Ok(s) ==> Some(s@) == spec_new_path(original_path@, from_prefix@, to_prefix@),
        r matches Err(e) ==> e is InvalidPath,
{
    let co = path_components(original_path);
    let cf = path_components(from_prefix);
    if !components_prefix(&cf, &co) {
        let mut reason = owned("Path ");
        reason.push_str(original_path);
        reason.push_str(" does not start with prefix ");
        reason.push_str(from_prefix);
        return Err(Error::InvalidPath { path: owned(original_path), reason });
    }
    let k = cf.len();
    let mut rest: Vec<Vec<char>> = Vec::new();
    let mut i: usize = k;
    while i < co.len()
        invariant
            k <= i <= co@.len(),
            k == cf@.len(),
            rest@.len() == i - k,
            forall|j: int| 0 <= j < rest@.len() ==> (#[trigger] rest@[j])@ == co@[k + j]@,
        decreases co@.len() - i,
    {
        let piece = co[i].clone();
        assert(piece@ =~= co@[i as int]@) by {
            assert forall|j: int| 0 <= j < piece@.len() implies piece@[j] == co@[i as int]@[j] by {
                assert(vstd::pervasive::cloned(co@[i as int]@[j], piece@[j]));
            }
        }
        rest.push(piece);
        i = i + 1;
    }
    assert(seqs_of(rest@) =~= seqs_of(co@).skip(k as int));
    if rest.len() == 0 {
        return Ok(owned(to_prefix));
    }
    let relative = render_components(&rest);
    Ok(join(to_prefix, relative.as_str()))
}

/// Whether a reservation is moved: in a recursive migration, one at the
/// source path or below it; otherwise one whose path normalizes to the source.
pub open spec fn is_selected(r: Reservation, from: Seq<char>, recursive: bool, home: Option<Seq<char>>, working_dir: Seq<char>) -> bool {
    if recursive {
        spec_between(r@.key.0, from) is Same || spec_between(r@.key.0, from) is Descendant
    } else {
        spec_normalize(r@.key.0, home, working_dir) == Some(from)
    }
}

/// The reservations a migration moves, in store order.
pub open spec fn selected_entries(
    es: Seq<Reservation>,
    from: Seq<char>,
    recursive: bool,
    home: Option<Seq<char>>,
    working_dir: Seq<char>,
) -> Seq<Reservation>
    decreases es.len(),
{
    if es.len() == 0 {
        Seq::empty()
    } else {
        let rest = selected_entries(es.drop_last(), from, recursive, home, working_dir);
        if is_selected(es.last(), from, recursive, home, working_dir) { rest.push(es.last()) } else { rest }
    }
}

/// Which reservations a migration moves, and in what order: exactly those
/// of the store that lie at the source path (an exact migration: their
/// path normalizes to the source) or at or below it (a recursive one), each
/// once, in store order. So an exact migration never moves a reservation
/// whose normalized path lies strictly below the source.
pub proof fn lemma_migration_selection(
    es: Seq<Reservation>,
    from: Seq<char>,
    recursive: bool,
    home: Option<Seq<char>>,
    working_dir: Seq<char>,
)
    ensures
        forall|x: Reservation| #[trigger] selected_entries(es, from, recursive, home, working_dir).contains(x) <==> es.contains(x) && (if recursive {
            spec_between(x@.key.0, from) is Same || spec_between(x@.key.0, from) is Descendant
        } else {
            spec_normalize(x@.key.0, home, working_dir) == Some(from)
        }),
        !recursive ==> forall|x: Reservation| es.contains(x) && (spec_normalize(x@.key.0, home, working_dir) matches Some(n)
            && spec_between(n, from) is Descendant) ==> !(#[trigger] selected_entries(es, from, recursive, home, working_dir).contains(x)),
        selected_entries(es, from, recursive, home, working_dir).len() <= es.len(),
    decreases es.len(),
{
    let sel = selected_entries(es, from, recursive, home, working_dir);
    if es.len() > 0 {
        let d = es.drop_last();
        lemma_migration_selection(d, from, recursive, home, working_dir);
        let rest = selected_entries(d, from, recursive, home, working_dir);
        assert(es =~= d.push(es.last()));
        assert forall|x: Reservation| #[trigger] sel.contains(x) <==> es.contains(x) && (if recursive {
            spec_between(x@.key.0, from) is Same || spec_between(x@.key.0, from) is Descendant
        } else {
            spec_normalize(x@.key.0, home, working_dir) == Some(from)
        }) by {
            if is_selected(es.last(), from, recursive, home, working_dir) {
                assert(sel == rest.push(es.last()));
                if sel.contains(x) {
                    let i = choose|i: int| 0 <= i < sel.len() && sel[i] == x;
                    if i < rest.len() {
                        assert(rest[i] == x);
                        assert(rest.contains(x));
                    }
                }
                if rest.contains(x) {
                    let i = choose|i: int| 0 <= i < rest.len() && rest[i] == x;
                    assert(sel[i] == x);
                }
                if x == es.last() {
                    assert(sel[sel.len() - 1] == x);
                }
            }
            if es.contains(x) {
                let i = choose|i: int| 0 <= i < es.len() && es[i] == x;
                if i < d.len() {
                    assert(d[i] == x);
                }
            }
            if d.contains(x) {
                let i = choose|i: int| 0 <= i < d.len() && d[i] == x;
                assert(es[i] == x);
            }
        }
    }
    assert forall|x: Reservation| !recursive && es.contains(x) && (spec_normalize(x@.key.0, home, working_dir) matches Some(n)
        && spec_between(n, from) is Descendant) implies !(#[trigger] sel.contains(x)) by {
        lemma_between_reflexive(from);
    }
}

/// The key a moved reservation gets, or `None` when its path cannot be
/// normalized or moved, or its tag is empty.
pub open spec fn migration_target(
    r: Reservation,
    from: Seq<char>,
    to: Seq<char>,
    home: Option<Seq<char>>,
    working_dir: Seq<char>,
) -> Option<(Seq<char>, Option<Seq<char>>)> {
    match spec_normalize(r@.key.0, home, working_dir) {
        None => None,
        Some(p) => match spec_new_path(p, from, to) {
            None => None,
            Some(raw) => match spec_normalize(raw, home, working_dir) {
                None => None,
                Some(np) => if r@.key.1 matches Some(t) && t.len() == 0 { None } else { Some((np, r@.key.1)) },
            },
        },
    }
}

/// Whether every moved reservation has a target key.
pub open spec fn all_targets(sel: Seq<Reservation>, from: Seq<char>, to: Seq<char>, home: Option<Seq<char>>, working_dir: Seq<char>) -> bool {
    forall|i: int| 0 <= i < sel.len() ==> (#[trigger] migration_target(sel[i], from, to, home, working_dir)) is Some
}

/// The target keys that already hold a reservation in `es`, in order.
pub open spec fn conflict_keys(
    sel: Seq<Reservation>,
    es: Seq<Reservation>,
    from: Seq<char>,
    to: Seq<char>,
    home: Option<Seq<char>>,
    working_dir: Seq<char>,
) -> Seq<(Seq<char>, Option<Seq<char>>)>
    decreases sel.len(),
{
    if sel.len() == 0 {
        Seq::empty()
    } else {
        let rest = conflict_keys(sel.drop_last(), es, from, to, home, working_dir);
        let t = migration_target(sel.last(), from, to, home, working_dir)->0;
        if lookup(es, t) is Some { rest.push(t) } else { rest }
    }
}

/// One reservation to move.
#[derive(Debug)]
pub struct MigrationItem {
    /// The original reservation key.
    pub from_key: ReservationKey,
    /// The new reservation key.
    pub to_key: ReservationKey,
    /// The reservation data to preserve.
    pub reservation: Reservation,
}

/// A migration plan: what will be moved, and which destinations are taken.
#[derive(Debug)]
pub struct MigratePlan {
    /// The migration options.
    pub options: MigrateOptions,
    /// The reservations to move.
    pub migrations: Vec<MigrationItem>,
    /// Destination keys that already hold a reservation.
    pub conflicts: Vec<ReservationKey>,
}

/// What an executed migration reports.
#[derive(Debug)]
pub struct MigrateResult {
    /// Number of reservations migrated.
    pub migrated_count: usize,
    /// Number of conflicts resolved (when forced).
    pub conflicts_resolved: usize,
    /// Source path.
    pub from_path: String,
    /// Destination path.
    pub to_path: String,
}

impl MigratePlan {
    /// An empty plan for the given options.
    pub fn new(options: MigrateOptions) -> (p: Self)
        ensures
            p.options == options,
            p.migrations@.len() == 0,
            p.conflicts@.len() == 0,
    {
        MigratePlan { options, migrations: Vec::new(), conflicts: Vec::new() }
    }

    /// The number of reservations to migrate.
    pub fn migration_count(&self) -> (r: usize)
        ensures r == self.migrations@.len(),
    {
        self.migrations.len()
    }

    /// The number of destination keys that already hold a reservation.
    pub fn conflict_count(&self) -> (r: usize)
        ensures r == self.conflicts@.len(),
    {
        self.conflicts.len()
    }
}

/// The reservations of `db` that a migration from `from` moves.
fn select_reservations(
    db: &Database,
    from: &str,
    recursive: bool,
    home: &Option<String>,
    working_dir: &str,
) -> (r: Vec<Reservation>)
    ensures
        r@ == selected_entries(db.spec_entries(), from@, recursive, opt_view(*home), working_dir@),
{
    let all = db.list_all_reservations();
    let ghost es = all@;
    let mut out: Vec<Reservation> = Vec::new();
    let mut i: usize = 0;
    while i < all.len()
        invariant
            i <= es.len(),
            es == all@,
            es == db.spec_entries(),
            out@ == selected_entries(es.take(i as int), from@, recursive, opt_view(*home), working_dir@),
        decreases es.len() - i,
    {
        proof {
            assert(es.take(i + 1).drop_last() =~= es.take(i as int));
            assert(es.take(i + 1).last() == es[i as int]);
        }
        let r = &all[i];
        let pick = if recursive {
            let rel = PathRelationship::between(r.key().path.as_str(), from);
            rel == PathRelationship::Same || rel == PathRelationship::Descendant
        } else {
            match normalize_with(r.key().path.as_str(), clone_opt_string(home), working_dir) {
                Ok(p) => p == owned(from),
                Err(_) => false,
            }
        };
        if pick {
            out.push(r.clone());
        }
        i = i + 1;
    }
    assert(es.take(es.len() as int) =~= es);
    out
}

/// What building a migration plan does, for the store entries `es`, the
/// home directory `h` and the working directory `wd`: `before` is the plan
/// beforehand, `after` the plan afterwards, and `r` the outcome.
pub open spec fn build_outcome(
    before: MigratePlan,
    after: MigratePlan,
    es: Seq<Reservation>,
    h: Option<Seq<char>>,
    wd: Seq<char>,
    r: Result<(), Error>,
) -> bool {
    let o = before.options;
    let om = before.migrations@;
    let oc = before.conflicts@;
    &&& after.options == before.options
    &&& match (spec_normalize(o.from_path@, h, wd), spec_normalize(o.to_path@, h, wd)) {
            (Some(f), Some(t)) => {
                let sel = selected_entries(es, f, o.recursive, h, wd);
                &&& (!o.recursive && sel.len() == 0) ==> (r matches Err(e) && e is NotFound)
                &&& ((o.recursive || sel.len() > 0) && !all_targets(sel, f, t, h, wd)) ==> r is Err
                &&& ((o.recursive || sel.len() > 0) && all_targets(sel, f, t, h, wd)) ==> {
                    let ck = conflict_keys(sel, es, f, t, h, wd);
                    &&& (r is Ok <==> (oc.len() + ck.len() == 0 || o.force))
                    &&& (r matches Err(e) ==> e is ReservationConflict)
                    &&& after.migrations@.len() == om.len() + sel.len()
                    &&& (forall|i: int| 0 <= i < om.len() ==> #[trigger] after.migrations@[i] == om[i])
                    &&& (forall|i: int| 0 <= i < sel.len() ==> {
                        let m = #[trigger] after.migrations@[om.len() + i];
                        &&& m.from_key@ == sel[i]@.key
                        &&& m.to_key@ == migration_target(sel[i], f, t, h, wd)->0
                        &&& m.reservation == sel[i]
                    })
                    &&& after.conflicts@.len() == oc.len() + ck.len()
                    &&& (forall|i: int| 0 <= i < oc.len() ==> #[trigger] after.conflicts@[i] == oc[i])
                    &&& (forall|j: int| 0 <= j < ck.len() ==> (#[trigger] after.conflicts@[oc.len() + j])@ == ck[j])
                }
            },
            _ => r is Err,
        }
}

/// The key a reservation moves to.
fn target_key(r: &Reservation, from: &String, to: &String, home: &Option<String>, working_dir: &str) -> (k: Result<ReservationKey, Error>)
    ensures
        k is Ok <==> migration_target(*r, from@, to@, opt_view(*home), working_dir@) is Some,
        k matches Ok(key) ==> key@ == migration_target(*r, from@, to@, opt_view(*home), working_dir@)->0,
{
    let pn = normalize_with(r.key().path.as_str(), clone_opt_string(home), working_dir)?;
    let raw = calculate_new_path(pn.as_str(), from.as_str(), to.as_str())?;
    let np = normalize_with(raw.as_str(), clone_opt_string(home), working_dir)?;
    ReservationKey::new(np, clone_opt_string(&r.key().tag))
}

impl MigratePlan {
    /// Finds what to move, with the given home directory and working directory.
    ///
    /// Both paths are normalized; the reservations at the source (and, when
    /// recursive, below it) are listed in store order, each with the key it
    /// gets by replacing the source prefix with the destination. Destination
    /// keys that already hold a reservation are recorded as conflicts, and
    /// refused unless forced. A non-recursive migration with nothing to move
    /// is refused with `NotFound`.
    pub fn build_with(&mut self, db: &Database, home: Option<String>, working_dir: &str) -> (r: Result<(), Error>)
        ensures
            build_outcome(*old(self), *final(self), db.spec_entries(), opt_view(home), working_dir@, r),
    {
        let ghost h = opt_view(home);
        let ghost wd = working_dir@;
        let ghost es = db.spec_entries();
        let from_n = normalize_with(self.options.from_path.as_str(), clone_opt_string(&home), working_dir)?;
        let to_n = normalize_with(self.options.to_path.as_str(), clone_opt_string(&home), working_dir)?;
        let selected = select_reservations(db, from_n.as_str(), self.options.recursive, &home, working_dir);
        let ghost sel = selected@;
        let ghost f = from_n@;
        let ghost t = to_n@;
        if !self.options.recursive && selected.len() == 0 {
            let mut resource = owned("reservation at ");
            resource.push_str(from_n.as_str());
            return Err(Error::NotFound { resource });
        }
        let ghost om = self.migrations@;
        let ghost oc = self.conflicts@;
        let ghost opts = self.options;
        let mut i: usize = 0;
        while i < selected.len()
            invariant
                i <= sel.len(),
                sel == selected@,
                sel == selected_entries(es, f, opts.recursive, h, wd),
                es == db.spec_entries(),
                h == opt_view(home),
                wd == working_dir@,
                f == from_n@,
                t == to_n@,
                self.options == opts,
                opts == old(self).options,
                om == old(self).migrations@,
                oc == old(self).conflicts@,
                spec_normalize(opts.from_path@, h, wd) == Some(f),
                spec_normalize(opts.to_path@, h, wd) == Some(t),
                opts.recursive || sel.len() > 0,
                forall|j: int| 0 <= j < i ==> (#[trigger] migration_target(sel[j], f, t, h, wd)) is Some,
                self.migrations@.len() == om.len() + i,
                forall|j: int| 0 <= j < om.len() ==> #[trigger] self.migrations@[j] == om[j],
                forall|j: int| 0 <= j < i ==> {
                    let m = #[trigger] self.migrations@[om.len() + j];
                    &&& m.from_key@ == sel[j]@.key
                    &&& m.to_key@ == migration_target(sel[j], f, t, h, wd)->0
                    &&& m.reservation == sel[j]
                },
                self.conflicts@.len() == oc.len() + conflict_keys(sel.take(i as int), es, f, t, h, wd).len(),
                forall|j: int| 0 <= j < oc.len() ==> #[trigger] self.conflicts@[j] == oc[j],
                forall|j: int| 0 <= j < conflict_keys(sel.take(i as int), es, f, t, h, wd).len()
                    ==> (#[trigger] self.conflicts@[oc.len() + j])@ == conflict_keys(sel.take(i as int), es, f, t, h, wd)[j],
            decreases sel.len() - i,
        {
            let r = &selected[i];
            let ghost rv = sel[i as int];
            proof {
                assert(sel.take(i + 1).drop_last() =~= sel.take(i as int));
                assert(sel.take(i + 1).last() == rv);
            }
            let to_key = match target_key(r, &from_n, &to_n, &home, working_dir) {
                Ok(k) => k,
                Err(e) => {
                    return Err(e);
                },
            };
            assert(to_key@ == migration_target(sel[i as int], f, t, h, wd)->0);
            let ghost ck_before = conflict_keys(sel.take(i as int), es, f, t, h, wd);
            if db.get_reservation(&to_key).is_some() {
                self.conflicts.push(to_key.clone());
                proof {
                    let ck = conflict_keys(sel.take(i + 1), es, f, t, h, wd);
                    assert(ck == ck_before.push(to_key@));
                }
            }
            self.migrations.push(MigrationItem { from_key: r.key().clone(), to_key, reservation: r.clone() });
            i = i + 1;
        }
        proof {
            assert(sel.take(sel.len() as int) =~= sel);
        }
        if self.conflicts.len() > 0 && !self.options.force {
            let mut details = owned("Found ");
            push_decimal(&mut details, self.conflicts.len() as u64);
            details.push_str(" conflicting reservation(s) at destination. Use --force to overwrite.");
            return Err(Error::ReservationConflict { details });
        }
        Ok(())
    }

    /// Finds what to move, against the given working directory, with `~`
    /// standing for the current user's home directory.
    pub fn build(&mut self, db: &Database, working_dir: &str) -> (r: Result<(), Error>)
        ensures
            exists|h: Option<Seq<char>>| build_outcome(*old(self), *final(self), db.spec_entries(), h, working_dir@, r),
    {
        let home = crate::path::normalize::home_directory();
        let r = self.build_with(db, home, working_dir);
        assert(build_outcome(*old(self), *self, db.spec_entries(), opt_view(home), working_dir@, r));
        r
    }
}

/// The reservation a migration item creates: the original one under its new key.
pub open spec fn moved_reservation(m: MigrationItem) -> Reservation {
    Reservation::spec_make(m.to_key, m.reservation.spec_port(), m.reservation.spec_project(),
        m.reservation.spec_task(), m.reservation.spec_created_at(), m.reservation.spec_last_used_at())
}

/// A migration moves a reservation without changing it: the port, project,
/// task and both timestamps carry over to the destination key.
pub proof fn lemma_migration_preserves_reservation(m: MigrationItem)
    ensures
        moved_reservation(m)@ == (ReservationView { key: m.to_key@, ..m.reservation@ }),
{
    Reservation::lemma_make(m.to_key, m.reservation.spec_port(), m.reservation.spec_project(),
        m.reservation.spec_task(), m.reservation.spec_created_at(), m.reservation.spec_last_used_at());
}

/// How many conflict deletions lead a migration's actions.
pub open spec fn conflict_deletions(p: MigratePlan) -> int {
    if p.options.force { p.conflicts@.len() as int } else { 0 }
}

/// The action at position `k` of a migration: first the deletion of each
/// conflict when forced, then, for each item, the deletion of its old key and
/// the creation of its moved reservation.
pub open spec fn migration_action_at(p: MigratePlan, k: int) -> PlanAction {
    let c = conflict_deletions(p);
    if k < c {
        PlanAction::DeleteReservation(p.conflicts@[k])
    } else if (k - c) % 2 == 0 {
        PlanAction::DeleteReservation(p.migrations@[(k - c) / 2].from_key)
    } else {
        PlanAction::CreateReservation(moved_reservation(p.migrations@[(k - c) / 2]))
    }
}

/// The actions of a migration, in order.
pub open spec fn migration_actions(p: MigratePlan) -> Seq<PlanAction> {
    if p.migrations@.len() == 0 && p.conflicts@.len() == 0 {
        Seq::empty()
    } else {
        Seq::new((conflict_deletions(p) + 2 * p.migrations@.len()) as nat, |k: int| migration_action_at(p, k))
    }
}

/// Turns a migration plan into the operation plan that carries it out.
pub fn to_operation_plan(migrate_plan: &MigratePlan) -> (plan: OperationPlan)
    ensures
        plan.description@ == "Migrate reservations from "@ + migrate_plan.options.from_path@ + " to "@
            + migrate_plan.options.to_path@,
        plan.actions@ == migration_actions(*migrate_plan),
        migrate_plan.migrations@.len() == 0 && migrate_plan.conflicts@.len() == 0 ==>
            plan.warnings@.len() == 1 && plan.warnings@[0]@ == "No reservations to migrate"@,
        !(migrate_plan.migrations@.len() == 0 && migrate_plan.conflicts@.len() == 0) ==> plan.warnings@.len() == 0,
{
    let mut description = owned("Migrate reservations from ");
    description.push_str(migrate_plan.options.from_path.as_str());
    description.push_str(" to ");
    description.push_str(migrate_plan.options.to_path.as_str());
    let mut plan = OperationPlan::new(description.as_str());
    if migrate_plan.migrations.len() == 0 && migrate_plan.conflicts.len() == 0 {
        plan = plan.add_warning("No reservations to migrate");
        return plan;
    }
    let ghost p = *migrate_plan;
    let ghost desc = plan.description;
    let mut c: usize = 0;
    if migrate_plan.options.force {
        let mut j: usize = 0;
        while j < migrate_plan.conflicts.len()
            invariant
                p == *migrate_plan,
                p.options.force,
                j <= p.conflicts@.len(),
                plan.description == desc,
                plan.warnings@.len() == 0,
                plan.actions@.len() == j,
                forall|k: int| 0 <= k < j ==> #[trigger] plan.actions@[k] == migration_action_at(p, k),
            decreases p.conflicts@.len() - j,
        {
            plan = plan.add_action(PlanAction::DeleteReservation(migrate_plan.conflicts[j].clone()));
            j = j + 1;
        }
        c = migrate_plan.conflicts.len();
    }
    let mut i: usize = 0;
    while i < migrate_plan.migrations.len()
        invariant
            p == *migrate_plan,
            c == conflict_deletions(p),
            i <= p.migrations@.len(),
            plan.description == desc,
            plan.warnings@.len() == 0,
            plan.actions@.len() == c + 2 * i,
            forall|k: int| 0 <= k < c + 2 * i ==> #[trigger] plan.actions@[k] == migration_action_at(p, k),
        decreases p.migrations@.len() - i,
    {
        let item = &migrate_plan.migrations[i];
        plan = plan.add_action(PlanAction::DeleteReservation(item.from_key.clone()));
        let moved = Reservation::builder(item.to_key.clone(), item.reservation.port())
            .project(item.reservation.project_owned())
            .task(item.reservation.task_owned())
            .created_at(item.reservation.created_at())
            .last_used_at(item.reservation.last_used_at())
            .build_at(item.reservation.last_used_at());
        assert(moved == moved_reservation(p.migrations@[i as int]));
        plan = plan.add_action(PlanAction::CreateReservation(moved));
        proof {
            let k0 = c + 2 * i;
            assert((k0 - c) % 2 == 0 && (k0 - c) / 2 == i);
            assert((k0 + 1 - c) % 2 == 1 && (k0 + 1 - c) / 2 == i);
        }
        i = i + 1;
    }
    assert(plan.actions@ =~= migration_actions(p));
    plan
}

/// Carries out a migration atomically: either every action applies, or the
/// store is left as it was.
pub fn execute_migrate(plan: &MigratePlan, db: &mut Database) -> (r: Result<MigrateResult, Error>)
    ensures
        r is Err ==> final(db).spec_entries() == old(db).spec_entries(),
        exists|now: u64| ({
            let run = #[trigger] run_actions(old(db).spec_entries(), migration_actions(*plan), Seq::empty(), now);
            (r is Ok <==> run.1) && (r is Ok ==> final(db).spec_entries() == run.0)
        }),
        r matches Ok(res) ==> res.migrated_count == plan.migrations@.len()
            && res.conflicts_resolved == (if plan.options.force { plan.conflicts@.len() } else { 0 })
            && res.from_path == plan.options.from_path
            && res.to_path == plan.options.to_path,
{
    let op_plan = to_operation_plan(plan);
    let backup = db.snapshot();
    let now = crate::reservation::unix_time_now();
    let outcome = {
        let mut executor = PlanExecutor::new(db);
        assert(executor.occupied@ =~= Seq::<u16>::empty());
        executor.execute_at(&op_plan, now)
    };
    assert(run_actions(backup.spec_entries(), migration_actions(*plan), Seq::empty(), now).0 == db.spec_entries());
    match outcome {
        Ok(_) => {},
        Err(e) => {
            *db = backup;
            return Err(e);
        },
    }
    Ok(MigrateResult {
        migrated_count: plan.migrations.len(),
        conflicts_resolved: if plan.options.force { plan.conflicts.len() } else { 0 },
        from_path: plan.options.from_path.clone(),
        to_path: plan.options.to_path.clone(),
    })
}

} // verus!
