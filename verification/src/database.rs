//! The reservation store.
//!
//! Reservations are kept in insertion order. No two reservations share a key,
//! and no two share a port.

use vstd::prelude::*;
use crate::error::Error;
use crate::path::relationship::{spec_between, PathRelationship};
use crate::reservation::{Reservation, ReservationKey};
use crate::text::owned;

verus! {

/// Whether no two reservations share a key or a port.
pub open spec fn entries_unique(es: Seq<Reservation>) -> bool {
    forall|i: int, j: int| 0 <= i < j < es.len() ==>
        (#[trigger] es[i])@.key != (#[trigger] es[j])@.key && es[i]@.port != es[j]@.port
}

/// The position of the reservation with key `k`, or -1.
pub open spec fn key_index(es: Seq<Reservation>, k: (Seq<char>, Option<Seq<char>>)) -> int
    decreases es.len(),
{
    if es.len() == 0 {
        -1
    } else if es[0]@.key == k {
        0
    } else {
        let rest = key_index(es.drop_first(), k);
        if rest < 0 { -1 } else { rest + 1 }
    }
}

/// The reservation stored under key `k`, if any.
pub open spec fn lookup(es: Seq<Reservation>, k: (Seq<char>, Option<Seq<char>>)) -> Option<Reservation> {
    let i = key_index(es, k);
    if i < 0 { None } else { Some(es[i]) }
}

/// Whether some reservation with a key other than `k` holds port `p`.
pub open spec fn port_taken_by_other(es: Seq<Reservation>, p: u16, k: (Seq<char>, Option<Seq<char>>)) -> bool {
    exists|i: int| 0 <= i < es.len() && (#[trigger] es[i])@.port == p && es[i]@.key != k
}

/// Whether some reservation holds port `p`.
pub open spec fn port_reserved(es: Seq<Reservation>, p: u16) -> bool {
    exists|i: int| 0 <= i < es.len() && (#[trigger] es[i])@.port == p
}

/// The entries after storing `r`: replaces the reservation with the same key, or appends.
pub open spec fn upsert(es: Seq<Reservation>, r: Reservation) -> Seq<Reservation> {
    let i = key_index(es, r@.key);
    if i < 0 { es.push(r) } else { es.update(i, r) }
}

/// The entries without the reservation stored under `k`.
pub open spec fn remove_key(es: Seq<Reservation>, k: (Seq<char>, Option<Seq<char>>)) -> Seq<Reservation> {
    let i = key_index(es, k);
    if i < 0 { es } else { es.remove(i) }
}

/// The entries after the last-used time of the reservation under `k` is set to `now`.
pub open spec fn touch_key(es: Seq<Reservation>, k: (Seq<char>, Option<Seq<char>>), now: u64) -> Seq<Reservation> {
    let i = key_index(es, k);
    if i < 0 { es } else { es.update(i, es[i].touched_spec(now)) }
}

/// `key_index` finds the first entry with the key, or reports that none has it.
pub proof fn lemma_key_index(es: Seq<Reservation>, k: (Seq<char>, Option<Seq<char>>))
    ensures
        -1 <= key_index(es, k) < es.len(),
        key_index(es, k) >= 0 ==> es[key_index(es, k)]@.key == k,
        key_index(es, k) >= 0 ==> forall|j: int| 0 <= j < key_index(es, k) ==> (#[trigger] es[j])@.key != k,
        key_index(es, k) < 0 ==> forall|j: int| 0 <= j < es.len() ==> (#[trigger] es[j])@.key != k,
    decreases es.len(),
{
    if es.len() > 0 {
        lemma_key_index(es.drop_first(), k);
        assert forall|j: int| 0 < j < es.len() implies es[j] == es.drop_first()[j - 1] by {}
    }
}

/// With unique keys, any entry holding the key is the one `key_index` finds.
pub proof fn lemma_key_index_unique(es: Seq<Reservation>, k: (Seq<char>, Option<Seq<char>>), j: int)
    requires
        entries_unique(es),
        0 <= j < es.len(),
        es[j]@.key == k,
    ensures
        key_index(es, k) == j,
{
    lemma_key_index(es, k);
    let i = key_index(es, k);
    if i != j {
        if i < j {
            assert(es[i]@.key != es[j]@.key);
        } else {
            assert(es[j]@.key != es[i]@.key);
        }
    }
}

/// An entry holding `k` with no earlier entry holding it is the one `key_index` finds.
pub proof fn lemma_key_index_first(es: Seq<Reservation>, k: (Seq<char>, Option<Seq<char>>), j: int)
    requires
        0 <= j < es.len(),
        es[j]@.key == k,
        forall|l: int| 0 <= l < j ==> (#[trigger] es[l])@.key != k,
    ensures
        key_index(es, k) == j,
{
    lemma_key_index(es, k);
}

/// Looking a key up after an upsert finds the stored reservation under its own
/// key and what was there before under every other key.
pub proof fn lemma_lookup_upsert(es: Seq<Reservation>, r: Reservation, k: (Seq<char>, Option<Seq<char>>))
    ensures
        lookup(upsert(es, r), k) == (if k == r@.key { Some(r) } else { lookup(es, k) }),
{
    lemma_key_index(es, r@.key);
    lemma_key_index(es, k);
    let i = key_index(es, r@.key);
    let n = upsert(es, r);
    lemma_key_index(n, k);
    if i < 0 {
        if k == r@.key {
            lemma_key_index_first(n, k, es.len() as int);
        } else {
            let ik = key_index(es, k);
            if ik >= 0 {
                assert forall|l: int| 0 <= l < ik implies (#[trigger] n[l])@.key != k by {
                    assert(n[l] == es[l]);
                }
                lemma_key_index_first(n, k, ik);
            } else {
                assert forall|l: int| 0 <= l < n.len() implies (#[trigger] n[l])@.key != k by {
                    if l < es.len() { assert(n[l] == es[l]); }
                }
            }
        }
    } else {
        if k == r@.key {
            lemma_key_index_first(n, k, i);
        } else {
            let ik = key_index(es, k);
            if ik >= 0 {
                assert forall|l: int| 0 <= l < ik implies (#[trigger] n[l])@.key != k by {
                    if l != i { assert(n[l] == es[l]); }
                }
                assert(ik != i);
                lemma_key_index_first(n, k, ik);
            } else {
                assert forall|l: int| 0 <= l < n.len() implies (#[trigger] n[l])@.key != k by {
                    if l != i { assert(n[l] == es[l]); }
                }
            }
        }
    }
}

/// An in-memory reservation store.
pub struct Database {
    reservations: Vec<Reservation>,
}

impl Database {
    #[verifier::type_invariant]
    spec fn unique(&self) -> bool {
        entries_unique(self.reservations@)
    }

    /// The stored reservations, in insertion order.
    pub closed spec fn spec_entries(&self) -> Seq<Reservation> {
        self.reservations@
    }

    /// An empty store.
    pub fn new() -> (db: Self)
        ensures
            db.spec_entries().len() == 0,
    {
        Database { reservations: Vec::new() }
    }

    /// Stored reservations never share a key or a port.
    pub fn check_unique(&self)
        ensures
            entries_unique(self.spec_entries()),
    {
        proof { use_type_invariant(self); }
    }

    fn find_index(&self, key: &ReservationKey) -> (r: Option<usize>)
        ensures
            match r {
                Some(i) => i == key_index(self.spec_entries(), key@) && i < self.spec_entries().len(),
                None => key_index(self.spec_entries(), key@) < 0,
            },
    {
        proof { lemma_key_index(self.reservations@, key@); }
        let mut i: usize = 0;
        while i < self.reservations.len()
            invariant
                i <= self.reservations@.len(),
                forall|j: int| 0 <= j < i ==> (#[trigger] self.reservations@[j])@.key != key@,
                -1 <= key_index(self.reservations@, key@) < self.reservations@.len(),
                key_index(self.reservations@, key@) >= 0 ==> self.reservations@[key_index(self.reservations@, key@)]@.key == key@,
                key_index(self.reservations@, key@) >= 0 ==> forall|j: int| 0 <= j < key_index(self.reservations@, key@) ==> (#[trigger] self.reservations@[j])@.key != key@,
                key_index(self.reservations@, key@) < 0 ==> forall|j: int| 0 <= j < self.reservations@.len() ==> (#[trigger] self.reservations@[j])@.key != key@,
            decreases self.reservations@.len() - i,
        {
            if self.reservations[i].key().same_key(key) {
                return Some(i);
            }
            i = i + 1;
        }
        None
    }

    /// The reservation stored under `key`, if any.
    pub fn get_reservation(&self, key: &ReservationKey) -> (r: Option<Reservation>)
        ensures
            r == lookup(self.spec_entries(), key@),
    {
        match self.find_index(key) {
            Some(i) => Some(self.reservations[i].clone()),
            None => None,
        }
    }

    /// All stored reservations, in insertion order.
    pub fn list_all_reservations(&self) -> (r: Vec<Reservation>)
        ensures
            r@ == self.spec_entries(),
    {
        let mut out: Vec<Reservation> = Vec::new();
        let mut i: usize = 0;
        while i < self.reservations.len()
            invariant
                i <= self.reservations@.len(),
                out@ == self.reservations@.take(i as int),
            decreases self.reservations@.len() - i,
        {
            out.push(self.reservations[i].clone());
            assert(out@ =~= self.reservations@.take(i + 1));
            i = i + 1;
        }
        assert(self.reservations@.take(self.reservations@.len() as int) =~= self.reservations@);
        out
    }

    /// A copy of the store.
    pub fn snapshot(&self) -> (r: Database)
        ensures
            r.spec_entries() == self.spec_entries(),
    {
        proof { use_type_invariant(self); }
        Database { reservations: self.list_all_reservations() }
    }

    /// The number of stored reservations.
    pub fn len(&self) -> (r: usize)
        ensures
            r == self.spec_entries().len(),
    {
        self.reservations.len()
    }

    fn port_conflict(&self, port: u16, key: &ReservationKey) -> (r: bool)
        ensures
            r == port_taken_by_other(self.spec_entries(), port, key@),
    {
        let mut i: usize = 0;
        while i < self.reservations.len()
            invariant
                i <= self.reservations@.len(),
                forall|j: int| 0 <= j < i ==> !((#[trigger] self.reservations@[j])@.port == port
                    && self.reservations@[j]@.key != key@),
            decreases self.reservations@.len() - i,
        {
            let r = &self.reservations[i];
            if r.port().value() == port && !r.key().same_key(key) {
                return true;
            }
            i = i + 1;
        }
        false
    }

    /// Whether any stored reservation holds `port`.
    pub fn is_port_reserved(&self, port: u16) -> (r: bool)
        ensures
            r == port_reserved(self.spec_entries(), port),
    {
        let mut i: usize = 0;
        while i < self.reservations.len()
            invariant
                i <= self.reservations@.len(),
                forall|j: int| 0 <= j < i ==> (#[trigger] self.reservations@[j])@.port != port,
            decreases self.reservations@.len() - i,
        {
            if self.reservations[i].port().value() == port {
                return true;
            }
            i = i + 1;
        }
        false
    }

    proof fn lemma_upsert_unique(es: Seq<Reservation>, r: Reservation)
        requires
            entries_unique(es),
            !port_taken_by_other(es, r@.port, r@.key),
        ensures
            entries_unique(upsert(es, r)),
    {
        lemma_key_index(es, r@.key);
        let i = key_index(es, r@.key);
        let n = upsert(es, r);
        assert forall|a: int, b: int| 0 <= a < b < n.len() implies
            (#[trigger] n[a])@.key != (#[trigger] n[b])@.key && n[a]@.port != n[b]@.port by {
            if i < 0 {
                if b == es.len() {
                    assert(es[a]@.key != r@.key);
                    if es[a]@.port == r@.port {
                        assert(port_taken_by_other(es, r@.port, r@.key));
                    }
                } else {
                    assert(n[a] == es[a] && n[b] == es[b]);
                }
            } else {
                if a == i {
                    assert(n[b] == es[b]);
                    assert(es[i]@.key != es[b]@.key);
                    if es[b]@.port == r@.port {
                        assert(port_taken_by_other(es, r@.port, r@.key));
                    }
                } else if b == i {
                    assert(n[a] == es[a]);
                    assert(es[a]@.key != es[i]@.key);
                    if es[a]@.port == r@.port {
                        assert(port_taken_by_other(es, r@.port, r@.key));
                    }
                } else {
                    assert(n[a] == es[a] && n[b] == es[b]);
                }
            }
        }
    }

    fn store(&mut self, reservation: &Reservation)
        requires
            !port_taken_by_other(old(self).spec_entries(), reservation@.port, reservation@.key),
        ensures
            final(self).spec_entries() == upsert(old(self).spec_entries(), *reservation),
    {
        proof {
            use_type_invariant(&*self);
            Self::lemma_upsert_unique(self.reservations@, *reservation);
        }
        let copy = reservation.clone();
        match self.find_index(reservation.key()) {
            Some(i) => {
                let mut entries: Vec<Reservation> = Vec::new();
                std::mem::swap(&mut entries, &mut self.reservations);
                entries.set(i, copy);
                self.reservations = entries;
            },
            None => {
                let mut entries: Vec<Reservation> = Vec::new();
                std::mem::swap(&mut entries, &mut self.reservations);
                entries.push(copy);
                self.reservations = entries;
            },
        }
    }

    /// Stores a reservation, replacing the one with the same key.
    ///
    /// Fails, changing nothing, when another key already holds the port.
    pub fn create_reservation(&mut self, reservation: &Reservation) -> (r: Result<(), Error>)
        ensures
            r is Err <==> port_taken_by_other(old(self).spec_entries(), reservation@.port, reservation@.key),
            r is Ok ==> final(self).spec_entries() == upsert(old(self).spec_entries(), *reservation),
            r is Err ==> final(self).spec_entries() == old(self).spec_entries(),
            r matches Err(e) ==> e is Validation,
    {
        if self.port_conflict(reservation.port().value(), reservation.key()) {
            return Err(Error::Validation {
                field: owned("port"),
                message: owned("Port is already reserved by another key"),
            });
        }
        self.store(reservation);
        Ok(())
    }

    /// Stores a reservation unless another key already holds its port;
    /// reports whether it was stored.
    pub fn try_create_reservation_atomic(&mut self, reservation: &Reservation) -> (r: Result<bool, Error>)
        ensures
            r matches Ok(stored) && stored == !port_taken_by_other(old(self).spec_entries(), reservation@.port, reservation@.key),
            r matches Ok(true) ==> final(self).spec_entries() == upsert(old(self).spec_entries(), *reservation),
            r matches Ok(false) ==> final(self).spec_entries() == old(self).spec_entries(),
    {
        if self.port_conflict(reservation.port().value(), reservation.key()) {
            return Ok(false);
        }
        self.store(reservation);
        Ok(true)
    }

    /// Sets the last-used time of the reservation under `key`; reports whether one exists.
    pub fn update_last_used_at(&mut self, key: &ReservationKey, now: u64) -> (r: bool)
        ensures
            r == (key_index(old(self).spec_entries(), key@) >= 0),
            r ==> final(self).spec_entries() == old(self).spec_entries().update(
                key_index(old(self).spec_entries(), key@),
                old(self).spec_entries()[key_index(old(self).spec_entries(), key@)].touched_spec(now)),
            !r ==> final(self).spec_entries() == old(self).spec_entries(),
            final(self).spec_entries().len() == old(self).spec_entries().len(),
    {
        proof { use_type_invariant(&*self); }
        match self.find_index(key) {
            Some(i) => {
                let updated = self.reservations[i].touched(now);
                proof {
                    lemma_key_index(self.reservations@, key@);
                    let es = self.reservations@;
                    let n = es.update(i as int, updated);
                    assert forall|a: int, b: int| 0 <= a < b < n.len() implies
                        (#[trigger] n[a])@.key != (#[trigger] n[b])@.key && n[a]@.port != n[b]@.port by {
                        assert(es[a]@.key != es[b]@.key && es[a]@.port != es[b]@.port);
                    }
                }
                let mut entries: Vec<Reservation> = Vec::new();
                std::mem::swap(&mut entries, &mut self.reservations);
                entries.set(i, updated);
                self.reservations = entries;
                true
            },
            None => false,
        }
    }

    /// Sets the last-used time of the reservation under `key` to the current time.
    pub fn update_last_used(&mut self, key: &ReservationKey) -> (r: bool)
        ensures
            r == (key_index(old(self).spec_entries(), key@) >= 0),
            exists|now: u64| final(self).spec_entries() == #[trigger] touch_key(old(self).spec_entries(), key@, now),
    {
        let now = crate::reservation::unix_time_now();
        let r = self.update_last_used_at(key, now);
        assert(self.spec_entries() == touch_key(old(self).spec_entries(), key@, now));
        r
    }

    proof fn lemma_remove_unique(es: Seq<Reservation>, i: int)
        requires
            entries_unique(es),
            0 <= i < es.len(),
        ensures
            entries_unique(es.remove(i)),
    {
        let n = es.remove(i);
        assert forall|a: int, b: int| 0 <= a < b < n.len() implies
            (#[trigger] n[a])@.key != (#[trigger] n[b])@.key && n[a]@.port != n[b]@.port by {
            let a2 = if a < i { a } else { a + 1 };
            let b2 = if b < i { b } else { b + 1 };
            assert(n[a] == es[a2] && n[b] == es[b2]);
        }
    }

    /// Removes the reservation under `key`; reports whether one existed.
    pub fn delete_reservation(&mut self, key: &ReservationKey) -> (r: bool)
        ensures
            r == (key_index(old(self).spec_entries(), key@) >= 0),
            final(self).spec_entries() == remove_key(old(self).spec_entries(), key@),
    {
        proof { use_type_invariant(&*self); }
        match self.find_index(key) {
            Some(i) => {
                proof { Self::lemma_remove_unique(self.reservations@, i as int); }
                let mut entries: Vec<Reservation> = Vec::new();
                std::mem::swap(&mut entries, &mut self.reservations);
                entries.remove(i);
                self.reservations = entries;
                true
            },
            None => false,
        }
    }

    /// Removes the reservation under `reservation`'s key only if it still
    /// records exactly the same values; reports whether it was removed.
    pub fn delete_reservation_if_unchanged(&mut self, reservation: &Reservation) -> (r: bool)
        ensures
            r == (lookup(old(self).spec_entries(), reservation@.key) matches Some(cur) && cur@ == reservation@),
            r ==> final(self).spec_entries() == remove_key(old(self).spec_entries(), reservation@.key),
            !r ==> final(self).spec_entries() == old(self).spec_entries(),
    {
        proof { use_type_invariant(&*self); }
        match self.find_index(reservation.key()) {
            Some(i) => {
                if self.reservations[i].same_as(reservation) {
                    proof { Self::lemma_remove_unique(self.reservations@, i as int); }
                    let mut entries: Vec<Reservation> = Vec::new();
                std::mem::swap(&mut entries, &mut self.reservations);
                entries.remove(i);
                self.reservations = entries;
                    true
                } else {
                    false
                }
            },
            None => false,
        }
    }

    /// Checks that `path` is hierarchically related to `working_dir`, unless unrelated paths are allowed.
    pub fn validate_path_relationship(path: &str, allow_unrelated: bool, working_dir: &str) -> (r: Result<(), Error>)
        ensures
            r is Err <==> !allow_unrelated && spec_between(path@, working_dir@) is Unrelated,
            r matches Err(e) ==> e matches Error::PathRelationshipViolation { path: p, working_dir: w }
                && p@ == path@ && w@ == working_dir@,
    {
        if allow_unrelated {
            return Ok(());
        }
        let rel = PathRelationship::between(path, working_dir);
        if !rel.is_allowed_without_force() {
            return Err(Error::PathRelationshipViolation { path: owned(path), working_dir: owned(working_dir) });
        }
        Ok(())
    }
}

} // verus!
