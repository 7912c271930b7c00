//! Port and port range types for network port management.

use vstd::prelude::*;
use crate::text::{decimal, decimal_string, owned, push_decimal};

verus! {

/// A valid network port number (1-65535).
///
/// Port 0 is invalid as it has special meaning in networking contexts.
#[derive(Debug, Clone, Copy, PartialEq, Eq, Structural, PartialOrd, Ord, Hash)]
pub struct Port(u16);

impl View for Port {
    type V = u16;

    open spec fn view(&self) -> u16 {
        self.spec_value()
    }
}

impl Port {
    /// The port number held by this value.
    pub closed spec fn spec_value(self) -> u16 {
        self.0
    }

    #[verifier::type_invariant]
    spec fn valid(self) -> bool {
        self.0 >= 1
    }

    /// The minimum valid port number.
    pub const MIN: u16 = 1;

    /// The maximum valid port number.
    pub const MAX: u16 = 65535;

    /// The port holding `value`.
    pub closed spec fn port_of(value: u16) -> Port {
        Port(value)
    }

    /// The port made from a value holds that value.
    pub proof fn lemma_port_of(value: u16)
        ensures
            Port::port_of(value)@ == value,
    {
    }

    /// Checks a port number: 0 is rejected, every other value is a port.
    pub fn try_from(value: u16) -> (r: Result<Port, InvalidPortError>)
        ensures
            (value == 0) <==> r is Err,
            r matches Ok(p) ==> p@ == value && p == Port::port_of(value),
            r matches Err(e) ==> e.value == 0 && e.reason@ == "port 0 is invalid"@,
    {
        if value == 0 {
            let reason = owned("port 0 is invalid");
            Err(InvalidPortError { value, reason })
        } else {
            Ok(Port(value))
        }
    }

    /// Returns the underlying port number.
    pub fn value(self) -> (r: u16)
        ensures
            r == self@,
            r >= 1,
    {
        proof { use_type_invariant(self); }
        self.0
    }

    /// Returns `true` if this is a privileged port (< 1024).
    pub fn is_privileged(self) -> (r: bool)
        ensures
            r == (self@ < 1024),
    {
        self.0 < 1024
    }

    /// Adds an offset, returning `None` when the sum leaves the port range.
    pub fn checked_add(self, offset: u16) -> (r: Option<Port>)
        ensures
            r matches Some(p) ==> p@ == self@ + offset,
            r is None <==> self@ + offset > 65535,
    {
        proof { use_type_invariant(self); }
        match self.0.checked_add(offset) {
            Some(result) => {
                if result > 0 {
                    Some(Port(result))
                } else {
                    None
                }
            },
            None => None,
        }
    }

    /// Subtracts an offset, returning `None` when the result would be below 1.
    pub fn checked_sub(self, offset: u16) -> (r: Option<Port>)
        ensures
            r matches Some(p) ==> p@ == self@ - offset,
            r is None <==> self@ - offset < 1,
    {
        match self.0.checked_sub(offset) {
            Some(result) => {
                if result > 0 {
                    Some(Port(result))
                } else {
                    None
                }
            },
            None => None,
        }
    }

    /// The decimal rendering of the port number.
    pub fn to_display_string(&self) -> (s: String)
        ensures
            s@ == decimal(self@ as nat),
    {
        decimal_string(self.0 as u64)
    }
}

/// Error type for invalid port numbers.
#[derive(Debug, Clone, PartialEq, Eq)]
pub struct InvalidPortError {
    /// The invalid port value.
    pub value: u16,
    /// The reason the port is invalid.
    pub reason: String,
}

impl InvalidPortError {
    /// The message `invalid port {value}: {reason}`.
    pub fn to_display_string(&self) -> (s: String)
        ensures
            s@ == "invalid port "@ + decimal(self.value as nat) + ": "@ + self.reason@,
    {
        let mut s = owned("invalid port ");
        push_decimal(&mut s, self.value as u64);
        s.push_str(": ");
        s.push_str(self.reason.as_str());
        s
    }
}

/// Structured summary of the automatic cleanup attempted after allocation exhaustion.
#[derive(Debug, Clone, Copy, PartialEq, Eq, Structural)]
#[non_exhaustive]
pub struct AutomaticCleanupStatus {
    attempted: bool,
    prune_enabled: bool,
    expire_enabled: bool,
    pruned: usize,
    expired: usize,
}

impl AutomaticCleanupStatus {
    /// Whether automatic cleanup ran.
    pub closed spec fn spec_attempted(self) -> bool { self.attempted }
    /// Whether stale-path pruning was enabled.
    pub closed spec fn spec_prune_enabled(self) -> bool { self.prune_enabled }
    /// Whether age-based expiration was enabled.
    pub closed spec fn spec_expire_enabled(self) -> bool { self.expire_enabled }
    /// Number of reservations removed by pruning.
    pub closed spec fn spec_pruned(self) -> usize { self.pruned }
    /// Number of reservations removed by expiration.
    pub closed spec fn spec_expired(self) -> usize { self.expired }

    /// Collects the cleanup outcome.
    pub fn new(
        attempted: bool,
        prune_enabled: bool,
        expire_enabled: bool,
        pruned: usize,
        expired: usize,
    ) -> (r: Self)
        ensures
            r.spec_attempted() == attempted,
            r.spec_prune_enabled() == prune_enabled,
            r.spec_expire_enabled() == expire_enabled,
            r.spec_pruned() == pruned,
            r.spec_expired() == expired,
    {
        Self { attempted, prune_enabled, expire_enabled, pruned, expired }
    }

    /// Whether automatic cleanup ran.
    pub fn attempted(self) -> (r: bool)
        ensures r == self.spec_attempted(),
    {
        self.attempted
    }

    /// Whether stale-path pruning was enabled.
    pub fn prune_enabled(self) -> (r: bool)
        ensures r == self.spec_prune_enabled(),
    {
        self.prune_enabled
    }

    /// Whether age-based expiration was enabled.
    pub fn expire_enabled(self) -> (r: bool)
        ensures r == self.spec_expire_enabled(),
    {
        self.expire_enabled
    }

    /// Number of reservations removed by pruning.
    pub fn pruned(self) -> (r: usize)
        ensures r == self.spec_pruned(),
    {
        self.pruned
    }

    /// Number of reservations removed by expiration.
    pub fn expired(self) -> (r: usize)
        ensures r == self.spec_expired(),
    {
        self.expired
    }

    /// The sentence describing which cleanup policies were enabled.
    pub open spec fn spec_policy_description(self) -> Seq<char> {
        if self.spec_prune_enabled() && self.spec_expire_enabled() {
            "automatic pruning and expiration enabled"@
        } else if self.spec_prune_enabled() {
            "automatic expiration disabled"@
        } else if self.spec_expire_enabled() {
            "automatic pruning disabled"@
        } else {
            "automatic pruning and expiration disabled"@
        }
    }

    fn policy_description(self) -> (s: String)
        ensures
            s@ == self.spec_policy_description(),
    {
        if self.prune_enabled && self.expire_enabled {
            owned("automatic pruning and expiration enabled")
        } else if self.prune_enabled {
            owned("automatic expiration disabled")
        } else if self.expire_enabled {
            owned("automatic pruning disabled")
        } else {
            owned("automatic pruning and expiration disabled")
        }
    }
}

/// Typed reasons that prevented every port in a configured range from being allocated.
#[derive(Debug, Clone, Copy, Default, PartialEq, Eq, Structural)]
#[non_exhaustive]
pub struct PortExhaustionBlockers {
    reserved: bool,
    excluded: bool,
    occupied: bool,
}

/// The comma-separated list of the blocker names that are set, or `unavailable` if none is.
pub open spec fn blockers_text(reserved: bool, excluded: bool, occupied: bool) -> Seq<char> {
    let parts: Seq<Seq<char>> =
        (if reserved { seq!["reserved"@] } else { Seq::empty() })
        + (if excluded { seq!["excluded"@] } else { Seq::empty() })
        + (if occupied { seq!["occupied"@] } else { Seq::empty() });
    if parts.len() == 0 {
        "unavailable"@
    } else {
        join_with(parts, ", "@)
    }
}

/// Joins the parts with the separator between consecutive parts.
pub open spec fn join_with(parts: Seq<Seq<char>>, sep: Seq<char>) -> Seq<char>
    decreases parts.len(),
{
    if parts.len() == 0 {
        Seq::empty()
    } else if parts.len() == 1 {
        parts[0]
    } else {
        join_with(parts.drop_last(), sep) + sep + parts.last()
    }
}

/// Joining one more part appends the separator (if needed) and the part.
pub proof fn lemma_join_push(parts: Seq<Seq<char>>, x: Seq<char>, sep: Seq<char>)
    ensures
        join_with(parts.push(x), sep) == if parts.len() == 0 { x } else { join_with(parts, sep) + sep + x },
{
    assert(parts.push(x).drop_last() =~= parts);
}

impl PortExhaustionBlockers {
    /// Whether stored reservations blocked at least one candidate.
    pub closed spec fn spec_reserved(self) -> bool { self.reserved }
    /// Whether configured exclusions blocked at least one candidate.
    pub closed spec fn spec_excluded(self) -> bool { self.excluded }
    /// Whether operating-system occupancy blocked at least one candidate.
    pub closed spec fn spec_occupied(self) -> bool { self.occupied }

    /// Collects the blocker flags.
    pub fn new(reserved: bool, excluded: bool, occupied: bool) -> (r: Self)
        ensures
            r.spec_reserved() == reserved,
            r.spec_excluded() == excluded,
            r.spec_occupied() == occupied,
    {
        Self { reserved, excluded, occupied }
    }

    /// Whether stored reservations blocked at least one candidate.
    pub fn reserved(self) -> (r: bool)
        ensures r == self.spec_reserved(),
    {
        self.reserved
    }

    /// Whether configured exclusions blocked at least one candidate.
    pub fn excluded(self) -> (r: bool)
        ensures r == self.spec_excluded(),
    {
        self.excluded
    }

    /// Whether operating-system occupancy blocked at least one candidate.
    pub fn occupied(self) -> (r: bool)
        ensures r == self.spec_occupied(),
    {
        self.occupied
    }

    /// The blockers that are set, separated by `, `, or `unavailable` when none is.
    pub fn to_display_string(&self) -> (s: String)
        ensures
            s@ == blockers_text(self.spec_reserved(), self.spec_excluded(), self.spec_occupied()),
    {
        let mut s = String::new();
        let mut count: usize = 0;
        let ghost mut parts: Seq<Seq<char>> = Seq::empty();
        if self.reserved {
            proof { lemma_join_push(parts, "reserved"@, ", "@); }
            s.push_str("reserved");
            count = count + 1;
            proof { parts = parts.push("reserved"@); }
        }
        assert(s@ =~= join_with(parts, ", "@) && count == parts.len());
        if self.excluded {
            proof { lemma_join_push(parts, "excluded"@, ", "@); }
            if count > 0 {
                s.push_str(", ");
            }
            s.push_str("excluded");
            count = count + 1;
            proof { parts = parts.push("excluded"@); }
        }
        assert(s@ =~= join_with(parts, ", "@) && count == parts.len());
        if self.occupied {
            proof { lemma_join_push(parts, "occupied"@, ", "@); }
            if count > 0 {
                s.push_str(", ");
            }
            s.push_str("occupied");
            count = count + 1;
            proof { parts = parts.push("occupied"@); }
        }
        assert(s@ =~= join_with(parts, ", "@) && count == parts.len());
        let ghost expected: Seq<Seq<char>> =
            (if self.reserved { seq!["reserved"@] } else { Seq::<Seq<char>>::empty() })
            + (if self.excluded { seq!["excluded"@] } else { Seq::<Seq<char>>::empty() })
            + (if self.occupied { seq!["occupied"@] } else { Seq::<Seq<char>>::empty() });
        assert(parts =~= expected);
        if count == 0 {
            owned("unavailable")
        } else {
            s
        }
    }
}

/// Machine-readable context for a port exhaustion failure.
#[derive(Debug, Clone, Copy, PartialEq, Eq, Structural)]
#[non_exhaustive]
pub struct PortExhaustionDetails {
    cleanup: AutomaticCleanupStatus,
    blockers: PortExhaustionBlockers,
}

impl PortExhaustionDetails {
    /// Automatic-cleanup policy and aggregate outcome.
    pub closed spec fn spec_cleanup(self) -> AutomaticCleanupStatus { self.cleanup }
    /// Typed reasons that kept the range exhausted.
    pub closed spec fn spec_blockers(self) -> PortExhaustionBlockers { self.blockers }

    /// Pairs the cleanup outcome with the blockers.
    pub fn new(cleanup: AutomaticCleanupStatus, blockers: PortExhaustionBlockers) -> (r: Self)
        ensures
            r.spec_cleanup() == cleanup,
            r.spec_blockers() == blockers,
    {
        Self { cleanup, blockers }
    }

    /// Automatic-cleanup policy and aggregate outcome.
    pub fn cleanup(self) -> (r: AutomaticCleanupStatus)
        ensures r == self.spec_cleanup(),
    {
        self.cleanup
    }

    /// Typed reasons that kept the range exhausted.
    pub fn blockers(self) -> (r: PortExhaustionBlockers)
        ensures r == self.spec_blockers(),
    {
        self.blockers
    }

    /// The suffix appended to an exhaustion message.
    pub open spec fn spec_display(self) -> Seq<char> {
        let c = self.spec_cleanup();
        let b = self.spec_blockers();
        let blockers = blockers_text(b.spec_reserved(), b.spec_excluded(), b.spec_occupied());
        if c.spec_attempted() {
            ": remaining blockers after the single retry: "@ + blockers
                + "; automatic cleanup pruned "@ + decimal(c.spec_pruned() as nat)
                + " and expired "@ + decimal(c.spec_expired() as nat)
                + " reservation(s); "@ + c.spec_policy_description()
        } else {
            ": cleanup was skipped ("@ + c.spec_policy_description()
                + "); remaining blockers: "@ + blockers
        }
    }

    /// Renders the exhaustion context.
    pub fn to_display_string(&self) -> (s: String)
        ensures
            s@ == self.spec_display(),
    {
        let blockers = self.blockers.to_display_string();
        let policy = self.cleanup.policy_description();
        if self.cleanup.attempted {
            let mut s = owned(": remaining blockers after the single retry: ");
            s.push_str(blockers.as_str());
            s.push_str("; automatic cleanup pruned ");
            push_decimal(&mut s, self.cleanup.pruned as u64);
            s.push_str(" and expired ");
            push_decimal(&mut s, self.cleanup.expired as u64);
            s.push_str(" reservation(s); ");
            s.push_str(policy.as_str());
            s
        } else {
            let mut s = owned(": cleanup was skipped (");
            s.push_str(policy.as_str());
            s.push_str("); remaining blockers: ");
            s.push_str(blockers.as_str());
            s
        }
    }
}

/// A range of ports (inclusive on both ends).
#[derive(Debug, Clone, Copy)]
pub struct PortRange {
    min: Port,
    max: Port,
    exhaustion_details: Option<PortExhaustionDetails>,
}

impl PortRange {
    #[verifier::type_invariant]
    spec fn ordered(self) -> bool {
        self.min@ <= self.max@
    }

    /// The lowest port of the range.
    pub closed spec fn spec_min(self) -> Port { self.min }
    /// The highest port of the range.
    pub closed spec fn spec_max(self) -> Port { self.max }
    /// The exhaustion context attached to this range, if any.
    pub closed spec fn spec_exhaustion_details(self) -> Option<PortExhaustionDetails> {
        self.exhaustion_details
    }

    /// Creates a range; fails when `max` is below `min`.
    pub fn new(min: Port, max: Port) -> (r: Result<Self, InvalidPortRangeError>)
        ensures
            r is Ok <==> min@ <= max@,
            r matches Ok(range) ==> range.spec_min() == min && range.spec_max() == max
                && range.spec_exhaustion_details() is None,
            r matches Err(e) ==> e.min == min && e.max == max
                && e.reason@ == "max must be greater than or equal to min"@,
    {
        if max.value() < min.value() {
            Err(InvalidPortRangeError {
                min,
                max,
                reason: owned("max must be greater than or equal to min"),
            })
        } else {
            Ok(Self { min, max, exhaustion_details: None })
        }
    }

    /// The same range annotated with exhaustion context.
    pub fn with_exhaustion_details(self, details: PortExhaustionDetails) -> (r: Self)
        ensures
            r.spec_min() == self.spec_min(),
            r.spec_max() == self.spec_max(),
            r.spec_exhaustion_details() == Some(details),
    {
        proof { use_type_invariant(self); }
        Self { min: self.min, max: self.max, exhaustion_details: Some(details) }
    }

    /// The exhaustion context attached to this range, if any.
    pub fn exhaustion_details(self) -> (r: Option<PortExhaustionDetails>)
        ensures r == self.spec_exhaustion_details(),
    {
        self.exhaustion_details
    }

    /// Returns the minimum port in the range.
    pub fn min(&self) -> (r: Port)
        ensures
            r == self.spec_min(),
            1 <= r@ <= self.spec_max()@,
    {
        proof { use_type_invariant(self); use_type_invariant(self.min); }
        self.min
    }

    /// Returns the maximum port in the range.
    pub fn max(&self) -> (r: Port)
        ensures
            r == self.spec_max(),
            1 <= self.spec_min()@ <= r@,
    {
        proof { use_type_invariant(self); use_type_invariant(self.min); }
        self.max
    }

    /// Whether `port` lies between the bounds (inclusive).
    pub open spec fn spec_contains(self, port: Port) -> bool {
        self.spec_min()@ <= port@ <= self.spec_max()@
    }

    /// Returns `true` if the range contains the given port.
    pub fn contains(&self, port: Port) -> (r: bool)
        ensures r == self.spec_contains(port),
    {
        port.value() >= self.min.value() && port.value() <= self.max.value()
    }

    /// The number of ports in the range.
    pub open spec fn spec_len(self) -> int {
        self.spec_max()@ - self.spec_min()@ + 1
    }

    /// Returns the number of ports in the range (inclusive).
    pub fn len(&self) -> (r: u16)
        ensures
            r == self.spec_len(),
            r >= 1,
    {
        proof { use_type_invariant(self); use_type_invariant(self.min); }
        self.max.value() - self.min.value() + 1
    }

    /// Returns `true` if the range contains no ports; a range always holds at least one.
    pub fn is_empty(&self) -> (r: bool)
        ensures
            r == (self.spec_len() == 0),
            !r,
    {
        proof { use_type_invariant(self); use_type_invariant(self.min); }
        false
    }

    /// Returns an iterator over all ports in this range, lowest first.
    pub fn iter(self) -> (it: PortRangeIter)
        ensures
            it.spec_range() == self,
            it.spec_current() == self.spec_min()@,
            it.remaining() == ports_between(self.spec_min()@ as int, self.spec_max()@ as int),
    {
        proof { use_type_invariant(self); use_type_invariant(self.min); }
        PortRangeIter { range: self, current: self.min.value() as u32 }
    }

    /// Same as [`PortRange::iter`].
    pub fn into_iter(self) -> (it: PortRangeIter)
        ensures
            it.spec_range() == self,
            it.remaining() == ports_between(self.spec_min()@ as int, self.spec_max()@ as int),
    {
        self.iter()
    }

    /// The text `{min}-{max}`.
    pub fn to_display_string(&self) -> (s: String)
        ensures
            s@ == decimal(self.spec_min()@ as nat) + "-"@ + decimal(self.spec_max()@ as nat),
    {
        let mut s = self.min.to_display_string();
        s.push_str("-");
        push_decimal(&mut s, self.max.value() as u64);
        s
    }
}

impl PartialEq for PortRange {
    fn eq(&self, other: &Self) -> (r: bool) {
        self.min.value() == other.min.value() && self.max.value() == other.max.value()
    }
}

impl Eq for PortRange {}

impl vstd::std_specs::cmp::PartialEqSpecImpl for PortRange {
    open spec fn obeys_eq_spec() -> bool {
        true
    }

    open spec fn eq_spec(&self, other: &Self) -> bool {
        self.spec_min()@ == other.spec_min()@ && self.spec_max()@ == other.spec_max()@
    }
}

/// The port numbers `lo, lo + 1, ..., hi` (empty when `hi < lo`).
pub open spec fn ports_between(lo: int, hi: int) -> Seq<u16>
    decreases hi - lo + 1,
{
    if hi < lo {
        Seq::empty()
    } else {
        seq![lo as u16] + ports_between(lo + 1, hi)
    }
}

/// Iterator over ports in a `PortRange`.
#[derive(Debug)]
pub struct PortRangeIter {
    range: PortRange,
    current: u32,
}

impl PortRangeIter {
    #[verifier::type_invariant]
    spec fn in_bounds(self) -> bool {
        self.range.spec_min()@ <= self.current <= self.range.spec_max()@ + 1
    }

    /// The range being walked.
    pub closed spec fn spec_range(self) -> PortRange { self.range }
    /// The next port number to hand out.
    pub closed spec fn spec_current(self) -> u32 { self.current }

    /// The port numbers still to come, in order.
    pub open spec fn remaining(self) -> Seq<u16> {
        ports_between(self.spec_current() as int, self.spec_range().spec_max()@ as int)
    }

    proof fn lemma_remaining_len(lo: int, hi: int)
        ensures
            ports_between(lo, hi).len() == if hi < lo { 0 } else { hi - lo + 1 },
        decreases hi - lo + 1,
    {
        if hi >= lo {
            Self::lemma_remaining_len(lo + 1, hi);
        }
    }

    /// Returns the next port, lowest first, or `None` once the range is done.
    pub fn next(&mut self) -> (r: Option<Port>)
        ensures
            old(self).remaining().len() == 0 ==> r is None && final(self).remaining() == old(self).remaining(),
            old(self).remaining().len() > 0 ==> (r matches Some(p) && p@ == old(self).remaining()[0]
                && final(self).remaining() == old(self).remaining().drop_first()),
            final(self).spec_range() == old(self).spec_range(),
    {
        proof {
            use_type_invariant(&*self);
            use_type_invariant(self.range);
            use_type_invariant(self.range.min);
        }
        if self.current <= self.range.max.value() as u32 {
            let port = Port(self.current as u16);
            self.current = self.current + 1;
            assert(old(self).remaining().drop_first() =~= self.remaining());
            Some(port)
        } else {
            None
        }
    }

    /// The number of ports still to come.
    pub fn len(&self) -> (r: usize)
        ensures
            r == self.remaining().len(),
    {
        proof {
            use_type_invariant(self);
            use_type_invariant(self.range);
            Self::lemma_remaining_len(self.current as int, self.range.spec_max()@ as int);
        }
        if self.current <= self.range.max.value() as u32 {
            (self.range.max.value() as u32 - self.current + 1) as usize
        } else {
            0
        }
    }

    /// Gathers the remaining ports, in order.
    pub fn collect(self) -> (v: Vec<Port>)
        ensures
            v@.len() == self.remaining().len(),
            forall|i: int| 0 <= i < v@.len() ==> #[trigger] v@[i]@ == self.remaining()[i],
    {
        let mut it = self;
        let mut v: Vec<Port> = Vec::new();
        let ghost all = self.remaining();
        proof {
            Self::lemma_remaining_len(self.spec_current() as int, self.spec_range().spec_max()@ as int);
        }
        loop
            invariant
                all == self.remaining(),
                all == v@.map_values(|p: Port| p@) + it.remaining(),
            decreases it.remaining().len(),
        {
            let ghost before = it.remaining();
            match it.next() {
                Some(p) => {
                    v.push(p);
                    assert(all =~= v@.map_values(|p: Port| p@) + it.remaining()) by {
                        assert(before =~= seq![p@] + before.drop_first());
                    }
                },
                None => {
                    assert(all =~= v@.map_values(|p: Port| p@));
                    assert forall|i: int| 0 <= i < v@.len() implies #[trigger] v@[i]@ == all[i] by {
                        assert(v@.map_values(|p: Port| p@)[i] == v@[i]@);
                    }
                    return v;
                },
            }
        }
    }
}

/// Error type for invalid port ranges.
#[derive(Debug, Clone, PartialEq, Eq)]
pub struct InvalidPortRangeError {
    /// The minimum port.
    pub min: Port,
    /// The maximum port.
    pub max: Port,
    /// The reason the range is invalid.
    pub reason: String,
}

impl InvalidPortRangeError {
    /// The message `invalid port range {min}-{max}: {reason}`.
    pub fn to_display_string(&self) -> (s: String)
        ensures
            s@ == "invalid port range "@ + decimal(self.min@ as nat) + "-"@
                + decimal(self.max@ as nat) + ": "@ + self.reason@,
    {
        let mut s = owned("invalid port range ");
        push_decimal(&mut s, self.min.value() as u64);
        s.push_str("-");
        push_decimal(&mut s, self.max.value() as u64);
        s.push_str(": ");
        s.push_str(self.reason.as_str());
        s
    }
}

} // verus!
