//! Port allocation: choosing a free port from the configured range.
//!
//! A port is free when no reservation holds it, it is not excluded (unless
//! exclusions are ignored), and the operating system does not report it in
//! use (when occupancy checking applies). Occupancy is supplied by the caller
//! as the list of ports found in use.

use vstd::prelude::*;
use crate::config::{Config, PortExclusion};
use crate::database::{port_reserved, Database};
use crate::error::Error;
use crate::port::{Port, PortRange};
use crate::text::owned;

verus! {

/// The lowest port of the range used when none is configured.
pub const DEFAULT_MIN_PORT: u16 = 49152;
/// The highest port of the range used when none is configured.
pub const DEFAULT_MAX_PORT: u16 = 65535;

/// The bounds `(min, max)` a configuration asks for, or `None` when they are
/// missing, overflow, or out of order.
pub open spec fn spec_range_bounds(config: Config) -> Option<(u16, u16)> {
    match config.ports {
        None => Some((DEFAULT_MIN_PORT, DEFAULT_MAX_PORT)),
        Some(pc) => {
            let max: Option<int> = match pc.max {
                Some(m) => Some(m as int),
                None => match pc.max_offset {
                    Some(off) => if pc.min + off <= 65535 { Some(pc.min + off) } else { None },
                    None => None,
                },
            };
            match max {
                Some(m) => if 1 <= pc.min && pc.min <= m { Some((pc.min, m as u16)) } else { None },
                None => None,
            }
        },
    }
}

/// Whether `p` falls in one of the excluded ranges.
pub open spec fn is_excluded(excl: Seq<PortExclusion>, p: u16) -> bool {
    exists|i: int| 0 <= i < excl.len() && (#[trigger] excl[i]).start <= p <= excl[i].end
}

/// Options for a single allocation.
#[derive(Debug, Clone, Copy, PartialEq, Eq, Structural)]
pub struct AllocationOptions {
    /// A port to try first.
    pub preferred: Option<Port>,
    /// Skip the operating-system occupancy check.
    pub ignore_occupied: bool,
    /// Skip the configured exclusions.
    pub ignore_exclusions: bool,
}

/// The outcome of a single allocation.
#[derive(Debug, Clone, Copy, PartialEq, Eq, Structural)]
pub enum AllocationResult {
    /// This port is free and was chosen.
    Allocated(Port),
    /// The preferred port is not free.
    PreferredUnavailable { port: Port },
    /// No port of the range is free.
    Exhausted { tried_cleanup: bool },
}

/// Whether port `p` may be handed out.
pub open spec fn port_available(
    es: Seq<crate::reservation::Reservation>,
    excl: Seq<PortExclusion>,
    occupied: Seq<u16>,
    check_exclusions: bool,
    check_occupancy: bool,
    p: u16,
) -> bool {
    &&& !port_reserved(es, p)
    &&& (check_exclusions ==> !is_excluded(excl, p))
    &&& (check_occupancy ==> !occupied.contains(p))
}

/// The lowest available port in `lo..=hi`, if any.
pub open spec fn first_available(
    es: Seq<crate::reservation::Reservation>,
    excl: Seq<PortExclusion>,
    occupied: Seq<u16>,
    check_exclusions: bool,
    check_occupancy: bool,
    lo: int,
    hi: int,
) -> Option<u16>
    decreases hi - lo + 1,
{
    if hi < lo {
        None
    } else if port_available(es, excl, occupied, check_exclusions, check_occupancy, lo as u16) {
        Some(lo as u16)
    } else {
        first_available(es, excl, occupied, check_exclusions, check_occupancy, lo + 1, hi)
    }
}

/// What `Allocator::allocate_single` gives for the entries `es`: the
/// preferred port when given and available (or `PreferredUnavailable`),
/// otherwise the lowest available port of the range (or `Exhausted`).
pub open spec fn single_allocation(
    allocator: Allocator,
    es: Seq<crate::reservation::Reservation>,
    options: AllocationOptions,
    occupancy_enabled: bool,
    occupied: Seq<u16>,
    r: AllocationResult,
) -> bool {
    let ce = !options.ignore_exclusions;
    let co = occupancy_enabled && !options.ignore_occupied;
    let ex = allocator.spec_exclusions();
    match options.preferred {
        Some(p) => if port_available(es, ex, occupied, ce, co, p@) {
            r == AllocationResult::Allocated(p)
        } else {
            r == AllocationResult::PreferredUnavailable { port: p }
        },
        None => match first_available(es, ex, occupied, ce, co,
            allocator.spec_range().spec_min()@ as int, allocator.spec_range().spec_max()@ as int) {
            Some(q) => r matches AllocationResult::Allocated(port) && port@ == q,
            None => r == AllocationResult::Exhausted { tried_cleanup: false },
        },
    }
}

/// The lowest available port of `lo..=hi` is available, in the range, and
/// below it nothing is available; when there is none, nothing in the range is.
pub proof fn lemma_first_available(
    es: Seq<crate::reservation::Reservation>,
    excl: Seq<PortExclusion>,
    occupied: Seq<u16>,
    check_exclusions: bool,
    check_occupancy: bool,
    lo: int,
    hi: int,
)
    requires
        0 <= lo,
        hi <= 65535,
    ensures
        match first_available(es, excl, occupied, check_exclusions, check_occupancy, lo, hi) {
            Some(q) => lo <= q <= hi && port_available(es, excl, occupied, check_exclusions, check_occupancy, q)
                && forall|x: int| lo <= x < q ==> !port_available(es, excl, occupied, check_exclusions, check_occupancy, #[trigger] (x as u16)),
            None => forall|x: int| lo <= x <= hi ==> !port_available(es, excl, occupied, check_exclusions, check_occupancy, #[trigger] (x as u16)),
        },
    decreases hi - lo + 1,
{
    if hi >= lo && !port_available(es, excl, occupied, check_exclusions, check_occupancy, lo as u16) {
        lemma_first_available(es, excl, occupied, check_exclusions, check_occupancy, lo + 1, hi);
    }
}

/// Whether port `q` may not be handed out, by the rules themselves: a
/// reservation holds it, it lies in an excluded range (when exclusions
/// count), or the operating system reports it occupied (when occupancy
/// counts).
pub open spec fn port_blocked(
    es: Seq<crate::reservation::Reservation>,
    excl: Seq<PortExclusion>,
    occupied: Seq<u16>,
    check_exclusions: bool,
    check_occupancy: bool,
    q: u16,
) -> bool {
    ||| exists|i: int| 0 <= i < es.len() && (#[trigger] es[i])@.port == q
    ||| check_exclusions && exists|i: int| 0 <= i < excl.len() && (#[trigger] excl[i]).start <= q <= excl[i].end
    ||| check_occupancy && exists|i: int| 0 <= i < occupied.len() && #[trigger] occupied[i] == q
}

/// Availability is exactly the absence of every reason to block a port.
pub proof fn lemma_available_iff_not_blocked(
    es: Seq<crate::reservation::Reservation>,
    excl: Seq<PortExclusion>,
    occupied: Seq<u16>,
    check_exclusions: bool,
    check_occupancy: bool,
    q: u16,
)
    ensures
        port_available(es, excl, occupied, check_exclusions, check_occupancy, q)
            <==> !port_blocked(es, excl, occupied, check_exclusions, check_occupancy, q),
{
    if check_occupancy && occupied.contains(q) {
        let i = choose|i: int| 0 <= i < occupied.len() && occupied[i] == q;
        assert(occupied[i] == q);
    }
}

/// A port allocated by `allocate_single` is free: no reservation holds it,
/// it lies in no excluded range when exclusions count, and the operating
/// system does not report it occupied when occupancy counts. Without a
/// preferred port it lies in the range and every lower port of the range is
/// blocked.
pub proof fn lemma_allocated_port_is_free(
    allocator: Allocator,
    es: Seq<crate::reservation::Reservation>,
    options: AllocationOptions,
    occupancy_enabled: bool,
    occupied: Seq<u16>,
    r: AllocationResult,
    port: Port,
)
    requires
        single_allocation(allocator, es, options, occupancy_enabled, occupied, r),
        r == AllocationResult::Allocated(port),
    ensures
        !port_blocked(es, allocator.spec_exclusions(), occupied, !options.ignore_exclusions,
            occupancy_enabled && !options.ignore_occupied, port@),
        options.preferred is None ==> {
            let ce = !options.ignore_exclusions;
            let co = occupancy_enabled && !options.ignore_occupied;
            &&& allocator.spec_range().spec_min()@ <= port@ <= allocator.spec_range().spec_max()@
            &&& forall|q: u16| allocator.spec_range().spec_min()@ <= q < port@ ==>
                #[trigger] port_blocked(es, allocator.spec_exclusions(), occupied, ce, co, q)
        },
{
    let ce = !options.ignore_exclusions;
    let co = occupancy_enabled && !options.ignore_occupied;
    let ex = allocator.spec_exclusions();
    let lo = allocator.spec_range().spec_min()@ as int;
    let hi = allocator.spec_range().spec_max()@ as int;
    if options.preferred is None {
        lemma_first_available(es, ex, occupied, ce, co, lo, hi);
        assert forall|q: u16| lo <= q < port@ implies #[trigger] port_blocked(es, ex, occupied, ce, co, q) by {
            let x = q as int;
            assert((x as u16) == q);
            assert(!port_available(es, ex, occupied, ce, co, x as u16));
            lemma_available_iff_not_blocked(es, ex, occupied, ce, co, q);
        }
    }
    lemma_available_iff_not_blocked(es, ex, occupied, ce, co, port@);
}

/// Allocates ports from a range while honoring exclusions.
pub struct Allocator {
    range: PortRange,
    exclusions: Vec<PortExclusion>,
}

/// Builds the allocator a configuration describes.
pub fn allocator_from_config(config: &Config) -> (r: Result<Allocator, Error>)
    ensures
        r is Ok <==> spec_range_bounds(*config) is Some,
        r matches Ok(a) ==> spec_range_bounds(*config) == Some((a.spec_range().spec_min()@, a.spec_range().spec_max()@))
            && a.spec_exclusions() == config.excluded_ports@,
        r matches Err(e) ==> e is Validation,
{
    let (min, max) = match config.ports {
        None => (DEFAULT_MIN_PORT, DEFAULT_MAX_PORT),
        Some(pc) => {
            let max = match pc.max {
                Some(m) => m,
                None => match pc.max_offset {
                    Some(off) => match pc.min.checked_add(off) {
                        Some(m) => m,
                        None => {
                            return Err(Error::Validation {
                                field: owned("ports.max_offset"),
                                message: owned("Offset would overflow when added to min port"),
                            });
                        },
                    },
                    None => {
                        return Err(Error::Validation {
                            field: owned("ports"),
                            message: owned("Either max or max_offset must be specified"),
                        });
                    },
                },
            };
            (pc.min, max)
        },
    };
    let min_port = match Port::try_from(min) {
        Ok(p) => p,
        Err(_) => {
            return Err(Error::Validation { field: owned("ports.min"), message: owned("port 0 is invalid") });
        },
    };
    let max_port = match Port::try_from(max) {
        Ok(p) => p,
        Err(_) => {
            return Err(Error::Validation { field: owned("ports.max"), message: owned("port 0 is invalid") });
        },
    };
    let range = match PortRange::new(min_port, max_port) {
        Ok(r) => r,
        Err(_) => {
            return Err(Error::Validation {
                field: owned("ports"),
                message: owned("max must be greater than or equal to min"),
            });
        },
    };
    Ok(Allocator { range, exclusions: crate::config::clone_exclusions(&config.excluded_ports) })
}

impl Allocator {
    /// The range ports are taken from.
    pub closed spec fn spec_range(&self) -> PortRange { self.range }
    /// The excluded port ranges.
    pub closed spec fn spec_exclusions(&self) -> Seq<PortExclusion> { self.exclusions@ }

    /// The range ports are taken from.
    pub fn range(&self) -> (r: &PortRange)
        ensures *r == self.spec_range(),
    {
        &self.range
    }

    /// Whether `port` falls in an excluded range.
    pub fn is_excluded(&self, port: u16) -> (r: bool)
        ensures r == is_excluded(self.spec_exclusions(), port),
    {
        let mut i: usize = 0;
        while i < self.exclusions.len()
            invariant
                i <= self.exclusions@.len(),
                forall|j: int| 0 <= j < i ==> !((#[trigger] self.exclusions@[j]).start <= port <= self.exclusions@[j].end),
            decreases self.exclusions@.len() - i,
        {
            let e = self.exclusions[i];
            if e.start <= port && port <= e.end {
                return true;
            }
            i = i + 1;
        }
        false
    }

    /// Whether `port` may be handed out.
    #[verifier::loop_isolation(false)]
    pub fn is_available(
        &self,
        db: &Database,
        port: u16,
        check_exclusions: bool,
        check_occupancy: bool,
        occupied: &Vec<u16>,
    ) -> (r: bool)
        ensures
            r == port_available(db.spec_entries(), self.spec_exclusions(), occupied@, check_exclusions, check_occupancy, port),
    {
        if db.is_port_reserved(port) {
            return false;
        }
        if check_exclusions && self.is_excluded(port) {
            return false;
        }
        if check_occupancy {
            let mut i: usize = 0;
            while i < occupied.len()
                invariant
                    i <= occupied@.len(),
                    forall|j: int| 0 <= j < i ==> occupied@[j] != port,
                decreases occupied@.len() - i,
            {
                if occupied[i] == port {
                    assert(occupied@[i as int] == port);
                    assert(occupied@.contains(port));
                    return false;
                }
                i = i + 1;
            }
        }
        true
    }

    /// Allocates one port: the preferred port when given (or `PreferredUnavailable`),
    /// otherwise the lowest available port of the range (or `Exhausted`).
    ///
    /// Occupancy is consulted only when `occupancy_enabled` holds and the
    /// options do not ignore it.
    pub fn allocate_single(
        &self,
        db: &Database,
        options: &AllocationOptions,
        occupancy_enabled: bool,
        occupied: &Vec<u16>,
    ) -> (r: AllocationResult)
        ensures
            single_allocation(*self, db.spec_entries(), *options, occupancy_enabled, occupied@, r),
    {
        let check_exclusions = !options.ignore_exclusions;
        let check_occupancy = occupancy_enabled && !options.ignore_occupied;
        if let Some(p) = options.preferred {
            if self.is_available(db, p.value(), check_exclusions, check_occupancy, occupied) {
                return AllocationResult::Allocated(p);
            }
            return AllocationResult::PreferredUnavailable { port: p };
        }
        let min = self.range.min().value() as u32;
        let max = self.range.max().value() as u32;
        let ghost es = db.spec_entries();
        let ghost ex = self.spec_exclusions();
        let mut candidate: u32 = min;
        while candidate <= max
            invariant
                1 <= min <= candidate <= max + 1,
                max <= 65535,
                min == self.spec_range().spec_min()@,
                max == self.spec_range().spec_max()@,
                es == db.spec_entries(),
                ex == self.spec_exclusions(),
                options.preferred is None,
                check_exclusions == !options.ignore_exclusions,
                check_occupancy == (occupancy_enabled && !options.ignore_occupied),
                first_available(es, ex, occupied@, check_exclusions, check_occupancy, min as int, max as int)
                    == first_available(es, ex, occupied@, check_exclusions, check_occupancy, candidate as int, max as int),
            decreases max + 1 - candidate,
        {
            let port = candidate as u16;
            if self.is_available(db, port, check_exclusions, check_occupancy, occupied) {
                assert(first_available(es, ex, occupied@, check_exclusions, check_occupancy, candidate as int, max as int)
                    == Some(port));
                let chosen = match Port::try_from(port) {
                    Ok(p) => p,
                    Err(_) => {
                        return AllocationResult::Exhausted { tried_cleanup: false };
                    },
                };
                return AllocationResult::Allocated(chosen);
            }
            candidate = candidate + 1;
        }
        AllocationResult::Exhausted { tried_cleanup: false }
    }
}

} // verus!
