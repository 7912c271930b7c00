//! The configuration values that planning and allocation read.

use vstd::prelude::*;
use crate::reservation::clone_opt_string;

verus! {

/// The configured port range: `min` up to `max`, or up to `min + max_offset`.
#[derive(Debug, Clone, Copy, PartialEq, Eq, Structural)]
pub struct PortConfig {
    pub min: u16,
    pub max: Option<u16>,
    pub max_offset: Option<u16>,
}

/// Ports excluded from allocation: `start..=end` (a single port has `start == end`).
#[derive(Debug, Clone, Copy, PartialEq, Eq, Structural)]
pub struct PortExclusion {
    pub start: u16,
    pub end: u16,
}

/// One service of a reservation group.
#[derive(Debug)]
pub struct ServiceDefinition {
    /// Offset from the group's base port.
    pub offset: Option<u16>,
    /// A specific port to prefer.
    pub preferred: Option<u16>,
    /// Environment variable name used when exporting the port.
    pub env: Option<String>,
}

impl Clone for ServiceDefinition {
    fn clone(&self) -> (r: Self)
        ensures r == *self,
    {
        ServiceDefinition { offset: self.offset, preferred: self.preferred, env: clone_opt_string(&self.env) }
    }
}

/// A group of services reserved together, keyed by service tag.
#[derive(Debug)]
pub struct ReservationGroup {
    /// Port at which the group's scan starts.
    pub base: Option<u16>,
    /// The services, by tag.
    pub services: Vec<(String, ServiceDefinition)>,
}

/// A copy of a list of tagged service definitions.
pub fn clone_services(v: &Vec<(String, ServiceDefinition)>) -> (r: Vec<(String, ServiceDefinition)>)
    ensures r@ == v@,
{
    let mut out: Vec<(String, ServiceDefinition)> = Vec::new();
    let mut i: usize = 0;
    while i < v.len()
        invariant
            i <= v@.len(),
            out@ == v@.take(i as int),
        decreases v@.len() - i,
    {
        let (tag, def) = &v[i];
        out.push((tag.clone(), def.clone()));
        assert(out@ =~= v@.take(i + 1));
        i = i + 1;
    }
    assert(v@.take(v@.len() as int) =~= v@);
    out
}

impl Clone for ReservationGroup {
    fn clone(&self) -> (r: Self)
        ensures r.base == self.base && r.services@ == self.services@,
    {
        ReservationGroup { base: self.base, services: clone_services(&self.services) }
    }
}

/// Cleanup policy: reservations unused for more than this many days expire.
#[derive(Debug, Clone, Copy, PartialEq, Eq, Structural)]
pub struct CleanupConfig {
    pub expire_after_days: Option<u32>,
}

/// Whether allocation consults operating-system port occupancy.
#[derive(Debug, Clone, Copy, PartialEq, Eq, Structural)]
pub struct OccupancyCheckConfig {
    pub enabled: bool,
}

impl Default for OccupancyCheckConfig {
    fn default() -> (r: Self)
        ensures r.enabled,
    {
        OccupancyCheckConfig { enabled: true }
    }
}

/// Configuration for port allocation and group reservations.
#[derive(Debug)]
pub struct Config {
    /// Project identifier recorded on group reservations.
    pub project: Option<String>,
    /// The port range.
    pub ports: Option<PortConfig>,
    /// Ports never handed out.
    pub excluded_ports: Vec<PortExclusion>,
    /// The reservation group, if this configuration defines one.
    pub reservations: Option<ReservationGroup>,
    /// Occupancy checking settings.
    pub occupancy_check: Option<OccupancyCheckConfig>,
    /// Cleanup settings.
    pub cleanup: Option<CleanupConfig>,
}

/// A copy of a list of exclusions.
pub fn clone_exclusions(v: &Vec<PortExclusion>) -> (r: Vec<PortExclusion>)
    ensures r@ == v@,
{
    let mut out: Vec<PortExclusion> = Vec::new();
    let mut i: usize = 0;
    while i < v.len()
        invariant
            i <= v@.len(),
            out@ == v@.take(i as int),
        decreases v@.len() - i,
    {
        out.push(v[i]);
        assert(out@ =~= v@.take(i + 1));
        i = i + 1;
    }
    assert(v@.take(v@.len() as int) =~= v@);
    out
}

/// Whether two configurations hold the same values.
pub open spec fn same_config(a: Config, b: Config) -> bool {
    &&& a.project == b.project
    &&& a.ports == b.ports
    &&& a.excluded_ports@ == b.excluded_ports@
    &&& (a.reservations is Some <==> b.reservations is Some)
    &&& (a.reservations matches Some(g) ==> (b.reservations matches Some(h)
            && g.base == h.base && g.services@ == h.services@))
    &&& a.occupancy_check == b.occupancy_check
    &&& a.cleanup == b.cleanup
}

impl Clone for Config {
    fn clone(&self) -> (r: Self)
        ensures
            same_config(r, *self),
    {
        Config {
            project: clone_opt_string(&self.project),
            ports: self.ports,
            excluded_ports: clone_exclusions(&self.excluded_ports),
            reservations: match &self.reservations {
                Some(g) => Some(g.clone()),
                None => None,
            },
            occupancy_check: self.occupancy_check,
            cleanup: self.cleanup,
        }
    }
}

impl Default for Config {
    fn default() -> (r: Self)
        ensures
            r.project is None,
            r.ports is None,
            r.excluded_ports@.len() == 0,
            r.reservations is None,
            r.occupancy_check is None,
            r.cleanup is None,
    {
        Config {
            project: None,
            ports: None,
            excluded_ports: Vec::new(),
            reservations: None,
            occupancy_check: None,
            cleanup: None,
        }
    }
}

impl Config {
    /// The occupancy settings in force: the configured ones, or checking enabled.
    pub fn occupancy_config(&self) -> (r: OccupancyCheckConfig)
        ensures
            r == match self.occupancy_check { Some(c) => c, None => OccupancyCheckConfig { enabled: true } },
    {
        match self.occupancy_check {
            Some(c) => c,
            None => OccupancyCheckConfig::default(),
        }
    }
}

} // verus!
