//! Planning the reservation of a group of related ports from a configuration.

use vstd::prelude::*;
use crate::allocator::spec_range_bounds;
use crate::config::{same_config, Config, OccupancyCheckConfig, PortConfig, ReservationGroup, ServiceDefinition};
use crate::database::Database;
use crate::error::Error;
use crate::group::{
    request_tags, services_error, tags_valid, GroupAllocationRequest, GroupReconciliationPolicy, ServiceAllocationRequest,
};
use crate::path::components::{components, render, root_component};
use crate::path::relationship::spec_between;
use crate::port::Port;
use crate::reservation::{clone_opt_string, opt_view};
use crate::text::{decimal, owned, push_decimal};
use super::plan::{OperationPlan, PlanAction};
use crate::output::formatters::{
    collision_error, collision_key, collision_key_of, derived_name, invalid_name, invalid_name_error, is_valid_env_var_name,
    tag_to_env_var, valid_env_name,
};
use crate::path::components::chars_equal;

verus! {

/// The environment-variable name a group service resolves to: its
/// explicit `env` name, or the name derived from its tag; `None` when that
/// name is not portable.
pub open spec fn service_env_name(tag: Seq<char>, def: ServiceDefinition) -> Option<Seq<char>> {
    let name = match def.env {
        Some(e) => e@,
        None => derived_name(tag),
    };
    if valid_env_name(name) { Some(name) } else { None }
}

/// Whether every service resolves to a portable name and no two names are
/// alike without ASCII case.
pub open spec fn group_names_valid(sv: Seq<(String, ServiceDefinition)>) -> bool {
    &&& forall|i: int| 0 <= i < sv.len() ==> (#[trigger] service_env_name(sv[i].0@, sv[i].1)) is Some
    &&& forall|i: int, j: int| 0 <= i < j < sv.len() ==>
        collision_key(#[trigger] service_env_name(sv[i].0@, sv[i].1)->0)
            != collision_key(#[trigger] service_env_name(sv[j].0@, sv[j].1)->0)
}

/// Whether a configuration is valid for group reservation: its group, when
/// it has one, gives every service a portable environment-variable name,
/// whatever output format is chosen later.
pub open spec fn group_config_valid(c: Config) -> bool {
    match c.reservations {
        None => true,
        Some(g) => group_names_valid(g.services@),
    }
}

/// Checks that every service of the configuration's group resolves to a
/// portable environment-variable name, with no two alike without ASCII case.
#[verifier::loop_isolation(false)]
pub fn validate_group_config(config: &Config) -> (r: Result<(), Error>)
    ensures
        r is Ok <==> group_config_valid(*config),
        r matches Err(e) ==> invalid_name_error(e) || collision_error(e),
{
    let group = match &config.reservations {
        None => {
            return Ok(());
        },
        Some(g) => g,
    };
    let ghost sv = group.services@;
    let mut keys: Vec<Vec<char>> = Vec::new();
    let mut i: usize = 0;
    while i < group.services.len()
        invariant
            config.reservations == Some(*group),
            sv == group.services@,
            i <= sv.len(),
            keys@.len() == i,
            forall|j: int| 0 <= j < i ==> (#[trigger] service_env_name(sv[j].0@, sv[j].1)) is Some,
            forall|j: int| 0 <= j < i ==> (#[trigger] keys@[j])@ == collision_key(service_env_name(sv[j].0@, sv[j].1)->0),
            forall|a: int, b: int| 0 <= a < b < i ==>
                collision_key(#[trigger] service_env_name(sv[a].0@, sv[a].1)->0)
                    != collision_key(#[trigger] service_env_name(sv[b].0@, sv[b].1)->0),
        decreases sv.len() - i,
    {
        let name = match &group.services[i].1.env {
            Some(e) => {
                if is_valid_env_var_name(e.as_str()) {
                    e.clone()
                } else {
                    assert(service_env_name(sv[i as int].0@, sv[i as int].1) is None);
                    return Err(invalid_name());
                }
            },
            None => match tag_to_env_var(group.services[i].0.as_str()) {
                Ok(n) => n,
                Err(e) => {
                    assert(service_env_name(sv[i as int].0@, sv[i as int].1) is None);
                    return Err(e);
                },
            },
        };
        assert(service_env_name(sv[i as int].0@, sv[i as int].1) == Some(name@));
        let key = collision_key_of(name.as_str());
        let mut j: usize = 0;
        while j < i
            invariant
                j <= i,
                i == keys@.len(),
                key@ == collision_key(name@),
                forall|a: int| 0 <= a < j ==> keys@[a]@ != key@,
            decreases i - j,
        {
            if chars_equal(&keys[j], &key) {
                proof {
                    assert(keys@[j as int]@ == collision_key(service_env_name(sv[j as int].0@, sv[j as int].1)->0));
                }
                return Err(Error::Validation {
                    field: owned("environment_variable"),
                    message: owned("resolved environment-variable names must be unique when compared without ASCII case"),
                });
            }
            j = j + 1;
        }
        proof {
            assert forall|a: int| 0 <= a < i implies collision_key(#[trigger] service_env_name(sv[a].0@, sv[a].1)->0)
                != collision_key(service_env_name(sv[i as int].0@, sv[i as int].1)->0) by {
                assert(keys@[a]@ == collision_key(service_env_name(sv[a].0@, sv[a].1)->0));
            }
        }
        keys.push(key);
        i = i + 1;
    }
    Ok(())
}

/// Options for a group reservation.
#[derive(Debug)]
pub struct ReserveGroupOptions {
    /// Path to the configuration file holding the reservation group.
    pub config_path: String,
    /// Task identifier (sticky field).
    pub task: Option<String>,
    /// Authorize unrelated paths, both sticky fields, and replacement.
    pub force: bool,
    /// Allow operating on a path unrelated to the working directory.
    pub allow_unrelated_path: bool,
    /// Allow changing only the project field.
    pub allow_project_change: bool,
    /// Allow changing only the task field.
    pub allow_task_change: bool,
}

impl ReserveGroupOptions {
    /// Options for the configuration at `config_path`, with every flag off.
    pub fn new(config_path: String) -> (o: Self)
        ensures
            o.config_path == config_path,
            o.task is None,
            !o.force,
            !o.allow_unrelated_path,
            !o.allow_project_change,
            !o.allow_task_change,
    {
        ReserveGroupOptions {
            config_path,
            task: None,
            force: false,
            allow_unrelated_path: false,
            allow_project_change: false,
            allow_task_change: false,
        }
    }

    /// Sets the task.
    pub fn with_task(self, task: Option<String>) -> (o: Self)
        ensures o == (ReserveGroupOptions { task, ..self }),
    {
        ReserveGroupOptions { task, ..self }
    }

    /// Sets the force flag.
    pub fn with_force(self, force: bool) -> (o: Self)
        ensures o == (ReserveGroupOptions { force, ..self }),
    {
        ReserveGroupOptions { force, ..self }
    }

    /// Sets the unrelated-path flag.
    pub fn with_allow_unrelated_path(self, allow: bool) -> (o: Self)
        ensures o == (ReserveGroupOptions { allow_unrelated_path: allow, ..self }),
    {
        ReserveGroupOptions { allow_unrelated_path: allow, ..self }
    }

    /// Sets the project-change flag.
    pub fn with_allow_project_change(self, allow: bool) -> (o: Self)
        ensures o == (ReserveGroupOptions { allow_project_change: allow, ..self }),
    {
        ReserveGroupOptions { allow_project_change: allow, ..self }
    }

    /// Sets the task-change flag.
    pub fn with_allow_task_change(self, allow: bool) -> (o: Self)
        ensures o == (ReserveGroupOptions { allow_task_change: allow, ..self }),
    {
        ReserveGroupOptions { allow_task_change: allow, ..self }
    }
}

/// The directory holding `path`, as `Path::parent` gives it: `None` for an
/// empty path or one that ends at the root.
pub open spec fn spec_parent(path: Seq<char>) -> Option<Seq<char>> {
    let cs = components(path);
    if cs.len() == 0 || cs.last() == root_component() {
        None
    } else {
        Some(render(cs.drop_last()))
    }
}

/// The directory holding `path`, or `None` for an empty path or the root.
pub fn parent_of(path: &str) -> (r: Option<String>)
    ensures
        match spec_parent(path@) {
            Some(p) => r matches Some(s) && s@ == p,
            None => r is None,
        },
{
    let mut cs = crate::path::components::path_components(path);
    if cs.len() == 0 {
        return None;
    }
    let last = cs.len() - 1;
    if cs[last].len() == 1 && cs[last][0] == '/' {
        assert(cs@[last as int]@ =~= root_component());
        return None;
    }
    assert(crate::path::components::seqs_of(cs@).last() != root_component()) by {
        if cs@[last as int]@.len() == 1 {
            assert(cs@[last as int]@[0] != root_component()[0]);
        }
    }
    let ghost before = cs@;
    cs.pop();
    assert(crate::path::components::seqs_of(cs@) =~= crate::path::components::seqs_of(before).drop_last());
    Some(crate::path::normalize::render_components(&cs))
}

/// The configuration file and the directory its group belongs to, given
/// what inspecting the file found: an error stands, a file that is not a
/// regular file is refused, and so is a file with no parent directory.
pub fn group_config_paths(source: &str, is_file: Result<bool, Error>) -> (r: Result<(String, String), Error>)
    ensures
        match is_file {
            Err(e) => r == Err::<(String, String), Error>(e),
            Ok(false) => r matches Err(Error::InvalidPath { path, reason }) && path@ == source@
                && reason@ == "Configuration path is not a file"@,
            Ok(true) => match spec_parent(source@) {
                None => r matches Err(Error::InvalidPath { path, reason }) && path@ == source@
                    && reason@ == "Configuration file has no parent directory"@,
                Some(p) => r matches Ok((s, d)) && s@ == source@ && d@ == p,
            },
        },
{
    match is_file {
        Err(e) => Err(e),
        Ok(false) => Err(Error::InvalidPath {
            path: owned(source),
            reason: owned("Configuration path is not a file"),
        }),
        Ok(true) => match parent_of(source) {
            None => Err(Error::InvalidPath {
                path: owned(source),
                reason: owned("Configuration file has no parent directory"),
            }),
            Some(parent) => Ok((owned(source), parent)),
        },
    }
}

/// Whether `s` requests service `d`: its tag, its offset (0 when unset)
/// and its preferred port.
pub open spec fn service_request_from(s: ServiceAllocationRequest, d: (String, ServiceDefinition)) -> bool {
    &&& s.tag == d.0
    &&& s.offset == Some(match d.1.offset { Some(o) => o, None => 0u16 })
    &&& match d.1.preferred {
        Some(p) => s.preferred matches Some(q) && q@ == p,
        None => s.preferred is None,
    }
}

/// The tags of a group's services.
pub open spec fn service_tags(sv: Seq<(String, ServiceDefinition)>) -> Seq<Seq<char>> {
    sv.map_values(|d: (String, ServiceDefinition)| d.0@)
}

/// Whether some service prefers port 0.
pub open spec fn prefers_port_zero(sv: Seq<(String, ServiceDefinition)>) -> bool {
    exists|i: int| 0 <= i < sv.len() && (#[trigger] sv[i]).1.preferred == Some(0u16)
}

/// The refusal of a group's services as a request: a preferred port of 0
/// first, then the tags (see `services_error`).
pub open spec fn group_request_error(sv: Seq<(String, ServiceDefinition)>, e: Error) -> bool {
    if prefers_port_zero(sv) {
        e matches Error::Validation { field, message } && field@ == "port"@ && message@ == "port 0 is invalid"@
    } else {
        services_error(service_tags(sv), e)
    }
}

/// Whether `c` is `c0` with its range replaced by `ports`.
pub open spec fn with_ports(c0: Config, ports: Option<PortConfig>, c: Config) -> bool {
    &&& c.ports == ports
    &&& c.project == c0.project
    &&& c.excluded_ports@ == c0.excluded_ports@
    &&& c.occupancy_check == c0.occupancy_check
    &&& c.cleanup == c0.cleanup
    &&& (c.reservations is Some <==> c0.reservations is Some)
    &&& (c.reservations matches Some(h) ==> (c0.reservations matches Some(g) && h.base == g.base
        && h.services@ == g.services@))
}

/// The refusal of a group base that does not fit the configuration: no
/// range configured, a range with neither end nor width, a width that
/// overflows, or a base outside the range.
pub open spec fn base_scan_error(config: Config, group: ReservationGroup, e: Error) -> bool {
    match group.base {
        None => false,
        Some(base) => match config.ports {
            None => e matches Error::Validation { field, message } && field@ == "ports"@
                && message@ == "Port configuration is required when reservations.base is set"@,
            Some(pc) => match pc.max {
                Some(m) => base_range_error(base, pc.min, m as int, e),
                None => match pc.max_offset {
                    Some(off) => if pc.min + off <= 65535 {
                        base_range_error(base, pc.min, pc.min + off, e)
                    } else {
                        e matches Error::Validation { field, message } && field@ == "ports.max_offset"@
                            && message@ == "Offset "@ + decimal(off as nat) + " would overflow when added to min port "@
                                + decimal(pc.min as nat)
                    },
                    None => e matches Error::Validation { field, message } && field@ == "ports"@
                        && message@ == "Either max or max_offset must be specified"@,
                },
            },
        },
    }
}

/// The refusal of `base` outside `min..max`.
pub open spec fn base_range_error(base: u16, min: u16, max: int, e: Error) -> bool {
    e matches Error::Validation { field, message } && field@ == "reservations.base"@
        && message@ == "Base port "@ + decimal(base as nat) + " must be within port range "@ + decimal(min as nat)
            + ".."@ + decimal(max as nat)
}

/// The configuration with the range starting at the group's base: `min`
/// becomes the base and `max` is made explicit. Without a base the
/// configuration is unchanged; a base needs a port configuration whose range
/// resolves and contains it.
pub open spec fn base_scan_outcome(config: Config, group: ReservationGroup) -> Option<Option<PortConfig>> {
    match group.base {
        None => Some(config.ports),
        Some(base) => match config.ports {
            None => None,
            Some(pc) => {
                let max: Option<int> = match pc.max {
                    Some(m) => Some(m as int),
                    None => match pc.max_offset {
                        Some(off) => if pc.min + off <= 65535 { Some(pc.min + off) } else { None },
                        None => None,
                    },
                };
                match max {
                    None => None,
                    Some(m) => if base < pc.min || base > m {
                        None
                    } else {
                        Some(Some(PortConfig { min: base, max: Some(m as u16), max_offset: None }))
                    },
                }
            },
        },
    }
}

/// A group reservation planner over a validated configuration snapshot.
#[derive(Debug)]
pub struct ReserveGroupPlan {
    options: ReserveGroupOptions,
    config: Config,
    config_path: String,
    reservation_path: String,
}

impl ReserveGroupPlan {
    /// The options.
    pub closed spec fn spec_options(&self) -> ReserveGroupOptions { self.options }
    /// The configuration snapshot.
    pub closed spec fn spec_config(&self) -> Config { self.config }
    /// The configuration file's path.
    pub closed spec fn spec_config_path(&self) -> String { self.config_path }
    /// The directory the group's reservations belong to.
    pub closed spec fn spec_reservation_path(&self) -> String { self.reservation_path }

    /// A planner over a configuration read from `config_path` whose group
    /// belongs to `reservation_path`; refused when the configuration is not
    /// valid for group reservation (see `group_config_valid`).
    pub fn from_resolved_config(
        options: ReserveGroupOptions,
        config: Config,
        config_path: String,
        reservation_path: String,
    ) -> (r: Result<Self, Error>)
        ensures
            r is Ok <==> group_config_valid(config),
            r matches Ok(p) ==> p.spec_options() == options && p.spec_config() == config
                && p.spec_config_path() == config_path && p.spec_reservation_path() == reservation_path,
            r matches Err(e) ==> invalid_name_error(e) || collision_error(e),
    {
        validate_group_config(&config)?;
        Ok(ReserveGroupPlan { options, config, config_path, reservation_path })
    }

    /// A planner over a copy of an effective configuration, read from
    /// `config_path`, whose group belongs to `reservation_path`; refused
    /// when the configuration is not valid for group reservation.
    pub fn from_effective(
        options: ReserveGroupOptions,
        config: &Config,
        config_path: String,
        reservation_path: String,
    ) -> (r: Result<Self, Error>)
        ensures
            r is Ok <==> group_config_valid(*config),
            r matches Ok(p) ==> p.spec_options() == options && same_config(p.spec_config(), *config)
                && p.spec_config_path() == config_path && p.spec_reservation_path() == reservation_path,
            r matches Err(e) ==> invalid_name_error(e) || collision_error(e),
    {
        Self::from_resolved_config(options, config.clone(), config_path, reservation_path)
    }

    /// The configuration file's path.
    pub fn config_path(&self) -> (r: &String)
        ensures *r == self.spec_config_path(),
    {
        &self.config_path
    }

    /// The configuration snapshot the planner uses.
    pub fn config(&self) -> (r: &Config)
        ensures *r == self.spec_config(),
    {
        &self.config
    }

    /// The occupancy settings in force.
    pub fn occupancy_config(&self) -> (r: OccupancyCheckConfig)
        ensures
            r == match self.spec_config().occupancy_check { Some(c) => c, None => OccupancyCheckConfig { enabled: true } },
    {
        self.config.occupancy_config()
    }

    /// The group request: each service in order, with its offset (0 when
    /// unset) and its preferred port, for the planner's reservation path,
    /// project and task; refused when a preferred port is 0 or the tags are
    /// not non-empty and distinct.
    pub fn build_group_request(&self, group: &ReservationGroup) -> (r: Result<GroupAllocationRequest, Error>)
        ensures
            ({
                let sv = group.services@;
                let bad_port = prefers_port_zero(sv);
                &&& bad_port ==> r is Err
                &&& r matches Err(e) ==> group_request_error(sv, e)
                &&& !bad_port ==> (r is Ok <==> (sv.len() > 0 && forall|i: int, j: int| 0 <= i < j < sv.len() ==>
                        (#[trigger] sv[i]).0@ != (#[trigger] sv[j]).0@) && forall|i: int| 0 <= i < sv.len() ==> (#[trigger] sv[i]).0@.len() > 0)
                &&& r matches Ok(req) ==> req.base_path == self.spec_reservation_path()
                    && req.project == self.spec_config().project
                    && req.task == self.spec_options().task
                    && req.services@.len() == sv.len()
                    && forall|i: int| 0 <= i < sv.len() ==> service_request_from(#[trigger] req.services@[i], sv[i])
            }),
    {
        let ghost sv = group.services@;
        let mut services: Vec<ServiceAllocationRequest> = Vec::new();
        let mut i: usize = 0;
        while i < group.services.len()
            invariant
                i <= sv.len(),
                sv == group.services@,
                forall|k: int| 0 <= k < i ==> (#[trigger] sv[k]).1.preferred != Some(0u16),
                services@.len() == i,
                forall|k: int| 0 <= k < i ==> {
                    let s = #[trigger] services@[k];
                    &&& s.tag == sv[k].0
                    &&& s.offset == Some(match sv[k].1.offset { Some(o) => o, None => 0u16 })
                    &&& match sv[k].1.preferred { Some(p) => s.preferred matches Some(q) && q@ == p, None => s.preferred is None }
                },
            decreases sv.len() - i,
        {
            let (tag, def) = &group.services[i];
            let preferred = match def.preferred {
                Some(p) => match Port::try_from(p) {
                    Ok(port) => Some(port),
                    Err(e) => {
                        assert(sv[i as int].1.preferred == Some(0u16));
                        return Err(Error::Validation { field: owned("port"), message: e.reason });
                    },
                },
                None => None,
            };
            let offset = match def.offset {
                Some(o) => o,
                None => 0,
            };
            services.push(ServiceAllocationRequest { tag: tag.clone(), offset: Some(offset), preferred });
            i = i + 1;
        }
        let request = GroupAllocationRequest {
            base_path: self.reservation_path.clone(),
            project: clone_opt_string(&self.config.project),
            task: clone_opt_string(&self.options.task),
            services,
        };
        proof {
            assert(request_tags(request.services@) =~= service_tags(sv));
            assert(!prefers_port_zero(sv));
            assert(tags_valid(request.services@) <==> (forall|a: int, b: int| 0 <= a < b < sv.len() ==>
                (#[trigger] sv[a]).0@ != (#[trigger] sv[b]).0@) && forall|a: int| 0 <= a < sv.len() ==> (#[trigger] sv[a]).0@.len() > 0) by {
                if tags_valid(request.services@) {
                    assert forall|a: int, b: int| 0 <= a < b < sv.len() implies (#[trigger] sv[a]).0@ != (#[trigger] sv[b]).0@ by {
                        assert(request.services@[a].tag@ != request.services@[b].tag@);
                    }
                    assert forall|a: int| 0 <= a < sv.len() implies (#[trigger] sv[a]).0@.len() > 0 by {
                        assert(request.services@[a].tag@.len() > 0);
                    }
                }
                if (forall|a: int, b: int| 0 <= a < b < sv.len() ==> (#[trigger] sv[a]).0@ != (#[trigger] sv[b]).0@)
                    && forall|a: int| 0 <= a < sv.len() ==> (#[trigger] sv[a]).0@.len() > 0 {
                    assert forall|a: int, b: int| 0 <= a < b < request.services@.len() implies
                        (#[trigger] request.services@[a]).tag@ != (#[trigger] request.services@[b]).tag@ by {
                        assert(sv[a].0@ != sv[b].0@);
                    }
                    assert forall|a: int| 0 <= a < request.services@.len() implies
                        (#[trigger] request.services@[a]).tag@.len() > 0 by {
                        assert(sv[a].0@.len() > 0);
                    }
                }
            }
        }
        request.normalized()
    }

    /// The configuration with its range starting at the group's base (see
    /// `base_scan_outcome`), refused with a validation error otherwise.
    pub fn config_with_group_base_as_scan_start(&self, group: &ReservationGroup) -> (r: Result<Config, Error>)
        ensures
            match base_scan_outcome(self.spec_config(), *group) {
                None => r matches Err(e) && base_scan_error(self.spec_config(), *group, e),
                Some(ports) => r matches Ok(c) && with_ports(self.spec_config(), ports, c),
            },
    {
        let base = match group.base {
            None => {
                return Ok(self.config.clone());
            },
            Some(b) => b,
        };
        let mut config = self.config.clone();
        let ports = match config.ports {
            Some(p) => p,
            None => {
                return Err(Error::Validation {
                    field: owned("ports"),
                    message: owned("Port configuration is required when reservations.base is set"),
                });
            },
        };
        let max = match ports.max {
            Some(m) => m,
            None => match ports.max_offset {
                Some(off) => match ports.min.checked_add(off) {
                    Some(m) => m,
                    None => {
                        let mut message = owned("Offset ");
                        push_decimal(&mut message, off as u64);
                        message.push_str(" would overflow when added to min port ");
                        push_decimal(&mut message, ports.min as u64);
                        return Err(Error::Validation { field: owned("ports.max_offset"), message });
                    },
                },
                None => {
                    return Err(Error::Validation {
                        field: owned("ports"),
                        message: owned("Either max or max_offset must be specified"),
                    });
                },
            },
        };
        if base < ports.min || base > max {
            let mut message = owned("Base port ");
            push_decimal(&mut message, base as u64);
            message.push_str(" must be within port range ");
            push_decimal(&mut message, ports.min as u64);
            message.push_str("..");
            push_decimal(&mut message, max as u64);
            return Err(Error::Validation { field: owned("reservations.base"), message });
        }
        config.ports = Some(PortConfig { min: base, max: Some(max), max_offset: None });
        Ok(config)
    }
}

/// Whether a group's services make a valid request: no preferred port is 0,
/// and the tags are non-empty and distinct (there is at least one).
pub open spec fn group_services_ok(sv: Seq<(String, ServiceDefinition)>) -> bool {
    &&& !exists|i: int| 0 <= i < sv.len() && (#[trigger] sv[i]).1.preferred == Some(0u16)
    &&& sv.len() > 0
    &&& forall|i: int, j: int| 0 <= i < j < sv.len() ==> (#[trigger] sv[i]).0@ != (#[trigger] sv[j]).0@
    &&& forall|i: int| 0 <= i < sv.len() ==> (#[trigger] sv[i]).0@.len() > 0
}

/// What planning the group of `p` from `working_dir` gives. Refused when
/// the configuration has no group or an empty one, when the group's
/// directory is unrelated to `working_dir` (unless forced or allowed), when
/// a service request is invalid, or when the base does not fit the
/// configured range; otherwise one action that allocates the whole group.
pub open spec fn group_plan_outcome(p: ReserveGroupPlan, working_dir: Seq<char>, r: Result<OperationPlan, Error>) -> bool {
    planned_group(p.spec_options(), p.spec_config(), p.spec_config_path(), p.spec_reservation_path(), working_dir, r)
}

/// What planning the group of configuration `c` (read from `config_path`,
/// its group belonging to `reservation_path`) with options `o` from
/// `working_dir` gives; see `group_plan_outcome`.
pub open spec fn planned_group(
    o: ReserveGroupOptions,
    c: Config,
    config_path: String,
    reservation_path: String,
    working_dir: Seq<char>,
    r: Result<OperationPlan, Error>,
) -> bool {
    match c.reservations {
        None => r matches Err(Error::Validation { field, message }) && field@ == "reservations"@
            && message@ == "Configuration file does not contain a reservation group"@,
        Some(g) => if g.services@.len() == 0 {
            r matches Err(Error::Validation { field, message }) && field@ == "reservations.services"@
                && message@ == "Reservation group must contain at least one service"@
        } else if !o.force && !o.allow_unrelated_path
            && spec_between(reservation_path@, working_dir) is Unrelated {
            r matches Err(Error::PathRelationshipViolation { .. })
        } else {
            &&& (r is Ok <==> (group_services_ok(g.services@) && base_scan_outcome(c, g) is Some))
            &&& r matches Err(e) ==> (!group_services_ok(g.services@) ==> group_request_error(g.services@, e))
                && (group_services_ok(g.services@) ==> base_scan_error(c, g, e))
            &&& r matches Ok(plan) ==> {
                &&& plan.description@ == "Reserve group of "@ + decimal(g.services@.len())
                    + " services from "@ + config_path@
                &&& plan.warnings@.len() == 0
                &&& plan.actions@.len() == 1
                &&& plan.actions@[0] matches PlanAction::AllocateGroup { request, policy, full_config, occupancy_config }
                    && request.base_path == reservation_path
                    && request.project == c.project
                    && request.task == o.task
                    && request.services@.len() == g.services@.len()
                    && (forall|i: int| 0 <= i < g.services@.len() ==>
                        service_request_from(#[trigger] request.services@[i], g.services@[i]))
                    && policy == (GroupReconciliationPolicy {
                        allow_project_change: o.allow_project_change,
                        allow_task_change: o.allow_task_change,
                        force: o.force,
                    })
                    && occupancy_config == match c.occupancy_check { Some(x) => x, None => OccupancyCheckConfig { enabled: true } }
                    && with_ports(c, base_scan_outcome(c, g)->0, full_config)
            }
        },
    }
}

/// Whether the group in configuration `c` can be planned with options `o`
/// for reservations under `reservation_path` from `working_dir`.
pub open spec fn group_plan_allowed(c: Config, o: ReserveGroupOptions, reservation_path: Seq<char>, working_dir: Seq<char>) -> bool {
    match c.reservations {
        None => false,
        Some(g) => g.services@.len() > 0
            && (o.force || o.allow_unrelated_path || !(spec_between(reservation_path, working_dir) is Unrelated))
            && group_services_ok(g.services@) && base_scan_outcome(c, g) is Some,
    }
}

/// A planner plans from the configuration snapshot it was made with, and
/// from nothing else that may change: whether its plan succeeds is decided
/// by that configuration, its options, its directory and the working
/// directory alone.
pub proof fn lemma_group_plan_uses_snapshot(
    p: ReserveGroupPlan,
    config: Config,
    working_dir: Seq<char>,
    r: Result<OperationPlan, Error>,
)
    requires
        p.spec_config() == config,
        group_plan_outcome(p, working_dir, r),
    ensures
        r is Ok <==> group_plan_allowed(config, p.spec_options(), p.spec_reservation_path()@, working_dir),
{
}

/// Whether two group plans allocate alike: the same description, and one
/// group allocation each, for the same directory, project and task, with
/// the same services (tag, offset and preferred port) under the same range.
pub open spec fn same_group_plan(a: OperationPlan, b: OperationPlan) -> bool {
    &&& a.description@ == b.description@
    &&& a.actions@.len() == 1 && b.actions@.len() == 1
    &&& a.actions@[0] matches PlanAction::AllocateGroup { request: q1, full_config: f1, .. }
    &&& b.actions@[0] matches PlanAction::AllocateGroup { request: q2, full_config: f2, .. }
    &&& q1.base_path == q2.base_path && q1.project == q2.project && q1.task == q2.task
    &&& q1.services@.len() == q2.services@.len()
    &&& forall|i: int| 0 <= i < q1.services@.len() ==> {
        let s1 = #[trigger] q1.services@[i];
        let s2 = q2.services@[i];
        &&& s1.tag == s2.tag && s1.offset == s2.offset
        &&& (s1.preferred is Some <==> s2.preferred is Some)
        &&& (s1.preferred matches Some(x) ==> (s2.preferred matches Some(y) && x@ == y@))
    }
    &&& f1.ports == f2.ports
}

/// A planner keeps the configuration snapshot it was made with and never
/// reads the file again: planning twice from the same working directory
/// (say before and after the file was rewritten, even into text that no
/// longer parses) succeeds or fails alike, and two successful plans
/// allocate the same services alike.
pub proof fn lemma_group_plan_snapshot(
    p: ReserveGroupPlan,
    working_dir: Seq<char>,
    first: Result<OperationPlan, Error>,
    later: Result<OperationPlan, Error>,
)
    requires
        group_plan_outcome(p, working_dir, first),
        group_plan_outcome(p, working_dir, later),
    ensures
        first is Ok <==> later is Ok,
        first matches Ok(a) ==> (later matches Ok(b) && same_group_plan(a, b)),
{
    if first is Ok && later is Ok {
        let a = first->Ok_0;
        let b = later->Ok_0;
        let g = p.spec_config().reservations->Some_0;
        if let PlanAction::AllocateGroup { request: q1, .. } = a.actions@[0] {
            if let PlanAction::AllocateGroup { request: q2, .. } = b.actions@[0] {
                assert forall|i: int| 0 <= i < q1.services@.len() implies {
                    let s1 = #[trigger] q1.services@[i];
                    let s2 = q2.services@[i];
                    &&& s1.tag == s2.tag && s1.offset == s2.offset
                    &&& (s1.preferred is Some <==> s2.preferred is Some)
                    &&& (s1.preferred matches Some(x) ==> (s2.preferred matches Some(y) && x@ == y@))
                } by {
                    assert(service_request_from(q1.services@[i], g.services@[i]));
                    assert(service_request_from(q2.services@[i], g.services@[i]));
                }
            }
        }
    }
}

impl ReserveGroupPlan {
    /// The plan for the configured group: one action that allocates the
    /// whole group inside the executor's store.
    ///
    /// Refused when the configuration has no group or an empty one, when the
    /// group's directory is unrelated to `working_dir` (unless forced or
    /// allowed), when the request is invalid, or when the base does not fit
    /// the configured range.
    pub fn build_plan(&self, working_dir: &str) -> (r: Result<OperationPlan, Error>)
        ensures
            group_plan_outcome(*self, working_dir@, r),
    {
        let group = match &self.config.reservations {
            Some(g) => g,
            None => {
                return Err(Error::Validation {
                    field: owned("reservations"),
                    message: owned("Configuration file does not contain a reservation group"),
                });
            },
        };
        if group.services.len() == 0 {
            return Err(Error::Validation {
                field: owned("reservations.services"),
                message: owned("Reservation group must contain at least one service"),
            });
        }
        if !self.options.force && !self.options.allow_unrelated_path {
            Database::validate_path_relationship(self.reservation_path.as_str(), false, working_dir)?;
        }
        let request = self.build_group_request(group)?;
        let mut description = owned("Reserve group of ");
        push_decimal(&mut description, group.services.len() as u64);
        description.push_str(" services from ");
        description.push_str(self.config_path.as_str());
        let plan = OperationPlan::new(description.as_str());
        let occupancy_config = self.occupancy_config();
        let full_config = self.config_with_group_base_as_scan_start(group)?;
        let policy = GroupReconciliationPolicy {
            allow_project_change: self.options.allow_project_change,
            allow_task_change: self.options.allow_task_change,
            force: self.options.force,
        };
        Ok(plan.add_action(PlanAction::AllocateGroup { request, policy, full_config, occupancy_config }))
    }
}

} // verus!
