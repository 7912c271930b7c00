//! Choosing a discovered configuration file for a group reservation.

use vstd::prelude::*;
use crate::error::Error;
use crate::reservation::clone_opt_string;
use crate::text::owned;
use super::reserve_group::{group_config_valid, parent_of, planned_group, spec_parent, ReserveGroupOptions, ReserveGroupPlan};
use super::plan::OperationPlan;
use crate::config::Config;
use crate::output::formatters::{collision_error, invalid_name_error};
use crate::path::normalize::{join, join_path};

verus! {

/// Options for an autoreserve operation.
#[derive(Debug)]
pub struct AutoreserveOptions {
    /// Directory the search for a configuration file starts from.
    pub start_dir: String,
    /// Task identifier (sticky field).
    pub task: Option<String>,
    /// Override every protection.
    pub force: bool,
    /// Allow operating on unrelated paths.
    pub allow_unrelated_path: bool,
    /// Allow changing the project field.
    pub allow_project_change: bool,
    /// Allow changing the task field.
    pub allow_task_change: bool,
}

impl AutoreserveOptions {
    /// Options starting at `start_dir`, with every flag off.
    pub fn new(start_dir: String) -> (o: Self)
        ensures
            o.start_dir == start_dir,
            o.task is None,
            !o.force,
            !o.allow_unrelated_path,
            !o.allow_project_change,
            !o.allow_task_change,
    {
        AutoreserveOptions {
            start_dir,
            task: None,
            force: false,
            allow_unrelated_path: false,
            allow_project_change: false,
            allow_task_change: false,
        }
    }

    /// Sets the task.
    pub fn with_task(self, task: Option<String>) -> (o: Self)
        ensures o == (AutoreserveOptions { task, ..self }),
    {
        AutoreserveOptions { task, ..self }
    }

    /// Sets the force flag.
    pub fn with_force(self, force: bool) -> (o: Self)
        ensures o == (AutoreserveOptions { force, ..self }),
    {
        AutoreserveOptions { force, ..self }
    }

    /// Sets the unrelated-path flag.
    pub fn with_allow_unrelated_path(self, allow: bool) -> (o: Self)
        ensures o == (AutoreserveOptions { allow_unrelated_path: allow, ..self }),
    {
        AutoreserveOptions { allow_unrelated_path: allow, ..self }
    }

    /// Sets the project-change flag.
    pub fn with_allow_project_change(self, allow: bool) -> (o: Self)
        ensures o == (AutoreserveOptions { allow_project_change: allow, ..self }),
    {
        AutoreserveOptions { allow_project_change: allow, ..self }
    }

    /// Sets the task-change flag.
    pub fn with_allow_task_change(self, allow: bool) -> (o: Self)
        ensures o == (AutoreserveOptions { allow_task_change: allow, ..self }),
    {
        AutoreserveOptions { allow_task_change: allow, ..self }
    }
}

/// A configuration file found while searching upwards, with its precedence.
#[derive(Debug)]
pub struct DiscoveredConfig {
    /// The file's path.
    pub path: String,
    /// Its precedence: higher wins.
    pub precedence: u32,
}

/// What the search for the nearest configuration needs next.
#[derive(Debug)]
pub enum ConfigSearchStep {
    /// Find out which of the two files in `dir` exist, and report with
    /// `config_search_step`.
    Look {
        /// The directory searched.
        dir: String,
        /// Its main configuration file, `trop.yaml`.
        main: String,
        /// Its local configuration file, `trop.local.yaml`.
        local: String,
    },
    /// The search is over, with the files found in the nearest directory
    /// holding any (none when it reached the top without finding one).
    Done(Vec<DiscoveredConfig>),
}

/// Whether `v` lists the configuration files found in `dir`: the main file
/// (precedence 1) when it exists, then the local file (precedence 2) when
/// it exists.
pub open spec fn found_in(dir: Seq<char>, has_main: bool, has_local: bool, v: Seq<DiscoveredConfig>) -> bool {
    &&& v.len() == (if has_main { 1int } else { 0int }) + (if has_local { 1int } else { 0int })
    &&& has_main ==> v[0].path@ == join_path(dir, "trop.yaml"@) && v[0].precedence == 1
    &&& has_local ==> v[v.len() - 1].path@ == join_path(dir, "trop.local.yaml"@) && v[v.len() - 1].precedence == 2
}

/// The search's request to look in `dir`.
pub fn look_in(dir: String) -> (r: ConfigSearchStep)
    ensures
        r matches ConfigSearchStep::Look { dir: d, main, local } && d == dir
            && main@ == join_path(dir@, "trop.yaml"@) && local@ == join_path(dir@, "trop.local.yaml"@),
{
    let main = join(dir.as_str(), "trop.yaml");
    let local = join(dir.as_str(), "trop.local.yaml");
    ConfigSearchStep::Look { dir, main, local }
}

/// The search after looking in `dir`: it stops at the first directory
/// holding either file, with those found there; otherwise it moves to the
/// parent directory, and at the top it ends with none.
pub fn config_search_step(dir: &str, has_main: bool, has_local: bool) -> (r: ConfigSearchStep)
    ensures
        has_main || has_local ==> (r matches ConfigSearchStep::Done(v) && found_in(dir@, has_main, has_local, v@)),
        !has_main && !has_local ==> match spec_parent(dir@) {
            Some(p) => r matches ConfigSearchStep::Look { dir: d, main, local } && d@ == p
                && main@ == join_path(p, "trop.yaml"@) && local@ == join_path(p, "trop.local.yaml"@),
            None => r matches ConfigSearchStep::Done(v) && v@.len() == 0,
        },
{
    let mut found: Vec<DiscoveredConfig> = Vec::new();
    if has_main {
        found.push(DiscoveredConfig { path: join(dir, "trop.yaml"), precedence: 1 });
    }
    if has_local {
        found.push(DiscoveredConfig { path: join(dir, "trop.local.yaml"), precedence: 2 });
    }
    if has_main || has_local {
        return ConfigSearchStep::Done(found);
    }
    match parent_of(dir) {
        Some(parent) => look_in(parent),
        None => ConfigSearchStep::Done(found),
    }
}

/// The index of the configuration that wins: the highest precedence, the
/// last of several equal ones.
pub open spec fn winning_index(cs: Seq<DiscoveredConfig>) -> int
    decreases cs.len(),
{
    if cs.len() <= 1 {
        0
    } else {
        let w = winning_index(cs.drop_last());
        if cs.last().precedence >= cs[w].precedence { cs.len() - 1 } else { w }
    }
}

/// An autoreserve planner: the options and the configuration file chosen.
#[derive(Debug)]
pub struct AutoreservePlan {
    options: AutoreserveOptions,
    discovered_config_path: String,
}

impl AutoreservePlan {
    /// The options.
    pub closed spec fn spec_options(&self) -> AutoreserveOptions { self.options }
    /// The chosen configuration file.
    pub closed spec fn spec_discovered_config_path(&self) -> String { self.discovered_config_path }

    /// A planner for the configuration files found searching upwards from
    /// the start directory: the one of highest precedence is chosen (the
    /// last of several equal ones); none found is refused.
    pub fn from_discovered(options: AutoreserveOptions, configs: &Vec<DiscoveredConfig>) -> (r: Result<Self, Error>)
        ensures
            configs@.len() == 0 ==> (r matches Err(Error::InvalidPath { path, reason }) && path == options.start_dir
                && reason@ == "No trop configuration file found searching from "@ + options.start_dir@),
            configs@.len() > 0 ==> (r matches Ok(p) && p.spec_options() == options
                && p.spec_discovered_config_path() == configs@[winning_index(configs@)].path),
    {
        if configs.len() == 0 {
            let mut reason = owned("No trop configuration file found searching from ");
            reason.push_str(options.start_dir.as_str());
            return Err(Error::InvalidPath { path: options.start_dir.clone(), reason });
        }
        let mut best: usize = 0;
        let mut i: usize = 1;
        assert(configs@.take(1).len() == 1);
        while i < configs.len()
            invariant
                1 <= i <= configs@.len(),
                best == winning_index(configs@.take(i as int)),
                best < i,
            decreases configs@.len() - i,
        {
            proof {
                assert(configs@.take(i + 1).drop_last() =~= configs@.take(i as int));
                assert(configs@.take(i + 1).last() == configs@[i as int]);
                assert(configs@.take(i + 1)[best as int] == configs@[best as int]);
            }
            if configs[i].precedence >= configs[best].precedence {
                best = i;
            }
            i = i + 1;
        }
        assert(configs@.take(configs@.len() as int) =~= configs@);
        Ok(AutoreservePlan { options, discovered_config_path: configs[best].path.clone() })
    }

    /// The options for reserving the group of the chosen configuration file.
    pub fn reserve_group_options(&self) -> (o: ReserveGroupOptions)
        ensures
            o.config_path == self.spec_discovered_config_path(),
            o.task == self.spec_options().task,
            o.force == self.spec_options().force,
            o.allow_unrelated_path == self.spec_options().allow_unrelated_path,
            o.allow_project_change == self.spec_options().allow_project_change,
            o.allow_task_change == self.spec_options().allow_task_change,
    {
        ReserveGroupOptions {
            config_path: self.discovered_config_path.clone(),
            task: clone_opt_string(&self.options.task),
            force: self.options.force,
            allow_unrelated_path: self.options.allow_unrelated_path,
            allow_project_change: self.options.allow_project_change,
            allow_task_change: self.options.allow_task_change,
        }
    }

    /// The options for reserving the group of the chosen configuration file.
    pub open spec fn spec_group_options(&self) -> ReserveGroupOptions {
        ReserveGroupOptions {
            config_path: self.spec_discovered_config_path(),
            task: self.spec_options().task,
            force: self.spec_options().force,
            allow_unrelated_path: self.spec_options().allow_unrelated_path,
            allow_project_change: self.spec_options().allow_project_change,
            allow_task_change: self.spec_options().allow_task_change,
        }
    }

    /// Plans the group of the chosen configuration file, given the
    /// configuration read from it and the directory its group belongs to,
    /// from `working_dir`: a configuration not valid for group reservation
    /// is refused; otherwise the group is planned as a group reservation
    /// with these options plans it.
    pub fn build_plan(&self, config: Config, reservation_path: String, working_dir: &str) -> (r: Result<OperationPlan, Error>)
        ensures
            !group_config_valid(config) ==> (r matches Err(e) && (invalid_name_error(e) || collision_error(e))),
            group_config_valid(config) ==> planned_group(self.spec_group_options(), config,
                self.spec_discovered_config_path(), reservation_path, working_dir@, r),
    {
        let options = self.reserve_group_options();
        assert(options == self.spec_group_options());
        let planner = ReserveGroupPlan::from_resolved_config(
            options,
            config,
            self.discovered_config_path.clone(),
            reservation_path,
        )?;
        planner.build_plan(working_dir)
    }

    /// The chosen configuration file.
    pub fn discovered_config_path(&self) -> (r: &String)
        ensures *r == self.spec_discovered_config_path(),
    {
        &self.discovered_config_path
    }
}

} // verus!
