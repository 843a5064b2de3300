//! How the agent is launched.
use super::state::RunningMode;
use vstd::prelude::*;

verus! {

/// How the load of a configuration file went.
#[derive(Debug, Clone, Copy, PartialEq, Eq, Structural)]
pub enum LoadOutcome {
    Loaded,
    /// The file holds no valid YAML.
    InvalidYaml,
    /// Anything else went wrong.
    Failed,
}

/// Which configuration a managed agent goes by.
#[derive(Debug, Clone, Copy, PartialEq, Eq, Structural)]
pub enum ConfigChoice {
    /// The one that was asked for.
    Given,
    /// The one at the older default path.
    Fallback,
    /// None: the first error is reported.
    Refused,
    /// The one at the older default path is tried.
    TryFallback,
}

/// Invalid YAML leads to the older default path; its own errors are not reported. `fallback` is
/// how the load from there went, if it was tried.
pub fn choose_config(given: LoadOutcome, fallback: Option<LoadOutcome>) -> (r: ConfigChoice)
    ensures
        r == (match given {
            LoadOutcome::Loaded => ConfigChoice::Given,
            LoadOutcome::Failed => ConfigChoice::Refused,
            LoadOutcome::InvalidYaml => match fallback {
                None => ConfigChoice::TryFallback,
                Some(LoadOutcome::Loaded) => ConfigChoice::Fallback,
                Some(_) => ConfigChoice::Refused,
            },
        }),
{
    match given {
        LoadOutcome::Loaded => ConfigChoice::Given,
        LoadOutcome::Failed => ConfigChoice::Refused,
        LoadOutcome::InvalidYaml => match fallback {
            None => ConfigChoice::TryFallback,
            Some(LoadOutcome::Loaded) => ConfigChoice::Fallback,
            Some(_) => ConfigChoice::Refused,
        },
    }
}

/// What the launch reads of the static configuration.
#[derive(Debug)]
pub struct StaticConfig {
    pub controller_ips: Vec<String>,
    /// The controllers' names, where they are known by name.
    pub controller_domain_name: Vec<String>,
    pub log_file: String,
    pub agent_mode: RunningMode,
    pub pid_file: String,
    pub cgroups_disabled: bool,
    pub override_os_hostname: Option<String>,
}

/// The configuration of an agent that stands alone: it speaks to nobody but itself, and takes
/// nothing but the log file from the user's configuration.
pub fn standalone_config(log_file: String) -> (r: StaticConfig)
    ensures
        r.controller_ips@.len() == 1,
        r.controller_ips@[0]@ == "127.0.0.1"@,
        r.controller_domain_name@.len() == 0,
        r.log_file == log_file,
        r.agent_mode == RunningMode::Standalone,
        r.pid_file@.len() == 0,
        !r.cgroups_disabled,
        r.override_os_hostname is None,
{
    let mut controller_ips: Vec<String> = Vec::new();
    controller_ips.push("127.0.0.1".to_owned());
    StaticConfig {
        controller_ips,
        controller_domain_name: Vec::new(),
        log_file,
        agent_mode: RunningMode::Standalone,
        pid_file: String::new(),
        cgroups_disabled: false,
        override_os_hostname: None,
    }
}

/// What the launch depends on besides its configuration.
pub struct LaunchFacts {
    pub agent_mode: RunningMode,
    pub config_path: String,
    pub cgroups_disabled: bool,
    /// The name that the operating system gives the host.
    pub os_hostname: Option<String>,
    /// Whether the directory of the log file exists.
    pub log_dir_exists: bool,
    /// Whether the directory can be written to, where that is known.
    pub log_dir_writable: Option<bool>,
    /// Whether the directory could be made.
    pub log_dir_created: bool,
    /// The process that started the agent.
    pub parent_pid: i32,
}

/// How the agent is launched.
pub struct LaunchPlan {
    /// Whether a process file keeps a second agent from running.
    pub pid_file: bool,
    pub hostname: String,
    pub cgroups_disabled: bool,
    pub log_to_file: bool,
    pub log_to_remote: bool,
    pub log_to_stderr: bool,
    /// The file that an agent that stands alone watches.
    pub watched_config: Option<String>,
}

/// The name the agent gives its host.
pub open spec fn hostname_of(config: StaticConfig, facts: LaunchFacts) -> Seq<char> {
    match config.override_os_hostname {
        Some(name) => name@,
        None => match facts.os_hostname {
            Some(name) => name@,
            None => "Unknown"@,
        },
    }
}

/// How the agent is launched.
pub fn plan_launch(config: &StaticConfig, facts: &LaunchFacts) -> (r: LaunchPlan)
    ensures
        r.pid_file == (config.pid_file@.len() > 0),
        r.hostname@ == hostname_of(*config, *facts),
        r.cgroups_disabled == (facts.cgroups_disabled || config.cgroups_disabled),
        r.log_to_file == (if facts.log_dir_exists {
            facts.log_dir_writable == Some(true)
        } else {
            facts.log_dir_created
        }),
        r.log_to_remote == (config.agent_mode == RunningMode::Managed),
        r.log_to_stderr == (facts.parent_pid != 1),
        r.watched_config == (if facts.agent_mode == RunningMode::Managed {
            None
        } else {
            Some(facts.config_path)
        }),
{
    let hostname = match &config.override_os_hostname {
        Some(name) => name.clone(),
        None => match &facts.os_hostname {
            Some(name) => name.clone(),
            None => "Unknown".to_owned(),
        },
    };
    let log_to_file = if facts.log_dir_exists {
        match facts.log_dir_writable {
            Some(writable) => writable,
            None => false,
        }
    } else {
        facts.log_dir_created
    };
    LaunchPlan {
        pid_file: !config.pid_file.as_str().is_empty(),
        hostname,
        cgroups_disabled: facts.cgroups_disabled || config.cgroups_disabled,
        log_to_file,
        log_to_remote: config.agent_mode == RunningMode::Managed,
        log_to_stderr: facts.parent_pid != 1,
        watched_config: match facts.agent_mode {
            RunningMode::Managed => None,
            RunningMode::Standalone => Some(facts.config_path.clone()),
        },
    }
}

} // verus!
