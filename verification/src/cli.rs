//! The command model: what an invocation of the tool asks for, as plain
//! values. Argument parsing lives with the caller; it hands the engine one
//! of these.

use vstd::prelude::*;

verus! {

/// One invocation of the tool.
#[derive(Debug, Clone, PartialEq)]
pub struct Cli {
    /// Overridden package-manager binary, if any.
    pub cargo_bin: Option<String>,
    /// The subcommand; its absence means the default command.
    pub command: Option<Command>,
}

/// The subcommands.
#[derive(Debug, Clone, PartialEq)]
pub enum Command {
    /// Perform health checks on a repository.
    HealthCheck {
        repository: String,
        package: Option<String>,
        fix: bool,
        json_plan_output: Option<String>,
    },
    /// Generate an action plan document.
    Action {
        action: ActionCommand,
        repository: String,
        json_plan_output: Option<String>,
    },
    /// Execute a serialized action plan.
    ExecuteActionPlan {
        json_plan_input: Option<String>,
        shellscript_output: Option<String>,
        dry_run: bool,
    },
}

/// The plan-generating subcommands.
#[derive(Debug, Clone, PartialEq)]
pub enum ActionCommand {
    /// Publish one or more crates to the registry.
    PublishCrates { package: Vec<String> },
}

impl Command {
    /// The command an invocation without a subcommand means: a health
    /// check of the given directory, fixing nothing and writing no plan.
    pub fn default_command(current_dir: String) -> (r: Command)
        ensures
            r matches Command::HealthCheck { repository, package, fix, json_plan_output }
                && repository@ == current_dir@ && package is None && !fix
                && json_plan_output is None,
    {
        Command::HealthCheck {
            repository: current_dir,
            package: None,
            fix: false,
            json_plan_output: None,
        }
    }
}

} // verus!
