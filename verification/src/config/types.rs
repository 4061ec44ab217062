//! Core configuration types: what a configuration file declares, before any
//! of it is validated or turned into runtime tasks.

use vstd::prelude::*;
use crate::collections::StringMap;

verus! {

/// Top-level configuration structure.
#[derive(Debug, Clone)]
pub struct Config {
    /// Application name.
    pub name: Option<String>,
    /// Application usage description.
    pub usage: Option<String>,
    /// Tasks defined in the configuration, by name.
    pub tasks: StringMap<Task>,
    /// Interpreter to run commands with, such as `["sh", "-c"]`.
    pub interpreter: Option<Vec<String>>,
}

/// A task definition.
#[derive(Debug, Clone)]
pub struct Task {
    /// Usage description for help text.
    pub usage: Option<String>,
    /// Longer description for help text.
    pub description: Option<String>,
    /// Whether the task is hidden from help.
    pub private: bool,
    /// Whether the task should run quietly.
    pub quiet: bool,
    /// Positional arguments for the task.
    pub args: StringMap<Arg>,
    /// Named options for the task.
    pub options: StringMap<TaskOption>,
    /// Run items to execute.
    pub run: Vec<Run>,
    /// Run items that always execute after `run`, even on error.
    pub finally: Vec<Run>,
    /// Source files for caching.
    pub source: Vec<String>,
    /// Target files for caching.
    pub target: Vec<String>,
    /// Another file to take the task definition from.
    pub include_file: Option<String>,
}

/// A run item: a bare command, or conditions with commands, subtasks and
/// environment changes.
#[derive(Debug, Clone)]
pub enum Run {
    /// Simple string command.
    SimpleCommand(String),
    /// Run item with conditions and several actions.
    Complex(RunItem),
}

/// A run item with conditions and actions.
#[derive(Debug, Clone)]
pub struct RunItem {
    /// Conditions that must all hold for this run item to execute.
    pub when: Vec<When>,
    /// Commands to execute.
    pub command: Vec<Command>,
    /// Subtasks to execute.
    pub task: Vec<SubTask>,
    /// Environment variables to set (`Some`) or unset (`None`).
    pub set_environment: StringMap<OptionString>,
}

/// A command to execute.
#[derive(Debug, Clone)]
pub enum Command {
    /// Simple string command.
    Simple(String),
    /// Command with additional settings.
    Complex(CommandDetail),
}

/// Detailed command specification.
#[derive(Debug, Clone)]
pub struct CommandDetail {
    /// The command to execute.
    pub executable: String,
    /// What to print when running; `exec` where absent.
    pub print: Option<String>,
    /// Whether to suppress the printed line.
    pub quiet: bool,
    /// Working directory for the command.
    pub dir: Option<String>,
}

/// A reference to a subtask to execute.
#[derive(Debug, Clone)]
pub enum SubTask {
    /// Simple task name.
    Simple(String),
    /// Subtask with option overrides.
    Complex(SubTaskDetail),
}

/// Detailed subtask specification.
#[derive(Debug, Clone)]
pub struct SubTaskDetail {
    /// Name of the task to run.
    pub name: String,
    /// Options to pass to the subtask.
    pub options: StringMap<String>,
}

/// A conditional expression. At most one field is meant to be set; where
/// several are, the first in declaration order counts.
#[derive(Debug, Clone)]
pub struct When {
    /// Holds if both sides are equal.
    pub equal: Option<WhenComparison>,
    /// Holds if the sides differ.
    pub not_equal: Option<WhenComparison>,
    /// Holds if the command succeeds.
    pub command: Option<String>,
    /// Holds if the path exists.
    pub exists: Option<String>,
    /// Holds if the environment variable is set.
    pub env_set: Option<String>,
    /// Holds if the environment variable is not set.
    pub env_not_set: Option<String>,
    /// Holds if the option has a value.
    pub option_set: Option<String>,
    /// Holds if the option has no value.
    pub option_not_set: Option<String>,
}

/// The two sides of a comparison.
#[derive(Debug, Clone)]
pub struct WhenComparison {
    /// Left-hand side.
    pub left: String,
    /// Right-hand side.
    pub right: String,
}

/// An option (flag) definition.
#[derive(Debug, Clone)]
pub struct TaskOption {
    /// Usage description for help text.
    pub usage: Option<String>,
    /// Short flag (single character).
    pub short: Option<String>,
    /// Option type: `string`, `bool`, `int`, `float` and their long forms.
    pub option_type: String,
    /// Default value.
    pub default: Option<String>,
    /// Whether the option must be given.
    pub required: bool,
    /// A value to pass instead of the raw option value.
    pub rewrite: Option<String>,
    /// Environment variable to read the value from.
    pub environment: Option<String>,
    /// Whether the option is hidden from help.
    pub private: bool,
}

/// An argument (positional parameter) definition.
#[derive(Debug, Clone)]
pub struct Arg {
    /// Usage description for help text.
    pub usage: Option<String>,
    /// Default value.
    pub default: Option<String>,
    /// Whether the argument must be given.
    pub required: bool,
    /// Whether the argument is hidden from help.
    pub private: bool,
}

/// An optional string value, as used for environment variables.
pub type OptionString = Option<String>;

/// The option type that a definition without one gets.
pub fn default_option_type() -> (t: String)
    ensures
        t@ == "string"@,
{
    "string".to_owned()
}

impl SubTask {
    /// The name of the task referred to.
    pub open spec fn target(&self) -> Seq<char> {
        match self {
            SubTask::Simple(name) => name@,
            SubTask::Complex(detail) => detail.name@,
        }
    }
}

impl Run {
    /// The names of the tasks this run item refers to, in order.
    pub open spec fn references(&self) -> Seq<Seq<char>> {
        match self {
            Run::SimpleCommand(_) => Seq::empty(),
            Run::Complex(item) => Seq::new(item.task@.len(), |i: int| item.task@[i].target()),
        }
    }
}

/// The names of the tasks that the first `n` of `items` refer to, in order.
pub open spec fn references_of(items: Seq<Run>, n: int) -> Seq<Seq<char>>
    decreases n,
{
    if n <= 0 || n > items.len() {
        Seq::empty()
    } else {
        references_of(items, n - 1) + items[n - 1].references()
    }
}

impl Task {
    /// The names of the tasks the task refers to: those of its run items,
    /// then those of its finally items.
    pub open spec fn references(&self) -> Seq<Seq<char>> {
        references_of(self.run@, self.run@.len() as int) + references_of(
            self.finally@,
            self.finally@.len() as int,
        )
    }
}

} // verus!
