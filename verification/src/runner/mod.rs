//! Task execution engine: interpolation, conditions, commands and the
//! orchestration of a task's run and finally sections.

pub mod command;
pub mod context;
pub mod engine;
pub mod interpolate;
pub mod task;
pub mod when;

pub use command::{
    check_command, check_result, command_result, execute_command, Invocation, Outcome,
};
pub use context::{Context, Verbosity};
pub use engine::{Action, Event, Execution, Frame, Phase, Stage};
pub use interpolate::{interpolate, interpolate_list, interpolate_map, interpolate_strict};
pub use task::{Arg, Command, OptionType, Run, SubTask, Task, TaskOption, When, WhenCondition};
pub use when::{
    evaluate_when, evaluate_when_list, failed_condition_error, Evaluation, ListEvaluation,
};
