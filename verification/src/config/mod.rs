//! The declarative shape of a configuration and its validation.

pub mod parse;
pub mod schema;
pub mod types;

pub use parse::{find_config_file_from, search_paths};
pub use schema::{
    detect_circular_task_dependencies, validate_config, validate_option_type, validate_task,
};
pub use types::{
    default_option_type, Arg, Command, CommandDetail, Config, OptionString, Run, RunItem, SubTask,
    SubTaskDetail, Task, TaskOption, When, WhenComparison,
};
