//! What the command line decides: which file to read, how much to print,
//! and the variables a task is invoked with.

pub mod app;

pub use app::{extract_file_arg, get_verbosity, parse_task_vars, Matches};
