//! Error types.

use vstd::prelude::*;
use crate::text::{concat_str, decimal, format_decimal};

verus! {

/// Configuration parsing and validation errors.
#[derive(Debug)]
pub enum ConfigError {
    /// No configuration file was found; holds the paths that were searched.
    NotFound(String),
    /// The configuration is malformed.
    Invalid(String),
    /// A task names sources but no targets.
    SourceWithoutTarget,
    /// A task names targets but no sources.
    TargetWithoutSource,
    /// An argument and an option of one task share this name.
    DuplicateNames(String),
    /// A task of this name is referred to but not defined.
    TaskNotFound(String),
    /// Tasks refer to each other in a circle; holds the path that closes it.
    CircularDependency(String),
    /// A file named by an `include` could not be read or parsed.
    IncludeFile { path: String, error: String },
}

/// Task execution errors.
#[derive(Debug)]
pub enum ExecutionError {
    /// A command exited with a non-zero status, or could not be started
    /// (then there is no exit code).
    CommandFailed(Option<i32>),
    /// A condition did not hold.
    FailedCondition(String),
    /// A required option was not given.
    MissingOption(String),
    /// An option has a value that cannot be used.
    InvalidOption { name: String, error: String },
    /// Reserved for caching.
    Cache(String),
    /// The environment could not be read or changed.
    Environment(String),
}

/// Variable interpolation errors.
#[derive(Debug)]
pub enum InterpolationError {
    /// Strict interpolation met a placeholder that nothing resolves.
    UndefinedVariable(String),
    /// A placeholder is malformed.
    InvalidSyntax(String),
    /// Too many distinct substitutions were made in one call.
    RecursiveInterpolation,
}

/// Result of a configuration operation.
pub type ConfigResult<T> = Result<T, ConfigError>;

/// Result of an execution operation.
pub type ExecutionResult<T> = Result<T, ExecutionError>;

/// Result of an interpolation operation.
pub type InterpolationResult<T> = Result<T, InterpolationError>;

impl ConfigError {
    /// The text of the one-line message for this error.
    pub open spec fn message_spec(&self) -> Seq<char> {
        match self {
            ConfigError::NotFound(searched) => "Failed to find config file (searched: "@
                + searched@ + ")"@,
            ConfigError::Invalid(detail) => "Invalid configuration: "@ + detail@,
            ConfigError::SourceWithoutTarget => "Task source cannot be defined without target"@,
            ConfigError::TargetWithoutSource => "Task target cannot be defined without source"@,
            ConfigError::DuplicateNames(name) => "Argument and option '"@ + name@
                + "' must have unique names within a task"@,
            ConfigError::TaskNotFound(name) => "Task '"@ + name@ + "' is not defined"@,
            ConfigError::CircularDependency(path) => "Circular dependency detected: "@ + path@,
            ConfigError::IncludeFile { path, error } => "Failed to include file '"@ + path@
                + "': "@ + error@,
        }
    }

    /// The one-line message for this error.
    pub fn message(&self) -> (m: String)
        ensures
            m@ == self.message_spec(),
    {
        match self {
            ConfigError::NotFound(searched) => {
                let mut m = concat_str("Failed to find config file (searched: ", searched.as_str());
                m.append(")");
                m
            },
            ConfigError::Invalid(detail) => concat_str("Invalid configuration: ", detail.as_str()),
            ConfigError::SourceWithoutTarget => "Task source cannot be defined without target".to_owned(),
            ConfigError::TargetWithoutSource => "Task target cannot be defined without source".to_owned(),
            ConfigError::DuplicateNames(name) => {
                let mut m = concat_str("Argument and option '", name.as_str());
                m.append("' must have unique names within a task");
                m
            },
            ConfigError::TaskNotFound(name) => {
                let mut m = concat_str("Task '", name.as_str());
                m.append("' is not defined");
                m
            },
            ConfigError::CircularDependency(path) => concat_str(
                "Circular dependency detected: ",
                path.as_str(),
            ),
            ConfigError::IncludeFile { path, error } => {
                let mut m = concat_str("Failed to include file '", path.as_str());
                m.append("': ");
                m.append(error.as_str());
                m
            },
        }
    }
}

/// How an exit code is written in a message: `None`, or the code in
/// decimal inside `Some(` and `)`.
pub open spec fn exit_code_text(code: Option<i32>) -> Seq<char> {
    match code {
        Some(n) => "Some("@ + decimal(n as int) + ")"@,
        None => "None"@,
    }
}

impl ExecutionError {
    /// The text of the one-line message for this error.
    pub open spec fn message_spec(&self) -> Seq<char> {
        match self {
            ExecutionError::CommandFailed(code) => "Command failed with exit code "@
                + exit_code_text(*code),
            ExecutionError::FailedCondition(reason) => "Failed condition: "@ + reason@,
            ExecutionError::MissingOption(name) => "Option '"@ + name@
                + "' is required but not provided"@,
            ExecutionError::InvalidOption { name, error } => "Invalid option value for '"@ + name@
                + "': "@ + error@,
            ExecutionError::Cache(detail) => "Cache error: "@ + detail@,
            ExecutionError::Environment(detail) => "Environment error: "@ + detail@,
        }
    }

    /// The one-line message for this error.
    pub fn message(&self) -> (m: String)
        ensures
            m@ == self.message_spec(),
    {
        match self {
            ExecutionError::CommandFailed(code) => {
                let mut m = "Command failed with exit code ".to_owned();
                match code {
                    Some(n) => {
                        m.append("Some(");
                        m.append(format_decimal(*n).as_str());
                        m.append(")");
                        assert(m@ == "Command failed with exit code "@ + ("Some("@ + decimal(
                            *n as int,
                        ) + ")"@));
                    },
                    None => {
                        m.append("None");
                    },
                }
                m
            },
            ExecutionError::FailedCondition(reason) => concat_str(
                "Failed condition: ",
                reason.as_str(),
            ),
            ExecutionError::MissingOption(name) => {
                let mut m = concat_str("Option '", name.as_str());
                m.append("' is required but not provided");
                m
            },
            ExecutionError::InvalidOption { name, error } => {
                let mut m = concat_str("Invalid option value for '", name.as_str());
                m.append("': ");
                m.append(error.as_str());
                m
            },
            ExecutionError::Cache(detail) => concat_str("Cache error: ", detail.as_str()),
            ExecutionError::Environment(detail) => concat_str(
                "Environment error: ",
                detail.as_str(),
            ),
        }
    }
}

impl InterpolationError {
    /// The text of the one-line message for this error.
    pub open spec fn message_spec(&self) -> Seq<char> {
        match self {
            InterpolationError::UndefinedVariable(name) => "Variable '"@ + name@
                + "' is not defined"@,
            InterpolationError::InvalidSyntax(detail) => "Invalid interpolation syntax: "@
                + detail@,
            InterpolationError::RecursiveInterpolation => "Recursive interpolation detected"@,
        }
    }

    /// The one-line message for this error.
    pub fn message(&self) -> (m: String)
        ensures
            m@ == self.message_spec(),
    {
        match self {
            InterpolationError::UndefinedVariable(name) => {
                let mut m = concat_str("Variable '", name.as_str());
                m.append("' is not defined");
                m
            },
            InterpolationError::InvalidSyntax(detail) => concat_str(
                "Invalid interpolation syntax: ",
                detail.as_str(),
            ),
            InterpolationError::RecursiveInterpolation => "Recursive interpolation detected".to_owned(),
        }
    }
}

impl Clone for ExecutionError {
    fn clone(&self) -> (e: Self)
        ensures
            e == *self,
    {
        match self {
            ExecutionError::CommandFailed(code) => ExecutionError::CommandFailed(*code),
            ExecutionError::FailedCondition(text) => ExecutionError::FailedCondition(text.clone()),
            ExecutionError::MissingOption(name) => ExecutionError::MissingOption(name.clone()),
            ExecutionError::InvalidOption { name, error } => ExecutionError::InvalidOption {
                name: name.clone(),
                error: error.clone(),
            },
            ExecutionError::Cache(text) => ExecutionError::Cache(text.clone()),
            ExecutionError::Environment(text) => ExecutionError::Environment(text.clone()),
        }
    }
}

/// Whether `err` reports a failed condition, which callers treat as a skip
/// rather than a hard error.
pub fn is_failed_condition(err: &ExecutionError) -> (b: bool)
    ensures
        b == (err is FailedCondition),
{
    match err {
        ExecutionError::FailedCondition(_) => true,
        _ => false,
    }
}

} // verus!
