//! Command execution: what to hand to the operating system for a command,
//! and what its exit means.

use vstd::prelude::*;
use crate::collections::StringMap;
use crate::error::{ExecutionError, ExecutionResult, InterpolationError};
use crate::runner::context::{join_path, path_join, Context, Verbosity};
use crate::runner::interpolate::{bag, interpolate, interpolate_spec};
use crate::runner::task::Command;
use crate::text::concat_str;

verus! {

/// A process to start: the caller starts it, waits for it, and reports how
/// it ended.
#[derive(Debug)]
pub struct Invocation {
    /// The program and its arguments: the interpreter, then the command
    /// line as one argument.
    pub argv: Vec<String>,
    /// The directory to start the process in.
    pub dir: String,
    /// Variables to add to the environment of the process.
    pub env: StringMap<String>,
    /// A line to print before the process starts.
    pub display: Option<String>,
    /// Whether the process gets the caller's input and output; otherwise its
    /// output is discarded.
    pub inherit_io: bool,
}

/// How a process that was asked for ended.
#[derive(Debug, Clone, Copy, PartialEq, Eq, Structural)]
pub enum Outcome {
    /// The process could not be started.
    NotStarted,
    /// The process ran and exited; `code` is absent where a signal ended it.
    Exited { success: bool, code: Option<i32> },
}

/// What interpolation gives for `text`: the result, or `None` where it fails.
pub open spec fn resolved(text: Seq<char>, ctx: &Context) -> Option<Seq<char>> {
    interpolate_spec(text, bag(&ctx.vars), bag(&ctx.env))
}

/// What interpolation gives for `text`, or `text` itself where it fails.
pub open spec fn resolved_or_raw(text: Seq<char>, ctx: &Context) -> Seq<char> {
    match resolved(text, ctx) {
        Some(out) => out,
        None => text,
    }
}

/// Whether `e` is the invalid-option error under `name` that reports a
/// failed interpolation.
pub open spec fn interpolation_failure(e: ExecutionError, name: Seq<char>) -> bool {
    e matches ExecutionError::InvalidOption { name: n, error } && n@ == name && error@
        == InterpolationError::RecursiveInterpolation.message_spec()
}

/// Interpolates `text`; a failure becomes an invalid-option error under
/// `name`.
pub(crate) fn interpolate_for(text: &str, ctx: &Context, name: &str) -> (r: ExecutionResult<String>)
    ensures
        match r {
            Ok(out) => resolved(text@, ctx) == Some(out@),
            Err(e) => resolved(text@, ctx) is None && interpolation_failure(e, name@),
        },
{
    match interpolate(text, &ctx.vars, &ctx.env) {
        Ok(out) => Ok(out),
        Err(e) => Err(ExecutionError::InvalidOption { name: name.to_owned(), error: e.message() }),
    }
}

/// Interpolates `text`, and gives `text` itself where that fails.
pub(crate) fn interpolate_or_raw(text: &str, ctx: &Context) -> (out: String)
    ensures
        out@ == resolved_or_raw(text@, ctx),
{
    match interpolate(text, &ctx.vars, &ctx.env) {
        Ok(out) => out,
        Err(_) => text.to_owned(),
    }
}

/// A copy of `vars`.
pub(crate) fn copy_vars(vars: &StringMap<String>) -> (out: StringMap<String>)
    ensures
        out@ == vars@,
        out.keys() == vars.keys(),
{
    let out = vars.clone();
    assert(out.values() =~= vars.values());
    out
}

/// The command line to hand to the interpreter for `text`: the interpreter
/// followed by `text` as one argument.
pub(crate) fn command_line(ctx: &Context, text: String) -> (argv: Vec<String>)
    ensures
        argv.deep_view() == ctx.interpreter.deep_view().push(text@),
{
    let mut argv = ctx.interpreter.clone();
    let ghost before = argv.deep_view();
    argv.push(text);
    assert(argv.deep_view() == before.push(text@));
    argv
}

impl Command {
    /// The line to print before the command runs: `[RUN] ` and the
    /// interpolated print text (as written where interpolation fails);
    /// nothing for a quiet command or below normal verbosity.
    pub open spec fn display_line(&self, ctx: &Context) -> Option<Seq<char>> {
        if !self.spec_is_quiet() && ctx.verbosity.spec_level() >= Verbosity::Normal.spec_level() {
            Some("[RUN] "@ + resolved_or_raw(self.spec_print(), ctx))
        } else {
            None
        }
    }

    /// The directory the command runs in: the working directory of the
    /// context, joined with the interpolated directory of the command where
    /// it has one.
    pub open spec fn working_dir(&self, ctx: &Context) -> Seq<char> {
        match self.spec_dir() {
            Some(dir) => path_join(ctx.working_dir@, resolved(dir, ctx)->0),
            None => ctx.working_dir@,
        }
    }

    /// Whether `r` is what executing the command in `ctx` asks for: the
    /// invocation, or the error that keeps it from running.
    pub open spec fn request(&self, ctx: &Context, r: ExecutionResult<Invocation>) -> bool {
        if resolved(self.spec_exec(), ctx) is None {
            r matches Err(e) && interpolation_failure(e, "command"@)
        } else if self.spec_dir() matches Some(dir) && resolved(dir, ctx) is None {
            r matches Err(e) && interpolation_failure(e, "dir"@)
        } else if ctx.interpreter@.len() == 0 {
            r == Err::<Invocation, ExecutionError>(ExecutionError::CommandFailed(None))
        } else {
            &&& r matches Ok(invocation)
            &&& invocation.argv.deep_view() == ctx.interpreter.deep_view().push(
                resolved(self.spec_exec(), ctx)->0,
            )
            &&& invocation.dir@ == self.working_dir(ctx)
            &&& invocation.env@ == ctx.vars@
            &&& match invocation.display {
                Some(text) => self.display_line(ctx) == Some(text@),
                None => self.display_line(ctx) is None,
            }
            &&& invocation.inherit_io
        }
    }
}

/// Prepares the execution of a command in the given context.
///
/// The command text and the directory are interpolated; the process is the
/// interpreter with the command text as its last argument, it runs in the
/// working directory (joined with the command's own directory where it has
/// one), with every variable of the context in its environment and with
/// the caller's input and output. An empty interpreter cannot be started.
pub fn execute_command(cmd: &Command, ctx: &Context) -> (r: ExecutionResult<Invocation>)
    ensures
        cmd.request(ctx, r),
{
    let exec_str = match interpolate_for(cmd.exec(), ctx, "command") {
        Ok(s) => s,
        Err(e) => {
            return Err(e);
        },
    };
    let display = if !cmd.is_quiet() && ctx.verbosity.at_least(Verbosity::Normal) {
        let print_str = interpolate_or_raw(cmd.print(), ctx);
        Some(concat_str("[RUN] ", print_str.as_str()))
    } else {
        None
    };
    let dir = match cmd.dir() {
        Some(dir) => {
            let interpolated_dir = match interpolate_for(dir, ctx, "dir") {
                Ok(s) => s,
                Err(e) => {
                    return Err(e);
                },
            };
            join_path(ctx.working_dir.as_str(), interpolated_dir.as_str())
        },
        None => ctx.working_dir.clone(),
    };
    if ctx.interpreter.len() == 0 {
        return Err(ExecutionError::CommandFailed(None));
    }
    Ok(
        Invocation {
            argv: command_line(ctx, exec_str),
            dir,
            env: copy_vars(&ctx.vars),
            display,
            inherit_io: true,
        },
    )
}

/// What the exit of an executed command means: success for a successful
/// exit, and otherwise a failure with the exit code, which is absent where
/// the process could not be started.
pub fn command_result(outcome: Outcome) -> (r: ExecutionResult<()>)
    ensures
        r == spec_command_result(outcome),
{
    match outcome {
        Outcome::NotStarted => Err(ExecutionError::CommandFailed(None)),
        Outcome::Exited { success, code } => if success {
            Ok(())
        } else {
            Err(ExecutionError::CommandFailed(code))
        },
    }
}

/// What the exit of an executed command means.
pub open spec fn spec_command_result(outcome: Outcome) -> ExecutionResult<()> {
    match outcome {
        Outcome::NotStarted => Err(ExecutionError::CommandFailed(None)),
        Outcome::Exited { success, code } => if success {
            Ok(())
        } else {
            Err(ExecutionError::CommandFailed(code))
        },
    }
}

/// Whether `r` is what checking the command `text` in `ctx` asks for.
pub open spec fn check_request(text: Seq<char>, ctx: &Context, r: ExecutionResult<Invocation>) -> bool {
    if resolved(text, ctx) is None {
        r matches Err(e) && interpolation_failure(e, "command"@)
    } else if ctx.interpreter@.len() == 0 {
        r == Err::<Invocation, ExecutionError>(ExecutionError::CommandFailed(None))
    } else {
        &&& r matches Ok(invocation)
        &&& invocation.argv.deep_view() == ctx.interpreter.deep_view().push(resolved(text, ctx)->0)
        &&& invocation.dir@ == ctx.working_dir@
        &&& invocation.env@ == Map::<Seq<char>, String>::empty()
        &&& invocation.display is None
        &&& !invocation.inherit_io
    }
}

/// Prepares the check whether a command succeeds, for when conditions: the
/// interpolated command runs through the interpreter in the working
/// directory, with its output discarded and nothing printed.
pub fn check_command(cmd_str: &str, ctx: &Context) -> (r: ExecutionResult<Invocation>)
    ensures
        check_request(cmd_str@, ctx, r),
{
    let exec_str = match interpolate_for(cmd_str, ctx, "command") {
        Ok(s) => s,
        Err(e) => {
            return Err(e);
        },
    };
    if ctx.interpreter.len() == 0 {
        return Err(ExecutionError::CommandFailed(None));
    }
    Ok(
        Invocation {
            argv: command_line(ctx, exec_str),
            dir: ctx.working_dir.clone(),
            env: StringMap::new(),
            display: None,
            inherit_io: false,
        },
    )
}

/// What the exit of a checked command means: whether it succeeded, or a
/// failure without exit code where the process could not be started.
pub fn check_result(outcome: Outcome) -> (r: ExecutionResult<bool>)
    ensures
        r == spec_check_result(outcome),
{
    match outcome {
        Outcome::NotStarted => Err(ExecutionError::CommandFailed(None)),
        Outcome::Exited { success, code } => Ok(success),
    }
}

/// What the exit of a checked command means.
pub open spec fn spec_check_result(outcome: Outcome) -> ExecutionResult<bool> {
    match outcome {
        Outcome::NotStarted => Err(ExecutionError::CommandFailed(None)),
        Outcome::Exited { success, code } => Ok(success),
    }
}

} // verus!
