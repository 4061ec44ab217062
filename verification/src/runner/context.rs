//! Execution context: the state that is carried through a task run.

use vstd::prelude::*;
use crate::collections::StringMap;
use crate::text::{concat_str, contains_str};

verus! {

/// Verbosity levels for output, from least to most.
#[derive(Debug, Clone, Copy, PartialEq, Eq, PartialOrd, Ord, Structural)]
pub enum Verbosity {
    Silent,
    Quiet,
    Normal,
    Verbose,
}

impl Verbosity {
    /// The rank of the level: 0 for `Silent` up to 3 for `Verbose`.
    pub open spec fn spec_level(&self) -> int {
        match self {
            Verbosity::Silent => 0,
            Verbosity::Quiet => 1,
            Verbosity::Normal => 2,
            Verbosity::Verbose => 3,
        }
    }

    /// The rank of the level: 0 for `Silent` up to 3 for `Verbose`.
    pub fn level(&self) -> (n: u8)
        ensures
            n == self.spec_level(),
    {
        match self {
            Verbosity::Silent => 0,
            Verbosity::Quiet => 1,
            Verbosity::Normal => 2,
            Verbosity::Verbose => 3,
        }
    }

    /// Whether this level is `other` or above it.
    pub fn at_least(&self, other: Verbosity) -> (b: bool)
        ensures
            b == (self.spec_level() >= other.spec_level()),
    {
        self.level() >= other.level()
    }
}

/// Execution context that tracks state during task execution.
///
/// Paths are kept as text. `env` is the process environment as the caller
/// read it, kept up to date with every change that a run asks for.
#[derive(Debug)]
pub struct Context {
    /// Current working directory.
    pub working_dir: String,
    /// Configuration file path.
    pub config_path: Option<String>,
    /// Variables (from options, args, set-environment and so on).
    pub vars: StringMap<String>,
    /// The process environment.
    pub env: StringMap<String>,
    /// Interpreter to hand commands to, such as `["bash", "-c"]`.
    pub interpreter: Vec<String>,
    /// Stack of tasks being executed, outermost first.
    pub task_stack: Vec<String>,
    /// Verbosity level.
    pub verbosity: Verbosity,
}

/// The path without its last component, where it has one, as the standard
/// library gives it on the platform that the library is built for.
pub uninterp spec fn path_parent(path: Seq<char>) -> Option<Seq<char>>;

/// A path extended by another, as the standard library joins paths on the
/// platform that the library is built for.
pub uninterp spec fn path_join(base: Seq<char>, rest: Seq<char>) -> Seq<char>;

/// The path without its last component.
///
/// Trusted: calls `std::path::Path::parent`; the result is taken to depend
/// on the text of `path` alone. Nothing more is claimed of it.
#[verifier::external_body]
pub(crate) fn parent_dir(path: &str) -> (r: Option<String>)
    ensures
        match r {
            Some(dir) => path_parent(path@) == Some(dir@),
            None => path_parent(path@) is None,
        },
{
    match std::path::Path::new(path).parent() {
        Some(dir) => Some(dir.to_string_lossy().into_owned()),
        None => None,
    }
}

/// `base` extended by `rest`.
///
/// Trusted: calls `std::path::Path::join`; the result is taken to depend on
/// the text of the two paths alone. Nothing more is claimed of it.
#[verifier::external_body]
pub(crate) fn join_path(base: &str, rest: &str) -> (r: String)
    ensures
        r@ == path_join(base@, rest@),
{
    std::path::Path::new(base).join(rest).to_string_lossy().into_owned()
}

impl Context {
    /// A context with default settings: working directory `.`, no
    /// variables, an empty environment, the interpreter `sh -c`, an empty
    /// task stack and normal verbosity.
    pub fn new() -> (ctx: Self)
        ensures
            ctx.working_dir@ == "."@,
            ctx.config_path is None,
            ctx.vars@ == Map::<Seq<char>, String>::empty(),
            ctx.env@ == Map::<Seq<char>, String>::empty(),
            ctx.interpreter.deep_view() == seq!["sh"@, "-c"@],
            ctx.task_stack.deep_view() == Seq::<Seq<char>>::empty(),
            ctx.verbosity == Verbosity::Normal,
    {
        let mut interpreter: Vec<String> = Vec::new();
        interpreter.push("sh".to_owned());
        interpreter.push("-c".to_owned());
        let task_stack: Vec<String> = Vec::new();
        assert(interpreter.deep_view() == seq!["sh"@, "-c"@]);
        assert(task_stack.deep_view() == Seq::<Seq<char>>::empty());
        Context {
            working_dir: ".".to_owned(),
            config_path: None,
            vars: StringMap::new(),
            env: StringMap::new(),
            interpreter,
            task_stack,
            verbosity: Verbosity::Normal,
        }
    }

    /// The same context with `dir` as working directory.
    pub fn with_working_dir(self, dir: String) -> (ctx: Self)
        ensures
            ctx == (Context { working_dir: dir, ..self }),
    {
        let mut ctx = self;
        ctx.working_dir = dir;
        ctx
    }

    /// The same context with `path` as configuration file path.
    pub fn with_config_path(self, path: String) -> (ctx: Self)
        ensures
            ctx == (Context { config_path: Some(path), ..self }),
    {
        let mut ctx = self;
        ctx.config_path = Some(path);
        ctx
    }

    /// The same context with `vars` as variables.
    pub fn with_vars(self, vars: StringMap<String>) -> (ctx: Self)
        ensures
            ctx == (Context { vars, ..self }),
    {
        let mut ctx = self;
        ctx.vars = vars;
        ctx
    }

    /// The same context with `env` as process environment.
    pub fn with_env(self, env: StringMap<String>) -> (ctx: Self)
        ensures
            ctx == (Context { env, ..self }),
    {
        let mut ctx = self;
        ctx.env = env;
        ctx
    }

    /// Sets a single variable.
    pub fn set_var(&mut self, key: String, value: String)
        ensures
            final(self).vars@ == old(self).vars@.insert(key@, value),
            final(self).working_dir == old(self).working_dir,
            final(self).config_path == old(self).config_path,
            final(self).env == old(self).env,
            final(self).interpreter == old(self).interpreter,
            final(self).task_stack == old(self).task_stack,
            final(self).verbosity == old(self).verbosity,
    {
        self.vars.insert(key, value);
    }

    /// The value of a variable, if it has one.
    pub fn get_var(&self, key: &str) -> (r: Option<&String>)
        ensures
            match r {
                Some(v) => self.vars@.contains_key(key@) && *v == self.vars@[key@],
                None => !self.vars@.contains_key(key@),
            },
    {
        self.vars.get(key)
    }

    /// The same context with `interpreter` as interpreter.
    pub fn with_interpreter(self, interpreter: Vec<String>) -> (ctx: Self)
        ensures
            ctx == (Context { interpreter, ..self }),
    {
        let mut ctx = self;
        ctx.interpreter = interpreter;
        ctx
    }

    /// The same context with `verbosity` as verbosity level.
    pub fn with_verbosity(self, verbosity: Verbosity) -> (ctx: Self)
        ensures
            ctx == (Context { verbosity, ..self }),
    {
        let mut ctx = self;
        ctx.verbosity = verbosity;
        ctx
    }

    /// Pushes a task onto the execution stack.
    pub fn push_task(&mut self, task_name: String)
        ensures
            final(self).task_stack@ == old(self).task_stack@.push(task_name),
            final(self).task_stack.deep_view() == old(self).task_stack.deep_view().push(task_name@),
            final(self).working_dir == old(self).working_dir,
            final(self).config_path == old(self).config_path,
            final(self).vars == old(self).vars,
            final(self).env == old(self).env,
            final(self).interpreter == old(self).interpreter,
            final(self).verbosity == old(self).verbosity,
    {
        let ghost before = self.task_stack.deep_view();
        self.task_stack.push(task_name);
        assert(self.task_stack.deep_view() == before.push(task_name@));
    }

    /// Pops the innermost task from the execution stack.
    pub fn pop_task(&mut self) -> (r: Option<String>)
        ensures
            old(self).task_stack@.len() == 0 ==> r is None && final(self).task_stack@
                == old(self).task_stack@,
            old(self).task_stack@.len() > 0 ==> r == Some(old(self).task_stack@.last())
                && final(self).task_stack@ == old(self).task_stack@.drop_last()
                && final(self).task_stack.deep_view() == old(self).task_stack.deep_view().drop_last(),
            final(self).working_dir == old(self).working_dir,
            final(self).config_path == old(self).config_path,
            final(self).vars == old(self).vars,
            final(self).env == old(self).env,
            final(self).interpreter == old(self).interpreter,
            final(self).verbosity == old(self).verbosity,
    {
        let ghost before = self.task_stack.deep_view();
        let r = self.task_stack.pop();
        proof {
            if before.len() > 0 {
                assert(self.task_stack.deep_view() == before.drop_last());
            }
        }
        r
    }

    /// Whether a task of this name is on the execution stack.
    pub fn is_task_in_stack(&self, task_name: &str) -> (b: bool)
        ensures
            b == self.task_stack.deep_view().contains(task_name@),
    {
        contains_str(&self.task_stack, task_name)
    }

    /// The name of the innermost task on the stack.
    pub fn current_task(&self) -> (r: Option<&String>)
        ensures
            match r {
                Some(name) => self.task_stack@.len() > 0 && *name == self.task_stack@.last(),
                None => self.task_stack@.len() == 0,
            },
    {
        if self.task_stack.len() == 0 {
            None
        } else {
            Some(&self.task_stack[self.task_stack.len() - 1])
        }
    }

    /// The names of all tasks on the stack, outermost first.
    pub fn task_names(&self) -> (names: Vec<String>)
        ensures
            names.deep_view() == self.task_stack.deep_view(),
    {
        self.task_stack.clone()
    }

    /// The directory of the configuration file; the working directory where
    /// no configuration file is set or its path has no directory part.
    pub fn config_dir(&self) -> (dir: String)
        ensures
            dir@ == self.spec_config_dir(),
    {
        match &self.config_path {
            Some(path) => match parent_dir(path.as_str()) {
                Some(dir) => dir,
                None => self.working_dir.clone(),
            },
            None => self.working_dir.clone(),
        }
    }

    /// The directory of the configuration file, or else the working
    /// directory.
    pub open spec fn spec_config_dir(&self) -> Seq<char> {
        match self.config_path {
            Some(path) => match path_parent(path@) {
                Some(dir) => dir,
                None => self.working_dir@,
            },
            None => self.working_dir@,
        }
    }

    /// The line that reports `message` at level `floor` under `label`, if
    /// the verbosity reaches `floor`.
    pub open spec fn line(&self, floor: Verbosity, label: Seq<char>, message: Seq<char>) -> Option<
        Seq<char>,
    > {
        if self.verbosity.spec_level() >= floor.spec_level() {
            Some(label + message)
        } else {
            None
        }
    }

    /// The line to print for an info message: `[INFO] ` and the message, at
    /// normal verbosity or above; nothing below.
    pub fn print_info(&self, message: &str) -> (r: Option<String>)
        ensures
            match r {
                Some(text) => self.line(Verbosity::Normal, "[INFO] "@, message@) == Some(text@),
                None => self.line(Verbosity::Normal, "[INFO] "@, message@) is None,
            },
    {
        if self.verbosity.at_least(Verbosity::Normal) {
            Some(concat_str("[INFO] ", message))
        } else {
            None
        }
    }

    /// The line to print for an error message: `[ERROR] ` and the message,
    /// at quiet verbosity or above; nothing when silent.
    pub fn print_error(&self, message: &str) -> (r: Option<String>)
        ensures
            match r {
                Some(text) => self.line(Verbosity::Quiet, "[ERROR] "@, message@) == Some(text@),
                None => self.line(Verbosity::Quiet, "[ERROR] "@, message@) is None,
            },
    {
        if self.verbosity.at_least(Verbosity::Quiet) {
            Some(concat_str("[ERROR] ", message))
        } else {
            None
        }
    }

    /// The line to print for a debug message: `[DEBUG] ` and the message,
    /// at verbose verbosity only.
    pub fn print_debug(&self, message: &str) -> (r: Option<String>)
        ensures
            match r {
                Some(text) => self.line(Verbosity::Verbose, "[DEBUG] "@, message@) == Some(text@),
                None => self.line(Verbosity::Verbose, "[DEBUG] "@, message@) is None,
            },
    {
        if self.verbosity.at_least(Verbosity::Verbose) {
            Some(concat_str("[DEBUG] ", message))
        } else {
            None
        }
    }

    /// The line to print when a task starts.
    pub fn print_task_start(&self, task_name: &str) -> (r: Option<String>)
        ensures
            match r {
                Some(text) => self.line(
                    Verbosity::Normal,
                    "[INFO] "@,
                    "Running task: "@ + task_name@,
                ) == Some(text@),
                None => self.line(Verbosity::Normal, "[INFO] "@, "Running task: "@ + task_name@)
                    is None,
            },
    {
        let message = concat_str("Running task: ", task_name);
        self.print_info(message.as_str())
    }

    /// The line to print when a task has completed.
    pub fn print_task_complete(&self, task_name: &str) -> (r: Option<String>)
        ensures
            match r {
                Some(text) => self.line(
                    Verbosity::Verbose,
                    "[DEBUG] "@,
                    "Task completed: "@ + task_name@,
                ) == Some(text@),
                None => self.line(
                    Verbosity::Verbose,
                    "[DEBUG] "@,
                    "Task completed: "@ + task_name@,
                ) is None,
            },
    {
        let message = concat_str("Task completed: ", task_name);
        self.print_debug(message.as_str())
    }

    /// The line to print when a task is skipped for `reason`.
    pub fn print_task_skip(&self, task_name: &str, reason: &str) -> (r: Option<String>)
        ensures
            match r {
                Some(text) => self.line(
                    Verbosity::Verbose,
                    "[DEBUG] "@,
                    "Skipping task '"@ + task_name@ + "': "@ + reason@,
                ) == Some(text@),
                None => self.line(
                    Verbosity::Verbose,
                    "[DEBUG] "@,
                    "Skipping task '"@ + task_name@ + "': "@ + reason@,
                ) is None,
            },
    {
        let mut message = concat_str("Skipping task '", task_name);
        message.append("': ");
        message.append(reason);
        self.print_debug(message.as_str())
    }
}

impl Default for Context {
    fn default() -> (ctx: Self)
        ensures
            ctx.working_dir@ == "."@,
            ctx.config_path is None,
            ctx.vars@ == Map::<Seq<char>, String>::empty(),
            ctx.env@ == Map::<Seq<char>, String>::empty(),
            ctx.interpreter.deep_view() == seq!["sh"@, "-c"@],
            ctx.task_stack.deep_view() == Seq::<Seq<char>>::empty(),
            ctx.verbosity == Verbosity::Normal,
    {
        Context::new()
    }
}

} // verus!
