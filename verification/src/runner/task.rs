//! Runtime representation of tasks, built from their configuration.

use vstd::prelude::*;
use crate::collections::StringMap;
use crate::config;
use crate::config::schema::first_shared_name;
use crate::error::{ConfigError, ConfigResult};
use crate::text::str_eq;

verus! {

/// Runtime task representation: a task's configuration with its name, its
/// option types resolved, and the variables of one invocation.
#[derive(Debug, Clone)]
pub struct Task {
    /// Task name.
    pub name: String,
    /// Usage description.
    pub usage: Option<String>,
    /// Longer description.
    pub description: Option<String>,
    /// Whether the task is private.
    pub private: bool,
    /// Whether the task should run quietly.
    pub quiet: bool,
    /// Positional arguments.
    pub args: StringMap<Arg>,
    /// Named options.
    pub options: StringMap<TaskOption>,
    /// Run items to execute.
    pub run: Vec<Run>,
    /// Run items to execute afterwards, whatever became of `run`.
    pub finally: Vec<Run>,
    /// Source files for caching.
    pub source: Vec<String>,
    /// Target files for caching.
    pub target: Vec<String>,
    /// Resolved variable values for the task execution.
    pub vars: StringMap<String>,
}

/// Runtime representation of a run item.
#[derive(Debug, Clone)]
pub struct Run {
    /// Conditions that must all hold.
    pub when: Vec<When>,
    /// Commands to execute.
    pub commands: Vec<Command>,
    /// Subtasks to execute.
    pub subtasks: Vec<SubTask>,
    /// Environment variables to set (`Some`) or unset (`None`).
    pub set_environment: StringMap<Option<String>>,
}

/// Runtime representation of a command.
#[derive(Debug, Clone)]
pub enum Command {
    /// Simple command string.
    Simple(String),
    /// Command with settings.
    Complex { executable: String, print: String, quiet: bool, dir: Option<String> },
}

/// Runtime representation of a subtask reference.
#[derive(Debug, Clone)]
pub struct SubTask {
    /// Name of the task to run.
    pub name: String,
    /// Option values to run it with.
    pub options: StringMap<String>,
}

/// Runtime representation of a when condition.
#[derive(Debug, Clone)]
pub struct When {
    pub condition: WhenCondition,
}

/// Types of when conditions.
#[derive(Debug, Clone)]
pub enum WhenCondition {
    /// Both sides, interpolated, are equal.
    Equal { left: String, right: String },
    /// Both sides, interpolated, differ.
    NotEqual { left: String, right: String },
    /// The command, interpolated, exits with status 0.
    Command(String),
    /// The path, interpolated, exists below the working directory.
    Exists(String),
    /// The environment variable of this name, interpolated, is set.
    EnvSet(String),
    /// The environment variable of this name, interpolated, is not set.
    EnvNotSet(String),
    /// The variable bag has this name.
    OptionSet(String),
    /// The variable bag does not have this name.
    OptionNotSet(String),
    /// Holds always.
    Always,
}

/// Runtime representation of an option.
#[derive(Debug, Clone)]
pub struct TaskOption {
    pub name: String,
    pub usage: Option<String>,
    pub short: Option<String>,
    pub option_type: OptionType,
    pub default: Option<String>,
    pub required: bool,
    pub rewrite: Option<String>,
    pub environment: Option<String>,
    pub private: bool,
}

/// Option value types.
#[derive(Debug, Clone, Copy, PartialEq, Eq, Structural)]
pub enum OptionType {
    String,
    Bool,
    Integer,
    Float,
}

/// Runtime representation of an argument.
#[derive(Debug, Clone)]
pub struct Arg {
    pub name: String,
    pub usage: Option<String>,
    pub default: Option<String>,
    pub required: bool,
    pub private: bool,
}

impl Arg {
    /// The runtime argument named `name` that `config` declares.
    pub fn from_config(name: String, config: config::Arg) -> (arg: Self)
        ensures
            arg == (Arg {
                name,
                usage: config.usage,
                default: config.default,
                required: config.required,
                private: config.private,
            }),
    {
        Arg {
            name,
            usage: config.usage,
            default: config.default,
            required: config.required,
            private: config.private,
        }
    }
}

impl OptionType {
    /// The type that a declared type string stands for; `String` for
    /// anything that is not a known type.
    pub open spec fn of(declared: Seq<char>) -> OptionType {
        if declared == "bool"@ || declared == "boolean"@ {
            OptionType::Bool
        } else if declared == "int"@ || declared == "integer"@ {
            OptionType::Integer
        } else if declared == "float"@ {
            OptionType::Float
        } else {
            OptionType::String
        }
    }
}

impl TaskOption {
    /// The runtime option named `name` that `config` declares.
    pub fn from_config(name: String, config: config::TaskOption) -> (option: Self)
        ensures
            option == (TaskOption {
                name,
                usage: config.usage,
                short: config.short,
                option_type: OptionType::of(config.option_type@),
                default: config.default,
                required: config.required,
                rewrite: config.rewrite,
                environment: config.environment,
                private: config.private,
            }),
    {
        let declared = config.option_type.as_str();
        let option_type = if str_eq(declared, "bool") || str_eq(declared, "boolean") {
            OptionType::Bool
        } else if str_eq(declared, "int") || str_eq(declared, "integer") {
            OptionType::Integer
        } else if str_eq(declared, "float") {
            OptionType::Float
        } else {
            OptionType::String
        };
        TaskOption {
            name,
            usage: config.usage,
            short: config.short,
            option_type,
            default: config.default,
            required: config.required,
            rewrite: config.rewrite,
            environment: config.environment,
            private: config.private,
        }
    }

    /// The names this option depends on: none.
    pub fn dependencies(&self) -> (deps: Vec<String>)
        ensures
            deps@.len() == 0,
    {
        Vec::new()
    }
}

impl When {
    /// The condition that `config` declares: that of the first field set,
    /// in declaration order, and `Always` where none is.
    pub open spec fn of(config: config::When) -> When {
        When {
            condition: if let Some(eq) = config.equal {
                WhenCondition::Equal { left: eq.left, right: eq.right }
            } else if let Some(ne) = config.not_equal {
                WhenCondition::NotEqual { left: ne.left, right: ne.right }
            } else if let Some(cmd) = config.command {
                WhenCondition::Command(cmd)
            } else if let Some(path) = config.exists {
                WhenCondition::Exists(path)
            } else if let Some(var) = config.env_set {
                WhenCondition::EnvSet(var)
            } else if let Some(var) = config.env_not_set {
                WhenCondition::EnvNotSet(var)
            } else if let Some(opt) = config.option_set {
                WhenCondition::OptionSet(opt)
            } else if let Some(opt) = config.option_not_set {
                WhenCondition::OptionNotSet(opt)
            } else {
                WhenCondition::Always
            },
        }
    }

    /// Resolves the declared fields into the one condition they stand for.
    pub fn from_config(config: config::When) -> (built: Self)
        ensures
            built == When::of(config),
    {
        let condition = if let Some(eq) = config.equal {
            WhenCondition::Equal { left: eq.left, right: eq.right }
        } else if let Some(ne) = config.not_equal {
            WhenCondition::NotEqual { left: ne.left, right: ne.right }
        } else if let Some(cmd) = config.command {
            WhenCondition::Command(cmd)
        } else if let Some(path) = config.exists {
            WhenCondition::Exists(path)
        } else if let Some(var) = config.env_set {
            WhenCondition::EnvSet(var)
        } else if let Some(var) = config.env_not_set {
            WhenCondition::EnvNotSet(var)
        } else if let Some(opt) = config.option_set {
            WhenCondition::OptionSet(opt)
        } else if let Some(opt) = config.option_not_set {
            WhenCondition::OptionNotSet(opt)
        } else {
            WhenCondition::Always
        };
        When { condition }
    }

    /// The option names this condition reads.
    pub open spec fn spec_dependencies(&self) -> Seq<Seq<char>> {
        match self.condition {
            WhenCondition::OptionSet(name) => seq![name@],
            WhenCondition::OptionNotSet(name) => seq![name@],
            _ => Seq::empty(),
        }
    }

    /// The option names this condition reads: the name of an option-set or
    /// option-not-set condition, nothing otherwise.
    pub fn dependencies(&self) -> (deps: Vec<String>)
        ensures
            deps.deep_view() == self.spec_dependencies(),
    {
        let mut deps: Vec<String> = Vec::new();
        match &self.condition {
            WhenCondition::OptionSet(name) => {
                deps.push(name.clone());
                assert(deps.deep_view() == seq![name@]);
            },
            WhenCondition::OptionNotSet(name) => {
                deps.push(name.clone());
                assert(deps.deep_view() == seq![name@]);
            },
            _ => {
                assert(deps.deep_view() == Seq::<Seq<char>>::empty());
            },
        }
        deps
    }
}

impl Command {
    /// The runtime command that `config` declares; what is printed is the
    /// command itself where no other text is declared.
    pub open spec fn of(config: config::Command) -> Command {
        match config {
            config::Command::Simple(cmd) => Command::Simple(cmd),
            config::Command::Complex(detail) => Command::Complex {
                executable: detail.executable,
                print: match detail.print {
                    Some(print) => print,
                    None => detail.executable,
                },
                quiet: detail.quiet,
                dir: detail.dir,
            },
        }
    }

    /// Builds the runtime command that `config` declares.
    pub fn from_config(config: config::Command) -> (command: Self)
        ensures
            command == Command::of(config),
    {
        match config {
            config::Command::Simple(cmd) => Command::Simple(cmd),
            config::Command::Complex(detail) => {
                let print = match detail.print {
                    Some(print) => print,
                    None => detail.executable.clone(),
                };
                Command::Complex {
                    executable: detail.executable,
                    print,
                    quiet: detail.quiet,
                    dir: detail.dir,
                }
            },
        }
    }

    /// The command to execute.
    pub fn exec(&self) -> (s: &str)
        ensures
            s@ == self.spec_exec(),
    {
        match self {
            Command::Simple(cmd) => cmd.as_str(),
            Command::Complex { executable, .. } => executable.as_str(),
        }
    }

    /// The text of the command to execute.
    pub open spec fn spec_exec(&self) -> Seq<char> {
        match self {
            Command::Simple(cmd) => cmd@,
            Command::Complex { executable, .. } => executable@,
        }
    }

    /// What to print when the command runs.
    pub fn print(&self) -> (s: &str)
        ensures
            s@ == self.spec_print(),
    {
        match self {
            Command::Simple(cmd) => cmd.as_str(),
            Command::Complex { print, .. } => print.as_str(),
        }
    }

    /// The text to print when the command runs.
    pub open spec fn spec_print(&self) -> Seq<char> {
        match self {
            Command::Simple(cmd) => cmd@,
            Command::Complex { print, .. } => print@,
        }
    }

    /// Whether the command runs without being printed.
    pub fn is_quiet(&self) -> (quiet: bool)
        ensures
            quiet == self.spec_is_quiet(),
    {
        match self {
            Command::Simple(_) => false,
            Command::Complex { quiet, .. } => *quiet,
        }
    }

    /// Whether the command runs without being printed.
    pub open spec fn spec_is_quiet(&self) -> bool {
        match self {
            Command::Simple(_) => false,
            Command::Complex { quiet, .. } => *quiet,
        }
    }

    /// The working directory given for the command, if any.
    pub fn dir(&self) -> (d: Option<&str>)
        ensures
            match d {
                Some(s) => self.spec_dir() == Some(s@),
                None => self.spec_dir() is None,
            },
    {
        match self {
            Command::Simple(_) => None,
            Command::Complex { dir, .. } => match dir {
                Some(d) => Some(d.as_str()),
                None => None,
            },
        }
    }

    /// The working directory given for the command, if any.
    pub open spec fn spec_dir(&self) -> Option<Seq<char>> {
        match self {
            Command::Simple(_) => None,
            Command::Complex { dir, .. } => match dir {
                Some(d) => Some(d@),
                None => None,
            },
        }
    }
}

impl SubTask {
    /// Whether `self` is the runtime reference that `config` declares.
    pub open spec fn built_from(&self, config: config::SubTask) -> bool {
        match config {
            config::SubTask::Simple(name) => self.name == name && self.options@
                == Map::<Seq<char>, String>::empty(),
            config::SubTask::Complex(detail) => self.name == detail.name && self.options
                == detail.options,
        }
    }

    /// Builds the runtime reference that `config` declares; a bare name
    /// carries no option values.
    pub fn from_config(config: config::SubTask) -> (subtask: Self)
        ensures
            subtask.built_from(config),
    {
        match config {
            config::SubTask::Simple(name) => SubTask { name, options: StringMap::new() },
            config::SubTask::Complex(detail) => SubTask {
                name: detail.name,
                options: detail.options,
            },
        }
    }
}

/// The option names read by the first `n` of `conditions`, in order.
pub open spec fn when_dependencies(conditions: Seq<When>, n: int) -> Seq<Seq<char>>
    decreases n,
{
    if n <= 0 || n > conditions.len() {
        Seq::empty()
    } else {
        when_dependencies(conditions, n - 1) + conditions[n - 1].spec_dependencies()
    }
}

/// The option names read by the first `n` of `items`, in order.
pub open spec fn run_dependencies(items: Seq<Run>, n: int) -> Seq<Seq<char>>
    decreases n,
{
    if n <= 0 || n > items.len() {
        Seq::empty()
    } else {
        run_dependencies(items, n - 1) + items[n - 1].spec_dependencies()
    }
}

/// Appends the strings of `more` to `names`.
fn append_names(names: &mut Vec<String>, more: Vec<String>)
    ensures
        final(names).deep_view() == old(names).deep_view() + more.deep_view(),
{
    let mut i: usize = 0;
    while i < more.len()
        invariant
            i <= more.len(),
            names.deep_view() == old(names).deep_view() + more.deep_view().take(i as int),
        decreases more.len() - i,
    {
        let ghost before = names.deep_view();
        names.push(more[i].clone());
        proof {
            assert(names.deep_view() == before.push(more[i as int]@));
            assert(more.deep_view().take(i + 1) == more.deep_view().take(i as int).push(
                more[i as int]@,
            ));
        }
        i += 1;
    }
    assert(more.deep_view().take(more.len() as int) == more.deep_view());
}

impl Run {
    /// Whether `self` is the runtime run item that `config` declares: a bare
    /// command becomes an item with that one command and nothing else.
    pub open spec fn built_from(&self, config: config::Run) -> bool {
        match config {
            config::Run::SimpleCommand(cmd) => {
                &&& self.when@.len() == 0
                &&& self.commands@ == seq![Command::Simple(cmd)]
                &&& self.subtasks@.len() == 0
                &&& self.set_environment@ == Map::<Seq<char>, Option<String>>::empty()
            },
            config::Run::Complex(item) => {
                &&& self.when@ == item.when@.map_values(|w: config::When| When::of(w))
                &&& self.commands@ == item.command@.map_values(|c: config::Command| Command::of(c))
                &&& self.subtasks@.len() == item.task@.len()
                &&& forall|i: int|
                    0 <= i < item.task@.len() ==> (#[trigger] self.subtasks@[i]).built_from(
                        item.task@[i],
                    )
                &&& self.set_environment == item.set_environment
            },
        }
    }

    /// Builds the runtime run item that `config` declares.
    pub fn from_config(config: config::Run) -> (run: Self)
        ensures
            run.built_from(config),
    {
        match config {
            config::Run::SimpleCommand(cmd) => {
                let mut commands: Vec<Command> = Vec::new();
                commands.push(Command::Simple(cmd));
                assert(commands@ == seq![Command::Simple(cmd)]);
                Run {
                    when: Vec::new(),
                    commands,
                    subtasks: Vec::new(),
                    set_environment: StringMap::new(),
                }
            },
            config::Run::Complex(item) => {
                let ghost declared = item;
                let mut conditions: Vec<When> = Vec::new();
                for w in it: item.when.into_iter()
                    invariant
                        it.seq() == declared.when@,
                        conditions@ == declared.when@.take(it.index() as int).map_values(
                            |w: config::When| When::of(w),
                        ),
                {
                    conditions.push(When::from_config(w));
                    assert(conditions@ == declared.when@.take(it.index() + 1).map_values(
                        |w: config::When| When::of(w),
                    ));
                }
                assert(declared.when@.take(declared.when@.len() as int) == declared.when@);
                let mut commands: Vec<Command> = Vec::new();
                for c in it: item.command.into_iter()
                    invariant
                        it.seq() == declared.command@,
                        commands@ == declared.command@.take(it.index() as int).map_values(
                            |c: config::Command| Command::of(c),
                        ),
                {
                    commands.push(Command::from_config(c));
                    assert(commands@ == declared.command@.take(it.index() + 1).map_values(
                        |c: config::Command| Command::of(c),
                    ));
                }
                assert(declared.command@.take(declared.command@.len() as int)
                    == declared.command@);
                let mut subtasks: Vec<SubTask> = Vec::new();
                for t in it: item.task.into_iter()
                    invariant
                        it.seq() == declared.task@,
                        subtasks@.len() == it.index(),
                        forall|i: int|
                            0 <= i < it.index() ==> (#[trigger] subtasks@[i]).built_from(
                                declared.task@[i],
                            ),
                {
                    subtasks.push(SubTask::from_config(t));
                }
                Run { when: conditions, commands, subtasks, set_environment: item.set_environment }
            },
        }
    }

    /// The option names that the conditions of this run item read.
    pub open spec fn spec_dependencies(&self) -> Seq<Seq<char>> {
        when_dependencies(self.when@, self.when@.len() as int)
    }

    /// The option names that the conditions of this run item read, in the
    /// order of the conditions.
    pub fn dependencies(&self) -> (deps: Vec<String>)
        ensures
            deps.deep_view() == self.spec_dependencies(),
    {
        let mut deps: Vec<String> = Vec::new();
        assert(deps.deep_view() == Seq::<Seq<char>>::empty());
        let mut i: usize = 0;
        while i < self.when.len()
            invariant
                i <= self.when.len(),
                deps.deep_view() == when_dependencies(self.when@, i as int),
            decreases self.when.len() - i,
        {
            append_names(&mut deps, self.when[i].dependencies());
            i += 1;
        }
        deps
    }
}

/// Appends to `deps` the option names that the conditions of `items` read.
fn collect_dependencies(deps: &mut Vec<String>, items: &Vec<Run>)
    ensures
        final(deps).deep_view() == old(deps).deep_view() + run_dependencies(
            items@,
            items@.len() as int,
        ),
{
    let mut i: usize = 0;
    while i < items.len()
        invariant
            i <= items.len(),
            deps.deep_view() == old(deps).deep_view() + run_dependencies(items@, i as int),
        decreases items.len() - i,
    {
        append_names(deps, items[i].dependencies());
        i += 1;
    }
}

impl Task {
    /// Whether `config` keeps the rules that a task is built under: sources
    /// and targets come together, and no argument shares its name with an
    /// option.
    pub open spec fn config_ok(config: &config::Task) -> bool {
        &&& (config.source@.len() > 0 <==> config.target@.len() > 0)
        &&& first_shared_name(config, 0) == config.args.keys().len()
    }

    /// Whether `e` is the error that building a task from `config` gives:
    /// the first rule broken, and the first argument that breaks it.
    pub open spec fn config_defect(config: &config::Task, e: ConfigError) -> bool {
        if config.source@.len() > 0 && config.target@.len() == 0 {
            e is SourceWithoutTarget
        } else if config.target@.len() > 0 && config.source@.len() == 0 {
            e is TargetWithoutSource
        } else {
            &&& first_shared_name(config, 0) < config.args.keys().len()
            &&& e matches ConfigError::DuplicateNames(name)
            &&& name@ == config.args.keys()[first_shared_name(config, 0)]
        }
    }

    /// Validates task configuration.
    #[verifier::loop_isolation(false)]
    pub fn validate_config(config: &config::Task) -> (r: ConfigResult<()>)
        ensures
            match r {
                Ok(()) => Task::config_ok(config),
                Err(e) => !Task::config_ok(config) && Task::config_defect(config, e),
            },
    {
        if config.source.len() > 0 && config.target.len() == 0 {
            return Err(ConfigError::SourceWithoutTarget);
        }
        if config.target.len() > 0 && config.source.len() == 0 {
            return Err(ConfigError::TargetWithoutSource);
        }
        let n_args = config.args.len();
        let mut i: usize = 0;
        while i < n_args
            invariant
                i <= n_args,
                n_args == config.args.keys().len(),
                first_shared_name(config, 0)
                    == first_shared_name(config, i as int),
            decreases n_args - i,
        {
            let arg_name = config.args.key_at(i);
            if config.options.contains_key(arg_name.as_str()) {
                return Err(ConfigError::DuplicateNames(arg_name.clone()));
            }
            i += 1;
        }
        Ok(())
    }

    /// Whether `self` is the runtime task named `name` that `config`
    /// declares, with no variable resolved yet.
    pub open spec fn built_from(&self, name: String, config: config::Task) -> bool {
        &&& self.name == name
        &&& self.usage == config.usage
        &&& self.description == config.description
        &&& self.private == config.private
        &&& self.quiet == config.quiet
        &&& self.source == config.source
        &&& self.target == config.target
        &&& self.vars@ == Map::<Seq<char>, String>::empty()
        &&& self.args.keys() == config.args.keys()
        &&& self.args.values().len() == config.args.values().len()
        &&& forall|i: int|
            0 <= i < config.args.values().len() ==> {
                &&& (#[trigger] self.args.values()[i]).name@ == config.args.keys()[i]
                &&& self.args.values()[i].usage == config.args.values()[i].usage
                &&& self.args.values()[i].default == config.args.values()[i].default
                &&& self.args.values()[i].required == config.args.values()[i].required
                &&& self.args.values()[i].private == config.args.values()[i].private
            }
        &&& self.options.keys() == config.options.keys()
        &&& self.options.values().len() == config.options.values().len()
        &&& forall|i: int|
            0 <= i < config.options.values().len() ==> {
                &&& (#[trigger] self.options.values()[i]).name@ == config.options.keys()[i]
                &&& self.options.values()[i].usage == config.options.values()[i].usage
                &&& self.options.values()[i].short == config.options.values()[i].short
                &&& self.options.values()[i].option_type == OptionType::of(
                    config.options.values()[i].option_type@,
                )
                &&& self.options.values()[i].default == config.options.values()[i].default
                &&& self.options.values()[i].required == config.options.values()[i].required
                &&& self.options.values()[i].rewrite == config.options.values()[i].rewrite
                &&& self.options.values()[i].environment == config.options.values()[i].environment
                &&& self.options.values()[i].private == config.options.values()[i].private
            }
        &&& self.run@.len() == config.run@.len()
        &&& forall|i: int|
            0 <= i < config.run@.len() ==> (#[trigger] self.run@[i]).built_from(config.run@[i])
        &&& self.finally@.len() == config.finally@.len()
        &&& forall|i: int|
            0 <= i < config.finally@.len() ==> (#[trigger] self.finally@[i]).built_from(
                config.finally@[i],
            )
    }

    /// Whether the task keeps the rules of a task: sources and targets come
    /// together, and no name is that of an argument and of an option.
    pub open spec fn well_formed(&self) -> bool {
        &&& (self.source@.len() > 0 <==> self.target@.len() > 0)
        &&& forall|name: Seq<char>|
            !(self.args@.contains_key(name) && self.options@.contains_key(name))
    }

    /// Creates a new task from configuration. Fails, before anything is
    /// built, when the configuration names sources without targets or targets
    /// without sources, or gives an argument and an option one name.
    pub fn from_config(name: String, config: config::Task) -> (r: ConfigResult<Self>)
        ensures
            match r {
                Ok(task) => Task::config_ok(&config) && task.built_from(name, config)
                    && task.well_formed(),
                Err(e) => !Task::config_ok(&config) && Task::config_defect(&config, e),
            },
    {
        match Task::validate_config(&config) {
            Ok(()) => {},
            Err(e) => {
                return Err(e);
            },
        }
        let ghost declared = config;
        let mut args: StringMap<Arg> = StringMap::new();
        let arg_entries = config.args.into_entries();
        for entry in it: arg_entries.into_iter()
            invariant
                it.seq() == arg_entries@,
                declared.args.consistent(),
                arg_entries@.len() == declared.args.keys().len(),
                forall|i: int|
                    0 <= i < arg_entries@.len() ==> (#[trigger] arg_entries@[i]).0@
                        == declared.args.keys()[i] && arg_entries@[i].1
                        == declared.args.values()[i],
                args.consistent(),
                args.keys() == declared.args.keys().take(it.index() as int),
                args.values().len() == it.index(),
                forall|i: int|
                    0 <= i < it.index() ==> {
                        &&& (#[trigger] args.values()[i]).name@ == declared.args.keys()[i]
                        &&& args.values()[i].usage == declared.args.values()[i].usage
                        &&& args.values()[i].default == declared.args.values()[i].default
                        &&& args.values()[i].required == declared.args.values()[i].required
                        &&& args.values()[i].private == declared.args.values()[i].private
                    },
        {
            let ghost idx = it.index() as int;
            proof {
                assert(arg_entries@[idx].0@ == declared.args.keys()[idx]);
                if args.keys().contains(entry.0@) {
                    let j = choose|j: int| 0 <= j < args.keys().len() && args.keys()[j] == entry.0@;
                    assert(declared.args.keys()[j] == declared.args.keys()[idx]);
                }
            }
            let key = entry.0.clone();
            let arg = Arg::from_config(entry.0, entry.1);
            args.insert(key, arg);
            proof {
                assert(declared.args.keys().take(idx + 1) == declared.args.keys().take(idx).push(
                    declared.args.keys()[idx],
                ));
            }
        }
        assert(declared.args.keys().take(declared.args.keys().len() as int)
            == declared.args.keys());
        let mut options: StringMap<TaskOption> = StringMap::new();
        let option_entries = config.options.into_entries();
        for entry in it: option_entries.into_iter()
            invariant
                it.seq() == option_entries@,
                declared.options.consistent(),
                option_entries@.len() == declared.options.keys().len(),
                forall|i: int|
                    0 <= i < option_entries@.len() ==> (#[trigger] option_entries@[i]).0@
                        == declared.options.keys()[i] && option_entries@[i].1
                        == declared.options.values()[i],
                options.consistent(),
                options.keys() == declared.options.keys().take(it.index() as int),
                options.values().len() == it.index(),
                forall|i: int|
                    0 <= i < it.index() ==> {
                        &&& (#[trigger] options.values()[i]).name@ == declared.options.keys()[i]
                        &&& options.values()[i].usage == declared.options.values()[i].usage
                        &&& options.values()[i].short == declared.options.values()[i].short
                        &&& options.values()[i].option_type == OptionType::of(
                            declared.options.values()[i].option_type@,
                        )
                        &&& options.values()[i].default == declared.options.values()[i].default
                        &&& options.values()[i].required == declared.options.values()[i].required
                        &&& options.values()[i].rewrite == declared.options.values()[i].rewrite
                        &&& options.values()[i].environment
                            == declared.options.values()[i].environment
                        &&& options.values()[i].private == declared.options.values()[i].private
                    },
        {
            let ghost idx = it.index() as int;
            proof {
                assert(option_entries@[idx].0@ == declared.options.keys()[idx]);
                if options.keys().contains(entry.0@) {
                    let j = choose|j: int|
                        0 <= j < options.keys().len() && options.keys()[j] == entry.0@;
                    assert(declared.options.keys()[j] == declared.options.keys()[idx]);
                }
            }
            let key = entry.0.clone();
            let option = TaskOption::from_config(entry.0, entry.1);
            options.insert(key, option);
            proof {
                assert(declared.options.keys().take(idx + 1) == declared.options.keys().take(
                    idx,
                ).push(declared.options.keys()[idx]));
            }
        }
        assert(declared.options.keys().take(declared.options.keys().len() as int)
            == declared.options.keys());
        let run = build_runs(config.run);
        let finally = build_runs(config.finally);
        proof {
            lemma_no_shared_name(&declared, 0);
            assert forall|name: Seq<char>|
                !(args@.contains_key(name) && options@.contains_key(name)) by {
                if args@.contains_key(name) && options@.contains_key(name) {
                    assert(args.keys().contains(name));
                    assert(options.keys().contains(name));
                    let i = declared.args.keys().index_of(name);
                    assert(declared.args.keys()[i] == name);
                    assert(declared.options@.contains_key(name));
                }
            }
        }
        Ok(
            Task {
                name,
                usage: config.usage,
                description: config.description,
                private: config.private,
                quiet: config.quiet,
                args,
                options,
                run,
                finally,
                source: config.source,
                target: config.target,
                vars: StringMap::new(),
            },
        )
    }

    /// The option names that the task's conditions read.
    pub open spec fn spec_dependencies(&self) -> Seq<Seq<char>> {
        run_dependencies(self.run@, self.run@.len() as int) + run_dependencies(
            self.finally@,
            self.finally@.len() as int,
        )
    }

    /// All dependencies of the task: the option names read by the
    /// conditions of its run items, then by those of its finally items.
    pub fn dependencies(&self) -> (deps: Vec<String>)
        ensures
            deps.deep_view() == self.spec_dependencies(),
    {
        let mut deps: Vec<String> = Vec::new();
        assert(deps.deep_view() == Seq::<Seq<char>>::empty());
        collect_dependencies(&mut deps, &self.run);
        collect_dependencies(&mut deps, &self.finally);
        deps
    }
}

/// Where no argument from `from` on shares its name with an option, none of
/// them is the name of an option.
proof fn lemma_no_shared_name(config: &config::Task, from: int)
    requires
        0 <= from,
        first_shared_name(config, from) == config.args.keys().len(),
    ensures
        forall|i: int|
            from <= i < config.args.keys().len() ==> !config.options@.contains_key(
                #[trigger] config.args.keys()[i],
            ),
    decreases config.args.keys().len() - from,
{
    if from < config.args.keys().len() {
        lemma_no_shared_name(config, from + 1);
    }
}

/// Builds the runtime run items that `declared` holds, in order.
fn build_runs(declared: Vec<config::Run>) -> (runs: Vec<Run>)
    ensures
        runs@.len() == declared@.len(),
        forall|i: int| 0 <= i < declared@.len() ==> (#[trigger] runs@[i]).built_from(declared@[i]),
{
    let mut runs: Vec<Run> = Vec::new();
    for item in it: declared.into_iter()
        invariant
            it.seq() == declared@,
            runs@.len() == it.index(),
            forall|i: int| 0 <= i < it.index() ==> (#[trigger] runs@[i]).built_from(declared@[i]),
    {
        runs.push(Run::from_config(item));
    }
    runs
}

} // verus!
