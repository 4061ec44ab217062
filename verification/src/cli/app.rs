//! Decisions taken from the command line, on plain values: the parsing of
//! the command line itself is the caller's.

use vstd::prelude::*;
use crate::collections::StringMap;
use crate::config;
use crate::runner::context::Verbosity;
use crate::runner::interpolate::bag;
use crate::text::{contains_str, str_eq};

verus! {

/// What the command line gave for one task: the values of arguments and
/// options (defaults that the parser applied included), and the names of
/// the flags that were set.
#[derive(Debug)]
pub struct Matches {
    /// Values by argument or option name.
    pub values: StringMap<String>,
    /// Names of the boolean options that were given.
    pub flags: Vec<String>,
}

/// The verbosity that the global flags ask for: silent comes before quiet,
/// quiet before verbose, and without any of them it is normal.
pub fn get_verbosity(silent: bool, quiet: bool, verbose: bool) -> (v: Verbosity)
    ensures
        v == if silent {
            Verbosity::Silent
        } else if quiet {
            Verbosity::Quiet
        } else if verbose {
            Verbosity::Verbose
        } else {
            Verbosity::Normal
        },
{
    if silent {
        Verbosity::Silent
    } else if quiet {
        Verbosity::Quiet
    } else if verbose {
        Verbosity::Verbose
    } else {
        Verbosity::Normal
    }
}

/// Whether `arg` is the flag that names the configuration file.
pub open spec fn is_file_flag(arg: Seq<char>) -> bool {
    arg == "--file"@ || arg == "-f"@
}

/// The position of the first file flag, at or after `from`, that has an
/// argument behind it; the number of arguments where there is none.
pub open spec fn first_file_flag(args: Seq<Seq<char>>, from: int) -> int
    decreases args.len() - from,
{
    if from < 0 || from >= args.len() {
        args.len() as int
    } else if is_file_flag(args[from]) && from + 1 < args.len() {
        from
    } else {
        first_file_flag(args, from + 1)
    }
}

/// The configuration file that the arguments name: what follows the first
/// `--file` or `-f` that has something behind it.
pub fn extract_file_arg(args: &[String]) -> (r: Option<String>)
    ensures
        match r {
            Some(path) => first_file_flag(args.deep_view(), 0) < args.len() && path@
                == args.deep_view()[first_file_flag(args.deep_view(), 0) + 1],
            None => first_file_flag(args.deep_view(), 0) == args.len(),
        },
{
    let mut i: usize = 0;
    while i < args.len()
        invariant
            i <= args.len(),
            first_file_flag(args.deep_view(), 0) == first_file_flag(args.deep_view(), i as int),
        decreases args.len() - i,
    {
        assert(args.deep_view()[i as int] == args[i as int]@);
        if (str_eq(args[i].as_str(), "--file") || str_eq(args[i].as_str(), "-f")) && i + 1
            < args.len() {
            assert(args.deep_view()[i + 1] == args[i + 1]@);
            return Some(args[i + 1].clone());
        }
        i += 1;
    }
    None
}

/// Whether a declared option type stands for a boolean flag.
pub open spec fn is_flag_type(declared: Seq<char>) -> bool {
    declared == "bool"@ || declared == "boolean"@
}

impl Matches {
    /// The value of the argument `name`: what the command line gave, or
    /// else its default.
    pub open spec fn arg_value(&self, name: Seq<char>, arg: &config::Arg) -> Option<Seq<char>> {
        if self.values@.contains_key(name) {
            Some(self.values@[name]@)
        } else {
            match arg.default {
                Some(default) => Some(default@),
                None => None,
            }
        }
    }

    /// The value of the option `name` before any rewrite. A flag is `true`
    /// or `false`. Another option has what the command line gave, or else
    /// its default, or else the value of its environment variable, or else
    /// nothing.
    pub open spec fn raw_option_value(
        &self,
        name: Seq<char>,
        option: &config::TaskOption,
        env: Map<Seq<char>, Seq<char>>,
    ) -> Seq<char> {
        if is_flag_type(option.option_type@) {
            if self.flags.deep_view().contains(name) {
                "true"@
            } else {
                "false"@
            }
        } else if self.values@.contains_key(name) {
            self.values@[name]@
        } else {
            match option.default {
                Some(default) => default@,
                None => match option.environment {
                    Some(variable) => if env.contains_key(variable@) {
                        env[variable@]
                    } else {
                        Seq::empty()
                    },
                    None => Seq::empty(),
                },
            }
        }
    }

    /// The value of the option `name`: its rewrite where one is declared,
    /// whatever the command line gave, and else its raw value.
    pub open spec fn option_value(
        &self,
        name: Seq<char>,
        option: &config::TaskOption,
        env: Map<Seq<char>, Seq<char>>,
    ) -> Seq<char> {
        match option.rewrite {
            Some(rewrite) => rewrite@,
            None => self.raw_option_value(name, option, env),
        }
    }

    /// The variables after the first `n` arguments of `task`.
    pub open spec fn vars_after_args(&self, task: &config::Task, n: int) -> Map<
        Seq<char>,
        Seq<char>,
    >
        decreases n,
    {
        if n <= 0 || n > task.args.keys().len() {
            Map::empty()
        } else {
            let before = self.vars_after_args(task, n - 1);
            let name = task.args.keys()[n - 1];
            match self.arg_value(name, &task.args.values()[n - 1]) {
                Some(value) => before.insert(name, value),
                None => before,
            }
        }
    }

    /// The variables after all arguments and the first `n` options of
    /// `task`. An option whose value is empty sets nothing.
    pub open spec fn vars_after_options(
        &self,
        task: &config::Task,
        env: Map<Seq<char>, Seq<char>>,
        n: int,
    ) -> Map<Seq<char>, Seq<char>>
        decreases n,
    {
        if n <= 0 || n > task.options.keys().len() {
            self.vars_after_args(task, task.args.keys().len() as int)
        } else {
            let before = self.vars_after_options(task, env, n - 1);
            let name = task.options.keys()[n - 1];
            let value = self.option_value(name, &task.options.values()[n - 1], env);
            if value.len() > 0 {
                before.insert(name, value)
            } else {
                before
            }
        }
    }
}

/// The variables that a task is invoked with, from what the command line
/// gave and the process environment `env`: first the arguments, then the
/// options, each in the order of its declaration.
pub fn parse_task_vars(task: &config::Task, matches: &Matches, env: &StringMap<String>) -> (vars:
    StringMap<String>)
    ensures
        bag(&vars) == matches.vars_after_options(task, bag(env), task.options.keys().len() as int),
{
    let mut vars: StringMap<String> = StringMap::new();
    assert(bag(&vars) =~= Map::<Seq<char>, Seq<char>>::empty());
    let n_args = task.args.len();
    let mut i: usize = 0;
    while i < n_args
        invariant
            i <= n_args,
            n_args == task.args.keys().len(),
            bag(&vars) == matches.vars_after_args(task, i as int),
        decreases n_args - i,
    {
        let name = task.args.key_at(i);
        let arg = task.args.value_at(i);
        let ghost before = bag(&vars);
        match matches.values.get(name.as_str()) {
            Some(value) => {
                vars.insert(name.clone(), value.clone());
                assert(bag(&vars) =~= before.insert(name@, value@));
            },
            None => match &arg.default {
                Some(default) => {
                    vars.insert(name.clone(), default.clone());
                    assert(bag(&vars) =~= before.insert(name@, default@));
                },
                None => {},
            },
        }
        i += 1;
    }
    let n_options = task.options.len();
    let mut j: usize = 0;
    while j < n_options
        invariant
            j <= n_options,
            n_options == task.options.keys().len(),
            n_args == task.args.keys().len(),
            bag(&vars) == matches.vars_after_options(task, bag(env), j as int),
        decreases n_options - j,
    {
        let name = task.options.key_at(j);
        let option = task.options.value_at(j);
        let ghost before = bag(&vars);
        let declared = option.option_type.as_str();
        let value = if str_eq(declared, "bool") || str_eq(declared, "boolean") {
            if contains_str(&matches.flags, name.as_str()) {
                "true".to_owned()
            } else {
                "false".to_owned()
            }
        } else {
            match matches.values.get(name.as_str()) {
                Some(given) => given.clone(),
                None => match &option.default {
                    Some(default) => default.clone(),
                    None => match &option.environment {
                        Some(variable) => match env.get(variable.as_str()) {
                            Some(found) => found.clone(),
                            None => String::new(),
                        },
                        None => String::new(),
                    },
                },
            }
        };
        assert(value@ == matches.raw_option_value(name@, option, bag(env)));
        let final_value = match &option.rewrite {
            Some(rewrite) => rewrite.clone(),
            None => value,
        };
        if !final_value.as_str().is_empty() {
            vars.insert(name.clone(), final_value);
            assert(bag(&vars) =~= before.insert(name@, final_value@));
        }
        j += 1;
    }
    vars
}

} // verus!
