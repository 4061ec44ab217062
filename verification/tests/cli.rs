use rusk::cli::{extract_file_arg, get_verbosity};
use rusk::runner::Verbosity;

#[test]
fn test_get_verbosity_normal() {
    assert_eq!(get_verbosity(false, false, false), Verbosity::Normal);
}

#[test]
fn test_extract_file_arg() {
    let args = vec![
        "rusk".to_string(),
        "--file".to_string(),
        "test.yml".to_string(),
    ];
    let path = extract_file_arg(&args);
    assert_eq!(path, Some("test.yml".to_string()));
}

#[test]
fn test_extract_file_arg_short() {
    let args = vec![
        "rusk".to_string(),
        "-f".to_string(),
        "test.yml".to_string(),
    ];
    let path = extract_file_arg(&args);
    assert_eq!(path, Some("test.yml".to_string()));
}

fn config_task() -> rusk::config::Task {
    rusk::config::Task {
        usage: None,
        description: None,
        private: false,
        quiet: false,
        args: rusk::collections::StringMap::new(),
        options: rusk::collections::StringMap::new(),
        run: vec![],
        finally: vec![],
        source: vec![],
        target: vec![],
        include_file: None,
    }
}

fn option(option_type: &str) -> rusk::config::TaskOption {
    rusk::config::TaskOption {
        usage: None,
        short: None,
        option_type: option_type.to_string(),
        default: None,
        required: false,
        rewrite: None,
        environment: None,
        private: false,
    }
}

fn nothing_given() -> rusk::cli::Matches {
    rusk::cli::Matches { values: rusk::collections::StringMap::new(), flags: vec![] }
}

#[test]
fn verbosity_flags_in_order_of_precedence() {
    assert_eq!(get_verbosity(true, true, true), Verbosity::Silent);
    assert_eq!(get_verbosity(true, false, false), Verbosity::Silent);
    assert_eq!(get_verbosity(false, true, true), Verbosity::Quiet);
    assert_eq!(get_verbosity(false, false, true), Verbosity::Verbose);
}

#[test]
fn file_flag_needs_something_behind_it() {
    let args = |words: &[&str]| words.iter().map(|w| w.to_string()).collect::<Vec<String>>();
    assert_eq!(extract_file_arg(&args(&["rusk", "build"])), None);
    assert_eq!(extract_file_arg(&args(&["rusk", "--file"])), None);
    assert_eq!(extract_file_arg(&args(&[])), None);
    assert_eq!(
        extract_file_arg(&args(&["rusk", "-f", "a.yml", "--file", "b.yml"])),
        Some("a.yml".to_string())
    );
    assert_eq!(
        extract_file_arg(&args(&["--file", "-f", "x"])),
        Some("-f".to_string())
    );
}

#[test]
fn task_vars_from_arguments() {
    let mut task = config_task();
    task.args.insert(
        "person".to_string(),
        rusk::config::Arg { usage: None, default: None, required: true, private: false },
    );
    task.args.insert(
        "title".to_string(),
        rusk::config::Arg {
            usage: None,
            default: Some("Dr".to_string()),
            required: false,
            private: false,
        },
    );
    task.args.insert(
        "suffix".to_string(),
        rusk::config::Arg { usage: None, default: None, required: false, private: false },
    );
    let mut given = nothing_given();
    given.values.insert("person".to_string(), "Ada".to_string());
    let env = rusk::collections::StringMap::new();
    let vars = rusk::cli::parse_task_vars(&task, &given, &env);
    assert_eq!(vars.len(), 2);
    assert_eq!(vars.get("person"), Some(&"Ada".to_string()));
    assert_eq!(vars.get("title"), Some(&"Dr".to_string()));
    assert_eq!(vars.get("suffix"), None);
}

#[test]
fn task_vars_from_options() {
    let mut task = config_task();
    task.options.insert("release".to_string(), option("bool"));
    task.options.insert("debug".to_string(), option("boolean"));
    let mut with_default = option("string");
    with_default.default = Some("staging".to_string());
    with_default.environment = Some("DEPLOY_ENV".to_string());
    task.options.insert("env".to_string(), with_default);
    let mut from_env = option("string");
    from_env.environment = Some("HOME_DIR".to_string());
    task.options.insert("home".to_string(), from_env);
    let mut unset_env = option("int");
    unset_env.environment = Some("NOT_SET".to_string());
    task.options.insert("jobs".to_string(), unset_env);
    task.options.insert("plain".to_string(), option("string"));
    task.options.insert("given".to_string(), option("string"));

    let mut given = nothing_given();
    given.flags.push("release".to_string());
    given.values.insert("given".to_string(), "value".to_string());
    let mut env = rusk::collections::StringMap::new();
    env.insert("HOME_DIR".to_string(), "/home/me".to_string());
    env.insert("DEPLOY_ENV".to_string(), "from-env".to_string());

    let vars = rusk::cli::parse_task_vars(&task, &given, &env);
    assert_eq!(vars.get("release"), Some(&"true".to_string()));
    assert_eq!(vars.get("debug"), Some(&"false".to_string()));
    assert_eq!(vars.get("env"), Some(&"staging".to_string()));
    assert_eq!(vars.get("home"), Some(&"/home/me".to_string()));
    assert_eq!(vars.get("jobs"), None);
    assert_eq!(vars.get("plain"), None);
    assert_eq!(vars.get("given"), Some(&"value".to_string()));
    assert_eq!(vars.len(), 5);
}

#[test]
fn rewrite_overrides_even_a_given_value() {
    let mut task = config_task();
    let mut rewritten = option("string");
    rewritten.rewrite = Some("--fixed".to_string());
    task.options.insert("mode".to_string(), rewritten);
    let mut flag = option("bool");
    flag.rewrite = Some("--release".to_string());
    task.options.insert("release".to_string(), flag);
    let mut emptied = option("string");
    emptied.rewrite = Some(String::new());
    emptied.default = Some("kept-out".to_string());
    task.options.insert("emptied".to_string(), emptied);

    let mut given = nothing_given();
    given.values.insert("mode".to_string(), "user".to_string());
    let env = rusk::collections::StringMap::new();
    let vars = rusk::cli::parse_task_vars(&task, &given, &env);
    assert_eq!(vars.get("mode"), Some(&"--fixed".to_string()));
    assert_eq!(vars.get("release"), Some(&"--release".to_string()));
    assert_eq!(vars.get("emptied"), None);
}
