use rusk::collections::StringMap;
use rusk::config;
use rusk::error::ConfigError;
use rusk::runner::{Arg, Command, OptionType, Run, SubTask, Task, TaskOption, When, WhenCondition};

fn empty_config_task() -> config::Task {
    config::Task {
        usage: None,
        description: None,
        private: false,
        quiet: false,
        args: StringMap::new(),
        options: StringMap::new(),
        run: vec![],
        finally: vec![],
        source: vec![],
        target: vec![],
        include_file: None,
    }
}

fn config_option(option_type: &str) -> config::TaskOption {
    config::TaskOption {
        usage: None,
        short: None,
        option_type: option_type.to_string(),
        default: None,
        required: false,
        rewrite: None,
        environment: None,
        private: false,
    }
}

fn config_when() -> config::When {
    config::When {
        equal: None,
        not_equal: None,
        command: None,
        exists: None,
        env_set: None,
        env_not_set: None,
        option_set: None,
        option_not_set: None,
    }
}

#[test]
fn test_task_validation_source_without_target() {
    let mut config = empty_config_task();
    config.source = vec!["src.txt".to_string()];

    let result = Task::validate_config(&config);
    assert!(result.is_err());
    assert!(matches!(result, Err(ConfigError::SourceWithoutTarget)));
}

#[test]
fn test_task_validation_duplicate_names() {
    let mut config = empty_config_task();
    config.args.insert(
        "name".to_string(),
        config::Arg {
            usage: None,
            default: None,
            required: false,
            private: false,
        },
    );
    config.options.insert("name".to_string(), config_option("string"));

    let result = Task::validate_config(&config);
    assert!(result.is_err());
}

#[test]
fn from_config_rejects_what_validation_rejects() {
    let mut source_only = empty_config_task();
    source_only.source = vec!["a".to_string()];
    assert!(matches!(
        Task::from_config("t".to_string(), source_only),
        Err(ConfigError::SourceWithoutTarget)
    ));
    let mut target_only = empty_config_task();
    target_only.target = vec!["a".to_string()];
    assert!(matches!(
        Task::from_config("t".to_string(), target_only),
        Err(ConfigError::TargetWithoutSource)
    ));
    let mut shared = empty_config_task();
    shared.args.insert(
        "n".to_string(),
        config::Arg { usage: None, default: None, required: true, private: false },
    );
    shared.options.insert("n".to_string(), config_option("bool"));
    assert!(matches!(
        Task::from_config("t".to_string(), shared),
        Err(ConfigError::DuplicateNames(name)) if name == "n"
    ));
}

#[test]
fn from_config_does_not_check_option_types() {
    let mut config = empty_config_task();
    config.options.insert("odd".to_string(), config_option("number"));
    let task = Task::from_config("t".to_string(), config).unwrap();
    assert_eq!(task.options.get("odd").unwrap().option_type, OptionType::String);
}

#[test]
fn from_config_builds_every_part() {
    let mut config = empty_config_task();
    config.usage = Some("Use it".to_string());
    config.description = Some("Long text".to_string());
    config.private = true;
    config.quiet = true;
    config.source = vec!["in".to_string()];
    config.target = vec!["out".to_string()];
    config.args.insert(
        "person".to_string(),
        config::Arg {
            usage: Some("who".to_string()),
            default: Some("World".to_string()),
            required: true,
            private: false,
        },
    );
    let mut release = config_option("bool");
    release.short = Some("r".to_string());
    release.rewrite = Some("--release".to_string());
    release.environment = Some("RELEASE".to_string());
    config.options.insert("release".to_string(), release);
    config.options.insert("jobs".to_string(), config_option("integer"));
    let mut overrides = StringMap::new();
    overrides.insert("env".to_string(), "production".to_string());
    let mut set_environment = StringMap::new();
    set_environment.insert("MY_VAR".to_string(), Some("v".to_string()));
    set_environment.insert("GONE".to_string(), None);
    let mut option_set = config_when();
    option_set.option_set = Some("release".to_string());
    config.run = vec![
        config::Run::SimpleCommand("echo hi".to_string()),
        config::Run::Complex(config::RunItem {
            when: vec![option_set],
            command: vec![
                config::Command::Simple("make".to_string()),
                config::Command::Complex(config::CommandDetail {
                    executable: "make install".to_string(),
                    print: None,
                    quiet: true,
                    dir: Some("sub".to_string()),
                }),
            ],
            task: vec![
                config::SubTask::Simple("build".to_string()),
                config::SubTask::Complex(config::SubTaskDetail {
                    name: "deploy".to_string(),
                    options: overrides,
                }),
            ],
            set_environment,
        }),
    ];
    config.finally = vec![config::Run::SimpleCommand("cleanup".to_string())];

    let task = Task::from_config("all".to_string(), config).unwrap();
    assert_eq!(task.name, "all");
    assert_eq!(task.usage, Some("Use it".to_string()));
    assert_eq!(task.description, Some("Long text".to_string()));
    assert!(task.private);
    assert!(task.quiet);
    assert_eq!(task.source, vec!["in"]);
    assert_eq!(task.target, vec!["out"]);
    assert!(task.vars.is_empty());

    let person: &Arg = task.args.get("person").unwrap();
    assert_eq!(person.name, "person");
    assert_eq!(person.default, Some("World".to_string()));
    assert!(person.required);

    assert_eq!(task.options.key_at(0), "release");
    assert_eq!(task.options.key_at(1), "jobs");
    let release: &TaskOption = task.options.get("release").unwrap();
    assert_eq!(release.name, "release");
    assert_eq!(release.option_type, OptionType::Bool);
    assert_eq!(release.short, Some("r".to_string()));
    assert_eq!(release.rewrite, Some("--release".to_string()));
    assert_eq!(release.environment, Some("RELEASE".to_string()));
    assert_eq!(task.options.get("jobs").unwrap().option_type, OptionType::Integer);

    assert_eq!(task.run.len(), 2);
    let first: &Run = &task.run[0];
    assert!(first.when.is_empty());
    assert_eq!(first.commands.len(), 1);
    assert_eq!(first.commands[0].exec(), "echo hi");
    assert!(first.subtasks.is_empty());
    assert!(first.set_environment.is_empty());

    let second = &task.run[1];
    assert!(matches!(
        &second.when[0].condition,
        WhenCondition::OptionSet(name) if name == "release"
    ));
    assert_eq!(second.commands.len(), 2);
    assert_eq!(second.commands[1].exec(), "make install");
    assert_eq!(second.commands[1].print(), "make install");
    assert!(second.commands[1].is_quiet());
    assert_eq!(second.commands[1].dir(), Some("sub"));
    assert_eq!(second.subtasks[0].name, "build");
    assert!(second.subtasks[0].options.is_empty());
    assert_eq!(second.subtasks[1].name, "deploy");
    assert_eq!(second.subtasks[1].options.get("env"), Some(&"production".to_string()));
    assert_eq!(second.set_environment.get("MY_VAR"), Some(&Some("v".to_string())));
    assert_eq!(second.set_environment.get("GONE"), Some(&None));

    assert_eq!(task.finally.len(), 1);
    assert_eq!(task.finally[0].commands[0].exec(), "cleanup");
    assert_eq!(task.dependencies(), vec!["release"]);
}

#[test]
fn option_types_are_resolved() {
    let cases = [
        ("bool", OptionType::Bool),
        ("boolean", OptionType::Bool),
        ("int", OptionType::Integer),
        ("integer", OptionType::Integer),
        ("float", OptionType::Float),
        ("string", OptionType::String),
        ("", OptionType::String),
        ("Bool", OptionType::String),
    ];
    for (declared, expected) in cases {
        let option = TaskOption::from_config("o".to_string(), config_option(declared));
        assert_eq!(option.option_type, expected, "for {:?}", declared);
        assert!(option.dependencies().is_empty());
    }
}

#[test]
fn command_getters() {
    let simple = Command::Simple("ls".to_string());
    assert_eq!(simple.exec(), "ls");
    assert_eq!(simple.print(), "ls");
    assert!(!simple.is_quiet());
    assert_eq!(simple.dir(), None);

    let complex = Command::from_config(config::Command::Complex(config::CommandDetail {
        executable: "ls -l".to_string(),
        print: Some("listing".to_string()),
        quiet: false,
        dir: None,
    }));
    assert_eq!(complex.exec(), "ls -l");
    assert_eq!(complex.print(), "listing");
    assert!(!complex.is_quiet());
    assert_eq!(complex.dir(), None);
}

#[test]
fn when_takes_the_first_field_that_is_set() {
    assert!(matches!(When::from_config(config_when()).condition, WhenCondition::Always));

    let mut both = config_when();
    both.command = Some("true".to_string());
    both.exists = Some("file".to_string());
    both.option_not_set = Some("o".to_string());
    assert!(matches!(
        When::from_config(both).condition,
        WhenCondition::Command(cmd) if cmd == "true"
    ));

    let mut comparison = config_when();
    comparison.not_equal = Some(config::WhenComparison {
        left: "l".to_string(),
        right: "r".to_string(),
    });
    comparison.env_set = Some("HOME".to_string());
    assert!(matches!(
        When::from_config(comparison).condition,
        WhenCondition::NotEqual { left, right } if left == "l" && right == "r"
    ));

    let mut equal = config_when();
    equal.equal = Some(config::WhenComparison { left: "l".to_string(), right: "r".to_string() });
    assert!(matches!(When::from_config(equal).condition, WhenCondition::Equal { .. }));
    let mut exists = config_when();
    exists.exists = Some("p".to_string());
    assert!(matches!(When::from_config(exists).condition, WhenCondition::Exists(p) if p == "p"));
    let mut env_set = config_when();
    env_set.env_set = Some("E".to_string());
    assert!(matches!(When::from_config(env_set).condition, WhenCondition::EnvSet(e) if e == "E"));
    let mut env_not_set = config_when();
    env_not_set.env_not_set = Some("E".to_string());
    assert!(matches!(
        When::from_config(env_not_set).condition,
        WhenCondition::EnvNotSet(e) if e == "E"
    ));
    let mut option_set = config_when();
    option_set.option_set = Some("o".to_string());
    let built = When::from_config(option_set);
    assert_eq!(built.dependencies(), vec!["o"]);
    let mut option_not_set = config_when();
    option_not_set.option_not_set = Some("n".to_string());
    let built = When::from_config(option_not_set);
    assert!(matches!(&built.condition, WhenCondition::OptionNotSet(n) if n == "n"));
    assert_eq!(built.dependencies(), vec!["n"]);
    assert!(When { condition: WhenCondition::Always }.dependencies().is_empty());
}

#[test]
fn dependencies_follow_run_then_finally() {
    let option = |name: &str| When { condition: WhenCondition::OptionSet(name.to_string()) };
    let run_item = |conditions: Vec<When>| Run {
        when: conditions,
        commands: vec![],
        subtasks: vec![],
        set_environment: StringMap::new(),
    };
    let mut task = Task::from_config("t".to_string(), empty_config_task()).unwrap();
    task.run = vec![
        run_item(vec![option("a"), When { condition: WhenCondition::Always }, option("b")]),
        run_item(vec![]),
        run_item(vec![option("a")]),
    ];
    task.finally = vec![run_item(vec![When {
        condition: WhenCondition::OptionNotSet("z".to_string()),
    }])];
    assert_eq!(task.run[0].dependencies(), vec!["a", "b"]);
    assert_eq!(task.dependencies(), vec!["a", "b", "a", "z"]);
}

#[test]
fn subtask_from_config() {
    let simple = SubTask::from_config(config::SubTask::Simple("build".to_string()));
    assert_eq!(simple.name, "build");
    assert!(simple.options.is_empty());
}
