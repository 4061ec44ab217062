use rusk::collections::StringMap;
use rusk::config::{
    detect_circular_task_dependencies, validate_config, validate_option_type, validate_task, Arg,
    Config, Run, RunItem, SubTask, SubTaskDetail, Task, TaskOption,
};
use rusk::error::ConfigError;

fn empty_task() -> Task {
    Task {
        usage: None,
        description: None,
        private: false,
        quiet: false,
        args: StringMap::new(),
        options: StringMap::new(),
        run: vec![],
        finally: vec![],
        source: vec![],
        target: vec![],
        include_file: None,
    }
}

fn empty_config() -> Config {
    Config {
        name: None,
        usage: None,
        tasks: StringMap::new(),
        interpreter: None,
    }
}

fn calling(names: &[&str]) -> Run {
    Run::Complex(RunItem {
        when: vec![],
        command: vec![],
        task: names.iter().map(|n| SubTask::Simple(n.to_string())).collect(),
        set_environment: StringMap::new(),
    })
}

fn plain_arg() -> Arg {
    Arg {
        usage: None,
        default: None,
        required: false,
        private: false,
    }
}

fn option_of_type(option_type: &str) -> TaskOption {
    TaskOption {
        usage: None,
        short: None,
        option_type: option_type.to_string(),
        default: None,
        required: false,
        rewrite: None,
        environment: None,
        private: false,
    }
}

#[test]
fn test_validate_source_without_target() {
    let mut config = empty_config();

    let mut task = empty_task();
    task.source = vec!["src.txt".to_string()];

    config.tasks.insert("test".to_string(), task);

    let result = validate_config(&config);
    assert!(result.is_err());
    assert!(matches!(result, Err(ConfigError::SourceWithoutTarget)));
}

#[test]
fn test_validate_duplicate_names() {
    let mut config = empty_config();

    let mut args = StringMap::new();
    args.insert("name".to_string(), plain_arg());

    let mut options = StringMap::new();
    options.insert("name".to_string(), option_of_type("string"));

    let mut task = empty_task();
    task.args = args;
    task.options = options;

    config.tasks.insert("test".to_string(), task);

    let result = validate_config(&config);
    assert!(result.is_err());
    assert!(matches!(result, Err(ConfigError::DuplicateNames(_))));
}

#[test]
fn test_validate_invalid_option_type() {
    let option = option_of_type("invalid_type");

    let result = validate_option_type(&option.option_type);
    assert!(result.is_err());
}

#[test]
fn test_validate_valid_option_types() {
    for opt_type in &["string", "bool", "boolean", "int", "integer", "float"] {
        let result = validate_option_type(opt_type);
        assert!(result.is_ok(), "Failed for type: {}", opt_type);
    }
}

#[test]
fn test_detect_circular_dependency() {
    let mut config = empty_config();

    // Task A depends on task B
    let mut task_a = empty_task();
    task_a.run = vec![calling(&["b"])];

    // Task B depends on task A (circular!)
    let mut task_b = empty_task();
    task_b.run = vec![calling(&["a"])];

    config.tasks.insert("a".to_string(), task_a);
    config.tasks.insert("b".to_string(), task_b);

    let result = validate_config(&config);
    assert!(result.is_err());
    assert!(matches!(
        result,
        Err(ConfigError::CircularDependency(_))
    ));
}

#[test]
fn test_validate_valid_config() {
    let mut config = Config {
        name: Some("test-app".to_string()),
        usage: Some("Test application".to_string()),
        tasks: StringMap::new(),
        interpreter: None,
    };

    let mut task = empty_task();
    task.usage = Some("Test task".to_string());
    task.run = vec![Run::SimpleCommand("echo test".to_string())];

    config.tasks.insert("test".to_string(), task);

    let result = validate_config(&config);
    assert!(result.is_ok());
}

#[test]
fn cycle_path_lists_names_in_visiting_order() {
    let mut config = empty_config();
    let mut task_a = empty_task();
    task_a.run = vec![calling(&["b"])];
    let mut task_b = empty_task();
    task_b.run = vec![calling(&["a"])];
    config.tasks.insert("a".to_string(), task_a);
    config.tasks.insert("b".to_string(), task_b);
    assert!(matches!(
        validate_config(&config),
        Err(ConfigError::CircularDependency(path)) if path == "a -> b -> a"
    ));
    assert!(matches!(
        detect_circular_task_dependencies(&config),
        Err(ConfigError::CircularDependency(path)) if path == "a -> b -> a"
    ));
}

#[test]
fn cycle_path_begins_at_the_root_of_the_walk() {
    let mut config = empty_config();
    let mut root = empty_task();
    root.run = vec![Run::SimpleCommand("echo".to_string()), calling(&["leaf", "x"])];
    let mut x = empty_task();
    x.finally = vec![calling(&["y"])];
    let mut y = empty_task();
    y.run = vec![calling(&["x"])];
    config.tasks.insert("root".to_string(), root);
    config.tasks.insert("leaf".to_string(), empty_task());
    config.tasks.insert("x".to_string(), x);
    config.tasks.insert("y".to_string(), y);
    assert!(matches!(
        validate_config(&config),
        Err(ConfigError::CircularDependency(path)) if path == "root -> x -> y -> x"
    ));
}

#[test]
fn task_that_calls_itself_is_a_cycle() {
    let mut config = empty_config();
    let mut task = empty_task();
    task.finally = vec![calling(&["me"])];
    config.tasks.insert("me".to_string(), task);
    assert!(matches!(
        validate_config(&config),
        Err(ConfigError::CircularDependency(path)) if path == "me -> me"
    ));
}

#[test]
fn cycle_is_found_whatever_the_conditions_say() {
    let mut config = empty_config();
    let mut task = empty_task();
    task.run = vec![Run::Complex(RunItem {
        when: vec![rusk::config::When {
            equal: Some(rusk::config::WhenComparison {
                left: "a".to_string(),
                right: "b".to_string(),
            }),
            not_equal: None,
            command: None,
            exists: None,
            env_set: None,
            env_not_set: None,
            option_set: None,
            option_not_set: None,
        }],
        command: vec![],
        task: vec![SubTask::Complex(SubTaskDetail {
            name: "loop".to_string(),
            options: StringMap::new(),
        })],
        set_environment: StringMap::new(),
    })];
    config.tasks.insert("loop".to_string(), task);
    assert!(matches!(validate_config(&config), Err(ConfigError::CircularDependency(_))));
}

#[test]
fn shared_subtask_is_no_cycle() {
    let mut config = empty_config();
    let mut top = empty_task();
    top.run = vec![calling(&["left", "right"])];
    let mut left = empty_task();
    left.run = vec![calling(&["shared"])];
    let mut right = empty_task();
    right.run = vec![calling(&["shared"])];
    config.tasks.insert("top".to_string(), top);
    config.tasks.insert("left".to_string(), left);
    config.tasks.insert("right".to_string(), right);
    config.tasks.insert("shared".to_string(), empty_task());
    assert!(validate_config(&config).is_ok());
    assert!(detect_circular_task_dependencies(&config).is_ok());
}

#[test]
fn undefined_subtask_is_reported() {
    let mut config = empty_config();
    let mut task = empty_task();
    task.run = vec![calling(&["ghost"])];
    config.tasks.insert("real".to_string(), task);
    assert!(matches!(
        validate_config(&config),
        Err(ConfigError::TaskNotFound(name)) if name == "ghost"
    ));
}

#[test]
fn target_without_source_is_reported() {
    let mut task = empty_task();
    task.target = vec!["out.bin".to_string()];
    assert!(matches!(validate_task("t", &task), Err(ConfigError::TargetWithoutSource)));
    let mut both = empty_task();
    both.source = vec!["in.txt".to_string()];
    both.target = vec!["out.bin".to_string()];
    assert!(validate_task("t", &both).is_ok());
}

#[test]
fn duplicate_name_is_the_first_argument_that_is_also_an_option() {
    let mut task = empty_task();
    task.args.insert("one".to_string(), plain_arg());
    task.args.insert("two".to_string(), plain_arg());
    task.args.insert("three".to_string(), plain_arg());
    task.options.insert("three".to_string(), option_of_type("string"));
    task.options.insert("two".to_string(), option_of_type("string"));
    assert!(matches!(
        validate_task("t", &task),
        Err(ConfigError::DuplicateNames(name)) if name == "two"
    ));
}

#[test]
fn invalid_option_type_message() {
    assert!(matches!(
        validate_option_type("text"),
        Err(ConfigError::Invalid(message))
            if message == "Invalid option type: text. Must be one of: string, bool, int, float"
    ));
    let mut task = empty_task();
    task.options.insert("good".to_string(), option_of_type("int"));
    task.options.insert("bad".to_string(), option_of_type("number"));
    assert!(matches!(
        validate_task("t", &task),
        Err(ConfigError::Invalid(message))
            if message == "Invalid option type: number. Must be one of: string, bool, int, float"
    ));
}

#[test]
fn first_invalid_task_is_reported_before_cycles() {
    let mut config = empty_config();
    let mut looping = empty_task();
    looping.run = vec![calling(&["looping"])];
    let mut broken = empty_task();
    broken.source = vec!["src.txt".to_string()];
    config.tasks.insert("looping".to_string(), looping);
    config.tasks.insert("broken".to_string(), broken);
    assert!(matches!(validate_config(&config), Err(ConfigError::SourceWithoutTarget)));
}

#[test]
fn default_option_type_is_string() {
    assert_eq!(rusk::config::default_option_type(), "string");
}
