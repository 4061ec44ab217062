use rusk::collections::StringMap;
use rusk::config::{
    validate_config, Arg, Command, Config, Run, RunItem, SubTask, SubTaskDetail, Task, TaskOption,
    When, WhenComparison,
};

// Each configuration below is what reading the YAML text in the comment
// above it gives.

fn task(usage: Option<&str>, run: Vec<Run>) -> Task {
    Task {
        usage: usage.map(|u| u.to_string()),
        description: None,
        private: false,
        quiet: false,
        args: StringMap::new(),
        options: StringMap::new(),
        run,
        finally: vec![],
        source: vec![],
        target: vec![],
        include_file: None,
    }
}

fn config(tasks: Vec<(&str, Task)>) -> Config {
    let mut map = StringMap::new();
    for (name, task) in tasks {
        map.insert(name.to_string(), task);
    }
    Config { name: None, usage: None, tasks: map, interpreter: None }
}

fn option(usage: Option<&str>, option_type: &str, default: Option<&str>) -> TaskOption {
    TaskOption {
        usage: usage.map(|u| u.to_string()),
        short: None,
        option_type: option_type.to_string(),
        default: default.map(|d| d.to_string()),
        required: false,
        rewrite: None,
        environment: None,
        private: false,
    }
}

fn no_condition() -> When {
    When {
        equal: None,
        not_equal: None,
        command: None,
        exists: None,
        env_set: None,
        env_not_set: None,
        option_set: None,
        option_not_set: None,
    }
}

fn equal(left: &str, right: &str) -> When {
    let mut when = no_condition();
    when.equal = Some(WhenComparison { left: left.to_string(), right: right.to_string() });
    when
}

fn item(when: Vec<When>, command: &str) -> Run {
    Run::Complex(RunItem {
        when,
        command: vec![Command::Simple(command.to_string())],
        task: vec![],
        set_environment: StringMap::new(),
    })
}

fn subtask(reference: SubTask) -> Run {
    Run::Complex(RunItem {
        when: vec![],
        command: vec![],
        task: vec![reference],
        set_environment: StringMap::new(),
    })
}

fn simple(command: &str) -> Run {
    Run::SimpleCommand(command.to_string())
}

// name: my-app
// usage: My test application
// tasks:
//   build:
//     usage: Build the project
//     options:
//       release: { usage: Build in release mode, type: bool, short: r }
//     run:
//       - command: cargo build ${release}
//   test:
//     usage: Run tests
//     run: cargo test
//   deploy:
//     usage: Deploy the application
//     options:
//       env: { usage: Environment to deploy to, default: staging }
//     run:
//       - when:
//           - equal: { left: "${env}", right: "production" }
//         command: echo "Deploying to production"
//       - command: echo "Deployment complete"
#[test]
fn test_parse_complete_config() {
    let mut build = task(Some("Build the project"), vec![item(vec![], "cargo build ${release}")]);
    let mut release = option(Some("Build in release mode"), "bool", None);
    release.short = Some("r".to_string());
    build.options.insert("release".to_string(), release);
    let mut deploy = task(
        Some("Deploy the application"),
        vec![
            item(vec![equal("${env}", "production")], "echo \"Deploying to production\""),
            item(vec![], "echo \"Deployment complete\""),
        ],
    );
    deploy.options.insert(
        "env".to_string(),
        option(Some("Environment to deploy to"), "string", Some("staging")),
    );
    let mut config = config(vec![
        ("build", build),
        ("test", task(Some("Run tests"), vec![simple("cargo test")])),
        ("deploy", deploy),
    ]);
    config.name = Some("my-app".to_string());
    config.usage = Some("My test application".to_string());

    // Validate config structure
    validate_config(&config).unwrap();

    // Check basic properties
    assert_eq!(config.name, Some("my-app".to_string()));
    assert_eq!(config.usage, Some("My test application".to_string()));
    assert_eq!(config.tasks.len(), 3);

    // Check build task
    let build = config.tasks.get("build").unwrap();
    assert_eq!(build.usage, Some("Build the project".to_string()));
    assert!(build.options.contains_key("release"));

    // Check test task
    let test = config.tasks.get("test").unwrap();
    assert_eq!(test.usage, Some("Run tests".to_string()));

    // Check deploy task
    let deploy = config.tasks.get("deploy").unwrap();
    assert_eq!(deploy.usage, Some("Deploy the application".to_string()));
    assert!(deploy.options.contains_key("env"));
}

// tasks:
//   greet:
//     usage: Greet someone
//     args:
//       person: { usage: Person to greet, required: true }
//     options:
//       greeting: { usage: Greeting to use, default: Hello }
//     run: echo "${greeting}, ${person}!"
#[test]
fn test_parse_with_args_and_options() {
    let mut greet = task(Some("Greet someone"), vec![simple("echo \"${greeting}, ${person}!\"")]);
    greet.args.insert(
        "person".to_string(),
        Arg {
            usage: Some("Person to greet".to_string()),
            default: None,
            required: true,
            private: false,
        },
    );
    greet.options.insert(
        "greeting".to_string(),
        option(Some("Greeting to use"), "string", Some("Hello")),
    );
    let config = config(vec![("greet", greet)]);
    validate_config(&config).unwrap();

    let task = config.tasks.get("greet").unwrap();
    assert!(task.args.contains_key("person"));
    assert!(task.options.contains_key("greeting"));
}

// tasks:
//   cleanup:
//     usage: Task with cleanup
//     run: echo "Running main task"
//     finally:
//       - echo "Cleaning up"
//       - echo "Done"
#[test]
fn test_parse_with_finally_block() {
    let mut cleanup = task(Some("Task with cleanup"), vec![simple("echo \"Running main task\"")]);
    cleanup.finally = vec![simple("echo \"Cleaning up\""), simple("echo \"Done\"")];
    let config = config(vec![("cleanup", cleanup)]);
    validate_config(&config).unwrap();

    let task = config.tasks.get("cleanup").unwrap();
    assert_eq!(task.run.len(), 1);
    assert_eq!(task.finally.len(), 2);
}

// tasks:
//   compile:
//     usage: Compile source files
//     source: ["src/**/*.rs", "Cargo.toml"]
//     target: ["target/debug/rusk"]
//     run: cargo build
#[test]
fn test_parse_with_source_target() {
    let mut compile = task(Some("Compile source files"), vec![simple("cargo build")]);
    compile.source = vec!["src/**/*.rs".to_string(), "Cargo.toml".to_string()];
    compile.target = vec!["target/debug/rusk".to_string()];
    let config = config(vec![("compile", compile)]);
    validate_config(&config).unwrap();

    let task = config.tasks.get("compile").unwrap();
    assert_eq!(task.source.len(), 2);
    assert_eq!(task.target.len(), 1);
}

// tasks:
//   conditional:
//     usage: Task with multiple conditions
//     run:
//       - when:
//           - equal: { left: "${env}", right: "prod" }
//           - command: which docker
//         command: echo "Running in production with Docker"
//       - when:
//           - exists: "/tmp/skip"
//         command: echo "Skip file exists"
//       - command: echo "Always runs"
#[test]
fn test_parse_complex_when_conditions() {
    let mut docker = no_condition();
    docker.command = Some("which docker".to_string());
    let mut skip = no_condition();
    skip.exists = Some("/tmp/skip".to_string());
    let conditional = task(
        Some("Task with multiple conditions"),
        vec![
            item(
                vec![equal("${env}", "prod"), docker],
                "echo \"Running in production with Docker\"",
            ),
            item(vec![skip], "echo \"Skip file exists\""),
            item(vec![], "echo \"Always runs\""),
        ],
    );
    let config = config(vec![("conditional", conditional)]);
    validate_config(&config).unwrap();

    let task = config.tasks.get("conditional").unwrap();
    assert_eq!(task.run.len(), 3);
}

// tasks:
//   all:
//     usage: Run all tasks
//     run:
//       - task: build
//       - task: test
//       - task:
//           name: deploy
//           options: { env: production }
//   build: { run: echo "Building" }
//   test: { run: echo "Testing" }
//   deploy:
//     options:
//       env: { default: staging }
//     run: echo "Deploying to ${env}"
#[test]
fn test_parse_subtasks() {
    let mut overrides = StringMap::new();
    overrides.insert("env".to_string(), "production".to_string());
    let all = task(
        Some("Run all tasks"),
        vec![
            subtask(SubTask::Simple("build".to_string())),
            subtask(SubTask::Simple("test".to_string())),
            subtask(SubTask::Complex(SubTaskDetail {
                name: "deploy".to_string(),
                options: overrides,
            })),
        ],
    );
    let mut deploy = task(None, vec![simple("echo \"Deploying to ${env}\"")]);
    deploy.options.insert("env".to_string(), option(None, "string", Some("staging")));
    let config = config(vec![
        ("all", all),
        ("build", task(None, vec![simple("echo \"Building\"")])),
        ("test", task(None, vec![simple("echo \"Testing\"")])),
        ("deploy", deploy),
    ]);
    validate_config(&config).unwrap();

    let task = config.tasks.get("all").unwrap();
    assert_eq!(task.run.len(), 3);
}

// tasks:
//   public: { usage: Public task, run: echo "public" }
//   private: { usage: Private task, private: true, run: echo "private" }
//   quiet: { usage: Quiet task, quiet: true, run: echo "quiet" }
#[test]
fn test_parse_quiet_and_private() {
    let mut private = task(Some("Private task"), vec![simple("echo \"private\"")]);
    private.private = true;
    let mut quiet = task(Some("Quiet task"), vec![simple("echo \"quiet\"")]);
    quiet.quiet = true;
    let config = config(vec![
        ("public", task(Some("Public task"), vec![simple("echo \"public\"")])),
        ("private", private),
        ("quiet", quiet),
    ]);
    validate_config(&config).unwrap();

    assert!(!config.tasks.get("public").unwrap().private);
    assert!(config.tasks.get("private").unwrap().private);
    assert!(config.tasks.get("quiet").unwrap().quiet);
}

// tasks:
//   bad:
//     source: ["file.txt"]
//     run: echo "bad"
#[test]
fn test_invalid_config_missing_target() {
    let mut bad = task(None, vec![simple("echo \"bad\"")]);
    bad.source = vec!["file.txt".to_string()];
    let config = config(vec![("bad", bad)]);
    let result = validate_config(&config);

    assert!(result.is_err());
}

// tasks:
//   bad:
//     args:
//       name: { required: true }
//     options:
//       name: { type: string }
//     run: echo "bad"
#[test]
fn test_invalid_config_duplicate_names() {
    let mut bad = task(None, vec![simple("echo \"bad\"")]);
    bad.args.insert(
        "name".to_string(),
        Arg { usage: None, default: None, required: true, private: false },
    );
    bad.options.insert("name".to_string(), option(None, "string", None));
    let config = config(vec![("bad", bad)]);
    let result = validate_config(&config);

    assert!(result.is_err());
}
