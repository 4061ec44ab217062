use rusk::collections::StringMap;
use rusk::error::ExecutionError;
use rusk::runner::{
    check_command, check_result, command_result, execute_command, Command, Context, Outcome,
    Verbosity,
};

fn succeeded() -> Outcome {
    Outcome::Exited { success: true, code: Some(0) }
}

fn failed() -> Outcome {
    Outcome::Exited { success: false, code: Some(1) }
}

#[test]
fn test_execute_simple_command() {
    let ctx = Context::new();
    let cmd = Command::Simple("echo test".to_string());

    let invocation = execute_command(&cmd, &ctx).unwrap();
    assert_eq!(invocation.argv, vec!["sh", "-c", "echo test"]);
    let result = command_result(succeeded());
    assert!(result.is_ok());
}

#[test]
fn test_execute_command_with_variables() {
    let mut vars = StringMap::new();
    vars.insert("name".to_string(), "world".to_string());

    let ctx = Context::new().with_vars(vars);
    let cmd = Command::Simple("echo ${name}".to_string());

    let invocation = execute_command(&cmd, &ctx).unwrap();
    assert_eq!(invocation.argv, vec!["sh", "-c", "echo world"]);
    assert_eq!(invocation.env.get("name"), Some(&"world".to_string()));
    let result = command_result(succeeded());
    assert!(result.is_ok());
}

#[test]
fn test_execute_failing_command() {
    let ctx = Context::new();
    let cmd = Command::Simple("false".to_string());

    let invocation = execute_command(&cmd, &ctx).unwrap();
    assert_eq!(invocation.argv, vec!["sh", "-c", "false"]);
    let result = command_result(failed());
    assert!(result.is_err());
    assert!(matches!(result, Err(ExecutionError::CommandFailed(_))));
}

#[test]
fn test_check_command_success() {
    let ctx = Context::new();
    let invocation = check_command("true", &ctx).unwrap();
    assert_eq!(invocation.argv, vec!["sh", "-c", "true"]);
    let result = check_result(succeeded());

    assert!(result.is_ok());
    assert_eq!(result.unwrap(), true);
}

#[test]
fn test_check_command_failure() {
    let ctx = Context::new();
    let invocation = check_command("false", &ctx).unwrap();
    assert_eq!(invocation.argv, vec!["sh", "-c", "false"]);
    let result = check_result(failed());

    assert!(result.is_ok());
    assert_eq!(result.unwrap(), false);
}

#[test]
fn test_check_command_with_variable() {
    let mut vars = StringMap::new();
    vars.insert("cmd".to_string(), "true".to_string());

    let ctx = Context::new().with_vars(vars);
    let invocation = check_command("${cmd}", &ctx).unwrap();
    assert_eq!(invocation.argv, vec!["sh", "-c", "true"]);
    let result = check_result(succeeded());

    assert!(result.is_ok());
    assert_eq!(result.unwrap(), true);
}

#[test]
fn exit_codes_are_reported() {
    assert!(matches!(
        command_result(Outcome::Exited { success: false, code: Some(42) }),
        Err(ExecutionError::CommandFailed(Some(42)))
    ));
    assert!(matches!(
        command_result(Outcome::Exited { success: false, code: None }),
        Err(ExecutionError::CommandFailed(None))
    ));
    assert!(matches!(
        command_result(Outcome::NotStarted),
        Err(ExecutionError::CommandFailed(None))
    ));
    assert!(matches!(check_result(Outcome::NotStarted), Err(ExecutionError::CommandFailed(None))));
    assert!(matches!(
        check_result(Outcome::Exited { success: false, code: None }),
        Ok(false)
    ));
}

#[test]
fn invocation_of_a_detailed_command() {
    let mut vars = StringMap::new();
    vars.insert("target".to_string(), "release".to_string());
    vars.insert("where".to_string(), "build".to_string());
    let ctx = Context::new()
        .with_working_dir("/project".to_string())
        .with_interpreter(vec!["bash".to_string(), "-e".to_string(), "-c".to_string()])
        .with_vars(vars);
    let cmd = Command::Complex {
        executable: "make ${target}".to_string(),
        print: "Making ${target}".to_string(),
        quiet: false,
        dir: Some("${where}/out".to_string()),
    };
    let invocation = execute_command(&cmd, &ctx).unwrap();
    assert_eq!(invocation.argv, vec!["bash", "-e", "-c", "make release"]);
    assert_eq!(invocation.dir, "/project/build/out");
    assert_eq!(invocation.display, Some("[RUN] Making release".to_string()));
    assert!(invocation.inherit_io);
    assert_eq!(invocation.env.len(), 2);
    assert_eq!(invocation.env.get("target"), Some(&"release".to_string()));
    assert_eq!(invocation.env.get("where"), Some(&"build".to_string()));
}

#[test]
fn display_follows_quiet_and_verbosity() {
    let loud = Command::Simple("ls".to_string());
    let quiet = Command::Complex {
        executable: "ls".to_string(),
        print: "ls".to_string(),
        quiet: true,
        dir: None,
    };
    let normal = Context::new();
    assert_eq!(
        execute_command(&loud, &normal).unwrap().display,
        Some("[RUN] ls".to_string())
    );
    assert_eq!(execute_command(&quiet, &normal).unwrap().display, None);
    let hushed = Context::new().with_verbosity(Verbosity::Quiet);
    assert_eq!(execute_command(&loud, &hushed).unwrap().display, None);
    assert_eq!(execute_command(&loud, &hushed).unwrap().dir, ".");
}

#[test]
fn empty_interpreter_cannot_be_started() {
    let ctx = Context::new().with_interpreter(vec![]);
    assert!(matches!(
        execute_command(&Command::Simple("ls".to_string()), &ctx),
        Err(ExecutionError::CommandFailed(None))
    ));
    assert!(matches!(check_command("ls", &ctx), Err(ExecutionError::CommandFailed(None))));
}

fn overfull() -> (String, StringMap<String>) {
    let mut vars = StringMap::new();
    let mut text = String::new();
    for i in 0..101u32 {
        vars.insert(format!("v{}", i), "x".to_string());
        text.push_str(&format!("${{v{}}}", i));
    }
    (text, vars)
}

#[test]
fn failed_interpolation_is_an_invalid_option() {
    let (text, vars) = overfull();
    let ctx = Context::new().with_vars(vars);
    assert!(matches!(
        execute_command(&Command::Simple(text.clone()), &ctx),
        Err(ExecutionError::InvalidOption { name, error })
            if name == "command" && error == "Recursive interpolation detected"
    ));
    let in_dir = Command::Complex {
        executable: "ls".to_string(),
        print: text.clone(),
        quiet: false,
        dir: Some(text.clone()),
    };
    assert!(matches!(
        execute_command(&in_dir, &ctx),
        Err(ExecutionError::InvalidOption { name, error })
            if name == "dir" && error == "Recursive interpolation detected"
    ));
    assert!(matches!(
        check_command(&text, &ctx),
        Err(ExecutionError::InvalidOption { name, .. }) if name == "command"
    ));
    let in_print = Command::Complex {
        executable: "ls".to_string(),
        print: text.clone(),
        quiet: false,
        dir: None,
    };
    assert_eq!(
        execute_command(&in_print, &ctx).unwrap().display,
        Some(format!("[RUN] {}", text))
    );
}
