use ao::command::CommandOutcome;
use ao::command::judge_outcome;
use ao::command::plan_command;
use ao::errors::ErrorKind;

#[test]
fn run_tool_succeeds_with_valid_command() {
    let plan = plan_command("echo hello").unwrap();
    assert_eq!(plan.program, "echo");
    assert_eq!(plan.args, vec!["hello".to_string()]);
    let verdict = judge_outcome(
        "echo hello",
        &CommandOutcome::Exited { success: true, status: "exit status: 0".to_string() },
    );
    assert!(verdict.is_ok());
}

#[test]
fn run_tool_fails_with_invalid_command() {
    let err = judge_outcome(
        "this_command_should_not_exist_ever",
        &CommandOutcome::SpawnFailed { os_error: "No such file or directory".to_string() },
    )
    .unwrap_err();
    assert!(
        err.message.contains("Failed to execute command")
            || err.message.contains("No such file or directory")
    );
    assert_eq!(err.kind, ErrorKind::CommandSpawn);
}

#[test]
fn run_tool_fails_with_command_error_status() {
    let err = judge_outcome(
        "ls non_existent_file_for_run_tool",
        &CommandOutcome::Exited { success: false, status: "exit status: 2".to_string() },
    )
    .unwrap_err();
    assert!(err.message.contains("failed with status"));
    assert_eq!(err.kind, ErrorKind::CommandNonZeroExit);
}

#[test]
fn run_tool_fails_with_empty_command() {
    let err = plan_command("").unwrap_err();
    assert!(err.message.contains("resulted in no executable parts"));
    assert_eq!(err.kind, ErrorKind::CommandParse);
}

#[test]
fn run_tool_fails_with_bad_shlex() {
    let err = plan_command("echo \"hello").unwrap_err();
    assert!(err.message.contains("Failed to parse command string"));
    assert_eq!(err.kind, ErrorKind::CommandParse);
}

#[test]
fn run_tool_succeeds_with_echo() {
    let plan = plan_command("echo hello");
    assert!(plan.is_ok());
}

#[test]
fn tokenization_honors_quoting() {
    let plan = plan_command("echo \"hello world\"").unwrap();
    assert_eq!(plan.program, "echo");
    assert_eq!(plan.args, vec!["hello world".to_string()]);
}

#[test]
fn tokenization_splits_plain_words() {
    let plan = plan_command("docker build -t img:latest .").unwrap();
    assert_eq!(plan.program, "docker");
    assert_eq!(
        plan.args,
        vec!["build".to_string(), "-t".to_string(), "img:latest".to_string(), ".".to_string()]
    );
}

#[test]
fn whitespace_only_command_has_no_parts() {
    let err = plan_command("   ").unwrap_err();
    assert!(err.message.contains("resulted in no executable parts"));
}
