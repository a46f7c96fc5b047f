use ao::command::CommandOutcome;
use ao::command::judge_outcome;
use ao::config::parse_config;
use ao::locate::find_project_root;

#[test]
fn run_run_succeeds_with_valid_task() {
    let text = "\n[project]\nname = \"run-test\"\n\n[tasks]\nbuild = [\"echo building...\", \"mkdir build_output\"]\n";
    let config = parse_config(text).unwrap();
    let mut p = ao::run::run(&config, "build").unwrap();
    assert_eq!(p.current().unwrap(), "echo building...");
    p.command_succeeded();
    assert_eq!(p.current().unwrap(), "mkdir build_output");
    p.command_succeeded();
    assert!(p.is_complete());
}

#[test]
fn run_run_succeeds_with_empty_task() {
    let text = "\n[project]\nname = \"empty-task-test\"\n\n[tasks]\nempty = []\n";
    let config = parse_config(text).unwrap();
    let p = ao::run::run(&config, "empty").unwrap();
    assert!(p.is_complete());
}

#[test]
fn run_run_fails_if_task_not_found() {
    let text = "\n[project]\nname = \"no-such-task-test\"\n\n[tasks]\nbuild = [\"echo build\"]\n";
    let config = parse_config(text).unwrap();
    let err = ao::run::run(&config, "deploy").unwrap_err();
    assert!(err.message.contains("Task 'deploy' not found in ao.toml"));
}

#[test]
fn run_run_fails_if_command_in_task_fails() {
    let text = "\n[project]\nname = \"failing-task-test\"\n\n[tasks]\nbuild = [\"echo starting...\", \"ls non_existent_file_in_task\", \"echo finished?\"]\n";
    let config = parse_config(text).unwrap();
    let mut p = ao::run::run(&config, "build").unwrap();
    p.command_succeeded();
    let cmd = p.current().unwrap().clone();
    let cause = judge_outcome(
        &cmd,
        &CommandOutcome::Exited { success: false, status: "exit status: 2".to_string() },
    )
    .unwrap_err();
    let err = p.command_failed(cause);
    assert!(err.message.contains("Command 'ls non_existent_file_in_task' in task 'build' failed"));
    assert!(err.message.contains("Tool 'ls non_existent_file_in_task' failed with status"));
}

#[test]
fn run_run_fails_if_project_root_not_found() {
    let markers = vec![false, false];
    let err = find_project_root("/tmp/not_a_project", &markers).unwrap_err();
    assert!(err.message.contains("Could not find project root"));
}

#[test]
fn run_run_fails_if_config_is_malformed() {
    let err = parse_config("[project]name=").unwrap_err();
    assert!(err.message.contains("Failed to parse TOML config file"));
}

#[test]
fn run_run_works_when_called_from_subdir() {
    let markers = vec![false, true, false];
    assert_eq!(find_project_root("/tmp/p/models", &markers).unwrap(), 1);
    let text = "\n[project]\nname = \"run-from-subdir-test\"\n\n[tasks]\nbuild = [\"echo building...\", \"mkdir ../build_output_subdir\"]\n";
    let config = parse_config(text).unwrap();
    let mut p = ao::run::run(&config, "build").unwrap();
    p.command_succeeded();
    assert_eq!(p.current().unwrap(), "mkdir ../build_output_subdir");
    p.command_succeeded();
    assert!(p.is_complete());
}
