use ao::build_flow::BuildFlow;
use ao::check::PathKind;
use ao::command::CommandOutcome;
use ao::command::judge_outcome;
use ao::config::parse_config;
use ao::errors::AoError;
use ao::errors::ErrorKind;
use ao::init::ScaffoldStep;
use ao::locate::find_project_root;
use ao::pipeline::CommandPipeline;

/// Runs a pipeline to completion as if every command succeeded; returns the
/// commands that were offered, in order.
fn drain_ok(p: &mut CommandPipeline) -> Vec<String> {
    let mut seen: Vec<String> = Vec::new();
    while let Some(cmd) = p.current() {
        seen.push(cmd.clone());
        p.command_succeeded();
    }
    seen
}

fn all_good_dirs() -> Vec<PathKind> {
    vec![PathKind::Dir, PathKind::Dir, PathKind::Dir]
}

fn all_good_files() -> Vec<PathKind> {
    vec![PathKind::File; 9]
}

// ===== the project locator =====

#[test]
fn find_project_root_succeeds_from_root() {
    // fs root, tmp dir, the project itself (start): marker only at the top.
    let markers = vec![false, false, true];
    let found = find_project_root("/tmp/utils_test_project", &markers).unwrap();
    assert_eq!(found, 2);
}

#[test]
fn find_project_root_succeeds_from_subdir() {
    // One level deeper: the api-service subdirectory.
    let markers = vec![false, false, true, false];
    let found = find_project_root("/tmp/utils_test_project/api-service", &markers).unwrap();
    assert_eq!(found, 2);
}

#[test]
fn find_project_root_fails_outside_project() {
    let markers = vec![false, false, false];
    let err = find_project_root("/tmp/not_a_project", &markers).unwrap_err();
    assert_eq!(err.kind, ErrorKind::RootNotFound);
    assert!(err.message.contains("Could not find project root (ao.toml)"));
}

#[test]
fn find_project_root_finds_root() {
    // From the root and from a nested subdirectory of the same project:
    // the same root comes back (the deepest marker on the chain).
    let from_root = vec![false, true];
    let from_subdir = vec![false, true, false];
    let a = find_project_root("/tmp/p", &from_root).unwrap();
    let b = find_project_root("/tmp/p/models", &from_subdir).unwrap();
    assert_eq!(a, b);
    assert_eq!(a, 1);
}

#[test]
fn find_project_root_fails_if_no_root() {
    let markers = vec![false, false];
    let err = find_project_root("/tmp/no_config_project", &markers).unwrap_err();
    assert!(err.message.contains("Could not find project root"));
}

#[test]
fn find_project_root_from_deeply_nested_subdir() {
    // However deep the start, the marker-bearing ancestor wins.
    let mut markers = vec![false, false, true];
    for _ in 0..20 {
        markers.push(false);
    }
    assert_eq!(find_project_root("/tmp/p/a/b", &markers).unwrap(), 2);
}

// ===== the check flow =====

fn scaffolded_config_text(name: &str) -> String {
    format!("[project]\nname = \"{}\"\n\n[check]\nlinters = []\ntesters = []\n", name)
}

#[test]
fn run_succeeds_when_called_from_root() {
    let markers = vec![false, true];
    let root_depth = find_project_root("/tmp/check_test_project", &markers).unwrap();
    assert_eq!(root_depth, 1);
    let config = parse_config(&scaffolded_config_text("check_test_project")).unwrap();
    let result = ao::check::run(
        "/tmp/check_test_project",
        &config,
        &all_good_dirs(),
        &all_good_files(),
    );
    assert!(result.is_ok());
    let (mut linters, mut testers) = result.unwrap();
    assert!(drain_ok(&mut linters).is_empty());
    assert!(drain_ok(&mut testers).is_empty());
}

#[test]
fn run_succeeds_when_called_from_subdir() {
    let markers = vec![false, true, false];
    let root_depth = find_project_root("/tmp/check_test_project/models", &markers).unwrap();
    assert_eq!(root_depth, 1);
    let config = parse_config(&scaffolded_config_text("check_test_project")).unwrap();
    let result = ao::check::run(
        "/tmp/check_test_project",
        &config,
        &all_good_dirs(),
        &all_good_files(),
    );
    assert!(result.is_ok());
}

#[test]
fn run_succeeds_with_check_config_present() {
    let text = "[project]\nname = \"check_test_project\"\n\n[check]\nlinters = [\"echo Linter OK\"]\ntesters = [\"echo Tester OK\"]\n";
    let config = parse_config(text).unwrap();
    let (mut linters, mut testers) =
        ao::check::run("/tmp/p", &config, &all_good_dirs(), &all_good_files()).unwrap();
    assert_eq!(drain_ok(&mut linters), vec!["echo Linter OK".to_string()]);
    assert_eq!(drain_ok(&mut testers), vec!["echo Tester OK".to_string()]);
    assert!(linters.is_complete() && testers.is_complete());
}

#[test]
fn run_fails_if_path_does_not_exist() {
    // The caller cannot canonicalize a path that does not exist; the flow
    // wraps that in its own context.
    let start = "/tmp/non_existent_project";
    let err = AoError::path_resolution(start)
        .with_context(&format!("Failed to find project root starting from '{}'", start));
    assert!(
        err.message.contains("Failed to find project root")
            || err.message.contains("Failed to canonicalize")
    );
}

#[test]
fn run_fails_if_no_project_found() {
    let markers = vec![false, false];
    let err = find_project_root("/tmp/empty_dir", &markers).unwrap_err();
    assert!(err.message.contains("project root"));
}

#[test]
fn check_run_fails_if_config_is_malformed() {
    let err = parse_config("[project]name=").unwrap_err();
    assert!(err.message.contains("parse") && err.message.contains("config"));
}

#[test]
fn run_fails_if_structure_invalid_even_if_found() {
    let config = parse_config(&scaffolded_config_text("check_test_project")).unwrap();

    // A removed required service directory.
    let dir_kinds = vec![PathKind::Missing, PathKind::Dir, PathKind::Dir];
    let err = ao::check::run("/tmp/p", &config, &dir_kinds, &all_good_files()).unwrap_err();
    assert!(err.message.contains("Required directory") && err.message.contains("api-service"));

    // A removed schema file in the interface directory.
    let mut file_kinds = all_good_files();
    file_kinds[8] = PathKind::Missing;
    let err = ao::check::run("/tmp/p", &config, &all_good_dirs(), &file_kinds).unwrap_err();
    assert!(
        err.message.contains("Required file")
            && err.message.contains("anops.proto")
            && err.message.contains("model-interface")
    );

    // A removed generated stub in the api service.
    let mut file_kinds = all_good_files();
    file_kinds[2] = PathKind::Missing;
    let err = ao::check::run("/tmp/p", &config, &all_good_dirs(), &file_kinds).unwrap_err();
    assert!(
        err.message.contains("Required file")
            && err.message.contains("anops_pb2.py")
            && err.message.contains("api-service")
    );
}

#[test]
fn validator_fails_fast_on_first_violation() {
    // With the first directory missing, the error names it alone — the
    // later entries (also bad here) are never reported.
    let config = parse_config(&scaffolded_config_text("p")).unwrap();
    let dir_kinds = vec![PathKind::Missing, PathKind::Missing, PathKind::File];
    let err = ao::check::run("/tmp/p", &config, &dir_kinds, &all_good_files()).unwrap_err();
    assert_eq!(err.kind, ErrorKind::MissingDirectory);
    assert!(err.message.contains("api-service"));
    assert!(!err.message.contains("model-service"));
}

#[test]
fn validator_distinguishes_wrong_kinds() {
    let config = parse_config(&scaffolded_config_text("p")).unwrap();
    let dir_kinds = vec![PathKind::File, PathKind::Dir, PathKind::Dir];
    let err = ao::check::run("/tmp/p", &config, &dir_kinds, &all_good_files()).unwrap_err();
    assert_eq!(err.kind, ErrorKind::NotADirectory);
    assert!(err.message.contains("is not a directory"));

    let mut file_kinds = all_good_files();
    file_kinds[0] = PathKind::Dir;
    let err = ao::check::run("/tmp/p", &config, &all_good_dirs(), &file_kinds).unwrap_err();
    assert_eq!(err.kind, ErrorKind::NotAFile);
    assert!(err.message.contains("is not a file"));
}

// ===== the task runner =====

#[test]
fn run_succeeds_with_valid_task() {
    let text = "[project]\nname = \"test_run_project\"\n\n[tasks]\nbuild = [\"mkdir build_output\"] # Simple command\n";
    let config = parse_config(text).unwrap();
    let mut p = ao::run::run(&config, "build").unwrap();
    assert_eq!(drain_ok(&mut p), vec!["mkdir build_output".to_string()]);
    assert!(p.is_complete());
}

#[test]
fn run_succeeds_with_empty_task() {
    let text = "[project]\nname = \"test_run_project\"\n\n[tasks]\nempty = [] # Empty command list\n";
    let config = parse_config(text).unwrap();
    let p = ao::run::run(&config, "empty").unwrap();
    // A found-but-empty task is complete at once: no command is ever
    // offered, so nothing is spawned.
    assert!(p.is_complete());
    assert!(p.current().is_none());
}

#[test]
fn run_fails_if_task_not_found() {
    let text = "[project]\nname = \"test_run_project\"\n\n[tasks]\nbuild = [\"echo hello\"]\n";
    let config = parse_config(text).unwrap();
    let err = ao::run::run(&config, "deploy").unwrap_err();
    assert!(err.message.contains("not found") && err.message.contains("deploy"));
    assert_eq!(err.kind, ErrorKind::TaskNotFound);
}

#[test]
fn run_fails_if_command_in_task_fails() {
    let text = "[project]\nname = \"test_run_project\"\n\n[tasks]\nbuild = [\"ls non_existent_file_in_task\"]\n";
    let config = parse_config(text).unwrap();
    let mut p = ao::run::run(&config, "build").unwrap();
    let cmd = p.current().unwrap().clone();
    assert_eq!(cmd, "ls non_existent_file_in_task");
    let cause = judge_outcome(
        &cmd,
        &CommandOutcome::Exited { success: false, status: "exit status: 2".to_string() },
    )
    .unwrap_err();
    let err = p.command_failed(cause);
    assert!(
        err.message.contains("failed") && err.message.contains("ls") && err.message.contains("build")
    );
    assert!(err.message.contains("Command 'ls non_existent_file_in_task' in task 'build' failed"));
    assert!(err.message.contains("Tool 'ls non_existent_file_in_task' failed with status"));
}

#[test]
fn run_stops_at_first_failing_command() {
    // Three commands; the second fails. The first ran, the third is never
    // offered, and the error names the failing command and the task.
    let text = "[project]\nname = \"failing-task-test\"\n\n[tasks]\nbuild = [\"mkdir outdir\", \"ls missing_file\", \"mkdir unreachable\"]\n";
    let config = parse_config(text).unwrap();
    let mut p = ao::run::run(&config, "build").unwrap();
    assert_eq!(p.current().unwrap(), "mkdir outdir");
    p.command_succeeded();
    assert_eq!(p.current().unwrap(), "ls missing_file");
    let cause = judge_outcome(
        "ls missing_file",
        &CommandOutcome::Exited { success: false, status: "exit status: 2".to_string() },
    )
    .unwrap_err();
    let err = p.command_failed(cause);
    assert!(err.message.contains("Command 'ls missing_file' in task 'build' failed"));
    assert!(p.current().is_none());
    assert!(p.has_failed());
    assert!(!p.is_complete());
}

#[test]
fn run_fails_if_project_root_not_found() {
    let markers = vec![false, false];
    let err = find_project_root("/tmp/not_a_project", &markers).unwrap_err();
    assert!(err.message.contains("project root"));
}

#[test]
fn run_fails_if_config_is_malformed() {
    let err = parse_config("[project]name=").unwrap_err();
    assert!(err.message.contains("Failed to parse TOML config file"));
}

#[test]
fn run_works_when_called_from_subdir() {
    let markers = vec![false, true, false];
    let root = find_project_root("/tmp/test_run_project/api-service", &markers).unwrap();
    assert_eq!(root, 1);
    let text = "[project]\nname = \"test_run_project\"\n\n[tasks]\nbuild = [\"mkdir build_output_subdir\"]\n";
    let config = parse_config(text).unwrap();
    let mut p = ao::run::run(&config, "build").unwrap();
    assert_eq!(drain_ok(&mut p), vec!["mkdir build_output_subdir".to_string()]);
    assert!(p.is_complete());
}

// ===== the build flow =====

#[test]
fn build_run_succeeds_with_valid_project() {
    // The happy path of the flow: generation and checks pass, and both
    // services are present, so both images are planned.
    let mut flow = BuildFlow::new();
    flow.generation_done(Ok(())).unwrap();
    flow.checks_done(Ok(())).unwrap();
    let plans = flow.plan_images("test_build_project", PathKind::Dir, PathKind::Dir);
    assert_eq!(plans.len(), 2);
    match &plans[0] {
        ao::build_flow::ServicePlan::Build { tag, .. } => {
            assert_eq!(tag, "test_build_project-api-service:latest");
        }
        _ => panic!("api-service should be built"),
    }
    match &plans[1] {
        ao::build_flow::ServicePlan::Build { tag, .. } => {
            assert_eq!(tag, "test_build_project-model-service:latest");
        }
        _ => panic!("model-service should be built"),
    }
}

#[test]
fn build_fails_when_generation_fails_first() {
    let mut flow = BuildFlow::new();
    let cause = judge_outcome(
        "python -m grpc_tools.protoc",
        &CommandOutcome::SpawnFailed { os_error: "No such file or directory".to_string() },
    )
    .unwrap_err();
    let err = flow.generation_done(Err(cause)).unwrap_err();
    assert_eq!(err.kind, ErrorKind::GeneratorFailed);
    assert!(err.message.contains("Failed to generate gRPC code"));
}

#[test]
fn build_skips_absent_service_directory() {
    let mut flow = BuildFlow::new();
    flow.generation_done(Ok(())).unwrap();
    flow.checks_done(Ok(())).unwrap();
    let plans = flow.plan_images("proj", PathKind::Dir, PathKind::Missing);
    match &plans[0] {
        ao::build_flow::ServicePlan::Build { service, tag, command } => {
            assert_eq!(service, "api-service");
            assert_eq!(tag, "proj-api-service:latest");
            assert_eq!(command, "docker build -t proj-api-service:latest .");
        }
        _ => panic!("api-service should be built"),
    }
    match &plans[1] {
        ao::build_flow::ServicePlan::Skip { service } => assert_eq!(service, "model-service"),
        _ => panic!("model-service should be skipped"),
    }
}

#[test]
fn build_wraps_check_failures_in_context() {
    let mut flow = BuildFlow::new();
    flow.generation_done(Ok(())).unwrap();
    let config = parse_config("[project]\nname = \"p\"").unwrap();
    let dir_kinds = vec![PathKind::Missing, PathKind::Dir, PathKind::Dir];
    let check_err =
        ao::check::run("/tmp/p", &config, &dir_kinds, &all_good_files()).unwrap_err();
    let err = flow.checks_done(Err(check_err)).unwrap_err();
    assert!(err.message.contains("Pre-build checks failed"));
    assert!(err.message.contains("api-service"));
}

#[test]
fn image_build_failure_names_the_service() {
    let cause = judge_outcome(
        "docker build -t p-api-service:latest .",
        &CommandOutcome::Exited { success: false, status: "exit status: 1".to_string() },
    )
    .unwrap_err();
    let err = ao::build_flow::image_build_failed("api-service", "p-api-service:latest", cause);
    assert_eq!(err.kind, ErrorKind::BuilderFailed);
    assert!(err.message.contains("Failed to build api-service image: p-api-service:latest"));
}

#[test]
fn generate_grpc_code_fails_if_proto_missing() {
    let err = ao::build_flow::require_proto(
        "/tmp/p/model-interface/anops.proto",
        PathKind::Missing,
    )
    .unwrap_err();
    assert!(err.message.contains("Proto file not found"));
}

#[test]
fn generate_grpc_code_fails_if_python_or_grpc_tools_missing() {
    let err = judge_outcome(
        "python -m grpc_tools.protoc",
        &CommandOutcome::SpawnFailed { os_error: "No such file or directory".to_string() },
    )
    .unwrap_err();
    assert!(
        err.message.contains("Failed to execute")
            || err.message.contains("No such file or directory")
    );
}

#[test]
fn generate_grpc_code_runs_without_panic_on_valid_structure() {
    ao::build_flow::require_proto("/tmp/p/model-interface/anops.proto", PathKind::File).unwrap();
    let plan = ao::build_flow::grpc_generation_plan(
        "/tmp/p/model-interface",
        "/tmp/p/api-service",
        "/tmp/p/model-service",
        "anops.proto",
    );
    assert_eq!(plan.program, "python");
    assert_eq!(plan.args.len(), 10);
    assert_eq!(plan.args[0], "-m");
    assert_eq!(plan.args[1], "grpc_tools.protoc");
    assert_eq!(plan.args[2], "-I/tmp/p/model-interface");
    assert_eq!(plan.args[9], "anops.proto");
}

// ===== the init flow =====

fn plan_paths(steps: &[ScaffoldStep]) -> (Vec<String>, Vec<String>) {
    let mut dirs: Vec<String> = Vec::new();
    let mut files: Vec<String> = Vec::new();
    for step in steps {
        match step {
            ScaffoldStep::CreateDir { path } => dirs.push(path.clone()),
            ScaffoldStep::WriteFile { path, .. } => files.push(path.clone()),
        }
    }
    (dirs, files)
}

fn file_content<'a>(steps: &'a [ScaffoldStep], path: &str) -> &'a str {
    for step in steps {
        if let ScaffoldStep::WriteFile { path: p, content } = step {
            if p == path {
                return content;
            }
        }
    }
    panic!("no such file in plan: {}", path);
}

#[test]
fn run_succeeds_and_creates_structure() {
    let root = "/tmp/test_init_project";
    let steps = ao::init::run(root);
    let (dirs, files) = plan_paths(&steps);

    assert_eq!(dirs[0], root);
    let subdirs = [
        "api-service",
        "model-service",
        "model-interface",
        "api-service/tests",
        "model-service/tests",
    ];
    for subdir in subdirs.iter() {
        let full = format!("{}/{}", root, subdir);
        assert!(dirs.contains(&full), "Directory missing: {}", subdir);
    }

    let core_files = [
        "ao.toml",
        ".gitignore",
        "README.md",
        "api-service/Dockerfile",
        "api-service/README.md",
        "api-service/requirements.txt",
        "api-service/main.py",
        "api-service/tests/test_main.py",
        "model-service/Dockerfile",
        "model-service/README.md",
        "model-service/requirements.txt",
        "model-service/server.py",
        "model-service/tests/test_server.py",
        "model-interface/anops.proto",
        "model-interface/README.md",
    ];
    for file in core_files.iter() {
        let full = format!("{}/{}", root, file);
        assert!(files.contains(&full), "File missing: {}", file);
    }

    let config_content = file_content(&steps, &format!("{}/ao.toml", root));
    assert!(
        config_content.contains("name = \"test_init_project\""),
        "Project name mismatch in ao.toml"
    );
    // The generated configuration must itself load.
    assert!(parse_config(config_content).is_ok());

    let gitignore = file_content(&steps, &format!("{}/.gitignore", root));
    assert!(gitignore.contains("__pycache__/"));
    assert!(gitignore.contains("*.pyc"));
}

#[test]
fn init_run_succeeds_and_creates_structure() {
    // The scaffold plan runs the root directory first, then the marker
    // configuration, so a fresh tree is a project from its first file.
    let steps = ao::init::run("proj");
    match &steps[0] {
        ScaffoldStep::CreateDir { path } => assert_eq!(path, "proj"),
        _ => panic!("first step must create the root directory"),
    }
    match &steps[1] {
        ScaffoldStep::WriteFile { path, content } => {
            assert_eq!(path, "proj/ao.toml");
            assert!(content.contains("name = \"proj\""));
        }
        _ => panic!("second step must write the marker configuration"),
    }
}

#[test]
fn run_fails_if_cannot_create_dir() {
    // Creating the root directory in a restricted place fails; the flow
    // reports it under this message.
    let msg = ao::init::root_create_failed_message("/ao_init_fail_test", "Permission denied");
    assert!(msg.contains("Failed to create project directory"));
    assert!(msg.contains("/ao_init_fail_test"));
}

#[test]
fn init_run_fails_if_cannot_create_dir() {
    let msg = ao::init::root_create_failed_message("/root/forbidden", "Permission denied");
    assert!(msg.starts_with("Failed to create project directory: "));
}

#[test]
fn project_name_defaults_when_path_has_no_component() {
    assert_eq!(ao::init::project_name_of_path("a/b/.."), "anops-project");
    assert_eq!(ao::init::project_name_of_path("/"), "anops-project");
    assert_eq!(ao::init::project_name_of_path("nested/dir/proj/"), "proj");
}

#[test]
fn image_tag_formula() {
    assert_eq!(ao::build_flow::image_tag("demo", "api-service"), "demo-api-service:latest");
    assert_eq!(
        ao::build_flow::image_tag("demo", "model-service"),
        "demo-model-service:latest"
    );
}

#[test]
fn required_structure_lists_are_fixed() {
    let dirs = ao::check::required_dirs();
    assert_eq!(dirs, vec![
        "api-service".to_string(),
        "model-service".to_string(),
        "model-interface".to_string(),
    ]);
    let files = ao::check::required_files();
    assert_eq!(files.len(), 9);
    assert_eq!(files[0], ("api-service".to_string(), "Dockerfile".to_string()));
    assert_eq!(files[8], ("model-interface".to_string(), "anops.proto".to_string()));
}
