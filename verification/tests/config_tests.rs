use ao::config::Config;
use ao::config::ConfigSource;
use ao::config::find_task;
use ao::config::load_config;
use ao::config::parse_config;
use ao::errors::ErrorKind;

fn text_source(content: &str) -> ConfigSource {
    ConfigSource::Text { content: content.to_string() }
}

fn load_text(content: &str) -> Result<Config, ao::errors::AoError> {
    load_config(&text_source(content))
}

#[test]
fn load_config_succeeds_with_valid_file_no_extras() {
    let project_name = "test-project";
    let config_content = format!("[project]\nname = \"{}\"", project_name);
    let config = load_text(&config_content).unwrap();
    assert_eq!(config.project.name, project_name);
    assert!(config.check.linters.is_empty());
    assert!(config.check.testers.is_empty());
    assert!(config.tasks.is_empty());
}

#[test]
fn load_config_succeeds_with_tasks_section() {
    let project_name = "test-project-with-tasks";
    let config_content = format!(
        "[project]\nname = \"{}\"\n\n[tasks]\nbuild = [\"echo building...\", \"mkdir dist\"]\ndeploy = [\"echo deploying...\"]",
        project_name
    );
    let config = load_text(&config_content).unwrap();
    assert_eq!(config.project.name, project_name);
    assert!(config.check.linters.is_empty());
    assert!(config.check.testers.is_empty());
    assert_eq!(config.tasks.len(), 2);
    assert_eq!(
        find_task(&config, "build").unwrap(),
        &vec!["echo building...".to_string(), "mkdir dist".to_string()]
    );
    assert_eq!(
        find_task(&config, "deploy").unwrap(),
        &vec!["echo deploying...".to_string()]
    );
}

#[test]
fn load_config_succeeds_with_empty_tasks_section() {
    let project_name = "test-project-empty-tasks-section";
    let config_content = format!("[project]\nname = \"{}\"\n\n[tasks] # Empty tasks table", project_name);
    let config = load_text(&config_content).unwrap();
    assert_eq!(config.project.name, project_name);
    assert!(config.tasks.is_empty());
}

#[test]
fn load_config_succeeds_with_all_sections() {
    let project_name = "test-project-all-sections";
    let config_content = format!(
        "[project]\nname = \"{}\"\n\n[check]\nlinters = [\"lint1\"]\n\n[tasks]\nbuild = [\"build1\"]",
        project_name
    );
    let config = load_text(&config_content).unwrap();
    assert_eq!(config.project.name, project_name);
    assert_eq!(config.check.linters, vec!["lint1".to_string()]);
    assert!(config.check.testers.is_empty());
    assert_eq!(config.tasks.len(), 1);
    assert_eq!(find_task(&config, "build").unwrap(), &vec!["build1".to_string()]);
}

#[test]
fn load_config_fails_with_malformed_tasks() {
    let config_content = "[project]\nname = \"test_project\"\n\n[tasks]\nbuild = \"not-an-array\"";
    let result = load_text(config_content);
    assert!(result.is_err());
    let err = result.unwrap_err().message;
    assert!(err.contains("invalid type") && err.contains("not-an-array"));
}

#[test]
fn load_config_fails_with_malformed_task_steps() {
    let config_content = "[project]\nname = \"test_project\"\n\n[tasks]\nbuild = [1, 2, 3] # Numbers instead of strings";
    let result = load_text(config_content);
    assert!(result.is_err());
    let err = result.unwrap_err().message;
    assert!(err.contains("invalid type") && err.contains("integer"));
}

#[test]
fn load_config_fails_if_file_missing() {
    let result = load_config(&ConfigSource::Missing { path: "/tmp/absent/ao.toml".to_string() });
    assert!(result.is_err());
    let err = result.unwrap_err().message;
    assert!(err.contains("Configuration file not found") || err.contains("No such file"));
}

#[test]
fn load_config_fails_if_file_malformed() {
    let result = load_text("[project]name=");
    assert!(result.is_err());
    let err = result.unwrap_err().message;
    assert!(err.contains("Failed to parse TOML config file") || err.contains("expected"));
}

#[test]
fn load_config_fails_if_missing_project_table() {
    let result = load_text("[tasks]\nbuild=['a']");
    assert!(result.is_err());
    let err = result.unwrap_err().message;
    assert!(err.contains("missing field") && err.contains("project"));
}

#[test]
fn load_config_fails_if_missing_project_name() {
    let result = load_text("[project]\n# name intentionally missing");
    assert!(result.is_err());
    let err = result.unwrap_err().message;
    assert!(err.contains("missing field") && err.contains("name"));
}

#[test]
fn load_config_handles_incorrect_types_in_check() {
    let config_content =
        "[project]\nname = \"test_project\"\n\n[check]\nlinters = \"not-an-array\" # Incorrect type";
    let result = load_text(config_content);
    assert!(result.is_err());
    let err = result.unwrap_err().message;
    assert!(err.contains("invalid type") && err.contains("not-an-array"));
}

#[test]
fn load_config_reports_unreadable_file() {
    let result = load_config(&ConfigSource::Unreadable {
        path: "/proj/ao.toml".to_string(),
        cause: "permission denied".to_string(),
    });
    let err = result.unwrap_err();
    assert_eq!(err.kind, ErrorKind::ConfigRead);
    assert_eq!(err.message, "Failed to read config file: /proj/ao.toml: permission denied");
}

#[test]
fn parse_accepts_literal_strings_and_trailing_comments() {
    let config = parse_config("[project]\nname = 'test_build_project' # comment").unwrap();
    assert_eq!(config.project.name, "test_build_project");
}

#[test]
fn parse_rejects_empty_project_name() {
    let result = parse_config("[project]\nname = \"\"");
    assert!(result.unwrap_err().message.contains("non-empty"));
}

#[test]
fn parse_rejects_duplicate_task_names() {
    let result = parse_config("[project]\nname = \"p\"\n\n[tasks]\na = [\"x\"]\na = [\"y\"]");
    let err = result.unwrap_err();
    assert_eq!(err.kind, ErrorKind::ConfigParse);
    assert!(err.message.contains("duplicate key `a`"));
}

#[test]
fn parse_rejects_unterminated_string() {
    let result = parse_config("[project]\nname = \"oops");
    assert!(result.unwrap_err().message.contains("unterminated"));
}

#[test]
fn parse_keeps_task_order_and_command_order() {
    let config = parse_config(
        "[project]\nname = \"p\"\n\n[tasks]\nzeta = [\"c1\", \"c2\", \"c3\"]\nalpha = [\"c4\"]",
    )
    .unwrap();
    assert_eq!(config.tasks[0].0, "zeta");
    assert_eq!(config.tasks[0].1, vec!["c1".to_string(), "c2".to_string(), "c3".to_string()]);
    assert_eq!(config.tasks[1].0, "alpha");
    assert_eq!(config.tasks[1].1, vec!["c4".to_string()]);
}

#[test]
fn config_round_trip_preserves_values() {
    let config = ao::config::Config {
        project: ao::config::ProjectConfig { name: "X".to_string() },
        check: ao::config::CheckConfig { linters: vec![], testers: vec![] },
        tasks: vec![(
            "build".to_string(),
            vec!["cmd1".to_string(), "cmd2".to_string()],
        )],
    };
    let text = ao::render::render_config(&config);
    let back = parse_config(&text).unwrap();
    assert_eq!(back.project.name, "X");
    assert!(back.check.linters.is_empty());
    assert!(back.check.testers.is_empty());
    assert_eq!(back.tasks.len(), 1);
    assert_eq!(back.tasks[0].0, "build");
    assert_eq!(back.tasks[0].1, vec!["cmd1".to_string(), "cmd2".to_string()]);
}

#[test]
fn config_round_trip_preserves_check_lists() {
    let config = ao::config::Config {
        project: ao::config::ProjectConfig { name: "proj".to_string() },
        check: ao::config::CheckConfig {
            linters: vec!["ruff check .".to_string()],
            testers: vec!["pytest".to_string(), "pytest -q".to_string()],
        },
        tasks: vec![],
    };
    let text = ao::render::render_config(&config);
    let back = parse_config(&text).unwrap();
    assert_eq!(back.project.name, "proj");
    assert_eq!(back.check.linters, vec!["ruff check .".to_string()]);
    assert_eq!(back.check.testers, vec!["pytest".to_string(), "pytest -q".to_string()]);
    assert!(back.tasks.is_empty());
}

#[test]
fn parse_unescapes_basic_strings() {
    // The quoted form differs from the stored value: escapes are decoded.
    let config = parse_config("[project]\nname = \"a\\\"b\\\\c\"").unwrap();
    assert_eq!(config.project.name, "a\"b\\c");
    let config = parse_config("[project]\nname = \"l\\nr\"").unwrap();
    assert_eq!(config.project.name, "l\nr");
}

#[test]
fn parse_accepts_crlf_line_endings() {
    let config = parse_config("[project]\r\nname = \"p\"\r\n\r\n[tasks]\r\nbuild = [\"x\"]\r\n")
        .unwrap();
    assert_eq!(config.project.name, "p");
    assert_eq!(config.tasks[0].1, vec!["x".to_string()]);
}

#[test]
fn parse_accepts_empty_array_and_empty_string_items() {
    let config =
        parse_config("[project]\nname = \"p\"\n\n[tasks]\nnone = []\nblank = [\"\"]").unwrap();
    assert_eq!(find_task(&config, "none").unwrap().len(), 0);
    assert_eq!(find_task(&config, "blank").unwrap(), &vec!["".to_string()]);
}

#[test]
fn parse_rejects_missing_config_entirely() {
    let err = parse_config("").unwrap_err();
    assert!(err.message.contains("missing field") && err.message.contains("project"));
}

#[test]
fn round_trip_of_rendered_scaffold_config() {
    // The renderer and the scaffold agree with the parser on the shape of
    // a fresh project's configuration.
    let config = ao::config::Config {
        project: ao::config::ProjectConfig { name: "fresh".to_string() },
        check: ao::config::CheckConfig { linters: vec![], testers: vec![] },
        tasks: vec![],
    };
    let text = ao::render::render_config(&config);
    let back = parse_config(&text).unwrap();
    assert_eq!(back.project.name, "fresh");
    assert!(back.tasks.is_empty());
}
