use forge::config::{resolve_config, CliOverrides, ConfigDefaults, ConfigError, ForgeJsonFile, ResolvedConfig};
use forge::discovery::{config_candidate, discovery_step, find_project_root_or_fallback, DiscoveryStep, CONFIG_FILE_NAME};
use forge::paths::{display_path, join_path, parent_of};

const FAKE_ROOT: &str = "/project";

fn root() -> &'static str {
    FAKE_ROOT
}

// Defaults
#[test]
fn all_defaults_when_no_config_and_no_overrides() {
    let config = resolve_config(root(), None, &CliOverrides::default()).expect("should resolve with no inputs");

    assert_eq!(config.source_root, "/project/src");
    assert_eq!(config.language, "ts");
    assert!(config.generate_spec);
    assert!(!config.flat);
    assert!(config.paths.is_empty());
}

// File config overrides defaults
#[test]
fn file_config_overrides_source_root() {
    let file = ForgeJsonFile { source_root: Some("app".to_string()), ..Default::default() };

    let config = resolve_config(root(), Some(&file), &CliOverrides::default()).expect("should resolve with file config");

    assert_eq!(config.source_root, "/project/app");
}

#[test]
fn file_can_disable_spec_generation() {
    let file = ForgeJsonFile { generate_spec: Some(false), ..Default::default() };

    let config = resolve_config(root(), Some(&file), &CliOverrides::default()).expect("should resolve with file config");

    assert!(!config.generate_spec);
}

#[test]
fn file_config_path_overrides_are_resolved_to_absolute() {
    let paths = vec![("entity".to_string(), "src/database/entities".to_string())];

    let file = ForgeJsonFile { paths: Some(paths), ..Default::default() };

    let config = resolve_config(root(), Some(&file), &CliOverrides::default()).expect("should resolve with file config");

    let entity = config.paths.iter().find(|(k, _)| k == "entity").map(|(_, v)| v.clone());
    assert_eq!(entity, Some("/project/src/database/entities".to_string()));
}

// CLI Overrides
#[test]
fn cli_overrides_beats_file_config() {
    let overrides = CliOverrides { generate_spec: Some(false), ..Default::default() };

    let config = resolve_config(root(), None, &overrides).expect("should resolve with file config and cli overrides");
    assert!(!config.flat);
}

// Validation
#[test]
fn invalid_language_is_rejected() {
    let file = ForgeJsonFile { language: Some("rust".to_string()), ..Default::default() };

    let result = resolve_config(root(), Some(&file), &CliOverrides::default());
    assert!(
        matches!(result, Err(ConfigError::InvalidField { field, .. }) if field == "language"),
        "should reject InvalidField for bad language"
    );
}

#[test]
fn path_escape_attempt_returns_error() {
    let paths = vec![("entity".to_string(), "../outside-project".to_string())];

    let file = ForgeJsonFile { paths: Some(paths), ..Default::default() };

    let result = resolve_config(root(), Some(&file), &CliOverrides::default());
    assert!(
        matches!(result, Err(ConfigError::InvalidField { .. })),
        "paths that escape the project root should be rejected"
    );
}

#[test]
fn output_path_for_returns_override_when_set() {
    let paths = vec![("entity".to_string(), "project/src/db".to_string())];

    let config = ResolvedConfig {
        project_root: "project".to_string(),
        source_root: "project/src".to_string(),
        language: "ts".to_string(),
        generate_spec: true,
        flat: false,
        paths,
    };

    assert_eq!(config.output_path_for("entity"), "project/src/db");
}

#[test]
fn output_path_for_falls_back_to_source_root_path_when_not_set() {
    let config = ResolvedConfig {
        project_root: "project".to_string(),
        source_root: "project/src".to_string(),
        language: "ts".to_string(),
        generate_spec: true,
        flat: false,
        paths: Vec::new(),
    };

    assert_eq!(config.output_path_for("service"), "project/src");
}

// Further cases

#[test]
fn defaults_are_as_documented() {
    assert_eq!(ConfigDefaults::source_root(), "src");
    assert_eq!(ConfigDefaults::language(), "ts");
    assert!(ConfigDefaults::generate_spec());
    assert!(!ConfigDefaults::flat());
}

#[test]
fn command_line_beats_file_beats_defaults() {
    let file = ForgeJsonFile {
        source_root: Some("app".to_string()),
        language: Some("js".to_string()),
        generate_spec: Some(false),
        flat: Some(true),
        paths: None,
    };
    let from_file = resolve_config(root(), Some(&file), &CliOverrides::default()).unwrap();
    assert_eq!(from_file.source_root, "/project/app");
    assert_eq!(from_file.language, "js");
    assert!(!from_file.generate_spec);
    assert!(from_file.flat);

    let overrides = CliOverrides { generate_spec: Some(true), flat: Some(false), source_root: Some("lib".to_string()) };
    let from_cli = resolve_config(root(), Some(&file), &overrides).unwrap();
    assert_eq!(from_cli.source_root, "/project/lib");
    assert_eq!(from_cli.language, "js");
    assert!(from_cli.generate_spec);
    assert!(!from_cli.flat);
    assert_eq!(from_cli.project_root, "/project");
}

#[test]
fn language_error_has_exact_reason() {
    let file = ForgeJsonFile { language: Some("rust".to_string()), ..Default::default() };
    let err = resolve_config(root(), Some(&file), &CliOverrides::default()).unwrap_err();
    assert_eq!(
        err.message(),
        "forge.json field 'language' has invalid value: 'rust' is not supported: use 'ts' or 'js'"
    );
}

#[test]
fn first_escaping_override_is_reported() {
    let paths = vec![
        ("entity".to_string(), "src/entities".to_string()),
        ("dto".to_string(), "..x".to_string()),
        ("guard".to_string(), "../y".to_string()),
    ];
    let file = ForgeJsonFile { paths: Some(paths), ..Default::default() };
    match resolve_config(root(), Some(&file), &CliOverrides::default()) {
        Err(ConfigError::InvalidField { field, reason }) => {
            assert_eq!(field, "paths.dto");
            assert_eq!(reason, "path '..x' must not escape project root");
        }
        other => panic!("expected InvalidField, got {other:?}"),
    }
}

#[test]
fn language_is_checked_before_paths() {
    let file = ForgeJsonFile {
        language: Some("go".to_string()),
        paths: Some(vec![("entity".to_string(), "../out".to_string())]),
        ..Default::default()
    };
    let result = resolve_config(root(), Some(&file), &CliOverrides::default());
    assert!(matches!(result, Err(ConfigError::InvalidField { field, .. }) if field == "language"));
}

#[test]
fn absolute_overrides_replace_the_root_and_last_duplicate_wins() {
    let paths = vec![
        ("entity".to_string(), "/abs/entities".to_string()),
        ("entity".to_string(), "db".to_string()),
    ];
    let file = ForgeJsonFile { paths: Some(paths), ..Default::default() };
    let config = resolve_config(root(), Some(&file), &CliOverrides::default()).unwrap();
    assert_eq!(config.paths[0].1, "/abs/entities");
    assert_eq!(config.output_path_for("entity"), "/project/db");
    assert_eq!(config.output_path_for("service"), "/project/src");
}

#[test]
fn config_error_messages() {
    let read = ConfigError::ReadFailed { path: "/p/forge.json".to_string(), reason: "denied".to_string() };
    assert_eq!(read.message(), "Could not read config file at '/p/forge.json': denied");
    let json = ConfigError::InvalidJson { reason: "eof".to_string() };
    assert_eq!(json.message(), "forge.json is not valid JSON: eof");
}

// Discovery

#[test]
fn fallback_returns_start_path_when_no_config_found() {
    let start = "/tmp/no-config-here";
    let (root, found) = find_project_root_or_fallback(start, None);
    assert_eq!(root, start);
    assert!(!found, "should report config was not found");
}

#[test]
fn fallback_keeps_a_found_root() {
    let (root, found) = find_project_root_or_fallback("/a/b/c", Some("/a".to_string()));
    assert_eq!(root, "/a");
    assert!(found);
}

/// Runs the search from `start` over a file system that holds `files`.
fn search(start: &str, files: &[&str]) -> Option<String> {
    let mut current = start.to_string();
    loop {
        let present = files.contains(&config_candidate(&current).as_str());
        match discovery_step(&current, present) {
            DiscoveryStep::Found(root) => return Some(root),
            DiscoveryStep::Ascend(parent) => current = parent,
            DiscoveryStep::Exhausted => return None,
        }
    }
}

#[test]
fn finds_config_in_current_directory() {
    let found = search("/tmp/project", &["/tmp/project/forge.json"]);
    assert_eq!(found, Some("/tmp/project".to_string()));
}

#[test]
fn finds_config_in_parent_directory() {
    let files = ["/tmp/project/forge.json", "/tmp/project/src/products/.gitkeep"];
    let found = search("/tmp/project/src/products", &files);
    assert_eq!(found, Some("/tmp/project".to_string()));
}

#[test]
fn returns_none_when_no_config_exists() {
    let found = search("/tmp/empty", &[]);
    assert!(found.is_none(), "should return None when no config found");
}

#[test]
fn discovery_walks_up_to_the_root() {
    assert_eq!(CONFIG_FILE_NAME, "forge.json");
    assert_eq!(config_candidate("/project/src"), "/project/src/forge.json");
    let mut current = "/project/src/products".to_string();
    let mut visited = vec![current.clone()];
    loop {
        match discovery_step(&current, false) {
            DiscoveryStep::Ascend(p) => {
                current = p;
                visited.push(current.clone());
            }
            DiscoveryStep::Exhausted => break,
            DiscoveryStep::Found(_) => panic!("nothing is present"),
        }
    }
    assert_eq!(visited, vec!["/project/src/products", "/project/src", "/project", "/"]);
    match discovery_step("/project", true) {
        DiscoveryStep::Found(r) => assert_eq!(r, "/project"),
        other => panic!("expected Found, got {other:?}"),
    }
}

// Paths

#[test]
fn join_follows_path_rules() {
    assert_eq!(join_path("/project", "src"), "/project/src");
    assert_eq!(join_path("/project/", "src"), "/project/src");
    assert_eq!(join_path("", "src"), "src");
    assert_eq!(join_path("/project", "/abs"), "/abs");
    assert_eq!(join_path("/project", ""), "/project/");
}

#[test]
fn parent_follows_path_rules() {
    assert_eq!(parent_of("/project/src"), Some("/project".to_string()));
    assert_eq!(parent_of("/project"), Some("/".to_string()));
    assert_eq!(parent_of("/"), None);
    assert_eq!(parent_of(""), None);
    assert_eq!(parent_of("file.ts"), Some("".to_string()));
    assert_eq!(parent_of("a/b/"), Some("a".to_string()));
    assert_eq!(parent_of("a//b"), Some("a".to_string()));
    for p in ["/project/src", "/project", "file.ts", "a/b/", "a//b", "/x/y/z.ts"] {
        assert_eq!(parent_of(p), std::path::Path::new(p).parent().map(|q| q.to_str().unwrap().to_string()), "{p}");
    }
}

#[test]
fn display_path_uses_forward_slashes() {
    assert_eq!(display_path("C:\\project\\src"), "C:/project/src");
    assert_eq!(display_path("/already/fine"), "/already/fine");
    assert!(!display_path("a\\b\\c").contains('\\'));
}
