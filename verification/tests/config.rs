use pullkit::config::{
    default_concurrency, expand_repo_paths, expand_repo_paths_from, validate_config, ConfigError,
    InitStage, InitStep, LoadStage, LoadStep,
};
use pullkit::paths::{expand_path, join_path, same_path, under_home, PathStyle};
use pullkit::{
    config_path, initialize_config, load_config, load_config_from, validate_concurrency, Config,
    RepoConfig, DEFAULT_CONCURRENCY, EXAMPLE_CONFIG, MAX_CONCURRENCY,
};
use std::path::{Path, PathBuf};

fn configured(name: &str, path: &str) -> RepoConfig {
    RepoConfig { name: name.into(), path: path.into(), build_command: None }
}

fn config_of(repos: Vec<RepoConfig>) -> Config {
    Config { concurrency: default_concurrency(), repos }
}

fn fault_of(config: &Config, resolved: Vec<Option<String>>) -> String {
    validate_config(PathStyle::Unix, config, &resolved).expect_err("the configuration is faulty").message()
}

#[test]
fn expands_current_user_tilde_in_repo_paths() {
    let mut config = config_of(vec![
        configured("home", "~"),
        configured("nested", "~/workspace/app"),
        configured("absolute", "/tmp/app"),
        configured("another-user", "~someone/app"),
    ]);

    expand_repo_paths_from(PathStyle::Unix, &mut config, "/Users/example");

    assert_eq!(Path::new(&config.repos[0].path), Path::new("/Users/example"));
    assert_eq!(Path::new(&config.repos[1].path), Path::new("/Users/example/workspace/app"));
    assert_eq!(Path::new(&config.repos[2].path), Path::new("/tmp/app"));
    assert_eq!(Path::new(&config.repos[3].path), Path::new("~someone/app"));
}

#[test]
fn rejects_a_concurrency_outside_the_supported_range() {
    assert!(validate_concurrency(0).is_err());
    assert!(validate_concurrency(1).is_ok());
    assert!(validate_concurrency(MAX_CONCURRENCY).is_ok());
    assert!(validate_concurrency(MAX_CONCURRENCY + 1).is_err());
}

#[test]
fn config_defaults_the_concurrency_and_reads_it_when_given() {
    let defaulted = config_of(Vec::new());
    let given = Config { concurrency: 2, repos: Vec::new() };
    let too_many = Config { concurrency: 11, repos: Vec::new() };

    assert_eq!(defaulted.concurrency, DEFAULT_CONCURRENCY);
    assert_eq!(given.concurrency, 2);
    assert!(fault_of(&too_many, Vec::new()).contains("concurrency must be between 1 and 10, not 11"));
}

#[test]
fn rejects_two_repos_that_point_at_the_same_directory() {
    let config = config_of(vec![configured("first", "/tmp"), configured("second", "/tmp/.")]);

    assert!(fault_of(&config, vec![None, None]).contains("same directory"));
}

#[test]
fn rejects_two_paths_that_resolve_to_one_directory() {
    let config = config_of(vec![
        configured("other", "/x"),
        configured("first", "/link"),
        configured("second", "/srv/app"),
    ]);
    let resolved = vec![None, Some("/srv/app".to_owned()), Some("/srv/app".to_owned())];

    assert_eq!(
        fault_of(&config, resolved),
        "repos 'first' and 'second' point at the same directory"
    );
    assert!(validate_config(PathStyle::Unix, &config, &vec![None, Some("/srv/app".to_owned()), None]).is_ok());
}

#[test]
fn names_the_first_fault_of_a_configuration() {
    let blank = config_of(vec![configured("a", "/a"), configured(" \t", "/b")]);
    assert_eq!(fault_of(&blank, Vec::new()), "repo 2 has an empty name");
    let pathless = config_of(vec![configured("a", "")]);
    assert_eq!(fault_of(&pathless, Vec::new()), "repo 'a' has an empty path");
    let twice = config_of(vec![configured("a", "/a"), configured("a", "/b")]);
    assert_eq!(fault_of(&twice, Vec::new()), "duplicate repo name 'a'");
    let fine = config_of(vec![configured("a", "/a"), configured("b", "/b")]);
    assert!(validate_config(PathStyle::Unix, &fine, &Vec::new()).is_ok());
    assert_eq!(fine.clone().repos.len(), 2);
}

#[test]
fn only_a_path_with_a_tilde_needs_the_home_directory() {
    let mut plain = config_of(vec![configured("a", "/a")]);
    assert!(expand_repo_paths(PathStyle::Unix, &mut plain, None).is_ok());
    let mut tilde = config_of(vec![configured("a", "/a"), configured("b", "~/b")]);
    let error = expand_repo_paths(PathStyle::Unix, &mut tilde, None).expect_err("there is no home");
    assert_eq!(error.message(), "HOME is not set");
    assert_eq!(tilde.repos[1].path, "~/b");
    assert!(expand_repo_paths(PathStyle::Unix, &mut tilde, Some("/h")).is_ok());
    assert_eq!(tilde.repos[1].path, "/h/b");
}

#[test]
fn the_configuration_is_under_the_home_directory() {
    assert_eq!(config_path(PathStyle::Unix, Some("/h")).ok().as_deref(), Some("/h/.config/pullkit/config.yaml"));
    assert!(matches!(config_path(PathStyle::Unix, None), Err(ConfigError::HomeNotSet)));
}

#[test]
fn creates_a_missing_configuration_and_leaves_one_that_is_there() {
    let looked = initialize_config(PathStyle::Unix, Some("/h"), InitStage::Start);
    assert!(matches!(looked, InitStep::LookFor { path } if path == "/h/.config/pullkit/config.yaml"));
    let there = initialize_config(PathStyle::Unix, Some("/h"), InitStage::LookedFor { exists: true });
    assert!(matches!(there, InitStep::Done { created: None }));
    match initialize_config(PathStyle::Unix, Some("/h"), InitStage::LookedFor { exists: false }) {
        InitStep::Create { directory, path, contents } => {
            assert_eq!(directory, "/h/.config/pullkit");
            assert_eq!(path, "/h/.config/pullkit/config.yaml");
            assert_eq!(contents, EXAMPLE_CONFIG);
        }
        _ => panic!("a missing configuration is created"),
    }
    let written = initialize_config(PathStyle::Unix, Some("/h"), InitStage::Written);
    assert!(
        matches!(written, InitStep::Done { created: Some(path) } if path == "/h/.config/pullkit/config.yaml")
    );
    match initialize_config(PathStyle::Unix, Some("/h"), InitStage::DirectoryFailed { cause: "no".into() }) {
        InitStep::Failed { error } => assert_eq!(
            error.message(),
            "could not create config directory at /h/.config/pullkit: no"
        ),
        _ => panic!("the directory is missing"),
    }
    match initialize_config(PathStyle::Unix, Some("/h"), InitStage::WriteFailed { cause: "full".into() }) {
        InitStep::Failed { error } => assert_eq!(
            error.message(),
            "could not create sample config at /h/.config/pullkit/config.yaml: full"
        ),
        _ => panic!("the file is missing"),
    }
    assert!(matches!(initialize_config(PathStyle::Unix, None, InitStage::Start), InitStep::Failed { .. }));
}

#[test]
fn loads_a_configuration_step_by_step() {
    assert!(matches!(load_config(PathStyle::Unix, Some("/h"), LoadStage::Start), LoadStep::Read { path } if path == "/h/.config/pullkit/config.yaml"));
    assert!(matches!(load_config(PathStyle::Unix, None, LoadStage::Start), LoadStep::Failed { .. }));
    let parsed = config_of(vec![configured("a", "~/a")]);
    let config = match load_config_from(PathStyle::Unix, "/c", Some("/h"), LoadStage::Parsed { config: parsed }) {
        LoadStep::Resolve { config } => config,
        _ => panic!("a parsed configuration is resolved"),
    };
    assert_eq!(config.repos[0].path, "/h/a");
    let resolved = vec![Some("/h/a".to_owned())];
    let loaded = load_config_from(PathStyle::Unix, "/c", Some("/h"), LoadStage::Resolved { config, resolved });
    assert!(matches!(loaded, LoadStep::Loaded { config } if config.repos[0].name == "a"));
    match load_config_from(PathStyle::Unix, "/c", None, LoadStage::ReadFailed { cause: "gone".into() }) {
        LoadStep::Failed { error } => {
            assert_eq!(error.message(), "could not read config at /c: gone")
        }
        _ => panic!("an unreadable file is an error"),
    }
    match load_config_from(PathStyle::Unix, "/c", None, LoadStage::ParseFailed { cause: "bad".into() }) {
        LoadStep::Failed { error } => assert_eq!(error.message(), "invalid YAML in /c: bad"),
        _ => panic!("bad YAML is an error"),
    }
}

#[test]
fn paths_agree_with_those_of_the_standard_library() {
    let samples = [
        "", "/", "//", ".", "./", "..", "a", "a/", "a//b", "./a", "a/.", "a/./b", "/a/b/../c", "/./a",
        "~", "~/", "~//x/", "~/./y", "~a", "~/a/b/", "./~", "日本/語",
    ];
    for one in samples {
        for other in samples {
            assert_eq!(same_path(PathStyle::Unix, one, other), Path::new(one) == Path::new(other), "{one} {other}");
            assert_eq!(
                join_path(PathStyle::Unix, one, other),
                Path::new(one).join(other).to_str().unwrap(),
                "{one} {other}"
            );
        }
        assert_eq!(under_home(PathStyle::Unix, one), Path::new(one).starts_with("~"), "{one}");
        let expanded = match Path::new(one).strip_prefix("~") {
            Ok(rest) => Path::new("/h").join(rest),
            Err(_) => PathBuf::from(one),
        };
        assert_eq!(expand_path(PathStyle::Unix, one, "/h"), expanded.to_str().unwrap(), "{one}");
    }
}

#[test]
fn windows_paths_take_backslashes_drives_and_shares() {
    let style = PathStyle::Windows;
    for (one, other) in [
        ("C:\\a", "C:/a"),
        ("c:\\a\\", "C:/./a"),
        ("a\\b", "a/b"),
        ("\\\\server\\share", "//server/share/"),
        ("\\\\.\\COM1", "//./COM1/"),
        ("\\\\?\\C:\\a", "\\\\?\\c:\\a"),
        ("\\\\?\\UNC\\s\\t\\a", "\\\\?\\UNC\\s\\t\\\\a"),
    ] {
        assert!(same_path(style, one, other), "{one} {other}");
    }
    for (one, other) in [
        ("C:\\a", "C:a"),
        ("C:\\a", "D:\\a"),
        ("C:\\a", "C:\\A"),
        ("C:\\a", "\\\\?\\C:\\a"),
        ("\\\\server\\share", "\\server\\share"),
        ("\\\\?\\C:\\a\\.", "\\\\?\\C:\\a"),
        ("\\\\?\\C:\\a/b", "\\\\?\\C:\\a\\b"),
        (".\\a", "a"),
    ] {
        assert!(!same_path(style, one, other), "{one} {other}");
    }
    assert!(under_home(style, "~") && under_home(style, "~\\x") && under_home(style, "~/x"));
    assert!(!under_home(style, "~x") && !under_home(PathStyle::Unix, "~\\x"));
    for (base, path, joined) in [
        ("C:\\u", "a", "C:\\u\\a"),
        ("C:\\u\\", "a", "C:\\u\\a"),
        ("C:/u/", "a", "C:/u/a"),
        ("C:", "a", "C:a"),
        ("C:\\u", "\\a", "C:\\a"),
        ("C:\\u", "D:a", "D:a"),
        ("C:\\u", "//s/t/a", "//s/t/a"),
        ("\\\\s\\t", "/a", "\\\\s\\t/a"),
        ("\\\\?\\C:\\u", "a/./../b", "\\\\?\\C:\\u\\b"),
        ("\\\\?\\C:\\u", "\\a", "\\\\?\\C:\\a"),
        ("\\\\?\\C:", "a", "\\\\?\\C:\\a"),
        ("", "a", "a"),
        ("u", "", "u\\"),
    ] {
        assert_eq!(join_path(style, base, path), joined, "{base} {path}");
    }
    assert_eq!(expand_path(style, "~\\app\\", "C:\\Users\\me"), "C:\\Users\\me\\app");
    assert_eq!(expand_path(style, "~/.//app/.", "C:\\Users\\me"), "C:\\Users\\me\\app");
    assert_eq!(expand_path(style, "~\\D:\\app", "C:\\Users\\me"), "D:\\app");
    assert_eq!(expand_path(style, "C:\\~\\app", "C:\\Users\\me"), "C:\\~\\app");
    assert_eq!(
        config_path(style, Some("C:\\Users\\me")).ok().as_deref(),
        Some("C:\\Users\\me\\.config/pullkit/config.yaml")
    );
    let config = config_of(vec![configured("first", "C:\\a"), configured("second", "c:/a/")]);
    assert!(validate_config(style, &config, &Vec::new()).is_err());
}
