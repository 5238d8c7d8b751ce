use project_manager::cli::{git_source, version_label, Commands};
use project_manager::config::fetchers::{fetch_failure, get_fetcher, Fetcher, GitFetcher};
use project_manager::config::{
    add_question, config_file_path_in, get_config_file_path, remove_question, is_confirmation, source_dir, AddStep, Config, Materialization, RemoveStep,
};
use project_manager::error::RegistryError;
use project_manager::parse::{Project, ProjectConfig, Source, SourceType};

fn project(name: &str, path: &str, source: Option<Source>) -> Project {
    Project {
        name: name.to_string(),
        path: path.to_string(),
        description: None,
        languages: Vec::new(),
        source,
    }
}

fn registry(projects: Vec<Project>) -> Config {
    let mut cfg = ProjectConfig::new();
    for p in projects {
        cfg.add_project(p);
    }
    Config::new(Some(cfg))
}

fn git(url: &str) -> Source {
    Source { source_type: SourceType::Git, url: url.to_string() }
}

fn names(config: &Config) -> Vec<String> {
    config.inner().projects.iter().map(|p| p.name.clone()).collect()
}

#[test]
fn new_registry_is_default() {
    let cfg = ProjectConfig::new();
    assert_eq!(cfg.version, "1.0");
    assert_eq!(cfg.editor, "code");
    assert_eq!(cfg.root_dir, "my_projects");
    assert!(cfg.projects.is_empty());
}

#[test]
fn config_without_loaded_document_is_default() {
    let config = Config::new(None);
    assert_eq!(config.inner().version, "1.0");
    assert_eq!(config.inner().root_dir, "my_projects");
    assert!(config.inner().projects.is_empty());
}

#[test]
fn config_keeps_loaded_document() {
    let mut cfg = ProjectConfig::new();
    cfg.editor = "vim".to_string();
    cfg.add_project(project("a", "a", None));
    let config = Config::new(Some(cfg));
    assert_eq!(config.inner().editor, "vim");
    assert_eq!(names(&config), vec!["a"]);
}

#[test]
fn inner_mut_changes_registry() {
    let mut config = registry(vec![]);
    config.inner_mut().root_dir = "dev".to_string();
    assert_eq!(config.inner().root_dir, "dev");
}

#[test]
fn find_project_exact_name() {
    let config = registry(vec![project("alpha", "a", None), project("beta", "b", None)]);
    let found = config.inner().find_project("beta").unwrap();
    assert_eq!(found.name, "beta");
    assert_eq!(found.path, "b");
    assert!(config.inner().find_project("Beta").is_none());
    assert!(config.inner().find_project("bet").is_none());
    assert!(config.inner().find_project("").is_none());
}

#[test]
fn add_from_source_scenario() {
    let mut config = registry(vec![]);
    let draft = config.add_project_from_source(git("https://example.com/org/sample.git")).unwrap();
    assert_eq!(draft.path(), "sample");
    assert!(draft.name().is_none());
    assert_eq!(draft.source().unwrap().url, "https://example.com/org/sample.git");
    let draft = match config.answer_add(draft, "sample".to_string()) {
        AddStep::AskDescription(d) => d,
        _ => panic!("the name should be accepted"),
    };
    assert_eq!(draft.name(), Some("sample"));
    assert!(matches!(config.answer_add(draft, String::new()), AddStep::Added));

    let p = config.inner().find_project("sample").unwrap();
    assert_eq!(p.name, "sample");
    assert_eq!(p.path, "sample");
    assert_eq!(p.description.as_deref(), Some(""));
    assert!(p.languages.is_empty());
    let s = p.source.as_ref().unwrap();
    assert_eq!(s.source_type, SourceType::Git);
    assert_eq!(s.url, "https://example.com/org/sample.git");

    let plain = config.list_projects(false, false, false, false);
    assert!(plain.header.is_empty());
    assert_eq!(plain.rows, vec![vec!["sample".to_string()]]);

    let with_path = config.list_projects(true, false, false, false);
    assert_eq!(with_path.header, vec!["Name", "Path"]);
    assert_eq!(with_path.rows, vec![vec!["sample".to_string(), "sample".to_string()]]);
}

#[test]
fn add_with_taken_name_asks_again() {
    let mut config = registry(vec![project("tool", "tool", None)]);
    let draft = config.add_project_from_source(git("git@example.com:me/tool.git")).unwrap();
    let draft = match config.answer_add(draft, "tool".to_string()) {
        AddStep::NameTaken(d) => d,
        _ => panic!("a taken name must be refused"),
    };
    assert!(draft.name().is_none());
    assert_eq!(names(&config), vec!["tool"]);
    let draft = match config.answer_add(draft, "tool2".to_string()) {
        AddStep::AskDescription(d) => d,
        _ => panic!("a free name must be accepted"),
    };
    assert!(matches!(config.answer_add(draft, "second copy".to_string()), AddStep::Added));
    assert_eq!(names(&config), vec!["tool", "tool2"]);
    let p = config.inner().find_project("tool2").unwrap();
    assert_eq!(p.path, "tool");
    assert_eq!(p.description.as_deref(), Some("second copy"));
}

#[test]
fn add_name_taken_before_description_asks_again() {
    let mut config = registry(vec![]);
    let draft = config.add_project_from_source(git("https://h/x.git")).unwrap();
    let draft = match config.answer_add(draft, "x".to_string()) {
        AddStep::AskDescription(d) => d,
        _ => panic!("the name should be accepted"),
    };
    config.inner_mut().add_project(project("x", "other", None));
    match config.answer_add(draft, "desc".to_string()) {
        AddStep::NameTaken(d) => {
            assert!(d.name().is_none());
            assert_eq!(d.path(), "x");
        }
        _ => panic!("the name was taken meanwhile"),
    }
    assert_eq!(names(&config), vec!["x"]);
}

#[test]
fn add_from_directory_within_root() {
    let mut config = registry(vec![]);
    let draft = config
        .add_project("/home/u/my_projects", "/home/u/my_projects/web/site")
        .unwrap();
    assert_eq!(draft.path(), "web/site");
    assert!(draft.source().is_none());
    let draft = draft.with_source(Some(git("https://h/site.git")));
    assert_eq!(draft.path(), "web/site");
    let draft = match config.answer_add(draft, "site".to_string()) {
        AddStep::AskDescription(d) => d,
        _ => panic!("the name should be accepted"),
    };
    assert!(matches!(config.answer_add(draft, "my site".to_string()), AddStep::Added));
    let p = config.inner().find_project("site").unwrap();
    assert_eq!(p.path, "web/site");
    assert_eq!(p.source.as_ref().unwrap().url, "https://h/site.git");
}

#[test]
fn add_from_directory_outside_root() {
    let config = registry(vec![]);
    let r = config.add_project("/home/u/my_projects", "/home/u/elsewhere");
    assert!(matches!(r, Err(RegistryError::PathOutsideRoot)));
    let r = config.add_project("/home/u/my_projects", "/home/u/my_projects2/a");
    assert!(matches!(r, Err(RegistryError::PathOutsideRoot)));
}

#[test]
fn source_dir_names() {
    assert_eq!(source_dir("https://example.com/org/sample.git"), "sample");
    assert_eq!(source_dir("https://example.com/org/tool"), "tool");
    assert_eq!(source_dir("plain.git"), "plain");
    assert_eq!(source_dir("https://example.com/org/"), "");
    assert_eq!(source_dir("https://example.com/a.git.git"), "a.git");
    assert_eq!(source_dir(".git"), "");
}

#[test]
fn resolve_existing_directory_fetches_nothing() {
    let config = registry(vec![project("a", "a", Some(git("https://h/a.git"))), project("b", "b", None)]);
    assert!(matches!(config.resolve_or_fetch("a", true), Ok(Materialization::Present)));
    assert!(matches!(config.resolve_or_fetch("b", true), Ok(Materialization::Present)));
}

#[test]
fn resolve_missing_directory_without_source() {
    let config = registry(vec![project("b", "b", None)]);
    assert!(matches!(config.resolve_or_fetch("b", false), Err(RegistryError::SourceUnavailable)));
    assert_eq!(names(&config), vec!["b"]);
}

#[test]
fn resolve_missing_directory_fetches_git() {
    let config = registry(vec![project("a", "a", Some(git("https://h/a.git")))]);
    match config.resolve_or_fetch("a", false) {
        Ok(Materialization::Fetch { fetcher, url }) => {
            assert_eq!(fetcher, Fetcher::Git(GitFetcher));
            assert_eq!(url, "https://h/a.git");
        }
        _ => panic!("the project should be fetched"),
    }
}

#[test]
fn resolve_web_source_is_unsupported() {
    let web = Source { source_type: SourceType::Web, url: "https://h/page".to_string() };
    let config = registry(vec![project("w", "w", Some(web))]);
    assert!(matches!(config.resolve_or_fetch("w", false), Err(RegistryError::UnsupportedSourceType)));
}

#[test]
fn resolve_unknown_project() {
    let config = registry(vec![]);
    assert!(matches!(config.resolve_or_fetch("nope", true), Err(RegistryError::NotFound)));
    assert!(matches!(config.locate_project("/r", "nope"), Err(RegistryError::NotFound)));
}

#[test]
fn locate_project_joins_root() {
    let config = registry(vec![project("a", "web/a", None)]);
    assert_eq!(config.locate_project("/home/u/my_projects", "a").unwrap(), "/home/u/my_projects/web/a");
    assert_eq!(config.get_project_directory("/home/u/p/", "x"), "/home/u/p/x");
}

#[test]
fn remove_declined_changes_nothing() {
    let mut config = registry(vec![project("a", "a", None)]);
    let removal = config.remove_project("/root", "a").unwrap();
    assert_eq!(removal.directory(), "/root/a");
    assert_eq!(removal.name(), "a");
    assert!(!removal.directory_confirmed());
    assert!(matches!(config.answer_remove(removal, "n"), RemoveStep::Aborted));
    assert!(config.inner().find_project("a").is_some());
    let removal = config.remove_project("/root", "a").unwrap();
    assert!(matches!(config.answer_remove(removal, ""), RemoveStep::Aborted));
    assert!(config.inner().find_project("a").is_some());
}

#[test]
fn remove_keeping_entry_deletes_directory() {
    let mut config = registry(vec![project("a", "a", Some(git("https://h/a.git")))]);
    let removal = config.remove_project("/root", "a").unwrap();
    let removal = match config.answer_remove(removal, "Y") {
        RemoveStep::ConfirmEntry(r) => r,
        _ => panic!("the directory removal was confirmed"),
    };
    assert!(removal.directory_confirmed());
    assert_eq!(removal.directory(), "/root/a");
    match config.answer_remove(removal, "no") {
        RemoveStep::DeleteDirectory(d) => assert_eq!(d, "/root/a"),
        _ => panic!("the directory must be deleted"),
    }
    assert!(config.inner().find_project("a").is_some());
}

#[test]
fn remove_confirmed_twice_drops_entry() {
    let mut config = registry(vec![project("a", "a", None), project("b", "b", None)]);
    let removal = config.remove_project("/root", "a").unwrap();
    let removal = match config.answer_remove(removal, "yes") {
        RemoveStep::ConfirmEntry(r) => r,
        _ => panic!("the directory removal was confirmed"),
    };
    match config.answer_remove(removal, "YES") {
        RemoveStep::DeleteDirectory(d) => assert_eq!(d, "/root/a"),
        _ => panic!("the directory must be deleted"),
    }
    assert!(config.inner().find_project("a").is_none());
    assert_eq!(names(&config), vec!["b"]);
}

#[test]
fn remove_unknown_project() {
    let config = registry(vec![]);
    assert!(matches!(config.remove_project("/root", "a"), Err(RegistryError::NotFound)));
}

#[test]
fn confirmations() {
    assert!(is_confirmation("y"));
    assert!(is_confirmation("yes"));
    assert!(!is_confirmation("Y"));
    assert!(!is_confirmation("n"));
    assert!(!is_confirmation(""));
    assert!(!is_confirmation("yess"));
    assert!(!is_confirmation("ye"));
}

#[test]
fn inspect_scenario() {
    let config = registry(vec![project("a", "a", None)]);
    let folders = vec!["a".to_string(), "b".to_string()];
    assert_eq!(config.inner().get_unregistered_folders(&folders), vec!["b"]);
}

#[test]
fn inspect_keeps_order_and_matches_paths() {
    let config = registry(vec![project("alpha", "x", None), project("b", "web/b", None)]);
    let folders = vec!["z".to_string(), "alpha".to_string(), "x".to_string(), "b".to_string()];
    assert_eq!(config.inner().get_unregistered_folders(&folders), vec!["z", "alpha", "b"]);
    assert!(config.inner().get_unregistered_folders(&Vec::new()).is_empty());
}

#[test]
fn fetchers_by_source_type() {
    assert_eq!(get_fetcher(&git("https://h/a.git")), Some(Fetcher::Git(GitFetcher)));
    let web = Source { source_type: SourceType::Web, url: "https://h".to_string() };
    assert_eq!(get_fetcher(&web), None);
}

#[test]
fn commands_that_save() {
    assert!(Commands::Add { directory: "d".to_string() }.mutates_registry());
    assert!(Commands::Remove { directory: "d".to_string() }.mutates_registry());
    assert!(Commands::AddSource { url: "u".to_string() }.mutates_registry());
    assert!(!Commands::Open { project_name: "p".to_string() }.mutates_registry());
    assert!(!Commands::Pwd { project_name: "p".to_string() }.mutates_registry());
    assert!(!Commands::List { path: true, description: false, languages: false, source: false }
        .mutates_registry());
    assert!(!Commands::Edit.mutates_registry());
    assert!(!Commands::Inspect.mutates_registry());
}

#[test]
fn add_source_command_is_git() {
    let s = git_source("https://h/x.git");
    assert_eq!(s.source_type, SourceType::Git);
    assert_eq!(s.url, "https://h/x.git");
}

#[test]
fn version_is_labelled_with_commit() {
    assert_eq!(version_label("abc123"), "0.1.0-abc123");
}

#[test]
fn config_file_under_config_dir() {
    assert_eq!(
        config_file_path_in("/home/u/.config"),
        "/home/u/.config/project-manager/projects.json"
    );
}

#[test]
fn root_directory_under_home() {
    let config = registry(vec![]);
    assert_eq!(config.root_directory_in("/home/u"), "/home/u/my_projects");
    assert_eq!(config.root_directory_in("/home/u/"), "/home/u/my_projects");
}

#[test]
fn root_and_config_paths_from_environment() {
    let config = registry(vec![]);
    match config.get_root_directory() {
        Ok(root) => assert!(root.ends_with("/my_projects")),
        Err(e) => assert_eq!(e, RegistryError::HomeOrConfigDirUnresolvable),
    }
    match get_config_file_path() {
        Ok(file) => assert!(file.ends_with("/project-manager/projects.json")),
        Err(e) => assert_eq!(e, RegistryError::HomeOrConfigDirUnresolvable),
    }
}

#[test]
fn add_from_source_refuses_only_parent_step() {
    let config = registry(vec![]);
    assert!(matches!(
        config.add_project_from_source(git("https://example.com/..")),
        Err(RegistryError::PathOutsideRoot)
    ));
    assert!(matches!(
        config.add_project_from_source(git("https://example.com/...git")),
        Err(RegistryError::PathOutsideRoot)
    ));
    for (url, path) in [
        ("https://example.com/org/", ""),
        ("https://h/.git", ""),
        ("https://h/.", "."),
        ("", ""),
        ("https://h/..x.git", "..x"),
        ("https://h/...", "..."),
    ] {
        assert_eq!(config.add_project_from_source(git(url)).unwrap().path(), path);
    }
}

#[test]
fn fetch_failures_by_kind() {
    assert_eq!(
        fetch_failure(true, "no agent".to_string()),
        RegistryError::CredentialsError("no agent".to_string())
    );
    assert_eq!(
        fetch_failure(false, "network down".to_string()),
        RegistryError::IoError("network down".to_string())
    );
}

#[test]
fn add_questions() {
    let mut config = registry(vec![]);
    let draft = config.add_project_from_source(git("https://h/q.git")).unwrap();
    assert_eq!(add_question(&draft), "Enter project name: ");
    let draft = match config.answer_add(draft, "q".to_string()) {
        AddStep::AskDescription(d) => d,
        _ => panic!("the name should be accepted"),
    };
    assert_eq!(add_question(&draft), "Enter project description: ");
}

#[test]
fn remove_questions_name_the_project() {
    let mut config = registry(vec![project("site", "site", None)]);
    let removal = config.remove_project("/root", "site").unwrap();
    assert_eq!(remove_question(&removal), "Are you sure you want to remove site? (y/N): ");
    let removal = match config.answer_remove(removal, "y") {
        RemoveStep::ConfirmEntry(r) => r,
        _ => panic!("the directory removal was confirmed"),
    };
    assert_eq!(
        remove_question(&removal),
        "Do you want to remove site from the project list? (y/N): "
    );
}
