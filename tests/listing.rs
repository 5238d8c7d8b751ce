use project_manager::config::Config;
use project_manager::listing::{project_table, sorted_order, Columns};
use project_manager::parse::{Project, ProjectConfig, Source, SourceType};
use project_manager::text::{join, text_eq, text_less};

fn project(name: &str, description: Option<&str>, languages: &[&str], url: Option<&str>) -> Project {
    Project {
        name: name.to_string(),
        path: format!("p_{}", name),
        description: description.map(|d| d.to_string()),
        languages: languages.iter().map(|l| l.to_string()).collect(),
        source: url.map(|u| Source { source_type: SourceType::Git, url: u.to_string() }),
    }
}

fn config_of(projects: Vec<Project>) -> Config {
    let mut cfg = ProjectConfig::new();
    for p in projects {
        cfg.add_project(p);
    }
    Config::new(Some(cfg))
}

fn column<'a>(rows: &'a [Vec<String>], k: usize) -> Vec<&'a str> {
    rows.iter().map(|r| r[k].as_str()).collect()
}

#[test]
fn list_orders_names_without_case() {
    let config = config_of(vec![
        project("beta", None, &[], None),
        project("Alpha", None, &[], None),
        project("Gamma", None, &[], None),
        project("alpha", None, &[], None),
    ]);
    let table = config.list_projects(false, false, false, false);
    assert!(table.header.is_empty());
    assert_eq!(column(&table.rows, 0), vec!["Alpha", "alpha", "beta", "Gamma"]);
    assert!(table.rows.iter().all(|r| r.len() == 1));
}

#[test]
fn list_all_columns() {
    let config = config_of(vec![
        project("b", Some("second"), &["Rust", "C"], Some("https://h/b.git")),
        project("a", None, &[], None),
    ]);
    let table = config.list_projects(true, true, true, true);
    assert_eq!(table.header, vec!["Name", "Path", "Description", "Languages", "Source"]);
    assert_eq!(table.rows[0], vec!["a", "p_a", "", "", ""]);
    assert_eq!(table.rows[1], vec!["b", "p_b", "second", "Rust, C", "https://h/b.git"]);
}

#[test]
fn list_some_columns() {
    let config = config_of(vec![project("x", Some("d"), &["Go"], Some("u"))]);
    let table = config.list_projects(false, false, true, true);
    assert_eq!(table.header, vec!["Name", "Languages", "Source"]);
    assert_eq!(table.rows, vec![vec!["x".to_string(), "Go".to_string(), "u".to_string()]]);
    let table = config.list_projects(false, true, false, false);
    assert_eq!(table.header, vec!["Name", "Description"]);
    assert_eq!(table.rows, vec![vec!["x".to_string(), "d".to_string()]]);
}

#[test]
fn list_empty_registry() {
    let config = config_of(vec![]);
    let table = config.list_projects(true, false, false, false);
    assert_eq!(table.header, vec!["Name", "Path"]);
    assert!(table.rows.is_empty());
}

#[test]
fn sorted_order_is_stable() {
    let keys: Vec<String> = ["b", "a", "b", "", "a"].iter().map(|s| s.to_string()).collect();
    assert_eq!(sorted_order(&keys), vec![3, 1, 4, 0, 2]);
    assert!(sorted_order(&Vec::new()).is_empty());
}

#[test]
fn table_follows_given_keys() {
    let projects = vec![project("one", None, &[], None), project("two", None, &[], None)];
    let keys = vec!["z".to_string(), "a".to_string()];
    let cols = Columns { path: true, description: false, languages: false, source: false };
    let table = project_table(&projects, &keys, cols);
    assert_eq!(column(&table.rows, 0), vec!["two", "one"]);
    assert_eq!(column(&table.rows, 1), vec!["p_two", "p_one"]);
}

#[test]
fn text_helpers() {
    assert!(text_eq("abc", "abc"));
    assert!(!text_eq("abc", "abd"));
    assert!(!text_eq("ab", "abc"));
    assert!(text_less("ab", "abc"));
    assert!(text_less("abc", "abd"));
    assert!(!text_less("b", "abc"));
    assert!(!text_less("abc", "abc"));
    assert!(text_less("Z", "a"));
    assert!(text_less("z", "é"));
    let parts = vec!["a".to_string(), "b".to_string(), "c".to_string()];
    assert_eq!(join(&parts, ", "), "a, b, c");
    assert_eq!(join(&Vec::new(), ", "), "");
    assert_eq!(join(&vec!["x".to_string()], "/"), "x");
}
