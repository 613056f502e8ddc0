use rustytime::db::{is_sqlite_url, path_to_url, resolve_db_url, url_to_fs_path};

#[test]
fn is_sqlite_url_looks_for_the_scheme() {
    assert!(is_sqlite_url("sqlite:timey.db"));
    assert!(is_sqlite_url("sqlite://timey.db"));
    assert!(is_sqlite_url("sqlite:///var/lib/timey.db"));
    assert!(is_sqlite_url("sqlite:"));
    assert!(!is_sqlite_url("timey.db"));
    assert!(!is_sqlite_url("postgres://localhost/timey"));
    assert!(!is_sqlite_url("SQLITE:timey.db"));
    assert!(!is_sqlite_url(""));
}

#[test]
fn url_to_fs_path_drops_the_scheme() {
    assert_eq!(url_to_fs_path("sqlite:///abs/path.db"), Some("/abs/path.db".to_string()));
    assert_eq!(url_to_fs_path("sqlite://relative.db"), Some("relative.db".to_string()));
    assert_eq!(url_to_fs_path("sqlite:relative.db"), Some("relative.db".to_string()));
    assert_eq!(url_to_fs_path("sqlite:dir/relative.db"), Some("dir/relative.db".to_string()));
    assert_eq!(url_to_fs_path("sqlite:"), Some(String::new()));
    assert_eq!(url_to_fs_path("sqlite:///"), Some("/".to_string()));
}

#[test]
fn url_to_fs_path_refuses_other_texts() {
    assert_eq!(url_to_fs_path("relative.db"), None);
    assert_eq!(url_to_fs_path("/abs/path.db"), None);
    assert_eq!(url_to_fs_path("mysql://host/db"), None);
    assert_eq!(url_to_fs_path(""), None);
}

#[test]
fn path_to_url_marks_absolute_paths() {
    assert_eq!(path_to_url("/abs/path.db", true), "sqlite:///abs/path.db");
    assert_eq!(path_to_url("relative.db", false), "sqlite:relative.db");
}

#[test]
fn resolve_db_url_prefers_the_environment() {
    let (url, path) = resolve_db_url(Some("sqlite:///env/e.db"), Some("cli.db"), "/d/default.db");
    assert_eq!(url, "sqlite:///env/e.db");
    assert_eq!(path, "/env/e.db");
}

#[test]
fn resolve_db_url_passes_over_an_environment_that_is_no_sqlite_url() {
    let (url, path) = resolve_db_url(Some("postgres://h/db"), Some("cli.db"), "/d/default.db");
    assert_eq!(url, "sqlite:cli.db");
    assert_eq!(path, "cli.db");
}

#[test]
fn resolve_db_url_takes_a_url_from_the_command_line_as_it_is() {
    let (url, path) = resolve_db_url(None, Some("sqlite://timey.db"), "/d/default.db");
    assert_eq!(url, "sqlite://timey.db");
    assert_eq!(path, "timey.db");
}

#[test]
fn resolve_db_url_makes_a_url_from_a_path() {
    let (url, path) = resolve_db_url(None, Some("/var/lib/timey.db"), "/d/default.db");
    assert_eq!(url, "sqlite:///var/lib/timey.db");
    assert_eq!(path, "/var/lib/timey.db");
    let (url, path) = resolve_db_url(None, Some("timey.db"), "/d/default.db");
    assert_eq!(url, "sqlite:timey.db");
    assert_eq!(path, "timey.db");
}

#[test]
fn resolve_db_url_falls_back_to_the_default() {
    let (url, path) = resolve_db_url(None, None, "/home/u/.local/share/rustytime/rustytime.db");
    assert_eq!(url, "sqlite:///home/u/.local/share/rustytime/rustytime.db");
    assert_eq!(path, "/home/u/.local/share/rustytime/rustytime.db");
    let (url, path) = resolve_db_url(None, None, ".rustytime/rustytime.db");
    assert_eq!(url, "sqlite:.rustytime/rustytime.db");
    assert_eq!(path, ".rustytime/rustytime.db");
}
