use std::path::PathBuf;

use codexbar::location::{
    cursor_state_db_path, cursor_state_db_path_from, usage_data_dir_from, usage_log_path,
    usage_log_path_from, Ancestor, Location,
};

fn ancestor(path: &str, has_git: bool, has_manifest: bool) -> Ancestor {
    Ancestor { path: PathBuf::from(path), has_git, has_manifest }
}

fn way(root: bool) -> Vec<Ancestor> {
    vec![
        ancestor("/work/app/bin/tool", false, false),
        ancestor("/work/app/bin", true, false),
        ancestor("/work/app", root, true),
        ancestor("/work", root, root),
        ancestor("/", false, false),
    ]
}

fn shown(location: Option<Location>) -> Option<(String, Vec<String>)> {
    location.map(|l| (l.base.display().to_string(), l.parts))
}

fn expected(base: &str, parts: &[&str]) -> Option<(String, Vec<String>)> {
    Some((base.to_string(), parts.iter().map(|p| p.to_string()).collect()))
}

#[test]
fn log_is_kept_at_the_nearest_repository_root() {
    assert_eq!(
        shown(usage_log_path(Some(way(true)))),
        expected("/work/app", &["data", "usage-log.jsonl"])
    );
}

#[test]
fn log_is_kept_beside_the_program_without_a_repository() {
    assert_eq!(
        shown(usage_log_path(Some(way(false)))),
        expected("/work/app/bin", &["data", "usage-log.jsonl"])
    );
}

#[test]
fn log_is_kept_in_the_configuration_otherwise() {
    let config = || Some(PathBuf::from("/home/me/.config"));
    let wanted = expected("/home/me/.config", &["CodexBar", "data", "usage-log.jsonl"]);
    assert_eq!(shown(usage_log_path_from(None, config())), wanted);
    let root_only = vec![ancestor("/", false, false)];
    assert_eq!(shown(usage_log_path_from(Some(root_only), config())), wanted);
    assert_eq!(shown(usage_log_path_from(None, None)), None);
    assert_eq!(
        shown(usage_data_dir_from(None, config())),
        expected("/home/me/.config", &["CodexBar", "data"])
    );
}

#[test]
fn configuration_directory_is_the_users() {
    let base = dirs::config_dir();
    assert_eq!(usage_log_path(None).map(|l| l.base), base);
    assert_eq!(cursor_state_db_path().map(|l| l.base), base);
}

#[test]
fn cursor_keeps_its_state_below_the_configuration() {
    assert_eq!(
        shown(cursor_state_db_path_from(Some(PathBuf::from("/c")))),
        expected("/c", &["Cursor", "User", "globalStorage", "state.vscdb"])
    );
    assert_eq!(shown(cursor_state_db_path_from(None)), None);
}
