use bearminder::greet;
use bearminder::locate::{bear_db_candidates, first_existing};
use bearminder::paths::{get_paths, join_path, repo_root, status_path};
use bearminder::sync::{
    choose_python, dry_run_env_value, sync_command_args, u32_to_string, SyncArgs,
};

fn strings(parts: &[&str]) -> Vec<String> {
    parts.iter().map(|s| s.to_string()).collect()
}

#[test]
fn greet_formats_name() {
    assert_eq!(greet("World"), "Hello, World! You've been greeted from Rust!");
    assert_eq!(greet(""), "Hello, ! You've been greeted from Rust!");
}

#[test]
fn repo_root_drops_two_components() {
    let dir = strings(&["", "Users", "me", "proj", "gui", "src-tauri"]);
    let root = repo_root(&dir).unwrap();
    assert_eq!(root, strings(&["", "Users", "me", "proj"]));
}

#[test]
fn repo_root_too_shallow_errors() {
    let dir = strings(&["src-tauri"]);
    let e = repo_root(&dir).unwrap_err();
    assert_eq!(e, "Failed to resolve repository root");
}

#[test]
fn join_path_concatenates() {
    assert_eq!(join_path(&strings(&[])), "");
    assert_eq!(join_path(&strings(&["a"])), "a");
    assert_eq!(join_path(&strings(&["", "Users", "me"])), "/Users/me");
}

#[test]
fn paths_under_root() {
    let root = strings(&["", "Users", "me", "proj"]);
    let p = get_paths(&root);
    assert_eq!(p.repo_root, "/Users/me/proj");
    assert_eq!(p.config_path, "/Users/me/proj/config.yaml");
    assert_eq!(p.data_dir, "/Users/me/proj/data");
    assert_eq!(status_path(&root), "/Users/me/proj/data/status.json");
}

#[test]
fn numeral_rendering() {
    assert_eq!(u32_to_string(0), "0");
    assert_eq!(u32_to_string(7), "7");
    assert_eq!(u32_to_string(24), "24");
    assert_eq!(u32_to_string(1000000), "1000000");
    assert_eq!(u32_to_string(u32::MAX), "4294967295");
}

#[test]
fn sync_args_basic() {
    let argv = sync_command_args(&SyncArgs { since_hours: 1, ignore_last_sync: false, dry_run: false });
    assert_eq!(argv, strings(&["-m", "bearminder.main", "sync-once", "--since-hours", "1"]));
}

#[test]
fn sync_args_with_ignore_flag() {
    let argv = sync_command_args(&SyncArgs { since_hours: 48, ignore_last_sync: true, dry_run: true });
    assert_eq!(
        argv,
        strings(&["-m", "bearminder.main", "sync-once", "--since-hours", "48", "--ignore-last-sync"])
    );
}

#[test]
fn dry_run_values() {
    assert_eq!(dry_run_env_value(true), "true");
    assert_eq!(dry_run_env_value(false), "false");
}

#[test]
fn python_selection() {
    assert_eq!(choose_python("/r/.venv/bin/python".to_string(), true, true), "/r/.venv/bin/python");
    assert_eq!(choose_python("/r/.venv/bin/python".to_string(), false, true), "python3");
    assert_eq!(choose_python("/r/.venv/bin/python".to_string(), false, false), "python");
}

#[test]
fn first_existing_picks_earliest() {
    let paths = strings(&["a", "b", "c"]);
    assert_eq!(first_existing(&paths, &vec![false, true, true]), Some("b".to_string()));
    assert_eq!(first_existing(&paths, &vec![true, false, false]), Some("a".to_string()));
    assert_eq!(first_existing(&paths, &vec![false, false, false]), None);
    assert_eq!(first_existing(&strings(&[]), &vec![]), None);
}

#[test]
fn candidate_list_is_fixed() {
    let c = bear_db_candidates();
    assert_eq!(c.len(), 3);
    assert!(c[0].contains("9K33E3U3T4.net.shinyfrog.bear"));
    assert!(c[1].contains("2ELUDT6HF6.com.shinyfrog.bear"));
    assert!(c[2].contains("Containers/net.shinyfrog.bear"));
    assert!(c.iter().all(|p| p.starts_with("~/Library/") && p.ends_with("database.sqlite")));
}
