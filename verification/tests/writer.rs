use mindwtr_store::document::{encode_pretty, parse_relaxed};
use mindwtr_store::error::StoreError;
use mindwtr_store::paths::{
    app_name, backup_path, config_file_name, data_file_name, default_sync_parent,
    legacy_config_file_name, legacy_sync_file_name, secrets_file_name, temp_path,
};
use mindwtr_store::writer::{after_action, plan_write, FileAction};
use std::collections::BTreeMap;

fn perform(files: &mut BTreeMap<String, String>, action: &FileAction) {
    match action {
        FileAction::EnsureParentDir { .. } => {}
        FileAction::Backup { from, to } => {
            if let Some(content) = files.get(from).cloned() {
                files.insert(to.clone(), content);
            }
        }
        FileAction::WriteDurable { path, content } => {
            files.insert(path.clone(), content.clone());
        }
        FileAction::Remove { path } => {
            files.remove(path);
        }
        FileAction::Rename { from, to } => {
            if let Some(content) = files.remove(from) {
                files.insert(to.clone(), content);
            }
        }
    }
}

fn write(files: &mut BTreeMap<String, String>, path: &str, content: &str, rename_replaces: bool) {
    let plan = plan_write(path, content, files.contains_key(path), rename_replaces);
    for action in &plan {
        perform(files, action);
    }
}

#[test]
fn file_names_are_fixed() {
    assert_eq!(app_name(), "mindwtr");
    assert_eq!(config_file_name(), "config.toml");
    assert_eq!(secrets_file_name(), "secrets.toml");
    assert_eq!(data_file_name(), "data.json");
    assert_eq!(legacy_config_file_name(), "config.json");
    assert_eq!(legacy_sync_file_name(), "mindwtr-sync.json");
    assert_eq!(default_sync_parent(), "Sync");
    assert_eq!(backup_path("/d/data.json"), "/d/data.json.bak");
    assert_eq!(temp_path("/d/data.json"), "/d/data.json.tmp");
    assert_eq!(backup_path(""), ".bak");
}

#[test]
fn first_write_stages_and_renames() {
    let plan = plan_write("/d/data.json", "new", false, true);
    assert_eq!(
        plan,
        vec![
            FileAction::EnsureParentDir { of: "/d/data.json".to_string() },
            FileAction::WriteDurable { path: "/d/data.json.tmp".to_string(), content: "new".to_string() },
            FileAction::Rename { from: "/d/data.json.tmp".to_string(), to: "/d/data.json".to_string() },
        ]
    );
    assert_eq!(plan_write("/d/data.json", "new", false, false), plan);
}

#[test]
fn later_write_backs_up_first() {
    assert_eq!(
        plan_write("p", "c", true, true),
        vec![
            FileAction::EnsureParentDir { of: "p".to_string() },
            FileAction::Backup { from: "p".to_string(), to: "p.bak".to_string() },
            FileAction::WriteDurable { path: "p.tmp".to_string(), content: "c".to_string() },
            FileAction::Rename { from: "p.tmp".to_string(), to: "p".to_string() },
        ]
    );
}

#[test]
fn target_is_removed_where_rename_cannot_replace() {
    assert_eq!(
        plan_write("p", "c", true, false),
        vec![
            FileAction::EnsureParentDir { of: "p".to_string() },
            FileAction::Backup { from: "p".to_string(), to: "p.bak".to_string() },
            FileAction::WriteDurable { path: "p.tmp".to_string(), content: "c".to_string() },
            FileAction::Remove { path: "p".to_string() },
            FileAction::Rename { from: "p.tmp".to_string(), to: "p".to_string() },
        ]
    );
}

#[test]
fn second_write_leaves_first_in_backup() {
    for rename_replaces in [true, false] {
        let mut files = BTreeMap::new();
        files.insert("other".to_string(), "untouched".to_string());
        write(&mut files, "data.json", "{\"v\":\"A\"}", rename_replaces);
        assert_eq!(files.get("data.json").map(String::as_str), Some("{\"v\":\"A\"}"));
        assert_eq!(files.get("data.json.bak"), None);
        write(&mut files, "data.json", "{\"v\":\"B\"}", rename_replaces);
        assert_eq!(files.get("data.json").map(String::as_str), Some("{\"v\":\"B\"}"));
        assert_eq!(files.get("data.json.bak").map(String::as_str), Some("{\"v\":\"A\"}"));
        assert_eq!(files.get("data.json.tmp"), None);
        assert_eq!(files.get("other").map(String::as_str), Some("untouched"));
        assert_eq!(files.len(), 3);
    }
}

#[test]
fn second_document_is_read_back_and_first_is_in_backup() {
    let a = parse_relaxed("{\"tasks\":[\"A\"],\"projects\":[],\"settings\":{}}").unwrap();
    let b = parse_relaxed("{\"tasks\":[\"B\"],\"projects\":[],\"settings\":{}}").unwrap();
    let mut files = BTreeMap::new();
    write(&mut files, "/data/data.json", &encode_pretty(&a).unwrap(), true);
    write(&mut files, "/data/data.json", &encode_pretty(&b).unwrap(), true);
    assert_eq!(parse_relaxed(&files["/data/data.json"]).unwrap(), b);
    assert_eq!(parse_relaxed(&files["/data/data.json.bak"]).unwrap(), a);
    assert_ne!(a, b);
}

#[test]
fn crash_leaves_old_or_new_content_where_rename_replaces() {
    let mut start = BTreeMap::new();
    start.insert("p".to_string(), "old".to_string());
    let plan = plan_write("p", "new", true, true);
    for stop in 0..=plan.len() {
        let mut files = start.clone();
        for action in &plan[..stop] {
            perform(&mut files, action);
        }
        let found = files.get("p").map(String::as_str);
        assert!(found == Some("old") || found == Some("new"), "after {} steps: {:?}", stop, found);
    }
}

#[test]
fn crash_between_remove_and_rename_leaves_nothing_at_the_path() {
    let mut start = BTreeMap::new();
    start.insert("p".to_string(), "old".to_string());
    let plan = plan_write("p", "new", true, false);
    let mut gaps = Vec::new();
    for stop in 0..=plan.len() {
        let mut files = start.clone();
        for action in &plan[..stop] {
            perform(&mut files, action);
        }
        match files.get("p").map(String::as_str) {
            Some("old") | Some("new") => {}
            None => {
                gaps.push(stop);
                assert_eq!(files.get("p.bak").map(String::as_str), Some("old"));
                assert_eq!(files.get("p.tmp").map(String::as_str), Some("new"));
            }
            other => panic!("{:?}", other),
        }
    }
    assert_eq!(gaps, vec![4]);
}

#[test]
fn failed_backup_does_not_stop_the_write() {
    let backup = FileAction::Backup { from: "p".to_string(), to: "p.bak".to_string() };
    assert!(backup.is_advisory());
    assert_eq!(after_action(&backup, Err("denied".to_string())), Ok(()));
    assert_eq!(after_action(&backup, Ok(())), Ok(()));
}

#[test]
fn write_completes_without_its_backup() {
    let mut files = BTreeMap::new();
    files.insert("p".to_string(), "old".to_string());
    files.insert("p.bak".to_string(), "older".to_string());
    let plan = plan_write("p", "new", true, true);
    for action in &plan {
        let outcome = if action.is_advisory() {
            Err("backup refused".to_string())
        } else {
            perform(&mut files, action);
            Ok(())
        };
        assert_eq!(after_action(action, outcome), Ok(()));
    }
    assert_eq!(files.get("p").map(String::as_str), Some("new"));
    assert_eq!(files.get("p.bak").map(String::as_str), Some("older"));
    assert_eq!(files.get("p.tmp"), None);
}

#[test]
fn failed_staging_leaves_the_target_alone() {
    let mut files = BTreeMap::new();
    files.insert("p".to_string(), "old".to_string());
    let plan = plan_write("p", "new", true, false);
    let mut result = Ok(());
    for action in &plan {
        let outcome = if matches!(action, FileAction::WriteDurable { .. }) {
            Err("disk full".to_string())
        } else {
            perform(&mut files, action);
            Ok(())
        };
        result = after_action(action, outcome);
        if result.is_err() {
            break;
        }
    }
    assert_eq!(result, Err(StoreError::Io("disk full".to_string())));
    assert_eq!(files.get("p").map(String::as_str), Some("old"));
    assert_eq!(files.get("p.bak").map(String::as_str), Some("old"));
}

#[test]
fn other_failures_stop_the_write_with_io() {
    let steps = vec![
        FileAction::EnsureParentDir { of: "p".to_string() },
        FileAction::WriteDurable { path: "p.tmp".to_string(), content: "c".to_string() },
        FileAction::Remove { path: "p".to_string() },
        FileAction::Rename { from: "p.tmp".to_string(), to: "p".to_string() },
    ];
    for step in &steps {
        assert!(!step.is_advisory());
        assert_eq!(after_action(step, Ok(())), Ok(()));
        assert_eq!(after_action(step, Err("disk full".to_string())), Err(StoreError::Io("disk full".to_string())));
    }
}
