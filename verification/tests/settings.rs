use branchgate::settings::{preferred_editor_writes, EditorWrite};
use std::collections::HashMap;

use branchgate::settings::{
    app_settings, editor_row, repo_settings_update, setting_flag, settings_update,
    validate_merge_strategy, AppSettings, UpdateAppSettingsRequest, UpdateRepoSettingsRequest,
};

fn empty_request() -> UpdateAppSettingsRequest {
    UpdateAppSettingsRequest {
        notify_on_conflict: None,
        notify_on_complete: None,
        default_merge_strategy: None,
        managed_clones_root: None,
        share_anonymous_usage: None,
        analytics_consent_decided: None,
    }
}

fn apply(table: &mut HashMap<String, String>, request: &UpdateAppSettingsRequest) -> Result<(), String> {
    let (writes, outcome) = settings_update(request);
    for w in writes {
        match w.value {
            Some(v) => {
                table.insert(w.key, v);
            }
            None => {
                table.remove(&w.key);
            }
        }
    }
    outcome
}

fn read(table: &HashMap<String, String>) -> AppSettings {
    let get = |k: &str| table.get(k).cloned();
    app_settings(
        get("notify_on_conflict"),
        get("notify_on_complete"),
        get("default_merge_strategy"),
        get("managed_clones_root"),
        get("share_anonymous_usage"),
        get("analytics_consent_decided"),
    )
}

#[test]
fn validate_merge_strategy_accepts_the_four_strategies() {
    for s in ["auto", "merge", "squash", "rebase"] {
        assert_eq!(validate_merge_strategy(s), Ok(()));
    }
    assert_eq!(
        validate_merge_strategy("Merge"),
        Err("Merge strategy must be auto, merge, squash, or rebase".to_string())
    );
}

#[test]
fn stored_flags_read_with_their_defaults() {
    assert!(setting_flag(None, true));
    assert!(!setting_flag(None, false));
    assert!(setting_flag(Some(&"true".to_string()), false));
    assert!(!setting_flag(Some(&"false".to_string()), true));
    assert!(!setting_flag(Some(&"0".to_string()), true));
    assert!(setting_flag(Some(&"yes".to_string()), false));
}

#[test]
fn settings_default_when_nothing_is_stored() {
    let s = read(&HashMap::new());
    assert!(s.notify_on_conflict && s.notify_on_complete);
    assert!(s.share_anonymous_usage && s.analytics_consent_decided);
    assert_eq!(s.default_merge_strategy, "auto");
    assert_eq!(s.managed_clones_root, None);
}

#[test]
fn settings_read_back_what_an_update_wrote() {
    let mut table = HashMap::new();
    table.insert("notify_on_complete".to_string(), "0".to_string());
    let mut request = empty_request();
    request.notify_on_conflict = Some(false);
    request.default_merge_strategy = Some("squash".into());
    request.managed_clones_root = Some("  /srv/clones  ".into());
    request.analytics_consent_decided = Some(false);
    assert_eq!(apply(&mut table, &request), Ok(()));
    let s = read(&table);
    assert!(!s.notify_on_conflict);
    assert!(!s.notify_on_complete);
    assert_eq!(s.default_merge_strategy, "squash");
    assert_eq!(s.managed_clones_root, Some("/srv/clones".into()));
    assert!(s.share_anonymous_usage);
    assert!(!s.analytics_consent_decided);
}

#[test]
fn blank_clones_root_clears_it() {
    let mut table = HashMap::new();
    table.insert("managed_clones_root".to_string(), "/old".to_string());
    let mut request = empty_request();
    request.managed_clones_root = Some("   ".into());
    assert_eq!(apply(&mut table, &request), Ok(()));
    assert_eq!(read(&table).managed_clones_root, None);
}

#[test]
fn invalid_strategy_stops_the_update_after_the_notifications() {
    let mut request = empty_request();
    request.notify_on_conflict = Some(true);
    request.default_merge_strategy = Some("octopus".into());
    request.share_anonymous_usage = Some(false);
    let (writes, outcome) = settings_update(&request);
    assert_eq!(outcome, Err("Merge strategy must be auto, merge, squash, or rebase".to_string()));
    assert_eq!(writes.len(), 1);
    assert_eq!(writes[0].key, "notify_on_conflict");
    assert_eq!(writes[0].value, Some("1".into()));
}

#[test]
fn repo_settings_accept_local_or_managed_copies() {
    let request = |mode: Option<&str>, strategy: Option<&str>| UpdateRepoSettingsRequest {
        repo_id: 3,
        working_copy_mode: mode.map(|m| m.to_string()),
        default_merge_strategy: strategy.map(|s| s.to_string()),
    };
    let (writes, outcome) = repo_settings_update(&request(Some("cloud"), Some("merge")));
    assert!(writes.is_empty());
    assert_eq!(outcome, Err("Invalid working copy mode".to_string()));
    let (writes, outcome) = repo_settings_update(&request(Some("managed"), None));
    assert_eq!(outcome, Ok(()));
    assert_eq!(writes.len(), 1);
    assert_eq!((writes[0].column.as_str(), writes[0].value.as_str()), ("working_copy_mode", "managed"));
    let (writes, outcome) = repo_settings_update(&request(Some("existing_local"), Some("rebase")));
    assert_eq!(outcome, Ok(()));
    let cols: Vec<(String, String)> = writes.into_iter().map(|w| (w.column, w.value)).collect();
    assert_eq!(
        cols,
        vec![
            ("working_copy_mode".to_string(), "existing_local".to_string()),
            ("default_merge_strategy".to_string(), "rebase".to_string()),
        ]
    );
    let (writes, outcome) = repo_settings_update(&request(None, Some("nope")));
    assert!(writes.is_empty());
    assert!(outcome.is_err());
}

#[test]
fn editor_row_reads_the_preference_flag() {
    let row = editor_row(1, "VS Code".into(), "code".into(), None, 2, Some(10));
    assert!(row.is_preferred);
    let row = editor_row(1, "VS Code".into(), "code".into(), None, 0, None);
    assert!(!row.is_preferred);
}

#[test]
fn editor_and_repository_must_exist() {
    assert_eq!(branchgate::settings::check_editor_exists(false), Err("Editor not found".into()));
    assert_eq!(branchgate::settings::check_editor_exists(true), Ok(()));
    assert_eq!(branchgate::settings::check_repo_removed(0), Err("Repository not found".into()));
    assert_eq!(branchgate::settings::check_repo_removed(2), Ok(()));
}

#[test]
fn preferring_an_editor_unmarks_the_others_first() {
    assert_eq!(
        preferred_editor_writes(7, true),
        Ok(vec![EditorWrite::ClearPreferred, EditorWrite::Prefer { id: 7 }])
    );
    assert_eq!(preferred_editor_writes(7, false), Err("Editor not found".to_string()));
}
