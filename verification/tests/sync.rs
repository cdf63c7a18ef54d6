use branchgate::git::runner::CommandOutput;
use branchgate::git::{cherry_on_target, DiffStats, GitCommit};
use branchgate::sync::local::{enrich_unit, parse_ticket_ref, unit_from_commit, units_from_commits};
use branchgate::sync::{
    checklist_item, checklist_item_with, plan_sync, pr_commit_rows, promotion_upsert, pull_request_record,
    stale_pending, sync_status, sync_target, ChecklistRow, PendingRow, PipelineContext,
    PromotionUpsert, StatusCounts, SyncStateRow,
};

fn commit(sha: &str, subject: &str, parents: usize) -> GitCommit {
    GitCommit {
        sha: sha.to_string(),
        subject: subject.to_string(),
        author: "Ada".to_string(),
        authored_at: 1_700_000_000,
        parent_count: parents,
    }
}

fn no_diff() -> DiffStats {
    DiffStats { files_changed: 0, insertions: 0, deletions: 0, changed_files: Vec::new() }
}

fn context(kind: &str, local_path: Option<&str>) -> Option<PipelineContext> {
    Some(PipelineContext {
        repo_id: 1,
        source_branch: "develop".into(),
        target_branch: "main".into(),
        local_path: local_path.map(|p| p.to_string()),
        kind: kind.into(),
    })
}

fn checklist_row(changed_files_json: &str, files_changed: i64) -> ChecklistRow {
    ChecklistRow {
        pr_id: 9,
        merge_commit_sha: "abc".into(),
        title: "Add login".into(),
        author: Some("Ada".into()),
        ticket_ref: Some("AUTH-1".into()),
        merge_strategy: Some("merge".into()),
        merged_at: Some(5),
        status: "pending".into(),
        files_changed,
        insertions: 7,
        deletions: -3,
        changed_files_json: changed_files_json.into(),
    }
}

#[test]
fn parse_ticket_ref_finds_jira_and_linear_references() {
    assert_eq!(parse_ticket_ref("Merge pull request #12 from ABC-123"), Some("ABC-123".into()));
    assert_eq!(parse_ticket_ref("team-42: tidy"), None);
    assert_eq!(parse_ticket_ref("fix team-42 now"), Some("team-42".into()));
    assert_eq!(parse_ticket_ref("-12 a-b x-1"), Some("x-1".into()));
    assert_eq!(parse_ticket_ref("no ticket here"), None);
}

#[test]
fn parse_ticket_ref_edge_cases() {
    assert_eq!(parse_ticket_ref("A-"), None);
    assert_eq!(parse_ticket_ref("AB-"), None);
    assert_eq!(parse_ticket_ref("WIP- cleanup"), None);
    assert_eq!(parse_ticket_ref("-123"), None);
    assert_eq!(parse_ticket_ref("A-1"), Some("A-1".into()));
    assert_eq!(parse_ticket_ref("A-1b ok-2"), Some("ok-2".into()));
}

#[test]
fn units_follow_commits_and_name_their_strategy() {
    let units = units_from_commits(vec![commit("m1", "Merge pull request #1", 2), commit("s1", "Squashed", 1)]);
    assert_eq!(units.len(), 2);
    assert_eq!(units[0].merge_strategy, "merge");
    assert_eq!(units[1].merge_strategy, "squash");
    assert_eq!(units[1].commit_shas, vec!["s1"]);
    assert!(units[1].patch_ids.is_empty());
    assert_eq!(units[0].merged_at, 1_700_000_000);
}

#[test]
fn enrich_unit_records_patch_and_diff() {
    let mut unit = unit_from_commit(commit("m1", "Merge", 2));
    let diff = DiffStats { files_changed: 1, insertions: 4, deletions: 2, changed_files: vec!["a.rs".into()] };
    enrich_unit(&mut unit, "p1".into(), diff);
    assert_eq!(unit.patch_ids, vec!["p1"]);
    assert_eq!(unit._diff.insertions, 4);
    assert_eq!(unit.merge_commit_sha, "m1");
    let rows = pr_commit_rows(&unit);
    assert_eq!(rows, vec![("m1".to_string(), "p1".to_string())]);
}

#[test]
fn pr_commit_rows_stop_at_the_shorter_list() {
    let unit = unit_from_commit(commit("m1", "Merge", 2));
    assert!(pr_commit_rows(&unit).is_empty());
}

#[test]
fn sync_target_explains_each_refusal() {
    assert_eq!(sync_target(&None), Err("Pipeline not found".into()));
    assert_eq!(
        sync_target(&context("github", Some("/r"))),
        Err("Only local repositories can be synced right now".into())
    );
    assert_eq!(sync_target(&context("local", None)), Err("Repository has no local path".into()));
    assert_eq!(sync_target(&context("local", Some("/r"))), Ok("/r".into()));
}

#[test]
fn plan_sync_counts_promoted_and_pending_units() {
    let out = CommandOutput { success: true, stdout: "- m1 one\n+ m2 two\n".into(), stderr: String::new() };
    let cherry = cherry_on_target(&out).unwrap();
    let units = units_from_commits(vec![commit("m1", "a", 2), commit("m2", "b", 2), commit("m3", "c", 1)]);
    let plan = plan_sync(&units, &cherry);
    assert_eq!(plan.on_target, vec![true, false, false]);
    assert_eq!(plan.promoted_count, 1);
    assert_eq!(plan.pending_count, 2);
}

#[test]
fn promotion_upsert_leaves_settled_changes_alone() {
    assert_eq!(promotion_upsert(Some("conflict"), None, true, 50), PromotionUpsert::Keep);
    assert_eq!(promotion_upsert(Some("selected"), None, false, 50), PromotionUpsert::Keep);
    assert_eq!(promotion_upsert(Some("promoted"), Some(7), true, 50), PromotionUpsert::Keep);
    assert_eq!(promotion_upsert(Some("pending"), None, true, 50), PromotionUpsert::Promoted { promoted_at: 50 });
    assert_eq!(promotion_upsert(Some("skipped"), None, false, 50), PromotionUpsert::Pending);
    assert_eq!(promotion_upsert(None, None, false, 50), PromotionUpsert::Pending);
    assert_eq!(promotion_upsert(None, None, true, 50), PromotionUpsert::Promoted { promoted_at: 50 });
}

#[test]
fn a_refresh_keeps_an_earlier_promotion_time() {
    assert_eq!(promotion_upsert(Some("pending"), Some(12), true, 50), PromotionUpsert::Promoted { promoted_at: 12 });
}

#[test]
fn stale_pending_lists_changes_gone_from_the_source() {
    let units = units_from_commits(vec![commit("m1", "a", 2)]);
    let rows = vec![
        PendingRow { pr_id: 1, merge_commit_sha: "m1".into() },
        PendingRow { pr_id: 2, merge_commit_sha: "old".into() },
        PendingRow { pr_id: 3, merge_commit_sha: "older".into() },
    ];
    assert_eq!(stale_pending(&rows, &units), vec![2, 3]);
}

#[test]
fn pull_request_record_writes_changed_files_as_json() {
    let mut unit = unit_from_commit(commit("m1", "Fix AUTH-7 login", 2));
    let diff = DiffStats {
        files_changed: 2,
        insertions: 10,
        deletions: 1,
        changed_files: vec!["src/a.rs".into(), "b \"q\".txt".into()],
    };
    enrich_unit(&mut unit, "p".into(), diff);
    let record = pull_request_record(&unit);
    assert_eq!(record.ticket_ref, Some("AUTH-7".into()));
    assert_eq!(record.changed_files_json, r#"["src/a.rs","b \"q\".txt"]"#);
    assert_eq!((record.files_changed, record.insertions, record.deletions), (2, 10, 1));
    let empty = pull_request_record(&unit_from_commit(commit("s", "plain", 1)));
    assert_eq!(empty.changed_files_json, "[]");
    assert_eq!(empty.ticket_ref, None);
}

#[test]
fn checklist_item_reads_changed_files_back() {
    let item = checklist_item(checklist_row(r#"["a.rs","dir/b.rs"]"#, 2));
    assert_eq!(item.changed_files, vec!["a.rs", "dir/b.rs"]);
    assert_eq!(item.files_changed, 2);
    assert_eq!(item.insertions, 7);
    assert_eq!(item.deletions, 0);
    assert_eq!(item.ticket_ref, Some("AUTH-1".into()));
}

#[test]
fn checklist_item_shows_no_files_for_unreadable_json() {
    let item = checklist_item(checklist_row("not json", -1));
    assert!(item.changed_files.is_empty());
    assert_eq!(item.files_changed, 0);
}

#[test]
fn sync_status_compares_recorded_and_live_heads() {
    let counts = StatusCounts { pending_count: Some(3), promoted_count: None };
    let state = || {
        Some(SyncStateRow {
            source_head_sha: Some("s1".into()),
            target_head_sha: Some("t1".into()),
            last_synced_at: Some(100),
        })
    };
    let same = sync_status("local", &counts, state(), Some(("s1".into(), "t1".into())));
    assert!(!same.needs_sync);
    assert_eq!((same.pending_count, same.promoted_count, same.synced_at), (3, 0, Some(100)));
    let moved = sync_status("local", &counts, state(), Some(("s2".into(), "t1".into())));
    assert!(moved.needs_sync);
    assert_eq!(moved.source_head, Some("s2".into()));
    let never = sync_status("local", &counts, None, Some(("s1".into(), "t1".into())));
    assert!(never.needs_sync);
    assert_eq!(never.synced_at, None);
}

#[test]
fn sync_status_without_live_heads_shows_the_recorded_ones() {
    let counts = StatusCounts { pending_count: None, promoted_count: Some(4) };
    let state = Some(SyncStateRow {
        source_head_sha: Some("s1".into()),
        target_head_sha: None,
        last_synced_at: Some(7),
    });
    let status = sync_status("github", &counts, state, Some(("x".into(), "y".into())));
    assert!(status.needs_sync);
    assert_eq!(status.source_head, Some("s1".into()));
    assert_eq!(status.target_head, None);
    assert_eq!(status.promoted_count, 4);
}

#[test]
fn pull_request_record_writes_changed_files_as_compact_json() {
    let mut unit = unit_from_commit(commit("m1", "PAY-9 refund", 2));
    let record = pull_request_record(&unit);
    assert_eq!(record.changed_files_json, "[]");
    assert_eq!(record.ticket_ref, Some("PAY-9".into()));
    unit._diff.changed_files = vec!["a.rs".into(), "dir/b \"q\".rs".into()];
    let record = pull_request_record(&unit);
    assert_eq!(record.changed_files_json, "[\"a.rs\",\"dir/b \\\"q\\\".rs\"]");
}

#[test]
fn pull_request_record_escapes_control_characters() {
    let mut unit = unit_from_commit(commit("m1", "fix", 2));
    unit._diff.changed_files = vec!["t\tn\nr\rb\u{8}f\u{c}x\u{1f}y\u{7f}\\é".into()];
    let record = pull_request_record(&unit);
    assert_eq!(record.changed_files_json, "[\"t\\tn\\nr\\rb\\bf\\fx\\u001fy\u{7f}\\\\é\"]");
}

#[test]
fn checklist_item_with_shows_the_files_given() {
    let item = checklist_item_with(checklist_row("ignored", 1), Some(vec!["z.rs".into()]));
    assert_eq!(item.changed_files, vec!["z.rs"]);
    let item = checklist_item_with(checklist_row("ignored", 1), None);
    assert!(item.changed_files.is_empty());
}
