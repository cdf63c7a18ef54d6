use branchgate::promote::{escapes_repository, finalize_plan};
use branchgate::git::promote::CherryPickOutcome;
use branchgate::promote::{
    abort_plan, applied_by_hand, build_run_result, check_commits_exist, check_no_active_run,
    check_promotable, check_selection_given, finish_resolution, persist_conflict,
    preferred_editor, promotion_branch_name, reconcile_writes, repo_path, resolution_step,
    AbortContext, AbortWrite, ActiveRunRow, ConflictPhase, ConflictRow, ConflictWrite,
    ContinueAction, ContinueContext, ContinueEvent, ContinueRun, FinalizeWrite, PromotePr, PromotionRun,
    ResolutionStep, RunAction, RunEvent, RunPrRow, RunStatus, RunWrite,
};

fn pr(id: i64, sha: &str, strategy: Option<&str>) -> PromotePr {
    PromotePr {
        pr_id: id,
        title: format!("Change {id}"),
        merge_commit_sha: sha.to_string(),
        merge_strategy: strategy.map(|s| s.to_string()),
    }
}

fn picked() -> RunEvent {
    RunEvent::Picked(CherryPickOutcome { success: true, conflict_files: Vec::new(), stderr: String::new() })
}

fn describe_writes(ws: &[RunWrite]) -> Vec<String> {
    ws.iter()
        .map(|w| match w {
            RunWrite::MarkPromoting { pr_id } => format!("promoting {pr_id}"),
            RunWrite::OpenConflict { pr_id, file_path } => format!("open {pr_id} {file_path}"),
            RunWrite::MarkConflict { pr_id, error } => format!("conflict {pr_id} {error}"),
            RunWrite::MarkPromoted { pr_id, commit_sha } => format!("promoted {pr_id} {commit_sha}"),
            RunWrite::CompleteRun => "complete".to_string(),
            RunWrite::FailRun { conflict_phase } => format!("fail {conflict_phase:?}"),
        })
        .collect()
}

fn describe_action(a: &RunAction) -> String {
    match a {
        RunAction::CherryPick { sha, merge_commit } => format!("pick {sha} {merge_commit}"),
        RunAction::ReadHead => "read head".to_string(),
        RunAction::RestoreBranch { branch } => format!("restore {branch}"),
        RunAction::Finish => "finish".to_string(),
    }
}

fn new_run(prs: Vec<PromotePr>, original: &str) -> (PromotionRun, Vec<RunWrite>, RunAction) {
    PromotionRun::start(prs, "main".into(), "branchgate/promote-1".into(), original.into())
}

#[test]
fn promotion_run_picks_in_order_then_leaves_the_branch_ready() {
    let (mut run, ws, act) = new_run(vec![pr(1, "a1", Some("merge")), pr(2, "b2", Some("squash"))], "develop");
    assert_eq!(describe_writes(&ws), vec!["promoting 1"]);
    assert_eq!(describe_action(&act), "pick a1 true");
    let (ws, act) = run.advance(picked());
    assert!(ws.is_empty());
    assert_eq!(describe_action(&act), "read head");
    let (ws, act) = run.advance(RunEvent::Head("c1".into()));
    assert_eq!(describe_writes(&ws), vec!["promoted 1 c1", "promoting 2"]);
    assert_eq!(describe_action(&act), "pick b2 false");
    let (ws, act) = run.advance(picked());
    assert!(ws.is_empty());
    assert_eq!(describe_action(&act), "read head");
    let (ws, act) = run.advance(RunEvent::Head("c2".into()));
    assert_eq!(describe_writes(&ws), vec!["promoted 2 c2", "complete"]);
    assert_eq!(describe_action(&act), "restore develop");
    let (ws, act) = run.advance(RunEvent::Done);
    assert!(ws.is_empty());
    assert_eq!(describe_action(&act), "finish");
    assert!(run.status == RunStatus::Merged);
    let result = run.into_result(7, Some("VS Code".into()));
    assert_eq!(result.status, "merged");
    assert_eq!(result.branch_name, "branchgate/promote-1");
    assert_eq!(result.items.len(), 2);
    assert!(result.items.iter().all(|i| i.status == "done"));
    assert!(!result.can_continue && !result.recoverable);
}

#[test]
fn promotion_run_never_touches_the_target_branch() {
    let (mut run, _, act) = new_run(vec![pr(1, "a1", None)], "main");
    let mut actions = vec![describe_action(&act)];
    let (_, act) = run.advance(picked());
    actions.push(describe_action(&act));
    let (_, act) = run.advance(RunEvent::Head("h".into()));
    actions.push(describe_action(&act));
    let (_, act) = run.advance(RunEvent::Done);
    actions.push(describe_action(&act));
    assert_eq!(actions, vec!["pick a1 false", "read head", "restore main", "finish"]);
}

#[test]
fn promotion_run_stops_on_a_cherry_pick_conflict() {
    let (mut run, _, _) = new_run(vec![pr(1, "a1", None), pr(2, "b2", None)], "main");
    let conflict = CherryPickOutcome {
        success: false,
        conflict_files: vec!["src/lib.rs".into()],
        stderr: "CONFLICT (content)".into(),
    };
    let (ws, act) = run.advance(RunEvent::Picked(conflict));
    assert_eq!(
        describe_writes(&ws),
        vec!["open 1 src/lib.rs", "conflict 1 CONFLICT (content)", "fail Some(CherryPick)"]
    );
    assert_eq!(describe_action(&act), "finish");
    let result = run.into_result(3, None);
    assert_eq!(result.status, "failed");
    assert_eq!(result.conflict_phase, Some("cherry_pick".into()));
    assert!(result.recoverable);
    assert_eq!(result.items.len(), 1);
    assert_eq!(result.items[0].status, "conflict");
    assert_eq!(result.items[0].conflict_files, vec!["src/lib.rs"]);
}

#[test]
fn promotion_run_failure_without_conflict_is_not_resumable() {
    let (mut run, _, _) = new_run(vec![pr(1, "a1", None)], "main");
    let failed = CherryPickOutcome { success: false, conflict_files: Vec::new(), stderr: String::new() };
    let (ws, _) = run.advance(RunEvent::Picked(failed));
    assert_eq!(describe_writes(&ws), vec!["conflict 1 ", "fail None"]);
    let result = run.into_result(3, None);
    assert_eq!(result.items[0].status, "failed");
    assert_eq!(result.items[0].error_message, Some("Cherry-pick failed".into()));
    assert!(!result.recoverable);
}

#[test]
fn promotion_run_without_changes_finishes_at_once() {
    let (_, ws, act) = new_run(Vec::new(), "main");
    assert!(ws.is_empty());
    assert_eq!(describe_action(&act), "finish");
}

fn continue_context(phase: Option<&str>, path: Option<&str>) -> Option<ContinueContext> {
    Some(ContinueContext {
        pipeline_id: 4,
        branch_name: "branchgate/promote-9".into(),
        target_branch: "main".into(),
        conflict_phase: phase.map(|p| p.to_string()),
        local_path: path.map(|p| p.to_string()),
        original_branch: Some("develop".into()),
    })
}

fn start_err(ctx: Option<ContinueContext>) -> String {
    match ContinueRun::start(ctx) {
        Err(e) => e,
        Ok(_) => panic!("expected a refusal"),
    }
}

#[test]
fn continuing_needs_a_resumable_run_with_a_folder() {
    assert_eq!(start_err(None), "Promotion run not found or already closed");
    assert_eq!(
        start_err(continue_context(None, Some("/r"))),
        "This promotion stopped because Git could not apply a change. Abort it, refresh the pipeline, and try again."
    );
    assert_eq!(start_err(continue_context(Some("merge"), None)), "Repository has no local path");
}

#[test]
fn continuing_refuses_when_the_repository_moved_to_another_branch() {
    let (mut run, act) = match ContinueRun::start(continue_context(Some("cherry_pick"), Some("/r"))) {
        Ok(x) => x,
        Err(e) => panic!("{e}"),
    };
    assert!(matches!(act, ContinueAction::CheckRepo));
    assert!(matches!(run.advance(ContinueEvent::Done), ContinueAction::ReadBranch));
    match run.advance(ContinueEvent::Branch("main".into())) {
        ContinueAction::Fail { message } => assert_eq!(
            message,
            "Repository is on 'main'. Switch back to 'branchgate/promote-9' before continuing."
        ),
        _ => panic!("expected a refusal"),
    }
}

fn describe_finalize(act: ContinueAction) -> (Vec<String>, Vec<Vec<String>>) {
    match act {
        ContinueAction::Finalize { plan } => (
            plan.writes
                .iter()
                .map(|w| match w {
                    FinalizeWrite::ResolveOpenConflicts => "resolve".to_string(),
                    FinalizeWrite::CompleteRun => "complete".to_string(),
                })
                .collect(),
            plan.git_steps,
        ),
        _ => panic!("expected the finishing plan"),
    }
}

#[test]
fn continuing_a_cherry_pick_without_git_state_is_refused() {
    let (mut run, _) = match ContinueRun::start(continue_context(Some("cherry_pick"), Some("/r"))) {
        Ok(x) => x,
        Err(e) => panic!("{e}"),
    };
    run.advance(ContinueEvent::Done);
    run.advance(ContinueEvent::Branch("branchgate/promote-9".into()));
    assert!(matches!(run.advance(ContinueEvent::Files(Vec::new())), ContinueAction::CheckCherryPick));
    assert!(matches!(run.advance(ContinueEvent::Flag(false)), ContinueAction::CheckManualPick));
    match run.advance(ContinueEvent::Flag(false)) {
        ContinueAction::Fail { message } => {
            assert!(message.starts_with("Git is no longer in the expected cherry-pick."))
        }
        _ => panic!("expected a refusal"),
    }
}

#[test]
fn continuing_picks_the_rest_then_finishes_with_a_plan() {
    let (mut run, _) = match ContinueRun::start(continue_context(Some("cherry_pick"), Some("/r"))) {
        Ok(x) => x,
        Err(e) => panic!("{e}"),
    };
    run.advance(ContinueEvent::Done);
    run.advance(ContinueEvent::Branch("branchgate/promote-9".into()));
    run.advance(ContinueEvent::Files(Vec::new()));
    assert!(matches!(run.advance(ContinueEvent::Flag(true)), ContinueAction::ContinueCherryPick));
    assert!(matches!(run.advance(ContinueEvent::Done), ContinueAction::ReadHead));
    match run.advance(ContinueEvent::Head("r1".into())) {
        ContinueAction::ResumeQueued { commit_sha } => assert_eq!(commit_sha, "r1"),
        _ => panic!("expected the resolved change to be recorded"),
    }
    match run.advance(ContinueEvent::Queued(vec![pr(5, "e5", Some("merge")), pr(6, "f6", None)])) {
        ContinueAction::Pick { pr_id, sha, merge_commit } => {
            assert_eq!((pr_id, sha.as_str(), merge_commit), (5, "e5", true))
        }
        _ => panic!("expected a pick"),
    }
    let ok = || CherryPickOutcome { success: true, conflict_files: Vec::new(), stderr: String::new() };
    assert!(matches!(run.advance(ContinueEvent::Picked(ok())), ContinueAction::ReadHead));
    match run.advance(ContinueEvent::Head("c5".into())) {
        ContinueAction::MarkPromoted { pr_id, commit_sha } => assert_eq!((pr_id, commit_sha.as_str()), (5, "c5")),
        _ => panic!("expected the pick to be recorded"),
    }
    assert!(matches!(run.advance(ContinueEvent::Done), ContinueAction::Pick { pr_id: 6, .. }));
    assert!(matches!(run.advance(ContinueEvent::Picked(ok())), ContinueAction::ReadHead));
    match run.advance(ContinueEvent::Head("c6".into())) {
        ContinueAction::MarkPromoted { pr_id, commit_sha } => assert_eq!((pr_id, commit_sha.as_str()), (6, "c6")),
        _ => panic!("expected the pick to be recorded"),
    }
    let (writes, steps) = describe_finalize(run.advance(ContinueEvent::Done));
    assert_eq!(writes, vec!["resolve", "complete"]);
    assert_eq!(steps, vec![vec!["switch".to_string(), "develop".to_string()]]);
    assert!(matches!(run.advance(ContinueEvent::Done), ContinueAction::ShowMerged));
}

#[test]
fn finalize_plan_switches_back_only_when_needed() {
    let plan = finalize_plan(Some("develop"), "branchgate/promote-9");
    assert_eq!(plan.git_steps, vec![vec!["switch".to_string(), "develop".to_string()]]);
    assert_eq!(plan.writes.len(), 2);
    assert!(matches!(plan.writes[0], FinalizeWrite::ResolveOpenConflicts));
    assert!(matches!(plan.writes[1], FinalizeWrite::CompleteRun));
    assert!(finalize_plan(Some("develop"), "develop").git_steps.is_empty());
    assert!(finalize_plan(None, "develop").git_steps.is_empty());
}

#[test]
fn continuing_with_files_still_in_conflict_shows_the_run() {
    let (mut run, _) = match ContinueRun::start(continue_context(Some("cherry_pick"), Some("/r"))) {
        Ok(x) => x,
        Err(e) => panic!("{e}"),
    };
    run.advance(ContinueEvent::Done);
    run.advance(ContinueEvent::Branch("branchgate/promote-9".into()));
    assert!(matches!(run.advance(ContinueEvent::Files(vec!["a.rs".into()])), ContinueAction::ShowRun));
}

#[test]
fn build_run_result_shows_conflicts_by_change() {
    let row = ActiveRunRow {
        run_id: 5,
        branch_name: "b".into(),
        target_branch: "main".into(),
        conflict_phase: None,
        status: "failed".into(),
    };
    let rows = vec![
        RunPrRow { pr_id: 1, title: "one".into(), merge_commit_sha: "s1".into(), status: "promoted".into(), error_message: None },
        RunPrRow { pr_id: 2, title: "two".into(), merge_commit_sha: "s2".into(), status: "conflict".into(), error_message: Some("boom".into()) },
        RunPrRow { pr_id: 3, title: "three".into(), merge_commit_sha: "s3".into(), status: "selected".into(), error_message: None },
    ];
    let result = build_run_result(row, rows, Vec::new(), Some("Zed".into()));
    let statuses: Vec<&str> = result.items.iter().map(|i| i.status.as_str()).collect();
    assert_eq!(statuses, vec!["done", "failed", "queued"]);
    assert!(result.can_continue);
    assert!(!result.recoverable);

    let row = ActiveRunRow {
        run_id: 5,
        branch_name: "b".into(),
        target_branch: "main".into(),
        conflict_phase: Some("cherry_pick".into()),
        status: "failed".into(),
    };
    let rows = vec![RunPrRow { pr_id: 2, title: "two".into(), merge_commit_sha: "s2".into(), status: "conflict".into(), error_message: None }];
    let conflicts = vec![
        ConflictRow { pr_id: 2, file_path: "a.rs".into() },
        ConflictRow { pr_id: 9, file_path: "other.rs".into() },
        ConflictRow { pr_id: 2, file_path: "b.rs".into() },
    ];
    let result = build_run_result(row, rows, conflicts, None);
    assert_eq!(result.items[0].status, "conflict");
    assert_eq!(result.items[0].conflict_files, vec!["a.rs", "b.rs"]);
    assert!(!result.can_continue);
    assert!(result.recoverable);
}

#[test]
fn persist_conflict_records_failure_message_and_files() {
    let ws = persist_conflict(4, ConflictPhase::CherryPick, &vec!["x.rs".into()], "  ");
    assert_eq!(
        describe_writes(&ws),
        vec!["fail Some(CherryPick)", "conflict 4 Git cherry_pick stopped on a conflict", "open 4 x.rs"]
    );
    let ws = persist_conflict(4, ConflictPhase::CherryPick, &Vec::new(), "");
    assert_eq!(
        describe_writes(&ws),
        vec!["fail None", "conflict 4 Git cherry_pick failed before applying the change"]
    );
    let ws = persist_conflict(4, ConflictPhase::CherryPick, &Vec::new(), " error: bad \n");
    assert_eq!(describe_writes(&ws)[1], "conflict 4 error: bad");
}

#[test]
fn resolution_asks_git_only_what_it_needs() {
    let none: Vec<String> = Vec::new();
    assert_eq!(resolution_step(&vec!["a".into()], None, None), ResolutionStep::Resumable(false));
    assert_eq!(resolution_step(&none, None, None), ResolutionStep::AskCherryPickInProgress);
    assert_eq!(resolution_step(&none, Some(true), None), ResolutionStep::Resumable(true));
    assert_eq!(resolution_step(&none, Some(false), None), ResolutionStep::AskAppliedByHand);
    assert_eq!(resolution_step(&none, Some(false), Some(true)), ResolutionStep::Resumable(true));
    assert_eq!(resolution_step(&none, Some(false), Some(false)), ResolutionStep::Resumable(false));
    assert_eq!(resolution_step(&vec!["a".into()], Some(true), Some(true)), ResolutionStep::Resumable(false));
}

#[test]
fn conflict_paths_must_stay_inside_the_repository() {
    assert!(!escapes_repository("src/lib.rs", false));
    assert!(!escapes_repository("a/..b/c", false));
    assert!(!escapes_repository("C:/x", false));
    assert!(escapes_repository("/etc/passwd", false));
    assert!(escapes_repository("../x", false));
    assert!(escapes_repository("a/../../x", false));
    assert!(escapes_repository("a/..", false));
    assert!(!escapes_repository("a\\..\\x", false));
    assert!(escapes_repository("a\\..\\x", true));
    assert!(escapes_repository("C:\\x", true));
    assert!(escapes_repository("\\server\\share", true));
    assert!(!escapes_repository("src\\lib.rs", true));
}

#[test]
fn a_resolved_run_that_git_left_is_no_longer_resumable() {
    let row = ActiveRunRow {
        run_id: 1,
        branch_name: "b".into(),
        target_branch: "main".into(),
        conflict_phase: Some("cherry_pick".into()),
        status: "failed".into(),
    };
    let result = build_run_result(row, Vec::new(), Vec::new(), None);
    let (result, clear) = finish_resolution(result, false, false);
    assert!(clear);
    assert!(!result.can_continue && !result.recoverable);
    assert_eq!(result.conflict_phase, None);
}

#[test]
fn a_resolved_run_that_git_still_holds_can_continue() {
    let row = ActiveRunRow {
        run_id: 1,
        branch_name: "b".into(),
        target_branch: "main".into(),
        conflict_phase: Some("cherry_pick".into()),
        status: "failed".into(),
    };
    let result = build_run_result(row, Vec::new(), Vec::new(), None);
    let (result, clear) = finish_resolution(result, false, true);
    assert!(!clear);
    assert!(result.can_continue && result.recoverable);
}

#[test]
fn applied_by_hand_compares_patch_ids() {
    assert!(applied_by_hand(true, Some("p".into()), Some("p".into())));
    assert!(!applied_by_hand(true, Some("p".into()), Some("q".into())));
    assert!(applied_by_hand(true, None, None));
    assert!(!applied_by_hand(true, None, Some("q".into())));
    assert!(!applied_by_hand(false, Some("p".into()), Some("p".into())));
}

#[test]
fn reconcile_resolves_then_reopens_or_records_each_file() {
    let files = vec!["a.rs".to_string(), "b.rs".to_string()];
    let ws = reconcile_writes(&files, 6, &vec![Some(40), None]);
    assert_eq!(ws.len(), 3);
    assert!(matches!(ws[0], ConflictWrite::ResolveOpen));
    assert!(matches!(ws[1], ConflictWrite::Reopen { id: 40, pr_id: 6 }));
    match &ws[2] {
        ConflictWrite::Insert { pr_id, file_path } => assert_eq!((*pr_id, file_path.as_str()), (6, "b.rs")),
        _ => panic!("expected a new conflict"),
    }
    let ws = reconcile_writes(&Vec::new(), 0, &Vec::new());
    assert_eq!(ws.len(), 1);
}

#[test]
fn abort_restores_the_original_branch_and_resets_the_changes() {
    let ctx = AbortContext {
        pipeline_id: 2,
        branch_name: "branchgate/promote-5".into(),
        target_branch: "main".into(),
        local_path: Some("/repo".into()),
        original_branch: Some("develop".into()),
    };
    let plan = abort_plan(Some(ctx), &vec![7, 8]).unwrap();
    assert_eq!(plan.path, "/repo");
    assert_eq!(
        plan.git_steps,
        vec![
            vec!["cherry-pick", "--abort"],
            vec!["merge", "--abort"],
            vec!["switch", "develop"],
            vec!["branch", "-D", "branchgate/promote-5"],
        ]
    );
    assert_eq!(
        plan.writes,
        vec![
            AbortWrite::RestoreSelected { pr_id: 7 },
            AbortWrite::RestoreSelected { pr_id: 8 },
            AbortWrite::CloseRun,
            AbortWrite::AbandonConflicts,
        ]
    );
}

#[test]
fn abort_falls_back_to_the_target_branch_and_explains_refusals() {
    let ctx = |path: Option<&str>| AbortContext {
        pipeline_id: 2,
        branch_name: "b".into(),
        target_branch: "main".into(),
        local_path: path.map(|p| p.to_string()),
        original_branch: None,
    };
    let plan = abort_plan(Some(ctx(Some("/r"))), &Vec::new()).unwrap();
    assert_eq!(plan.git_steps[2], vec!["switch", "main"]);
    assert_eq!(plan.writes, vec![AbortWrite::CloseRun, AbortWrite::AbandonConflicts]);
    assert_eq!(abort_plan(None, &vec![1]).err(), Some("Promotion run not found".to_string()));
    assert_eq!(abort_plan(Some(ctx(None)), &vec![1]).err(), Some("Repository has no local path".to_string()));
}

#[test]
fn promotion_checks_explain_refusals() {
    assert_eq!(check_selection_given(&Vec::new()), Err("Select at least one change to promote".into()));
    assert_eq!(check_selection_given(&vec![1]), Ok(()));
    assert_eq!(repo_path(None), Err("Repository has no local path".into()));
    assert_eq!(repo_path(Some("/r".into())), Ok("/r".into()));
    assert!(check_no_active_run(1).is_err());
    assert_eq!(check_no_active_run(0), Ok(()));
    assert_eq!(
        check_promotable(0, 2),
        Err("No promotable changes found for the current selection".into())
    );
    assert_eq!(
        check_promotable(1, 2),
        Err("Some selected changes are no longer pending \u{2014} refresh and try again".into())
    );
    assert_eq!(check_promotable(2, 2), Ok(()));
}

#[test]
fn missing_commits_are_counted_in_the_message() {
    assert_eq!(check_commits_exist(&Vec::new()), Ok(()));
    assert_eq!(
        check_commits_exist(&vec!["a".into()]),
        Err("1 selected change no longer exists in this repository. Refresh the pipeline and select the current changes.".into())
    );
    assert_eq!(
        check_commits_exist(&vec!["a".into(), "b".into()]),
        Err("2 selected changes no longer exist in this repository. Refresh the pipeline and select the current changes.".into())
    );
}

#[test]
fn promotion_branch_names_carry_the_time() {
    let name = promotion_branch_name();
    let digits = name.strip_prefix("branchgate/promote-").expect("prefix");
    assert!(!digits.is_empty());
    assert!(digits.chars().all(|c| c.is_ascii_digit()));
    assert!(digits.parse::<i64>().unwrap() > 1_600_000_000_000);
}

#[test]
fn preferred_editor_must_be_set() {
    assert_eq!(preferred_editor(Some(("code".to_string(), None::<String>))), Ok(("code".to_string(), None)));
    assert_eq!(
        preferred_editor::<String>(None),
        Err("No preferred editor \u{2014} set one in Settings".into())
    );
}

#[test]
fn promotion_branch_name_at_a_given_time() {
    assert_eq!(
        branchgate::promote::promotion_branch_name_at(1_700_000_000_123),
        "branchgate/promote-1700000000123"
    );
    assert_eq!(branchgate::promote::promotion_branch_name_at(-5), "branchgate/promote--5");
}

#[test]
fn a_finished_run_asks_for_nothing_more() {
    let (mut run, _, _) = new_run(vec![pr(1, "a1", None)], "main");
    let failed = CherryPickOutcome { success: false, conflict_files: vec!["f".into()], stderr: "x".into() };
    run.advance(RunEvent::Picked(failed));
    let (ws, act) = run.advance(RunEvent::Done);
    assert!(ws.is_empty());
    assert_eq!(describe_action(&act), "finish");
    assert!(run.status == RunStatus::Failed);
}

#[test]
fn a_run_writes_only_about_its_own_changes() {
    let (mut run, ws, _) = new_run(vec![pr(4, "a", None), pr(9, "b", None)], "develop");
    let mut all = describe_writes(&ws);
    let (ws, _) = run.advance(picked());
    all.extend(describe_writes(&ws));
    let (ws, _) = run.advance(RunEvent::Head("h4".into()));
    all.extend(describe_writes(&ws));
    let conflict = CherryPickOutcome { success: false, conflict_files: vec!["x".into(), "y".into()], stderr: "c".into() };
    let (ws, _) = run.advance(RunEvent::Picked(conflict));
    all.extend(describe_writes(&ws));
    for line in all {
        let id = line.split(' ').nth(1).unwrap_or("");
        assert!(id == "4" || id == "9" || line.starts_with("fail"), "{line}");
    }
}
