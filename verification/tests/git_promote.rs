use branchgate::git::promote::{
    abort_steps, cherry_pick, cherry_pick_abort, cherry_pick_continue, cherry_pick_in_progress,
    cherry_pick_start, commit_exists, conflict_files, continue_operation, create_branch,
    current_branch, delete_branch, ensure_clean, ensure_clean_start, head_sha, is_ancestor,
    merge_abort, merge_branch, merge_branch_start, merge_continue, merge_in_progress,
    switch_branch, ApplyChange, ContinueKind, ContinueOperation, EnsureClean,
};
use branchgate::git::runner::CommandOutput;
use branchgate::git::GitStep;

fn out(success: bool, stdout: &str, stderr: &str) -> CommandOutput {
    CommandOutput { success, stdout: stdout.to_string(), stderr: stderr.to_string() }
}

fn ev(success: bool, stdout: &str, stderr: &str) -> Result<CommandOutput, String> {
    Ok(out(success, stdout, stderr))
}

fn args_of<S, T>(step: &GitStep<S, T>) -> Vec<String> {
    match step {
        GitStep::Run { args, .. } => args.clone(),
        GitStep::Done(_) => panic!("expected another Git command"),
    }
}

fn state_of<S, T>(step: GitStep<S, T>) -> S {
    match step {
        GitStep::Run { state, .. } => state,
        GitStep::Done(_) => panic!("expected another Git command"),
    }
}

fn done<S, T>(step: GitStep<S, T>) -> T {
    match step {
        GitStep::Done(t) => t,
        GitStep::Run { .. } => panic!("expected the end"),
    }
}

#[test]
fn reading_the_checkout() {
    assert_eq!(current_branch(&out(true, "main\n", "")), Ok("main".into()));
    assert_eq!(current_branch(&out(false, "", "x")), Err("Failed to read current branch".into()));
    assert_eq!(head_sha(&out(true, " abc \n", "")), Ok("abc".into()));
    assert_eq!(head_sha(&out(false, "", "")), Err("Failed to read HEAD".into()));
    assert!(commit_exists(&out(true, "", "")));
    assert!(!is_ancestor(&out(false, "", "")));
    assert!(cherry_pick_in_progress(&out(true, "abc", "")));
    assert!(!merge_in_progress(&out(false, "", "")));
}

#[test]
fn plain_git_commands_report_trimmed_errors() {
    assert_eq!(cherry_pick_abort(&out(true, "", "")), Ok(()));
    assert_eq!(merge_abort(&out(false, "", " no merge \n")), Err("no merge".into()));
    assert_eq!(delete_branch(&out(false, "", "error: not found")), Err("error: not found".into()));
    assert_eq!(
        switch_branch(&out(false, "", "  dirty tree\n"), "main"),
        Err("Failed to switch to main: dirty tree".into())
    );
    assert_eq!(switch_branch(&out(true, "", ""), "main"), Ok(()));
    assert_eq!(
        create_branch(&out(false, "", "exists"), "b"),
        Err("Failed to create branch b: exists".into())
    );
}

#[test]
fn conflict_files_lists_unmerged_paths() {
    assert_eq!(conflict_files(&out(true, "a.rs\n\n  b.rs \n", "")), vec!["a.rs", "b.rs"]);
    assert!(conflict_files(&out(false, "a.rs\n", "")).is_empty());
}

#[test]
fn ensure_clean_checks_operations_then_status() {
    let step = ensure_clean_start();
    assert_eq!(args_of(&step), vec!["rev-parse", "-q", "--verify", "CHERRY_PICK_HEAD"]);
    let step = ensure_clean(state_of(step), ev(false, "", ""));
    assert_eq!(args_of(&step), vec!["rev-parse", "-q", "--verify", "MERGE_HEAD"]);
    let step = ensure_clean(state_of(step), ev(false, "", ""));
    assert_eq!(args_of(&step), vec!["status", "--porcelain"]);
    assert_eq!(done(ensure_clean(state_of(step), ev(true, "", ""))), Ok(()));
}

#[test]
fn ensure_clean_refuses_busy_or_dirty_repositories() {
    let busy = Err("Finish or abort the existing Git operation before starting a promotion".to_string());
    assert_eq!(done(ensure_clean(EnsureClean::CheckCherryPick, ev(true, "abc", ""))), busy);
    assert_eq!(done(ensure_clean(EnsureClean::CheckMerge, ev(true, "abc", ""))), busy);
    assert_eq!(
        done(ensure_clean(EnsureClean::Status, ev(true, " M src/a.rs\n", ""))),
        Err("Repository has uncommitted changes. Commit or stash them before starting a promotion.".to_string())
    );
    assert_eq!(done(ensure_clean(EnsureClean::Status, ev(false, "", " fatal \n"))), Err("fatal".to_string()));
    assert_eq!(done(ensure_clean(EnsureClean::Status, Err("spawn".into()))), Err("spawn".to_string()));
}

#[test]
fn cherry_pick_of_a_merge_commit_uses_the_first_parent() {
    assert_eq!(args_of(&cherry_pick_start("m1", true)), vec!["cherry-pick", "-m", "1", "m1"]);
    assert_eq!(args_of(&cherry_pick_start("s1", false)), vec!["cherry-pick", "s1"]);
}

#[test]
fn cherry_pick_conflict_lists_the_files() {
    let step = cherry_pick(ApplyChange::Apply, ev(false, "", " CONFLICT \n"));
    assert_eq!(args_of(&step), vec!["diff", "--name-only", "--diff-filter=U"]);
    let outcome = done(cherry_pick(state_of(step), ev(true, "x.rs\n", "")));
    assert!(!outcome.success);
    assert_eq!(outcome.conflict_files, vec!["x.rs"]);
    assert_eq!(outcome.stderr, "CONFLICT");
    let clean = done(cherry_pick(ApplyChange::Apply, ev(true, "", "")));
    assert!(clean.success && clean.conflict_files.is_empty());
    let broken = done(cherry_pick(ApplyChange::Apply, Err("spawn failed".into())));
    assert!(!broken.success);
    assert_eq!(broken.stderr, "spawn failed");
}

#[test]
fn merge_runs_without_editing_and_reports_conflicts() {
    assert_eq!(args_of(&merge_branch_start("promo")), vec!["merge", "--no-edit", "promo"]);
    let step = merge_branch(ApplyChange::Apply, ev(false, "", "conflict"));
    let outcome = done(merge_branch(state_of(step), Err("listing failed".into())));
    assert!(!outcome.success);
    assert!(outcome.conflict_files.is_empty());
    assert_eq!(outcome.stderr, "conflict");
}

#[test]
fn continuing_needs_every_conflict_staged() {
    let step = cherry_pick_continue();
    assert_eq!(args_of(&step), vec!["diff", "--name-only", "--diff-filter=U"]);
    assert_eq!(
        done(continue_operation(state_of(step), ev(true, "a\nb\n", ""))),
        Err("2 conflicted files remain. Resolve and stage them before continuing.".to_string())
    );
    let step = merge_continue();
    assert_eq!(
        done(continue_operation(state_of(step), ev(true, "a\n", ""))),
        Err("1 conflicted file remain. Resolve and stage them before continuing.".to_string())
    );
}

#[test]
fn continuing_runs_git_continue() {
    let step = continue_operation(
        ContinueOperation::CheckConflicts { kind: ContinueKind::Merge },
        ev(true, "", ""),
    );
    assert_eq!(args_of(&step), vec!["merge", "--continue"]);
    assert_eq!(done(continue_operation(state_of(step), ev(true, "", ""))), Ok(()));
    let failed = ContinueOperation::Continue { kind: ContinueKind::CherryPick };
    assert_eq!(
        done(continue_operation(failed, ev(false, "", ""))),
        Err("Failed to continue cherry-pick".to_string())
    );
    let failed = ContinueOperation::Continue { kind: ContinueKind::Merge };
    assert_eq!(done(continue_operation(failed, ev(false, "", " hook failed "))), Err("hook failed".to_string()));
}

#[test]
fn abort_steps_give_up_restore_and_delete() {
    assert_eq!(
        abort_steps("promo", "main", None),
        vec![
            vec!["cherry-pick", "--abort"],
            vec!["merge", "--abort"],
            vec!["switch", "main"],
            vec!["branch", "-D", "promo"],
        ]
    );
    assert_eq!(abort_steps("promo", "main", Some("develop"))[2], vec!["switch", "develop"]);
}
