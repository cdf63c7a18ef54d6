use branchgate::git::runner::CommandOutput;
use branchgate::git::{
    branch_head, cherry_on_target, commits_ahead, current_branch, diff_totals_fit, diff_vs_target,
    ensure_git_repo, list_branches, repo_display_name,
};

fn output(success: bool, stdout: &str, stderr: &str) -> CommandOutput {
    CommandOutput { success, stdout: stdout.to_string(), stderr: stderr.to_string() }
}

#[test]
fn ensure_git_repo_needs_a_directory() {
    assert_eq!(ensure_git_repo(None), Err("Path is not a directory".to_string()));
}

#[test]
fn ensure_git_repo_accepts_a_work_tree_only() {
    assert_eq!(ensure_git_repo(Some(&output(true, "true\n", ""))), Ok(()));
    let refused = Err("Not a Git working tree \u{2014} choose a repository folder or subfolder".to_string());
    assert_eq!(ensure_git_repo(Some(&output(true, "false\n", ""))), refused);
    assert_eq!(ensure_git_repo(Some(&output(false, "", "fatal"))), refused);
}

#[test]
fn repo_display_name_falls_back_to_local_repo() {
    assert_eq!(repo_display_name(Some("branchgate")), "branchgate");
    assert_eq!(repo_display_name(None), "local-repo");
}

#[test]
fn current_branch_is_absent_on_detached_head_or_failure() {
    assert_eq!(current_branch(&output(true, "  develop\n", "")), Some("develop".to_string()));
    assert_eq!(current_branch(&output(true, "HEAD\n", "")), None);
    assert_eq!(current_branch(&output(false, "main\n", "")), None);
}

#[test]
fn branch_head_names_the_missing_branch() {
    assert_eq!(branch_head(&output(true, "abc123\n", ""), "main"), Ok("abc123".to_string()));
    assert_eq!(
        branch_head(&output(false, "", "fatal"), "release"),
        Err("Branch 'release' not found".to_string())
    );
}

#[test]
fn commits_ahead_reads_the_log_or_reports_git_error() {
    let log = "a1\x1fFirst\x1fAda\x1f1700000000\x1fp0\n\
               b2\x1fMerge pull request #7\x1fBob\x1fnot-a-time\x1fp1 p2\n";
    let commits = commits_ahead(&output(true, log, "")).unwrap();
    assert_eq!(commits.len(), 2);
    assert_eq!(commits[0].sha, "a1");
    assert_eq!(commits[0].author, "Ada");
    assert_eq!(commits[0].authored_at, 1700000000);
    assert_eq!(commits[1].authored_at, 0);
    assert_eq!(commits[1].parent_count, 2);
    assert_eq!(
        commits_ahead(&output(false, "", "bad revision")).unwrap_err(),
        "Failed to read commit history: bad revision"
    );
}

#[test]
fn diff_vs_target_totals_numstat_rows() {
    let out = output(true, "10\t2\tsrc/a.rs\n-\t-\timg.png\n3\t0\tREADME.md\n", "");
    assert!(diff_totals_fit(&out));
    let stats = diff_vs_target(&out);
    assert_eq!(stats.insertions, 13);
    assert_eq!(stats.deletions, 2);
    assert_eq!(stats.files_changed, 3);
    assert_eq!(stats.changed_files, vec!["src/a.rs", "img.png", "README.md"]);
}

#[test]
fn diff_vs_target_is_empty_when_git_fails() {
    let stats = diff_vs_target(&output(false, "1\t1\tx\n", "boom"));
    assert_eq!((stats.insertions, stats.deletions, stats.files_changed), (0, 0, 0));
    assert!(stats.changed_files.is_empty());
}

#[test]
fn diff_totals_that_overflow_are_detected() {
    assert!(!diff_totals_fit(&output(true, "4294967295\t0\ta\n1\t0\tb\n", "")));
    assert!(diff_totals_fit(&output(false, "4294967295\t0\ta\n1\t0\tb\n", "")));
}

#[test]
fn cherry_on_target_marks_patches_already_upstream() {
    let map = cherry_on_target(&output(true, "+ abc add login\n- def fix typo\n\n+\n", "")).unwrap();
    assert_eq!(map.get("abc"), Some(false));
    assert_eq!(map.get("def"), Some(true));
    assert_eq!(map.get("zzz"), None);
    assert!(cherry_on_target(&output(false, "", "no upstream")).is_err());
}

#[test]
fn list_branches_sorts_ignoring_case_and_drops_repeats() {
    let names = list_branches(&output(true, "b\nA\n  C \n\nb\n", "")).unwrap();
    assert_eq!(names, vec!["A", "b", "C"]);
    assert_eq!(
        list_branches(&output(false, "", "not a repo")).unwrap_err(),
        "Failed to list branches: not a repo"
    );
}

#[test]
fn order_branches_sorts_by_the_given_keys_and_drops_repeats() {
    let names: Vec<String> = vec!["b".into(), "A".into(), "C".into(), "b".into()];
    let keys: Vec<String> = vec!["b".into(), "a".into(), "c".into(), "b".into()];
    assert_eq!(branchgate::git::order_branches(names, keys), vec!["A", "b", "C"]);
    let names: Vec<String> = vec!["x".into(), "y".into()];
    let keys: Vec<String> = vec!["k".into(), "k".into()];
    assert_eq!(branchgate::git::order_branches(names, keys), vec!["x", "y"]);
}
