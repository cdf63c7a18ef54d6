use branchgate::history::{history_run, map_item_status, ItemRow, RunRow};
use branchgate::repos::{
    app_info, check_connected_path, local_repo_info, validate_branches, validate_pipeline_request,
    ConnectLocalRequest,
};

fn request(name: &str, source: &str, target: &str) -> ConnectLocalRequest {
    ConnectLocalRequest {
        local_path: "/repo".into(),
        pipeline_name: name.into(),
        source_branch: source.into(),
        target_branch: target.into(),
        repo_id: None,
    }
}

fn branches(list: &[&str]) -> Vec<String> {
    list.iter().map(|b| b.to_string()).collect()
}

#[test]
fn pipeline_requests_need_a_name_and_two_branches() {
    assert_eq!(validate_pipeline_request(&request("  ", "a", "b")), Err("Pipeline name is required".into()));
    assert_eq!(
        validate_pipeline_request(&request("Release", "main", "main")),
        Err("Source and target branches must be different".into())
    );
    assert_eq!(validate_pipeline_request(&request("Release", "develop", "main")), Ok(()));
}

#[test]
fn pipeline_branches_must_exist() {
    let known = branches(&["develop", "main"]);
    assert_eq!(validate_branches(&known, "develop", "main"), Ok(()));
    assert_eq!(
        validate_branches(&known, "feature", "main"),
        Err("Source branch 'feature' not found in repository".into())
    );
    assert_eq!(
        validate_branches(&known, "develop", "prod"),
        Err("Target branch 'prod' not found in repository".into())
    );
}

#[test]
fn local_repo_info_uses_the_checked_out_branch_as_default() {
    let info = local_repo_info("/r".into(), "r".into(), branches(&["develop", "main"]), Some("main".into()), Some(3)).unwrap();
    assert_eq!(info.default_branch, Some("main".into()));
    assert_eq!(info.existing_repo_id, Some(3));
    let info = local_repo_info("/r".into(), "r".into(), branches(&["main"]), Some("gone".into()), None).unwrap();
    assert_eq!(info.default_branch, None);
    assert_eq!(
        local_repo_info("/r".into(), "r".into(), Vec::new(), None, None).unwrap_err(),
        "No local branches found in this repository"
    );
}

#[test]
fn connected_path_must_match() {
    assert_eq!(check_connected_path(None, "/r"), Err("Repository not found".into()));
    assert_eq!(check_connected_path(Some("/r".into()), "/r"), Ok(()));
    assert_eq!(
        check_connected_path(Some("/other".into()), "/r"),
        Err("Selected repository path does not match the connected repo".into())
    );
}

#[test]
fn app_info_names_the_application() {
    let info = app_info("linux", true);
    assert_eq!((info.name.as_str(), info.version.as_str(), info.platform.as_str()), ("Branchgate", "beta", "linux"));
    assert!(info.db_ready);
}

#[test]
fn history_statuses_read_as_done_queued_or_conflict() {
    assert_eq!(map_item_status("promoted"), "done");
    assert_eq!(map_item_status("promoting"), "done");
    assert_eq!(map_item_status("conflict"), "conflict");
    assert_eq!(map_item_status("pending"), "queued");
    assert_eq!(map_item_status("selected"), "queued");
    assert_eq!(map_item_status("skipped"), "queued");
    assert_eq!(map_item_status("weird"), "weird");
}

#[test]
fn history_run_keeps_the_changes_in_order() {
    let row = RunRow {
        run_id: 1,
        pipeline_id: 2,
        pipeline_name: "Release".into(),
        source_branch: "develop".into(),
        target_branch: "main".into(),
        branch_name: "branchgate/promote-1".into(),
        status: "merged".into(),
        conflict_phase: None,
        created_at: 10,
        completed_at: Some(20),
    };
    let items = vec![
        ItemRow { pr_id: 5, title: "five".into(), status: "promoted".into() },
        ItemRow { pr_id: 6, title: "six".into(), status: "pending".into() },
    ];
    let run = history_run(row, items);
    assert_eq!(run.item_count, 2);
    assert_eq!(run.items[0].pr_id, 5);
    assert_eq!(run.items[0].status, "done");
    assert_eq!(run.items[1].status, "queued");
    assert_eq!(run.completed_at, Some(20));
}

#[test]
fn new_repositories_default_to_the_checked_out_branch_or_main() {
    assert_eq!(branchgate::repos::default_branch_name(Some("develop".into())), "develop");
    assert_eq!(branchgate::repos::default_branch_name(None), "main");
}

#[test]
fn duplicate_pipelines_are_explained() {
    assert_eq!(
        branchgate::repos::pipeline_save_error("error returned from database: UNIQUE constraint failed"),
        "A pipeline with this source and target branch already exists for this repo"
    );
    assert_eq!(branchgate::repos::pipeline_save_error("disk I/O error"), "disk I/O error");
    assert_eq!(branchgate::repos::pipeline_save_error("unique"), "unique");
}

#[test]
fn pipelines_with_a_run_in_progress_are_not_deleted() {
    assert_eq!(
        branchgate::repos::check_pipeline_deletable(1),
        Err("Abort the active promotion before deleting this pipeline".into())
    );
    assert_eq!(branchgate::repos::check_pipeline_deletable(0), Ok(()));
    assert_eq!(
        branchgate::repos::check_pipeline_deleted(0),
        Err("Pipeline not found or already deleted".into())
    );
    assert_eq!(branchgate::repos::check_pipeline_deleted(1), Ok(()));
}
