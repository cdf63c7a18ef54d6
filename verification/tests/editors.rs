use branchgate::editors::{
    detect, direct_executable, editor_exit_error, is_gui_editor, launch_plan, macos_app_name,
    resolve_cli,
};
use branchgate::git::runner::CommandOutput;

fn names(found: &[branchgate::editors::DetectedEditor]) -> Vec<String> {
    found.iter().map(|e| e.name.clone()).collect()
}

#[test]
fn detect_lists_found_editors_alphabetically() {
    let resolved = vec![
        Some("/usr/bin/code".to_string()),
        None,
        Some("/usr/bin/zed".to_string()),
        None,
        Some("/usr/bin/nvim".to_string()),
        Some("/usr/bin/vim".to_string()),
    ];
    let found = detect(resolved, vec![false, false, false]);
    assert_eq!(names(&found), vec!["Neovim", "Vim", "VS Code", "Zed"]);
    assert_eq!(found[2].command, "code");
    assert_eq!(found[2].detected_path, Some("/usr/bin/code".into()));
}

#[test]
fn detect_adds_application_bundles_not_found_on_the_path() {
    let resolved = vec![Some("/usr/local/bin/code".to_string()), None, None, None, None, None];
    let found = detect(resolved, vec![true, true, false]);
    assert_eq!(names(&found), vec!["Cursor", "VS Code"]);
    assert_eq!(found[0].command, "open -a Cursor");
    assert_eq!(found[0].detected_path, Some("/Applications/Cursor.app".into()));
    assert_eq!(found[1].detected_path, Some("/usr/local/bin/code".into()));
}

#[test]
fn detect_finds_nothing_when_nothing_is_installed() {
    assert!(detect(Vec::new(), Vec::new()).is_empty());
}

#[test]
fn resolve_cli_takes_the_first_line() {
    let out = CommandOutput { success: true, stdout: "  C:\\bin\\code.cmd \r\nC:\\other\n".into(), stderr: String::new() };
    assert_eq!(resolve_cli(&out), Some("C:\\bin\\code.cmd".into()));
    let missing = CommandOutput { success: false, stdout: "/x".into(), stderr: String::new() };
    assert_eq!(resolve_cli(&missing), None);
    let blank = CommandOutput { success: true, stdout: "   \n/x".into(), stderr: String::new() };
    assert_eq!(resolve_cli(&blank), None);
}

#[test]
fn macos_app_name_strips_the_quotes() {
    assert_eq!(macos_app_name("open -a 'Visual Studio Code'"), Some("Visual Studio Code".into()));
    assert_eq!(macos_app_name("open -a Zed"), Some("Zed".into()));
    assert_eq!(macos_app_name("open -a   "), None);
    assert_eq!(macos_app_name("code"), None);
}

#[test]
fn gui_editors_are_the_windowed_ones() {
    for c in ["code", "cursor", "zed", "subl"] {
        assert!(is_gui_editor(c));
    }
    assert!(!is_gui_editor("vim"));
    assert!(!is_gui_editor("Code"));
}

#[test]
fn scripts_are_not_started_directly() {
    assert_eq!(direct_executable(Some("C:\\bin\\code.CMD")), None);
    assert_eq!(direct_executable(Some("C:\\bin\\run.bat")), None);
    assert_eq!(direct_executable(Some("/usr/bin/code")), Some("/usr/bin/code".into()));
    assert_eq!(direct_executable(None), None);
}

#[test]
fn launch_plan_opens_macos_applications() {
    let plan = launch_plan("open -a 'Visual Studio Code'", None, None, "/repo/a.rs");
    assert_eq!(plan.program, "open");
    assert_eq!(plan.args, vec!["-a", "Visual Studio Code", "--", "/repo/a.rs"]);
    assert!(plan.gui);
}

#[test]
fn launch_plan_prefers_the_detected_path_then_the_search_path() {
    let plan = launch_plan("code", Some("/usr/bin/code"), Some("/other/code".into()), "/repo");
    assert_eq!((plan.program.as_str(), plan.gui), ("/usr/bin/code", true));
    assert_eq!(plan.args, vec!["/repo"]);
    let plan = launch_plan("code", Some("C:\\bin\\code.cmd"), Some("C:\\bin\\code.exe".into()), "/repo");
    assert_eq!(plan.program, "C:\\bin\\code.exe");
    let plan = launch_plan("vim", None, None, "/repo/x");
    assert_eq!((plan.program.as_str(), plan.gui), ("vim", false));
}

#[test]
fn editor_exit_error_shows_the_status() {
    assert_eq!(editor_exit_error(Some(2)), "Editor exited with status 2");
    assert_eq!(editor_exit_error(None), "Editor exited with status -1");
}
