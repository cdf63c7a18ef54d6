use branchgate::analytics::{queue_overflow, MAX_QUEUED_EVENTS};
use branchgate::analytics::{
    optional_setting_write, pending_distinct_id_from_args, query_param, queue_event_check,
    AnalyticsState, FlushAction, FlushRun, FlushWrite,
};

fn args(list: &[&str]) -> Vec<String> {
    list.iter().map(|a| a.to_string()).collect()
}

#[test]
fn query_param_reads_the_first_non_empty_value() {
    assert_eq!(query_param("branchgate://open?pid=abc&x=1", "pid"), Some("abc".into()));
    assert_eq!(query_param("app://x?pid=&pid=second", "pid"), Some("second".into()));
    assert_eq!(query_param("app://x?pidx=1&a=b=c", "a"), Some("b=c".into()));
    assert_eq!(query_param("no query here", "pid"), None);
    assert_eq!(query_param("app://x?other=1", "pid"), None);
}

#[test]
fn query_param_ignores_text_after_a_second_question_mark() {
    assert_eq!(query_param("a?x=1?pid=2", "pid"), None);
}

#[test]
fn distinct_id_comes_from_the_first_argument_that_names_one() {
    assert_eq!(pending_distinct_id_from_args(&args(&["app", "--pid", "p1", "--pid=p2"])), Some("p1".into()));
    assert_eq!(pending_distinct_id_from_args(&args(&["app", "--pid=p2"])), Some("p2".into()));
    assert_eq!(pending_distinct_id_from_args(&args(&["app", "branchgate://launch?pid=p3"])), Some("p3".into()));
    assert_eq!(pending_distinct_id_from_args(&args(&["app", "--pid=", "--pid", "p4"])), Some("p4".into()));
    assert_eq!(pending_distinct_id_from_args(&args(&["app", "--pid", ""])), None);
    assert_eq!(pending_distinct_id_from_args(&args(&["app", "--pid"])), None);
    assert_eq!(pending_distinct_id_from_args(&args(&["app"])), None);
}

#[test]
fn events_need_consent_a_name_and_an_id() {
    assert_eq!(queue_event_check(false, "", ""), Ok(false));
    assert_eq!(queue_event_check(true, "user-1", "app_opened"), Ok(true));
    assert_eq!(
        queue_event_check(true, "  ", "app_opened"),
        Err("Analytics event and distinct ID are required".to_string())
    );
    assert!(queue_event_check(true, "user-1", "\t").is_err());
}

#[test]
fn optional_setting_write_removes_empty_values() {
    let w = optional_setting_write("pending_distinct_id", Some("p1"));
    assert_eq!((w.key.as_str(), w.value.as_deref()), ("pending_distinct_id", Some("p1")));
    assert_eq!(optional_setting_write("k", Some("")).value, None);
    assert_eq!(optional_setting_write("k", None).value, None);
}

#[test]
fn analytics_state_starts_without_an_id() {
    assert_eq!(AnalyticsState::default().pending_distinct_id, None);
}

#[test]
fn flush_sends_in_order_and_stops_at_the_first_failure() {
    let (mut run, action) = FlushRun::start(true, vec![11, 12, 13]);
    assert_eq!(action, FlushAction::Send { id: 11 });
    let (write, action) = run.advance(Ok(()));
    assert!(matches!(write, FlushWrite::Delete { id: 11 }));
    assert_eq!(action, FlushAction::Send { id: 12 });
    let (write, action) = run.advance(Err("HTTP 500".into()));
    match write {
        FlushWrite::RecordFailure { id, error } => {
            assert_eq!(id, 12);
            assert_eq!(error, "HTTP 500");
        }
        FlushWrite::Delete { .. } => panic!("a failed send must stay queued"),
    }
    assert_eq!(action, FlushAction::Finish { sent: 1 });
    assert!(run.finished);
}

#[test]
fn flush_reports_every_event_sent() {
    let (mut run, _) = FlushRun::start(true, vec![1, 2]);
    run.advance(Ok(()));
    let (write, action) = run.advance(Ok(()));
    assert!(matches!(write, FlushWrite::Delete { id: 2 }));
    assert_eq!(action, FlushAction::Finish { sent: 2 });
}

#[test]
fn flush_sends_nothing_without_consent_or_events() {
    let (run, action) = FlushRun::start(false, vec![1, 2]);
    assert_eq!(action, FlushAction::Finish { sent: 0 });
    assert!(run.finished);
    let (_, action) = FlushRun::start(true, Vec::new());
    assert_eq!(action, FlushAction::Finish { sent: 0 });
}

#[test]
fn the_queue_keeps_only_the_newest_events() {
    let small: Vec<i64> = (1..=5).collect();
    assert!(queue_overflow(&small).is_empty());
    let full: Vec<i64> = (1..=MAX_QUEUED_EVENTS as i64).collect();
    assert!(queue_overflow(&full).is_empty());
    let over: Vec<i64> = (1..=(MAX_QUEUED_EVENTS as i64 + 3)).rev().collect();
    assert_eq!(queue_overflow(&over), vec![3, 2, 1]);
    assert_eq!(MAX_QUEUED_EVENTS, 10000);
}
