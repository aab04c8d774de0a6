use opensessions_server::agents::AgentWatcherSnapshot;
use opensessions_server::protocol::AgentStatus;
use opensessions_server::state_changes::{strip_ts_field, ChangeDetector};
use opensessions_server::watchers::{
    after_query, agent_watcher_key, is_recent, opencode_rows_in, poll_process,
    scan_opencode_sessions, stage_query, OpencodeRow, ProcessPoll, QueryStage, QueryStep, WatcherLog,
    OPENCODE_SQL_TIMEOUT_MS,
};

fn snapshot(agent: &str, thread: Option<&str>, status: AgentStatus) -> AgentWatcherSnapshot<String> {
    AgentWatcherSnapshot {
        agent: agent.to_string(),
        status,
        ts: 1,
        thread_id: thread.map(str::to_string),
        thread_name: None,
        last_user_prompt: None,
        project_dir: Some("/w".to_string()),
    }
}

#[test]
fn snapshots_are_news_until_they_are_applied() {
    let mut log = WatcherLog::new();
    let mut running = snapshot("pi", Some("T"), AgentStatus::Running);
    assert!(log.is_news(&running));
    // A snapshot that was dropped is tried again.
    assert!(log.is_news(&running));
    log.record(&running);
    assert!(!log.is_news(&running));
    running.ts = 99;
    assert!(!log.is_news(&running));
    running.last_user_prompt = Some("next".to_string());
    assert!(log.is_news(&running));
    assert!(log.is_news(&snapshot("pi", Some("U"), AgentStatus::Running)));
    assert!(log.is_news(&snapshot("amp", Some("T"), AgentStatus::Running)));
    assert!(log.is_news(&snapshot("pi", Some("T"), AgentStatus::Done)));
    assert!(!log.is_news(&snapshot("pi", Some("V"), AgentStatus::Idle)));
}

#[test]
fn threads_have_keys() {
    assert_eq!(agent_watcher_key(&snapshot("pi", Some("T"), AgentStatus::Done)), "pi\0T");
    let mut bare = snapshot("pi", None, AgentStatus::Done);
    assert_eq!(agent_watcher_key(&bare), "pi\0/w");
    bare.project_dir = None;
    assert_eq!(agent_watcher_key(&bare), "pi\0");
}

#[test]
fn files_are_recent_for_five_minutes() {
    assert!(is_recent(300_000, 0));
    assert!(!is_recent(300_001, 0));
    assert!(is_recent(0, 500));
}

#[test]
fn queries_fall_back_to_older_databases() {
    assert_eq!(after_query(QueryStage::Full, Some(true)), QueryStep::Read);
    assert_eq!(after_query(QueryStage::Full, None), QueryStep::Run(QueryStage::Legacy));
    assert_eq!(after_query(QueryStage::Full, Some(false)), QueryStep::Run(QueryStage::LegacyRetry));
    assert_eq!(after_query(QueryStage::Legacy, Some(true)), QueryStep::Read);
    assert_eq!(after_query(QueryStage::Legacy, None), QueryStep::GiveUp);
    assert_eq!(
        after_query(QueryStage::Legacy, Some(false)),
        QueryStep::Run(QueryStage::LegacyRetry),
    );
    assert_eq!(after_query(QueryStage::LegacyRetry, Some(true)), QueryStep::Read);
    assert_eq!(after_query(QueryStage::LegacyRetry, Some(false)), QueryStep::GiveUp);
    assert_eq!(after_query(QueryStage::LegacyRetry, None), QueryStep::GiveUp);
    assert_eq!(
        stage_query(QueryStage::Full, 300_042),
        "WITH recent AS MATERIALIZED (SELECT id, title, directory, time_updated FROM session WHERE time_updated > 42 ORDER BY time_updated DESC LIMIT 50) SELECT r.id, ifnull(r.title,''), r.directory, r.time_updated, ifnull((SELECT m.data FROM message m WHERE m.session_id = r.id ORDER BY m.time_created DESC LIMIT 1),''), ifnull((SELECT sm.data FROM session_message sm WHERE sm.session_id = r.id AND sm.type = 'user' ORDER BY sm.seq DESC LIMIT 1),'') FROM recent r ORDER BY r.time_updated DESC;",
    );
    let legacy = "WITH recent AS MATERIALIZED (SELECT id, title, directory, time_updated FROM session WHERE time_updated > 0 ORDER BY time_updated DESC LIMIT 50) SELECT r.id, ifnull(r.title,''), r.directory, r.time_updated, ifnull((SELECT m.data FROM message m WHERE m.session_id = r.id ORDER BY m.time_created DESC LIMIT 1),'') FROM recent r ORDER BY r.time_updated DESC;";
    assert_eq!(stage_query(QueryStage::Legacy, 5), legacy);
    assert_eq!(stage_query(QueryStage::LegacyRetry, 5), legacy);
}

#[test]
fn rows_of_opencode_are_read() {
    let row = |title: Option<&str>, time_updated, prompt: Option<&str>| OpencodeRow {
        id: "id".to_string(),
        title: title.map(str::to_string),
        directory: "/w".to_string(),
        time_updated,
        message: "{}".to_string(),
        prompt: prompt.map(str::to_string),
    };
    let text = "id\u{1f}t\u{1f}/w\u{1f}12\u{1f}{}\u{1f}p\nid\u{1f}\u{1f}/w\u{1f}x\u{1f}{}\u{1f}\nid\u{1f}t\u{1f}/w\u{1f}12\u{1f}\nid\u{1f}t\u{1f}/w\u{1f}12\nid\u{1f}t\u{1f}/w\u{1f}1\u{1f}{}\n";
    let rows = vec![
        row(Some("t"), 12, Some("p")),
        row(None, 77, None),
        row(Some("t"), 1, None),
    ];
    assert_eq!(opencode_rows_in(text, 77), rows);
    assert_eq!(scan_opencode_sessions(text.as_bytes(), 77), rows);
    assert_eq!(
        scan_opencode_sessions(b"\xff\x1f\x1f/w\x1f3\x1fm", 0)[0].id,
        "\u{fffd}",
    );
}

#[test]
fn times_are_stripped() {
    assert_eq!(strip_ts_field(r#"{"type":"state","ts":17}"#), r#"{"type":"state"}"#);
    assert_eq!(strip_ts_field(r#"{"a":1,"ts":12}"#), r#"{"a":1}"#);
    assert_eq!(strip_ts_field(r#"{"a":1,"ts":12,"b":2}"#), r#"{"a":1,"b":2}"#);
    assert_eq!(strip_ts_field(r#"{"ts":12,"b":2}"#), r#"{"b":2}"#);
    assert_eq!(strip_ts_field(r#"{"ts":12}"#), "{}");
    assert_eq!(strip_ts_field(r#"{"ts":1,"b":{"c":3,"ts":4}}"#), r#"{"b":{"c":3}}"#);
    assert_eq!(strip_ts_field(r#"{"a":1,"ts":null}"#), r#"{"a":1,"ts":null}"#);
    assert_eq!(strip_ts_field(r#"{"ts":"#), r#"{"ts":"#);
    assert_eq!(strip_ts_field(r#""ts":12x"#), "x");
    assert_eq!(strip_ts_field("ü no times 12"), "ü no times 12");
    assert_eq!(strip_ts_field(r#"{"ats":12}"#), r#"{"ats":12}"#);
}

#[test]
fn only_more_than_a_time_is_a_change() {
    let mut detector = ChangeDetector::new(r#"{"a":1,"ts":1}"#);
    assert!(!detector.observe(r#"{"a":1,"ts":22}"#));
    assert!(detector.observe(r#"{"a":2,"ts":22}"#));
    assert!(!detector.observe(r#"{"a":2,"ts":333}"#));
    assert!(detector.observe(r#"{"a":1,"ts":333}"#));
}

#[test]
fn processes_are_killed_when_their_time_is_over() {
    let limit = OPENCODE_SQL_TIMEOUT_MS;
    assert_eq!(limit, 500);
    assert_eq!(poll_process(false, limit - 1, limit), ProcessPoll::Wait);
    assert_eq!(poll_process(false, limit, limit), ProcessPoll::Kill);
    assert_eq!(poll_process(true, limit - 1, limit), ProcessPoll::Collect);
    assert_eq!(poll_process(true, limit + 1, limit), ProcessPoll::Collect);
}
