use opensessions_server::commands::{
    clamp_detail_panel_height, is_followed_by_snapshot, read_client_command, AgentTarget,
    ClientCommand,
};
use opensessions_server::context::{
    parse_context, parse_context_client, parse_context_session, parse_process_row,
    trim_context_quotes, ClientConnectionContext, HttpContext,
};
use opensessions_server::errors::PiRuntimeError;
use opensessions_server::json::JsonBody;
use opensessions_server::metadata::{handle_http_json, MetadataCommand, Progress, Status};
use opensessions_server::protocol::{
    parse_agent_panel_scope, parse_agent_status, parse_metadata_tone, parse_session_filter,
    AgentPanelScope, AgentStatus, MetadataTone, SessionFilterMode,
};
use opensessions_server::state_source::{
    current_session, ReadOnlyMuxStateSource, SeenPane, SidebarState, SnapshotSettings,
};
use opensessions_server::websocket::{is_client_view_command, parse_command, switch_session_target};

fn json(text: &str) -> JsonBody {
    parse_command(Some(text)).expect("the text is JSON")
}

fn command(text: &str) -> Option<ClientCommand<String>> {
    read_client_command(&json(text), None)
}

fn settings(source: &ReadOnlyMuxStateSource) -> SnapshotSettings {
    source.snapshot_settings(&SidebarState {
        width: 26,
        initializing: false,
        init_label: String::new(),
    })
}

fn send(source: &mut ReadOnlyMuxStateSource, text: &str) {
    source.handle_client_command_with_context(&json(text), None, true);
}

fn context(
    client_tty: Option<&str>,
    session: &str,
    window_id: &str,
    pane_id: Option<&str>,
    pane_active: Option<bool>,
) -> Option<HttpContext> {
    Some(HttpContext {
        client_tty: client_tty.map(str::to_string),
        session: session.to_string(),
        window_id: window_id.to_string(),
        pane_id: pane_id.map(str::to_string),
        pane_active,
    })
}

#[test]
fn contexts_come_between_bars_or_with_a_colon() {
    assert_eq!(
        parse_context("/dev/1|work|@1|%2|1"),
        context(Some("/dev/1"), "work", "@1", Some("%2"), Some(true)),
    );
    assert_eq!(
        parse_context(" \"'|work|@1||0'\" \n"),
        context(None, "work", "@1", Some(""), Some(false)),
    );
    assert_eq!(parse_context("t|work|@1|%2"), context(Some("t"), "work", "@1", Some("%2"), None));
    assert_eq!(parse_context("t|work|@1"), context(Some("t"), "work", "@1", None, None));
    assert_eq!(parse_context("work:@1:x"), context(None, "work", "@1:x", None, None));
    assert_eq!(parse_context("a|b:c"), context(None, "a|b", "c", None, None));
    assert_eq!(parse_context("t||@1:x"), context(None, "t||@1", "x", None, None));
    assert_eq!(parse_context(":x"), None);
    assert_eq!(parse_context("x:"), None);
    assert_eq!(parse_context("x"), None);
    assert_eq!(parse_context("1|2|3|4|5|6"), None);
    assert_eq!(parse_context_session("work:@1"), Some("work".to_string()));
    assert_eq!(parse_context_client("/dev/1|work|@1"), Some("/dev/1".to_string()));
    assert_eq!(parse_context_client("work:@1"), None);
}

#[test]
fn process_rows_hold_two_numbers() {
    assert_eq!(parse_process_row("  12   3 extra"), Some((12, 3)));
    assert_eq!(parse_process_row("12"), None);
    assert_eq!(parse_process_row("x 3"), None);
    assert_eq!(parse_process_row("4294967296 3"), None);
}

#[test]
fn words_of_the_protocol_are_read() {
    assert_eq!(parse_agent_status("tool-running"), Some(AgentStatus::ToolRunning));
    assert_eq!(parse_agent_status("stale"), Some(AgentStatus::Stale));
    assert_eq!(parse_agent_status("Running"), None);
    assert_eq!(parse_metadata_tone("warn"), Some(MetadataTone::Warn));
    assert_eq!(parse_metadata_tone(""), None);
    assert_eq!(parse_agent_panel_scope("all"), Some(AgentPanelScope::All));
    assert_eq!(parse_agent_panel_scope("active"), None);
    assert_eq!(parse_session_filter("active"), Some(SessionFilterMode::Active));
    assert_eq!(parse_session_filter("none"), None);
}

#[test]
fn commands_are_read() {
    assert_eq!(command(r#"{"type":"new-session"}"#), Some(ClientCommand::NewSession));
    assert_eq!(
        command(r#"{"type":"hide-session","name":"a"}"#),
        Some(ClientCommand::HideSession { name: "a".to_string() }),
    );
    assert_eq!(command(r#"{"type":"show-all-sessions"}"#), Some(ClientCommand::ShowAllSessions));
    assert_eq!(
        command(r#"{"type":"reorder-session","name":"a","delta":-1}"#),
        Some(ClientCommand::ReorderSession { name: "a".to_string(), delta: -1 }),
    );
    assert_eq!(
        command(r#"{"type":"reorder-worktree-group","key":"k","delta":257}"#),
        Some(ClientCommand::ReorderWorktreeGroup { key: "k".to_string(), delta: 1 }),
    );
    assert_eq!(
        command(r#"{"type":"set-sidebar-width","width":70000}"#),
        Some(ClientCommand::SetSidebarWidth { width: 65535 }),
    );
    assert_eq!(
        command(r#"{"type":"set-detail-panel-height","height":2}"#),
        Some(ClientCommand::SetDetailPanelHeight { height: 4 }),
    );
    assert_eq!(command(r#"{"type":"repair-width"}"#), Some(ClientCommand::RepairWidth));
    assert_eq!(
        command(r#"{"type":"switch-index","index":4294967296}"#),
        Some(ClientCommand::SwitchIndex { index: u32::MAX }),
    );
    let target = || AgentTarget {
        session: "s".to_string(),
        agent: "pi".to_string(),
        thread_id: Some("t".to_string()),
        thread_name: None,
        pane_id: Some("%1".to_string()),
    };
    assert_eq!(
        command(r#"{"type":"focus-agent-pane","session":"s","agent":"pi","threadId":"t","paneId":"%1"}"#),
        Some(ClientCommand::FocusAgentPane { target: target() }),
    );
    assert_eq!(
        command(r#"{"type":"kill-agent-pane","session":"s","agent":"pi","threadId":"t","paneId":"%1"}"#),
        Some(ClientCommand::KillAgentPane { target: target() }),
    );
    for refused in [
        r#"{"type":"switch-session"}"#,
        r#"{"type":"switch-session","name":1}"#,
        r#"{"type":"switch-index","index":-1}"#,
        r#"{"type":"reorder-session","name":"a","delta":1.5}"#,
        r#"{"type":"set-filter","filter":"some"}"#,
        r#"{"type":"set-agent-panel-scope","scope":"some"}"#,
        r#"{"type":"dismiss-agent","session":"s"}"#,
        r#"{"type":"unknown"}"#,
        r#"{"name":"a"}"#,
    ] {
        assert_eq!(command(refused), None);
    }
}

#[test]
fn a_switch_is_for_the_client_that_asks() {
    let client = ClientConnectionContext {
        client_tty: Some("/dev/1".to_string()),
        ..ClientConnectionContext::default()
    };
    let tty = |text: &str| match read_client_command(&json(text), Some(&client)) {
        Some(ClientCommand::SwitchSession { client_tty, .. }) => client_tty,
        other => panic!("{other:?}"),
    };
    assert_eq!(tty(r#"{"type":"switch-session","name":"a"}"#), Some("/dev/1".to_string()));
    assert_eq!(
        tty(r#"{"type":"switch-session","name":"a","clientTty":"/dev/2"}"#),
        Some("/dev/2".to_string()),
    );
}

#[test]
fn settings_are_remembered() {
    let mut source = ReadOnlyMuxStateSource::new().with_detail_panel_height(100);
    assert_eq!(settings(&source).detail_panel_height, 60);
    assert_eq!(settings(&ReadOnlyMuxStateSource::new()).detail_panel_height, 10);
    send(&mut source, r#"{"type":"set-detail-panel-height","height":12}"#);
    send(&mut source, r#"{"type":"set-theme","theme":"dark"}"#);
    send(&mut source, r#"{"type":"set-filter","filter":"running"}"#);
    send(&mut source, r#"{"type":"set-agent-panel-scope","scope":"all"}"#);
    send(&mut source, r#"{"type":"toggle-worktree-group","key":"one"}"#);
    send(&mut source, r#"{"type":"toggle-worktree-group","key":"two"}"#);
    let set = settings(&source);
    assert_eq!(set.detail_panel_height, 12);
    assert_eq!(set.theme, Some("dark".to_string()));
    assert_eq!(set.session_filter, Some(SessionFilterMode::Running));
    assert_eq!(set.agent_panel_scope, AgentPanelScope::All);
    assert_eq!(set.collapsed_worktree_groups, vec!["one".to_string(), "two".to_string()]);
    assert_eq!(set.init_label, None);
    send(&mut source, r#"{"type":"toggle-worktree-group","key":"one"}"#);
    assert_eq!(settings(&source).collapsed_worktree_groups, vec!["two".to_string()]);
    let starting = source.snapshot_settings(&SidebarState {
        width: 30,
        initializing: true,
        init_label: "warming up…".to_string(),
    });
    assert!(starting.initializing);
    assert_eq!(starting.sidebar_width, 30);
    assert_eq!(starting.init_label, Some("warming up…".to_string()));
    for (asked, given) in [(0, 4), (3, 4), (4, 4), (60, 60), (61, 60)] {
        assert_eq!(clamp_detail_panel_height(asked), given);
    }
}

#[test]
fn the_focus_is_remembered() {
    let mut source = ReadOnlyMuxStateSource::new();
    assert_eq!(source.handle_http_text("/other", "work:@1"), None);
    assert_eq!(settings(&source).focused_session, None);
    assert_eq!(source.handle_http_text("/focus", "work:@1"), None);
    assert_eq!(settings(&source).focused_session, Some("work".to_string()));
    assert_eq!(
        source.handle_http_text("/focus", "/dev/1|work|@1|%1|1"),
        Some(SeenPane { session: "work".to_string(), pane_id: "%1".to_string() }),
    );
    assert_eq!(source.focused_pane("work"), Some("%1"));
    assert_eq!(source.focused_client_tty(), Some("/dev/1"));
    assert_eq!(source.handle_http_text("/focus", "/dev/2|play|@1|%9|0"), None);
    assert_eq!(source.focused_pane("play"), None);
    assert_eq!(source.focused_client_tty(), Some("/dev/1"));
    assert_eq!(settings(&source).focused_session, Some("play".to_string()));
    assert_eq!(source.handle_http_text("/focus", "|work|@1||1"), None);
    source.handle_http_text("/focus", "|work|@1|%2");
    assert_eq!(source.focused_pane("work"), Some("%2"));
    assert_eq!(source.focused_client_tty(), Some("/dev/1"));
    source.focus_agent_panes(&vec![SeenPane {
        session: "play".to_string(),
        pane_id: "%7".to_string(),
    }]);
    let panes = source.focused_panes();
    assert_eq!(panes.len(), 2);
    assert_eq!(source.focused_pane("play"), Some("%7"));
    source.focus_session("other");
    assert_eq!(settings(&source).focused_session, Some("other".to_string()));
}

#[test]
fn pi_processes_come_and_go() {
    let mut source = ReadOnlyMuxStateSource::new();
    assert_eq!(
        source.handle_pi_runtime_upsert(&json(r#"{"pid":0,"sessionId":"S","cwd":"/"}"#), 5),
        Err(PiRuntimeError::InvalidPayload),
    );
    assert_eq!(
        source.handle_pi_runtime_upsert(&json(r#"{"pid":7,"sessionId":" S ","cwd":"/"}"#), 5),
        Ok(()),
    );
    assert_eq!(
        source.handle_pi_runtime_delete(&json(r#"{"pid":4294967296}"#)).unwrap_err(),
        PiRuntimeError::MissingPid,
    );
    let info = source.handle_pi_runtime_delete(&json(r#"{"pid":7}"#)).unwrap().unwrap();
    assert_eq!((info.session_id.as_str(), info.ts), ("S", 5));
    assert_eq!(source.handle_pi_runtime_delete(&json(r#"{"pid":7}"#)).unwrap(), None);
}

#[test]
fn the_first_provider_with_a_session_in_front_counts() {
    assert_eq!(
        current_session(&vec![None, Some("a".to_string()), Some("b".to_string())]),
        Some("a".to_string()),
    );
    assert_eq!(current_session(&vec![None, None]), None);
}

#[test]
fn reports_about_sessions_are_read() {
    let status = |text: Option<&str>, tone| {
        Some(MetadataCommand::SetStatus {
            session: "a".to_string(),
            status: text.map(|text| Status { text: text.to_string(), tone }),
        })
    };
    let read = |path: &str, text: &str| handle_http_json(path, &json(text));
    assert_eq!(
        read("/set-status", r#"{"session":"a","text":"busy","tone":"success"}"#),
        status(Some("busy"), Some(MetadataTone::Success)),
    );
    assert_eq!(
        read("/set-status", r#"{"session":"a","text":"busy","tone":"loud"}"#),
        status(Some("busy"), None),
    );
    assert_eq!(read("/set-status", r#"{"session":"a","text":null}"#), status(None, None));
    assert_eq!(read("/set-status", r#"{"session":"a"}"#), status(None, None));
    assert_eq!(read("/set-status", r#"{"session":"a","text":1}"#), None);
    assert_eq!(
        read(
            "/set-progress",
            r#"{"session":"a","current":1,"total":4,"percent":0.25,"label":"x"}"#,
        ),
        Some(MetadataCommand::SetProgress {
            session: "a".to_string(),
            progress: Some(Progress {
                current: Some(1),
                total: Some(4),
                percent_bits: Some(0.25f64.to_bits()),
                label: Some("x".to_string()),
            }),
        }),
    );
    assert_eq!(
        read("/set-progress", r#"{"session":"a","clear":true,"current":1}"#),
        Some(MetadataCommand::SetProgress { session: "a".to_string(), progress: None }),
    );
    for path in ["/log", "/notify"] {
        assert_eq!(
            read(path, r#"{"session":"a","message":"m","tone":"error","source":"s"}"#),
            Some(MetadataCommand::AppendLog {
                session: "a".to_string(),
                message: "m".to_string(),
                tone: Some(MetadataTone::Error),
                source: Some("s".to_string()),
            }),
        );
        assert_eq!(read(path, r#"{"session":"a"}"#), None);
    }
    assert_eq!(
        read("/clear-log", r#"{"session":"a"}"#),
        Some(MetadataCommand::ClearLogs { session: "a".to_string() }),
    );
    assert_eq!(read("/clear-log", "{}"), None);
    assert_eq!(read("/other", r#"{"session":"a"}"#), None);
}

#[test]
fn switches_are_told_and_followed_by_no_state() {
    for text in [
        r#"{"type":"switch-session","name":"a","clientTty":"/dev/t1"}"#,
        r#"{"type":"switch-index","index":2}"#,
    ] {
        let body = json(text);
        assert!(is_client_view_command(&body));
        let command = read_client_command(&body, None).expect("a command");
        assert!(!is_followed_by_snapshot(&command, true));
    }
    let body = json(r#"{"type":"switch-session","name":"a","clientTty":"/dev/t1"}"#);
    assert_eq!(switch_session_target(&body).as_deref(), Some("a"));
    assert_eq!(
        read_client_command(&body, None),
        Some(ClientCommand::SwitchSession {
            name: "a".to_string(),
            client_tty: Some("/dev/t1".to_string()),
        }),
    );
    assert!(is_followed_by_snapshot(&ClientCommand::NewSession, false));
}

#[test]
fn quotes_around_a_report_are_dropped() {
    let trimmed = |text: &str| {
        let chars: Vec<char> = text.chars().collect();
        trim_context_quotes(&chars).iter().collect::<String>()
    };
    assert_eq!(trimmed(" \"'a:b'\" \n"), "a:b");
    assert_eq!(trimmed("\"\"a\"b\"\""), "a\"b");
    assert_eq!(trimmed("'\"a\"'"), "\"a\"");
    assert_eq!(trimmed("\"' '\""), " ");
}

#[test]
fn snapshots_hold_the_last_height_within_its_bounds() {
    let mut source = ReadOnlyMuxStateSource::new();
    assert_eq!(settings(&source).detail_panel_height, 10);
    send(&mut source, r#"{"type":"set-theme","theme":"dark"}"#);
    assert_eq!(settings(&source).detail_panel_height, 10);
    for (height, shown) in [(1, 4), (4, 4), (33, 33), (60, 60), (61, 60), (99_999, 60)] {
        send(&mut source, &format!(r#"{{"type":"set-detail-panel-height","height":{height}}}"#));
        source.handle_http_text("/focus", "t|work|@1|%1|1");
        assert_eq!(settings(&source).detail_panel_height, shown);
    }
    let low = ReadOnlyMuxStateSource::new().with_detail_panel_height(0);
    assert_eq!(settings(&low).detail_panel_height, 4);
}
