use opensessions_server::agents::{
    event_needs_listing, resolve_agent_event_session, resolve_agent_pane,
    resolve_agent_watcher_session, resolve_tracked_agent_pane, snapshot_needs_listing,
    sync_agent_pane_presence, AgentEvent, AgentPane, AgentWatcherSnapshot, ProviderPanes,
    SessionPanes,
};
use opensessions_server::commands::AgentTarget;
use opensessions_server::errors::AgentEventError;
use opensessions_server::json::JsonBody;
use opensessions_server::protocol::{AgentLiveness, AgentStatus};
use opensessions_server::sessions::MuxSessionInfo;
use opensessions_server::state_source::{ReadOnlyMuxStateSource, SeenPane};
use opensessions_server::websocket::parse_command;

fn json(text: &str) -> JsonBody {
    parse_command(Some(text)).expect("the text is JSON")
}

fn listing(sessions: &[(&str, &str)]) -> Vec<MuxSessionInfo> {
    sessions
        .iter()
        .map(|(name, dir)| MuxSessionInfo {
            name: name.to_string(),
            created_at: 0,
            dir: dir.to_string(),
            windows: 1,
        })
        .collect()
}

fn seen(session: &str, pane_id: &str) -> SeenPane {
    SeenPane {
        session: session.to_string(),
        pane_id: pane_id.to_string(),
    }
}

#[test]
fn events_that_lack_something_are_refused() {
    let source = ReadOnlyMuxStateSource::new();
    let listings = vec![listing(&[("work", "/w")])];
    let error = |text: &str| source.apply_agent_event(&json(text), &listings, 9).unwrap_err();
    assert_eq!(error(r#"{"status":"running"}"#), AgentEventError::MissingAgent);
    assert_eq!(error(r#"{"agent":"pi"}"#), AgentEventError::InvalidStatus);
    assert_eq!(error(r#"{"agent":"pi","status":"happy"}"#), AgentEventError::InvalidStatus);
    assert_eq!(
        error(r#"{"agent":"pi","status":"done","projectDir":"/x","tmuxSession":"play"}"#),
        AgentEventError::CouldNotResolveSession,
    );
}

#[test]
fn events_are_taken_over() {
    let mut source = ReadOnlyMuxStateSource::new();
    let listings = vec![listing(&[("work", "/w")])];
    let text = r#"{"agent":"pi","status":"done","tmuxSession":"work","paneId":"%1","threadName":"n","last_user_prompt":"p"}"#;
    let plan = source.apply_agent_event(&json(text), &listings, 9).unwrap();
    assert_eq!(
        plan.event,
        AgentEvent {
            agent: "pi".to_string(),
            session: "work".to_string(),
            status: AgentStatus::Done,
            ts: 9,
            thread_id: None,
            thread_name: Some("n".to_string()),
            last_user_prompt: Some("p".to_string()),
            unseen: None,
            pane_id: Some("%1".to_string()),
            liveness: Some(AgentLiveness::Alive),
        },
    );
    assert_eq!(plan.seen, None);

    source.handle_http_text("/focus", "|work|@1|%1");
    assert_eq!(
        source.apply_agent_event(&json(text), &listings, 9).unwrap().seen,
        Some(seen("work", "%1")),
    );
    let other = r#"{"agent":"pi","status":"done","tmuxSession":"work","paneId":"%2","ts":3,"lastUserPrompt":1,"last_user_prompt":"p"}"#;
    let plan = source.apply_agent_event(&json(other), &listings, 9).unwrap();
    assert_eq!(plan.seen, None);
    assert_eq!((plan.event.ts, plan.event.last_user_prompt), (3, None));
}

#[test]
fn ambiguous_directories_fall_back_to_the_named_session() {
    let listings = vec![listing(&[("a", "/w"), ("b", "/w")]), listing(&[("c", "/w")])];
    let resolve = |text: &str| resolve_agent_event_session(&json(text), &listings);
    assert_eq!(resolve(r#"{"projectDir":"/w"}"#), None);
    assert_eq!(resolve(r#"{"projectDir":"/w","tmuxSession":"c"}"#), Some("c".to_string()));
    assert_eq!(resolve(r#"{"tmuxSession":"d"}"#), None);
}

#[test]
fn encoded_directories_lead_to_the_first_session() {
    let listings = vec![
        listing(&[("a", "/home/u/x.y"), ("b", "/home/u/x_y")]),
        listing(&[("c", "/srv")]),
    ];
    let resolve = |dir: &str| resolve_agent_watcher_session(Some(dir), &listings);
    assert_eq!(resolve("__encoded__:-home-u-x-y"), Some("a".to_string()));
    assert_eq!(resolve("__encoded__:-srv"), Some("c".to_string()));
    assert_eq!(resolve("__encoded__:-tmp"), None);
    assert_eq!(resolve("/srv/inner"), Some("c".to_string()));
    assert_eq!(resolve_agent_watcher_session(None, &listings), None);
}

fn snapshot(status: AgentStatus, dir: &str) -> AgentWatcherSnapshot<String> {
    AgentWatcherSnapshot {
        agent: "codex".to_string(),
        status,
        ts: 5,
        thread_id: Some("T".to_string()),
        thread_name: None,
        last_user_prompt: Some("p".to_string()),
        project_dir: Some(dir.to_string()),
    }
}

#[test]
fn snapshots_become_events() {
    let mut source = ReadOnlyMuxStateSource::new();
    let listings = vec![listing(&[("work", "/w")])];
    let apply = |source: &ReadOnlyMuxStateSource, status, dir: &str| {
        source.apply_agent_watcher_snapshot(&snapshot(status, dir), &listings)
    };
    assert!(apply(&source, AgentStatus::Idle, "/w").is_none());
    assert!(apply(&source, AgentStatus::Running, "/x").is_none());
    let plan = apply(&source, AgentStatus::Running, "/w").unwrap();
    assert_eq!(plan.event.session, "work");
    assert_eq!(plan.event.pane_id, None);
    assert_eq!(plan.event.liveness, None);
    assert_eq!(plan.event.thread_id, Some("T".to_string()));
    assert_eq!(plan.seen, None);
    source.handle_http_text("/focus", "|work|@1|%4");
    assert_eq!(
        apply(&source, AgentStatus::Running, "/w").unwrap().seen,
        Some(seen("work", "%4")),
    );
}

fn event(agent: &str, thread: &str, liveness: Option<AgentLiveness>, pane: Option<&str>) -> AgentEvent<String> {
    AgentEvent {
        agent: agent.to_string(),
        session: "work".to_string(),
        status: AgentStatus::Running,
        ts: 0,
        thread_id: Some(thread.to_string()),
        thread_name: None,
        last_user_prompt: None,
        unseen: None,
        pane_id: pane.map(str::to_string),
        liveness,
    }
}

#[test]
fn tracked_panes_are_found_by_thread() {
    let events = vec![
        event("pi", "T", None, Some("%1")),
        event("pi", "T", Some(AgentLiveness::Exited), Some("%2")),
        event("pi", "T", Some(AgentLiveness::Alive), None),
        event("amp", "T", Some(AgentLiveness::Alive), Some("%3")),
        event("pi", "T", Some(AgentLiveness::Alive), Some("%4")),
        event("pi", "T", Some(AgentLiveness::Alive), Some("%5")),
    ];
    assert_eq!(resolve_tracked_agent_pane(&events, "pi", Some("T")), Some("%4".to_string()));
    assert_eq!(resolve_tracked_agent_pane(&events, "pi", Some("U")), None);
    assert_eq!(resolve_tracked_agent_pane(&events, "pi", None), None);
    let mut target = AgentTarget {
        session: "work".to_string(),
        agent: "pi".to_string(),
        thread_id: Some("T".to_string()),
        thread_name: None,
        pane_id: Some("%9".to_string()),
    };
    assert_eq!(resolve_agent_pane(&target, &events), Some("%9".to_string()));
    target.pane_id = None;
    assert_eq!(resolve_agent_pane(&target, &events), Some("%4".to_string()));
}

fn panes(session: &str, ids: &[&str]) -> SessionPanes {
    SessionPanes {
        session: session.to_string(),
        panes: ids
            .iter()
            .map(|id| AgentPane {
                agent: "pi".to_string(),
                pane_id: id.to_string(),
                active: true,
                thread_id: None,
                thread_name: None,
            })
            .collect(),
    }
}

#[test]
fn panes_of_agents_are_collected() {
    let collected = sync_agent_pane_presence(vec![
        ProviderPanes {
            client_focus: Some(seen("b", "%2")),
            sessions: vec![panes("a", &["%1"]), panes("b", &["%2", "%3"])],
        },
        ProviderPanes {
            client_focus: Some(seen("c", "%1")),
            sessions: vec![panes("c", &["%4"])],
        },
        ProviderPanes {
            client_focus: Some(seen("b", "%3")),
            sessions: vec![panes("b", &["%3"])],
        },
    ]);
    let sessions: Vec<&str> = collected.presence.iter().map(|s| s.session.as_str()).collect();
    assert_eq!(sessions, vec!["a", "b", "c", "b"]);
    assert_eq!(collected.presence[1].panes.len(), 2);
    assert_eq!(collected.focused, vec![seen("b", "%3")]);
}

#[test]
fn providers_are_asked_until_an_event_is_decided() {
    let open = |text: &str, listings: &Vec<Vec<MuxSessionInfo>>| {
        event_needs_listing(&json(text), listings)
    };
    let none = Vec::new();
    let local = vec![listing(&[("work", "/w")])];
    let both = vec![listing(&[("work", "/w")]), listing(&[("web-1/x", "/x")])];
    let by_dir = r#"{"agent":"pi","status":"done","projectDir":"/w"}"#;
    assert!(open(by_dir, &none));
    assert!(!open(by_dir, &local));
    let elsewhere = r#"{"agent":"pi","status":"done","projectDir":"/x","tmuxSession":"work"}"#;
    assert!(open(elsewhere, &local));
    assert!(!open(elsewhere, &both));
    let named = r#"{"agent":"pi","status":"done","tmuxSession":"web-1/x"}"#;
    assert!(open(named, &local));
    assert!(!open(named, &both));
    assert!(!open(r#"{"agent":"pi","status":"done"}"#, &none));
    assert!(!open(r#"{"status":"done","projectDir":"/w"}"#, &none));
    assert!(!open(r#"{"agent":"pi","status":"happy","projectDir":"/w"}"#, &none));
    let unclear = vec![listing(&[("a", "/w"), ("b", "/w")])];
    assert!(!open(by_dir, &unclear));
    assert_eq!(resolve_agent_event_session(&json(by_dir), &unclear), None);
}

#[test]
fn providers_are_asked_until_a_file_is_decided() {
    let snapshot = |status, dir: Option<&str>| AgentWatcherSnapshot {
        agent: "pi".to_string(),
        status,
        ts: 1,
        thread_id: None,
        thread_name: None,
        last_user_prompt: None,
        project_dir: dir.map(str::to_string),
    };
    let local = vec![listing(&[("work", "/w")])];
    let running = AgentStatus::Running;
    assert!(!snapshot_needs_listing(&snapshot(running, Some("/w")), &local));
    assert!(snapshot_needs_listing(&snapshot(running, Some("/x")), &local));
    assert!(!snapshot_needs_listing(&snapshot(running, Some("__encoded__:-w")), &local));
    assert!(snapshot_needs_listing(&snapshot(running, Some("__encoded__:-x")), &local));
    assert!(!snapshot_needs_listing(&snapshot(running, None), &local));
    assert!(!snapshot_needs_listing(&snapshot(AgentStatus::Idle, Some("/x")), &local));
}
