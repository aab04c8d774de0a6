use opensessions_server::agents::{pi_dismissal, AgentEvent, AgentEventPlan};
use opensessions_server::commands::{is_followed_by_snapshot, ClientCommand};
use opensessions_server::errors::{AgentEventError, PiRuntimeError};
use opensessions_server::json::JsonBody;
use opensessions_server::sessions::{provider_for_session, sorted_session_names, MuxSessionInfo};
use opensessions_server::state_source::ReadOnlyMuxStateSource;
use opensessions_server::switching::{plan_switch, switch_visible_index};
use opensessions_server::websocket::parse_command;

fn json(text: &str) -> JsonBody {
    parse_command(Some(text)).expect("the text is JSON")
}

/// A provider with a fixed list of sessions that writes down what it is told.
struct FakeProvider {
    name: &'static str,
    sessions: Vec<(&'static str, &'static str)>,
    current: Option<&'static str>,
    switched: Vec<(String, Option<String>)>,
    killed: Vec<String>,
}

impl FakeProvider {
    fn new(name: &'static str, sessions: Vec<&'static str>) -> Self {
        Self::with_dirs(name, sessions.into_iter().map(|name| (name, "")).collect())
    }

    fn with_dirs(name: &'static str, sessions: Vec<(&'static str, &'static str)>) -> Self {
        FakeProvider {
            name,
            sessions,
            current: None,
            switched: Vec::new(),
            killed: Vec::new(),
        }
    }

    fn list_sessions(&self) -> Vec<MuxSessionInfo> {
        self.sessions
            .iter()
            .map(|(name, dir)| MuxSessionInfo {
                name: (*name).to_string(),
                created_at: 0,
                dir: (*dir).to_string(),
                windows: 1,
            })
            .collect()
    }
}

/// The events of agents that were taken over, in the place of a tracker.
#[derive(Default)]
struct FakeTracker {
    events: Vec<AgentEvent<String>>,
}

impl FakeTracker {
    fn apply(&mut self, plan: AgentEventPlan) {
        self.events.push(plan.event);
    }

    fn dismiss(&mut self, session: &str, agent: &str, thread_id: Option<&str>) -> bool {
        let before = self.events.len();
        self.events.retain(|event| {
            event.session != session
                || event.agent != agent
                || event.thread_id.as_deref() != thread_id
        });
        self.events.len() < before
    }

    fn get_agents(&self, session: &str) -> Vec<&AgentEvent<String>> {
        self.events
            .iter()
            .filter(|event| event.session == session)
            .collect()
    }
}

/// A server over fake providers, at the time 0.
struct Source {
    state: ReadOnlyMuxStateSource,
    providers: Vec<FakeProvider>,
    tracker: FakeTracker,
}

impl Source {
    fn with(providers: Vec<FakeProvider>) -> Self {
        Source {
            state: ReadOnlyMuxStateSource::new(),
            providers,
            tracker: FakeTracker::default(),
        }
    }

    fn listings(&self) -> Vec<Vec<MuxSessionInfo>> {
        self.providers.iter().map(FakeProvider::list_sessions).collect()
    }

    /// Handles a command, and says whether a fresh state follows.
    fn handle_client_command(&mut self, command: &JsonBody) -> bool {
        let listings = self.listings();
        let Some(command) = self.state.handle_client_command_with_context(
            command,
            None,
            !self.providers.is_empty(),
        ) else {
            return false;
        };
        let mut changed = false;
        match &command {
            ClientCommand::SwitchSession { name, client_tty } => {
                let plan = plan_switch(&listings, name, client_tty.as_deref()).unwrap();
                self.providers[plan.provider]
                    .switched
                    .push((plan.name, plan.client_tty));
            }
            ClientCommand::SwitchIndex { index } => {
                let names = sorted_session_names(&listings);
                if let Some(plan) = switch_visible_index(*index, None, &names, &listings) {
                    self.providers[plan.provider]
                        .switched
                        .push((plan.name, plan.client_tty));
                }
            }
            ClientCommand::KillSession { name } => {
                let owner = provider_for_session(&listings, name).unwrap();
                let names = sorted_session_names(&listings);
                let plan = self
                    .state
                    .plan_kill(name, self.providers[owner].current, Some(&names), &listings)
                    .unwrap();
                if let Some(switch) = plan.switch {
                    self.providers[switch.provider]
                        .switched
                        .push((switch.name, switch.client_tty));
                }
                self.providers[plan.provider].killed.push(name.clone());
            }
            ClientCommand::DismissAgent { session, agent, thread_id } => {
                changed = self.tracker.dismiss(session, agent, thread_id.as_deref());
            }
            _ => {}
        }
        is_followed_by_snapshot(&command, changed)
    }

    fn apply_agent_event(&mut self, body: &JsonBody) -> Result<(), AgentEventError> {
        let plan = self.state.apply_agent_event(body, &self.listings(), 0)?;
        self.tracker.apply(plan);
        Ok(())
    }

    fn handle_pi_runtime_delete(&mut self, body: &JsonBody) -> Result<bool, PiRuntimeError> {
        let Some(info) = self.state.handle_pi_runtime_delete(body)? else {
            return Ok(false);
        };
        Ok(pi_dismissal(&info, &self.listings()).is_some_and(|dismissal| {
            self.tracker
                .dismiss(&dismissal.session, &dismissal.agent, Some(&dismissal.thread_id))
        }))
    }
}

#[test]
fn provider_for_session_routes_by_session_listing_with_local_fallback() {
    let source = Source::with(vec![
        FakeProvider::new("tmux", vec!["agents"]),
        FakeProvider::new("tmux-remote", vec!["web-1/main"]),
    ]);
    let name_for = |session: &str| {
        let provider = provider_for_session(&source.listings(), session).expect("provider");
        source.providers[provider].name
    };

    assert_eq!(name_for("agents"), "tmux");
    assert_eq!(name_for("web-1/main"), "tmux-remote");
    // Sessions no provider lists (races with kills, stale sidebar rows) still
    // route to the primary local provider instead of dropping the command.
    assert_eq!(name_for("ghost"), "tmux");
}

#[test]
fn switch_session_command_reaches_the_owning_provider() {
    let mut source = Source::with(vec![
        FakeProvider::new("tmux", vec!["agents"]),
        FakeProvider::new("tmux-remote", vec!["web-1/main"]),
    ]);

    source.handle_client_command(&json(
        r#"{"type":"switch-session","name":"web-1/main","clientTty":"/dev/ttys009"}"#,
    ));

    assert_eq!(
        source.providers[1].switched.as_slice(),
        &[("web-1/main".to_string(), Some("/dev/ttys009".to_string()))],
    );
    assert!(source.providers[0].switched.is_empty());
}

#[test]
fn kill_session_command_reaches_the_owning_provider() {
    let mut source = Source::with(vec![
        FakeProvider::new("tmux", vec!["agents"]),
        FakeProvider::new("tmux-remote", vec!["web-1/main"]),
    ]);

    source.handle_client_command(&json(r#"{"type":"kill-session","name":"web-1/main"}"#));

    assert_eq!(source.providers[1].killed.as_slice(), &["web-1/main".to_string()]);
    assert!(source.providers[0].killed.is_empty());
}

#[test]
fn dismiss_agent_command_removes_the_tracker_entry() {
    let mut source = Source::with(vec![FakeProvider::with_dirs(
        "tmux",
        vec![("work", "/home/u/work")],
    )]);

    source
        .apply_agent_event(&json(
            r#"{"agent":"pi","status":"running","threadId":"T-1","projectDir":"/home/u/work"}"#,
        ))
        .expect("event resolves to the work session");
    assert_eq!(source.tracker.get_agents("work").len(), 1);

    let snapshot = source.handle_client_command(&json(
        r#"{"type":"dismiss-agent","session":"work","agent":"pi","threadId":"T-1"}"#,
    ));

    assert!(snapshot);
    assert!(source.tracker.get_agents("work").is_empty());
}

#[test]
fn agent_events_resolve_to_the_local_provider_when_remote_shares_the_dir() {
    let mut source = Source::with(vec![
        FakeProvider::with_dirs("tmux", vec![("work", "/home/u/src/foo")]),
        FakeProvider::with_dirs("tmux-remote", vec![("web-1/work", "/home/u/src/foo")]),
    ]);

    source
        .apply_agent_event(&json(
            r#"{"agent":"pi","status":"running","threadId":"T-1","projectDir":"/home/u/src/foo"}"#,
        ))
        .expect("colliding remote dir must not make the local event ambiguous");

    assert_eq!(source.tracker.get_agents("work").len(), 1);
    assert!(source.tracker.get_agents("web-1/work").is_empty());
}

#[test]
fn pi_runtime_delete_dismisses_the_tracked_agent() {
    let mut source = Source::with(vec![FakeProvider::with_dirs(
        "tmux",
        vec![("work", "/home/u/work")],
    )]);

    source
        .state
        .handle_pi_runtime_upsert(
            &json(r#"{"pid":4242,"sessionId":"S-1","cwd":"/home/u/work","ts":1}"#),
            0,
        )
        .expect("upsert");
    source
        .apply_agent_event(&json(
            r#"{"agent":"pi","status":"running","threadId":"S-1","projectDir":"/home/u/work"}"#,
        ))
        .expect("event resolves to the work session");

    let snapshot = source
        .handle_pi_runtime_delete(&json(r#"{"pid":4242}"#))
        .expect("delete succeeds");

    assert!(snapshot);
    assert!(source.tracker.get_agents("work").is_empty());
}

#[test]
fn killing_the_current_session_switches_to_its_neighbour_first() {
    let mut source = Source::with(vec![FakeProvider::new("tmux", vec!["a", "b", "c"])]);
    source.providers[0].current = Some("b");
    assert!(source.handle_client_command(&json(r#"{"type":"kill-session","name":"b"}"#)));
    assert_eq!(source.providers[0].switched, vec![("a".to_string(), None)]);
    assert_eq!(source.providers[0].killed, vec!["b".to_string()]);

    source.providers[0].current = Some("a");
    source.handle_client_command(&json(r#"{"type":"kill-session","name":"a"}"#));
    assert_eq!(source.providers[0].switched[1], ("b".to_string(), None));

    source.providers[0].current = Some("a");
    source.handle_client_command(&json(r#"{"type":"kill-session","name":"c"}"#));
    assert_eq!(source.providers[0].switched.len(), 2);
}

#[test]
fn switching_by_index_counts_from_one() {
    let mut source = Source::with(vec![
        FakeProvider::new("tmux", vec!["b", "a"]),
        FakeProvider::new("tmux-remote", vec!["web-1/main"]),
    ]);
    assert!(!source.handle_client_command(&json(r#"{"type":"switch-index","index":3}"#)));
    assert_eq!(source.providers[1].switched, vec![("web-1/main".to_string(), None)]);
    source.handle_client_command(&json(r#"{"type":"switch-index","index":0}"#));
    source.handle_client_command(&json(r#"{"type":"switch-index","index":4}"#));
    source.handle_client_command(&json(r#"{"type":"switch-index","index":99999999999}"#));
    assert!(source.providers[0].switched.is_empty());
    assert_eq!(source.providers[1].switched.len(), 1);
}

#[test]
fn without_providers_no_command_is_taken() {
    let mut source = Source::with(Vec::new());
    assert!(!source.handle_client_command(&json(r#"{"type":"set-theme","theme":"dark"}"#)));
    assert!(provider_for_session(&source.listings(), "a").is_none());
    assert!(plan_switch(&source.listings(), "a", None).is_none());
}
