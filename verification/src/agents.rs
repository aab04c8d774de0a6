//! What agents report, and the panes in which they run.

use vstd::prelude::*;

use crate::commands::{read_text, target_view, AgentTarget};
use crate::errors::AgentEventError;
use crate::json::{has_member, text_at, unsigned_at, JsonBody, JsonMembers};
use crate::pi_runtime_registry::PiRuntimeInfo;
use crate::project_dir_session::{
    encode, encode_project_dir, encoded_mark, names_by_dir, resolved, resolving_needs_candidates,
};
use crate::protocol::{parse_agent_status, status_named, AgentLiveness, AgentStatus};
use crate::sessions::{
    any_has_session, first_provider_with_candidates_decides, later_providers_do_not_matter,
    listed_anywhere, listing_views, lists, names_and_dirs, needs_next_provider,
    resolve_session_for_project_dir_local_first, resolved_local_first, resolved_sessions_are_listed,
    session_views, undecided, MuxSessionInfo, MuxSessionView,
};
use crate::state_source::{
    pane_in, panes_of_map, seen_pane, seen_panes, text_values, with_panes, ReadOnlyMuxStateSource,
    SeenPane, SourceView,
};
use crate::text::{
    chars_of, same_chars, same_text, strip_prefix, stripping_leaves_the_rest, without_prefix,
};
use crate::text_map::{copy_text, str_of, text_of, TextMap};

verus! {

/// What an agent of a session does. `S` is a text.
#[derive(Debug, PartialEq, Eq)]
pub struct AgentEvent<S> {
    pub agent: S,
    pub session: S,
    pub status: AgentStatus,
    pub ts: u64,
    pub thread_id: Option<S>,
    pub thread_name: Option<S>,
    pub last_user_prompt: Option<S>,
    pub unseen: Option<bool>,
    pub pane_id: Option<S>,
    pub liveness: Option<AgentLiveness>,
}

/// The plain values of an event.
pub open spec fn event_values(event: AgentEvent<String>) -> AgentEvent<Seq<char>> {
    AgentEvent {
        agent: event.agent@,
        session: event.session@,
        status: event.status,
        ts: event.ts,
        thread_id: text_of(event.thread_id),
        thread_name: text_of(event.thread_name),
        last_user_prompt: text_of(event.last_user_prompt),
        unseen: event.unseen,
        pane_id: text_of(event.pane_id),
        liveness: event.liveness,
    }
}

/// An event that is to be taken over, and the pane that is to be marked as
/// seen after it.
#[derive(Debug)]
pub struct AgentEventPlan {
    pub event: AgentEvent<String>,
    pub seen: Option<SeenPane>,
}

// ---------------------------------------------------------------------------
// Events that agents send.
// ---------------------------------------------------------------------------

/// The session of an event: that of its project directory or, where that
/// leads to none, the one that it names, if it is listed.
pub open spec fn event_session(body: JsonMembers, listings: Seq<Seq<MuxSessionView>>) -> Option<
    Seq<char>,
> {
    let by_dir = match text_at(body, "projectDir"@) {
        Some(dir) => resolved_local_first(dir, listings),
        None => None,
    };
    match (by_dir, text_at(body, "tmuxSession"@)) {
        (Some(session), _) => Some(session),
        (None, Some(name)) => if listed_anywhere(listings, name) {
            Some(name)
        } else {
            None
        },
        (None, None) => None,
    }
}

/// The status of an event.
pub open spec fn event_status(body: JsonMembers) -> Option<AgentStatus> {
    match text_at(body, "status"@) {
        Some(word) => status_named(word),
        None => None,
    }
}

/// The last prompt that an event gives, under either of its names. Where it
/// is there under the first, the second does not count.
pub open spec fn prompt_at(body: JsonMembers) -> Option<Seq<char>> {
    if has_member(body, "lastUserPrompt"@) {
        text_at(body, "lastUserPrompt"@)
    } else {
        text_at(body, "last_user_prompt"@)
    }
}

/// Why an event is not applied, if it is not.
pub open spec fn event_error(body: JsonMembers, listings: Seq<Seq<MuxSessionView>>) -> Option<
    AgentEventError,
> {
    if text_at(body, "agent"@) is None {
        Some(AgentEventError::MissingAgent)
    } else if event_status(body) is None {
        Some(AgentEventError::InvalidStatus)
    } else if event_session(body, listings) is None {
        Some(AgentEventError::CouldNotResolveSession)
    } else {
        None
    }
}

/// The event that a body holds, where it has all it needs.
pub open spec fn event_in(
    body: JsonMembers,
    listings: Seq<Seq<MuxSessionView>>,
    now: u64,
) -> AgentEvent<Seq<char>> {
    AgentEvent {
        agent: text_at(body, "agent"@)->Some_0,
        session: event_session(body, listings)->Some_0,
        status: event_status(body)->Some_0,
        ts: match unsigned_at(body, "ts"@) {
            Some(ts) => ts,
            None => now,
        },
        thread_id: text_at(body, "threadId"@),
        thread_name: text_at(body, "threadName"@),
        last_user_prompt: prompt_at(body),
        unseen: None,
        pane_id: text_at(body, "paneId"@),
        liveness: if text_at(body, "paneId"@) is Some {
            Some(AgentLiveness::Alive)
        } else {
            None
        },
    }
}

/// The pane that is to be marked as seen after an event: the pane of the
/// event, where it has the focus.
pub open spec fn seen_after_event(state: SourceView, event: AgentEvent<Seq<char>>) -> Option<
    (Seq<char>, Seq<char>),
> {
    match event.pane_id {
        Some(pane_id) => if pane_in(state, event.session) == Some(pane_id) {
            Some((event.session, pane_id))
        } else {
            None
        },
        None => None,
    }
}

/// Whether the next provider is to be asked before it is clear what becomes of
/// an event, given the sessions of those that were: as long as none has a
/// candidate for its directory, or, where the directory leads to no session, as
/// long as none lists the session that it names. An event without an agent or
/// a status is refused without asking.
pub open spec fn event_is_open(body: JsonMembers, listings: Seq<Seq<MuxSessionView>>) -> bool {
    &&& text_at(body, "agent"@) is Some
    &&& event_status(body) is Some
    &&& {
        ||| text_at(body, "projectDir"@) matches Some(dir) && undecided(dir, listings)
        ||| event_session(body, listings) is None && text_at(body, "tmuxSession"@) is Some
    }
}

/// Finds the session of an event.
pub fn resolve_agent_event_session(body: &JsonBody, listings: &Vec<Vec<MuxSessionInfo>>) -> (session:
    Option<String>)
    ensures
        text_of(session) == event_session(body@, listing_views(listings@)),
{
    if let Some(dir) = body.text("projectDir") {
        let session = resolve_session_for_project_dir_local_first(listings, dir);
        if session.is_some() {
            return session;
        }
    }
    match body.text("tmuxSession") {
        Some(name) => if any_has_session(listings, name) {
            Some(name.to_string())
        } else {
            None
        },
        None => None,
    }
}

/// Decides whether the next provider is to be asked before it is clear what
/// becomes of an event, given the sessions of those that were.
pub fn event_needs_listing(body: &JsonBody, listings: &Vec<Vec<MuxSessionInfo>>) -> (yes: bool)
    ensures
        yes == event_is_open(body@, listing_views(listings@)),
{
    let status = match body.text("status") {
        Some(word) => parse_agent_status(word),
        None => None,
    };
    if body.text("agent").is_none() || status.is_none() {
        return false;
    }
    if let Some(dir) = body.text("projectDir") {
        if needs_next_provider(listings, dir) {
            return true;
        }
    }
    body.text("tmuxSession").is_some() && resolve_agent_event_session(body, listings).is_none()
}

fn read_prompt(body: &JsonBody) -> (prompt: Option<String>)
    ensures
        text_of(prompt) == prompt_at(body@),
{
    match body.get("lastUserPrompt") {
        Some(_) => read_text(body, "lastUserPrompt"),
        None => read_text(body, "last_user_prompt"),
    }
}

impl ReadOnlyMuxStateSource {
    /// Decides what becomes of an event that an agent sent.
    pub fn apply_agent_event(
        &self,
        body: &JsonBody,
        listings: &Vec<Vec<MuxSessionInfo>>,
        now: u64,
    ) -> (plan: Result<AgentEventPlan, AgentEventError>)
        ensures
            match plan {
                Ok(plan) => event_error(body@, listing_views(listings@)) is None && event_values(
                    plan.event,
                ) == event_in(body@, listing_views(listings@), now) && seen_pane(plan.seen)
                    == seen_after_event(self@, event_values(plan.event)),
                Err(error) => event_error(body@, listing_views(listings@)) == Some(error),
            },
    {
        let agent = match read_text(body, "agent") {
            Some(agent) => agent,
            None => {
                return Err(AgentEventError::MissingAgent);
            },
        };
        let status = match body.text("status") {
            Some(word) => parse_agent_status(word),
            None => None,
        };
        let status = match status {
            Some(status) => status,
            None => {
                return Err(AgentEventError::InvalidStatus);
            },
        };
        let session = match resolve_agent_event_session(body, listings) {
            Some(session) => session,
            None => {
                return Err(AgentEventError::CouldNotResolveSession);
            },
        };
        let ts = match body.unsigned("ts") {
            Some(ts) => ts,
            None => now,
        };
        let pane_id = read_text(body, "paneId");
        let liveness = if pane_id.is_some() {
            Some(AgentLiveness::Alive)
        } else {
            None
        };
        let seen = match (&pane_id, self.focused_pane(session.as_str())) {
            (Some(pane_id), Some(focused)) => if same_text(focused, pane_id.as_str()) {
                Some(SeenPane { session: session.clone(), pane_id: pane_id.clone() })
            } else {
                None
            },
            _ => None,
        };
        let event = AgentEvent {
            agent,
            session,
            status,
            ts,
            thread_id: read_text(body, "threadId"),
            thread_name: read_text(body, "threadName"),
            last_user_prompt: read_prompt(body),
            unseen: None,
            pane_id,
            liveness,
        };
        Ok(AgentEventPlan { event, seen })
    }
}

// ---------------------------------------------------------------------------
// What the files of agents tell.
// ---------------------------------------------------------------------------

/// What a file of an agent tells. `S` is a text.
#[derive(Debug, PartialEq, Eq)]
pub struct AgentWatcherSnapshot<S> {
    pub agent: S,
    pub status: AgentStatus,
    pub ts: u64,
    pub thread_id: Option<S>,
    pub thread_name: Option<S>,
    pub last_user_prompt: Option<S>,
    pub project_dir: Option<S>,
}

/// The plain values of what a file tells.
pub open spec fn snapshot_values(snapshot: AgentWatcherSnapshot<String>) -> AgentWatcherSnapshot<
    Seq<char>,
> {
    AgentWatcherSnapshot {
        agent: snapshot.agent@,
        status: snapshot.status,
        ts: snapshot.ts,
        thread_id: text_of(snapshot.thread_id),
        thread_name: text_of(snapshot.thread_name),
        last_user_prompt: text_of(snapshot.last_user_prompt),
        project_dir: text_of(snapshot.project_dir),
    }
}

/// The first session of a listing whose directory has an encoding.
pub open spec fn first_encoded_in(sessions: Seq<MuxSessionView>, encoded: Seq<char>) -> Option<
    Seq<char>,
>
    decreases sessions.len(),
{
    if sessions.len() == 0 {
        None
    } else if encode(sessions[0].dir) == encoded {
        Some(sessions[0].name)
    } else {
        first_encoded_in(sessions.drop_first(), encoded)
    }
}

/// The first session of all listings whose directory has an encoding.
pub open spec fn first_encoded(listings: Seq<Seq<MuxSessionView>>, encoded: Seq<char>) -> Option<
    Seq<char>,
>
    decreases listings.len(),
{
    if listings.len() == 0 {
        None
    } else {
        match first_encoded_in(listings[0], encoded) {
            Some(name) => Some(name),
            None => first_encoded(listings.drop_first(), encoded),
        }
    }
}

/// The session of a project directory that a file gives, maybe encoded.
pub open spec fn watched_session(
    project_dir: Option<Seq<char>>,
    listings: Seq<Seq<MuxSessionView>>,
) -> Option<Seq<char>> {
    match project_dir {
        Some(dir) => match strip_prefix(dir, encoded_mark()) {
            Some(encoded) => first_encoded(listings, encoded),
            None => resolved_local_first(dir, listings),
        },
        None => None,
    }
}

/// The event that a file of an agent of a session tells.
pub open spec fn watched_event(
    snapshot: AgentWatcherSnapshot<Seq<char>>,
    session: Seq<char>,
) -> AgentEvent<Seq<char>> {
    AgentEvent {
        agent: snapshot.agent,
        session,
        status: snapshot.status,
        ts: snapshot.ts,
        thread_id: snapshot.thread_id,
        thread_name: snapshot.thread_name,
        last_user_prompt: snapshot.last_user_prompt,
        unseen: None,
        pane_id: None,
        liveness: None,
    }
}

/// The event that a snapshot makes, if any, and the session and the pane that
/// are then taken to have seen it.
pub open spec fn watched_plan(
    state: SourceView,
    snapshot: AgentWatcherSnapshot<Seq<char>>,
    listings: Seq<Seq<MuxSessionView>>,
) -> Option<(AgentEvent<Seq<char>>, Option<(Seq<char>, Seq<char>)>)> {
    if snapshot.status == AgentStatus::Idle {
        None
    } else {
        match watched_session(snapshot.project_dir, listings) {
            Some(session) => Some(
                (
                    watched_event(snapshot, session),
                    match pane_in(state, session) {
                        Some(pane_id) => Some((session, pane_id)),
                        None => None,
                    },
                ),
            ),
            None => None,
        }
    }
}

fn find_encoded_in(sessions: &Vec<MuxSessionInfo>, encoded: &[char]) -> (name: Option<String>)
    ensures
        text_of(name) == first_encoded_in(session_views(sessions@), encoded@),
{
    let ghost all = session_views(sessions@);
    assert(all.skip(0) == all);
    let mut i: usize = 0;
    while i < sessions.len()
        invariant
            i <= sessions@.len(),
            all == session_views(sessions@),
            first_encoded_in(all, encoded@) == first_encoded_in(all.skip(i as int), encoded@),
        decreases sessions@.len() - i,
    {
        assert(all.skip(i as int)[0] == sessions@[i as int]@);
        assert(all.skip(i as int).drop_first() == all.skip(i + 1));
        let candidate = chars_of(encode_project_dir(sessions[i].dir.as_str()).as_str());
        if same_chars(candidate.as_slice(), encoded) {
            return Some(sessions[i].name.clone());
        }
        i += 1;
    }
    None
}

fn find_encoded(listings: &Vec<Vec<MuxSessionInfo>>, encoded: &[char]) -> (name: Option<String>)
    ensures
        text_of(name) == first_encoded(listing_views(listings@), encoded@),
{
    let ghost all = listing_views(listings@);
    assert(all.skip(0) == all);
    let mut i: usize = 0;
    while i < listings.len()
        invariant
            i <= listings@.len(),
            all == listing_views(listings@),
            first_encoded(all, encoded@) == first_encoded(all.skip(i as int), encoded@),
        decreases listings@.len() - i,
    {
        assert(all.skip(i as int)[0] == session_views(listings@[i as int]@));
        assert(all.skip(i as int).drop_first() == all.skip(i + 1));
        let name = find_encoded_in(&listings[i], encoded);
        if name.is_some() {
            return name;
        }
        i += 1;
    }
    None
}

/// Finds the session of a project directory that a file gives.
pub fn resolve_agent_watcher_session(
    project_dir: Option<&str>,
    listings: &Vec<Vec<MuxSessionInfo>>,
) -> (session: Option<String>)
    ensures
        text_of(session) == watched_session(str_of(project_dir), listing_views(listings@)),
{
    let dir = project_dir?;
    let chars = chars_of(dir);
    let mark = chars_of("__encoded__:");
    match without_prefix(chars.as_slice(), mark.as_slice()) {
        Some(encoded) => find_encoded(listings, encoded),
        None => resolve_session_for_project_dir_local_first(listings, dir),
    }
}

/// Whether the next provider is to be asked before it is clear what becomes of
/// what a file tells, given the sessions of those that were.
pub open spec fn snapshot_is_open(
    snapshot: AgentWatcherSnapshot<Seq<char>>,
    listings: Seq<Seq<MuxSessionView>>,
) -> bool {
    &&& snapshot.status != AgentStatus::Idle
    &&& match snapshot.project_dir {
        Some(dir) => match strip_prefix(dir, encoded_mark()) {
            Some(encoded) => first_encoded(listings, encoded) is None,
            None => undecided(dir, listings),
        },
        None => false,
    }
}

/// Decides whether the next provider is to be asked before it is clear what
/// becomes of what a file tells, given the sessions of those that were.
pub fn snapshot_needs_listing(
    snapshot: &AgentWatcherSnapshot<String>,
    listings: &Vec<Vec<MuxSessionInfo>>,
) -> (yes: bool)
    ensures
        yes == snapshot_is_open(snapshot_values(*snapshot), listing_views(listings@)),
{
    if snapshot.status == AgentStatus::Idle {
        return false;
    }
    match &snapshot.project_dir {
        Some(dir) => {
            let chars = chars_of(dir.as_str());
            let mark = chars_of("__encoded__:");
            match without_prefix(chars.as_slice(), mark.as_slice()) {
                Some(encoded) => find_encoded(listings, encoded).is_none(),
                None => needs_next_provider(listings, dir.as_str()),
            }
        },
        None => false,
    }
}

impl ReadOnlyMuxStateSource {
    /// Decides what becomes of what a file of an agent tells: nothing where
    /// the agent is idle, or where it belongs to no session. The pane of the
    /// session that has the focus is marked as seen.
    pub fn apply_agent_watcher_snapshot(
        &self,
        snapshot: &AgentWatcherSnapshot<String>,
        listings: &Vec<Vec<MuxSessionInfo>>,
    ) -> (plan: Option<AgentEventPlan>)
        ensures
            watched_plan(self@, snapshot_values(*snapshot), listing_views(listings@))
                == match plan {
                Some(plan) => Some((event_values(plan.event), seen_pane(plan.seen))),
                None => None,
            },
    {
        if snapshot.status == AgentStatus::Idle {
            return None;
        }
        let dir = match &snapshot.project_dir {
            Some(dir) => Some(dir.as_str()),
            None => None,
        };
        let session = match resolve_agent_watcher_session(dir, listings) {
            Some(session) => session,
            None => {
                return None;
            },
        };
        let seen = match self.focused_pane(session.as_str()) {
            Some(pane_id) => Some(
                SeenPane { session: session.clone(), pane_id: pane_id.to_string() },
            ),
            None => None,
        };
        let event = AgentEvent {
            agent: snapshot.agent.clone(),
            session,
            status: snapshot.status,
            ts: snapshot.ts,
            thread_id: copy_text(&snapshot.thread_id),
            thread_name: copy_text(&snapshot.thread_name),
            last_user_prompt: copy_text(&snapshot.last_user_prompt),
            unseen: None,
            pane_id: None,
            liveness: None,
        };
        Some(AgentEventPlan { event, seen })
    }
}

// ---------------------------------------------------------------------------
// The panes of agents.
// ---------------------------------------------------------------------------

/// Whether an event shows the pane in which an agent runs a thread now.
pub open spec fn shows_pane(
    event: AgentEvent<Seq<char>>,
    agent: Seq<char>,
    thread_id: Seq<char>,
) -> bool {
    &&& event.agent == agent
    &&& event.thread_id == Some(thread_id)
    &&& event.liveness == Some(AgentLiveness::Alive)
    &&& event.pane_id is Some
}

/// The plain values of events.
pub open spec fn all_event_values(events: Seq<AgentEvent<String>>) -> Seq<AgentEvent<Seq<char>>> {
    events.map_values(|event: AgentEvent<String>| event_values(event))
}

/// The pane that the first event which shows one shows.
pub open spec fn tracked_pane(
    events: Seq<AgentEvent<Seq<char>>>,
    agent: Seq<char>,
    thread_id: Seq<char>,
) -> Option<Seq<char>>
    decreases events.len(),
{
    if events.len() == 0 {
        None
    } else if shows_pane(events[0], agent, thread_id) {
        events[0].pane_id
    } else {
        tracked_pane(events.drop_first(), agent, thread_id)
    }
}

/// The pane of an agent's thread, where there is a thread.
pub open spec fn pane_of_thread(
    events: Seq<AgentEvent<Seq<char>>>,
    agent: Seq<char>,
    thread_id: Option<Seq<char>>,
) -> Option<Seq<char>> {
    match thread_id {
        Some(thread_id) => tracked_pane(events, agent, thread_id),
        None => None,
    }
}

/// The pane of an agent, as far as it can be told without asking tmux: the
/// one that is given, or else the one that the events of its session show.
pub open spec fn known_pane(
    target: AgentTarget<Seq<char>>,
    events: Seq<AgentEvent<Seq<char>>>,
) -> Option<Seq<char>> {
    match (target.pane_id, target.thread_id) {
        (Some(pane_id), _) => Some(pane_id),
        (None, Some(thread_id)) => tracked_pane(events, target.agent, thread_id),
        (None, None) => None,
    }
}

/// Finds the pane in which an agent runs a thread among the events of its
/// session.
pub fn resolve_tracked_agent_pane(
    events: &Vec<AgentEvent<String>>,
    agent: &str,
    thread_id: Option<&str>,
) -> (pane_id: Option<String>)
    ensures
        text_of(pane_id) == pane_of_thread(
            all_event_values(events@),
            agent@,
            str_of(thread_id),
        ),
{
    let wanted = thread_id?;
    let ghost all = all_event_values(events@);
    assert(all.skip(0) == all);
    let mut i: usize = 0;
    while i < events.len()
        invariant
            i <= events@.len(),
            thread_id == Some(wanted),
            all == all_event_values(events@),
            tracked_pane(all, agent@, wanted@) == tracked_pane(
                all.skip(i as int),
                agent@,
                wanted@,
            ),
        decreases events@.len() - i,
    {
        let event = &events[i];
        assert(all.skip(i as int)[0] == event_values(*event));
        assert(all.skip(i as int).drop_first() == all.skip(i + 1));
        if let (Some(thread), Some(AgentLiveness::Alive), Some(pane_id)) = (
            &event.thread_id,
            event.liveness,
            &event.pane_id,
        ) {
            if same_text(event.agent.as_str(), agent) && same_text(thread.as_str(), wanted) {
                return Some(pane_id.clone());
            }
        }
        i += 1;
    }
    None
}

/// Finds the pane of an agent, as far as it can be told without asking tmux.
pub fn resolve_agent_pane(target: &AgentTarget<String>, events: &Vec<AgentEvent<String>>) -> (pane_id:
    Option<String>)
    ensures
        text_of(pane_id) == known_pane(target_view(*target), all_event_values(events@)),
{
    if target.pane_id.is_some() {
        return copy_text(&target.pane_id);
    }
    let thread_id = match &target.thread_id {
        Some(thread_id) => Some(thread_id.as_str()),
        None => None,
    };
    resolve_tracked_agent_pane(events, target.agent.as_str(), thread_id)
}

/// A pane in which an agent runs.
#[derive(Debug)]
pub struct AgentPane {
    pub agent: String,
    pub pane_id: String,
    pub active: bool,
    pub thread_id: Option<String>,
    pub thread_name: Option<String>,
}

/// The panes of agents of a session.
#[derive(Debug)]
pub struct SessionPanes {
    pub session: String,
    pub panes: Vec<AgentPane>,
}

/// The panes of agents of the sessions of a provider, and the pane at which
/// the client is.
#[derive(Debug)]
pub struct ProviderPanes {
    pub client_focus: Option<SeenPane>,
    pub sessions: Vec<SessionPanes>,
}

/// The sessions of all providers, one provider after the other.
pub open spec fn all_presence(providers: Seq<ProviderPanes>) -> Seq<SessionPanes>
    decreases providers.len(),
{
    if providers.len() == 0 {
        Seq::empty()
    } else {
        providers[0].sessions@ + all_presence(providers.drop_first())
    }
}

/// Whether a session has a pane of an agent.
pub open spec fn has_agent_pane(
    sessions: Seq<SessionPanes>,
    session: Seq<char>,
    pane_id: Seq<char>,
) -> bool {
    exists|i: int, j: int|
        0 <= i < sessions.len() && 0 <= j < sessions[i].panes@.len() && sessions[i].session@
            == session && (#[trigger] sessions[i].panes@[j]).pane_id@ == pane_id
}

/// The agent pane at which the client of a provider is, put in a map.
pub open spec fn with_client_focus(
    map: Map<Seq<char>, Seq<char>>,
    provider: ProviderPanes,
) -> Map<Seq<char>, Seq<char>> {
    match provider.client_focus {
        Some(focus) => if has_agent_pane(provider.sessions@, focus.session@, focus.pane_id@) {
            map.insert(focus.session@, focus.pane_id@)
        } else {
            map
        },
        None => map,
    }
}

/// The agent panes at which the clients of providers are, put in a map one
/// after the other.
pub open spec fn with_all_focus(
    map: Map<Seq<char>, Seq<char>>,
    providers: Seq<ProviderPanes>,
) -> Map<Seq<char>, Seq<char>>
    decreases providers.len(),
{
    if providers.len() == 0 {
        map
    } else {
        with_all_focus(with_client_focus(map, providers[0]), providers.drop_first())
    }
}

/// The panes of agents of all sessions, and those at which a client is.
#[derive(Debug)]
pub struct PanePresence {
    pub presence: Vec<SessionPanes>,
    pub focused: Vec<SeenPane>,
}

fn session_has_pane(session: &SessionPanes, pane_id: &str) -> (yes: bool)
    ensures
        yes == exists|j: int|
            0 <= j < session.panes@.len() && (#[trigger] session.panes@[j]).pane_id@ == pane_id@,
{
    let mut j: usize = 0;
    while j < session.panes.len()
        invariant
            j <= session.panes@.len(),
            forall|k: int| 0 <= k < j ==> (#[trigger] session.panes@[k]).pane_id@ != pane_id@,
        decreases session.panes@.len() - j,
    {
        if same_text(session.panes[j].pane_id.as_str(), pane_id) {
            return true;
        }
        j += 1;
    }
    false
}

fn sessions_have_pane(sessions: &Vec<SessionPanes>, session: &str, pane_id: &str) -> (yes: bool)
    ensures
        yes == has_agent_pane(sessions@, session@, pane_id@),
{
    let mut i: usize = 0;
    while i < sessions.len()
        invariant
            i <= sessions@.len(),
            forall|k: int, j: int|
                0 <= k < i && 0 <= j < sessions@[k].panes@.len() && sessions@[k].session@ == session@
                    ==> (#[trigger] sessions@[k].panes@[j]).pane_id@ != pane_id@,
        decreases sessions@.len() - i,
    {
        if same_text(sessions[i].session.as_str(), session) {
            if session_has_pane(&sessions[i], pane_id) {
                proof {
                    let j = choose|j: int|
                        0 <= j < sessions@[i as int].panes@.len() && (
                        #[trigger] sessions@[i as int].panes@[j]).pane_id@ == pane_id@;
                    assert(sessions@[i as int].panes@[j].pane_id@ == pane_id@);
                }
                return true;
            }
        }
        i += 1;
    }
    false
}

/// Collects the panes of agents, in the order of the providers and of their
/// sessions, and the panes of agents at which a client is, each session once.
pub fn sync_agent_pane_presence(providers: Vec<ProviderPanes>) -> (presence: PanePresence)
    ensures
        presence.presence@ == all_presence(providers@),
        with_panes(Map::empty(), seen_panes(presence.focused@)) == with_all_focus(
            Map::empty(),
            providers@,
        ),
        forall|i: int, j: int|
            0 <= i < j < presence.focused@.len() ==> (#[trigger] presence.focused@[i]).session@ != (
            #[trigger] presence.focused@[j]).session@,
{
    let mut rest = providers;
    let mut presence: Vec<SessionPanes> = Vec::new();
    let mut focused: TextMap<String> = TextMap::new();
    assert(text_values(focused@) =~= Map::empty());
    assert(presence@ + all_presence(rest@) =~= all_presence(providers@));
    while rest.len() > 0
        invariant
            presence@ + all_presence(rest@) == all_presence(providers@),
            with_all_focus(text_values(focused@), rest@) == with_all_focus(
                Map::empty(),
                providers@,
            ),
        decreases rest@.len(),
    {
        let ghost before = rest@;
        let ghost earlier = presence@;
        let ghost map = text_values(focused@);
        let provider = rest.remove(0);
        assert(rest@ =~= before.drop_first());
        if let Some(focus) = &provider.client_focus {
            if sessions_have_pane(
                &provider.sessions,
                focus.session.as_str(),
                focus.pane_id.as_str(),
            ) {
                let _ = focused.insert(focus.session.clone(), focus.pane_id.clone());
                assert(text_values(focused@) =~= map.insert(focus.session@, focus.pane_id@));
            }
        }
        assert(text_values(focused@) == with_client_focus(map, before[0]));
        let mut sessions = provider.sessions;
        presence.append(&mut sessions);
        assert(presence@ =~= earlier + before[0].sessions@);
        assert(presence@ + all_presence(rest@) =~= earlier + all_presence(before));
    }
    assert(presence@ + all_presence(rest@) =~= presence@);
    let focused = panes_of_map(&focused);
    PanePresence { presence, focused }
}

// ---------------------------------------------------------------------------
// Agents that ended.
// ---------------------------------------------------------------------------

/// An agent that is to be forgotten.
#[derive(Debug, PartialEq, Eq)]
pub struct Dismissal {
    pub session: String,
    pub agent: String,
    pub thread_id: String,
}

/// The session, the agent and the thread that are forgotten after a pi process
/// ended: the agent of the session of its directory.
pub open spec fn dismissed(
    cwd: Seq<char>,
    session_id: Seq<char>,
    listings: Seq<Seq<MuxSessionView>>,
) -> Option<(Seq<char>, Seq<char>, Seq<char>)> {
    match resolved_local_first(cwd, listings) {
        Some(session) => Some((session, "pi"@, session_id)),
        None => None,
    }
}

/// Decides which agent is to be forgotten after a pi process ended.
pub fn pi_dismissal(info: &PiRuntimeInfo, listings: &Vec<Vec<MuxSessionInfo>>) -> (dismissal: Option<
    Dismissal,
>)
    ensures
        dismissed(info.cwd@, info.session_id@, listing_views(listings@)) == match dismissal {
            Some(dismissal) => Some(
                (dismissal.session@, dismissal.agent@, dismissal.thread_id@),
            ),
            None => None,
        },
{
    match resolve_session_for_project_dir_local_first(listings, info.cwd.as_str()) {
        Some(session) => Some(
            Dismissal { session, agent: "pi".to_string(), thread_id: info.session_id.clone() },
        ),
        None => None,
    }
}

// ---------------------------------------------------------------------------
// Laws.
// ---------------------------------------------------------------------------

/// An event from a directory that the first provider can tell belongs to that
/// provider's session, whatever directories the sessions of others have.
pub proof fn local_sessions_win_events(
    body: JsonMembers,
    dir: Seq<char>,
    name: Seq<char>,
    local: Seq<MuxSessionView>,
    others: Seq<Seq<MuxSessionView>>,
)
    requires
        text_at(body, "projectDir"@) == Some(dir),
        resolved(dir, names_by_dir(names_and_dirs(local))) == Some(name),
    ensures
        event_session(body, seq![local] + others) == Some(name),
{
    resolving_needs_candidates(dir, names_by_dir(names_and_dirs(local)));
    first_provider_with_candidates_decides(dir, local, others);
}

/// Once it is clear what becomes of an event, no further provider has to be
/// asked: its sessions change nothing.
pub proof fn later_providers_do_not_touch_events(
    body: JsonMembers,
    asked: Seq<Seq<MuxSessionView>>,
    later: Seq<Seq<MuxSessionView>>,
    now: u64,
)
    requires
        !event_is_open(body, asked),
    ensures
        event_error(body, asked + later) == event_error(body, asked),
        event_error(body, asked) is None ==> event_in(body, asked + later, now) == event_in(
            body,
            asked,
            now,
        ),
{
    if let Some(dir) = text_at(body, "projectDir"@) {
        later_providers_do_not_matter(dir, asked, later);
    }
    if let Some(name) = text_at(body, "tmuxSession"@) {
        if listed_anywhere(asked, name) {
            let i = choose|i: int| 0 <= i < asked.len() && lists(#[trigger] asked[i], name);
            assert((asked + later)[i] == asked[i]);
            assert(listed_anywhere(asked + later, name));
        }
    }
}

/// Once it is clear what becomes of what a file tells, no further provider has
/// to be asked: its sessions change nothing.
pub proof fn later_providers_do_not_touch_snapshots(
    snapshot: AgentWatcherSnapshot<Seq<char>>,
    asked: Seq<Seq<MuxSessionView>>,
    later: Seq<Seq<MuxSessionView>>,
)
    requires
        !snapshot_is_open(snapshot, asked),
        snapshot.status != AgentStatus::Idle,
    ensures
        watched_session(snapshot.project_dir, asked + later) == watched_session(
            snapshot.project_dir,
            asked,
        ),
{
    if let Some(dir) = snapshot.project_dir {
        later_providers_do_not_matter(dir, asked, later);
        if let Some(encoded) = strip_prefix(dir, encoded_mark()) {
            lemma_first_encoded_stays(asked, later, encoded);
        }
    }
}

proof fn lemma_first_encoded_stays(
    asked: Seq<Seq<MuxSessionView>>,
    later: Seq<Seq<MuxSessionView>>,
    encoded: Seq<char>,
)
    requires
        first_encoded(asked, encoded) is Some,
    ensures
        first_encoded(asked + later, encoded) == first_encoded(asked, encoded),
    decreases asked.len(),
{
    assert((asked + later)[0] == asked[0]);
    if first_encoded_in(asked[0], encoded) is None {
        assert((asked + later).drop_first() =~= asked.drop_first() + later);
        lemma_first_encoded_stays(asked.drop_first(), later, encoded);
    }
}

/// An event is never applied to a session that no provider lists.
pub proof fn events_go_to_listed_sessions(
    body: JsonMembers,
    listings: Seq<Seq<MuxSessionView>>,
)
    ensures
        event_session(body, listings) matches Some(name) ==> listed_anywhere(listings, name),
{
    if let Some(dir) = text_at(body, "projectDir"@) {
        resolved_sessions_are_listed(dir, listings);
    }
}

/// What a file of an agent tells is never applied to a session that no
/// provider lists.
pub proof fn snapshots_go_to_listed_sessions(
    project_dir: Option<Seq<char>>,
    listings: Seq<Seq<MuxSessionView>>,
)
    ensures
        watched_session(project_dir, listings) matches Some(name) ==> listed_anywhere(
            listings,
            name,
        ),
{
    if let Some(dir) = project_dir {
        resolved_sessions_are_listed(dir, listings);
        if let Some(encoded) = strip_prefix(dir, encoded_mark()) {
            lemma_first_encoded_listed(listings, encoded);
        }
    }
}

proof fn lemma_first_encoded_in_listed(sessions: Seq<MuxSessionView>, encoded: Seq<char>)
    ensures
        first_encoded_in(sessions, encoded) matches Some(name) ==> lists(sessions, name),
    decreases sessions.len(),
{
    if sessions.len() > 0 {
        if encode(sessions[0].dir) == encoded {
            assert(sessions[0].name == first_encoded_in(sessions, encoded)->Some_0);
        } else if let Some(name) = first_encoded_in(sessions.drop_first(), encoded) {
            lemma_first_encoded_in_listed(sessions.drop_first(), encoded);
            let i = choose|i: int|
                0 <= i < sessions.drop_first().len() && (#[trigger] sessions.drop_first()[i]).name
                    == name;
            assert(sessions[i + 1].name == name);
        }
    }
}

proof fn lemma_first_encoded_listed(listings: Seq<Seq<MuxSessionView>>, encoded: Seq<char>)
    ensures
        first_encoded(listings, encoded) matches Some(name) ==> listed_anywhere(listings, name),
    decreases listings.len(),
{
    if listings.len() > 0 {
        lemma_first_encoded_in_listed(listings[0], encoded);
        if first_encoded_in(listings[0], encoded) is Some {
            assert(lists(listings[0], first_encoded(listings, encoded)->Some_0));
        } else if let Some(name) = first_encoded(listings.drop_first(), encoded) {
            lemma_first_encoded_listed(listings.drop_first(), encoded);
            let i = choose|i: int|
                0 <= i < listings.drop_first().len() && lists(
                    #[trigger] listings.drop_first()[i],
                    name,
                );
            assert(lists(listings[i + 1], name));
        }
    }
}

/// An event goes to the session that its directory resolves to. Where that
/// gives none it goes to the session that it names, if any provider lists it,
/// and otherwise to none.
pub proof fn events_go_by_directory_then_by_name(
    body: JsonMembers,
    listings: Seq<Seq<MuxSessionView>>,
    dir: Seq<char>,
    session: Seq<char>,
    name: Seq<char>,
)
    ensures
        text_at(body, "projectDir"@) == Some(dir) && resolved_local_first(dir, listings) == Some(
            session,
        ) ==> event_session(body, listings) == Some(session),
        (text_at(body, "projectDir"@) is None || text_at(body, "projectDir"@) == Some(dir)
            && resolved_local_first(dir, listings) is None) && text_at(body, "tmuxSession"@)
            == Some(name) ==> event_session(body, listings) == (if listed_anywhere(listings, name) {
            Some(name)
        } else {
            None
        }),
        (text_at(body, "projectDir"@) is None || text_at(body, "projectDir"@) == Some(dir)
            && resolved_local_first(dir, listings) is None) && text_at(body, "tmuxSession"@) is None
            ==> event_session(body, listings) is None,
{
}

/// An event without an agent is refused for that, one without a known status
/// for that, and one that belongs to no session for that, in this order; every
/// other event is taken.
pub proof fn events_are_refused_for_what_they_lack(
    body: JsonMembers,
    listings: Seq<Seq<MuxSessionView>>,
    word: Seq<char>,
)
    ensures
        event_error(body, listings) == Some(AgentEventError::MissingAgent) <==> text_at(
            body,
            "agent"@,
        ) is None,
        event_error(body, listings) == Some(AgentEventError::InvalidStatus) <==> text_at(
            body,
            "agent"@,
        ) is Some && event_status(body) is None,
        event_error(body, listings) == Some(AgentEventError::CouldNotResolveSession) <==> text_at(
            body,
            "agent"@,
        ) is Some && event_status(body) is Some && event_session(body, listings) is None,
        event_error(body, listings) is None <==> text_at(body, "agent"@) is Some && event_status(
            body,
        ) is Some && event_session(body, listings) is Some,
        text_at(body, "status"@) == Some(word) ==> event_status(body) == status_named(word),
        text_at(body, "status"@) is None ==> event_status(body) is None,
{
}

/// An event says what its message says: the agent, the status, the time or
/// else now, the thread and its name, the last prompt, and the pane. An agent
/// whose pane is named is alive, and whether an event was seen is left open.
pub proof fn events_say_what_their_messages_say(
    body: JsonMembers,
    listings: Seq<Seq<MuxSessionView>>,
    now: u64,
    ts: u64,
)
    requires
        event_error(body, listings) is None,
    ensures
        Some(event_in(body, listings, now).agent) == text_at(body, "agent"@),
        Some(event_in(body, listings, now).session) == event_session(body, listings),
        Some(event_in(body, listings, now).status) == event_status(body),
        unsigned_at(body, "ts"@) == Some(ts) ==> event_in(body, listings, now).ts == ts,
        unsigned_at(body, "ts"@) is None ==> event_in(body, listings, now).ts == now,
        event_in(body, listings, now).thread_id == text_at(body, "threadId"@),
        event_in(body, listings, now).thread_name == text_at(body, "threadName"@),
        event_in(body, listings, now).pane_id == text_at(body, "paneId"@),
        event_in(body, listings, now).unseen is None,
        event_in(body, listings, now).liveness == Some(AgentLiveness::Alive) <==> text_at(
            body,
            "paneId"@,
        ) is Some,
        event_in(body, listings, now).liveness != Some(AgentLiveness::Exited),
        body.contains_key("lastUserPrompt"@) ==> event_in(body, listings, now).last_user_prompt
            == text_at(body, "lastUserPrompt"@),
        !body.contains_key("lastUserPrompt"@) ==> event_in(body, listings, now).last_user_prompt
            == text_at(body, "last_user_prompt"@),
{
}

/// An event is seen at once just where its pane has the focus of its session.
pub proof fn events_of_focused_panes_are_seen(
    state: SourceView,
    event: AgentEvent<Seq<char>>,
    pane_id: Seq<char>,
)
    ensures
        event.pane_id == Some(pane_id) && state.focused_panes.contains_pair(event.session, pane_id)
            <==> seen_after_event(state, event) == Some((event.session, pane_id)),
        seen_after_event(state, event) matches Some(seen) ==> seen.0 == event.session
            && event.pane_id == Some(seen.1),
{
}

/// Further providers are asked about an event just where it could be taken and
/// they could change what becomes of it: its directory matches no session yet,
/// or the session that it names was not found.
pub proof fn further_providers_are_asked_about_events(
    body: JsonMembers,
    listings: Seq<Seq<MuxSessionView>>,
    dir: Seq<char>,
)
    ensures
        text_at(body, "agent"@) is None || event_status(body) is None ==> !event_is_open(
            body,
            listings,
        ),
        text_at(body, "agent"@) is Some && event_status(body) is Some && text_at(
            body,
            "projectDir"@,
        ) == Some(dir) && undecided(dir, listings) ==> event_is_open(body, listings),
        text_at(body, "agent"@) is Some && event_status(body) is Some && text_at(
            body,
            "tmuxSession"@,
        ) is Some && event_session(body, listings) is None ==> event_is_open(body, listings),
        event_is_open(body, listings) && event_session(body, listings) is Some ==> text_at(
            body,
            "projectDir"@,
        ) is Some,
        event_is_open(body, listings) ==> text_at(body, "projectDir"@) is Some || text_at(
            body,
            "tmuxSession"@,
        ) is Some,
{
}

/// A directory that a file name encodes belongs to the first session, over all
/// providers in their order, whose directory is encoded like that.
pub proof fn the_first_encoded_directory_counts(
    listings: Seq<Seq<MuxSessionView>>,
    encoded: Seq<char>,
    i: int,
    k: int,
)
    ensures
        0 <= i < listings.len() && 0 <= k < listings[i].len() && encode(listings[i][k].dir)
            == encoded && (forall|l: int|
            0 <= l < k ==> encode((#[trigger] listings[i][l]).dir) != encoded) && (forall|
            j: int,
            l: int,
        |
            0 <= j < i && 0 <= l < listings[j].len() ==> encode((#[trigger] listings[j][l]).dir)
                != encoded) ==> first_encoded(listings, encoded) == Some(listings[i][k].name),
        (forall|j: int, l: int|
            0 <= j < listings.len() && 0 <= l < listings[j].len() ==> encode(
                (#[trigger] listings[j][l]).dir,
            ) != encoded) ==> first_encoded(listings, encoded) is None,
    decreases listings.len(),
{
    if listings.len() > 0 {
        let rest = listings.drop_first();
        assert forall|j: int| 0 <= j < rest.len() implies #[trigger] rest[j] == listings[j + 1] by {}
        lemma_first_encoded_in(listings[0], encoded, k);
        the_first_encoded_directory_counts(rest, encoded, i - 1, k);
        if forall|j: int, l: int|
            0 <= j < listings.len() && 0 <= l < listings[j].len() ==> encode(
                (#[trigger] listings[j][l]).dir,
            ) != encoded {
            assert forall|l: int| 0 <= l < listings[0].len() implies encode(
                (#[trigger] listings[0][l]).dir,
            ) != encoded by {}
            assert forall|j: int, l: int|
                0 <= j < rest.len() && 0 <= l < rest[j].len() implies encode(
                (#[trigger] rest[j][l]).dir,
            ) != encoded by {
                assert(rest[j][l] == listings[j + 1][l]);
            }
        }
        if 0 < i < listings.len() && 0 <= k < listings[i].len() && encode(listings[i][k].dir)
            == encoded && (forall|l: int|
            0 <= l < k ==> encode((#[trigger] listings[i][l]).dir) != encoded) && (forall|
            j: int,
            l: int,
        |
            0 <= j < i && 0 <= l < listings[j].len() ==> encode((#[trigger] listings[j][l]).dir)
                != encoded) {
            assert forall|l: int| 0 <= l < listings[0].len() implies encode(
                (#[trigger] listings[0][l]).dir,
            ) != encoded by {}
            assert(rest[i - 1] == listings[i]);
            assert forall|l: int| 0 <= l < k implies encode((#[trigger] rest[i - 1][l]).dir)
                != encoded by {
                assert(rest[i - 1][l] == listings[i][l]);
            }
            assert forall|j: int, l: int|
                0 <= j < i - 1 && 0 <= l < rest[j].len() implies encode(
                (#[trigger] rest[j][l]).dir,
            ) != encoded by {
                assert(rest[j][l] == listings[j + 1][l]);
            }
        }
    }
}

proof fn lemma_first_encoded_in(sessions: Seq<MuxSessionView>, encoded: Seq<char>, k: int)
    ensures
        0 <= k < sessions.len() && encode(sessions[k].dir) == encoded && (forall|l: int|
            0 <= l < k ==> encode((#[trigger] sessions[l]).dir) != encoded) ==> first_encoded_in(
            sessions,
            encoded,
        ) == Some(sessions[k].name),
        (forall|l: int|
            0 <= l < sessions.len() ==> encode((#[trigger] sessions[l]).dir) != encoded)
            ==> first_encoded_in(sessions, encoded) is None,
    decreases sessions.len(),
{
    if sessions.len() > 0 {
        let rest = sessions.drop_first();
        lemma_first_encoded_in(rest, encoded, k - 1);
        assert forall|l: int| 0 <= l < rest.len() implies #[trigger] rest[l] == sessions[l + 1] by {}
    }
}

/// What a watcher tells belongs to the session of its directory: by the first
/// encoding that is the same where the directory is given as an encoding, and
/// as an event's directory otherwise.
pub proof fn watched_directories_lead_to_sessions(
    dir: Seq<char>,
    encoded: Seq<char>,
    listings: Seq<Seq<MuxSessionView>>,
)
    ensures
        watched_session(Some("__encoded__:"@ + encoded), listings) == first_encoded(
            listings,
            encoded,
        ),
        (forall|rest: Seq<char>| dir != #[trigger] ("__encoded__:"@ + rest)) ==> watched_session(
            Some(dir),
            listings,
        ) == resolved_local_first(dir, listings),
        watched_session(None, listings) is None,
{
    stripping_leaves_the_rest("__encoded__:"@ + encoded, "__encoded__:"@, encoded);
    if let Some(rest) = strip_prefix(dir, "__encoded__:"@) {
        stripping_leaves_the_rest(dir, "__encoded__:"@, rest);
    }
}

/// Further providers are asked about what a watcher tells just where the agent
/// is not idle and its directory matches no session yet.
pub proof fn further_providers_are_asked_about_snapshots(
    snapshot: AgentWatcherSnapshot<Seq<char>>,
    listings: Seq<Seq<MuxSessionView>>,
    dir: Seq<char>,
    encoded: Seq<char>,
)
    ensures
        snapshot.status == AgentStatus::Idle || snapshot.project_dir is None ==> !snapshot_is_open(
            snapshot,
            listings,
        ),
        snapshot.status != AgentStatus::Idle && snapshot.project_dir == Some(
            "__encoded__:"@ + encoded,
        ) ==> (snapshot_is_open(snapshot, listings) <==> first_encoded(listings, encoded) is None),
        snapshot.status != AgentStatus::Idle && snapshot.project_dir == Some(dir) && (forall|
            rest: Seq<char>,
        |
            dir != #[trigger] ("__encoded__:"@ + rest)) ==> (snapshot_is_open(snapshot, listings)
            <==> undecided(dir, listings)),
{
    stripping_leaves_the_rest("__encoded__:"@ + encoded, "__encoded__:"@, encoded);
    if let Some(rest) = strip_prefix(dir, "__encoded__:"@) {
        stripping_leaves_the_rest(dir, "__encoded__:"@, rest);
    }
}

/// The event of a snapshot says of the agent what the snapshot says, and
/// nothing of a pane.
pub proof fn watched_events_say_what_was_watched(
    snapshot: AgentWatcherSnapshot<Seq<char>>,
    session: Seq<char>,
)
    ensures
        watched_event(snapshot, session).agent == snapshot.agent,
        watched_event(snapshot, session).session == session,
        watched_event(snapshot, session).status == snapshot.status,
        watched_event(snapshot, session).ts == snapshot.ts,
        watched_event(snapshot, session).thread_id == snapshot.thread_id,
        watched_event(snapshot, session).thread_name == snapshot.thread_name,
        watched_event(snapshot, session).last_user_prompt == snapshot.last_user_prompt,
        watched_event(snapshot, session).unseen is None,
        watched_event(snapshot, session).pane_id is None,
        watched_event(snapshot, session).liveness is None,
{
}

/// The pane of an agent's thread is that of the first event that shows it:
/// one of that agent and thread, alive and in a pane. Where no event does, it
/// is not known.
pub proof fn the_first_live_pane_is_tracked(
    events: Seq<AgentEvent<Seq<char>>>,
    agent: Seq<char>,
    thread_id: Seq<char>,
    at: int,
)
    ensures
        0 <= at < events.len() && events[at].agent == agent && events[at].thread_id == Some(
            thread_id,
        ) && events[at].liveness == Some(AgentLiveness::Alive) && events[at].pane_id is Some && (
        forall|i: int|
            0 <= i < at ==> !((#[trigger] events[i]).agent == agent && events[i].thread_id == Some(
                thread_id,
            ) && events[i].liveness == Some(AgentLiveness::Alive) && events[i].pane_id is Some))
            ==> tracked_pane(events, agent, thread_id) == events[at].pane_id,
        (forall|i: int|
            0 <= i < events.len() ==> !((#[trigger] events[i]).agent == agent && events[i].thread_id
                == Some(thread_id) && events[i].liveness == Some(AgentLiveness::Alive)
                && events[i].pane_id is Some)) ==> tracked_pane(events, agent, thread_id) is None,
    decreases events.len(),
{
    if events.len() > 0 {
        let rest = events.drop_first();
        the_first_live_pane_is_tracked(rest, agent, thread_id, at - 1);
        assert forall|i: int| 0 <= i < rest.len() implies #[trigger] rest[i] == events[i + 1] by {}
    }
}

/// The pane that a command is about is the one that it names. Where it names
/// only a thread it is the pane that is tracked for the thread, and where it
/// names neither it is not known.
pub proof fn named_panes_are_known(
    target: AgentTarget<Seq<char>>,
    events: Seq<AgentEvent<Seq<char>>>,
    pane_id: Seq<char>,
    thread_id: Seq<char>,
)
    ensures
        target.pane_id == Some(pane_id) ==> known_pane(target, events) == Some(pane_id),
        target.pane_id is None && target.thread_id == Some(thread_id) ==> known_pane(target, events)
            == tracked_pane(events, target.agent, thread_id),
        target.pane_id is None && target.thread_id is None ==> known_pane(target, events) is None,
{
}

/// The panes of all providers stand one provider after the other, each with
/// all of its sessions.
pub proof fn presence_holds_every_provider(
    first: Seq<ProviderPanes>,
    provider: ProviderPanes,
    more: Seq<ProviderPanes>,
)
    ensures
        all_presence(first + seq![provider] + more) == all_presence(first) + provider.sessions@
            + all_presence(more),
        all_presence(Seq::<ProviderPanes>::empty()) == Seq::<SessionPanes>::empty(),
    decreases first.len(),
{
    let whole = first + seq![provider] + more;
    if first.len() == 0 {
        assert(whole[0] == provider);
        assert(whole.drop_first() =~= more);
        assert(all_presence(whole) =~= all_presence(first) + provider.sessions@ + all_presence(
            more,
        ));
    } else {
        presence_holds_every_provider(first.drop_first(), provider, more);
        assert(whole[0] == first[0]);
        assert(whole.drop_first() =~= first.drop_first() + seq![provider] + more);
        assert(all_presence(whole) =~= all_presence(first) + provider.sessions@ + all_presence(
            more,
        ));
    }
}

/// The client's focus counts just where an agent runs in the pane that has it:
/// then that pane, and nothing else, gets the focus of its session. What
/// further providers say is taken after it.
pub proof fn focus_goes_to_agent_panes(
    map: Map<Seq<char>, Seq<char>>,
    provider: ProviderPanes,
    first: Seq<ProviderPanes>,
    i: int,
    j: int,
)
    ensures
        provider.client_focus is None ==> with_client_focus(map, provider) == map,
        provider.client_focus matches Some(focus) ==> (0 <= i < provider.sessions@.len() && 0 <= j
            < provider.sessions@[i].panes@.len() && provider.sessions@[i].session@ == focus.session@
            && provider.sessions@[i].panes@[j].pane_id@ == focus.pane_id@ ==> with_client_focus(
            map,
            provider,
        ) == map.insert(focus.session@, focus.pane_id@)),
        provider.client_focus matches Some(focus) ==> ((forall|k: int, l: int|
            0 <= k < provider.sessions@.len() && 0 <= l < provider.sessions@[k].panes@.len()
                && provider.sessions@[k].session@ == focus.session@ ==> (
            #[trigger] provider.sessions@[k].panes@[l]).pane_id@ != focus.pane_id@)
            ==> with_client_focus(map, provider) == map),
        with_all_focus(map, first.push(provider)) == with_client_focus(
            with_all_focus(map, first),
            provider,
        ),
        with_all_focus(map, Seq::<ProviderPanes>::empty()) == map,
    decreases first.len(),
{
    if let Some(focus) = provider.client_focus {
        if 0 <= i < provider.sessions@.len() && 0 <= j < provider.sessions@[i].panes@.len()
            && provider.sessions@[i].session@ == focus.session@
            && provider.sessions@[i].panes@[j].pane_id@ == focus.pane_id@ {
            assert(has_agent_pane(provider.sessions@, focus.session@, focus.pane_id@));
        }
    }
    let whole = first.push(provider);
    if first.len() == 0 {
        assert(whole.drop_first() =~= Seq::<ProviderPanes>::empty());
        reveal_with_fuel(with_all_focus, 2);
    } else {
        focus_goes_to_agent_panes(
            with_client_focus(map, first[0]),
            provider,
            first.drop_first(),
            i,
            j,
        );
        assert(whole[0] == first[0]);
        assert(whole.drop_first() =~= first.drop_first().push(provider));
    }
}

/// When a pi process ends, the agent `pi` of the session of its directory is
/// forgotten, for the thread that the process was on; where its directory has
/// no session, nothing is.
pub proof fn ended_processes_are_forgotten(
    cwd: Seq<char>,
    session_id: Seq<char>,
    listings: Seq<Seq<MuxSessionView>>,
    session: Seq<char>,
)
    ensures
        resolved_local_first(cwd, listings) == Some(session) <==> dismissed(
            cwd,
            session_id,
            listings,
        ) == Some((session, seq!['p', 'i'], session_id)),
        resolved_local_first(cwd, listings) is None <==> dismissed(
            cwd,
            session_id,
            listings,
        ) is None,
{
    reveal_strlit("pi");
    assert("pi"@ =~= seq!['p', 'i']);
}

/// Events and snapshots are taken for what they hold, field by field.
pub proof fn events_and_snapshots_are_taken_whole(
    event: AgentEvent<String>,
    snapshot: AgentWatcherSnapshot<String>,
    events: Seq<AgentEvent<String>>,
    i: int,
)
    ensures
        event_values(event).agent == event.agent@,
        event_values(event).session == event.session@,
        event_values(event).status == event.status,
        event_values(event).ts == event.ts,
        event_values(event).thread_id == text_of(event.thread_id),
        event_values(event).thread_name == text_of(event.thread_name),
        event_values(event).last_user_prompt == text_of(event.last_user_prompt),
        event_values(event).unseen == event.unseen,
        event_values(event).pane_id == text_of(event.pane_id),
        event_values(event).liveness == event.liveness,
        snapshot_values(snapshot).agent == snapshot.agent@,
        snapshot_values(snapshot).status == snapshot.status,
        snapshot_values(snapshot).ts == snapshot.ts,
        snapshot_values(snapshot).thread_id == text_of(snapshot.thread_id),
        snapshot_values(snapshot).thread_name == text_of(snapshot.thread_name),
        snapshot_values(snapshot).last_user_prompt == text_of(snapshot.last_user_prompt),
        snapshot_values(snapshot).project_dir == text_of(snapshot.project_dir),
        all_event_values(events).len() == events.len(),
        0 <= i < events.len() ==> all_event_values(events)[i] == event_values(events[i]),
{
}

/// What a watcher tells becomes an event just where the agent is not idle and
/// its directory has a session. The pane that has the focus of that session is
/// then taken to have seen it.
pub proof fn busy_agents_make_events(
    state: SourceView,
    snapshot: AgentWatcherSnapshot<Seq<char>>,
    listings: Seq<Seq<MuxSessionView>>,
    session: Seq<char>,
    pane_id: Seq<char>,
)
    ensures
        snapshot.status == AgentStatus::Idle ==> watched_plan(state, snapshot, listings) is None,
        watched_session(snapshot.project_dir, listings) is None ==> watched_plan(
            state,
            snapshot,
            listings,
        ) is None,
        snapshot.status != AgentStatus::Idle && watched_session(snapshot.project_dir, listings)
            == Some(session) ==> (watched_plan(state, snapshot, listings) matches Some((event, seen))
            && event == watched_event(snapshot, session) && (state.focused_panes.contains_pair(
            session,
            pane_id,
        ) ==> seen == Some((session, pane_id))) && (!state.focused_panes.contains_key(session)
            ==> seen is None)),
{
}

/// The pane of an agent is looked up by its thread, and without a thread it is
/// not known.
pub proof fn panes_are_looked_up_by_thread(
    events: Seq<AgentEvent<Seq<char>>>,
    agent: Seq<char>,
    thread_id: Seq<char>,
)
    ensures
        pane_of_thread(events, agent, Some(thread_id)) == tracked_pane(events, agent, thread_id),
        pane_of_thread(events, agent, None) is None,
{
}

} // verus!
