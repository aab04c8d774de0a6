//! The commands that clients send.

use vstd::prelude::*;

use crate::context::{ClientConnectionContext, ClientView};
use crate::json::{
    json_quoted, json_string_or_null, json_string_or_null_text, signed_at, text_at, unsigned_at, JsonBody,
    JsonMembers,
};
use crate::protocol::{
    filter_named, parse_agent_panel_scope, parse_session_filter, scope_named, AgentPanelScope,
    SessionFilterMode,
};
use crate::text::same_text;
use crate::text_map::{copy_text, own_text, text_of};
use crate::websocket::{for_sender_alone, is_command_type, is_of_type, switch_target};

verus! {

/// An agent whose pane a command is about.
#[derive(Debug, PartialEq, Eq)]
pub struct AgentTarget<S> {
    pub session: S,
    pub agent: S,
    pub thread_id: Option<S>,
    pub thread_name: Option<S>,
    pub pane_id: Option<S>,
}

/// A command. `S` is a text.
#[derive(Debug, PartialEq, Eq)]
pub enum ClientCommand<S> {
    NewSession,
    SwitchSession { name: S, client_tty: Option<S> },
    SwitchIndex { index: u32 },
    KillSession { name: S },
    HideSession { name: S },
    ShowAllSessions,
    ReorderSession { name: S, delta: i8 },
    ReorderWorktreeGroup { key: S, delta: i8 },
    SetTheme { theme: S },
    SetSidebarWidth { width: u16 },
    SetDetailPanelHeight { height: u16 },
    SetAgentPanelScope { scope: AgentPanelScope },
    RepairWidth,
    SetFilter { filter: SessionFilterMode },
    ToggleWorktreeGroup { key: S },
    FocusAgentPane { target: AgentTarget<S> },
    KillAgentPane { target: AgentTarget<S> },
    DismissAgent { session: S, agent: S, thread_id: Option<S> },
}

/// The plain values of an agent.
pub open spec fn target_view(target: AgentTarget<String>) -> AgentTarget<Seq<char>> {
    AgentTarget {
        session: target.session@,
        agent: target.agent@,
        thread_id: text_of(target.thread_id),
        thread_name: text_of(target.thread_name),
        pane_id: text_of(target.pane_id),
    }
}

/// The plain values of a command.
pub open spec fn command_values(command: ClientCommand<String>) -> ClientCommand<Seq<char>> {
    match command {
        ClientCommand::NewSession => ClientCommand::NewSession,
        ClientCommand::SwitchSession { name, client_tty } => ClientCommand::SwitchSession {
            name: name@,
            client_tty: text_of(client_tty),
        },
        ClientCommand::SwitchIndex { index } => ClientCommand::SwitchIndex { index },
        ClientCommand::KillSession { name } => ClientCommand::KillSession { name: name@ },
        ClientCommand::HideSession { name } => ClientCommand::HideSession { name: name@ },
        ClientCommand::ShowAllSessions => ClientCommand::ShowAllSessions,
        ClientCommand::ReorderSession { name, delta } => ClientCommand::ReorderSession {
            name: name@,
            delta,
        },
        ClientCommand::ReorderWorktreeGroup { key, delta } => ClientCommand::ReorderWorktreeGroup {
            key: key@,
            delta,
        },
        ClientCommand::SetTheme { theme } => ClientCommand::SetTheme { theme: theme@ },
        ClientCommand::SetSidebarWidth { width } => ClientCommand::SetSidebarWidth { width },
        ClientCommand::SetDetailPanelHeight { height } => ClientCommand::SetDetailPanelHeight {
            height,
        },
        ClientCommand::SetAgentPanelScope { scope } => ClientCommand::SetAgentPanelScope { scope },
        ClientCommand::RepairWidth => ClientCommand::RepairWidth,
        ClientCommand::SetFilter { filter } => ClientCommand::SetFilter { filter },
        ClientCommand::ToggleWorktreeGroup { key } => ClientCommand::ToggleWorktreeGroup {
            key: key@,
        },
        ClientCommand::FocusAgentPane { target } => ClientCommand::FocusAgentPane {
            target: target_view(target),
        },
        ClientCommand::KillAgentPane { target } => ClientCommand::KillAgentPane {
            target: target_view(target),
        },
        ClientCommand::DismissAgent { session, agent, thread_id } => ClientCommand::DismissAgent {
            session: session@,
            agent: agent@,
            thread_id: text_of(thread_id),
        },
    }
}

/// The plain values of an optional command.
pub open spec fn command_of(command: Option<ClientCommand<String>>) -> Option<
    ClientCommand<Seq<char>>,
> {
    match command {
        Some(command) => Some(command_values(command)),
        None => None,
    }
}

// ---------------------------------------------------------------------------
// What a body asks for.
// ---------------------------------------------------------------------------

/// The least height of the detail panel.
pub const MIN_DETAIL_PANEL_HEIGHT: u16 = 4;

/// The greatest height of the detail panel.
pub const MAX_DETAIL_PANEL_HEIGHT: u16 = 60;

/// The nearest height that the detail panel can have.
pub open spec fn clamped_height(height: u16) -> u16 {
    if height < MIN_DETAIL_PANEL_HEIGHT {
        MIN_DETAIL_PANEL_HEIGHT
    } else if height > MAX_DETAIL_PANEL_HEIGHT {
        MAX_DETAIL_PANEL_HEIGHT
    } else {
        height
    }
}

/// The nearest height that the detail panel can have.
pub fn clamp_detail_panel_height(height: u16) -> (clamped: u16)
    ensures
        clamped == clamped_height(height),
{
    if height < MIN_DETAIL_PANEL_HEIGHT {
        MIN_DETAIL_PANEL_HEIGHT
    } else if height > MAX_DETAIL_PANEL_HEIGHT {
        MAX_DETAIL_PANEL_HEIGHT
    } else {
        height
    }
}

/// The member `name` as a number of 16 bits: a greater one becomes the
/// greatest.
pub open spec fn short_at(body: JsonMembers, name: Seq<char>) -> Option<u16> {
    match unsigned_at(body, name) {
        Some(number) => Some(
            if number > u16::MAX {
                u16::MAX
            } else {
                number as u16
            },
        ),
        None => None,
    }
}

/// The member `index` as a number of 32 bits: a greater one becomes the
/// greatest.
pub open spec fn index_at(body: JsonMembers) -> Option<u32> {
    match unsigned_at(body, "index"@) {
        Some(number) => Some(
            if number > u32::MAX {
                u32::MAX
            } else {
                number as u32
            },
        ),
        None => None,
    }
}

/// The member `delta`, cut to 8 bits.
pub open spec fn delta_at(body: JsonMembers) -> Option<i8> {
    match signed_at(body, "delta"@) {
        Some(delta) => Some(
            #[verifier::truncate]
            (delta as i8),
        ),
        None => None,
    }
}

/// The client that a switch is for: the one that the command names, or else
/// the one that sent it.
pub open spec fn switching_client(body: JsonMembers, client: Option<ClientView>) -> Option<
    Seq<char>,
> {
    match text_at(body, "clientTty"@) {
        Some(tty) => Some(tty),
        None => match client {
            Some(client) => client.client_tty,
            None => None,
        },
    }
}

/// The agent that a body names.
pub open spec fn target_at(body: JsonMembers) -> Option<AgentTarget<Seq<char>>> {
    match (text_at(body, "session"@), text_at(body, "agent"@)) {
        (Some(session), Some(agent)) => Some(
            AgentTarget {
                session,
                agent,
                thread_id: text_at(body, "threadId"@),
                thread_name: text_at(body, "threadName"@),
                pane_id: text_at(body, "paneId"@),
            },
        ),
        _ => None,
    }
}

/// The command about the sessions and their order that a body holds.
pub open spec fn session_command(
    kind: Seq<char>,
    body: JsonMembers,
    client: Option<ClientView>,
) -> Option<ClientCommand<Seq<char>>> {
    if kind == "new-session"@ {
        Some(ClientCommand::NewSession)
    } else if kind == "switch-session"@ {
        match text_at(body, "name"@) {
            Some(name) => Some(
                ClientCommand::SwitchSession { name, client_tty: switching_client(body, client) },
            ),
            None => None,
        }
    } else if kind == "switch-index"@ {
        match index_at(body) {
            Some(index) => Some(ClientCommand::SwitchIndex { index }),
            None => None,
        }
    } else if kind == "kill-session"@ {
        match text_at(body, "name"@) {
            Some(name) => Some(ClientCommand::KillSession { name }),
            None => None,
        }
    } else if kind == "hide-session"@ {
        match text_at(body, "name"@) {
            Some(name) => Some(ClientCommand::HideSession { name }),
            None => None,
        }
    } else if kind == "show-all-sessions"@ {
        Some(ClientCommand::ShowAllSessions)
    } else if kind == "reorder-session"@ {
        match (text_at(body, "name"@), delta_at(body)) {
            (Some(name), Some(delta)) => Some(ClientCommand::ReorderSession { name, delta }),
            _ => None,
        }
    } else if kind == "reorder-worktree-group"@ {
        match (text_at(body, "key"@), delta_at(body)) {
            (Some(key), Some(delta)) => Some(ClientCommand::ReorderWorktreeGroup { key, delta }),
            _ => None,
        }
    } else {
        None
    }
}

/// The command about what the sidebar looks like that a body holds.
pub open spec fn view_command(kind: Seq<char>, body: JsonMembers) -> Option<
    ClientCommand<Seq<char>>,
> {
    if kind == "set-theme"@ {
        match text_at(body, "theme"@) {
            Some(theme) => Some(ClientCommand::SetTheme { theme }),
            None => None,
        }
    } else if kind == "set-sidebar-width"@ {
        match short_at(body, "width"@) {
            Some(width) => Some(ClientCommand::SetSidebarWidth { width }),
            None => None,
        }
    } else if kind == "set-detail-panel-height"@ {
        match short_at(body, "height"@) {
            Some(height) => Some(
                ClientCommand::SetDetailPanelHeight { height: clamped_height(height) },
            ),
            None => None,
        }
    } else if kind == "set-agent-panel-scope"@ {
        match text_at(body, "scope"@) {
            Some(scope) => match scope_named(scope) {
                Some(scope) => Some(ClientCommand::SetAgentPanelScope { scope }),
                None => None,
            },
            None => None,
        }
    } else if kind == "repair-width"@ {
        Some(ClientCommand::RepairWidth)
    } else if kind == "set-filter"@ {
        match text_at(body, "filter"@) {
            Some(filter) => match filter_named(filter) {
                Some(filter) => Some(ClientCommand::SetFilter { filter }),
                None => None,
            },
            None => None,
        }
    } else if kind == "toggle-worktree-group"@ {
        match text_at(body, "key"@) {
            Some(key) => Some(ClientCommand::ToggleWorktreeGroup { key }),
            None => None,
        }
    } else {
        None
    }
}

/// The command about an agent that a body holds.
pub open spec fn agent_command(kind: Seq<char>, body: JsonMembers) -> Option<
    ClientCommand<Seq<char>>,
> {
    match target_at(body) {
        Some(target) => if kind == "focus-agent-pane"@ {
            Some(ClientCommand::FocusAgentPane { target })
        } else if kind == "kill-agent-pane"@ {
            Some(ClientCommand::KillAgentPane { target })
        } else if kind == "dismiss-agent"@ {
            Some(
                ClientCommand::DismissAgent {
                    session: target.session,
                    agent: target.agent,
                    thread_id: target.thread_id,
                },
            )
        } else {
            None
        },
        None => None,
    }
}

/// The command that a body holds. One that lacks what it needs is none.
pub open spec fn client_command(body: JsonMembers, client: Option<ClientView>) -> Option<
    ClientCommand<Seq<char>>,
> {
    match text_at(body, "type"@) {
        Some(kind) => match (
            session_command(kind, body, client),
            view_command(kind, body),
            agent_command(kind, body),
        ) {
            (Some(command), _, _) => Some(command),
            (None, Some(command), _) => Some(command),
            (None, None, command) => command,
        },
        None => None,
    }
}

/// The plain values of an optional client.
pub open spec fn client_of(client: Option<&ClientConnectionContext>) -> Option<ClientView> {
    match client {
        Some(client) => Some(client@),
        None => None,
    }
}

fn read_short(body: &JsonBody, name: &str) -> (number: Option<u16>)
    ensures
        number == short_at(body@, name@),
{
    match body.unsigned(name) {
        Some(number) => if number > u16::MAX as u64 {
            Some(u16::MAX)
        } else {
            Some(number as u16)
        },
        None => None,
    }
}

fn read_index(body: &JsonBody) -> (index: Option<u32>)
    ensures
        index == index_at(body@),
{
    match body.unsigned("index") {
        Some(number) => if number > u32::MAX as u64 {
            Some(u32::MAX)
        } else {
            Some(number as u32)
        },
        None => None,
    }
}

fn read_delta(body: &JsonBody) -> (delta: Option<i8>)
    ensures
        delta == delta_at(body@),
{
    match body.signed("delta") {
        Some(delta) => Some(
            #[verifier::truncate]
            (delta as i8),
        ),
        None => None,
    }
}

/// Copies the member `name`, where it is a string.
pub fn read_text(body: &JsonBody, name: &str) -> (text: Option<String>)
    ensures
        text_of(text) == text_at(body@, name@),
{
    own_text(body.text(name))
}

fn read_switching_client(body: &JsonBody, client: Option<&ClientConnectionContext>) -> (tty: Option<
    String,
>)
    ensures
        text_of(tty) == switching_client(body@, client_of(client)),
{
    match body.text("clientTty") {
        Some(tty) => Some(tty.to_string()),
        None => match client {
            Some(client) => copy_text(&client.client_tty),
            None => None,
        },
    }
}

fn read_target(body: &JsonBody) -> (target: Option<AgentTarget<String>>)
    ensures
        match target {
            Some(target) => target_at(body@) == Some(target_view(target)),
            None => target_at(body@) is None,
        },
{
    match (read_text(body, "session"), read_text(body, "agent")) {
        (Some(session), Some(agent)) => Some(
            AgentTarget {
                session,
                agent,
                thread_id: read_text(body, "threadId"),
                thread_name: read_text(body, "threadName"),
                pane_id: read_text(body, "paneId"),
            },
        ),
        _ => None,
    }
}

fn read_session_command(
    kind: &str,
    body: &JsonBody,
    client: Option<&ClientConnectionContext>,
) -> (command: Option<ClientCommand<String>>)
    ensures
        command_of(command) == session_command(kind@, body@, client_of(client)),
{
    if same_text(kind, "new-session") {
        Some(ClientCommand::NewSession)
    } else if same_text(kind, "switch-session") {
        let name = read_text(body, "name")?;
        Some(
            ClientCommand::SwitchSession { name, client_tty: read_switching_client(body, client) },
        )
    } else if same_text(kind, "switch-index") {
        Some(ClientCommand::SwitchIndex { index: read_index(body)? })
    } else if same_text(kind, "kill-session") {
        Some(ClientCommand::KillSession { name: read_text(body, "name")? })
    } else if same_text(kind, "hide-session") {
        Some(ClientCommand::HideSession { name: read_text(body, "name")? })
    } else if same_text(kind, "show-all-sessions") {
        Some(ClientCommand::ShowAllSessions)
    } else if same_text(kind, "reorder-session") {
        let name = read_text(body, "name")?;
        Some(ClientCommand::ReorderSession { name, delta: read_delta(body)? })
    } else if same_text(kind, "reorder-worktree-group") {
        let key = read_text(body, "key")?;
        Some(ClientCommand::ReorderWorktreeGroup { key, delta: read_delta(body)? })
    } else {
        None
    }
}

fn read_view_command(kind: &str, body: &JsonBody) -> (command: Option<ClientCommand<String>>)
    ensures
        command_of(command) == view_command(kind@, body@),
{
    if same_text(kind, "set-theme") {
        Some(ClientCommand::SetTheme { theme: read_text(body, "theme")? })
    } else if same_text(kind, "set-sidebar-width") {
        Some(ClientCommand::SetSidebarWidth { width: read_short(body, "width")? })
    } else if same_text(kind, "set-detail-panel-height") {
        let height = clamp_detail_panel_height(read_short(body, "height")?);
        Some(ClientCommand::SetDetailPanelHeight { height })
    } else if same_text(kind, "set-agent-panel-scope") {
        let scope = parse_agent_panel_scope(body.text("scope")?)?;
        Some(ClientCommand::SetAgentPanelScope { scope })
    } else if same_text(kind, "repair-width") {
        Some(ClientCommand::RepairWidth)
    } else if same_text(kind, "set-filter") {
        let filter = parse_session_filter(body.text("filter")?)?;
        Some(ClientCommand::SetFilter { filter })
    } else if same_text(kind, "toggle-worktree-group") {
        Some(ClientCommand::ToggleWorktreeGroup { key: read_text(body, "key")? })
    } else {
        None
    }
}

fn read_agent_command(kind: &str, body: &JsonBody) -> (command: Option<ClientCommand<String>>)
    ensures
        command_of(command) == agent_command(kind@, body@),
{
    let target = read_target(body)?;
    if same_text(kind, "focus-agent-pane") {
        Some(ClientCommand::FocusAgentPane { target })
    } else if same_text(kind, "kill-agent-pane") {
        Some(ClientCommand::KillAgentPane { target })
    } else if same_text(kind, "dismiss-agent") {
        Some(
            ClientCommand::DismissAgent {
                session: target.session,
                agent: target.agent,
                thread_id: target.thread_id,
            },
        )
    } else {
        None
    }
}

/// Reads the command that a body holds. `client` is what is known of the
/// sender.
pub fn read_client_command(body: &JsonBody, client: Option<&ClientConnectionContext>) -> (command:
    Option<ClientCommand<String>>)
    ensures
        command_of(command) == client_command(body@, client_of(client)),
{
    let kind = body.text("type")?;
    let session = read_session_command(kind, body, client);
    if session.is_some() {
        return session;
    }
    let view = read_view_command(kind, body);
    if view.is_some() {
        return view;
    }
    read_agent_command(kind, body)
}

/// When a command is followed by a fresh state.
#[derive(Debug, Clone, Copy, PartialEq, Eq, Structural)]
pub enum Reply {
    /// Always.
    Snapshot,
    /// Where it changed what is known of an agent.
    SnapshotIfChanged,
    /// Never.
    Silent,
}

/// When a command is followed by a fresh state.
pub open spec fn reply_of<S>(command: ClientCommand<S>) -> Reply {
    match command {
        ClientCommand::SwitchSession { .. } => Reply::Silent,
        ClientCommand::SwitchIndex { .. } => Reply::Silent,
        ClientCommand::RepairWidth => Reply::Silent,
        ClientCommand::KillAgentPane { .. } => Reply::Silent,
        ClientCommand::FocusAgentPane { .. } => Reply::SnapshotIfChanged,
        ClientCommand::DismissAgent { .. } => Reply::SnapshotIfChanged,
        _ => Reply::Snapshot,
    }
}

/// Whether the state follows a command, given whether it changed.
pub open spec fn followed_by_state<S>(command: ClientCommand<S>, changed: bool) -> bool {
    match reply_of(command) {
        Reply::Snapshot => true,
        Reply::SnapshotIfChanged => changed,
        Reply::Silent => false,
    }
}

/// Decides whether a command is followed by a fresh state. `changed` says
/// whether it changed what is known of an agent.
pub fn is_followed_by_snapshot(command: &ClientCommand<String>, changed: bool) -> (yes: bool)
    ensures
        yes == followed_by_state(command_values(*command), changed),
{
    match command {
        ClientCommand::SwitchSession { .. } => false,
        ClientCommand::SwitchIndex { .. } => false,
        ClientCommand::RepairWidth => false,
        ClientCommand::KillAgentPane { .. } => false,
        ClientCommand::FocusAgentPane { .. } => changed,
        ClientCommand::DismissAgent { .. } => changed,
        _ => true,
    }
}

// ---------------------------------------------------------------------------
// Clients that identify themselves.
// ---------------------------------------------------------------------------

/// The session in which a client says to be. One in the stash does not count.
pub open spec fn identified_session(body: JsonMembers) -> Option<Seq<char>> {
    if is_of_type(body, "identify-pane"@) {
        match text_at(body, "sessionName"@) {
            Some(session) => if session == "_os_stash"@ {
                None
            } else {
                Some(session)
            },
            None => None,
        }
    } else {
        None
    }
}

/// What is known of a client after a command of it.
pub open spec fn identified(client: ClientView, body: JsonMembers) -> ClientView {
    match identified_session(body) {
        Some(session) => ClientView {
            client_tty: client.client_tty,
            pane_id: text_at(body, "paneId"@),
            session_name: Some(session),
            window_id: text_at(body, "windowId"@),
        },
        None => client,
    }
}

/// Takes over what a client says of itself, and gives back the session in
/// which it is.
pub fn identify_client(body: &JsonBody, client: &mut ClientConnectionContext) -> (session: Option<
    String,
>)
    ensures
        text_of(session) == identified_session(body@),
        final(client)@ == identified(old(client)@, body@),
{
    if !is_command_type(body, "identify-pane") {
        return None;
    }
    let session = match read_text(body, "sessionName") {
        Some(session) => session,
        None => {
            return None;
        },
    };
    if same_text(session.as_str(), "_os_stash") {
        return None;
    }
    client.pane_id = read_text(body, "paneId");
    client.session_name = Some(session.clone());
    client.window_id = read_text(body, "windowId");
    Some(session)
}

/// The message that tells a client its session and its terminal.
pub open spec fn your_session(name: Seq<char>, client_tty: Seq<char>) -> Seq<char> {
    "{\"type\":\"your-session\",\"name\":"@ + json_string_or_null_text(Some(name))
        + ",\"clientTty\":"@ + json_string_or_null_text(Some(client_tty)) + "}"@
}

/// Builds the message that tells a client its session and its terminal.
pub fn your_session_json(name: &str, client_tty: &str) -> (json: String)
    ensures
        json@ == your_session(name@, client_tty@),
{
    let mut json = "{\"type\":\"your-session\",\"name\":".to_string();
    json.append(json_string_or_null(Some(name)).as_str());
    json.append(",\"clientTty\":");
    json.append(json_string_or_null(Some(client_tty)).as_str());
    json.append("}");
    json
}

// ---------------------------------------------------------------------------
// Laws.
// ---------------------------------------------------------------------------

/// The session that every client is told of is the one that the command
/// switches to, and a switch is followed by no state, so that one client does
/// not move the others.
pub proof fn switches_are_told_as_they_are_made(body: JsonMembers, client: Option<ClientView>)
    ensures
        switch_target(body) matches Some(name) ==> client_command(body, client) == Some(
            ClientCommand::SwitchSession { name, client_tty: switching_client(body, client) },
        ),
        for_sender_alone(body) ==> (client_command(body, client) matches Some(command) ==> reply_of(
            command,
        ) == Reply::Silent),
{
    lemma_kinds();
    if for_sender_alone(body) {
        let kind = text_at(body, "type"@)->Some_0;
        assert(kind != "repair-width"@);
        assert(view_command(kind, body) is None);
        assert(agent_command(kind, body) is None);
    }
}

proof fn lemma_kinds()
    ensures
        "new-session"@.len() == 11,
        "switch-session"@.len() == 14,
        "switch-index"@.len() == 12 && "switch-index"@[0] == 's',
        "kill-session"@.len() == 12 && "kill-session"@[0] == 'k',
        "hide-session"@.len() == 12 && "hide-session"@[0] == 'h',
        "show-all-sessions"@.len() == 17 && "show-all-sessions"@[1] == 'h',
        "reorder-session"@.len() == 15 && "reorder-session"@[0] == 'r',
        "reorder-worktree-group"@.len() == 22,
        "set-theme"@.len() == 9,
        "set-sidebar-width"@.len() == 17 && "set-sidebar-width"@[1] == 'e',
        "set-detail-panel-height"@.len() == 23,
        "set-agent-panel-scope"@.len() == 21 && "set-agent-panel-scope"@[0] == 's',
        "repair-width"@.len() == 12 && "repair-width"@[0] == 'r',
        "set-filter"@.len() == 10,
        "toggle-worktree-group"@.len() == 21 && "toggle-worktree-group"@[0] == 't',
        "focus-agent-pane"@.len() == 16,
        "kill-agent-pane"@.len() == 15 && "kill-agent-pane"@[0] == 'k',
        "dismiss-agent"@.len() == 13,
{
    reveal_strlit("new-session");
    reveal_strlit("switch-session");
    reveal_strlit("switch-index");
    reveal_strlit("kill-session");
    reveal_strlit("hide-session");
    reveal_strlit("show-all-sessions");
    reveal_strlit("reorder-session");
    reveal_strlit("reorder-worktree-group");
    reveal_strlit("set-theme");
    reveal_strlit("set-sidebar-width");
    reveal_strlit("set-detail-panel-height");
    reveal_strlit("set-agent-panel-scope");
    reveal_strlit("repair-width");
    reveal_strlit("set-filter");
    reveal_strlit("toggle-worktree-group");
    reveal_strlit("focus-agent-pane");
    reveal_strlit("kill-agent-pane");
    reveal_strlit("dismiss-agent");
}

/// A message about sessions is read as the command that its type names, with
/// the members that the command has, and no other message is read as it.
pub proof fn session_messages_are_read(
    body: JsonMembers,
    client: Option<ClientView>,
    text: Seq<char>,
    tty: Option<Seq<char>>,
    index: u32,
    delta: i8,
)
    ensures
        client_command(body, client) == Some(ClientCommand::<Seq<char>>::NewSession) <==> text_at(
            body,
            "type"@,
        ) == Some("new-session"@),
        client_command(body, client) == Some(
            ClientCommand::SwitchSession { name: text, client_tty: tty },
        ) <==> text_at(body, "type"@) == Some("switch-session"@) && text_at(body, "name"@) == Some(
            text,
        ) && tty == switching_client(body, client),
        client_command(body, client) == Some(ClientCommand::<Seq<char>>::SwitchIndex { index })
            <==> text_at(body, "type"@) == Some("switch-index"@) && index_at(body) == Some(index),
        client_command(body, client) == Some(ClientCommand::KillSession { name: text }) <==> text_at(
            body,
            "type"@,
        ) == Some("kill-session"@) && text_at(body, "name"@) == Some(text),
        client_command(body, client) == Some(ClientCommand::HideSession { name: text }) <==> text_at(
            body,
            "type"@,
        ) == Some("hide-session"@) && text_at(body, "name"@) == Some(text),
        client_command(body, client) == Some(ClientCommand::<Seq<char>>::ShowAllSessions)
            <==> text_at(body, "type"@) == Some("show-all-sessions"@),
        client_command(body, client) == Some(ClientCommand::ReorderSession { name: text, delta })
            <==> text_at(body, "type"@) == Some("reorder-session"@) && text_at(body, "name"@)
            == Some(text) && delta_at(body) == Some(delta),
        client_command(body, client) == Some(
            ClientCommand::ReorderWorktreeGroup { key: text, delta },
        ) <==> text_at(body, "type"@) == Some("reorder-worktree-group"@) && text_at(body, "key"@)
            == Some(text) && delta_at(body) == Some(delta),
{
    lemma_kinds();
}

/// A message about what clients show is read as the command that its type
/// names, with the members that the command has, and no other message is read
/// as it.
pub proof fn view_messages_are_read(
    body: JsonMembers,
    client: Option<ClientView>,
    text: Seq<char>,
    number: u16,
    scope: AgentPanelScope,
    filter: SessionFilterMode,
)
    ensures
        client_command(body, client) == Some(ClientCommand::SetTheme { theme: text }) <==> text_at(
            body,
            "type"@,
        ) == Some("set-theme"@) && text_at(body, "theme"@) == Some(text),
        client_command(body, client) == Some(
            ClientCommand::<Seq<char>>::SetSidebarWidth { width: number },
        ) <==> text_at(body, "type"@) == Some("set-sidebar-width"@) && short_at(body, "width"@)
            == Some(number),
        client_command(body, client) == Some(
            ClientCommand::<Seq<char>>::SetDetailPanelHeight { height: number },
        ) <==> text_at(body, "type"@) == Some("set-detail-panel-height"@) && (short_at(
            body,
            "height"@,
        ) matches Some(height) && number == clamped_height(height)),
        client_command(body, client) == Some(
            ClientCommand::<Seq<char>>::SetAgentPanelScope { scope },
        ) <==> text_at(body, "type"@) == Some("set-agent-panel-scope"@) && (text_at(
            body,
            "scope"@,
        ) matches Some(word) && scope_named(word) == Some(scope)),
        client_command(body, client) == Some(ClientCommand::<Seq<char>>::RepairWidth) <==> text_at(
            body,
            "type"@,
        ) == Some("repair-width"@),
        client_command(body, client) == Some(ClientCommand::<Seq<char>>::SetFilter { filter })
            <==> text_at(body, "type"@) == Some("set-filter"@) && (text_at(
            body,
            "filter"@,
        ) matches Some(word) && filter_named(word) == Some(filter)),
        client_command(body, client) == Some(ClientCommand::ToggleWorktreeGroup { key: text })
            <==> text_at(body, "type"@) == Some("toggle-worktree-group"@) && text_at(body, "key"@)
            == Some(text),
{
    lemma_kinds();
}

/// A message about an agent is read as the command that its type names, with
/// the agent that it names, and no other message is read as it. It must name
/// the session and the agent, and may name the thread and the pane.
pub proof fn agent_messages_are_read(
    body: JsonMembers,
    client: Option<ClientView>,
    target: AgentTarget<Seq<char>>,
)
    ensures
        ({
            let named = text_at(body, "session"@) == Some(target.session) && text_at(body, "agent"@)
                == Some(target.agent) && target.thread_id == text_at(body, "threadId"@);
            let wholly = named && target.thread_name == text_at(body, "threadName"@)
                && target.pane_id == text_at(body, "paneId"@);
            &&& client_command(body, client) == Some(ClientCommand::FocusAgentPane { target })
                <==> text_at(body, "type"@) == Some("focus-agent-pane"@) && wholly
            &&& client_command(body, client) == Some(ClientCommand::KillAgentPane { target })
                <==> text_at(body, "type"@) == Some("kill-agent-pane"@) && wholly
            &&& client_command(body, client) == Some(
                ClientCommand::DismissAgent {
                    session: target.session,
                    agent: target.agent,
                    thread_id: target.thread_id,
                },
            ) <==> text_at(body, "type"@) == Some("dismiss-agent"@) && named
        }),
{
    lemma_kinds();
}

/// Numbers that are too large for what they are stand for the largest that is
/// not: 65535 for a size and 4294967295 for an index.
pub proof fn large_numbers_are_cut_down(body: JsonMembers, name: Seq<char>, number: u64)
    ensures
        unsigned_at(body, name) == Some(number) && number <= 65535 ==> short_at(body, name) == Some(
            number as u16,
        ),
        unsigned_at(body, name) == Some(number) && number > 65535 ==> short_at(body, name) == Some(
            65535u16,
        ),
        unsigned_at(body, name) is None ==> short_at(body, name) is None,
        unsigned_at(body, "index"@) == Some(number) && number <= 4294967295 ==> index_at(body)
            == Some(number as u32),
        unsigned_at(body, "index"@) == Some(number) && number > 4294967295 ==> index_at(body)
            == Some(4294967295u32),
        unsigned_at(body, "index"@) is None ==> index_at(body) is None,
{
}

/// A step by which a session is moved is the one that the message gives where
/// it is small, and differs from a large one by a multiple of 256.
pub proof fn small_steps_are_kept(body: JsonMembers, step: i64)
    ensures
        signed_at(body, "delta"@) == Some(step) && -128 <= step <= 127 ==> (delta_at(body)
            matches Some(delta) && delta == step),
        signed_at(body, "delta"@) is Some <==> delta_at(body) is Some,
        signed_at(body, "delta"@) == Some(step) ==> (delta_at(body) matches Some(delta) && (step
            - delta) % 256 == 0),
{
    assert((step - (step as i8)) % 256 == 0) by (bit_vector);
}

/// The height of the detail panel is kept between 4 and 60 lines, and one that
/// is between them is left as it is.
pub proof fn heights_are_kept_in_bounds(height: u16)
    ensures
        4 <= clamped_height(height) <= 60,
        4 <= height <= 60 ==> clamped_height(height) == height,
        height < 4 ==> clamped_height(height) == 4,
        height > 60 ==> clamped_height(height) == 60,
{
}

/// The client that is switched is the one that the message names, and where it
/// names none the one that sent it.
pub proof fn the_named_client_is_switched(body: JsonMembers, client: ClientView, tty: Seq<char>)
    ensures
        text_at(body, "clientTty"@) == Some(tty) ==> switching_client(body, Some(client)) == Some(
            tty,
        ) && switching_client(body, None) == Some(tty),
        text_at(body, "clientTty"@) is None ==> switching_client(body, Some(client))
            == client.client_tty && switching_client(body, None) is None,
{
}

/// After a switch, a repair of the width or the end of an agent's pane nothing
/// is sent; after a focus or a dismissal the state is sent where it changed;
/// and after every other command it is sent.
pub proof fn states_follow_commands(command: ClientCommand<Seq<char>>)
    ensures
        reply_of(command) == Reply::Silent <==> command is SwitchSession || command is SwitchIndex
            || command is RepairWidth || command is KillAgentPane,
        reply_of(command) == Reply::SnapshotIfChanged <==> command is FocusAgentPane
            || command is DismissAgent,
{
}

/// A pane that makes itself known gives its session, its window and itself,
/// and the client stays the same; one in the stash, without a session, or
/// another message changes nothing.
pub proof fn panes_make_themselves_known(body: JsonMembers, client: ClientView, session: Seq<char>)
    ensures
        text_at(body, "type"@) == Some("identify-pane"@) && text_at(body, "sessionName"@) == Some(
            session,
        ) && session != "_os_stash"@ ==> identified_session(body) == Some(session) && identified(
            client,
            body,
        ) == (ClientView {
            client_tty: client.client_tty,
            pane_id: text_at(body, "paneId"@),
            session_name: Some(session),
            window_id: text_at(body, "windowId"@),
        }),
        text_at(body, "type"@) != Some("identify-pane"@) || text_at(body, "sessionName"@) is None
            || text_at(body, "sessionName"@) == Some("_os_stash"@) ==> identified_session(body) is None
            && identified(client, body) == client,
{
}

/// A client is told its session by a message that holds the name and the
/// client as JSON strings.
pub proof fn clients_are_told_their_session(name: Seq<char>, client_tty: Seq<char>)
    ensures
        your_session(name, client_tty) == "{\"type\":\"your-session\",\"name\":"@ + json_quoted(name)
            + ",\"clientTty\":"@ + json_quoted(client_tty) + "}"@,
{
}

/// Commands are taken for what they hold: one that is of one kind is seen as of
/// that kind, with the same members.
pub proof fn commands_are_taken_whole(
    text: String,
    tty: Option<String>,
    target: AgentTarget<String>,
    command: ClientCommand<String>,
    client: ClientConnectionContext,
)
    ensures
        command_values(ClientCommand::SwitchSession { name: text, client_tty: tty })
            == (ClientCommand::SwitchSession { name: text@, client_tty: text_of(tty) }),
        command_values(ClientCommand::KillSession { name: text }) == (ClientCommand::KillSession {
            name: text@,
        }),
        command_values(ClientCommand::HideSession { name: text }) == (ClientCommand::HideSession {
            name: text@,
        }),
        command_values(ClientCommand::SetTheme { theme: text }) == (ClientCommand::SetTheme {
            theme: text@,
        }),
        command_values(ClientCommand::ToggleWorktreeGroup { key: text })
            == (ClientCommand::ToggleWorktreeGroup { key: text@ }),
        command_values(ClientCommand::FocusAgentPane { target }) == (ClientCommand::FocusAgentPane {
            target: target_view(target),
        }),
        command_values(ClientCommand::KillAgentPane { target }) == (ClientCommand::KillAgentPane {
            target: target_view(target),
        }),
        command is NewSession <==> command_values(command) is NewSession,
        command is SwitchIndex <==> command_values(command) is SwitchIndex,
        command is ShowAllSessions <==> command_values(command) is ShowAllSessions,
        command is ReorderSession <==> command_values(command) is ReorderSession,
        command is ReorderWorktreeGroup <==> command_values(command) is ReorderWorktreeGroup,
        command is SetSidebarWidth <==> command_values(command) is SetSidebarWidth,
        command is SetDetailPanelHeight <==> command_values(command) is SetDetailPanelHeight,
        command is SetAgentPanelScope <==> command_values(command) is SetAgentPanelScope,
        command is RepairWidth <==> command_values(command) is RepairWidth,
        command is SetFilter <==> command_values(command) is SetFilter,
        command is DismissAgent <==> command_values(command) is DismissAgent,
        target_view(target).session == target.session@,
        target_view(target).agent == target.agent@,
        target_view(target).thread_id == text_of(target.thread_id),
        target_view(target).thread_name == text_of(target.thread_name),
        target_view(target).pane_id == text_of(target.pane_id),
        client_of(Some(&client)) == Some(client@),
        client_of(None) is None,
{
}

/// The state follows every command but a switch, a repair of the width and the
/// end of an agent's pane, and after a focus or a dismissal only where it
/// changed.
pub proof fn clients_get_the_state_after_commands(command: ClientCommand<Seq<char>>)
    ensures
        followed_by_state(command, true) <==> !(command is SwitchSession || command is SwitchIndex
            || command is RepairWidth || command is KillAgentPane),
        followed_by_state(command, false) <==> !(command is SwitchSession || command is SwitchIndex
            || command is RepairWidth || command is KillAgentPane || command is FocusAgentPane
            || command is DismissAgent),
{
}

/// A command that was read is a command, and none is none.
pub proof fn read_commands_are_commands(command: ClientCommand<String>)
    ensures
        command_of(Some(command)) == Some(command_values(command)),
        command_of(None) is None,
{
}

} // verus!
