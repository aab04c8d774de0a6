//! What the server itself remembers: the settings of the sidebar, the panes
//! that have the focus, and the pi processes that reported themselves.

use vstd::prelude::*;

use crate::caches::{
    all_visible, git_is_asked, kept_info, listed_with_dir, visible_sessions_are_inspected,
    CachedGitInfo,
};
use crate::commands::{
    clamp_detail_panel_height, clamped_height, client_command, client_of, command_of,
    command_values, read_client_command, ClientCommand, MAX_DETAIL_PANEL_HEIGHT,
    MIN_DETAIL_PANEL_HEIGHT,
};
use crate::context::{
    context_in, parse_context, unless_empty, ClientConnectionContext, ClientView, HttpContext,
    HttpContextView,
};
use crate::errors::PiRuntimeError;
use crate::json::{JsonBody, JsonMembers};
use crate::pi_runtime_registry::{
    parse_pi_runtime_info, positive_at, positive_u32, report_of, PiRuntimeInfo, PiRuntimeRegistry,
    DEFAULT_TTL_MS,
};
use crate::protocol::{AgentPanelScope, SessionFilterMode};
use crate::sessions::MuxSessionView;
use crate::text::same_text;
use crate::text_map::{copy_text, str_of, text_of, texts, TextMap};

verus! {

/// The height that the detail panel begins with.
pub const DEFAULT_DETAIL_PANEL_HEIGHT: u16 = 10;

/// A height that the detail panel can have.
#[derive(Debug, Clone, Copy)]
pub struct PanelHeight {
    lines: u16,
}

impl PanelHeight {
    #[verifier::type_invariant]
    spec fn inv(self) -> bool {
        MIN_DETAIL_PANEL_HEIGHT <= self.lines <= MAX_DETAIL_PANEL_HEIGHT
    }

    /// The height in lines.
    pub closed spec fn height(self) -> u16 {
        self.lines
    }

    /// The nearest height to one that is wished for.
    pub fn nearest(height: u16) -> (panel: PanelHeight)
        ensures
            panel.height() == clamped_height(height),
    {
        PanelHeight { lines: clamp_detail_panel_height(height) }
    }

    /// The height in lines, which is always within its bounds.
    pub fn lines(self) -> (lines: u16)
        ensures
            lines == self.height(),
            MIN_DETAIL_PANEL_HEIGHT <= lines <= MAX_DETAIL_PANEL_HEIGHT,
    {
        proof {
            use_type_invariant(&self);
        }
        self.lines
    }
}

/// What the server remembers.
#[derive(Debug)]
pub struct ReadOnlyMuxStateSource {
    detail_panel_height: PanelHeight,
    agent_panel_scope: AgentPanelScope,
    focused_session: Option<String>,
    focused_pane_by_session: TextMap<String>,
    focused_client_tty: Option<String>,
    theme: Option<String>,
    session_filter: Option<SessionFilterMode>,
    collapsed_worktree_groups: TextMap<()>,
    pi_runtime_registry: PiRuntimeRegistry,
}

/// What the server remembers, as plain values.
pub struct SourceView {
    pub detail_panel_height: u16,
    pub agent_panel_scope: AgentPanelScope,
    pub focused_session: Option<Seq<char>>,
    pub focused_panes: Map<Seq<char>, Seq<char>>,
    pub focused_client_tty: Option<Seq<char>>,
    pub theme: Option<Seq<char>>,
    pub session_filter: Option<SessionFilterMode>,
    pub collapsed_groups: Set<Seq<char>>,
    pub pi_processes: Map<u32, PiRuntimeInfo>,
    pub pi_ttl_ms: u64,
}

/// The texts that a map holds.
pub open spec fn text_values(map: Map<Seq<char>, String>) -> Map<Seq<char>, Seq<char>> {
    map.map_values(|text: String| text@)
}

impl View for ReadOnlyMuxStateSource {
    type V = SourceView;

    closed spec fn view(&self) -> SourceView {
        SourceView {
            detail_panel_height: self.detail_panel_height.height(),
            agent_panel_scope: self.agent_panel_scope,
            focused_session: text_of(self.focused_session),
            focused_panes: text_values(self.focused_pane_by_session@),
            focused_client_tty: text_of(self.focused_client_tty),
            theme: text_of(self.theme),
            session_filter: self.session_filter,
            collapsed_groups: self.collapsed_worktree_groups@.dom(),
            pi_processes: self.pi_runtime_registry@,
            pi_ttl_ms: self.pi_runtime_registry.ttl(),
        }
    }
}

/// What a server remembers that has just started.
pub open spec fn initial_state() -> SourceView {
    SourceView {
        detail_panel_height: DEFAULT_DETAIL_PANEL_HEIGHT,
        agent_panel_scope: AgentPanelScope::Current,
        focused_session: None,
        focused_panes: Map::empty(),
        focused_client_tty: None,
        theme: None,
        session_filter: None,
        collapsed_groups: Set::empty(),
        pi_processes: Map::empty(),
        pi_ttl_ms: DEFAULT_TTL_MS,
    }
}

/// What is remembered after a command.
pub open spec fn after_command(state: SourceView, command: ClientCommand<Seq<char>>) -> SourceView {
    match command {
        ClientCommand::SetTheme { theme } => SourceView { theme: Some(theme), ..state },
        ClientCommand::SetDetailPanelHeight { height } => SourceView {
            detail_panel_height: clamped_height(height),
            ..state
        },
        ClientCommand::SetAgentPanelScope { scope } => SourceView {
            agent_panel_scope: scope,
            ..state
        },
        ClientCommand::SetFilter { filter } => SourceView {
            session_filter: Some(filter),
            ..state
        },
        ClientCommand::ToggleWorktreeGroup { key } => SourceView {
            collapsed_groups: if state.collapsed_groups.contains(key) {
                state.collapsed_groups.remove(key)
            } else {
                state.collapsed_groups.insert(key)
            },
            ..state
        },
        _ => state,
    }
}

/// The pane that a context gives the focus to: one that is not empty, unless
/// the context says that it is not active.
pub open spec fn pane_focused_by(context: HttpContextView) -> Option<Seq<char>> {
    match context.pane_id {
        Some(pane_id) => if context.pane_active != Some(false) && pane_id.len() > 0 {
            Some(pane_id)
        } else {
            None
        },
        None => None,
    }
}

/// What is remembered after a pane got the focus.
pub open spec fn after_pane_focus(state: SourceView, context: HttpContextView) -> SourceView {
    match pane_focused_by(context) {
        Some(pane_id) => SourceView {
            focused_panes: state.focused_panes.insert(context.session, pane_id),
            focused_client_tty: if context.client_tty is Some {
                context.client_tty
            } else {
                state.focused_client_tty
            },
            ..state
        },
        None => state,
    }
}

/// What is remembered after a report of the focus.
pub open spec fn after_focus(state: SourceView, body: Seq<char>) -> SourceView {
    match context_in(body) {
        Some(context) => after_pane_focus(
            SourceView { focused_session: Some(context.session), ..state },
            context,
        ),
        None => state,
    }
}

/// What the sidebar is at.
#[derive(Debug)]
pub struct SidebarState {
    pub width: u32,
    pub initializing: bool,
    /// What is said while it starts or ends, or nothing.
    pub init_label: String,
}

/// The settings that a state for clients holds.
#[derive(Debug)]
pub struct SnapshotSettings {
    pub focused_session: Option<String>,
    pub theme: Option<String>,
    pub session_filter: Option<SessionFilterMode>,
    pub agent_panel_scope: AgentPanelScope,
    pub collapsed_worktree_groups: Vec<String>,
    pub sidebar_width: u32,
    pub detail_panel_height: u32,
    pub initializing: bool,
    pub init_label: Option<String>,
}

/// Whether settings are those that a state for clients holds.
pub open spec fn shows(settings: SnapshotSettings, state: SourceView, sidebar: SidebarState) -> bool {
    &&& text_of(settings.focused_session) == state.focused_session
    &&& text_of(settings.theme) == state.theme
    &&& settings.session_filter == state.session_filter
    &&& settings.agent_panel_scope == state.agent_panel_scope
    &&& texts(settings.collapsed_worktree_groups@).no_duplicates()
    &&& texts(settings.collapsed_worktree_groups@).to_set() == state.collapsed_groups
    &&& settings.detail_panel_height == state.detail_panel_height
    &&& settings.sidebar_width == sidebar.width
    &&& settings.initializing == sidebar.initializing
    &&& text_of(settings.init_label) == unless_empty(sidebar.init_label@)
}

/// The first of the sessions in front at the providers.
pub open spec fn first_in_front(current: Seq<Option<Seq<char>>>) -> Option<Seq<char>>
    decreases current.len(),
{
    if current.len() == 0 {
        None
    } else if current[0] is Some {
        current[0]
    } else {
        first_in_front(current.drop_first())
    }
}

/// The plain values of optional texts.
pub open spec fn optional_texts(list: Seq<Option<String>>) -> Seq<Option<Seq<char>>> {
    list.map_values(|text: Option<String>| text_of(text))
}

/// Finds the session that is in front: that of the first provider that has
/// one.
pub fn current_session(current: &Vec<Option<String>>) -> (name: Option<String>)
    ensures
        text_of(name) == first_in_front(optional_texts(current@)),
{
    let ghost all = optional_texts(current@);
    assert(all.skip(0) == all);
    let mut i: usize = 0;
    while i < current.len()
        invariant
            i <= current@.len(),
            all == optional_texts(current@),
            first_in_front(all) == first_in_front(all.skip(i as int)),
        decreases current@.len() - i,
    {
        assert(all.skip(i as int)[0] == text_of(current@[i as int]));
        assert(all.skip(i as int).drop_first() == all.skip(i + 1));
        if current[i].is_some() {
            return copy_text(&current[i]);
        }
        i += 1;
    }
    None
}

/// A pane of a session that is to be marked as seen.
#[derive(Debug, PartialEq, Eq)]
pub struct SeenPane {
    pub session: String,
    pub pane_id: String,
}

/// The session and the pane that an optional mark holds.
pub open spec fn seen_pane(pane: Option<SeenPane>) -> Option<(Seq<char>, Seq<char>)> {
    match pane {
        Some(pane) => Some((pane.session@, pane.pane_id@)),
        None => None,
    }
}

/// The sessions and panes that a list of marks holds.
pub open spec fn seen_panes(panes: Seq<SeenPane>) -> Seq<(Seq<char>, Seq<char>)> {
    panes.map_values(|pane: SeenPane| (pane.session@, pane.pane_id@))
}

/// The pane to be marked as seen after a report of the focus.
pub open spec fn seen_by_focus(body: Seq<char>) -> Option<(Seq<char>, Seq<char>)> {
    match context_in(body) {
        Some(context) => match pane_focused_by(context) {
            Some(pane_id) => Some((context.session, pane_id)),
            None => None,
        },
        None => None,
    }
}

/// The command that a client's message is taken for. Without providers there
/// is none.
pub open spec fn taken_command(
    body: JsonMembers,
    client: Option<ClientView>,
    has_providers: bool,
) -> Option<ClientCommand<Seq<char>>> {
    if has_providers {
        client_command(body, client)
    } else {
        None
    }
}

/// The state after a message that was taken for a command, or for none.
pub open spec fn after_taken(
    state: SourceView,
    command: Option<ClientCommand<Seq<char>>>,
) -> SourceView {
    match command {
        Some(command) => after_command(state, command),
        None => state,
    }
}

/// The state after a text was sent to a path.
pub open spec fn after_text(state: SourceView, path: Seq<char>, body: Seq<char>) -> SourceView {
    if path == "/focus"@ {
        after_focus(state, body)
    } else {
        state
    }
}

/// The session and the pane that are seen by a text that was sent to a path.
pub open spec fn seen_by_text(path: Seq<char>, body: Seq<char>) -> Option<(Seq<char>, Seq<char>)> {
    if path == "/focus"@ {
        seen_by_focus(body)
    } else {
        None
    }
}

/// The state after a message that a pi process ended.
pub open spec fn after_end(state: SourceView, body: JsonMembers) -> SourceView {
    match positive_at(body, "pid"@) {
        Some(pid) => SourceView { pi_processes: state.pi_processes.remove(pid), ..state },
        None => state,
    }
}

/// The report of the process that a message says has ended.
pub open spec fn ended_process(state: SourceView, body: JsonMembers) -> Result<
    Option<PiRuntimeInfo>,
    PiRuntimeError,
> {
    match positive_at(body, "pid"@) {
        Some(pid) => Ok(
            if state.pi_processes.contains_key(pid) {
                Some(state.pi_processes[pid])
            } else {
                None
            },
        ),
        None => Err(PiRuntimeError::MissingPid),
    }
}

impl ReadOnlyMuxStateSource {
    /// A server that has just started.
    pub fn new() -> (source: ReadOnlyMuxStateSource)
        ensures
            source@ == initial_state(),
    {
        let source = ReadOnlyMuxStateSource {
            detail_panel_height: PanelHeight::nearest(DEFAULT_DETAIL_PANEL_HEIGHT),
            agent_panel_scope: AgentPanelScope::Current,
            focused_session: None,
            focused_pane_by_session: TextMap::new(),
            focused_client_tty: None,
            theme: None,
            session_filter: None,
            collapsed_worktree_groups: TextMap::new(),
            pi_runtime_registry: PiRuntimeRegistry::with_default_ttl(),
        };
        assert(source@.focused_panes =~= initial_state().focused_panes);
        assert(source@.collapsed_groups =~= initial_state().collapsed_groups);
        source
    }

    /// The server with another height of the detail panel.
    pub fn with_detail_panel_height(self, height: u16) -> (source: ReadOnlyMuxStateSource)
        ensures
            source@ == (SourceView { detail_panel_height: clamped_height(height), ..self@ }),
    {
        let mut source = self;
        source.detail_panel_height = PanelHeight::nearest(height);
        source
    }

    /// Takes a command: remembers what it sets, and gives back what is to be
    /// done. Without a provider of sessions nothing is.
    pub fn handle_client_command_with_context(
        &mut self,
        command: &JsonBody,
        context: Option<&ClientConnectionContext>,
        has_providers: bool,
    ) -> (action: Option<ClientCommand<String>>)
        ensures
            command_of(action) == taken_command(command@, client_of(context), has_providers),
            final(self)@ == after_taken(old(self)@, command_of(action)),
    {
        if !has_providers {
            return None;
        }
        let action = match read_client_command(command, context) {
            Some(action) => action,
            None => {
                return None;
            },
        };
        self.remember(&action);
        Some(action)
    }

    fn remember(&mut self, command: &ClientCommand<String>)
        ensures
            final(self)@ == after_command(old(self)@, command_values(*command)),
    {
        match command {
            ClientCommand::SetTheme { theme } => {
                self.theme = Some(theme.clone());
            },
            ClientCommand::SetDetailPanelHeight { height } => {
                self.detail_panel_height = PanelHeight::nearest(*height);
            },
            ClientCommand::SetAgentPanelScope { scope } => {
                self.agent_panel_scope = *scope;
            },
            ClientCommand::SetFilter { filter } => {
                self.session_filter = Some(*filter);
            },
            ClientCommand::ToggleWorktreeGroup { key } => {
                let ghost before = self.collapsed_worktree_groups@.dom();
                match self.collapsed_worktree_groups.remove(key.as_str()) {
                    Some(_) => {
                        assert(self.collapsed_worktree_groups@.dom() =~= before.remove(key@));
                    },
                    None => {
                        let _ = self.collapsed_worktree_groups.insert(key.clone(), ());
                        assert(self.collapsed_worktree_groups@.dom() =~= before.insert(key@));
                    },
                }
            },
            _ => {},
        }
    }

    /// Remembers the pane that a context gives the focus to, and gives back
    /// the pane that is to be marked as seen.
    pub fn remember_focused_pane(&mut self, context: &HttpContext) -> (seen: Option<SeenPane>)
        ensures
            final(self)@ == after_pane_focus(old(self)@, context@),
            seen_pane(seen) == match pane_focused_by(context@) {
                Some(pane_id) => Some((context@.session, pane_id)),
                None => None,
            },
    {
        if let Some(false) = context.pane_active {
            return None;
        }
        let pane_id = match &context.pane_id {
            Some(pane_id) => pane_id.clone(),
            None => {
                return None;
            },
        };
        if pane_id.as_str().is_empty() {
            return None;
        }
        if context.client_tty.is_some() {
            self.focused_client_tty = copy_text(&context.client_tty);
        }
        let ghost before = text_values(self.focused_pane_by_session@);
        let _ = self.focused_pane_by_session.insert(context.session.clone(), pane_id.clone());
        assert(text_values(self.focused_pane_by_session@) =~= before.insert(
            context@.session,
            pane_id@,
        ));
        Some(SeenPane { session: context.session.clone(), pane_id })
    }

    /// Takes a report of the focus, and gives back the pane that is to be
    /// marked as seen. Other paths are not taken.
    pub fn handle_http_text(&mut self, path: &str, body: &str) -> (seen: Option<SeenPane>)
        ensures
            final(self)@ == after_text(old(self)@, path@, body@),
            seen_pane(seen) == seen_by_text(path@, body@),
    {
        if !same_text(path, "/focus") {
            return None;
        }
        match parse_context(body) {
            Some(context) => {
                self.focused_session = Some(context.session.clone());
                self.remember_focused_pane(&context)
            },
            None => None,
        }
    }

    /// Remembers the session that is switched to.
    pub fn focus_session(&mut self, name: &str)
        ensures
            final(self)@ == (SourceView { focused_session: Some(name@), ..old(self)@ }),
    {
        self.focused_session = Some(name.to_string());
    }

    /// Remembers panes of agents that have the focus.
    pub fn focus_agent_panes(&mut self, panes: &Vec<SeenPane>)
        ensures
            final(self)@ == (SourceView {
                focused_panes: with_panes(old(self)@.focused_panes, seen_panes(panes@)),
                ..old(self)@
            }),
    {
        let ghost all = seen_panes(panes@);
        let ghost start = self@;
        let mut i: usize = 0;
        assert(all.take(0) == Seq::<(Seq<char>, Seq<char>)>::empty());
        while i < panes.len()
            invariant
                i <= panes@.len(),
                all == seen_panes(panes@),
                self@ == (SourceView {
                    focused_panes: with_panes(start.focused_panes, all.take(i as int)),
                    ..start
                }),
            decreases panes@.len() - i,
        {
            let pane = &panes[i];
            let ghost before = text_values(self.focused_pane_by_session@);
            proof {
                assert(all.take(i + 1).drop_last() == all.take(i as int));
                assert(all.take(i + 1).last() == (pane.session@, pane.pane_id@));
            }
            let _ = self.focused_pane_by_session.insert(pane.session.clone(), pane.pane_id.clone());
            assert(text_values(self.focused_pane_by_session@) =~= before.insert(
                pane.session@,
                pane.pane_id@,
            ));
            i += 1;
        }
        assert(all.take(all.len() as int) == all);
    }

    /// The pane of a session that has the focus.
    pub fn focused_pane(&self, session: &str) -> (pane_id: Option<&str>)
        ensures
            str_of(pane_id) == pane_in(self@, session@),
    {
        match self.focused_pane_by_session.get(session) {
            Some(pane_id) => Some(pane_id.as_str()),
            None => None,
        }
    }

    /// All panes that have the focus, each session once.
    pub fn focused_panes(&self) -> (panes: Vec<SeenPane>)
        ensures
            with_panes(Map::empty(), seen_panes(panes@)) == self@.focused_panes,
            forall|i: int, j: int|
                0 <= i < j < panes@.len() ==> (#[trigger] panes@[i]).session@ != (
                #[trigger] panes@[j]).session@,
    {
        panes_of_map(&self.focused_pane_by_session)
    }

    /// The settings that a state for clients holds, given what the sidebar is
    /// at.
    pub fn snapshot_settings(&self, sidebar: &SidebarState) -> (settings: SnapshotSettings)
        ensures
            shows(settings, self@, *sidebar),
            MIN_DETAIL_PANEL_HEIGHT <= settings.detail_panel_height <= MAX_DETAIL_PANEL_HEIGHT,
    {
        let init_label = if sidebar.init_label.as_str().is_empty() {
            None
        } else {
            Some(sidebar.init_label.clone())
        };
        SnapshotSettings {
            focused_session: copy_text(&self.focused_session),
            theme: copy_text(&self.theme),
            session_filter: self.session_filter,
            agent_panel_scope: self.agent_panel_scope,
            collapsed_worktree_groups: self.collapsed_worktree_groups.key_list(),
            sidebar_width: sidebar.width,
            detail_panel_height: self.detail_panel_height.lines() as u32,
            initializing: sidebar.initializing,
            init_label,
        }
    }

    /// The terminal of the client that has the focus.
    pub fn focused_client_tty(&self) -> (tty: Option<&str>)
        ensures
            str_of(tty) == self@.focused_client_tty,
    {
        match &self.focused_client_tty {
            Some(tty) => Some(tty.as_str()),
            None => None,
        }
    }

    /// Takes the report of a pi process.
    pub fn handle_pi_runtime_upsert(&mut self, body: &JsonBody, now: u64) -> (taken: Result<
        (),
        PiRuntimeError,
    >)
        ensures
            match report_of(body@, now) {
                Some(report) => taken is Ok && exists|info: PiRuntimeInfo|
                    #![trigger info@]
                    info@ == report && final(self)@ == (SourceView {
                        pi_processes: old(self)@.pi_processes.insert(info.pid, info),
                        ..old(self)@
                    }),
                None => taken == Err::<(), PiRuntimeError>(PiRuntimeError::InvalidPayload)
                    && final(self)@ == old(self)@,
            },
    {
        match parse_pi_runtime_info(body, now) {
            Some(info) => {
                self.pi_runtime_registry.upsert(info);
                assert(info@.pid == info.pid);
                Ok(())
            },
            None => Err(PiRuntimeError::InvalidPayload),
        }
    }

    /// Takes the report of the end of a pi process, and gives back what the
    /// process had reported.
    pub fn handle_pi_runtime_delete(&mut self, body: &JsonBody) -> (removed: Result<
        Option<PiRuntimeInfo>,
        PiRuntimeError,
    >)
        ensures
            removed == ended_process(old(self)@, body@),
            final(self)@ == after_end(old(self)@, body@),
    {
        match positive_u32(body, "pid") {
            Some(pid) => Ok(self.pi_runtime_registry.delete(pid)),
            None => Err(PiRuntimeError::MissingPid),
        }
    }
}

/// The panes that a map holds, each session once.
pub fn panes_of_map(map: &TextMap<String>) -> (panes: Vec<SeenPane>)
    ensures
        with_panes(Map::empty(), seen_panes(panes@)) == text_values(map@),
        forall|i: int, j: int|
            0 <= i < j < panes@.len() ==> (#[trigger] panes@[i]).session@ != (
            #[trigger] panes@[j]).session@,
{
    let mut panes: Vec<SeenPane> = Vec::new();
    let count = map.len();
    let ghost keys = map.keys();
    let ghost values = text_values(map@);
    let mut i: usize = 0;
    while i < count
        invariant
            i <= count,
            count == keys.len(),
            keys == map.keys(),
            keys.no_duplicates(),
            keys.to_set() == map@.dom(),
            values == text_values(map@),
            panes@.len() == i,
            forall|j: int|
                0 <= j < i ==> (#[trigger] panes@[j]).session@ == keys[j] && panes@[j].pane_id@
                    == values[keys[j]],
        decreases count - i,
    {
        let (session, pane_id) = map.entry(i);
        panes.push(SeenPane { session: session.clone(), pane_id: pane_id.clone() });
        i += 1;
    }
    proof {
        lemma_with_distinct_panes(seen_panes(panes@), keys, values);
        assert forall|key: Seq<char>| values.contains_key(key) == keys.contains(key) by {
            assert(keys.to_set().contains(key) == keys.contains(key));
        }
        assert(with_panes(Map::empty(), seen_panes(panes@)) =~= values);
    }
    panes
}

/// The pane of a session that has the focus.
pub open spec fn pane_in(state: SourceView, session: Seq<char>) -> Option<Seq<char>> {
    if state.focused_panes.contains_key(session) {
        Some(state.focused_panes[session])
    } else {
        None
    }
}

/// A map of panes after panes of sessions were put in, one by one.
pub open spec fn with_panes(
    map: Map<Seq<char>, Seq<char>>,
    panes: Seq<(Seq<char>, Seq<char>)>,
) -> Map<Seq<char>, Seq<char>>
    decreases panes.len(),
{
    if panes.len() == 0 {
        map
    } else {
        with_panes(map, panes.drop_last()).insert(panes.last().0, panes.last().1)
    }
}

/// Panes of different sessions make a map of just those panes.
proof fn lemma_with_distinct_panes(
    panes: Seq<(Seq<char>, Seq<char>)>,
    keys: Seq<Seq<char>>,
    map: Map<Seq<char>, Seq<char>>,
)
    requires
        panes.len() == keys.len(),
        keys.no_duplicates(),
        forall|j: int|
            0 <= j < panes.len() ==> (#[trigger] panes[j]).0 == keys[j] && panes[j].1
                == map[keys[j]],
    ensures
        forall|key: Seq<char>| #[trigger]
            with_panes(Map::empty(), panes).contains_key(key) == keys.contains(key),
        forall|key: Seq<char>| #[trigger]
            keys.contains(key) ==> with_panes(Map::empty(), panes)[key] == map[key],
    decreases panes.len(),
{
    if panes.len() > 0 {
        let earlier = keys.drop_last();
        assert forall|j: int| 0 <= j < panes.drop_last().len() implies (
        #[trigger] panes.drop_last()[j]).0 == earlier[j] && panes.drop_last()[j].1 == map[earlier[j]] by {
            assert(panes.drop_last()[j] == panes[j]);
            assert(earlier[j] == keys[j]);
        }
        lemma_with_distinct_panes(panes.drop_last(), earlier, map);
        assert(panes.last() == panes[panes.len() - 1]);
        assert forall|key: Seq<char>| #[trigger] keys.contains(key) == (earlier.contains(key) || key
            == keys.last()) by {
            if keys.contains(key) {
                let i = choose|i: int| 0 <= i < keys.len() && keys[i] == key;
                if i < earlier.len() {
                    assert(earlier[i] == key);
                }
            }
            if earlier.contains(key) {
                let i = choose|i: int| 0 <= i < earlier.len() && earlier[i] == key;
                assert(keys[i] == key);
            }
            if key == keys.last() {
                assert(keys[keys.len() - 1] == key);
            }
        }
        let whole = with_panes(Map::empty(), panes);
        let part = with_panes(Map::empty(), panes.drop_last());
        assert forall|key: Seq<char>| #[trigger] whole.contains_key(key) == keys.contains(key) by {
            assert(part.contains_key(key) == earlier.contains(key));
            assert(keys.contains(key) == (earlier.contains(key) || key == keys.last()));
        }
        assert forall|key: Seq<char>| #[trigger] keys.contains(key) implies whole[key] == map[key] by {
            if key != keys.last() {
                assert(earlier.contains(key));
            }
        }
    }
}

// ---------------------------------------------------------------------------
// Laws.
// ---------------------------------------------------------------------------

/// Toggling a group twice leaves everything as it was.
pub proof fn toggling_twice_restores(state: SourceView, key: Seq<char>)
    ensures
        after_command(
            after_command(state, ClientCommand::ToggleWorktreeGroup { key }),
            ClientCommand::ToggleWorktreeGroup { key },
        ) == state,
{
    let toggle = ClientCommand::ToggleWorktreeGroup { key };
    let twice = after_command(after_command(state, toggle), toggle);
    assert(twice.collapsed_groups =~= state.collapsed_groups);
}

/// Whatever is asked for, the detail panel keeps a height within its bounds.
pub proof fn panel_height_stays_in_bounds(state: SourceView, command: ClientCommand<Seq<char>>)
    requires
        MIN_DETAIL_PANEL_HEIGHT <= state.detail_panel_height <= MAX_DETAIL_PANEL_HEIGHT,
    ensures
        MIN_DETAIL_PANEL_HEIGHT <= after_command(state, command).detail_panel_height
            <= MAX_DETAIL_PANEL_HEIGHT,
{
}

/// A report that a pane is not active changes which session has the focus,
/// and no pane.
pub proof fn inactive_panes_get_no_focus(state: SourceView, body: Seq<char>)
    requires
        context_in(body) matches Some(context) && context.pane_active == Some(false),
    ensures
        seen_by_focus(body) is None,
        after_focus(state, body).focused_panes == state.focused_panes,
        after_focus(state, body).focused_client_tty == state.focused_client_tty,
        after_focus(state, body).focused_session == Some(context_in(body)->Some_0.session),
{
}

/// A report of the focus touches only the session that it names: the panes of
/// other sessions, and all settings, stay.
pub proof fn focus_leaves_other_sessions(
    state: SourceView,
    body: Seq<char>,
    other: Seq<char>,
)
    requires
        context_in(body) matches Some(context) && context.session != other,
    ensures
        pane_in(after_focus(state, body), other) == pane_in(state, other),
        after_focus(state, body).theme == state.theme,
        after_focus(state, body).session_filter == state.session_filter,
        after_focus(state, body).collapsed_groups == state.collapsed_groups,
        after_focus(state, body).detail_panel_height == state.detail_panel_height,
{
}

/// What can change what the server remembers.
pub enum SourceStep {
    /// It is made with another height of the detail panel.
    WithHeight(u16),
    /// A command comes.
    Command(ClientCommand<Seq<char>>),
    /// The focus is reported.
    Focus(Seq<char>),
    /// A session is switched to.
    Session(Seq<char>),
    /// Panes of agents have the focus.
    Panes(Seq<(Seq<char>, Seq<char>)>),
    /// Pi processes report themselves or their end.
    Processes(Map<u32, PiRuntimeInfo>),
}

/// What is remembered after a step.
pub open spec fn after_step(state: SourceView, step: SourceStep) -> SourceView {
    match step {
        SourceStep::WithHeight(height) => SourceView {
            detail_panel_height: clamped_height(height),
            ..state
        },
        SourceStep::Command(command) => after_command(state, command),
        SourceStep::Focus(body) => after_focus(state, body),
        SourceStep::Session(name) => SourceView { focused_session: Some(name), ..state },
        SourceStep::Panes(panes) => SourceView {
            focused_panes: with_panes(state.focused_panes, panes),
            ..state
        },
        SourceStep::Processes(processes) => SourceView { pi_processes: processes, ..state },
    }
}

/// What a server remembers after steps from its start.
pub open spec fn after_steps(steps: Seq<SourceStep>) -> SourceView
    decreases steps.len(),
{
    if steps.len() == 0 {
        initial_state()
    } else {
        after_step(after_steps(steps.drop_last()), steps.last())
    }
}

/// The height that steps set last, if they set one.
pub open spec fn height_set_by(steps: Seq<SourceStep>) -> Option<u16>
    decreases steps.len(),
{
    if steps.len() == 0 {
        None
    } else {
        match steps.last() {
            SourceStep::WithHeight(height) => Some(height),
            SourceStep::Command(ClientCommand::SetDetailPanelHeight { height }) => Some(height),
            _ => height_set_by(steps.drop_last()),
        }
    }
}

proof fn lemma_height_after(steps: Seq<SourceStep>)
    ensures
        after_steps(steps).detail_panel_height == match height_set_by(steps) {
            Some(height) => clamped_height(height),
            None => DEFAULT_DETAIL_PANEL_HEIGHT,
        },
    decreases steps.len(),
{
    if steps.len() > 0 {
        lemma_height_after(steps.drop_last());
    }
}

/// Whatever came before a state for clients, it holds the height that was set
/// last, brought within the bounds, or the default one where none was set. And
/// the git commands that it takes are run only for directories that are not
/// empty, that a listed session has which the state shows, and of which nothing
/// is kept that may still be used.
pub proof fn snapshots_are_bounded<T>(
    steps: Seq<SourceStep>,
    settings: SnapshotSettings,
    sidebar: SidebarState,
    listings: Seq<Seq<MuxSessionView>>,
    names: Seq<Seq<char>>,
    entries: Map<Seq<char>, CachedGitInfo<T>>,
    now: u64,
)
    requires
        shows(settings, after_steps(steps), sidebar),
    ensures
        settings.detail_panel_height == match height_set_by(steps) {
            Some(height) => clamped_height(height),
            None => DEFAULT_DETAIL_PANEL_HEIGHT,
        },
        MIN_DETAIL_PANEL_HEIGHT <= settings.detail_panel_height <= MAX_DETAIL_PANEL_HEIGHT,
        forall|name: Seq<char>, dir: Seq<char>|
            #[trigger] all_visible(listings, Some(names)).contains((name, dir)) && git_is_asked(
                entries,
                dir,
                now,
            ) ==> dir.len() > 0 && names.contains(name) && listed_with_dir(listings, name, dir)
                && kept_info(entries, dir, now) is None,
{
    lemma_height_after(steps);
    assert forall|name: Seq<char>, dir: Seq<char>|
        #[trigger] all_visible(listings, Some(names)).contains((name, dir)) && git_is_asked(
            entries,
            dir,
            now,
        ) implies dir.len() > 0 && names.contains(name) && listed_with_dir(listings, name, dir)
        && kept_info(entries, dir, now) is None by {
        visible_sessions_are_inspected(listings, Some(names), name, dir);
    }
}

/// The server starts with a detail panel of 10 lines, the agents of the
/// current session, and nothing else set, focused, folded or reported.
pub proof fn the_server_starts_with_nothing_set()
    ensures
        initial_state().detail_panel_height == 10,
        initial_state().agent_panel_scope == AgentPanelScope::Current,
        initial_state().focused_session is None,
        initial_state().focused_panes == Map::<Seq<char>, Seq<char>>::empty(),
        initial_state().focused_client_tty is None,
        initial_state().theme is None,
        initial_state().session_filter is None,
        initial_state().collapsed_groups == Set::<Seq<char>>::empty(),
        initial_state().pi_processes == Map::<u32, PiRuntimeInfo>::empty(),
        initial_state().pi_ttl_ms == 20_000,
{
}

/// A setting is changed by the command that sets it and by no other, and to
/// what the command gives. No command changes the focus or what is known of
/// pi processes.
pub proof fn commands_change_their_own_setting(
    state: SourceView,
    command: ClientCommand<Seq<char>>,
    group: Seq<char>,
)
    ensures
        command matches ClientCommand::SetTheme { theme } ==> after_command(state, command).theme
            == Some(theme),
        !(command is SetTheme) ==> after_command(state, command).theme == state.theme,
        command matches ClientCommand::SetFilter { filter } ==> after_command(
            state,
            command,
        ).session_filter == Some(filter),
        !(command is SetFilter) ==> after_command(state, command).session_filter
            == state.session_filter,
        command matches ClientCommand::SetAgentPanelScope { scope } ==> after_command(
            state,
            command,
        ).agent_panel_scope == scope,
        !(command is SetAgentPanelScope) ==> after_command(state, command).agent_panel_scope
            == state.agent_panel_scope,
        command matches ClientCommand::SetDetailPanelHeight { height } ==> (4 <= height <= 60
            ==> after_command(state, command).detail_panel_height == height),
        !(command is SetDetailPanelHeight) ==> after_command(state, command).detail_panel_height
            == state.detail_panel_height,
        command matches ClientCommand::ToggleWorktreeGroup { key } ==> (after_command(
            state,
            command,
        ).collapsed_groups.contains(group) <==> if group == key {
            !state.collapsed_groups.contains(group)
        } else {
            state.collapsed_groups.contains(group)
        }),
        !(command is ToggleWorktreeGroup) ==> after_command(state, command).collapsed_groups
            == state.collapsed_groups,
        after_command(state, command).focused_session == state.focused_session,
        after_command(state, command).focused_panes == state.focused_panes,
        after_command(state, command).focused_client_tty == state.focused_client_tty,
        after_command(state, command).pi_processes == state.pi_processes,
        after_command(state, command).pi_ttl_ms == state.pi_ttl_ms,
{
}

/// A report gives its pane the focus unless it says that the pane is not
/// active or the pane has no name.
pub proof fn active_panes_get_the_focus(context: HttpContextView, pane_id: Seq<char>)
    ensures
        pane_focused_by(context) == Some(pane_id) <==> context.pane_id == Some(pane_id)
            && pane_id.len() > 0 && context.pane_active != Some(false),
{
}

/// A report of a focus moves the focus to its session, and to its pane within
/// the session where the pane gets it; the client that reports it is
/// remembered with the pane. Another text changes nothing.
pub proof fn reports_move_the_focus(
    state: SourceView,
    body: Seq<char>,
    context: HttpContextView,
    pane_id: Seq<char>,
    tty: Seq<char>,
)
    ensures
        context_in(body) is None ==> after_focus(state, body) == state && seen_by_focus(body) is None,
        context_in(body) == Some(context) ==> after_focus(state, body).focused_session == Some(
            context.session,
        ),
        context_in(body) == Some(context) && pane_focused_by(context) == Some(pane_id)
            ==> after_focus(state, body).focused_panes == state.focused_panes.insert(
            context.session,
            pane_id,
        ) && seen_by_focus(body) == Some((context.session, pane_id)),
        context_in(body) == Some(context) && pane_focused_by(context) is Some && context.client_tty
            == Some(tty) ==> after_focus(state, body).focused_client_tty == Some(tty),
        context_in(body) == Some(context) && (pane_focused_by(context) is None
            || context.client_tty is None) ==> after_focus(state, body).focused_client_tty
            == state.focused_client_tty,
        context_in(body) == Some(context) && pane_focused_by(context) is None ==> after_focus(
            state,
            body,
        ).focused_panes == state.focused_panes && seen_by_focus(body) is None,
        after_focus(state, body).theme == state.theme,
        after_focus(state, body).session_filter == state.session_filter,
        after_focus(state, body).agent_panel_scope == state.agent_panel_scope,
        after_focus(state, body).detail_panel_height == state.detail_panel_height,
        after_focus(state, body).collapsed_groups == state.collapsed_groups,
        after_focus(state, body).pi_processes == state.pi_processes,
        after_focus(state, body).pi_ttl_ms == state.pi_ttl_ms,
{
}

/// The current session is the first that any provider has in front.
pub proof fn the_first_session_in_front_is_current(current: Seq<Option<Seq<char>>>, at: int)
    ensures
        0 <= at < current.len() && current[at] is Some && (forall|i: int|
            0 <= i < at ==> (#[trigger] current[i]) is None) ==> first_in_front(current)
            == current[at],
        (forall|i: int| 0 <= i < current.len() ==> (#[trigger] current[i]) is None)
            ==> first_in_front(current) is None,
    decreases current.len(),
{
    if current.len() > 0 {
        let rest = current.drop_first();
        the_first_session_in_front_is_current(rest, at - 1);
        assert forall|i: int| 0 <= i < rest.len() implies #[trigger] rest[i] == current[i + 1] by {}
    }
}

/// A snapshot shows every setting as it is: the focus, the theme, the filter,
/// the scope, the folded groups, the height, and the sidebar's width and
/// beginning. A label that is empty is none.
pub proof fn snapshots_show_every_setting(
    settings: SnapshotSettings,
    state: SourceView,
    sidebar: SidebarState,
    group: Seq<char>,
)
    requires
        shows(settings, state, sidebar),
    ensures
        text_of(settings.focused_session) == state.focused_session,
        text_of(settings.theme) == state.theme,
        settings.session_filter == state.session_filter,
        settings.agent_panel_scope == state.agent_panel_scope,
        texts(settings.collapsed_worktree_groups@).contains(group)
            <==> state.collapsed_groups.contains(group),
        settings.detail_panel_height == state.detail_panel_height,
        settings.sidebar_width == sidebar.width,
        settings.initializing == sidebar.initializing,
        settings.init_label is None <==> sidebar.init_label@.len() == 0,
        settings.init_label matches Some(label) ==> label@ == sidebar.init_label@,
{
    let groups = texts(settings.collapsed_worktree_groups@);
    assert(groups.to_set().contains(group) <==> groups.contains(group));
}

/// Of the panes that get the focus the last one of a session counts, and the
/// other sessions keep theirs.
pub proof fn the_last_pane_of_a_session_counts(
    map: Map<Seq<char>, Seq<char>>,
    panes: Seq<(Seq<char>, Seq<char>)>,
    session: Seq<char>,
    at: int,
)
    ensures
        0 <= at < panes.len() && panes[at].0 == session && (forall|i: int|
            at < i < panes.len() ==> (#[trigger] panes[i]).0 != session) ==> with_panes(
            map,
            panes,
        ).contains_pair(session, panes[at].1),
        (forall|i: int| 0 <= i < panes.len() ==> (#[trigger] panes[i]).0 != session) ==> (with_panes(
            map,
            panes,
        ).contains_key(session) <==> map.contains_key(session)) && with_panes(map, panes)[session]
            == map[session],
    decreases panes.len(),
{
    if panes.len() > 0 {
        let front = panes.drop_last();
        the_last_pane_of_a_session_counts(map, front, session, at);
        assert(panes[panes.len() - 1] == panes.last());
        assert forall|i: int| 0 <= i < front.len() implies #[trigger] front[i] == panes[i] by {}
    }
}

/// The pane of a session is the one that has its focus, if any has.
pub proof fn focused_panes_are_found(state: SourceView, session: Seq<char>, pane_id: Seq<char>)
    ensures
        pane_in(state, session) == Some(pane_id) <==> state.focused_panes.contains_pair(
            session,
            pane_id,
        ),
{
}

/// Without providers no message is a command. With providers a command changes
/// the settings as it does, and a message that is none changes nothing.
pub proof fn messages_need_providers(
    state: SourceView,
    body: JsonMembers,
    client: Option<ClientView>,
    command: ClientCommand<Seq<char>>,
)
    ensures
        taken_command(body, client, false) is None,
        taken_command(body, client, true) == client_command(body, client),
        after_taken(state, Some(command)) == after_command(state, command),
        after_taken(state, None) == state,
{
}

/// Only a report of a focus moves the focus; a text for any other path changes
/// nothing and shows no pane.
pub proof fn only_focus_reports_move_the_focus(state: SourceView, path: Seq<char>, body: Seq<char>)
    ensures
        after_text(state, "/focus"@, body) == after_focus(state, body),
        seen_by_text("/focus"@, body) == seen_by_focus(body),
        path != "/focus"@ ==> after_text(state, path, body) == state && seen_by_text(
            path,
            body,
        ) is None,
{
}

/// The end of a pi process removes its report, gives it back where there was
/// one, and changes nothing else; without a process the message is refused and
/// changes nothing.
pub proof fn ended_processes_are_removed(state: SourceView, body: JsonMembers, pid: u32)
    ensures
        positive_at(body, "pid"@) == Some(pid) ==> {
            &&& after_end(state, body).pi_processes == state.pi_processes.remove(pid)
            &&& after_end(state, body) == (SourceView {
                pi_processes: after_end(state, body).pi_processes,
                ..state
            })
            &&& state.pi_processes.contains_key(pid) ==> ended_process(state, body) == Ok::<
                Option<PiRuntimeInfo>,
                PiRuntimeError,
            >(Some(state.pi_processes[pid]))
            &&& !state.pi_processes.contains_key(pid) ==> ended_process(state, body) == Ok::<
                Option<PiRuntimeInfo>,
                PiRuntimeError,
            >(None)
        },
        positive_at(body, "pid"@) is None ==> after_end(state, body) == state && ended_process(
            state,
            body,
        ) == Err::<Option<PiRuntimeInfo>, PiRuntimeError>(PiRuntimeError::MissingPid),
{
}

/// Panes and current sessions are taken for what they hold, in their order.
pub proof fn panes_are_taken_whole(
    pane: SeenPane,
    panes: Seq<SeenPane>,
    current: Seq<Option<String>>,
    map: Map<Seq<char>, String>,
    key: Seq<char>,
    i: int,
)
    ensures
        seen_pane(Some(pane)) == Some((pane.session@, pane.pane_id@)),
        seen_pane(None) is None,
        seen_panes(panes).len() == panes.len(),
        0 <= i < panes.len() ==> seen_panes(panes)[i] == (panes[i].session@, panes[i].pane_id@),
        optional_texts(current).len() == current.len(),
        0 <= i < current.len() ==> optional_texts(current)[i] == text_of(current[i]),
        text_values(map).contains_key(key) <==> map.contains_key(key),
        map.contains_key(key) ==> text_values(map)[key] == map[key]@,
{
}

} // verus!
