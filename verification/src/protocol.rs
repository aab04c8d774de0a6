//! The words of the protocol between the server and its clients.

use vstd::prelude::*;

use crate::numerals::decimal;
use crate::text::same_text;

verus! {

/// The version that the server gives of itself.
pub const SERVER_VERSION: &'static str = "0.2.0-alpha.12";

/// The version of the protocol.
pub const PROTOCOL_VERSION: u16 = 1;

/// The message that a connection begins with.
pub const HELLO_JSON: &'static str =
    "{\"type\":\"hello\",\"protocol\":1,\"serverVersion\":\"0.2.0-alpha.12\"}";

/// The message that tells a client to quit.
pub const QUIT_JSON: &'static str = "{\"type\":\"quit\"}";

/// What an agent is doing.
#[derive(Debug, Clone, Copy, PartialEq, Eq, Structural)]
pub enum AgentStatus {
    Idle,
    Running,
    ToolRunning,
    Done,
    Error,
    Waiting,
    Interrupted,
    Stale,
}

/// Whether the pane of an agent is known to be there.
#[derive(Debug, Clone, Copy, PartialEq, Eq, Structural)]
pub enum AgentLiveness {
    Alive,
    Exited,
}

/// How a message about a session is to be taken.
#[derive(Debug, Clone, Copy, PartialEq, Eq, Structural)]
pub enum MetadataTone {
    Neutral,
    Info,
    Success,
    Warn,
    Error,
}

/// The agents that the agent panel shows.
#[derive(Debug, Clone, Copy, PartialEq, Eq, Structural)]
pub enum AgentPanelScope {
    Current,
    All,
}

/// The sessions that the sidebar shows.
#[derive(Debug, Clone, Copy, PartialEq, Eq, Structural)]
pub enum SessionFilterMode {
    All,
    Active,
    Running,
}

/// The status that a word stands for.
pub open spec fn status_named(word: Seq<char>) -> Option<AgentStatus> {
    if word == "idle"@ {
        Some(AgentStatus::Idle)
    } else if word == "running"@ {
        Some(AgentStatus::Running)
    } else if word == "tool-running"@ {
        Some(AgentStatus::ToolRunning)
    } else if word == "done"@ {
        Some(AgentStatus::Done)
    } else if word == "error"@ {
        Some(AgentStatus::Error)
    } else if word == "waiting"@ {
        Some(AgentStatus::Waiting)
    } else if word == "interrupted"@ {
        Some(AgentStatus::Interrupted)
    } else if word == "stale"@ {
        Some(AgentStatus::Stale)
    } else {
        None
    }
}

/// The tone that a word stands for.
pub open spec fn tone_named(word: Seq<char>) -> Option<MetadataTone> {
    if word == "neutral"@ {
        Some(MetadataTone::Neutral)
    } else if word == "info"@ {
        Some(MetadataTone::Info)
    } else if word == "success"@ {
        Some(MetadataTone::Success)
    } else if word == "warn"@ {
        Some(MetadataTone::Warn)
    } else if word == "error"@ {
        Some(MetadataTone::Error)
    } else {
        None
    }
}

/// The scope that a word stands for.
pub open spec fn scope_named(word: Seq<char>) -> Option<AgentPanelScope> {
    if word == "current"@ {
        Some(AgentPanelScope::Current)
    } else if word == "all"@ {
        Some(AgentPanelScope::All)
    } else {
        None
    }
}

/// The filter that a word stands for.
pub open spec fn filter_named(word: Seq<char>) -> Option<SessionFilterMode> {
    if word == "all"@ {
        Some(SessionFilterMode::All)
    } else if word == "active"@ {
        Some(SessionFilterMode::Active)
    } else if word == "running"@ {
        Some(SessionFilterMode::Running)
    } else {
        None
    }
}

/// Reads the status of an agent.
pub fn parse_agent_status(value: &str) -> (status: Option<AgentStatus>)
    ensures
        status == status_named(value@),
{
    if same_text(value, "idle") {
        Some(AgentStatus::Idle)
    } else if same_text(value, "running") {
        Some(AgentStatus::Running)
    } else if same_text(value, "tool-running") {
        Some(AgentStatus::ToolRunning)
    } else if same_text(value, "done") {
        Some(AgentStatus::Done)
    } else if same_text(value, "error") {
        Some(AgentStatus::Error)
    } else if same_text(value, "waiting") {
        Some(AgentStatus::Waiting)
    } else if same_text(value, "interrupted") {
        Some(AgentStatus::Interrupted)
    } else if same_text(value, "stale") {
        Some(AgentStatus::Stale)
    } else {
        None
    }
}

/// Reads the tone of a message.
pub fn parse_metadata_tone(value: &str) -> (tone: Option<MetadataTone>)
    ensures
        tone == tone_named(value@),
{
    if same_text(value, "neutral") {
        Some(MetadataTone::Neutral)
    } else if same_text(value, "info") {
        Some(MetadataTone::Info)
    } else if same_text(value, "success") {
        Some(MetadataTone::Success)
    } else if same_text(value, "warn") {
        Some(MetadataTone::Warn)
    } else if same_text(value, "error") {
        Some(MetadataTone::Error)
    } else {
        None
    }
}

/// Reads the scope of the agent panel.
pub fn parse_agent_panel_scope(value: &str) -> (scope: Option<AgentPanelScope>)
    ensures
        scope == scope_named(value@),
{
    if same_text(value, "current") {
        Some(AgentPanelScope::Current)
    } else if same_text(value, "all") {
        Some(AgentPanelScope::All)
    } else {
        None
    }
}

/// Reads the filter of the sidebar.
pub fn parse_session_filter(value: &str) -> (filter: Option<SessionFilterMode>)
    ensures
        filter == filter_named(value@),
{
    if same_text(value, "all") {
        Some(SessionFilterMode::All)
    } else if same_text(value, "active") {
        Some(SessionFilterMode::Active)
    } else if same_text(value, "running") {
        Some(SessionFilterMode::Running)
    } else {
        None
    }
}

/// The greeting gives the versions of the protocol and of the server.
pub proof fn hello_gives_the_versions()
    ensures
        HELLO_JSON@ == "{\"type\":\"hello\",\"protocol\":"@ + decimal(PROTOCOL_VERSION as nat)
            + ",\"serverVersion\":\""@ + SERVER_VERSION@ + "\"}"@,
{
    reveal_strlit("{\"type\":\"hello\",\"protocol\":1,\"serverVersion\":\"0.2.0-alpha.12\"}");
    reveal_strlit("{\"type\":\"hello\",\"protocol\":");
    reveal_strlit(",\"serverVersion\":\"");
    reveal_strlit("0.2.0-alpha.12");
    reveal_strlit("\"}");
    assert(decimal(1) == seq!['1']) by {
        assert('0' as u8 + 1 == 49);
        assert(49u8 as char == '1');
    }
}

/// Every status has a word of its own, and the word is read back as that
/// status: no word is read as a status that another word has.
pub proof fn each_status_has_its_word(word: Seq<char>, other: Seq<char>)
    ensures
        status_named("idle"@) == Some(AgentStatus::Idle),
        status_named("running"@) == Some(AgentStatus::Running),
        status_named("tool-running"@) == Some(AgentStatus::ToolRunning),
        status_named("done"@) == Some(AgentStatus::Done),
        status_named("error"@) == Some(AgentStatus::Error),
        status_named("waiting"@) == Some(AgentStatus::Waiting),
        status_named("interrupted"@) == Some(AgentStatus::Interrupted),
        status_named("stale"@) == Some(AgentStatus::Stale),
        status_named(word) is Some && status_named(word) == status_named(other) ==> word == other,
        status_named(word) is Some ==> seq![
            "idle"@,
            "running"@,
            "tool-running"@,
            "done"@,
            "error"@,
            "waiting"@,
            "interrupted"@,
            "stale"@,
        ].contains(word),
{
    reveal_strlit("idle");
    reveal_strlit("running");
    reveal_strlit("tool-running");
    reveal_strlit("done");
    reveal_strlit("error");
    reveal_strlit("waiting");
    reveal_strlit("interrupted");
    reveal_strlit("stale");
    assert("idle"@.len() == 4 && "done"@.len() == 4 && "idle"@[0] == 'i' && "done"@[0] == 'd');
    assert("running"@.len() == 7 && "waiting"@.len() == 7 && "running"@[0] == 'r' && "waiting"@[0]
        == 'w');
    assert("error"@.len() == 5 && "stale"@.len() == 5 && "error"@[0] == 'e' && "stale"@[0] == 's');
    assert("tool-running"@.len() == 12 && "interrupted"@.len() == 11);
    let words = seq![
        "idle"@,
        "running"@,
        "tool-running"@,
        "done"@,
        "error"@,
        "waiting"@,
        "interrupted"@,
        "stale"@,
    ];
    assert(words[0] == "idle"@ && words[1] == "running"@ && words[2] == "tool-running"@ && words[3]
        == "done"@ && words[4] == "error"@ && words[5] == "waiting"@ && words[6] == "interrupted"@
        && words[7] == "stale"@);
}

/// Every tone has a word of its own, and the word is read back as that tone.
pub proof fn each_tone_has_its_word(word: Seq<char>, other: Seq<char>)
    ensures
        tone_named("neutral"@) == Some(MetadataTone::Neutral),
        tone_named("info"@) == Some(MetadataTone::Info),
        tone_named("success"@) == Some(MetadataTone::Success),
        tone_named("warn"@) == Some(MetadataTone::Warn),
        tone_named("error"@) == Some(MetadataTone::Error),
        tone_named(word) is Some && tone_named(word) == tone_named(other) ==> word == other,
{
    reveal_strlit("neutral");
    reveal_strlit("info");
    reveal_strlit("success");
    reveal_strlit("warn");
    reveal_strlit("error");
    assert("neutral"@.len() == 7 && "success"@.len() == 7 && "neutral"@[0] == 'n' && "success"@[0]
        == 's');
    assert("info"@.len() == 4 && "warn"@.len() == 4 && "info"@[0] == 'i' && "warn"@[0] == 'w');
    assert("error"@.len() == 5);
}

/// Every scope of the agent panel has a word of its own, and the word is read
/// back as that scope.
pub proof fn each_scope_has_its_word(word: Seq<char>, other: Seq<char>)
    ensures
        scope_named("current"@) == Some(AgentPanelScope::Current),
        scope_named("all"@) == Some(AgentPanelScope::All),
        scope_named(word) is Some && scope_named(word) == scope_named(other) ==> word == other,
{
    reveal_strlit("current");
    reveal_strlit("all");
    assert("current"@.len() == 7 && "all"@.len() == 3);
}

/// Every filter has a word of its own, and the word is read back as that
/// filter.
pub proof fn each_filter_has_its_word(word: Seq<char>, other: Seq<char>)
    ensures
        filter_named("all"@) == Some(SessionFilterMode::All),
        filter_named("active"@) == Some(SessionFilterMode::Active),
        filter_named("running"@) == Some(SessionFilterMode::Running),
        filter_named(word) is Some && filter_named(word) == filter_named(other) ==> word == other,
{
    reveal_strlit("all");
    reveal_strlit("active");
    reveal_strlit("running");
    assert("all"@.len() == 3 && "active"@.len() == 6 && "running"@.len() == 7);
}

} // verus!
