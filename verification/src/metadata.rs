//! What scripts and agents report about a session: its status, its progress
//! and its log.

use vstd::prelude::*;

use crate::commands::read_text;
use crate::json::{
    bool_at, float_bits_at, has_member, text_at, unsigned_at, JsonBody, JsonField, JsonMembers,
};
use crate::protocol::{parse_metadata_tone, tone_named, MetadataTone};
use crate::routing::metadata_path;
use crate::text::same_text;
use crate::text_map::text_of;

verus! {

/// How far a session has come.
#[derive(Debug, PartialEq, Eq)]
pub struct Progress<S> {
    pub current: Option<u64>,
    pub total: Option<u64>,
    /// The bits of the percentage, which is a double precision number.
    pub percent_bits: Option<u64>,
    pub label: Option<S>,
}

/// A status: a text, and how it is to be taken.
#[derive(Debug, PartialEq, Eq)]
pub struct Status<S> {
    pub text: S,
    pub tone: Option<MetadataTone>,
}

/// A report about a session. `S` is a text.
#[derive(Debug, PartialEq, Eq)]
pub enum MetadataCommand<S> {
    /// The session gets a status, or loses the one it has.
    SetStatus { session: S, status: Option<Status<S>> },
    /// The session gets a progress, or loses the one it has.
    SetProgress { session: S, progress: Option<Progress<S>> },
    /// The log of the session gets a line.
    AppendLog { session: S, message: S, tone: Option<MetadataTone>, source: Option<S> },
    /// The log of the session is emptied.
    ClearLogs { session: S },
}

/// The plain values of an optional status.
pub open spec fn status_values(status: Option<Status<String>>) -> Option<Status<Seq<char>>> {
    match status {
        Some(status) => Some(Status { text: status.text@, tone: status.tone }),
        None => None,
    }
}

/// The plain values of an optional progress.
pub open spec fn progress_values(progress: Option<Progress<String>>) -> Option<
    Progress<Seq<char>>,
> {
    match progress {
        Some(progress) => Some(
            Progress {
                current: progress.current,
                total: progress.total,
                percent_bits: progress.percent_bits,
                label: text_of(progress.label),
            },
        ),
        None => None,
    }
}

/// The plain values of an optional report.
pub open spec fn report_values(command: Option<MetadataCommand<String>>) -> Option<
    MetadataCommand<Seq<char>>,
> {
    match command {
        Some(MetadataCommand::SetStatus { session, status }) => Some(
            MetadataCommand::SetStatus { session: session@, status: status_values(status) },
        ),
        Some(MetadataCommand::SetProgress { session, progress }) => Some(
            MetadataCommand::SetProgress { session: session@, progress: progress_values(progress) },
        ),
        Some(MetadataCommand::AppendLog { session, message, tone, source }) => Some(
            MetadataCommand::AppendLog {
                session: session@,
                message: message@,
                tone,
                source: text_of(source),
            },
        ),
        Some(MetadataCommand::ClearLogs { session }) => Some(
            MetadataCommand::ClearLogs { session: session@ },
        ),
        None => None,
    }
}

/// The tone that a body gives. A word that is no tone counts as none.
pub open spec fn tone_at(body: JsonMembers) -> Option<MetadataTone> {
    match text_at(body, "tone"@) {
        Some(word) => tone_named(word),
        None => None,
    }
}

/// The status that a body gives: a text, or none where the text is null or
/// left out. Any other text is refused.
pub open spec fn status_at(body: JsonMembers) -> Option<Option<Status<Seq<char>>>> {
    if !has_member(body, "text"@) {
        Some(None)
    } else {
        match body["text"@] {
            JsonField::Text(text) => Some(Some(Status { text, tone: tone_at(body) })),
            JsonField::Null => Some(None),
            _ => None,
        }
    }
}

/// The progress that a body gives: none where it is to be cleared.
pub open spec fn progress_at(body: JsonMembers) -> Option<Progress<Seq<char>>> {
    if bool_at(body, "clear"@) == Some(true) {
        None
    } else {
        Some(
            Progress {
                current: unsigned_at(body, "current"@),
                total: unsigned_at(body, "total"@),
                percent_bits: float_bits_at(body, "percent"@),
                label: text_at(body, "label"@),
            },
        )
    }
}

/// The report that a body for a path gives.
pub open spec fn metadata_report(path: Seq<char>, body: JsonMembers) -> Option<
    MetadataCommand<Seq<char>>,
> {
    match text_at(body, "session"@) {
        Some(session) => if path == "/set-status"@ {
            match status_at(body) {
                Some(status) => Some(MetadataCommand::SetStatus { session, status }),
                None => None,
            }
        } else if path == "/set-progress"@ {
            Some(MetadataCommand::SetProgress { session, progress: progress_at(body) })
        } else if path == "/log"@ || path == "/notify"@ {
            match text_at(body, "message"@) {
                Some(message) => Some(
                    MetadataCommand::AppendLog {
                        session,
                        message,
                        tone: tone_at(body),
                        source: text_at(body, "source"@),
                    },
                ),
                None => None,
            }
        } else if path == "/clear-log"@ {
            Some(MetadataCommand::ClearLogs { session })
        } else {
            None
        },
        None => None,
    }
}

fn read_tone(body: &JsonBody) -> (tone: Option<MetadataTone>)
    ensures
        tone == tone_at(body@),
{
    match body.text("tone") {
        Some(word) => parse_metadata_tone(word),
        None => None,
    }
}

fn read_status(body: &JsonBody) -> (status: Option<Option<Status<String>>>)
    ensures
        match status {
            Some(status) => status_at(body@) == Some(status_values(status)),
            None => status_at(body@) is None,
        },
{
    match body.get("text") {
        Some(JsonField::Text(text)) => {
            let tone = read_tone(body);
            Some(Some(Status { text: text.clone(), tone }))
        },
        Some(JsonField::Null) => Some(None),
        Some(_) => None,
        None => Some(None),
    }
}

fn read_progress(body: &JsonBody) -> (progress: Option<Progress<String>>)
    ensures
        progress_values(progress) == progress_at(body@),
{
    match body.flag("clear") {
        Some(true) => None,
        _ => Some(
            Progress {
                current: body.unsigned("current"),
                total: body.unsigned("total"),
                percent_bits: body.float_bits("percent"),
                label: read_text(body, "label"),
            },
        ),
    }
}

/// Reads the report that a body for a path gives. A path that is not one of
/// reports, and a body that lacks what its path needs, give none.
pub fn handle_http_json(path: &str, body: &JsonBody) -> (command: Option<MetadataCommand<String>>)
    ensures
        report_values(command) == metadata_report(path@, body@),
{
    let session = read_text(body, "session")?;
    if same_text(path, "/set-status") {
        match read_status(body) {
            Some(status) => Some(MetadataCommand::SetStatus { session, status }),
            None => None,
        }
    } else if same_text(path, "/set-progress") {
        Some(MetadataCommand::SetProgress { session, progress: read_progress(body) })
    } else if same_text(path, "/log") || same_text(path, "/notify") {
        let message = read_text(body, "message")?;
        let tone = read_tone(body);
        Some(MetadataCommand::AppendLog { session, message, tone, source: read_text(body, "source") })
    } else if same_text(path, "/clear-log") {
        Some(MetadataCommand::ClearLogs { session })
    } else {
        None
    }
}

/// A report comes only on a path of reports, and only from a body that names
/// the session.
pub proof fn reports_come_on_metadata_paths(path: Seq<char>, body: JsonMembers)
    ensures
        metadata_report(path, body) is Some ==> metadata_path(path) && text_at(
            body,
            "session"@,
        ) is Some,
{
}

proof fn lemma_metadata_paths()
    ensures
        "/set-status"@.len() == 11,
        "/set-progress"@.len() == 13,
        "/log"@.len() == 4,
        "/notify"@.len() == 7,
        "/clear-log"@.len() == 10,
{
    reveal_strlit("/set-status");
    reveal_strlit("/set-progress");
    reveal_strlit("/log");
    reveal_strlit("/notify");
    reveal_strlit("/clear-log");
}

/// A report goes to the session that it names, and does what its path says:
/// it sets the status or the progress, adds to the log, or empties it.
pub proof fn reports_do_what_their_path_says(
    path: Seq<char>,
    body: JsonMembers,
    session: Seq<char>,
    message: Seq<char>,
)
    requires
        text_at(body, "session"@) == Some(session),
    ensures
        path == "/clear-log"@ <==> metadata_report(path, body) == Some(
            MetadataCommand::ClearLogs { session },
        ),
        (path == "/log"@ || path == "/notify"@) && text_at(body, "message"@) == Some(message)
            <==> metadata_report(path, body) == Some(
            MetadataCommand::AppendLog {
                session,
                message,
                tone: tone_at(body),
                source: text_at(body, "source"@),
            },
        ),
        path == "/set-progress"@ && bool_at(body, "clear"@) == Some(true) <==> metadata_report(
            path,
            body,
        ) == Some(MetadataCommand::SetProgress { session, progress: None }),
        path == "/set-progress"@ && bool_at(body, "clear"@) != Some(true) <==> metadata_report(
            path,
            body,
        ) == Some(
            MetadataCommand::SetProgress {
                session,
                progress: Some(
                    Progress {
                        current: unsigned_at(body, "current"@),
                        total: unsigned_at(body, "total"@),
                        percent_bits: float_bits_at(body, "percent"@),
                        label: text_at(body, "label"@),
                    },
                ),
            },
        ),
        path == "/set-status"@ && body.contains_pair("text"@, JsonField::Text(message))
            <==> metadata_report(path, body) == Some(
            MetadataCommand::SetStatus {
                session,
                status: Some(Status { text: message, tone: tone_at(body) }),
            },
        ),
        path == "/set-status"@ && (!body.contains_key("text"@) || body["text"@]
            == JsonField::<Seq<char>>::Null) <==> metadata_report(path, body) == Some(
            MetadataCommand::SetStatus { session, status: None },
        ),
        path == "/set-status"@ && body.contains_key("text"@) && !(body["text"@] is Text) && !(
        body["text"@] is Null) ==> metadata_report(path, body) is None,
        (path == "/log"@ || path == "/notify"@) && text_at(body, "message"@) is None
            ==> metadata_report(path, body) is None,
{
    lemma_metadata_paths();
}

/// The tone of a report is the one whose word it gives, and none where it
/// gives no word or one that is not known.
pub proof fn tones_are_read_by_their_word(body: JsonMembers, word: Seq<char>)
    ensures
        text_at(body, "tone"@) == Some(word) ==> tone_at(body) == tone_named(word),
        text_at(body, "tone"@) is None ==> tone_at(body) is None,
{
}

/// Reports that were read hold what they hold, part by part.
pub proof fn read_reports_are_taken_whole(
    session: String,
    message: String,
    tone: Option<MetadataTone>,
    source: Option<String>,
    status: Status<String>,
    progress: Progress<String>,
)
    ensures
        report_values(Some(MetadataCommand::ClearLogs { session })) == Some(
            MetadataCommand::ClearLogs { session: session@ },
        ),
        report_values(Some(MetadataCommand::AppendLog { session, message, tone, source })) == Some(
            MetadataCommand::AppendLog {
                session: session@,
                message: message@,
                tone,
                source: text_of(source),
            },
        ),
        report_values(Some(MetadataCommand::SetStatus { session, status: Some(status) })) == Some(
            MetadataCommand::SetStatus {
                session: session@,
                status: Some(Status { text: status.text@, tone: status.tone }),
            },
        ),
        report_values(Some(MetadataCommand::SetStatus { session, status: None })) == Some(
            MetadataCommand::SetStatus { session: session@, status: None },
        ),
        report_values(Some(MetadataCommand::SetProgress { session, progress: Some(progress) }))
            == Some(
            MetadataCommand::SetProgress {
                session: session@,
                progress: Some(
                    Progress {
                        current: progress.current,
                        total: progress.total,
                        percent_bits: progress.percent_bits,
                        label: text_of(progress.label),
                    },
                ),
            },
        ),
        report_values(Some(MetadataCommand::SetProgress { session, progress: None })) == Some(
            MetadataCommand::SetProgress { session: session@, progress: None },
        ),
        report_values(None) is None,
{
}

} // verus!
