//! The errors of the server and the HTTP answers that they give.

use vstd::prelude::*;

verus! {

/// Why an agent event was not applied.
#[derive(Debug, Clone, Copy, PartialEq, Eq, Structural)]
pub enum AgentEventError {
    MissingAgent,
    InvalidStatus,
    CouldNotResolveSession,
}

impl AgentEventError {
    /// The status line and the body of the answer to the event.
    pub open spec fn answer(self) -> (Seq<char>, Seq<char>) {
        match self {
            AgentEventError::MissingAgent => ("400 Bad Request"@, "missing agent"@),
            AgentEventError::InvalidStatus => ("400 Bad Request"@, "invalid status"@),
            AgentEventError::CouldNotResolveSession => ("202 Accepted"@, ""@),
        }
    }

    /// The status line and the body of the answer to the event.
    ///
    /// Agent events are broadcast to every server in every tmux namespace. A
    /// server that cannot map an event to one of its sessions takes no action
    /// and answers 202, which the sender can tell from the 204 of the server
    /// that owns the session, and which is no error.
    pub fn status_and_body(self) -> (answer: (&'static str, &'static str))
        ensures
            (answer.0@, answer.1@) == self.answer(),
    {
        match self {
            AgentEventError::MissingAgent => ("400 Bad Request", "missing agent"),
            AgentEventError::InvalidStatus => ("400 Bad Request", "invalid status"),
            AgentEventError::CouldNotResolveSession => ("202 Accepted", ""),
        }
    }
}

/// Why a request about a pi runtime was refused.
#[derive(Debug, Clone, Copy, PartialEq, Eq, Structural)]
pub enum PiRuntimeError {
    InvalidPayload,
    MissingPid,
}

impl PiRuntimeError {
    /// The body of the answer to the request.
    pub open spec fn text(self) -> Seq<char> {
        match self {
            PiRuntimeError::InvalidPayload => "invalid pi runtime payload"@,
            PiRuntimeError::MissingPid => "missing pid"@,
        }
    }

    /// The body of the answer to the request.
    pub fn body(self) -> (body: &'static str)
        ensures
            body@ == self.text(),
    {
        match self {
            PiRuntimeError::InvalidPayload => "invalid pi runtime payload",
            PiRuntimeError::MissingPid => "missing pid",
        }
    }
}

/// An error that ends a connection or the server.
#[derive(Debug)]
pub struct ServerError {
    message: String,
}

impl Clone for ServerError {
    fn clone(&self) -> (copy: ServerError)
        ensures
            copy == *self,
    {
        ServerError { message: self.message.clone() }
    }
}

impl View for ServerError {
    type V = Seq<char>;

    closed spec fn view(&self) -> Seq<char> {
        self.message@
    }
}

impl ServerError {
    /// The error with a message.
    pub fn new(message: String) -> (error: ServerError)
        ensures
            error@ == message@,
    {
        ServerError { message }
    }

    /// What the error says.
    pub fn message(&self) -> (message: &str)
        ensures
            message@ == self@,
    {
        self.message.as_str()
    }
}

/// What came of removing the file that names the process.
#[derive(Debug)]
pub enum PidFileRemoval {
    /// The file is gone, or was not there.
    Gone,
    /// The file could not be removed.
    Failed(ServerError),
}

/// Decides how the server ends: with the error of its loop or, where the loop
/// had none, with that of removing the file.
pub fn server_outcome(result: Result<(), ServerError>, removal: PidFileRemoval) -> (outcome: Result<
    (),
    ServerError,
>)
    ensures
        match (result, removal) {
            (Err(error), _) => outcome == Err::<(), ServerError>(error),
            (Ok(_), PidFileRemoval::Failed(error)) => outcome == Err::<(), ServerError>(error),
            (Ok(_), PidFileRemoval::Gone) => outcome is Ok,
        },
{
    match (result, removal) {
        (Err(error), _) => Err(error),
        (Ok(_), PidFileRemoval::Failed(error)) => Err(error),
        (Ok(_), PidFileRemoval::Gone) => Ok(()),
    }
}

/// Every refusal has an answer of its own: an event without an agent or a known
/// status is a bad request and says what it lacks, one that belongs to no
/// session is accepted and says nothing, and a report on a pi process says
/// whether its process is missing or the whole is not as it should be.
pub proof fn refusals_say_what_is_wrong(error: AgentEventError, other: AgentEventError)
    ensures
        AgentEventError::MissingAgent.answer() == ("400 Bad Request"@, "missing agent"@),
        AgentEventError::InvalidStatus.answer() == ("400 Bad Request"@, "invalid status"@),
        AgentEventError::CouldNotResolveSession.answer().0 == "202 Accepted"@,
        AgentEventError::CouldNotResolveSession.answer().1.len() == 0,
        PiRuntimeError::InvalidPayload.text() == "invalid pi runtime payload"@,
        PiRuntimeError::MissingPid.text() == "missing pid"@,
        error.answer() == other.answer() ==> error == other,
{
    reveal_strlit("");
    reveal_strlit("missing agent");
    reveal_strlit("invalid status");
    assert("missing agent"@.len() == 13 && "invalid status"@.len() == 14);
}

} // verus!
