//! Which handler a request goes to, and what is answered.

use vstd::prelude::*;
use vstd::utf8::{encode_utf8, is_ascii_chars, is_ascii_chars_encode_utf8};

use crate::errors::{AgentEventError, PiRuntimeError};
use crate::http::{body_bytes, lossy_text, terminator, utf8_lossy, HttpRequest, RequestView};
use crate::json::{json_members, read_json, text_at, JsonBody, JsonField, JsonMembers};
use crate::numerals::{
    decimal, lemma_decimal_digits, parse_unsigned, read_unsigned, write_decimal,
};
use crate::text::{chars_of, is_digit, lemma_find_is, occurs_at, same_text, string_of};
use crate::text_map::text_of;
use crate::websocket::{accept_value, hashable, is_hashable, websocket_accept};

verus! {

/// What becomes of a request that no handler takes.
#[derive(Debug)]
pub enum Fallback<S> {
    /// The server is asked to quit.
    Quit,
    /// The connection becomes a websocket.
    Upgrade { key: S },
    /// A websocket is asked for without a key.
    UpgradeWithoutKey,
    /// The server names itself.
    Banner,
}

/// Where a request goes. `S` is a text, and `B` a JSON body.
#[derive(Debug)]
#[allow(inconsistent_fields)]
pub enum Route<S, B> {
    /// Every client gets a fresh state.
    Refresh,
    /// A pane got the focus.
    Focus { body: S },
    /// The session at a place of the list is switched to.
    SwitchIndex { index: u32, body: S },
    /// The place to switch to is not given.
    MissingIndex,
    /// Something happened in tmux.
    Hook { path: S, body: S },
    /// An agent tells what it does.
    AgentEvent { body: B },
    /// A pi process reports itself.
    PiUpsert { body: B },
    /// A pi process reports its end.
    PiDelete { body: B },
    /// The body is not JSON where it has to be.
    InvalidJson,
    /// A message about a session does not name the session.
    MissingSession,
    /// A JSON body for a path, and what happens where the path is not known.
    Json { path: S, body: B, otherwise: Fallback<S> },
    /// No handler takes the request.
    Unhandled(Fallback<S>),
}

/// The plain values of a fallback.
pub open spec fn fallback_view(fallback: Fallback<String>) -> Fallback<Seq<char>> {
    match fallback {
        Fallback::Quit => Fallback::Quit,
        Fallback::Upgrade { key } => Fallback::Upgrade { key: key@ },
        Fallback::UpgradeWithoutKey => Fallback::UpgradeWithoutKey,
        Fallback::Banner => Fallback::Banner,
    }
}

/// The plain values of a route.
pub open spec fn route_view(route: Route<String, JsonBody>) -> Route<Seq<char>, JsonMembers> {
    match route {
        Route::Refresh => Route::Refresh,
        Route::Focus { body } => Route::Focus { body: body@ },
        Route::SwitchIndex { index, body } => Route::SwitchIndex { index, body: body@ },
        Route::MissingIndex => Route::MissingIndex,
        Route::Hook { path, body } => Route::Hook { path: path@, body: body@ },
        Route::AgentEvent { body } => Route::AgentEvent { body: body@ },
        Route::PiUpsert { body } => Route::PiUpsert { body: body@ },
        Route::PiDelete { body } => Route::PiDelete { body: body@ },
        Route::InvalidJson => Route::InvalidJson,
        Route::MissingSession => Route::MissingSession,
        Route::Json { path, body, otherwise } => Route::Json {
            path: path@,
            body: body@,
            otherwise: fallback_view(otherwise),
        },
        Route::Unhandled(fallback) => Route::Unhandled(fallback_view(fallback)),
    }
}

/// The paths of messages about a session.
pub open spec fn metadata_path(path: Seq<char>) -> bool {
    path == "/set-status"@ || path == "/set-progress"@ || path == "/log"@ || path == "/notify"@
        || path == "/clear-log"@
}

/// The paths of tmux hooks that are answered whatever they lead to.
pub open spec fn hook_path(path: Seq<char>) -> bool {
    path == "/pane-exited"@ || path == "/pane-layout-changed"@ || path == "/client-resized"@ || path
        == "/ensure-sidebar"@ || path == "/toggle"@
}

/// Decides whether a path is one of messages about a session.
pub fn is_metadata_path(path: &str) -> (yes: bool)
    ensures
        yes == metadata_path(path@),
{
    same_text(path, "/set-status") || same_text(path, "/set-progress") || same_text(path, "/log")
        || same_text(path, "/notify") || same_text(path, "/clear-log")
}

/// Decides whether a path is one of tmux hooks.
pub fn is_ok_hook_path(path: &str) -> (yes: bool)
    ensures
        yes == hook_path(path@),
{
    same_text(path, "/pane-exited") || same_text(path, "/pane-layout-changed") || same_text(
        path,
        "/client-resized",
    ) || same_text(path, "/ensure-sidebar") || same_text(path, "/toggle")
}

/// What becomes of a request that no handler takes.
pub open spec fn fallback_for(request: RequestView) -> Fallback<Seq<char>> {
    if request.method == "POST"@ && request.path == "/quit"@ {
        Fallback::Quit
    } else if request.asks_for_websocket() {
        match request.header("sec-websocket-key"@) {
            Some(key) => Fallback::Upgrade { key },
            None => Fallback::UpgradeWithoutKey,
        }
    } else {
        Fallback::Banner
    }
}

/// The place of the list that the query of a request gives.
pub open spec fn index_in(request: RequestView) -> Option<u32> {
    match request.param("index"@) {
        Some(index) => match parse_unsigned(index, u32::MAX as nat) {
            Some(index) => Some(index as u32),
            None => None,
        },
        None => None,
    }
}

/// Where a request goes, given its body as text and as JSON.
pub open spec fn route_for(
    request: RequestView,
    text: Seq<char>,
    json: Option<JsonMembers>,
) -> Route<Seq<char>, JsonMembers> {
    let path = request.path;
    if request.method != "POST"@ {
        Route::Unhandled(fallback_for(request))
    } else if path == "/refresh"@ {
        Route::Refresh
    } else if path == "/focus"@ {
        Route::Focus { body: text }
    } else if path == "/switch-index"@ {
        match index_in(request) {
            Some(index) => Route::SwitchIndex { index, body: text },
            None => Route::MissingIndex,
        }
    } else if hook_path(path) {
        Route::Hook { path, body: text }
    } else if path == "/api/agent-event"@ {
        match json {
            Some(body) => Route::AgentEvent { body },
            None => Route::InvalidJson,
        }
    } else if path == "/api/runtime/pi/upsert"@ {
        match json {
            Some(body) => Route::PiUpsert { body },
            None => Route::InvalidJson,
        }
    } else if path == "/api/runtime/pi/delete"@ {
        match json {
            Some(body) => Route::PiDelete { body },
            None => Route::InvalidJson,
        }
    } else {
        match json {
            Some(body) => if metadata_path(path) && text_at(body, "session"@) is None {
                Route::MissingSession
            } else {
                Route::Json { path, body, otherwise: fallback_for(request) }
            },
            None => Route::Unhandled(fallback_for(request)),
        }
    }
}

fn find_fallback(request: &HttpRequest) -> (fallback: Fallback<String>)
    ensures
        fallback_view(fallback) == fallback_for(request@),
{
    if same_text(request.method.as_str(), "POST") && same_text(request.path.as_str(), "/quit") {
        return Fallback::Quit;
    }
    if !request.is_websocket_upgrade() {
        return Fallback::Banner;
    }
    match request.header("sec-websocket-key") {
        Some(key) => Fallback::Upgrade { key: key.to_string() },
        None => Fallback::UpgradeWithoutKey,
    }
}

fn find_index(request: &HttpRequest) -> (index: Option<u32>)
    ensures
        index == index_in(request@),
{
    match request.query_param("index") {
        Some(index) => match read_unsigned(chars_of(index.as_str()).as_slice(), u32::MAX as u64) {
            Some(index) => Some(index as u32),
            None => None,
        },
        None => None,
    }
}

/// Decides where a request goes, given its body as text and as JSON.
pub fn route_parsed(request: &HttpRequest, text: String, json: Option<JsonBody>) -> (route: Route<
    String,
    JsonBody,
>)
    ensures
        route_view(route) == route_for(
            request@,
            text@,
            match json {
                Some(body) => Some(body@),
                None => None,
            },
        ),
{
    let path = request.path.as_str();
    if !same_text(request.method.as_str(), "POST") {
        return Route::Unhandled(find_fallback(request));
    }
    if same_text(path, "/refresh") {
        return Route::Refresh;
    }
    if same_text(path, "/focus") {
        return Route::Focus { body: text };
    }
    if same_text(path, "/switch-index") {
        return match find_index(request) {
            Some(index) => Route::SwitchIndex { index, body: text },
            None => Route::MissingIndex,
        };
    }
    if is_ok_hook_path(path) {
        return Route::Hook { path: request.path.clone(), body: text };
    }
    if same_text(path, "/api/agent-event") {
        return match json {
            Some(body) => Route::AgentEvent { body },
            None => Route::InvalidJson,
        };
    }
    if same_text(path, "/api/runtime/pi/upsert") {
        return match json {
            Some(body) => Route::PiUpsert { body },
            None => Route::InvalidJson,
        };
    }
    if same_text(path, "/api/runtime/pi/delete") {
        return match json {
            Some(body) => Route::PiDelete { body },
            None => Route::InvalidJson,
        };
    }
    match json {
        Some(body) => if is_metadata_path(path) && body.text("session").is_none() {
            Route::MissingSession
        } else {
            let otherwise = find_fallback(request);
            Route::Json { path: request.path.clone(), body, otherwise }
        },
        None => Route::Unhandled(find_fallback(request)),
    }
}

/// Decides where a request with the bytes of a body goes.
pub fn route(request: &HttpRequest, body: &[u8]) -> (route: Route<String, JsonBody>)
    ensures
        route_view(route) == route_for(request@, utf8_lossy(body@), json_members(body@)),
{
    route_parsed(request, lossy_text(body), read_json(body))
}

// ---------------------------------------------------------------------------
// Answers.
// ---------------------------------------------------------------------------

/// An answer with a status and a body.
pub open spec fn response(status: Seq<char>, body: Seq<char>) -> Seq<char> {
    "HTTP/1.1 "@ + status + "\r\nContent-Length: "@ + decimal(encode_utf8(body).len()) + "\r\n\r\n"@
        + body
}

/// The answer to a request whose handler has nothing to say.
pub open spec fn done_response() -> Seq<char> {
    response("200 OK"@, "ok"@)
}

/// The answer to a request that was applied and has no body to answer with.
pub open spec fn applied_response() -> Seq<char> {
    response("204 No Content"@, ""@)
}

/// The answer to a request that cannot be applied.
pub open spec fn refused_response(why: Seq<char>) -> Seq<char> {
    response("400 Bad Request"@, why)
}

/// Builds an answer.
pub fn http_response(status: &str, body: &str) -> (text: String)
    ensures
        text@ == response(status@, body@),
{
    let length = body.as_bytes().len();
    let mut text = "HTTP/1.1 ".to_string();
    text.append(status);
    text.append("\r\nContent-Length: ");
    text.append(string_of(write_decimal(length as u128).as_slice()).as_str());
    text.append("\r\n\r\n");
    text.append(body);
    text
}

/// The answer of a route that is the same whatever its handler does.
pub open spec fn fixed_response(route: Route<Seq<char>, JsonMembers>) -> Option<Seq<char>> {
    match route {
        Route::Refresh => Some(done_response()),
        Route::Focus { .. } => Some(done_response()),
        Route::SwitchIndex { .. } => Some(done_response()),
        Route::Hook { .. } => Some(done_response()),
        Route::MissingIndex => Some(refused_response("missing index"@)),
        Route::InvalidJson => Some(refused_response("invalid json"@)),
        Route::MissingSession => Some(refused_response("missing session"@)),
        _ => None,
    }
}

/// Builds the answer of a route that is the same whatever its handler does.
pub fn fixed_reply(route: &Route<String, JsonBody>) -> (text: Option<String>)
    ensures
        text_of(text) == fixed_response(route_view(*route)),
{
    match route {
        Route::Refresh => Some(http_response("200 OK", "ok")),
        Route::Focus { .. } => Some(http_response("200 OK", "ok")),
        Route::SwitchIndex { .. } => Some(http_response("200 OK", "ok")),
        Route::Hook { .. } => Some(http_response("200 OK", "ok")),
        Route::MissingIndex => Some(http_response("400 Bad Request", "missing index")),
        Route::InvalidJson => Some(http_response("400 Bad Request", "invalid json")),
        Route::MissingSession => Some(http_response("400 Bad Request", "missing session")),
        _ => None,
    }
}

/// Builds the answer to a request that was applied.
pub fn applied_reply() -> (text: String)
    ensures
        text@ == applied_response(),
{
    http_response("204 No Content", "")
}

/// Builds the answer to an agent event.
pub fn agent_event_reply(applied: Result<(), AgentEventError>) -> (text: String)
    ensures
        text@ == match applied {
            Ok(_) => applied_response(),
            Err(error) => response(error.answer().0, error.answer().1),
        },
{
    match applied {
        Ok(_) => applied_reply(),
        Err(error) => {
            let (status, body) = error.status_and_body();
            http_response(status, body)
        },
    }
}

/// Builds the answer to a request about a pi process.
pub fn pi_runtime_reply(applied: Result<(), PiRuntimeError>) -> (text: String)
    ensures
        text@ == match applied {
            Ok(_) => applied_response(),
            Err(error) => refused_response(error.text()),
        },
{
    match applied {
        Ok(_) => applied_reply(),
        Err(error) => http_response("400 Bad Request", error.body()),
    }
}

/// The answer to a request that no handler takes.
pub open spec fn fallback_response(fallback: Fallback<Seq<char>>) -> Seq<char> {
    match fallback {
        Fallback::Quit => done_response(),
        Fallback::Upgrade { key } => "HTTP/1.1 101 Switching Protocols\r\nUpgrade: websocket\r\nConnection: Upgrade\r\nSec-WebSocket-Accept: "@
            + accept_value(key) + "\r\n\r\n"@,
        Fallback::UpgradeWithoutKey => "HTTP/1.1 400 Bad Request\r\n\r\n"@,
        Fallback::Banner => response("200 OK"@, "opensessions server"@),
    }
}

/// Builds the answer to a request that no handler takes.
pub fn fallback_reply(fallback: &Fallback<String>) -> (text: String)
    requires
        fallback matches Fallback::Upgrade { key } ==> hashable(key@),
    ensures
        text@ == fallback_response(fallback_view(*fallback)),
{
    match fallback {
        Fallback::Quit => http_response("200 OK", "ok"),
        Fallback::Upgrade { key } => {
            let mut text = "HTTP/1.1 101 Switching Protocols\r\nUpgrade: websocket\r\nConnection: Upgrade\r\nSec-WebSocket-Accept: ".to_string();
            text.append(websocket_accept(key.as_str()).as_str());
            text.append("\r\n\r\n");
            text
        },
        Fallback::UpgradeWithoutKey => "HTTP/1.1 400 Bad Request\r\n\r\n".to_string(),
        Fallback::Banner => http_response("200 OK", "opensessions server"),
    }
}

/// What the handler of a request came to.
#[derive(Debug)]
pub enum Handled<S> {
    /// The request was taken, and maybe there is a state to broadcast.
    Done(Option<S>),
    /// An agent event was not applied.
    EventRefused(AgentEventError),
    /// A request about a pi process was refused.
    PiRefused(PiRuntimeError),
    /// There is no handler for the request.
    NotTaken,
}

/// The plain values of what a handler came to.
pub open spec fn handled_view(handled: Handled<String>) -> Handled<Seq<char>> {
    match handled {
        Handled::Done(payload) => Handled::Done(text_of(payload)),
        Handled::EventRefused(error) => Handled::EventRefused(error),
        Handled::PiRefused(error) => Handled::PiRefused(error),
        Handled::NotTaken => Handled::NotTaken,
    }
}

/// What happens to a connection after the answer.
#[derive(Debug, Clone, Copy, PartialEq, Eq, Structural)]
pub enum AfterReply {
    /// The connection is closed.
    Close,
    /// The connection is closed, and the server quits.
    Shutdown,
    /// The connection goes on as a websocket.
    Websocket,
    /// The connection is let go as it is.
    Release,
}

/// What happens to a connection after the answer to a request that no handler
/// takes.
pub open spec fn after_fallback(fallback: Fallback<Seq<char>>) -> AfterReply {
    match fallback {
        Fallback::Quit => AfterReply::Shutdown,
        Fallback::Upgrade { .. } => AfterReply::Websocket,
        Fallback::UpgradeWithoutKey => AfterReply::Release,
        Fallback::Banner => AfterReply::Release,
    }
}

/// The fallback that a request comes to, if it comes to one.
pub open spec fn fallback_taken(
    route: Route<Seq<char>, JsonMembers>,
    handled: Handled<Seq<char>>,
) -> Option<Fallback<Seq<char>>> {
    match route {
        Route::Unhandled(fallback) => Some(fallback),
        Route::Json { otherwise, .. } => if handled is Done {
            None
        } else {
            Some(otherwise)
        },
        _ => None,
    }
}

/// What is answered to a request.
pub open spec fn reply_to(
    route: Route<Seq<char>, JsonMembers>,
    handled: Handled<Seq<char>>,
) -> Seq<char> {
    match (fixed_response(route), fallback_taken(route, handled)) {
        (Some(text), _) => text,
        (None, Some(fallback)) => fallback_response(fallback),
        (None, None) => match (route, handled) {
            (Route::AgentEvent { .. }, Handled::EventRefused(error)) => response(
                error.answer().0,
                error.answer().1,
            ),
            (Route::AgentEvent { .. }, Handled::NotTaken) => response(
                AgentEventError::CouldNotResolveSession.answer().0,
                AgentEventError::CouldNotResolveSession.answer().1,
            ),
            (Route::PiUpsert { .. }, Handled::PiRefused(error)) => refused_response(error.text()),
            (Route::PiDelete { .. }, Handled::PiRefused(error)) => refused_response(error.text()),
            _ => applied_response(),
        },
    }
}

/// What is broadcast because of a request. A switch and the report of a pi
/// process are not.
pub open spec fn broadcast_for(
    route: Route<Seq<char>, JsonMembers>,
    handled: Handled<Seq<char>>,
) -> Option<Seq<char>> {
    match handled {
        Handled::Done(payload) => match route {
            Route::Refresh => payload,
            Route::Focus { .. } => payload,
            Route::Hook { .. } => payload,
            Route::AgentEvent { .. } => payload,
            Route::PiDelete { .. } => payload,
            Route::Json { .. } => payload,
            _ => None,
        },
        _ => None,
    }
}

/// What happens to the connection of a request after the answer.
pub open spec fn after_reply(
    route: Route<Seq<char>, JsonMembers>,
    handled: Handled<Seq<char>>,
) -> AfterReply {
    match fallback_taken(route, handled) {
        Some(fallback) => after_fallback(fallback),
        None => AfterReply::Close,
    }
}

/// What a request leads to.
#[derive(Debug)]
pub struct Answer {
    /// What is broadcast before the answer.
    pub broadcast: Option<String>,
    /// The answer.
    pub reply: String,
    /// What happens after it.
    pub next: AfterReply,
}

/// Whether the answer to a request can be computed: a key that it holds is
/// short enough to be hashed.
pub open spec fn answerable(route: Route<Seq<char>, JsonMembers>) -> bool {
    match route {
        Route::Unhandled(Fallback::Upgrade { key }) => hashable(key),
        Route::Json { otherwise: Fallback::Upgrade { key }, .. } => hashable(key),
        _ => true,
    }
}

/// Decides whether the answer to a request can be computed.
pub fn is_answerable(route: &Route<String, JsonBody>) -> (yes: bool)
    ensures
        yes == answerable(route_view(*route)),
{
    match route {
        Route::Unhandled(Fallback::Upgrade { key }) => is_hashable(key.as_str()),
        Route::Json { otherwise: Fallback::Upgrade { key }, .. } => is_hashable(key.as_str()),
        _ => true,
    }
}

fn settle(fallback: &Fallback<String>) -> (answer: Answer)
    requires
        fallback matches Fallback::Upgrade { key } ==> hashable(key@),
    ensures
        answer.broadcast is None,
        answer.reply@ == fallback_response(fallback_view(*fallback)),
        answer.next == after_fallback(fallback_view(*fallback)),
{
    let next = match fallback {
        Fallback::Quit => AfterReply::Shutdown,
        Fallback::Upgrade { .. } => AfterReply::Websocket,
        Fallback::UpgradeWithoutKey => AfterReply::Release,
        Fallback::Banner => AfterReply::Release,
    };
    Answer { broadcast: None, reply: fallback_reply(fallback), next }
}

/// Decides what a request leads to, given what its handler came to.
pub fn answer(route: &Route<String, JsonBody>, handled: Handled<String>) -> (answer: Answer)
    requires
        answerable(route_view(*route)),
    ensures
        text_of(answer.broadcast) == broadcast_for(route_view(*route), handled_view(handled)),
        answer.reply@ == reply_to(route_view(*route), handled_view(handled)),
        answer.next == after_reply(route_view(*route), handled_view(handled)),
{
    let next = AfterReply::Close;
    if let Some(reply) = fixed_reply(route) {
        let broadcast = match (route, handled) {
            (Route::Refresh, Handled::Done(payload)) => payload,
            (Route::Focus { .. }, Handled::Done(payload)) => payload,
            (Route::Hook { .. }, Handled::Done(payload)) => payload,
            _ => None,
        };
        return Answer { broadcast, reply, next };
    }
    match route {
        Route::AgentEvent { .. } => match handled {
            Handled::Done(payload) => Answer {
                broadcast: payload,
                reply: agent_event_reply(Ok(())),
                next,
            },
            Handled::EventRefused(error) => Answer {
                broadcast: None,
                reply: agent_event_reply(Err(error)),
                next,
            },
            Handled::PiRefused(_) => Answer { broadcast: None, reply: applied_reply(), next },
            Handled::NotTaken => Answer {
                broadcast: None,
                reply: agent_event_reply(Err(AgentEventError::CouldNotResolveSession)),
                next,
            },
        },
        Route::PiUpsert { .. } => match handled {
            Handled::PiRefused(error) => Answer {
                broadcast: None,
                reply: pi_runtime_reply(Err(error)),
                next,
            },
            _ => Answer { broadcast: None, reply: pi_runtime_reply(Ok(())), next },
        },
        Route::PiDelete { .. } => match handled {
            Handled::PiRefused(error) => Answer {
                broadcast: None,
                reply: pi_runtime_reply(Err(error)),
                next,
            },
            Handled::Done(payload) => Answer {
                broadcast: payload,
                reply: pi_runtime_reply(Ok(())),
                next,
            },
            _ => Answer { broadcast: None, reply: pi_runtime_reply(Ok(())), next },
        },
        Route::Json { otherwise, .. } => match handled {
            Handled::Done(payload) => Answer { broadcast: payload, reply: applied_reply(), next },
            _ => settle(otherwise),
        },
        Route::Unhandled(fallback) => settle(fallback),
        _ => Answer { broadcast: None, reply: applied_reply(), next },
    }
}

// ---------------------------------------------------------------------------
// Laws.
// ---------------------------------------------------------------------------

/// Only a POST request reaches a handler or makes the server quit.
pub proof fn only_posts_are_handled(
    request: RequestView,
    text: Seq<char>,
    json: Option<JsonMembers>,
)
    requires
        request.method != "POST"@,
    ensures
        route_for(request, text, json) matches Route::Unhandled(fallback) && !(fallback is Quit),
{
}

/// The server quits only where it is asked to by a POST request for `/quit`.
pub proof fn only_quit_requests_shut_down(
    request: RequestView,
    text: Seq<char>,
    json: Option<JsonMembers>,
    handled: Handled<Seq<char>>,
)
    ensures
        after_reply(route_for(request, text, json), handled) == AfterReply::Shutdown
            ==> request.method == "POST"@ && request.path == "/quit"@,
{
}

/// A message about a session that does not name the session is refused,
/// whatever else it says.
pub proof fn nameless_messages_are_refused(
    request: RequestView,
    text: Seq<char>,
    body: JsonMembers,
)
    requires
        request.method == "POST"@,
        metadata_path(request.path),
        text_at(body, "session"@) is None,
    ensures
        fixed_response(route_for(request, text, Some(body))) == Some(
            refused_response("missing session"@),
        ),
{
    lemma_paths();
    let path = request.path;
    assert(!hook_path(path));
}

/// The sender of an agent event can tell by the answer whether the event was
/// applied, refused, or left to another server.
pub proof fn answers_tell_event_outcomes_apart(error: AgentEventError)
    ensures
        response(error.answer().0, error.answer().1) != applied_response(),
        error != AgentEventError::CouldNotResolveSession ==> response(
            error.answer().0,
            error.answer().1,
        ) != response(
            AgentEventError::CouldNotResolveSession.answer().0,
            AgentEventError::CouldNotResolveSession.answer().1,
        ),
{
    reveal_strlit("HTTP/1.1 ");
    reveal_strlit("204 No Content");
    reveal_strlit("202 Accepted");
    reveal_strlit("400 Bad Request");
    let none = AgentEventError::CouldNotResolveSession;
    let given = response(error.answer().0, error.answer().1);
    assert(applied_response()[9] == '2');
    assert(applied_response()[11] == '4');
    assert(response(none.answer().0, none.answer().1)[9] == '2');
    assert(response(none.answer().0, none.answer().1)[11] == '2');
    if error != none {
        assert(given[9] == '4');
    }
}

/// Texts are encoded one after the other.
proof fn lemma_encode_concat(a: Seq<char>, b: Seq<char>)
    ensures
        encode_utf8(a + b) == encode_utf8(a) + encode_utf8(b),
    decreases a.len(),
{
    if a.len() == 0 {
        assert(a + b =~= b);
        assert(encode_utf8(a) + encode_utf8(b) =~= encode_utf8(b));
    } else {
        lemma_encode_concat(a.drop_first(), b);
        assert((a + b).drop_first() =~= a.drop_first() + b);
        assert(encode_utf8(a + b) =~= encode_utf8(a) + encode_utf8(b));
    }
}

/// Who reads an answer as this server reads requests finds the body in it, as
/// long as its status is plain and on one line.
pub proof fn answers_carry_their_body(status: Seq<char>, body: Seq<char>)
    requires
        is_ascii_chars(status),
        !status.contains('\r'),
    ensures
        body_bytes(encode_utf8(response(status, body))) == encode_utf8(body),
{
    let begin = "HTTP/1.1 "@;
    let middle = "\r\nContent-Length: "@;
    let number = decimal(encode_utf8(body).len());
    let end = "\r\n\r\n"@;
    reveal_strlit("HTTP/1.1 ");
    reveal_strlit("\r\nContent-Length: ");
    reveal_strlit("\r\n\r\n");
    lemma_decimal_digits(encode_utf8(body).len());
    let head = begin + status + middle + number + end;
    assert(response(status, body) =~= head + body);
    assert(is_ascii_chars(head)) by {
        assert forall|i: int| 0 <= i < number.len() implies (#[trigger] number[i]) as u32 <= 127 by {
            assert(is_digit(number[i]));
        }
    }
    lemma_encode_concat(head, body);
    is_ascii_chars_encode_utf8(head);
    let bytes = encode_utf8(head) + encode_utf8(body);
    let at = head.len() - 4;
    let p = begin.len() + status.len();
    assert(head[at] == '\r' && head[at + 1] == '\n' && head[at + 2] == '\r' && head[at + 3] == '\n');
    assert(bytes.subrange(at, at + 4) =~= terminator());
    assert forall|j: int| 0 <= j < at implies !occurs_at(bytes, terminator(), j) by {
        if occurs_at(bytes, terminator(), j) {
            let window = bytes.subrange(j, j + 4);
            assert(window[0] == 13u8 && window[2] == 13u8);
            assert(bytes[j] == 13u8 && bytes[j + 2] == 13u8);
            assert(head[j] == '\r');
            if j < begin.len() {
                assert(head[j] == begin[j]);
            } else if j < p {
                assert(head[j] == status[j - begin.len()]);
                assert(status.contains(head[j]));
            } else if j < p + middle.len() {
                assert(head[j] == middle[j - p]);
                assert(j == p);
                assert(head[j + 2] == middle[2]);
            } else {
                assert(head[j] == number[j - p - middle.len()]);
                assert(is_digit(head[j]));
            }
        }
    }
    lemma_find_is(bytes, terminator(), at);
    assert(bytes.skip(at + 4) =~= encode_utf8(body));
}

proof fn lemma_paths()
    ensures
        "/quit"@.len() == 5,
        "/refresh"@.len() == 8,
        "/focus"@.len() == 6,
        "/switch-index"@.len() == 13 && "/switch-index"@[2] == 'w',
        "/pane-exited"@.len() == 12,
        "/pane-layout-changed"@.len() == 20,
        "/client-resized"@.len() == 15 && "/client-resized"@[1] == 'c',
        "/ensure-sidebar"@.len() == 15 && "/ensure-sidebar"@[1] == 'e',
        "/toggle"@.len() == 7 && "/toggle"@[1] == 't',
        "/api/agent-event"@.len() == 16,
        "/api/runtime/pi/upsert"@.len() == 22 && "/api/runtime/pi/upsert"@[16] == 'u',
        "/api/runtime/pi/delete"@.len() == 22 && "/api/runtime/pi/delete"@[16] == 'd',
        "/set-status"@.len() == 11,
        "/set-progress"@.len() == 13 && "/set-progress"@[2] == 'e',
        "/log"@.len() == 4,
        "/notify"@.len() == 7 && "/notify"@[1] == 'n',
        "/clear-log"@.len() == 10,
{
    reveal_strlit("/quit");
    reveal_strlit("/set-status");
    reveal_strlit("/set-progress");
    reveal_strlit("/log");
    reveal_strlit("/notify");
    reveal_strlit("/clear-log");
    reveal_strlit("/refresh");
    reveal_strlit("/focus");
    reveal_strlit("/switch-index");
    reveal_strlit("/pane-exited");
    reveal_strlit("/pane-layout-changed");
    reveal_strlit("/client-resized");
    reveal_strlit("/ensure-sidebar");
    reveal_strlit("/toggle");
    reveal_strlit("/api/agent-event");
    reveal_strlit("/api/runtime/pi/upsert");
    reveal_strlit("/api/runtime/pi/delete");
}

/// Every path that the server has a handler for leads to that handler, with
/// the request's own text or JSON, and no other path does.
pub proof fn each_path_has_its_handler(
    request: RequestView,
    text: Seq<char>,
    json: Option<JsonMembers>,
    index: u32,
    body: JsonMembers,
)
    requires
        request.method == "POST"@,
    ensures
        route_for(request, text, json) == Route::<Seq<char>, JsonMembers>::Refresh <==> request.path
            == "/refresh"@,
        route_for(request, text, json) is Focus <==> request.path == "/focus"@,
        request.path == "/focus"@ ==> route_for(request, text, json) == (Route::<
            Seq<char>,
            JsonMembers,
        >::Focus { body: text }),
        route_for(request, text, json) is SwitchIndex || route_for(request, text, json)
            == Route::<Seq<char>, JsonMembers>::MissingIndex <==> request.path == "/switch-index"@,
        request.path == "/switch-index"@ && index_in(request) == Some(index) ==> route_for(
            request,
            text,
            json,
        ) == (Route::<Seq<char>, JsonMembers>::SwitchIndex { index, body: text }),
        request.path == "/switch-index"@ && index_in(request) is None ==> route_for(
            request,
            text,
            json,
        ) == Route::<Seq<char>, JsonMembers>::MissingIndex,
        route_for(request, text, json) is Hook <==> request.path == "/pane-exited"@ || request.path
            == "/pane-layout-changed"@ || request.path == "/client-resized"@ || request.path
            == "/ensure-sidebar"@ || request.path == "/toggle"@,
        route_for(request, text, json) is Hook ==> route_for(request, text, json) == (Route::<
            Seq<char>,
            JsonMembers,
        >::Hook { path: request.path, body: text }),
        route_for(request, text, Some(body)) == (Route::<Seq<char>, JsonMembers>::AgentEvent {
            body,
        }) <==> request.path == "/api/agent-event"@,
        route_for(request, text, Some(body)) == (Route::<Seq<char>, JsonMembers>::PiUpsert { body })
            <==> request.path == "/api/runtime/pi/upsert"@,
        route_for(request, text, Some(body)) == (Route::<Seq<char>, JsonMembers>::PiDelete { body })
            <==> request.path == "/api/runtime/pi/delete"@,
        route_for(request, text, None) == Route::<Seq<char>, JsonMembers>::InvalidJson
            <==> request.path == "/api/agent-event"@ || request.path == "/api/runtime/pi/upsert"@
            || request.path == "/api/runtime/pi/delete"@,
        route_for(request, text, Some(body)) == Route::<Seq<char>, JsonMembers>::MissingSession <==> (
        request.path == "/set-status"@ || request.path == "/set-progress"@ || request.path
            == "/log"@ || request.path == "/notify"@ || request.path == "/clear-log"@) && (
        !body.contains_key("session"@) || !(body["session"@] is Text)),
{
    lemma_paths();
}

/// A message whose body is JSON and that no handler is named for is offered to
/// the rest of the server, with its body; one without is not.
pub proof fn other_messages_are_offered_as_json(
    request: RequestView,
    text: Seq<char>,
    body: JsonMembers,
    name: Seq<char>,
)
    requires
        request.method == "POST"@,
        body.contains_pair("session"@, JsonField::Text(name)),
        ![
            "/refresh"@,
            "/focus"@,
            "/switch-index"@,
            "/pane-exited"@,
            "/pane-layout-changed"@,
            "/client-resized"@,
            "/ensure-sidebar"@,
            "/toggle"@,
            "/api/agent-event"@,
            "/api/runtime/pi/upsert"@,
            "/api/runtime/pi/delete"@,
        ]@.contains(request.path),
    ensures
        route_for(request, text, Some(body)) is Json,
        route_for(request, text, Some(body))->Json_path == request.path,
        route_for(request, text, Some(body))->Json_body == body,
        route_for(request, text, None) is Unhandled,
{
    let named = [
        "/refresh"@,
        "/focus"@,
        "/switch-index"@,
        "/pane-exited"@,
        "/pane-layout-changed"@,
        "/client-resized"@,
        "/ensure-sidebar"@,
        "/toggle"@,
        "/api/agent-event"@,
        "/api/runtime/pi/upsert"@,
        "/api/runtime/pi/delete"@,
    ]@;
    assert(named[0] == "/refresh"@ && named[1] == "/focus"@ && named[2] == "/switch-index"@
        && named[3] == "/pane-exited"@ && named[4] == "/pane-layout-changed"@ && named[5]
        == "/client-resized"@ && named[6] == "/ensure-sidebar"@ && named[7] == "/toggle"@
        && named[8] == "/api/agent-event"@ && named[9] == "/api/runtime/pi/upsert"@ && named[10]
        == "/api/runtime/pi/delete"@);
}

/// What a handler gives out on a POST request for a refresh, a focus, a hook,
/// an agent event or the end of a pi process, or on a JSON message, is sent to
/// every client as it is.
pub proof fn what_handlers_give_out_is_sent_to_all(
    request: RequestView,
    text: Seq<char>,
    json: Option<JsonMembers>,
    payload: Option<Seq<char>>,
)
    requires
        request.method == "POST"@,
    ensures
        request.path == "/refresh"@ || request.path == "/focus"@ || request.path == "/pane-exited"@
            || request.path == "/pane-layout-changed"@ || request.path == "/client-resized"@
            || request.path == "/ensure-sidebar"@ || request.path == "/toggle"@ ==> broadcast_for(
            route_for(request, text, json),
            Handled::Done(payload),
        ) == payload,
        json is Some && (request.path == "/api/agent-event"@ || request.path
            == "/api/runtime/pi/delete"@) ==> broadcast_for(
            route_for(request, text, json),
            Handled::Done(payload),
        ) == payload,
        route_for(request, text, json) is Json ==> broadcast_for(
            route_for(request, text, json),
            Handled::Done(payload),
        ) == payload,
{
    lemma_paths();
}

/// Nothing is sent to the clients but what a handler gives out: not on a
/// refusal, not where no handler took the request, and not on a request to
/// switch by index or to report a pi process.
pub proof fn nothing_else_is_sent_to_all(
    request: RequestView,
    text: Seq<char>,
    json: Option<JsonMembers>,
    handled: Handled<Seq<char>>,
)
    ensures
        !(handled is Done) ==> broadcast_for(route_for(request, text, json), handled) is None,
        request.method != "POST"@ ==> broadcast_for(route_for(request, text, json), handled) is None,
        request.path == "/switch-index"@ || request.path == "/api/runtime/pi/upsert"@
            ==> broadcast_for(route_for(request, text, json), handled) is None,
        json is None && (request.path == "/api/agent-event"@ || request.path
            == "/api/runtime/pi/delete"@) ==> broadcast_for(
            route_for(request, text, json),
            handled,
        ) is None,
        broadcast_for(route_for(request, text, json), handled) matches Some(payload) ==> handled
            == Handled::Done(Some(payload)),
{
    lemma_paths();
}

/// A handled request is answered with `ok` or with nothing to say, a bad one
/// with what is wrong with it, and the connection is closed after that.
pub proof fn replies_tell_what_became_of_requests(
    request: RequestView,
    text: Seq<char>,
    json: Option<JsonMembers>,
    body: JsonMembers,
    handled: Handled<Seq<char>>,
    refused: AgentEventError,
    pi_refused: PiRuntimeError,
)
    requires
        request.method == "POST"@,
    ensures
        request.path == "/refresh"@ || request.path == "/focus"@ || request.path == "/pane-exited"@
            || request.path == "/pane-layout-changed"@ || request.path == "/client-resized"@
            || request.path == "/ensure-sidebar"@ || request.path == "/toggle"@ || request.path
            == "/switch-index"@ && index_in(request) is Some ==> reply_to(
            route_for(request, text, json),
            handled,
        ) == response("200 OK"@, "ok"@) && after_reply(route_for(request, text, json), handled)
            == AfterReply::Close,
        request.path == "/switch-index"@ && index_in(request) is None ==> reply_to(
            route_for(request, text, json),
            handled,
        ) == response("400 Bad Request"@, "missing index"@) && after_reply(
            route_for(request, text, json),
            handled,
        ) == AfterReply::Close,
        request.path == "/api/agent-event"@ || request.path == "/api/runtime/pi/upsert"@
            || request.path == "/api/runtime/pi/delete"@ ==> reply_to(
            route_for(request, text, None),
            handled,
        ) == response("400 Bad Request"@, "invalid json"@) && after_reply(
            route_for(request, text, None),
            handled,
        ) == AfterReply::Close && after_reply(route_for(request, text, Some(body)), handled)
            == AfterReply::Close,
        (request.path == "/api/agent-event"@ || request.path == "/api/runtime/pi/upsert"@
            || request.path == "/api/runtime/pi/delete"@) && handled is Done ==> reply_to(
            route_for(request, text, Some(body)),
            handled,
        ) == response("204 No Content"@, ""@),
        request.path == "/api/agent-event"@ ==> reply_to(
            route_for(request, text, Some(body)),
            Handled::EventRefused(refused),
        ) == match refused {
            AgentEventError::MissingAgent => response("400 Bad Request"@, "missing agent"@),
            AgentEventError::InvalidStatus => response("400 Bad Request"@, "invalid status"@),
            AgentEventError::CouldNotResolveSession => response("202 Accepted"@, ""@),
        },
        request.path == "/api/agent-event"@ ==> reply_to(
            route_for(request, text, Some(body)),
            Handled::NotTaken,
        ) == response("202 Accepted"@, ""@),
        request.path == "/api/runtime/pi/upsert"@ || request.path == "/api/runtime/pi/delete"@
            ==> reply_to(route_for(request, text, Some(body)), Handled::PiRefused(pi_refused))
            == match pi_refused {
            PiRuntimeError::InvalidPayload => response(
                "400 Bad Request"@,
                "invalid pi runtime payload"@,
            ),
            PiRuntimeError::MissingPid => response("400 Bad Request"@, "missing pid"@),
        },
        route_for(request, text, json) is Json && handled is Done ==> reply_to(
            route_for(request, text, json),
            handled,
        ) == response("204 No Content"@, ""@) && after_reply(
            route_for(request, text, json),
            handled,
        ) == AfterReply::Close,
{
    lemma_paths();
}

/// A request that no handler takes makes the server quit where it asks for
/// that, becomes a websocket where it asks for one and brings a key, and is
/// otherwise answered and let go.
pub proof fn what_no_handler_takes_falls_back(
    request: RequestView,
    text: Seq<char>,
    body: JsonMembers,
    key: Seq<char>,
)
    ensures
        request.method == "POST"@ && request.path == "/quit"@ ==> after_reply(
            route_for(request, text, None),
            Handled::NotTaken,
        ) == AfterReply::Shutdown && after_reply(
            route_for(request, text, Some(body)),
            Handled::NotTaken,
        ) == AfterReply::Shutdown && reply_to(route_for(request, text, None), Handled::NotTaken)
            == response("200 OK"@, "ok"@),
        request.method != "POST"@ && !request.asks_for_websocket() ==> reply_to(
            route_for(request, text, Some(body)),
            Handled::NotTaken,
        ) == response("200 OK"@, "opensessions server"@) && after_reply(
            route_for(request, text, Some(body)),
            Handled::NotTaken,
        ) == AfterReply::Release,
        request.method != "POST"@ && request.asks_for_websocket() && request.header(
            "sec-websocket-key"@,
        ) is None ==> reply_to(route_for(request, text, Some(body)), Handled::NotTaken)
            == "HTTP/1.1 400 Bad Request\r\n\r\n"@ && after_reply(
            route_for(request, text, Some(body)),
            Handled::NotTaken,
        ) == AfterReply::Release,
        request.method != "POST"@ && request.asks_for_websocket() && request.header(
            "sec-websocket-key"@,
        ) == Some(key) ==> reply_to(route_for(request, text, Some(body)), Handled::NotTaken)
            == "HTTP/1.1 101 Switching Protocols\r\nUpgrade: websocket\r\nConnection: Upgrade\r\nSec-WebSocket-Accept: "@
            + accept_value(key) + "\r\n\r\n"@ && after_reply(
            route_for(request, text, Some(body)),
            Handled::NotTaken,
        ) == AfterReply::Websocket,
        route_for(request, text, Some(body)) is Json ==> after_reply(
            route_for(request, text, Some(body)),
            Handled::NotTaken,
        ) == after_reply(route_for(request, text, None), Handled::NotTaken) && reply_to(
            route_for(request, text, Some(body)),
            Handled::NotTaken,
        ) == reply_to(route_for(request, text, None), Handled::NotTaken),
{
    lemma_paths();
}

/// An answer is the status line, the length of the body in bytes, an empty
/// line and the body.
pub proof fn answers_are_status_length_and_body(status: Seq<char>, body: Seq<char>)
    ensures
        response(status, body) == "HTTP/1.1 "@ + status + "\r\n"@ + "Content-Length: "@ + decimal(
            encode_utf8(body).len(),
        ) + "\r\n"@ + "\r\n"@ + body,
{
    reveal_strlit("\r\n");
    reveal_strlit("\r\n\r\n");
    reveal_strlit("Content-Length: ");
    reveal_strlit("\r\nContent-Length: ");
    assert("\r\nContent-Length: "@ =~= "\r\n"@ + "Content-Length: "@);
    assert("\r\n\r\n"@ =~= "\r\n"@ + "\r\n"@);
    assert(response(status, body) =~= "HTTP/1.1 "@ + status + "\r\n"@ + "Content-Length: "@
        + decimal(encode_utf8(body).len()) + "\r\n"@ + "\r\n"@ + body);
}

/// Routes and outcomes are taken for what they hold: one that is of one kind is
/// seen as of that kind, with the same members.
pub proof fn routes_are_taken_whole(
    path: String,
    text: String,
    body: JsonBody,
    otherwise: Fallback<String>,
    payload: Option<String>,
    handled: Handled<String>,
    route: Route<String, JsonBody>,
)
    ensures
        route_view(Route::Focus { body: text }) == (Route::<
            Seq<char>,
            JsonMembers,
        >::Focus { body: text@ }),
        route_view(Route::Hook { path, body: text }) == (Route::<Seq<char>, JsonMembers>::Hook {
            path: path@,
            body: text@,
        }),
        route_view(Route::AgentEvent { body }) == (Route::<Seq<char>, JsonMembers>::AgentEvent {
            body: body@,
        }),
        route_view(Route::PiUpsert { body }) == (Route::<Seq<char>, JsonMembers>::PiUpsert {
            body: body@,
        }),
        route_view(Route::PiDelete { body }) == (Route::<Seq<char>, JsonMembers>::PiDelete {
            body: body@,
        }),
        route_view(Route::Json { path, body, otherwise }) == (Route::Json {
            path: path@,
            body: body@,
            otherwise: fallback_view(otherwise),
        }),
        route_view(Route::Unhandled(otherwise)) == Route::<Seq<char>, JsonMembers>::Unhandled(
            fallback_view(otherwise),
        ),
        route is Refresh <==> route_view(route) is Refresh,
        route is SwitchIndex <==> route_view(route) is SwitchIndex,
        route is MissingIndex <==> route_view(route) is MissingIndex,
        route is InvalidJson <==> route_view(route) is InvalidJson,
        route is MissingSession <==> route_view(route) is MissingSession,
        fallback_view(Fallback::Upgrade { key: text }) == (Fallback::Upgrade { key: text@ }),
        otherwise is Quit <==> fallback_view(otherwise) is Quit,
        otherwise is UpgradeWithoutKey <==> fallback_view(otherwise) is UpgradeWithoutKey,
        otherwise is Banner <==> fallback_view(otherwise) is Banner,
        handled_view(Handled::Done(payload)) == Handled::Done(text_of(payload)),
        handled is EventRefused <==> handled_view(handled) is EventRefused,
        handled is PiRefused <==> handled_view(handled) is PiRefused,
        handled is NotTaken <==> handled_view(handled) is NotTaken,
{
}

/// The index of a switch is the number that the parameter `index` gives. One
/// that is no number, or too large for an index, is none.
pub proof fn switches_take_their_index_from_the_query(
    request: RequestView,
    text: Seq<char>,
    n: nat,
)
    ensures
        request.param("index"@) == Some(text) && parse_unsigned(text, 4294967295) == Some(n)
            ==> (index_in(request) matches Some(index) && index == n),
        request.param("index"@) == Some(text) && parse_unsigned(text, 4294967295) is None
            ==> index_in(request) is None,
        request.param("index"@) is None ==> index_in(request) is None,
{
}

} // verus!
