//! Websocket connections: the handshake, and what becomes of the messages of
//! clients and of the states that are broadcast to them.

use base64::engine::general_purpose::STANDARD;
use base64::Engine;
use sha1_smol::Sha1;
use vstd::prelude::*;
use vstd::utf8::{encode_utf8, is_ascii_chars_encode_utf8};

use crate::context::{ClientConnectionContext, ClientView};
use crate::json::{json_members, read_json, text_at, JsonBody, JsonMembers};
use crate::protocol::QUIT_JSON;
use crate::text::{chars_of, find_chars, lemma_find, occurs, occurs_at, same_text};
use crate::text_map::{copy_text, str_of, text_of, texts};

verus! {

// ---------------------------------------------------------------------------
// The handshake.
// ---------------------------------------------------------------------------

/// What a key is completed with before it is hashed.
pub const WEBSOCKET_GUID: &'static str = "258EAFA5-E914-47DA-95CA-C5AB0DC85B11";

/// The SHA-1 digest of bytes.
pub uninterp spec fn sha1(bytes: Seq<u8>) -> Seq<u8>;

/// Hashes bytes with `sha1_smol::Sha1`, by one `update` and `digest`. The
/// contract names the digest, which depends on the bytes alone. The number of
/// bits has to fit in 64 bits.
#[verifier::external_body]
fn sha1_digest(bytes: &[u8]) -> (digest: [u8; 20])
    requires
        bytes@.len() <= u64::MAX / 8,
    ensures
        digest@ == sha1(bytes@),
{
    let mut hasher = Sha1::new();
    hasher.update(bytes);
    hasher.digest().bytes()
}

/// The base64 text of bytes, in the standard alphabet and padded.
pub uninterp spec fn base64_text(bytes: Seq<u8>) -> Seq<char>;

/// Encodes bytes with the `STANDARD` engine of the crate `base64`. The
/// contract names the text, which depends on the bytes alone, and claims that
/// it has four characters for every three bytes begun.
#[verifier::external_body]
fn base64_encode(bytes: &[u8]) -> (text: String)
    requires
        bytes@.len() / 3 * 4 + 4 <= isize::MAX,
    ensures
        text@ == base64_text(bytes@),
        text@.len() == (bytes@.len() + 2) / 3 * 4,
{
    STANDARD.encode(bytes)
}

/// Whether a key is short enough to be hashed: no text comes near the limit.
pub open spec fn hashable(key: Seq<char>) -> bool {
    encode_utf8(key).len() + 36 <= u64::MAX / 8
}

/// Decides whether a key is short enough to be hashed.
pub fn is_hashable(key: &str) -> (yes: bool)
    ensures
        yes == hashable(key@),
{
    key.as_bytes().len() as u64 <= u64::MAX / 8 - 36
}

/// The value by which the server accepts a key.
pub open spec fn accept_value(key: Seq<char>) -> Seq<char> {
    base64_text(sha1(encode_utf8(key) + encode_utf8(WEBSOCKET_GUID@)))
}

/// The value by which the server accepts a key.
pub fn websocket_accept(key: &str) -> (accept: String)
    requires
        hashable(key@),
    ensures
        accept@ == accept_value(key@),
        accept@.len() == 28,
{
    proof {
        reveal_strlit("258EAFA5-E914-47DA-95CA-C5AB0DC85B11");
        is_ascii_chars_encode_utf8(WEBSOCKET_GUID@);
    }
    let mut bytes: Vec<u8> = Vec::new();
    bytes.extend_from_slice(key.as_bytes());
    assert(bytes@ =~= encode_utf8(key@));
    bytes.extend_from_slice(WEBSOCKET_GUID.as_bytes());
    assert(bytes@ =~= encode_utf8(key@) + encode_utf8(WEBSOCKET_GUID@));
    base64_encode(&sha1_digest(bytes.as_slice()))
}

// ---------------------------------------------------------------------------
// Messages of clients.
// ---------------------------------------------------------------------------

/// The members of the command that the text of a message holds. A message
/// that is no text holds none.
pub open spec fn command_in(text: Option<Seq<char>>) -> Option<JsonMembers> {
    match text {
        Some(text) => json_members(encode_utf8(text)),
        None => None,
    }
}

/// The members of an optional body.
pub open spec fn members_of(body: Option<JsonBody>) -> Option<JsonMembers> {
    match body {
        Some(body) => Some(body@),
        None => None,
    }
}

/// Whether a command is of a type.
pub open spec fn is_of_type(command: JsonMembers, command_type: Seq<char>) -> bool {
    text_at(command, "type"@) == Some(command_type)
}

/// What a message asks for.
#[derive(Debug)]
pub enum Incoming<B> {
    /// The server is asked to quit.
    Quit,
    /// A command, and whether it asks for a fresh state to be broadcast.
    Command { body: B, refresh: bool },
    /// The message holds no command.
    Other,
}

/// The plain values of what a message asks for.
pub open spec fn incoming_view(incoming: Incoming<JsonBody>) -> Incoming<JsonMembers> {
    match incoming {
        Incoming::Quit => Incoming::Quit,
        Incoming::Command { body, refresh } => Incoming::Command { body: body@, refresh },
        Incoming::Other => Incoming::Other,
    }
}

/// What a message asks for, given the command in it.
pub open spec fn asked_for(command: Option<JsonMembers>) -> Incoming<JsonMembers> {
    match command {
        Some(body) => if is_of_type(body, "quit"@) {
            Incoming::Quit
        } else {
            Incoming::Command { body, refresh: is_of_type(body, "refresh"@) }
        },
        None => Incoming::Other,
    }
}

/// Reads the command in the text of a message.
pub fn parse_command(text: Option<&str>) -> (command: Option<JsonBody>)
    ensures
        members_of(command) == command_in(str_of(text)),
{
    match text {
        Some(text) => read_json(text.as_bytes()),
        None => None,
    }
}

/// Decides whether a command is of a type.
pub fn is_command_type(command: &JsonBody, command_type: &str) -> (yes: bool)
    ensures
        yes == is_of_type(command@, command_type@),
{
    match command.text("type") {
        Some(found) => same_text(found, command_type),
        None => false,
    }
}

/// Decides what a message asks for, given the command in it.
pub fn classify_command(command: Option<JsonBody>) -> (incoming: Incoming<JsonBody>)
    ensures
        incoming_view(incoming) == asked_for(members_of(command)),
{
    match command {
        Some(body) => if is_command_type(&body, "quit") {
            Incoming::Quit
        } else {
            let refresh = is_command_type(&body, "refresh");
            Incoming::Command { body, refresh }
        },
        None => Incoming::Other,
    }
}

/// Decides what the text of a message asks for.
pub fn classify_message(text: Option<&str>) -> (incoming: Incoming<JsonBody>)
    ensures
        incoming_view(incoming) == asked_for(command_in(str_of(text))),
{
    classify_command(parse_command(text))
}

/// Whether the state that a command leads to is for its sender alone.
pub open spec fn for_sender_alone(command: JsonMembers) -> bool {
    is_of_type(command, "switch-session"@) || is_of_type(command, "switch-index"@)
}

/// Decides whether the state that a command leads to is for its sender alone.
pub fn is_client_view_command(command: &JsonBody) -> (yes: bool)
    ensures
        yes == for_sender_alone(command@),
{
    is_command_type(command, "switch-session") || is_command_type(command, "switch-index")
}

/// The session that a command switches to.
pub open spec fn switch_target(command: JsonMembers) -> Option<Seq<char>> {
    if is_of_type(command, "switch-session"@) {
        text_at(command, "name"@)
    } else {
        None
    }
}

/// The session that a command switches to.
pub fn switch_session_target(command: &JsonBody) -> (name: Option<String>)
    ensures
        text_of(name) == switch_target(command@),
{
    if is_command_type(command, "switch-session") {
        match command.text("name") {
            Some(name) => Some(name.to_string()),
            None => None,
        }
    } else {
        None
    }
}

/// A session that every client is told of at once.
#[derive(Debug, PartialEq, Eq)]
pub struct Activation {
    /// The session.
    pub name: String,
    /// The pane of the client that switched to it, where it is known.
    pub source_pane_id: Option<String>,
}

/// The session and the pane that an optional activation holds.
pub open spec fn activation_view(activation: Option<Activation>) -> Option<
    (Seq<char>, Option<Seq<char>>),
> {
    match activation {
        Some(activation) => Some((activation.name@, text_of(activation.source_pane_id))),
        None => None,
    }
}

/// What every client is told at once because of a command.
pub open spec fn activated_by(command: JsonMembers, client: ClientView) -> Option<
    (Seq<char>, Option<Seq<char>>),
> {
    match switch_target(command) {
        Some(name) => Some((name, client.pane_id)),
        None => None,
    }
}

/// Decides what every client is told at once because of a command.
pub fn activation(command: &JsonBody, client: &ClientConnectionContext) -> (activation: Option<
    Activation,
>)
    ensures
        activation_view(activation) == activated_by(command@, client@),
{
    match switch_session_target(command) {
        Some(name) => Some(Activation { name, source_pane_id: copy_text(&client.pane_id) }),
        None => None,
    }
}

// ---------------------------------------------------------------------------
// States that are broadcast.
// ---------------------------------------------------------------------------

/// What marks a message that is not to wait.
pub open spec fn immediate_mark() -> Seq<char> {
    "\"type\":\"activate-session\""@
}

/// Decides whether a message is to be sent at once.
pub fn is_immediate_server_message(payload: &str) -> (yes: bool)
    ensures
        yes == occurs(payload@, immediate_mark()),
{
    let chars = chars_of(payload);
    let mark = chars_of("\"type\":\"activate-session\"");
    proof {
        lemma_find(payload@, immediate_mark());
    }
    match find_chars(chars.as_slice(), mark.as_slice()) {
        Some(at) => {
            assert(occurs_at(payload@, immediate_mark(), at as int));
            true
        },
        None => false,
    }
}

/// What a connection does with a message that is broadcast.
#[derive(Debug, PartialEq, Eq)]
pub enum Delivery<S> {
    /// The client is told to quit, and the connection ends.
    Quit,
    /// The message is sent at once.
    Send(S),
    /// The message waits for the next frame.
    Hold,
}

/// The plain values of a delivery.
pub open spec fn delivery_view(delivery: Delivery<String>) -> Delivery<Seq<char>> {
    match delivery {
        Delivery::Quit => Delivery::Quit,
        Delivery::Send(text) => Delivery::Send(text@),
        Delivery::Hold => Delivery::Hold,
    }
}

/// What a connection does with a message.
pub open spec fn delivery_of(message: Seq<char>) -> Delivery<Seq<char>> {
    if message == QUIT_JSON@ {
        Delivery::Quit
    } else if occurs(message, immediate_mark()) {
        Delivery::Send(message)
    } else {
        Delivery::Hold
    }
}

/// The state that waits after a message came, given the one that waited.
pub open spec fn pending_after(pending: Option<Seq<char>>, message: Seq<char>) -> Option<
    Seq<char>,
> {
    if delivery_of(message) is Hold {
        Some(message)
    } else {
        pending
    }
}

/// The state that waits after several messages came.
pub open spec fn pending_after_all(
    pending: Option<Seq<char>>,
    messages: Seq<Seq<char>>,
) -> Option<Seq<char>>
    decreases messages.len(),
{
    if messages.len() == 0 {
        pending
    } else {
        pending_after(pending_after_all(pending, messages.drop_last()), messages.last())
    }
}

/// The state that waits to be sent over a connection. States that come before
/// the next frame replace each other.
#[derive(Debug)]
pub struct StateOutbox {
    pending: Option<String>,
}

impl View for StateOutbox {
    type V = Option<Seq<char>>;

    closed spec fn view(&self) -> Option<Seq<char>> {
        text_of(self.pending)
    }
}

impl StateOutbox {
    /// An outbox in which nothing waits.
    pub fn new() -> (outbox: StateOutbox)
        ensures
            outbox@ is None,
    {
        StateOutbox { pending: None }
    }

    /// Whether a state waits.
    pub fn has_pending(&self) -> (yes: bool)
        ensures
            yes == (self@ is Some),
    {
        self.pending.is_some()
    }

    /// Takes a message that is broadcast.
    pub fn accept(&mut self, message: String) -> (delivery: Delivery<String>)
        ensures
            delivery_view(delivery) == delivery_of(message@),
            final(self)@ == pending_after(old(self)@, message@),
    {
        if same_text(message.as_str(), QUIT_JSON) {
            return Delivery::Quit;
        }
        if is_immediate_server_message(message.as_str()) {
            return Delivery::Send(message);
        }
        self.pending = Some(message);
        Delivery::Hold
    }

    /// Gives out the state that waits, at the next frame.
    pub fn flush(&mut self) -> (state: Option<String>)
        ensures
            text_of(state) == old(self)@,
            final(self)@ is None,
    {
        self.pending.take()
    }
}

// ---------------------------------------------------------------------------
// The life of a connection.
// ---------------------------------------------------------------------------

/// What happens on a connection. `S` is a text, and `E` an error.
#[derive(Debug)]
pub enum ConnectionEvent<S, E> {
    /// The server ends.
    Shutdown,
    /// A message came. It has a text, unless it is of another kind.
    Message(Option<S>),
    /// The client ended the connection.
    Closed,
    /// The connection failed.
    Failed(E),
    /// It is time for the next frame.
    Frame,
    /// A message is broadcast.
    Broadcast(S),
    /// Messages that were broadcast were missed.
    Lagged,
    /// Nothing will be broadcast any more.
    BroadcastEnded,
}

/// What a connection does. `S` is a text, `B` a JSON body, and `E` an error.
#[derive(Debug)]
pub enum ConnectionAction<S, B, E> {
    /// The client is told to quit, and the connection ends.
    QuitClient,
    /// The server is asked to end, and the connection ends.
    QuitServer,
    /// The connection ends.
    End,
    /// The connection ends with an error.
    Fail(E),
    /// A message is sent.
    Send(S),
    /// A command is carried out, before it maybe a fresh state is broadcast.
    Run { body: B, refresh: bool },
    /// Nothing is done.
    Wait,
}

/// The plain values of what happens on a connection.
pub open spec fn event_view<E>(event: ConnectionEvent<String, E>) -> ConnectionEvent<Seq<char>, E> {
    match event {
        ConnectionEvent::Shutdown => ConnectionEvent::Shutdown,
        ConnectionEvent::Message(text) => ConnectionEvent::Message(text_of(text)),
        ConnectionEvent::Closed => ConnectionEvent::Closed,
        ConnectionEvent::Failed(error) => ConnectionEvent::Failed(error),
        ConnectionEvent::Frame => ConnectionEvent::Frame,
        ConnectionEvent::Broadcast(text) => ConnectionEvent::Broadcast(text@),
        ConnectionEvent::Lagged => ConnectionEvent::Lagged,
        ConnectionEvent::BroadcastEnded => ConnectionEvent::BroadcastEnded,
    }
}

/// The plain values of what a connection does.
pub open spec fn action_view<E>(action: ConnectionAction<String, JsonBody, E>) -> ConnectionAction<
    Seq<char>,
    JsonMembers,
    E,
> {
    match action {
        ConnectionAction::QuitClient => ConnectionAction::QuitClient,
        ConnectionAction::QuitServer => ConnectionAction::QuitServer,
        ConnectionAction::End => ConnectionAction::End,
        ConnectionAction::Fail(error) => ConnectionAction::Fail(error),
        ConnectionAction::Send(text) => ConnectionAction::Send(text@),
        ConnectionAction::Run { body, refresh } => ConnectionAction::Run { body: body@, refresh },
        ConnectionAction::Wait => ConnectionAction::Wait,
    }
}

/// What a connection does when something happens, given the state that waits
/// and, for a message, what it asks for.
pub open spec fn action_for<E>(
    pending: Option<Seq<char>>,
    event: ConnectionEvent<Seq<char>, E>,
    asked: Incoming<JsonMembers>,
) -> ConnectionAction<Seq<char>, JsonMembers, E> {
    match event {
        ConnectionEvent::Shutdown => ConnectionAction::QuitClient,
        ConnectionEvent::Message(_) => match asked {
            Incoming::Quit => ConnectionAction::QuitServer,
            Incoming::Command { body, refresh } => ConnectionAction::Run { body, refresh },
            Incoming::Other => ConnectionAction::Wait,
        },
        ConnectionEvent::Closed => ConnectionAction::End,
        ConnectionEvent::Failed(error) => ConnectionAction::Fail(error),
        ConnectionEvent::Frame => match pending {
            Some(state) => ConnectionAction::Send(state),
            None => ConnectionAction::Wait,
        },
        ConnectionEvent::Broadcast(text) => match delivery_of(text) {
            Delivery::Quit => ConnectionAction::QuitClient,
            Delivery::Send(text) => ConnectionAction::Send(text),
            Delivery::Hold => ConnectionAction::Wait,
        },
        ConnectionEvent::Lagged => ConnectionAction::Wait,
        ConnectionEvent::BroadcastEnded => ConnectionAction::End,
    }
}

/// The state that waits after something happened.
pub open spec fn pending_after_event<E>(
    pending: Option<Seq<char>>,
    event: ConnectionEvent<Seq<char>, E>,
) -> Option<Seq<char>> {
    match event {
        ConnectionEvent::Frame => None,
        ConnectionEvent::Broadcast(text) => pending_after(pending, text),
        _ => pending,
    }
}

/// What the message of an event asks for.
pub open spec fn asked_by<E>(event: ConnectionEvent<Seq<char>, E>) -> Incoming<JsonMembers> {
    match event {
        ConnectionEvent::Message(text) => asked_for(command_in(text)),
        _ => Incoming::Other,
    }
}

impl StateOutbox {
    /// Decides what a connection does when something happens, given what a
    /// message asks for.
    pub fn step_asked<E>(
        &mut self,
        event: ConnectionEvent<String, E>,
        asked: Incoming<JsonBody>,
    ) -> (action: ConnectionAction<String, JsonBody, E>)
        ensures
            action_view(action) == action_for(old(self)@, event_view(event), incoming_view(asked)),
            final(self)@ == pending_after_event(old(self)@, event_view(event)),
    {
        match event {
            ConnectionEvent::Shutdown => ConnectionAction::QuitClient,
            ConnectionEvent::Message(_) => match asked {
                Incoming::Quit => ConnectionAction::QuitServer,
                Incoming::Command { body, refresh } => ConnectionAction::Run { body, refresh },
                Incoming::Other => ConnectionAction::Wait,
            },
            ConnectionEvent::Closed => ConnectionAction::End,
            ConnectionEvent::Failed(error) => ConnectionAction::Fail(error),
            ConnectionEvent::Frame => match self.flush() {
                Some(state) => ConnectionAction::Send(state),
                None => ConnectionAction::Wait,
            },
            ConnectionEvent::Broadcast(text) => match self.accept(text) {
                Delivery::Quit => ConnectionAction::QuitClient,
                Delivery::Send(text) => ConnectionAction::Send(text),
                Delivery::Hold => ConnectionAction::Wait,
            },
            ConnectionEvent::Lagged => ConnectionAction::Wait,
            ConnectionEvent::BroadcastEnded => ConnectionAction::End,
        }
    }

    /// Decides what a connection does when something happens.
    pub fn step<E>(&mut self, event: ConnectionEvent<String, E>) -> (action: ConnectionAction<
        String,
        JsonBody,
        E,
    >)
        ensures
            action_view(action) == action_for(
                old(self)@,
                event_view(event),
                asked_by(event_view(event)),
            ),
            final(self)@ == pending_after_event(old(self)@, event_view(event)),
    {
        let asked = match &event {
            ConnectionEvent::Message(Some(text)) => classify_message(Some(text.as_str())),
            _ => Incoming::Other,
        };
        self.step_asked(event, asked)
    }
}

// ---------------------------------------------------------------------------
// Shutdown.
// ---------------------------------------------------------------------------

/// Whether the end of the server has been announced.
#[derive(Debug)]
pub struct ShutdownAnnouncement {
    announced: bool,
}

impl ShutdownAnnouncement {
    /// Whether the end has been announced.
    pub closed spec fn was_made(&self) -> bool {
        self.announced
    }

    /// No end has been announced.
    pub fn new() -> (announcement: ShutdownAnnouncement)
        ensures
            !announcement.was_made(),
    {
        ShutdownAnnouncement { announced: false }
    }

    /// Decides whether to announce the end now: it is announced once.
    pub fn announce_once(&mut self) -> (now: bool)
        ensures
            now == !old(self).was_made(),
            final(self).was_made(),
    {
        let now = !self.announced;
        self.announced = true;
        now
    }
}

/// What is broadcast at the end: the last state, where there is one, and then
/// the message that tells clients to quit.
pub open spec fn farewell(last_state: Option<Seq<char>>) -> Seq<Seq<char>> {
    match last_state {
        Some(state) => seq![state, QUIT_JSON@],
        None => seq![QUIT_JSON@],
    }
}

/// The messages that announce the end.
pub fn announce_shutdown(last_state: Option<String>) -> (messages: Vec<String>)
    ensures
        texts(messages@) == farewell(text_of(last_state)),
{
    let mut messages: Vec<String> = Vec::new();
    if let Some(state) = last_state {
        messages.push(state);
    }
    messages.push(QUIT_JSON.to_string());
    assert(texts(messages@) =~= farewell(text_of(last_state)));
    messages
}

// ---------------------------------------------------------------------------
// Laws.
// ---------------------------------------------------------------------------

/// Of all states that come between two frames the last one waits; messages
/// that are sent at once, and those that end the connection, do not touch it.
pub proof fn latest_state_waits(pending: Option<Seq<char>>, messages: Seq<Seq<char>>)
    ensures
        match pending_after_all(pending, messages) {
            Some(state) => pending_after_all(pending, messages) == pending || exists|i: int|
                0 <= i < messages.len() && #[trigger] messages[i] == state && delivery_of(
                    messages[i],
                ) is Hold && forall|j: int|
                    i < j < messages.len() ==> !(delivery_of(#[trigger] messages[j]) is Hold),
            None => pending is None,
        },
        (forall|j: int|
            0 <= j < messages.len() ==> !(delivery_of(#[trigger] messages[j]) is Hold))
            ==> pending_after_all(pending, messages) == pending,
    decreases messages.len(),
{
    if messages.len() > 0 {
        let earlier = messages.drop_last();
        latest_state_waits(pending, earlier);
        assert forall|j: int| 0 <= j < earlier.len() implies earlier[j] == messages[j] by {}
        if delivery_of(messages.last()) is Hold {
            assert(messages[messages.len() - 1] == messages.last());
        } else if pending_after_all(pending, earlier) != pending {
            let state = pending_after_all(pending, earlier)->Some_0;
            let i = choose|i: int|
                0 <= i < earlier.len() && #[trigger] earlier[i] == state && delivery_of(
                    earlier[i],
                ) is Hold && forall|j: int|
                    i < j < earlier.len() ==> !(delivery_of(#[trigger] earlier[j]) is Hold);
            assert(messages[i] == state);
            assert forall|j: int| i < j < messages.len() implies !(delivery_of(
                #[trigger] messages[j],
            ) is Hold) by {
                if j < earlier.len() {
                    assert(earlier[j] == messages[j]);
                }
            }
        }
        if forall|j: int|
            0 <= j < messages.len() ==> !(delivery_of(#[trigger] messages[j]) is Hold) {
            assert forall|j: int| 0 <= j < earlier.len() implies !(delivery_of(
                #[trigger] earlier[j],
            ) is Hold) by {
                assert(earlier[j] == messages[j]);
            }
            assert(messages[messages.len() - 1] == messages.last());
        }
    }
}

/// What waits is sent at the next frame and not again, and nothing but a state
/// that is broadcast makes anything wait.
pub proof fn frames_send_what_waits<E>(
    pending: Option<Seq<char>>,
    event: ConnectionEvent<Seq<char>, E>,
)
    ensures
        pending matches Some(state) ==> action_for(
            pending,
            ConnectionEvent::<Seq<char>, E>::Frame,
            Incoming::Other,
        ) == ConnectionAction::<Seq<char>, JsonMembers, E>::Send(state),
        pending_after_event(pending, ConnectionEvent::<Seq<char>, E>::Frame) is None,
        pending is None && !(event is Broadcast) ==> pending_after_event(pending, event) is None,
{
}

/// The end is announced with the message that tells clients to quit last, and
/// every connection that gets it tells its client to quit and ends, whatever
/// waits to be sent over it.
pub proof fn farewell_ends_connections<E>(
    last_state: Option<Seq<char>>,
    pending: Option<Seq<char>>,
    asked: Incoming<JsonMembers>,
)
    ensures
        farewell(last_state).last() == QUIT_JSON@,
        action_for(
            pending,
            ConnectionEvent::<Seq<char>, E>::Broadcast(farewell(last_state).last()),
            asked,
        ) == ConnectionAction::<Seq<char>, JsonMembers, E>::QuitClient,
{
}

/// The answer to a key is the digest of the key and the fixed text behind it.
pub proof fn keys_are_completed_before_they_are_hashed(key: Seq<char>)
    ensures
        accept_value(key) == base64_text(
            sha1(encode_utf8(key) + encode_utf8("258EAFA5-E914-47DA-95CA-C5AB0DC85B11"@)),
        ),
        hashable(key) <==> 8 * (encode_utf8(key).len() + 36) <= u64::MAX,
{
}

/// A message of the type `quit` ends the server, one of the type `refresh` is
/// run with a refresh, any other message that is JSON is run without, and any
/// other is passed over.
pub proof fn messages_ask_by_their_type(body: JsonMembers)
    ensures
        asked_for(None) == Incoming::<JsonMembers>::Other,
        asked_for(Some(body)) == Incoming::<JsonMembers>::Quit <==> text_at(body, "type"@) == Some(
            "quit"@,
        ),
        asked_for(Some(body)) == (Incoming::Command { body, refresh: true }) <==> text_at(
            body,
            "type"@,
        ) == Some("refresh"@),
        asked_for(Some(body)) == (Incoming::Command { body, refresh: false }) <==> text_at(
            body,
            "type"@,
        ) != Some("quit"@) && text_at(body, "type"@) != Some("refresh"@),
{
    reveal_strlit("quit");
    reveal_strlit("refresh");
    assert("quit"@.len() == 4 && "refresh"@.len() == 7);
}

/// Only switches are for the client alone that sends them, and only a switch
/// by name tells the session that is switched to, together with the pane from
/// which it comes.
pub proof fn switches_are_for_their_sender(
    body: JsonMembers,
    client: ClientView,
    name: Seq<char>,
)
    ensures
        for_sender_alone(body) <==> text_at(body, "type"@) == Some("switch-session"@) || text_at(
            body,
            "type"@,
        ) == Some("switch-index"@),
        switch_target(body) == Some(name) <==> text_at(body, "type"@) == Some("switch-session"@)
            && text_at(body, "name"@) == Some(name),
        switch_target(body) == Some(name) ==> activated_by(body, client) == Some(
            (name, client.pane_id),
        ),
        switch_target(body) is None ==> activated_by(body, client) is None,
{
}

/// The message to quit ends a connection, a message that activates a session
/// is sent at once as it is, and any other waits for the next frame.
pub proof fn broadcasts_are_delivered_by_what_they_hold(
    before: Seq<char>,
    after: Seq<char>,
    message: Seq<char>,
)
    ensures
        delivery_of(message) == Delivery::<Seq<char>>::Quit <==> message
            == "{\"type\":\"quit\"}"@,
        delivery_of(before + "\"type\":\"activate-session\""@ + after) == Delivery::Send(
            before + "\"type\":\"activate-session\""@ + after,
        ),
        message != "{\"type\":\"quit\"}"@ && (forall|front: Seq<char>, back: Seq<char>|
            message != #[trigger] (front + "\"type\":\"activate-session\""@ + back))
            ==> delivery_of(message) == Delivery::<Seq<char>>::Hold,
{
    reveal_strlit("{\"type\":\"quit\"}");
    reveal_strlit("\"type\":\"activate-session\"");
    let mark = "\"type\":\"activate-session\""@;
    let quit = "{\"type\":\"quit\"}"@;
    let whole = before + mark + after;
    let n = before.len() as int;
    assert(quit.len() == 15 && mark.len() == 25);
    assert(whole.subrange(n, n + mark.len()) =~= mark);
    assert(occurs_at(whole, mark, n));
    if occurs(message, mark) {
        let at = choose|at: int| occurs_at(message, mark, at);
        let front = message.take(at);
        let back = message.skip(at + mark.len());
        assert(message =~= front + message.subrange(at, at + mark.len()) + back);
    }
}

/// Whatever waited before, the last state that comes is the one that waits.
pub proof fn the_last_state_waits(
    pending: Option<Seq<char>>,
    messages: Seq<Seq<char>>,
    at: int,
)
    requires
        0 <= at < messages.len(),
        delivery_of(messages[at]) is Hold,
        forall|j: int| at < j < messages.len() ==> !(delivery_of(#[trigger] messages[j]) is Hold),
    ensures
        pending_after_all(pending, messages) == Some(messages[at]),
    decreases messages.len(),
{
    let front = messages.drop_last();
    assert(messages[messages.len() - 1] == messages.last());
    if at < front.len() {
        assert(front[at] == messages[at]);
        assert forall|j: int| at < j < front.len() implies !(delivery_of(
            #[trigger] front[j],
        ) is Hold) by {
            assert(front[j] == messages[j]);
        }
        the_last_state_waits(pending, front, at);
    }
}

/// A connection does what its event calls for: it runs what its client asks
/// for, passes on what is broadcast, ends when either side ends, and otherwise
/// waits.
pub proof fn connections_do_what_their_event_calls_for<E>(
    pending: Option<Seq<char>>,
    text: Option<Seq<char>>,
    message: Seq<char>,
    body: JsonMembers,
    refresh: bool,
    error: E,
    asked: Incoming<JsonMembers>,
)
    ensures
        action_for(pending, ConnectionEvent::<Seq<char>, E>::Shutdown, asked)
            == ConnectionAction::<Seq<char>, JsonMembers, E>::QuitClient,
        action_for(
            pending,
            ConnectionEvent::<Seq<char>, E>::Message(text),
            Incoming::Command { body, refresh },
        ) == (ConnectionAction::<Seq<char>, JsonMembers, E>::Run { body, refresh }),
        action_for(pending, ConnectionEvent::<Seq<char>, E>::Message(text), Incoming::Quit)
            == ConnectionAction::<Seq<char>, JsonMembers, E>::QuitServer,
        action_for(pending, ConnectionEvent::<Seq<char>, E>::Message(text), Incoming::Other)
            == ConnectionAction::<Seq<char>, JsonMembers, E>::Wait,
        action_for(pending, ConnectionEvent::<Seq<char>, E>::Closed, asked) == ConnectionAction::<
            Seq<char>,
            JsonMembers,
            E,
        >::End,
        action_for(pending, ConnectionEvent::<Seq<char>, E>::BroadcastEnded, asked)
            == ConnectionAction::<Seq<char>, JsonMembers, E>::End,
        action_for(pending, ConnectionEvent::<Seq<char>, E>::Lagged, asked) == ConnectionAction::<
            Seq<char>,
            JsonMembers,
            E,
        >::Wait,
        action_for(pending, ConnectionEvent::<Seq<char>, E>::Failed(error), asked)
            == ConnectionAction::<Seq<char>, JsonMembers, E>::Fail(error),
        delivery_of(message) == Delivery::Send(message) ==> action_for(
            pending,
            ConnectionEvent::<Seq<char>, E>::Broadcast(message),
            asked,
        ) == ConnectionAction::<Seq<char>, JsonMembers, E>::Send(message),
        delivery_of(message) is Hold ==> action_for(
            pending,
            ConnectionEvent::<Seq<char>, E>::Broadcast(message),
            asked,
        ) == ConnectionAction::<Seq<char>, JsonMembers, E>::Wait,
        delivery_of(message) is Hold ==> pending_after_event(
            pending,
            ConnectionEvent::<Seq<char>, E>::Broadcast(message),
        ) == Some(message),
        action_for(None, ConnectionEvent::<Seq<char>, E>::Frame, asked) == ConnectionAction::<
            Seq<char>,
            JsonMembers,
            E,
        >::Wait,
        asked_by(ConnectionEvent::<Seq<char>, E>::Message(Some(message))) == asked_for(
            json_members(encode_utf8(message)),
        ),
        asked_by(ConnectionEvent::<Seq<char>, E>::Message(None)) == Incoming::<JsonMembers>::Other,
{
}

/// What waits goes on waiting through every event but a frame and a further
/// state.
pub proof fn other_events_leave_what_waits<E>(
    pending: Option<Seq<char>>,
    event: ConnectionEvent<Seq<char>, E>,
)
    ensures
        !(event is Frame) && !(event is Broadcast) ==> pending_after_event(pending, event) == pending,
        event matches ConnectionEvent::Broadcast(message) ==> (!(delivery_of(message) is Hold)
            ==> pending_after_event(pending, event) == pending),
{
}

/// The end is announced by the last state, where there is one, and the message
/// to quit.
pub proof fn farewells_hold_the_last_state(state: Seq<char>)
    ensures
        farewell(Some(state)) == seq![state, "{\"type\":\"quit\"}"@],
        farewell(None) == seq!["{\"type\":\"quit\"}"@],
{
}

/// Events of a connection are taken for what they hold: one that is of one
/// kind is seen as of that kind, with the same text.
pub proof fn connection_events_are_taken_whole<E>(
    event: ConnectionEvent<String, E>,
    text: String,
    asked: Option<String>,
    error: E,
)
    ensures
        event_view(ConnectionEvent::<String, E>::Message(asked)) == ConnectionEvent::<
            Seq<char>,
            E,
        >::Message(text_of(asked)),
        event_view(ConnectionEvent::<String, E>::Broadcast(text)) == ConnectionEvent::<
            Seq<char>,
            E,
        >::Broadcast(text@),
        event_view(ConnectionEvent::<String, E>::Failed(error)) == ConnectionEvent::<
            Seq<char>,
            E,
        >::Failed(error),
        event is Shutdown <==> event_view(event) is Shutdown,
        event is Closed <==> event_view(event) is Closed,
        event is Frame <==> event_view(event) is Frame,
        event is Lagged <==> event_view(event) is Lagged,
        event is BroadcastEnded <==> event_view(event) is BroadcastEnded,
{
}

/// Messages, deliveries and actions are taken for what they hold.
pub proof fn deliveries_and_actions_are_taken_whole<E>(
    body: JsonBody,
    text: String,
    activation: Activation,
    refresh: bool,
    delivery: Delivery<String>,
    action: ConnectionAction<String, JsonBody, E>,
    error: E,
)
    ensures
        members_of(Some(body)) == Some(body@),
        members_of(None) is None,
        incoming_view(Incoming::Command { body, refresh }) == (Incoming::Command {
            body: body@,
            refresh,
        }),
        incoming_view(Incoming::Quit) == Incoming::<JsonMembers>::Quit,
        incoming_view(Incoming::Other) == Incoming::<JsonMembers>::Other,
        activation_view(Some(activation)) == Some(
            (activation.name@, text_of(activation.source_pane_id)),
        ),
        activation_view(None) is None,
        delivery_view(Delivery::Send(text)) == Delivery::Send(text@),
        delivery is Quit <==> delivery_view(delivery) is Quit,
        delivery is Hold <==> delivery_view(delivery) is Hold,
        action_view(ConnectionAction::<String, JsonBody, E>::Send(text)) == ConnectionAction::<
            Seq<char>,
            JsonMembers,
            E,
        >::Send(text@),
        action_view(ConnectionAction::<String, JsonBody, E>::Run { body, refresh }) == (
        ConnectionAction::<Seq<char>, JsonMembers, E>::Run { body: body@, refresh }),
        action_view(ConnectionAction::<String, JsonBody, E>::Fail(error)) == ConnectionAction::<
            Seq<char>,
            JsonMembers,
            E,
        >::Fail(error),
        action is QuitClient <==> action_view(action) is QuitClient,
        action is QuitServer <==> action_view(action) is QuitServer,
        action is End <==> action_view(action) is End,
        action is Wait <==> action_view(action) is Wait,
{
}

} // verus!
