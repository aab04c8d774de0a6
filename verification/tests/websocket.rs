use opensessions_server::commands::{identify_client, your_session_json};
use opensessions_server::context::ClientConnectionContext;
use opensessions_server::json::{json_string_or_null, JsonBody, JsonField};
use opensessions_server::protocol::{HELLO_JSON, PROTOCOL_VERSION, QUIT_JSON, SERVER_VERSION};
use opensessions_server::websocket::{
    activation, announce_shutdown, classify_message, is_client_view_command,
    is_immediate_server_message, parse_command, switch_session_target, websocket_accept, Activation,
    ConnectionAction, ConnectionEvent, Delivery, Incoming, ShutdownAnnouncement, StateOutbox,
};

fn json(text: &str) -> JsonBody {
    parse_command(Some(text)).expect("the text is JSON")
}

#[test]
fn keys_are_accepted_as_the_protocol_says() {
    assert_eq!(
        websocket_accept("dGhlIHNhbXBsZSBub25jZQ=="),
        "s3pPLMBiTxaQ9kYGzzhZRbK+xOo=",
    );
    assert_eq!(websocket_accept("").len(), 28);
}

#[test]
fn the_greeting_gives_the_versions() {
    assert_eq!(
        HELLO_JSON,
        format!(
            r#"{{"type":"hello","protocol":{PROTOCOL_VERSION},"serverVersion":"{SERVER_VERSION}"}}"#
        ),
    );
    assert_eq!(QUIT_JSON, r#"{"type":"quit"}"#);
}

#[test]
fn messages_are_classified() {
    assert!(matches!(classify_message(Some(r#"{"type":"quit"}"#)), Incoming::Quit));
    match classify_message(Some(r#"{"type":"refresh"}"#)) {
        Incoming::Command { refresh, .. } => assert!(refresh),
        other => panic!("{other:?}"),
    }
    match classify_message(Some(r#"{"type":7}"#)) {
        Incoming::Command { refresh, body } => {
            assert!(!refresh);
            assert_eq!(body.unsigned("type"), Some(7));
        }
        other => panic!("{other:?}"),
    }
    assert!(matches!(classify_message(Some("[1]")), Incoming::Command { refresh: false, .. }));
    assert!(matches!(classify_message(Some("not json")), Incoming::Other));
    assert!(matches!(classify_message(None), Incoming::Other));
}

#[test]
fn numbers_are_read_in_all_their_readings() {
    let body = json(r#"{"a":-3,"b":1.5,"c":18446744073709551615,"d":null,"e":{},"f":[1],"g":"x"}"#);
    assert_eq!((body.unsigned("a"), body.signed("a")), (None, Some(-3)));
    assert_eq!((body.unsigned("b"), body.signed("b")), (None, None));
    assert_eq!(body.float_bits("b"), Some(1.5f64.to_bits()));
    assert_eq!((body.unsigned("c"), body.signed("c")), (Some(u64::MAX), None));
    assert_eq!(body.get("d"), Some(&JsonField::Null));
    assert_eq!(body.get("e"), Some(&JsonField::Nested));
    assert_eq!(body.get("f"), Some(&JsonField::Nested));
    assert_eq!(body.text("g"), Some("x"));
    assert_eq!(body.get("h"), None);
}

#[test]
fn strings_are_written_as_json() {
    assert_eq!(json_string_or_null(Some("plain ü")), "\"plain ü\"");
    assert_eq!(json_string_or_null(Some("a\"b\\c\nd\u{1}")), r#""a\"b\\c\nd\u0001""#);
    assert_eq!(json_string_or_null(None), "null");
}

#[test]
fn switches_are_told_to_everyone() {
    let mut client = ClientConnectionContext::default();
    let switch = json(r#"{"type":"switch-session","name":"work"}"#);
    assert_eq!(switch_session_target(&switch), Some("work".to_string()));
    assert_eq!(
        activation(&switch, &client),
        Some(Activation { name: "work".to_string(), source_pane_id: None }),
    );
    client.pane_id = Some("%3".to_string());
    assert_eq!(
        activation(&switch, &client).unwrap().source_pane_id,
        Some("%3".to_string()),
    );
    assert_eq!(activation(&json(r#"{"type":"kill-session","name":"work"}"#), &client), None);
    assert_eq!(activation(&json(r#"{"type":"switch-session"}"#), &client), None);
    assert!(is_client_view_command(&switch));
    assert!(is_client_view_command(&json(r#"{"type":"switch-index"}"#)));
    assert!(!is_client_view_command(&json(r#"{"type":"set-theme"}"#)));
}

#[test]
fn clients_identify_themselves() {
    let mut client = ClientConnectionContext {
        client_tty: Some("/dev/pts/1".to_string()),
        ..ClientConnectionContext::default()
    };
    let before = client.clone();
    for ignored in [
        r#"{"type":"identify-pane","sessionName":"_os_stash","paneId":"%1"}"#,
        r#"{"type":"identify-pane","paneId":"%1"}"#,
        r#"{"type":"other","sessionName":"work"}"#,
        r#"{"sessionName":"work"}"#,
    ] {
        assert_eq!(identify_client(&json(ignored), &mut client), None);
        assert_eq!(client, before);
    }
    assert_eq!(
        identify_client(
            &json(r#"{"type":"identify-pane","sessionName":"work","paneId":"%1","windowId":"@2"}"#),
            &mut client,
        ),
        Some("work".to_string()),
    );
    assert_eq!(client.pane_id, Some("%1".to_string()));
    assert_eq!(client.window_id, Some("@2".to_string()));
    assert_eq!(client.session_name, Some("work".to_string()));
    assert_eq!(client.client_tty, Some("/dev/pts/1".to_string()));
    assert_eq!(
        your_session_json("wo\"rk", "/dev/pts/1"),
        r#"{"type":"your-session","name":"wo\"rk","clientTty":"/dev/pts/1"}"#,
    );
}

#[test]
fn the_latest_state_waits_for_the_frame() {
    let mut outbox = StateOutbox::new();
    assert!(!outbox.has_pending());
    assert_eq!(outbox.flush(), None);
    assert_eq!(outbox.accept("one".to_string()), Delivery::Hold);
    assert_eq!(outbox.accept("two".to_string()), Delivery::Hold);
    let urgent = r#"{"type":"activate-session","name":"a"}"#.to_string();
    assert!(is_immediate_server_message(&urgent));
    assert_eq!(outbox.accept(urgent.clone()), Delivery::Send(urgent));
    assert!(outbox.has_pending());
    assert_eq!(outbox.flush(), Some("two".to_string()));
    assert_eq!(outbox.flush(), None);
    assert_eq!(outbox.accept(QUIT_JSON.to_string()), Delivery::Quit);
}

#[test]
fn the_end_is_announced_once() {
    let mut announcement = ShutdownAnnouncement::new();
    assert!(announcement.announce_once());
    assert!(!announcement.announce_once());
    assert!(!announcement.announce_once());
    assert_eq!(
        announce_shutdown(Some("last".to_string())),
        vec!["last".to_string(), QUIT_JSON.to_string()],
    );
    assert_eq!(announce_shutdown(None), vec![QUIT_JSON.to_string()]);
}

fn step(
    outbox: &mut StateOutbox,
    event: ConnectionEvent<String, u8>,
) -> ConnectionAction<String, JsonBody, u8> {
    outbox.step(event)
}

#[test]
fn connections_end_for_their_reasons() {
    let mut outbox = StateOutbox::new();
    let message = |text: &str| ConnectionEvent::Message(Some(text.to_string()));
    assert!(matches!(
        step(&mut outbox, ConnectionEvent::Shutdown),
        ConnectionAction::QuitClient
    ));
    assert!(matches!(
        step(&mut outbox, message(r#"{"type":"quit"}"#)),
        ConnectionAction::QuitServer
    ));
    assert!(matches!(step(&mut outbox, ConnectionEvent::Closed), ConnectionAction::End));
    assert!(matches!(step(&mut outbox, ConnectionEvent::Failed(7)), ConnectionAction::Fail(7)));
    assert!(matches!(
        step(&mut outbox, ConnectionEvent::Broadcast(QUIT_JSON.to_string())),
        ConnectionAction::QuitClient
    ));
    assert!(matches!(
        step(&mut outbox, ConnectionEvent::BroadcastEnded),
        ConnectionAction::End
    ));
}

#[test]
fn connections_run_commands() {
    let mut outbox = StateOutbox::new();
    match step(
        &mut outbox,
        ConnectionEvent::Message(Some(r#"{"type":"refresh","name":"a"}"#.to_string())),
    ) {
        ConnectionAction::Run { body, refresh } => {
            assert!(refresh);
            assert_eq!(body.text("name").as_deref(), Some("a"));
        }
        other => panic!("{other:?}"),
    }
    match step(&mut outbox, ConnectionEvent::Message(Some(r#"{"type":"hide"}"#.to_string()))) {
        ConnectionAction::Run { refresh, .. } => assert!(!refresh),
        other => panic!("{other:?}"),
    }
    assert!(matches!(
        step(&mut outbox, ConnectionEvent::Message(Some("{".to_string()))),
        ConnectionAction::Wait
    ));
    assert!(matches!(
        step(&mut outbox, ConnectionEvent::Message(None)),
        ConnectionAction::Wait
    ));
}

#[test]
fn connections_send_the_latest_state_with_a_frame() {
    let mut outbox = StateOutbox::new();
    let broadcast = |text: &str| ConnectionEvent::Broadcast(text.to_string());
    assert!(matches!(step(&mut outbox, ConnectionEvent::Frame), ConnectionAction::Wait));
    assert!(matches!(step(&mut outbox, broadcast("one")), ConnectionAction::Wait));
    assert!(matches!(step(&mut outbox, broadcast("two")), ConnectionAction::Wait));
    assert!(matches!(step(&mut outbox, ConnectionEvent::Lagged), ConnectionAction::Wait));
    let urgent = r#"{"type":"activate-session","name":"a"}"#;
    match step(&mut outbox, broadcast(urgent)) {
        ConnectionAction::Send(text) => assert_eq!(text, urgent),
        other => panic!("{other:?}"),
    }
    assert!(outbox.has_pending());
    match step(&mut outbox, ConnectionEvent::Frame) {
        ConnectionAction::Send(text) => assert_eq!(text, "two"),
        other => panic!("{other:?}"),
    }
    assert!(!outbox.has_pending());
    assert!(matches!(step(&mut outbox, ConnectionEvent::Frame), ConnectionAction::Wait));
}
