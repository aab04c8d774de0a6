use opensessions_server::errors::{
    server_outcome, AgentEventError, PidFileRemoval, PiRuntimeError, ServerError,
};
use opensessions_server::http::parse_http_request;
use opensessions_server::json::{JsonBody, JsonField};
use opensessions_server::routing::{
    answer, http_response, is_answerable, is_metadata_path, is_ok_hook_path, route, route_parsed,
    AfterReply, Fallback, Handled, Route,
};

fn routed(request: &str, body: &[u8]) -> Route<String, JsonBody> {
    let request = parse_http_request(format!("{request}\r\n\r\n").as_bytes()).unwrap();
    route(&request, body)
}

fn post(path: &str, body: &[u8]) -> Route<String, JsonBody> {
    routed(&format!("POST {path} HTTP/1.1"), body)
}

fn reply(route: &Route<String, JsonBody>, handled: Handled<String>) -> String {
    answer(route, handled).reply
}

const OK: &str = "HTTP/1.1 200 OK\r\nContent-Length: 2\r\n\r\nok";
const NO_CONTENT: &str = "HTTP/1.1 204 No Content\r\nContent-Length: 0\r\n\r\n";
const BANNER: &str = "HTTP/1.1 200 OK\r\nContent-Length: 19\r\n\r\nopensessions server";

#[test]
fn refresh_broadcasts_and_is_answered() {
    let route = post("/refresh", b"");
    let answer = answer(&route, Handled::Done(Some("state".to_string())));
    assert_eq!(answer.broadcast, Some("state".to_string()));
    assert_eq!(answer.reply, OK);
    assert_eq!(answer.next, AfterReply::Close);
    assert_eq!(reply(&route, Handled::NotTaken), OK);
}

#[test]
fn focus_and_hooks_take_text() {
    match post("/focus", b"a:\xff") {
        Route::Focus { body } => assert_eq!(body, "a:\u{fffd}"),
        other => panic!("{other:?}"),
    }
    match post("/ensure-sidebar", "ü:1".as_bytes()) {
        Route::Hook { path, body } => {
            assert_eq!(path, "/ensure-sidebar");
            assert_eq!(body, "ü:1");
        }
        other => panic!("{other:?}"),
    }
    for path in ["/pane-exited", "/pane-layout-changed", "/client-resized", "/toggle"] {
        assert!(is_ok_hook_path(path));
        assert_eq!(reply(&post(path, b""), Handled::Done(None)), OK);
    }
}

#[test]
fn switching_needs_an_index() {
    match post("/switch-index?index=12", b"tty|s|w") {
        Route::SwitchIndex { index, body } => {
            assert_eq!(index, 12);
            assert_eq!(body, "tty|s|w");
        }
        other => panic!("{other:?}"),
    }
    for path in ["/switch-index", "/switch-index?index=x", "/switch-index?index=4294967296"] {
        assert_eq!(
            reply(&post(path, b""), Handled::NotTaken),
            "HTTP/1.1 400 Bad Request\r\nContent-Length: 13\r\n\r\nmissing index",
        );
    }
    let switched = answer(
        &post("/switch-index?index=1", b""),
        Handled::Done(Some("state".to_string())),
    );
    assert_eq!(switched.broadcast, None);
    assert_eq!(switched.reply, OK);
}

#[test]
fn agent_events_are_answered_by_their_outcome() {
    let route = post("/api/agent-event", br#"{"agent":"pi"}"#);
    match &route {
        Route::AgentEvent { body } => assert_eq!(body.text("agent"), Some("pi")),
        other => panic!("{other:?}"),
    }
    let applied = answer(&route, Handled::Done(Some("state".to_string())));
    assert_eq!(applied.broadcast, Some("state".to_string()));
    assert_eq!(applied.reply, NO_CONTENT);
    assert_eq!(
        reply(&route, Handled::EventRefused(AgentEventError::MissingAgent)),
        "HTTP/1.1 400 Bad Request\r\nContent-Length: 13\r\n\r\nmissing agent",
    );
    assert_eq!(
        reply(&route, Handled::EventRefused(AgentEventError::InvalidStatus)),
        "HTTP/1.1 400 Bad Request\r\nContent-Length: 14\r\n\r\ninvalid status",
    );
    let ignored = "HTTP/1.1 202 Accepted\r\nContent-Length: 0\r\n\r\n";
    assert_eq!(
        reply(&route, Handled::EventRefused(AgentEventError::CouldNotResolveSession)),
        ignored,
    );
    assert_eq!(reply(&route, Handled::NotTaken), ignored);
}

#[test]
fn bodies_that_are_no_json_are_refused_where_json_is_needed() {
    for path in ["/api/agent-event", "/api/runtime/pi/upsert", "/api/runtime/pi/delete"] {
        let route = post(path, b"{");
        assert_eq!(
            reply(&route, Handled::NotTaken),
            "HTTP/1.1 400 Bad Request\r\nContent-Length: 12\r\n\r\ninvalid json",
        );
    }
    assert_eq!(reply(&post("/log", b"{"), Handled::NotTaken), BANNER);
}

#[test]
fn pi_reports_are_answered_by_their_outcome() {
    let upsert = post("/api/runtime/pi/upsert", b"{}");
    assert_eq!(reply(&upsert, Handled::Done(None)), NO_CONTENT);
    assert_eq!(reply(&upsert, Handled::NotTaken), NO_CONTENT);
    assert_eq!(
        reply(&upsert, Handled::PiRefused(PiRuntimeError::InvalidPayload)),
        "HTTP/1.1 400 Bad Request\r\nContent-Length: 26\r\n\r\ninvalid pi runtime payload",
    );
    let delete = post("/api/runtime/pi/delete", b"{}");
    let removed = answer(&delete, Handled::Done(Some("state".to_string())));
    assert_eq!(removed.broadcast, Some("state".to_string()));
    assert_eq!(removed.reply, NO_CONTENT);
    assert_eq!(
        reply(&delete, Handled::PiRefused(PiRuntimeError::MissingPid)),
        "HTTP/1.1 400 Bad Request\r\nContent-Length: 11\r\n\r\nmissing pid",
    );
}

#[test]
fn messages_about_sessions_need_the_session() {
    for path in ["/set-status", "/set-progress", "/log", "/notify", "/clear-log"] {
        assert!(is_metadata_path(path));
        for body in [r#"{"text":"x"}"#, r#"{"session":1}"#, "[]", "3"] {
            assert_eq!(
                reply(&post(path, body.as_bytes()), Handled::NotTaken),
                "HTTP/1.1 400 Bad Request\r\nContent-Length: 15\r\n\r\nmissing session",
            );
        }
        let named = post(path, br#"{"session":"a"}"#);
        let taken = answer(&named, Handled::Done(Some("state".to_string())));
        assert_eq!(taken.reply, NO_CONTENT);
        assert_eq!(taken.broadcast, Some("state".to_string()));
        assert_eq!(reply(&named, Handled::NotTaken), BANNER);
    }
}

#[test]
fn quitting_needs_a_post() {
    for body in ["", "{}"] {
        let quit = answer(&post("/quit", body.as_bytes()), Handled::NotTaken);
        assert_eq!(quit.reply, OK);
        assert_eq!(quit.next, AfterReply::Shutdown);
    }
    let read = answer(&routed("GET /quit HTTP/1.1", b""), Handled::NotTaken);
    assert_eq!(read.reply, BANNER);
    assert_eq!(read.next, AfterReply::Release);
}

#[test]
fn websockets_are_accepted_by_their_key() {
    let upgrade = routed(
        "GET / HTTP/1.1\r\nUpgrade: websocket\r\nConnection: Upgrade\r\nSec-WebSocket-Key: dGhlIHNhbXBsZSBub25jZQ==",
        b"",
    );
    assert!(is_answerable(&upgrade));
    let accepted = answer(&upgrade, Handled::NotTaken);
    assert_eq!(
        accepted.reply,
        "HTTP/1.1 101 Switching Protocols\r\nUpgrade: websocket\r\nConnection: Upgrade\r\nSec-WebSocket-Accept: s3pPLMBiTxaQ9kYGzzhZRbK+xOo=\r\n\r\n",
    );
    assert_eq!(accepted.next, AfterReply::Websocket);
    let keyless = answer(
        &routed("GET / HTTP/1.1\r\nUpgrade: websocket\r\nConnection: Upgrade", b""),
        Handled::NotTaken,
    );
    assert_eq!(keyless.reply, "HTTP/1.1 400 Bad Request\r\n\r\n");
    assert_eq!(keyless.next, AfterReply::Release);
}

#[test]
fn routes_can_be_had_from_a_parsed_body() {
    let request = parse_http_request(b"POST /other HTTP/1.1\r\n\r\n").unwrap();
    let body = JsonBody::new().with("a".to_string(), JsonField::Bool(true));
    match route_parsed(&request, "text".to_string(), Some(body)) {
        Route::Json { path, body, otherwise } => {
            assert_eq!(path, "/other");
            assert_eq!(body.flag("a"), Some(true));
            assert!(matches!(otherwise, Fallback::Banner));
        }
        other => panic!("{other:?}"),
    }
    assert!(matches!(
        route_parsed(&request, "text".to_string(), None),
        Route::Unhandled(Fallback::Banner),
    ));
}

#[test]
fn lengths_are_counted_in_bytes() {
    assert_eq!(
        http_response("200 OK", "ü"),
        "HTTP/1.1 200 OK\r\nContent-Length: 2\r\n\r\nü",
    );
}

#[test]
fn the_server_ends_with_its_first_error() {
    let loop_error = || Err(ServerError::new("loop".to_string()));
    let file_error = || PidFileRemoval::Failed(ServerError::new("file".to_string()));
    assert_eq!(server_outcome(loop_error(), file_error()).unwrap_err().message(), "loop");
    assert_eq!(server_outcome(loop_error(), PidFileRemoval::Gone).unwrap_err().message(), "loop");
    assert_eq!(server_outcome(Ok(()), file_error()).unwrap_err().message(), "file");
    assert!(server_outcome(Ok(()), PidFileRemoval::Gone).is_ok());
}
