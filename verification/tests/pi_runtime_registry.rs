use opensessions_server::json::{number_field, JsonBody, JsonField};
use opensessions_server::pi_runtime_registry::{
    parse_pi_runtime_info, positive_u32, PiRuntimeInfo, PiRuntimeRegistry,
};

fn info(pid: u32, ts: u64) -> PiRuntimeInfo {
    PiRuntimeInfo {
        pid,
        ppid: None,
        session_id: "S".to_string(),
        session_file: None,
        cwd: "/w".to_string(),
        session_name: None,
        ts,
    }
}

fn text(value: &str) -> JsonField<String> {
    JsonField::Text(value.to_string())
}

fn number(value: u64) -> JsonField<String> {
    number_field(Some(value), Some(value as i64), None)
}

fn body(fields: Vec<(&str, JsonField<String>)>) -> JsonBody {
    let mut body = JsonBody::new();
    for (name, field) in fields {
        body = body.with(name.to_string(), field);
    }
    body
}

#[test]
fn reports_are_found_until_they_are_stale() {
    let mut registry = PiRuntimeRegistry::with_default_ttl();
    registry.upsert(info(1, 100));
    registry.upsert(info(2, 5_000));
    assert_eq!(registry.get(1, 20_100), Some(info(1, 100)));
    assert_eq!(registry.get(1, 20_101), None);
    assert_eq!(registry.get(1, 100), None);
    assert_eq!(registry.get(2, 0), Some(info(2, 5_000)));
    registry.upsert(info(2, 6_000));
    assert_eq!(registry.get(2, 0), Some(info(2, 6_000)));
}

#[test]
fn pruning_drops_what_is_stale() {
    let mut registry = PiRuntimeRegistry::new(10);
    registry.upsert(info(1, 0));
    registry.upsert(info(2, 5));
    assert!(!registry.prune(10));
    assert_eq!(registry.size(10), 2);
    assert!(registry.prune(11));
    assert!(!registry.prune(11));
    assert_eq!(registry.size(15), 1);
    assert_eq!(registry.size(16), 0);
}

#[test]
fn deleted_reports_are_given_back() {
    let mut registry = PiRuntimeRegistry::new(10);
    registry.upsert(info(1, 0));
    registry.upsert(info(2, 0));
    assert_eq!(registry.delete(1), Some(info(1, 0)));
    assert_eq!(registry.delete(1), None);
    assert_eq!(registry.size(0), 1);
}

#[test]
fn reports_are_read() {
    let full = body(vec![
        ("pid", number(7)),
        ("ppid", number(1)),
        ("sessionId", text(" S ")),
        ("sessionFile", text("")),
        ("cwd", text("/w\n")),
        ("sessionName", text(" n ")),
        ("ts", number(3)),
    ]);
    assert_eq!(
        parse_pi_runtime_info(&full, 9),
        Some(PiRuntimeInfo {
            pid: 7,
            ppid: Some(1),
            session_id: "S".to_string(),
            session_file: None,
            cwd: "/w".to_string(),
            session_name: Some(" n ".to_string()),
            ts: 3,
        }),
    );
    let least = || vec![("pid", number(7)), ("sessionId", text("S")), ("cwd", text("/w"))];
    assert_eq!(parse_pi_runtime_info(&body(least()), 9), Some(info(7, 9)));
    for (name, field) in [
        ("pid", number(0)),
        ("pid", number(4_294_967_296)),
        ("pid", text("7")),
        ("ppid", number(0)),
        ("ppid", JsonField::Null),
        ("sessionId", text("  ")),
        ("cwd", JsonField::Nested),
        ("sessionFile", number(1)),
        ("sessionName", JsonField::Null),
    ] {
        let mut fields = least();
        fields.push((name, field));
        assert_eq!(parse_pi_runtime_info(&body(fields), 9), None, "{name}");
    }
    assert_eq!(parse_pi_runtime_info(&JsonBody::new(), 9), None);
}

#[test]
fn process_ids_are_positive() {
    let read = |value: u64| positive_u32(&body(vec![("pid", number(value))]), "pid");
    assert_eq!(read(0), None);
    assert_eq!(read(1), Some(1));
    assert_eq!(read(u64::from(u32::MAX)), Some(u32::MAX));
    assert_eq!(read(u64::from(u32::MAX) + 1), None);
    assert_eq!(positive_u32(&body(vec![("pid", text("7"))]), "pid"), None);
}

#[test]
fn copies_of_a_registry_go_their_own_way() {
    let mut registry = PiRuntimeRegistry::new(10);
    registry.upsert(info(1, 5));
    let mut copy = registry.clone();
    assert_eq!(registry.delete(1), Some(info(1, 5)));
    assert_eq!(copy.get(1, 15), Some(info(1, 5)));
    assert_eq!(copy.get(1, 16), None);
    assert_eq!(registry.size(5), 0);
}

#[test]
fn sizes_never_grow_with_the_clock() {
    let mut registry = PiRuntimeRegistry::new(10);
    registry.upsert(info(1, 0));
    registry.upsert(info(2, 5));
    registry.upsert(info(3, 9));
    let mut uncounted = registry.clone();
    assert_eq!(registry.size(10), 3);
    assert_eq!(registry.size(12), 2);
    assert_eq!(registry.size(10), 2);
    assert_eq!(registry.get(1, 0), None);
    assert_eq!(registry.size(16), 1);
    assert_eq!(uncounted.size(16), 1);
    assert_eq!(uncounted.size(0), 1);
    assert_eq!(uncounted.get(3, 16), Some(info(3, 9)));
}
