use opensessions_server::project_dir_session::{
    build_dir_session_map, encode_project_dir, has_candidates_for_project_dir,
    resolve_session_for_project_dir, DirSessionMap,
};
use opensessions_server::sessions::{
    any_has_session, has_session, needs_next_provider, provider_for_session, resolve_in_provider,
    resolve_session_for_project_dir_local_first, session_after, session_before, session_beside,
    sorted_session_names, switch_before_kill, visible_at_index, MuxSessionInfo,
};
use opensessions_server::sorting::sorted;
use opensessions_server::switching::handle_switch_index;

fn strings(list: &[&str]) -> Vec<String> {
    list.iter().map(|text| text.to_string()).collect()
}

fn session(name: &str, created_at: u64, dir: &str) -> MuxSessionInfo {
    MuxSessionInfo {
        name: name.to_string(),
        created_at,
        dir: dir.to_string(),
        windows: 1,
    }
}

fn map(sessions: &[(&str, &str)]) -> DirSessionMap {
    build_dir_session_map(
        sessions
            .iter()
            .map(|(name, dir)| (name.to_string(), dir.to_string()))
            .collect(),
    )
}

fn resolve(dir: &str, sessions: &[(&str, &str)]) -> Option<String> {
    resolve_session_for_project_dir(dir, &map(sessions))
}

#[test]
fn directories_resolve_to_the_closest_session() {
    let sessions = [("a", "/w"), ("b", "/w/x"), ("c", "/v.y"), ("d", "")];
    assert_eq!(resolve("/w", &sessions), Some("a".to_string()));
    assert_eq!(resolve("/w/x", &sessions), Some("b".to_string()));
    assert_eq!(resolve("/w/y", &sessions), Some("a".to_string()));
    assert_eq!(resolve("/w/x/y", &sessions), None);
    assert_eq!(resolve("/wide", &sessions), None);
    assert_eq!(resolve("__encoded__:-v-y", &sessions), Some("c".to_string()));
    assert_eq!(resolve("__encoded__:/v.y", &sessions), None);
    assert_eq!(resolve("/w", &[("a", "/w"), ("a", "/w")]), Some("a".to_string()));
    assert_eq!(resolve("/w", &[("a", "/w"), ("b", "/w")]), None);
    assert!(has_candidates_for_project_dir("/w/x/y", &map(&sessions)));
    assert!(!has_candidates_for_project_dir("/u", &map(&sessions)));
    assert_eq!(encode_project_dir("/a_b/c.d-é"), "-a-b-c-d-é");
}

#[test]
fn the_first_provider_with_candidates_decides() {
    let resolve = |dir: &str| {
        resolve_session_for_project_dir_local_first(
            &vec![
                vec![session("a", 0, "/w"), session("b", 0, "/w")],
                vec![session("c", 0, "/w"), session("d", 0, "/v")],
            ],
            dir,
        )
    };
    assert_eq!(resolve("/w"), None);
    assert_eq!(resolve("/v"), Some("d".to_string()));
    assert_eq!(resolve("/u"), None);
}

#[test]
fn sessions_are_ordered_by_age_and_name() {
    let listings = vec![
        vec![session("b", 2, ""), session("z", 1, "")],
        vec![session("a", 2, ""), session("ä", 2, "")],
    ];
    assert_eq!(sorted_session_names(&listings), strings(&["z", "a", "b", "ä"]));
    assert!(has_session(&listings[0], "z"));
    assert!(!has_session(&listings[1], "z"));
    assert!(any_has_session(&listings, "ä"));
    assert!(!any_has_session(&listings, "y"));
    assert_eq!(sorted(strings(&["b", "", "a", "B", "ab"])), strings(&["", "B", "a", "ab", "b"]));
}

#[test]
fn neighbours_are_found_in_the_list() {
    let names = strings(&["a", "b", "c"]);
    assert_eq!(session_before(&names, "b"), Some("a".to_string()));
    assert_eq!(session_before(&names, "a"), None);
    assert_eq!(session_after(&names, "b"), Some("c".to_string()));
    assert_eq!(session_after(&names, "c"), None);
    assert_eq!(session_beside(&names, "a"), Some("b".to_string()));
    assert_eq!(session_beside(&names, "c"), Some("b".to_string()));
    assert_eq!(session_beside(&names, "x"), None);
    assert_eq!(session_beside(&strings(&["a"]), "a"), None);
    assert_eq!(visible_at_index(&names, 1), Some("a".to_string()));
    assert_eq!(visible_at_index(&names, 3), Some("c".to_string()));
    assert_eq!(visible_at_index(&names, 0), None);
    assert_eq!(visible_at_index(&names, 4), None);
    assert_eq!(switch_before_kill("b", Some("b"), Some(&names)), Some("a".to_string()));
    assert_eq!(switch_before_kill("b", Some("a"), Some(&names)), None);
    assert_eq!(switch_before_kill("b", None, Some(&names)), None);
    assert_eq!(switch_before_kill("b", Some("b"), None), None);
}

#[test]
fn switching_by_index_uses_the_client_of_the_report() {
    let listings = vec![vec![session("a", 0, "")], vec![session("b", 0, "")]];
    let names = strings(&["b", "a"]);
    let plan = handle_switch_index(1, "/dev/1|a|@1", &names, &listings).unwrap();
    assert_eq!((plan.provider, plan.name.as_str()), (1, "b"));
    assert_eq!(plan.client_tty, Some("/dev/1".to_string()));
    assert_eq!(handle_switch_index(2, "", &names, &listings).unwrap().client_tty, None);
    assert!(handle_switch_index(3, "", &names, &listings).is_none());
}

#[test]
fn directories_that_two_sessions_claim_resolve_to_neither() {
    assert_eq!(resolve("/w", &[("a", "/w"), ("b", "/w"), ("c", "/w/x")]), None);
    assert_eq!(resolve("/w/x/y", &[("a", "/w"), ("b", "/w/x")]), None);
    assert_eq!(resolve("__encoded__:-w-x", &[("a", "/w.x"), ("b", "/w_x")]), None);
    assert_eq!(resolve("__encoded__:-w-x", &[("a", "/w.x")]).as_deref(), Some("a"));
}

#[test]
fn providers_decide_one_after_the_other() {
    let local = vec![session("a", 0, "/w"), session("b", 0, "/w"), session("c", 0, "/v")];
    assert_eq!(resolve_in_provider(&local, "/v"), Some(Some("c".to_string())));
    assert_eq!(resolve_in_provider(&local, "/w"), Some(None));
    assert_eq!(resolve_in_provider(&local, "/x"), None);
    let asked = vec![local];
    assert!(!needs_next_provider(&asked, "/v"));
    assert!(!needs_next_provider(&asked, "/w"));
    assert!(needs_next_provider(&asked, "/x"));
    assert!(needs_next_provider(&Vec::new(), "/v"));
    let more = vec![
        vec![session("a", 0, "/w")],
        vec![session("a", 0, "/w"), session("h/x", 0, "/x")],
    ];
    assert_eq!(provider_for_session(&more, "a"), Some(0));
    assert_eq!(
        resolve_session_for_project_dir_local_first(&more, "/x").as_deref(),
        Some("h/x"),
    );
}

#[test]
fn the_map_of_directories_can_be_read() {
    let map = map(&[("a", "/w"), ("b", "/v"), ("c", "/w"), ("a", "/w"), ("d", "")]);
    assert_eq!(map.dirs(), strings(&["/v", "/w"]));
    assert_eq!(map.get("/w"), Some(&strings(&["a", "c"])));
    assert_eq!(map.get("/v"), Some(&strings(&["b"])));
    assert_eq!(map.get(""), None);
}
