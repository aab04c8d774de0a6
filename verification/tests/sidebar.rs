use opensessions_server::context::{parse_context, ClientConnectionContext};
use opensessions_server::sidebar::{
    ensure_reply, ensure_sidebar, fallback_sessions, handle_http_hook, needs_sidebar,
    repair_context_sidebar_width, sidebar_panes_to_resize, sidebar_width_u16, spawn_target,
    toggle_sidebar, unique_windows, warmup_until, ActiveWindow, EnsureReply, HiddenPane, HookAction,
    ProviderSidebars, SidebarPane, SidebarPlace, SpawnTarget, ToggledProvider, TogglePlan,
    WidthRepair,
};

fn pane(id: &str, window: &str, width: Option<u16>) -> SidebarPane {
    SidebarPane {
        pane_id: id.to_string(),
        session_name: "s".to_string(),
        window_id: window.to_string(),
        width,
    }
}

fn strings(list: &[&str]) -> Vec<String> {
    list.iter().map(|text| text.to_string()).collect()
}

#[test]
fn panes_of_another_width_are_resized_last_first() {
    let providers = vec![
        ProviderSidebars {
            capable: true,
            panes: vec![pane("%1", "@1", Some(20)), pane("%2", "@2", Some(26)), pane("%3", "@3", None)],
        },
        ProviderSidebars { capable: false, panes: vec![pane("%4", "@4", Some(20))] },
        ProviderSidebars { capable: true, panes: vec![pane("%5", "@5", Some(27))] },
    ];
    assert_eq!(sidebar_panes_to_resize(&providers, 26), strings(&["%5", "%3", "%1"]));
    let fitting = vec![ProviderSidebars { capable: true, panes: vec![pane("%2", "@2", Some(26))] }];
    assert!(sidebar_panes_to_resize(&fitting, 26).is_empty());
}

#[test]
fn a_client_repairs_its_own_sidebar() {
    let mut client = ClientConnectionContext::default();
    assert_eq!(repair_context_sidebar_width(false, Some(&client)), WidthRepair::Nothing);
    assert_eq!(repair_context_sidebar_width(true, Some(&client)), WidthRepair::All);
    assert_eq!(repair_context_sidebar_width(true, None), WidthRepair::All);
    client.pane_id = Some("%1".to_string());
    assert_eq!(
        repair_context_sidebar_width(true, Some(&client)),
        WidthRepair::Pane { pane_id: "%1".to_string() },
    );
}

#[test]
fn toggling_hides_where_there_is_a_sidebar() {
    let toggled = |full, ids: &[&str]| ToggledProvider { full, pane_ids: strings(ids) };
    assert_eq!(
        toggle_sidebar(&vec![
            toggled(true, &[]),
            toggled(false, &["%1"]),
            toggled(true, &["%2", "%3"]),
        ]),
        TogglePlan::Hide(vec![
            HiddenPane { provider: 2, pane_id: "%2".to_string() },
            HiddenPane { provider: 2, pane_id: "%3".to_string() },
        ]),
    );
    assert_eq!(
        toggle_sidebar(&vec![toggled(true, &[]), toggled(false, &["%1"]), toggled(true, &[])]),
        TogglePlan::Show(vec![0, 2]),
    );
}

#[test]
fn linked_windows_get_one_sidebar() {
    let window = |id: &str, session: &str, active| ActiveWindow {
        id: id.to_string(),
        session_name: session.to_string(),
        active,
    };
    let kept = unique_windows(vec![
        window("@1", "a", false),
        window("@2", "a", true),
        window("@1", "b", true),
        window("@1", "c", true),
        window("@2", "d", true),
        window("@3", "d", false),
    ]);
    assert_eq!(
        kept,
        vec![window("@1", "b", true), window("@2", "a", true), window("@3", "d", false)],
    );
}

#[test]
fn sidebars_are_started_where_they_lack() {
    let context = parse_context("work:@1");
    let here = SpawnTarget { session_name: "work".to_string(), window_id: "@1".to_string() };
    let front = SpawnTarget { session_name: "play".to_string(), window_id: "@9".to_string() };
    assert_eq!(spawn_target(true, context.as_ref(), Some("play"), Some("@9")), Some(here));
    assert_eq!(spawn_target(true, None, Some("play"), Some("@9")), Some(front));
    assert_eq!(spawn_target(true, None, Some("play"), None), None);
    assert_eq!(spawn_target(false, context.as_ref(), Some("play"), Some("@9")), None);
    assert!(needs_sidebar(&vec![pane("%1", "@2", None)], "@1"));
    assert!(!needs_sidebar(&vec![pane("%1", "@1", None)], "@1"));
    let places = || {
        vec![
            SidebarPlace { target: None, panes: Vec::new() },
            SidebarPlace {
                target: spawn_target(true, None, Some("play"), Some("@9")),
                panes: vec![pane("%1", "@9", None)],
            },
            SidebarPlace {
                target: spawn_target(true, None, Some("play"), Some("@9")),
                panes: vec![pane("%1", "@8", None)],
            },
        ]
    };
    assert_eq!(ensure_sidebar(true, &places()), vec![2]);
    assert!(ensure_sidebar(false, &places()).is_empty());
}

#[test]
fn hooks_lead_to_actions() {
    assert_eq!(handle_http_hook("/toggle"), Some(HookAction::Toggle));
    assert_eq!(handle_http_hook("/ensure-sidebar"), Some(HookAction::EnsureSidebar));
    assert_eq!(handle_http_hook("/pane-exited"), Some(HookAction::PaneExited));
    assert_eq!(handle_http_hook("/pane-layout-changed"), Some(HookAction::Relayout));
    assert_eq!(handle_http_hook("/client-resized"), Some(HookAction::Relayout));
    assert_eq!(handle_http_hook("/focus"), None);
    assert_eq!(
        ensure_reply("work:@1", false),
        EnsureReply::Activate { name: "work".to_string() },
    );
    assert_eq!(ensure_reply("", true), EnsureReply::Snapshot);
    assert_eq!(ensure_reply("", false), EnsureReply::Nothing);
}

#[test]
fn sessions_fall_back_to_their_neighbours() {
    let map = fallback_sessions(&strings(&["b", "a", "x", "b"]), &strings(&["a", "b", "c"]));
    assert_eq!(map.len(), 2);
    assert_eq!(map.get("b"), Some(&"a".to_string()));
    assert_eq!(map.get("a"), Some(&"b".to_string()));
}

#[test]
fn numbers_stay_in_their_ranges() {
    assert_eq!(warmup_until(1_000), 2_200);
    assert_eq!(warmup_until(u64::MAX - 1), u64::MAX);
    assert_eq!(sidebar_width_u16(26), 26);
    assert_eq!(sidebar_width_u16(70_000), 65_535);
}
