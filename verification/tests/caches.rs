use std::sync::atomic::{AtomicU32, Ordering};

use opensessions_server::caches::{
    git_output_step, port_facts, sessions_to_inspect, sessions_to_probe, GitInfoCache, GitStep,
    InspectedSession, PortCache, PortStep, ProbedSession,
};
use opensessions_server::runners::{
    git_info_printed, git_info_text, parse_process_rows, printed_text, process_rows_in,
    GitCommandRunner, GitOutput, GitReport, PortCommandRunner,
};
use opensessions_server::sessions::MuxSessionInfo;
use opensessions_server::text_map::{nonempty_entries, present_entries, Named, TextMap};

struct CountingGit {
    output: &'static str,
    runs: AtomicU32,
}

impl GitCommandRunner for CountingGit {
    fn git_info_output(&self, dir: &str) -> String {
        self.runs.fetch_add(1, Ordering::SeqCst);
        assert_eq!(dir, "/w");
        self.output.to_string()
    }
}

struct FixedPorts;

impl PortCommandRunner for FixedPorts {
    fn process_rows(&self) -> Vec<(u32, u32)> {
        vec![(2, 1)]
    }

    fn lsof_fields(&self) -> String {
        "p2\nn*:80".to_string()
    }
}

fn listing(sessions: &[(&str, &str)]) -> Vec<MuxSessionInfo> {
    sessions
        .iter()
        .map(|(name, dir)| MuxSessionInfo {
            name: name.to_string(),
            created_at: 0,
            dir: dir.to_string(),
            windows: 1,
        })
        .collect()
}

fn names(list: &[&str]) -> Vec<String> {
    list.iter().map(|name| name.to_string()).collect()
}

#[test]
fn git_is_asked_again_after_five_seconds() {
    let git = CountingGit { output: "main", runs: AtomicU32::new(0) };
    let mut cache = GitInfoCache::new();
    let runs = || git.runs.load(Ordering::SeqCst);
    match cache.git_info_for_dir(&git, "/w", 100) {
        GitStep::Output(text) => assert_eq!(text, "main"),
        other => panic!("{other:?}"),
    }
    cache.store("/w", 7, 100);
    assert!(matches!(cache.git_info_for_dir(&git, "/w", 5_099), GitStep::Cached(7)));
    assert!(matches!(cache.git_info_for_dir(&git, "/w", 0), GitStep::Cached(7)));
    assert_eq!(runs(), 1);
    assert!(matches!(cache.git_info_for_dir(&git, "/w", 5_100), GitStep::Output(_)));
    assert_eq!(runs(), 2);
    assert!(matches!(cache.git_info_for_dir(&git, "", 0), GitStep::Empty));
    assert_eq!(runs(), 2);
    assert_eq!(cache.lookup("/x", 100), None);
    assert!(!cache.asks_git("/w", 5_099));
    assert!(cache.asks_git("/w", 5_100));
    assert!(cache.asks_git("/x", 100));
    assert!(!cache.asks_git("", 100));
    let silent = CountingGit { output: "", runs: AtomicU32::new(0) };
    assert!(matches!(cache.git_info_for_dir(&silent, "/w", 9_999), GitStep::Empty));
    assert!(matches!(git_output_step::<u8>(String::new()), GitStep::Empty));
}

#[test]
fn only_visible_sessions_are_inspected() {
    let listings = vec![listing(&[("a", "/a"), ("b", "/b")]), listing(&[("c", "/c")])];
    let inspected = |name: &str, dir: &str| InspectedSession {
        name: name.to_string(),
        dir: dir.to_string(),
    };
    assert_eq!(
        sessions_to_inspect(&listings, Some(&names(&["c", "b"]))),
        vec![inspected("b", "/b"), inspected("c", "/c")],
    );
    assert_eq!(sessions_to_inspect(&listings, None).len(), 3);
    assert_eq!(
        sessions_to_probe(&listings, &names(&["c", "a"])),
        vec![
            ProbedSession { provider: 0, name: "a".to_string() },
            ProbedSession { provider: 1, name: "c".to_string() },
        ],
    );
}

#[test]
fn ports_are_kept_for_their_sessions_and_ten_seconds() {
    let mut cache: PortCache<u8> = PortCache::new();
    assert!(matches!(cache.discover_live_ports(&names(&["a"]), 0), PortStep::Discover));
    assert!(matches!(cache.discover_live_ports(&names(&[]), 0), PortStep::NoSessions));
    cache.store(names(&["a", "b"]), 9, 50);
    assert!(matches!(cache.discover_live_ports(&names(&["a", "b"]), 10_049), PortStep::Cached(9)));
    assert!(matches!(cache.discover_live_ports(&names(&["a", "b"]), 10_050), PortStep::Discover));
    assert!(matches!(cache.discover_live_ports(&names(&["b", "a"]), 50), PortStep::Discover));
    assert!(matches!(cache.discover_live_ports(&names(&["a"]), 50), PortStep::Discover));
}

#[test]
fn the_system_is_asked_only_where_there_are_processes() {
    let none = port_facts(&FixedPorts, &TextMap::new());
    assert!(none.process_rows.is_empty() && none.lsof_fields.is_empty() && !none.keep);
    let pids = nonempty_entries(vec![
        Named { name: "a".to_string(), value: vec![1, 2] },
        Named { name: "b".to_string(), value: Vec::new() },
        Named { name: "a".to_string(), value: vec![3] },
    ]);
    assert_eq!(pids.len(), 1);
    assert_eq!(pids.get("a"), Some(&vec![3]));
    let facts = port_facts(&FixedPorts, &pids);
    assert_eq!(facts.process_rows, vec![(2, 1)]);
    assert_eq!(facts.lsof_fields, "p2\nn*:80");
    assert!(facts.keep);
}

#[test]
fn values_that_are_there_are_collected() {
    let map = present_entries(vec![
        Named { name: "a".to_string(), value: Some(1) },
        Named { name: "b".to_string(), value: None },
    ]);
    assert_eq!(map.len(), 1);
    assert_eq!(map.get("a"), Some(&1));
    assert_eq!(map.key_list(), names(&["a"]));
}

#[test]
fn what_commands_print_is_read() {
    assert_eq!(process_rows_in("1 0\nbad\n 12  1 x\r\n"), vec![(1, 0), (12, 1)]);
    assert_eq!(parse_process_rows(b"1 0\n\xff 2\n3 1"), vec![(1, 0), (3, 1)]);
    assert_eq!(printed_text(true, b"a\xffb"), "a\u{fffd}b");
    assert_eq!(printed_text(false, b"a"), "");
    assert_eq!(
        git_info_text(" main\n.git \n", "", "\n1 2 x\n"),
        "main\n.git\n---\n\n---NUMSTAT---\n1 2 x",
    );
    assert_eq!(
        git_info_printed(b"main\n", b" M a\n", b"\xff\n"),
        "main\n---\nM a\n---NUMSTAT---\n\u{fffd}",
    );
}

fn printed(ok: bool, text: &str) -> Option<GitOutput> {
    Some(GitOutput { ok, stdout: text.as_bytes().to_vec() })
}

#[test]
fn git_commands_are_run_one_after_the_other() {
    let mut report = GitReport::new("/work");
    assert_eq!(
        report.query(),
        Some(names(&["rev-parse", "--abbrev-ref", "HEAD", "--git-dir"])),
    );
    report.take(printed(true, "main\n.git\n"));
    assert_eq!(report.query(), Some(names(&["status", "--porcelain"])));
    report.take(printed(false, " M a\n"));
    assert_eq!(report.query(), Some(names(&["diff", "--numstat", "HEAD", "--"])));
    assert_eq!(report.text(), "");
    report.take(printed(false, "1\t2\ta\n"));
    assert_eq!(report.query(), None);
    assert_eq!(report.text(), "main\n.git\n---\nM a\n---NUMSTAT---\n1\t2\ta");
}

#[test]
fn directories_without_a_repository_have_no_report() {
    assert_eq!(GitReport::new("").query(), None);
    assert_eq!(GitReport::new("").text(), "");
    let mut outside = GitReport::new("/work");
    outside.take(printed(false, "fatal"));
    assert_eq!(outside.query(), None);
    assert_eq!(outside.text(), "");
    let mut broken = GitReport::new("/work");
    broken.take(printed(true, "main\n.git\n"));
    broken.take(None);
    assert_eq!(broken.query(), None);
    assert_eq!(broken.text(), "");
}
