use std::cell::RefCell;

use opensessions_server::remote_tmux_provider::{
    exact_session_target, is_host_tag_char, namespaced_session, parse_host_pane,
    split_namespaced_session,
    CommandOutput, HostPanes, HostSessions, RemoteTmuxProvider, TmuxSession,
};
use opensessions_server::sessions::MuxSessionInfo;

struct ScriptedRunner {
    calls: RefCell<Vec<Vec<String>>>,
    respond: Box<dyn Fn(&[String]) -> CommandOutput>,
}

impl ScriptedRunner {
    fn new(respond: impl Fn(&[String]) -> CommandOutput + 'static) -> Self {
        ScriptedRunner {
            calls: RefCell::new(Vec::new()),
            respond: Box::new(respond),
        }
    }

    fn calls(&self) -> Vec<Vec<String>> {
        self.calls.borrow().clone()
    }

    fn run(&self, args: &[String]) -> CommandOutput {
        self.calls.borrow_mut().push(args.to_vec());
        (self.respond)(args)
    }
}

fn ok(stdout: &str) -> CommandOutput {
    CommandOutput {
        ok: true,
        stdout: stdout.to_string(),
    }
}

fn failed() -> CommandOutput {
    CommandOutput {
        ok: false,
        stdout: String::new(),
    }
}

fn argv(args: &[&str]) -> Vec<String> {
    args.iter().map(|arg| (*arg).to_string()).collect()
}

fn untouchable(side: &'static str) -> ScriptedRunner {
    ScriptedRunner::new(move |args| panic!("{side} tmux must not be invoked: {args:?}"))
}

/// The provider of the user "vinay", the files in its directory, and a runner
/// for each of its sockets.
struct Fixture {
    provider: RemoteTmuxProvider,
    files: Vec<String>,
    local: ScriptedRunner,
    remotes: Vec<(String, ScriptedRunner)>,
}

impl Fixture {
    fn new(local: ScriptedRunner, remotes: Vec<(&str, ScriptedRunner)>) -> Self {
        Fixture {
            provider: RemoteTmuxProvider::new("/tmp".to_string(), "vinay".to_string()),
            files: remotes.iter().map(|(file, _)| file.to_string()).collect(),
            local,
            remotes: remotes
                .into_iter()
                .map(|(file, runner)| (file.to_string(), runner))
                .collect(),
        }
    }

    fn discovered(&self) -> Vec<String> {
        self.provider.discover_clients(&self.files)
    }

    fn client(&self, host_tag: &str) -> &ScriptedRunner {
        let file = self.provider.socket_file_name(host_tag);
        &self
            .remotes
            .iter()
            .find(|(name, _)| *name == file)
            .unwrap_or_else(|| panic!("discovery considered unexpected socket {file}"))
            .1
    }

    fn list_sessions(&self) -> Vec<MuxSessionInfo> {
        let hosts = self
            .discovered()
            .into_iter()
            .map(|host_tag| {
                let output = self.client(&host_tag).run(&argv(&["list-sessions"]));
                let sessions = output.ok.then(|| output.stdout.lines().map(tmux_session).collect());
                HostSessions { host_tag, sessions }
            })
            .collect();
        self.provider.list_sessions(&hosts)
    }

    fn switch_session(&self, name: &str, client_tty: Option<&str>) {
        let Some(switch) = self.provider.switch_session(name, client_tty) else {
            return;
        };
        let panes = self.local.run(&switch.local_query());
        for command in switch.local_commands(&panes) {
            self.local.run(&command);
        }
        let discovered = self.discovered();
        let Some(host) = switch.remote_host(&discovered) else {
            return;
        };
        let client = self.client(&discovered[host]);
        let clients = client.run(&switch.remote_query());
        if let Some(command) = switch.remote_command(&clients) {
            client.run(&command);
        }
    }

    fn kill_session(&self, name: &str) {
        let discovered = self.discovered();
        if let Some(command) = self.provider.kill_session(name, &discovered) {
            self.client(&discovered[command.host]).run(&command.args);
        }
    }
}

fn tmux_session(line: &str) -> TmuxSession {
    let parts: Vec<&str> = line.split('\t').collect();
    TmuxSession {
        name: parts[1].to_string(),
        created_at: parts[2].parse().unwrap(),
        window_count: parts[4].parse().unwrap(),
        dir: parts[5].to_string(),
    }
}

fn web1_pane_query() -> Vec<String> {
    argv(&[
        "list-panes",
        "-a",
        "-f",
        "#{==:#{@remote-host},web-1}",
        "-F",
        "#{pane_id}\t#{session_name}\t#{window_id}",
    ])
}

fn remote_client_query() -> Vec<String> {
    argv(&["list-clients", "-F", "#{client_tty}"])
}

#[test]
fn discovers_matching_sockets_and_namespaces_remote_sessions() {
    let web = ScriptedRunner::new(|_| {
        ok("$1\tmain\t100\t1\t2\t/home/vinay/proj\n$2\t_os_stash\t50\t0\t1\t/tmp")
    });
    let db = ScriptedRunner::new(|_| ok("$1\talpha\t200\t0\t1\t/srv"));
    let mut fixture = Fixture::new(
        untouchable("local"),
        vec![
            ("inner-tmux-vinay-web-1.sock", web),
            ("inner-tmux-vinay-db.host-2.sock", db),
        ],
    );
    // None of these are remote sockets for user "vinay": wrong user, empty
    // host tag, invalid host tag character, wrong extension, unrelated file.
    for other in [
        "inner-tmux-root-web-1.sock",
        "inner-tmux-vinay-.sock",
        "inner-tmux-vinay-bad tag.sock",
        "inner-tmux-vinay-web-1.sock.bak",
        "notes.txt",
    ] {
        fixture.files.push(other.to_string());
    }

    assert_eq!(
        fixture.list_sessions(),
        vec![
            MuxSessionInfo {
                name: "db.host-2/alpha".to_string(),
                created_at: 200,
                dir: "/srv".to_string(),
                windows: 1,
            },
            MuxSessionInfo {
                name: "web-1/main".to_string(),
                created_at: 100,
                dir: "/home/vinay/proj".to_string(),
                windows: 2,
            },
        ],
    );
}

#[test]
fn skips_unresponsive_sockets_silently() {
    let live = ScriptedRunner::new(|_| ok("$1\tmain\t100\t1\t1\t/srv"));
    let dead = ScriptedRunner::new(|_| failed());
    let fixture = Fixture::new(
        untouchable("local"),
        vec![
            ("inner-tmux-vinay-live.sock", live),
            ("inner-tmux-vinay-dead.sock", dead),
        ],
    );

    let names = fixture
        .list_sessions()
        .into_iter()
        .map(|session| session.name)
        .collect::<Vec<_>>();
    assert_eq!(names, vec!["live/main".to_string()]);
}

#[test]
fn missing_discovery_root_means_no_remote_sessions() {
    let fixture = Fixture::new(untouchable("local"), Vec::new());
    assert!(fixture.list_sessions().is_empty());
}

#[test]
fn switch_session_switches_local_pane_and_remote_client() {
    let local = ScriptedRunner::new(|args| match args[0].as_str() {
        "list-panes" => ok("%5\tagents\t@2"),
        _ => ok(""),
    });
    let remote = ScriptedRunner::new(|args| match args[0].as_str() {
        "list-clients" => ok("/dev/pts/7"),
        _ => ok(""),
    });
    let fixture = Fixture::new(local, vec![("inner-tmux-vinay-web-1.sock", remote)]);

    fixture.switch_session("web-1/main", Some("/dev/ttys002"));

    assert_eq!(
        fixture.local.calls(),
        vec![
            web1_pane_query(),
            argv(&["switch-client", "-c", "/dev/ttys002", "-t", "agents"]),
            argv(&["select-window", "-t", "@2"]),
            argv(&["select-pane", "-t", "%5"]),
        ],
    );
    assert_eq!(
        fixture.client("web-1").calls(),
        vec![
            remote_client_query(),
            argv(&["switch-client", "-c", "/dev/pts/7", "-t", "=main"]),
        ],
    );
}

#[test]
fn switch_session_without_client_tty_switches_without_client_flag() {
    let local = ScriptedRunner::new(|args| match args[0].as_str() {
        "list-panes" => ok("%5\tagents\t@2"),
        _ => ok(""),
    });
    let remote = ScriptedRunner::new(|args| match args[0].as_str() {
        "list-clients" => ok("/dev/pts/7"),
        _ => ok(""),
    });
    let fixture = Fixture::new(local, vec![("inner-tmux-vinay-web-1.sock", remote)]);

    fixture.switch_session("web-1/main", None);

    assert_eq!(
        fixture.local.calls()[1],
        argv(&["switch-client", "-t", "agents"]),
    );
}

#[test]
fn switch_session_still_switches_remote_when_no_local_pane_matches() {
    for local_ok in [true, false] {
        let local = ScriptedRunner::new(move |args| {
            assert_eq!(args[0], "list-panes", "unexpected local command {args:?}");
            if local_ok {
                ok("")
            } else {
                failed()
            }
        });
        let remote = ScriptedRunner::new(|args| match args[0].as_str() {
            "list-clients" => ok("/dev/pts/7"),
            _ => ok(""),
        });
        let fixture = Fixture::new(local, vec![("inner-tmux-vinay-web-1.sock", remote)]);

        fixture.switch_session("web-1/main", Some("/dev/ttys002"));

        assert_eq!(fixture.local.calls(), vec![web1_pane_query()]);
        assert_eq!(
            fixture.client("web-1").calls(),
            vec![
                remote_client_query(),
                argv(&["switch-client", "-c", "/dev/pts/7", "-t", "=main"]),
            ],
        );
    }
}

#[test]
fn switch_session_still_switches_local_when_remote_has_no_client() {
    for remote_ok in [true, false] {
        let local = ScriptedRunner::new(|args| match args[0].as_str() {
            "list-panes" => ok("%5\tagents\t@2"),
            _ => ok(""),
        });
        let remote = ScriptedRunner::new(move |args| {
            assert_eq!(args[0], "list-clients", "unexpected remote command {args:?}");
            if remote_ok {
                ok("")
            } else {
                failed()
            }
        });
        let fixture = Fixture::new(local, vec![("inner-tmux-vinay-web-1.sock", remote)]);

        fixture.switch_session("web-1/main", Some("/dev/ttys002"));

        assert_eq!(
            fixture.local.calls(),
            vec![
                web1_pane_query(),
                argv(&["switch-client", "-c", "/dev/ttys002", "-t", "agents"]),
                argv(&["select-window", "-t", "@2"]),
                argv(&["select-pane", "-t", "%5"]),
            ],
        );
        assert_eq!(fixture.client("web-1").calls(), vec![remote_client_query()]);
    }
}

#[test]
fn switch_session_with_unknown_host_touches_no_remote_socket() {
    let local = ScriptedRunner::new(|_| ok(""));
    let fixture = Fixture::new(
        local,
        vec![("inner-tmux-vinay-web-1.sock", untouchable("remote"))],
    );

    fixture.switch_session("ghost/main", None);

    assert!(fixture.client("web-1").calls().is_empty());
}

#[test]
fn bare_local_names_never_touch_local_or_remote_tmux() {
    let fixture = Fixture::new(
        untouchable("local"),
        vec![("inner-tmux-vinay-web-1.sock", untouchable("remote"))],
    );

    fixture.switch_session("agents", Some("/dev/ttys002"));
    fixture.kill_session("agents");

    assert!(fixture.local.calls().is_empty());
    assert!(fixture.client("web-1").calls().is_empty());
}

#[test]
fn kill_session_targets_only_the_named_host_socket() {
    let beta = ScriptedRunner::new(|_| ok(""));
    let fixture = Fixture::new(
        untouchable("local"),
        vec![
            ("inner-tmux-vinay-alpha.sock", untouchable("alpha")),
            ("inner-tmux-vinay-beta.sock", beta),
        ],
    );

    fixture.kill_session("beta/work");
    // The first slash is the namespace separator; the rest is the remote
    // session name verbatim.
    fixture.kill_session("beta/work/sub");

    assert_eq!(
        fixture.client("beta").calls(),
        vec![
            argv(&["kill-session", "-t", "=work"]),
            argv(&["kill-session", "-t", "=work/sub"]),
        ],
    );
    assert!(fixture.client("alpha").calls().is_empty());
}

#[test]
fn kill_session_ignores_malformed_and_unknown_namespaced_names() {
    let fixture = Fixture::new(
        untouchable("local"),
        vec![("inner-tmux-vinay-web-1.sock", untouchable("remote"))],
    );

    fixture.kill_session("web-1/");
    fixture.kill_session("/work");
    fixture.kill_session("ghost/work");

    assert!(fixture.client("web-1").calls().is_empty());
}

#[test]
fn pane_counts_namespace_sessions_and_skip_stash_and_dead_hosts() {
    fn pane_line(id: &str, session: &str) -> String {
        format!("{id}\t{session}\t@1\t0\t0\t1\t/dev/pts/1\t100\t/home\tzsh\ttitle\t80\t24\t0\t79")
    }

    let panes = [
        pane_line("%1", "main"),
        pane_line("%2", "main"),
        pane_line("%3", "_os_stash"),
    ]
    .join("\n");
    let live = ScriptedRunner::new(move |_| ok(&panes));
    let dead = ScriptedRunner::new(|_| failed());
    let fixture = Fixture::new(
        untouchable("local"),
        vec![
            ("inner-tmux-vinay-web-1.sock", live),
            ("inner-tmux-vinay-dead.sock", dead),
        ],
    );

    let hosts = fixture
        .discovered()
        .into_iter()
        .map(|host_tag| {
            let output = fixture.client(&host_tag).run(&argv(&["list-panes", "-a"]));
            let pane_sessions = output.ok.then(|| {
                output
                    .stdout
                    .lines()
                    .map(|line| line.split('\t').nth(1).unwrap().to_string())
                    .collect()
            });
            HostPanes { host_tag, pane_sessions }
        })
        .collect();
    let counts = fixture.provider.get_all_pane_counts(&hosts);

    assert_eq!(counts.len(), 1);
    assert_eq!(counts.get("web-1/main"), Some(&2));
}

#[test]
fn names_of_hosts_and_sessions_split_back() {
    assert_eq!(namespaced_session("web-1", "a/b"), "web-1/a/b");
    assert_eq!(
        split_namespaced_session("web-1/a/b"),
        Some(("web-1".to_string(), "a/b".to_string())),
    );
    assert_eq!(split_namespaced_session("agents"), None);
    assert_eq!(split_namespaced_session("/a"), None);
    assert_eq!(split_namespaced_session("a/"), None);
    assert_eq!(exact_session_target("main"), "=main");
    assert!(is_host_tag_char('Z') && is_host_tag_char('.') && !is_host_tag_char('/'));
}

#[test]
fn the_first_whole_line_of_a_pane_list_counts() {
    let provider = RemoteTmuxProvider::new("/tmp".to_string(), "vinay".to_string());
    let switch = provider.switch_session("web-1/main", None).unwrap();
    assert_eq!(switch.host_tag(), "web-1");
    let commands = switch.local_commands(&ok("\n%1\t\t@1\n%2\tone\t@2\ttwo\r\n%3\tx\t@3"));
    assert_eq!(
        commands,
        vec![
            argv(&["switch-client", "-t", "one"]),
            argv(&["select-window", "-t", "@2\ttwo"]),
            argv(&["select-pane", "-t", "%2"]),
        ],
    );
    assert_eq!(
        switch.remote_command(&ok("\n\n/dev/pts/1\n/dev/pts/2")),
        Some(argv(&["switch-client", "-c", "/dev/pts/1", "-t", "=main"])),
    );
}

#[test]
fn directories_and_pane_counts_are_asked_of_the_host() {
    let provider = RemoteTmuxProvider::new("/run/sockets".to_string(), "vinay".to_string());
    assert_eq!(provider.name(), "tmux-remote");
    assert_eq!(provider.discovery_root(), "/run/sockets");
    assert_eq!(provider.host_tag("inner-tmux-vinay-web-1.sock"), Some("web-1".to_string()));
    assert_eq!(provider.get_current_session(), None);
    assert_eq!(provider.get_client_tty(), "");
    let discovered = vec!["db".to_string(), "web-1".to_string()];
    let query = provider.session_dir_query("web-1/main", &discovered).unwrap();
    assert_eq!(query.host, 1);
    assert_eq!(
        query.args,
        argv(&["display-message", "-p", "-t", "=main", "#{pane_current_path}"]),
    );
    assert_eq!(provider.session_dir_query("ghost/main", &discovered), None);
    assert_eq!(provider.get_session_dir(Some(&ok("/srv"))), "/srv");
    assert_eq!(provider.get_session_dir(Some(&failed())), "");
    assert_eq!(provider.get_session_dir(None), "");
    assert_eq!(
        provider.pane_count_target("db/a/b", &discovered),
        Some((0, "=a/b".to_string())),
    );
    assert_eq!(provider.get_pane_count(Some(3)), 3);
    assert_eq!(provider.get_pane_count(None), 0);
}

#[test]
fn lines_of_a_pane_list_hold_three_texts() {
    let parsed = |line: &str| parse_host_pane(&line.chars().collect::<Vec<char>>());
    let texts = |a: &str, b: &str, c: &str| Some((a.to_string(), b.to_string(), c.to_string()));
    assert_eq!(parsed("%1\tmain\t@2"), texts("%1", "main", "@2"));
    assert_eq!(parsed("%1\tmain\t@2\tmore"), texts("%1", "main", "@2\tmore"));
    assert_eq!(parsed("%1\tmain\t"), None);
    assert_eq!(parsed("\tmain\t@2"), None);
    assert_eq!(parsed("%1\tmain"), None);
}

#[test]
fn hosts_are_found_by_their_tag() {
    let provider = RemoteTmuxProvider::new("/tmp".to_string(), "vinay".to_string());
    let discovered = argv(&["db", "web-1"]);
    assert_eq!(provider.client_for_host("web-1", &discovered), Some(1));
    assert_eq!(provider.client_for_host("web", &discovered), None);
}

#[test]
fn copies_of_a_provider_are_the_same() {
    let copy = RemoteTmuxProvider::new("/tmp".to_string(), "vinay".to_string()).clone();
    assert_eq!(copy.discovery_root(), "/tmp");
    assert_eq!(copy.socket_file_name("db"), "inner-tmux-vinay-db.sock");
}
