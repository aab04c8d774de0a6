//! Sessions of remote tmux servers, reached over forwarded sockets.
//!
//! A remote session is named `host/session`. The provider finds the sockets,
//! builds the tmux commands and reads the answers; running the commands is up
//! to its caller.

use vstd::prelude::*;

use crate::sessions::{
    lemma_position, position, position_of, session_views, MuxSessionInfo, MuxSessionView,
};
use crate::sorting::{is_sort_of, sorted, views};
use crate::text::{
    chars_of, find, lemma_find, lemma_find_is, lemma_find_none, lemma_split_once_char, lines,
    occurs_at, pieces, same_text,
    split_at_first, split_lines, split_once, string_of, strip_prefix, strip_suffix,
    stripping_leaves_the_rest, without_prefix, without_suffix,
};
use crate::text_map::{own_text, str_of, text_of, texts, TextMap};

verus! {

/// The session in which tmux windows are parked. It is never shown.
pub open spec fn stash_session() -> Seq<char> {
    "_os_stash"@
}

/// What the name of the provider is.
pub open spec fn provider_name() -> Seq<char> {
    "tmux-remote"@
}

/// What a tmux command gave.
#[derive(Debug)]
pub struct CommandOutput {
    /// Whether the command succeeded.
    pub ok: bool,
    /// What it printed.
    pub stdout: String,
}

/// A command for the tmux server of a host.
#[derive(Debug, PartialEq, Eq)]
pub struct RemoteCommand {
    /// The position of the host among the discovered ones.
    pub host: usize,
    pub args: Vec<String>,
}

/// The remote sockets of one user.
#[derive(Debug)]
pub struct RemoteTmuxProvider {
    discovery_root: String,
    local_user: String,
}

// ---------------------------------------------------------------------------
// Names.
// ---------------------------------------------------------------------------

/// Whether a character may stand in a host tag.
pub open spec fn host_tag_char(ch: char) -> bool {
    'a' <= ch <= 'z' || 'A' <= ch <= 'Z' || '0' <= ch <= '9' || ch == '.' || ch == '_' || ch == '-'
}

/// Whether a text can be a host tag.
pub open spec fn valid_host_tag(tag: Seq<char>) -> bool {
    tag.len() > 0 && forall|i: int| 0 <= i < tag.len() ==> host_tag_char(#[trigger] tag[i])
}

/// Decides whether a character may stand in a host tag.
pub fn is_host_tag_char(ch: char) -> (yes: bool)
    ensures
        yes == host_tag_char(ch),
{
    ('a' <= ch && ch <= 'z') || ('A' <= ch && ch <= 'Z') || ('0' <= ch && ch <= '9') || ch == '.'
        || ch == '_' || ch == '-'
}

/// The name of a session of a host.
pub open spec fn namespaced(host_tag: Seq<char>, session: Seq<char>) -> Seq<char> {
    host_tag + seq!['/'] + session
}

/// The host and the session that a name stands for: what stands before and
/// after its first slash, where neither is empty.
pub open spec fn split_namespaced(name: Seq<char>) -> Option<(Seq<char>, Seq<char>)> {
    match split_once(name, seq!['/']) {
        Some((host_tag, session)) => if host_tag.len() > 0 && session.len() > 0 {
            Some((host_tag, session))
        } else {
            None
        },
        None => None,
    }
}

/// How tmux is told a session by its exact name.
pub open spec fn exact_target(session: Seq<char>) -> Seq<char> {
    seq!['='] + session
}

/// The host and the session that a name stands for.
pub fn split_namespaced_session(name: &str) -> (parts: Option<(String, String)>)
    ensures
        match parts {
            Some(parts) => split_namespaced(name@) == Some((parts.0@, parts.1@)),
            None => split_namespaced(name@) is None,
        },
{
    let chars = chars_of(name);
    let slash: [char; 1] = ['/'];
    assert(slash@ == seq!['/']);
    match split_at_first(chars.as_slice(), &slash) {
        Some((host_tag, session)) => if host_tag.len() > 0 && session.len() > 0 {
            Some((string_of(host_tag), string_of(session)))
        } else {
            None
        },
        None => None,
    }
}

/// The name of a session of a host.
pub fn namespaced_session(host_tag: &str, session_name: &str) -> (name: String)
    ensures
        name@ == namespaced(host_tag@, session_name@),
{
    let mut name = host_tag.to_string();
    name.append("/");
    name.append(session_name);
    proof {
        reveal_strlit("/");
        assert("/"@ =~= seq!['/']);
    }
    name
}

/// How tmux is told a session by its exact name.
pub fn exact_session_target(session_name: &str) -> (target: String)
    ensures
        target@ == exact_target(session_name@),
{
    let mut target = "=".to_string();
    target.append(session_name);
    proof {
        reveal_strlit("=");
        assert("="@ =~= seq!['=']);
    }
    target
}

/// The pane of a host, its session and its window, that a line of a pane list
/// holds: three texts between tabs, none of them empty, the last of which is
/// the rest of the line.
pub open spec fn host_pane(line: Seq<char>) -> Option<(Seq<char>, Seq<char>, Seq<char>)> {
    match split_once(line, seq!['\t']) {
        Some((pane_id, rest)) => match split_once(rest, seq!['\t']) {
            Some((session, window_id)) => if pane_id.len() > 0 && session.len() > 0
                && window_id.len() > 0 {
                Some((pane_id, session, window_id))
            } else {
                None
            },
            None => None,
        },
        None => None,
    }
}

/// Reads a line of a pane list.
pub fn parse_host_pane(line: &[char]) -> (pane: Option<(String, String, String)>)
    ensures
        match pane {
            Some(pane) => host_pane(line@) == Some((pane.0@, pane.1@, pane.2@)),
            None => host_pane(line@) is None,
        },
{
    let tab: [char; 1] = ['\t'];
    assert(tab@ == seq!['\t']);
    match split_at_first(line, &tab) {
        Some((pane_id, rest)) => match split_at_first(rest, &tab) {
            Some((session, window_id)) => if pane_id.len() > 0 && session.len() > 0
                && window_id.len() > 0 {
                Some((string_of(pane_id), string_of(session), string_of(window_id)))
            } else {
                None
            },
            None => None,
        },
        None => None,
    }
}

/// The first pane that the lines of a pane list hold.
pub open spec fn first_host_pane(lines: Seq<Seq<char>>) -> Option<
    (Seq<char>, Seq<char>, Seq<char>),
>
    decreases lines.len(),
{
    if lines.len() == 0 {
        None
    } else if host_pane(lines[0]) is Some {
        host_pane(lines[0])
    } else {
        first_host_pane(lines.drop_first())
    }
}

/// The first line that is not empty.
pub open spec fn first_solid_line(lines: Seq<Seq<char>>) -> Option<Seq<char>>
    decreases lines.len(),
{
    if lines.len() == 0 {
        None
    } else if lines[0].len() > 0 {
        Some(lines[0])
    } else {
        first_solid_line(lines.drop_first())
    }
}

fn find_host_pane(output: &str) -> (pane: Option<(String, String, String)>)
    ensures
        match pane {
            Some(pane) => first_host_pane(lines(output@)) == Some(
                (pane.0@, pane.1@, pane.2@),
            ),
            None => first_host_pane(lines(output@)) is None,
        },
{
    let chars = chars_of(output);
    let parts = split_lines(chars.as_slice());
    let ghost all = pieces(parts@);
    assert(all.skip(0) == all);
    let mut i: usize = 0;
    while i < parts.len()
        invariant
            i <= parts@.len(),
            all == pieces(parts@),
            all == lines(output@),
            first_host_pane(all) == first_host_pane(all.skip(i as int)),
        decreases parts@.len() - i,
    {
        assert(all.skip(i as int)[0] == parts@[i as int]@);
        assert(all.skip(i as int).drop_first() == all.skip(i + 1));
        let pane = parse_host_pane(parts[i]);
        if pane.is_some() {
            return pane;
        }
        i += 1;
    }
    None
}

fn find_solid_line(output: &str) -> (line: Option<String>)
    ensures
        text_of(line) == first_solid_line(lines(output@)),
{
    let chars = chars_of(output);
    let parts = split_lines(chars.as_slice());
    let ghost all = pieces(parts@);
    assert(all.skip(0) == all);
    let mut i: usize = 0;
    while i < parts.len()
        invariant
            i <= parts@.len(),
            all == pieces(parts@),
            all == lines(output@),
            first_solid_line(all) == first_solid_line(all.skip(i as int)),
        decreases parts@.len() - i,
    {
        assert(all.skip(i as int)[0] == parts@[i as int]@);
        assert(all.skip(i as int).drop_first() == all.skip(i + 1));
        if parts[i].len() > 0 {
            return Some(string_of(parts[i]));
        }
        i += 1;
    }
    None
}

// ---------------------------------------------------------------------------
// Discovery.
// ---------------------------------------------------------------------------

/// What the socket files of a user begin with.
pub open spec fn socket_prefix(user: Seq<char>) -> Seq<char> {
    "inner-tmux-"@ + user + "-"@
}

/// The host tag in the name of a socket file of a user.
pub open spec fn host_tag_of(user: Seq<char>, file_name: Seq<char>) -> Option<Seq<char>> {
    match strip_prefix(file_name, socket_prefix(user)) {
        Some(rest) => match strip_suffix(rest, ".sock"@) {
            Some(tag) => if valid_host_tag(tag) {
                Some(tag)
            } else {
                None
            },
            None => None,
        },
        None => None,
    }
}

/// The host tags in the names of files, in their order.
pub open spec fn host_tags(user: Seq<char>, file_names: Seq<Seq<char>>) -> Seq<Seq<char>>
    decreases file_names.len(),
{
    if file_names.len() == 0 {
        Seq::empty()
    } else {
        let earlier = host_tags(user, file_names.drop_last());
        match host_tag_of(user, file_names.last()) {
            Some(tag) => earlier.push(tag),
            None => earlier,
        }
    }
}

fn all_host_tag_chars(tag: &[char]) -> (yes: bool)
    ensures
        yes == forall|i: int| 0 <= i < tag@.len() ==> host_tag_char(#[trigger] tag@[i]),
{
    let mut i: usize = 0;
    while i < tag.len()
        invariant
            i <= tag@.len(),
            forall|j: int| 0 <= j < i ==> host_tag_char(#[trigger] tag@[j]),
        decreases tag@.len() - i,
    {
        if !is_host_tag_char(tag[i]) {
            return false;
        }
        i += 1;
    }
    true
}

impl Clone for RemoteTmuxProvider {
    fn clone(&self) -> (copy: RemoteTmuxProvider)
        ensures
            copy == *self,
    {
        RemoteTmuxProvider {
            discovery_root: self.discovery_root.clone(),
            local_user: self.local_user.clone(),
        }
    }
}

impl RemoteTmuxProvider {
    /// The user whose sockets are looked for.
    pub closed spec fn user(&self) -> Seq<char> {
        self.local_user@
    }

    /// The directory in which sockets are looked for.
    pub closed spec fn root(&self) -> Seq<char> {
        self.discovery_root@
    }

    /// The sockets of a user in a directory.
    pub fn new(discovery_root: String, local_user: String) -> (provider: RemoteTmuxProvider)
        ensures
            provider.root() == discovery_root@,
            provider.user() == local_user@,
    {
        RemoteTmuxProvider { discovery_root, local_user }
    }

    /// The name of the provider.
    pub fn name(&self) -> (name: &str)
        ensures
            name@ == provider_name(),
    {
        "tmux-remote"
    }

    /// The directory in which sockets are looked for.
    pub fn discovery_root(&self) -> (root: &str)
        ensures
            root@ == self.root(),
    {
        self.discovery_root.as_str()
    }

    /// The name of the socket file of a host.
    pub fn socket_file_name(&self, host_tag: &str) -> (file_name: String)
        ensures
            file_name@ == socket_prefix(self.user()) + host_tag@ + ".sock"@,
    {
        let mut file_name = self.prefix();
        file_name.append(host_tag);
        file_name.append(".sock");
        file_name
    }

    fn prefix(&self) -> (prefix: String)
        ensures
            prefix@ == socket_prefix(self.user()),
    {
        let mut prefix = "inner-tmux-".to_string();
        prefix.append(self.local_user.as_str());
        prefix.append("-");
        prefix
    }

    /// The host tag in the name of a socket file.
    pub fn host_tag(&self, file_name: &str) -> (tag: Option<String>)
        ensures
            text_of(tag) == host_tag_of(self.user(), file_name@),
    {
        let name = chars_of(file_name);
        let prefix = chars_of(self.prefix().as_str());
        let suffix = chars_of(".sock");
        match without_prefix(name.as_slice(), prefix.as_slice()) {
            Some(rest) => match without_suffix(rest, suffix.as_slice()) {
                Some(tag) => if tag.len() > 0 && all_host_tag_chars(tag) {
                    Some(string_of(tag))
                } else {
                    None
                },
                None => None,
            },
            None => None,
        }
    }

    /// The tags of the hosts that have a socket among the files of the
    /// directory, in dictionary order.
    pub fn discover_clients(&self, file_names: &Vec<String>) -> (tags: Vec<String>)
        ensures
            is_sort_of::<String>(host_tags(self.user(), texts(file_names@)), texts(tags@)),
    {
        let mut tags: Vec<String> = Vec::new();
        let ghost all = texts(file_names@);
        let mut i: usize = 0;
        assert(texts(tags@) =~= host_tags(self.user(), all.take(0)));
        while i < file_names.len()
            invariant
                i <= file_names@.len(),
                all == texts(file_names@),
                texts(tags@) == host_tags(self.user(), all.take(i as int)),
            decreases file_names@.len() - i,
        {
            let ghost before = tags@;
            proof {
                assert(all.take(i + 1).drop_last() == all.take(i as int));
                assert(all.take(i + 1).last() == file_names@[i as int]@);
            }
            if let Some(tag) = self.host_tag(file_names[i].as_str()) {
                tags.push(tag);
                assert(texts(tags@) =~= texts(before).push(tag@));
            }
            i += 1;
        }
        assert(all.take(all.len() as int) == all);
        let ghost found = tags@;
        let result = sorted(tags);
        proof {
            assert(views(found) =~= texts(found));
            assert(views(result@) =~= texts(result@));
        }
        result
    }

    /// The position of a host among the discovered ones.
    pub fn client_for_host(&self, host_tag: &str, discovered: &Vec<String>) -> (found: Option<usize>)
        ensures
            match found {
                Some(i) => i < discovered@.len() && position(texts(discovered@), host_tag@) == Some(
                    i as int,
                ),
                None => position(texts(discovered@), host_tag@) is None,
            },
    {
        position_of(discovered, host_tag)
    }

    /// The position of the host of a session, and its name there.
    fn reach(&self, name: &str, discovered: &Vec<String>) -> (found: Option<(usize, String)>)
        ensures
            match found {
                Some((host, session)) => reached(name@, texts(discovered@)) == Some(
                    (host as int, session@),
                ),
                None => reached(name@, texts(discovered@)) is None,
            },
    {
        match split_namespaced_session(name) {
            Some((host_tag, session)) => match self.client_for_host(host_tag.as_str(), discovered) {
                Some(host) => Some((host, session)),
                None => None,
            },
            None => None,
        }
    }
}

/// The position of the host of a session among the discovered ones, and the
/// name that the session has there. A name that is not of the form
/// `host/session`, and one of a host that is not there, lead nowhere.
pub open spec fn reached(name: Seq<char>, discovered: Seq<Seq<char>>) -> Option<(int, Seq<char>)> {
    match split_namespaced(name) {
        Some((host_tag, session)) => match position(discovered, host_tag) {
            Some(host) => Some((host, session)),
            None => None,
        },
        None => None,
    }
}

// ---------------------------------------------------------------------------
// Listing.
// ---------------------------------------------------------------------------

/// A session, as the tmux server of a host lists it.
#[derive(Debug)]
pub struct TmuxSession {
    pub name: String,
    pub created_at: u64,
    pub dir: String,
    pub window_count: u32,
}

/// What a host lists: the sessions, or nothing where it does not answer.
#[derive(Debug)]
pub struct HostSessions {
    pub host_tag: String,
    pub sessions: Option<Vec<TmuxSession>>,
}

/// The panes of a host, each by the name of its session, or nothing where the
/// host does not answer.
#[derive(Debug)]
pub struct HostPanes {
    pub host_tag: String,
    pub pane_sessions: Option<Vec<String>>,
}

/// The sessions of a host under their full names, without the stash.
pub open spec fn shown_sessions(host_tag: Seq<char>, sessions: Seq<TmuxSession>) -> Seq<
    MuxSessionView,
>
    decreases sessions.len(),
{
    if sessions.len() == 0 {
        Seq::empty()
    } else {
        let earlier = shown_sessions(host_tag, sessions.drop_last());
        let last = sessions.last();
        if last.name@ == stash_session() {
            earlier
        } else {
            earlier.push(
                MuxSessionView {
                    name: namespaced(host_tag, last.name@),
                    created_at: last.created_at,
                    dir: last.dir@,
                    windows: last.window_count,
                },
            )
        }
    }
}

/// The sessions of all hosts that answer, host by host.
pub open spec fn all_sessions(hosts: Seq<HostSessions>) -> Seq<MuxSessionView>
    decreases hosts.len(),
{
    if hosts.len() == 0 {
        Seq::empty()
    } else {
        let earlier = all_sessions(hosts.drop_last());
        match hosts.last().sessions {
            Some(sessions) => earlier + shown_sessions(hosts.last().host_tag@, sessions@),
            None => earlier,
        }
    }
}

/// The full session names of the panes of a host, without those of the stash.
pub open spec fn shown_panes(host_tag: Seq<char>, panes: Seq<Seq<char>>) -> Seq<Seq<char>>
    decreases panes.len(),
{
    if panes.len() == 0 {
        Seq::empty()
    } else {
        let earlier = shown_panes(host_tag, panes.drop_last());
        if panes.last() == stash_session() {
            earlier
        } else {
            earlier.push(namespaced(host_tag, panes.last()))
        }
    }
}

/// The full session names of the panes of all hosts that answer.
pub open spec fn all_panes(hosts: Seq<HostPanes>) -> Seq<Seq<char>>
    decreases hosts.len(),
{
    if hosts.len() == 0 {
        Seq::empty()
    } else {
        let earlier = all_panes(hosts.drop_last());
        match hosts.last().pane_sessions {
            Some(panes) => earlier + shown_panes(hosts.last().host_tag@, texts(panes@)),
            None => earlier,
        }
    }
}

/// How often each name occurs.
pub open spec fn tally(names: Seq<Seq<char>>) -> Map<Seq<char>, u32>
    decreases names.len(),
{
    if names.len() == 0 {
        Map::empty()
    } else {
        let earlier = tally(names.drop_last());
        let name = names.last();
        earlier.insert(
            name,
            if earlier.contains_key(name) {
                (earlier[name] + 1) as u32
            } else {
                1
            },
        )
    }
}

/// No name is counted more often than there are names.
proof fn lemma_tally_bound(names: Seq<Seq<char>>, name: Seq<char>)
    requires
        names.len() <= u32::MAX,
        tally(names).contains_key(name),
    ensures
        tally(names)[name] <= names.len(),
    decreases names.len(),
{
    if names.len() > 0 && tally(names.drop_last()).contains_key(name) {
        lemma_tally_bound(names.drop_last(), name);
    }
}

fn add_shown(sessions: &mut Vec<MuxSessionInfo>, host_tag: &str, listed: &Vec<TmuxSession>)
    ensures
        session_views(final(sessions)@) == session_views(old(sessions)@) + shown_sessions(
            host_tag@,
            listed@,
        ),
{
    let mut i: usize = 0;
    assert(session_views(sessions@) =~= session_views(old(sessions)@) + shown_sessions(
        host_tag@,
        listed@.take(0),
    ));
    while i < listed.len()
        invariant
            i <= listed@.len(),
            session_views(sessions@) == session_views(old(sessions)@) + shown_sessions(
                host_tag@,
                listed@.take(i as int),
            ),
        decreases listed@.len() - i,
    {
        let ghost before = sessions@;
        let session = &listed[i];
        proof {
            assert(listed@.take(i + 1).drop_last() == listed@.take(i as int));
            assert(listed@.take(i + 1).last() == *session);
        }
        if !same_text(session.name.as_str(), "_os_stash") {
            let shown = MuxSessionInfo {
                name: namespaced_session(host_tag, session.name.as_str()),
                created_at: session.created_at,
                dir: session.dir.clone(),
                windows: session.window_count,
            };
            sessions.push(shown);
            assert(session_views(sessions@) =~= session_views(before).push(shown@));
            assert(session_views(sessions@) =~= session_views(old(sessions)@) + shown_sessions(
                host_tag@,
                listed@.take(i + 1),
            ));
        }
        i += 1;
    }
    assert(listed@.take(listed@.len() as int) == listed@);
}

fn count_panes(counts: &mut TextMap<u32>, host_tag: &str, panes: &Vec<String>, Ghost(seen): Ghost<
    Seq<Seq<char>>,
>)
    requires
        old(counts)@ == tally(seen),
        seen.len() + shown_panes(host_tag@, texts(panes@)).len() <= u32::MAX,
    ensures
        final(counts)@ == tally(seen + shown_panes(host_tag@, texts(panes@))),
{
    let ghost all = texts(panes@);
    let mut i: usize = 0;
    assert(seen + shown_panes(host_tag@, all.take(0)) =~= seen);
    while i < panes.len()
        invariant
            i <= panes@.len(),
            all == texts(panes@),
            counts@ == tally(seen + shown_panes(host_tag@, all.take(i as int))),
            seen.len() + shown_panes(host_tag@, all).len() <= u32::MAX,
        decreases panes@.len() - i,
    {
        let session = &panes[i];
        let ghost before = seen + shown_panes(host_tag@, all.take(i as int));
        proof {
            assert(all.take(i + 1).drop_last() == all.take(i as int));
            assert(all.take(i + 1).last() == session@);
            lemma_shown_panes_grow(host_tag@, all, i + 1);
        }
        if !same_text(session.as_str(), "_os_stash") {
            let name = namespaced_session(host_tag, session.as_str());
            let ghost after = seen + shown_panes(host_tag@, all.take(i + 1));
            proof {
                assert(after =~= before.push(name@));
                assert(after.drop_last() =~= before);
                if tally(before).contains_key(name@) {
                    lemma_tally_bound(before, name@);
                }
            }
            let count: u32 = match counts.get(name.as_str()) {
                Some(count) => *count + 1,
                None => 1,
            };
            let _ = counts.insert(name, count);
        }
        i += 1;
    }
    assert(all.take(all.len() as int) == all);
}

/// More panes are never shown as fewer.
proof fn lemma_shown_panes_grow(host_tag: Seq<char>, panes: Seq<Seq<char>>, n: int)
    requires
        0 <= n <= panes.len(),
    ensures
        shown_panes(host_tag, panes.take(n)).len() <= shown_panes(host_tag, panes).len(),
    decreases panes.len(),
{
    if n == panes.len() {
        assert(panes.take(n) == panes);
    } else {
        lemma_shown_panes_grow(host_tag, panes.drop_last(), n);
        assert(panes.drop_last().take(n) == panes.take(n));
    }
}

/// More hosts never have fewer panes.
proof fn lemma_all_panes_grow(hosts: Seq<HostPanes>, n: int)
    requires
        0 <= n <= hosts.len(),
    ensures
        all_panes(hosts.take(n)).len() <= all_panes(hosts).len(),
    decreases hosts.len(),
{
    if n == hosts.len() {
        assert(hosts.take(n) == hosts);
    } else {
        lemma_all_panes_grow(hosts.drop_last(), n);
        assert(hosts.drop_last().take(n) == hosts.take(n));
    }
}

impl RemoteTmuxProvider {
    /// The sessions of the hosts, given what each of them lists.
    pub fn list_sessions(&self, hosts: &Vec<HostSessions>) -> (sessions: Vec<MuxSessionInfo>)
        ensures
            session_views(sessions@) == all_sessions(hosts@),
    {
        let mut sessions: Vec<MuxSessionInfo> = Vec::new();
        let mut i: usize = 0;
        assert(session_views(sessions@) =~= all_sessions(hosts@.take(0)));
        while i < hosts.len()
            invariant
                i <= hosts@.len(),
                session_views(sessions@) == all_sessions(hosts@.take(i as int)),
            decreases hosts@.len() - i,
        {
            let host = &hosts[i];
            proof {
                assert(hosts@.take(i + 1).drop_last() == hosts@.take(i as int));
                assert(hosts@.take(i + 1).last() == *host);
            }
            if let Some(listed) = &host.sessions {
                add_shown(&mut sessions, host.host_tag.as_str(), listed);
            }
            i += 1;
        }
        assert(hosts@.take(hosts@.len() as int) == hosts@);
        sessions
    }

    /// The number of panes of each session, given the panes of each host.
    pub fn get_all_pane_counts(&self, hosts: &Vec<HostPanes>) -> (counts: TextMap<u32>)
        requires
            all_panes(hosts@).len() <= u32::MAX,
        ensures
            counts@ == tally(all_panes(hosts@)),
    {
        let mut counts: TextMap<u32> = TextMap::new();
        let mut i: usize = 0;
        while i < hosts.len()
            invariant
                i <= hosts@.len(),
                counts@ == tally(all_panes(hosts@.take(i as int))),
                all_panes(hosts@).len() <= u32::MAX,
            decreases hosts@.len() - i,
        {
            let host = &hosts[i];
            proof {
                assert(hosts@.take(i + 1).drop_last() == hosts@.take(i as int));
                assert(hosts@.take(i + 1).last() == *host);
                lemma_all_panes_grow(hosts@, i + 1);
            }
            if let Some(panes) = &host.pane_sessions {
                count_panes(
                    &mut counts,
                    host.host_tag.as_str(),
                    panes,
                    Ghost(all_panes(hosts@.take(i as int))),
                );
            }
            i += 1;
        }
        assert(hosts@.take(hosts@.len() as int) == hosts@);
        counts
    }
}

// ---------------------------------------------------------------------------
// Commands for one session.
// ---------------------------------------------------------------------------

/// The command that tells a host to kill a session.
pub open spec fn kill_args(session: Seq<char>) -> Seq<Seq<char>> {
    seq!["kill-session"@, "-t"@, exact_target(session)]
}

/// The command that asks a host for the directory of a session.
pub open spec fn dir_args(session: Seq<char>) -> Seq<Seq<char>> {
    seq!["display-message"@, "-p"@, "-t"@, exact_target(session), "#{pane_current_path}"@]
}

/// The filter that keeps the local panes that show a host.
pub open spec fn host_filter(host_tag: Seq<char>) -> Seq<char> {
    "#{==:#{@remote-host},"@ + host_tag + "}"@
}

/// The command that lists the local panes that show a host.
pub open spec fn local_panes_args(host_tag: Seq<char>) -> Seq<Seq<char>> {
    seq![
        "list-panes"@,
        "-a"@,
        "-f"@,
        host_filter(host_tag),
        "-F"@,
        "#{pane_id}\t#{session_name}\t#{window_id}"@,
    ]
}

/// The command that lists the clients of a host.
pub open spec fn remote_clients_args() -> Seq<Seq<char>> {
    seq!["list-clients"@, "-F"@, "#{client_tty}"@]
}

/// The command that switches a local client to a session.
pub open spec fn switch_client_args(session: Seq<char>, client_tty: Option<Seq<char>>) -> Seq<
    Seq<char>,
> {
    match client_tty {
        Some(tty) => seq!["switch-client"@, "-c"@, tty, "-t"@, session],
        None => seq!["switch-client"@, "-t"@, session],
    }
}

/// The local commands that bring the first pane of a list to the front: none
/// where the list could not be had or holds no pane.
pub open spec fn local_switch(
    ok: bool,
    stdout: Seq<char>,
    client_tty: Option<Seq<char>>,
) -> Seq<Seq<Seq<char>>> {
    match first_host_pane(lines(stdout)) {
        Some((pane_id, session, window_id)) => if ok {
            seq![
                switch_client_args(session, client_tty),
                seq!["select-window"@, "-t"@, window_id],
                seq!["select-pane"@, "-t"@, pane_id],
            ]
        } else {
            Seq::empty()
        },
        None => Seq::empty(),
    }
}

/// The command that switches the first client of a host to a session: none
/// where the clients could not be had or there are none.
pub open spec fn remote_switch(ok: bool, stdout: Seq<char>, session: Seq<char>) -> Option<
    Seq<Seq<char>>,
> {
    match first_solid_line(lines(stdout)) {
        Some(tty) => if ok {
            Some(seq!["switch-client"@, "-c"@, tty, "-t"@, exact_target(session)])
        } else {
            None
        },
        None => None,
    }
}

/// The texts of a list of commands.
pub open spec fn commands(list: Seq<Vec<String>>) -> Seq<Seq<Seq<char>>> {
    list.map_values(|args: Vec<String>| texts(args@))
}

/// A switch to a remote session that is under way.
#[derive(Debug)]
pub struct RemoteSwitch {
    host_tag: String,
    session_name: String,
    client_tty: Option<String>,
}

impl RemoteSwitch {
    /// The host that is switched to.
    pub closed spec fn host(&self) -> Seq<char> {
        self.host_tag@
    }

    /// The session that is switched to.
    pub closed spec fn session(&self) -> Seq<char> {
        self.session_name@
    }

    /// The local client that is switched, where it is known.
    pub closed spec fn tty(&self) -> Option<Seq<char>> {
        text_of(self.client_tty)
    }

    /// The host that is switched to.
    pub fn host_tag(&self) -> (host_tag: &str)
        ensures
            host_tag@ == self.host(),
    {
        self.host_tag.as_str()
    }

    /// The local command to begin with.
    pub fn local_query(&self) -> (args: Vec<String>)
        ensures
            texts(args@) == local_panes_args(self.host()),
    {
        let mut filter = "#{==:#{@remote-host},".to_string();
        filter.append(self.host_tag.as_str());
        filter.append("}");
        let args = vec![
            "list-panes".to_string(),
            "-a".to_string(),
            "-f".to_string(),
            filter,
            "-F".to_string(),
            "#{pane_id}\t#{session_name}\t#{window_id}".to_string(),
        ];
        assert(texts(args@) =~= local_panes_args(self.host()));
        args
    }

    /// The local commands that follow the answer to the local query.
    pub fn local_commands(&self, output: &CommandOutput) -> (list: Vec<Vec<String>>)
        ensures
            commands(list@) == local_switch(output.ok, output.stdout@, self.tty()),
    {
        let mut list: Vec<Vec<String>> = Vec::new();
        assert(commands(list@) =~= Seq::empty());
        if !output.ok {
            return list;
        }
        if let Some((pane_id, session, window_id)) = find_host_pane(output.stdout.as_str()) {
            let switch = match &self.client_tty {
                Some(tty) => vec![
                    "switch-client".to_string(),
                    "-c".to_string(),
                    tty.clone(),
                    "-t".to_string(),
                    session,
                ],
                None => vec!["switch-client".to_string(), "-t".to_string(), session],
            };
            assert(texts(switch@) =~= switch_client_args(session@, self.tty()));
            let window = vec!["select-window".to_string(), "-t".to_string(), window_id];
            assert(texts(window@) =~= seq!["select-window"@, "-t"@, window_id@]);
            let pane = vec!["select-pane".to_string(), "-t".to_string(), pane_id];
            assert(texts(pane@) =~= seq!["select-pane"@, "-t"@, pane_id@]);
            list.push(switch);
            list.push(window);
            list.push(pane);
            assert(commands(list@) =~= local_switch(output.ok, output.stdout@, self.tty()));
        }
        list
    }

    /// The position of the host that is switched to among the discovered ones.
    pub fn remote_host(&self, discovered: &Vec<String>) -> (host: Option<usize>)
        ensures
            match host {
                Some(i) => i < discovered@.len() && position(texts(discovered@), self.host())
                    == Some(i as int),
                None => position(texts(discovered@), self.host()) is None,
            },
    {
        position_of(discovered, self.host_tag.as_str())
    }

    /// The command for the host, whatever came of the local commands.
    pub fn remote_query(&self) -> (args: Vec<String>)
        ensures
            texts(args@) == remote_clients_args(),
    {
        let args = vec!["list-clients".to_string(), "-F".to_string(), "#{client_tty}".to_string()];
        assert(texts(args@) =~= remote_clients_args());
        args
    }

    /// The command for the host that follows its answer.
    pub fn remote_command(&self, output: &CommandOutput) -> (args: Option<Vec<String>>)
        ensures
            match args {
                Some(args) => remote_switch(output.ok, output.stdout@, self.session()) == Some(
                    texts(args@),
                ),
                None => remote_switch(output.ok, output.stdout@, self.session()) is None,
            },
    {
        if !output.ok {
            return None;
        }
        match find_solid_line(output.stdout.as_str()) {
            Some(tty) => {
                let args = vec![
                    "switch-client".to_string(),
                    "-c".to_string(),
                    tty,
                    "-t".to_string(),
                    exact_session_target(self.session_name.as_str()),
                ];
                assert(texts(args@) =~= seq![
                    "switch-client"@,
                    "-c"@,
                    tty@,
                    "-t"@,
                    exact_target(self.session()),
                ]);
                Some(args)
            },
            None => None,
        }
    }
}

/// The host and the arguments of an optional command.
pub open spec fn command_view(command: Option<RemoteCommand>) -> Option<(int, Seq<Seq<char>>)> {
    match command {
        Some(command) => Some((command.host as int, texts(command.args@))),
        None => None,
    }
}

/// The command that kills a session, with the position of its host.
pub open spec fn kill_command(name: Seq<char>, discovered: Seq<Seq<char>>) -> Option<
    (int, Seq<Seq<char>>),
> {
    match reached(name, discovered) {
        Some((host, session)) => Some((host, kill_args(session))),
        None => None,
    }
}

/// The command that asks for the directory of a session, with the position of
/// its host.
pub open spec fn dir_command(name: Seq<char>, discovered: Seq<Seq<char>>) -> Option<
    (int, Seq<Seq<char>>),
> {
    match reached(name, discovered) {
        Some((host, session)) => Some((host, dir_args(session))),
        None => None,
    }
}

/// The session whose panes are counted, as tmux takes it, with the position of
/// its host.
pub open spec fn counted_target(name: Seq<char>, discovered: Seq<Seq<char>>) -> Option<
    (int, Seq<char>),
> {
    match reached(name, discovered) {
        Some((host, session)) => Some((host, exact_target(session))),
        None => None,
    }
}

/// The directory that the answer to a directory query gives.
pub open spec fn answered_dir(output: CommandOutput) -> Seq<char> {
    if output.ok {
        output.stdout@
    } else {
        Seq::empty()
    }
}

impl RemoteTmuxProvider {
    /// Begins to switch to a session. A name that is not of the form
    /// `host/session` is no remote session, and nothing is run for it.
    pub fn switch_session(&self, name: &str, client_tty: Option<&str>) -> (switch: Option<
        RemoteSwitch,
    >)
        ensures
            match switch {
                Some(switch) => split_namespaced(name@) == Some((switch.host(), switch.session()))
                    && switch.tty() == str_of(client_tty),
                None => split_namespaced(name@) is None,
            },
    {
        match split_namespaced_session(name) {
            Some((host_tag, session_name)) => Some(
                RemoteSwitch { host_tag, session_name, client_tty: own_text(client_tty) },
            ),
            None => None,
        }
    }

    /// The command that kills a session.
    pub fn kill_session(&self, name: &str, discovered: &Vec<String>) -> (command: Option<
        RemoteCommand,
    >)
        ensures
            command_view(command) == kill_command(name@, texts(discovered@)),
    {
        match self.reach(name, discovered) {
            Some((host, session)) => {
                let args = vec![
                    "kill-session".to_string(),
                    "-t".to_string(),
                    exact_session_target(session.as_str()),
                ];
                assert(texts(args@) =~= kill_args(session@));
                Some(RemoteCommand { host, args })
            },
            None => None,
        }
    }

    /// The command that asks for the directory of a session.
    pub fn session_dir_query(&self, name: &str, discovered: &Vec<String>) -> (command: Option<
        RemoteCommand,
    >)
        ensures
            command_view(command) == dir_command(name@, texts(discovered@)),
    {
        match self.reach(name, discovered) {
            Some((host, session)) => {
                let args = vec![
                    "display-message".to_string(),
                    "-p".to_string(),
                    "-t".to_string(),
                    exact_session_target(session.as_str()),
                    "#{pane_current_path}".to_string(),
                ];
                assert(texts(args@) =~= dir_args(session@));
                Some(RemoteCommand { host, args })
            },
            None => None,
        }
    }

    /// The directory of a session, given the answer to the query for it, or
    /// none where it could not be asked.
    pub fn get_session_dir(&self, answer: Option<&CommandOutput>) -> (dir: String)
        ensures
            dir@ == match answer {
                Some(output) => answered_dir(*output),
                None => Seq::empty(),
            },
    {
        match answer {
            Some(output) => if output.ok {
                output.stdout.clone()
            } else {
                String::new()
            },
            None => String::new(),
        }
    }

    /// The host and the exact target whose panes are counted for a session.
    pub fn pane_count_target(&self, name: &str, discovered: &Vec<String>) -> (target: Option<
        (usize, String),
    >)
        ensures
            counted_target(name@, texts(discovered@)) == match target {
                Some((host, target)) => Some((host as int, target@)),
                None => None,
            },
    {
        match self.reach(name, discovered) {
            Some((host, session)) => Some((host, exact_session_target(session.as_str()))),
            None => None,
        }
    }

    /// The number of panes of a session, given how many its host lists, or
    /// none where it could not be asked.
    pub fn get_pane_count(&self, listed: Option<usize>) -> (count: u32)
        ensures
            count == match listed {
                Some(listed) => listed as u32,
                None => 0,
            },
    {
        match listed {
            Some(listed) => listed as u32,
            None => 0,
        }
    }

    /// No remote session is the current one.
    pub fn get_current_session(&self) -> (name: Option<String>)
        ensures
            name is None,
    {
        None
    }

    /// The provider has no client of its own.
    pub fn get_client_tty(&self) -> (tty: String)
        ensures
            tty@ == Seq::<char>::empty(),
    {
        String::new()
    }
}

// ---------------------------------------------------------------------------
// Laws.
// ---------------------------------------------------------------------------

/// The full name of a session of a host leads back to that host and that
/// session, whatever slashes the name of the session has.
pub proof fn namespaced_names_split_back(host_tag: Seq<char>, session: Seq<char>)
    requires
        host_tag.len() > 0,
        !host_tag.contains('/'),
        session.len() > 0,
    ensures
        split_namespaced(namespaced(host_tag, session)) == Some((host_tag, session)),
{
    let name = namespaced(host_tag, session);
    let at = host_tag.len() as int;
    assert(name.subrange(at, at + 1) =~= seq!['/']);
    assert forall|j: int| 0 <= j < at implies !occurs_at(name, seq!['/'], j) by {
        assert(name.subrange(j, j + 1)[0] == host_tag[j]);
        assert(host_tag.contains(host_tag[j]));
        assert(seq!['/'][0] == '/');
    }
    lemma_find_is(name, seq!['/'], at);
    assert(name.take(at) =~= host_tag);
    assert(name.skip(at + 1) =~= session);
}

/// A name without a slash is no remote session.
pub proof fn bare_names_are_local(name: Seq<char>)
    requires
        forall|i: int| 0 <= i < name.len() ==> #[trigger] name[i] != '/',
    ensures
        split_namespaced(name) is None,
{
    assert forall|j: int| 0 <= j <= name.len() implies !occurs_at(name, seq!['/'], j) by {
        if j < name.len() {
            assert(name.subrange(j, j + 1)[0] == name[j]);
            assert(seq!['/'][0] == '/');
        }
    }
    lemma_find_none(name, seq!['/']);
}

/// A command for a session goes to the host that the name of the session
/// gives, and to no other.
pub proof fn commands_reach_the_named_host(name: Seq<char>, discovered: Seq<Seq<char>>)
    ensures
        reached(name, discovered) matches Some((host, session)) ==> 0 <= host < discovered.len()
            && name == namespaced(discovered[host], session),
{
    if let Some((host_tag, session)) = split_namespaced(name) {
        lemma_position(discovered, host_tag);
        lemma_find(name, seq!['/']);
        let at = find(name, seq!['/'])->Some_0;
        assert(name.subrange(at, at + 1)[0] == name[at]);
        assert(seq!['/'][0] == '/');
        assert(name =~= name.take(at) + seq!['/'] + name.skip(at + 1));
    }
}

/// Every session under its full name leads to its host and to itself, as long
/// as the host is there.
pub proof fn full_names_reach_their_sessions(
    host_tag: Seq<char>,
    session: Seq<char>,
    discovered: Seq<Seq<char>>,
)
    requires
        host_tag.len() > 0,
        !host_tag.contains('/'),
        session.len() > 0,
        discovered.contains(host_tag),
    ensures
        reached(namespaced(host_tag, session), discovered) matches Some((host, found))
            && discovered[host] == host_tag && found == session,
{
    namespaced_names_split_back(host_tag, session);
    lemma_position(discovered, host_tag);
}

/// The host of every socket that is discovered has a valid tag, which is not
/// empty and has no slash in it, and the tag gives the name of the socket file
/// back.
pub proof fn discovered_tags_name_their_files(user: Seq<char>, file_name: Seq<char>)
    ensures
        host_tag_of(user, file_name) matches Some(tag) ==> valid_host_tag(tag) && tag.len() > 0
            && !tag.contains('/') && file_name == socket_prefix(user) + tag + ".sock"@,
{
    if let Some(tag) = host_tag_of(user, file_name) {
        if tag.contains('/') {
            let i = choose|i: int| 0 <= i < tag.len() && tag[i] == '/';
            assert(host_tag_char(tag[i]));
        }
        let prefix = socket_prefix(user);
        let rest = file_name.skip(prefix.len() as int);
        assert(file_name =~= prefix + rest) by {
            assert(file_name.subrange(0, prefix.len() as int) == prefix);
            assert(file_name =~= file_name.subrange(0, prefix.len() as int) + rest);
        }
        let suffix = ".sock"@;
        assert(rest.subrange(rest.len() - suffix.len(), rest.len() as int) == suffix);
        assert(rest =~= rest.take(rest.len() - suffix.len()) + rest.subrange(
            rest.len() - suffix.len(),
            rest.len() as int,
        ));
        assert(file_name =~= prefix + tag + suffix);
    }
}

/// The count of a name is the number of times it occurs, and a name that does
/// not occur has none.
pub proof fn tally_counts_occurrences(names: Seq<Seq<char>>, name: Seq<char>)
    requires
        names.len() <= u32::MAX,
    ensures
        tally(names).contains_key(name) <==> names.contains(name),
        tally(names).contains_key(name) ==> tally(names)[name] == names.to_multiset().count(name),
    decreases names.len(),
{
    broadcast use vstd::seq_lib::group_to_multiset_ensures;

    if names.len() > 0 {
        let earlier = names.drop_last();
        tally_counts_occurrences(earlier, name);
        assert(names =~= earlier.push(names.last()));
        assert(names.contains(name) == (earlier.contains(name) || names.last() == name)) by {
            if earlier.contains(name) {
                let i = choose|i: int| 0 <= i < earlier.len() && earlier[i] == name;
                assert(names[i] == name);
            }
            if names.last() == name {
                assert(names[names.len() - 1] == name);
            }
        }
        earlier.to_multiset_ensures();
        if tally(earlier).contains_key(name) {
            lemma_tally_bound(earlier, name);
        }
    }
}

/// Whether a listed session is shown in this way: it is not the stash, and is
/// shown under its name with the host in front, with its own time, directory
/// and windows.
pub open spec fn shown_as(host_tag: Seq<char>, session: TmuxSession, shown: MuxSessionView) -> bool {
    &&& session.name@ != "_os_stash"@
    &&& shown.name == host_tag + seq!['/'] + session.name@
    &&& shown.created_at == session.created_at
    &&& shown.dir == session.dir@
    &&& shown.windows == session.window_count
}

/// Whether a host has answered with a session that is shown in this way.
pub open spec fn comes_from(host: HostSessions, shown: MuxSessionView) -> bool {
    host.sessions is Some && exists|j: int|
        0 <= j < host.sessions->0@.len() && shown_as(
            host.host_tag@,
            #[trigger] host.sessions->0@[j],
            shown,
        )
}

/// The sessions that are shown are those that the answering hosts list,
/// without the stash sessions.
pub proof fn shown_sessions_come_from_their_hosts(
    hosts: Seq<HostSessions>,
    shown: MuxSessionView,
)
    ensures
        all_sessions(hosts).contains(shown) <==> exists|i: int|
            0 <= i < hosts.len() && comes_from(#[trigger] hosts[i], shown),
    decreases hosts.len(),
{
    if hosts.len() > 0 {
        let front = hosts.drop_last();
        let last = hosts.last();
        shown_sessions_come_from_their_hosts(front, shown);
        assert(hosts[hosts.len() - 1] == last);
        assert forall|i: int| 0 <= i < front.len() implies #[trigger] front[i] == hosts[i] by {}
        match last.sessions {
            Some(sessions) => {
                lemma_shown_sessions(last, sessions@, shown);
                let more = shown_sessions(last.host_tag@, sessions@);
                lemma_contains_sum(all_sessions(front), more, shown);
                assert(comes_from(last, shown) == more.contains(shown));
            },
            None => {
                assert(!comes_from(last, shown));
            },
        }
        if exists|i: int| 0 <= i < hosts.len() && comes_from(#[trigger] hosts[i], shown) {
            let i = choose|i: int| 0 <= i < hosts.len() && comes_from(#[trigger] hosts[i], shown);
            if i < front.len() {
                assert(comes_from(front[i], shown));
            }
        }
        if exists|i: int| 0 <= i < front.len() && comes_from(#[trigger] front[i], shown) {
            let i = choose|i: int| 0 <= i < front.len() && comes_from(#[trigger] front[i], shown);
            assert(comes_from(hosts[i], shown));
        }
    }
}

proof fn lemma_contains_sum<A>(left: Seq<A>, right: Seq<A>, item: A)
    ensures
        (left + right).contains(item) <==> left.contains(item) || right.contains(item),
{
    let sum = left + right;
    if left.contains(item) {
        let i = choose|i: int| 0 <= i < left.len() && left[i] == item;
        assert(sum[i] == item);
    }
    if right.contains(item) {
        let i = choose|i: int| 0 <= i < right.len() && right[i] == item;
        assert(sum[left.len() + i] == item);
    }
    if sum.contains(item) {
        let i = choose|i: int| 0 <= i < sum.len() && sum[i] == item;
        if i < left.len() {
            assert(left[i] == item);
        } else {
            assert(right[i - left.len()] == item);
        }
    }
}

proof fn lemma_shown_sessions(
    host: HostSessions,
    sessions: Seq<TmuxSession>,
    shown: MuxSessionView,
)
    ensures
        shown_sessions(host.host_tag@, sessions).contains(shown) <==> exists|j: int|
            0 <= j < sessions.len() && shown_as(host.host_tag@, #[trigger] sessions[j], shown),
    decreases sessions.len(),
{
    let tag = host.host_tag@;
    if sessions.len() > 0 {
        let front = sessions.drop_last();
        let last = sessions.last();
        let n = sessions.len() - 1;
        lemma_shown_sessions(host, front, shown);
        assert(sessions[n] == last);
        let earlier = shown_sessions(tag, front);
        let one = MuxSessionView {
            name: namespaced(tag, last.name@),
            created_at: last.created_at,
            dir: last.dir@,
            windows: last.window_count,
        };
        assert(earlier.push(one) =~= earlier + seq![one]);
        lemma_contains_sum(earlier, seq![one], shown);
        assert(seq![one].contains(shown) <==> shown == one) by {
            assert(seq![one][0] == one);
        }
        assert(last.name@ != "_os_stash"@ ==> (shown_as(tag, last, shown) <==> shown == one));
        if earlier.contains(shown) {
            let j = choose|j: int|
                0 <= j < front.len() && shown_as(tag, #[trigger] front[j], shown);
            assert(sessions[j] == front[j]);
        }
        if exists|j: int| 0 <= j < sessions.len() && shown_as(tag, #[trigger] sessions[j], shown) {
            let j = choose|j: int|
                0 <= j < sessions.len() && shown_as(tag, #[trigger] sessions[j], shown);
            if j < n {
                assert(front[j] == sessions[j]);
            }
        }
    }
}

/// The hosts' sessions stand one host after the other, and a host that does
/// not answer changes nothing, wherever it stands.
pub proof fn silent_hosts_change_nothing(
    before: Seq<HostSessions>,
    silent: HostSessions,
    after: Seq<HostSessions>,
)
    requires
        silent.sessions is None,
    ensures
        all_sessions(before + after) == all_sessions(before) + all_sessions(after),
        all_sessions(before + seq![silent] + after) == all_sessions(before + after),
    decreases after.len(),
{
    if after.len() == 0 {
        assert(before + after =~= before);
        assert(before + seq![silent] + after =~= before.push(silent));
        assert(before.push(silent).drop_last() =~= before);
        assert(all_sessions(before) + all_sessions(after) =~= all_sessions(before));
    } else {
        let front = after.drop_last();
        silent_hosts_change_nothing(before, silent, front);
        assert((before + after).drop_last() =~= before + front);
        assert((before + seq![silent] + after).drop_last() =~= before + seq![silent] + front);
        match after.last().sessions {
            Some(sessions) => {
                let more = shown_sessions(after.last().host_tag@, sessions@);
                assert(all_sessions(before) + all_sessions(front) + more =~= all_sessions(before)
                    + (all_sessions(front) + more));
            },
            None => {},
        }
    }
}

/// A host's sessions are shown in the order in which it lists them: those
/// that it lists first come first.
pub proof fn shown_sessions_keep_their_order(
    host_tag: Seq<char>,
    first: Seq<TmuxSession>,
    more: Seq<TmuxSession>,
)
    ensures
        shown_sessions(host_tag, first + more) == shown_sessions(host_tag, first) + shown_sessions(
            host_tag,
            more,
        ),
    decreases more.len(),
{
    if more.len() == 0 {
        assert(first + more =~= first);
        assert(shown_sessions(host_tag, first) + shown_sessions(host_tag, more) =~= shown_sessions(
            host_tag,
            first,
        ));
    } else {
        shown_sessions_keep_their_order(host_tag, first, more.drop_last());
        assert((first + more).drop_last() =~= first + more.drop_last());
        assert(shown_sessions(host_tag, first + more) =~= shown_sessions(host_tag, first)
            + shown_sessions(host_tag, more));
    }
}

/// The panes that are counted are those of the answering hosts that are not in
/// a stash session, each under its session's full name.
pub proof fn counted_panes_come_from_their_hosts(hosts: Seq<HostPanes>, name: Seq<char>)
    ensures
        all_panes(hosts).contains(name) <==> exists|i: int, j: int|
            0 <= i < hosts.len() && hosts[i].pane_sessions is Some && 0 <= j
                < hosts[i].pane_sessions->0@.len() && #[trigger] hosts[i].pane_sessions->0@[j]@
                != "_os_stash"@ && name == hosts[i].host_tag@ + seq!['/']
                + hosts[i].pane_sessions->0@[j]@,
    decreases hosts.len(),
{
    if hosts.len() > 0 {
        let front = hosts.drop_last();
        let last = hosts.last();
        let n = hosts.len() - 1;
        counted_panes_come_from_their_hosts(front, name);
        assert(hosts[n] == last);
        assert forall|i: int| 0 <= i < front.len() implies #[trigger] front[i] == hosts[i] by {}
        match last.pane_sessions {
            Some(panes) => {
                let more = shown_panes(last.host_tag@, texts(panes@));
                lemma_contains_sum(all_panes(front), more, name);
                lemma_shown_panes(last.host_tag@, texts(panes@), name);
                if more.contains(name) {
                    let j = choose|j: int|
                        0 <= j < texts(panes@).len() && #[trigger] texts(panes@)[j] != "_os_stash"@
                            && name == last.host_tag@ + seq!['/'] + texts(panes@)[j];
                    assert(hosts[n].pane_sessions->0@[j]@ == texts(panes@)[j]);
                }
            },
            None => {},
        }
        if all_panes(front).contains(name) {
            let (i, j) = choose|i: int, j: int|
                0 <= i < front.len() && front[i].pane_sessions is Some && 0 <= j
                    < front[i].pane_sessions->0@.len() && #[trigger] front[i].pane_sessions->0@[j]@
                    != "_os_stash"@ && name == front[i].host_tag@ + seq!['/']
                    + front[i].pane_sessions->0@[j]@;
            assert(hosts[i].pane_sessions->0@[j]@ != "_os_stash"@);
        }
        if exists|i: int, j: int|
            0 <= i < hosts.len() && hosts[i].pane_sessions is Some && 0 <= j
                < hosts[i].pane_sessions->0@.len() && #[trigger] hosts[i].pane_sessions->0@[j]@
                != "_os_stash"@ && name == hosts[i].host_tag@ + seq!['/']
                + hosts[i].pane_sessions->0@[j]@ {
            let (i, j) = choose|i: int, j: int|
                0 <= i < hosts.len() && hosts[i].pane_sessions is Some && 0 <= j
                    < hosts[i].pane_sessions->0@.len() && #[trigger] hosts[i].pane_sessions->0@[j]@
                    != "_os_stash"@ && name == hosts[i].host_tag@ + seq!['/']
                    + hosts[i].pane_sessions->0@[j]@;
            if i < n {
                assert(front[i].pane_sessions->0@[j]@ != "_os_stash"@);
            } else {
                assert(texts(last.pane_sessions->0@)[j] != "_os_stash"@);
            }
        }
    }
}

proof fn lemma_shown_panes(host_tag: Seq<char>, panes: Seq<Seq<char>>, name: Seq<char>)
    ensures
        shown_panes(host_tag, panes).contains(name) <==> exists|j: int|
            0 <= j < panes.len() && #[trigger] panes[j] != "_os_stash"@ && name == host_tag
                + seq!['/'] + panes[j],
    decreases panes.len(),
{
    if panes.len() > 0 {
        let front = panes.drop_last();
        lemma_shown_panes(host_tag, front, name);
        assert(panes[panes.len() - 1] == panes.last());
        let earlier = shown_panes(host_tag, front);
        let one = namespaced(host_tag, panes.last());
        assert(earlier.push(one) =~= earlier + seq![one]);
        lemma_contains_sum(earlier, seq![one], name);
        assert(seq![one].contains(name) <==> name == one) by {
            assert(seq![one][0] == one);
        }
        if exists|j: int|
            0 <= j < front.len() && #[trigger] front[j] != "_os_stash"@ && name == host_tag
                + seq!['/'] + front[j] {
            let j = choose|j: int|
                0 <= j < front.len() && #[trigger] front[j] != "_os_stash"@ && name == host_tag
                    + seq!['/'] + front[j];
            assert(panes[j] == front[j]);
        }
        if exists|j: int|
            0 <= j < panes.len() && #[trigger] panes[j] != "_os_stash"@ && name == host_tag
                + seq!['/'] + panes[j] {
            let j = choose|j: int|
                0 <= j < panes.len() && #[trigger] panes[j] != "_os_stash"@ && name == host_tag
                    + seq!['/'] + panes[j];
            if j < front.len() {
                assert(front[j] == panes[j]);
            }
        }
    }
}

/// The panes of two lists of hosts together are the panes of the one and
/// the panes of the other, and every pane outside the stash counts once.
pub proof fn pane_lists_come_one_after_the_other(
    before: Seq<HostPanes>,
    host: HostPanes,
    after: Seq<HostPanes>,
    first: Seq<Seq<char>>,
    pane: Seq<char>,
)
    ensures
        all_panes(before + after) == all_panes(before) + all_panes(after),
        host.pane_sessions is None ==> all_panes(before + seq![host] + after) == all_panes(
            before + after,
        ),
        pane != "_os_stash"@ ==> shown_panes(host.host_tag@, first.push(pane)) == shown_panes(
            host.host_tag@,
            first,
        ).push(host.host_tag@ + seq!['/'] + pane),
        pane == "_os_stash"@ ==> shown_panes(host.host_tag@, first.push(pane)) == shown_panes(
            host.host_tag@,
            first,
        ),
    decreases after.len(),
{
    assert(first.push(pane).drop_last() =~= first);
    if after.len() == 0 {
        assert(before + after =~= before);
        assert(before + seq![host] + after =~= before.push(host));
        assert(before.push(host).drop_last() =~= before);
        assert(all_panes(before) + all_panes(after) =~= all_panes(before));
    } else {
        let front = after.drop_last();
        pane_lists_come_one_after_the_other(before, host, front, first, pane);
        assert((before + after).drop_last() =~= before + front);
        assert((before + seq![host] + after).drop_last() =~= before + seq![host] + front);
        match after.last().pane_sessions {
            Some(panes) => {
                let more = shown_panes(after.last().host_tag@, texts(panes@));
                assert(all_panes(before) + all_panes(front) + more =~= all_panes(before) + (
                all_panes(front) + more));
            },
            None => {},
        }
    }
}

/// A line names a pane just where it is a pane, a tab, a session, a tab and a
/// window, none of them empty, with no tab in the first two.
pub proof fn host_panes_are_tabbed(
    line: Seq<char>,
    pane: Seq<char>,
    session: Seq<char>,
    window: Seq<char>,
)
    ensures
        host_pane(line) == Some((pane, session, window)) <==> {
            &&& line == pane + seq!['\t'] + session + seq!['\t'] + window
            &&& 0 < pane.len() && !pane.contains('\t')
            &&& 0 < session.len() && !session.contains('\t')
            &&& 0 < window.len()
        },
{
    lemma_split_once_char(line, '\t', pane, session + seq!['\t'] + window);
    lemma_split_once_char(session + seq!['\t'] + window, '\t', session, window);
    assert(pane + seq!['\t'] + (session + seq!['\t'] + window) =~= pane + seq!['\t'] + session
        + seq!['\t'] + window);
    if host_pane(line) == Some((pane, session, window)) {
        if let Some((_, rest)) = split_once(line, seq!['\t']) {
            lemma_split_once_char(line, '\t', pane, rest);
            lemma_split_once_char(rest, '\t', session, window);
        }
    }
}

/// The pane that is switched to is the first that any line names, and no pane
/// is found where no line names one.
pub proof fn the_first_named_pane_is_found(lines: Seq<Seq<char>>, at: int)
    ensures
        0 <= at < lines.len() && host_pane(lines[at]) is Some && (forall|i: int|
            0 <= i < at ==> host_pane(#[trigger] lines[i]) is None) ==> first_host_pane(lines)
            == host_pane(lines[at]),
        first_host_pane(lines) is None <==> forall|i: int|
            0 <= i < lines.len() ==> host_pane(#[trigger] lines[i]) is None,
    decreases lines.len(),
{
    if lines.len() > 0 {
        let rest = lines.drop_first();
        the_first_named_pane_is_found(rest, at - 1);
        assert forall|i: int| 0 <= i < rest.len() implies #[trigger] rest[i] == lines[i + 1] by {}
        if host_pane(lines[0]) is None {
            if forall|i: int| 0 <= i < rest.len() ==> host_pane(#[trigger] rest[i]) is None {
                assert forall|i: int| 0 <= i < lines.len() implies host_pane(
                    #[trigger] lines[i],
                ) is None by {
                    if i > 0 {
                        assert(rest[i - 1] == lines[i]);
                    }
                }
            }
        }
    }
}

/// The client that is switched is the first that any line names, and none is
/// where all lines are empty.
pub proof fn the_first_solid_line_is_found(lines: Seq<Seq<char>>, at: int)
    ensures
        0 <= at < lines.len() && lines[at].len() > 0 && (forall|i: int|
            0 <= i < at ==> (#[trigger] lines[i]).len() == 0) ==> first_solid_line(lines) == Some(
            lines[at],
        ),
        first_solid_line(lines) is None <==> forall|i: int|
            0 <= i < lines.len() ==> (#[trigger] lines[i]).len() == 0,
    decreases lines.len(),
{
    if lines.len() > 0 {
        let rest = lines.drop_first();
        the_first_solid_line_is_found(rest, at - 1);
        assert forall|i: int| 0 <= i < rest.len() implies #[trigger] rest[i] == lines[i + 1] by {}
        if lines[0].len() == 0 {
            if forall|i: int| 0 <= i < rest.len() ==> (#[trigger] rest[i]).len() == 0 {
                assert forall|i: int| 0 <= i < lines.len() implies (#[trigger] lines[i]).len()
                    == 0 by {
                    if i > 0 {
                        assert(rest[i - 1] == lines[i]);
                    }
                }
            }
        }
    }
}

/// The commands for a remote session name it exactly, so that no session whose
/// name begins like its own is meant.
pub proof fn commands_name_sessions_exactly(session: Seq<char>)
    ensures
        kill_args(session) == seq!["kill-session"@, "-t"@, seq!['='] + session],
        dir_args(session) == seq![
            "display-message"@,
            "-p"@,
            "-t"@,
            seq!['='] + session,
            "#{pane_current_path}"@,
        ],
        exact_target(session) == seq!['='] + session,
{
}

/// A switch looks for the local pane that shows the host, goes to its session,
/// its window and its pane, for the client where one is named; where there is
/// none, or tmux failed, nothing is done locally.
pub proof fn local_switches_go_to_the_pane_of_the_host(
    stdout: Seq<char>,
    client_tty: Option<Seq<char>>,
    pane: Seq<char>,
    session: Seq<char>,
    window: Seq<char>,
    tty: Seq<char>,
    host_tag: Seq<char>,
)
    ensures
        local_switch(false, stdout, client_tty).len() == 0,
        first_host_pane(lines(stdout)) is None ==> local_switch(true, stdout, client_tty).len()
            == 0,
        first_host_pane(lines(stdout)) == Some((pane, session, window)) ==> local_switch(
            true,
            stdout,
            Some(tty),
        ) == seq![
            seq!["switch-client"@, "-c"@, tty, "-t"@, session],
            seq!["select-window"@, "-t"@, window],
            seq!["select-pane"@, "-t"@, pane],
        ],
        first_host_pane(lines(stdout)) == Some((pane, session, window)) ==> local_switch(
            true,
            stdout,
            None,
        ) == seq![
            seq!["switch-client"@, "-t"@, session],
            seq!["select-window"@, "-t"@, window],
            seq!["select-pane"@, "-t"@, pane],
        ],
        local_panes_args(host_tag) == seq![
            "list-panes"@,
            "-a"@,
            "-f"@,
            "#{==:#{@remote-host},"@ + host_tag + "}"@,
            "-F"@,
            "#{pane_id}\t#{session_name}\t#{window_id}"@,
        ],
{
}

/// On the host the first client is switched to the session, named exactly;
/// where there is no client, or tmux failed, none is.
pub proof fn remote_switches_move_the_first_client(
    stdout: Seq<char>,
    session: Seq<char>,
    tty: Seq<char>,
)
    ensures
        remote_switch(false, stdout, session) is None,
        first_solid_line(lines(stdout)) is None ==> remote_switch(true, stdout, session) is None,
        first_solid_line(lines(stdout)) == Some(tty) ==> remote_switch(true, stdout, session)
            == Some(seq!["switch-client"@, "-c"@, tty, "-t"@, seq!['='] + session]),
        remote_clients_args() == seq!["list-clients"@, "-F"@, "#{client_tty}"@],
{
}

/// The directory of a session is what tmux printed, and empty where tmux
/// failed.
pub proof fn failed_answers_give_no_directory(output: CommandOutput)
    ensures
        output.ok ==> answered_dir(output) == output.stdout@,
        !output.ok ==> answered_dir(output).len() == 0,
{
}

/// The hosts that are found are those whose sockets are there, and sockets of
/// other users or with other endings are none. A host's name holds letters,
/// digits, dots, underscores and hyphens of ASCII.
pub proof fn sockets_name_their_hosts(
    user: Seq<char>,
    files: Seq<Seq<char>>,
    file: Seq<char>,
    tag: Seq<char>,
)
    ensures
        host_tag_of(user, file) == Some(tag) <==> file == "inner-tmux-"@ + user + "-"@ + tag
            + ".sock"@ && 0 < tag.len() && forall|i: int|
            0 <= i < tag.len() ==> (97 <= (#[trigger] tag[i]) as int <= 122 || 65 <= tag[i] as int
                <= 90 || 48 <= tag[i] as int <= 57 || tag[i] == '.' || tag[i] == '_' || tag[i]
                == '-'),
        host_tags(user, files).contains(tag) <==> exists|k: int|
            0 <= k < files.len() && host_tag_of(user, #[trigger] files[k]) == Some(tag),
        host_tag_of(user, file) == Some(tag) ==> host_tags(user, files.push(file)) == host_tags(
            user,
            files,
        ).push(tag),
        host_tag_of(user, file) is None ==> host_tags(user, files.push(file)) == host_tags(
            user,
            files,
        ),
    decreases files.len(),
{
    assert(files.push(file).drop_last() =~= files);
    let prefix = socket_prefix(user);
    let end = ".sock"@;
    assert(prefix + (tag + end) =~= "inner-tmux-"@ + user + "-"@ + tag + end);
    stripping_leaves_the_rest(file, prefix, tag + end);
    stripping_leaves_the_rest(tag + end, end, tag);
    if let Some(rest) = strip_prefix(file, prefix) {
        stripping_leaves_the_rest(file, prefix, rest);
        if let Some(found) = strip_suffix(rest, end) {
            stripping_leaves_the_rest(rest, end, found);
        }
        if file == prefix + (tag + end) {
            assert(rest == tag + end);
        }
    }
    assert(valid_host_tag(tag) <==> 0 < tag.len() && forall|i: int|
        0 <= i < tag.len() ==> (97 <= (#[trigger] tag[i]) as int <= 122 || 65 <= tag[i] as int <= 90
            || 48 <= tag[i] as int <= 57 || tag[i] == '.' || tag[i] == '_' || tag[i] == '-')) by {
        if valid_host_tag(tag) {
            assert forall|i: int| 0 <= i < tag.len() implies (97 <= (#[trigger] tag[i]) as int <= 122
                || 65 <= tag[i] as int <= 90 || 48 <= tag[i] as int <= 57 || tag[i] == '.' || tag[i]
                == '_' || tag[i] == '-') by {
                assert(host_tag_char(tag[i]));
            }
        }
    }
    if files.len() > 0 {
        let front = files.drop_last();
        let n = files.len() - 1;
        sockets_name_their_hosts(user, front, file, tag);
        assert(files[n] == files.last());
        let earlier = host_tags(user, front);
        let all = host_tags(user, files);
        if earlier.contains(tag) {
            let k = choose|k: int|
                0 <= k < front.len() && host_tag_of(user, #[trigger] front[k]) == Some(tag);
            assert(files[k] == front[k]);
            let l = choose|l: int| 0 <= l < earlier.len() && earlier[l] == tag;
            assert(all[l] == tag);
        }
        if host_tag_of(user, files.last()) == Some(tag) {
            assert(all[earlier.len() as int] == tag);
        }
        if all.contains(tag) {
            let l = choose|l: int| 0 <= l < all.len() && all[l] == tag;
            if l < earlier.len() {
                assert(earlier[l] == tag);
            }
        }
        if exists|k: int| 0 <= k < files.len() && host_tag_of(user, #[trigger] files[k]) == Some(tag) {
            let k = choose|k: int|
                0 <= k < files.len() && host_tag_of(user, #[trigger] files[k]) == Some(tag);
            if k < n {
                assert(front[k] == files[k]);
            }
        }
    }
}

/// A session of a discovered host is killed, asked for its directory and
/// counted at that host, under its own name and exactly; a name without a host,
/// or with one that was not discovered, is not.
pub proof fn commands_go_to_the_host_of_the_session(
    host_tag: Seq<char>,
    session: Seq<char>,
    discovered: Seq<Seq<char>>,
    host: int,
)
    requires
        0 < host_tag.len() && !host_tag.contains('/'),
        0 < session.len(),
    ensures
        0 <= host < discovered.len() && discovered[host] == host_tag && (forall|i: int|
            0 <= i < host ==> #[trigger] discovered[i] != host_tag) ==> {
            let name = host_tag + seq!['/'] + session;
            &&& kill_command(name, discovered) == Some(
                (host, seq!["kill-session"@, "-t"@, seq!['='] + session]),
            )
            &&& dir_command(name, discovered) == Some(
                (
                    host,
                    seq![
                        "display-message"@,
                        "-p"@,
                        "-t"@,
                        seq!['='] + session,
                        "#{pane_current_path}"@,
                    ],
                ),
            )
            &&& counted_target(name, discovered) == Some((host, seq!['='] + session))
        },
        !discovered.contains(host_tag) ==> {
            let name = host_tag + seq!['/'] + session;
            &&& kill_command(name, discovered) is None
            &&& dir_command(name, discovered) is None
            &&& counted_target(name, discovered) is None
        },
        !session.contains('/') ==> {
            &&& kill_command(session, discovered) is None
            &&& dir_command(session, discovered) is None
            &&& counted_target(session, discovered) is None
        },
{
    let name = host_tag + seq!['/'] + session;
    lemma_split_once_char(name, '/', host_tag, session);
    lemma_split_once_char(session, '/', session, session);
    lemma_position(discovered, host_tag);
    if 0 <= host < discovered.len() && discovered[host] == host_tag && (forall|i: int|
        0 <= i < host ==> #[trigger] discovered[i] != host_tag) {
        assert(discovered.contains(host_tag));
        if let Some(i) = position(discovered, host_tag) {
            if host < i {
                assert(discovered[host] != host_tag);
            } else if i < host {
                assert(discovered[i] != host_tag);
            }
        }
    }
}

/// The provider goes by its own name, and the stash by the name under which
/// tmux windows are parked.
pub proof fn the_provider_and_the_stash_have_names()
    ensures
        provider_name() == "tmux-remote"@,
        stash_session() == "_os_stash"@,
{
}

/// Commands for a host are taken for what they hold.
pub proof fn host_commands_are_taken_whole(
    command: RemoteCommand,
    list: Seq<Vec<String>>,
    i: int,
)
    ensures
        command_view(Some(command)) == Some((command.host as int, texts(command.args@))),
        command_view(None) is None,
        commands(list).len() == list.len(),
        0 <= i < list.len() ==> commands(list)[i] == texts(list[i]@),
{
}

/// A name is that of a remote session just where it is a host, a slash and a
/// session, neither of them empty; the first slash parts them.
pub proof fn remote_names_are_host_and_session(
    name: Seq<char>,
    host_tag: Seq<char>,
    session: Seq<char>,
)
    ensures
        split_namespaced(name) == Some((host_tag, session)) <==> name == host_tag + seq!['/']
            + session && !host_tag.contains('/') && 0 < host_tag.len() && 0 < session.len(),
        namespaced(host_tag, session) == host_tag + seq!['/'] + session,
{
    lemma_split_once_char(name, '/', host_tag, session);
}

} // verus!
