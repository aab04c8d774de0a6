//! What is kept for a while of the answers of the system: the state of git
//! repositories and the open ports.

use vstd::prelude::*;

use crate::runners::{GitCommandRunner, PortCommandRunner};
use crate::sessions::{listing_views, session_views, MuxSessionInfo, MuxSessionView};
use crate::text::same_text;
use crate::text_map::{list_holds, texts, TextMap};

verus! {

/// How long the state of a git repository is kept, in milliseconds.
pub const GIT_CACHE_TTL_MS: u64 = 5_000;

/// How long the open ports are kept, in milliseconds.
pub const PORT_POLL_INTERVAL_MS: u64 = 10_000;

/// Whether something that was kept at a time may still be used now. What was
/// kept later than now may.
pub open spec fn is_fresh(ts: u64, now: u64, ttl_ms: u64) -> bool {
    now - ts < ttl_ms
}

fn fresh(ts: u64, now: u64, ttl_ms: u64) -> (yes: bool)
    requires
        ttl_ms > 0,
    ensures
        yes == is_fresh(ts, now, ttl_ms),
{
    now.saturating_sub(ts) < ttl_ms
}

// ---------------------------------------------------------------------------
// Git repositories.
// ---------------------------------------------------------------------------

/// The state of a git repository and the time at which it was kept.
#[derive(Debug)]
pub struct CachedGitInfo<T> {
    pub info: T,
    pub ts: u64,
}

/// The states of git repositories by their directory.
#[derive(Debug)]
pub struct GitInfoCache<T> {
    entries: TextMap<CachedGitInfo<T>>,
}

impl<T> View for GitInfoCache<T> {
    type V = Map<Seq<char>, CachedGitInfo<T>>;

    closed spec fn view(&self) -> Map<Seq<char>, CachedGitInfo<T>> {
        self.entries@
    }
}

/// What is known of a git repository.
#[derive(Debug)]
pub enum GitStep<'a, T> {
    /// There is nothing to know.
    Empty,
    /// Its state was kept.
    Cached(&'a T),
    /// The commands printed something that is still to be read.
    Output(String),
}

/// The state that is kept of a directory and may still be used.
pub open spec fn kept_info<T>(
    entries: Map<Seq<char>, CachedGitInfo<T>>,
    dir: Seq<char>,
    now: u64,
) -> Option<T> {
    if entries.contains_key(dir) && is_fresh(entries[dir].ts, now, GIT_CACHE_TTL_MS) {
        Some(entries[dir].info)
    } else {
        None
    }
}

/// Whether the commands are run for a directory: it is not empty, and nothing
/// is kept of it that may still be used.
pub open spec fn git_is_asked<T>(
    entries: Map<Seq<char>, CachedGitInfo<T>>,
    dir: Seq<char>,
    now: u64,
) -> bool {
    dir.len() > 0 && kept_info(entries, dir, now) is None
}

/// Decides what the output of the commands comes to.
pub fn git_output_step<'a, T>(output: String) -> (step: GitStep<'a, T>)
    ensures
        match step {
            GitStep::Empty => output@.len() == 0,
            GitStep::Cached(_) => false,
            GitStep::Output(text) => output@.len() > 0 && text == output,
        },
{
    if output.as_str().is_empty() {
        GitStep::Empty
    } else {
        GitStep::Output(output)
    }
}

impl<T> GitInfoCache<T> {
    /// A cache in which nothing is kept.
    pub fn new() -> (cache: GitInfoCache<T>)
        ensures
            cache@ == Map::<Seq<char>, CachedGitInfo<T>>::empty(),
    {
        GitInfoCache { entries: TextMap::new() }
    }

    /// The state that is kept of a directory and may still be used.
    pub fn lookup(&self, dir: &str, now: u64) -> (info: Option<&T>)
        ensures
            match info {
                Some(info) => kept_info(self@, dir@, now) == Some(*info),
                None => kept_info(self@, dir@, now) is None,
            },
    {
        match self.entries.get(dir) {
            Some(kept) => if fresh(kept.ts, now, GIT_CACHE_TTL_MS) {
                Some(&kept.info)
            } else {
                None
            },
            None => None,
        }
    }

    /// Keeps the state of a directory.
    pub fn store(&mut self, dir: &str, info: T, now: u64)
        ensures
            final(self)@ == old(self)@.insert(dir@, CachedGitInfo { info, ts: now }),
    {
        let _ = self.entries.insert(dir.to_string(), CachedGitInfo { info, ts: now });
    }

    /// Decides whether the commands are run for a directory.
    pub fn asks_git(&self, dir: &str, now: u64) -> (yes: bool)
        ensures
            yes == git_is_asked(self@, dir@, now),
    {
        !dir.is_empty() && self.lookup(dir, now).is_none()
    }

    /// Finds out what is known of a directory, and runs the commands only
    /// where `asks_git` says so.
    pub fn git_info_for_dir<R: GitCommandRunner>(&self, runner: &R, dir: &str, now: u64) -> (step:
        GitStep<'_, T>)
        ensures
            dir@.len() == 0 ==> step is Empty,
            match step {
                GitStep::Empty => dir@.len() == 0 || git_is_asked(self@, dir@, now) && exists|
                    output: String,
                |
                    #[trigger] call_ensures(R::git_info_output, (runner, dir), output)
                        && output@.len() == 0,
                GitStep::Cached(info) => dir@.len() > 0 && kept_info(self@, dir@, now) == Some(
                    *info,
                ),
                GitStep::Output(text) => git_is_asked(self@, dir@, now) && text@.len() > 0
                    && call_ensures(R::git_info_output, (runner, dir), text),
            },
    {
        if self.asks_git(dir, now) {
            return git_output_step(runner.git_info_output(dir));
        }
        match self.lookup(dir, now) {
            Some(info) if !dir.is_empty() => GitStep::Cached(info),
            _ => GitStep::Empty,
        }
    }
}

/// A session whose repository is looked at.
#[derive(Debug, PartialEq, Eq)]
pub struct InspectedSession {
    pub name: String,
    pub dir: String,
}

/// The plain values of sessions whose repositories are looked at.
pub open spec fn inspected_values(sessions: Seq<InspectedSession>) -> Seq<(Seq<char>, Seq<char>)> {
    sessions.map_values(|session: InspectedSession| (session.name@, session.dir@))
}

/// Whether a session is to be seen. Without a list of names every one is.
pub open spec fn is_visible(visible: Option<Seq<Seq<char>>>, name: Seq<char>) -> bool {
    match visible {
        Some(names) => names.contains(name),
        None => true,
    }
}

/// The names and directories of the sessions of a listing that are to be
/// seen.
pub open spec fn visible_in(sessions: Seq<MuxSessionView>, visible: Option<Seq<Seq<char>>>) -> Seq<
    (Seq<char>, Seq<char>),
>
    decreases sessions.len(),
{
    if sessions.len() == 0 {
        Seq::empty()
    } else {
        let earlier = visible_in(sessions.drop_last(), visible);
        let last = sessions.last();
        if is_visible(visible, last.name) {
            earlier.push((last.name, last.dir))
        } else {
            earlier
        }
    }
}

/// The names and directories of all sessions that are to be seen.
pub open spec fn all_visible(
    listings: Seq<Seq<MuxSessionView>>,
    visible: Option<Seq<Seq<char>>>,
) -> Seq<(Seq<char>, Seq<char>)>
    decreases listings.len(),
{
    if listings.len() == 0 {
        Seq::empty()
    } else {
        all_visible(listings.drop_last(), visible) + visible_in(listings.last(), visible)
    }
}

/// The texts of an optional list.
pub open spec fn names_of(names: Option<&Vec<String>>) -> Option<Seq<Seq<char>>> {
    match names {
        Some(names) => Some(texts(names@)),
        None => None,
    }
}

fn add_visible(
    found: &mut Vec<InspectedSession>,
    sessions: &Vec<MuxSessionInfo>,
    visible: Option<&Vec<String>>,
)
    ensures
        inspected_values(final(found)@) == inspected_values(old(found)@) + visible_in(
            session_views(sessions@),
            names_of(visible),
        ),
{
    let ghost all = session_views(sessions@);
    let ghost names = names_of(visible);
    let mut i: usize = 0;
    assert(inspected_values(found@) =~= inspected_values(old(found)@) + visible_in(
        all.take(0),
        names,
    ));
    while i < sessions.len()
        invariant
            i <= sessions@.len(),
            all == session_views(sessions@),
            names == names_of(visible),
            inspected_values(found@) == inspected_values(old(found)@) + visible_in(
                all.take(i as int),
                names,
            ),
        decreases sessions@.len() - i,
    {
        let session = &sessions[i];
        let ghost before = found@;
        proof {
            assert(all.take(i + 1).drop_last() == all.take(i as int));
            assert(all.take(i + 1).last() == session@);
        }
        let shown = match visible {
            Some(names) => list_holds(names, session.name.as_str()),
            None => true,
        };
        if shown {
            found.push(
                InspectedSession { name: session.name.clone(), dir: session.dir.clone() },
            );
            assert(inspected_values(found@) =~= inspected_values(before).push(
                (session.name@, session.dir@),
            ));
            assert(inspected_values(found@) =~= inspected_values(old(found)@) + visible_in(
                all.take(i + 1),
                names,
            ));
        }
        i += 1;
    }
    assert(all.take(all.len() as int) == all);
}

/// The sessions whose repositories are looked at: those that are to be seen.
pub fn sessions_to_inspect(
    listings: &Vec<Vec<MuxSessionInfo>>,
    visible: Option<&Vec<String>>,
) -> (found: Vec<InspectedSession>)
    ensures
        inspected_values(found@) == all_visible(listing_views(listings@), names_of(visible)),
{
    let ghost all = listing_views(listings@);
    let ghost names = names_of(visible);
    let mut found: Vec<InspectedSession> = Vec::new();
    let mut i: usize = 0;
    assert(inspected_values(found@) =~= all_visible(all.take(0), names));
    while i < listings.len()
        invariant
            i <= listings@.len(),
            all == listing_views(listings@),
            names == names_of(visible),
            inspected_values(found@) == all_visible(all.take(i as int), names),
        decreases listings@.len() - i,
    {
        proof {
            assert(all.take(i + 1).drop_last() == all.take(i as int));
            assert(all.take(i + 1).last() == session_views(listings@[i as int]@));
        }
        add_visible(&mut found, &listings[i], visible);
        i += 1;
    }
    assert(all.take(all.len() as int) == all);
    found
}

// ---------------------------------------------------------------------------
// Ports.
// ---------------------------------------------------------------------------

/// The open ports of sessions and the time at which they were kept.
#[derive(Debug)]
pub struct CachedPortSnapshot<T> {
    session_names: Vec<String>,
    ports_by_session: T,
    ts: u64,
}

/// The open ports that were found last.
#[derive(Debug)]
pub struct PortCache<T> {
    last: Option<CachedPortSnapshot<T>>,
}

/// The open ports that are kept, as plain values.
pub struct PortsView<T> {
    pub session_names: Seq<Seq<char>>,
    pub ports_by_session: T,
    pub ts: u64,
}

impl<T> View for PortCache<T> {
    type V = Option<PortsView<T>>;

    closed spec fn view(&self) -> Option<PortsView<T>> {
        match self.last {
            Some(last) => Some(
                PortsView {
                    session_names: texts(last.session_names@),
                    ports_by_session: last.ports_by_session,
                    ts: last.ts,
                },
            ),
            None => None,
        }
    }
}

/// The open ports that are kept of just these sessions and may still be used.
pub open spec fn kept_ports<T>(
    last: Option<PortsView<T>>,
    names: Seq<Seq<char>>,
    now: u64,
) -> Option<T> {
    match last {
        Some(last) => if last.session_names == names && is_fresh(
            last.ts,
            now,
            PORT_POLL_INTERVAL_MS,
        ) {
            Some(last.ports_by_session)
        } else {
            None
        },
        None => None,
    }
}

/// How the open ports of sessions are come by.
#[derive(Debug)]
pub enum PortStep<'a, T> {
    /// They were kept.
    Cached(&'a T),
    /// There are no sessions.
    NoSessions,
    /// They have to be found.
    Discover,
}

fn same_names(a: &Vec<String>, b: &Vec<String>) -> (same: bool)
    ensures
        same == (texts(a@) == texts(b@)),
{
    assert(texts(a@).len() == a@.len());
    assert(texts(b@).len() == b@.len());
    if a.len() != b.len() {
        return false;
    }
    let mut i: usize = 0;
    while i < a.len()
        invariant
            i <= a@.len(),
            a@.len() == b@.len(),
            forall|j: int| 0 <= j < i ==> texts(a@)[j] == #[trigger] texts(b@)[j],
        decreases a@.len() - i,
    {
        assert(texts(a@)[i as int] == a@[i as int]@);
        assert(texts(b@)[i as int] == b@[i as int]@);
        if !same_text(a[i].as_str(), b[i].as_str()) {
            return false;
        }
        i += 1;
    }
    assert(texts(a@) =~= texts(b@));
    true
}

impl<T> PortCache<T> {
    /// A cache in which nothing is kept.
    pub fn new() -> (cache: PortCache<T>)
        ensures
            cache@ is None,
    {
        PortCache { last: None }
    }

    /// Decides how the open ports of sessions are come by.
    pub fn discover_live_ports(&self, names: &Vec<String>, now: u64) -> (step: PortStep<'_, T>)
        ensures
            match step {
                PortStep::Cached(ports) => kept_ports(self@, texts(names@), now) == Some(*ports),
                PortStep::NoSessions => kept_ports(self@, texts(names@), now) is None
                    && names@.len() == 0,
                PortStep::Discover => kept_ports(self@, texts(names@), now) is None && names@.len()
                    > 0,
            },
    {
        if let Some(last) = &self.last {
            if same_names(&last.session_names, names) && fresh(
                last.ts,
                now,
                PORT_POLL_INTERVAL_MS,
            ) {
                return PortStep::Cached(&last.ports_by_session);
            }
        }
        if names.len() == 0 {
            PortStep::NoSessions
        } else {
            PortStep::Discover
        }
    }

    /// Keeps the open ports of sessions.
    pub fn store(&mut self, names: Vec<String>, ports: T, now: u64)
        ensures
            final(self)@ == Some(
                PortsView {
                    session_names: texts(names@),
                    ports_by_session: ports,
                    ts: now,
                },
            ),
    {
        self.last = Some(
            CachedPortSnapshot { session_names: names, ports_by_session: ports, ts: now },
        );
    }
}

/// A session whose processes are asked for.
#[derive(Debug, PartialEq, Eq)]
pub struct ProbedSession {
    /// The position of its provider.
    pub provider: usize,
    pub name: String,
}

/// The plain values of sessions whose processes are asked for.
pub open spec fn probed_values(sessions: Seq<ProbedSession>) -> Seq<(int, Seq<char>)> {
    sessions.map_values(|session: ProbedSession| (session.provider as int, session.name@))
}

/// The sessions of a listing that have one of the names.
pub open spec fn named_in(
    provider: int,
    sessions: Seq<MuxSessionView>,
    names: Seq<Seq<char>>,
) -> Seq<(int, Seq<char>)>
    decreases sessions.len(),
{
    if sessions.len() == 0 {
        Seq::empty()
    } else {
        let earlier = named_in(provider, sessions.drop_last(), names);
        if names.contains(sessions.last().name) {
            earlier.push((provider, sessions.last().name))
        } else {
            earlier
        }
    }
}

/// The sessions of all listings that have one of the names.
pub open spec fn all_named(listings: Seq<Seq<MuxSessionView>>, names: Seq<Seq<char>>) -> Seq<
    (int, Seq<char>),
>
    decreases listings.len(),
{
    if listings.len() == 0 {
        Seq::empty()
    } else {
        all_named(listings.drop_last(), names) + named_in(
            listings.len() - 1,
            listings.last(),
            names,
        )
    }
}

fn add_named(
    found: &mut Vec<ProbedSession>,
    provider: usize,
    sessions: &Vec<MuxSessionInfo>,
    names: &Vec<String>,
)
    ensures
        probed_values(final(found)@) == probed_values(old(found)@) + named_in(
            provider as int,
            session_views(sessions@),
            texts(names@),
        ),
{
    let ghost all = session_views(sessions@);
    let mut i: usize = 0;
    assert(probed_values(found@) =~= probed_values(old(found)@) + named_in(
        provider as int,
        all.take(0),
        texts(names@),
    ));
    while i < sessions.len()
        invariant
            i <= sessions@.len(),
            all == session_views(sessions@),
            probed_values(found@) == probed_values(old(found)@) + named_in(
                provider as int,
                all.take(i as int),
                texts(names@),
            ),
        decreases sessions@.len() - i,
    {
        let session = &sessions[i];
        let ghost before = found@;
        proof {
            assert(all.take(i + 1).drop_last() == all.take(i as int));
            assert(all.take(i + 1).last() == session@);
        }
        if list_holds(names, session.name.as_str()) {
            found.push(ProbedSession { provider, name: session.name.clone() });
            assert(probed_values(found@) =~= probed_values(before).push(
                (provider as int, session.name@),
            ));
            assert(probed_values(found@) =~= probed_values(old(found)@) + named_in(
                provider as int,
                all.take(i + 1),
                texts(names@),
            ));
        }
        i += 1;
    }
    assert(all.take(all.len() as int) == all);
}

/// The sessions whose processes are asked for, provider by provider.
pub fn sessions_to_probe(listings: &Vec<Vec<MuxSessionInfo>>, names: &Vec<String>) -> (found: Vec<
    ProbedSession,
>)
    ensures
        probed_values(found@) == all_named(listing_views(listings@), texts(names@)),
{
    let ghost all = listing_views(listings@);
    let mut found: Vec<ProbedSession> = Vec::new();
    let mut i: usize = 0;
    assert(probed_values(found@) =~= all_named(all.take(0), texts(names@)));
    while i < listings.len()
        invariant
            i <= listings@.len(),
            all == listing_views(listings@),
            probed_values(found@) == all_named(all.take(i as int), texts(names@)),
        decreases listings@.len() - i,
    {
        proof {
            assert(all.take(i + 1).drop_last() == all.take(i as int));
            assert(all.take(i + 1).last() == session_views(listings@[i as int]@));
        }
        add_named(&mut found, i, &listings[i], names);
        i += 1;
    }
    assert(all.take(all.len() as int) == all);
    found
}

/// What is known of the system for port discovery.
#[derive(Debug)]
pub struct PortFacts {
    pub process_rows: Vec<(u32, u32)>,
    pub lsof_fields: String,
    /// Whether what is found from it may be kept.
    pub keep: bool,
}

/// Asks the system what port discovery needs: nothing where no session has a
/// process, and what is found from that is not kept.
pub fn port_facts<R: PortCommandRunner>(runner: &R, pids: &TextMap<Vec<u32>>) -> (facts: PortFacts)
    ensures
        facts.keep == (pids.keys().len() > 0),
        if facts.keep {
            call_ensures(R::process_rows, (runner,), facts.process_rows) && call_ensures(
                R::lsof_fields,
                (runner,),
                facts.lsof_fields,
            )
        } else {
            facts.process_rows@.len() == 0 && facts.lsof_fields@.len() == 0
        },
{
    if pids.len() == 0 {
        return PortFacts { process_rows: Vec::new(), lsof_fields: String::new(), keep: false };
    }
    let lsof_fields = runner.lsof_fields();
    let process_rows = runner.process_rows();
    PortFacts { process_rows, lsof_fields, keep: true }
}

// ---------------------------------------------------------------------------
// Laws.
// ---------------------------------------------------------------------------

/// The state of a directory that is kept is used for five seconds and not
/// after that, and what is kept of other directories does not matter.
pub proof fn kept_info_expires<T>(
    entries: Map<Seq<char>, CachedGitInfo<T>>,
    dir: Seq<char>,
    other: Seq<char>,
    info: T,
    ts: u64,
    now: u64,
)
    ensures
        kept_info(entries.insert(dir, CachedGitInfo { info, ts }), dir, now) == if now - ts < 5_000 {
            Some(info)
        } else {
            None
        },
        other != dir ==> kept_info(
            entries.insert(dir, CachedGitInfo { info, ts }),
            other,
            now,
        ) == kept_info(entries, other, now),
{
}

/// Whether some listing has a session of a name and a directory.
pub open spec fn listed_with_dir(
    listings: Seq<Seq<MuxSessionView>>,
    name: Seq<char>,
    dir: Seq<char>,
) -> bool {
    exists|i: int, j: int|
        0 <= i < listings.len() && 0 <= j < listings[i].len() && (#[trigger] listings[i][j]).name
            == name && listings[i][j].dir == dir
}

proof fn lemma_visible_in(
    sessions: Seq<MuxSessionView>,
    visible: Option<Seq<Seq<char>>>,
    name: Seq<char>,
    dir: Seq<char>,
)
    ensures
        visible_in(sessions, visible).contains((name, dir)) <==> is_visible(visible, name)
            && exists|j: int|
            0 <= j < sessions.len() && (#[trigger] sessions[j]).name == name && sessions[j].dir
                == dir,
    decreases sessions.len(),
{
    if sessions.len() > 0 {
        let rest = sessions.drop_last();
        let last = sessions.last();
        let earlier = visible_in(rest, visible);
        lemma_visible_in(rest, visible, name, dir);
        assert forall|j: int| 0 <= j < rest.len() implies #[trigger] rest[j] == sessions[j] by {}
        assert(sessions[sessions.len() - 1] == last);
        if is_visible(visible, last.name) {
            let all = earlier.push((last.name, last.dir));
            assert(all.last() == (last.name, last.dir));
            if earlier.contains((name, dir)) {
                let k = choose|k: int| 0 <= k < earlier.len() && earlier[k] == (name, dir);
                assert(all[k] == (name, dir));
            }
            if all.contains((name, dir)) {
                let k = choose|k: int| 0 <= k < all.len() && all[k] == (name, dir);
                if k < earlier.len() {
                    assert(earlier[k] == (name, dir));
                }
            }
            if name == last.name && dir == last.dir {
                assert(all[earlier.len() as int] == (name, dir));
            }
        }
        if exists|j: int|
            0 <= j < rest.len() && (#[trigger] rest[j]).name == name && rest[j].dir == dir {
            let j = choose|j: int|
                0 <= j < rest.len() && (#[trigger] rest[j]).name == name && rest[j].dir == dir;
            assert(sessions[j] == rest[j]);
        }
        if exists|j: int|
            0 <= j < sessions.len() && (#[trigger] sessions[j]).name == name && sessions[j].dir
                == dir {
            let j = choose|j: int|
                0 <= j < sessions.len() && (#[trigger] sessions[j]).name == name && sessions[j].dir
                    == dir;
            if j < rest.len() {
                assert(rest[j] == sessions[j]);
            }
        }
    }
}

/// The sessions whose repositories are looked at are just those that some
/// provider lists and that are to be seen.
pub proof fn visible_sessions_are_inspected(
    listings: Seq<Seq<MuxSessionView>>,
    visible: Option<Seq<Seq<char>>>,
    name: Seq<char>,
    dir: Seq<char>,
)
    ensures
        all_visible(listings, visible).contains((name, dir)) <==> is_visible(visible, name)
            && listed_with_dir(listings, name, dir),
    decreases listings.len(),
{
    if listings.len() > 0 {
        let rest = listings.drop_last();
        let last = listings.last();
        let front = all_visible(rest, visible);
        let back = visible_in(last, visible);
        let pair = (name, dir);
        visible_sessions_are_inspected(rest, visible, name, dir);
        lemma_visible_in(last, visible, name, dir);
        assert(listings[listings.len() - 1] == last);
        if front.contains(pair) {
            let k = choose|k: int| 0 <= k < front.len() && front[k] == pair;
            assert((front + back)[k] == pair);
        }
        if back.contains(pair) {
            let k = choose|k: int| 0 <= k < back.len() && back[k] == pair;
            assert((front + back)[front.len() + k] == pair);
        }
        if (front + back).contains(pair) {
            let k = choose|k: int| 0 <= k < (front + back).len() && (front + back)[k] == pair;
            if k < front.len() {
                assert(front[k] == pair);
            } else {
                assert(back[k - front.len()] == pair);
            }
        }
        if listed_with_dir(rest, name, dir) {
            let (i, j) = choose|i: int, j: int|
                0 <= i < rest.len() && 0 <= j < rest[i].len() && (#[trigger] rest[i][j]).name
                    == name && rest[i][j].dir == dir;
            assert(listings[i] == rest[i]);
            assert(listings[i][j].name == name);
        }
        if exists|j: int|
            0 <= j < last.len() && (#[trigger] last[j]).name == name && last[j].dir == dir {
            let j = choose|j: int|
                0 <= j < last.len() && (#[trigger] last[j]).name == name && last[j].dir == dir;
            assert(listings[listings.len() - 1][j].name == name);
        }
        if listed_with_dir(listings, name, dir) {
            let (i, j) = choose|i: int, j: int|
                0 <= i < listings.len() && 0 <= j < listings[i].len() && (
                #[trigger] listings[i][j]).name == name && listings[i][j].dir == dir;
            if i < rest.len() {
                assert(rest[i] == listings[i]);
                assert(rest[i][j].name == name);
            } else {
                assert(last[j].name == name);
            }
        }
    }
}

/// The ports that are kept are used for ten seconds, for just the sessions
/// for which they were found.
pub proof fn kept_ports_expire<T>(
    found: Seq<Seq<char>>,
    ports: T,
    ts: u64,
    names: Seq<Seq<char>>,
    now: u64,
)
    ensures
        kept_ports(
            Some(PortsView { session_names: found, ports_by_session: ports, ts }),
            names,
            now,
        ) == if names == found && now - ts < 10_000 {
            Some(ports)
        } else {
            None
        },
{
}

/// What was kept is fresh as long as less than its time has passed, and what
/// was kept later than now is fresh too.
pub proof fn kept_things_are_fresh_for_their_time(ts: u64, now: u64, ttl_ms: u64)
    ensures
        is_fresh(ts, now, ttl_ms) <==> now < ts + ttl_ms,
        0 < ttl_ms && now <= ts ==> is_fresh(ts, now, ttl_ms),
{
}

/// Git is asked about a directory just where there is a directory and nothing
/// fresh is kept of it.
pub proof fn git_is_asked_about_what_is_not_kept<T>(
    entries: Map<Seq<char>, CachedGitInfo<T>>,
    dir: Seq<char>,
    now: u64,
)
    ensures
        git_is_asked(entries, dir, now) <==> 0 < dir.len() && !(entries.contains_key(dir) && now
            < entries[dir].ts + 5_000),
{
}

/// The sessions that are inspected stand in the order in which the providers
/// list them, each with its directory.
pub proof fn inspected_sessions_keep_their_order(
    listings: Seq<Seq<MuxSessionView>>,
    sessions: Seq<MuxSessionView>,
    session: MuxSessionView,
    visible: Option<Seq<Seq<char>>>,
    names: Seq<Seq<char>>,
)
    ensures
        all_visible(listings.push(sessions), visible) == all_visible(listings, visible)
            + visible_in(sessions, visible),
        visible_in(sessions.push(session), None) == visible_in(sessions, None).push(
            (session.name, session.dir),
        ),
        names.contains(session.name) ==> visible_in(sessions.push(session), Some(names))
            == visible_in(sessions, Some(names)).push((session.name, session.dir)),
        !names.contains(session.name) ==> visible_in(sessions.push(session), Some(names))
            == visible_in(sessions, Some(names)),
{
    assert(listings.push(sessions).drop_last() =~= listings);
    assert(sessions.push(session).drop_last() =~= sessions);
}

/// A session is probed for ports just where its name is asked for, at every
/// provider that lists it.
pub proof fn named_sessions_are_probed(
    listings: Seq<Seq<MuxSessionView>>,
    names: Seq<Seq<char>>,
    provider: int,
    name: Seq<char>,
)
    ensures
        all_named(listings, names).contains((provider, name)) <==> names.contains(name) && 0
            <= provider < listings.len() && exists|j: int|
            0 <= j < listings[provider].len() && (#[trigger] listings[provider][j]).name == name,
    decreases listings.len(),
{
    if listings.len() > 0 {
        let front = listings.drop_last();
        let n = listings.len() - 1;
        let last = listings.last();
        named_sessions_are_probed(front, names, provider, name);
        lemma_named_in(n, last, names, provider, name);
        let earlier = all_named(front, names);
        let own = named_in(n, last, names);
        let all = all_named(listings, names);
        let item = (provider, name);
        assert(listings[n] == last);
        if 0 <= provider < n {
            assert(front[provider] == listings[provider]);
        }
        if all.contains(item) {
            let k = choose|k: int| 0 <= k < all.len() && all[k] == item;
            if k < earlier.len() {
                assert(earlier[k] == item);
            } else {
                assert(own[k - earlier.len()] == item);
            }
        }
        if earlier.contains(item) {
            let k = choose|k: int| 0 <= k < earlier.len() && earlier[k] == item;
            assert(all[k] == item);
        }
        if own.contains(item) {
            let k = choose|k: int| 0 <= k < own.len() && own[k] == item;
            assert(all[earlier.len() + k] == item);
        }
    }
}

proof fn lemma_named_in(
    n: int,
    sessions: Seq<MuxSessionView>,
    names: Seq<Seq<char>>,
    provider: int,
    name: Seq<char>,
)
    ensures
        named_in(n, sessions, names).contains((provider, name)) <==> provider == n
            && names.contains(name) && exists|j: int|
            0 <= j < sessions.len() && (#[trigger] sessions[j]).name == name,
    decreases sessions.len(),
{
    if sessions.len() > 0 {
        let front = sessions.drop_last();
        let last = sessions.last();
        let m = sessions.len() - 1;
        lemma_named_in(n, front, names, provider, name);
        let earlier = named_in(n, front, names);
        let all = named_in(n, sessions, names);
        let item = (provider, name);
        assert(sessions[m] == last);
        if names.contains(last.name) {
            assert(all[earlier.len() as int] == (n, last.name));
            if earlier.contains(item) {
                let k = choose|k: int| 0 <= k < earlier.len() && earlier[k] == item;
                assert(all[k] == item);
            }
            if all.contains(item) {
                let k = choose|k: int| 0 <= k < all.len() && all[k] == item;
                if k < earlier.len() {
                    assert(earlier[k] == item);
                }
            }
        }
        if exists|j: int| 0 <= j < front.len() && (#[trigger] front[j]).name == name {
            let j = choose|j: int| 0 <= j < front.len() && (#[trigger] front[j]).name == name;
            assert(sessions[j] == front[j]);
        }
        if exists|j: int| 0 <= j < sessions.len() && (#[trigger] sessions[j]).name == name {
            let j = choose|j: int| 0 <= j < sessions.len() && (#[trigger] sessions[j]).name == name;
            if j < m {
                assert(front[j] == sessions[j]);
            }
        }
    }
}

/// The sessions that are probed stand in the order in which the providers list
/// them.
pub proof fn probed_sessions_keep_their_order(
    listings: Seq<Seq<MuxSessionView>>,
    sessions: Seq<MuxSessionView>,
    session: MuxSessionView,
    names: Seq<Seq<char>>,
    provider: int,
)
    ensures
        all_named(listings.push(sessions), names) == all_named(listings, names) + named_in(
            listings.len() as int,
            sessions,
            names,
        ),
        names.contains(session.name) ==> named_in(provider, sessions.push(session), names)
            == named_in(provider, sessions, names).push((provider, session.name)),
        !names.contains(session.name) ==> named_in(provider, sessions.push(session), names)
            == named_in(provider, sessions, names),
{
    assert(listings.push(sessions).drop_last() =~= listings);
    assert(sessions.push(session).drop_last() =~= sessions);
}

/// Names and sessions are taken for what they hold, in their order.
pub proof fn asked_sessions_are_taken_whole(
    names: Vec<String>,
    inspected: Seq<InspectedSession>,
    probed: Seq<ProbedSession>,
    i: int,
)
    ensures
        names_of(Some(&names)) == Some(texts(names@)),
        names_of(None) is None,
        inspected_values(inspected).len() == inspected.len(),
        0 <= i < inspected.len() ==> inspected_values(inspected)[i] == (
            inspected[i].name@,
            inspected[i].dir@,
        ),
        probed_values(probed).len() == probed.len(),
        0 <= i < probed.len() ==> probed_values(probed)[i] == (
            probed[i].provider as int,
            probed[i].name@,
        ),
{
}

} // verus!
