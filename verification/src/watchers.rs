//! The files in which agents keep their threads, and when what they tell is
//! news.

use vstd::prelude::*;

use crate::agents::{snapshot_values, AgentWatcherSnapshot};
use crate::context::{string_unless_empty, unless_empty};
use crate::http::{lossy_text, utf8_lossy};
use crate::numerals::{decimal, parse_unsigned, read_unsigned, write_decimal};
use crate::protocol::AgentStatus;
use crate::text::{
    chars_of, lemma_find_is, lines, occurs_at, pieces, same_text, split, split_all, split_lines,
    split_once, split_takes_part_after_part, string_of,
};
use crate::text_map::{copy_text, text_of, TextMap};

verus! {

/// How old a file may be for what it tells to count, in milliseconds.
pub const AGENT_WATCHER_RECENT_MS: u64 = 300_000;

/// Whether a file that was written at a time is recent.
pub open spec fn is_recent_at(now: u64, mtime_ms: u64) -> bool {
    now - mtime_ms <= AGENT_WATCHER_RECENT_MS
}

/// Decides whether a file that was written at a time is recent.
pub fn is_recent(now: u64, mtime_ms: u64) -> (yes: bool)
    ensures
        yes == is_recent_at(now, mtime_ms),
{
    now.saturating_sub(mtime_ms) <= AGENT_WATCHER_RECENT_MS
}

/// What is done about a process that was started.
#[derive(Debug, Clone, Copy, PartialEq, Eq, Structural)]
pub enum ProcessPoll {
    /// It has ended, and its output is read.
    Collect,
    /// It takes too long, and is killed.
    Kill,
    /// It is waited for.
    Wait,
}

/// What is done about a process: one that has ended counts even where its time
/// is over.
pub open spec fn poll_at(ended: bool, elapsed_ms: u64, timeout_ms: u64) -> ProcessPoll {
    if ended {
        ProcessPoll::Collect
    } else if elapsed_ms >= timeout_ms {
        ProcessPoll::Kill
    } else {
        ProcessPoll::Wait
    }
}

/// Decides what is done about a process.
pub fn poll_process(ended: bool, elapsed_ms: u64, timeout_ms: u64) -> (poll: ProcessPoll)
    ensures
        poll == poll_at(ended, elapsed_ms, timeout_ms),
{
    if ended {
        ProcessPoll::Collect
    } else if elapsed_ms >= timeout_ms {
        ProcessPoll::Kill
    } else {
        ProcessPoll::Wait
    }
}

// ---------------------------------------------------------------------------
// News.
// ---------------------------------------------------------------------------

/// What tells two snapshots of a thread apart.
#[derive(Debug)]
pub struct AgentWatcherFingerprint<S> {
    pub status: AgentStatus,
    pub thread_name: Option<S>,
    pub last_user_prompt: Option<S>,
    pub project_dir: Option<S>,
}

/// The plain values of a fingerprint.
pub open spec fn fingerprint_values(
    fingerprint: AgentWatcherFingerprint<String>,
) -> AgentWatcherFingerprint<Seq<char>> {
    AgentWatcherFingerprint {
        status: fingerprint.status,
        thread_name: text_of(fingerprint.thread_name),
        last_user_prompt: text_of(fingerprint.last_user_prompt),
        project_dir: text_of(fingerprint.project_dir),
    }
}

/// The fingerprint of a snapshot.
pub open spec fn fingerprint_of(
    snapshot: AgentWatcherSnapshot<Seq<char>>,
) -> AgentWatcherFingerprint<Seq<char>> {
    AgentWatcherFingerprint {
        status: snapshot.status,
        thread_name: snapshot.thread_name,
        last_user_prompt: snapshot.last_user_prompt,
        project_dir: snapshot.project_dir,
    }
}

/// What a thread of an agent is known by: its id, or else its directory.
pub open spec fn thread_of(snapshot: AgentWatcherSnapshot<Seq<char>>) -> Seq<char> {
    match (snapshot.thread_id, snapshot.project_dir) {
        (Some(thread_id), _) => thread_id,
        (None, Some(dir)) => dir,
        (None, None) => Seq::empty(),
    }
}

/// The key under which a thread of an agent is remembered.
pub open spec fn thread_key(agent: Seq<char>, thread: Seq<char>) -> Seq<char> {
    agent + seq!['\0'] + thread
}

/// The key under which the thread of a snapshot is remembered.
pub fn agent_watcher_key(snapshot: &AgentWatcherSnapshot<String>) -> (key: String)
    ensures
        key@ == thread_key(snapshot.agent@, thread_of(snapshot_values(*snapshot))),
{
    let mut key = snapshot.agent.clone();
    key.push('\0');
    match (&snapshot.thread_id, &snapshot.project_dir) {
        (Some(thread_id), _) => key.append(thread_id.as_str()),
        (None, Some(dir)) => key.append(dir.as_str()),
        (None, None) => {},
    }
    assert(key@ =~= thread_key(snapshot.agent@, thread_of(snapshot_values(*snapshot))));
    key
}

fn same_option(a: &Option<String>, b: &Option<String>) -> (same: bool)
    ensures
        same == (text_of(*a) == text_of(*b)),
{
    match (a, b) {
        (Some(a), Some(b)) => same_text(a.as_str(), b.as_str()),
        (None, None) => true,
        _ => false,
    }
}

impl AgentWatcherFingerprint<String> {
    /// The fingerprint of a snapshot.
    pub fn of(snapshot: &AgentWatcherSnapshot<String>) -> (fingerprint: AgentWatcherFingerprint<
        String,
    >)
        ensures
            fingerprint_values(fingerprint) == fingerprint_of(snapshot_values(*snapshot)),
    {
        AgentWatcherFingerprint {
            status: snapshot.status,
            thread_name: copy_text(&snapshot.thread_name),
            last_user_prompt: copy_text(&snapshot.last_user_prompt),
            project_dir: copy_text(&snapshot.project_dir),
        }
    }

    /// Whether two fingerprints are the same.
    pub fn matches(&self, other: &AgentWatcherFingerprint<String>) -> (same: bool)
        ensures
            same == (fingerprint_values(*self) == fingerprint_values(*other)),
    {
        self.status == other.status && same_option(&self.thread_name, &other.thread_name)
            && same_option(&self.last_user_prompt, &other.last_user_prompt) && same_option(
            &self.project_dir,
            &other.project_dir,
        )
    }
}

/// What was applied last of each thread.
#[derive(Debug)]
pub struct WatcherLog {
    last_seen: TextMap<AgentWatcherFingerprint<String>>,
}

/// The fingerprints that are remembered.
pub type SeenThreads = Map<Seq<char>, AgentWatcherFingerprint<Seq<char>>>;

impl View for WatcherLog {
    type V = SeenThreads;

    closed spec fn view(&self) -> SeenThreads {
        self.last_seen@.map_values(
            |fingerprint: AgentWatcherFingerprint<String>| fingerprint_values(fingerprint),
        )
    }
}

/// Whether a snapshot is news: its agent is not idle, and it is not what was
/// applied last of its thread.
pub open spec fn is_news(
    seen: SeenThreads,
    snapshot: AgentWatcherSnapshot<Seq<char>>,
) -> bool {
    let key = thread_key(snapshot.agent, thread_of(snapshot));
    snapshot.status != AgentStatus::Idle && !(seen.contains_key(key) && seen[key] == fingerprint_of(
        snapshot,
    ))
}

/// What is remembered after a snapshot was applied.
pub open spec fn after_applied(
    seen: SeenThreads,
    snapshot: AgentWatcherSnapshot<Seq<char>>,
) -> SeenThreads {
    seen.insert(thread_key(snapshot.agent, thread_of(snapshot)), fingerprint_of(snapshot))
}

impl WatcherLog {
    /// A log of which nothing was applied yet.
    pub fn new() -> (log: WatcherLog)
        ensures
            log@ == SeenThreads::empty(),
    {
        let log = WatcherLog { last_seen: TextMap::new() };
        assert(log@ =~= SeenThreads::empty());
        log
    }

    /// Decides whether a snapshot is news.
    pub fn is_news(&self, snapshot: &AgentWatcherSnapshot<String>) -> (yes: bool)
        ensures
            yes == is_news(self@, snapshot_values(*snapshot)),
    {
        if snapshot.status == AgentStatus::Idle {
            return false;
        }
        let key = agent_watcher_key(snapshot);
        let fingerprint = AgentWatcherFingerprint::of(snapshot);
        match self.last_seen.get(key.as_str()) {
            Some(seen) => !seen.matches(&fingerprint),
            None => true,
        }
    }

    /// Remembers that a snapshot was applied. One that was dropped is not
    /// remembered, so that it is tried again.
    pub fn record(&mut self, snapshot: &AgentWatcherSnapshot<String>)
        ensures
            final(self)@ == after_applied(old(self)@, snapshot_values(*snapshot)),
    {
        let key = agent_watcher_key(snapshot);
        let ghost before = self@;
        let ghost name = key@;
        let _ = self.last_seen.insert(key, AgentWatcherFingerprint::of(snapshot));
        assert(self@ =~= before.insert(name, fingerprint_of(snapshot_values(*snapshot))));
    }
}

// ---------------------------------------------------------------------------
// The database of opencode.
// ---------------------------------------------------------------------------

/// The column separator of query results.
pub const OPENCODE_SQL_SEP: char = '\u{1f}';

/// How long a query may take, in milliseconds.
pub const OPENCODE_SQL_TIMEOUT_MS: u64 = 500;

/// How both queries begin, up to the time after which sessions count.
pub const OPENCODE_RECENT: &'static str =
    "WITH recent AS MATERIALIZED (SELECT id, title, directory, time_updated FROM session WHERE time_updated > ";

/// How both queries go on, up to the last message of a session.
pub const OPENCODE_COLUMNS: &'static str =
    " ORDER BY time_updated DESC LIMIT 50) SELECT r.id, ifnull(r.title,''), r.directory, r.time_updated, ifnull((SELECT m.data FROM message m WHERE m.session_id = r.id ORDER BY m.time_created DESC LIMIT 1),'')";

/// The column with the last prompt of a session, which older databases lack.
pub const OPENCODE_PROMPT: &'static str =
    ", ifnull((SELECT sm.data FROM session_message sm WHERE sm.session_id = r.id AND sm.type = 'user' ORDER BY sm.seq DESC LIMIT 1),'')";

/// How both queries end.
pub const OPENCODE_ORDER: &'static str = " FROM recent r ORDER BY r.time_updated DESC;";

/// The time after which sessions count.
pub open spec fn stale_threshold(now: u64) -> nat {
    if now >= AGENT_WATCHER_RECENT_MS {
        (now - AGENT_WATCHER_RECENT_MS) as nat
    } else {
        0
    }
}

/// The query for the recent sessions.
pub open spec fn opencode_query(now: u64, with_prompt: bool) -> Seq<char> {
    OPENCODE_RECENT@ + decimal(stale_threshold(now)) + OPENCODE_COLUMNS@ + (if with_prompt {
        OPENCODE_PROMPT@
    } else {
        Seq::empty()
    }) + OPENCODE_ORDER@
}

/// Which query is run.
#[derive(Debug, Clone, Copy, PartialEq, Eq, Structural)]
pub enum QueryStage {
    /// The query with all columns.
    Full,
    /// The one for older databases, because the first gave nothing in time.
    Legacy,
    /// The one for older databases, because the one before it failed.
    LegacyRetry,
}

/// What follows a query.
#[derive(Debug, Clone, Copy, PartialEq, Eq, Structural)]
pub enum QueryStep {
    /// Another query is run.
    Run(QueryStage),
    /// Its output is read.
    Read,
    /// There is nothing to read.
    GiveUp,
}

/// What follows a query: `outcome` is whether it succeeded, or none where it
/// could not be run in time.
pub open spec fn step_after(stage: QueryStage, outcome: Option<bool>) -> QueryStep {
    match (stage, outcome) {
        (_, Some(true)) => QueryStep::Read,
        (QueryStage::Full, None) => QueryStep::Run(QueryStage::Legacy),
        (QueryStage::Full, Some(false)) => QueryStep::Run(QueryStage::LegacyRetry),
        (QueryStage::Legacy, None) => QueryStep::GiveUp,
        (QueryStage::Legacy, Some(false)) => QueryStep::Run(QueryStage::LegacyRetry),
        (QueryStage::LegacyRetry, _) => QueryStep::GiveUp,
    }
}

/// Decides what follows a query.
pub fn after_query(stage: QueryStage, outcome: Option<bool>) -> (step: QueryStep)
    ensures
        step == step_after(stage, outcome),
{
    match (stage, outcome) {
        (_, Some(true)) => QueryStep::Read,
        (QueryStage::Full, None) => QueryStep::Run(QueryStage::Legacy),
        (QueryStage::Full, Some(false)) => QueryStep::Run(QueryStage::LegacyRetry),
        (QueryStage::Legacy, None) => QueryStep::GiveUp,
        (QueryStage::Legacy, Some(false)) => QueryStep::Run(QueryStage::LegacyRetry),
        (QueryStage::LegacyRetry, _) => QueryStep::GiveUp,
    }
}

/// Builds the query of a stage.
pub fn stage_query(stage: QueryStage, now: u64) -> (query: String)
    ensures
        query@ == opencode_query(now, stage == QueryStage::Full),
{
    let threshold = now.saturating_sub(AGENT_WATCHER_RECENT_MS);
    let mut query = OPENCODE_RECENT.to_string();
    query.append(string_of(write_decimal(threshold as u128).as_slice()).as_str());
    query.append(OPENCODE_COLUMNS);
    if stage == QueryStage::Full {
        query.append(OPENCODE_PROMPT);
    }
    query.append(OPENCODE_ORDER);
    assert(query@ =~= opencode_query(now, stage == QueryStage::Full));
    query
}

/// A session of opencode. `S` is a text.
#[derive(Debug, PartialEq, Eq)]
pub struct OpencodeRow<S> {
    pub id: S,
    pub title: Option<S>,
    pub directory: S,
    pub time_updated: u64,
    pub message: S,
    pub prompt: Option<S>,
}

/// The plain values of a row.
pub open spec fn row_texts(row: OpencodeRow<String>) -> OpencodeRow<Seq<char>> {
    OpencodeRow {
        id: row.id@,
        title: text_of(row.title),
        directory: row.directory@,
        time_updated: row.time_updated,
        message: row.message@,
        prompt: text_of(row.prompt),
    }
}

/// The plain values of rows.
pub open spec fn all_row_texts(rows: Seq<OpencodeRow<String>>) -> Seq<OpencodeRow<Seq<char>>> {
    rows.map_values(|row: OpencodeRow<String>| row_texts(row))
}

/// The row that a line gives: one with fewer than five columns, or without a
/// message, gives none, and one without a time gets the present time.
pub open spec fn opencode_row(line: Seq<char>, now: u64) -> Option<OpencodeRow<Seq<char>>> {
    let parts = split(line, seq![OPENCODE_SQL_SEP]);
    if parts.len() < 5 || parts[4].len() == 0 {
        None
    } else {
        Some(
            OpencodeRow {
                id: parts[0],
                title: unless_empty(parts[1]),
                directory: parts[2],
                time_updated: match parse_unsigned(parts[3], u64::MAX as nat) {
                    Some(time) => time as u64,
                    None => now,
                },
                message: parts[4],
                prompt: if parts.len() > 5 {
                    unless_empty(parts[5])
                } else {
                    None
                },
            },
        )
    }
}

/// The rows that lines give.
pub open spec fn opencode_rows(lines: Seq<Seq<char>>, now: u64) -> Seq<OpencodeRow<Seq<char>>>
    decreases lines.len(),
{
    if lines.len() == 0 {
        Seq::empty()
    } else {
        let earlier = opencode_rows(lines.drop_last(), now);
        match opencode_row(lines.last(), now) {
            Some(row) => earlier.push(row),
            None => earlier,
        }
    }
}

fn read_opencode_row(line: &[char], now: u64) -> (row: Option<OpencodeRow<String>>)
    ensures
        match row {
            Some(row) => opencode_row(line@, now) == Some(row_texts(row)),
            None => opencode_row(line@, now) is None,
        },
{
    let separator: [char; 1] = [OPENCODE_SQL_SEP];
    assert(separator@ == seq![OPENCODE_SQL_SEP]);
    let parts = split_all(line, &separator);
    let ghost all = pieces(parts@);
    assert(all.len() == parts@.len());
    if parts.len() < 5 {
        return None;
    }
    proof {
        assert(all[0] == parts@[0]@);
        assert(all[1] == parts@[1]@);
        assert(all[2] == parts@[2]@);
        assert(all[3] == parts@[3]@);
        assert(all[4] == parts@[4]@);
    }
    if parts[4].len() == 0 {
        return None;
    }
    let time_updated = match read_unsigned(parts[3], u64::MAX) {
        Some(time) => time,
        None => now,
    };
    let prompt = if parts.len() > 5 {
        assert(all[5] == parts@[5]@);
        string_unless_empty(parts[5])
    } else {
        None
    };
    Some(
        OpencodeRow {
            id: string_of(parts[0]),
            title: string_unless_empty(parts[1]),
            directory: string_of(parts[2]),
            time_updated,
            message: string_of(parts[4]),
            prompt,
        },
    )
}

/// Reads the rows in the text of a query result.
pub fn opencode_rows_in(text: &str, now: u64) -> (rows: Vec<OpencodeRow<String>>)
    ensures
        all_row_texts(rows@) == opencode_rows(lines(text@), now),
{
    let chars = chars_of(text);
    let parts = split_lines(chars.as_slice());
    let ghost all = pieces(parts@);
    let mut rows: Vec<OpencodeRow<String>> = Vec::new();
    let mut i: usize = 0;
    assert(all_row_texts(rows@) =~= opencode_rows(all.take(0), now));
    while i < parts.len()
        invariant
            i <= parts@.len(),
            all == pieces(parts@),
            all_row_texts(rows@) == opencode_rows(all.take(i as int), now),
        decreases parts@.len() - i,
    {
        let ghost before = rows@;
        proof {
            assert(all.take(i + 1).drop_last() == all.take(i as int));
            assert(all.take(i + 1).last() == parts@[i as int]@);
        }
        if let Some(row) = read_opencode_row(parts[i], now) {
            rows.push(row);
            assert(all_row_texts(rows@) =~= all_row_texts(before).push(row_texts(row)));
        }
        i += 1;
    }
    assert(all.take(all.len() as int) == all);
    rows
}

/// Reads the rows in what a query printed.
pub fn scan_opencode_sessions(stdout: &[u8], now: u64) -> (rows: Vec<OpencodeRow<String>>)
    ensures
        all_row_texts(rows@) == opencode_rows(lines(utf8_lossy(stdout@)), now),
{
    opencode_rows_in(lossy_text(stdout).as_str(), now)
}

// ---------------------------------------------------------------------------
// Laws.
// ---------------------------------------------------------------------------

/// What was applied is no news until it changes, and other threads are news
/// as before.
pub proof fn applied_snapshots_are_no_news(
    seen: SeenThreads,
    applied: AgentWatcherSnapshot<Seq<char>>,
    later: AgentWatcherSnapshot<Seq<char>>,
)
    ensures
        !is_news(after_applied(seen, applied), applied),
        thread_key(later.agent, thread_of(later)) == thread_key(applied.agent, thread_of(applied))
            && later.status != AgentStatus::Idle ==> is_news(after_applied(seen, applied), later)
            == (fingerprint_of(later) != fingerprint_of(applied)),
        thread_key(later.agent, thread_of(later)) != thread_key(applied.agent, thread_of(applied))
            ==> is_news(after_applied(seen, applied), later) == is_news(seen, later),
{
}

/// Threads of different agents, and different threads of one agent, are told
/// apart, as long as the names of agents hold no NUL.
pub proof fn thread_keys_are_distinct(
    agent: Seq<char>,
    thread: Seq<char>,
    other_agent: Seq<char>,
    other_thread: Seq<char>,
)
    requires
        !agent.contains('\0'),
        !other_agent.contains('\0'),
        thread_key(agent, thread) == thread_key(other_agent, other_thread),
    ensures
        agent == other_agent,
        thread == other_thread,
{
    lemma_key_splits(agent, thread);
    lemma_key_splits(other_agent, other_thread);
}

proof fn lemma_key_splits(agent: Seq<char>, thread: Seq<char>)
    requires
        !agent.contains('\0'),
    ensures
        split_once(thread_key(agent, thread), seq!['\0']) == Some((agent, thread)),
{
    let key = thread_key(agent, thread);
    let at = agent.len() as int;
    assert(key.subrange(at, at + 1) =~= seq!['\0']);
    assert forall|j: int| 0 <= j < at implies !occurs_at(key, seq!['\0'], j) by {
        assert(key.subrange(j, j + 1)[0] == agent[j]);
        assert(seq!['\0'][0] == '\0');
        assert(agent.contains(agent[j]));
    }
    lemma_find_is(key, seq!['\0'], at);
    assert(key.take(at) =~= agent);
    assert(key.skip(at + 1) =~= thread);
}

/// How many queries may still follow a stage.
pub open spec fn queries_left(stage: QueryStage) -> nat {
    match stage {
        QueryStage::Full => 2,
        QueryStage::Legacy => 1,
        QueryStage::LegacyRetry => 0,
    }
}

/// Whatever queries come to, at most two follow the first.
pub proof fn queries_come_to_an_end(stage: QueryStage, outcome: Option<bool>)
    ensures
        step_after(stage, outcome) matches QueryStep::Run(next) ==> queries_left(next)
            < queries_left(stage),
{
}

/// After a snapshot was applied, a later one of the same thread is news just
/// where the agent is not idle and its status, the thread's name, the last
/// prompt or the project directory is another one.
pub proof fn only_changes_are_news(
    seen: SeenThreads,
    applied: AgentWatcherSnapshot<Seq<char>>,
    later: AgentWatcherSnapshot<Seq<char>>,
)
    requires
        later.agent == applied.agent,
        later.thread_id == applied.thread_id,
        later.thread_id is Some || later.project_dir == applied.project_dir,
    ensures
        is_news(after_applied(seen, applied), later) <==> later.status != AgentStatus::Idle && (
        later.status != applied.status || later.thread_name != applied.thread_name
            || later.last_user_prompt != applied.last_user_prompt || later.project_dir
            != applied.project_dir),
{
}

/// The first snapshot of a thread is news unless the agent is idle, and what
/// is news of a thread does not change with what is applied of another thread
/// of that agent.
pub proof fn threads_do_not_disturb_each_other(
    seen: SeenThreads,
    applied: AgentWatcherSnapshot<Seq<char>>,
    later: AgentWatcherSnapshot<Seq<char>>,
    thread: Seq<char>,
    other: Seq<char>,
)
    requires
        later.agent == applied.agent,
        thread != other,
        applied.thread_id == Some(thread) || applied.thread_id is None && applied.project_dir
            == Some(thread) || applied.thread_id is None && applied.project_dir is None
            && thread.len() == 0,
        later.thread_id == Some(other) || later.thread_id is None && later.project_dir == Some(
            other,
        ) || later.thread_id is None && later.project_dir is None && other.len() == 0,
    ensures
        is_news(Map::empty(), later) <==> later.status != AgentStatus::Idle,
        is_news(after_applied(seen, applied), later) <==> is_news(seen, later),
{
    assert(Seq::<char>::empty() =~= thread || thread.len() > 0);
    assert(Seq::<char>::empty() =~= other || other.len() > 0);
    let agent = applied.agent;
    let key = thread_key(agent, thread);
    let other_key = thread_key(agent, other);
    if key == other_key {
        let n = agent.len() as int + 1;
        assert(key.skip(n) =~= thread);
        assert(other_key.skip(n) =~= other);
    }
}

/// A file is recent for five minutes, up to the last millisecond, and one that
/// was written later than now is recent too.
pub proof fn files_stay_recent_for_five_minutes(now: u64, mtime_ms: u64)
    ensures
        is_recent_at(now, mtime_ms) <==> now <= mtime_ms + 5 * 60 * 1000,
        0 < mtime_ms ==> (is_recent_at(now, mtime_ms) <==> stale_threshold(now) <= mtime_ms),
        stale_threshold(now) + 300_000 >= now,
        now >= 300_000 ==> stale_threshold(now) + 300_000 == now,
        now < 300_000 ==> stale_threshold(now) == 0,
{
}

/// What sqlite printed is read once it succeeded. The query is run again
/// without the prompt column where the full one could not be run or failed,
/// and once more where the second one failed too.
pub proof fn queries_fall_back_without_prompts(stage: QueryStage, outcome: Option<bool>)
    ensures
        step_after(stage, outcome) == QueryStep::Read <==> outcome == Some(true),
        step_after(stage, outcome) == QueryStep::Run(QueryStage::Legacy) <==> stage
            == QueryStage::Full && outcome is None,
        step_after(stage, outcome) == QueryStep::Run(QueryStage::LegacyRetry) <==> stage
            != QueryStage::LegacyRetry && outcome == Some(false),
        step_after(stage, outcome) != QueryStep::Run(QueryStage::Full),
{
}

/// The full query asks for the prompt of a session and the other one does not;
/// apart from that they are the same, and both ask for the sessions that were
/// updated in the last five minutes.
pub proof fn queries_differ_in_the_prompt_alone(now: u64)
    ensures
        opencode_query(now, false) == OPENCODE_RECENT@ + decimal(stale_threshold(now))
            + OPENCODE_COLUMNS@ + OPENCODE_ORDER@,
        opencode_query(now, true) == OPENCODE_RECENT@ + decimal(stale_threshold(now))
            + OPENCODE_COLUMNS@ + OPENCODE_PROMPT@ + OPENCODE_ORDER@,
{
    assert(opencode_query(now, false) =~= OPENCODE_RECENT@ + decimal(stale_threshold(now))
        + OPENCODE_COLUMNS@ + OPENCODE_ORDER@);
}

/// A line of sqlite's output gives a row: its first five fields are the id, the
/// title, the directory, the time and the message, and a sixth is the prompt.
/// A title or prompt that is empty is none, and a time that is no number is
/// now.
pub proof fn rows_are_read_field_by_field(
    id: Seq<char>,
    title: Seq<char>,
    directory: Seq<char>,
    time: Seq<char>,
    message: Seq<char>,
    prompt: Seq<char>,
    now: u64,
)
    requires
        !id.contains('\u{1f}'),
        !title.contains('\u{1f}'),
        !directory.contains('\u{1f}'),
        !time.contains('\u{1f}'),
        !message.contains('\u{1f}'),
        !prompt.contains('\u{1f}'),
    ensures
        ({
            let mark = seq!['\u{1f}'];
            let line = id + mark + (title + mark + (directory + mark + (time + mark + message)));
            let longer = id + mark + (title + mark + (directory + mark + (time + mark + (message
                + mark + prompt))));
            let short = opencode_row(line, now);
            let long = opencode_row(longer, now);
            &&& message.len() == 0 <==> short is None
            &&& message.len() == 0 <==> long is None
            &&& opencode_row(id + mark + (title + mark + (directory + mark + time)), now) is None
            &&& short matches Some(row) ==> {
                &&& row.id == id
                &&& row.title == (if title.len() == 0 {
                    None
                } else {
                    Some(title)
                })
                &&& row.directory == directory
                &&& parse_unsigned(time, u64::MAX as nat) matches Some(n) ==> row.time_updated == n
                &&& parse_unsigned(time, u64::MAX as nat) is None ==> row.time_updated == now
                &&& row.message == message
                &&& row.prompt is None
                &&& long == Some(
                    OpencodeRow {
                        prompt: if prompt.len() == 0 {
                            None
                        } else {
                            Some(prompt)
                        },
                        ..row
                    },
                )
            }
        }),
{
    let sep = OPENCODE_SQL_SEP;
    assert(sep == '\u{1f}');
    let mark = seq!['\u{1f}'];
    let a4 = time + mark + message;
    let a3 = directory + mark + a4;
    let a2 = title + mark + a3;
    let b5 = message + mark + prompt;
    let b4 = time + mark + b5;
    let b3 = directory + mark + b4;
    let b2 = title + mark + b3;
    let c3 = directory + mark + time;
    let c2 = title + mark + c3;
    split_takes_part_after_part(message, sep, prompt);
    split_takes_part_after_part(prompt, sep, prompt);
    split_takes_part_after_part(time, sep, message);
    split_takes_part_after_part(time, sep, b5);
    split_takes_part_after_part(directory, sep, a4);
    split_takes_part_after_part(directory, sep, b4);
    split_takes_part_after_part(directory, sep, time);
    split_takes_part_after_part(title, sep, a3);
    split_takes_part_after_part(title, sep, b3);
    split_takes_part_after_part(title, sep, c3);
    split_takes_part_after_part(id, sep, a2);
    split_takes_part_after_part(id, sep, b2);
    split_takes_part_after_part(id, sep, c2);
    assert(split(id + mark + a2, mark) =~= seq![id, title, directory, time, message]);
    assert(split(id + mark + b2, mark) =~= seq![id, title, directory, time, message, prompt]);
    assert(split(id + mark + c2, mark) =~= seq![id, title, directory, time]);
}

/// The rows of the lines stand in the order of the lines, and a line that
/// gives no row is passed over.
pub proof fn rows_stand_in_the_order_of_their_lines(
    first: Seq<Seq<char>>,
    more: Seq<Seq<char>>,
    line: Seq<char>,
    row: OpencodeRow<Seq<char>>,
    now: u64,
)
    ensures
        opencode_rows(first + more, now) == opencode_rows(first, now) + opencode_rows(more, now),
        opencode_row(line, now) is None ==> opencode_rows(seq![line], now) == Seq::<
            OpencodeRow<Seq<char>>,
        >::empty(),
        opencode_row(line, now) == Some(row) ==> opencode_rows(seq![line], now) == seq![row],
    decreases more.len(),
{
    reveal_with_fuel(opencode_rows, 2);
    assert(seq![line].drop_last() =~= Seq::<Seq<char>>::empty());
    if opencode_row(line, now) is Some {
        assert(opencode_rows(seq![line], now) =~= seq![opencode_row(line, now)->0]);
    }
    if more.len() == 0 {
        assert(first + more =~= first);
        assert(opencode_rows(first, now) + opencode_rows(more, now) =~= opencode_rows(first, now));
    } else {
        rows_stand_in_the_order_of_their_lines(first, more.drop_last(), line, row, now);
        assert((first + more).drop_last() =~= first + more.drop_last());
        assert(opencode_rows(first + more, now) =~= opencode_rows(first, now) + opencode_rows(
            more,
            now,
        ));
    }
}

/// A process that has ended is collected, and one that has not is killed once
/// its time is over, and not before.
pub proof fn processes_are_killed_when_their_time_is_over(elapsed_ms: u64, timeout_ms: u64)
    ensures
        poll_at(true, elapsed_ms, timeout_ms) == ProcessPoll::Collect,
        poll_at(false, elapsed_ms, timeout_ms) == ProcessPoll::Kill <==> timeout_ms <= elapsed_ms,
        poll_at(false, elapsed_ms, timeout_ms) == ProcessPoll::Wait <==> elapsed_ms < timeout_ms,
{
}

/// Fingerprints and rows are taken for what they hold, field by field.
pub proof fn fingerprints_and_rows_are_taken_whole(
    fingerprint: AgentWatcherFingerprint<String>,
    row: OpencodeRow<String>,
)
    ensures
        fingerprint_values(fingerprint).status == fingerprint.status,
        fingerprint_values(fingerprint).thread_name == text_of(fingerprint.thread_name),
        fingerprint_values(fingerprint).last_user_prompt == text_of(fingerprint.last_user_prompt),
        fingerprint_values(fingerprint).project_dir == text_of(fingerprint.project_dir),
        row_texts(row).id == row.id@,
        row_texts(row).title == text_of(row.title),
        row_texts(row).directory == row.directory@,
        row_texts(row).time_updated == row.time_updated,
        row_texts(row).message == row.message@,
        row_texts(row).prompt == text_of(row.prompt),
{
}

} // verus!
