//! The pi processes that have reported themselves, each for a limited time.

use std::collections::HashMap;

use vstd::prelude::*;
use vstd::set_lib::{lemma_len_subset, FiniteFull};

use crate::json::{has_member, text_at, unsigned_at, JsonBody, JsonField, JsonMembers};
use crate::text::{chars_of, string_of, trim, trimmed, CharClass};
use crate::text_map::{copy_text, text_of};

verus! {

broadcast use vstd::std_specs::hash::group_hash_axioms;

/// How long a report stays valid by default, in milliseconds.
pub const DEFAULT_TTL_MS: u64 = 20_000;

/// What a pi process reports of itself.
#[derive(Debug, PartialEq)]
pub struct PiRuntimeInfo {
    pub pid: u32,
    pub ppid: Option<u32>,
    pub session_id: String,
    pub session_file: Option<String>,
    pub cwd: String,
    pub session_name: Option<String>,
    pub ts: u64,
}

/// A report, as plain values.
pub struct PiRuntimeView {
    pub pid: u32,
    pub ppid: Option<u32>,
    pub session_id: Seq<char>,
    pub session_file: Option<Seq<char>>,
    pub cwd: Seq<char>,
    pub session_name: Option<Seq<char>>,
    pub ts: u64,
}

impl View for PiRuntimeInfo {
    type V = PiRuntimeView;

    open spec fn view(&self) -> PiRuntimeView {
        PiRuntimeView {
            pid: self.pid,
            ppid: self.ppid,
            session_id: self.session_id@,
            session_file: text_of(self.session_file),
            cwd: self.cwd@,
            session_name: text_of(self.session_name),
            ts: self.ts,
        }
    }
}

impl Clone for PiRuntimeInfo {
    fn clone(&self) -> (copy: PiRuntimeInfo)
        ensures
            copy == *self,
    {
        PiRuntimeInfo {
            pid: self.pid,
            ppid: self.ppid,
            session_id: self.session_id.clone(),
            session_file: copy_text(&self.session_file),
            cwd: self.cwd.clone(),
            session_name: copy_text(&self.session_name),
            ts: self.ts,
        }
    }
}

/// The registry: the last report of each process.
#[derive(Debug)]
pub struct PiRuntimeRegistry {
    by_pid: HashMap<u32, PiRuntimeInfo>,
    ttl_ms: u64,
}

/// Whether a report is older than the time it stays valid.
pub open spec fn is_stale(info: PiRuntimeInfo, now: u64, ttl_ms: u64) -> bool {
    now - info.ts > ttl_ms
}

/// The reports that are still valid.
pub open spec fn fresh_reports(
    reports: Map<u32, PiRuntimeInfo>,
    now: u64,
    ttl_ms: u64,
) -> Map<u32, PiRuntimeInfo> {
    Map::new(
        |pid: u32| reports.contains_key(pid) && !is_stale(reports[pid], now, ttl_ms),
        |pid: u32| reports[pid],
    )
}

impl View for PiRuntimeRegistry {
    type V = Map<u32, PiRuntimeInfo>;

    closed spec fn view(&self) -> Map<u32, PiRuntimeInfo> {
        self.by_pid@
    }
}

impl Clone for PiRuntimeRegistry {
    fn clone(&self) -> (copy: PiRuntimeRegistry)
        ensures
            copy@ == self@,
            copy.ttl() == self.ttl(),
    {
        PiRuntimeRegistry { by_pid: self.by_pid.clone(), ttl_ms: self.ttl_ms }
    }
}

fn stale(info: &PiRuntimeInfo, now: u64, ttl_ms: u64) -> (yes: bool)
    ensures
        yes == is_stale(*info, now, ttl_ms),
{
    now.saturating_sub(info.ts) > ttl_ms
}

impl PiRuntimeRegistry {
    /// How long a report stays valid, in milliseconds.
    pub closed spec fn ttl(&self) -> u64 {
        self.ttl_ms
    }

    /// A registry without reports.
    pub fn new(ttl_ms: u64) -> (registry: PiRuntimeRegistry)
        ensures
            registry@ == Map::<u32, PiRuntimeInfo>::empty(),
            registry.ttl() == ttl_ms,
    {
        PiRuntimeRegistry { by_pid: HashMap::new(), ttl_ms }
    }

    /// A registry without reports, which stay valid for the default time.
    pub fn with_default_ttl() -> (registry: PiRuntimeRegistry)
        ensures
            registry@ == Map::<u32, PiRuntimeInfo>::empty(),
            registry.ttl() == DEFAULT_TTL_MS,
    {
        Self::new(DEFAULT_TTL_MS)
    }

    /// Takes a report, in place of an earlier one of the same process.
    pub fn upsert(&mut self, info: PiRuntimeInfo)
        ensures
            final(self)@ == old(self)@.insert(info.pid, info),
            final(self).ttl() == old(self).ttl(),
    {
        let _ = self.by_pid.insert(info.pid, info);
    }

    /// Removes the report of a process and gives it back.
    pub fn delete(&mut self, pid: u32) -> (removed: Option<PiRuntimeInfo>)
        ensures
            final(self)@ == old(self)@.remove(pid),
            final(self).ttl() == old(self).ttl(),
            removed == if old(self)@.contains_key(pid) {
                Some(old(self)@[pid])
            } else {
                None
            },
    {
        self.by_pid.remove(&pid)
    }

    /// The report of a process, if it is still valid. One that is not is
    /// removed.
    pub fn get(&mut self, pid: u32, now: u64) -> (info: Option<PiRuntimeInfo>)
        ensures
            info == found(old(self)@, pid, now, old(self).ttl()),
            final(self).ttl() == old(self).ttl(),
            final(self)@ == after_get(old(self)@, pid, now, old(self).ttl()),
    {
        let info = match self.by_pid.get(&pid) {
            Some(info) => info.clone(),
            None => {
                return None;
            },
        };
        if stale(&info, now, self.ttl_ms) {
            let _ = self.by_pid.remove(&pid);
            return None;
        }
        Some(info)
    }

    /// Removes the reports that are no longer valid, and says whether there
    /// were any.
    pub fn prune(&mut self, now: u64) -> (changed: bool)
        ensures
            final(self)@ == fresh_reports(old(self)@, now, old(self).ttl()),
            final(self).ttl() == old(self).ttl(),
            final(self)@.dom().finite(),
            changed == (final(self)@ != old(self)@),
    {
        let ghost before = self.by_pid@;
        let mut expired: Vec<u32> = Vec::new();
        for entry in it: self.by_pid.iter()
            invariant
                self.by_pid@ == before,
                forall|pid: u32| #[trigger]
                    before.contains_key(pid) ==> exists|i: int|
                        0 <= i < it.seq().len() && *(#[trigger] it.seq()[i]).0 == pid,
                forall|i: int|
                    0 <= i < it.seq().len() ==> before.contains_key(*(#[trigger] it.seq()[i]).0)
                        && before[*it.seq()[i].0] == *it.seq()[i].1,
                forall|i: int|
                    0 <= i < it.index() ==> (is_stale(
                        *(#[trigger] it.seq()[i]).1,
                        now,
                        self.ttl_ms,
                    ) ==> expired@.contains(*it.seq()[i].0)),
                forall|k: int|
                    0 <= k < expired@.len() ==> before.contains_key(#[trigger] expired@[k])
                        && is_stale(before[expired@[k]], now, self.ttl_ms),
        {
            let ghost earlier = expired@;
            if stale(entry.1, now, self.ttl_ms) {
                expired.push(*entry.0);
                proof {
                    assert(expired@.last() == *entry.0);
                    assert forall|pid: u32| earlier.contains(pid) implies expired@.contains(
                        pid,
                    ) by {
                        let k = choose|k: int| 0 <= k < earlier.len() && earlier[k] == pid;
                        assert(expired@[k] == pid);
                    }
                }
            }
        }
        assert(forall|pid: u32|
            before.contains_key(pid) && is_stale(before[pid], now, self.ttl_ms)
                ==> expired@.contains(pid));
        let mut i: usize = 0;
        while i < expired.len()
            invariant
                i <= expired@.len(),
                self.ttl_ms == old(self).ttl_ms,
                forall|pid: u32| #[trigger]
                    self.by_pid@.contains_key(pid) == (before.contains_key(pid) && !expired@.take(
                        i as int,
                    ).contains(pid)),
                forall|pid: u32| #[trigger]
                    self.by_pid@.contains_key(pid) ==> self.by_pid@[pid] == before[pid],
            decreases expired@.len() - i,
        {
            let gone = expired[i];
            let _ = self.by_pid.remove(&gone);
            proof {
                let earlier = expired@.take(i as int);
                let later = expired@.take(i + 1);
                assert(later == earlier.push(gone));
                assert forall|pid: u32| later.contains(pid) == (earlier.contains(pid) || pid
                    == gone) by {
                    if earlier.contains(pid) {
                        let k = choose|k: int| 0 <= k < earlier.len() && earlier[k] == pid;
                        assert(later[k] == pid);
                    }
                    if pid == gone {
                        assert(later[i as int] == pid);
                    }
                }
            }
            i += 1;
        }
        assert(expired@.take(expired@.len() as int) == expired@);
        assert(self.by_pid@ =~= fresh_reports(before, now, self.ttl_ms));
        proof {
            if expired@.len() > 0 {
                assert(!self.by_pid@.contains_key(expired@[0]));
            } else {
                assert(self.by_pid@ =~= before);
            }
        }
        expired.len() > 0
    }

    /// How many reports are valid. Those that are not are removed.
    pub fn size(&mut self, now: u64) -> (size: usize)
        ensures
            final(self)@ == fresh_reports(old(self)@, now, old(self).ttl()),
            final(self).ttl() == old(self).ttl(),
            final(self)@.dom().finite(),
            size == final(self)@.len(),
            size == found_pids(old(self)@, now, old(self).ttl()).len(),
    {
        proof {
            size_counts_what_is_found(self@, now, self.ttl());
        }
        let _ = self.prune(now);
        self.by_pid.len()
    }
}

// ---------------------------------------------------------------------------
// Reading reports.
// ---------------------------------------------------------------------------

/// The member `name`, where it is an integer from 1 to 2^32 - 1.
pub open spec fn positive_at(body: JsonMembers, name: Seq<char>) -> Option<u32> {
    match unsigned_at(body, name) {
        Some(number) => if 0 < number <= u32::MAX {
            Some(number as u32)
        } else {
            None
        },
        None => None,
    }
}

/// The member `name` without white space around it, where it is a string and
/// something is left of it.
pub open spec fn solid_text_at(body: JsonMembers, name: Seq<char>) -> Option<Seq<char>> {
    match text_at(body, name) {
        Some(text) => if trim(text, CharClass::White).len() > 0 {
            Some(trim(text, CharClass::White))
        } else {
            None
        },
        None => None,
    }
}

/// The member `name` where it may be left out: a string that is empty counts
/// as left out, and what is no string is refused.
pub open spec fn optional_text_at(body: JsonMembers, name: Seq<char>) -> Option<
    Option<Seq<char>>,
> {
    if !has_member(body, name) {
        Some(None)
    } else {
        match text_at(body, name) {
            Some(text) => if text.len() > 0 {
                Some(Some(text))
            } else {
                Some(None)
            },
            None => None,
        }
    }
}

/// The report that a body holds.
pub open spec fn report_of(body: JsonMembers, now: u64) -> Option<PiRuntimeView> {
    let ppid_refused = has_member(body, "ppid"@) && positive_at(body, "ppid"@) is None;
    match (
        positive_at(body, "pid"@),
        solid_text_at(body, "sessionId"@),
        solid_text_at(body, "cwd"@),
        optional_text_at(body, "sessionFile"@),
        optional_text_at(body, "sessionName"@),
    ) {
        (Some(pid), Some(session_id), Some(cwd), Some(session_file), Some(session_name)) => {
            if ppid_refused {
                None
            } else {
                Some(
                    PiRuntimeView {
                        pid,
                        ppid: positive_at(body, "ppid"@),
                        session_id,
                        session_file,
                        cwd,
                        session_name,
                        ts: match unsigned_at(body, "ts"@) {
                            Some(ts) => ts,
                            None => now,
                        },
                    },
                )
            }
        },
        _ => None,
    }
}

/// Reads a process id, which is positive.
pub fn positive_u32(body: &JsonBody, name: &str) -> (number: Option<u32>)
    ensures
        number == positive_at(body@, name@),
{
    match body.unsigned(name) {
        Some(number) => if number > 0 && number <= u32::MAX as u64 {
            Some(number as u32)
        } else {
            None
        },
        None => None,
    }
}

fn non_empty_string(body: &JsonBody, name: &str) -> (text: Option<String>)
    ensures
        text_of(text) == solid_text_at(body@, name@),
{
    match body.text(name) {
        Some(text) => {
            let chars = chars_of(text);
            let inner = trimmed(chars.as_slice(), CharClass::White);
            if inner.len() > 0 {
                Some(string_of(inner))
            } else {
                None
            }
        },
        None => None,
    }
}

fn optional_non_empty_string(body: &JsonBody, name: &str) -> (text: Option<Option<String>>)
    ensures
        match text {
            Some(text) => optional_text_at(body@, name@) == Some(text_of(text)),
            None => optional_text_at(body@, name@) is None,
        },
{
    match body.get(name) {
        Some(JsonField::Text(text)) => if text.as_str().is_empty() {
            Some(None)
        } else {
            Some(Some(text.clone()))
        },
        Some(_) => None,
        None => Some(None),
    }
}

/// Reads the report that a body holds. One without a time of its own gets
/// the present time.
pub fn parse_pi_runtime_info(value: &JsonBody, now: u64) -> (info: Option<PiRuntimeInfo>)
    ensures
        match info {
            Some(info) => report_of(value@, now) == Some(info@),
            None => report_of(value@, now) is None,
        },
{
    let pid = positive_u32(value, "pid")?;
    let ppid = match value.get("ppid") {
        Some(_) => Some(positive_u32(value, "ppid")?),
        None => None,
    };
    let session_id = non_empty_string(value, "sessionId")?;
    let cwd = non_empty_string(value, "cwd")?;
    let session_file = optional_non_empty_string(value, "sessionFile")?;
    let session_name = optional_non_empty_string(value, "sessionName")?;
    let ts = match value.unsigned("ts") {
        Some(ts) => ts,
        None => now,
    };
    Some(PiRuntimeInfo { pid, ppid, session_id, session_file, cwd, session_name, ts })
}

// ---------------------------------------------------------------------------
// Laws.
// ---------------------------------------------------------------------------

/// What `get` finds under `pid` at a time.
pub open spec fn found(
    reports: Map<u32, PiRuntimeInfo>,
    pid: u32,
    now: u64,
    ttl_ms: u64,
) -> Option<PiRuntimeInfo> {
    if reports.contains_key(pid) && !is_stale(reports[pid], now, ttl_ms) {
        Some(reports[pid])
    } else {
        None
    }
}

/// What stays of the reports after a process was looked up.
pub open spec fn after_get(
    reports: Map<u32, PiRuntimeInfo>,
    pid: u32,
    now: u64,
    ttl_ms: u64,
) -> Map<u32, PiRuntimeInfo> {
    if found(reports, pid, now, ttl_ms) is None {
        reports.remove(pid)
    } else {
        reports
    }
}

/// A report that was taken is found until it is older than it may be, and not
/// after that; other processes are found as before.
pub proof fn upsert_then_get(
    reports: Map<u32, PiRuntimeInfo>,
    info: PiRuntimeInfo,
    other: u32,
    now: u64,
    ttl_ms: u64,
)
    ensures
        found(reports.insert(info.pid, info), info.pid, now, ttl_ms) == if now - info.ts <= ttl_ms {
            Some(info)
        } else {
            None
        },
        other != info.pid ==> found(reports.insert(info.pid, info), other, now, ttl_ms) == found(
            reports,
            other,
            now,
            ttl_ms,
        ),
{
}

/// A report that was deleted is not found, and no other is lost.
pub proof fn delete_then_get(
    reports: Map<u32, PiRuntimeInfo>,
    pid: u32,
    other: u32,
    now: u64,
    ttl_ms: u64,
)
    ensures
        found(reports.remove(pid), pid, now, ttl_ms) is None,
        other != pid ==> found(reports.remove(pid), other, now, ttl_ms) == found(
            reports,
            other,
            now,
            ttl_ms,
        ),
{
}

/// Pruning changes nothing of what is found from then on.
pub proof fn prune_keeps_found(
    reports: Map<u32, PiRuntimeInfo>,
    pid: u32,
    pruned: u64,
    now: u64,
    ttl_ms: u64,
)
    requires
        pruned <= now,
    ensures
        found(fresh_reports(reports, pruned, ttl_ms), pid, now, ttl_ms) == found(
            reports,
            pid,
            now,
            ttl_ms,
        ),
{
}

/// Pruning twice at one time is pruning once.
pub proof fn prune_is_idempotent(reports: Map<u32, PiRuntimeInfo>, now: u64, ttl_ms: u64)
    ensures
        fresh_reports(fresh_reports(reports, now, ttl_ms), now, ttl_ms) == fresh_reports(
            reports,
            now,
            ttl_ms,
        ),
{
    assert(fresh_reports(fresh_reports(reports, now, ttl_ms), now, ttl_ms) =~= fresh_reports(
        reports,
        now,
        ttl_ms,
    ));
}

/// The processes that `get` would find at a time.
pub open spec fn found_pids(
    reports: Map<u32, PiRuntimeInfo>,
    now: u64,
    ttl_ms: u64,
) -> Set<u32> {
    Set::new(|pid: u32| found(reports, pid, now, ttl_ms) is Some)
}

/// Processes are finitely many.
proof fn lemma_pids_are_finite(pids: Set<u32>)
    ensures
        pids.finite(),
{
    <u32 as FiniteFull>::full_properties();
    lemma_len_subset(pids, Set::<u32>::full());
}

/// The reports that are left after counting are just those that can be found
/// at that time, and the size is their number.
pub proof fn size_counts_what_is_found(reports: Map<u32, PiRuntimeInfo>, now: u64, ttl_ms: u64)
    ensures
        fresh_reports(reports, now, ttl_ms).dom() == found_pids(reports, now, ttl_ms),
        fresh_reports(reports, now, ttl_ms).len() == found_pids(reports, now, ttl_ms).len(),
        found_pids(reports, now, ttl_ms).finite(),
        forall|pid: u32| #[trigger]
            fresh_reports(reports, now, ttl_ms).contains_key(pid) ==> found(
                reports,
                pid,
                now,
                ttl_ms,
            ) == Some(fresh_reports(reports, now, ttl_ms)[pid]),
{
    lemma_pids_are_finite(found_pids(reports, now, ttl_ms));
    assert(fresh_reports(reports, now, ttl_ms).dom() =~= found_pids(reports, now, ttl_ms));
}

/// As the clock goes on, and no report comes in between, the size never grows.
/// Counting removes what is no longer valid for good: counted at a later time
/// it comes to what it would have come to without the earlier count, and an
/// earlier time brings nothing back.
pub proof fn sizes_never_grow(
    reports: Map<u32, PiRuntimeInfo>,
    earlier: u64,
    later: u64,
    ttl_ms: u64,
)
    requires
        earlier <= later,
    ensures
        fresh_reports(reports, later, ttl_ms).len() <= fresh_reports(reports, earlier, ttl_ms).len(),
        fresh_reports(reports, earlier, ttl_ms).len() <= reports.len(),
        fresh_reports(fresh_reports(reports, earlier, ttl_ms), later, ttl_ms) == fresh_reports(
            reports,
            later,
            ttl_ms,
        ),
        fresh_reports(fresh_reports(reports, later, ttl_ms), earlier, ttl_ms) == fresh_reports(
            reports,
            later,
            ttl_ms,
        ),
{
    let first = fresh_reports(reports, earlier, ttl_ms);
    let second = fresh_reports(reports, later, ttl_ms);
    lemma_pids_are_finite(reports.dom());
    lemma_pids_are_finite(first.dom());
    lemma_len_subset(first.dom(), reports.dom());
    lemma_len_subset(second.dom(), first.dom());
    assert(fresh_reports(first, later, ttl_ms) =~= second);
    assert(fresh_reports(second, earlier, ttl_ms) =~= second);
}

/// A report is stale once more than its time has passed since it was made, and
/// not before; one that was made later than now is not stale.
pub proof fn reports_are_valid_for_their_time(
    reports: Map<u32, PiRuntimeInfo>,
    pid: u32,
    now: u64,
    ttl_ms: u64,
)
    ensures
        found(reports, pid, now, ttl_ms) is Some <==> reports.contains_key(pid) && now
            <= reports[pid].ts + ttl_ms,
        found(reports, pid, now, ttl_ms) matches Some(info) ==> info == reports[pid],
        fresh_reports(reports, now, ttl_ms).contains_key(pid) <==> reports.contains_key(pid) && now
            <= reports[pid].ts + ttl_ms,
        fresh_reports(reports, now, ttl_ms).contains_key(pid) ==> fresh_reports(
            reports,
            now,
            ttl_ms,
        )[pid] == reports[pid],
        DEFAULT_TTL_MS == 20 * 1000,
{
}

/// A process is named by a number from 1 to 4294967295, and nothing else is
/// read as one.
pub proof fn processes_are_named_by_positive_numbers(
    body: JsonMembers,
    name: Seq<char>,
    number: u32,
)
    ensures
        positive_at(body, name) == Some(number) <==> 0 < number && unsigned_at(body, name) == Some(
            number as u64,
        ),
        unsigned_at(body, name) is None ==> positive_at(body, name) is None,
{
}

/// A text that must be given is read without the white around it and may not
/// be white alone. One that may be left out is read as it is, and is none
/// where it is empty or left out; anything but a text is refused.
pub proof fn texts_of_reports_are_read(body: JsonMembers, name: Seq<char>, text: Seq<char>)
    ensures
        solid_text_at(body, name) == Some(text) <==> 0 < text.len() && (text_at(
            body,
            name,
        ) matches Some(given) && trim(given, CharClass::White) == text),
        optional_text_at(body, name) == Some(Some(text)) <==> 0 < text.len() && body.contains_pair(
            name,
            JsonField::Text(text),
        ),
        optional_text_at(body, name) == Some(None::<Seq<char>>) <==> !body.contains_key(name) || (
        body[name] is Text && body[name]->Text_0.len() == 0),
        optional_text_at(body, name) is None <==> body.contains_key(name) && !(body[name] is Text),
{
}

/// A report is taken just where it names its process, its thread and its
/// directory, and nothing else that it gives is of the wrong kind; then it
/// says what its message says, and its time is now where it gives none.
pub proof fn reports_say_what_their_messages_say(body: JsonMembers, now: u64, ts: u64)
    ensures
        report_of(body, now) is Some <==> positive_at(body, "pid"@) is Some && solid_text_at(
            body,
            "sessionId"@,
        ) is Some && solid_text_at(body, "cwd"@) is Some && optional_text_at(
            body,
            "sessionFile"@,
        ) is Some && optional_text_at(body, "sessionName"@) is Some && (!body.contains_key("ppid"@)
            || positive_at(body, "ppid"@) is Some),
        report_of(body, now) matches Some(report) ==> {
            &&& Some(report.pid) == positive_at(body, "pid"@)
            &&& report.ppid == positive_at(body, "ppid"@)
            &&& Some(report.session_id) == solid_text_at(body, "sessionId"@)
            &&& Some(report.session_file) == optional_text_at(body, "sessionFile"@)
            &&& Some(report.cwd) == solid_text_at(body, "cwd"@)
            &&& Some(report.session_name) == optional_text_at(body, "sessionName"@)
            &&& unsigned_at(body, "ts"@) == Some(ts) ==> report.ts == ts
            &&& unsigned_at(body, "ts"@) is None ==> report.ts == now
        },
{
}

/// A report is taken for what it holds, field by field.
pub proof fn reports_are_taken_whole(info: PiRuntimeInfo)
    ensures
        info@.pid == info.pid,
        info@.ppid == info.ppid,
        info@.session_id == info.session_id@,
        info@.session_file == text_of(info.session_file),
        info@.cwd == info.cwd@,
        info@.session_name == text_of(info.session_name),
        info@.ts == info.ts,
{
}

/// Looking up a process forgets it where its report is stale, and touches no
/// other; a report that is found stays.
pub proof fn lookups_forget_what_is_stale(
    reports: Map<u32, PiRuntimeInfo>,
    pid: u32,
    other: u32,
    now: u64,
    ttl_ms: u64,
)
    ensures
        found(reports, pid, now, ttl_ms) is Some ==> after_get(reports, pid, now, ttl_ms) == reports,
        after_get(reports, pid, now, ttl_ms).contains_key(pid) <==> found(
            reports,
            pid,
            now,
            ttl_ms,
        ) is Some,
        other != pid ==> (after_get(reports, pid, now, ttl_ms).contains_key(other)
            <==> reports.contains_key(other)) && after_get(reports, pid, now, ttl_ms)[other]
            == reports[other],
{
}

} // verus!
