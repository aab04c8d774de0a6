//! Sessions as the providers list them.

use vstd::prelude::*;

use crate::project_dir_session::{
    build_dir_session_map, claims, dir_map_holds_the_sessions, has_candidates,
    has_candidates_for_project_dir, names_by_dir, relates, resolve_session_for_project_dir,
    resolved, resolving_needs_candidates, session_texts, the_only_strongest_claim_resolves, Match,
};
use crate::sorting::{is_sort_of, sorted, views, Ordered};
use crate::text::{
    lemma_precedes_asymmetric, lemma_precedes_total, lemma_precedes_transitive, precedes,
    same_text, text_precedes,
};
use crate::text_map::{str_of, text_of, texts};

verus! {

/// A session, as a provider lists it.
#[derive(Debug, PartialEq, Eq)]
pub struct MuxSessionInfo {
    pub name: String,
    pub created_at: u64,
    pub dir: String,
    pub windows: u32,
}

/// A session, as plain values.
pub struct MuxSessionView {
    pub name: Seq<char>,
    pub created_at: u64,
    pub dir: Seq<char>,
    pub windows: u32,
}

impl View for MuxSessionInfo {
    type V = MuxSessionView;

    open spec fn view(&self) -> MuxSessionView {
        MuxSessionView {
            name: self.name@,
            created_at: self.created_at,
            dir: self.dir@,
            windows: self.windows,
        }
    }
}

/// The sessions that a list holds.
pub open spec fn session_views(sessions: Seq<MuxSessionInfo>) -> Seq<MuxSessionView> {
    sessions.map_values(|session: MuxSessionInfo| session@)
}

/// The sessions that each provider lists, the local provider first.
pub open spec fn listing_views(listings: Seq<Vec<MuxSessionInfo>>) -> Seq<Seq<MuxSessionView>> {
    listings.map_values(|sessions: Vec<MuxSessionInfo>| session_views(sessions@))
}

// ---------------------------------------------------------------------------
// Which provider owns a session.
// ---------------------------------------------------------------------------

/// Whether a listing has a session of a name.
pub open spec fn lists(sessions: Seq<MuxSessionView>, name: Seq<char>) -> bool {
    exists|i: int| 0 <= i < sessions.len() && (#[trigger] sessions[i]).name == name
}

/// Whether any listing has a session of a name.
pub open spec fn listed_anywhere(listings: Seq<Seq<MuxSessionView>>, name: Seq<char>) -> bool {
    exists|i: int| 0 <= i < listings.len() && lists(#[trigger] listings[i], name)
}

/// Whether provider `i` is the one to turn to for a session: the first that
/// lists it or, where none does, the first of all.
pub open spec fn owns(listings: Seq<Seq<MuxSessionView>>, name: Seq<char>, i: int) -> bool {
    &&& 0 <= i < listings.len()
    &&& if listed_anywhere(listings, name) {
        lists(listings[i], name) && forall|j: int| 0 <= j < i ==> !lists(#[trigger] listings[j], name)
    } else {
        i == 0
    }
}

/// Decides whether a listing has a session of a name.
pub fn has_session(sessions: &Vec<MuxSessionInfo>, name: &str) -> (yes: bool)
    ensures
        yes == lists(session_views(sessions@), name@),
{
    let ghost all = session_views(sessions@);
    let mut i: usize = 0;
    while i < sessions.len()
        invariant
            i <= sessions@.len(),
            all == session_views(sessions@),
            forall|j: int| 0 <= j < i ==> (#[trigger] all[j]).name != name@,
        decreases sessions@.len() - i,
    {
        assert(all[i as int] == sessions@[i as int]@);
        if same_text(sessions[i].name.as_str(), name) {
            return true;
        }
        i += 1;
    }
    false
}

/// Decides whether any listing has a session of a name.
pub fn any_has_session(listings: &Vec<Vec<MuxSessionInfo>>, name: &str) -> (yes: bool)
    ensures
        yes == listed_anywhere(listing_views(listings@), name@),
{
    let ghost all = listing_views(listings@);
    let mut i: usize = 0;
    while i < listings.len()
        invariant
            i <= listings@.len(),
            all == listing_views(listings@),
            forall|j: int| 0 <= j < i ==> !lists(#[trigger] all[j], name@),
        decreases listings@.len() - i,
    {
        assert(all[i as int] == session_views(listings@[i as int]@));
        if has_session(&listings[i], name) {
            return true;
        }
        i += 1;
    }
    false
}

/// The provider to turn to for a session: the first that lists it. A session
/// that none lists, because it was just killed or because a client is behind,
/// goes to the first provider, so that no command is dropped.
pub fn provider_for_session(listings: &Vec<Vec<MuxSessionInfo>>, session: &str) -> (provider: Option<
    usize,
>)
    ensures
        match provider {
            Some(i) => owns(listing_views(listings@), session@, i as int),
            None => listings@.len() == 0,
        },
{
    let ghost all = listing_views(listings@);
    let mut i: usize = 0;
    while i < listings.len()
        invariant
            i <= listings@.len(),
            all == listing_views(listings@),
            forall|j: int| 0 <= j < i ==> !lists(#[trigger] all[j], session@),
        decreases listings@.len() - i,
    {
        assert(all[i as int] == session_views(listings@[i as int]@));
        if has_session(&listings[i], session) {
            assert(lists(all[i as int], session@));
            return Some(i);
        }
        i += 1;
    }
    if listings.len() > 0 {
        Some(0)
    } else {
        None
    }
}

// ---------------------------------------------------------------------------
// The order of sessions.
// ---------------------------------------------------------------------------

/// What sessions are ordered by: the time they were made, then their name.
#[derive(Debug)]
pub struct SessionKey {
    pub created_at: u64,
    pub name: String,
}

impl View for SessionKey {
    type V = (u64, Seq<char>);

    open spec fn view(&self) -> (u64, Seq<char>) {
        (self.created_at, self.name@)
    }
}

impl Ordered for SessionKey {
    open spec fn before(a: (u64, Seq<char>), b: (u64, Seq<char>)) -> bool {
        a.0 < b.0 || (a.0 == b.0 && precedes(a.1, b.1))
    }

    fn is_before(&self, other: &SessionKey) -> (yes: bool) {
        self.created_at < other.created_at || (self.created_at == other.created_at
            && text_precedes(self.name.as_str(), other.name.as_str()))
    }

    proof fn order_is_total(a: (u64, Seq<char>), b: (u64, Seq<char>)) {
        lemma_precedes_total(a.1, b.1);
        lemma_precedes_asymmetric(a.1, b.1);
    }

    proof fn order_is_transitive(a: (u64, Seq<char>), b: (u64, Seq<char>), c: (u64, Seq<char>)) {
        if a.0 == b.0 && b.0 == c.0 {
            lemma_precedes_transitive(a.1, b.1, c.1);
        }
    }
}

/// The keys of the sessions of a listing.
pub open spec fn session_keys(sessions: Seq<MuxSessionView>) -> Seq<(u64, Seq<char>)> {
    sessions.map_values(|session: MuxSessionView| (session.created_at, session.name))
}

/// The keys of all sessions, listing by listing.
pub open spec fn all_keys(listings: Seq<Seq<MuxSessionView>>) -> Seq<(u64, Seq<char>)>
    decreases listings.len(),
{
    if listings.len() == 0 {
        Seq::empty()
    } else {
        all_keys(listings.drop_last()) + session_keys(listings.last())
    }
}

/// Whether `names` are the names of all sessions, the oldest session first
/// and sessions of one time by their name.
pub open spec fn names_in_order(
    listings: Seq<Seq<MuxSessionView>>,
    names: Seq<Seq<char>>,
) -> bool {
    exists|keys: Seq<(u64, Seq<char>)>| #[trigger]
        is_sort_of::<SessionKey>(all_keys(listings), keys) && names == keys.map_values(
            |key: (u64, Seq<char>)| key.1,
        )
}

fn add_keys(keys: &mut Vec<SessionKey>, sessions: &Vec<MuxSessionInfo>)
    ensures
        views(final(keys)@) == views(old(keys)@) + session_keys(session_views(sessions@)),
{
    let ghost all = session_keys(session_views(sessions@));
    let mut i: usize = 0;
    assert(views(keys@) =~= views(old(keys)@) + all.take(0));
    while i < sessions.len()
        invariant
            i <= sessions@.len(),
            all == session_keys(session_views(sessions@)),
            views(keys@) == views(old(keys)@) + all.take(i as int),
        decreases sessions@.len() - i,
    {
        let ghost before = keys@;
        let key = SessionKey {
            created_at: sessions[i].created_at,
            name: sessions[i].name.clone(),
        };
        keys.push(key);
        assert(views(keys@) =~= views(before).push(key@));
        assert(all.take(i + 1) =~= all.take(i as int).push(key@));
        i += 1;
        assert(views(keys@) =~= views(old(keys)@) + all.take(i as int));
    }
    assert(all.take(all.len() as int) == all);
}

/// The names of all sessions, the oldest session first and sessions of one
/// time by their name.
pub fn sorted_session_names(listings: &Vec<Vec<MuxSessionInfo>>) -> (names: Vec<String>)
    ensures
        names_in_order(listing_views(listings@), texts(names@)),
{
    let mut keys: Vec<SessionKey> = Vec::new();
    let ghost all = listing_views(listings@);
    let mut i: usize = 0;
    assert(views(keys@) =~= all_keys(all.take(0)));
    while i < listings.len()
        invariant
            i <= listings@.len(),
            all == listing_views(listings@),
            views(keys@) == all_keys(all.take(i as int)),
        decreases listings@.len() - i,
    {
        proof {
            assert(all.take(i + 1).drop_last() == all.take(i as int));
            assert(all.take(i + 1).last() == session_views(listings@[i as int]@));
        }
        add_keys(&mut keys, &listings[i]);
        i += 1;
    }
    assert(all.take(all.len() as int) == all);
    let keys = sorted(keys);
    let mut names: Vec<String> = Vec::new();
    let ghost ordered = views(keys@).map_values(|key: (u64, Seq<char>)| key.1);
    let mut k: usize = 0;
    assert(texts(names@) =~= ordered.take(0));
    while k < keys.len()
        invariant
            k <= keys@.len(),
            ordered == views(keys@).map_values(|key: (u64, Seq<char>)| key.1),
            texts(names@) == ordered.take(k as int),
        decreases keys@.len() - k,
    {
        let ghost before = names@;
        names.push(keys[k].name.clone());
        assert(texts(names@) =~= texts(before).push(ordered[k as int]));
        assert(ordered.take(k + 1) =~= ordered.take(k as int).push(ordered[k as int]));
        k += 1;
    }
    assert(ordered.take(ordered.len() as int) == ordered);
    names
}

// ---------------------------------------------------------------------------
// Positions in the list that is shown.
// ---------------------------------------------------------------------------

/// The first position of a name.
pub open spec fn position(names: Seq<Seq<char>>, name: Seq<char>) -> Option<int>
    decreases names.len(),
{
    if names.len() == 0 {
        None
    } else if names[0] == name {
        Some(0)
    } else {
        match position(names.drop_first(), name) {
            Some(i) => Some(i + 1),
            None => None,
        }
    }
}

/// The session shown before a session.
pub open spec fn shown_before(names: Seq<Seq<char>>, name: Seq<char>) -> Option<Seq<char>> {
    match position(names, name) {
        Some(i) => if i > 0 {
            Some(names[i - 1])
        } else {
            None
        },
        None => None,
    }
}

/// The session shown after a session.
pub open spec fn shown_after(names: Seq<Seq<char>>, name: Seq<char>) -> Option<Seq<char>> {
    match position(names, name) {
        Some(i) => if i + 1 < names.len() {
            Some(names[i + 1])
        } else {
            None
        },
        None => None,
    }
}

/// The session to go to when a session goes away: the one shown before it or,
/// where it is the first, the one shown after it.
pub open spec fn shown_neighbour(names: Seq<Seq<char>>, name: Seq<char>) -> Option<Seq<char>> {
    match shown_before(names, name) {
        Some(before) => Some(before),
        None => shown_after(names, name),
    }
}

/// `position` gives the least index of the name.
pub proof fn lemma_position(names: Seq<Seq<char>>, name: Seq<char>)
    ensures
        match position(names, name) {
            Some(i) => 0 <= i < names.len() && names[i] == name && forall|j: int|
                0 <= j < i ==> #[trigger] names[j] != name,
            None => !names.contains(name),
        },
    decreases names.len(),
{
    if names.len() > 0 && names[0] != name {
        lemma_position(names.drop_first(), name);
        match position(names.drop_first(), name) {
            Some(i) => {
                assert(names[i + 1] == names.drop_first()[i]);
                assert forall|j: int| 0 <= j < i + 1 implies #[trigger] names[j] != name by {
                    if j > 0 {
                        assert(names[j] == names.drop_first()[j - 1]);
                    }
                }
            },
            None => {
                if names.contains(name) {
                    let j = choose|j: int| 0 <= j < names.len() && names[j] == name;
                    assert(names.drop_first()[j - 1] == name);
                }
            },
        }
    }
}

/// Finds the first position of a name.
pub fn position_of(names: &Vec<String>, name: &str) -> (found: Option<usize>)
    ensures
        match found {
            Some(i) => i < names@.len() && position(texts(names@), name@) == Some(i as int),
            None => position(texts(names@), name@) is None,
        },
{
    let ghost all = texts(names@);
    proof {
        lemma_position(all, name@);
    }
    let mut i: usize = 0;
    while i < names.len()
        invariant
            i <= names@.len(),
            all == texts(names@),
            forall|j: int| 0 <= j < i ==> #[trigger] all[j] != name@,
        decreases names@.len() - i,
    {
        assert(all[i as int] == names@[i as int]@);
        if same_text(names[i].as_str(), name) {
            proof {
                lemma_position(all, name@);
                let p = position(all, name@);
                assert(all.contains(all[i as int]));
                if p->Some_0 < i {
                    assert(all[p->Some_0] == name@);
                } else if p->Some_0 > i {
                    assert(all[i as int] != name@);
                }
            }
            return Some(i);
        }
        i += 1;
    }
    proof {
        lemma_position(all, name@);
        if let Some(p) = position(all, name@) {
            assert(all[p] == name@);
        }
    }
    None
}

/// The session shown before a session.
pub fn session_before(names: &Vec<String>, name: &str) -> (before: Option<String>)
    ensures
        text_of(before) == shown_before(texts(names@), name@),
{
    match position_of(names, name) {
        Some(i) => if i > 0 {
            Some(names[i - 1].clone())
        } else {
            None
        },
        None => None,
    }
}

/// The session shown after a session.
pub fn session_after(names: &Vec<String>, name: &str) -> (after: Option<String>)
    ensures
        text_of(after) == shown_after(texts(names@), name@),
{
    let end = names.len();
    match position_of(names, name) {
        Some(i) => if i + 1 < end {
            Some(names[i + 1].clone())
        } else {
            None
        },
        None => None,
    }
}

/// The session to go to when a session goes away.
pub fn session_beside(names: &Vec<String>, name: &str) -> (beside: Option<String>)
    ensures
        text_of(beside) == shown_neighbour(texts(names@), name@),
{
    match session_before(names, name) {
        Some(before) => Some(before),
        None => session_after(names, name),
    }
}

/// The session at a place of a list, counted from 1.
pub open spec fn shown_at(names: Seq<Seq<char>>, index: int) -> Option<Seq<char>> {
    if 1 <= index <= names.len() {
        Some(names[index - 1])
    } else {
        None
    }
}

/// The session at a place of the list that is shown, counted from 1.
pub fn visible_at_index(names: &Vec<String>, index: u32) -> (name: Option<String>)
    ensures
        text_of(name) == shown_at(texts(names@), index as int),
{
    if index >= 1 && ((index - 1) as usize) < names.len() {
        Some(names[(index - 1) as usize].clone())
    } else {
        None
    }
}

/// The session to switch to before a session is killed: where it is the
/// current one, its neighbour in the list that is shown.
pub fn switch_before_kill(
    name: &str,
    current: Option<&str>,
    names: Option<&Vec<String>>,
) -> (next: Option<String>)
    ensures
        text_of(next) == match (str_of(current), names) {
            (Some(current), Some(names)) => if current == name@ {
                shown_neighbour(texts(names@), name@)
            } else {
                None
            },
            _ => None,
        },
{
    match (current, names) {
        (Some(current), Some(names)) => if same_text(current, name) {
            session_beside(names, name)
        } else {
            None
        },
        _ => None,
    }
}

// ---------------------------------------------------------------------------
// Which session a project directory belongs to, over all providers.
// ---------------------------------------------------------------------------

/// The names and directories of the sessions of a listing.
pub open spec fn names_and_dirs(sessions: Seq<MuxSessionView>) -> Seq<(Seq<char>, Seq<char>)> {
    sessions.map_values(|session: MuxSessionView| (session.name, session.dir))
}

/// What one provider makes of a project directory: nothing where it has no
/// candidate for it, and else the session, or none where its candidates cannot
/// be told apart.
pub open spec fn decided_in(project_dir: Seq<char>, sessions: Seq<MuxSessionView>) -> Option<
    Option<Seq<char>>,
> {
    let map = names_by_dir(names_and_dirs(sessions));
    if has_candidates(project_dir, map) {
        Some(resolved(project_dir, map))
    } else {
        None
    }
}

/// Whether none of the providers that were asked has a candidate for a project
/// directory, so that the next one is to be asked.
pub open spec fn undecided(project_dir: Seq<char>, listings: Seq<Seq<MuxSessionView>>) -> bool {
    forall|i: int|
        0 <= i < listings.len() ==> decided_in(project_dir, #[trigger] listings[i]) is None
}

/// The session of a project directory: what the first provider makes of it
/// that has any candidate for it.
pub open spec fn resolved_local_first(
    project_dir: Seq<char>,
    listings: Seq<Seq<MuxSessionView>>,
) -> Option<Seq<char>>
    decreases listings.len(),
{
    if listings.len() == 0 {
        None
    } else {
        match decided_in(project_dir, listings[0]) {
            Some(name) => name,
            None => resolved_local_first(project_dir, listings.drop_first()),
        }
    }
}

fn copy_names_and_dirs(sessions: &Vec<MuxSessionInfo>) -> (pairs: Vec<(String, String)>)
    ensures
        session_texts(pairs@) == names_and_dirs(session_views(sessions@)),
{
    let ghost all = names_and_dirs(session_views(sessions@));
    let mut pairs: Vec<(String, String)> = Vec::new();
    let mut i: usize = 0;
    assert(session_texts(pairs@) =~= all.take(0));
    while i < sessions.len()
        invariant
            i <= sessions@.len(),
            all == names_and_dirs(session_views(sessions@)),
            session_texts(pairs@) == all.take(i as int),
        decreases sessions@.len() - i,
    {
        let ghost before = pairs@;
        pairs.push((sessions[i].name.clone(), sessions[i].dir.clone()));
        assert(session_texts(pairs@) =~= session_texts(before).push(all[i as int]));
        assert(all.take(i + 1) =~= all.take(i as int).push(all[i as int]));
        i += 1;
    }
    assert(all.take(all.len() as int) == all);
    pairs
}

/// Decides a project directory by the sessions of one provider. Where that
/// gives nothing, the next provider is to be asked.
pub fn resolve_in_provider(sessions: &Vec<MuxSessionInfo>, project_dir: &str) -> (step: Option<
    Option<String>,
>)
    ensures
        match step {
            Some(name) => decided_in(project_dir@, session_views(sessions@)) == Some(text_of(name)),
            None => decided_in(project_dir@, session_views(sessions@)) is None,
        },
{
    let map = build_dir_session_map(copy_names_and_dirs(sessions));
    if has_candidates_for_project_dir(project_dir, &map) {
        Some(resolve_session_for_project_dir(project_dir, &map))
    } else {
        None
    }
}

/// Decides whether the next provider is to be asked for a project directory,
/// given the sessions of those that were.
pub fn needs_next_provider(listings: &Vec<Vec<MuxSessionInfo>>, project_dir: &str) -> (yes: bool)
    ensures
        yes == undecided(project_dir@, listing_views(listings@)),
{
    let ghost all = listing_views(listings@);
    let mut i: usize = 0;
    while i < listings.len()
        invariant
            i <= listings@.len(),
            all == listing_views(listings@),
            forall|j: int| 0 <= j < i ==> decided_in(project_dir@, #[trigger] all[j]) is None,
        decreases listings@.len() - i,
    {
        assert(all[i as int] == session_views(listings@[i as int]@));
        if resolve_in_provider(&listings[i], project_dir).is_some() {
            return false;
        }
        i += 1;
    }
    true
}

/// The session of a project directory, decided by the first provider, in
/// their order, that has any candidate for it. Providers are kept apart so
/// that a path on a remote machine cannot make the same local path ambiguous.
pub fn resolve_session_for_project_dir_local_first(
    listings: &Vec<Vec<MuxSessionInfo>>,
    project_dir: &str,
) -> (name: Option<String>)
    ensures
        text_of(name) == resolved_local_first(project_dir@, listing_views(listings@)),
{
    let ghost all = listing_views(listings@);
    assert(all.skip(0) == all);
    let mut i: usize = 0;
    while i < listings.len()
        invariant
            i <= listings@.len(),
            all == listing_views(listings@),
            resolved_local_first(project_dir@, all) == resolved_local_first(
                project_dir@,
                all.skip(i as int),
            ),
        decreases listings@.len() - i,
    {
        assert(all.skip(i as int)[0] == session_views(listings@[i as int]@));
        assert(all.skip(i as int).drop_first() == all.skip(i + 1));
        if let Some(name) = resolve_in_provider(&listings[i], project_dir) {
            return name;
        }
        i += 1;
    }
    None
}

// ---------------------------------------------------------------------------
// Laws.
// ---------------------------------------------------------------------------

/// A directory for which the first provider has a candidate is decided by
/// that provider alone: what the others list changes nothing, and where the
/// first cannot tell its candidates apart no other one steps in.
pub proof fn first_provider_with_candidates_decides(
    project_dir: Seq<char>,
    local: Seq<MuxSessionView>,
    others: Seq<Seq<MuxSessionView>>,
)
    requires
        has_candidates(project_dir, names_by_dir(names_and_dirs(local))),
    ensures
        resolved_local_first(project_dir, seq![local] + others) == resolved_local_first(
            project_dir,
            seq![local],
        ),
        resolved_local_first(project_dir, seq![local] + others) == resolved(
            project_dir,
            names_by_dir(names_and_dirs(local)),
        ),
{
    assert((seq![local] + others)[0] == local);
}

/// Once a provider has decided a directory, no later one has to be asked: its
/// sessions change nothing. Until then those that were asked do not count.
pub proof fn later_providers_do_not_matter(
    project_dir: Seq<char>,
    asked: Seq<Seq<MuxSessionView>>,
    later: Seq<Seq<MuxSessionView>>,
)
    ensures
        resolved_local_first(project_dir, asked + later) == if undecided(project_dir, asked) {
            resolved_local_first(project_dir, later)
        } else {
            resolved_local_first(project_dir, asked)
        },
    decreases asked.len(),
{
    if asked.len() == 0 {
        assert(asked + later =~= later);
    } else {
        let rest = asked.drop_first();
        assert((asked + later)[0] == asked[0]);
        assert((asked + later).drop_first() =~= rest + later);
        later_providers_do_not_matter(project_dir, rest, later);
        if decided_in(project_dir, asked[0]) is None {
            if undecided(project_dir, rest) {
                assert forall|i: int| 0 <= i < asked.len() implies decided_in(
                    project_dir,
                    #[trigger] asked[i],
                ) is None by {
                    if i > 0 {
                        assert(asked[i] == rest[i - 1]);
                    }
                }
            } else if undecided(project_dir, asked) {
                assert forall|i: int| 0 <= i < rest.len() implies decided_in(
                    project_dir,
                    #[trigger] rest[i],
                ) is None by {
                    assert(rest[i] == asked[i + 1]);
                }
            }
        }
    }
}

/// A directory resolves only to a session that some provider lists.
pub proof fn resolved_sessions_are_listed(
    project_dir: Seq<char>,
    listings: Seq<Seq<MuxSessionView>>,
)
    ensures
        resolved_local_first(project_dir, listings) matches Some(name) ==> listed_anywhere(
            listings,
            name,
        ),
    decreases listings.len(),
{
    if listings.len() > 0 && resolved_local_first(project_dir, listings) is Some {
        let name = resolved_local_first(project_dir, listings)->Some_0;
        let pairs = names_and_dirs(listings[0]);
        let map = names_by_dir(pairs);
        if has_candidates(project_dir, map) {
            resolving_needs_candidates(project_dir, map);
            let (dir, how) = choose|dir: Seq<char>, how: Match|
                map.contains_key(dir) && #[trigger] relates(project_dir, dir, how)
                    && map[dir].contains(name);
            dir_map_holds_the_sessions(pairs, name, dir);
            let i = choose|i: int| 0 <= i < pairs.len() && pairs[i] == (name, dir);
            assert(listings[0][i].name == name);
            assert(lists(listings[0], name));
        } else {
            resolved_sessions_are_listed(project_dir, listings.drop_first());
            let i = choose|i: int|
                0 <= i < listings.drop_first().len() && lists(
                    #[trigger] listings.drop_first()[i],
                    name,
                );
            assert(lists(listings[i + 1], name));
        }
    }
}

/// Where there are providers, every session has one to turn to, and just one.
pub proof fn every_session_has_one_owner(
    listings: Seq<Seq<MuxSessionView>>,
    name: Seq<char>,
    i: int,
    j: int,
)
    ensures
        listings.len() > 0 ==> exists|k: int| owns(listings, name, k),
        owns(listings, name, i) && owns(listings, name, j) ==> i == j,
{
    if listings.len() > 0 {
        if listed_anywhere(listings, name) {
            lemma_first_lister(listings, name, 0);
        } else {
            assert(owns(listings, name, 0));
        }
    }
    if owns(listings, name, i) && owns(listings, name, j) {
        if i < j {
            assert(!lists(listings[i], name));
        } else if j < i {
            assert(!lists(listings[j], name));
        }
    }
}

/// Once a provider lists a session, no later one has to be asked who owns it.
pub proof fn later_providers_do_not_own(
    asked: Seq<Seq<MuxSessionView>>,
    later: Seq<Seq<MuxSessionView>>,
    name: Seq<char>,
    i: int,
)
    requires
        listed_anywhere(asked, name),
    ensures
        owns(asked + later, name, i) == owns(asked, name, i),
{
    let whole = asked + later;
    let k = choose|k: int| 0 <= k < asked.len() && lists(#[trigger] asked[k], name);
    assert(whole[k] == asked[k]);
    assert(listed_anywhere(whole, name));
    assert forall|j: int| 0 <= j < asked.len() implies #[trigger] whole[j] == asked[j] by {}
    if owns(whole, name, i) && i > k {
        assert(!lists(whole[k], name));
    }
    if owns(whole, name, i) {
        assert forall|j: int| 0 <= j < i implies !lists(#[trigger] asked[j], name) by {
            assert(!lists(whole[j], name));
        }
    }
    if owns(asked, name, i) {
        assert forall|j: int| 0 <= j < i implies !lists(#[trigger] whole[j], name) by {
            assert(!lists(asked[j], name));
        }
    }
}

proof fn lemma_first_lister(listings: Seq<Seq<MuxSessionView>>, name: Seq<char>, from: int)
    requires
        0 <= from,
        listed_anywhere(listings, name),
        forall|j: int| 0 <= j < from ==> !lists(#[trigger] listings[j], name),
    ensures
        exists|k: int| owns(listings, name, k),
    decreases listings.len() - from,
{
    if from < listings.len() {
        if lists(listings[from], name) {
            assert(owns(listings, name, from));
        } else {
            lemma_first_lister(listings, name, from + 1);
        }
    } else {
        let i = choose|i: int| 0 <= i < listings.len() && lists(#[trigger] listings[i], name);
        assert(!lists(listings[i], name));
    }
}

/// In a list without repeated names, the neighbour of a session is another
/// session of the list, and there is one unless the session is alone or not
/// in the list.
pub proof fn neighbour_is_another_session(names: Seq<Seq<char>>, name: Seq<char>)
    requires
        names.no_duplicates(),
    ensures
        shown_neighbour(names, name) is Some <==> names.contains(name) && names.len() > 1,
        shown_neighbour(names, name) matches Some(beside) ==> beside != name && names.contains(
            beside,
        ),
{
    lemma_position(names, name);
    if let Some(i) = position(names, name) {
        assert(names.contains(names[i]));
    }
}

/// In a list without repeated names, going to the session after one and then
/// to the session before that leads back.
pub proof fn after_and_before_are_inverse(names: Seq<Seq<char>>, name: Seq<char>)
    requires
        names.no_duplicates(),
    ensures
        shown_after(names, name) matches Some(after) ==> shown_before(names, after) == Some(name),
        shown_before(names, name) matches Some(before) ==> shown_after(names, before) == Some(name),
{
    lemma_position(names, name);
    if let Some(after) = shown_after(names, name) {
        lemma_position(names, after);
    }
    if let Some(before) = shown_before(names, name) {
        lemma_position(names, before);
    }
}

/// The session before another in the list is its neighbour, and for the first
/// session it is the one after. A session that stands alone or is not in the
/// list has none.
pub proof fn neighbours_stand_side_by_side(names: Seq<Seq<char>>, i: int, other: Seq<char>)
    requires
        0 <= i < names.len(),
        forall|j: int| 0 <= j < i ==> #[trigger] names[j] != names[i],
        !names.contains(other),
    ensures
        0 < i ==> shown_before(names, names[i]) == Some(names[i - 1]) && shown_neighbour(
            names,
            names[i],
        ) == Some(names[i - 1]),
        i == 0 ==> shown_before(names, names[i]) is None,
        i + 1 < names.len() ==> shown_after(names, names[i]) == Some(names[i + 1]),
        i + 1 == names.len() ==> shown_after(names, names[i]) is None,
        i == 0 && 1 < names.len() ==> shown_neighbour(names, names[i]) == Some(names[1]),
        names.len() == 1 ==> shown_neighbour(names, names[i]) is None,
        shown_before(names, other) is None,
        shown_after(names, other) is None,
        shown_neighbour(names, other) is None,
{
    lemma_position(names, names[i]);
    lemma_position(names, other);
    assert(position(names, names[i]) == Some(i)) by {
        assert(names.contains(names[i]));
        if let Some(j) = position(names, names[i]) {
            if i < j {
                assert(names[i] != names[i]);
            } else if j < i {
                assert(names[j] != names[i]);
            }
        }
    }
}

/// The places of the list are counted from 1 to its length, and hold its
/// sessions in order.
pub proof fn places_are_counted_from_one(names: Seq<Seq<char>>, i: int, index: int)
    ensures
        0 <= i < names.len() ==> shown_at(names, i + 1) == Some(names[i]),
        shown_at(names, index) is Some <==> 0 < index <= names.len(),
{
}

/// A session belongs to the first provider that lists it, and one that no
/// provider lists to the first provider.
pub proof fn the_first_provider_that_lists_owns(
    listings: Seq<Seq<MuxSessionView>>,
    name: Seq<char>,
    i: int,
    k: int,
)
    ensures
        0 <= i < listings.len() && 0 <= k < listings[i].len() && listings[i][k].name == name && (
        forall|j: int, l: int|
            0 <= j < i && 0 <= l < listings[j].len() ==> (#[trigger] listings[j][l]).name != name)
            ==> owns(listings, name, i),
        0 < listings.len() && (forall|j: int, l: int|
            0 <= j < listings.len() && 0 <= l < listings[j].len() ==> (
            #[trigger] listings[j][l]).name != name) ==> owns(listings, name, 0),
{
    if 0 <= i < listings.len() && 0 <= k < listings[i].len() && listings[i][k].name == name && (
    forall|j: int, l: int|
        0 <= j < i && 0 <= l < listings[j].len() ==> (#[trigger] listings[j][l]).name != name) {
        assert(lists(listings[i], name));
        assert(listed_anywhere(listings, name));
        assert forall|j: int| 0 <= j < i implies !lists(#[trigger] listings[j], name) by {
            if lists(listings[j], name) {
                let l = choose|l: int|
                    0 <= l < listings[j].len() && (#[trigger] listings[j][l]).name == name;
                assert(listings[j][l].name != name);
            }
        }
    }
    if 0 < listings.len() && (forall|j: int, l: int|
        0 <= j < listings.len() && 0 <= l < listings[j].len() ==> (#[trigger] listings[j][l]).name
            != name) {
        if listed_anywhere(listings, name) {
            let j = choose|j: int| 0 <= j < listings.len() && lists(#[trigger] listings[j], name);
            let l = choose|l: int|
                0 <= l < listings[j].len() && (#[trigger] listings[j][l]).name == name;
            assert(listings[j][l].name != name);
        }
    }
}

/// Whether some provider lists a session of a name that was made at a time.
pub open spec fn made_at(listings: Seq<Seq<MuxSessionView>>, name: Seq<char>, time: u64) -> bool {
    exists|i: int, j: int|
        0 <= i < listings.len() && 0 <= j < listings[i].len() && (#[trigger] listings[i][j]).name
            == name && listings[i][j].created_at == time
}

proof fn lemma_all_keys(listings: Seq<Seq<MuxSessionView>>, time: u64, name: Seq<char>)
    ensures
        all_keys(listings).contains((time, name)) <==> made_at(listings, name, time),
    decreases listings.len(),
{
    if listings.len() > 0 {
        let front = listings.drop_last();
        let n = listings.len() - 1;
        let last = listings.last();
        lemma_all_keys(front, time, name);
        let keys = all_keys(listings);
        let before = all_keys(front);
        let own = session_keys(last);
        if keys.contains((time, name)) {
            let k = choose|k: int| 0 <= k < keys.len() && keys[k] == (time, name);
            if k < before.len() {
                assert(before[k] == (time, name));
                assert(made_at(front, name, time));
                let (i, j) = choose|i: int, j: int|
                    0 <= i < front.len() && 0 <= j < front[i].len() && (#[trigger] front[i][j]).name
                        == name && front[i][j].created_at == time;
                assert(listings[i][j].name == name);
            } else {
                let j = k - before.len();
                assert(own[j] == (time, name));
                assert(listings[n][j].name == name);
            }
        }
        if made_at(listings, name, time) {
            let (i, j) = choose|i: int, j: int|
                0 <= i < listings.len() && 0 <= j < listings[i].len() && (
                #[trigger] listings[i][j]).name == name && listings[i][j].created_at == time;
            if i < n {
                assert(front[i][j].name == name);
                let k = choose|k: int| 0 <= k < before.len() && before[k] == (time, name);
                assert(keys[k] == (time, name));
            } else {
                assert(own[j] == (time, name));
                assert(keys[before.len() + j] == (time, name));
            }
        }
    }
}

/// Whether the names are those of listed sessions that were made at the times,
/// the oldest first and those of one time by name.
pub open spec fn oldest_first(
    listings: Seq<Seq<MuxSessionView>>,
    names: Seq<Seq<char>>,
    times: Seq<u64>,
) -> bool {
    &&& times.len() == names.len()
    &&& forall|i: int| 0 <= i < names.len() ==> made_at(listings, names[i], #[trigger] times[i])
    &&& forall|i: int, j: int|
        0 <= i < j < names.len() ==> #[trigger] times[i] < #[trigger] times[j] || times[i]
            == times[j] && !precedes(names[j], names[i])
}

/// The list that is shown holds the sessions of all providers, the oldest
/// first and those of one time by name, and nothing else.
pub proof fn the_oldest_sessions_come_first(
    listings: Seq<Seq<MuxSessionView>>,
    names: Seq<Seq<char>>,
)
    requires
        names_in_order(listings, names),
    ensures
        forall|name: Seq<char>, time: u64| #[trigger]
            made_at(listings, name, time) ==> names.contains(name),
        exists|times: Seq<u64>| oldest_first(listings, names, times),
{
    let all = all_keys(listings);
    let keys = choose|keys: Seq<(u64, Seq<char>)>| #[trigger]
        is_sort_of::<SessionKey>(all, keys) && names == keys.map_values(
            |key: (u64, Seq<char>)| key.1,
        );
    all.to_multiset_ensures();
    keys.to_multiset_ensures();
    let times = keys.map_values(|key: (u64, Seq<char>)| key.0);
    assert forall|name: Seq<char>, time: u64| #[trigger]
        made_at(listings, name, time) implies names.contains(name) by {
        lemma_all_keys(listings, time, name);
        assert(all.to_multiset().contains((time, name)));
        assert(keys.contains((time, name)));
        let k = choose|k: int| 0 <= k < keys.len() && keys[k] == (time, name);
        assert(names[k] == name);
    }
    assert forall|i: int| 0 <= i < names.len() implies made_at(
        listings,
        names[i],
        #[trigger] times[i],
    ) by {
        assert(keys.to_multiset().contains(keys[i]));
        assert(all.contains(keys[i]));
        assert(keys[i] == (times[i], names[i]));
        lemma_all_keys(listings, times[i], names[i]);
    }
    assert forall|i: int, j: int| 0 <= i < j < names.len() implies #[trigger] times[i]
        < #[trigger] times[j] || times[i] == times[j] && !precedes(names[j], names[i]) by {
        assert(!SessionKey::before(keys[j], keys[i]));
        assert(keys[j] == (times[j], names[j]));
        assert(keys[i] == (times[i], names[i]));
    }
    assert(oldest_first(listings, names, times));
}

/// A directory in which every session has one name is decided for that name,
/// and one that no session's directory matches in any way is left to the next
/// provider.
pub proof fn sessions_decide_by_their_directories(
    project_dir: Seq<char>,
    sessions: Seq<MuxSessionView>,
    i: int,
)
    ensures
        0 < project_dir.len() && 0 <= i < sessions.len() && sessions[i].dir == project_dir && (
        forall|j: int|
            0 <= j < sessions.len() && (#[trigger] sessions[j]).dir == project_dir
                ==> sessions[j].name == sessions[i].name) ==> decided_in(project_dir, sessions)
            == Some(Some(sessions[i].name)),
        decided_in(project_dir, sessions) is Some <==> exists|j: int, how: Match|
            0 <= j < sessions.len() && 0 < sessions[j].dir.len() && #[trigger] relates(
                project_dir,
                sessions[j].dir,
                how,
            ),
{
    let pairs = names_and_dirs(sessions);
    let map = names_by_dir(pairs);
    assert forall|how: Match, name: Seq<char>|
        #![trigger claims(project_dir, map, how, name)]
        claims(project_dir, map, how, name) implies exists|j: int|
        0 <= j < sessions.len() && (#[trigger] sessions[j]).name == name && 0
            < sessions[j].dir.len() && relates(project_dir, sessions[j].dir, how) by {
        let dir = choose|dir: Seq<char>| #[trigger]
            map.contains_key(dir) && relates(project_dir, dir, how) && map[dir].contains(name);
        dir_map_holds_the_sessions(pairs, name, dir);
        let j = choose|j: int| 0 <= j < pairs.len() && pairs[j] == (name, dir);
        assert(sessions[j].name == name && sessions[j].dir == dir);
    }
    assert forall|j: int, how: Match|
        0 <= j < sessions.len() && 0 < sessions[j].dir.len() && #[trigger] relates(
            project_dir,
            sessions[j].dir,
            how,
        ) implies claims(project_dir, map, how, sessions[j].name) by {
        assert(pairs[j] == (sessions[j].name, sessions[j].dir));
        dir_map_holds_the_sessions(pairs, sessions[j].name, sessions[j].dir);
        assert(map.contains_key(sessions[j].dir));
    }
    the_only_strongest_claim_resolves(project_dir, map, Seq::empty());
    if exists|how: Match, other: Seq<char>| claims(project_dir, map, how, other) {
        let (how, other) = choose|how: Match, other: Seq<char>|
            claims(project_dir, map, how, other);
        let j = choose|j: int|
            0 <= j < sessions.len() && (#[trigger] sessions[j]).name == other && 0
                < sessions[j].dir.len() && relates(project_dir, sessions[j].dir, how);
        assert(relates(project_dir, sessions[j].dir, how));
    }
    if 0 < project_dir.len() && 0 <= i < sessions.len() && sessions[i].dir == project_dir && (
    forall|j: int|
        0 <= j < sessions.len() && (#[trigger] sessions[j]).dir == project_dir ==> sessions[j].name
            == sessions[i].name) {
        let name = sessions[i].name;
        assert(relates(project_dir, sessions[i].dir, Match::Exact));
        assert(claims(project_dir, map, Match::Exact, name));
        assert forall|other: Seq<char>| claims(project_dir, map, Match::Exact, other) implies other
            == name by {
            let j = choose|j: int|
                0 <= j < sessions.len() && (#[trigger] sessions[j]).name == other && 0
                    < sessions[j].dir.len() && relates(project_dir, sessions[j].dir, Match::Exact);
            assert(sessions[j].dir == project_dir);
        }
        the_only_strongest_claim_resolves(project_dir, map, name);
    }
}

/// Listings are taken for what they hold: every session of every provider, in
/// its place and field by field.
pub proof fn listings_are_taken_whole(listings: Seq<Vec<MuxSessionInfo>>, i: int, j: int)
    ensures
        listing_views(listings).len() == listings.len(),
        0 <= i < listings.len() ==> listing_views(listings)[i].len() == listings[i]@.len(),
        0 <= i < listings.len() && 0 <= j < listings[i]@.len() ==> {
            let session = listings[i]@[j];
            let seen = listing_views(listings)[i][j];
            &&& seen.name == session.name@
            &&& seen.created_at == session.created_at
            &&& seen.dir == session.dir@
            &&& seen.windows == session.windows
            &&& names_and_dirs(listing_views(listings)[i])[j] == (session.name@, session.dir@)
            &&& session_keys(listing_views(listings)[i])[j] == (session.created_at, session.name@)
        },
{
}

/// An owner is one of the providers. It lists the session, or is the first
/// where none does.
pub proof fn owners_are_providers(
    listings: Seq<Seq<MuxSessionView>>,
    name: Seq<char>,
    i: int,
)
    requires
        owns(listings, name, i),
    ensures
        0 <= i < listings.len(),
        i == 0 || exists|k: int|
            0 <= k < listings[i].len() && (#[trigger] listings[i][k]).name == name,
        forall|j: int, l: int|
            0 <= j < i && 0 <= l < listings[j].len() ==> (#[trigger] listings[j][l]).name != name,
{
    assert forall|j: int, l: int| 0 <= j < i && 0 <= l < listings[j].len() implies (
    #[trigger] listings[j][l]).name != name by {
        assert(!lists(listings[j], name));
    }
}

} // verus!
