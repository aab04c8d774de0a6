//! Which session a project directory belongs to.

use vstd::prelude::*;

use crate::text::{
    chars_of, has_prefix, same_chars, starts_with, string_of, strip_prefix, without_prefix,
};
use crate::sorting::{in_order, sorted, views};
use crate::text_map::{list_holds, text_of, texts, TextMap};

verus! {

/// The sessions of each directory.
#[derive(Debug)]
pub struct DirSessionMap {
    sessions: TextMap<Vec<String>>,
}

impl View for DirSessionMap {
    type V = Map<Seq<char>, Seq<Seq<char>>>;

    closed spec fn view(&self) -> Map<Seq<char>, Seq<Seq<char>>> {
        self.sessions@.map_values(|names: Vec<String>| texts(names@))
    }
}

impl DirSessionMap {
    /// The sessions of a directory.
    pub fn get(&self, dir: &str) -> (names: Option<&Vec<String>>)
        ensures
            match names {
                Some(names) => self@.contains_key(dir@) && self@[dir@] == texts(names@),
                None => !self@.contains_key(dir@),
            },
    {
        self.sessions.get(dir)
    }

    /// The directories, in dictionary order and each once.
    pub fn dirs(&self) -> (dirs: Vec<String>)
        ensures
            in_order::<String>(texts(dirs@)),
            texts(dirs@).no_duplicates(),
            texts(dirs@).to_set() == self@.dom(),
    {
        let keys = self.sessions.key_list();
        let ghost before = texts(keys@);
        assert(views(keys@) =~= before);
        let dirs = sorted(keys);
        proof {
            let after = texts(dirs@);
            assert(views(dirs@) =~= after);
            before.lemma_multiset_has_no_duplicates();
            after.lemma_multiset_has_no_duplicates_conv();
            before.to_multiset_ensures();
            after.to_multiset_ensures();
            assert forall|dir: Seq<char>| after.contains(dir) == before.contains(dir) by {
                assert(after.to_multiset().contains(dir) == before.to_multiset().contains(dir));
            }
            assert(after.to_set() =~= before.to_set());
            assert(self@.dom() =~= self.sessions@.dom());
        }
        dirs
    }
}

/// The names and directories that a list of sessions holds.
pub open spec fn session_texts(sessions: Seq<(String, String)>) -> Seq<(Seq<char>, Seq<char>)> {
    sessions.map_values(|session: (String, String)| (session.0@, session.1@))
}

/// The names of the sessions of each directory, in the order of `sessions`.
/// A session without a directory is left out, and a name that a directory
/// already has is not taken again.
pub open spec fn names_by_dir(sessions: Seq<(Seq<char>, Seq<char>)>) -> Map<
    Seq<char>,
    Seq<Seq<char>>,
>
    decreases sessions.len(),
{
    if sessions.len() == 0 {
        Map::empty()
    } else {
        let earlier = names_by_dir(sessions.drop_last());
        let (name, dir) = sessions.last();
        if dir.len() == 0 {
            earlier
        } else if !earlier.contains_key(dir) {
            earlier.insert(dir, seq![name])
        } else if earlier[dir].contains(name) {
            earlier
        } else {
            earlier.insert(dir, earlier[dir].push(name))
        }
    }
}

/// Copies a list of strings.
pub fn copy_list(list: &Vec<String>) -> (copy: Vec<String>)
    ensures
        texts(copy@) == texts(list@),
{
    let mut copy: Vec<String> = Vec::new();
    let mut i: usize = 0;
    while i < list.len()
        invariant
            i <= list@.len(),
            texts(copy@) == texts(list@.take(i as int)),
        decreases list@.len() - i,
    {
        let ghost before = copy@;
        copy.push(list[i].clone());
        assert(texts(copy@) == texts(before).push(list@[i as int]@));
        assert(texts(list@.take(i + 1)) == texts(list@.take(i as int)).push(list@[i as int]@));
        i += 1;
    }
    assert(list@.take(list@.len() as int) == list@);
    copy
}

/// Groups sessions, given by name and directory, by directory.
pub fn build_dir_session_map(sessions: Vec<(String, String)>) -> (map: DirSessionMap)
    ensures
        map@ == names_by_dir(session_texts(sessions@)),
{
    let mut map: TextMap<Vec<String>> = TextMap::new();
    let ghost all = session_texts(sessions@);
    let mut i: usize = 0;
    assert(map@.map_values(|names: Vec<String>| texts(names@)) =~= names_by_dir(all.take(0)));
    while i < sessions.len()
        invariant
            i <= sessions@.len(),
            all == session_texts(sessions@),
            map@.map_values(|names: Vec<String>| texts(names@)) == names_by_dir(all.take(i as int)),
        decreases sessions@.len() - i,
    {
        let (name, dir) = &sessions[i];
        let ghost before = map@.map_values(|names: Vec<String>| texts(names@));
        proof {
            assert(all.take(i + 1).drop_last() == all.take(i as int));
            assert(all.take(i + 1).last() == (name@, dir@));
        }
        if !dir.as_str().is_empty() {
            match map.get(dir.as_str()) {
                Some(names) => {
                    if !list_holds(names, name.as_str()) {
                        let mut names = copy_list(names);
                        let ghost shorter = names@;
                        names.push(name.clone());
                        assert(texts(names@) =~= texts(shorter).push(name@));
                        let _ = map.insert(dir.clone(), names);
                        assert(map@.map_values(|names: Vec<String>| texts(names@))
                            =~= before.insert(dir@, before[dir@].push(name@)));
                    }
                },
                None => {
                    let mut names: Vec<String> = Vec::new();
                    names.push(name.clone());
                    assert(texts(names@) =~= seq![name@]);
                    let _ = map.insert(dir.clone(), names);
                    assert(map@.map_values(|names: Vec<String>| texts(names@)) =~= before.insert(
                        dir@,
                        seq![name@],
                    ));
                },
            }
        }
        i += 1;
    }
    assert(all.take(all.len() as int) == all);
    DirSessionMap { sessions: map }
}

// ---------------------------------------------------------------------------
// How a project directory relates to the directory of a session.
// ---------------------------------------------------------------------------

/// A character of a directory as agents encode it.
pub open spec fn encode_char(ch: char) -> char {
    if ch == '/' || ch == '.' || ch == '_' {
        '-'
    } else {
        ch
    }
}

/// A directory as agents encode it in the name of a file.
pub open spec fn encode(dir: Seq<char>) -> Seq<char> {
    dir.map_values(|ch: char| encode_char(ch))
}

/// Encodes a directory: slashes, dots and underscores become hyphens.
pub fn encode_project_dir(dir: &str) -> (encoded: String)
    ensures
        encoded@ == encode(dir@),
{
    let chars = chars_of(dir);
    let mut encoded = String::new();
    let mut i: usize = 0;
    while i < chars.len()
        invariant
            i <= chars@.len(),
            encoded@ == encode(chars@.take(i as int)),
        decreases chars@.len() - i,
    {
        let ch = chars[i];
        encoded.push(
            if ch == '/' || ch == '.' || ch == '_' {
                '-'
            } else {
                ch
            },
        );
        i += 1;
        assert(encoded@ =~= encode(chars@.take(i as int)));
    }
    assert(chars@.take(chars@.len() as int) == chars@);
    encoded
}

/// The three ways in which a directory is matched, from the strongest down.
#[derive(Debug, Clone, Copy, PartialEq, Eq, Structural)]
pub enum Match {
    /// The directories are the same.
    Exact,
    /// One directory lies inside the other.
    Related,
    /// The project directory is given by its encoding.
    Encoded,
}

/// What an encoded project directory begins with.
pub open spec fn encoded_mark() -> Seq<char> {
    "__encoded__:"@
}

/// Whether `dir` matches `project_dir` in a way.
pub open spec fn relates(project_dir: Seq<char>, dir: Seq<char>, how: Match) -> bool {
    match how {
        Match::Exact => dir == project_dir,
        Match::Related => starts_with(project_dir, dir.push('/')) || starts_with(
            dir,
            project_dir.push('/'),
        ),
        Match::Encoded => strip_prefix(project_dir, encoded_mark()) == Some(encode(dir)),
    }
}

/// The names of the sessions whose directory matches in a way.
pub open spec fn matching(
    project_dir: Seq<char>,
    map: Map<Seq<char>, Seq<Seq<char>>>,
    how: Match,
) -> Set<Seq<char>> {
    Set::new(
        |name: Seq<char>|
            exists|dir: Seq<char>| #[trigger]
                map.contains_key(dir) && relates(project_dir, dir, how) && map[dir].contains(name),
    )
}

/// Whether `name` is the one member of `names`.
pub open spec fn sole(names: Set<Seq<char>>, name: Seq<char>) -> bool {
    names == Set::<Seq<char>>::empty().insert(name)
}

/// The one member of a set that has just one.
pub open spec fn sole_member(names: Set<Seq<char>>) -> Option<Seq<char>> {
    if exists|name: Seq<char>| sole(names, name) {
        Some(choose|name: Seq<char>| sole(names, name))
    } else {
        None
    }
}

/// The session of a project directory: of the strongest way of matching that
/// any session has, the one session that matches, if there is just one.
pub open spec fn resolved(project_dir: Seq<char>, map: Map<Seq<char>, Seq<Seq<char>>>) -> Option<
    Seq<char>,
> {
    let exact = matching(project_dir, map, Match::Exact);
    let related = matching(project_dir, map, Match::Related);
    let encoded = matching(project_dir, map, Match::Encoded);
    if exact != Set::<Seq<char>>::empty() {
        sole_member(exact)
    } else if related != Set::<Seq<char>>::empty() {
        sole_member(related)
    } else {
        sole_member(encoded)
    }
}

/// Whether any session matches a project directory in any way.
pub open spec fn has_candidates(
    project_dir: Seq<char>,
    map: Map<Seq<char>, Seq<Seq<char>>>,
) -> bool {
    exists|how: Match| #[trigger]
        matching(project_dir, map, how) != Set::<Seq<char>>::empty()
}

// ---------------------------------------------------------------------------
// Deciding it.
// ---------------------------------------------------------------------------

/// Whether a list holds just the members of `names`, each once.
pub open spec fn enumerates(list: Seq<String>, names: Set<Seq<char>>) -> bool {
    &&& texts(list).no_duplicates()
    &&& texts(list).to_set() == names
}

/// Adds to a list the names that it does not hold yet.
fn add_names(list: &mut Vec<String>, names: &Vec<String>)
    requires
        texts(old(list)@).no_duplicates(),
    ensures
        texts(final(list)@).no_duplicates(),
        texts(final(list)@).to_set() == texts(old(list)@).to_set().union(texts(names@).to_set()),
{
    let mut i: usize = 0;
    assert(texts(list@).to_set() =~= texts(old(list)@).to_set().union(
        texts(names@.take(0)).to_set(),
    ));
    while i < names.len()
        invariant
            i <= names@.len(),
            texts(list@).no_duplicates(),
            texts(list@).to_set() == texts(old(list)@).to_set().union(
                texts(names@.take(i as int)).to_set(),
            ),
        decreases names@.len() - i,
    {
        let ghost before = list@;
        let name = &names[i];
        let held = list_holds(list, name.as_str());
        if !held {
            list.push(name.clone());
        }
        proof {
            let earlier = texts(names@.take(i as int));
            let later = texts(names@.take(i + 1));
            assert(later =~= earlier.push(name@));
            earlier.lemma_push_to_set_commute(name@);
            if !held {
                assert(texts(list@) =~= texts(before).push(name@));
                texts(before).lemma_push_to_set_commute(name@);
            }
            assert(texts(list@).to_set() =~= texts(old(list)@).to_set().union(later.to_set()));
        }
        i += 1;
    }
    assert(names@.take(names@.len() as int) == names@);
}

/// Decides whether `dir` matches `project_dir` in a way.
fn relates_by(project_dir: &[char], dir: &str, how: Match) -> (yes: bool)
    ensures
        yes == relates(project_dir@, dir@, how),
{
    let mut inner = chars_of(dir);
    match how {
        Match::Exact => same_chars(inner.as_slice(), project_dir),
        Match::Related => {
            let mut outer = chars_of(string_of(project_dir).as_str());
            outer.push('/');
            if has_prefix(inner.as_slice(), outer.as_slice()) {
                return true;
            }
            inner.push('/');
            has_prefix(project_dir, inner.as_slice())
        },
        Match::Encoded => {
            let mark = chars_of("__encoded__:");
            match without_prefix(project_dir, mark.as_slice()) {
                Some(encoded) => {
                    let candidate = chars_of(encode_project_dir(dir).as_str());
                    same_chars(candidate.as_slice(), encoded)
                },
                None => false,
            }
        },
    }
}

/// The names of the sessions whose directory matches in a way.
fn matches_by(project_dir: &str, map: &DirSessionMap, how: Match) -> (names: Vec<String>)
    ensures
        enumerates(names@, matching(project_dir@, map@, how)),
{
    let wanted = chars_of(project_dir);
    let mut names: Vec<String> = Vec::new();
    let count = map.sessions.len();
    let ghost keys = map.sessions.keys();
    let ghost dirs = map@;
    let mut i: usize = 0;
    assert(texts(names@) =~= Seq::<Seq<char>>::empty());
    while i < count
        invariant
            i <= count,
            count == keys.len(),
            keys == map.sessions.keys(),
            dirs == map@,
            wanted@ == project_dir@,
            texts(names@).no_duplicates(),
            forall|name: Seq<char>| #[trigger]
                texts(names@).to_set().contains(name) == exists|k: int|
                    0 <= k < i && relates(project_dir@, #[trigger] keys[k], how)
                        && dirs[keys[k]].contains(name),
        decreases count - i,
    {
        let (dir, found) = map.sessions.entry(i);
        let ghost before = texts(names@).to_set();
        assert(dirs[keys[i as int]] == texts(found@));
        if relates_by(wanted.as_slice(), dir.as_str(), how) {
            add_names(&mut names, found);
        }
        proof {
            assert forall|name: Seq<char>| #[trigger]
                texts(names@).to_set().contains(name) == exists|k: int|
                    0 <= k < i + 1 && relates(project_dir@, #[trigger] keys[k], how)
                        && dirs[keys[k]].contains(name) by {
                if before.contains(name) {
                    let k = choose|k: int|
                        0 <= k < i && relates(project_dir@, #[trigger] keys[k], how)
                            && dirs[keys[k]].contains(name);
                    assert(relates(project_dir@, keys[k], how));
                }
                if relates(project_dir@, keys[i as int], how) && texts(found@).contains(name) {
                    assert(dirs[keys[i as int]].contains(name));
                }
            }
        }
        i += 1;
    }
    proof {
        let set = matching(project_dir@, map@, how);
        assert forall|name: Seq<char>| #[trigger]
            texts(names@).to_set().contains(name) == set.contains(name) by {
            if set.contains(name) {
                let dir = choose|dir: Seq<char>| #[trigger]
                    map@.contains_key(dir) && relates(project_dir@, dir, how) && map@[dir].contains(
                        name,
                    );
                assert(keys.to_set().contains(dir));
                let k = choose|k: int| 0 <= k < keys.len() && keys[k] == dir;
                assert(relates(project_dir@, keys[k], how));
            }
            if texts(names@).to_set().contains(name) {
                let k = choose|k: int|
                    0 <= k < count && relates(project_dir@, #[trigger] keys[k], how)
                        && dirs[keys[k]].contains(name);
                assert(keys.to_set().contains(keys[k]));
                assert(map@.contains_key(keys[k]));
            }
        }
        assert(texts(names@).to_set() =~= set);
    }
    names
}

/// An empty list is one of no names.
proof fn lemma_enumerates_empty(list: Seq<String>, names: Set<Seq<char>>)
    requires
        enumerates(list, names),
    ensures
        list.len() == 0 <==> names == Set::<Seq<char>>::empty(),
{
    if list.len() == 0 {
        assert(names =~= Set::<Seq<char>>::empty());
    } else {
        assert(texts(list)[0] == list[0]@);
        assert(texts(list).to_set().contains(list[0]@));
    }
}

/// The name that a list holds, if it holds just one.
fn unique_match(names: Vec<String>, Ghost(set): Ghost<Set<Seq<char>>>) -> (name: Option<String>)
    requires
        enumerates(names@, set),
    ensures
        text_of(name) == sole_member(set),
{
    assert(texts(names@).len() == names@.len());
    if names.len() == 1 {
        let name = names[0].clone();
        proof {
            assert(texts(names@)[0] == name@);
            assert(set =~= Set::<Seq<char>>::empty().insert(name@));
            assert(sole(set, name@));
            let chosen = choose|name: Seq<char>| sole(set, name);
            assert(set.contains(chosen));
        }
        Some(name)
    } else {
        proof {
            if exists|name: Seq<char>| sole(set, name) {
                let name = choose|name: Seq<char>| sole(set, name);
                assert(set.contains(name));
                if names@.len() > 1 {
                    assert(texts(names@).to_set().contains(texts(names@)[0]));
                    assert(texts(names@).to_set().contains(texts(names@)[1]));
                }
            }
        }
        None
    }
}

/// The session that a project directory belongs to: the one session whose
/// directory is the same; where none is, the one session whose directory lies
/// inside it or around it; where none does and the directory is given by its
/// encoding, the one session whose directory has that encoding.
pub fn resolve_session_for_project_dir(project_dir: &str, dir_session_map: &DirSessionMap) -> (name:
    Option<String>)
    ensures
        text_of(name) == resolved(project_dir@, dir_session_map@),
{
    let exact = matches_by(project_dir, dir_session_map, Match::Exact);
    proof {
        lemma_enumerates_empty(exact@, matching(project_dir@, dir_session_map@, Match::Exact));
    }
    if exact.len() > 0 {
        return unique_match(
            exact,
            Ghost(matching(project_dir@, dir_session_map@, Match::Exact)),
        );
    }
    let related = matches_by(project_dir, dir_session_map, Match::Related);
    proof {
        lemma_enumerates_empty(related@, matching(project_dir@, dir_session_map@, Match::Related));
    }
    if related.len() > 0 {
        return unique_match(
            related,
            Ghost(matching(project_dir@, dir_session_map@, Match::Related)),
        );
    }
    let encoded = matches_by(project_dir, dir_session_map, Match::Encoded);
    unique_match(encoded, Ghost(matching(project_dir@, dir_session_map@, Match::Encoded)))
}

/// Whether any session matches a project directory, exactly, by one directory
/// lying inside the other, or by its encoding. With several sources of
/// sessions, the first for which this holds is the one to resolve the
/// directory in.
pub fn has_candidates_for_project_dir(project_dir: &str, dir_session_map: &DirSessionMap) -> (yes:
    bool)
    ensures
        yes == has_candidates(project_dir@, dir_session_map@),
{
    let exact = matches_by(project_dir, dir_session_map, Match::Exact);
    let related = matches_by(project_dir, dir_session_map, Match::Related);
    let encoded = matches_by(project_dir, dir_session_map, Match::Encoded);
    proof {
        lemma_enumerates_empty(exact@, matching(project_dir@, dir_session_map@, Match::Exact));
        lemma_enumerates_empty(related@, matching(project_dir@, dir_session_map@, Match::Related));
        lemma_enumerates_empty(encoded@, matching(project_dir@, dir_session_map@, Match::Encoded));
    }
    exact.len() > 0 || related.len() > 0 || encoded.len() > 0
}

// ---------------------------------------------------------------------------
// Laws.
// ---------------------------------------------------------------------------

/// The map holds a name under a directory exactly when a session has that
/// name and that directory, and no name twice.
pub proof fn dir_map_holds_the_sessions(
    sessions: Seq<(Seq<char>, Seq<char>)>,
    name: Seq<char>,
    dir: Seq<char>,
)
    ensures
        names_by_dir(sessions).contains_key(dir) && names_by_dir(sessions)[dir].contains(name)
            <==> dir.len() > 0 && sessions.contains((name, dir)),
        names_by_dir(sessions).contains_key(dir) ==> names_by_dir(sessions)[dir].no_duplicates()
            && names_by_dir(sessions)[dir].len() > 0,
    decreases sessions.len(),
{
    if sessions.len() > 0 {
        let earlier = sessions.drop_last();
        let (last_name, last_dir) = sessions.last();
        dir_map_holds_the_sessions(earlier, name, dir);
        assert(sessions.contains((name, dir)) == (earlier.contains((name, dir)) || (name, dir)
            == sessions.last())) by {
            if earlier.contains((name, dir)) {
                let i = choose|i: int| 0 <= i < earlier.len() && earlier[i] == (name, dir);
                assert(sessions[i] == (name, dir));
            }
            if sessions.contains((name, dir)) {
                let i = choose|i: int| 0 <= i < sessions.len() && sessions[i] == (name, dir);
                if i < earlier.len() {
                    assert(earlier[i] == (name, dir));
                }
            }
        }
        let map = names_by_dir(earlier);
        if last_dir == dir && dir.len() > 0 {
            if map.contains_key(dir) {
                let names = map[dir];
                assert(names.push(last_name).contains(name) == (names.contains(name) || name
                    == last_name)) by {
                    if names.contains(name) {
                        let i = choose|i: int| 0 <= i < names.len() && names[i] == name;
                        assert(names.push(last_name)[i] == name);
                    }
                    assert(names.push(last_name)[names.len() as int] == last_name);
                }
            } else {
                assert(seq![last_name][0] == last_name);
            }
        }
    }
}

/// A directory resolves only to a session that is a candidate for it.
pub proof fn resolving_needs_candidates(
    project_dir: Seq<char>,
    map: Map<Seq<char>, Seq<Seq<char>>>,
)
    ensures
        resolved(project_dir, map) is Some ==> has_candidates(project_dir, map),
        resolved(project_dir, map) matches Some(name) ==> exists|dir: Seq<char>, how: Match|
            map.contains_key(dir) && #[trigger] relates(project_dir, dir, how)
                && map[dir].contains(name),
{
    if resolved(project_dir, map) is Some {
        let name = resolved(project_dir, map)->Some_0;
        let how = if matching(project_dir, map, Match::Exact) != Set::<Seq<char>>::empty() {
            Match::Exact
        } else if matching(project_dir, map, Match::Related) != Set::<Seq<char>>::empty() {
            Match::Related
        } else {
            Match::Encoded
        };
        let set = matching(project_dir, map, how);
        assert(sole_member(set) == Some(name));
        assert(sole(set, name));
        assert(set.contains(name));
        let dir = choose|dir: Seq<char>| #[trigger]
            map.contains_key(dir) && relates(project_dir, dir, how) && map[dir].contains(name);
        assert(relates(project_dir, dir, how));
    }
}

/// A directory that two sessions claim in the same way, while none claims it
/// in a stronger one, resolves to neither.
pub proof fn ambiguous_dirs_do_not_resolve(
    project_dir: Seq<char>,
    map: Map<Seq<char>, Seq<Seq<char>>>,
    how: Match,
    one: Seq<char>,
    other: Seq<char>,
)
    requires
        one != other,
        matching(project_dir, map, how).contains(one),
        matching(project_dir, map, how).contains(other),
        how != Match::Exact ==> matching(project_dir, map, Match::Exact) == Set::<
            Seq<char>,
        >::empty(),
        how == Match::Encoded ==> matching(project_dir, map, Match::Related) == Set::<
            Seq<char>,
        >::empty(),
    ensures
        resolved(project_dir, map) is None,
{
    let claims = matching(project_dir, map, how);
    assert(claims != Set::<Seq<char>>::empty());
    if exists|name: Seq<char>| sole(claims, name) {
        let name = choose|name: Seq<char>| sole(claims, name);
        assert(Set::<Seq<char>>::empty().insert(name).contains(one));
        assert(Set::<Seq<char>>::empty().insert(name).contains(other));
    }
}

/// Two directories are related just where one of them is the other, a slash,
/// and something more or nothing. So a directory is not related to a sibling
/// whose name begins like its own, and what is related is so both ways.
pub proof fn related_dirs_lie_inside_each_other(project_dir: Seq<char>, dir: Seq<char>)
    ensures
        relates(project_dir, dir, Match::Related) <==> exists|rest: Seq<char>|
            project_dir == #[trigger] (dir + seq!['/'] + rest) || dir == project_dir + seq!['/']
                + rest,
        relates(project_dir, dir, Match::Related) == relates(dir, project_dir, Match::Related),
        relates(project_dir, dir, Match::Related) ==> project_dir.len() != dir.len(),
        project_dir.len() < dir.len() && dir[project_dir.len() as int] != '/' ==> !relates(
            project_dir,
            dir,
            Match::Related,
        ),
        dir.len() < project_dir.len() && project_dir[dir.len() as int] != '/' ==> !relates(
            project_dir,
            dir,
            Match::Related,
        ),
{
    lemma_lies_inside(project_dir, dir);
    lemma_lies_inside(dir, project_dir);
    if starts_with(project_dir, dir.push('/')) {
        let rest = project_dir.skip(dir.len() as int + 1);
        assert(project_dir == dir + seq!['/'] + rest);
    }
    if starts_with(dir, project_dir.push('/')) {
        let rest = dir.skip(project_dir.len() as int + 1);
        let other = dir + seq!['/'] + rest;
        assert(dir == project_dir + seq!['/'] + rest);
    }
    if exists|rest: Seq<char>|
        project_dir == #[trigger] (dir + seq!['/'] + rest) || dir == project_dir + seq!['/'] + rest {
        let rest = choose|rest: Seq<char>|
            project_dir == #[trigger] (dir + seq!['/'] + rest) || dir == project_dir + seq!['/']
                + rest;
        if project_dir == dir + seq!['/'] + rest {
            assert(project_dir.subrange(0, dir.len() as int + 1) =~= dir.push('/'));
        } else {
            assert(dir.subrange(0, project_dir.len() as int + 1) =~= project_dir.push('/'));
        }
    }
}

proof fn lemma_lies_inside(inner: Seq<char>, outer: Seq<char>)
    ensures
        starts_with(inner, outer.push('/')) ==> inner.len() > outer.len() && inner[outer.len() as int]
            == '/' && inner == outer + seq!['/'] + inner.skip(outer.len() as int + 1),
{
    if starts_with(inner, outer.push('/')) {
        let head = inner.subrange(0, outer.len() as int + 1);
        assert(head[outer.len() as int] == '/');
        assert(inner =~= head + inner.skip(outer.len() as int + 1));
        assert(outer.push('/') =~= outer + seq!['/']);
    }
}

/// A directory is matched exactly by itself alone, and by its encoding where
/// what follows the mark is the directory with hyphens in place of slashes,
/// dots and underscores.
pub proof fn exact_and_encoded_matches(project_dir: Seq<char>, dir: Seq<char>)
    ensures
        relates(project_dir, dir, Match::Exact) <==> project_dir == dir,
        relates(project_dir, dir, Match::Encoded) <==> {
            &&& project_dir.len() == 12 + dir.len()
            &&& project_dir.take(12) == "__encoded__:"@
            &&& forall|i: int|
                0 <= i < dir.len() ==> #[trigger] project_dir[12 + i] == (if dir[i] == '/' || dir[i]
                    == '.' || dir[i] == '_' {
                    '-'
                } else {
                    dir[i]
                })
        },
{
    reveal_strlit("__encoded__:");
    let mark = "__encoded__:"@;
    assert(mark.len() == 12);
    let tail = project_dir.skip(12);
    if relates(project_dir, dir, Match::Encoded) {
        assert(project_dir.subrange(0, 12) == mark);
        assert(project_dir.take(12) =~= project_dir.subrange(0, 12));
        assert(tail == encode(dir));
        assert(tail.len() == dir.len());
        assert forall|i: int| 0 <= i < dir.len() implies #[trigger] project_dir[12 + i]
            == encode_char(dir[i]) by {
            assert(tail[i] == project_dir[12 + i]);
        }
    }
    if project_dir.len() == 12 + dir.len() && project_dir.take(12) == mark && forall|i: int|
        0 <= i < dir.len() ==> #[trigger] project_dir[12 + i] == (if dir[i] == '/' || dir[i] == '.'
            || dir[i] == '_' {
            '-'
        } else {
            dir[i]
        }) {
        assert(project_dir.subrange(0, 12) =~= mark);
        assert forall|i: int| 0 <= i < dir.len() implies #[trigger] tail[i] == encode(dir)[i] by {
            assert(tail[i] == project_dir[12 + i]);
        }
        assert(tail =~= encode(dir));
    }
}

/// Whether a session has a directory that matches in a way.
pub open spec fn claims(
    project_dir: Seq<char>,
    map: Map<Seq<char>, Seq<Seq<char>>>,
    how: Match,
    name: Seq<char>,
) -> bool {
    exists|dir: Seq<char>| #[trigger]
        map.contains_key(dir) && relates(project_dir, dir, how) && map[dir].contains(name)
}

/// A directory resolves to a session just where that session claims it in some
/// way, no other session claims it in that way, and none claims it in a
/// stronger one: the same directory is stronger than one inside or around it,
/// and that is stronger than an encoding. There are candidates just where any
/// session claims it in any way.
pub proof fn the_only_strongest_claim_resolves(
    project_dir: Seq<char>,
    map: Map<Seq<char>, Seq<Seq<char>>>,
    name: Seq<char>,
)
    ensures
        resolved(project_dir, map) == Some(name) <==> {
            ||| claims(project_dir, map, Match::Exact, name) && (forall|other: Seq<char>|
                claims(project_dir, map, Match::Exact, other) ==> other == name)
            ||| claims(project_dir, map, Match::Related, name) && (forall|other: Seq<char>|
                claims(project_dir, map, Match::Related, other) ==> other == name) && (forall|
                other: Seq<char>,
            |
                !claims(project_dir, map, Match::Exact, other))
            ||| claims(project_dir, map, Match::Encoded, name) && (forall|other: Seq<char>|
                claims(project_dir, map, Match::Encoded, other) ==> other == name) && (forall|
                other: Seq<char>,
            |
                !claims(project_dir, map, Match::Exact, other) && !claims(
                    project_dir,
                    map,
                    Match::Related,
                    other,
                ))
        },
        has_candidates(project_dir, map) <==> exists|how: Match, other: Seq<char>|
            claims(project_dir, map, how, other),
{
    lemma_sole_claim(project_dir, map, Match::Exact, name);
    lemma_sole_claim(project_dir, map, Match::Related, name);
    lemma_sole_claim(project_dir, map, Match::Encoded, name);
    if has_candidates(project_dir, map) {
        let how = choose|how: Match| #[trigger]
            matching(project_dir, map, how) != Set::<Seq<char>>::empty();
        lemma_sole_claim(project_dir, map, how, name);
        assert(exists|other: Seq<char>| claims(project_dir, map, how, other));
    }
    if exists|how: Match, other: Seq<char>| claims(project_dir, map, how, other) {
        let (how, other) = choose|how: Match, other: Seq<char>|
            claims(project_dir, map, how, other);
        lemma_sole_claim(project_dir, map, how, other);
        assert(matching(project_dir, map, how) != Set::<Seq<char>>::empty());
    }
}

proof fn lemma_sole_claim(
    project_dir: Seq<char>,
    map: Map<Seq<char>, Seq<Seq<char>>>,
    how: Match,
    name: Seq<char>,
)
    ensures
        sole_member(matching(project_dir, map, how)) == Some(name) <==> claims(
            project_dir,
            map,
            how,
            name,
        ) && forall|other: Seq<char>| claims(project_dir, map, how, other) ==> other == name,
        matching(project_dir, map, how) == Set::<Seq<char>>::empty() <==> forall|other: Seq<char>|
            !claims(project_dir, map, how, other),
{
    let set = matching(project_dir, map, how);
    assert forall|other: Seq<char>| #[trigger] set.contains(other) == claims(
        project_dir,
        map,
        how,
        other,
    ) by {}
    if sole_member(set) == Some(name) {
        assert(sole(set, name));
        assert(set.contains(name));
        assert forall|other: Seq<char>| claims(project_dir, map, how, other) implies other
            == name by {
            assert(set.contains(other));
        }
    }
    if claims(project_dir, map, how, name) && forall|other: Seq<char>|
        claims(project_dir, map, how, other) ==> other == name {
        assert(set =~= Set::<Seq<char>>::empty().insert(name));
        assert(sole(set, name));
        let chosen = choose|other: Seq<char>| sole(set, other);
        assert(set.contains(chosen));
    }
    if forall|other: Seq<char>| !claims(project_dir, map, how, other) {
        assert(set =~= Set::<Seq<char>>::empty());
    }
    if set == Set::<Seq<char>>::empty() {
        assert forall|other: Seq<char>| !claims(project_dir, map, how, other) by {
            assert(!set.contains(other));
        }
    }
}

/// The sessions of a directory stand in the order in which they came: further
/// sessions are only added behind them.
pub proof fn later_sessions_come_behind(
    sessions: Seq<(Seq<char>, Seq<char>)>,
    name: Seq<char>,
    dir: Seq<char>,
    other: Seq<char>,
)
    ensures
        names_by_dir(sessions).contains_key(other) ==> {
            let after = names_by_dir(sessions.push((name, dir)));
            let before = names_by_dir(sessions)[other];
            after.contains_key(other) && before.len() <= after[other].len() && after[other].take(
                before.len() as int,
            ) == before && (0 < dir.len() && dir == other && !before.contains(name) ==> after[other].last()
                == name)
        },
{
    let all = sessions.push((name, dir));
    assert(all.drop_last() =~= sessions);
    if names_by_dir(sessions).contains_key(other) {
        let before = names_by_dir(sessions)[other];
        let after = names_by_dir(all)[other];
        assert(after.take(before.len() as int) =~= before);
    }
}

} // verus!
