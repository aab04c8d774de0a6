//! A map keyed by text, and views of lists and options of strings.

use std::mem::swap;

use vstd::prelude::*;

use crate::text::same_text;

verus! {

/// The texts that a sequence of strings holds.
pub open spec fn texts(list: Seq<String>) -> Seq<Seq<char>> {
    list.map_values(|text: String| text@)
}

/// The text that an optional string holds.
pub open spec fn text_of(text: Option<String>) -> Option<Seq<char>> {
    match text {
        Some(text) => Some(text@),
        None => None,
    }
}

/// The text that an optional string slice holds.
pub open spec fn str_of(text: Option<&str>) -> Option<Seq<char>> {
    match text {
        Some(text) => Some(text@),
        None => None,
    }
}

/// Copies an optional string.
pub fn copy_text(text: &Option<String>) -> (copy: Option<String>)
    ensures
        copy == *text,
{
    match text {
        Some(text) => Some(text.clone()),
        None => None,
    }
}

/// Copies an optional string slice into a string.
pub fn own_text(text: Option<&str>) -> (copy: Option<String>)
    ensures
        text_of(copy) == str_of(text),
{
    match text {
        Some(text) => Some(text.to_string()),
        None => None,
    }
}

/// Decides whether a list of strings holds `text`.
pub fn list_holds(list: &Vec<String>, text: &str) -> (held: bool)
    ensures
        held == texts(list@).contains(text@),
{
    let mut i: usize = 0;
    while i < list.len()
        invariant
            i <= list@.len(),
            forall|j: int| 0 <= j < i ==> texts(list@)[j] != text@,
        decreases list@.len() - i,
    {
        if same_text(list[i].as_str(), text) {
            assert(texts(list@)[i as int] == text@);
            return true;
        }
        i += 1;
    }
    false
}

/// A map from text to values. Every key occurs once, and keys keep the order
/// in which they first came.
#[derive(Debug)]
pub struct TextMap<T> {
    entries: Vec<(String, T)>,
}

impl<T> TextMap<T> {
    /// No key occurs twice.
    spec fn distinct(entries: Seq<(String, T)>) -> bool {
        forall|i: int, j: int|
            0 <= i < entries.len() && 0 <= j < entries.len() && i != j ==> (#[trigger] entries[i]).0@
                != (#[trigger] entries[j]).0@
    }

    /// Whether `key` is the key of entry `i`.
    spec fn at(entries: Seq<(String, T)>, key: Seq<char>, i: int) -> bool {
        0 <= i < entries.len() && entries[i].0@ == key
    }

    spec fn map_of(entries: Seq<(String, T)>) -> Map<Seq<char>, T> {
        Map::new(
            |key: Seq<char>| exists|i: int| Self::at(entries, key, i),
            |key: Seq<char>| entries[choose|i: int| Self::at(entries, key, i)].1,
        )
    }

    #[verifier::type_invariant]
    spec fn inv(&self) -> bool {
        Self::distinct(self.entries@)
    }

    /// The keys, in the order in which they first came.
    pub closed spec fn keys(&self) -> Seq<Seq<char>> {
        self.entries@.map_values(|entry: (String, T)| entry.0@)
    }
}

impl<T> View for TextMap<T> {
    type V = Map<Seq<char>, T>;

    closed spec fn view(&self) -> Map<Seq<char>, T> {
        Self::map_of(self.entries@)
    }
}

impl<T> TextMap<T> {
    proof fn lemma_at(entries: Seq<(String, T)>, i: int)
        requires
            Self::distinct(entries),
            0 <= i < entries.len(),
        ensures
            Self::map_of(entries).contains_key(entries[i].0@),
            Self::map_of(entries)[entries[i].0@] == entries[i].1,
    {
        assert(Self::at(entries, entries[i].0@, i));
    }

    proof fn lemma_absent(entries: Seq<(String, T)>, key: Seq<char>)
        requires
            forall|i: int| 0 <= i < entries.len() ==> entries[i].0@ != key,
        ensures
            !Self::map_of(entries).contains_key(key),
    {
    }

    /// A map without entries.
    pub fn new() -> (map: TextMap<T>)
        ensures
            map@ == Map::<Seq<char>, T>::empty(),
            map.keys() == Seq::<Seq<char>>::empty(),
    {
        let map = TextMap { entries: Vec::new() };
        assert(map@ =~= Map::<Seq<char>, T>::empty());
        map
    }

    /// The number of entries. The keys are those of the map, each once.
    pub fn len(&self) -> (n: usize)
        ensures
            n == self.keys().len(),
            self.keys().no_duplicates(),
            self.keys().to_set() == self@.dom(),
    {
        proof {
            use_type_invariant(self);
            assert forall|key: Seq<char>| self.keys().contains(key) == self@.contains_key(
                key,
            ) by {
                if self.keys().contains(key) {
                    let i = choose|i: int| 0 <= i < self.keys().len() && self.keys()[i] == key;
                    Self::lemma_at(self.entries@, i);
                }
                if self@.contains_key(key) {
                    let i = choose|i: int| Self::at(self.entries@, key, i);
                    assert(self.keys()[i] == key);
                }
            }
            assert(self.keys().to_set() =~= self@.dom());
        }
        self.entries.len()
    }

    fn position(&self, key: &str) -> (found: Option<usize>)
        ensures
            match found {
                Some(i) => Self::at(self.entries@, key@, i as int),
                None => forall|i: int|
                    0 <= i < self.entries@.len() ==> (#[trigger] self.entries@[i]).0@ != key@,
            },
    {
        let mut i: usize = 0;
        while i < self.entries.len()
            invariant
                i <= self.entries@.len(),
                forall|j: int| 0 <= j < i ==> (#[trigger] self.entries@[j]).0@ != key@,
            decreases self.entries@.len() - i,
        {
            if same_text(self.entries[i].0.as_str(), key) {
                return Some(i);
            }
            i += 1;
        }
        None
    }

    /// The keys, in the order in which they first came.
    pub fn key_list(&self) -> (list: Vec<String>)
        ensures
            texts(list@) == self.keys(),
            self.keys().no_duplicates(),
            self.keys().to_set() == self@.dom(),
    {
        let count = self.len();
        let mut list: Vec<String> = Vec::new();
        let mut i: usize = 0;
        assert(texts(list@) =~= self.keys().take(0));
        while i < count
            invariant
                i <= count,
                count == self.keys().len(),
                texts(list@) == self.keys().take(i as int),
            decreases count - i,
        {
            let ghost before = list@;
            let (key, _) = self.entry(i);
            list.push(key.clone());
            assert(texts(list@) =~= texts(before).push(key@));
            assert(self.keys().take(i + 1) =~= self.keys().take(i as int).push(key@));
            i += 1;
        }
        assert(self.keys().take(count as int) =~= self.keys());
        list
    }

    /// The value of `key`.
    pub fn get(&self, key: &str) -> (value: Option<&T>)
        ensures
            match value {
                Some(value) => self@.contains_key(key@) && self@[key@] == *value,
                None => !self@.contains_key(key@),
            },
    {
        proof {
            use_type_invariant(self);
        }
        match self.position(key) {
            Some(i) => {
                proof {
                    Self::lemma_at(self.entries@, i as int);
                }
                Some(&self.entries[i].1)
            },
            None => {
                proof {
                    Self::lemma_absent(self.entries@, key@);
                }
                None
            },
        }
    }

    /// The entry at a position.
    pub fn entry(&self, i: usize) -> (entry: (&String, &T))
        requires
            i < self.keys().len(),
        ensures
            entry.0@ == self.keys()[i as int],
            self@.contains_key(entry.0@),
            self@[entry.0@] == *entry.1,
    {
        proof {
            use_type_invariant(self);
            Self::lemma_at(self.entries@, i as int);
        }
        (&self.entries[i].0, &self.entries[i].1)
    }

    /// Sets the value of `key` and gives back the one it replaced.
    pub fn insert(&mut self, key: String, value: T) -> (replaced: Option<T>)
        ensures
            final(self)@ == old(self)@.insert(key@, value),
            final(self).keys() == if old(self)@.contains_key(key@) {
                old(self).keys()
            } else {
                old(self).keys().push(key@)
            },
            match replaced {
                Some(earlier) => old(self)@.contains_key(key@) && old(self)@[key@] == earlier,
                None => !old(self)@.contains_key(key@),
            },
    {
        proof {
            use_type_invariant(&*self);
        }
        let found = self.position(key.as_str());
        let ghost before = self.entries@;
        let ghost name = key@;
        let mut entries: Vec<(String, T)> = Vec::new();
        swap(&mut entries, &mut self.entries);
        match found {
            Some(i) => {
                let mut slot = (key, value);
                swap(&mut entries[i], &mut slot);
                proof {
                    Self::lemma_at(before, i as int);
                    assert(entries@ == before.update(i as int, (key, value)));
                    assert(Self::distinct(entries@));
                    assert forall|other: Seq<char>| #[trigger]
                        Self::map_of(entries@).contains_key(other) == Self::map_of(before).insert(
                            name,
                            value,
                        ).contains_key(other) by {
                        if Self::map_of(before).contains_key(other) {
                            let j = choose|j: int| Self::at(before, other, j);
                            assert(Self::at(entries@, other, j));
                        }
                        if Self::map_of(entries@).contains_key(other) {
                            let j = choose|j: int| Self::at(entries@, other, j);
                            assert(Self::at(before, other, j));
                        }
                    }
                    assert forall|other: Seq<char>| #[trigger]
                        Self::map_of(entries@).contains_key(other) implies Self::map_of(
                        entries@,
                    )[other] == Self::map_of(before).insert(name, value)[other] by {
                        let j = choose|j: int| Self::at(entries@, other, j);
                        Self::lemma_at(entries@, j);
                        Self::lemma_at(before, j);
                    }
                    assert(Self::map_of(entries@) =~= Self::map_of(before).insert(name, value));
                    assert(entries@.map_values(|entry: (String, T)| entry.0@)
                        =~= before.map_values(|entry: (String, T)| entry.0@));
                }
                self.entries = entries;
                Some(slot.1)
            },
            None => {
                entries.push((key, value));
                proof {
                    Self::lemma_absent(before, name);
                    assert(entries@ == before.push((key, value)));
                    assert(Self::distinct(entries@));
                    assert forall|other: Seq<char>| #[trigger]
                        Self::map_of(entries@).contains_key(other) == Self::map_of(before).insert(
                            name,
                            value,
                        ).contains_key(other) by {
                        if other == name {
                            assert(Self::at(entries@, other, before.len() as int));
                        } else if Self::map_of(before).contains_key(other) {
                            let j = choose|j: int| Self::at(before, other, j);
                            assert(Self::at(entries@, other, j));
                        } else if Self::map_of(entries@).contains_key(other) {
                            let j = choose|j: int| Self::at(entries@, other, j);
                            assert(Self::at(before, other, j));
                        }
                    }
                    assert forall|other: Seq<char>| #[trigger]
                        Self::map_of(entries@).contains_key(other) implies Self::map_of(
                        entries@,
                    )[other] == Self::map_of(before).insert(name, value)[other] by {
                        let j = choose|j: int| Self::at(entries@, other, j);
                        Self::lemma_at(entries@, j);
                        if j < before.len() {
                            Self::lemma_at(before, j);
                        }
                    }
                    assert(Self::map_of(entries@) =~= Self::map_of(before).insert(name, value));
                    assert(entries@.map_values(|entry: (String, T)| entry.0@)
                        =~= before.map_values(|entry: (String, T)| entry.0@).push(name));
                }
                self.entries = entries;
                None
            },
        }
    }

    /// Removes `key` and gives back its value.
    pub fn remove(&mut self, key: &str) -> (removed: Option<T>)
        ensures
            final(self)@ == old(self)@.remove(key@),
            match removed {
                Some(value) => old(self)@.contains_key(key@) && old(self)@[key@] == value,
                None => !old(self)@.contains_key(key@),
            },
    {
        proof {
            use_type_invariant(&*self);
        }
        let found = self.position(key);
        let ghost before = self.entries@;
        let ghost name = key@;
        match found {
            Some(i) => {
                let mut entries: Vec<(String, T)> = Vec::new();
                swap(&mut entries, &mut self.entries);
                let slot = entries.remove(i);
                proof {
                    Self::lemma_at(before, i as int);
                    assert(Self::distinct(entries@));
                    assert forall|other: Seq<char>| #[trigger]
                        Self::map_of(entries@).contains_key(other) == Self::map_of(before).remove(
                            name,
                        ).contains_key(other) by {
                        if Self::map_of(entries@).contains_key(other) {
                            let j = choose|j: int| Self::at(entries@, other, j);
                            let k = if j < i { j } else { j + 1 };
                            assert(Self::at(before, other, k));
                        }
                        if other != name && Self::map_of(before).contains_key(other) {
                            let k = choose|k: int| Self::at(before, other, k);
                            let j = if k < i { k } else { k - 1 };
                            assert(Self::at(entries@, other, j));
                        }
                    }
                    assert forall|other: Seq<char>| #[trigger]
                        Self::map_of(entries@).contains_key(other) implies Self::map_of(
                        entries@,
                    )[other] == Self::map_of(before).remove(name)[other] by {
                        let j = choose|j: int| Self::at(entries@, other, j);
                        let k = if j < i { j } else { j + 1 };
                        Self::lemma_at(entries@, j);
                        Self::lemma_at(before, k);
                    }
                    assert(Self::map_of(entries@) =~= Self::map_of(before).remove(name));
                }
                self.entries = entries;
                Some(slot.1)
            },
            None => {
                proof {
                    Self::lemma_absent(before, name);
                    assert(Self::map_of(before) =~= Self::map_of(before).remove(name));
                }
                None
            },
        }
    }
}

// ---------------------------------------------------------------------------
// Maps from lists.
// ---------------------------------------------------------------------------

/// A value under a name.
#[derive(Debug)]
pub struct Named<T> {
    pub name: String,
    pub value: T,
}

/// The values that are there, by name. Of two under one name the later
/// counts.
pub open spec fn present<T>(list: Seq<Named<Option<T>>>) -> Map<Seq<char>, T>
    decreases list.len(),
{
    if list.len() == 0 {
        Map::empty()
    } else {
        let earlier = present(list.drop_last());
        match list.last().value {
            Some(value) => earlier.insert(list.last().name@, value),
            None => earlier,
        }
    }
}

/// The lists that are not empty, by name. Of two under one name the later
/// counts.
pub open spec fn nonempty<T>(list: Seq<Named<Vec<T>>>) -> Map<Seq<char>, Vec<T>>
    decreases list.len(),
{
    if list.len() == 0 {
        Map::empty()
    } else {
        let earlier = nonempty(list.drop_last());
        if list.last().value@.len() > 0 {
            earlier.insert(list.last().name@, list.last().value)
        } else {
            earlier
        }
    }
}

/// Collects the values that are there.
pub fn present_entries<T>(list: Vec<Named<Option<T>>>) -> (map: TextMap<T>)
    ensures
        map@ == present(list@),
{
    let ghost all = list@;
    let mut rest = list;
    let mut map: TextMap<T> = TextMap::new();
    let ghost mut done: int = 0;
    assert(map@ =~= present(all.take(0)));
    assert(rest@ =~= all.skip(0));
    while rest.len() > 0
        invariant
            0 <= done <= all.len(),
            rest@ == all.skip(done),
            map@ == present(all.take(done)),
        decreases rest@.len(),
    {
        let named = rest.remove(0);
        proof {
            assert(done < all.len());
            assert(named == all[done]);
            assert(all.take(done + 1).drop_last() =~= all.take(done));
            assert(all.take(done + 1).last() == named);
            assert(rest@ =~= all.skip(done + 1));
            done = done + 1;
        }
        if let Some(value) = named.value {
            let _ = map.insert(named.name, value);
        }
    }
    assert(all.take(done) =~= all);
    map
}

/// Collects the lists that are not empty.
pub fn nonempty_entries<T>(list: Vec<Named<Vec<T>>>) -> (map: TextMap<Vec<T>>)
    ensures
        map@ == nonempty(list@),
{
    let ghost all = list@;
    let mut rest = list;
    let mut map: TextMap<Vec<T>> = TextMap::new();
    let ghost mut done: int = 0;
    assert(map@ =~= nonempty(all.take(0)));
    assert(rest@ =~= all.skip(0));
    while rest.len() > 0
        invariant
            0 <= done <= all.len(),
            rest@ == all.skip(done),
            map@ == nonempty(all.take(done)),
        decreases rest@.len(),
    {
        let named = rest.remove(0);
        proof {
            assert(done < all.len());
            assert(named == all[done]);
            assert(all.take(done + 1).drop_last() =~= all.take(done));
            assert(all.take(done + 1).last() == named);
            assert(rest@ =~= all.skip(done + 1));
            done = done + 1;
        }
        if named.value.len() > 0 {
            let _ = map.insert(named.name, named.value);
        }
    }
    assert(all.take(done) =~= all);
    map
}

/// A name has an entry just where a list that is not empty stands under it,
/// and no entry is an empty list.
pub proof fn nonempty_holds_the_lists<T>(list: Seq<Named<Vec<T>>>, name: Seq<char>)
    ensures
        nonempty(list).contains_key(name) <==> exists|i: int|
            0 <= i < list.len() && (#[trigger] list[i]).name@ == name && list[i].value@.len() > 0,
        nonempty(list).contains_key(name) ==> nonempty(list)[name]@.len() > 0,
    decreases list.len(),
{
    if list.len() > 0 {
        let earlier = list.drop_last();
        nonempty_holds_the_lists(earlier, name);
        if nonempty(earlier).contains_key(name) {
            let i = choose|i: int|
                0 <= i < earlier.len() && (#[trigger] earlier[i]).name@ == name
                    && earlier[i].value@.len() > 0;
            assert(list[i] == earlier[i]);
        }
        if list.last().name@ == name && list.last().value@.len() > 0 {
            assert(list[list.len() - 1] == list.last());
        }
        if exists|i: int|
            0 <= i < list.len() && (#[trigger] list[i]).name@ == name && list[i].value@.len() > 0 {
            let i = choose|i: int|
                0 <= i < list.len() && (#[trigger] list[i]).name@ == name && list[i].value@.len()
                    > 0;
            if i < earlier.len() {
                assert(earlier[i] == list[i]);
            }
        }
    }
}

/// A name has an entry just where a value stands under it, and the last value
/// under a name counts.
pub proof fn present_holds_the_values<T>(list: Seq<Named<Option<T>>>, name: Seq<char>, at: int)
    ensures
        present(list).contains_key(name) <==> exists|i: int|
            0 <= i < list.len() && (#[trigger] list[i]).name@ == name && list[i].value is Some,
        0 <= at < list.len() && list[at].name@ == name && list[at].value is Some && (forall|i: int|
            at < i < list.len() ==> !((#[trigger] list[i]).name@ == name
                && list[i].value is Some)) ==> present(list)[name] == list[at].value->0,
    decreases list.len(),
{
    if list.len() > 0 {
        let earlier = list.drop_last();
        let n = list.len() - 1;
        present_holds_the_values(earlier, name, at);
        assert(list[n] == list.last());
        assert forall|i: int| 0 <= i < n implies #[trigger] earlier[i] == list[i] by {}
        if present(earlier).contains_key(name) {
            let i = choose|i: int|
                0 <= i < earlier.len() && (#[trigger] earlier[i]).name@ == name
                    && earlier[i].value is Some;
            assert(list[i] == earlier[i]);
        }
        if exists|i: int|
            0 <= i < list.len() && (#[trigger] list[i]).name@ == name && list[i].value is Some {
            let i = choose|i: int|
                0 <= i < list.len() && (#[trigger] list[i]).name@ == name && list[i].value is Some;
            if i < n {
                assert(earlier[i] == list[i]);
            }
        }
    }
}

/// The last list under a name that is not empty is the one that stands under
/// it.
pub proof fn the_last_nonempty_list_counts<T>(
    list: Seq<Named<Vec<T>>>,
    name: Seq<char>,
    at: int,
)
    requires
        0 <= at < list.len(),
        list[at].name@ == name,
        list[at].value@.len() > 0,
        forall|i: int|
            at < i < list.len() ==> !((#[trigger] list[i]).name@ == name && list[i].value@.len()
                > 0),
    ensures
        nonempty(list).contains_key(name),
        nonempty(list)[name] == list[at].value,
    decreases list.len(),
{
    let earlier = list.drop_last();
    let n = list.len() - 1;
    assert(list[n] == list.last());
    if at < n {
        assert forall|i: int| at < i < n implies !((#[trigger] earlier[i]).name@ == name
            && earlier[i].value@.len() > 0) by {
            assert(earlier[i] == list[i]);
        }
        the_last_nonempty_list_counts(earlier, name, at);
    }
}

/// Texts keep their characters and their order, and no text stays no text.
pub proof fn texts_keep_their_characters(list: Seq<String>, text: String, slice: &str)
    ensures
        text_of(Some(text)) == Some(text@),
        text_of(None) is None,
        str_of(Some(slice)) == Some(slice@),
        str_of(None) is None,
        texts(list).len() == list.len(),
        forall|i: int| 0 <= i < list.len() ==> #[trigger] texts(list)[i] == list[i]@,
{
}

} // verus!
