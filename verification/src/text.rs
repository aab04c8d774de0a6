//! Text as a sequence of characters: searching, splitting and trimming.
//!
//! The functions here work on slices of characters, and state their results
//! over `Seq<char>`, which is also the view of `str` and `String`.

use vstd::prelude::*;
use vstd::slice::slice_subrange;

verus! {

// ---------------------------------------------------------------------------
// Conversions between strings and characters.
// ---------------------------------------------------------------------------

/// `String::push` appends one character to the end of the string.
pub assume_specification[ String::push ](text: &mut String, ch: char)
    ensures
        final(text)@ == old(text)@.push(ch),
;

/// The characters of `text`, in order.
pub fn chars_of(text: &str) -> (chars: Vec<char>)
    ensures
        chars@ == text@,
{
    let mut chars: Vec<char> = Vec::new();
    for ch in it: text.chars()
        invariant
            it.seq() == text@,
            chars@ == text@.take(it.index() as int),
    {
        chars.push(ch);
        assert(text@.take(it.index() + 1) == text@.take(it.index() as int).push(ch));
    }
    assert(text@.take(text@.len() as int) == text@);
    chars
}

/// The string made of `chars`, in order.
pub fn string_of(chars: &[char]) -> (text: String)
    ensures
        text@ == chars@,
{
    let mut text = String::new();
    let mut i: usize = 0;
    while i < chars.len()
        invariant
            i <= chars@.len(),
            text@ == chars@.take(i as int),
        decreases chars@.len() - i,
    {
        text.push(chars[i]);
        assert(chars@.take(i + 1) == chars@.take(i as int).push(chars@[i as int]));
        i += 1;
    }
    assert(chars@.take(chars@.len() as int) == chars@);
    text
}

// ---------------------------------------------------------------------------
// Equality and order.
// ---------------------------------------------------------------------------

/// Whether two strings hold the same characters.
pub fn same_text(a: &str, b: &str) -> (same: bool)
    ensures
        same == (a@ == b@),
{
    let left = a.as_bytes();
    let right = b.as_bytes();
    proof {
        vstd::utf8::encode_utf8_decode_utf8(a@);
        vstd::utf8::encode_utf8_decode_utf8(b@);
    }
    if left.len() != right.len() {
        return false;
    }
    let mut i: usize = 0;
    while i < left.len()
        invariant
            left@.len() == right@.len(),
            i <= left@.len(),
            left@ == vstd::utf8::encode_utf8(a@),
            right@ == vstd::utf8::encode_utf8(b@),
            forall|j: int| 0 <= j < i ==> left@[j] == right@[j],
        decreases left@.len() - i,
    {
        if left[i] != right[i] {
            return false;
        }
        i += 1;
    }
    assert(left@ =~= right@);
    true
}

/// Whether two slices hold the same characters.
pub fn same_chars(a: &[char], b: &[char]) -> (same: bool)
    ensures
        same == (a@ == b@),
{
    if a.len() != b.len() {
        return false;
    }
    let mut i: usize = 0;
    while i < a.len()
        invariant
            a@.len() == b@.len(),
            i <= a@.len(),
            forall|j: int| 0 <= j < i ==> a@[j] == b@[j],
        decreases a@.len() - i,
    {
        if a[i] != b[i] {
            return false;
        }
        i += 1;
    }
    assert(a@ =~= b@);
    true
}

/// Whether `a` comes strictly before `b` in dictionary order, characters
/// being ordered by code point.
pub open spec fn precedes(a: Seq<char>, b: Seq<char>) -> bool
    decreases a.len(),
{
    if b.len() == 0 {
        false
    } else if a.len() == 0 {
        true
    } else if a[0] != b[0] {
        (a[0] as int) < (b[0] as int)
    } else {
        precedes(a.drop_first(), b.drop_first())
    }
}

/// Dictionary order is total: of two different texts one precedes the other.
pub proof fn lemma_precedes_total(a: Seq<char>, b: Seq<char>)
    ensures
        a == b || precedes(a, b) || precedes(b, a),
    decreases a.len(),
{
    if a.len() > 0 && b.len() > 0 && a[0] == b[0] {
        lemma_precedes_total(a.drop_first(), b.drop_first());
        if a.drop_first() == b.drop_first() {
            assert(a == seq![a[0]] + a.drop_first());
            assert(b == seq![b[0]] + b.drop_first());
        }
    } else if a.len() == 0 && b.len() == 0 {
        assert(a == b);
    }
}

/// No text precedes itself, and no two texts precede each other.
pub proof fn lemma_precedes_asymmetric(a: Seq<char>, b: Seq<char>)
    ensures
        !(precedes(a, b) && precedes(b, a)),
        !precedes(a, a),
    decreases a.len(),
{
    if a.len() > 0 {
        if b.len() > 0 {
            lemma_precedes_asymmetric(a.drop_first(), b.drop_first());
        } else {
            lemma_precedes_asymmetric(a.drop_first(), b);
        }
    }
}

/// Dictionary order is transitive.
pub proof fn lemma_precedes_transitive(a: Seq<char>, b: Seq<char>, c: Seq<char>)
    requires
        precedes(a, b),
        precedes(b, c),
    ensures
        precedes(a, c),
    decreases a.len(),
{
    if a.len() > 0 && a[0] == b[0] && b[0] == c[0] {
        lemma_precedes_transitive(a.drop_first(), b.drop_first(), c.drop_first());
    }
}

/// Decides dictionary order.
pub fn text_precedes(a: &str, b: &str) -> (before: bool)
    ensures
        before == precedes(a@, b@),
{
    let left = chars_of(a);
    let right = chars_of(b);
    let mut i: usize = 0;
    assert(left@.skip(0) == a@);
    assert(right@.skip(0) == b@);
    while i < left.len() && i < right.len()
        invariant
            left@ == a@,
            right@ == b@,
            i <= left@.len(),
            i <= right@.len(),
            precedes(a@, b@) == precedes(left@.skip(i as int), right@.skip(i as int)),
        decreases left@.len() - i,
    {
        assert(left@.skip(i as int).drop_first() == left@.skip(i + 1));
        assert(right@.skip(i as int).drop_first() == right@.skip(i + 1));
        if left[i] != right[i] {
            return left[i] < right[i];
        }
        i += 1;
    }
    i < right.len()
}

// ---------------------------------------------------------------------------
// Searching.
// ---------------------------------------------------------------------------

/// Whether `needle` stands in `s` at position `at`.
pub open spec fn occurs_at<T>(s: Seq<T>, needle: Seq<T>, at: int) -> bool {
    0 <= at && at + needle.len() <= s.len() && s.subrange(at, at + needle.len()) == needle
}

/// Whether `needle` stands anywhere in `s`.
pub open spec fn occurs<T>(s: Seq<T>, needle: Seq<T>) -> bool {
    exists|at: int| occurs_at(s, needle, at)
}

/// The first position at which `needle` stands in `s`.
pub open spec fn find<T>(s: Seq<T>, needle: Seq<T>) -> Option<int>
    decreases s.len(),
{
    if occurs_at(s, needle, 0) {
        Some(0)
    } else if s.len() == 0 {
        None
    } else {
        match find(s.drop_first(), needle) {
            Some(at) => Some(at + 1),
            None => None,
        }
    }
}

proof fn lemma_occurs_shift<T>(s: Seq<T>, needle: Seq<T>, at: int)
    requires
        s.len() > 0,
        at > 0,
    ensures
        occurs_at(s, needle, at) == occurs_at(s.drop_first(), needle, at - 1),
{
    if at + needle.len() <= s.len() {
        assert(s.subrange(at, at + needle.len()) == s.drop_first().subrange(
            at - 1,
            at - 1 + needle.len(),
        ));
    }
}

/// `find` gives the least position at which the needle stands, if any.
pub proof fn lemma_find<T>(s: Seq<T>, needle: Seq<T>)
    ensures
        match find(s, needle) {
            Some(at) => occurs_at(s, needle, at) && forall|j: int|
                0 <= j < at ==> !occurs_at(s, needle, j),
            None => forall|j: int| !occurs_at(s, needle, j),
        },
    decreases s.len(),
{
    if !occurs_at(s, needle, 0) && s.len() > 0 {
        lemma_find(s.drop_first(), needle);
        let rest = find(s.drop_first(), needle);
        assert forall|j: int| 0 < j implies occurs_at(s, needle, j) == occurs_at(
            s.drop_first(),
            needle,
            j - 1,
        ) by {
            lemma_occurs_shift(s, needle, j);
        }
        if let Some(at) = rest {
            assert forall|j: int| 0 <= j < at + 1 implies !occurs_at(s, needle, j) by {
                if j > 0 {
                    assert(!occurs_at(s.drop_first(), needle, j - 1));
                }
            }
        } else {
            assert forall|j: int| !occurs_at(s, needle, j) by {
                if j > 0 {
                    assert(!occurs_at(s.drop_first(), needle, j - 1));
                }
            }
        }
    }
}

/// The least position with an occurrence is what `find` gives.
pub proof fn lemma_find_is<T>(s: Seq<T>, needle: Seq<T>, at: int)
    requires
        occurs_at(s, needle, at),
        forall|j: int| 0 <= j < at ==> !occurs_at(s, needle, j),
    ensures
        find(s, needle) == Some(at),
{
    lemma_find(s, needle);
}

/// Without an occurrence `find` gives nothing.
pub proof fn lemma_find_none<T>(s: Seq<T>, needle: Seq<T>)
    requires
        forall|j: int| 0 <= j <= s.len() ==> !occurs_at(s, needle, j),
    ensures
        find(s, needle) is None,
{
    lemma_find(s, needle);
}

/// Decides whether `needle` stands in `s` at `at`.
fn chars_occur_at(s: &[char], needle: &[char], at: usize) -> (found: bool)
    requires
        at <= s@.len(),
    ensures
        found == occurs_at(s@, needle@, at as int),
{
    if needle.len() > s.len() - at {
        return false;
    }
    same_chars(slice_subrange(s, at, at + needle.len()), needle)
}

/// The first position of `needle` in `s`.
pub fn find_chars(s: &[char], needle: &[char]) -> (found: Option<usize>)
    ensures
        match found {
            Some(at) => find(s@, needle@) == Some(at as int),
            None => find(s@, needle@) is None,
        },
{
    let mut i: usize = 0;
    loop
        invariant
            i <= s@.len(),
            forall|j: int| 0 <= j < i ==> !occurs_at(s@, needle@, j),
        decreases s@.len() - i,
    {
        if chars_occur_at(s, needle, i) {
            proof {
                lemma_find_is(s@, needle@, i as int);
            }
            return Some(i);
        }
        if i >= s.len() {
            proof {
                lemma_find_none(s@, needle@);
            }
            return None;
        }
        i += 1;
    }
}

// ---------------------------------------------------------------------------
// Classes of characters and trimming.
// ---------------------------------------------------------------------------

/// The classes of characters that trimming and word splitting go by.
#[derive(Clone, Copy, Debug, PartialEq, Eq)]
pub enum CharClass {
    /// The Unicode `White_Space` property.
    White,
    /// Anything but white space.
    Solid,
    /// The ASCII digits.
    Digit,
    /// The double quote.
    DoubleQuote,
    /// The single quote.
    SingleQuote,
}

/// Whether `ch` has the Unicode `White_Space` property.
pub open spec fn is_white(ch: char) -> bool {
    let code = ch as u32;
    ||| 0x09 <= code <= 0x0d
    ||| code == 0x20
    ||| code == 0x85
    ||| code == 0xa0
    ||| code == 0x1680
    ||| 0x2000 <= code <= 0x200a
    ||| code == 0x2028
    ||| code == 0x2029
    ||| code == 0x202f
    ||| code == 0x205f
    ||| code == 0x3000
}

/// Whether `ch` is an ASCII digit.
pub open spec fn is_digit(ch: char) -> bool {
    '0' <= ch <= '9'
}

/// Whether `ch` is in `class`.
pub open spec fn in_class(ch: char, class: CharClass) -> bool {
    match class {
        CharClass::White => is_white(ch),
        CharClass::Solid => !is_white(ch),
        CharClass::Digit => is_digit(ch),
        CharClass::DoubleQuote => ch == '"',
        CharClass::SingleQuote => ch == '\'',
    }
}

/// Decides whether `ch` is white space.
pub fn white(ch: char) -> (yes: bool)
    ensures
        yes == is_white(ch),
{
    let code = ch as u32;
    (0x09 <= code && code <= 0x0d) || code == 0x20 || code == 0x85 || code == 0xa0 || code == 0x1680
        || (0x2000 <= code && code <= 0x200a) || code == 0x2028 || code == 0x2029 || code == 0x202f
        || code == 0x205f || code == 0x3000
}

/// Decides whether `ch` is in `class`.
pub fn class_holds(ch: char, class: CharClass) -> (yes: bool)
    ensures
        yes == in_class(ch, class),
{
    match class {
        CharClass::White => white(ch),
        CharClass::Solid => !white(ch),
        CharClass::Digit => '0' <= ch && ch <= '9',
        CharClass::DoubleQuote => ch == '"',
        CharClass::SingleQuote => ch == '\'',
    }
}

/// How many characters at the start of `s` are in `class`, up to the first
/// that is not.
pub open spec fn leading(s: Seq<char>, class: CharClass) -> nat
    decreases s.len(),
{
    if s.len() > 0 && in_class(s[0], class) {
        1 + leading(s.drop_first(), class)
    } else {
        0
    }
}

/// How many characters at the end of `s` are in `class`, down to the last
/// that is not.
pub open spec fn trailing(s: Seq<char>, class: CharClass) -> nat
    decreases s.len(),
{
    if s.len() > 0 && in_class(s.last(), class) {
        1 + trailing(s.drop_last(), class)
    } else {
        0
    }
}

/// `s` without the characters of `class` at its start.
pub open spec fn trim_start(s: Seq<char>, class: CharClass) -> Seq<char> {
    s.skip(leading(s, class) as int)
}

/// `s` without the characters of `class` at its end.
pub open spec fn trim_end(s: Seq<char>, class: CharClass) -> Seq<char> {
    s.take(s.len() - trailing(s, class))
}

/// `s` without the characters of `class` at its start and at its end.
pub open spec fn trim(s: Seq<char>, class: CharClass) -> Seq<char> {
    trim_end(trim_start(s, class), class)
}

/// `leading` counts a run of the class that cannot be longer.
pub proof fn lemma_leading(s: Seq<char>, class: CharClass)
    ensures
        leading(s, class) <= s.len(),
        forall|i: int| 0 <= i < leading(s, class) ==> in_class(#[trigger] s[i], class),
        leading(s, class) < s.len() ==> !in_class(s[leading(s, class) as int], class),
    decreases s.len(),
{
    if s.len() > 0 && in_class(s[0], class) {
        lemma_leading(s.drop_first(), class);
        assert forall|i: int| 0 <= i < leading(s, class) implies in_class(
            #[trigger] s[i],
            class,
        ) by {
            if i > 0 {
                assert(s[i] == s.drop_first()[i - 1]);
            }
        }
    }
}

/// `trailing` counts a run of the class that cannot be longer.
pub proof fn lemma_trailing(s: Seq<char>, class: CharClass)
    ensures
        trailing(s, class) <= s.len(),
        forall|i: int|
            s.len() - trailing(s, class) <= i < s.len() ==> in_class(#[trigger] s[i], class),
        trailing(s, class) < s.len() ==> !in_class(s[s.len() - trailing(s, class) - 1], class),
    decreases s.len(),
{
    if s.len() > 0 && in_class(s.last(), class) {
        lemma_trailing(s.drop_last(), class);
        assert forall|i: int|
            s.len() - trailing(s, class) <= i < s.len() implies in_class(#[trigger] s[i], class) by {
            if i < s.len() - 1 {
                assert(s[i] == s.drop_last()[i]);
            }
        }
    }
}

/// A run of the class that cannot be longer is what `leading` counts.
pub proof fn lemma_leading_is(s: Seq<char>, class: CharClass, n: nat)
    requires
        n <= s.len(),
        forall|i: int| 0 <= i < n ==> in_class(#[trigger] s[i], class),
        n < s.len() ==> !in_class(s[n as int], class),
    ensures
        leading(s, class) == n,
{
    lemma_leading(s, class);
    let m = leading(s, class);
    if m < n {
        assert(in_class(s[m as int], class));
    } else if m > n {
        assert(in_class(s[n as int], class));
    }
}

/// Counts the characters of `class` at the start of `s`.
pub fn count_leading(s: &[char], class: CharClass) -> (n: usize)
    ensures
        n == leading(s@, class),
        n <= s@.len(),
{
    let mut n: usize = 0;
    while n < s.len() && class_holds(s[n], class)
        invariant
            n <= s@.len(),
            forall|i: int| 0 <= i < n ==> in_class(#[trigger] s@[i], class),
        decreases s@.len() - n,
    {
        n += 1;
    }
    proof {
        lemma_leading_is(s@, class, n as nat);
    }
    n
}

/// Counts the characters of `class` at the end of `s`.
pub fn count_trailing(s: &[char], class: CharClass) -> (n: usize)
    ensures
        n == trailing(s@, class),
        n <= s@.len(),
{
    let mut n: usize = 0;
    while n < s.len() && class_holds(s[s.len() - 1 - n], class)
        invariant
            n <= s@.len(),
            forall|i: int| s@.len() - n <= i < s@.len() ==> in_class(#[trigger] s@[i], class),
        decreases s@.len() - n,
    {
        n += 1;
    }
    proof {
        lemma_trailing(s@, class);
        let m = trailing(s@, class);
        if m < n {
            assert(in_class(s@[s@.len() - m - 1], class));
        } else if m > n {
            assert(in_class(s@[s@.len() - n - 1], class));
        }
    }
    n
}

/// Removes the characters of `class` from both ends of `s`.
pub fn trimmed<'a>(s: &'a [char], class: CharClass) -> (inner: &'a [char])
    ensures
        inner@ == trim(s@, class),
{
    let start = count_leading(s, class);
    let rest = slice_subrange(s, start, s.len());
    assert(rest@ == trim_start(s@, class));
    let end = count_trailing(rest, class);
    let inner = slice_subrange(rest, 0, rest.len() - end);
    assert(inner@ == trim_end(rest@, class));
    inner
}

// ---------------------------------------------------------------------------
// Prefixes, suffixes and splitting.
// ---------------------------------------------------------------------------

/// Whether `s` begins with `prefix`.
pub open spec fn starts_with(s: Seq<char>, prefix: Seq<char>) -> bool {
    occurs_at(s, prefix, 0)
}

/// Whether `s` ends with `suffix`.
pub open spec fn ends_with(s: Seq<char>, suffix: Seq<char>) -> bool {
    occurs_at(s, suffix, s.len() - suffix.len())
}

/// What follows `prefix` in `s`, if `s` begins with it.
pub open spec fn strip_prefix(s: Seq<char>, prefix: Seq<char>) -> Option<Seq<char>> {
    if starts_with(s, prefix) {
        Some(s.skip(prefix.len() as int))
    } else {
        None
    }
}

/// What stands before `suffix` in `s`, if `s` ends with it.
pub open spec fn strip_suffix(s: Seq<char>, suffix: Seq<char>) -> Option<Seq<char>> {
    if ends_with(s, suffix) {
        Some(s.take(s.len() - suffix.len()))
    } else {
        None
    }
}

/// What stands before and after the first `separator` in `s`.
pub open spec fn split_once(s: Seq<char>, separator: Seq<char>) -> Option<(Seq<char>, Seq<char>)> {
    match find(s, separator) {
        Some(at) => Some((s.take(at), s.skip(at + separator.len()))),
        None => None,
    }
}

/// The parts of `s` between the occurrences of `separator`.
pub open spec fn split(s: Seq<char>, separator: Seq<char>) -> Seq<Seq<char>>
    decreases s.len(),
{
    match find(s, separator) {
        Some(at) => {
            if separator.len() == 0 {
                seq![s]
            } else {
                proof {
                    lemma_find(s, separator);
                }
                seq![s.take(at)] + split(s.skip(at + separator.len()), separator)
            }
        },
        None => seq![s],
    }
}

/// The lines of `s`: a line ends at a line feed, which is not part of it, nor
/// is one carriage return just before it.
pub open spec fn lines(s: Seq<char>) -> Seq<Seq<char>>
    decreases s.len(),
{
    if s.len() == 0 {
        Seq::empty()
    } else {
        match find(s, seq!['\n']) {
            Some(at) => {
                proof {
                    lemma_find(s, seq!['\n']);
                }
                let line = s.take(at);
                let line = if line.len() > 0 && line.last() == '\r' {
                    line.drop_last()
                } else {
                    line
                };
                seq![line] + lines(s.skip(at + 1))
            },
            None => seq![s],
        }
    }
}

/// The words of `s`: its longest runs without white space.
pub open spec fn words(s: Seq<char>) -> Seq<Seq<char>>
    decreases s.len(),
{
    let rest = trim_start(s, CharClass::White);
    let n = leading(rest, CharClass::Solid);
    if n == 0 {
        Seq::empty()
    } else {
        proof {
            lemma_leading(s, CharClass::White);
            lemma_leading(rest, CharClass::Solid);
        }
        seq![rest.take(n as int)] + words(rest.skip(n as int))
    }
}

/// The sequences that a sequence of slices holds.
pub open spec fn pieces(parts: Seq<&[char]>) -> Seq<Seq<char>> {
    parts.map_values(|part: &[char]| part@)
}

/// Decides whether `s` begins with `prefix`.
pub fn has_prefix(s: &[char], prefix: &[char]) -> (yes: bool)
    ensures
        yes == starts_with(s@, prefix@),
{
    chars_occur_at(s, prefix, 0)
}

/// Removes `prefix` from the start of `s`.
pub fn without_prefix<'a>(s: &'a [char], prefix: &[char]) -> (rest: Option<&'a [char]>)
    ensures
        match rest {
            Some(rest) => strip_prefix(s@, prefix@) == Some(rest@),
            None => strip_prefix(s@, prefix@) is None,
        },
{
    if chars_occur_at(s, prefix, 0) {
        Some(slice_subrange(s, prefix.len(), s.len()))
    } else {
        None
    }
}

/// Removes `suffix` from the end of `s`.
pub fn without_suffix<'a>(s: &'a [char], suffix: &[char]) -> (rest: Option<&'a [char]>)
    ensures
        match rest {
            Some(rest) => strip_suffix(s@, suffix@) == Some(rest@),
            None => strip_suffix(s@, suffix@) is None,
        },
{
    if suffix.len() <= s.len() && chars_occur_at(s, suffix, s.len() - suffix.len()) {
        let rest = slice_subrange(s, 0, s.len() - suffix.len());
        assert(rest@ == s@.take(s@.len() - suffix@.len()));
        Some(rest)
    } else {
        None
    }
}

/// Splits `s` at the first `separator`.
pub fn split_at_first<'a>(s: &'a [char], separator: &[char]) -> (halves: Option<
    (&'a [char], &'a [char]),
>)
    ensures
        match halves {
            Some(halves) => split_once(s@, separator@) == Some((halves.0@, halves.1@)),
            None => split_once(s@, separator@) is None,
        },
{
    match find_chars(s, separator) {
        Some(at) => {
            proof {
                lemma_find(s@, separator@);
            }
            let end = s.len();
            assert(at + separator@.len() <= end);
            let before = slice_subrange(s, 0, at);
            assert(before@ == s@.take(at as int));
            Some((before, slice_subrange(s, at + separator.len(), end)))
        },
        None => None,
    }
}

/// Splits `s` at every `separator`.
pub fn split_all<'a>(s: &'a [char], separator: &[char]) -> (parts: Vec<&'a [char]>)
    requires
        separator@.len() > 0,
    ensures
        pieces(parts@) == split(s@, separator@),
{
    let mut parts: Vec<&'a [char]> = Vec::new();
    let mut rest = s;
    assert(pieces(parts@) == Seq::<Seq<char>>::empty());
    loop
        invariant
            separator@.len() > 0,
            split(s@, separator@) == pieces(parts@) + split(rest@, separator@),
        decreases rest@.len(),
    {
        let ghost before = parts@;
        match split_at_first(rest, separator) {
            Some((part, tail)) => {
                proof {
                    lemma_find(rest@, separator@);
                }
                parts.push(part);
                assert(pieces(parts@) == pieces(before).push(part@));
                assert(split(rest@, separator@) == seq![part@] + split(tail@, separator@));
                assert(pieces(before) + (seq![part@] + split(tail@, separator@)) == pieces(parts@)
                    + split(tail@, separator@));
                rest = tail;
            },
            None => {
                parts.push(rest);
                assert(pieces(parts@) == pieces(before).push(rest@));
                assert(split(rest@, separator@) == seq![rest@]);
                assert(pieces(before) + seq![rest@] == pieces(parts@));
                return parts;
            },
        }
    }
}

/// Splits `s` into its lines.
pub fn split_lines<'a>(s: &'a [char]) -> (parts: Vec<&'a [char]>)
    ensures
        pieces(parts@) == lines(s@),
{
    let mut parts: Vec<&'a [char]> = Vec::new();
    let mut rest = s;
    let newline: [char; 1] = ['\n'];
    assert(newline@ == seq!['\n']);
    assert(pieces(parts@) == Seq::<Seq<char>>::empty());
    assert(lines(s@) == pieces(parts@) + lines(rest@));
    while rest.len() > 0
        invariant
            newline@ == seq!['\n'],
            lines(s@) == pieces(parts@) + lines(rest@),
        decreases rest@.len(),
    {
        let ghost before = parts@;
        match split_at_first(rest, &newline) {
            Some((line, tail)) => {
                proof {
                    lemma_find(rest@, seq!['\n']);
                }
                let shown = if line.len() > 0 && line[line.len() - 1] == '\r' {
                    slice_subrange(line, 0, line.len() - 1)
                } else {
                    line
                };
                parts.push(shown);
                assert(pieces(parts@) == pieces(before).push(shown@));
                assert(lines(rest@) == seq![shown@] + lines(tail@));
                assert(pieces(before) + (seq![shown@] + lines(tail@)) == pieces(parts@) + lines(
                    tail@,
                ));
                rest = tail;
            },
            None => {
                parts.push(rest);
                assert(pieces(parts@) == pieces(before).push(rest@));
                assert(lines(rest@) == seq![rest@]);
                assert(pieces(before) + seq![rest@] == pieces(parts@));
                return parts;
            },
        }
    }
    assert(lines(rest@) == Seq::<Seq<char>>::empty());
    assert(pieces(parts@) + Seq::<Seq<char>>::empty() == pieces(parts@));
    parts
}

/// Splits `s` into its words.
pub fn split_words<'a>(s: &'a [char]) -> (parts: Vec<&'a [char]>)
    ensures
        pieces(parts@) == words(s@),
{
    let mut parts: Vec<&'a [char]> = Vec::new();
    let mut rest = s;
    assert(pieces(parts@) == Seq::<Seq<char>>::empty());
    assert(words(s@) == pieces(parts@) + words(rest@));
    loop
        invariant
            words(s@) == pieces(parts@) + words(rest@),
        decreases rest@.len(),
    {
        let ghost before = parts@;
        let solid = slice_subrange(rest, count_leading(rest, CharClass::White), rest.len());
        let n = count_leading(solid, CharClass::Solid);
        assert(solid@ == trim_start(rest@, CharClass::White));
        if n == 0 {
            assert(pieces(parts@) + Seq::<Seq<char>>::empty() == pieces(parts@));
            return parts;
        }
        let word = slice_subrange(solid, 0, n);
        let tail = slice_subrange(solid, n, solid.len());
        parts.push(word);
        assert(word@ == solid@.take(n as int));
        assert(tail@ == solid@.skip(n as int));
        assert(pieces(parts@) == pieces(before).push(word@));
        assert(words(rest@) == seq![word@] + words(tail@));
        assert(pieces(before) + (seq![word@] + words(tail@)) == pieces(parts@) + words(tail@));
        rest = tail;
    }
}

// ---------------------------------------------------------------------------
// ASCII case.
// ---------------------------------------------------------------------------

/// `ch` with an ASCII capital made small.
pub open spec fn lower_char(ch: char) -> char {
    if 'A' <= ch <= 'Z' {
        (ch as u8 + 32) as char
    } else {
        ch
    }
}

/// `s` with its ASCII capitals made small.
pub open spec fn lower(s: Seq<char>) -> Seq<char> {
    s.map_values(|ch: char| lower_char(ch))
}

/// Makes an ASCII capital small.
pub fn lowered_char(ch: char) -> (small: char)
    ensures
        small == lower_char(ch),
{
    if 'A' <= ch && ch <= 'Z' {
        (ch as u8 + 32) as char
    } else {
        ch
    }
}

/// Makes the ASCII capitals of `s` small.
pub fn lowered(s: &[char]) -> (small: Vec<char>)
    ensures
        small@ == lower(s@),
{
    let mut small: Vec<char> = Vec::new();
    let mut i: usize = 0;
    while i < s.len()
        invariant
            i <= s@.len(),
            small@ == lower(s@.take(i as int)),
        decreases s@.len() - i,
    {
        small.push(lowered_char(s[i]));
        i += 1;
        assert(small@ =~= lower(s@.take(i as int)));
    }
    assert(s@.take(s@.len() as int) == s@);
    small
}

/// Whether `a` and `b` are equal but for the case of ASCII letters.
pub fn same_ignoring_case(a: &[char], b: &[char]) -> (same: bool)
    ensures
        same == (lower(a@) == lower(b@)),
{
    let left = lowered(a);
    let right = lowered(b);
    same_chars(left.as_slice(), right.as_slice())
}

/// A text is split at the first place where a character stands: the parts with
/// the character between them are the text, and the first part has none.
pub proof fn lemma_split_once_char(
    text: Seq<char>,
    mark: char,
    left: Seq<char>,
    right: Seq<char>,
)
    ensures
        split_once(text, seq![mark]) == Some((left, right)) <==> text == left + seq![mark] + right
            && !left.contains(mark),
        split_once(text, seq![mark]) is None <==> !text.contains(mark),
{
    let needle = seq![mark];
    assert forall|at: int| #[trigger] occurs_at(text, needle, at) <==> 0 <= at < text.len()
        && text[at] == mark by {
        if 0 <= at < text.len() {
            assert(text.subrange(at, at + 1) =~= seq![text[at]]);
            assert(text.subrange(at, at + 1)[0] == text[at]);
            assert(seq![mark][0] == mark);
        }
    }
    match find(text, needle) {
        Some(at) => {
            lemma_find(text, needle);
            assert(occurs_at(text, needle, at));
            assert(text =~= text.take(at) + needle + text.skip(at + 1));
            assert(text.contains(mark));
            assert(!text.take(at).contains(mark)) by {
                if text.take(at).contains(mark) {
                    let i = choose|i: int| 0 <= i < at && text.take(at)[i] == mark;
                    assert(text[i] == mark);
                    assert(occurs_at(text, needle, i));
                }
            }
            if text == left + needle + right && !left.contains(mark) {
                let n = left.len() as int;
                assert(text[n] == mark);
                assert(occurs_at(text, needle, n));
                if at < n {
                    assert(left[at] == text[at]);
                }
                assert(at == n);
                assert(text.take(at) =~= left);
                assert(text.skip(at + 1) =~= right);
            }
        },
        None => {
            lemma_find(text, needle);
            if text.contains(mark) {
                let i = choose|i: int| 0 <= i < text.len() && text[i] == mark;
                assert(occurs_at(text, needle, i));
            }
            if text == left + needle + right {
                assert(text[left.len() as int] == mark);
            }
        },
    }
}

/// Texts are ordered by the first place where they differ: the smaller
/// character comes first, and a text that ends there comes before one that
/// goes on.
pub proof fn the_first_difference_decides(a: Seq<char>, b: Seq<char>, k: int)
    requires
        0 <= k <= a.len(),
        k <= b.len(),
        a.take(k) == b.take(k),
    ensures
        k < a.len() && k < b.len() && a[k] != b[k] ==> (precedes(a, b) <==> (a[k] as int) < (
        b[k] as int)),
        k == a.len() ==> (precedes(a, b) <==> a.len() < b.len()),
        k == b.len() ==> !precedes(a, b),
    decreases a.len(),
{
    if k > 0 {
        assert(a[0] == a.take(k)[0] && b[0] == b.take(k)[0]);
        assert(a.drop_first().take(k - 1) =~= a.take(k).drop_first());
        assert(b.drop_first().take(k - 1) =~= b.take(k).drop_first());
        the_first_difference_decides(a.drop_first(), b.drop_first(), k - 1);
    }
}

/// The white characters are the tab, the line feed, the vertical tab, the form
/// feed, the carriage return, the space, and the other characters that Unicode
/// counts as white. A character is solid just where it is not white.
pub proof fn white_characters(ch: char)
    ensures
        is_white(ch) <==> [
            0x09u32,
            0x0a,
            0x0b,
            0x0c,
            0x0d,
            0x20,
            0x85,
            0xa0,
            0x1680,
            0x2000,
            0x2001,
            0x2002,
            0x2003,
            0x2004,
            0x2005,
            0x2006,
            0x2007,
            0x2008,
            0x2009,
            0x200a,
            0x2028,
            0x2029,
            0x202f,
            0x205f,
            0x3000,
        ]@.contains(ch as u32),
        in_class(ch, CharClass::White) != in_class(ch, CharClass::Solid),
        in_class(ch, CharClass::White) == is_white(ch),
        in_class(ch, CharClass::Digit) <==> [
            '0',
            '1',
            '2',
            '3',
            '4',
            '5',
            '6',
            '7',
            '8',
            '9',
        ]@.contains(ch),
        in_class(ch, CharClass::Digit) == is_digit(ch),
        in_class(ch, CharClass::DoubleQuote) <==> ch as u32 == 0x22,
        in_class(ch, CharClass::SingleQuote) <==> ch as u32 == 0x27,
{
    let codes = [
        0x09u32,
        0x0a,
        0x0b,
        0x0c,
        0x0d,
        0x20,
        0x85,
        0xa0,
        0x1680,
        0x2000,
        0x2001,
        0x2002,
        0x2003,
        0x2004,
        0x2005,
        0x2006,
        0x2007,
        0x2008,
        0x2009,
        0x200a,
        0x2028,
        0x2029,
        0x202f,
        0x205f,
        0x3000,
    ]@;
    let digits = ['0', '1', '2', '3', '4', '5', '6', '7', '8', '9']@;
    let code = ch as u32;
    assert(codes[0] == 0x09 && codes[1] == 0x0a && codes[2] == 0x0b && codes[3] == 0x0c && codes[4]
        == 0x0d && codes[5] == 0x20 && codes[6] == 0x85 && codes[7] == 0xa0 && codes[8] == 0x1680
        && codes[9] == 0x2000 && codes[10] == 0x2001 && codes[11] == 0x2002 && codes[12] == 0x2003
        && codes[13] == 0x2004 && codes[14] == 0x2005 && codes[15] == 0x2006 && codes[16] == 0x2007
        && codes[17] == 0x2008 && codes[18] == 0x2009 && codes[19] == 0x200a && codes[20] == 0x2028
        && codes[21] == 0x2029 && codes[22] == 0x202f && codes[23] == 0x205f && codes[24]
        == 0x3000);
    assert(digits[0] == '0' && digits[1] == '1' && digits[2] == '2' && digits[3] == '3' && digits[4]
        == '4' && digits[5] == '5' && digits[6] == '6' && digits[7] == '7' && digits[8] == '8'
        && digits[9] == '9');
}

/// Trimming takes the longest run of the class from each end and nothing from
/// within: the text is what was taken, what is left, and what was taken, and
/// what is left neither begins nor ends in the class.
pub proof fn trimming_takes_the_ends(s: Seq<char>, class: CharClass)
    ensures
        exists|i: int, j: int|
            0 <= i <= j <= s.len() && trim(s, class) == #[trigger] s.subrange(i, j) && (forall|
                k: int,
            |
                0 <= k < i ==> in_class(#[trigger] s[k], class)) && (forall|k: int|
                j <= k < s.len() ==> in_class(#[trigger] s[k], class)) && (i < j ==> !in_class(
                s[i],
                class,
            ) && !in_class(s[j - 1], class)),
{
    let i = leading(s, class) as int;
    lemma_leading(s, class);
    let rest = trim_start(s, class);
    lemma_trailing(rest, class);
    let j = s.len() - trailing(rest, class);
    assert(trim(s, class) =~= s.subrange(i, j));
    assert forall|k: int| j <= k < s.len() implies in_class(#[trigger] s[k], class) by {
        assert(rest[k - i] == s[k]);
    }
    if i < j {
        assert(rest[0] == s[i]);
        assert(rest[j - 1 - i] == s[j - 1]);
    }
}

/// A text begins with another just where it is the other and something more or
/// nothing, and likewise for what it ends with; what is stripped off leaves
/// that rest.
pub proof fn stripping_leaves_the_rest(s: Seq<char>, part: Seq<char>, rest: Seq<char>)
    ensures
        strip_prefix(s, part) == Some(rest) <==> s == part + rest,
        strip_suffix(s, part) == Some(rest) <==> s == rest + part,
        starts_with(s, part) <==> strip_prefix(s, part) is Some,
        ends_with(s, part) <==> strip_suffix(s, part) is Some,
        starts_with(part + rest, part),
        ends_with(rest + part, part),
{
    let n = part.len() as int;
    assert((part + rest).subrange(0, n) =~= part);
    assert((rest + part).subrange(rest.len() as int, rest.len() + n) =~= part);
    assert((part + rest).skip(n) =~= rest);
    assert((rest + part).take(rest.len() as int) =~= rest);
    if starts_with(s, part) {
        assert(s =~= s.subrange(0, n) + s.skip(n));
    }
    if ends_with(s, part) {
        assert(s =~= s.take(s.len() - n) + s.subrange(s.len() - n, s.len() as int));
    }
}

/// Texts with a separator between each two.
pub open spec fn joined(parts: Seq<Seq<char>>, separator: Seq<char>) -> Seq<char>
    decreases parts.len(),
{
    if parts.len() == 0 {
        Seq::empty()
    } else if parts.len() == 1 {
        parts[0]
    } else {
        parts[0] + separator + joined(parts.drop_first(), separator)
    }
}

/// The parts of a text with the separator between each two are the text again,
/// and no part holds the separator.
pub proof fn split_parts_join_back(s: Seq<char>, separator: Seq<char>)
    requires
        0 < separator.len(),
    ensures
        0 < split(s, separator).len(),
        joined(split(s, separator), separator) == s,
        forall|i: int|
            0 <= i < split(s, separator).len() ==> !occurs(
                #[trigger] split(s, separator)[i],
                separator,
            ),
    decreases s.len(),
{
    lemma_find(s, separator);
    match find(s, separator) {
        Some(at) => {
            let n = separator.len() as int;
            let head = s.take(at);
            let rest = s.skip(at + n);
            split_parts_join_back(rest, separator);
            let parts = split(s, separator);
            assert(parts.drop_first() =~= split(rest, separator));
            assert(s =~= head + separator + rest) by {
                assert(s.subrange(at, at + n) == separator);
                assert(s =~= s.take(at) + s.subrange(at, at + n) + s.skip(at + n));
            }
            assert forall|i: int| 0 <= i < parts.len() implies !occurs(
                #[trigger] parts[i],
                separator,
            ) by {
                if i == 0 {
                    if occurs(head, separator) {
                        let j = choose|j: int| occurs_at(head, separator, j);
                        assert(s.subrange(j, j + n) =~= head.subrange(j, j + n));
                        assert(occurs_at(s, separator, j));
                    }
                } else {
                    assert(parts[i] == split(rest, separator)[i - 1]);
                }
            }
        },
        None => {
            assert(split(s, separator)[0] == s);
        },
    }
}

/// A text up to the first mark is the first part of it, and what follows the
/// mark is split on; a text without the mark is its only part.
pub proof fn split_takes_part_after_part(part: Seq<char>, mark: char, rest: Seq<char>)
    requires
        !part.contains(mark),
    ensures
        split(part + seq![mark] + rest, seq![mark]) == seq![part] + split(rest, seq![mark]),
        split(part, seq![mark]) == seq![part],
{
    let s = part + seq![mark] + rest;
    lemma_split_once_char(s, mark, part, rest);
    lemma_split_once_char(part, mark, part, rest);
}

/// A line goes up to the line feed, without the carriage return before it, and
/// the text goes on with the next line behind it. What stands behind the last
/// line feed is a line where it is not empty.
pub proof fn lines_end_at_line_feeds(line: Seq<char>, rest: Seq<char>)
    requires
        !line.contains('\n'),
    ensures
        lines(Seq::<char>::empty()) == Seq::<Seq<char>>::empty(),
        0 < line.len() ==> lines(line) == seq![line],
        !(0 < line.len() && line.last() == '\r') ==> lines(line + seq!['\n'] + rest) == seq![line]
            + lines(rest),
        lines(line + seq!['\r', '\n'] + rest) == seq![line] + lines(rest),
{
    let s = line + seq!['\n'] + rest;
    lemma_split_once_char(s, '\n', line, rest);
    lemma_split_once_char(line, '\n', line, rest);
    let longer = line.push('\r');
    let t = line + seq!['\r', '\n'] + rest;
    assert(t =~= longer + seq!['\n'] + rest);
    assert(!longer.contains('\n')) by {
        if longer.contains('\n') {
            let i = choose|i: int| 0 <= i < longer.len() && longer[i] == '\n';
            assert(line[i] == '\n');
        }
    }
    lemma_split_once_char(t, '\n', longer, rest);
    assert(longer.drop_last() =~= line);
}

/// White characters before a text change none of its words, and a run of solid
/// characters up to the end or a white one is its first word.
pub proof fn words_are_runs_of_solid_characters(ch: char, word: Seq<char>, rest: Seq<char>)
    ensures
        words(Seq::<char>::empty()) == Seq::<Seq<char>>::empty(),
        is_white(ch) ==> words(seq![ch] + rest) == words(rest),
        0 < word.len() && (forall|i: int| 0 <= i < word.len() ==> !is_white(#[trigger] word[i]))
            && (rest.len() == 0 || is_white(rest[0])) ==> words(word + rest) == seq![word] + words(
            rest,
        ),
{
    let s = seq![ch] + rest;
    if is_white(ch) {
        assert(s[0] == ch);
        assert(s.drop_first() =~= rest);
        lemma_leading(rest, CharClass::White);
        assert(trim_start(s, CharClass::White) =~= trim_start(rest, CharClass::White));
    }
    if 0 < word.len() && (forall|i: int| 0 <= i < word.len() ==> !is_white(#[trigger] word[i])) && (
    rest.len() == 0 || is_white(rest[0])) {
        let t = word + rest;
        assert(t[0] == word[0]);
        assert(trim_start(t, CharClass::White) =~= t);
        let n = word.len();
        assert forall|i: int| 0 <= i < n implies in_class(#[trigger] t[i], CharClass::Solid) by {
            assert(t[i] == word[i]);
        }
        if n < t.len() {
            assert(t[n as int] == rest[0]);
        }
        lemma_leading_is(t, CharClass::Solid, n);
        assert(t.take(n as int) =~= word);
        assert(t.skip(n as int) =~= rest);
    }
}

/// Lowering turns the letters A to Z into a to z and leaves every other
/// character as it is.
pub proof fn lowering_changes_capitals_alone(s: Seq<char>, i: int)
    requires
        0 <= i < s.len(),
    ensures
        lower(s).len() == s.len(),
        65 <= s[i] as u32 <= 90 ==> lower(s)[i] as u32 == s[i] as u32 + 32,
        !(65 <= s[i] as u32 <= 90) ==> lower(s)[i] == s[i],
        lower(lower(s)) == lower(s),
{
    assert(lower(lower(s)) =~= lower(s));
}

/// Lines that hold no carriage return are told apart again after they were
/// joined by line ends.
pub proof fn joined_lines_split_back(parts: Seq<Seq<char>>)
    requires
        0 < parts.len(),
        forall|i: int| 0 <= i < parts.len() ==> !(#[trigger] parts[i]).contains('\r'),
    ensures
        split(joined(parts, seq!['\r', '\n']), seq!['\r', '\n']) == parts,
    decreases parts.len(),
{
    let end = seq!['\r', '\n'];
    let s = joined(parts, end);
    let first = parts[0];
    assert(!parts[0].contains('\r'));
    if parts.len() == 1 {
        assert forall|j: int| 0 <= j <= s.len() implies !occurs_at(s, end, j) by {
            if occurs_at(s, end, j) {
                assert(s.subrange(j, j + 2)[0] == end[0]);
                assert(s[j] == '\r');
            }
        }
        lemma_find_none(s, end);
        assert(split(s, end) =~= parts);
    } else {
        let rest = parts.drop_first();
        let n = first.len() as int;
        assert forall|i: int| 0 <= i < rest.len() implies !(#[trigger] rest[i]).contains('\r') by {
            assert(rest[i] == parts[i + 1]);
        }
        joined_lines_split_back(rest);
        assert(s == first + end + joined(rest, end));
        assert(s.subrange(n, n + 2) =~= end);
        assert forall|j: int| 0 <= j < n implies !occurs_at(s, end, j) by {
            if occurs_at(s, end, j) {
                assert(s.subrange(j, j + 2)[0] == end[0]);
                assert(first[j] == '\r');
            }
        }
        lemma_find_is(s, end, n);
        assert(s.take(n) =~= first);
        assert(s.skip(n + 2) =~= joined(rest, end));
        assert(split(s, end) =~= parts);
    }
}

/// A character of the class at an end makes no difference to a trimmed text,
/// and a text that has none at its ends is left as it is.
pub proof fn trimming_ignores_the_ends(s: Seq<char>, ch: char, class: CharClass)
    ensures
        in_class(ch, class) ==> trim(seq![ch] + s, class) == trim(s, class) && trim(
            s + seq![ch],
            class,
        ) == trim(s, class),
        0 < s.len() && !in_class(s[0], class) && !in_class(s.last(), class) ==> trim(s, class) == s,
        s.len() == 0 ==> trim(s, class) == s,
{
    lemma_leading(s, class);
    if in_class(ch, class) {
        let front = seq![ch] + s;
        assert(front.drop_first() =~= s);
        assert(trim_start(front, class) =~= trim_start(s, class));
        let back = s + seq![ch];
        let n = leading(s, class);
        lemma_leading(back, class);
        if n < s.len() {
            assert(back[n as int] == s[n as int]);
            assert forall|i: int| 0 <= i < n implies in_class(#[trigger] back[i], class) by {
                assert(back[i] == s[i]);
            }
            lemma_leading_is(back, class, n);
            let rest = trim_start(back, class);
            assert(rest =~= trim_start(s, class).push(ch));
            assert(rest.drop_last() =~= trim_start(s, class));
            lemma_trailing(trim_start(s, class), class);
            assert(trim_end(rest, class) =~= trim_end(trim_start(s, class), class));
        } else {
            assert forall|i: int| 0 <= i < back.len() implies in_class(#[trigger] back[i], class) by {
                if i < s.len() {
                    assert(back[i] == s[i]);
                }
            }
            lemma_leading_is(back, class, back.len());
            assert(trim_start(back, class) =~= trim_start(s, class));
        }
    }
    if s.len() == 0 {
        assert(trim(s, class) =~= s);
    } else if !in_class(s[0], class) && !in_class(s.last(), class) {
        assert(trim_start(s, class) =~= s);
        assert(trim_end(s, class) =~= s);
    }
}

} // verus!
