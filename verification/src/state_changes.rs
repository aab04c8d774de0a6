//! When a state differs from the one before it by more than its time.

use vstd::prelude::*;
use vstd::slice::slice_subrange;

use crate::numerals::all_digits;
use crate::text::{
    chars_of, class_holds, count_leading, has_prefix, in_class, is_digit, leading, lemma_leading,
    lemma_leading_is, same_text, starts_with, trim_start, CharClass,
};

verus! {

/// The key of the time in a state.
pub open spec fn ts_key() -> Seq<char> {
    seq!['"', 't', 's', '"', ':']
}

/// The key of the time behind a comma.
pub open spec fn comma_key() -> Seq<char> {
    seq![',', '"', 't', 's', '"', ':']
}

/// The key of the time behind an opening brace.
pub open spec fn brace_key() -> Seq<char> {
    seq!['{', '"', 't', 's', '"', ':']
}

/// A text without digits at its start.
pub open spec fn past_digits(s: Seq<char>) -> Seq<char> {
    trim_start(s, CharClass::Digit)
}

/// A text without one comma at its start.
pub open spec fn past_comma(s: Seq<char>) -> Seq<char> {
    if s.len() > 0 && s[0] == ',' {
        s.drop_first()
    } else {
        s
    }
}

/// Whether `s` begins with a key and at least one digit behind it.
pub open spec fn time_at(s: Seq<char>, key: Seq<char>) -> bool {
    starts_with(s, key) && s.len() > key.len() && is_digit(s[key.len() as int])
}

/// Whether a time stands anywhere in `s`.
pub open spec fn has_time(s: Seq<char>) -> bool {
    exists|at: int| 0 <= at <= s.len() && time_at(#[trigger] s.skip(at), ts_key())
}

/// A state without its times. A time, which is its key and the digits after
/// it, goes with the comma before it. One that comes first in its object goes
/// with the comma after it.
pub open spec fn without_ts(s: Seq<char>) -> Seq<char>
    decreases s.len(),
{
    proof {
        lemma_leading(s.skip(5), CharClass::Digit);
        lemma_leading(s.skip(6), CharClass::Digit);
    }
    if s.len() == 0 {
        Seq::empty()
    } else if time_at(s, ts_key()) {
        without_ts(past_digits(s.skip(5)))
    } else if time_at(s, comma_key()) {
        without_ts(past_digits(s.skip(6)))
    } else if time_at(s, brace_key()) {
        seq!['{'] + without_ts(past_comma(past_digits(s.skip(6))))
    } else {
        seq![s[0]] + without_ts(s.drop_first())
    }
}

fn begins_with_time(s: &[char], key: &[char]) -> (yes: bool)
    ensures
        yes == time_at(s@, key@),
{
    has_prefix(s, key) && s.len() > key.len() && class_holds(s[key.len()], CharClass::Digit)
}

/// What follows the digits behind a key.
fn past_time<'a>(s: &'a [char], key_len: usize) -> (rest: &'a [char])
    requires
        key_len <= s@.len(),
    ensures
        rest@ == past_digits(s@.skip(key_len as int)),
        rest@.len() <= s@.len() - key_len,
{
    let tail = slice_subrange(s, key_len, s.len());
    assert(tail@ == s@.skip(key_len as int));
    let digits = count_leading(tail, CharClass::Digit);
    let rest = slice_subrange(tail, digits, tail.len());
    assert(rest@ =~= past_digits(tail@));
    rest
}

/// Removes the times from a state.
pub fn strip_ts_field(snapshot: &str) -> (out: String)
    ensures
        out@ == without_ts(snapshot@),
{
    let chars = chars_of(snapshot);
    let key: [char; 5] = ['"', 't', 's', '"', ':'];
    let comma: [char; 6] = [',', '"', 't', 's', '"', ':'];
    let brace: [char; 6] = ['{', '"', 't', 's', '"', ':'];
    assert(key@ == ts_key());
    assert(comma@ == comma_key());
    assert(brace@ == brace_key());
    let mut out = String::new();
    let mut rest = chars.as_slice();
    assert(out@ + without_ts(rest@) =~= without_ts(snapshot@));
    while rest.len() > 0
        invariant
            key@ == ts_key(),
            comma@ == comma_key(),
            brace@ == brace_key(),
            out@ + without_ts(rest@) == without_ts(snapshot@),
        decreases rest@.len(),
    {
        let ghost before = out@;
        let ghost whole = rest@;
        let first = rest[0];
        if begins_with_time(rest, &key) {
            rest = past_time(rest, 5);
        } else if begins_with_time(rest, &comma) {
            rest = past_time(rest, 6);
        } else if begins_with_time(rest, &brace) {
            out.push(first);
            assert(whole.subrange(0, 6)[0] == whole[0]);
            rest = past_time(rest, 6);
            if rest.len() > 0 && rest[0] == ',' {
                let ghost longer = rest@;
                rest = slice_subrange(rest, 1, rest.len());
                assert(rest@ == longer.drop_first());
            }
            assert(before + (seq![first] + without_ts(rest@)) =~= out@ + without_ts(rest@));
        } else {
            out.push(first);
            rest = slice_subrange(rest, 1, rest.len());
            assert(rest@ == whole.drop_first());
            assert(before + (seq![first] + without_ts(rest@)) =~= out@ + without_ts(rest@));
        }
    }
    assert(out@ + without_ts(rest@) =~= out@);
    out
}

/// Remembers a state, to tell whether the next one is different.
#[derive(Debug)]
pub struct ChangeDetector {
    last: String,
}

impl View for ChangeDetector {
    type V = Seq<char>;

    closed spec fn view(&self) -> Seq<char> {
        self.last@
    }
}

impl ChangeDetector {
    /// Remembers the state to begin with.
    pub fn new(snapshot: &str) -> (detector: ChangeDetector)
        ensures
            detector@ == without_ts(snapshot@),
    {
        ChangeDetector { last: strip_ts_field(snapshot) }
    }

    /// Decides whether a state differs from the one before it by more than
    /// its times, and remembers it.
    pub fn observe(&mut self, snapshot: &str) -> (changed: bool)
        ensures
            changed == (without_ts(snapshot@) != old(self)@),
            final(self)@ == without_ts(snapshot@),
    {
        let stripped = strip_ts_field(snapshot);
        if same_text(stripped.as_str(), self.last.as_str()) {
            return false;
        }
        self.last = stripped;
        true
    }
}

// ---------------------------------------------------------------------------
// Laws.
// ---------------------------------------------------------------------------

/// A time with its key.
pub open spec fn ts_field(digits: Seq<char>) -> Seq<char> {
    ts_key() + digits
}

/// What follows digits is found past them.
proof fn lemma_past_digits(front: Seq<char>, rest: Seq<char>)
    requires
        rest.len() > 0 ==> !is_digit(rest[0]),
    ensures
        past_digits(front + rest) == past_digits(front) + rest,
{
    let s = front + rest;
    lemma_leading(front, CharClass::Digit);
    let n = leading(front, CharClass::Digit);
    assert forall|i: int| 0 <= i < n implies in_class(#[trigger] s[i], CharClass::Digit) by {
        assert(s[i] == front[i]);
        assert(in_class(front[i], CharClass::Digit));
    }
    if n < s.len() {
        if n < front.len() {
            assert(s[n as int] == front[n as int]);
        } else {
            assert(s[n as int] == rest[0]);
        }
    }
    lemma_leading_is(s, CharClass::Digit, n);
    assert(s.skip(n as int) =~= front.skip(n as int) + rest);
}

/// A time that begins before another one ends before it, unless it is that
/// other one.
proof fn lemma_time_stays_in_front(front: Seq<char>, rest: Seq<char>, key: Seq<char>)
    requires
        front.len() > 0,
        starts_with(rest, ts_key()),
        key == ts_key() || ((key == comma_key() || key == brace_key()) && (front.len() > 1
            || front[0] != key[0])),
    ensures
        time_at(front + rest, key) == time_at(front, key),
{
    let s = front + rest;
    let n = front.len() as int;
    assert(rest.subrange(0, 5)[0] == '"');
    assert(rest.subrange(0, 5)[1] == 't');
    if starts_with(s, key) {
        assert(s.subrange(0, key.len() as int)[0] == key[0]);
        assert(s[0] == front[0]);
        if key.len() > n {
            assert(s.subrange(0, key.len() as int)[n] == key[n]);
            assert(s[n] == rest[0]);
            assert(key[n] == '"');
            if key == ts_key() {
                assert(n == 3);
            } else {
                assert(n == 4);
            }
            assert(s.subrange(0, key.len() as int)[n + 1] == key[n + 1]);
            assert(s[n + 1] == rest[1]);
        }
    }
    if key.len() <= n {
        assert(s.subrange(0, key.len() as int) =~= front.subrange(0, key.len() as int));
        if key.len() == n {
            assert(s[n] == rest[0]);
        }
    }
}

/// A time at the start leaves what follows it, and takes the comma before it
/// along. Behind a brace it takes along the comma after it.
pub proof fn first_times_take_a_comma_along(digits: Seq<char>, back: Seq<char>)
    requires
        digits.len() > 0,
        all_digits(digits),
        back.len() > 0 ==> !is_digit(back[0]),
    ensures
        without_ts(ts_field(digits) + back) == without_ts(back),
        without_ts(seq![','] + (ts_field(digits) + back)) == without_ts(back),
        without_ts(seq!['{'] + (ts_field(digits) + back)) == seq!['{'] + without_ts(
            past_comma(back),
        ),
{
    let bare = ts_field(digits) + back;
    let comma = seq![','] + bare;
    let brace = seq!['{'] + bare;
    assert(past_digits(digits) =~= Seq::<char>::empty()) by {
        lemma_leading(digits, CharClass::Digit);
        let n = leading(digits, CharClass::Digit);
        if n < digits.len() {
            assert(is_digit(digits[n as int]));
        }
    }
    lemma_past_digits(digits, back);
    assert(past_digits(digits) + back =~= back);
    assert(is_digit(digits[0]));
    assert(bare.subrange(0, 5) =~= ts_key());
    assert(bare[5] == digits[0]);
    assert(bare.skip(5) =~= digits + back);
    assert(comma.subrange(0, 6) =~= comma_key());
    assert(comma[6] == digits[0]);
    assert(comma.skip(6) =~= digits + back);
    assert(brace.subrange(0, 6) =~= brace_key());
    assert(brace[6] == digits[0]);
    assert(brace.skip(6) =~= digits + back);
    assert(ts_key()[0] == '"' && comma_key()[0] == ',' && brace_key()[0] == '{');
    assert(!starts_with(comma, ts_key())) by {
        assert(comma.subrange(0, 5)[0] == ',');
    }
    assert(!starts_with(brace, ts_key())) by {
        assert(brace.subrange(0, 5)[0] == '{');
    }
    assert(!starts_with(brace, comma_key())) by {
        assert(brace.subrange(0, 6)[0] == '{');
    }
}

/// In a text without times none begins with a comma or a brace either.
proof fn lemma_no_time_at_start(s: Seq<char>)
    requires
        !has_time(s),
    ensures
        !time_at(s, ts_key()),
        !time_at(s, comma_key()),
        !time_at(s, brace_key()),
        s.len() > 0 ==> !has_time(s.drop_first()),
{
    assert(s.skip(0) =~= s);
    assert(!time_at(s.skip(0), ts_key()));
    if time_at(s, comma_key()) || time_at(s, brace_key()) {
        let tail = s.skip(1);
        assert(tail.subrange(0, 5) =~= s.subrange(0, 6).subrange(1, 6));
        assert(comma_key().subrange(1, 6) =~= ts_key());
        assert(brace_key().subrange(1, 6) =~= ts_key());
        assert(tail[5] == s[6]);
        assert(time_at(s.skip(1), ts_key()));
    }
    if s.len() > 0 && has_time(s.drop_first()) {
        let at = choose|at: int|
            0 <= at <= s.drop_first().len() && time_at(
                #[trigger] s.drop_first().skip(at),
                ts_key(),
            );
        assert(s.drop_first().skip(at) =~= s.skip(at + 1));
    }
}

/// A time behind a comma goes with that comma, and what stands before and
/// after the two is joined.
pub proof fn times_go_with_their_comma(front: Seq<char>, digits: Seq<char>, back: Seq<char>)
    requires
        !has_time(front),
        digits.len() > 0,
        all_digits(digits),
        back.len() > 0 ==> !is_digit(back[0]),
    ensures
        without_ts(front + (seq![','] + (ts_field(digits) + back))) == front + without_ts(back),
    decreases front.len(),
{
    let rest = seq![','] + (ts_field(digits) + back);
    let s = front + rest;
    if front.len() == 0 {
        first_times_take_a_comma_along(digits, back);
        assert(s =~= rest);
        assert(front + without_ts(back) =~= without_ts(back));
    } else {
        lemma_no_time_at_start(front);
        lemma_no_time_before_comma(front, rest, ts_key());
        lemma_no_time_before_comma(front, rest, comma_key());
        lemma_no_time_before_comma(front, rest, brace_key());
        let next = front.drop_first();
        assert(s.drop_first() =~= next + rest);
        times_go_with_their_comma(next, digits, back);
        assert(seq![front[0]] + (next + without_ts(back)) =~= front + without_ts(back));
    }
}

/// No time reaches over a comma inside it.
proof fn lemma_no_time_before_comma(front: Seq<char>, rest: Seq<char>, key: Seq<char>)
    requires
        front.len() > 0,
        rest.len() > 0,
        rest[0] == ',',
        key == ts_key() || key == comma_key() || key == brace_key(),
        !time_at(front, key),
    ensures
        !time_at(front + rest, key),
{
    let s = front + rest;
    let n = front.len() as int;
    if time_at(s, key) {
        assert(s[n] == ',');
        if n < key.len() {
            assert(s.subrange(0, key.len() as int)[n] == key[n]);
        } else {
            assert(s.subrange(0, key.len() as int) =~= front.subrange(0, key.len() as int));
        }
    }
}

/// The times of a state do not matter: whatever stands before and after a
/// time, the state without its times is the same for every other time.
pub proof fn times_do_not_matter(
    front: Seq<char>,
    one: Seq<char>,
    other: Seq<char>,
    back: Seq<char>,
)
    requires
        one.len() > 0,
        all_digits(one),
        other.len() > 0,
        all_digits(other),
        back.len() > 0 ==> !is_digit(back[0]),
    ensures
        without_ts(front + (ts_field(one) + back)) == without_ts(front + (ts_field(other) + back)),
    decreases front.len(),
{
    let rest_a = ts_field(one) + back;
    let rest_b = ts_field(other) + back;
    let a = front + rest_a;
    let b = front + rest_b;
    first_times_take_a_comma_along(one, back);
    first_times_take_a_comma_along(other, back);
    assert(rest_a.subrange(0, 5) =~= ts_key());
    assert(rest_b.subrange(0, 5) =~= ts_key());
    if front.len() == 0 {
        assert(a =~= rest_a);
        assert(b =~= rest_b);
    } else if front.len() == 1 && (front[0] == ',' || front[0] == '{') {
        assert(front =~= seq![front[0]]);
    } else {
        assert(comma_key()[0] == ',' && brace_key()[0] == '{');
        assert(rest_a.subrange(0, 5)[0] == '"' && rest_b.subrange(0, 5)[0] == '"');
        lemma_time_stays_in_front(front, rest_a, ts_key());
        lemma_time_stays_in_front(front, rest_b, ts_key());
        lemma_time_stays_in_front(front, rest_a, comma_key());
        lemma_time_stays_in_front(front, rest_b, comma_key());
        lemma_time_stays_in_front(front, rest_a, brace_key());
        lemma_time_stays_in_front(front, rest_b, brace_key());
        if time_at(front, ts_key()) {
            let tail = front.skip(5);
            lemma_leading(tail, CharClass::Digit);
            assert(a.skip(5) =~= tail + rest_a);
            assert(b.skip(5) =~= tail + rest_b);
            lemma_past_digits(tail, rest_a);
            lemma_past_digits(tail, rest_b);
            times_do_not_matter(past_digits(tail), one, other, back);
        } else if time_at(front, comma_key()) {
            let tail = front.skip(6);
            lemma_leading(tail, CharClass::Digit);
            assert(a.skip(6) =~= tail + rest_a);
            assert(b.skip(6) =~= tail + rest_b);
            lemma_past_digits(tail, rest_a);
            lemma_past_digits(tail, rest_b);
            times_do_not_matter(past_digits(tail), one, other, back);
        } else if time_at(front, brace_key()) {
            let tail = front.skip(6);
            let next = past_digits(tail);
            lemma_leading(tail, CharClass::Digit);
            assert(a.skip(6) =~= tail + rest_a);
            assert(b.skip(6) =~= tail + rest_b);
            lemma_past_digits(tail, rest_a);
            lemma_past_digits(tail, rest_b);
            let inner = past_comma(next);
            assert(past_comma(next + rest_a) =~= inner + rest_a);
            assert(past_comma(next + rest_b) =~= inner + rest_b);
            times_do_not_matter(inner, one, other, back);
        } else {
            let next = front.drop_first();
            assert(a.drop_first() =~= next + rest_a);
            assert(b.drop_first() =~= next + rest_b);
            times_do_not_matter(next, one, other, back);
        }
    }
}

/// A state in which no time stands is left as it is, so that two such states
/// are told apart whatever it is in which they differ.
pub proof fn states_without_times_stay(s: Seq<char>)
    requires
        !has_time(s),
    ensures
        without_ts(s) == s,
    decreases s.len(),
{
    if s.len() > 0 {
        lemma_no_time_at_start(s);
        let rest = s.drop_first();
        states_without_times_stay(rest);
        assert(seq![s[0]] + rest =~= s);
    }
}

/// A time that is the first member goes with the comma behind it, and where it
/// is the only one it leaves an empty object.
pub proof fn first_times_leave_the_next_member(digits: Seq<char>, rest: Seq<char>)
    requires
        digits.len() > 0,
        all_digits(digits),
    ensures
        without_ts(seq!['{', '"', 't', 's', '"', ':'] + digits + seq![','] + rest) == seq!['{']
            + without_ts(rest),
        without_ts(seq!['{', '"', 't', 's', '"', ':'] + digits + seq!['}']) == seq!['{', '}'],
{
    let field = ts_field(digits);
    let comma = seq![','] + rest;
    assert(seq!['{', '"', 't', 's', '"', ':'] + digits + seq![','] + rest =~= seq!['{'] + (field
        + comma));
    assert(seq!['{', '"', 't', 's', '"', ':'] + digits + seq!['}'] =~= seq!['{'] + (field + seq![
        '}',
    ]));
    first_times_take_a_comma_along(digits, comma);
    first_times_take_a_comma_along(digits, seq!['}']);
    assert(comma.drop_first() =~= rest);
    assert(past_comma(seq!['}']) == seq!['}']);
    assert(!has_time(seq!['}'])) by {
        assert forall|at: int| 0 <= at <= 1 implies !time_at(
            #[trigger] seq!['}'].skip(at),
            ts_key(),
        ) by {}
    }
    states_without_times_stay(seq!['}']);
    assert(seq!['{'] + seq!['}'] =~= seq!['{', '}']);
}

} // verus!
