//! The JSON bodies that clients send: flat objects whose members are read by
//! name.

use serde_json::Value;
use vstd::prelude::*;

use crate::text_map::{str_of, TextMap};

verus! {

/// A JSON number, as the integer and float readings that it has.
#[derive(Debug, Clone, Copy, PartialEq, Eq)]
pub struct JsonNumber {
    /// The number, where it is an integer from 0 to 2^64 - 1.
    pub unsigned: Option<u64>,
    /// The number, where it is an integer from -2^63 to 2^63 - 1.
    pub signed: Option<i64>,
    /// The bits of the double precision number nearest to it.
    pub float_bits: Option<u64>,
}

/// The value of one member. Arrays and objects are told from the rest and not
/// looked into.
#[derive(Debug, PartialEq, Eq)]
pub enum JsonField<S> {
    Null,
    Bool(bool),
    Number(JsonNumber),
    Text(S),
    Nested,
}

/// The members of a body by name.
pub type JsonMembers = Map<Seq<char>, JsonField<Seq<char>>>;

/// The plain value of a member.
pub open spec fn plain_field(field: JsonField<String>) -> JsonField<Seq<char>> {
    match field {
        JsonField::Null => JsonField::Null,
        JsonField::Bool(flag) => JsonField::Bool(flag),
        JsonField::Number(number) => JsonField::Number(number),
        JsonField::Text(text) => JsonField::Text(text@),
        JsonField::Nested => JsonField::Nested,
    }
}

/// A number member with the readings that it has.
pub fn number_field(
    unsigned: Option<u64>,
    signed: Option<i64>,
    float_bits: Option<u64>,
) -> (field: JsonField<String>)
    ensures
        field == JsonField::<String>::Number(JsonNumber { unsigned, signed, float_bits }),
{
    JsonField::Number(JsonNumber { unsigned, signed, float_bits })
}

/// A JSON body. One that is not an object has no members.
#[derive(Debug)]
pub struct JsonBody {
    fields: TextMap<JsonField<String>>,
}

impl View for JsonBody {
    type V = JsonMembers;

    closed spec fn view(&self) -> JsonMembers {
        self.fields@.map_values(|field: JsonField<String>| plain_field(field))
    }
}

/// Whether the body has a member `name`.
pub open spec fn has_member(body: JsonMembers, name: Seq<char>) -> bool {
    body.contains_key(name)
}

/// The member `name`, where it is a string.
pub open spec fn text_at(body: JsonMembers, name: Seq<char>) -> Option<Seq<char>> {
    if has_member(body, name) {
        match body[name] {
            JsonField::Text(text) => Some(text),
            _ => None,
        }
    } else {
        None
    }
}

/// The member `name`, where it is an integer from 0 to 2^64 - 1.
pub open spec fn unsigned_at(body: JsonMembers, name: Seq<char>) -> Option<u64> {
    if has_member(body, name) {
        match body[name] {
            JsonField::Number(number) => number.unsigned,
            _ => None,
        }
    } else {
        None
    }
}

/// The member `name`, where it is an integer from -2^63 to 2^63 - 1.
pub open spec fn signed_at(body: JsonMembers, name: Seq<char>) -> Option<i64> {
    if has_member(body, name) {
        match body[name] {
            JsonField::Number(number) => number.signed,
            _ => None,
        }
    } else {
        None
    }
}

/// The bits of the member `name`, where it is a number.
pub open spec fn float_bits_at(body: JsonMembers, name: Seq<char>) -> Option<u64> {
    if has_member(body, name) {
        match body[name] {
            JsonField::Number(number) => number.float_bits,
            _ => None,
        }
    } else {
        None
    }
}

/// The member `name`, where it is a boolean.
pub open spec fn bool_at(body: JsonMembers, name: Seq<char>) -> Option<bool> {
    if has_member(body, name) {
        match body[name] {
            JsonField::Bool(flag) => Some(flag),
            _ => None,
        }
    } else {
        None
    }
}

impl JsonBody {
    /// A body without members.
    pub fn new() -> (body: JsonBody)
        ensures
            body@ == Map::<Seq<char>, JsonField<Seq<char>>>::empty(),
    {
        let body = JsonBody { fields: TextMap::new() };
        assert(body@ =~= Map::<Seq<char>, JsonField<Seq<char>>>::empty());
        body
    }

    /// The body with the member `name` set.
    pub fn with(self, name: String, field: JsonField<String>) -> (body: JsonBody)
        ensures
            body@ == self@.insert(name@, plain_field(field)),
    {
        let mut fields = self.fields;
        let ghost key = name@;
        let _ = fields.insert(name, field);
        let body = JsonBody { fields };
        assert(body@ =~= self@.insert(key, plain_field(field)));
        body
    }

    /// The member `name`.
    pub fn get(&self, name: &str) -> (field: Option<&JsonField<String>>)
        ensures
            match field {
                Some(field) => has_member(self@, name@) && self@[name@] == plain_field(*field),
                None => !has_member(self@, name@),
            },
    {
        self.fields.get(name)
    }

    /// The member `name`, where it is a string.
    pub fn text(&self, name: &str) -> (text: Option<&str>)
        ensures
            str_of(text) == text_at(self@, name@),
    {
        match self.get(name) {
            Some(JsonField::Text(text)) => Some(text.as_str()),
            _ => None,
        }
    }

    /// The member `name`, where it is an integer from 0 to 2^64 - 1.
    pub fn unsigned(&self, name: &str) -> (number: Option<u64>)
        ensures
            number == unsigned_at(self@, name@),
    {
        match self.get(name) {
            Some(JsonField::Number(number)) => number.unsigned,
            _ => None,
        }
    }

    /// The member `name`, where it is an integer from -2^63 to 2^63 - 1.
    pub fn signed(&self, name: &str) -> (number: Option<i64>)
        ensures
            number == signed_at(self@, name@),
    {
        match self.get(name) {
            Some(JsonField::Number(number)) => number.signed,
            _ => None,
        }
    }

    /// The bits of the member `name`, where it is a number.
    pub fn float_bits(&self, name: &str) -> (bits: Option<u64>)
        ensures
            bits == float_bits_at(self@, name@),
    {
        match self.get(name) {
            Some(JsonField::Number(number)) => number.float_bits,
            _ => None,
        }
    }

    /// The member `name`, where it is a boolean.
    pub fn flag(&self, name: &str) -> (flag: Option<bool>)
        ensures
            flag == bool_at(self@, name@),
    {
        match self.get(name) {
            Some(JsonField::Bool(flag)) => Some(*flag),
            _ => None,
        }
    }
}

// ---------------------------------------------------------------------------
// Reading and writing JSON text.
// ---------------------------------------------------------------------------

/// The names and values of the members of the body that `bytes` hold as JSON
/// text, or nothing where they are not JSON text.
pub uninterp spec fn json_pairs(bytes: Seq<u8>) -> Option<
    Seq<(Seq<char>, JsonField<Seq<char>>)>,
>;

/// The members that pairs of a name and a value make. Of two under one name
/// the later counts.
pub open spec fn members_in(pairs: Seq<(Seq<char>, JsonField<Seq<char>>)>) -> JsonMembers
    decreases pairs.len(),
{
    if pairs.len() == 0 {
        Map::empty()
    } else {
        members_in(pairs.drop_last()).insert(pairs.last().0, pairs.last().1)
    }
}

/// The members of the body that `bytes` hold as JSON text, or nothing where
/// they are not JSON text.
pub open spec fn json_members(bytes: Seq<u8>) -> Option<JsonMembers> {
    match json_pairs(bytes) {
        Some(pairs) => Some(members_in(pairs)),
        None => None,
    }
}

/// The plain values of pairs.
pub open spec fn plain_pairs(pairs: Seq<(String, JsonField<String>)>) -> Seq<
    (Seq<char>, JsonField<Seq<char>>),
> {
    pairs.map_values(|pair: (String, JsonField<String>)| (pair.0@, plain_field(pair.1)))
}

/// Reads JSON text with `serde_json::from_slice` into a `serde_json::Value`
/// and takes over the members of an object; of an array, or of a value that
/// is no object, nothing is taken over. The contract claims that the outcome
/// depends on the bytes alone, and names it.
#[verifier::external_body]
fn read_pairs(bytes: &[u8]) -> (pairs: Option<Vec<(String, JsonField<String>)>>)
    ensures
        match pairs {
            Some(pairs) => json_pairs(bytes@) == Some(plain_pairs(pairs@)),
            None => json_pairs(bytes@) is None,
        },
{
    let mut pairs = Vec::new();
    if let Value::Object(members) = serde_json::from_slice::<Value>(bytes).ok()? {
        for (name, member) in members {
            pairs.push((name, match member {
                Value::Null => JsonField::Null,
                Value::Bool(flag) => JsonField::Bool(flag),
                Value::Number(n) => number_field(n.as_u64(), n.as_i64(), n.as_f64().map(|x| x.to_bits())),
                Value::String(text) => JsonField::Text(text),
                Value::Array(_) => JsonField::Nested,
                Value::Object(_) => JsonField::Nested,
            }));
        }
    }
    Some(pairs)
}

/// Makes a body of pairs of a name and a value.
pub fn body_of_pairs(pairs: Vec<(String, JsonField<String>)>) -> (body: JsonBody)
    ensures
        body@ == members_in(plain_pairs(pairs@)),
{
    let ghost all = plain_pairs(pairs@);
    let mut rest = pairs;
    let mut body = JsonBody::new();
    let ghost mut done: int = 0;
    assert(all.take(0) =~= Seq::empty());
    while rest.len() > 0
        invariant
            0 <= done <= all.len(),
            plain_pairs(rest@) == all.skip(done),
            body@ == members_in(all.take(done)),
        decreases rest@.len(),
    {
        let ghost before = rest@;
        let (name, field) = rest.remove(0);
        proof {
            assert(plain_pairs(before).len() == before.len());
            assert(plain_pairs(before)[0] == (name@, plain_field(field)));
            assert(all.skip(done)[0] == all[done]);
            assert(all.take(done + 1).drop_last() =~= all.take(done));
            assert(plain_pairs(rest@) =~= all.skip(done).drop_first());
            assert(all.skip(done).drop_first() =~= all.skip(done + 1));
            done = done + 1;
        }
        body = body.with(name, field);
    }
    assert(plain_pairs(rest@).len() == 0);
    assert(all.take(done) =~= all);
    body
}

/// Reads the body that bytes hold as JSON text.
pub(crate) fn read_json(bytes: &[u8]) -> (body: Option<JsonBody>)
    ensures
        match body {
            Some(body) => json_members(bytes@) == Some(body@),
            None => json_members(bytes@) is None,
        },
{
    match read_pairs(bytes) {
        Some(pairs) => Some(body_of_pairs(pairs)),
        None => None,
    }
}

/// The JSON string that stands for a text.
pub uninterp spec fn json_quoted(text: Seq<char>) -> Seq<char>;

/// Whether a character stands for itself inside a JSON string.
pub open spec fn json_verbatim(ch: char) -> bool {
    ch != '"' && ch != '\\' && ch as u32 >= 0x20
}

/// Writes a text as a JSON string with `serde_json::to_string`. The contract
/// names the outcome, which depends on the text alone, and claims that a text
/// without quotes, backslashes and control characters is put between quotes
/// as it is.
#[verifier::external_body]
pub(crate) fn quote_json(text: &str) -> (quoted: String)
    ensures
        quoted@ == json_quoted(text@),
        (forall|i: int| 0 <= i < text@.len() ==> json_verbatim(#[trigger] text@[i])) ==> quoted@
            == seq!['"'] + text@ + seq!['"'],
{
    serde_json::to_string(text).expect("a string serializes")
}

/// A JSON string, or `null` where there is no text.
pub open spec fn json_string_or_null_text(value: Option<Seq<char>>) -> Seq<char> {
    match value {
        Some(text) => json_quoted(text),
        None => "null"@,
    }
}

/// Writes a text as a JSON string, and no text as `null`.
pub fn json_string_or_null(value: Option<&str>) -> (json: String)
    ensures
        json@ == json_string_or_null_text(str_of(value)),
{
    match value {
        Some(text) => quote_json(text),
        None => "null".to_string(),
    }
}

/// A member is read as a text, a number or a flag just where it is there and
/// is one.
pub proof fn members_are_read_as_what_they_are(
    body: JsonMembers,
    name: Seq<char>,
    text: Seq<char>,
    number: JsonNumber,
    flag: bool,
)
    ensures
        text_at(body, name) == Some(text) <==> body.contains_pair(name, JsonField::Text(text)),
        bool_at(body, name) == Some(flag) <==> body.contains_pair(name, JsonField::Bool(flag)),
        body.contains_pair(name, JsonField::Number(number)) ==> unsigned_at(body, name)
            == number.unsigned && signed_at(body, name) == number.signed && float_bits_at(
            body,
            name,
        ) == number.float_bits,
        !body.contains_key(name) || !(body[name] is Number) ==> unsigned_at(body, name) is None
            && signed_at(body, name) is None && float_bits_at(body, name) is None,
        !body.contains_key(name) || !(body[name] is Text) ==> text_at(body, name) is None,
        !body.contains_key(name) || !(body[name] is Bool) ==> bool_at(body, name) is None,
{
}

/// A body has the members that its text names, and where a name is given more
/// than once the last one counts.
pub proof fn the_last_member_of_a_name_counts(
    pairs: Seq<(Seq<char>, JsonField<Seq<char>>)>,
    name: Seq<char>,
    at: int,
)
    ensures
        members_in(pairs).contains_key(name) <==> exists|i: int|
            0 <= i < pairs.len() && (#[trigger] pairs[i]).0 == name,
        0 <= at < pairs.len() && pairs[at].0 == name && (forall|i: int|
            at < i < pairs.len() ==> (#[trigger] pairs[i]).0 != name) ==> members_in(
            pairs,
        ).contains_pair(name, pairs[at].1),
    decreases pairs.len(),
{
    if pairs.len() > 0 {
        let front = pairs.drop_last();
        let n = pairs.len() - 1;
        the_last_member_of_a_name_counts(front, name, at);
        assert(pairs[n] == pairs.last());
        assert forall|i: int| 0 <= i < n implies #[trigger] front[i] == pairs[i] by {}
        if exists|i: int| 0 <= i < pairs.len() && (#[trigger] pairs[i]).0 == name {
            let i = choose|i: int| 0 <= i < pairs.len() && (#[trigger] pairs[i]).0 == name;
            if i < n {
                assert(front[i].0 == name);
            }
        }
        if members_in(front).contains_key(name) {
            let i = choose|i: int| 0 <= i < front.len() && (#[trigger] front[i]).0 == name;
            assert(pairs[i].0 == name);
        }
    }
}

/// A text is put into a JSON message as a JSON string, and no text as `null`.
pub proof fn no_text_is_null(text: Seq<char>)
    ensures
        json_string_or_null_text(None) == seq!['n', 'u', 'l', 'l'],
        json_string_or_null_text(Some(text)) == json_quoted(text),
{
    reveal_strlit("null");
    assert("null"@ =~= seq!['n', 'u', 'l', 'l']);
}

/// The members of a body keep what they are: nulls, flags, numbers, texts and
/// the rest are told apart, and a text keeps its characters.
pub proof fn fields_keep_their_kind(field: JsonField<String>, other: JsonField<String>)
    requires
        plain_field(field) == plain_field(other),
    ensures
        field is Null <==> other is Null,
        field is Nested <==> other is Nested,
        field is Bool ==> other == field,
        field is Number ==> other == field,
        field is Text ==> other is Text && other->Text_0@ == field->Text_0@,
{
}

/// A body is made of the members that its text names, and a text that is no
/// JSON gives none.
pub proof fn bodies_are_made_of_their_members(
    bytes: Seq<u8>,
    pairs: Seq<(Seq<char>, JsonField<Seq<char>>)>,
)
    ensures
        json_pairs(bytes) == Some(pairs) ==> json_members(bytes) == Some(members_in(pairs)),
        json_pairs(bytes) is None ==> json_members(bytes) is None,
{
}

/// Inside a JSON string every character stands for itself but the quote, the
/// backslash and the control characters of ASCII.
pub proof fn plain_characters_stand_for_themselves(ch: char)
    ensures
        json_verbatim(ch) <==> 32 <= ch as int && ch as int != 34 && ch as int != 92,
{
}

} // verus!
