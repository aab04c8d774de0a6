//! HTTP requests as they come over the wire.

use vstd::prelude::*;
use vstd::slice::slice_subrange;
use vstd::utf8::{decode_utf8, encode_utf8, valid_utf8};

use crate::errors::ServerError;
use crate::numerals::{parse_unsigned, read_unsigned};
use crate::text::{
    chars_of, find, joined, joined_lines_split_back, lemma_find, lemma_find_is, lemma_find_none,
    lemma_split_once_char, lower, lowered, occurs, occurs_at, pieces, same_chars,
    same_ignoring_case, same_text, split, split_all, split_at_first, split_once,
    split_takes_part_after_part, split_words, string_of, trim, trimmed, words, CharClass,
};
use crate::text_map::{str_of, text_of};

verus! {

/// How many bytes a request may have before its headers end.
pub const MAX_HTTP_HEADER_BYTES: usize = 16384;

/// The bytes after which the body of a request begins.
pub open spec fn terminator() -> Seq<u8> {
    seq![13u8, 10u8, 13u8, 10u8]
}

/// The body of a request: what follows its first blank line.
pub open spec fn body_bytes(request: Seq<u8>) -> Seq<u8> {
    match find(request, terminator()) {
        Some(at) => request.skip(at + 4),
        None => Seq::empty(),
    }
}

/// The position of the first blank line of a request.
pub fn find_terminator(request: &[u8]) -> (found: Option<usize>)
    ensures
        match found {
            Some(at) => find(request@, terminator()) == Some(at as int) && at + 4 <= request@.len(),
            None => find(request@, terminator()) is None,
        },
{
    let mut i: usize = 0;
    while i < request.len() && request.len() - i >= 4
        invariant
            i <= request@.len(),
            forall|j: int| 0 <= j < i ==> !occurs_at(request@, terminator(), j),
        decreases request@.len() - i,
    {
        let here = request[i] == 13 && request[i + 1] == 10 && request[i + 2] == 13 && request[i + 3]
            == 10;
        assert(here == occurs_at(request@, terminator(), i as int)) by {
            let window = request@.subrange(i as int, i + 4);
            if here {
                assert(window =~= terminator());
            } else if window == terminator() {
                assert(window[0] == 13 && window[1] == 10 && window[2] == 13 && window[3] == 10);
            }
        }
        if here {
            proof {
                lemma_find_is(request@, terminator(), i as int);
            }
            return Some(i);
        }
        i += 1;
    }
    proof {
        lemma_find_none(request@, terminator());
    }
    None
}

/// The body of a request.
pub fn http_body(request: &[u8]) -> (body: &[u8])
    ensures
        body@ == body_bytes(request@),
{
    match find_terminator(request) {
        Some(at) => {
            let end = request.len();
            slice_subrange(request, at + 4, end)
        },
        None => slice_subrange(request, 0, 0),
    }
}

/// How far the headers of a request have come.
#[derive(Debug, Clone, Copy, PartialEq, Eq, Structural)]
pub enum HeaderProgress {
    /// The blank line after the headers is there.
    Complete,
    /// More bytes have to be read.
    Incomplete,
}

/// Whether to read on after a read that gave `read` bytes, where `request` is
/// all that came so far, or why the request is given up.
pub open spec fn header_step(request: Seq<u8>, read: nat) -> Result<HeaderProgress, Seq<char>> {
    if read == 0 {
        Err("client closed before sending request"@)
    } else if find(request, terminator()) is Some {
        Ok(HeaderProgress::Complete)
    } else if request.len() > MAX_HTTP_HEADER_BYTES {
        Err("http request headers exceeded limit"@)
    } else {
        Ok(HeaderProgress::Incomplete)
    }
}

/// Decides, after each read, whether to read on. `request` holds what came so
/// far, and `read` is the number of bytes that the last read gave.
pub fn header_progress(request: &[u8], read: usize) -> (progress: Result<
    HeaderProgress,
    ServerError,
>)
    ensures
        header_step(request@, read as nat) == match progress {
            Ok(progress) => Ok(progress),
            Err(error) => Err(error@),
        },
        match progress {
            Err(error) => if read == 0 {
                error@ == "client closed before sending request"@
            } else {
                &&& find(request@, terminator()) is None
                &&& request@.len() > MAX_HTTP_HEADER_BYTES
                &&& error@ == "http request headers exceeded limit"@
            },
            Ok(HeaderProgress::Complete) => read > 0 && find(request@, terminator()) is Some,
            Ok(HeaderProgress::Incomplete) => read > 0 && find(request@, terminator()) is None
                && request@.len() <= MAX_HTTP_HEADER_BYTES,
        },
{
    if read == 0 {
        return Err(ServerError::new("client closed before sending request".to_string()));
    }
    match find_terminator(request) {
        Some(_) => Ok(HeaderProgress::Complete),
        None => if request.len() > MAX_HTTP_HEADER_BYTES {
            Err(ServerError::new("http request headers exceeded limit".to_string()))
        } else {
            Ok(HeaderProgress::Incomplete)
        },
    }
}

/// How many bytes of the body are still to be read.
pub open spec fn still_to_read(request: Seq<u8>, content_length: nat) -> int {
    if content_length > body_bytes(request).len() {
        content_length - body_bytes(request).len()
    } else {
        0
    }
}

/// How many bytes of the body are still to be read.
pub fn remaining_body(request: &[u8], content_length: usize) -> (remaining: usize)
    ensures
        remaining == still_to_read(request@, content_length as nat),
{
    content_length.saturating_sub(http_body(request).len())
}

// ---------------------------------------------------------------------------
// Bytes as text.
// ---------------------------------------------------------------------------

/// The error of `std::str::from_utf8`.
#[verifier::external_type_specification]
#[verifier::external_body]
pub struct ExUtf8Error(std::str::Utf8Error);

/// `std::str::from_utf8` gives the text that the bytes encode, and an error
/// exactly where they are not UTF-8.
pub assume_specification[ std::str::from_utf8 ](bytes: &[u8]) -> (text: Result<
    &str,
    std::str::Utf8Error,
>)
    ensures
        match text {
            Ok(text) => encode_utf8(text@) == bytes@,
            Err(_) => !valid_utf8(bytes@),
        },
;

/// The text that bytes stand for when what is not UTF-8 is replaced.
pub uninterp spec fn utf8_lossy(bytes: Seq<u8>) -> Seq<char>;

/// Decodes bytes with `String::from_utf8_lossy`. The contract names the
/// outcome, which depends on the bytes alone, and claims that bytes which are
/// UTF-8 are decoded as such.
#[verifier::external_body]
pub(crate) fn lossy_text(bytes: &[u8]) -> (text: String)
    ensures
        text@ == utf8_lossy(bytes@),
        valid_utf8(bytes@) ==> text@ == decode_utf8(bytes@),
{
    String::from_utf8_lossy(bytes).into_owned()
}

// ---------------------------------------------------------------------------
// Requests.
// ---------------------------------------------------------------------------

/// A parsed request, as plain values.
pub struct RequestView {
    pub method: Seq<char>,
    pub path: Seq<char>,
    pub query: Option<Seq<char>>,
    pub headers: Seq<(Seq<char>, Seq<char>)>,
}

/// A parsed request. The names of its headers are in small letters.
#[derive(Debug, PartialEq, Eq)]
pub struct HttpRequest {
    pub method: String,
    pub path: String,
    pub query: Option<String>,
    pub headers: Vec<(String, String)>,
}

/// The names and values that a sequence of headers holds.
pub open spec fn header_texts(headers: Seq<(String, String)>) -> Seq<(Seq<char>, Seq<char>)> {
    headers.map_values(|header: (String, String)| (header.0@, header.1@))
}

impl View for HttpRequest {
    type V = RequestView;

    open spec fn view(&self) -> RequestView {
        RequestView {
            method: self.method@,
            path: self.path@,
            query: text_of(self.query),
            headers: header_texts(self.headers@),
        }
    }
}

/// The headers that lines hold: of each line with a colon, what stands before
/// it, trimmed and in small letters, and what stands after it, trimmed.
pub open spec fn header_fields(lines: Seq<Seq<char>>) -> Seq<(Seq<char>, Seq<char>)>
    decreases lines.len(),
{
    if lines.len() == 0 {
        Seq::empty()
    } else {
        let earlier = header_fields(lines.drop_last());
        match split_once(lines.last(), seq![':']) {
            Some((name, value)) => earlier.push(
                (lower(trim(name, CharClass::White)), trim(value, CharClass::White)),
            ),
            None => earlier,
        }
    }
}

/// What the bytes of a request say, or the message of the error that they
/// give.
pub open spec fn parse_request(bytes: Seq<u8>) -> Result<RequestView, Seq<char>> {
    match find(bytes, terminator()) {
        None => Err("http request missing header terminator"@),
        Some(end) => {
            if !valid_utf8(bytes.take(end)) {
                Err("http request headers were not utf-8"@)
            } else {
                let head = split(decode_utf8(bytes.take(end)), seq!['\r', '\n']);
                let request_line = words(head[0]);
                if request_line.len() == 0 {
                    Err("http request missing method"@)
                } else if request_line.len() == 1 {
                    Err("http request missing target"@)
                } else {
                    let target = request_line[1];
                    Ok(
                        RequestView {
                            method: request_line[0],
                            path: match split_once(target, seq!['?']) {
                                Some((path, _)) => path,
                                None => target,
                            },
                            query: match split_once(target, seq!['?']) {
                                Some((_, query)) => Some(query),
                                None => None,
                            },
                            headers: header_fields(head.drop_first()),
                        },
                    )
                }
            }
        },
    }
}

/// There is at least one part.
proof fn lemma_split_nonempty(s: Seq<char>, separator: Seq<char>)
    ensures
        split(s, separator).len() > 0,
{
    lemma_find(s, separator);
}

fn parse_headers(lines: &Vec<&[char]>) -> (headers: Vec<(String, String)>)
    requires
        lines@.len() > 0,
    ensures
        header_texts(headers@) == header_fields(pieces(lines@).drop_first()),
{
    let mut headers: Vec<(String, String)> = Vec::new();
    let colon: [char; 1] = [':'];
    assert(colon@ == seq![':']);
    let ghost rest = pieces(lines@).drop_first();
    assert(header_texts(headers@) == header_fields(rest.take(0)));
    let mut i: usize = 1;
    while i < lines.len()
        invariant
            colon@ == seq![':'],
            1 <= i <= lines@.len(),
            rest == pieces(lines@).drop_first(),
            header_texts(headers@) == header_fields(rest.take(i - 1)),
        decreases lines@.len() - i,
    {
        let ghost before = headers@;
        proof {
            assert(rest.take(i as int).drop_last() == rest.take(i - 1));
            assert(rest.take(i as int).last() == lines@[i as int]@);
        }
        if let Some((name, value)) = split_at_first(lines[i], &colon) {
            let key = string_of(lowered(trimmed(name, CharClass::White)).as_slice());
            let text = string_of(trimmed(value, CharClass::White));
            headers.push((key, text));
            assert(header_texts(headers@) == header_texts(before).push((key@, text@)));
        }
        i += 1;
    }
    assert(rest.take(lines@.len() - 1) == rest);
    headers
}

/// Parses the bytes of a request, whose headers end at the first blank line.
pub fn parse_http_request(bytes: &[u8]) -> (request: Result<HttpRequest, ServerError>)
    ensures
        match request {
            Ok(request) => parse_request(bytes@) == Ok::<RequestView, Seq<char>>(request@),
            Err(error) => parse_request(bytes@) == Err::<RequestView, Seq<char>>(error@),
        },
{
    let end = match find_terminator(bytes) {
        Some(end) => end,
        None => {
            return Err(ServerError::new("http request missing header terminator".to_string()));
        },
    };
    let head = slice_subrange(bytes, 0, end);
    assert(head@ == bytes@.take(end as int));
    let text = match std::str::from_utf8(head) {
        Ok(text) => text,
        Err(_) => {
            return Err(ServerError::new("http request headers were not utf-8".to_string()));
        },
    };
    proof {
        vstd::utf8::encode_utf8_decode_utf8(text@);
        vstd::utf8::encode_utf8_valid_utf8(text@);
    }
    let chars = chars_of(text);
    let line_end: [char; 2] = ['\r', '\n'];
    assert(line_end@ == seq!['\r', '\n']);
    let lines = split_all(chars.as_slice(), &line_end);
    proof {
        lemma_split_nonempty(text@, seq!['\r', '\n']);
        assert(pieces(lines@).len() == lines@.len());
        assert(pieces(lines@)[0] == lines@[0]@);
    }
    let request_line = split_words(lines[0]);
    assert(pieces(request_line@).len() == request_line@.len());
    if request_line.len() == 0 {
        return Err(ServerError::new("http request missing method".to_string()));
    }
    if request_line.len() == 1 {
        return Err(ServerError::new("http request missing target".to_string()));
    }
    assert(pieces(request_line@)[0] == request_line@[0]@);
    assert(pieces(request_line@)[1] == request_line@[1]@);
    let method = string_of(request_line[0]);
    let target = request_line[1];
    let question: [char; 1] = ['?'];
    assert(question@ == seq!['?']);
    let (path, query) = match split_at_first(target, &question) {
        Some((path, query)) => (string_of(path), Some(string_of(query))),
        None => (string_of(target), None),
    };
    let headers = parse_headers(&lines);
    Ok(HttpRequest { method, path, query, headers })
}

/// The value of the first header `name`.
pub open spec fn header_value(
    headers: Seq<(Seq<char>, Seq<char>)>,
    name: Seq<char>,
) -> Option<Seq<char>>
    decreases headers.len(),
{
    if headers.len() == 0 {
        None
    } else if headers[0].0 == name {
        Some(headers[0].1)
    } else {
        header_value(headers.drop_first(), name)
    }
}

/// Whether one of the parts of `value` between commas is `needle`, but for
/// white space around it and for the case of ASCII letters.
pub open spec fn has_token(value: Seq<char>, needle: Seq<char>) -> bool {
    exists|i: int|
        0 <= i < split(value, seq![',']).len() && lower(
            trim(#[trigger] split(value, seq![','])[i], CharClass::White),
        ) == lower(needle)
}

/// The value of the first of `parts` that reads `name=value`.
pub open spec fn param_value(parts: Seq<Seq<char>>, name: Seq<char>) -> Option<Seq<char>>
    decreases parts.len(),
{
    if parts.len() == 0 {
        None
    } else {
        match split_once(parts[0], seq!['=']) {
            Some((key, value)) => if key == name {
                Some(value)
            } else {
                param_value(parts.drop_first(), name)
            },
            None => param_value(parts.drop_first(), name),
        }
    }
}

/// Decides whether `needle` is one of the tokens of `value`.
pub fn contains_token_ignore_ascii_case(value: &str, needle: &str) -> (yes: bool)
    ensures
        yes == has_token(value@, needle@),
{
    let chars = chars_of(value);
    let wanted = chars_of(needle);
    let comma: [char; 1] = [','];
    assert(comma@ == seq![',']);
    let parts = split_all(chars.as_slice(), &comma);
    assert(pieces(parts@).len() == parts@.len());
    let mut i: usize = 0;
    while i < parts.len()
        invariant
            i <= parts@.len(),
            wanted@ == needle@,
            pieces(parts@) == split(value@, seq![',']),
            pieces(parts@).len() == parts@.len(),
            forall|j: int|
                0 <= j < i ==> lower(trim(#[trigger] pieces(parts@)[j], CharClass::White)) != lower(
                    needle@,
                ),
        decreases parts@.len() - i,
    {
        assert(pieces(parts@)[i as int] == parts@[i as int]@);
        if same_ignoring_case(trimmed(parts[i], CharClass::White), wanted.as_slice()) {
            return true;
        }
        i += 1;
    }
    false
}

impl RequestView {
    /// The value of the header `name`.
    pub open spec fn header(self, name: Seq<char>) -> Option<Seq<char>> {
        header_value(self.headers, name)
    }

    /// Whether the request asks for a websocket.
    pub open spec fn asks_for_websocket(self) -> bool {
        match (self.header("upgrade"@), self.header("connection"@)) {
            (Some(upgrade), Some(connection)) => lower(upgrade) == lower("websocket"@) && has_token(
                connection,
                "upgrade"@,
            ),
            _ => false,
        }
    }

    /// The length that the request gives for its body.
    pub open spec fn body_length(self) -> nat {
        match self.header("content-length"@) {
            Some(length) => match parse_unsigned(length, usize::MAX as nat) {
                Some(length) => length,
                None => 0,
            },
            None => 0,
        }
    }

    /// The value of the query parameter `name`.
    pub open spec fn param(self, name: Seq<char>) -> Option<Seq<char>> {
        match self.query {
            Some(query) => param_value(split(query, seq!['&']), name),
            None => None,
        }
    }
}

impl HttpRequest {
    /// The value of the first header `name`, which is in small letters.
    pub fn header(&self, name: &str) -> (value: Option<&str>)
        ensures
            str_of(value) == self@.header(name@),
    {
        let mut i: usize = 0;
        assert(self@.headers.skip(0) == self@.headers);
        while i < self.headers.len()
            invariant
                i <= self.headers@.len(),
                header_value(self@.headers, name@) == header_value(
                    self@.headers.skip(i as int),
                    name@,
                ),
            decreases self.headers@.len() - i,
        {
            let ghost rest = self@.headers.skip(i as int);
            assert(rest[0] == (self.headers@[i as int].0@, self.headers@[i as int].1@));
            assert(rest.drop_first() == self@.headers.skip(i + 1));
            if same_text(self.headers[i].0.as_str(), name) {
                return Some(self.headers[i].1.as_str());
            }
            i += 1;
        }
        None
    }

    /// Whether the request asks for a websocket.
    pub fn is_websocket_upgrade(&self) -> (yes: bool)
        ensures
            yes == self@.asks_for_websocket(),
    {
        match (self.header("upgrade"), self.header("connection")) {
            (Some(upgrade), Some(connection)) => {
                same_ignoring_case(chars_of(upgrade).as_slice(), chars_of("websocket").as_slice())
                    && contains_token_ignore_ascii_case(connection, "upgrade")
            },
            _ => false,
        }
    }

    /// The length that the request gives for its body, or 0 where it gives
    /// none that can be read.
    pub fn content_length(&self) -> (length: usize)
        ensures
            length == self@.body_length(),
    {
        match self.header("content-length") {
            Some(length) => match read_unsigned(chars_of(length).as_slice(), usize::MAX as u64) {
                Some(length) => length as usize,
                None => 0,
            },
            None => 0,
        }
    }

    /// The value of the first query parameter `name`.
    pub fn query_param(&self, name: &str) -> (value: Option<String>)
        ensures
            text_of(value) == self@.param(name@),
    {
        let query = match &self.query {
            Some(query) => chars_of(query.as_str()),
            None => {
                return None;
            },
        };
        let wanted = chars_of(name);
        let ampersand: [char; 1] = ['&'];
        let equals: [char; 1] = ['='];
        assert(ampersand@ == seq!['&']);
        assert(equals@ == seq!['=']);
        let parts = split_all(query.as_slice(), &ampersand);
        assert(pieces(parts@).skip(0) == pieces(parts@));
        let mut i: usize = 0;
        while i < parts.len()
            invariant
                i <= parts@.len(),
                wanted@ == name@,
                equals@ == seq!['='],
                self@.param(name@) == param_value(pieces(parts@).skip(i as int), name@),
            decreases parts@.len() - i,
        {
            let ghost rest = pieces(parts@).skip(i as int);
            assert(rest[0] == parts@[i as int]@);
            assert(rest.drop_first() == pieces(parts@).skip(i + 1));
            if let Some((key, value)) = split_at_first(parts[i], &equals) {
                if same_chars(key, wanted.as_slice()) {
                    return Some(string_of(value));
                }
            }
            i += 1;
        }
        None
    }
}

// ---------------------------------------------------------------------------
// Laws.
// ---------------------------------------------------------------------------

/// A blank line that has come stays the first one, whatever follows it.
proof fn lemma_terminator_stays(request: Seq<u8>, more: Seq<u8>)
    requires
        find(request, terminator()) is Some,
    ensures
        find(request + more, terminator()) == find(request, terminator()),
{
    let whole = request + more;
    let at = find(request, terminator())->Some_0;
    lemma_find(request, terminator());
    assert(whole.subrange(at, at + 4) =~= request.subrange(at, at + 4));
    assert forall|j: int| 0 <= j < at implies !occurs_at(whole, terminator(), j) by {
        assert(whole.subrange(j, j + 4) =~= request.subrange(j, j + 4));
        assert(!occurs_at(request, terminator(), j));
    }
    lemma_find_is(whole, terminator(), at);
}

/// What is read after the headers only adds to the body: once the headers are
/// complete, the request that they make does not change.
pub proof fn reading_on_extends_the_body(request: Seq<u8>, more: Seq<u8>)
    requires
        find(request, terminator()) is Some,
    ensures
        body_bytes(request + more) == body_bytes(request) + more,
        parse_request(request + more) == parse_request(request),
{
    lemma_terminator_stays(request, more);
    lemma_find(request, terminator());
    let at = find(request, terminator())->Some_0;
    assert((request + more).skip(at + 4) =~= request.skip(at + 4) + more);
    assert((request + more).take(at) =~= request.take(at));
}

/// After the bytes that are still to be read were read, the body has the
/// length that its request gives, or more where more had come.
pub proof fn remaining_bytes_complete_the_body(
    request: Seq<u8>,
    more: Seq<u8>,
    content_length: nat,
)
    requires
        find(request, terminator()) is Some,
        more.len() == still_to_read(request, content_length),
    ensures
        body_bytes(request + more).len() >= content_length,
        body_bytes(request).len() <= content_length ==> body_bytes(request + more).len()
            == content_length,
{
    reading_on_extends_the_body(request, more);
}

/// A query parameter that stands first is found, whatever follows it.
pub proof fn first_parameter_is_found(name: Seq<char>, value: Seq<char>, rest: Seq<Seq<char>>)
    requires
        !name.contains('='),
    ensures
        param_value(seq![name + seq!['='] + value] + rest, name) == Some(value),
{
    let part = name + seq!['='] + value;
    let at = name.len() as int;
    assert(part.subrange(at, at + 1) =~= seq!['=']);
    assert forall|j: int| 0 <= j < at implies !occurs_at(part, seq!['='], j) by {
        assert(part.subrange(j, j + 1)[0] == name[j]);
        assert(seq!['='][0] == '=');
        assert(name.contains(name[j]));
    }
    lemma_find_is(part, seq!['='], at);
    assert(part.take(at) =~= name);
    assert(part.skip(at + 1) =~= value);
    assert((seq![part] + rest)[0] == part);
}

/// A header is found under its name: the first of that name counts, and none
/// is found where none has the name.
pub proof fn the_first_header_of_a_name_counts(
    headers: Seq<(Seq<char>, Seq<char>)>,
    name: Seq<char>,
    at: int,
)
    ensures
        0 <= at < headers.len() && headers[at].0 == name && (forall|i: int|
            0 <= i < at ==> (#[trigger] headers[i]).0 != name) ==> header_value(headers, name)
            == Some(headers[at].1),
        header_value(headers, name) is None <==> forall|i: int|
            0 <= i < headers.len() ==> (#[trigger] headers[i]).0 != name,
    decreases headers.len(),
{
    if headers.len() > 0 {
        let rest = headers.drop_first();
        the_first_header_of_a_name_counts(rest, name, at - 1);
        assert forall|i: int| 0 <= i < rest.len() implies #[trigger] rest[i] == headers[i + 1] by {}
        if headers[0].0 != name {
            if forall|i: int| 0 <= i < rest.len() ==> (#[trigger] rest[i]).0 != name {
                assert forall|i: int| 0 <= i < headers.len() implies (#[trigger] headers[i]).0
                    != name by {
                    if i > 0 {
                        assert(rest[i - 1] == headers[i]);
                    }
                }
            }
        }
    }
}

/// A header line is a name, a colon and a value, each without the white around
/// it and the name in small letters; a line without a colon is no header. The
/// headers stand in the order of their lines.
pub proof fn header_lines_are_names_and_values(
    first: Seq<Seq<char>>,
    more: Seq<Seq<char>>,
    name: Seq<char>,
    value: Seq<char>,
)
    ensures
        header_fields(first + more) == header_fields(first) + header_fields(more),
        !name.contains(':') ==> header_fields(seq![name + seq![':'] + value]) == seq![
            (lower(trim(name, CharClass::White)), trim(value, CharClass::White)),
        ],
        !name.contains(':') ==> header_fields(seq![name]) == Seq::<(Seq<char>, Seq<char>)>::empty(),
    decreases more.len(),
{
    reveal_with_fuel(header_fields, 2);
    let line = name + seq![':'] + value;
    assert(seq![line].drop_last() =~= Seq::<Seq<char>>::empty());
    assert(seq![name].drop_last() =~= Seq::<Seq<char>>::empty());
    if !name.contains(':') {
        lemma_split_once_char(line, ':', name, value);
        lemma_split_once_char(name, ':', name, value);
        assert(header_fields(seq![line]) =~= seq![
            (lower(trim(name, CharClass::White)), trim(value, CharClass::White)),
        ]);
    }
    if more.len() == 0 {
        assert(first + more =~= first);
        assert(header_fields(first) + header_fields(more) =~= header_fields(first));
    } else {
        header_lines_are_names_and_values(first, more.drop_last(), name, value);
        assert((first + more).drop_last() =~= first + more.drop_last());
        assert(header_fields(first + more) =~= header_fields(first) + header_fields(more));
    }
}

/// The body is what follows the first blank line, and a request without a
/// blank line has none.
pub proof fn the_body_follows_the_first_blank_line(request: Seq<u8>, at: int)
    ensures
        0 <= at && at + 4 <= request.len() && request[at] == 13 && request[at + 1] == 10
            && request[at + 2] == 13 && request[at + 3] == 10 && (forall|j: int|
            0 <= j < at ==> !(#[trigger] request[j] == 13 && request[j + 1] == 10 && request[j + 2]
                == 13 && request[j + 3] == 10)) ==> body_bytes(request) == request.skip(at + 4),
        (forall|j: int|
            0 <= j && j + 4 <= request.len() ==> !(#[trigger] request[j] == 13 && request[j + 1]
                == 10 && request[j + 2] == 13 && request[j + 3] == 10)) ==> body_bytes(request)
            == Seq::<u8>::empty() && parse_request(request) == Err::<RequestView, Seq<char>>(
            "http request missing header terminator"@,
        ),
{
    assert forall|j: int| #[trigger] occurs_at(request, terminator(), j) implies 0 <= j && j + 4
        <= request.len() && request[j] == 13 && request[j + 1] == 10 && request[j + 2] == 13
        && request[j + 3] == 10 by {
        let window = request.subrange(j, j + 4);
        assert(window[0] == 13 && window[1] == 10 && window[2] == 13 && window[3] == 10);
    }
    if 0 <= at && at + 4 <= request.len() && request[at] == 13 && request[at + 1] == 10
        && request[at + 2] == 13 && request[at + 3] == 10 && (forall|j: int|
        0 <= j < at ==> !(#[trigger] request[j] == 13 && request[j + 1] == 10 && request[j + 2]
            == 13 && request[j + 3] == 10)) {
        assert(request.subrange(at, at + 4) =~= terminator());
        lemma_find_is(request, terminator(), at);
    }
    if forall|j: int|
        0 <= j && j + 4 <= request.len() ==> !(#[trigger] request[j] == 13 && request[j + 1] == 10
            && request[j + 2] == 13 && request[j + 3] == 10) {
        lemma_find_none(request, terminator());
    }
}

/// A request is read from its lines: the first gives the method and the
/// target, the target is a path and, behind a question mark, a query, and the
/// other lines give the headers.
pub proof fn requests_are_read_from_their_lines(
    bytes: Seq<u8>,
    end: int,
    lines: Seq<Seq<char>>,
    method: Seq<char>,
    path: Seq<char>,
    query: Seq<char>,
    more: Seq<Seq<char>>,
)
    requires
        find(bytes, terminator()) == Some(end),
        valid_utf8(bytes.take(end)),
        0 < lines.len(),
        forall|i: int| 0 <= i < lines.len() ==> !(#[trigger] lines[i]).contains('\r'),
        decode_utf8(bytes.take(end)) == joined(lines, seq!['\r', '\n']),
        !path.contains('?'),
    ensures
        words(lines[0]) == seq![method, path + seq!['?'] + query] + more ==> parse_request(bytes)
            == Ok::<RequestView, Seq<char>>(
            RequestView {
                method,
                path,
                query: Some(query),
                headers: header_fields(lines.drop_first()),
            },
        ),
        words(lines[0]) == seq![method, path] + more ==> parse_request(bytes) == Ok::<
            RequestView,
            Seq<char>,
        >(
            RequestView { method, path, query: None, headers: header_fields(lines.drop_first()) },
        ),
        words(lines[0]) == seq![method] ==> parse_request(bytes) == Err::<RequestView, Seq<char>>(
            "http request missing target"@,
        ),
        words(lines[0]).len() == 0 ==> parse_request(bytes) == Err::<RequestView, Seq<char>>(
            "http request missing method"@,
        ),
{
    joined_lines_split_back(lines);
    let target = path + seq!['?'] + query;
    lemma_split_once_char(target, '?', path, query);
    lemma_split_once_char(path, '?', path, query);
    let request_line = words(lines[0]);
    if request_line == seq![method, target] + more {
        assert(request_line[0] == method && request_line[1] == target);
    }
    if request_line == seq![method, path] + more {
        assert(request_line[0] == method && request_line[1] == path);
    }
}

/// A request whose headers are no UTF-8 is refused as such.
pub proof fn headers_must_be_utf8(bytes: Seq<u8>, end: int)
    requires
        find(bytes, terminator()) == Some(end),
    ensures
        parse_request(bytes) == Err::<RequestView, Seq<char>>(
            "http request headers were not utf-8"@,
        ) <==> !valid_utf8(bytes.take(end)),
{
    reveal_strlit("http request headers were not utf-8");
    reveal_strlit("http request missing method");
    reveal_strlit("http request missing target");
    assert("http request headers were not utf-8"@.len() == 35);
    assert("http request missing method"@.len() == 27);
    assert("http request missing target"@.len() == 27);
}

/// A list of tokens holds a token where one of its parts between commas is the
/// token, without the white around it and in letters of any size.
pub proof fn tokens_stand_between_commas(
    part: Seq<char>,
    rest: Seq<char>,
    token: Seq<char>,
)
    requires
        !part.contains(','),
    ensures
        has_token(part, token) <==> lower(trim(part, CharClass::White)) == lower(token),
        has_token(part + seq![','] + rest, token) <==> has_token(part, token) || has_token(
            rest,
            token,
        ),
        has_token(part, token) == has_token(part, lower(token)),
{
    split_takes_part_after_part(part, ',', rest);
    let comma = seq![','];
    let all = split(part + comma + rest, comma);
    let tail = split(rest, comma);
    let alone = split(part, comma);
    assert(alone[0] == part && alone.len() == 1);
    assert(all == seq![part] + tail);
    assert(all[0] == part);
    assert forall|i: int| 0 <= i < tail.len() implies #[trigger] tail[i] == all[i + 1] by {}
    if has_token(part + comma + rest, token) {
        let i = choose|i: int|
            0 <= i < all.len() && lower(trim(#[trigger] all[i], CharClass::White)) == lower(token);
        if i > 0 {
            assert(tail[i - 1] == all[i]);
        }
    }
    if has_token(rest, token) {
        let i = choose|i: int|
            0 <= i < tail.len() && lower(trim(#[trigger] tail[i], CharClass::White)) == lower(
                token,
            );
        assert(all[i + 1] == tail[i]);
    }
    assert(lower(lower(token)) =~= lower(token));
}

/// A request asks for a websocket just where it upgrades to `websocket` and
/// its connection holds the token `upgrade`, in letters of any size.
pub proof fn websockets_are_asked_for_by_two_headers(
    request: RequestView,
    upgrade: Seq<char>,
    connection: Seq<char>,
)
    ensures
        request.header("upgrade"@) == Some(upgrade) && request.header("connection"@) == Some(
            connection,
        ) ==> (request.asks_for_websocket() <==> lower(upgrade) == "websocket"@ && has_token(
            connection,
            "upgrade"@,
        )),
        request.header("upgrade"@) is None || request.header("connection"@) is None
            ==> !request.asks_for_websocket(),
{
    reveal_strlit("websocket");
    assert(lower("websocket"@) =~= "websocket"@);
}

/// The length of a body is the number that its header gives, and zero where
/// none does.
pub proof fn bodies_have_the_length_of_their_header(request: RequestView, text: Seq<char>, n: nat)
    ensures
        request.header("content-length"@) == Some(text) && parse_unsigned(text, usize::MAX as nat)
            == Some(n) ==> request.body_length() == n,
        request.header("content-length"@) == Some(text) && parse_unsigned(
            text,
            usize::MAX as nat,
        ) is None ==> request.body_length() == 0,
        request.header("content-length"@) is None ==> request.body_length() == 0,
{
}

/// The parameters of a query stand between ampersands: one whose name is asked
/// for gives its value, and any other is passed over.
pub proof fn parameters_stand_between_ampersands(
    request: RequestView,
    name: Seq<char>,
    value: Seq<char>,
    other: Seq<char>,
    rest: Seq<char>,
    plain: Seq<char>,
)
    requires
        !name.contains('=') && !name.contains('&'),
        !value.contains('&'),
        !plain.contains('=') && !plain.contains('&'),
    ensures
        request.query == Some(name + seq!['='] + value + seq!['&'] + rest) ==> request.param(name)
            == Some(value),
        request.query == Some(name + seq!['='] + value) ==> request.param(name) == Some(value),
        request.query == Some(name + seq!['='] + value + seq!['&'] + rest) && other != name
            ==> request.param(other) == (RequestView { query: Some(rest), ..request }).param(other),
        request.query == Some(name + seq!['='] + value) && other != name ==> request.param(
            other,
        ) is None,
        request.query == Some(plain + seq!['&'] + rest) ==> request.param(other) == (RequestView {
            query: Some(rest),
            ..request
        }).param(other),
        request.query == Some(plain) || request.query is None ==> request.param(other) is None,
{
    reveal_with_fuel(param_value, 2);
    let part = name + seq!['='] + value;
    assert(!part.contains('&')) by {
        if part.contains('&') {
            let i = choose|i: int| 0 <= i < part.len() && part[i] == '&';
            if i < name.len() {
                assert(name[i] == '&');
            } else if i > name.len() {
                assert(value[i - name.len() - 1] == '&');
            }
        }
    }
    split_takes_part_after_part(part, '&', rest);
    split_takes_part_after_part(plain, '&', rest);
    lemma_split_once_char(part, '=', name, value);
    lemma_split_once_char(plain, '=', name, value);
    let tail = split(rest, seq!['&']);
    assert((seq![part] + tail)[0] == part);
    assert((seq![part] + tail).drop_first() =~= tail);
    assert((seq![plain] + tail)[0] == plain);
    assert((seq![plain] + tail).drop_first() =~= tail);
    assert(seq![part].drop_first() =~= Seq::<Seq<char>>::empty());
    assert(seq![plain].drop_first() =~= Seq::<Seq<char>>::empty());
    assert(seq![part][0] == part && seq![plain][0] == plain);
}

/// Reading goes on as long as bytes come, no blank line has come, and there are
/// at most 16384 of them.
pub proof fn reading_stops_where_it_must(request: Seq<u8>, read: nat)
    ensures
        read == 0 ==> header_step(request, read) == Err::<HeaderProgress, Seq<char>>(
            "client closed before sending request"@,
        ),
        0 < read && occurs(request, terminator()) ==> header_step(request, read) == Ok::<
            HeaderProgress,
            Seq<char>,
        >(HeaderProgress::Complete),
        0 < read && !occurs(request, terminator()) && request.len() <= 16384 ==> header_step(
            request,
            read,
        ) == Ok::<HeaderProgress, Seq<char>>(HeaderProgress::Incomplete),
        0 < read && !occurs(request, terminator()) && 16384 < request.len() ==> header_step(
            request,
            read,
        ) == Err::<HeaderProgress, Seq<char>>("http request headers exceeded limit"@),
{
    lemma_find(request, terminator());
}

/// A request is taken for what it holds, field by field and header by header.
pub proof fn requests_are_taken_whole(request: HttpRequest, i: int)
    ensures
        request@.method == request.method@,
        request@.path == request.path@,
        request@.query == text_of(request.query),
        request@.headers.len() == request.headers@.len(),
        0 <= i < request.headers@.len() ==> request@.headers[i].0 == request.headers@[i].0@
            && request@.headers[i].1 == request.headers@[i].1@,
{
}

/// What is still to be read is what the body lacks of its length, and nothing
/// where it lacks nothing.
pub proof fn what_the_body_lacks_is_read(request: Seq<u8>, content_length: nat)
    ensures
        body_bytes(request).len() <= content_length ==> body_bytes(request).len() + still_to_read(
            request,
            content_length,
        ) == content_length,
        content_length <= body_bytes(request).len() ==> still_to_read(request, content_length) == 0,
{
}

} // verus!
