//! Where a request comes from: the client, session, window and pane.

use vstd::prelude::*;

use crate::numerals::{parse_unsigned, read_unsigned};
use crate::text::{
    chars_of, is_white, lemma_split_once_char, pieces, same_text, split, split_all, split_at_first,
    split_once, split_takes_part_after_part, split_words, string_of, trim, trimmed,
    trimming_ignores_the_ends, words, CharClass,
};
use crate::text_map::{copy_text, text_of};

verus! {

/// The place that a tmux hook reports from.
#[derive(Debug, PartialEq, Eq)]
pub struct HttpContext {
    pub client_tty: Option<String>,
    pub session: String,
    pub window_id: String,
    pub pane_id: Option<String>,
    pub pane_active: Option<bool>,
}

/// The place that a tmux hook reports from, as plain values.
pub struct HttpContextView {
    pub client_tty: Option<Seq<char>>,
    pub session: Seq<char>,
    pub window_id: Seq<char>,
    pub pane_id: Option<Seq<char>>,
    pub pane_active: Option<bool>,
}

impl View for HttpContext {
    type V = HttpContextView;

    open spec fn view(&self) -> HttpContextView {
        HttpContextView {
            client_tty: text_of(self.client_tty),
            session: self.session@,
            window_id: self.window_id@,
            pane_id: text_of(self.pane_id),
            pane_active: self.pane_active,
        }
    }
}

/// The plain values of an optional context.
pub open spec fn context_of(context: Option<HttpContext>) -> Option<HttpContextView> {
    match context {
        Some(context) => Some(context@),
        None => None,
    }
}

/// What is left of a body without the white space, the double quotes and the
/// single quotes around it.
pub open spec fn unquoted(body: Seq<char>) -> Seq<char> {
    trim(trim(trim(body, CharClass::White), CharClass::DoubleQuote), CharClass::SingleQuote)
}

/// A text, unless it is empty.
pub open spec fn unless_empty(text: Seq<char>) -> Option<Seq<char>> {
    if text.len() > 0 {
        Some(text)
    } else {
        None
    }
}

/// The context that parts between bars give: the client, the session, the
/// window, and then maybe the pane, and after it whether that is active.
pub open spec fn barred_context(parts: Seq<Seq<char>>) -> Option<HttpContextView> {
    if 3 <= parts.len() <= 5 && parts[1].len() > 0 && parts[2].len() > 0 {
        Some(
            HttpContextView {
                client_tty: unless_empty(parts[0]),
                session: parts[1],
                window_id: parts[2],
                pane_id: if parts.len() >= 4 {
                    Some(parts[3])
                } else {
                    None
                },
                pane_active: if parts.len() == 5 {
                    Some(parts[4] == "1"@)
                } else {
                    None
                },
            },
        )
    } else {
        None
    }
}

/// The context that a text `session:window` gives.
pub open spec fn colon_context(text: Seq<char>) -> Option<HttpContextView> {
    match split_once(text, seq![':']) {
        Some((session, window_id)) => if session.len() > 0 && window_id.len() > 0 {
            Some(
                HttpContextView {
                    client_tty: None,
                    session,
                    window_id,
                    pane_id: None,
                    pane_active: None,
                },
            )
        } else {
            None
        },
        None => None,
    }
}

/// The context that a body gives.
pub open spec fn context_in(body: Seq<char>) -> Option<HttpContextView> {
    let text = unquoted(body);
    match barred_context(split(text, seq!['|'])) {
        Some(context) => Some(context),
        None => colon_context(text),
    }
}

/// Removes the white space and the quotes around a body.
pub fn trim_context_quotes<'a>(value: &'a [char]) -> (inner: &'a [char])
    ensures
        inner@ == unquoted(value@),
{
    trimmed(
        trimmed(trimmed(value, CharClass::White), CharClass::DoubleQuote),
        CharClass::SingleQuote,
    )
}

/// The text, where it is not empty.
pub(crate) fn string_unless_empty(text: &[char]) -> (string: Option<String>)
    ensures
        text_of(string) == unless_empty(text@),
{
    if text.len() > 0 {
        Some(string_of(text))
    } else {
        None
    }
}

/// Reads the context that a hook sends: three to five parts between bars, or
/// a session and a window with a colon between them.
pub fn parse_context(body: &str) -> (context: Option<HttpContext>)
    ensures
        context_of(context) == context_in(body@),
{
    let chars = chars_of(body);
    let text = trim_context_quotes(chars.as_slice());
    let bar: [char; 1] = ['|'];
    assert(bar@ == seq!['|']);
    let parts = split_all(text, &bar);
    let ghost all = pieces(parts@);
    assert(all.len() == parts@.len());
    if parts.len() >= 3 && parts.len() <= 5 && parts[1].len() > 0 && parts[2].len() > 0 {
        proof {
            assert(all[0] == parts@[0]@);
            assert(all[1] == parts@[1]@);
            assert(all[2] == parts@[2]@);
        }
        let pane_id = if parts.len() >= 4 {
            assert(all[3] == parts@[3]@);
            Some(string_of(parts[3]))
        } else {
            None
        };
        let pane_active = if parts.len() == 5 {
            assert(all[4] == parts@[4]@);
            Some(same_text(string_of(parts[4]).as_str(), "1"))
        } else {
            None
        };
        return Some(
            HttpContext {
                client_tty: string_unless_empty(parts[0]),
                session: string_of(parts[1]),
                window_id: string_of(parts[2]),
                pane_id,
                pane_active,
            },
        );
    }
    assert(barred_context(all) is None) by {
        if 3 <= all.len() <= 5 {
            assert(all[1] == parts@[1]@);
            assert(all[2] == parts@[2]@);
        }
    }
    let colon: [char; 1] = [':'];
    assert(colon@ == seq![':']);
    match split_at_first(text, &colon) {
        Some((session, window_id)) => if session.len() > 0 && window_id.len() > 0 {
            Some(
                HttpContext {
                    client_tty: None,
                    session: string_of(session),
                    window_id: string_of(window_id),
                    pane_id: None,
                    pane_active: None,
                },
            )
        } else {
            None
        },
        None => None,
    }
}

/// The session of the context that a hook sends.
pub fn parse_context_session(body: &str) -> (session: Option<String>)
    ensures
        text_of(session) == match context_in(body@) {
            Some(context) => Some(context.session),
            None => None,
        },
{
    match parse_context(body) {
        Some(context) => Some(context.session),
        None => None,
    }
}

/// The client of the context that a hook sends.
pub fn parse_context_client(body: &str) -> (client_tty: Option<String>)
    ensures
        text_of(client_tty) == match context_in(body@) {
            Some(context) => context.client_tty,
            None => None,
        },
{
    match parse_context(body) {
        Some(context) => context.client_tty,
        None => None,
    }
}

// ---------------------------------------------------------------------------
// Connections.
// ---------------------------------------------------------------------------

/// What is known of the client at the other end of a connection.
#[derive(Debug, PartialEq, Eq)]
pub struct ClientConnectionContext {
    pub client_tty: Option<String>,
    pub pane_id: Option<String>,
    pub session_name: Option<String>,
    pub window_id: Option<String>,
}

/// What is known of a client, as plain values.
pub struct ClientView {
    pub client_tty: Option<Seq<char>>,
    pub pane_id: Option<Seq<char>>,
    pub session_name: Option<Seq<char>>,
    pub window_id: Option<Seq<char>>,
}

impl View for ClientConnectionContext {
    type V = ClientView;

    open spec fn view(&self) -> ClientView {
        ClientView {
            client_tty: text_of(self.client_tty),
            pane_id: text_of(self.pane_id),
            session_name: text_of(self.session_name),
            window_id: text_of(self.window_id),
        }
    }
}

/// A client of which nothing is known.
pub open spec fn unknown_client() -> ClientView {
    ClientView { client_tty: None, pane_id: None, session_name: None, window_id: None }
}

impl Default for ClientConnectionContext {
    fn default() -> (context: ClientConnectionContext)
        ensures
            context@ == unknown_client(),
    {
        ClientConnectionContext {
            client_tty: None,
            pane_id: None,
            session_name: None,
            window_id: None,
        }
    }
}

impl Clone for ClientConnectionContext {
    fn clone(&self) -> (copy: ClientConnectionContext)
        ensures
            copy == *self,
    {
        ClientConnectionContext {
            client_tty: copy_text(&self.client_tty),
            pane_id: copy_text(&self.pane_id),
            session_name: copy_text(&self.session_name),
            window_id: copy_text(&self.window_id),
        }
    }
}

// ---------------------------------------------------------------------------
// Processes.
// ---------------------------------------------------------------------------

/// The process and its parent that a line of a process list gives.
pub open spec fn process_row(line: Seq<char>) -> Option<(nat, nat)> {
    let parts = words(line);
    if parts.len() >= 2 {
        match (
            parse_unsigned(parts[0], u32::MAX as nat),
            parse_unsigned(parts[1], u32::MAX as nat),
        ) {
            (Some(pid), Some(ppid)) => Some((pid, ppid)),
            _ => None,
        }
    } else {
        None
    }
}

/// Reads a line of a process list: the process and its parent.
pub fn parse_process_row(line: &str) -> (row: Option<(u32, u32)>)
    ensures
        match row {
            Some((pid, ppid)) => process_row(line@) == Some((pid as nat, ppid as nat)),
            None => process_row(line@) is None,
        },
{
    let chars = chars_of(line);
    let parts = split_words(chars.as_slice());
    assert(pieces(parts@).len() == parts@.len());
    if parts.len() < 2 {
        return None;
    }
    assert(pieces(parts@)[0] == parts@[0]@);
    assert(pieces(parts@)[1] == parts@[1]@);
    match (read_unsigned(parts[0], u32::MAX as u64), read_unsigned(parts[1], u32::MAX as u64)) {
        (Some(pid), Some(ppid)) => Some((pid as u32, ppid as u32)),
        _ => None,
    }
}

// ---------------------------------------------------------------------------
// Laws.
// ---------------------------------------------------------------------------

/// The white around a report and one pair of quotes around it are no part of
/// it, and a report that neither begins nor ends with white or a quote is
/// taken as it is.
pub proof fn quotes_are_no_part_of_a_report(text: Seq<char>, white: char)
    requires
        0 < text.len(),
        !is_white(text[0]) && !is_white(text.last()),
        text[0] != '"' && text.last() != '"',
        text[0] != '\'' && text.last() != '\'',
        is_white(white),
    ensures
        unquoted(text) == text,
        unquoted(seq!['"'] + text + seq!['"']) == text,
        unquoted(seq!['\''] + text + seq!['\'']) == text,
        unquoted(seq!['"', '\''] + text + seq!['\'', '"']) == text,
        unquoted(seq![white] + text + seq![white]) == text,
        unquoted(seq![white, '"'] + text + seq!['"', white]) == text,
{
    let w = CharClass::White;
    let d = CharClass::DoubleQuote;
    let q = CharClass::SingleQuote;
    trimming_ignores_the_ends(text, white, w);
    trimming_ignores_the_ends(text, '"', d);
    trimming_ignores_the_ends(text, '\'', q);
    let in_double = seq!['"'] + text + seq!['"'];
    let in_single = seq!['\''] + text + seq!['\''];
    let in_both = seq!['"', '\''] + text + seq!['\'', '"'];
    assert(in_both =~= seq!['"'] + in_single + seq!['"']);
    trimming_ignores_the_ends(in_double, white, w);
    trimming_ignores_the_ends(in_single, white, w);
    trimming_ignores_the_ends(in_both, white, w);
    trimming_ignores_the_ends(seq!['"'] + text, '"', d);
    trimming_ignores_the_ends(seq!['"'] + in_single, '"', d);
    trimming_ignores_the_ends(in_single, '"', d);
    trimming_ignores_the_ends(seq!['\''] + text, '\'', q);
    trimming_ignores_the_ends(seq![white] + text, white, w);
    let apart = seq![white, '"'] + text + seq!['"', white];
    assert(apart =~= seq![white] + in_double + seq![white]);
    trimming_ignores_the_ends(seq![white] + in_double, white, w);
}

/// A report with bars gives the client, the session and the window, and then
/// the pane and whether it is active. A client that is empty is none, and a
/// pane is active just where its mark is `1`.
pub proof fn barred_reports_are_read_part_by_part(
    body: Seq<char>,
    client: Seq<char>,
    session: Seq<char>,
    window: Seq<char>,
    pane: Seq<char>,
    active: Seq<char>,
)
    requires
        !client.contains('|'),
        !session.contains('|') && 0 < session.len(),
        !window.contains('|') && 0 < window.len(),
        !pane.contains('|'),
        !active.contains('|'),
    ensures
        ({
            let bar = seq!['|'];
            let three = client + bar + (session + bar + window);
            let four = client + bar + (session + bar + (window + bar + pane));
            let five = client + bar + (session + bar + (window + bar + (pane + bar + active)));
            let plain = HttpContextView {
                client_tty: if client.len() == 0 {
                    None
                } else {
                    Some(client)
                },
                session,
                window_id: window,
                pane_id: None,
                pane_active: None,
            };
            &&& unquoted(body) == three ==> context_in(body) == Some(plain)
            &&& unquoted(body) == four ==> context_in(body) == Some(
                HttpContextView { pane_id: Some(pane), ..plain },
            )
            &&& unquoted(body) == five ==> context_in(body) == Some(
                HttpContextView {
                    pane_id: Some(pane),
                    pane_active: Some(active == seq!['1']),
                    ..plain
                },
            )
        }),
{
    reveal_strlit("1");
    assert("1"@ =~= seq!['1']);
    let bar = seq!['|'];
    let b4 = window + bar + pane;
    let b3 = session + bar + b4;
    let a3 = session + bar + window;
    let c5 = pane + bar + active;
    let c4 = window + bar + c5;
    let c3 = session + bar + c4;
    split_takes_part_after_part(window, '|', pane);
    split_takes_part_after_part(pane, '|', active);
    split_takes_part_after_part(active, '|', active);
    split_takes_part_after_part(window, '|', c5);
    split_takes_part_after_part(session, '|', window);
    split_takes_part_after_part(session, '|', b4);
    split_takes_part_after_part(session, '|', c4);
    split_takes_part_after_part(client, '|', a3);
    split_takes_part_after_part(client, '|', b3);
    split_takes_part_after_part(client, '|', c3);
    assert(split(client + bar + a3, bar) =~= seq![client, session, window]);
    assert(split(client + bar + b3, bar) =~= seq![client, session, window, pane]);
    assert(split(client + bar + c3, bar) =~= seq![client, session, window, pane, active]);
}

/// A report without a bar gives the session and the window on the two sides of
/// its first colon, neither of them empty, and nothing else.
pub proof fn plain_reports_are_read_around_the_colon(
    body: Seq<char>,
    session: Seq<char>,
    window: Seq<char>,
)
    requires
        !unquoted(body).contains('|'),
    ensures
        context_in(body) == Some(
            HttpContextView {
                client_tty: None,
                session,
                window_id: window,
                pane_id: None,
                pane_active: None,
            },
        ) <==> unquoted(body) == session + seq![':'] + window && !session.contains(':') && 0
            < session.len() && 0 < window.len(),
        context_in(body) matches Some(context) ==> context.client_tty is None
            && context.pane_id is None && context.pane_active is None,
{
    let text = unquoted(body);
    split_takes_part_after_part(text, '|', text);
    lemma_split_once_char(text, ':', session, window);
}

/// A report with bars but without a session or a window between them gives
/// what stands around its first colon, if anything.
pub proof fn empty_parts_are_no_place(
    body: Seq<char>,
    client: Seq<char>,
    session: Seq<char>,
    window: Seq<char>,
)
    requires
        !client.contains('|') && !client.contains(':'),
        !session.contains('|') && !session.contains(':'),
        !window.contains('|') && !window.contains(':'),
        session.len() == 0 || window.len() == 0,
        unquoted(body) == client + seq!['|'] + (session + seq!['|'] + window),
    ensures
        context_in(body) is None,
{
    let bar = seq!['|'];
    let text = unquoted(body);
    split_takes_part_after_part(window, '|', window);
    split_takes_part_after_part(session, '|', window);
    split_takes_part_after_part(client, '|', session + bar + window);
    assert(split(text, bar) =~= seq![client, session, window]);
    lemma_split_once_char(text, ':', client, window);
    if text.contains(':') {
        let i = choose|i: int| 0 <= i < text.len() && text[i] == ':';
        let n = client.len() as int;
        let m = session.len() as int;
        if i < n {
            assert(client[i] == ':');
        } else if n < i < n + 1 + m {
            assert(session[i - n - 1] == ':');
        } else if i > n + 1 + m {
            assert(window[i - n - m - 2] == ':');
        }
    }
}

/// A line of the process list gives the numbers that its first two words are:
/// the process and its parent. Where either is no number, or one is missing,
/// it gives nothing.
pub proof fn process_rows_are_two_numbers(
    line: Seq<char>,
    pid: Seq<char>,
    ppid: Seq<char>,
    more: Seq<Seq<char>>,
)
    ensures
        words(line) == seq![pid, ppid] + more && parse_unsigned(pid, u32::MAX as nat) is Some
            && parse_unsigned(ppid, u32::MAX as nat) is Some ==> process_row(line) == Some(
            (parse_unsigned(pid, u32::MAX as nat)->0, parse_unsigned(ppid, u32::MAX as nat)->0),
        ),
        words(line) == seq![pid, ppid] + more && (parse_unsigned(pid, u32::MAX as nat) is None
            || parse_unsigned(ppid, u32::MAX as nat) is None) ==> process_row(line) is None,
        words(line).len() < 2 ==> process_row(line) is None,
{
    let all = seq![pid, ppid] + more;
    assert(all[0] == pid && all[1] == ppid);
}

/// Places and clients are taken for what they hold, field by field.
pub proof fn places_and_clients_are_taken_whole(
    context: HttpContext,
    client: ClientConnectionContext,
)
    ensures
        context@.client_tty == text_of(context.client_tty),
        context@.session == context.session@,
        context@.window_id == context.window_id@,
        context@.pane_id == text_of(context.pane_id),
        context@.pane_active == context.pane_active,
        client@.client_tty == text_of(client.client_tty),
        client@.pane_id == text_of(client.pane_id),
        client@.session_name == text_of(client.session_name),
        client@.window_id == text_of(client.window_id),
        unknown_client().client_tty is None,
        unknown_client().pane_id is None,
        unknown_client().session_name is None,
        unknown_client().window_id is None,
{
}

/// A place that was read is a place, and none is none.
pub proof fn read_places_are_places(context: HttpContext, text: Seq<char>)
    ensures
        context_of(Some(context)) == Some(context@),
        context_of(None) is None,
        text.len() == 0 <==> unless_empty(text) is None,
        0 < text.len() ==> unless_empty(text) == Some(text),
{
}

} // verus!
