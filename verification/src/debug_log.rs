//! The debug log: where it is kept, what a line of it is, and when it is
//! begun anew.

use vstd::prelude::*;

use crate::numerals::{decimal, write_decimal};
use crate::text::string_of;
use crate::text_map::text_of;

verus! {

/// How many bytes the log may have before it is begun anew.
pub const MAX_LOG_BYTES: u64 = 67_108_864;

/// Where the log is kept unless another place is set.
pub const DEFAULT_LOG_PATH: &'static str = "/tmp/opensessions-debug.log";

/// Where the log is kept: the place that is set, or else the default one. An
/// empty place means that there is no log.
pub open spec fn log_place(setting: Option<Seq<char>>) -> Option<Seq<char>> {
    match setting {
        Some(path) => if path.len() > 0 {
            Some(path)
        } else {
            None
        },
        None => Some(DEFAULT_LOG_PATH@),
    }
}

/// Decides where the log is kept.
pub fn log_path(setting: Option<String>) -> (path: Option<String>)
    ensures
        text_of(path) == log_place(text_of(setting)),
{
    match setting {
        Some(path) => if path.as_str().is_empty() {
            None
        } else {
            Some(path)
        },
        None => Some(DEFAULT_LOG_PATH.to_string()),
    }
}

/// Decides whether a log of a length is begun anew before the next line.
pub fn starts_over(length: u64) -> (yes: bool)
    ensures
        yes == (length > MAX_LOG_BYTES),
{
    length > MAX_LOG_BYTES
}

/// A line of the log.
pub open spec fn log_line(now_ms: nat, tag: Seq<char>, line: Seq<char>) -> Seq<char> {
    "["@ + decimal(now_ms) + "] ["@ + tag + "] "@ + line + "\n"@
}

/// Builds a line of the log.
pub fn log_with_tag(now_ms: u128, tag: &str, line: &str) -> (text: String)
    ensures
        text@ == log_line(now_ms as nat, tag@, line@),
{
    let mut text = "[".to_string();
    text.append(string_of(write_decimal(now_ms).as_slice()).as_str());
    text.append("] [");
    text.append(tag);
    text.append("] ");
    text.append(line);
    text.append("\n");
    text
}

/// The tag of a server process.
pub open spec fn server_tag(pid: nat) -> Seq<char> {
    "server pid="@ + decimal(pid)
}

/// Builds the tag of a server process.
pub fn debug_tag(pid: u32) -> (tag: String)
    ensures
        tag@ == server_tag(pid as nat),
{
    let mut tag = "server pid=".to_string();
    tag.append(string_of(write_decimal(pid as u128).as_slice()).as_str());
    tag
}

/// The length of the log after a line was written, given the one before it.
pub open spec fn length_after(length: nat, line: nat) -> nat {
    if length > MAX_LOG_BYTES {
        line
    } else {
        length + line
    }
}

/// The log never holds more than its bound and the last line.
pub proof fn log_stays_bounded(length: nat, line: nat)
    ensures
        length_after(length, line) <= MAX_LOG_BYTES + line,
        length > MAX_LOG_BYTES ==> length_after(length, line) == line,
{
}

/// The log stands where the setting says, nowhere where the setting is empty,
/// and in its usual place where there is no setting.
pub proof fn the_setting_places_the_log(path: Seq<char>)
    ensures
        log_place(None) == Some("/tmp/opensessions-debug.log"@),
        path.len() == 0 ==> log_place(Some(path)) is None,
        path.len() > 0 ==> log_place(Some(path)) == Some(path),
{
}

/// A line of the log holds the time, the tag and the text, and ends with a line
/// feed; the tag of the server holds its process.
pub proof fn log_lines_hold_time_tag_and_text(
    now_ms: nat,
    tag: Seq<char>,
    line: Seq<char>,
    pid: nat,
)
    ensures
        log_line(now_ms, tag, line) == seq!['['] + decimal(now_ms) + seq![']', ' ', '['] + tag
            + seq![']', ' '] + line + seq!['\n'],
        server_tag(pid) == "server pid="@ + decimal(pid),
{
    reveal_strlit("[");
    reveal_strlit("] [");
    reveal_strlit("] ");
    reveal_strlit("\n");
    assert("["@ =~= seq!['[']);
    assert("] ["@ =~= seq![']', ' ', '[']);
    assert("] "@ =~= seq![']', ' ']);
    assert("\n"@ =~= seq!['\n']);
}

/// The log starts over once it holds more than 64 MiB, and grows by each line
/// until it does.
pub proof fn the_log_starts_over_at_64_mib(length: nat, line: nat)
    ensures
        length <= 64 * 1024 * 1024 ==> length_after(length, line) == length + line,
        length > 64 * 1024 * 1024 ==> length_after(length, line) == line,
        MAX_LOG_BYTES == 64 * 1024 * 1024,
{
}

} // verus!
