//! What is asked of the system: processes, open ports and the state of git
//! repositories. The commands are run by implementations of the traits here;
//! what they print is read here.

use vstd::prelude::*;

use crate::context::{parse_process_row, process_row};
use crate::http::{lossy_text, utf8_lossy};
use crate::text::{
    chars_of, lines, pieces, split_lines, string_of, trim, trimmed, CharClass,
};
use crate::text_map::texts;

verus! {

/// Runs the commands that port discovery needs.
pub trait PortCommandRunner: Send + Sync + 'static {
    /// The processes, each with its parent.
    fn process_rows(&self) -> Vec<(u32, u32)>;

    /// The open ports, as `lsof` prints them.
    fn lsof_fields(&self) -> String;
}

/// Runs the commands that tell the state of a git repository.
pub trait GitCommandRunner: Send + Sync + 'static {
    /// What the commands print for a directory, or nothing where they fail.
    fn git_info_output(&self, dir: &str) -> String;
}

/// The processes that lines give. Lines that give none are left out.
pub open spec fn rows_in(lines: Seq<Seq<char>>) -> Seq<(nat, nat)>
    decreases lines.len(),
{
    if lines.len() == 0 {
        Seq::empty()
    } else {
        let earlier = rows_in(lines.drop_last());
        match process_row(lines.last()) {
            Some(row) => earlier.push(row),
            None => earlier,
        }
    }
}

/// The plain values of processes.
pub open spec fn row_values(rows: Seq<(u32, u32)>) -> Seq<(nat, nat)> {
    rows.map_values(|row: (u32, u32)| (row.0 as nat, row.1 as nat))
}

/// Reads the processes in the text that `ps` prints.
pub fn process_rows_in(text: &str) -> (rows: Vec<(u32, u32)>)
    ensures
        row_values(rows@) == rows_in(lines(text@)),
{
    let chars = chars_of(text);
    let parts = split_lines(chars.as_slice());
    let ghost all = pieces(parts@);
    let mut rows: Vec<(u32, u32)> = Vec::new();
    let mut i: usize = 0;
    assert(row_values(rows@) =~= rows_in(all.take(0)));
    while i < parts.len()
        invariant
            i <= parts@.len(),
            all == pieces(parts@),
            row_values(rows@) == rows_in(all.take(i as int)),
        decreases parts@.len() - i,
    {
        let ghost before = rows@;
        let line = string_of(parts[i]);
        proof {
            assert(all.take(i + 1).drop_last() == all.take(i as int));
            assert(all.take(i + 1).last() == line@);
        }
        if let Some(row) = parse_process_row(line.as_str()) {
            rows.push(row);
            assert(row_values(rows@) =~= row_values(before).push((row.0 as nat, row.1 as nat)));
        }
        i += 1;
    }
    assert(all.take(all.len() as int) == all);
    rows
}

/// Reads the processes in what `ps` prints.
pub fn parse_process_rows(stdout: &[u8]) -> (rows: Vec<(u32, u32)>)
    ensures
        row_values(rows@) == rows_in(lines(utf8_lossy(stdout@))),
{
    process_rows_in(lossy_text(stdout).as_str())
}

/// The text that a command printed, or none where it failed.
pub fn printed_text(ok: bool, stdout: &[u8]) -> (text: String)
    ensures
        text@ == if ok {
            utf8_lossy(stdout@)
        } else {
            Seq::empty()
        },
{
    if ok {
        lossy_text(stdout)
    } else {
        String::new()
    }
}

/// The state of a git repository as one text: the branch and the directory,
/// the changed files, and the number of changed lines, each without the white
/// space around it.
pub open spec fn git_text(branch: Seq<char>, status: Seq<char>, numstat: Seq<char>) -> Seq<char> {
    trim(branch, CharClass::White) + "\n---\n"@ + trim(status, CharClass::White)
        + "\n---NUMSTAT---\n"@ + trim(numstat, CharClass::White)
}

fn trimmed_text(text: &str) -> (inner: String)
    ensures
        inner@ == trim(text@, CharClass::White),
{
    let chars = chars_of(text);
    string_of(trimmed(chars.as_slice(), CharClass::White))
}

/// Puts the state of a git repository in one text.
pub fn git_info_text(branch: &str, status: &str, numstat: &str) -> (text: String)
    ensures
        text@ == git_text(branch@, status@, numstat@),
{
    let mut text = trimmed_text(branch);
    text.append("\n---\n");
    text.append(trimmed_text(status).as_str());
    text.append("\n---NUMSTAT---\n");
    text.append(trimmed_text(numstat).as_str());
    text
}

/// Puts what three git commands printed in one text.
pub fn git_info_printed(branch: &[u8], status: &[u8], numstat: &[u8]) -> (text: String)
    ensures
        text@ == git_text(utf8_lossy(branch@), utf8_lossy(status@), utf8_lossy(numstat@)),
{
    git_info_text(
        lossy_text(branch).as_str(),
        lossy_text(status).as_str(),
        lossy_text(numstat).as_str(),
    )
}

/// What a git command came to.
#[derive(Debug)]
pub struct GitOutput {
    /// Whether the command succeeded.
    pub ok: bool,
    /// What it printed.
    pub stdout: Vec<u8>,
}

/// How far the git commands of a directory have come.
pub struct GitReportView {
    /// Whether nothing can be told of the directory.
    pub void: bool,
    /// What the commands printed so far, one after the other.
    pub outputs: Seq<Seq<u8>>,
}

/// The arguments of the git command that follows a number of commands. There
/// are three: for the branch, the changed files, and the changed lines.
pub open spec fn git_args(done: nat) -> Option<Seq<Seq<char>>> {
    if done == 0 {
        Some(seq!["rev-parse"@, "--abbrev-ref"@, "HEAD"@, "--git-dir"@])
    } else if done == 1 {
        Some(seq!["status"@, "--porcelain"@])
    } else if done == 2 {
        Some(seq!["diff"@, "--numstat"@, "HEAD"@, "--"@])
    } else {
        None
    }
}

impl GitReportView {
    /// The report of a directory before any command was run.
    pub open spec fn initial(dir: Seq<char>) -> GitReportView {
        GitReportView { void: dir.len() == 0, outputs: Seq::empty() }
    }

    /// The command to be run next.
    pub open spec fn next_args(self) -> Option<Seq<Seq<char>>> {
        if self.void {
            None
        } else {
            git_args(self.outputs.len())
        }
    }

    /// The report after the next command: `outcome` is whether it succeeded
    /// and what it printed, or none where it could not be run. Nothing can be
    /// told after that, nor after the first command failed.
    pub open spec fn after(self, outcome: Option<(bool, Seq<u8>)>) -> GitReportView {
        if self.next_args() is None {
            self
        } else {
            match outcome {
                Some((ok, stdout)) => if !ok && self.outputs.len() == 0 {
                    GitReportView { void: true, ..self }
                } else {
                    GitReportView { outputs: self.outputs.push(stdout), ..self }
                },
                None => GitReportView { void: true, ..self },
            }
        }
    }

    /// What the report comes to: nothing, unless all commands were run.
    pub open spec fn text(self) -> Seq<char> {
        if !self.void && self.outputs.len() == 3 {
            git_text(
                utf8_lossy(self.outputs[0]),
                utf8_lossy(self.outputs[1]),
                utf8_lossy(self.outputs[2]),
            )
        } else {
            Seq::empty()
        }
    }
}

/// The git commands of a directory, as far as they have come.
#[derive(Debug)]
pub struct GitReport {
    void: bool,
    outputs: Vec<Vec<u8>>,
}

impl View for GitReport {
    type V = GitReportView;

    closed spec fn view(&self) -> GitReportView {
        GitReportView {
            void: self.void,
            outputs: self.outputs@.map_values(|output: Vec<u8>| output@),
        }
    }
}

/// The plain values of what a command came to.
pub open spec fn git_outcome(output: Option<GitOutput>) -> Option<(bool, Seq<u8>)> {
    match output {
        Some(output) => Some((output.ok, output.stdout@)),
        None => None,
    }
}

/// The arguments of an optional command.
pub open spec fn args_of(args: Option<Vec<String>>) -> Option<Seq<Seq<char>>> {
    match args {
        Some(args) => Some(texts(args@)),
        None => None,
    }
}

impl GitReport {
    /// The report of a directory before any command was run.
    pub fn new(dir: &str) -> (report: GitReport)
        ensures
            report@ == GitReportView::initial(dir@),
    {
        let report = GitReport { void: dir.is_empty(), outputs: Vec::new() };
        assert(report@.outputs =~= Seq::empty());
        report
    }

    /// The command to be run next.
    pub fn query(&self) -> (args: Option<Vec<String>>)
        ensures
            args_of(args) == self@.next_args(),
    {
        if self.void {
            return None;
        }
        if self.outputs.len() == 0 {
            let args = vec![
                "rev-parse".to_string(),
                "--abbrev-ref".to_string(),
                "HEAD".to_string(),
                "--git-dir".to_string(),
            ];
            assert(texts(args@) =~= git_args(0)->Some_0);
            Some(args)
        } else if self.outputs.len() == 1 {
            let args = vec!["status".to_string(), "--porcelain".to_string()];
            assert(texts(args@) =~= git_args(1)->Some_0);
            Some(args)
        } else if self.outputs.len() == 2 {
            let args = vec![
                "diff".to_string(),
                "--numstat".to_string(),
                "HEAD".to_string(),
                "--".to_string(),
            ];
            assert(texts(args@) =~= git_args(2)->Some_0);
            Some(args)
        } else {
            None
        }
    }

    /// Takes what the command came to, or none where it could not be run.
    pub fn take(&mut self, output: Option<GitOutput>)
        ensures
            final(self)@ == old(self)@.after(git_outcome(output)),
    {
        if self.void || self.outputs.len() >= 3 {
            return;
        }
        match output {
            Some(output) => {
                if !output.ok && self.outputs.len() == 0 {
                    self.void = true;
                } else {
                    let ghost before = self@.outputs;
                    let ghost stdout = output.stdout@;
                    self.outputs.push(output.stdout);
                    assert(self@.outputs =~= before.push(stdout));
                }
            },
            None => {
                self.void = true;
            },
        }
    }

    /// What the report comes to.
    pub fn text(&self) -> (text: String)
        ensures
            text@ == self@.text(),
    {
        if self.void || self.outputs.len() != 3 {
            return String::new();
        }
        git_info_printed(
            self.outputs[0].as_slice(),
            self.outputs[1].as_slice(),
            self.outputs[2].as_slice(),
        )
    }
}

// ---------------------------------------------------------------------------
// Laws.
// ---------------------------------------------------------------------------

/// A report tells of a directory just where there is a directory, all commands
/// could be run, and the first succeeded; whether the others did does not
/// matter.
pub proof fn reports_need_a_repository(
    dir: Seq<char>,
    branch: Option<(bool, Seq<u8>)>,
    status: Option<(bool, Seq<u8>)>,
    numstat: Option<(bool, Seq<u8>)>,
)
    ensures
        GitReportView::initial(dir).after(branch).after(status).after(numstat).text() == match (
            branch,
            status,
            numstat,
        ) {
            (Some(branch), Some(status), Some(numstat)) => if dir.len() > 0 && branch.0 {
                git_text(utf8_lossy(branch.1), utf8_lossy(status.1), utf8_lossy(numstat.1))
            } else {
                Seq::empty()
            },
            _ => Seq::empty(),
        },
        GitReportView::initial(dir).after(branch).after(status).after(numstat).next_args() is None,
{
}

/// The rows of the process list stand in the order of its lines, and a line
/// that is no row is passed over.
pub proof fn process_rows_keep_their_order(
    first: Seq<Seq<char>>,
    more: Seq<Seq<char>>,
    line: Seq<char>,
    row: (nat, nat),
)
    ensures
        rows_in(first + more) == rows_in(first) + rows_in(more),
        process_row(line) == Some(row) ==> rows_in(seq![line]) == seq![row],
        process_row(line) is None ==> rows_in(seq![line]) == Seq::<(nat, nat)>::empty(),
    decreases more.len(),
{
    reveal_with_fuel(rows_in, 2);
    assert(seq![line].drop_last() =~= Seq::<Seq<char>>::empty());
    if process_row(line) is Some {
        assert(rows_in(seq![line]) =~= seq![process_row(line)->0]);
    }
    if more.len() == 0 {
        assert(first + more =~= first);
        assert(rows_in(first) + rows_in(more) =~= rows_in(first));
    } else {
        process_rows_keep_their_order(first, more.drop_last(), line, row);
        assert((first + more).drop_last() =~= first + more.drop_last());
        assert(rows_in(first + more) =~= rows_in(first) + rows_in(more));
    }
}

/// The report on a repository holds the branch, the status and the counts,
/// each without the white around it, with a line that tells them apart between
/// them.
pub proof fn git_reports_hold_three_parts(
    branch: Seq<char>,
    status: Seq<char>,
    numstat: Seq<char>,
)
    ensures
        git_text(branch, status, numstat) == trim(branch, CharClass::White) + seq!['\n'] + "---"@
            + seq!['\n'] + trim(status, CharClass::White) + seq!['\n'] + "---NUMSTAT---"@ + seq!['\n']
            + trim(numstat, CharClass::White),
{
    reveal_strlit("---");
    reveal_strlit("\n---\n");
    reveal_strlit("---NUMSTAT---");
    reveal_strlit("\n---NUMSTAT---\n");
    assert("\n---\n"@ =~= seq!['\n'] + "---"@ + seq!['\n']);
    assert("\n---NUMSTAT---\n"@ =~= seq!['\n'] + "---NUMSTAT---"@ + seq!['\n']);
    assert(git_text(branch, status, numstat) =~= trim(branch, CharClass::White) + seq!['\n'] + "---"@
        + seq!['\n'] + trim(status, CharClass::White) + seq!['\n'] + "---NUMSTAT---"@ + seq!['\n']
        + trim(numstat, CharClass::White));
}

/// Git is asked for the branch, the status and the counts, one after the other
/// as long as it answers, and for nothing where there is no directory or the
/// directory is no repository.
pub proof fn git_is_asked_three_things(
    dir: Seq<char>,
    branch: Seq<u8>,
    status: (bool, Seq<u8>),
    numstat: Option<(bool, Seq<u8>)>,
)
    ensures
        dir.len() == 0 ==> GitReportView::initial(dir).next_args() is None,
        dir.len() > 0 ==> {
            let start = GitReportView::initial(dir);
            let second = start.after(Some((true, branch)));
            let third = second.after(Some(status));
            &&& start.next_args() == Some(
                seq!["rev-parse"@, "--abbrev-ref"@, "HEAD"@, "--git-dir"@],
            )
            &&& second.next_args() == Some(seq!["status"@, "--porcelain"@])
            &&& third.next_args() == Some(seq!["diff"@, "--numstat"@, "HEAD"@, "--"@])
            &&& third.after(numstat).next_args() is None
            &&& start.after(Some((false, branch))).next_args() is None
            &&& start.after(None).next_args() is None
            &&& second.after(None).next_args() is None
        },
{
}

/// What git printed, whether it succeeded, and that it could not be run are
/// taken as they are.
pub proof fn outcomes_are_taken_whole(output: GitOutput, rows: Seq<(u32, u32)>, i: int)
    ensures
        git_outcome(Some(output)) == Some((output.ok, output.stdout@)),
        git_outcome(None) is None,
        row_values(rows).len() == rows.len(),
        0 <= i < rows.len() ==> row_values(rows)[i].0 == rows[i].0 && row_values(rows)[i].1
            == rows[i].1,
{
}

/// Arguments that are given are taken as they are, and none are none.
pub proof fn arguments_are_taken_whole(args: Vec<String>)
    ensures
        args_of(Some(args)) == Some(texts(args@)),
        args_of(None) is None,
{
}

} // verus!
