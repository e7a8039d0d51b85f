use vstd::prelude::*;

use crate::errors::{CustomError, CustomErrorKind};
use crate::snapshot::split_lines;

verus! {

/// The outcome of one shell invocation.
#[derive(Debug, Clone, PartialEq, Eq)]
pub struct CommandResult {
    pub status_code: Option<i32>,
    pub stdout: String,
    pub stderr: String,
    pub command: String,
    pub success: bool,
}

impl CommandResult {
    /// Success means a normal exit with code 0.
    pub open spec fn wf(&self) -> bool {
        self.success == (self.status_code == Some(0i32))
    }

    /// The result of a process that ended with `status_code` (`None` when a
    /// signal ended it) after writing `stdout` and `stderr`.
    pub fn from_exit(command: &str, status_code: Option<i32>, stdout: String, stderr: String) -> (r: CommandResult)
        ensures
            r.wf(),
            r.command@ == command@,
            r.status_code == status_code,
            r.stdout == stdout,
            r.stderr == stderr,
    {
        let success = match status_code {
            Some(c) => c == 0,
            None => false,
        };
        CommandResult { status_code, stdout, stderr, command: String::from_str(command), success }
    }

    /// The result itself when the command succeeded, else a failure naming the command.
    pub fn as_result(self) -> (r: Result<CommandResult, CustomError>)
        ensures
            self.success ==> r == Ok::<CommandResult, CustomError>(self),
            !self.success ==> (r matches Err(e) && e.kind is ErrorMessage && e.kind.spec_message()
                == nonzero_exit_message(self.command@)),
    {
        if self.success {
            Ok(self)
        } else {
            Err(CustomError::from_kind(CustomErrorKind::ErrorMessage(nonzero_exit_text(&self.command))))
        }
    }

    /// As `as_result`, borrowing the result.
    pub fn as_result_ref(&self) -> (r: Result<&CommandResult, CustomError>)
        ensures
            self.success ==> (r matches Ok(c) && *c == *self),
            !self.success ==> (r matches Err(e) && e.kind is ErrorMessage && e.kind.spec_message()
                == nonzero_exit_message(self.command@)),
    {
        if self.success {
            Ok(self)
        } else {
            Err(CustomError::from_kind(CustomErrorKind::ErrorMessage(nonzero_exit_text(&self.command))))
        }
    }
}

pub open spec fn nonzero_exit_message(command: Seq<char>) -> Seq<char> {
    "A command exited with a non 0 exit code or with a signal. '"@ + command + "'"@
}

fn nonzero_exit_text(command: &String) -> (r: String)
    ensures
        r@ == nonzero_exit_message(command@),
{
    let mut m = String::from_str("A command exited with a non 0 exit code or with a signal. '");
    m.append(command.as_str());
    m.append("'");
    m
}

/// A command line to run through the shell, and whether its output goes to the log.
#[derive(Debug, Clone, PartialEq, Eq)]
pub struct ShellRequest {
    pub command: String,
    pub log_output: bool,
}

/// The text fed to the shell's input: stop on the first failing step or unset
/// variable and echo each step, run the command, pass on its exit code.
pub open spec fn shell_script_text(command: Seq<char>) -> Seq<char> {
    "set -exu\n"@ + command + "\n"@ + "exit $?;\n"@
}

impl ShellRequest {
    /// What the shell reads on its input for this request.
    pub fn script(&self) -> (r: String)
        ensures
            r@ == shell_script_text(self.command@),
    {
        let mut s = String::from_str("set -exu\n");
        s.append(self.command.as_str());
        s.append("\n");
        s.append("exit $?;\n");
        s
    }
}

/// A request to run `command`, with each output line forwarded to the log.
pub fn exec(command: &str) -> (r: ShellRequest)
    ensures
        r.command@ == command@,
        r.log_output,
{
    ShellRequest { command: String::from_str(command), log_output: true }
}

/// A request to run `command` with nothing forwarded to the log.
pub fn exec_without_log(command: &str) -> (r: ShellRequest)
    ensures
        r.command@ == command@,
        !r.log_output,
{
    ShellRequest { command: String::from_str(command), log_output: false }
}

/// One of the two output streams of a process.
#[derive(Debug, Clone, Copy, PartialEq, Eq)]
pub enum OutputStream {
    Stdout,
    Stderr,
}

pub open spec fn log_prefix(stream: OutputStream) -> Seq<char> {
    match stream {
        OutputStream::Stdout => "OUT | "@,
        OutputStream::Stderr => "ERR | "@,
    }
}

/// The lines, each followed by a line feed.
pub open spec fn joined_lines(lines: Seq<Seq<char>>) -> Seq<char>
    decreases lines.len(),
{
    if lines.len() == 0 {
        Seq::empty()
    } else {
        joined_lines(lines.drop_last()) + lines.last() + seq!['\n']
    }
}

/// What one reader has taken from one stream so far.
pub struct OutputCapture {
    pub stream: OutputStream,
    pub log_output: bool,
    pub text: String,
    pub lines: Ghost<Seq<Seq<char>>>,
}

impl OutputCapture {
    pub open spec fn wf(&self) -> bool {
        self.text@ == joined_lines(self.lines@)
    }

    /// A capture of `stream` with nothing read yet.
    pub fn new(stream: OutputStream, log_output: bool) -> (r: OutputCapture)
        ensures
            r.wf(),
            r.stream == stream,
            r.log_output == log_output,
            r.lines@ == Seq::<Seq<char>>::empty(),
    {
        OutputCapture { stream, log_output, text: String::new(), lines: Ghost(Seq::empty()) }
    }

    /// Takes one line (without its line feed): it is added to the text, and
    /// when output is logged the line to log is returned, marked with its stream.
    pub fn push_line(&mut self, line: &str) -> (log: Option<String>)
        requires
            old(self).wf(),
        ensures
            final(self).wf(),
            final(self).stream == old(self).stream,
            final(self).log_output == old(self).log_output,
            final(self).lines@ == old(self).lines@.push(line@),
            final(self).text@ == old(self).text@ + line@ + seq!['\n'],
            log is Some <==> old(self).log_output,
            log matches Some(l) ==> l@ == log_prefix(old(self).stream) + line@,
    {
        self.text.append(line);
        self.text.append("\n");
        proof {
            reveal_strlit("\n");
            assert(self.lines@.push(line@).drop_last() =~= self.lines@);
            assert("\n"@ =~= seq!['\n']);
            assert(joined_lines(self.lines@.push(line@)) == joined_lines(self.lines@) + line@ + seq!['\n']);
        }
        self.lines = Ghost(self.lines@.push(line@));
        if self.log_output {
            let mut l = match self.stream {
                OutputStream::Stdout => String::from_str("OUT | "),
                OutputStream::Stderr => String::from_str("ERR | "),
            };
            l.append(line);
            Some(l)
        } else {
            None
        }
    }
}

pub open spec fn has_no_line_feed(s: Seq<char>) -> bool {
    forall|i: int| 0 <= i < s.len() ==> s[i] != '\n'
}

proof fn lemma_split_append_plain(a: Seq<char>, b: Seq<char>)
    requires
        has_no_line_feed(b),
    ensures
        split_lines(a + b) == split_lines(a).update(
            split_lines(a).len() - 1,
            split_lines(a).last() + b,
        ),
        split_lines(a + b).len() == split_lines(a).len(),
    decreases b.len(),
{
    lemma_split_lines_nonempty(a);
    if b.len() == 0 {
        assert(a + b =~= a);
        let p = split_lines(a);
        assert(p.update(p.len() - 1, p.last() + b) =~= p);
    } else {
        let b0 = b.drop_last();
        lemma_split_append_plain(a, b0);
        assert((a + b).drop_last() =~= a + b0);
        let p = split_lines(a);
        let q = split_lines(a + b0);
        assert(q.last() =~= p.last() + b0);
        assert(q.last().push(b.last()) =~= p.last() + b);
        assert(q.update(q.len() - 1, q.last().push(b.last())) =~= p.update(p.len() - 1, p.last() + b));
    }
}

proof fn lemma_split_lines_nonempty(s: Seq<char>)
    ensures
        split_lines(s).len() >= 1,
    decreases s.len(),
{
    if s.len() > 0 {
        lemma_split_lines_nonempty(s.drop_last());
    }
}

/// What a capture holds reads back as exactly the lines it took, in order:
/// cutting its text at line feeds gives those lines and the empty rest after
/// the last line feed.
pub proof fn lemma_capture_round_trip(lines: Seq<Seq<char>>)
    requires
        forall|i: int| 0 <= i < lines.len() ==> has_no_line_feed(#[trigger] lines[i]),
    ensures
        split_lines(joined_lines(lines)) == lines.push(Seq::empty()),
    decreases lines.len(),
{
    if lines.len() == 0 {
        assert(split_lines(Seq::<char>::empty()) =~= lines.push(Seq::empty()));
    } else {
        let init = lines.drop_last();
        let l = lines.last();
        assert forall|i: int| 0 <= i < init.len() implies has_no_line_feed(#[trigger] init[i]) by {
            assert(init[i] == lines[i]);
        }
        lemma_capture_round_trip(init);
        let a = joined_lines(init);
        assert(has_no_line_feed(lines[lines.len() - 1]));
        lemma_split_append_plain(a, l);
        let full = a + l + seq!['\n'];
        assert(joined_lines(lines) == full);
        assert(full.drop_last() =~= a + l);
        let p = split_lines(a);
        assert(p.update(p.len() - 1, p.last() + l) =~= lines);
    }
}

} // verus!
