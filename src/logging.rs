use vstd::prelude::*;

use crate::errors::CustomError;
use crate::text::{push_signed_decimal, signed_decimal};

verus! {

/// Where the log file lives and how long it may grow before it is rolled.
#[derive(Debug, Clone, PartialEq, Eq)]
pub struct LoggingConfiguration {
    pub max_length: u64,
    pub file_path: String,
}

/// The file destination's bookkeeping: its configuration and the number of
/// bytes written to the live file, as counted by the sink itself.
#[derive(Debug)]
pub struct FileAppender {
    pub config: LoggingConfiguration,
    pub file_length: u64,
}

/// Whether a write must first roll the file: the counted length has reached the maximum.
pub open spec fn must_roll(file_length: int, max_length: int) -> bool {
    file_length >= max_length
}

/// The counted length after a write of `written` bytes.
pub open spec fn length_after_write(file_length: int, max_length: int, written: int) -> int {
    let base = if must_roll(file_length, max_length) { 0 } else { file_length };
    if base + written > u64::MAX { u64::MAX as int } else { base + written }
}

impl FileAppender {
    /// The bookkeeping of a live file that already holds `file_length` bytes.
    pub fn new(config: LoggingConfiguration, file_length: u64) -> (r: FileAppender)
        ensures
            r.config == config,
            r.file_length == file_length,
    {
        FileAppender { config, file_length }
    }

    /// Asked before each write: whether the file must be rolled first.
    pub fn must_roll(&self) -> (roll: bool)
        ensures
            roll == must_roll(self.file_length as int, self.config.max_length as int),
    {
        self.file_length >= self.config.max_length
    }

    /// Called once the roll has succeeded: the fresh file is empty.
    pub fn rolled(&mut self)
        ensures
            final(self).config == old(self).config,
            final(self).file_length == 0,
    {
        self.file_length = 0;
    }

    /// Called after a successful write of `written` bytes.
    pub fn record_write(&mut self, written: u64)
        ensures
            final(self).config == old(self).config,
            final(self).file_length == if old(self).file_length + written > u64::MAX {
                u64::MAX as int
            } else {
                old(self).file_length + written
            },
    {
        self.file_length = self.file_length.saturating_add(written);
    }
}

/// One write, as the file destination counts it: the write that finds the
/// maximum reached rolls the file once, and the fresh file's counted length
/// is then that write's length; a write that finds it not reached adds to
/// the count; and a write shorter than the maximum that followed a roll does
/// not roll again.
pub proof fn lemma_rotation_per_crossing(file_length: u64, max_length: u64, written: u64)
    ensures
        must_roll(file_length as int, max_length as int) ==> length_after_write(
            file_length as int,
            max_length as int,
            written as int,
        ) == written,
        !must_roll(file_length as int, max_length as int) ==> length_after_write(
            file_length as int,
            max_length as int,
            written as int,
        ) == if file_length + written > u64::MAX { u64::MAX as int } else { file_length + written },
        must_roll(file_length as int, max_length as int) && written < max_length ==> !must_roll(
            length_after_write(file_length as int, max_length as int, written as int),
            max_length as int,
        ),
{
}

/// The write path of one line when the roll and the write succeed:
/// `must_roll`, `rolled` if so, the write, `record_write`.
pub fn write_step(appender: &mut FileAppender, written: u64) -> (roll: bool)
    ensures
        roll == must_roll(old(appender).file_length as int, old(appender).config.max_length as int),
        final(appender).config == old(appender).config,
        final(appender).file_length == length_after_write(
            old(appender).file_length as int,
            old(appender).config.max_length as int,
            written as int,
        ),
{
    let roll = appender.must_roll();
    if roll {
        appender.rolled();
    }
    appender.record_write(written);
    roll
}

/// The console destination.
#[derive(Debug, Clone, Copy, PartialEq, Eq)]
pub struct ConsoleAppender;

impl ConsoleAppender {
    pub fn new() -> (r: ConsoleAppender)
        ensures
            r == ConsoleAppender,
    {
        ConsoleAppender
    }
}

/// The in-memory destination: every raw message of the run, in order.
#[derive(Debug, Clone)]
pub struct InMemoryAppender {
    pub entries: Vec<String>,
}

pub open spec fn texts(v: Seq<String>) -> Seq<Seq<char>> {
    v.map_values(|s: String| s@)
}

impl InMemoryAppender {
    pub fn new() -> (r: InMemoryAppender)
        ensures
            r.entries@.len() == 0,
    {
        InMemoryAppender { entries: Vec::new() }
    }

    /// Keeps one more message.
    pub fn add_entry(&mut self, message: &str)
        ensures
            texts(final(self).entries@) == texts(old(self).entries@).push(message@),
    {
        self.entries.push(String::from_str(message));
        assert(texts(self.entries@) =~= texts(old(self).entries@).push(message@));
    }

    /// A copy of every message kept so far.
    pub fn get_logs(&self) -> (r: Vec<String>)
        ensures
            texts(r@) == texts(self.entries@),
    {
        let mut r: Vec<String> = Vec::new();
        let mut i: usize = 0;
        while i < self.entries.len()
            invariant
                i <= self.entries.len(),
                texts(r@) == texts(self.entries@).take(i as int),
            decreases self.entries.len() - i,
        {
            let c = self.entries[i].clone();
            let ghost before = texts(r@);
            r.push(c);
            assert(texts(r@) =~= before.push(c@));
            i = i + 1;
            assert(texts(r@) =~= texts(self.entries@).take(i as int));
        }
        assert(texts(self.entries@).take(i as int) =~= texts(self.entries@));
        r
    }
}

pub open spec fn log_line(timestamp: Seq<char>, message: Seq<char>) -> Seq<char> {
    timestamp + " | "@ + message
}

/// The line the console and file destinations receive: time, then message.
pub fn format_message(timestamp: &str, message: &str) -> (r: String)
    ensures
        r@ == log_line(timestamp@, message@),
{
    let mut s = String::from_str(timestamp);
    s.append(" | ");
    s.append(message);
    s
}

/// The outcome of a log call whose three destination writes were all
/// attempted: success when all succeeded, else the file's failure first,
/// then the console's, then the memory's.
pub fn log_outcome(
    console: Result<(), CustomError>,
    memory: Result<(), CustomError>,
    file: Result<(), CustomError>,
) -> (r: Result<(), CustomError>)
    ensures
        file is Err ==> r == file,
        file is Ok && console is Err ==> r == console,
        file is Ok && console is Ok ==> r == memory,
{
    match file {
        Err(e) => Err(e),
        Ok(()) => match console {
            Err(e) => Err(e),
            Ok(()) => memory,
        },
    }
}

/// What the console and file destinations are to receive for one log call.
#[derive(Debug, Clone, PartialEq, Eq)]
pub struct LogWrite {
    pub line: String,
    pub to_stderr: bool,
}

/// The sink's own state: the file's bookkeeping and the in-memory history.
#[derive(Debug)]
pub struct Logger {
    pub file_appender: FileAppender,
    pub console_appender: ConsoleAppender,
    pub in_memory_appender: InMemoryAppender,
}

impl Logger {
    pub fn new(config: LoggingConfiguration, file_length: u64) -> (r: Logger)
        ensures
            r.file_appender.config == config,
            r.file_appender.file_length == file_length,
            r.in_memory_appender.entries@.len() == 0,
    {
        Logger {
            file_appender: FileAppender::new(config, file_length),
            console_appender: ConsoleAppender::new(),
            in_memory_appender: InMemoryAppender::new(),
        }
    }

    /// Logs `message` at the time given as text: the history keeps the raw
    /// message, and the timestamped line for the console (standard output)
    /// and the file is returned.
    pub fn log(&mut self, timestamp: &str, message: &str) -> (r: LogWrite)
        ensures
            texts(final(self).in_memory_appender.entries@) == texts(
                old(self).in_memory_appender.entries@,
            ).push(message@),
            final(self).file_appender == old(self).file_appender,
            r.line@ == log_line(timestamp@, message@),
            !r.to_stderr,
    {
        self.in_memory_appender.add_entry(message);
        LogWrite { line: format_message(timestamp, message), to_stderr: false }
    }

    /// As `log`, with the console line going to standard error.
    pub fn elog(&mut self, timestamp: &str, message: &str) -> (r: LogWrite)
        ensures
            texts(final(self).in_memory_appender.entries@) == texts(
                old(self).in_memory_appender.entries@,
            ).push(message@),
            final(self).file_appender == old(self).file_appender,
            r.line@ == log_line(timestamp@, message@),
            r.to_stderr,
    {
        self.in_memory_appender.add_entry(message);
        LogWrite { line: format_message(timestamp, message), to_stderr: true }
    }

    /// Every raw message logged so far, in order.
    pub fn get_logs(&self) -> (r: Vec<String>)
        ensures
            texts(r@) == texts(self.in_memory_appender.entries@),
    {
        self.in_memory_appender.get_logs()
    }
}

/// The name a rolled log file is kept under: beside the live file, its stem,
/// the date and the nanosecond timestamp of the roll, its extension.
pub open spec fn rolled_name(
    directory: Seq<char>,
    file_stem: Seq<char>,
    formatted_date: Seq<char>,
    nanos: int,
    extension: Seq<char>,
) -> Seq<char> {
    directory + "/"@ + file_stem + "__"@ + formatted_date + signed_decimal(nanos) + "."@ + extension
}

pub fn rolled_file_name(directory: &str, file_stem: &str, formatted_date: &str, nanos: i64, extension: &str) -> (r: String)
    ensures
        r@ == rolled_name(directory@, file_stem@, formatted_date@, nanos as int, extension@),
{
    let mut s = String::from_str(directory);
    s.append("/");
    s.append(file_stem);
    s.append("__");
    s.append(formatted_date);
    push_signed_decimal(&mut s, nanos);
    s.append(".");
    s.append(extension);
    s
}

} // verus!
