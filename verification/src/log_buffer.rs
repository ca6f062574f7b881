//! The ring of recent log lines kept for display.

use std::collections::VecDeque;
use vstd::prelude::*;
use vstd::string::*;

verus! {

/// Most entries that the buffer keeps.
pub const LOG_BUFFER_CAP: usize = 200;

/// Severity of a log entry.
#[derive(Debug, Clone, Copy, PartialEq, Eq, Structural)]
pub enum Level {
    Error,
    Warn,
    Info,
    Debug,
    Trace,
}

/// One log entry.
#[derive(Debug, Clone)]
pub struct LogEntry {
    pub timestamp: String,
    pub level: Level,
    pub target: String,
    pub message: String,
}

/// The label of a level, five chars wide.
pub open spec fn level_text(level: Level) -> Seq<char> {
    match level {
        Level::Error => "ERROR"@,
        Level::Warn => "WARN "@,
        Level::Info => "INFO "@,
        Level::Debug => "DEBUG"@,
        Level::Trace => "TRACE"@,
    }
}

/// The display line of an entry: time, level, message.
pub open spec fn entry_text(timestamp: Seq<char>, level: Level, message: Seq<char>) -> Seq<char> {
    timestamp + " "@ + level_text(level) + " "@ + message
}

/// The buffer after an entry is pushed: the oldest entry leaves where the
/// buffer is full.
pub open spec fn after_push(entries: Seq<LogEntry>, entry: LogEntry) -> Seq<LogEntry> {
    if entries.len() >= LOG_BUFFER_CAP {
        entries.drop_first().push(entry)
    } else {
        entries.push(entry)
    }
}

impl LogEntry {
    /// The display line: `HH:MM:SS LEVEL message`.
    pub fn format_short(&self) -> (line: String)
        ensures
            line@ == entry_text(self.timestamp@, self.level, self.message@),
    {
        let lvl = match self.level {
            Level::Error => "ERROR",
            Level::Warn => "WARN ",
            Level::Info => "INFO ",
            Level::Debug => "DEBUG",
            Level::Trace => "TRACE",
        };
        let mut line = self.timestamp.clone();
        line.append(" ");
        line.append(lvl);
        line.append(" ");
        line.append(self.message.as_str());
        line
    }

    /// A copy of the entry.
    pub fn duplicate(&self) -> (e: Self)
        ensures
            e == *self,
    {
        LogEntry {
            timestamp: self.timestamp.clone(),
            level: self.level,
            target: self.target.clone(),
            message: self.message.clone(),
        }
    }
}

/// The buffer of recent log entries, oldest first.
pub struct TuiLogBuffer {
    entries: VecDeque<LogEntry>,
}

impl View for TuiLogBuffer {
    type V = Seq<LogEntry>;

    closed spec fn view(&self) -> Seq<LogEntry> {
        self.entries@
    }
}

impl TuiLogBuffer {
    /// The buffer never holds more than its cap.
    pub open spec fn wf(&self) -> bool {
        self@.len() <= LOG_BUFFER_CAP
    }

    /// An empty buffer.
    pub fn new() -> (b: Self)
        ensures
            b@.len() == 0,
            b.wf(),
    {
        TuiLogBuffer { entries: VecDeque::new() }
    }

    /// Appends an entry; the oldest entry leaves where the buffer is full.
    pub fn push(&mut self, entry: LogEntry)
        requires
            old(self).wf(),
        ensures
            final(self).wf(),
            final(self)@ == after_push(old(self)@, entry),
    {
        if self.entries.len() >= LOG_BUFFER_CAP {
            self.entries.pop_front();
        }
        self.entries.push_back(entry);
    }

    /// A copy of the entries, oldest first.
    pub fn get_entries(&self) -> (v: Vec<LogEntry>)
        ensures
            v@ == self@,
    {
        let mut v: Vec<LogEntry> = Vec::new();
        let mut i: usize = 0;
        while i < self.entries.len()
            invariant
                0 <= i <= self.entries@.len(),
                v@ == self.entries@.subrange(0, i as int),
            decreases self.entries@.len() - i,
        {
            v.push(self.entries[i].duplicate());
            proof {
                assert(v@ =~= self.entries@.subrange(0, i + 1));
            }
            i = i + 1;
        }
        proof {
            assert(self.entries@.subrange(0, i as int) =~= self.entries@);
        }
        v
    }

    /// The entries that fit into `visible` lines: the newest ones.
    pub fn get_visible(&self, visible: usize) -> (v: Vec<LogEntry>)
        ensures
            v@ == self@.subrange(
                if self@.len() > visible {
                    self@.len() - visible
                } else {
                    0
                },
                self@.len() as int,
            ),
    {
        let n = self.entries.len();
        let skip = if n > visible {
            n - visible
        } else {
            0
        };
        let mut v: Vec<LogEntry> = Vec::new();
        let mut i: usize = skip;
        while i < n
            invariant
                skip <= i <= n,
                n == self.entries@.len(),
                v@ == self.entries@.subrange(skip as int, i as int),
            decreases n - i,
        {
            v.push(self.entries[i].duplicate());
            proof {
                assert(v@ =~= self.entries@.subrange(skip as int, i + 1));
            }
            i = i + 1;
        }
        v
    }
}

} // verus!
