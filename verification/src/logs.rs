//! The log lines kept for the web interface: a ring buffer of the most
//! recent lines, and how an event's fields become a line.

use std::collections::VecDeque;

use vstd::prelude::*;

use crate::text::{push_str, str_chars, str_eq, string_from_chars};

verus! {

/// The most lines that the buffer keeps.
pub const MAX_LOG_LINES: usize = 500;

/// One captured log line.
#[derive(Debug, Clone)]
pub struct LogLine {
    pub timestamp: String,
    pub level: String,
    pub target: String,
    pub message: String,
}

impl LogLine {
    /// A copy of the line.
    pub fn duplicate(&self) -> (r: LogLine)
        ensures
            r == *self,
    {
        LogLine {
            timestamp: self.timestamp.clone(),
            level: self.level.clone(),
            target: self.target.clone(),
            message: self.message.clone(),
        }
    }
}

/// The levels of log events.
#[derive(Debug, Clone, Copy, PartialEq, Eq, Structural)]
pub enum LogLevel {
    Error,
    Warn,
    Info,
    Debug,
    Trace,
}

/// Whether events of the level are kept: `INFO` and above.
pub open spec fn is_captured(level: LogLevel) -> bool {
    match level {
        LogLevel::Error | LogLevel::Warn | LogLevel::Info => true,
        _ => false,
    }
}

/// The name of a level as it is shown.
pub open spec fn level_text(level: LogLevel) -> Seq<char> {
    match level {
        LogLevel::Error => "ERROR"@,
        LogLevel::Warn => "WARN"@,
        LogLevel::Info => "INFO"@,
        LogLevel::Debug => "DEBUG"@,
        LogLevel::Trace => "TRACE"@,
    }
}

pub fn captures_level(level: LogLevel) -> (r: bool)
    ensures
        r == is_captured(level),
{
    match level {
        LogLevel::Error | LogLevel::Warn | LogLevel::Info => true,
        _ => false,
    }
}

pub fn level_name(level: LogLevel) -> (r: &'static str)
    ensures
        r@ == level_text(level),
{
    match level {
        LogLevel::Error => "ERROR",
        LogLevel::Warn => "WARN",
        LogLevel::Info => "INFO",
        LogLevel::Debug => "DEBUG",
        LogLevel::Trace => "TRACE",
    }
}

/// The window of at most `MAX_LOG_LINES` lines that a buffer keeps after
/// `line` arrives.
pub open spec fn pushed(lines: Seq<LogLine>, line: LogLine) -> Seq<LogLine> {
    if lines.len() >= MAX_LOG_LINES {
        lines.drop_first().push(line)
    } else {
        lines.push(line)
    }
}

/// The last `MAX_LOG_LINES` lines of `s`.
pub open spec fn last_lines(s: Seq<LogLine>) -> Seq<LogLine> {
    if s.len() > MAX_LOG_LINES {
        s.subrange(s.len() - MAX_LOG_LINES, s.len() as int)
    } else {
        s
    }
}

/// The lines that a buffer holds after the lines of `s` arrive, one by one,
/// at an empty buffer.
pub open spec fn after_lines(s: Seq<LogLine>) -> Seq<LogLine>
    decreases s.len(),
{
    if s.len() == 0 {
        Seq::empty()
    } else {
        pushed(after_lines(s.drop_last()), s.last())
    }
}

/// A ring buffer of the most recent log lines, oldest first.
#[derive(Debug)]
pub struct LogBuffer {
    lines: VecDeque<LogLine>,
}

impl View for LogBuffer {
    type V = Seq<LogLine>;

    closed spec fn view(&self) -> Seq<LogLine> {
        self.lines@
    }
}

impl LogBuffer {
    #[verifier::type_invariant]
    spec fn holds_at_most_max(self) -> bool {
        self.lines@.len() <= MAX_LOG_LINES
    }

    /// An empty buffer.
    pub fn new() -> (r: LogBuffer)
        ensures
            r@ == Seq::<LogLine>::empty(),
    {
        LogBuffer { lines: VecDeque::new() }
    }

    /// Adds a line, dropping the oldest where the buffer is full.
    pub fn push(&mut self, line: LogLine)
        ensures
            final(self)@ == pushed(old(self)@, line),
            final(self)@.len() <= MAX_LOG_LINES,
    {
        proof {
            use_type_invariant(&*self);
        }
        let mut lines: VecDeque<LogLine> = VecDeque::new();
        std::mem::swap(&mut lines, &mut self.lines);
        if lines.len() >= MAX_LOG_LINES {
            let _ = lines.pop_front();
        }
        lines.push_back(line);
        self.lines = lines;
    }

    /// The buffered lines, oldest first.
    pub fn get_all(&self) -> (r: Vec<LogLine>)
        ensures
            r@ == self@,
    {
        let mut out: Vec<LogLine> = Vec::new();
        let mut i: usize = 0;
        while i < self.lines.len()
            invariant
                i <= self.lines@.len(),
                out@ == self.lines@.take(i as int),
            decreases self.lines@.len() - i,
        {
            out.push(self.lines[i].duplicate());
            i += 1;
            assert(out@ =~= self.lines@.take(i as int));
        }
        assert(self.lines@.take(self.lines@.len() as int) =~= self.lines@);
        out
    }

    /// Keeps an event of the given level as a line, where the level is
    /// captured; reports whether it was.
    pub fn capture(&mut self, level: LogLevel, target: &str, message: &str, timestamp: &str) -> (r: bool)
        ensures
            r == is_captured(level),
            r ==> final(self)@ == pushed(
                old(self)@,
                final(self)@.last(),
            ) && final(self)@.last().level@ == level_text(level) && final(self)@.last().target@
                == target@ && final(self)@.last().message@ == message@ && final(self)@.last().timestamp@
                == timestamp@,
            !r ==> final(self)@ == old(self)@,
    {
        if !captures_level(level) {
            return false;
        }
        let line = LogLine {
            timestamp: timestamp.to_owned(),
            level: level_name(level).to_owned(),
            target: target.to_owned(),
            message: message.to_owned(),
        };
        self.push(line);
        true
    }
}

/// A buffer fed any lines holds the most recent `MAX_LOG_LINES` of them, in
/// the order they arrived.
pub proof fn lemma_buffer_keeps_last_lines(s: Seq<LogLine>)
    ensures
        after_lines(s) == last_lines(s),
    decreases s.len(),
{
    if s.len() > 0 {
        let t = s.drop_last();
        lemma_buffer_keeps_last_lines(t);
        if t.len() >= MAX_LOG_LINES {
            assert(last_lines(t).drop_first().push(s.last()) =~= last_lines(s));
        } else {
            assert(last_lines(t).push(s.last()) =~= last_lines(s));
        }
    }
}

/// The text of one field of an event: a space, the name, `=`, the value.
pub open spec fn field_text(f: (String, String)) -> Seq<char> {
    " "@ + f.0@ + "="@ + f.1@
}

/// The fields of an event after its message.
pub open spec fn fields_text(fields: Seq<(String, String)>) -> Seq<char>
    decreases fields.len(),
{
    if fields.len() == 0 {
        Seq::empty()
    } else {
        fields_text(fields.drop_last()) + field_text(fields.last())
    }
}

/// Collects the fields of a log event: the `message` field apart, the
/// others by name, in order.
#[derive(Debug)]
pub struct MessageVisitor {
    pub message: String,
    pub fields: Vec<(String, String)>,
}

impl MessageVisitor {
    /// A visitor that has seen no field.
    pub fn new() -> (r: MessageVisitor)
        ensures
            r.message@ == Seq::<char>::empty(),
            r.fields@.len() == 0,
    {
        MessageVisitor { message: String::new(), fields: Vec::new() }
    }

    /// Takes one field: `message` replaces the message, any other is added
    /// to the fields.
    pub fn record(&mut self, name: &str, value: String)
        ensures
            name@ == "message"@ ==> final(self).message == value && final(self).fields
                == old(self).fields,
            name@ != "message"@ ==> final(self).message == old(self).message && final(self).fields@.len()
                == old(self).fields@.len() + 1 && final(self).fields@.drop_last()
                == old(self).fields@ && final(self).fields@.last().0@ == name@
                && final(self).fields@.last().1 == value,
    {
        if str_eq(name, "message") {
            self.message = value;
        } else {
            self.fields.push((name.to_owned(), value));
        }
    }

    /// The text of the event: the message, then ` name=value` for each other
    /// field.
    pub fn text(&self) -> (r: String)
        ensures
            r@ == self.message@ + fields_text(self.fields@),
    {
        let mut m = str_chars(self.message.as_str());
        let mut i: usize = 0;
        while i < self.fields.len()
            invariant
                i <= self.fields@.len(),
                m@ == self.message@ + fields_text(self.fields@.subrange(0, i as int)),
            decreases self.fields@.len() - i,
        {
            assert(self.fields@.subrange(0, i + 1).drop_last() =~= self.fields@.subrange(0, i as int));
            push_str(&mut m, " ");
            push_str(&mut m, self.fields[i].0.as_str());
            push_str(&mut m, "=");
            push_str(&mut m, self.fields[i].1.as_str());
            i += 1;
        }
        assert(self.fields@.subrange(0, self.fields@.len() as int) =~= self.fields@);
        string_from_chars(m.as_slice())
    }
}

} // verus!
