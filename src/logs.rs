use vstd::prelude::*;

use crate::circular_buffer::{appended, CircularBuffer};

verus! {

/// Severity of a log message.
#[derive(Debug, Clone, Copy, PartialEq, Eq, Structural)]
pub enum LogLevel {
    Info,
    Warning,
    Error,
}

/// The marker printed before a message of level `l`.
pub open spec fn level_tag(l: LogLevel) -> Seq<char> {
    match l {
        LogLevel::Info => "[Info]: "@,
        LogLevel::Warning => "[Warning]: "@,
        LogLevel::Error => "[Error]: "@,
    }
}

impl LogLevel {
    /// The marker printed before a message of this level.
    pub fn tag(&self) -> (r: &'static str)
        ensures
            r@ == level_tag(*self),
    {
        match self {
            LogLevel::Info => "[Info]: ",
            LogLevel::Warning => "[Warning]: ",
            LogLevel::Error => "[Error]: ",
        }
    }
}

/// A message with its level; immutable once built.
#[derive(Debug)]
pub struct LogMessage {
    log_level: LogLevel,
    message: String,
}

impl View for LogMessage {
    type V = (LogLevel, Seq<char>);

    closed spec fn view(&self) -> (LogLevel, Seq<char>) {
        (self.log_level, self.message@)
    }
}

impl LogMessage {
    pub fn new(log_level: LogLevel, message: &str) -> (r: Self)
        ensures
            r@ == (log_level, message@),
    {
        LogMessage { log_level, message: message.to_owned() }
    }
}

/// One display line: the level, whose marker goes first, and the message text.
#[derive(Debug)]
pub struct LogLine {
    pub level: LogLevel,
    pub text: String,
}

impl View for LogLine {
    type V = (LogLevel, Seq<char>);

    open spec fn view(&self) -> (LogLevel, Seq<char>) {
        (self.level, self.text@)
    }
}

/// The most recent log messages, oldest first, bounded by the buffer's capacity.
#[derive(Debug)]
pub struct Logs {
    circular_buffer: CircularBuffer<LogMessage>,
}

impl View for Logs {
    type V = Seq<(LogLevel, Seq<char>)>;

    closed spec fn view(&self) -> Seq<(LogLevel, Seq<char>)> {
        self.circular_buffer@.map_values(|m: LogMessage| m@)
    }
}

impl Logs {
    /// The underlying buffer is well formed.
    pub closed spec fn wf(&self) -> bool {
        self.circular_buffer.wf()
    }

    /// The capacity of the underlying buffer.
    pub closed spec fn cap(&self) -> nat {
        self.circular_buffer.cap()
    }

    /// Wraps `circular_buffer`; its messages become the log, oldest first.
    pub fn new(circular_buffer: CircularBuffer<LogMessage>) -> (r: Self)
        requires
            circular_buffer.wf(),
        ensures
            r.wf(),
            r@ == circular_buffer@.map_values(|m: LogMessage| m@),
            r.cap() == circular_buffer.cap(),
    {
        Logs { circular_buffer }
    }

    /// Records `element` as the newest message, dropping the oldest once full.
    pub fn append(&mut self, element: LogMessage)
        requires
            old(self).wf(),
        ensures
            final(self).wf(),
            final(self).cap() == old(self).cap(),
            final(self)@ == appended(old(self)@, old(self).cap(), element@),
    {
        let ghost m = self.circular_buffer@;
        self.circular_buffer.append(element);
        proof {
            let c = old(self).cap();
            let f = |m: LogMessage| m@;
            assert(m.push(element).map_values(f) =~= old(self)@.push(element@));
            if m.len() + 1 > c {
                assert(m.push(element).subrange(m.len() + 1 - c, m.len() + 1 as int).map_values(f)
                    =~= old(self)@.push(element@).subrange(m.len() + 1 - c, m.len() + 1 as int));
            }
            assert(self@ =~= appended(old(self)@, c, element@));
        }
    }

    /// Number of messages held.
    pub fn len(&self) -> (r: usize)
        requires
            self.wf(),
        ensures
            r == self@.len(),
            r <= self.cap(),
    {
        self.circular_buffer.len()
    }

    /// The messages as display lines, oldest first; reads and changes nothing
    /// else, so two calls with no append between them give the same lines.
    pub fn render_lines(&self) -> (r: Vec<LogLine>)
        requires
            self.wf(),
        ensures
            r@.map_values(|l: LogLine| l@) == self@,
    {
        let mut result: Vec<LogLine> = Vec::with_capacity(self.circular_buffer.len());
        let mut it = self.circular_buffer.iter();
        let ghost all = self.circular_buffer@;
        loop
            invariant
                it.wf(),
                it.buffer() == &self.circular_buffer,
                all == self.circular_buffer@,
                it.rest().len() <= all.len(),
                it.rest() == all.subrange(all.len() - it.rest().len(), all.len() as int),
                result@.len() == all.len() - it.rest().len(),
                forall|i: int| 0 <= i < result@.len() ==> #[trigger] result@[i]@ == all[i]@,
            ensures
                result@.len() == all.len(),
                forall|i: int| 0 <= i < result@.len() ==> #[trigger] result@[i]@ == all[i]@,
            decreases it.rest().len(),
        {
            let ghost before = it.rest();
            let next = it.next();
            match next {
                None => {
                    break;
                },
                Some(m) => {
                    proof {
                        assert(all[result@.len() as int] == before[0]);
                    }
                    result.push(LogLine { level: m.log_level, text: m.message.clone() });
                    proof {
                        assert(it.rest() =~= all.subrange(
                            all.len() - it.rest().len(),
                            all.len() as int,
                        ));
                    }
                },
            }
        }
        let ghost lines = result@.map_values(|l: LogLine| l@);
        assert forall|i: int| 0 <= i < lines.len() implies #[trigger] lines[i] == self@[i] by {
            assert(result@[i]@ == all[i]@);
        }
        assert(lines =~= self@);
        result
    }
}

impl Default for Logs {
    /// An empty log of the default capacity.
    fn default() -> (r: Self)
        ensures
            r.wf(),
            r@ == Seq::<(LogLevel, Seq<char>)>::empty(),
            r.cap() == crate::circular_buffer::DEFAULT_CAPACITY,
    {
        let r = Logs { circular_buffer: CircularBuffer::default() };
        assert(r@ =~= Seq::<(LogLevel, Seq<char>)>::empty());
        r
    }
}

} // verus!
