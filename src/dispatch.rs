use vstd::prelude::*;
use vstd::string::*;

use crate::channel::{enqueue_model, BoundedQueue, EnqueueOutcome, QueueModel, has_room};
use crate::severity::{admits, passes, Severity};

verus! {

/// One event as the application emits it.
pub struct LogRecord {
    pub severity: Severity,
    /// When the event happened, already rendered as text.
    pub time: String,
    /// Where the event comes from (a module path).
    pub target: String,
    pub message: String,
}

/// The severity as it stands in a line: five characters, right-aligned.
pub open spec fn label(s: Severity) -> Seq<char> {
    match s {
        Severity::Trace => "TRACE"@,
        Severity::Debug => "DEBUG"@,
        Severity::Info => " INFO"@,
        Severity::Warn => " WARN"@,
        Severity::Error => "ERROR"@,
    }
}

/// The ANSI escape that colours a severity on a terminal.
pub open spec fn color(s: Severity) -> Seq<char> {
    match s {
        Severity::Trace => "\u{1b}[35m"@,
        Severity::Debug => "\u{1b}[34m"@,
        Severity::Info => "\u{1b}[32m"@,
        Severity::Warn => "\u{1b}[33m"@,
        Severity::Error => "\u{1b}[31m"@,
    }
}

pub open spec fn reset() -> Seq<char> {
    "\u{1b}[0m"@
}

/// The line written for a record: time, severity (coloured when `ansi`),
/// target and message.
pub open spec fn format_line(r: LogRecord, ansi: bool) -> Seq<char> {
    let level = if ansi {
        color(r.severity) + label(r.severity) + reset()
    } else {
        label(r.severity)
    };
    r.time@ + " "@ + level + " "@ + r.target@ + ": "@ + r.message@ + "\n"@
}

fn level_label(s: Severity) -> (r: &'static str)
    ensures
        r@ == label(s),
{
    match s {
        Severity::Trace => "TRACE",
        Severity::Debug => "DEBUG",
        Severity::Info => " INFO",
        Severity::Warn => " WARN",
        Severity::Error => "ERROR",
    }
}

fn level_color(s: Severity) -> (r: &'static str)
    ensures
        r@ == color(s),
{
    match s {
        Severity::Trace => "\u{1b}[35m",
        Severity::Debug => "\u{1b}[34m",
        Severity::Info => "\u{1b}[32m",
        Severity::Warn => "\u{1b}[33m",
        Severity::Error => "\u{1b}[31m",
    }
}

/// Formats a record for a sink: with colours for a terminal, plain for a file.
pub fn format_record(record: &LogRecord, ansi: bool) -> (line: String)
    ensures
        line@ == format_line(*record, ansi),
{
    let mut line = String::from_str(record.time.as_str());
    line.append(" ");
    if ansi {
        line.append(level_color(record.severity));
        line.append(level_label(record.severity));
        line.append("\u{1b}[0m");
    } else {
        line.append(level_label(record.severity));
    }
    line.append(" ");
    line.append(record.target.as_str());
    line.append(": ");
    line.append(record.message.as_str());
    line.append("\n");
    assert(line@ =~= format_line(*record, ansi));
    line
}

/// What one sink's queue becomes when a record is dispatched to it.
pub open spec fn deliver_model(minimum: Severity, ansi: bool, q: QueueModel, r: LogRecord) -> QueueModel {
    if admits(minimum, r.severity) {
        enqueue_model(q, format_line(r, ansi))
    } else {
        q
    }
}

/// A sink: its severity gate, its formatting, and the queue its worker drains.
pub struct SinkBinding {
    pub minimum: Severity,
    /// Colour the severity (for a terminal).
    pub ansi: bool,
    pub queue: BoundedQueue,
}

impl SinkBinding {
    pub fn new(minimum: Severity, ansi: bool, capacity: usize) -> (b: SinkBinding)
        ensures
            b.minimum == minimum,
            b.ansi == ansi,
            b.queue.wf(),
            b.queue.model() == (QueueModel { items: Seq::empty(), capacity: capacity as nat, dropped: 0, closed: false }),
    {
        SinkBinding { minimum, ansi, queue: BoundedQueue::new(capacity) }
    }

    /// Filters, formats and enqueues one record; `None` when the filter
    /// drops it.
    pub fn deliver(&mut self, record: &LogRecord) -> (r: Option<EnqueueOutcome>)
        requires
            old(self).queue.wf(),
        ensures
            final(self).queue.wf(),
            final(self).minimum == old(self).minimum,
            final(self).ansi == old(self).ansi,
            final(self).queue.model() == deliver_model(
                old(self).minimum,
                old(self).ansi,
                old(self).queue.model(),
                *record,
            ),
            r == if !admits(old(self).minimum, record.severity) {
                None
            } else if has_room(old(self).queue.model()) {
                Some(EnqueueOutcome::Accepted)
            } else {
                Some(EnqueueOutcome::DroppedOverflow)
            },
    {
        if passes(self.minimum, record.severity) {
            let line = format_record(record, self.ansi);
            Some(self.queue.enqueue(line))
        } else {
            None
        }
    }
}

/// Routes every record to each of its sinks, independently.
pub struct Dispatcher {
    pub sinks: Vec<SinkBinding>,
}

impl Dispatcher {
    pub open spec fn wf(&self) -> bool {
        forall|i: int| 0 <= i < self.sinks@.len() ==> #[trigger] self.sinks@[i].queue.wf()
    }

    /// Hands `record` to every sink; the result gives each sink's outcome.
    pub fn dispatch(&mut self, record: &LogRecord) -> (outcomes: Vec<Option<EnqueueOutcome>>)
        requires
            old(self).wf(),
        ensures
            final(self).wf(),
            final(self).sinks@.len() == old(self).sinks@.len(),
            outcomes@.len() == old(self).sinks@.len(),
            forall|i: int|
                #![trigger final(self).sinks@[i]]
                0 <= i < old(self).sinks@.len() ==> {
                    let (a, b) = (old(self).sinks@[i], final(self).sinks@[i]);
                    &&& b.minimum == a.minimum
                    &&& b.ansi == a.ansi
                    &&& b.queue.model() == deliver_model(a.minimum, a.ansi, a.queue.model(), *record)
                    &&& outcomes@[i] == if !admits(a.minimum, record.severity) {
                        None
                    } else if has_room(a.queue.model()) {
                        Some(EnqueueOutcome::Accepted)
                    } else {
                        Some(EnqueueOutcome::DroppedOverflow)
                    }
                },
    {
        let n = self.sinks.len();
        let mut outcomes: Vec<Option<EnqueueOutcome>> = Vec::new();
        let mut i: usize = 0;
        while i < n
            invariant
                n == old(self).sinks@.len(),
                self.sinks@.len() == n,
                i <= n,
                outcomes@.len() == i,
                forall|j: int| 0 <= j < n ==> #[trigger] self.sinks@[j].queue.wf(),
                forall|j: int| i <= j < n ==> #[trigger] self.sinks@[j] == old(self).sinks@[j],
                forall|j: int|
                    #![trigger self.sinks@[j]]
                    0 <= j < i ==> {
                        let (a, b) = (old(self).sinks@[j], self.sinks@[j]);
                        &&& b.minimum == a.minimum
                        &&& b.ansi == a.ansi
                        &&& b.queue.model() == deliver_model(a.minimum, a.ansi, a.queue.model(), *record)
                        &&& outcomes@[j] == if !admits(a.minimum, record.severity) {
                            None
                        } else if has_room(a.queue.model()) {
                            Some(EnqueueOutcome::Accepted)
                        } else {
                            Some(EnqueueOutcome::DroppedOverflow)
                        }
                    },
            decreases n - i,
        {
            let mut sink = self.sinks.remove(i);
            let outcome = sink.deliver(record);
            self.sinks.insert(i, sink);
            outcomes.push(outcome);
            proof {
                assert forall|j: int| 0 <= j < n implies #[trigger] self.sinks@[j].queue.wf() by {
                    if j != i {
                        assert(self.sinks@[j] == old(self).sinks@[j] || j < i);
                    }
                }
            }
            i = i + 1;
        }
        outcomes
    }
}

} // verus!
