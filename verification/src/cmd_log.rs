//! The log of commands that the web page shows: commands it sent and
//! commands it received from the board, with the time of each.
use vstd::prelude::*;
use crate::cmd::Cmd;

verus! {

/// One line of the log: when, whether the page sent it (rather than
/// received it), and the command.
#[derive(Debug, Clone, Copy, PartialEq, Eq, Structural)]
pub struct LogEntry {
    /// The time of the event, in nanoseconds since the Unix epoch.
    pub stamp: i64,
    pub sent: bool,
    pub cmd: Cmd,
}

/// What happens to the log: the page sends a command, receives one, or the
/// user clears the log.
#[derive(Debug, Clone, Copy, PartialEq, Eq, Structural)]
pub enum LogEvent {
    Sent(i64, Cmd),
    Received(i64, Cmd),
    Clear,
}

/// The entry that a send or a receive adds.
pub open spec fn event_entry(ev: LogEvent) -> LogEntry {
    match ev {
        LogEvent::Sent(stamp, cmd) => LogEntry { stamp, sent: true, cmd },
        LogEvent::Received(stamp, cmd) => LogEntry { stamp, sent: false, cmd },
        LogEvent::Clear => LogEntry { stamp: 0, sent: false, cmd: Cmd::Hello },
    }
}

/// The log after one event: a send or a receive appends its entry, a clear
/// empties the log.
pub open spec fn log_step(log: Seq<LogEntry>, ev: LogEvent) -> Seq<LogEntry> {
    match ev {
        LogEvent::Clear => Seq::empty(),
        _ => log.push(event_entry(ev)),
    }
}

/// The log after a run of events, in order.
pub open spec fn log_run(log: Seq<LogEntry>, evs: Seq<LogEvent>) -> Seq<LogEntry>
    decreases evs.len(),
{
    if evs.len() == 0 {
        log
    } else {
        log_run(log_step(log, evs[0]), evs.drop_first())
    }
}

/// Between two clears the log only grows by appending: after events that
/// hold no clear, the log is what it was followed by one entry per event, in
/// order, an entry flagged as sent exactly for each command sent.
pub proof fn lemma_log_appends_between_clears(log: Seq<LogEntry>, evs: Seq<LogEvent>)
    requires
        forall|i: int| 0 <= i < evs.len() ==> #[trigger] evs[i] != LogEvent::Clear,
    ensures
        log_run(log, evs) == log + evs.map_values(|ev: LogEvent| event_entry(ev)),
        log_run(log, evs).len() == log.len() + evs.len(),
        forall|i: int|
            0 <= i < evs.len() ==> (#[trigger] log_run(log, evs)[log.len() + i]).sent
                == evs[i] is Sent,
    decreases evs.len(),
{
    let entries = evs.map_values(|ev: LogEvent| event_entry(ev));
    if evs.len() == 0 {
        assert(log + entries =~= log);
    } else {
        assert(evs[0] != LogEvent::Clear);
        let rest = evs.drop_first();
        assert forall|i: int| 0 <= i < rest.len() implies #[trigger] rest[i] != LogEvent::Clear by {
            assert(rest[i] == evs[i + 1]);
        }
        lemma_log_appends_between_clears(log_step(log, evs[0]), rest);
        assert(log_step(log, evs[0]) == log.push(event_entry(evs[0])));
        assert(log.push(event_entry(evs[0])) + rest.map_values(|ev: LogEvent| event_entry(ev))
            =~= log + entries);
    }
}

/// The command log, oldest entry first.
pub struct CmdLog {
    entries: Vec<LogEntry>,
}

impl View for CmdLog {
    type V = Seq<LogEntry>;

    closed spec fn view(&self) -> Seq<LogEntry> {
        self.entries@
    }
}

impl CmdLog {
    /// An empty log.
    pub fn new() -> (res: CmdLog)
        ensures
            res@ == Seq::<LogEntry>::empty(),
    {
        CmdLog { entries: Vec::new() }
    }

    /// Records a command that the page sent, at time `stamp`.
    pub fn record_sent(&mut self, stamp: i64, cmd: Cmd)
        ensures
            final(self)@ == old(self)@.push(LogEntry { stamp, sent: true, cmd }),
            final(self)@ == log_step(old(self)@, LogEvent::Sent(stamp, cmd)),
    {
        self.entries.push(LogEntry { stamp, sent: true, cmd });
    }

    /// Records a command received from the board, at time `stamp`.
    pub fn record_received(&mut self, stamp: i64, cmd: Cmd)
        ensures
            final(self)@ == old(self)@.push(LogEntry { stamp, sent: false, cmd }),
            final(self)@ == log_step(old(self)@, LogEvent::Received(stamp, cmd)),
    {
        self.entries.push(LogEntry { stamp, sent: false, cmd });
    }

    /// Empties the log.
    pub fn clear(&mut self)
        ensures
            final(self)@ == Seq::<LogEntry>::empty(),
            final(self)@ == log_step(old(self)@, LogEvent::Clear),
    {
        self.entries.clear();
    }

    /// The entries, oldest first.
    pub fn entries(&self) -> (res: &[LogEntry])
        ensures
            res@ == self@,
    {
        self.entries.as_slice()
    }
}

/// What the two command columns of a log line show: the "Received" column
/// shows the command of a received entry, the "Sent" column that of a sent
/// one.
pub fn log_columns(entry: &LogEntry) -> (res: (Option<Cmd>, Option<Cmd>))
    ensures
        res == (if entry.sent {
            (None::<Cmd>, Some(entry.cmd))
        } else {
            (Some(entry.cmd), None::<Cmd>)
        }),
{
    if entry.sent {
        (None, Some(entry.cmd))
    } else {
        (Some(entry.cmd), None)
    }
}

} // verus!
