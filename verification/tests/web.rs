use robots::cmd_log::{log_columns, CmdLog, LogEntry};
use robots::sse::sse_event;
use robots::Cmd;

#[test]
fn sse_event_text() {
    assert_eq!(sse_event("msg", "{\"Hue\":42}"), "event: msg\ndata: {\"Hue\":42}\n\n");
    assert_eq!(sse_event("", ""), "event: \ndata: \n\n");
}

#[test]
fn cmd_log_records_and_clears() {
    let mut log = CmdLog::new();
    assert!(log.entries().is_empty());
    log.record_sent(10, Cmd::Ping);
    log.record_received(20, Cmd::Pong);
    assert_eq!(
        log.entries(),
        &[
            LogEntry { stamp: 10, sent: true, cmd: Cmd::Ping },
            LogEntry { stamp: 20, sent: false, cmd: Cmd::Pong },
        ]
    );
    log.clear();
    assert!(log.entries().is_empty());
}

#[test]
fn log_columns_split_sent_and_received() {
    let sent = LogEntry { stamp: 1, sent: true, cmd: Cmd::Led(true) };
    let got = LogEntry { stamp: 2, sent: false, cmd: Cmd::Button };
    assert_eq!(log_columns(&sent), (None, Some(Cmd::Led(true))));
    assert_eq!(log_columns(&got), (Some(Cmd::Button), None));
}

#[test]
fn log_grows_between_clears() {
    let mut log = CmdLog::new();
    log.record_sent(1, Cmd::Hello);
    let before = log.entries().to_vec();
    log.record_received(2, Cmd::Button);
    log.record_sent(3, Cmd::Hue(5));
    assert_eq!(&log.entries()[..before.len()], &before[..]);
    let sent: Vec<Cmd> = log.entries().iter().filter(|e| e.sent).map(|e| e.cmd).collect();
    assert_eq!(sent, vec![Cmd::Hello, Cmd::Hue(5)]);
}
