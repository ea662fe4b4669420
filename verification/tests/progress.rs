use subburn::progress::{parse_progress_line, progress_event_for_line, worker_events, EventQueue,
    ProgressEvent};

#[test]
fn worker_stream_events_in_order() {
    let lines = vec![
        String::from("out_time_ms=1000000"),
        String::from("garbage"),
        String::from("out_time_ms=2500000"),
    ];
    let events = worker_events(&lines);
    assert_eq!(
        events,
        vec![ProgressEvent::Progress(1), ProgressEvent::Progress(2), ProgressEvent::Done]
    );
}

#[test]
fn done_is_last_and_unique() {
    let lines = vec![
        String::from("frame=10"),
        String::from("out_time_ms=3000000"),
        String::from("speed=1.0x"),
    ];
    let events = worker_events(&lines);
    assert_eq!(*events.last().unwrap(), ProgressEvent::Done);
    let dones = events.iter().filter(|e| **e == ProgressEvent::Done).count();
    assert_eq!(dones, 1);
}

#[test]
fn empty_stream_still_emits_done() {
    let events = worker_events(&Vec::new());
    assert_eq!(events, vec![ProgressEvent::Done]);
}

#[test]
fn parse_recognized_line() {
    assert_eq!(parse_progress_line("out_time_ms=1000000"), Some(1000000));
    assert_eq!(parse_progress_line("out_time_ms=0"), Some(0));
    assert_eq!(parse_progress_line("out_time_ms=2500000 \t"), Some(2500000));
}

#[test]
fn parse_rejects_malformed_lines() {
    assert_eq!(parse_progress_line("garbage"), None);
    assert_eq!(parse_progress_line("out_time_ms="), None);
    assert_eq!(parse_progress_line("out_time_ms=12a4"), None);
    assert_eq!(parse_progress_line("out_time_ms=-1"), None);
    assert_eq!(parse_progress_line("out_time_us=1000000"), None);
    assert_eq!(parse_progress_line("frame=42"), None);
    assert_eq!(parse_progress_line(""), None);
    assert_eq!(parse_progress_line("out_time_ms=99999999999999999999999"), None);
}

#[test]
fn truncating_division_to_seconds() {
    assert_eq!(
        progress_event_for_line("out_time_ms=2500000"),
        Some(ProgressEvent::Progress(2))
    );
    assert_eq!(
        progress_event_for_line("out_time_ms=999999"),
        Some(ProgressEvent::Progress(0))
    );
    assert_eq!(progress_event_for_line("garbage"), None);
}

#[test]
fn queue_is_fifo_and_loses_nothing() {
    let mut q = EventQueue::new();
    q.send(ProgressEvent::Progress(1));
    q.send(ProgressEvent::Progress(2));
    q.send(ProgressEvent::Done);
    assert_eq!(q.len(), 3);
    assert_eq!(q.poll(), Some(ProgressEvent::Progress(1)));
    assert_eq!(q.poll(), Some(ProgressEvent::Progress(2)));
    assert_eq!(q.poll(), Some(ProgressEvent::Done));
    assert_eq!(q.poll(), None);
}
