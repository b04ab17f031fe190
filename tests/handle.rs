use runnable::handle::{Event, Handle};
use runnable::output::{PendingOutput, Stream};
use runnable::status::{ExitStatus, RunError, RunnableTerminated};

fn exited(code: i32) -> ExitStatus {
    ExitStatus { code: Some(code) }
}

#[test]
fn exit_status_success_only_on_zero() {
    assert!(exited(0).success());
    assert!(!exited(1).success());
    assert!(!ExitStatus { code: None }.success());
}

#[test]
fn normal_exit_without_capture_is_success_with_status() {
    for code in [0, 1, 127] {
        let mut h = Handle::new(None);
        h.finish(Ok(exited(code)));
        match h.result() {
            Some(Ok(r)) => {
                assert_eq!(r.status.unwrap(), exited(code));
                assert!(r.output.is_none());
            }
            _ => panic!("expected a process outcome"),
        }
    }
}

#[test]
fn launch_failure_is_distinct_from_failing_status() {
    let mut h = Handle::new(None);
    h.finish(Err(RunError { message: "no such file".to_string() }));
    match h.result() {
        Some(Ok(r)) => assert_eq!(r.status.unwrap_err().message, "no such file"),
        _ => panic!("expected a process outcome"),
    }
}

#[test]
fn single_line_on_stdout_then_exit_zero() {
    let mut out = PendingOutput::new();
    out.record_line(Stream::Stdout, b"a\n");
    out.close(Stream::Stdout);
    out.close(Stream::Stderr);
    let mut h = Handle::new(Some(out));
    h.finish(Ok(exited(0)));
    assert_eq!(h.full_output(), Some("a\n".to_string()));
    assert_eq!(h.subscribe(), Some(vec!["a\n".to_string()]));
    match h.result() {
        Some(Ok(r)) => {
            assert!(r.status.unwrap().success());
            assert_eq!(r.output.unwrap().full_output(), Some("a\n".to_string()));
        }
        _ => panic!("expected a process outcome"),
    }
}

#[test]
fn unterminated_last_segment_is_kept() {
    let mut out = PendingOutput::new();
    out.record_line(Stream::Stdout, b"partial");
    out.close(Stream::Stdout);
    out.close(Stream::Stderr);
    assert_eq!(out.full_output(), Some("partial".to_string()));
    assert_eq!(out.subscribe(), vec!["partial".to_string()]);
}

#[test]
fn cancel_of_sleeping_process_resolves_to_termination() {
    let mut h = Handle::new(None);
    assert!(h.result().is_none());
    h.cancel();
    assert!(h.is_resolved());
    assert!(matches!(h.result(), Some(Err(RunnableTerminated))));
    // the process's own exit, arriving later, is never reported
    h.finish(Ok(exited(0)));
    assert!(matches!(h.result(), Some(Err(RunnableTerminated))));
}

#[test]
fn result_is_none_until_resolved_then_stable() {
    let mut h = Handle::new(None);
    assert!(h.result().is_none());
    assert!(h.result().is_none());
    assert!(!h.is_resolved());
    h.step(Event::Exited(Ok(exited(3))));
    for _ in 0..3 {
        match h.result() {
            Some(Ok(r)) => assert_eq!(r.status.unwrap(), exited(3)),
            _ => panic!("expected a process outcome"),
        }
    }
    h.cancel();
    h.finish(Ok(exited(4)));
    match h.result() {
        Some(Ok(r)) => assert_eq!(r.status.unwrap(), exited(3)),
        _ => panic!("expected the first outcome"),
    }
}

#[test]
fn first_event_decides_for_every_observer() {
    let events = vec![
        Event::Exited(Ok(exited(2))),
        Event::Cancel,
        Event::Exited(Ok(exited(5))),
    ];
    let mut h = Handle::new(None);
    let mut seen = Vec::new();
    for e in events {
        h.step(e);
        seen.push(h.result());
    }
    for s in seen {
        match s {
            Some(Ok(r)) => assert_eq!(r.status.unwrap(), exited(2)),
            _ => panic!("every observer sees the first resolution"),
        }
    }
}

#[test]
fn capture_keeps_every_line_in_stream_order() {
    let mut out = PendingOutput::new();
    out.record_line(Stream::Stdout, b"o1\n");
    out.record_line(Stream::Stderr, b"e1\n");
    out.record_line(Stream::Stdout, b"o2\n");
    out.record_line(Stream::Stderr, b"e2\n");
    out.close(Stream::Stderr);
    assert_eq!(out.full_output(), None);
    out.close(Stream::Stdout);
    assert_eq!(out.full_output(), Some("o1\ne1\no2\ne2\n".to_string()));
    let lines = out.subscribe();
    assert_eq!(lines, vec!["o1\n", "e1\n", "o2\n", "e2\n"]);
    assert!(out.subscribe().is_empty());
}

#[test]
fn subscribers_share_one_channel() {
    let mut out = PendingOutput::new();
    out.record_line(Stream::Stdout, b"x\n");
    assert_eq!(out.subscribe(), vec!["x\n".to_string()]);
    out.record_line(Stream::Stderr, b"y\n");
    assert_eq!(out.subscribe(), vec!["y\n".to_string()]);
    assert!(!out.is_finished());
}

#[test]
fn invalid_bytes_are_decoded_lossily() {
    let mut out = PendingOutput::new();
    out.record_line(Stream::Stderr, b"a\xffb\n");
    out.push_line(Stream::Stdout, "plain".to_string());
    out.close(Stream::Stdout);
    out.close(Stream::Stderr);
    assert_eq!(out.full_output(), Some("a\u{FFFD}b\nplain".to_string()));
}

#[test]
fn empty_capture_has_empty_output() {
    let mut out = PendingOutput::new();
    assert_eq!(out.full_output(), None);
    out.close(Stream::Stdout);
    out.close(Stream::Stderr);
    assert!(out.is_finished());
    assert_eq!(out.full_output(), Some(String::new()));
}

#[test]
fn cancelled_handle_keeps_its_capture() {
    let mut h = Handle::new(Some(PendingOutput::new()));
    h.cancel();
    h.record_line(Stream::Stdout, b"late\n");
    h.close_stream(Stream::Stdout);
    h.close_stream(Stream::Stderr);
    assert!(matches!(h.result(), Some(Err(RunnableTerminated))));
    assert_eq!(h.full_output(), Some("late\n".to_string()));
}

#[test]
fn handle_without_capture_has_no_output() {
    let mut h = Handle::new(None);
    h.record_line(Stream::Stdout, b"ignored\n");
    assert_eq!(h.subscribe(), None);
    assert_eq!(h.full_output(), None);
}

#[test]
fn cloned_capture_is_equal() {
    let mut out = PendingOutput::new();
    out.record_line(Stream::Stdout, b"one\n");
    out.close(Stream::Stdout);
    out.close(Stream::Stderr);
    let mut copy = out.clone();
    assert_eq!(copy.full_output(), out.full_output());
    assert_eq!(copy.subscribe(), out.subscribe());
}
