use shoulders::listener::{
    classify_broadcast, decode_broadcast, done_event_name, listener_step, output_event_name,
    status_event_name, KernelEvent, ListenerInput, ListenerPhase, OutputPayload,
};

fn frames(header: &str, parent: &str, content: &str) -> Vec<String> {
    vec![
        String::from("some-topic"),
        String::from("<IDS|MSG>"),
        String::from(""),
        String::from(header),
        String::from(parent),
        String::from("{}"),
        String::from(content),
    ]
}

#[test]
fn stream_frame_yields_one_output_event() {
    let f = frames(
        "{\"msg_type\": \"stream\", \"msg_id\": \"m9\"}",
        "{\"msg_id\": \"abc\"}",
        "{\"name\": \"stdout\", \"text\": \"hello\"}",
    );
    let fields = decode_broadcast(&f).expect("decodable");
    assert_eq!(fields.msg_type, "stream");
    assert_eq!(fields.parent_msg_id, "abc");
    let events = classify_broadcast(fields);
    assert_eq!(events.len(), 1);
    assert_eq!(
        events[0],
        KernelEvent::Output {
            parent_msg_id: String::from("abc"),
            payload: OutputPayload::Stream {
                name: String::from("stdout"),
                text: String::from("hello"),
            },
        }
    );
}

#[test]
fn idle_with_parent_yields_exactly_one_completion() {
    let f = frames(
        "{\"msg_type\":\"status\"}",
        "{\"msg_id\":\"abc\"}",
        "{\"execution_state\":\"idle\"}",
    );
    let events = classify_broadcast(decode_broadcast(&f).unwrap());
    assert_eq!(events.len(), 2);
    assert_eq!(
        events[0],
        KernelEvent::Status {
            execution_state: String::from("idle")
        }
    );
    assert_eq!(
        events[1],
        KernelEvent::Done {
            parent_msg_id: String::from("abc")
        }
    );
    let done = events
        .iter()
        .filter(|e| matches!(e, KernelEvent::Done { .. }))
        .count();
    assert_eq!(done, 1);
}

#[test]
fn idle_without_parent_yields_no_completion() {
    let f = frames(
        "{\"msg_type\":\"status\"}",
        "{}",
        "{\"execution_state\":\"idle\"}",
    );
    let events = classify_broadcast(decode_broadcast(&f).unwrap());
    assert_eq!(events.len(), 1);
    assert!(matches!(events[0], KernelEvent::Status { .. }));
}

#[test]
fn busy_status_yields_status_only() {
    let f = frames(
        "{\"msg_type\":\"status\"}",
        "{\"msg_id\":\"abc\"}",
        "{\"execution_state\":\"busy\"}",
    );
    let events = classify_broadcast(decode_broadcast(&f).unwrap());
    assert_eq!(events.len(), 1);
    assert_eq!(
        events[0],
        KernelEvent::Status {
            execution_state: String::from("busy")
        }
    );
}

#[test]
fn error_frame_carries_exception_fields() {
    let f = frames(
        "{\"msg_type\":\"error\"}",
        "{\"msg_id\":\"r1\"}",
        "{\"ename\":\"ZeroDivisionError\",\"evalue\":\"division by zero\",\"traceback\":[\"t\"]}",
    );
    let events = classify_broadcast(decode_broadcast(&f).unwrap());
    assert_eq!(events.len(), 1);
    match &events[0] {
        KernelEvent::Output {
            parent_msg_id,
            payload: OutputPayload::ErrorOutput {
                ename_json,
                evalue_json,
                traceback_json,
            },
        } => {
            assert_eq!(parent_msg_id, "r1");
            assert_eq!(ename_json, "\"ZeroDivisionError\"");
            assert_eq!(evalue_json, "\"division by zero\"");
            assert_eq!(traceback_json, "[\"t\"]");
        }
        other => panic!("unexpected event {other:?}"),
    }
}

#[test]
fn execute_result_carries_the_data_bundle() {
    let f = frames(
        "{\"msg_type\":\"execute_result\"}",
        "{\"msg_id\":\"r2\"}",
        "{\"data\":{\"text/plain\":\"2\"},\"metadata\":{},\"execution_count\":1}",
    );
    let events = classify_broadcast(decode_broadcast(&f).unwrap());
    assert_eq!(events.len(), 1);
    match &events[0] {
        KernelEvent::Output {
            payload: OutputPayload::Display {
                msg_type,
                data_json,
                metadata_json,
                execution_count_json,
            },
            ..
        } => {
            assert_eq!(msg_type, "execute_result");
            assert_eq!(data_json, "{\"text/plain\":\"2\"}");
            assert_eq!(metadata_json, "{}");
            assert_eq!(execution_count_json, "1");
        }
        other => panic!("unexpected event {other:?}"),
    }
}

#[test]
fn unknown_types_and_garbage_are_ignored() {
    let f = frames("{\"msg_type\":\"comm_msg\"}", "{}", "{}");
    let events = classify_broadcast(decode_broadcast(&f).unwrap());
    assert_eq!(events.len(), 0);
    let garbage = vec![String::from("<IDS|MSG>")];
    assert!(decode_broadcast(&garbage).is_none());
    let bad_json = frames("not json", "{}", "{}");
    assert!(decode_broadcast(&bad_json).is_none());
}

#[test]
fn listener_phases_follow_the_design() {
    let s = listener_step(ListenerPhase::Connecting, ListenerInput::Connected(true));
    assert_eq!(s.next, ListenerPhase::Subscribed);
    let s = listener_step(ListenerPhase::Connecting, ListenerInput::Connected(false));
    assert_eq!(s.next, ListenerPhase::Stopped);
    let s = listener_step(ListenerPhase::Subscribed, ListenerInput::Cancel(false));
    assert_eq!(s.next, ListenerPhase::Subscribed);
    let s = listener_step(ListenerPhase::Subscribed, ListenerInput::Cancel(true));
    assert_eq!(s.next, ListenerPhase::Draining);
    let s = listener_step(ListenerPhase::Draining, ListenerInput::Drained);
    assert_eq!(s.next, ListenerPhase::Stopped);
    let s = listener_step(ListenerPhase::Stopped, ListenerInput::RecvError);
    assert_eq!(s.next, ListenerPhase::Stopped);
    assert!(s.events.is_empty());
}

#[test]
fn transient_receive_errors_back_off_without_stopping() {
    let s = listener_step(ListenerPhase::Subscribed, ListenerInput::RecvError);
    assert_eq!(s.next, ListenerPhase::Subscribed);
    assert!(s.backoff);
    let s = listener_step(ListenerPhase::Subscribed, ListenerInput::Frame(None));
    assert_eq!(s.next, ListenerPhase::Subscribed);
    assert!(!s.backoff);
    assert!(s.events.is_empty());
}

#[test]
fn event_names_carry_session_and_request() {
    assert_eq!(output_event_name("k1", "m1"), "kernel-output-k1-m1");
    assert_eq!(status_event_name("k1"), "kernel-status-k1");
    assert_eq!(done_event_name("k1", "m1"), "kernel-done-k1-m1");
}

#[test]
fn absent_bundle_members_are_forwarded_as_null() {
    let f = frames("{\"msg_type\":\"display_data\"}", "{\"msg_id\":\"r3\"}", "{}");
    let events = classify_broadcast(decode_broadcast(&f).unwrap());
    assert_eq!(events.len(), 1);
    match &events[0] {
        KernelEvent::Output {
            payload: OutputPayload::Display {
                data_json,
                metadata_json,
                execution_count_json,
                ..
            },
            ..
        } => {
            assert_eq!(data_json, "null");
            assert_eq!(metadata_json, "null");
            assert_eq!(execution_count_json, "null");
        }
        other => panic!("unexpected event {other:?}"),
    }
}

#[test]
fn stream_defaults_apply_when_fields_are_missing() {
    let f = frames("{\"msg_type\":\"stream\"}", "{\"msg_id\":\"p\"}", "{}");
    let events = classify_broadcast(decode_broadcast(&f).unwrap());
    assert_eq!(
        events[0],
        KernelEvent::Output {
            parent_msg_id: String::from("p"),
            payload: OutputPayload::Stream {
                name: String::from("stdout"),
                text: String::new(),
            },
        }
    );
}

#[test]
fn subscribed_step_publishes_the_frame_classification() {
    let f = frames(
        "{\"msg_type\":\"stream\"}",
        "{\"msg_id\":\"req7\"}",
        "{\"name\":\"stderr\",\"text\":\"warn\"}",
    );
    let step = listener_step(
        ListenerPhase::Subscribed,
        ListenerInput::Frame(decode_broadcast(&f)),
    );
    assert_eq!(step.next, ListenerPhase::Subscribed);
    assert!(!step.backoff);
    assert_eq!(step.events, classify_broadcast(decode_broadcast(&f).unwrap()));
    assert_eq!(
        step.events[0],
        KernelEvent::Output {
            parent_msg_id: String::from("req7"),
            payload: OutputPayload::Stream {
                name: String::from("stderr"),
                text: String::from("warn"),
            },
        }
    );
}
