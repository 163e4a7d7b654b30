//! The broadcast listener: a state machine over the kernel's output
//! channel. The embedding runs the socket loop; every decision — which
//! state comes next, which events are published, when to back off and when
//! to stop — is taken here.
use vstd::prelude::*;
use crate::codec::split_frames;
use crate::jsonval::json_field_str;
use crate::jsonval::json_field_render;

verus! {

/// Where the listener stands. It starts `Connecting`; a failed connect or
/// subscribe ends it without retry; a stop-sense cancellation drains and
/// stops; everything else keeps it `Subscribed`.
#[derive(Clone, Copy, Debug, PartialEq, Eq, Structural)]
pub enum ListenerPhase {
    Connecting,
    Subscribed,
    Draining,
    Stopped,
}

/// The fields a broadcast frame can carry, extracted from its JSON parts.
/// Absent members are `None`; the JSON-rendered members carry `"null"` when
/// absent, so an event forwards a missing member as a JSON null.
pub struct BroadcastFields {
    pub msg_type: String,
    pub parent_msg_id: String,
    pub stream_name: Option<String>,
    pub stream_text: Option<String>,
    pub execution_state: Option<String>,
    pub data_json: String,
    pub metadata_json: String,
    pub execution_count_json: String,
    pub ename_json: String,
    pub evalue_json: String,
    pub traceback_json: String,
}

/// The payload of one published output event.
#[derive(Debug, PartialEq, Eq)]
pub enum OutputPayload {
    Stream { name: String, text: String },
    Display { msg_type: String, data_json: String, metadata_json: String, execution_count_json: String },
    ErrorOutput { ename_json: String, evalue_json: String, traceback_json: String },
}

/// One event published to the session's listener, keyed by session and,
/// where it concerns one request, by the originating request id.
#[derive(Debug, PartialEq, Eq)]
pub enum KernelEvent {
    Output { parent_msg_id: String, payload: OutputPayload },
    Status { execution_state: String },
    Done { parent_msg_id: String },
}

/// Whether an event is a completion event for the given request id.
pub open spec fn is_done_for(e: KernelEvent, parent: Seq<char>) -> bool {
    e matches KernelEvent::Done { parent_msg_id } && parent_msg_id@ == parent
}

/// How many completion events a sequence holds.
pub open spec fn done_count(events: Seq<KernelEvent>) -> int {
    events.filter(|e: KernelEvent| e matches KernelEvent::Done { .. }).len() as int
}

/// The events one decoded broadcast message classifies into: a `stream`
/// message yields one output event with the stream name (default `stdout`)
/// and text (default empty); `display_data` and `execute_result` yield one
/// output event with the data bundle; `error` yields one output event with
/// the exception fields; `status` yields a status event and, exactly when
/// the state is `idle` and a parent request id is present, one completion
/// event for that id; any other type yields nothing.
pub open spec fn spec_classified(f: BroadcastFields, r: Seq<KernelEvent>) -> bool {
    &&& f.msg_type@ == "stream"@ ==> r.len() == 1 && (r[0] matches KernelEvent::Output {
        parent_msg_id,
        payload,
    } && parent_msg_id@ == f.parent_msg_id@ && (payload matches OutputPayload::Stream {
        name,
        text,
    } && name@ == (if f.stream_name is Some { f.stream_name->0@ } else { "stdout"@ })
        && text@ == (if f.stream_text is Some { f.stream_text->0@ } else { ""@ })))
    &&& (f.msg_type@ == "display_data"@ || f.msg_type@ == "execute_result"@) ==> r.len() == 1 && (
    r[0] matches KernelEvent::Output { parent_msg_id, payload } && parent_msg_id@
        == f.parent_msg_id@ && (payload matches OutputPayload::Display {
        msg_type,
        data_json,
        metadata_json,
        execution_count_json,
    } && msg_type@ == f.msg_type@ && data_json@ == f.data_json@ && metadata_json@
        == f.metadata_json@ && execution_count_json@ == f.execution_count_json@))
    &&& f.msg_type@ == "error"@ ==> r.len() == 1 && (r[0] matches KernelEvent::Output {
        parent_msg_id,
        payload,
    } && parent_msg_id@ == f.parent_msg_id@ && (payload matches OutputPayload::ErrorOutput {
        ename_json,
        evalue_json,
        traceback_json,
    } && ename_json@ == f.ename_json@ && evalue_json@ == f.evalue_json@ && traceback_json@
        == f.traceback_json@))
    &&& f.msg_type@ == "status"@ ==> {
        let state = if f.execution_state is Some { f.execution_state->0@ } else { "unknown"@ };
        let done = state == "idle"@ && f.parent_msg_id@.len() > 0;
        &&& r.len() == (if done { 2int } else { 1int })
        &&& (r[0] matches KernelEvent::Status { execution_state } && execution_state@ == state)
        &&& (done ==> is_done_for(r[1], f.parent_msg_id@))
    }
    &&& f.msg_type@ != "stream"@ && f.msg_type@ != "display_data"@ && f.msg_type@
        != "execute_result"@ && f.msg_type@ != "error"@ && f.msg_type@ != "status"@ ==> r.len()
        == 0
    &&& done_count(r) == (if f.msg_type@ == "status"@ && (if f.execution_state is Some {
        f.execution_state->0@
    } else {
        "unknown"@
    }) == "idle"@ && f.parent_msg_id@.len() > 0 {
        1int
    } else {
        0int
    })
    &&& forall|p: Seq<char>, i: int|
        p != f.parent_msg_id@ && 0 <= i < r.len() ==> !(#[trigger] is_done_for(r[i], p))
}

/// Classifies one decoded broadcast message into the events to publish,
/// exactly as `spec_classified` describes them.
#[verifier::rlimit(50)]
pub fn classify_broadcast(f: BroadcastFields) -> (r: Vec<KernelEvent>)
    ensures
        spec_classified(f, r@),
{
    proof {
        reveal_strlit("stream");
        reveal_strlit("display_data");
        reveal_strlit("execute_result");
        reveal_strlit("error");
        reveal_strlit("status");
        assert("stream"@.len() == 6 && "display_data"@.len() == 12 && "execute_result"@.len()
            == 14 && "error"@.len() == 5 && "status"@.len() == 6);
        assert(("stream"@)[2] == 'r' && ("status"@)[2] == 'a');
        assert("stream"@ != "status"@);
        assert("stream"@ != "display_data"@ && "stream"@ != "execute_result"@ && "stream"@
            != "error"@);
        assert("display_data"@ != "execute_result"@ && "display_data"@ != "error"@
            && "display_data"@ != "status"@);
        assert("execute_result"@ != "error"@ && "execute_result"@ != "status"@);
        assert("error"@ != "status"@);
    }
    let mut events: Vec<KernelEvent> = Vec::new();
    let t = &f.msg_type;
    if crate::text::str_eq(t.as_str(), "stream") {
        let name = match f.stream_name {
            Some(n) => n,
            None => String::from_str("stdout"),
        };
        let text = match f.stream_text {
            Some(x) => x,
            None => String::from_str(""),
        };
        events.push(
            KernelEvent::Output {
                parent_msg_id: f.parent_msg_id,
                payload: OutputPayload::Stream { name, text },
            },
        );
        proof {
            reveal_with_fuel(vstd::seq::Seq::filter, 3);
            assert(events@ =~= seq![events@[0]]);
            assert(done_count(events@) == 0);
        }
    } else if crate::text::str_eq(t.as_str(), "display_data") || crate::text::str_eq(
        t.as_str(),
        "execute_result",
    ) {
        let msg_type = f.msg_type;
        events.push(
            KernelEvent::Output {
                parent_msg_id: f.parent_msg_id,
                payload: OutputPayload::Display {
                    msg_type,
                    data_json: f.data_json,
                    metadata_json: f.metadata_json,
                    execution_count_json: f.execution_count_json,
                },
            },
        );
        proof {
            reveal_with_fuel(vstd::seq::Seq::filter, 3);
            assert(events@ =~= seq![events@[0]]);
            assert(done_count(events@) == 0);
        }
    } else if crate::text::str_eq(t.as_str(), "error") {
        events.push(
            KernelEvent::Output {
                parent_msg_id: f.parent_msg_id,
                payload: OutputPayload::ErrorOutput {
                    ename_json: f.ename_json,
                    evalue_json: f.evalue_json,
                    traceback_json: f.traceback_json,
                },
            },
        );
        proof {
            reveal_with_fuel(vstd::seq::Seq::filter, 3);
            assert(events@ =~= seq![events@[0]]);
            assert(done_count(events@) == 0);
        }
    } else if crate::text::str_eq(t.as_str(), "status") {
        let state = match f.execution_state {
            Some(s) => s,
            None => String::from_str("unknown"),
        };
        let idle = crate::text::str_eq(state.as_str(), "idle");
        let has_parent = !f.parent_msg_id.as_str().is_empty();
        let ghost spec_state = state@;
        let ghost spec_done = spec_state == "idle"@ && f.parent_msg_id@.len() > 0;
        proof {
            assert(idle == (spec_state == "idle"@));
            assert(has_parent == (f.parent_msg_id@.len() > 0));
        }
        events.push(KernelEvent::Status { execution_state: state });
        if idle && has_parent {
            events.push(KernelEvent::Done { parent_msg_id: f.parent_msg_id });
            proof {
                reveal_with_fuel(vstd::seq::Seq::filter, 4);
                assert(events@ =~= seq![events@[0], events@[1]]);
                assert(events@[1] matches KernelEvent::Done { .. });
                assert(spec_done);
                assert(events@.len() == 2);
                assert(done_count(events@) == 1);
            }
        } else {
            proof {
                reveal_with_fuel(vstd::seq::Seq::filter, 3);
                assert(events@ =~= seq![events@[0]]);
                assert(!spec_done);
                assert(events@.len() == 1);
                assert(done_count(events@) == 0);
            }
        }
    } else {
        proof {
            reveal_with_fuel(vstd::seq::Seq::filter, 3);
            assert(events@ =~= Seq::<KernelEvent>::empty());
            assert(done_count(events@) == 0);
        }
    }
    events
}

/// What came in on one turn of the listener loop.
pub enum ListenerInput {
    /// The connect-and-subscribe attempt finished, successfully or not.
    Connected(bool),
    /// The cancellation signal changed; `true` is the stop sense.
    Cancel(bool),
    /// A frame sequence arrived and was decoded, or failed to decode.
    Frame(Option<BroadcastFields>),
    /// A transient receive error.
    RecvError,
    /// The drain after a stop-sense cancellation finished.
    Drained,
}

/// What the embedding does after one step.
pub struct ListenerStep {
    pub next: ListenerPhase,
    pub events: Vec<KernelEvent>,
    /// Sleep briefly before the next receive; set only after a transient
    /// receive error, which is tolerated, not counted.
    pub backoff: bool,
}

/// One transition of the listener state machine.
///
/// Connecting goes to Subscribed on success and Stopped on failure, with no
/// retry. Subscribed publishes exactly the classification of each decoded
/// frame (`spec_classified` binds the returned events to the frame's
/// fields), ignores undecodable ones, backs off on a transient receive
/// error, and leaves for Draining only on a stop-sense cancellation; a
/// false-sense signal changes nothing. Draining goes to Stopped once
/// drained. Stopped is final.
pub fn listener_step(phase: ListenerPhase, input: ListenerInput) -> (r: ListenerStep)
    ensures
        phase is Stopped ==> r.next is Stopped && r.events@.len() == 0 && !r.backoff,
        phase is Connecting ==> r.events@.len() == 0 && !r.backoff && (match input {
            ListenerInput::Connected(ok) => r.next == (if ok {
                ListenerPhase::Subscribed
            } else {
                ListenerPhase::Stopped
            }),
            _ => r.next is Connecting,
        }),
        phase is Draining ==> r.events@.len() == 0 && !r.backoff && (input matches
            ListenerInput::Drained ==> r.next is Stopped) && (!(input matches ListenerInput::Drained)
            ==> r.next is Draining),
        phase is Subscribed ==> match input {
            ListenerInput::Cancel(stop) => r.next == (if stop {
                ListenerPhase::Draining
            } else {
                ListenerPhase::Subscribed
            }) && r.events@.len() == 0 && !r.backoff,
            ListenerInput::RecvError => r.next is Subscribed && r.events@.len() == 0 && r.backoff,
            ListenerInput::Frame(None) => r.next is Subscribed && r.events@.len() == 0
                && !r.backoff,
            ListenerInput::Frame(Some(f)) => r.next is Subscribed && !r.backoff
                && spec_classified(f, r.events@),
            _ => r.next is Subscribed && r.events@.len() == 0 && !r.backoff,
        },
{
    match phase {
        ListenerPhase::Stopped => ListenerStep {
            next: ListenerPhase::Stopped,
            events: Vec::new(),
            backoff: false,
        },
        ListenerPhase::Connecting => {
            let next = match input {
                ListenerInput::Connected(true) => ListenerPhase::Subscribed,
                ListenerInput::Connected(false) => ListenerPhase::Stopped,
                _ => ListenerPhase::Connecting,
            };
            ListenerStep { next, events: Vec::new(), backoff: false }
        },
        ListenerPhase::Draining => {
            let next = match input {
                ListenerInput::Drained => ListenerPhase::Stopped,
                _ => ListenerPhase::Draining,
            };
            ListenerStep { next, events: Vec::new(), backoff: false }
        },
        ListenerPhase::Subscribed => match input {
            ListenerInput::Cancel(stop) => ListenerStep {
                next: if stop {
                    ListenerPhase::Draining
                } else {
                    ListenerPhase::Subscribed
                },
                events: Vec::new(),
                backoff: false,
            },
            ListenerInput::RecvError => ListenerStep {
                next: ListenerPhase::Subscribed,
                events: Vec::new(),
                backoff: true,
            },
            ListenerInput::Frame(Some(fields)) => ListenerStep {
                next: ListenerPhase::Subscribed,
                events: classify_broadcast(fields),
                backoff: false,
            },
            _ => ListenerStep {
                next: ListenerPhase::Subscribed,
                events: Vec::new(),
                backoff: false,
            },
        },
    }
}

/// Splits a received frame sequence and extracts the broadcast fields from
/// its JSON parts. The frame layout is verified; the JSON field reads rely
/// on serde_json and carry no contract, so everything decided on them is
/// decided by `classify_broadcast` on the extracted plain values.
pub fn decode_broadcast(frames: &Vec<String>) -> (r: Option<BroadcastFields>)
{
    let parts = match split_frames(frames) {
        None => {
            return None;
        },
        Some(p) => p,
    };
    let msg_type = match json_field_str(parts.header.as_str(), "msg_type") {
        None => {
            return None;
        },
        Some(t) => t,
    };
    let parent_msg_id = match json_field_str(parts.parent.as_str(), "msg_id") {
        None => String::new(),
        Some(p) => p,
    };
    let content = parts.content.as_str();
    Some(
        BroadcastFields {
            msg_type,
            parent_msg_id,
            stream_name: json_field_str(content, "name"),
            stream_text: json_field_str(content, "text"),
            execution_state: json_field_str(content, "execution_state"),
            data_json: json_field_render(content, "data"),
            metadata_json: json_field_render(content, "metadata"),
            execution_count_json: json_field_render(content, "execution_count"),
            ename_json: json_field_render(content, "ename"),
            evalue_json: json_field_render(content, "evalue"),
            traceback_json: json_field_render(content, "traceback"),
        },
    )
}

/// The event name an output event is published under.
pub fn output_event_name(kernel_id: &str, parent_msg_id: &str) -> (r: String)
    ensures
        r@ == "kernel-output-"@ + kernel_id@ + "-"@ + parent_msg_id@,
{
    let mut s = String::from_str("kernel-output-");
    s.append(kernel_id);
    s.append("-");
    s.append(parent_msg_id);
    s
}

/// The event name a status event is published under.
pub fn status_event_name(kernel_id: &str) -> (r: String)
    ensures
        r@ == "kernel-status-"@ + kernel_id@,
{
    let mut s = String::from_str("kernel-status-");
    s.append(kernel_id);
    s
}

/// The event name a completion event is published under.
pub fn done_event_name(kernel_id: &str, parent_msg_id: &str) -> (r: String)
    ensures
        r@ == "kernel-done-"@ + kernel_id@ + "-"@ + parent_msg_id@,
{
    let mut s = String::from_str("kernel-done-");
    s.append(kernel_id);
    s.append("-");
    s.append(parent_msg_id);
    s
}

} // verus!

