//! Session-level operations: what each public kernel call decides, given
//! the registry and the outcome of the outside work the embedding performs.
use vstd::prelude::*;
use crate::KernelError;
use crate::codec::WireMessage;
use crate::codec::encode_message;
use crate::codec::execute_content;
use crate::codec::complete_content;
use crate::codec::spec_wire_frames;
use crate::codec::spec_execute_content;
use crate::codec::spec_complete_content;
use crate::registry::SessionRegistry;
use crate::registry::SessionEntry;

verus! {

/// Everything the embedding needs to send one request: the port to connect
/// to, the request id to report back, and the frames to put on the wire.
pub struct RequestPlan {
    pub shell_port: u16,
    pub msg_id: String,
    pub message: WireMessage,
}

/// Settles a launch after the spawn attempt: a failed spawn becomes a
/// `ProcessLaunchFailure` carrying the spawn error, and registers nothing; a
/// successful spawn registers the session and returns its id.
pub fn launch_outcome(
    reg: &mut SessionRegistry,
    spawn_result: Result<SessionEntry, String>,
) -> (r: Result<String, KernelError>)
    requires
        old(reg).wf(),
        spawn_result matches Ok(e) ==> !old(reg).contains_id(e.id@),
    ensures
        final(reg).wf(),
        match spawn_result {
            Ok(entry) => {
                &&& r matches Ok(id) && id@ == entry.id@
                &&& final(reg).entry_for(entry.id@) == Some(entry)
                &&& final(reg).spec_len() == old(reg).spec_len() + 1
                &&& forall|id2: Seq<char>| id2 != entry.id@ ==> final(reg).entry_for(id2) == old(
                    reg,
                ).entry_for(id2)
            },
            Err(e) => {
                &&& r matches Err(ke) && ke matches KernelError::ProcessLaunchFailure(m)
                    && m@ == "Failed to spawn kernel: "@ + e@
                &&& *final(reg) == *old(reg)
            },
        },
{
    match spawn_result {
        Ok(entry) => {
            let id = entry.id.clone();
            reg.insert(entry);
            Ok(id)
        },
        Err(e) => {
            let mut msg = String::from_str("Failed to spawn kernel: ");
            msg.append(e.as_str());
            Err(KernelError::ProcessLaunchFailure(msg))
        },
    }
}

/// Plans an execute request: looks the session up, builds the execute
/// content for the code, and encodes the six frames signed with the
/// session's key. Fails with `SessionNotFound`, and plans nothing, exactly
/// when the id is not live — no socket is ever opened for an unknown id.
pub fn prepare_execute(
    reg: &SessionRegistry,
    kernel_id: &str,
    code: &str,
    session: &str,
    msg_id: &str,
    date: &str,
) -> (r: Result<RequestPlan, KernelError>)
    ensures
        match r {
            Ok(plan) => {
                &&& reg.contains_id(kernel_id@)
                &&& plan.shell_port == reg.entry_for(kernel_id@)->0.shell_port
                &&& plan.msg_id@ == msg_id@
                &&& plan.message.view_frames() == spec_wire_frames(
                    msg_id@,
                    session@,
                    date@,
                    "execute_request"@,
                    spec_execute_content(code@),
                    reg.entry_for(kernel_id@)->0.key@,
                )
                &&& plan.message.view_frames()[1].len() == (if reg.entry_for(
                    kernel_id@,
                )->0.key@.len() == 0 {
                    0int
                } else {
                    64int
                })
            },
            Err(e) => e == KernelError::SessionNotFound && !reg.contains_id(kernel_id@),
        },
{
    match reg.lookup(kernel_id) {
        None => Err(KernelError::SessionNotFound),
        Some(entry) => {
            let content = execute_content(code);
            let message = encode_message(
                "execute_request",
                session,
                msg_id,
                date,
                content.as_str(),
                entry.key.as_str(),
            );
            Ok(RequestPlan { shell_port: entry.shell_port, msg_id: String::from_str(msg_id), message })
        },
    }
}

/// Plans a completion request, exactly as `prepare_execute` plans an
/// execute request, with the completion content for code and cursor.
pub fn prepare_complete(
    reg: &SessionRegistry,
    kernel_id: &str,
    code: &str,
    cursor_pos: usize,
    session: &str,
    msg_id: &str,
    date: &str,
) -> (r: Result<RequestPlan, KernelError>)
    ensures
        match r {
            Ok(plan) => {
                &&& reg.contains_id(kernel_id@)
                &&& plan.shell_port == reg.entry_for(kernel_id@)->0.shell_port
                &&& plan.msg_id@ == msg_id@
                &&& plan.message.view_frames() == spec_wire_frames(
                    msg_id@,
                    session@,
                    date@,
                    "complete_request"@,
                    spec_complete_content(code@, cursor_pos as nat),
                    reg.entry_for(kernel_id@)->0.key@,
                )
                &&& plan.message.view_frames()[1].len() == (if reg.entry_for(
                    kernel_id@,
                )->0.key@.len() == 0 {
                    0int
                } else {
                    64int
                })
            },
            Err(e) => e == KernelError::SessionNotFound && !reg.contains_id(kernel_id@),
        },
{
    match reg.lookup(kernel_id) {
        None => Err(KernelError::SessionNotFound),
        Some(entry) => {
            let content = complete_content(code, cursor_pos);
            let message = encode_message(
                "complete_request",
                session,
                msg_id,
                date,
                content.as_str(),
                entry.key.as_str(),
            );
            Ok(RequestPlan { shell_port: entry.shell_port, msg_id: String::from_str(msg_id), message })
        },
    }
}

/// Decides an interrupt: the process id to signal, or `SessionNotFound`.
/// The embedding delivers the platform interrupt signal to the pid; the
/// process is signalled, not killed, so the kernel keeps its state.
pub fn prepare_interrupt(reg: &SessionRegistry, kernel_id: &str) -> (r: Result<u32, KernelError>)
    ensures
        match r {
            Ok(pid) => reg.contains_id(kernel_id@) && pid == reg.entry_for(kernel_id@)->0.pid,
            Err(e) => e == KernelError::SessionNotFound && !reg.contains_id(kernel_id@),
        },
{
    match reg.lookup(kernel_id) {
        None => Err(KernelError::SessionNotFound),
        Some(entry) => Ok(entry.pid),
    }
}

/// Removes a session on shutdown and hands its resources back for teardown:
/// the embedding signals cancellation, kills and reaps the pid, and deletes
/// the connection file. A second shutdown of the same id finds nothing,
/// removes nothing, and is not an error.
pub fn shutdown_session(reg: &mut SessionRegistry, kernel_id: &str) -> (r: Option<SessionEntry>)
    requires
        old(reg).wf(),
    ensures
        final(reg).wf(),
        r == old(reg).entry_for(kernel_id@),
        !final(reg).contains_id(kernel_id@),
        forall|id2: Seq<char>| id2 != kernel_id@ ==> final(reg).entry_for(id2) == old(
            reg,
        ).entry_for(id2),
{
    reg.remove(kernel_id)
}

} // verus!
