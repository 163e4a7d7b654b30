use shoulders::registry::{SessionEntry, SessionRegistry};
use shoulders::session::{
    launch_outcome, prepare_complete, prepare_execute, prepare_interrupt, shutdown_session,
};
use shoulders::KernelError;

fn entry(id: &str) -> SessionEntry {
    SessionEntry {
        id: String::from(id),
        spec_name: String::from("python3"),
        connection_file: format!("/tmp/kernel-{id}.json"),
        key: String::from("secret"),
        shell_port: 50001,
        iopub_port: 50002,
        pid: 4242,
    }
}

#[test]
fn execute_on_unknown_session_is_session_not_found() {
    let reg = SessionRegistry::new();
    let r = prepare_execute(&reg, "ghost", "1+1", "sess", "mid", "date");
    match r {
        Err(KernelError::SessionNotFound) => {}
        _ => panic!("expected SessionNotFound"),
    }
    let e = KernelError::SessionNotFound;
    assert_eq!(e.message(), "Kernel not found");
}

#[test]
fn interrupt_and_complete_check_the_registry() {
    let mut reg = SessionRegistry::new();
    assert!(matches!(
        prepare_interrupt(&reg, "ghost"),
        Err(KernelError::SessionNotFound)
    ));
    reg.insert(entry("k1"));
    assert_eq!(prepare_interrupt(&reg, "k1").unwrap(), 4242);
    let plan = prepare_complete(&reg, "k1", "pri", 3, "sess", "mid", "date").unwrap();
    assert_eq!(plan.shell_port, 50001);
    assert_eq!(plan.msg_id, "mid");
    assert_eq!(
        plan.message.frames[5],
        "{\"code\":\"pri\",\"cursor_pos\":3}"
    );
}

#[test]
fn execute_plan_signs_with_the_session_key() {
    let mut reg = SessionRegistry::new();
    reg.insert(entry("k1"));
    let plan = prepare_execute(&reg, "k1", "1+1", "sess", "mid", "date").unwrap();
    assert_eq!(plan.shell_port, 50001);
    assert!(!plan.message.frames[1].is_empty());
    assert_eq!(
        plan.message.frames[5],
        "{\"allow_stdin\":false,\"code\":\"1+1\",\"silent\":false,\
         \"stop_on_error\":true,\"store_history\":true,\"user_expressions\":{}}"
    );
}

#[test]
fn failed_spawn_registers_nothing() {
    let mut reg = SessionRegistry::new();
    let r = launch_outcome(
        &mut reg,
        Err(String::from("No such file or directory (os error 2)")),
    );
    match r {
        Err(KernelError::ProcessLaunchFailure(m)) => {
            assert_eq!(
                m,
                "Failed to spawn kernel: No such file or directory (os error 2)"
            );
        }
        _ => panic!("expected ProcessLaunchFailure"),
    }
    assert_eq!(reg.len(), 0);
    assert!(!reg.contains("k1"));
}

#[test]
fn successful_spawn_registers_the_session() {
    let mut reg = SessionRegistry::new();
    let id = launch_outcome(&mut reg, Ok(entry("k1"))).unwrap();
    assert_eq!(id, "k1");
    assert_eq!(reg.len(), 1);
    assert!(reg.contains("k1"));
    let e = reg.lookup("k1").unwrap();
    assert_eq!(e.pid, 4242);
    assert_eq!(e.key, "secret");
}

#[test]
fn shutdown_twice_second_is_a_no_op() {
    let mut reg = SessionRegistry::new();
    reg.insert(entry("k1"));
    reg.insert(entry("k2"));
    let first = shutdown_session(&mut reg, "k1");
    assert!(first.is_some());
    assert_eq!(first.unwrap().connection_file, "/tmp/kernel-k1.json");
    assert_eq!(reg.len(), 1);
    let second = shutdown_session(&mut reg, "k1");
    assert!(second.is_none());
    assert_eq!(reg.len(), 1);
    assert!(reg.contains("k2"));
}

#[test]
fn registry_lookup_finds_the_right_entry() {
    let mut reg = SessionRegistry::new();
    reg.insert(entry("a"));
    reg.insert(entry("b"));
    assert_eq!(reg.lookup("a").unwrap().id, "a");
    assert_eq!(reg.lookup("b").unwrap().id, "b");
    assert!(reg.lookup("c").is_none());
    assert_eq!(reg.len(), 2);
}

#[test]
fn every_error_variant_renders_its_message() {
    assert_eq!(
        KernelError::ConfigurationError(String::from("bad spec")).message(),
        "bad spec"
    );
    assert_eq!(
        KernelError::InterpreterNotFound(String::from("none found")).message(),
        "none found"
    );
    assert_eq!(
        KernelError::ProcessLaunchFailure(String::from("spawn failed")).message(),
        "spawn failed"
    );
    assert_eq!(
        KernelError::ProcessExitedEarly(String::from("died")).message(),
        "died"
    );
    assert_eq!(
        KernelError::TransportError(String::from("socket broke")).message(),
        "socket broke"
    );
    assert_eq!(KernelError::ReplyTimeout.message(), "Reply timed out");
    assert_eq!(KernelError::SessionNotFound.message(), "Kernel not found");
}
