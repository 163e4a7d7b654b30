use shoulders::connection::{fresh_uuid, new_signing_key, now_rfc3339, parse_descriptor, ConnectionDescriptor};
use shoulders::launch::{
    exit_hint, is_bare_python, liveness_outcome, runtime_dir, substitute_connection_file,
    truncate_chars, HostOs,
};
use shoulders::KernelError;

#[test]
fn generated_descriptor_keeps_the_bound_ports() {
    let d = ConnectionDescriptor::generate(50001, 50002, 50003, 50004, 50005, String::from("k"))
        .expect("distinct ports");
    assert_eq!(d.ip, "127.0.0.1");
    assert_eq!(d.transport, "tcp");
    assert_eq!(d.signature_scheme, "hmac-sha256");
    assert_eq!(d.shell_port, 50001);
    assert_eq!(d.iopub_port, 50002);
    assert_eq!(d.stdin_port, 50003);
    assert_eq!(d.control_port, 50004);
    assert_eq!(d.hb_port, 50005);
    assert_eq!(d.key, "k");
}

#[test]
fn coinciding_ports_are_rejected() {
    assert!(
        ConnectionDescriptor::generate(50001, 50001, 50003, 50004, 50005, String::from("k"))
            .is_err()
    );
    assert!(
        ConnectionDescriptor::generate(1, 2, 3, 4, 4, String::from("k")).is_err()
    );
}

#[test]
fn descriptor_serializes_to_the_connection_file_shape() {
    let d = ConnectionDescriptor::generate(1, 2, 3, 4, 5, String::from("se\"cret")).unwrap();
    assert_eq!(
        d.to_json(),
        "{\"ip\":\"127.0.0.1\",\"transport\":\"tcp\",\"shell_port\":1,\"iopub_port\":2,\
         \"stdin_port\":3,\"control_port\":4,\"hb_port\":5,\"key\":\"se\\\"cret\",\
         \"signature_scheme\":\"hmac-sha256\"}"
    );
}

#[test]
fn connection_file_name_embeds_the_session_id() {
    assert_eq!(
        ConnectionDescriptor::file_name("abc-123"),
        "kernel-abc-123.json"
    );
}

#[test]
fn fresh_identifiers_have_the_documented_shape() {
    let u = fresh_uuid();
    assert_eq!(u.len(), 36);
    assert_eq!(u.chars().filter(|c| *c == '-').count(), 4);
    let k = new_signing_key();
    assert_eq!(k.chars().count(), 32);
    assert!(!k.contains('-'));
    let u2 = fresh_uuid();
    assert_ne!(u, u2);
    assert!(!now_rfc3339().is_empty());
}

#[test]
fn placeholder_is_substituted_everywhere() {
    let argv = vec![
        String::from("python3"),
        String::from("-m"),
        String::from("ipykernel_launcher"),
        String::from("-f"),
        String::from("{connection_file}"),
        String::from("--log={connection_file}.log"),
    ];
    let out = substitute_connection_file(&argv, "/run/kernel-1.json");
    assert_eq!(out[0], "python3");
    assert_eq!(out[4], "/run/kernel-1.json");
    assert_eq!(out[5], "--log=/run/kernel-1.json.log");
}

#[test]
fn bare_interpreter_tokens_are_recognized() {
    assert!(is_bare_python("python"));
    assert!(is_bare_python("python3"));
    assert!(is_bare_python("python3.11"));
    assert!(!is_bare_python("/usr/bin/python3"));
    assert!(!is_bare_python("julia"));
}

#[test]
fn exit_hints_classify_common_failures() {
    assert_eq!(
        exit_hint("Traceback...\nModuleNotFoundError: No module named 'ipykernel'"),
        "\nHint: A required Python module is missing. Try: pip3 install ipykernel"
    );
    assert_eq!(
        exit_hint("bash: Permission denied"),
        "\nHint: Permission denied. Check file permissions or try running with appropriate access."
    );
    assert_eq!(
        exit_hint("  File \"x.py\", line 1\nSyntaxError: invalid syntax"),
        "\nHint: Python version mismatch. The kernel may need a different Python version."
    );
    assert_eq!(exit_hint("all fine"), "");
}

#[test]
fn liveness_judgement_reports_the_death() {
    assert!(liveness_outcome(None).is_ok());
    let r = liveness_outcome(Some((
        String::from("exit status: 1"),
        String::from("No module named 'ipykernel'"),
    )));
    match r {
        Err(KernelError::ProcessExitedEarly(m)) => {
            assert_eq!(
                m,
                "Kernel process exited with status: exit status: 1.\n\
                 No module named 'ipykernel'\n\
                 Hint: A required Python module is missing. Try: pip3 install ipykernel"
            );
        }
        other => panic!("unexpected {other:?}"),
    }
}

#[test]
fn dead_process_without_output_gets_no_diagnostics_block() {
    let r = liveness_outcome(Some((String::from("signal: 9"), String::new())));
    match r {
        Err(KernelError::ProcessExitedEarly(m)) => {
            assert_eq!(m, "Kernel process exited with status: signal: 9.");
        }
        other => panic!("unexpected {other:?}"),
    }
}

#[test]
fn truncation_caps_at_the_limit() {
    assert_eq!(truncate_chars("abc", 5), "abc");
    assert_eq!(truncate_chars("abcdef", 3), "abc");
    let long = "x".repeat(600);
    assert_eq!(truncate_chars(&long, 500).chars().count(), 500);
}

#[test]
fn runtime_dir_follows_the_platform() {
    assert_eq!(
        runtime_dir(HostOs::MacOs, "/Users/u", None, None),
        "/Users/u/Library/Jupyter/runtime"
    );
    assert_eq!(
        runtime_dir(HostOs::Linux, "/home/u", Some("/run/user/1000"), None),
        "/run/user/1000/jupyter"
    );
    assert_eq!(
        runtime_dir(HostOs::Linux, "/home/u", None, None),
        "/home/u/.local/share/jupyter/runtime"
    );
    assert_eq!(
        runtime_dir(HostOs::Windows, "C:\\Users\\u", None, Some("C:\\Users\\u\\AppData\\Roaming")),
        "C:\\Users\\u\\AppData\\Roaming\\jupyter\\runtime"
    );
    assert_eq!(
        runtime_dir(HostOs::Windows, "C:\\Users\\u", None, None),
        "C:\\Users\\u\\AppData\\Roaming\\jupyter\\runtime"
    );
}

#[test]
fn descriptor_text_round_trips_through_the_parser() {
    let d = ConnectionDescriptor::generate(
        50001,
        50002,
        50003,
        50004,
        50005,
        String::from("se\"cr\\et\n"),
    )
    .unwrap();
    let text = d.to_json();
    let back = parse_descriptor(&text).expect("canonical text parses");
    assert_eq!(back, d);
    assert_eq!(back.to_json(), text);
}

#[test]
fn tampered_descriptor_text_is_rejected() {
    let d = ConnectionDescriptor::generate(1, 2, 3, 4, 5, String::from("k")).unwrap();
    let text = d.to_json();
    assert!(parse_descriptor(&text).is_some());
    assert!(parse_descriptor(&text[..text.len() - 1]).is_none());
    assert!(parse_descriptor(&text.replace("tcp", "udp")).is_none());
    assert!(parse_descriptor(&text.replace("\"shell_port\":1", "\"shell_port\":2")).is_none());
    assert!(parse_descriptor(&text.replace("\"shell_port\":1", "\"shell_port\":01")).is_none());
    assert!(parse_descriptor("").is_none());
    assert!(parse_descriptor("{}").is_none());
}
