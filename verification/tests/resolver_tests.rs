use shoulders::resolver::{
    build_candidates, resolve_interpreter, resolver_step, ProbeOutcome, ResolverStep,
};
use shoulders::KernelError;

fn pass() -> ProbeOutcome {
    ProbeOutcome {
        exists: true,
        has_kernel: true,
    }
}

fn fail() -> ProbeOutcome {
    ProbeOutcome {
        exists: false,
        has_kernel: false,
    }
}

#[test]
fn bare_command_wins_over_passing_candidates() {
    let candidates = vec![String::from("/opt/py/a"), String::from("/opt/py/b")];
    let probes = vec![pass(), pass()];
    let r = resolve_interpreter("python3", true, &candidates, &probes);
    assert_eq!(r.unwrap(), "python3");
}

#[test]
fn first_passing_candidate_is_chosen() {
    let candidates = vec![
        String::from("/a"),
        String::from("/b"),
        String::from("/c"),
    ];
    let probes = vec![
        fail(),
        pass(),
        pass(),
    ];
    let r = resolve_interpreter("python3", false, &candidates, &probes);
    assert_eq!(r.unwrap(), "/b");
}

#[test]
fn existing_but_failing_probe_is_skipped() {
    let candidates = vec![String::from("/a"), String::from("/b")];
    let probes = vec![
        ProbeOutcome {
            exists: true,
            has_kernel: false,
        },
        pass(),
    ];
    let r = resolve_interpreter("python3", false, &candidates, &probes);
    assert_eq!(r.unwrap(), "/b");
}

#[test]
fn exhausted_candidates_fail_with_remediation() {
    let candidates = vec![String::from("/a")];
    let probes = vec![fail()];
    match resolve_interpreter("python3", false, &candidates, &probes) {
        Err(KernelError::InterpreterNotFound(m)) => {
            assert_eq!(
                m,
                "Could not find a Python interpreter with ipykernel installed.\n\
                 Install it with: pip3 install ipykernel\n\
                 Then restart or click Re-check in the notebook toolbar."
            );
        }
        other => panic!("unexpected {other:?}"),
    }
}

#[test]
fn candidate_list_is_in_priority_order() {
    let c = build_candidates("/home/u", "/home/u/.pyenv", Some("/envs/x"));
    assert_eq!(c[0], "/home/u/.pyenv/shims/python3");
    assert_eq!(c[1], "/home/u/.pyenv/shims/python");
    assert_eq!(c[2], "/envs/x/bin/python3");
    assert_eq!(c[3], "/envs/x/bin/python");
    assert_eq!(c[4], "/home/u/miniconda3/bin/python3");
    assert_eq!(c[7], "/home/u/anaconda3/bin/python3");
    assert_eq!(c[8], "/opt/homebrew/bin/python3");
    assert_eq!(c[9], "/usr/local/bin/python3");
    assert_eq!(c[10], "/home/u/Library/Python/3.15/bin/python3");
    assert_eq!(
        c[11],
        "/Library/Frameworks/Python.framework/Versions/3.15/bin/python3"
    );
    assert_eq!(c[c.len() - 1], "/home/u/.local/bin/python3");
    assert!(c.contains(&String::from("/usr/bin/python3")));
    assert!(c.contains(&String::from("/usr/bin/python3.8")));
}

#[test]
fn no_conda_prefix_drops_its_entries() {
    let with = build_candidates("/h", "/h/.pyenv", Some("/envs/x"));
    let without = build_candidates("/h", "/h/.pyenv", None);
    assert_eq!(with.len(), without.len() + 2);
    assert!(!without.contains(&String::from("/envs/x/bin/python3")));
}

#[test]
fn stepwise_run_accepts_and_advances() {
    let candidates = vec![String::from("/a"), String::from("/b")];
    match resolver_step(&candidates, 0, fail()) {
        ResolverStep::Continue(j) => assert_eq!(j, 1),
        other => panic!("unexpected {other:?}"),
    }
    match resolver_step(&candidates, 1, pass()) {
        ResolverStep::Accept(c) => assert_eq!(c, "/b"),
        other => panic!("unexpected {other:?}"),
    }
    match resolver_step(&candidates, 1, fail()) {
        ResolverStep::Exhausted => {}
        other => panic!("unexpected {other:?}"),
    }
}
