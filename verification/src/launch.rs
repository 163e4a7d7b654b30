//! Launch preparation and verification: fixing up the argument vector,
//! choosing the runtime directory, and judging a freshly spawned process.
use vstd::prelude::*;
use crate::KernelError;
use crate::text::contains_seq;
use crate::text::starts_with_seq;
use crate::text::spec_replace;
use crate::text::replace_all;
use crate::text::str_to_chars;
use crate::text::chars_to_string;
use crate::text::starts_with;
use crate::text::str_eq;
use crate::text::contains_sub;

verus! {

/// The placeholder a kernel definition's argument vector carries for the
/// connection file path.
pub open spec fn placeholder_seq() -> Seq<char> {
    "{connection_file}"@
}

/// Every argument with the connection-file placeholder replaced by the
/// descriptor's path, as the launch substitutes it.
pub open spec fn spec_substituted(argv: Seq<Seq<char>>, path: Seq<char>) -> Seq<Seq<char>> {
    argv.map_values(|a: Seq<char>| spec_replace(a, placeholder_seq(), path))
}

/// The argument views of a string vector.
pub open spec fn argv_view(v: Seq<String>) -> Seq<Seq<char>> {
    v.map_values(|s: String| s@)
}

/// Substitutes the connection-file placeholder, everywhere it occurs, in
/// every argument.
pub fn substitute_connection_file(argv: &Vec<String>, path: &str) -> (r: Vec<String>)
    ensures
        argv_view(r@) == spec_substituted(argv_view(argv@), path@),
{
    proof {
        reveal_strlit("{connection_file}");
    }
    let pat = str_to_chars("{connection_file}");
    let rep = str_to_chars(path);
    let mut out: Vec<String> = Vec::new();
    let mut i: usize = 0;
    while i < argv.len()
        invariant
            pat@ == placeholder_seq(),
            pat@.len() > 0,
            rep@ == path@,
            i <= argv@.len(),
            argv_view(out@) =~= spec_substituted(argv_view(argv@), path@).subrange(0, i as int),
        decreases argv@.len() - i,
    {
        let a = str_to_chars(argv[i].as_str());
        let replaced = replace_all(&a, &pat, &rep);
        let cs = chars_to_string(&replaced);
        let ghost csv = cs@;
        let ghost ob = out@;
        out.push(cs);
        proof {
            let target = spec_substituted(argv_view(argv@), path@);
            assert(argv_view(argv@)[i as int] == argv@[i as int]@);
            assert(target[i as int] == spec_replace(argv@[i as int]@, placeholder_seq(), path@));
            assert(argv_view(ob).len() == i as int);
            assert(ob.len() == argv_view(ob).len());
            assert(out@ == ob.push(out@[ob.len() as int]));
            assert forall|j: int| 0 <= j < out@.len() implies argv_view(out@)[j]
                == target.subrange(0, i + 1)[j] by {
                if j < i {
                    assert(out@[j] == ob[j]);
                    assert(argv_view(ob)[j] == target.subrange(0, i as int)[j]);
                } else {
                    assert(out@[j]@ == csv);
                }
            }
            assert(argv_view(out@) =~= target.subrange(0, i + 1));
        }
        i = i + 1;
    }
    proof {
        assert(spec_substituted(argv_view(argv@), path@).subrange(
            0,
            argv@.len() as int,
        ) =~= spec_substituted(argv_view(argv@), path@));
    }
    out
}

/// A bare interpreter token: the generic command a kernel definition names
/// when it does not pin a concrete path.
pub open spec fn spec_is_bare_python(cmd: Seq<char>) -> bool {
    cmd == "python"@ || cmd == "python3"@ || starts_with_seq(cmd, "python3."@)
}

/// Whether this command token needs resolving before launch.
pub fn is_bare_python(cmd: &str) -> (r: bool)
    ensures
        r == spec_is_bare_python(cmd@),
{
    if str_eq(cmd, "python") || str_eq(cmd, "python3") {
        return true;
    }
    let v = str_to_chars(cmd);
    let p = str_to_chars("python3.");
    starts_with(&v, &p)
}

/// The remediation hint derived from a dead kernel's captured standard
/// error: the first matching classification wins, and unrecognized output
/// gets no hint.
pub open spec fn spec_exit_hint(stderr: Seq<char>) -> Seq<char> {
    if contains_seq(stderr, "No module named"@) {
        "\nHint: A required Python module is missing. Try: pip3 install ipykernel"@
    } else if contains_seq(stderr, "Permission denied"@) {
        "\nHint: Permission denied. Check file permissions or try running with appropriate access."@
    } else if contains_seq(stderr, "SyntaxError"@) {
        "\nHint: Python version mismatch. The kernel may need a different Python version."@
    } else {
        Seq::empty()
    }
}

/// Classifies a dead kernel's standard error into a remediation hint.
pub fn exit_hint(stderr: &str) -> (r: String)
    ensures
        r@ == spec_exit_hint(stderr@),
{
    let v = str_to_chars(stderr);
    if contains_sub(&v, &str_to_chars("No module named")) {
        String::from_str(
            "\nHint: A required Python module is missing. Try: pip3 install ipykernel",
        )
    } else if contains_sub(&v, &str_to_chars("Permission denied")) {
        String::from_str(
            "\nHint: Permission denied. Check file permissions or try running with appropriate access.",
        )
    } else if contains_sub(&v, &str_to_chars("SyntaxError")) {
        String::from_str(
            "\nHint: Python version mismatch. The kernel may need a different Python version.",
        )
    } else {
        proof {
            reveal_strlit("");
        }
        String::from_str("")
    }
}

/// The first `max` characters of `s`, or all of it when it is shorter.
pub open spec fn spec_truncated(s: Seq<char>, max: int) -> Seq<char> {
    if s.len() <= max {
        s
    } else {
        s.subrange(0, max)
    }
}

/// Bounds captured diagnostics to at most `max` characters.
pub fn truncate_chars(s: &str, max: usize) -> (r: String)
    ensures
        r@ == spec_truncated(s@, max as int),
{
    let v = str_to_chars(s);
    if v.len() <= max {
        chars_to_string(&v)
    } else {
        let t = crate::text::sub_vec(&v, 0, max);
        chars_to_string(&t)
    }
}

/// The full error text for a kernel that died before verification: the exit
/// status, up to 500 characters of captured standard error when there is
/// any, and the remediation hint.
pub open spec fn spec_exit_message(status: Seq<char>, stderr: Seq<char>) -> Seq<char> {
    "Kernel process exited with status: "@ + status + "."@ + (if stderr.len() == 0 {
        Seq::<char>::empty()
    } else {
        "\n"@ + spec_truncated(stderr, 500)
    }) + spec_exit_hint(stderr)
}

/// Judges the liveness check made after the startup grace period: a process
/// still running passes; one that already exited becomes a
/// `ProcessExitedEarly` error carrying the status, the bounded diagnostics
/// and the hint. `exited` carries the rendered exit status and the captured
/// standard error when the process was found dead.
pub fn liveness_outcome(exited: Option<(String, String)>) -> (r: Result<(), KernelError>)
    ensures
        match exited {
            None => r is Ok,
            Some((status, stderr)) => r matches Err(e) && (e matches
                KernelError::ProcessExitedEarly(m) && m@ == spec_exit_message(status@, stderr@)),
        },
{
    match exited {
        None => Ok(()),
        Some((status, stderr)) => {
            let mut m = String::from_str("Kernel process exited with status: ");
            m.append(status.as_str());
            m.append(".");
            if !stderr.as_str().is_empty() {
                m.append("\n");
                let t = truncate_chars(stderr.as_str(), 500);
                m.append(t.as_str());
            }
            let h = exit_hint(stderr.as_str());
            m.append(h.as_str());
            proof {
                assert(m@ =~= spec_exit_message(status@, stderr@));
            }
            Err(KernelError::ProcessExitedEarly(m))
        },
    }
}

/// The host platform, where the runtime directory differs.
#[derive(Clone, Copy, Debug, PartialEq, Eq, Structural)]
pub enum HostOs {
    MacOs,
    Linux,
    Windows,
}

/// The runtime directory the connection descriptor is written in: the
/// platform's conventional location, preferring the session runtime
/// directory on Linux and the roaming profile on Windows when the
/// environment provides them.
pub open spec fn spec_runtime_dir(
    os: HostOs,
    home: Seq<char>,
    xdg_runtime: Option<Seq<char>>,
    appdata: Option<Seq<char>>,
) -> Seq<char> {
    match os {
        HostOs::Windows => match appdata {
            Some(a) => a + "\\jupyter\\runtime"@,
            None => home + "\\AppData\\Roaming\\jupyter\\runtime"@,
        },
        HostOs::Linux => match xdg_runtime {
            Some(x) => x + "/jupyter"@,
            None => home + "/.local/share/jupyter/runtime"@,
        },
        HostOs::MacOs => home + "/Library/Jupyter/runtime"@,
    }
}

/// Computes the runtime directory from the platform and environment values
/// the embedding reads.
pub fn runtime_dir(
    os: HostOs,
    home: &str,
    xdg_runtime: Option<&str>,
    appdata: Option<&str>,
) -> (r: String)
    ensures
        r@ == spec_runtime_dir(
            os,
            home@,
            match xdg_runtime {
                Some(x) => Some(x@),
                None => None,
            },
            match appdata {
                Some(a) => Some(a@),
                None => None,
            },
        ),
{
    match os {
        HostOs::Windows => match appdata {
            Some(a) => {
                let mut s = String::from_str(a);
                s.append("\\jupyter\\runtime");
                s
            },
            None => {
                let mut s = String::from_str(home);
                s.append("\\AppData\\Roaming\\jupyter\\runtime");
                s
            },
        },
        HostOs::Linux => match xdg_runtime {
            Some(x) => {
                let mut s = String::from_str(x);
                s.append("/jupyter");
                s
            },
            None => {
                let mut s = String::from_str(home);
                s.append("/.local/share/jupyter/runtime");
                s
            },
        },
        HostOs::MacOs => {
            let mut s = String::from_str(home);
            s.append("/Library/Jupyter/runtime");
            s
        },
    }
}

} // verus!
