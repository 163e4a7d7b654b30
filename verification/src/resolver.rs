//! The interpreter resolver: given a bare command token from a kernel
//! definition, pick a concrete executable that carries the kernel runtime
//! library. The probe itself is a subprocess the embedding runs; every
//! choice — the candidate list, its priority order, and which outcome is
//! accepted — is decided here.
use vstd::prelude::*;
use crate::KernelError;
use crate::text::spec_dec;
use crate::text::format_u64;
use crate::text::chars_to_string;

verus! {

/// The outcome of probing one candidate path: whether it exists on disk,
/// and whether the capability probe passed.
#[derive(Clone, Copy, Debug, PartialEq, Eq, Structural)]
pub struct ProbeOutcome {
    pub exists: bool,
    pub has_kernel: bool,
}

/// A candidate is accepted when it exists and passes the probe.
pub open spec fn probe_passes(p: ProbeOutcome) -> bool {
    p.exists && p.has_kernel
}

/// The two pyenv shim paths under a pyenv root.
pub open spec fn pyenv_group(root: Seq<char>) -> Seq<Seq<char>> {
    seq![root + "/shims/python3"@, root + "/shims/python"@]
}

/// The interpreter paths of an active conda prefix, if one is set.
pub open spec fn conda_prefix_group(prefix: Option<Seq<char>>) -> Seq<Seq<char>> {
    match prefix {
        Some(p) => seq![p + "/bin/python3"@, p + "/bin/python"@],
        None => Seq::empty(),
    }
}

/// The per-user conda-style install roots under the home directory.
pub open spec fn conda_home_group(home: Seq<char>) -> Seq<Seq<char>> {
    seq![
        home + "/miniconda3/bin/python3"@,
        home + "/miniforge3/bin/python3"@,
        home + "/mambaforge/bin/python3"@,
        home + "/anaconda3/bin/python3"@,
    ]
}

/// The Homebrew and generic local install paths.
pub open spec fn brew_group() -> Seq<Seq<char>> {
    seq!["/opt/homebrew/bin/python3"@, "/usr/local/bin/python3"@]
}

/// The per-minor-version paths for minors `9..=m`, highest minor first:
/// a user-library and a framework path per minor.
pub open spec fn mac_version_group(home: Seq<char>, m: int) -> Seq<Seq<char>>
    decreases m,
{
    if m < 9 {
        Seq::empty()
    } else {
        seq![
            home + "/Library/Python/3."@ + spec_dec(m as nat) + "/bin/python3"@,
            "/Library/Frameworks/Python.framework/Versions/3."@ + spec_dec(m as nat)
                + "/bin/python3"@,
        ] + mac_version_group(home, m - 1)
    }
}

/// The system interpreter paths.
pub open spec fn system_group() -> Seq<Seq<char>> {
    seq!["/usr/bin/python3"@, "/usr/bin/python"@]
}

/// The per-minor-version system paths for minors `8..=m`, highest first.
pub open spec fn linux_version_group(m: int) -> Seq<Seq<char>>
    decreases m,
{
    if m < 8 {
        Seq::empty()
    } else {
        seq!["/usr/bin/python3."@ + spec_dec(m as nat)] + linux_version_group(m - 1)
    }
}

/// The complete candidate list, in priority order: pyenv shims, the active
/// conda prefix, per-user conda roots, Homebrew, per-minor-version user and
/// framework paths, the system interpreters, per-minor-version system
/// paths, and the user-local path. Earlier entries are higher-specificity
/// environments and are preferred.
pub open spec fn spec_candidates(
    home: Seq<char>,
    pyenv_root: Seq<char>,
    conda_prefix: Option<Seq<char>>,
) -> Seq<Seq<char>> {
    pyenv_group(pyenv_root) + conda_prefix_group(conda_prefix) + conda_home_group(home)
        + brew_group() + mac_version_group(home, 15) + system_group() + linux_version_group(14)
        + seq![home + "/.local/bin/python3"@]
}

/// The candidate views of a string vector.
pub open spec fn cand_view(v: Seq<String>) -> Seq<Seq<char>> {
    v.map_values(|s: String| s@)
}

fn push_joined(out: &mut Vec<String>, a: &str, b: &str)
    ensures
        final(out)@.len() == old(out)@.len() + 1,
        cand_view(final(out)@) =~= cand_view(old(out)@).push(a@ + b@),
{
    let mut s = String::from_str(a);
    s.append(b);
    out.push(s);
}

/// Builds the candidate list for a home directory, a pyenv root (already
/// defaulted to `<home>/.pyenv` by the caller when the variable is unset)
/// and the active conda prefix, if any.
pub fn build_candidates(home: &str, pyenv_root: &str, conda_prefix: Option<&str>) -> (r: Vec<
    String,
>)
    ensures
        cand_view(r@) == spec_candidates(
            home@,
            pyenv_root@,
            match conda_prefix {
                Some(p) => Some(p@),
                None => None,
            },
        ),
{
    let ghost cp: Option<Seq<char>> = match conda_prefix {
        Some(p) => Some(p@),
        None => None,
    };
    let mut out: Vec<String> = Vec::new();
    push_joined(&mut out, pyenv_root, "/shims/python3");
    push_joined(&mut out, pyenv_root, "/shims/python");
    proof {
        assert(cand_view(out@) =~= pyenv_group(pyenv_root@));
    }
    match conda_prefix {
        Some(p) => {
            push_joined(&mut out, p, "/bin/python3");
            push_joined(&mut out, p, "/bin/python");
            proof {
                assert(cand_view(out@) =~= pyenv_group(pyenv_root@) + conda_prefix_group(cp));
            }
        },
        None => {
            proof {
                assert(cand_view(out@) =~= pyenv_group(pyenv_root@) + conda_prefix_group(cp));
            }
        },
    }
    let ghost g2 = cand_view(out@);
    push_joined(&mut out, home, "/miniconda3/bin/python3");
    push_joined(&mut out, home, "/miniforge3/bin/python3");
    push_joined(&mut out, home, "/mambaforge/bin/python3");
    push_joined(&mut out, home, "/anaconda3/bin/python3");
    proof {
        assert(cand_view(out@) =~= g2 + conda_home_group(home@));
    }
    let ghost g3 = cand_view(out@);
    out.push(String::from_str("/opt/homebrew/bin/python3"));
    out.push(String::from_str("/usr/local/bin/python3"));
    proof {
        assert(cand_view(out@) =~= g3 + brew_group());
        assert(cand_view(out@) =~= pyenv_group(pyenv_root@) + conda_prefix_group(cp)
            + conda_home_group(home@) + brew_group());
    }
    let ghost spec_pre = cand_view(out@);
    let mut m: u64 = 15;
    while m >= 9
        invariant
            9 <= m + 1 <= 16,
            cand_view(out@) + mac_version_group(home@, m as int) =~= spec_pre + mac_version_group(
                home@,
                15,
            ),
        decreases m,
    {
        let ghost before = cand_view(out@);
        let minor = format_u64(m);
        let minor_s = chars_to_string(&minor);
        let mut s1 = String::from_str(home);
        s1.append("/Library/Python/3.");
        s1.append(minor_s.as_str());
        s1.append("/bin/python3");
        out.push(s1);
        let mut s2 = String::from_str("/Library/Frameworks/Python.framework/Versions/3.");
        s2.append(minor_s.as_str());
        s2.append("/bin/python3");
        out.push(s2);
        proof {
            assert(cand_view(out@) =~= before.push(
                home@ + "/Library/Python/3."@ + spec_dec(m as nat) + "/bin/python3"@,
            ).push(
                "/Library/Frameworks/Python.framework/Versions/3."@ + spec_dec(m as nat)
                    + "/bin/python3"@,
            ));
            assert(cand_view(out@) + mac_version_group(home@, m - 1) =~= before
                + mac_version_group(home@, m as int));
        }
        m = m - 1;
    }
    proof {
        assert(mac_version_group(home@, m as int) =~= Seq::<Seq<char>>::empty());
        assert(cand_view(out@) =~= spec_pre + mac_version_group(home@, 15));
    }
    out.push(String::from_str("/usr/bin/python3"));
    out.push(String::from_str("/usr/bin/python"));
    proof {
        assert(cand_view(out@) =~= spec_pre + mac_version_group(home@, 15) + system_group());
    }
    let ghost spec_pre2 = cand_view(out@);
    let mut lm: u64 = 14;
    while lm >= 8
        invariant
            8 <= lm + 1 <= 15,
            cand_view(out@) + linux_version_group(lm as int) =~= spec_pre2 + linux_version_group(
                14,
            ),
        decreases lm,
    {
        let ghost before = cand_view(out@);
        let minor = format_u64(lm);
        let minor_s = chars_to_string(&minor);
        let mut s1 = String::from_str("/usr/bin/python3.");
        s1.append(minor_s.as_str());
        out.push(s1);
        proof {
            assert(cand_view(out@) =~= before.push("/usr/bin/python3."@ + spec_dec(lm as nat)));
            assert(cand_view(out@) + linux_version_group(lm - 1) =~= before + linux_version_group(
                lm as int,
            ));
        }
        lm = lm - 1;
    }
    proof {
        assert(linux_version_group(lm as int) =~= Seq::<Seq<char>>::empty());
        assert(cand_view(out@) =~= spec_pre2 + linux_version_group(14));
    }
    push_joined(&mut out, home, "/.local/bin/python3");
    proof {
        assert(cand_view(out@) =~= spec_pre2 + linux_version_group(14) + seq![
            home@ + "/.local/bin/python3"@,
        ]);
        assert(cand_view(out@) == spec_candidates(home@, pyenv_root@, cp));
    }
    out
}

/// What the driver does after probing one candidate.
#[derive(Debug, PartialEq, Eq)]
pub enum ResolverStep {
    /// This candidate passed: use it.
    Accept(String),
    /// Probe the candidate at this index next.
    Continue(usize),
    /// Every candidate has been probed and none passed.
    Exhausted,
}

/// One step of the lazy resolver run: the candidate at `i` was probed with
/// this outcome. A passing candidate is accepted on the spot, so no later
/// candidate is ever probed — each probe costs one subprocess at most.
pub fn resolver_step(candidates: &Vec<String>, i: usize, outcome: ProbeOutcome) -> (r: ResolverStep)
    requires
        i < candidates@.len(),
    ensures
        probe_passes(outcome) ==> (r matches ResolverStep::Accept(c) && c@ == candidates@[
            i as int
        ]@),
        !probe_passes(outcome) && i + 1 < candidates@.len() ==> (r matches ResolverStep::Continue(
            j,
        ) && j == i + 1),
        !probe_passes(outcome) && i + 1 == candidates@.len() ==> r is Exhausted,
{
    let n = candidates.len();
    if outcome.exists && outcome.has_kernel {
        ResolverStep::Accept(candidates[i].clone())
    } else if i < n - 1 {
        ResolverStep::Continue(i + 1)
    } else {
        ResolverStep::Exhausted
    }
}

/// The remediation text a failed resolution carries, surfaced verbatim.
pub fn not_found_message() -> (r: String)
    ensures
        r@
            == "Could not find a Python interpreter with ipykernel installed.\nInstall it with: pip3 install ipykernel\nThen restart or click Re-check in the notebook toolbar."@,
{
    String::from_str(
        "Could not find a Python interpreter with ipykernel installed.\nInstall it with: pip3 install ipykernel\nThen restart or click Re-check in the notebook toolbar.",
    )
}

/// Resolver precedence, decided over the complete probe record: when the
/// bare command itself passes the capability probe it is returned unchanged,
/// whatever any candidate — including a passing one — would say; otherwise
/// the first candidate, in priority order, that exists and passes is
/// returned; when none does, the resolution fails with the remediation
/// text, never to be retried.
pub fn resolve_interpreter(
    bare: &str,
    bare_has_kernel: bool,
    candidates: &Vec<String>,
    probes: &Vec<ProbeOutcome>,
) -> (r: Result<String, KernelError>)
    requires
        candidates@.len() == probes@.len(),
    ensures
        bare_has_kernel ==> (r matches Ok(c) && c@ == bare@),
        !bare_has_kernel ==> match r {
            Ok(c) => exists|i: int|
                {
                    &&& 0 <= i < candidates@.len()
                    &&& #[trigger] probe_passes(probes@[i])
                    &&& c@ == candidates@[i]@
                    &&& forall|k: int| 0 <= k < i ==> !probe_passes(#[trigger] probes@[k])
                },
            Err(e) => (e matches KernelError::InterpreterNotFound(m) && m@
                == "Could not find a Python interpreter with ipykernel installed.\nInstall it with: pip3 install ipykernel\nThen restart or click Re-check in the notebook toolbar."@)
                && forall|k: int|
                0 <= k < probes@.len() ==> !probe_passes(#[trigger] probes@[k]),
        },
{
    if bare_has_kernel {
        return Ok(String::from_str(bare));
    }
    let n = candidates.len();
    let mut i: usize = 0;
    while i < n
        invariant
            !bare_has_kernel,
            n == candidates@.len() == probes@.len(),
            i <= n,
            forall|k: int| 0 <= k < i ==> !probe_passes(#[trigger] probes@[k]),
        decreases n - i,
    {
        let p = probes[i];
        if p.exists && p.has_kernel {
            proof {
                assert(probe_passes(probes@[i as int]));
            }
            return Ok(candidates[i].clone());
        }
        i = i + 1;
    }
    Err(KernelError::InterpreterNotFound(not_found_message()))
}

} // verus!
