//! Kernel definition discovery: the search roots, the defaults a definition
//! file's optional fields fall back to, and deduplication by name with the
//! first find winning. Reading directories and running the host discovery
//! command is the embedding's work; what is kept, under which name, is
//! decided here.
use vstd::prelude::*;
use crate::text::str_eq;

verus! {

/// One discovered kernel definition: an immutable record of its unique
/// name, display name, language tag, and definition directory.
#[derive(Clone, Debug, PartialEq, Eq)]
pub struct KernelSpec {
    pub name: String,
    pub display_name: String,
    pub language: String,
    pub path: String,
}

/// Builds a discovery record from a definition directory's name and path
/// and the optional fields of its definition file: a missing display name
/// or language falls back to the directory name.
pub fn make_kernel_spec(
    dir_name: &str,
    dir_path: &str,
    display_name: Option<String>,
    language: Option<String>,
) -> (r: KernelSpec)
    ensures
        r.name@ == dir_name@,
        r.path@ == dir_path@,
        r.display_name@ == (match display_name {
            Some(d) => d@,
            None => dir_name@,
        }),
        r.language@ == (match language {
            Some(l) => l@,
            None => dir_name@,
        }),
{
    let display = match display_name {
        Some(d) => d,
        None => String::from_str(dir_name),
    };
    let lang = match language {
        Some(l) => l,
        None => String::from_str(dir_name),
    };
    KernelSpec {
        name: String::from_str(dir_name),
        display_name: display,
        language: lang,
        path: String::from_str(dir_path),
    }
}

fn clone_spec(s: &KernelSpec) -> (r: KernelSpec)
    ensures
        r == *s,
{
    KernelSpec {
        name: s.name.clone(),
        display_name: s.display_name.clone(),
        language: s.language.clone(),
        path: s.path.clone(),
    }
}

/// Whether some record in `v` carries this name.
pub open spec fn has_name(s: Seq<KernelSpec>, name: Seq<char>) -> bool {
    exists|j: int| 0 <= j < s.len() && s[j].name@ == name
}

fn contains_name(v: &Vec<KernelSpec>, name: &str) -> (r: bool)
    ensures
        r == has_name(v@, name@),
{
    let n = v.len();
    let mut i: usize = 0;
    while i < n
        invariant
            n == v@.len(),
            i <= n,
            forall|j: int| 0 <= j < i ==> v@[j].name@ != name@,
        decreases n - i,
    {
        if str_eq(v[i].name.as_str(), name) {
            proof {
                assert(v@[i as int].name@ == name@);
            }
            return true;
        }
        i = i + 1;
    }
    false
}

/// `e` stands at some position below `bound` in `s`, and no earlier record
/// shares its name: `e` is the first record of its name.
pub open spec fn first_source_within(s: Seq<KernelSpec>, bound: int, e: KernelSpec) -> bool {
    exists|k: int|
        0 <= k < bound && #[trigger] s[k] == e && (forall|k2: int|
            0 <= k2 < k ==> s[k2].name@ != e.name@)
}

proof fn lemma_first_source_widen(s: Seq<KernelSpec>, b1: int, b2: int, e: KernelSpec)
    requires
        first_source_within(s, b1, e),
        b1 <= b2,
    ensures
        first_source_within(s, b2, e),
{
    let k = choose|k: int|
        0 <= k < b1 && #[trigger] s[k] == e && (forall|k2: int|
            0 <= k2 < k ==> s[k2].name@ != e.name@);
    assert(0 <= k < b2 && s[k] == e);
}

/// Keeps, for each name, the first record that carries it, in input order.
///
/// The result has pairwise distinct names; every kept record is the first
/// input record of its name; and no name of the input is lost.
pub fn dedup_specs(specs: Vec<KernelSpec>) -> (r: Vec<KernelSpec>)
    ensures
        forall|j1: int, j2: int| 0 <= j1 < j2 < r@.len() ==> r@[j1].name@ != r@[j2].name@,
        forall|j: int|
            0 <= j < r@.len() ==> first_source_within(specs@, specs@.len() as int, #[trigger] r@[j]),
        forall|k: int| 0 <= k < specs@.len() ==> has_name(r@, #[trigger] specs@[k].name@),
{
    let n = specs.len();
    let mut out: Vec<KernelSpec> = Vec::new();
    let mut i: usize = 0;
    while i < n
        invariant
            n == specs@.len(),
            i <= n,
            forall|j1: int, j2: int|
                0 <= j1 < j2 < out@.len() ==> out@[j1].name@ != out@[j2].name@,
            forall|j: int|
                0 <= j < out@.len() ==> first_source_within(specs@, i as int, #[trigger] out@[j]),
            forall|k: int| 0 <= k < i ==> has_name(out@, #[trigger] specs@[k].name@),
        decreases n - i,
    {
        let ghost out_before = out@;
        let s = &specs[i];
        if !contains_name(&out, s.name.as_str()) {
            out.push(clone_spec(s));
            proof {
                assert forall|k2: int| 0 <= k2 < i implies specs@[k2].name@ != specs@[
                    i as int
                ].name@ by {
                    assert(has_name(out_before, specs@[k2].name@));
                }
                assert(specs@[i as int] == out@[out@.len() - 1]);
                assert(first_source_within(specs@, i + 1, out@[out@.len() - 1]));
                assert forall|j: int|
                    0 <= j < out@.len() implies first_source_within(
                    specs@,
                    i + 1,
                    #[trigger] out@[j],
                ) by {
                    if j < out@.len() - 1 {
                        assert(out@[j] == out_before[j]);
                        lemma_first_source_widen(specs@, i as int, i + 1, out@[j]);
                    }
                }
                assert forall|k: int| 0 <= k < i + 1 implies has_name(
                    out@,
                    #[trigger] specs@[k].name@,
                ) by {
                    if k < i {
                        let j = choose|j: int|
                            0 <= j < out_before.len() && out_before[j].name@ == specs@[k].name@;
                        assert(out@[j].name@ == specs@[k].name@);
                    } else {
                        assert(out@[out@.len() - 1].name@ == specs@[k].name@);
                    }
                }
            }
        } else {
            proof {
                assert forall|k: int| 0 <= k < i + 1 implies has_name(
                    out@,
                    #[trigger] specs@[k].name@,
                ) by {
                    if k == i {
                        assert(has_name(out@, specs@[i as int].name@));
                    }
                }
            }
        }
        i = i + 1;
    }
    proof {
        assert forall|j: int|
            0 <= j < out@.len() implies first_source_within(
            specs@,
            specs@.len() as int,
            #[trigger] out@[j],
        ) by {
            lemma_first_source_widen(specs@, i as int, specs@.len() as int, out@[j]);
        }
    }
    out
}

/// The fallback search roots for kernel definitions, in scan order: the
/// user library, per-minor-version user Python shares, the user-local
/// share, the system shares, and conda-style roots; on Windows the roaming
/// and machine-wide application data roots are appended when the
/// environment provides them.
pub open spec fn spec_search_roots(
    home: Seq<char>,
    appdata: Option<Seq<char>>,
    programdata: Option<Seq<char>>,
) -> Seq<Seq<char>> {
    let base = seq![
        home + "/Library/Jupyter/kernels"@,
        home + "/Library/Python/3.9/share/jupyter/kernels"@,
        home + "/Library/Python/3.10/share/jupyter/kernels"@,
        home + "/Library/Python/3.11/share/jupyter/kernels"@,
        home + "/Library/Python/3.12/share/jupyter/kernels"@,
        home + "/Library/Python/3.13/share/jupyter/kernels"@,
        home + "/.local/share/jupyter/kernels"@,
        "/usr/local/share/jupyter/kernels"@,
        "/usr/share/jupyter/kernels"@,
        home + "/miniconda3/share/jupyter/kernels"@,
        home + "/anaconda3/share/jupyter/kernels"@,
        home + "/miniforge3/share/jupyter/kernels"@,
    ];
    let with_appdata = match appdata {
        Some(a) => base + seq![a + "\\jupyter\\kernels"@],
        None => base,
    };
    match programdata {
        Some(p) => with_appdata + seq![p + "\\jupyter\\kernels"@],
        None => with_appdata,
    }
}

fn push_lit(out: &mut Vec<String>, a: &str)
    ensures
        final(out)@.len() == old(out)@.len() + 1,
        final(out)@.map_values(|s: String| s@) =~= old(out)@.map_values(|s: String| s@).push(a@),
{
    out.push(String::from_str(a));
}

fn push_joined(out: &mut Vec<String>, a: &str, b: &str)
    ensures
        final(out)@.len() == old(out)@.len() + 1,
        final(out)@.map_values(|s: String| s@) =~= old(out)@.map_values(|s: String| s@).push(
            a@ + b@,
        ),
{
    let mut s = String::from_str(a);
    s.append(b);
    out.push(s);
}

/// Builds the fallback search roots for a home directory and the optional
/// Windows environment roots.
pub fn search_roots(home: &str, appdata: Option<&str>, programdata: Option<&str>) -> (r: Vec<
    String,
>)
    ensures
        r@.map_values(|s: String| s@) == spec_search_roots(
            home@,
            match appdata {
                Some(a) => Some(a@),
                None => None,
            },
            match programdata {
                Some(p) => Some(p@),
                None => None,
            },
        ),
{
    let mut out: Vec<String> = Vec::new();
    push_joined(&mut out, home, "/Library/Jupyter/kernels");
    push_joined(&mut out, home, "/Library/Python/3.9/share/jupyter/kernels");
    push_joined(&mut out, home, "/Library/Python/3.10/share/jupyter/kernels");
    push_joined(&mut out, home, "/Library/Python/3.11/share/jupyter/kernels");
    push_joined(&mut out, home, "/Library/Python/3.12/share/jupyter/kernels");
    push_joined(&mut out, home, "/Library/Python/3.13/share/jupyter/kernels");
    proof {
        assert(out@.map_values(|s: String| s@) =~= seq![
            home@ + "/Library/Jupyter/kernels"@,
            home@ + "/Library/Python/3.9/share/jupyter/kernels"@,
            home@ + "/Library/Python/3.10/share/jupyter/kernels"@,
            home@ + "/Library/Python/3.11/share/jupyter/kernels"@,
            home@ + "/Library/Python/3.12/share/jupyter/kernels"@,
            home@ + "/Library/Python/3.13/share/jupyter/kernels"@,
        ]);
    }
    let ghost half = out@.map_values(|s: String| s@);
    push_joined(&mut out, home, "/.local/share/jupyter/kernels");
    push_lit(&mut out, "/usr/local/share/jupyter/kernels");
    push_lit(&mut out, "/usr/share/jupyter/kernels");
    push_joined(&mut out, home, "/miniconda3/share/jupyter/kernels");
    push_joined(&mut out, home, "/anaconda3/share/jupyter/kernels");
    push_joined(&mut out, home, "/miniforge3/share/jupyter/kernels");
    proof {
        assert(out@.map_values(|s: String| s@) =~= half + seq![
            home@ + "/.local/share/jupyter/kernels"@,
            "/usr/local/share/jupyter/kernels"@,
            "/usr/share/jupyter/kernels"@,
            home@ + "/miniconda3/share/jupyter/kernels"@,
            home@ + "/anaconda3/share/jupyter/kernels"@,
            home@ + "/miniforge3/share/jupyter/kernels"@,
        ]);
        assert(out@.map_values(|s: String| s@) =~= spec_search_roots(home@, None, None));
    }
    let ghost base = out@.map_values(|s: String| s@);
    match appdata {
        Some(a) => {
            push_joined(&mut out, a, "\\jupyter\\kernels");
            proof {
                assert(out@.map_values(|s: String| s@) =~= base + seq![
                    a@ + "\\jupyter\\kernels"@,
                ]);
            }
        },
        None => {},
    }
    let ghost with_ad = out@.map_values(|s: String| s@);
    match programdata {
        Some(p) => {
            push_joined(&mut out, p, "\\jupyter\\kernels");
            proof {
                assert(out@.map_values(|s: String| s@) =~= with_ad + seq![
                    p@ + "\\jupyter\\kernels"@,
                ]);
            }
        },
        None => {},
    }
    proof {
        assert(out@.map_values(|s: String| s@) == spec_search_roots(
            home@,
            match appdata {
                Some(a) => Some(a@),
                None => None,
            },
            match programdata {
                Some(p) => Some(p@),
                None => None,
            },
        ));
    }
    out
}

} // verus!
