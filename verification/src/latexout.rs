//! TeX compiler integration: classifying compiler output into errors and
//! warnings, and the compiler binary's name and release archive for each
//! platform. Running the compiler is the embedding's work.
use vstd::prelude::*;
use crate::text::contains_seq;
use crate::text::first_occurrence;
use crate::text::spec_is_digit;
use crate::text::spec_dec_val;
use crate::text::spec_trim;
use crate::text::spec_lines;
use crate::text::starts_with_seq;
use crate::text::all_digits;
use crate::text::str_to_chars;
use crate::text::chars_to_string;
use crate::text::trim_chars;
use crate::text::split_lines;
use crate::text::starts_with;
use crate::text::sub_vec;
use crate::text::find_first;
use crate::text::parse_u32;

verus! {

/// One diagnostic from a TeX compile: an optional source line, the message
/// text, and the severity tag, `error` or `warning`.
#[derive(Clone, Debug, PartialEq, Eq)]
pub struct LatexError {
    pub line: Option<u32>,
    pub message: String,
    pub severity: String,
}

/// The outcome of one TeX compile, as reported to the caller.
#[derive(Clone, Debug, PartialEq, Eq)]
pub struct CompileResult {
    pub success: bool,
    pub pdf_path: Option<String>,
    pub synctex_path: Option<String>,
    pub errors: Vec<LatexError>,
    pub warnings: Vec<LatexError>,
    pub log: String,
    pub duration_ms: u64,
}

/// Whether the TeX compiler is installed, and where.
#[derive(Clone, Debug, PartialEq, Eq)]
pub struct TectonicStatus {
    pub installed: bool,
    pub path: Option<String>,
}

/// The index just past the run of ASCII digits starting at `j`.
pub open spec fn digit_run_end(s: Seq<char>, j: int) -> int
    decreases s.len() - j,
{
    if j < 0 || j >= s.len() || !spec_is_digit(s[j]) {
        j
    } else {
        digit_run_end(s, j + 1)
    }
}

/// The line number named by the first `line ` token of a message: the
/// digits that follow it, when there are any and they fit a `u32`.
pub open spec fn spec_extract_line(s: Seq<char>) -> Option<u32> {
    if !contains_seq(s, "line "@) {
        None
    } else {
        let p = choose|p: int| first_occurrence(s, "line "@, p);
        let d0 = p + 5;
        let d1 = digit_run_end(s, d0);
        if d1 > d0 && spec_dec_val(s.subrange(d0, d1)) <= u32::MAX {
            Some(spec_dec_val(s.subrange(d0, d1)) as u32)
        } else {
            None
        }
    }
}

proof fn lemma_first_occurrence_unique(s: Seq<char>, p: Seq<char>, i: int, j: int)
    requires
        first_occurrence(s, p, i),
        first_occurrence(s, p, j),
    ensures
        i == j,
{
}

pub proof fn lemma_digit_run_end_at(s: Seq<char>, j: int, e: int)
    requires
        0 <= j <= e <= s.len(),
        forall|k: int| j <= k < e ==> spec_is_digit(#[trigger] s[k]),
        e < s.len() ==> !spec_is_digit(s[e]),
    ensures
        digit_run_end(s, j) == e,
    decreases e - j,
{
    if j < e {
        lemma_digit_run_end_at(s, j + 1, e);
    }
}

/// Reads the line number out of a diagnostic message, returning the
/// message itself unchanged beside it.
pub fn extract_line_number<'a>(msg: &'a str) -> (r: (Option<u32>, &'a str))
    ensures
        r.1@ == msg@,
        r.0 == spec_extract_line(msg@),
{
    proof {
        reveal_strlit("line ");
    }
    let v = str_to_chars(msg);
    let pat = str_to_chars("line ");
    match find_first(&v, &pat) {
        None => (None, msg),
        Some(p) => {
            let d0 = p + 5;
            let mut d1: usize = d0;
            while d1 < v.len() && crate::text::is_digit(v[d1])
                invariant
                    d0 <= d1 <= v@.len(),
                    forall|k: int| d0 <= k < d1 ==> spec_is_digit(#[trigger] v@[k]),
                decreases v@.len() - d1,
            {
                d1 = d1 + 1;
            }
            proof {
                lemma_digit_run_end_at(v@, d0 as int, d1 as int);
                let pp = choose|pp: int| first_occurrence(v@, pat@, pp);
                lemma_first_occurrence_unique(v@, pat@, p as int, pp);
            }
            if d1 == d0 {
                return (None, msg);
            }
            let digits = sub_vec(&v, d0, d1);
            match parse_u32(&digits) {
                Some(n) => (Some(n), msg),
                None => (None, msg),
            }
        },
    }
}

/// The view of one diagnostic: source line and message text.
pub open spec fn err_view(e: LatexError) -> (Option<u32>, Seq<char>) {
    (e.line, e.message@)
}

/// The views of a diagnostic list.
pub open spec fn errs_view(v: Seq<LatexError>) -> Seq<(Option<u32>, Seq<char>)> {
    v.map_values(|e: LatexError| err_view(e))
}

/// How one line of compiler output changes the accumulated errors and
/// warnings:
/// `error:`-prefixed lines append an error with any `line N` reference;
/// `warning:`-prefixed lines append a warning likewise; `!`-prefixed TeX
/// errors append an error without a line; an `l.N` line attaches `N` to the
/// last error still missing a line; anything else changes nothing.
pub open spec fn spec_tectonic_step(
    errs: Seq<(Option<u32>, Seq<char>)>,
    warns: Seq<(Option<u32>, Seq<char>)>,
    line: Seq<char>,
) -> (Seq<(Option<u32>, Seq<char>)>, Seq<(Option<u32>, Seq<char>)>) {
    let t = spec_trim(line);
    if starts_with_seq(t, "error:"@) {
        let m = spec_trim(t.skip(6));
        (errs.push((spec_extract_line(m), m)), warns)
    } else if starts_with_seq(t, "warning:"@) {
        let m = spec_trim(t.skip(8));
        (errs, warns.push((spec_extract_line(m), m)))
    } else if t.len() > 0 && t.first() == '!' {
        let m = spec_trim(t.drop_first());
        (errs.push((None, m)), warns)
    } else if starts_with_seq(t, "l."@) {
        let rest = t.skip(2);
        let token = rest.subrange(0, digit_run_end2(rest));
        if token.len() > 0 && all_digits(token) && spec_dec_val(token) <= u32::MAX && errs.len()
            > 0 && errs.last().0 is None {
            (
                errs.update(errs.len() - 1, (Some(spec_dec_val(token) as u32), errs.last().1)),
                warns,
            )
        } else {
            (errs, warns)
        }
    } else {
        (errs, warns)
    }
}

/// The first token of `s`: everything before the first space.
pub open spec fn digit_run_end2(s: Seq<char>) -> int {
    if contains_seq(s, " "@) {
        choose|i: int| first_occurrence(s, " "@, i)
    } else {
        s.len() as int
    }
}

/// The classification fold over all lines of the compiler output.
pub open spec fn spec_tectonic(
    lines: Seq<Seq<char>>,
    errs: Seq<(Option<u32>, Seq<char>)>,
    warns: Seq<(Option<u32>, Seq<char>)>,
) -> (Seq<(Option<u32>, Seq<char>)>, Seq<(Option<u32>, Seq<char>)>)
    decreases lines.len(),
{
    if lines.len() == 0 {
        (errs, warns)
    } else {
        let stepped = spec_tectonic_step(errs, warns, lines.first());
        spec_tectonic(lines.drop_first(), stepped.0, stepped.1)
    }
}

/// Classifies TeX compiler output into errors and warnings, line by line.
/// Every returned error carries severity `error` and every warning carries
/// severity `warning`; their lines and messages are exactly the
/// classification fold over the output's lines.
#[verifier::loop_isolation(false)]
pub fn parse_tectonic_output(output: &str) -> (r: (Vec<LatexError>, Vec<LatexError>))
    ensures
        (errs_view(r.0@), errs_view(r.1@)) == spec_tectonic(
            spec_lines(output@),
            Seq::empty(),
            Seq::empty(),
        ),
        forall|i: int| 0 <= i < r.0@.len() ==> (#[trigger] r.0@[i]).severity@ == "error"@,
        forall|i: int| 0 <= i < r.1@.len() ==> (#[trigger] r.1@[i]).severity@ == "warning"@,
{
    proof {
        reveal_strlit("error:");
        reveal_strlit("warning:");
        reveal_strlit("l.");
        reveal_strlit(" ");
        assert("error:"@.len() == 6);
        assert("warning:"@.len() == 8);
        assert("l."@.len() == 2);
        assert(" "@.len() == 1);
    }
    let v = str_to_chars(output);
    let all_lines = split_lines(&v);
    let mut errors: Vec<LatexError> = Vec::new();
    let mut warnings: Vec<LatexError> = Vec::new();
    let n = all_lines.len();
    let mut i: usize = 0;
    let ghost lv = crate::text::lines_view(all_lines@);
    proof {
        assert(lv.skip(0) =~= lv);
        assert(errs_view(errors@) =~= Seq::<(Option<u32>, Seq<char>)>::empty());
        assert(errs_view(warnings@) =~= Seq::<(Option<u32>, Seq<char>)>::empty());
    }
    while i < n
        invariant
            n == all_lines@.len(),
            i <= n,
            lv == crate::text::lines_view(all_lines@),
            spec_tectonic(lv.skip(i as int), errs_view(errors@), errs_view(warnings@))
                == spec_tectonic(lv, Seq::empty(), Seq::empty()),
            forall|k: int| 0 <= k < errors@.len() ==> (#[trigger] errors@[k]).severity@
                == "error"@,
            forall|k: int| 0 <= k < warnings@.len() ==> (#[trigger] warnings@[k]).severity@
                == "warning"@,
        decreases n - i,
    {
        let ghost rest = lv.skip(i as int);
        let ghost e0 = errs_view(errors@);
        let ghost w0 = errs_view(warnings@);
        proof {
            assert(rest.first() == lv[i as int]);
            assert(lv[i as int] == all_lines@[i as int]@);
            assert(rest.drop_first() =~= lv.skip(i + 1));
        }
        let line = &all_lines[i];
        let t = trim_chars(line);
        let ghost stepped = spec_tectonic_step(e0, w0, rest.first());
        if starts_with(&t, &str_to_chars("error:")) {
            let m = trim_chars(&sub_vec(&t, 6, t.len()));
            proof {
                assert(t@.skip(6) =~= t@.subrange(6, t@.len() as int));
            }
            let (ln, _) = extract_line_number(chars_to_string(&m).as_str());
            errors.push(
                LatexError {
                    line: ln,
                    message: chars_to_string(&m),
                    severity: String::from_str("error"),
                },
            );
            proof {
                assert(errs_view(errors@) =~= e0.push((spec_extract_line(m@), m@)));
            }
        } else if starts_with(&t, &str_to_chars("warning:")) {
            let m = trim_chars(&sub_vec(&t, 8, t.len()));
            proof {
                assert(t@.skip(8) =~= t@.subrange(8, t@.len() as int));
            }
            let (ln, _) = extract_line_number(chars_to_string(&m).as_str());
            warnings.push(
                LatexError {
                    line: ln,
                    message: chars_to_string(&m),
                    severity: String::from_str("warning"),
                },
            );
            proof {
                assert(errs_view(warnings@) =~= w0.push((spec_extract_line(m@), m@)));
            }
        } else if t.len() > 0 && t[0] == '!' {
            let m = trim_chars(&sub_vec(&t, 1, t.len()));
            proof {
                assert(t@.drop_first() =~= t@.subrange(1, t@.len() as int));
            }
            errors.push(
                LatexError {
                    line: None,
                    message: chars_to_string(&m),
                    severity: String::from_str("error"),
                },
            );
            proof {
                assert(errs_view(errors@) =~= e0.push((None, m@)));
            }
        } else if starts_with(&t, &str_to_chars("l.")) {
            let rest_t = sub_vec(&t, 2, t.len());
            proof {
                assert(t@.skip(2) =~= t@.subrange(2, t@.len() as int));
            }
            let token_end = match find_first(&rest_t, &str_to_chars(" ")) {
                Some(sp) => sp,
                None => rest_t.len(),
            };
            proof {
                if contains_seq(rest_t@, " "@) {
                    let pp = choose|pp: int| first_occurrence(rest_t@, " "@, pp);
                } else {
                }
                assert(token_end as int == digit_run_end2(rest_t@)) by {
                    if contains_seq(rest_t@, " "@) {
                        let pp = choose|pp: int| first_occurrence(rest_t@, " "@, pp);
                        assert(first_occurrence(rest_t@, " "@, pp));
                    }
                }
            }
            let token = sub_vec(&rest_t, 0, token_end);
            match parse_u32(&token) {
                Some(ln) => {
                    if errors.len() > 0 {
                        let last_idx = errors.len() - 1;
                        let needs_line = errors[last_idx].line.is_none();
                        if needs_line {
                            let old_msg = errors[last_idx].message.clone();
                            errors.set(
                                last_idx,
                                LatexError {
                                    line: Some(ln),
                                    message: old_msg,
                                    severity: String::from_str("error"),
                                },
                            );
                            proof {
                                assert(errs_view(errors@) =~= e0.update(
                                    e0.len() - 1,
                                    (Some(ln), e0.last().1),
                                ));
                            }
                        }
                    }
                },
                None => {},
            }
        }
        proof {
            assert((errs_view(errors@), errs_view(warnings@)) == stepped);
            assert(spec_tectonic(rest, e0, w0) == spec_tectonic(lv.skip(i + 1), stepped.0,
                stepped.1));
        }
        i = i + 1;
    }
    proof {
        assert(lv.skip(n as int) =~= Seq::<Seq<char>>::empty());
    }
    (errors, warnings)
}

/// The compiler binary's file name on this platform.
pub fn tectonic_binary_name(windows: bool) -> (r: &'static str)
    ensures
        windows ==> r@ == "tectonic.exe"@,
        !windows ==> r@ == "tectonic"@,
{
    if windows {
        "tectonic.exe"
    } else {
        "tectonic"
    }
}

/// The processor architectures a compiler release is published for.
#[derive(Clone, Copy, Debug, PartialEq, Eq, Structural)]
pub enum TargetArch {
    Aarch64,
    X86_64,
    Other,
}

/// The platforms a compiler release is published for.
#[derive(Clone, Copy, Debug, PartialEq, Eq, Structural)]
pub enum TargetOs {
    MacOs,
    Linux,
    Windows,
    Other,
}

/// The release archive for a platform: its URL and whether it is a zip
/// archive rather than a tarball. An architecture or platform without a
/// published archive is an error, surfaced verbatim.
pub open spec fn spec_tectonic_url(os: TargetOs, arch: TargetArch) -> Result<
    (Seq<char>, bool),
    Seq<char>,
> {
    if arch is Other {
        Err("Unsupported architecture"@)
    } else {
        let base =
            "https://github.com/tectonic-typesetting/tectonic/releases/download/tectonic%400.15.0/tectonic-0.15.0-"@
            + (if arch is Aarch64 { "aarch64"@ } else { "x86_64"@ });
        match os {
            TargetOs::MacOs => Ok((base + "-apple-darwin.tar.gz"@, false)),
            TargetOs::Linux => Ok((base + "-unknown-linux-musl.tar.gz"@, false)),
            TargetOs::Windows => Ok((base + "-pc-windows-msvc.zip"@, true)),
            TargetOs::Other => Err("Unsupported platform"@),
        }
    }
}

/// The download URL and archive kind of the pinned compiler release for
/// this platform. The Linux build is the statically linked one, so it runs
/// without a particular C library.
pub fn tectonic_download_url(os: TargetOs, arch: TargetArch) -> (r: Result<(String, bool), String>)
    ensures
        match r {
            Ok((url, zip)) => spec_tectonic_url(os, arch) matches Ok(expect) && url@ == expect.0
                && zip == expect.1,
            Err(m) => spec_tectonic_url(os, arch) matches Err(expect) && m@ == expect,
        },
{
    if matches!(arch, TargetArch::Other) {
        return Err(String::from_str("Unsupported architecture"));
    }
    let mut base = String::from_str(
        "https://github.com/tectonic-typesetting/tectonic/releases/download/tectonic%400.15.0/tectonic-0.15.0-",
    );
    if matches!(arch, TargetArch::Aarch64) {
        base.append("aarch64");
    } else {
        base.append("x86_64");
    }
    match os {
        TargetOs::MacOs => {
            base.append("-apple-darwin.tar.gz");
            Ok((base, false))
        },
        TargetOs::Linux => {
            base.append("-unknown-linux-musl.tar.gz");
            Ok((base, false))
        },
        TargetOs::Windows => {
            base.append("-pc-windows-msvc.zip");
            Ok((base, true))
        },
        TargetOs::Other => Err(String::from_str("Unsupported platform")),
    }
}

/// Assembles a compile outcome: the compile succeeded exactly when the
/// compiler exited cleanly and the output document exists.
pub fn make_compile_result(
    status_ok: bool,
    pdf_path: Option<String>,
    synctex_path: Option<String>,
    errors: Vec<LatexError>,
    warnings: Vec<LatexError>,
    log: String,
    duration_ms: u64,
) -> (r: CompileResult)
    ensures
        r.success == (status_ok && pdf_path is Some),
        r.pdf_path == pdf_path,
        r.synctex_path == synctex_path,
        r.errors == errors,
        r.warnings == warnings,
        r.log == log,
        r.duration_ms == duration_ms,
{
    let success = status_ok && pdf_path.is_some();
    CompileResult { success, pdf_path, synctex_path, errors, warnings, log, duration_ms }
}

/// Reports whether the compiler was found, and where: installed exactly
/// when a path was.
pub fn make_tectonic_status(path: Option<String>) -> (r: TectonicStatus)
    ensures
        r.installed == (path is Some),
        r.path == path,
{
    let installed = path.is_some();
    TectonicStatus { installed, path }
}

} // verus!
