//! Markup-export integration: classifying the exporter's diagnostics,
//! escaping text for its string literals, naming the platform triple its
//! sidecar binaries carry, and rewriting citations ahead of parsing.
//! Running the exporter and the markdown parser is the embedding's work.
use vstd::prelude::*;
use crate::latexout::TargetArch;
use crate::latexout::TargetOs;
use crate::text::contains_seq;
use crate::text::first_occurrence;
use crate::text::spec_is_digit;
use crate::text::spec_dec_val;
use crate::text::spec_trim;
use crate::text::spec_lines;
use crate::text::spec_replace;
use crate::text::starts_with_seq;
use crate::text::str_to_chars;
use crate::text::chars_to_string;
use crate::text::trim_chars;
use crate::text::split_lines;
use crate::text::starts_with;
use crate::text::sub_vec;
use crate::text::find_first;
use crate::text::parse_u32;
use crate::text::replace_all;
use crate::latexout::digit_run_end;
use crate::latexout::lemma_digit_run_end_at;

verus! {

/// One diagnostic from a markup export: an optional source line, the
/// message text, and the severity tag.
#[derive(Clone, Debug, PartialEq, Eq)]
pub struct ExportError {
    pub line: Option<u32>,
    pub message: String,
    pub severity: String,
}

/// The outcome of one export, as reported to the caller.
#[derive(Clone, Debug, PartialEq, Eq)]
pub struct ExportResult {
    pub success: bool,
    pub pdf_path: Option<String>,
    pub errors: Vec<ExportError>,
    pub warnings: Vec<ExportError>,
    pub duration_ms: u64,
}

/// The line number named by a diagnostic: the digits right after its first
/// colon. A message whose colon is followed by digits that run to the very
/// end names no line: the reference must have text after the number.
pub open spec fn spec_extract_info_line(s: Seq<char>) -> Option<u32> {
    if !contains_seq(s, ":"@) {
        None
    } else {
        let p = choose|p: int| first_occurrence(s, ":"@, p);
        let d0 = p + 1;
        let d1 = digit_run_end(s, d0);
        if d1 < s.len() && d1 > d0 && spec_dec_val(s.subrange(d0, d1)) <= u32::MAX {
            Some(spec_dec_val(s.subrange(d0, d1)) as u32)
        } else {
            None
        }
    }
}

proof fn lemma_first_occ_unique(s: Seq<char>, p: Seq<char>, i: int, j: int)
    requires
        first_occurrence(s, p, i),
        first_occurrence(s, p, j),
    ensures
        i == j,
{
}

/// Reads the line number out of an exporter diagnostic, returning the
/// message itself unchanged beside it.
pub fn extract_line_info<'a>(msg: &'a str) -> (r: (Option<u32>, &'a str))
    ensures
        r.1@ == msg@,
        r.0 == spec_extract_info_line(msg@),
{
    proof {
        reveal_strlit(":");
        assert(":"@.len() == 1);
    }
    let v = str_to_chars(msg);
    let pat = str_to_chars(":");
    match find_first(&v, &pat) {
        None => (None, msg),
        Some(p) => {
            let d0 = p + 1;
            let mut d1: usize = d0;
            while d1 < v.len() && crate::text::is_digit(v[d1])
                invariant
                    d0 <= d1 <= v@.len(),
                    forall|k: int| d0 <= k < d1 ==> spec_is_digit(#[trigger] v@[k]),
                decreases v@.len() - d1,
            {
                d1 = d1 + 1;
            }
            proof {
                lemma_digit_run_end_at(v@, d0 as int, d1 as int);
                let pp = choose|pp: int| first_occurrence(v@, pat@, pp);
                lemma_first_occ_unique(v@, pat@, p as int, pp);
            }
            if d1 == v.len() || d1 == d0 {
                return (None, msg);
            }
            let digits = sub_vec(&v, d0, d1);
            match parse_u32(&digits) {
                Some(n) => (Some(n), msg),
                None => (None, msg),
            }
        },
    }
}

/// The view of one export diagnostic: source line and message text.
pub open spec fn exp_view(e: ExportError) -> (Option<u32>, Seq<char>) {
    (e.line, e.message@)
}

/// The views of an export diagnostic list.
pub open spec fn exps_view(v: Seq<ExportError>) -> Seq<(Option<u32>, Seq<char>)> {
    v.map_values(|e: ExportError| exp_view(e))
}

/// How one line of exporter output changes the accumulated errors and
/// warnings: `error:`-prefixed lines append an error, `warning:`-prefixed
/// lines append a warning, each with any line reference; anything else
/// changes nothing.
pub open spec fn spec_typst_step(
    errs: Seq<(Option<u32>, Seq<char>)>,
    warns: Seq<(Option<u32>, Seq<char>)>,
    line: Seq<char>,
) -> (Seq<(Option<u32>, Seq<char>)>, Seq<(Option<u32>, Seq<char>)>) {
    let t = spec_trim(line);
    if starts_with_seq(t, "error:"@) {
        let m = spec_trim(t.skip(6));
        (errs.push((spec_extract_info_line(m), m)), warns)
    } else if starts_with_seq(t, "warning:"@) {
        let m = spec_trim(t.skip(8));
        (errs, warns.push((spec_extract_info_line(m), m)))
    } else {
        (errs, warns)
    }
}

/// The classification fold over all lines of the exporter output.
pub open spec fn spec_typst(
    lines: Seq<Seq<char>>,
    errs: Seq<(Option<u32>, Seq<char>)>,
    warns: Seq<(Option<u32>, Seq<char>)>,
) -> (Seq<(Option<u32>, Seq<char>)>, Seq<(Option<u32>, Seq<char>)>)
    decreases lines.len(),
{
    if lines.len() == 0 {
        (errs, warns)
    } else {
        let stepped = spec_typst_step(errs, warns, lines.first());
        spec_typst(lines.drop_first(), stepped.0, stepped.1)
    }
}

/// Classifies exporter diagnostics into errors and warnings, line by line.
#[verifier::loop_isolation(false)]
pub fn parse_typst_output(stderr: &str) -> (r: (Vec<ExportError>, Vec<ExportError>))
    ensures
        (exps_view(r.0@), exps_view(r.1@)) == spec_typst(
            spec_lines(stderr@),
            Seq::empty(),
            Seq::empty(),
        ),
        forall|i: int| 0 <= i < r.0@.len() ==> (#[trigger] r.0@[i]).severity@ == "error"@,
        forall|i: int| 0 <= i < r.1@.len() ==> (#[trigger] r.1@[i]).severity@ == "warning"@,
{
    proof {
        reveal_strlit("error:");
        reveal_strlit("warning:");
        assert("error:"@.len() == 6);
        assert("warning:"@.len() == 8);
    }
    let v = str_to_chars(stderr);
    let all_lines = split_lines(&v);
    let mut errors: Vec<ExportError> = Vec::new();
    let mut warnings: Vec<ExportError> = Vec::new();
    let n = all_lines.len();
    let mut i: usize = 0;
    let ghost lv = crate::text::lines_view(all_lines@);
    proof {
        assert(lv.skip(0) =~= lv);
        assert(exps_view(errors@) =~= Seq::<(Option<u32>, Seq<char>)>::empty());
        assert(exps_view(warnings@) =~= Seq::<(Option<u32>, Seq<char>)>::empty());
    }
    while i < n
        invariant
            i <= n,
            spec_typst(lv.skip(i as int), exps_view(errors@), exps_view(warnings@)) == spec_typst(
                lv,
                Seq::empty(),
                Seq::empty(),
            ),
            forall|k: int| 0 <= k < errors@.len() ==> (#[trigger] errors@[k]).severity@
                == "error"@,
            forall|k: int| 0 <= k < warnings@.len() ==> (#[trigger] warnings@[k]).severity@
                == "warning"@,
        decreases n - i,
    {
        let ghost rest = lv.skip(i as int);
        let ghost e0 = exps_view(errors@);
        let ghost w0 = exps_view(warnings@);
        proof {
            assert(rest.first() == lv[i as int]);
            assert(lv[i as int] == all_lines@[i as int]@);
            assert(rest.drop_first() =~= lv.skip(i + 1));
        }
        let line = &all_lines[i];
        let t = trim_chars(line);
        let ghost stepped = spec_typst_step(e0, w0, rest.first());
        if starts_with(&t, &str_to_chars("error:")) {
            let m = trim_chars(&sub_vec(&t, 6, t.len()));
            proof {
                assert(t@.skip(6) =~= t@.subrange(6, t@.len() as int));
            }
            let (ln, _) = extract_line_info(chars_to_string(&m).as_str());
            errors.push(
                ExportError {
                    line: ln,
                    message: chars_to_string(&m),
                    severity: String::from_str("error"),
                },
            );
            proof {
                assert(exps_view(errors@) =~= e0.push((spec_extract_info_line(m@), m@)));
            }
        } else if starts_with(&t, &str_to_chars("warning:")) {
            let m = trim_chars(&sub_vec(&t, 8, t.len()));
            proof {
                assert(t@.skip(8) =~= t@.subrange(8, t@.len() as int));
            }
            let (ln, _) = extract_line_info(chars_to_string(&m).as_str());
            warnings.push(
                ExportError {
                    line: ln,
                    message: chars_to_string(&m),
                    severity: String::from_str("warning"),
                },
            );
            proof {
                assert(exps_view(warnings@) =~= w0.push((spec_extract_info_line(m@), m@)));
            }
        }
        proof {
            assert((exps_view(errors@), exps_view(warnings@)) == stepped);
            assert(spec_typst(rest, e0, w0) == spec_typst(lv.skip(i + 1), stepped.0, stepped.1));
        }
        i = i + 1;
    }
    proof {
        assert(lv.skip(n as int) =~= Seq::<Seq<char>>::empty());
    }
    (errors, warnings)
}

/// The platform triple a sidecar binary's file name carries: the
/// architecture and platform tags joined by a hyphen, `unknown` where the
/// platform has no published tag.
pub open spec fn spec_target_triple(arch: TargetArch, os: TargetOs) -> Seq<char> {
    (match arch {
        TargetArch::Aarch64 => "aarch64"@,
        TargetArch::X86_64 => "x86_64"@,
        TargetArch::Other => "unknown"@,
    }) + "-"@ + (match os {
        TargetOs::MacOs => "apple-darwin"@,
        TargetOs::Linux => "unknown-linux-gnu"@,
        TargetOs::Windows => "pc-windows-msvc"@,
        TargetOs::Other => "unknown"@,
    })
}

/// Renders the platform triple for this architecture and platform.
pub fn current_target_triple(arch: TargetArch, os: TargetOs) -> (r: String)
    ensures
        r@ == spec_target_triple(arch, os),
{
    let mut s = match arch {
        TargetArch::Aarch64 => String::from_str("aarch64"),
        TargetArch::X86_64 => String::from_str("x86_64"),
        TargetArch::Other => String::from_str("unknown"),
    };
    s.append("-");
    match os {
        TargetOs::MacOs => s.append("apple-darwin"),
        TargetOs::Linux => s.append("unknown-linux-gnu"),
        TargetOs::Windows => s.append("pc-windows-msvc"),
        TargetOs::Other => s.append("unknown"),
    }
    s
}

/// The escaped form of text inside an exporter string literal: every
/// backslash doubled first, then every quote prefixed with a backslash.
pub open spec fn spec_typst_escaped(s: Seq<char>) -> Seq<char> {
    spec_replace(spec_replace(s, seq!['\\'], seq!['\\', '\\']), seq!['"'], seq!['\\', '"'])
}

/// Escapes text for an exporter string literal.
pub fn escape_typst_string(s: &str) -> (r: String)
    ensures
        r@ == spec_typst_escaped(s@),
{
    let v = str_to_chars(s);
    let mut pat1: Vec<char> = Vec::new();
    pat1.push('\\');
    let mut rep1: Vec<char> = Vec::new();
    rep1.push('\\');
    rep1.push('\\');
    let step1 = replace_all(&v, &pat1, &rep1);
    let mut pat2: Vec<char> = Vec::new();
    pat2.push('"');
    let mut rep2: Vec<char> = Vec::new();
    rep2.push('\\');
    rep2.push('"');
    let step2 = replace_all(&step1, &pat2, &rep2);
    proof {
        assert(pat1@ =~= seq!['\\']);
        assert(rep1@ =~= seq!['\\', '\\']);
        assert(pat2@ =~= seq!['"']);
        assert(rep2@ =~= seq!['\\', '"']);
    }
    chars_to_string(&step2)
}

/// Assembles an export outcome: the export succeeded exactly when the
/// exporter exited cleanly, and only a successful export names a document.
pub fn make_export_result(
    status_ok: bool,
    pdf_path: Option<String>,
    errors: Vec<ExportError>,
    warnings: Vec<ExportError>,
    duration_ms: u64,
) -> (r: ExportResult)
    ensures
        r.success == status_ok,
        status_ok ==> r.pdf_path == pdf_path,
        !status_ok ==> r.pdf_path is None,
        r.errors == errors,
        r.warnings == warnings,
        r.duration_ms == duration_ms,
{
    if status_ok {
        ExportResult { success: true, pdf_path, errors, warnings, duration_ms }
    } else {
        ExportResult { success: false, pdf_path: None, errors, warnings, duration_ms }
    }
}

/// The first non-whitespace position at or after `from`, or `s.len()`.
pub open spec fn ws_run_end(s: Seq<char>, from: int) -> int
    decreases s.len() - from,
{
    if from < 0 || from >= s.len() || !crate::text::is_ws_char(s[from]) {
        from
    } else {
        ws_run_end(s, from + 1)
    }
}

/// The first whitespace position at or after `from`, or `s.len()`.
pub open spec fn nonws_run_end(s: Seq<char>, from: int) -> int
    decreases s.len() - from,
{
    if from < 0 || from >= s.len() || crate::text::is_ws_char(s[from]) {
        from
    } else {
        nonws_run_end(s, from + 1)
    }
}

proof fn lemma_ws_run_end_at(s: Seq<char>, from: int, j: int, ws: bool)
    requires
        0 <= from <= j <= s.len(),
        forall|k: int| from <= k < j ==> crate::text::is_ws_char(#[trigger] s[k]) == ws,
        j < s.len() ==> crate::text::is_ws_char(s[j]) != ws,
    ensures
        ws ==> ws_run_end(s, from) == j,
        !ws ==> nonws_run_end(s, from) == j,
    decreases j - from,
{
    if from < j {
        lemma_ws_run_end_at(s, from + 1, j, ws);
    }
}

/// The first whitespace-separated token of `s`: skip the leading
/// whitespace, take until the next whitespace.
pub open spec fn first_token(s: Seq<char>) -> Seq<char> {
    let a = ws_run_end(s, 0);
    let b = nonws_run_end(s, a);
    s.subrange(a, b)
}

fn first_token_exec(v: &Vec<char>) -> (r: Vec<char>)
    ensures
        r@ == first_token(v@),
{
    let n = v.len();
    let mut a: usize = 0;
    while a < n && crate::text::is_ws(v[a])
        invariant
            a <= n,
            n == v@.len(),
            forall|k: int| 0 <= k < a ==> crate::text::is_ws_char(#[trigger] v@[k]),
        decreases n - a,
    {
        a = a + 1;
    }
    proof {
        lemma_ws_run_end_at(v@, 0, a as int, true);
    }
    let mut b: usize = a;
    while b < n && !crate::text::is_ws(v[b])
        invariant
            a <= b <= n,
            n == v@.len(),
            forall|k: int| a <= k < b ==> !crate::text::is_ws_char(#[trigger] v@[k]),
        decreases n - b,
    {
        b = b + 1;
    }
    proof {
        lemma_ws_run_end_at(v@, a as int, b as int, false);
    }
    sub_vec(v, a, b)
}

#[via_fn]
proof fn split_semi_decreases(s: Seq<char>) {
    crate::text::lemma_first_idx_of_bounds(s, 0, ';');
}

/// `s` split at every semicolon, exactly as `str::split(';')` yields the
/// pieces: empty pieces kept, and the empty string one empty piece.
pub open spec fn split_semi(s: Seq<char>) -> Seq<Seq<char>>
    decreases s.len(),
    via split_semi_decreases
{
    let j = crate::text::first_idx_of(s, 0, ';');
    if j >= s.len() {
        seq![s]
    } else {
        seq![s.subrange(0, j)] + split_semi(s.skip(j + 1))
    }
}

/// The citation key a split piece contributes: the piece is trimmed, must
/// begin with `@`, and contributes its first token after the `@`; a bare
/// `@` contributes nothing.
pub open spec fn piece_keys(p: Seq<char>) -> Seq<Seq<char>> {
    let t = spec_trim(p);
    if t.len() > 0 && t.first() == '@' && t.drop_first().len() > 0 {
        seq![first_token(t.drop_first())]
    } else {
        Seq::empty()
    }
}

/// The citation keys of all pieces, in order.
pub open spec fn keys_of(parts: Seq<Seq<char>>) -> Seq<Seq<char>>
    decreases parts.len(),
{
    if parts.len() == 0 {
        Seq::empty()
    } else {
        piece_keys(parts.first()) + keys_of(parts.drop_first())
    }
}

/// The keys a bracketed citation group denotes: each semicolon-separated
/// piece contributes its key.
pub open spec fn spec_group_keys(buf: Seq<char>) -> Seq<Seq<char>> {
    keys_of(split_semi(buf))
}

#[verifier::loop_isolation(false)]
fn parse_group_keys(buf: &Vec<char>) -> (r: Vec<Vec<char>>)
    ensures
        r@.map_values(|k: Vec<char>| k@) == spec_group_keys(buf@),
{
    let mut out: Vec<Vec<char>> = Vec::new();
    let mut pos: usize = 0;
    let ghost whole = buf@;
    proof {
        assert(whole.skip(0) =~= whole);
        assert(out@.map_values(|k: Vec<char>| k@) + keys_of(split_semi(whole)) =~= keys_of(
            split_semi(whole),
        ));
    }
    let n = buf.len();
    let mut done = false;
    while !done
        invariant
            pos <= n,
            n == buf@.len(),
            !done ==> out@.map_values(|k: Vec<char>| k@) + keys_of(split_semi(whole.skip(pos as int)))
                == spec_group_keys(whole),
            done ==> out@.map_values(|k: Vec<char>| k@) == spec_group_keys(whole),
        decreases n - pos + (if done { 0int } else { 1int }),
    {
        let ghost rest = whole.skip(pos as int);
        let j = crate::text::scan_char(buf, pos, ';');
        proof {
            crate::text::lemma_first_idx_of_bounds(rest, 0, ';');
            assert forall|k: int| 0 <= k < j - pos implies rest[k] != ';' by {
                assert(rest[k] == whole[pos + k]);
            }
            if (j as int) < n {
                assert(rest[j - pos] == whole[j as int]);
            }
            lemma_first_idx_piece(rest, j - pos);
        }
        let piece = sub_vec(buf, pos, j);
        proof {
            assert(piece@ =~= rest.subrange(0, j - pos));
        }
        let t = trim_chars(&piece);
        let ghost out0 = out@.map_values(|k: Vec<char>| k@);
        if t.len() > 0 && t[0] == '@' && t.len() > 1 {
            let k = sub_vec(&t, 1, t.len());
            proof {
                assert(k@ =~= t@.drop_first());
            }
            let tok = first_token_exec(&k);
            out.push(tok);
            proof {
                assert(out@.map_values(|k2: Vec<char>| k2@) =~= out0 + piece_keys(
                    rest.subrange(0, j - pos),
                ));
            }
        } else {
            proof {
                assert(piece_keys(rest.subrange(0, j - pos)) =~= Seq::<Seq<char>>::empty());
                assert(out@.map_values(|k2: Vec<char>| k2@) =~= out0 + piece_keys(
                    rest.subrange(0, j - pos),
                ));
            }
        }
        if j < n {
            proof {
                assert(rest.subrange(0, j - pos) =~= rest.subrange(
                    0,
                    crate::text::first_idx_of(rest, 0, ';'),
                ));
                assert(rest.skip(j - pos + 1) =~= whole.skip(j + 1));
                assert(split_semi(rest) == seq![rest.subrange(0, j - pos)] + split_semi(
                    whole.skip(j + 1),
                ));
                let parts = seq![rest.subrange(0, j - pos)] + split_semi(whole.skip(j + 1));
                assert(parts.first() == rest.subrange(0, j - pos));
                assert(parts.drop_first() =~= split_semi(whole.skip(j + 1)));
                assert(keys_of(parts) == piece_keys(rest.subrange(0, j - pos)) + keys_of(
                    parts.drop_first(),
                ));
                assert(keys_of(split_semi(rest)) =~= piece_keys(rest.subrange(0, j - pos))
                    + keys_of(split_semi(whole.skip(j + 1))));
            }
            pos = j + 1;
        } else {
            proof {
                assert(split_semi(rest) == seq![rest]);
                assert(rest.subrange(0, j - pos) =~= rest);
                let parts = seq![rest];
                assert(parts.first() == rest);
                assert(parts.drop_first() =~= Seq::<Seq<char>>::empty());
                assert(keys_of(parts.drop_first()) == Seq::<Seq<char>>::empty());
                assert(keys_of(parts) == piece_keys(rest) + keys_of(parts.drop_first()));
                assert(keys_of(split_semi(rest)) =~= piece_keys(rest));
            }
            pos = j;
            done = true;
        }
    }
    out
}

proof fn lemma_first_idx_piece(rest: Seq<char>, jr: int)
    requires
        0 <= jr <= rest.len(),
        forall|k: int| 0 <= k < jr ==> rest[k] != ';',
        jr < rest.len() ==> rest[jr] == ';',
    ensures
        crate::text::first_idx_of(rest, 0, ';') == jr,
    decreases jr,
{
    lemma_first_idx_gen(rest, 0, jr);
}

proof fn lemma_first_idx_gen(rest: Seq<char>, from: int, jr: int)
    requires
        0 <= from <= jr <= rest.len(),
        forall|k: int| from <= k < jr ==> rest[k] != ';',
        jr < rest.len() ==> rest[jr] == ';',
    ensures
        crate::text::first_idx_of(rest, from, ';') == jr,
    decreases jr - from,
{
    if from < jr {
        lemma_first_idx_gen(rest, from + 1, jr);
    }
}

/// The rewritten form of a citation group's keys: each key prefixed with
/// `@`, the keys joined by single spaces.
pub open spec fn render_keys(keys: Seq<Seq<char>>) -> Seq<char>
    decreases keys.len(),
{
    if keys.len() == 0 {
        Seq::empty()
    } else if keys.len() == 1 {
        seq!['@'] + keys.first()
    } else {
        seq!['@'] + keys.first() + seq![' '] + render_keys(keys.drop_first())
    }
}

#[verifier::loop_isolation(false)]
fn render_keys_exec(keys: &Vec<Vec<char>>) -> (r: Vec<char>)
    ensures
        r@ == render_keys(keys@.map_values(|k: Vec<char>| k@)),
{
    let mut out: Vec<char> = Vec::new();
    let n = keys.len();
    let ghost kv = keys@.map_values(|k: Vec<char>| k@);
    let mut i: usize = 0;
    proof {
        assert(kv.skip(0) =~= kv);
        assert(out@ + render_keys(kv) =~= render_keys(kv));
    }
    while i < n
        invariant
            i <= n,
            out@ + render_keys(kv.skip(i as int)) == render_keys(kv),
        decreases n - i,
    {
        let ghost rest = kv.skip(i as int);
        let ghost out0 = out@;
        out.push('@');
        let mut kc = sub_vec(&keys[i], 0, keys[i].len());
        out.append(&mut kc);
        if i + 1 < n {
            out.push(' ');
        }
        proof {
            assert(rest.first() == kv[i as int]);
            assert(kv[i as int] == keys@[i as int]@);
            assert(rest.drop_first() =~= kv.skip(i + 1));
            if i + 1 < n {
                assert(rest.len() > 1);
                assert(render_keys(rest) == seq!['@'] + rest.first() + seq![' '] + render_keys(
                    rest.drop_first(),
                ));
                assert(out@ =~= out0 + (seq!['@'] + rest.first() + seq![' ']));
            } else {
                assert(rest.len() == 1);
                assert(render_keys(rest) == seq!['@'] + rest.first());
                assert(out@ =~= out0 + (seq!['@'] + rest.first()));
                assert(kv.skip(i + 1) =~= Seq::<Seq<char>>::empty());
            }
            assert(out@ + render_keys(kv.skip(i + 1)) =~= render_keys(kv));
        }
        i = i + 1;
    }
    proof {
        assert(kv.skip(n as int) =~= Seq::<Seq<char>>::empty());
        assert(out@ =~= render_keys(kv));
    }
    out
}

#[via_fn]
proof fn proc_line_decreases(cs: Seq<char>, i: int) {
    if 0 <= i && i < cs.len() {
        crate::text::lemma_first_idx_of_bounds(cs, i + 1, '`');
        crate::text::lemma_first_idx_of_bounds(cs, i + 1, ']');
    }
}

/// One line rewritten, scanning from position `i`: inline code between
/// backticks is copied untouched (an unclosed backtick copies the rest);
/// a bracketed group opening with `[@` and closed by the next `]` is
/// replaced by its rewritten keys, or copied unchanged when it yields no
/// keys; an unclosed group copies the rest; every other character stands.
pub open spec fn proc_line(cs: Seq<char>, i: int) -> Seq<char>
    decreases cs.len() - i,
    via proc_line_decreases
{
    if i < 0 || i >= cs.len() {
        Seq::empty()
    } else if cs[i] == '`' {
        let j = crate::text::first_idx_of(cs, i + 1, '`');
        if j < cs.len() {
            seq!['`'] + cs.subrange(i + 1, j) + seq!['`'] + proc_line(cs, j + 1)
        } else {
            cs.subrange(i, cs.len() as int)
        }
    } else if i + 1 < cs.len() && cs[i] == '[' && cs[i + 1] == '@' {
        let j = crate::text::first_idx_of(cs, i + 1, ']');
        if j < cs.len() {
            let keys = spec_group_keys(cs.subrange(i + 1, j));
            if keys.len() > 0 {
                render_keys(keys) + proc_line(cs, j + 1)
            } else {
                cs.subrange(i, j + 1) + proc_line(cs, j + 1)
            }
        } else {
            cs.subrange(i, cs.len() as int)
        }
    } else {
        seq![cs[i]] + proc_line(cs, i + 1)
    }
}

#[verifier::loop_isolation(false)]
fn proc_line_exec(v: &Vec<char>) -> (r: Vec<char>)
    ensures
        r@ == proc_line(v@, 0),
{
    let n = v.len();
    let mut out: Vec<char> = Vec::new();
    let mut i: usize = 0;
    proof {
        assert(out@ + proc_line(v@, 0) =~= proc_line(v@, 0));
    }
    while i < n
        invariant
            i <= n,
            out@ + proc_line(v@, i as int) == proc_line(v@, 0),
        decreases n - i,
    {
        let ghost out0 = out@;
        let c = v[i];
        if c == '`' {
            let j = crate::text::scan_char(v, i + 1, '`');
            if j < n {
                out.push('`');
                let mut mid = sub_vec(v, i + 1, j);
                out.append(&mut mid);
                out.push('`');
                proof {
                    assert(out@ =~= out0 + (seq!['`'] + v@.subrange(i + 1, j as int) + seq![
                        '`',
                    ]));
                    assert(out@ + proc_line(v@, j + 1) =~= proc_line(v@, 0));
                }
                i = j + 1;
            } else {
                let mut tail = sub_vec(v, i, n);
                out.append(&mut tail);
                proof {
                    assert(out@ =~= out0 + v@.subrange(i as int, n as int));
                    assert(proc_line(v@, n as int) == Seq::<char>::empty());
                    assert(out@ + proc_line(v@, n as int) =~= proc_line(v@, 0));
                }
                i = n;
            }
        } else if c == '[' && i + 1 < n && v[i + 1] == '@' {
            let j = crate::text::scan_char(v, i + 1, ']');
            if j < n {
                let buf = sub_vec(v, i + 1, j);
                let keys = parse_group_keys(&buf);
                if keys.len() > 0 {
                    let mut rendered = render_keys_exec(&keys);
                    out.append(&mut rendered);
                    proof {
                        assert(keys@.map_values(|k: Vec<char>| k@).len() == keys@.len());
                        assert(out@ =~= out0 + render_keys(spec_group_keys(v@.subrange(
                            i + 1,
                            j as int,
                        ))));
                        assert(out@ + proc_line(v@, j + 1) =~= proc_line(v@, 0));
                    }
                } else {
                    let mut grp = sub_vec(v, i, j + 1);
                    out.append(&mut grp);
                    proof {
                        assert(keys@.map_values(|k: Vec<char>| k@).len() == keys@.len());
                        assert(out@ =~= out0 + v@.subrange(i as int, j + 1));
                        assert(out@ + proc_line(v@, j + 1) =~= proc_line(v@, 0));
                    }
                }
                i = j + 1;
            } else {
                let mut tail = sub_vec(v, i, n);
                out.append(&mut tail);
                proof {
                    assert(out@ =~= out0 + v@.subrange(i as int, n as int));
                    assert(proc_line(v@, n as int) == Seq::<char>::empty());
                    assert(out@ + proc_line(v@, n as int) =~= proc_line(v@, 0));
                }
                i = n;
            }
        } else {
            out.push(c);
            proof {
                assert(out@ =~= out0 + seq![v@[i as int]]);
                assert(out@ + proc_line(v@, i + 1) =~= proc_line(v@, 0));
            }
            i = i + 1;
        }
    }
    proof {
        assert(proc_line(v@, n as int) == Seq::<char>::empty());
        assert(out@ =~= proc_line(v@, 0));
    }
    out
}

/// A line that toggles the code-fence state: its leading whitespace
/// removed, it begins with three backticks or three tildes.
pub open spec fn is_fence_line(l: Seq<char>) -> bool {
    starts_with_seq(crate::text::spec_trim_start(l), "```"@) || starts_with_seq(
        crate::text::spec_trim_start(l),
        "~~~"@,
    )
}

#[verifier::loop_isolation(false)]
fn is_fence_line_exec(v: &Vec<char>) -> (r: bool)
    ensures
        r == is_fence_line(v@),
{
    proof {
        reveal_strlit("```");
        reveal_strlit("~~~");
        assert("```"@.len() == 3);
        assert("~~~"@.len() == 3);
    }
    let n = v.len();
    let mut st: usize = 0;
    proof {
        assert(v@.skip(0) =~= v@);
    }
    while st < n && crate::text::is_ws(v[st])
        invariant
            st <= n,
            crate::text::spec_trim_start(v@) == crate::text::spec_trim_start(v@.skip(st as int)),
        decreases n - st,
    {
        proof {
            assert(v@.skip(st as int).drop_first() =~= v@.skip(st + 1));
        }
        st = st + 1;
    }
    proof {
        assert(crate::text::spec_trim_start(v@.skip(st as int)) == v@.skip(st as int));
    }
    let ghost t = crate::text::spec_trim_start(v@);
    let backticks = str_to_chars("```");
    let tildes = str_to_chars("~~~");
    let r1 = crate::text::occurs_at_check(v, &backticks, st);
    let r2 = crate::text::occurs_at_check(v, &tildes, st);
    proof {
        if st + 3 <= n {
            assert(t.subrange(0, 3) =~= v@.subrange(st as int, st + 3));
        }
        assert(r1 == starts_with_seq(t, "```"@));
        assert(r2 == starts_with_seq(t, "~~~"@));
    }
    r1 || r2
}

/// The rewritten lines, each followed by a newline: a fence marker line is
/// copied and toggles the fence state, a line inside a fence is copied, and
/// any other line has its citation groups rewritten.
pub open spec fn spec_preprocess_lines(ls: Seq<Seq<char>>, fence: bool) -> Seq<char>
    decreases ls.len(),
{
    if ls.len() == 0 {
        Seq::empty()
    } else {
        let l = ls.first();
        if is_fence_line(l) {
            l + seq!['\n'] + spec_preprocess_lines(ls.drop_first(), !fence)
        } else if fence {
            l + seq!['\n'] + spec_preprocess_lines(ls.drop_first(), fence)
        } else {
            proc_line(l, 0) + seq!['\n'] + spec_preprocess_lines(ls.drop_first(), fence)
        }
    }
}

/// The whole document rewritten: every line processed outside code fences,
/// and the trailing-newline state of the input preserved.
pub open spec fn spec_preprocess(s: Seq<char>) -> Seq<char> {
    let r = spec_preprocess_lines(spec_lines(s), false);
    if r.len() > 0 && r.last() == '\n' && !(s.len() > 0 && s.last() == '\n') {
        r.drop_last()
    } else {
        r
    }
}

/// Rewrites bracketed citation groups to plain citation references before
/// the markdown parser would consume the brackets: `[@key]` becomes
/// `@key` and `[@k1; @k2]` becomes `@k1 @k2`, while fenced code blocks and
/// inline code are left untouched.
#[verifier::loop_isolation(false)]
pub fn preprocess_citations(markdown: &str) -> (r: String)
    ensures
        r@ == spec_preprocess(markdown@),
{
    let v = str_to_chars(markdown);
    let ls = split_lines(&v);
    let ghost lv = crate::text::lines_view(ls@);
    let n = ls.len();
    let mut out: Vec<char> = Vec::new();
    let mut fence = false;
    let mut i: usize = 0;
    proof {
        assert(lv.skip(0) =~= lv);
        assert(out@ + spec_preprocess_lines(lv, false) =~= spec_preprocess_lines(lv, false));
    }
    while i < n
        invariant
            i <= n,
            out@ + spec_preprocess_lines(lv.skip(i as int), fence) == spec_preprocess_lines(
                lv,
                false,
            ),
        decreases n - i,
    {
        let ghost rest = lv.skip(i as int);
        let ghost out0 = out@;
        proof {
            assert(rest.first() == lv[i as int]);
            assert(lv[i as int] == ls@[i as int]@);
            assert(rest.drop_first() =~= lv.skip(i + 1));
        }
        let line = &ls[i];
        if is_fence_line_exec(line) {
            let mut copy = sub_vec(line, 0, line.len());
            out.append(&mut copy);
            out.push('\n');
            fence = !fence;
            proof {
                assert(out@ =~= out0 + (rest.first() + seq!['\n']));
                assert(out@ + spec_preprocess_lines(lv.skip(i + 1), fence)
                    =~= spec_preprocess_lines(lv, false));
            }
        } else if fence {
            let mut copy = sub_vec(line, 0, line.len());
            out.append(&mut copy);
            out.push('\n');
            proof {
                assert(out@ =~= out0 + (rest.first() + seq!['\n']));
                assert(out@ + spec_preprocess_lines(lv.skip(i + 1), fence)
                    =~= spec_preprocess_lines(lv, false));
            }
        } else {
            let mut processed = proc_line_exec(line);
            out.append(&mut processed);
            out.push('\n');
            proof {
                assert(out@ =~= out0 + (proc_line(rest.first(), 0) + seq!['\n']));
                assert(out@ + spec_preprocess_lines(lv.skip(i + 1), fence)
                    =~= spec_preprocess_lines(lv, false));
            }
        }
        i = i + 1;
    }
    proof {
        assert(lv.skip(n as int) =~= Seq::<Seq<char>>::empty());
        assert(out@ =~= spec_preprocess_lines(lv, false));
    }
    if out.len() > 0 && out[out.len() - 1] == '\n' && !(v.len() > 0 && v[v.len() - 1] == '\n') {
        out.pop();
        proof {
            assert(out@ =~= spec_preprocess(markdown@));
        }
    } else {
        proof {
            assert(out@ =~= spec_preprocess(markdown@));
        }
    }
    chars_to_string(&out)
}

} // verus!
