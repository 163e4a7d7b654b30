use shoulders::latexout::{
    extract_line_number, make_compile_result, make_tectonic_status, parse_tectonic_output,
    tectonic_binary_name, tectonic_download_url, TargetArch, TargetOs,
};
use shoulders::typstout::{
    current_target_triple, escape_typst_string, extract_line_info, make_export_result,
    parse_typst_output, preprocess_citations,
};

#[test]
fn tectonic_output_is_classified_line_by_line() {
    let log = "Running TeX\n\
               error: something failed on line 42 here\n\
               l.10 ignored, previous error already has a line\n\
               ! Undefined control sequence.\n\
               l.7 \\badmacro\n\
               warning: Overfull hbox\n";
    let (errors, warnings) = parse_tectonic_output(log);
    assert_eq!(errors.len(), 2);
    assert_eq!(errors[0].line, Some(42));
    assert_eq!(errors[0].message, "something failed on line 42 here");
    assert_eq!(errors[0].severity, "error");
    assert_eq!(errors[1].line, Some(7));
    assert_eq!(errors[1].message, "Undefined control sequence.");
    assert_eq!(warnings.len(), 1);
    assert_eq!(warnings[0].line, None);
    assert_eq!(warnings[0].message, "Overfull hbox");
    assert_eq!(warnings[0].severity, "warning");
}

#[test]
fn line_number_extraction_reads_the_first_reference() {
    let (n, m) = extract_line_number("oops on line 42 and line 50");
    assert_eq!(n, Some(42));
    assert_eq!(m, "oops on line 42 and line 50");
    assert_eq!(extract_line_number("no reference").0, None);
    assert_eq!(extract_line_number("line ").0, None);
    assert_eq!(extract_line_number("line 99999999999").0, None);
}

#[test]
fn typst_output_is_classified() {
    let log = "error: x.typ:12: unknown variable\nwarning: y.typ:3: unused\nplain noise\n";
    let (errors, warnings) = parse_typst_output(log);
    assert_eq!(errors.len(), 1);
    assert_eq!(errors[0].line, Some(12));
    assert_eq!(errors[0].message, "x.typ:12: unknown variable");
    assert_eq!(warnings.len(), 1);
    assert_eq!(warnings[0].line, Some(3));
}

#[test]
fn info_line_extraction_needs_digits_then_more_text() {
    assert_eq!(extract_line_info("file:14: bad").0, Some(14));
    assert_eq!(extract_line_info("no colon here").0, None);
    // Digits that run to the very end of the message name no line.
    assert_eq!(extract_line_info("file:14").0, None);
    assert_eq!(extract_line_info("file:: bad").0, None);
}

#[test]
fn binary_name_differs_on_windows() {
    assert_eq!(tectonic_binary_name(false), "tectonic");
    assert_eq!(tectonic_binary_name(true), "tectonic.exe");
}

#[test]
fn download_urls_name_the_pinned_release() {
    let (url, zip) = tectonic_download_url(TargetOs::Linux, TargetArch::X86_64).unwrap();
    assert_eq!(
        url,
        "https://github.com/tectonic-typesetting/tectonic/releases/download/\
         tectonic%400.15.0/tectonic-0.15.0-x86_64-unknown-linux-musl.tar.gz"
    );
    assert!(!zip);
    let (url, zip) = tectonic_download_url(TargetOs::Windows, TargetArch::Aarch64).unwrap();
    assert!(url.ends_with("tectonic-0.15.0-aarch64-pc-windows-msvc.zip"));
    assert!(zip);
    assert_eq!(
        tectonic_download_url(TargetOs::Linux, TargetArch::Other)
            .unwrap_err(),
        "Unsupported architecture"
    );
    assert_eq!(
        tectonic_download_url(TargetOs::Other, TargetArch::X86_64)
            .unwrap_err(),
        "Unsupported platform"
    );
}

#[test]
fn target_triples_match_the_sidecar_names() {
    assert_eq!(
        current_target_triple(TargetArch::Aarch64, TargetOs::MacOs),
        "aarch64-apple-darwin"
    );
    assert_eq!(
        current_target_triple(TargetArch::X86_64, TargetOs::Linux),
        "x86_64-unknown-linux-gnu"
    );
    assert_eq!(
        current_target_triple(TargetArch::Other, TargetOs::Other),
        "unknown-unknown"
    );
}

#[test]
fn typst_string_escaping_matches_replace_order() {
    let s = "a\"b\\c";
    assert_eq!(
        escape_typst_string(s),
        s.replace('\\', "\\\\").replace('"', "\\\"")
    );
    assert_eq!(escape_typst_string("a\"b\\c"), "a\\\"b\\\\c");
    assert_eq!(escape_typst_string("plain"), "plain");
}

#[test]
fn citations_are_rewritten() {
    assert_eq!(preprocess_citations("[@key]"), "@key");
    assert_eq!(preprocess_citations("[@k1; @k2]"), "@k1 @k2");
    assert_eq!(preprocess_citations("see [@smith2020] p. 4"), "see @smith2020 p. 4");
    assert_eq!(preprocess_citations("[@a extra; @b]"), "@a @b");
}

#[test]
fn code_is_left_untouched_by_citation_rewriting() {
    let fenced = "```\n[@key]\n```\n";
    assert_eq!(preprocess_citations(fenced), fenced);
    let inline = "x `[@key]` y";
    assert_eq!(preprocess_citations(inline), inline);
}

#[test]
fn malformed_citation_groups_are_preserved() {
    assert_eq!(preprocess_citations("see [@a; @b"), "see [@a; @b");
    assert_eq!(preprocess_citations("empty [;] group"), "empty [;] group");
    assert_eq!(preprocess_citations("[@]"), "[@]");
    assert_eq!(preprocess_citations("plain [link] text"), "plain [link] text");
}

#[test]
fn trailing_newline_state_is_preserved() {
    assert_eq!(preprocess_citations("[@key]\n"), "@key\n");
    assert_eq!(preprocess_citations("[@key]"), "@key");
    assert_eq!(preprocess_citations(""), "");
}

#[test]
fn compile_and_export_results_record_the_outcome() {
    let r = make_compile_result(
        true,
        Some(String::from("/x.pdf")),
        None,
        Vec::new(),
        Vec::new(),
        String::from("log"),
        12,
    );
    assert!(r.success);
    assert_eq!(r.pdf_path.as_deref(), Some("/x.pdf"));
    let r = make_compile_result(
        true,
        None,
        None,
        Vec::new(),
        Vec::new(),
        String::new(),
        1,
    );
    assert!(!r.success);
    let s = make_tectonic_status(Some(String::from("/bin/tectonic")));
    assert!(s.installed);
    let s = make_tectonic_status(None);
    assert!(!s.installed);
    let e = make_export_result(false, Some(String::from("/x.pdf")), Vec::new(), Vec::new(), 3);
    assert!(!e.success);
    assert!(e.pdf_path.is_none());
}
