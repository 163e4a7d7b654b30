use shoulders::search::{
    host_allowed, is_searchable_text, search_in_content, truncate_with_marker,
};
use shoulders::text::{
    chars_to_string, format_u64, parse_u32, replace_all, split_lines, str_to_chars, trim_chars,
};
use shoulders::usage::{month_filter, GroupBy};

fn chars(s: &str) -> Vec<char> {
    str_to_chars(s)
}

#[test]
fn trim_agrees_with_the_standard_library() {
    for s in [" a b ", "\t x\r\n", "", "   ", "no-ws", "\u{a0}nbsp\u{a0}", " mixed\u{3000}"] {
        assert_eq!(chars_to_string(&trim_chars(&chars(s))), s.trim(), "on {s:?}");
    }
}

#[test]
fn line_splitting_agrees_with_the_standard_library() {
    for s in ["a\nb", "a\nb\n", "", "\n", "a\r\nb\r\n", "one", "a\n\nb"] {
        let ours: Vec<String> = split_lines(&chars(s))
            .iter()
            .map(|l| chars_to_string(l))
            .collect();
        let std_lines: Vec<String> = s.lines().map(String::from).collect();
        assert_eq!(ours, std_lines, "on {s:?}");
    }
}

#[test]
fn replace_agrees_with_the_standard_library() {
    for (s, pat, rep) in [
        ("aaa", "a", "bb"),
        ("abcabc", "bc", "X"),
        ("no match", "zz", "y"),
        ("{f} and {f}", "{f}", "/tmp/x"),
        ("overlap aaa", "aa", "b"),
    ] {
        assert_eq!(
            chars_to_string(&replace_all(&chars(s), &chars(pat), &chars(rep))),
            s.replace(pat, rep),
            "on {s:?}"
        );
    }
}

#[test]
fn decimal_formatting_and_parsing_agree_with_std() {
    for n in [0u64, 7, 10, 65535, 123456789, u64::MAX] {
        assert_eq!(chars_to_string(&format_u64(n)), n.to_string());
    }
    for s in ["0", "42", "4294967295", "4294967296", "99999999999", "", "12a"] {
        assert_eq!(parse_u32(&chars(s)), s.parse::<u32>().ok(), "on {s:?}");
    }
}

#[test]
fn searchable_names_go_by_lowercased_extension() {
    assert!(is_searchable_text("notes.md"));
    assert!(is_searchable_text("NOTES.MD"));
    assert!(is_searchable_text("main.RS"));
    assert!(is_searchable_text("config.toml"));
    assert!(!is_searchable_text("image.png"));
    assert!(!is_searchable_text("archive.tar.gz"));
    assert!(!is_searchable_text("mdfile"));
}

#[test]
fn content_search_matches_case_insensitively_up_to_budget() {
    let content = "First HELLO here\n  hello again  \nnothing\nhello third\n";
    let hits = search_in_content("/d/f.md", "f.md", content, "hello", 2);
    assert_eq!(hits.len(), 2);
    assert_eq!(hits[0].line, 1);
    assert_eq!(hits[0].text, "First HELLO here");
    assert_eq!(hits[0].path, "/d/f.md");
    assert_eq!(hits[0].name, "f.md");
    assert_eq!(hits[1].line, 2);
    assert_eq!(hits[1].text, "hello again");
    let all = search_in_content("/d/f.md", "f.md", content, "hello", 10);
    assert_eq!(all.len(), 3);
    assert_eq!(all[2].line, 4);
}

#[test]
fn the_host_allowlist_is_exact() {
    assert!(host_allowed("api.anthropic.com"));
    assert!(host_allowed("api.openalex.org"));
    assert!(!host_allowed("evil.example.com"));
    assert!(!host_allowed("api.anthropic.com.evil.example"));
    assert!(!host_allowed(""));
}

#[test]
fn truncation_appends_the_marker_only_when_cut() {
    assert_eq!(truncate_with_marker("short", 100, "..."), "short");
    assert_eq!(truncate_with_marker("abcdef", 3, " [cut]"), "abc [cut]");
}

#[test]
fn usage_grouping_names_its_column() {
    assert_eq!(GroupBy::Feature.column_name(), "feature");
    assert_eq!(GroupBy::Model.column_name(), "model");
    assert_eq!(month_filter("2024-03"), "2024-03%");
}
