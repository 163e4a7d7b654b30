//! Workspace search and fetch support: which files are searched, how file
//! content is matched, and which hosts the API proxy may call. Walking
//! directories and talking to the network is the embedding's work.
use vstd::prelude::*;
use crate::text::contains_seq;
use crate::text::ends_with_seq;
use crate::text::lower_of;
use crate::text::spec_trim;
use crate::text::spec_lines;
use crate::text::str_to_chars;
use crate::text::chars_to_string;
use crate::text::trim_chars;
use crate::text::split_lines;
use crate::text::ends_with;
use crate::text::contains_sub;
use crate::text::lowercase;
use crate::text::str_eq;

verus! {

/// One entry of a directory listing handed to the caller.
#[derive(Debug, PartialEq, Eq)]
pub struct FileEntry {
    pub name: String,
    pub path: String,
    pub is_dir: bool,
    pub children: Option<Vec<FileEntry>>,
}

/// One content-search hit: where it was found and the matching line.
#[derive(Clone, Debug, PartialEq, Eq)]
pub struct SearchResult {
    pub path: String,
    pub name: String,
    pub line: usize,
    pub text: String,
}

/// The lowercased file name ends in one of the searched text extensions.
pub open spec fn spec_is_searchable(low: Seq<char>) -> bool {
    ||| ends_with_seq(low, ".md"@)
    ||| ends_with_seq(low, ".txt"@)
    ||| ends_with_seq(low, ".js"@)
    ||| ends_with_seq(low, ".ts"@)
    ||| ends_with_seq(low, ".jsx"@)
    ||| ends_with_seq(low, ".tsx"@)
    ||| ends_with_seq(low, ".py"@)
    ||| ends_with_seq(low, ".r"@)
    ||| ends_with_seq(low, ".rs"@)
    ||| ends_with_seq(low, ".json"@)
    ||| ends_with_seq(low, ".yaml"@)
    ||| ends_with_seq(low, ".yml"@)
    ||| ends_with_seq(low, ".toml"@)
    ||| ends_with_seq(low, ".html"@)
    ||| ends_with_seq(low, ".css"@)
    ||| ends_with_seq(low, ".tex"@)
    ||| ends_with_seq(low, ".bib"@)
    ||| ends_with_seq(low, ".sh"@)
    ||| ends_with_seq(low, ".sql"@)
    ||| ends_with_seq(low, ".rmd"@)
    ||| ends_with_seq(low, ".xml"@)
    ||| ends_with_seq(low, ".vue"@)
    ||| ends_with_seq(low, ".svelte"@)
    ||| ends_with_seq(low, ".go"@)
    ||| ends_with_seq(low, ".java"@)
    ||| ends_with_seq(low, ".c"@)
    ||| ends_with_seq(low, ".cpp"@)
    ||| ends_with_seq(low, ".h"@)
    ||| ends_with_seq(low, ".hpp"@)
    ||| ends_with_seq(low, ".rb"@)
    ||| ends_with_seq(low, ".php"@)
    ||| ends_with_seq(low, ".swift"@)
    ||| ends_with_seq(low, ".kt"@)
    ||| ends_with_seq(low, ".lua"@)
    ||| ends_with_seq(low, ".zig"@)
    ||| ends_with_seq(low, ".env"@)
    ||| ends_with_seq(low, ".csv"@)
    ||| ends_with_seq(low, ".tsv"@)
    ||| ends_with_seq(low, ".ini"@)
    ||| ends_with_seq(low, ".cfg"@)
    ||| ends_with_seq(low, ".conf"@)
}

/// Whether a file name, lowercased, carries one of the text extensions the
/// content search reads.
pub fn is_searchable_text(name: &str) -> (r: bool)
    ensures
        r == spec_is_searchable(lower_of(name@)),
{
    let low = lowercase(name);
    let v = str_to_chars(low.as_str());
    ends_with(&v, &str_to_chars(".md")) || ends_with(&v, &str_to_chars(".txt")) || ends_with(
        &v,
        &str_to_chars(".js"),
    ) || ends_with(&v, &str_to_chars(".ts")) || ends_with(&v, &str_to_chars(".jsx")) || ends_with(
        &v,
        &str_to_chars(".tsx"),
    ) || ends_with(&v, &str_to_chars(".py")) || ends_with(&v, &str_to_chars(".r")) || ends_with(
        &v,
        &str_to_chars(".rs"),
    ) || ends_with(&v, &str_to_chars(".json")) || ends_with(&v, &str_to_chars(".yaml"))
        || ends_with(&v, &str_to_chars(".yml")) || ends_with(&v, &str_to_chars(".toml"))
        || ends_with(&v, &str_to_chars(".html")) || ends_with(&v, &str_to_chars(".css"))
        || ends_with(&v, &str_to_chars(".tex")) || ends_with(&v, &str_to_chars(".bib"))
        || ends_with(&v, &str_to_chars(".sh")) || ends_with(&v, &str_to_chars(".sql"))
        || ends_with(&v, &str_to_chars(".rmd")) || ends_with(&v, &str_to_chars(".xml"))
        || ends_with(&v, &str_to_chars(".vue")) || ends_with(&v, &str_to_chars(".svelte"))
        || ends_with(&v, &str_to_chars(".go")) || ends_with(&v, &str_to_chars(".java"))
        || ends_with(&v, &str_to_chars(".c")) || ends_with(&v, &str_to_chars(".cpp")) || ends_with(
        &v,
        &str_to_chars(".h"),
    ) || ends_with(&v, &str_to_chars(".hpp")) || ends_with(&v, &str_to_chars(".rb")) || ends_with(
        &v,
        &str_to_chars(".php"),
    ) || ends_with(&v, &str_to_chars(".swift")) || ends_with(&v, &str_to_chars(".kt"))
        || ends_with(&v, &str_to_chars(".lua")) || ends_with(&v, &str_to_chars(".zig"))
        || ends_with(&v, &str_to_chars(".env")) || ends_with(&v, &str_to_chars(".csv"))
        || ends_with(&v, &str_to_chars(".tsv")) || ends_with(&v, &str_to_chars(".ini"))
        || ends_with(&v, &str_to_chars(".cfg")) || ends_with(&v, &str_to_chars(".conf"))
}

/// The view of one hit: path, file name, one-based line number, trimmed
/// line text.
pub open spec fn hit_view(h: SearchResult) -> (Seq<char>, Seq<char>, int, Seq<char>) {
    (h.path@, h.name@, h.line as int, h.text@)
}

/// The views of a hit list.
pub open spec fn hits_view(v: Seq<SearchResult>) -> Seq<(Seq<char>, Seq<char>, int, Seq<char>)> {
    v.map_values(|h: SearchResult| hit_view(h))
}

/// The hits one file's lines contribute: each line whose lowercased text
/// holds the query yields a hit with its one-based number and trimmed text,
/// until the budget is spent.
pub open spec fn spec_search_lines(
    lines: Seq<Seq<char>>,
    lineno: int,
    path: Seq<char>,
    name: Seq<char>,
    query: Seq<char>,
    budget: int,
) -> Seq<(Seq<char>, Seq<char>, int, Seq<char>)>
    decreases lines.len(),
{
    if lines.len() == 0 || budget <= 0 {
        Seq::empty()
    } else {
        let l = lines.first();
        if contains_seq(lower_of(l), query) {
            seq![(path, name, lineno, spec_trim(l))] + spec_search_lines(
                lines.drop_first(),
                lineno + 1,
                path,
                name,
                query,
                budget - 1,
            )
        } else {
            spec_search_lines(lines.drop_first(), lineno + 1, path, name, query, budget)
        }
    }
}

/// Searches one file's content for a lowercased query, keeping at most
/// `budget` hits, exactly as the directory search reads each file.
#[verifier::loop_isolation(false)]
pub fn search_in_content(
    path: &str,
    name: &str,
    content: &str,
    query_lower: &str,
    budget: usize,
) -> (r: Vec<SearchResult>)
    ensures
        hits_view(r@) == spec_search_lines(
            spec_lines(content@),
            1,
            path@,
            name@,
            query_lower@,
            budget as int,
        ),
{
    let v = str_to_chars(content);
    let ls = split_lines(&v);
    let ghost lv = crate::text::lines_view(ls@);
    let q = str_to_chars(query_lower);
    let n = ls.len();
    let mut out: Vec<SearchResult> = Vec::new();
    let mut i: usize = 0;
    proof {
        assert(lv.skip(0) =~= lv);
        assert(hits_view(out@) + spec_search_lines(lv, 1, path@, name@, query_lower@,
            budget as int) =~= spec_search_lines(lv, 1, path@, name@, query_lower@, budget as int));
    }
    while i < n && out.len() < budget
        invariant
            i <= n,
            out@.len() <= budget,
            hits_view(out@) + spec_search_lines(
                lv.skip(i as int),
                i + 1,
                path@,
                name@,
                query_lower@,
                budget - out@.len(),
            ) == spec_search_lines(lv, 1, path@, name@, query_lower@, budget as int),
        decreases n - i,
    {
        let ghost rest = lv.skip(i as int);
        let ghost out0 = hits_view(out@);
        proof {
            assert(rest.first() == lv[i as int]);
            assert(lv[i as int] == ls@[i as int]@);
            assert(rest.drop_first() =~= lv.skip(i + 1));
        }
        let line = &ls[i];
        let low = lowercase(chars_to_string(line).as_str());
        let lowv = str_to_chars(low.as_str());
        if contains_sub(&lowv, &q) {
            let t = trim_chars(line);
            out.push(
                SearchResult {
                    path: String::from_str(path),
                    name: String::from_str(name),
                    line: i + 1,
                    text: chars_to_string(&t),
                },
            );
            proof {
                assert(hits_view(out@) =~= out0.push(
                    (path@, name@, i + 1 as int, spec_trim(rest.first())),
                ));
                assert(hits_view(out@) + spec_search_lines(
                    lv.skip(i + 1),
                    i + 2,
                    path@,
                    name@,
                    query_lower@,
                    budget - out@.len(),
                ) =~= spec_search_lines(lv, 1, path@, name@, query_lower@, budget as int));
            }
        } else {
            proof {
                assert(hits_view(out@) + spec_search_lines(
                    lv.skip(i + 1),
                    i + 2,
                    path@,
                    name@,
                    query_lower@,
                    budget - out@.len(),
                ) =~= spec_search_lines(lv, 1, path@, name@, query_lower@, budget as int));
            }
        }
        i = i + 1;
    }
    proof {
        if i == n {
            assert(lv.skip(n as int) =~= Seq::<Seq<char>>::empty());
        }
        assert(hits_view(out@) =~= spec_search_lines(lv, 1, path@, name@, query_lower@,
            budget as int));
    }
    out
}

/// The hosts the API proxy accepts.
pub open spec fn spec_host_allowed(host: Seq<char>) -> bool {
    ||| host == "api.anthropic.com"@
    ||| host == "api.openai.com"@
    ||| host == "generativelanguage.googleapis.com"@
    ||| host == "shoulde.rs"@
    ||| host == "api.github.com"@
    ||| host == "api.crossref.org"@
    ||| host == "api.exa.ai"@
    ||| host == "api.openalex.org"@
}

/// Whether an outgoing request's host stands in the allowlist. The URL is
/// parsed by the embedding; the decision on the extracted host is made
/// here.
pub fn host_allowed(host: &str) -> (r: bool)
    ensures
        r == spec_host_allowed(host@),
{
    str_eq(host, "api.anthropic.com") || str_eq(host, "api.openai.com") || str_eq(
        host,
        "generativelanguage.googleapis.com",
    ) || str_eq(host, "shoulde.rs") || str_eq(host, "api.github.com") || str_eq(
        host,
        "api.crossref.org",
    ) || str_eq(host, "api.exa.ai") || str_eq(host, "api.openalex.org")
}

/// `s` capped at `max` characters, with the marker appended when anything
/// was cut.
pub open spec fn spec_truncated_with_marker(s: Seq<char>, max: int, marker: Seq<char>) -> Seq<
    char,
> {
    if s.len() <= max {
        s
    } else {
        s.subrange(0, max) + marker
    }
}

/// Caps captured output at `max` characters, marking the cut.
pub fn truncate_with_marker(s: &str, max: usize, marker: &str) -> (r: String)
    ensures
        r@ == spec_truncated_with_marker(s@, max as int, marker@),
{
    let v = str_to_chars(s);
    if v.len() <= max {
        chars_to_string(&v)
    } else {
        let mut t = crate::text::sub_vec(&v, 0, max);
        let mut m = str_to_chars(marker);
        t.append(&mut m);
        chars_to_string(&t)
    }
}

} // verus!
