//! Canonical JSON string escaping, and what it takes to read it back.
//!
//! The wire protocol carries JSON objects whose values are strings. This
//! module pins down the exact escaped form the crate emits and proves that
//! unescaping inverts escaping, which is what makes the encode-then-decode
//! round trip a theorem rather than a convention.
use vstd::prelude::*;
use crate::text::spec_digit_char;
use crate::text::digit_char;

verus! {

/// The escaped form of one character inside a JSON string literal:
/// quote, backslash, newline, carriage return and tab get two-character
/// escapes; other control characters get `\u00XX`; everything else stands
/// for itself.
pub open spec fn esc_char(c: char) -> Seq<char> {
    if c == '"' {
        seq!['\\', '"']
    } else if c == '\\' {
        seq!['\\', '\\']
    } else if c == '\n' {
        seq!['\\', 'n']
    } else if c == '\r' {
        seq!['\\', 'r']
    } else if c == '\t' {
        seq!['\\', 't']
    } else if (c as u32) < 0x20 {
        seq![
            '\\',
            'u',
            '0',
            '0',
            spec_digit_char(((c as u32) / 16) as nat),
            spec_digit_char(((c as u32) % 16) as nat),
        ]
    } else {
        seq![c]
    }
}

/// The body of a JSON string literal for `s`.
pub open spec fn spec_escape(s: Seq<char>) -> Seq<char>
    decreases s.len(),
{
    if s.len() == 0 {
        Seq::empty()
    } else {
        esc_char(s.first()) + spec_escape(s.drop_first())
    }
}

/// A complete JSON string literal: quotes around the escaped body.
pub open spec fn json_quote(s: Seq<char>) -> Seq<char> {
    seq!['"'] + spec_escape(s) + seq!['"']
}

/// The value of one ASCII hex digit; unspecified characters give 0.
pub open spec fn hex_val(c: char) -> nat {
    if c == '0' { 0 } else if c == '1' { 1 } else if c == '2' { 2 } else if c == '3' { 3 }
    else if c == '4' { 4 } else if c == '5' { 5 } else if c == '6' { 6 } else if c == '7' { 7 }
    else if c == '8' { 8 } else if c == '9' { 9 } else if c == 'a' { 10 } else if c == 'b' { 11 }
    else if c == 'c' { 12 } else if c == 'd' { 13 } else if c == 'e' { 14 } else if c == 'f' { 15 }
    else { 0 }
}

/// The character a two-character escape stands for.
pub open spec fn unesc2(c: char) -> char {
    if c == 'n' { '\n' } else if c == 'r' { '\r' } else if c == 't' { '\t' } else { c }
}

/// Unescaping of a JSON string body; garbage input gives garbage out, but on
/// any output of `spec_escape` it recovers the escaped string exactly.
pub open spec fn spec_unescape(s: Seq<char>) -> Seq<char>
    decreases s.len(),
{
    if s.len() == 0 {
        Seq::empty()
    } else if s.first() == '\\' {
        if s.len() >= 6 && s[1] == 'u' {
            seq![
                ((hex_val(s[2]) * 4096 + hex_val(s[3]) * 256 + hex_val(s[4]) * 16 + hex_val(
                    s[5],
                )) as u32) as char,
            ] + spec_unescape(s.skip(6))
        } else if s.len() >= 2 {
            seq![unesc2(s[1])] + spec_unescape(s.skip(2))
        } else {
            Seq::empty()
        }
    } else {
        seq![s.first()] + spec_unescape(s.drop_first())
    }
}

/// Unescaping inverts escaping: the escaped form of a string reads back as
/// that string, character for character.
pub proof fn lemma_unescape_escape(s: Seq<char>)
    ensures
        spec_unescape(spec_escape(s)) == s,
    decreases s.len(),
{
    if s.len() == 0 {
        assert(spec_unescape(spec_escape(s)) =~= s);
    } else {
        let c = s.first();
        let rest = s.drop_first();
        lemma_unescape_escape(rest);
        let e = spec_escape(s);
        assert(e == esc_char(c) + spec_escape(rest));
        if c == '"' || c == '\\' || c == '\n' || c == '\r' || c == '\t' {
            assert(e.first() == '\\');
            assert(e[1] != 'u');
            assert(e.skip(2) =~= spec_escape(rest));
            assert(spec_unescape(e) =~= s);
        } else if (c as u32) < 0x20 {
            assert(e.first() == '\\');
            assert(e[1] == 'u');
            assert(e.len() >= 6);
            let hi = spec_digit_char(((c as u32) / 16) as nat);
            let lo = spec_digit_char(((c as u32) % 16) as nat);
            assert(e[2] == '0' && e[3] == '0' && e[4] == hi && e[5] == lo);
            assert(hex_val(hi) == (c as u32) / 16 && hex_val(lo) == (c as u32) % 16);
            assert(hex_val(e[2]) * 4096 + hex_val(e[3]) * 256 + hex_val(e[4]) * 16 + hex_val(e[5])
                == c as u32);
            vstd::utf8::char_u32_cast(c, c as u32);
            assert(e.skip(6) =~= spec_escape(rest));
            assert(spec_unescape(e) =~= s);
        } else {
            assert(e.first() == c && c != '\\');
            assert(e.drop_first() =~= spec_escape(rest));
            assert(spec_unescape(e) =~= s);
        }
    }
}

/// Escaping is injective: no two strings share an escaped form.
pub proof fn lemma_escape_injective(a: Seq<char>, b: Seq<char>)
    requires
        spec_escape(a) == spec_escape(b),
    ensures
        a == b,
{
    lemma_unescape_escape(a);
    lemma_unescape_escape(b);
}

/// Escapes the characters of `v` as the body of a JSON string literal.
pub fn escape_chars(v: &Vec<char>) -> (r: Vec<char>)
    ensures
        r@ == spec_escape(v@),
{
    let mut out: Vec<char> = Vec::new();
    let mut i: usize = 0;
    proof {
        assert(v@.skip(0) =~= v@);
        assert(out@ + spec_escape(v@) =~= spec_escape(v@));
    }
    while i < v.len()
        invariant
            i <= v@.len(),
            out@ + spec_escape(v@.skip(i as int)) == spec_escape(v@),
        decreases v@.len() - i,
    {
        let c = v[i];
        proof {
            let rest = v@.skip(i as int);
            assert(rest.first() == c);
            assert(rest.drop_first() =~= v@.skip(i + 1));
        }
        let ghost out0 = out@;
        if c == '"' {
            out.push('\\');
            out.push('"');
        } else if c == '\\' {
            out.push('\\');
            out.push('\\');
        } else if c == '\n' {
            out.push('\\');
            out.push('n');
        } else if c == '\r' {
            out.push('\\');
            out.push('r');
        } else if c == '\t' {
            out.push('\\');
            out.push('t');
        } else if (c as u32) < 0x20 {
            let u = c as u32;
            out.push('\\');
            out.push('u');
            out.push('0');
            out.push('0');
            out.push(digit_char((u / 16) as u64));
            out.push(digit_char((u % 16) as u64));
        } else {
            out.push(c);
        }
        proof {
            assert(out@ =~= out0 + esc_char(c));
            assert(out@ + spec_escape(v@.skip(i + 1)) =~= spec_escape(v@));
        }
        i = i + 1;
    }
    proof {
        assert(v@.skip(v@.len() as int) =~= Seq::<char>::empty());
        assert(out@ =~= spec_escape(v@));
    }
    out
}

/// Wraps `v` as a complete JSON string literal.
pub fn quote_chars(v: &Vec<char>) -> (r: Vec<char>)
    ensures
        r@ == json_quote(v@),
{
    let mut out: Vec<char> = Vec::new();
    out.push('"');
    let mut body = escape_chars(v);
    out.append(&mut body);
    out.push('"');
    proof {
        assert(out@ =~= json_quote(v@));
    }
    out
}

/// The position of the quote that closes an escaped string region starting
/// at `i`: backslash pairs are skipped, and a region that never closes
/// scans to the end.
pub open spec fn str_lit_end(s: Seq<char>, i: int) -> int
    decreases s.len() - i,
{
    if i < 0 || i >= s.len() {
        s.len() as int
    } else if s[i] == '"' {
        i
    } else if s[i] == '\\' {
        if i + 2 > s.len() {
            s.len() as int
        } else {
            str_lit_end(s, i + 2)
        }
    } else {
        str_lit_end(s, i + 1)
    }
}

/// Scanning from the start of an escaped value stops exactly at its
/// closing quote: the escaped form of `r` occupies the region and the
/// quote follows it.
pub proof fn lemma_str_lit_end_skips(s: Seq<char>, base: int, r: Seq<char>)
    requires
        0 <= base,
        base + spec_escape(r).len() < s.len(),
        s.subrange(base, base + spec_escape(r).len() as int) == spec_escape(r),
        s[base + spec_escape(r).len()] == '"',
    ensures
        str_lit_end(s, base) == base + spec_escape(r).len(),
    decreases r.len(),
{
    let e = spec_escape(r);
    if r.len() == 0 {
        assert(e.len() == 0);
        assert(s[base] == '"');
    } else {
        let c = r.first();
        let rest = r.drop_first();
        let b = esc_char(c);
        assert(e == b + spec_escape(rest));
        let base2 = base + b.len();
        assert forall|j: int| 0 <= j < b.len() implies s[base + j] == b[j] by {
            assert(s.subrange(base, base + e.len() as int)[j] == s[base + j]);
            assert(e[j] == b[j]);
        }
        assert(s.subrange(base2, base2 + spec_escape(rest).len() as int) =~= spec_escape(rest))
            by {
            assert forall|j: int| 0 <= j < spec_escape(rest).len() implies s.subrange(
                base2,
                base2 + spec_escape(rest).len() as int,
            )[j] == spec_escape(rest)[j] by {
                assert(s.subrange(base, base + e.len() as int)[b.len() + j] == s[base2 + j]);
                assert(e[b.len() + j] == spec_escape(rest)[j]);
            }
        }
        lemma_str_lit_end_skips(s, base2, rest);
        if c == '"' || c == '\\' || c == '\n' || c == '\r' || c == '\t' {
            assert(b.len() == 2);
            assert(s[base] == '\\');
            assert(str_lit_end(s, base) == str_lit_end(s, base + 2));
        } else if (c as u32) < 0x20 {
            assert(b.len() == 6);
            assert(s[base] == '\\');
            assert(str_lit_end(s, base) == str_lit_end(s, base + 2));
            assert(b[2] == '0' && b[3] == '0');
            let hi = crate::text::spec_digit_char(((c as u32) / 16) as nat);
            let lo = crate::text::spec_digit_char(((c as u32) % 16) as nat);
            assert(b[4] == hi && b[5] == lo);
            assert(hi != '"' && hi != '\\' && lo != '"' && lo != '\\');
            assert(s[base + 2] == '0');
            assert(str_lit_end(s, base + 2) == str_lit_end(s, base + 3));
            assert(s[base + 3] == '0');
            assert(str_lit_end(s, base + 3) == str_lit_end(s, base + 4));
            assert(s[base + 4] == hi);
            assert(str_lit_end(s, base + 4) == str_lit_end(s, base + 5));
            assert(s[base + 5] == lo);
            assert(str_lit_end(s, base + 5) == str_lit_end(s, base + 6));
        } else {
            assert(b.len() == 1);
            assert(s[base + 0] == b[0]);
            assert(b[0] == c);
            assert(c != '"' && c != '\\');
            assert(str_lit_end(s, base) == str_lit_end(s, base + 1));
        }
    }
}

/// Appending one character appends exactly its escape block.
pub proof fn lemma_escape_snoc(s: Seq<char>, c: char)
    ensures
        spec_escape(s.push(c)) == spec_escape(s) + esc_char(c),
    decreases s.len(),
{
    if s.len() == 0 {
        assert(s.push(c).first() == c);
        assert(s.push(c).drop_first() =~= Seq::<char>::empty());
        assert(spec_escape(Seq::<char>::empty()) =~= Seq::<char>::empty());
        assert(spec_escape(s.push(c)) == esc_char(c) + spec_escape(Seq::<char>::empty()));
        assert(spec_escape(s.push(c)) =~= spec_escape(s) + esc_char(c));
    } else {
        assert(s.push(c).first() == s.first());
        assert(s.push(c).drop_first() =~= s.drop_first().push(c));
        lemma_escape_snoc(s.drop_first(), c);
        assert(spec_escape(s.push(c)) =~= spec_escape(s) + esc_char(c));
    }
}

/// Finds the quote that closes the string region starting at `start`,
/// skipping backslash pairs, or reports an unclosed region.
pub fn scan_string_region(v: &Vec<char>, start: usize) -> (r: Option<usize>)
    requires
        start <= v@.len(),
    ensures
        match r {
            Some(e) => start <= e < v@.len() && e == str_lit_end(v@, start as int) && v@[
                e as int
            ] == '"',
            None => str_lit_end(v@, start as int) == v@.len(),
        },
{
    let n = v.len();
    let mut i = start;
    while i < n
        invariant
            start <= i,
            n == v@.len(),
            str_lit_end(v@, start as int) == str_lit_end(v@, i as int),
        decreases n - i,
    {
        let c = v[i];
        if c == '"' {
            return Some(i);
        }
        if c == '\\' {
            if n - i < 2 {
                return None;
            }
            i = i + 2;
        } else {
            i = i + 1;
        }
    }
    None
}

fn hex_digit_val(c: char) -> (r: Option<u32>)
    ensures
        match r {
            Some(x) => x == hex_val(c) && x < 16 && crate::text::spec_digit_char(x as nat) == c,
            None => true,
        },
{
    match c {
        '0' => Some(0), '1' => Some(1), '2' => Some(2), '3' => Some(3), '4' => Some(4),
        '5' => Some(5), '6' => Some(6), '7' => Some(7), '8' => Some(8), '9' => Some(9),
        'a' => Some(10), 'b' => Some(11), 'c' => Some(12), 'd' => Some(13), 'e' => Some(14),
        'f' => Some(15),
        _ => None,
    }
}

/// Reads the body of a canonical string literal back: `Some` exactly when
/// every block of the region is the canonical escape of some character,
/// and then the region is the escaped form of the result. Anything this
/// accepts therefore re-escapes to the very text it read.
pub fn unescape_canonical(v: &Vec<char>, start: usize, end: usize) -> (r: Option<Vec<char>>)
    requires
        start <= end <= v@.len(),
    ensures
        (r matches Some(out) ==> spec_escape(out@) == v@.subrange(start as int, end as int)),
{
    let mut out: Vec<char> = Vec::new();
    let mut i = start;
    proof {
        assert(spec_escape(out@) =~= v@.subrange(start as int, start as int));
    }
    while i < end
        invariant
            start <= i <= end <= v@.len(),
            spec_escape(out@) == v@.subrange(start as int, i as int),
        decreases end - i,
    {
        let ghost out0 = out@;
        let c = v[i];
        if c == '\\' {
            if i + 1 >= end {
                return None;
            }
            let c1 = v[i + 1];
            if c1 == '"' || c1 == '\\' || c1 == 'n' || c1 == 'r' || c1 == 't' {
                let decoded = if c1 == '"' {
                    '"'
                } else if c1 == '\\' {
                    '\\'
                } else if c1 == 'n' {
                    '\n'
                } else if c1 == 'r' {
                    '\r'
                } else {
                    '\t'
                };
                out.push(decoded);
                proof {
                    lemma_escape_snoc(out0, decoded);
                    assert(esc_char(decoded) =~= seq![v@[i as int], v@[i + 1]]);
                    assert(spec_escape(out@) =~= v@.subrange(start as int, i + 2));
                }
                i = i + 2;
            } else if c1 == 'u' {
                if end - i < 6 {
                    return None;
                }
                if v[i + 2] != '0' || v[i + 3] != '0' {
                    return None;
                }
                let h1 = match hex_digit_val(v[i + 4]) {
                    Some(x) => x,
                    None => {
                        return None;
                    },
                };
                let h2 = match hex_digit_val(v[i + 5]) {
                    Some(x) => x,
                    None => {
                        return None;
                    },
                };
                let value = h1 * 16 + h2;
                if value >= 0x20 || value == 0x0a || value == 0x0d || value == 0x09 {
                    return None;
                }
                let decoded = (value as u8) as char;
                out.push(decoded);
                proof {
                    lemma_escape_snoc(out0, decoded);
                    assert(decoded as u32 == value);
                    assert(value / 16 == h1 && value % 16 == h2) by (nonlinear_arith)
                        requires value == h1 * 16 + h2, 0 <= h2 < 16, 0 <= h1 {}
                    assert(decoded != '"' && decoded != '\\' && decoded != '\n' && decoded != '\r'
                        && decoded != '\t');
                    assert(esc_char(decoded) =~= seq![
                        v@[i as int],
                        v@[i + 1],
                        v@[i + 2],
                        v@[i + 3],
                        v@[i + 4],
                        v@[i + 5],
                    ]);
                    assert(spec_escape(out@) =~= v@.subrange(start as int, i + 6));
                }
                i = i + 6;
            } else {
                return None;
            }
        } else {
            if c == '"' || (c as u32) < 0x20 {
                return None;
            }
            out.push(c);
            proof {
                lemma_escape_snoc(out0, c);
                assert(esc_char(c) =~= seq![v@[i as int]]);
                assert(spec_escape(out@) =~= v@.subrange(start as int, i + 1));
            }
            i = i + 1;
        }
    }
    Some(out)
}

} // verus!
