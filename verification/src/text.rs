//! Character-sequence utilities shared by the whole crate.
//!
//! Exec code works over `Vec<char>` (constant-time indexing); the public
//! functions convert from `&str` at the boundary. Contracts are stated over
//! `Seq<char>` views.
use vstd::prelude::*;
use vstd::std_specs::iter::IteratorSpec;

verus! {

/// `p` occurs in `s` starting at position `i`.
pub open spec fn occurs_at(s: Seq<char>, p: Seq<char>, i: int) -> bool {
    0 <= i && i + p.len() <= s.len() && s.subrange(i, i + p.len() as int) == p
}

/// `p` occurs somewhere in `s`.
pub open spec fn contains_seq(s: Seq<char>, p: Seq<char>) -> bool {
    exists|i: int| occurs_at(s, p, i)
}

/// `s` begins with `p`.
pub open spec fn starts_with_seq(s: Seq<char>, p: Seq<char>) -> bool {
    p.len() <= s.len() && s.subrange(0, p.len() as int) == p
}

/// `s` ends with `p`.
pub open spec fn ends_with_seq(s: Seq<char>, p: Seq<char>) -> bool {
    p.len() <= s.len() && s.subrange(s.len() - p.len(), s.len() as int) == p
}

/// The characters of `s`, collected in order.
pub fn str_to_chars(s: &str) -> (r: Vec<char>)
    ensures
        r@ == s@,
{
    let mut it = s.chars();
    let mut r: Vec<char> = Vec::new();
    loop
        invariant
            r@ + it.remaining() == s@,
            it.obeys_prophetic_iter_laws(),
            it.decrease() is Some,
        decreases it.decrease()->0,
    {
        match it.next() {
            Some(c) => {
                r.push(c);
            },
            None => {
                proof {
                    assert(r@ =~= s@);
                }
                return r;
            },
        }
    }
}

/// Relies on `String::from_iter` over `char`: collecting characters yields
/// the string with exactly that character sequence.
#[verifier::external_body]
pub fn chars_to_string(v: &Vec<char>) -> (r: String)
    ensures
        r@ == v@,
{
    v.iter().collect()
}

/// Character-for-character string equality.
pub fn str_eq(a: &str, b: &str) -> (r: bool)
    ensures
        r == (a@ == b@),
{
    let av = str_to_chars(a);
    let bv = str_to_chars(b);
    chars_eq(&av, &bv)
}

/// Equality of two character vectors.
pub fn chars_eq(a: &Vec<char>, b: &Vec<char>) -> (r: bool)
    ensures
        r == (a@ == b@),
{
    if a.len() != b.len() {
        proof {
            assert(a@ != b@);
        }
        return false;
    }
    let n = a.len();
    let mut i: usize = 0;
    while i < n
        invariant
            n == a.len() == b.len(),
            i <= n,
            forall|j: int| 0 <= j < i ==> a@[j] == b@[j],
        decreases n - i,
    {
        if a[i] != b[i] {
            return false;
        }
        i = i + 1;
    }
    proof {
        assert(a@ =~= b@);
    }
    true
}

/// The character for one decimal or hexadecimal digit value.
pub open spec fn spec_digit_char(d: nat) -> char {
    if d == 0 { '0' } else if d == 1 { '1' } else if d == 2 { '2' } else if d == 3 { '3' }
    else if d == 4 { '4' } else if d == 5 { '5' } else if d == 6 { '6' } else if d == 7 { '7' }
    else if d == 8 { '8' } else if d == 9 { '9' } else if d == 10 { 'a' } else if d == 11 { 'b' }
    else if d == 12 { 'c' } else if d == 13 { 'd' } else if d == 14 { 'e' } else { 'f' }
}

/// Decimal rendering of a natural number, most significant digit first.
pub open spec fn spec_dec(n: nat) -> Seq<char>
    decreases n,
{
    if n < 10 {
        seq![spec_digit_char(n)]
    } else {
        spec_dec(n / 10) + seq![spec_digit_char(n % 10)]
    }
}

/// The character for a digit value below 16.
pub fn digit_char(d: u64) -> (c: char)
    requires
        d < 16,
    ensures
        c == spec_digit_char(d as nat),
{
    match d {
        0 => '0', 1 => '1', 2 => '2', 3 => '3', 4 => '4', 5 => '5', 6 => '6', 7 => '7',
        8 => '8', 9 => '9', 10 => 'a', 11 => 'b', 12 => 'c', 13 => 'd', 14 => 'e', _ => 'f',
    }
}

/// The decimal digits of `n`.
pub fn format_u64(n: u64) -> (r: Vec<char>)
    ensures
        r@ == spec_dec(n as nat),
    decreases n,
{
    if n < 10 {
        let mut r: Vec<char> = Vec::new();
        r.push(digit_char(n));
        proof {
            assert(r@ =~= spec_dec(n as nat));
        }
        r
    } else {
        let mut r = format_u64(n / 10);
        r.push(digit_char(n % 10));
        proof {
            assert(r@ =~= spec_dec(n as nat));
        }
        r
    }
}

/// `c` is an ASCII decimal digit.
pub open spec fn spec_is_digit(c: char) -> bool {
    '0' <= c && c <= '9'
}

/// The value of an ASCII decimal digit.
pub open spec fn spec_digit_val(c: char) -> nat {
    (c as u32 - '0' as u32) as nat
}

/// The number denoted by a digit string, most significant digit first.
pub open spec fn spec_dec_val(s: Seq<char>) -> nat
    decreases s.len(),
{
    if s.len() == 0 {
        0
    } else {
        spec_dec_val(s.drop_last()) * 10 + spec_digit_val(s.last())
    }
}

/// Every character of `s` is an ASCII decimal digit.
pub open spec fn all_digits(s: Seq<char>) -> bool {
    forall|i: int| 0 <= i < s.len() ==> spec_is_digit(#[trigger] s[i])
}

pub fn is_digit(c: char) -> (r: bool)
    ensures
        r == spec_is_digit(c),
{
    '0' <= c && c <= '9'
}

proof fn lemma_dec_val_prefix_le(s: Seq<char>, i: int)
    requires
        0 <= i <= s.len(),
    ensures
        spec_dec_val(s.subrange(0, i)) <= spec_dec_val(s),
    decreases s.len() - i,
{
    if i < s.len() {
        lemma_dec_val_prefix_le(s, i + 1);
        assert(s.subrange(0, i + 1).drop_last() =~= s.subrange(0, i));
        assert(spec_dec_val(s.subrange(0, i)) * 10 <= spec_dec_val(s.subrange(0, i + 1)))
            by (nonlinear_arith)
        requires spec_dec_val(s.subrange(0, i + 1)) == spec_dec_val(s.subrange(0, i)) * 10
            + spec_digit_val(s.subrange(0, i + 1).last()) {}
    } else {
        assert(s.subrange(0, i) =~= s);
    }
}

/// Parses a digit string as a `u32`, exactly as `str::parse::<u32>` does on
/// digit-only input: `Some` iff the string is non-empty, all digits, and the
/// value fits.
pub fn parse_u32(v: &Vec<char>) -> (r: Option<u32>)
    ensures
        match r {
            Some(n) => v@.len() > 0 && all_digits(v@) && n == spec_dec_val(v@)
                && spec_dec_val(v@) <= u32::MAX,
            None => v@.len() == 0 || !all_digits(v@) || spec_dec_val(v@) > u32::MAX,
        },
{
    if v.len() == 0 {
        return None;
    }
    let mut acc: u32 = 0;
    let mut i: usize = 0;
    while i < v.len()
        invariant
            i <= v.len(),
            acc == spec_dec_val(v@.subrange(0, i as int)),
            forall|j: int| 0 <= j < i ==> spec_is_digit(#[trigger] v@[j]),
        decreases v.len() - i,
    {
        let c = v[i];
        if !is_digit(c) {
            return None;
        }
        let d: u32 = c as u32 - '0' as u32;
        if acc > (u32::MAX - d) / 10 {
            proof {
                let pre = v@.subrange(0, i as int + 1);
                assert(pre.drop_last() =~= v@.subrange(0, i as int));
                assert(spec_dec_val(pre) > u32::MAX) by (nonlinear_arith)
                    requires
                        spec_dec_val(pre) == acc * 10 + d,
                        acc > (u32::MAX - d) / 10,
                        d < 10,
                        acc >= 0,
                {}
                lemma_dec_val_prefix_le(v@, i as int + 1);
            }
            return None;
        }
        proof {
            let pre = v@.subrange(0, i as int + 1);
            assert(pre.drop_last() =~= v@.subrange(0, i as int));
            assert(acc * 10 + d <= u32::MAX) by (nonlinear_arith)
                requires
                    acc <= (u32::MAX - d) / 10,
                    d < 10,
                    acc >= 0,
            {}
        }
        acc = acc * 10 + d;
        i = i + 1;
    }
    proof {
        assert(v@.subrange(0, v@.len() as int) =~= v@);
    }
    Some(acc)
}

/// A decimal rendering is all digits, non-empty, and carries no leading
/// zero beyond the single digit of zero itself; it reads back as its
/// number.
pub proof fn lemma_dec_props(n: nat)
    ensures
        spec_dec(n).len() >= 1,
        all_digits(spec_dec(n)),
        spec_dec_val(spec_dec(n)) == n,
        spec_dec(n).len() > 1 ==> spec_dec(n).first() != '0',
        n >= 1 ==> spec_dec(n).first() != '0',
    decreases n,
{
    if n < 10 {
        let s1 = seq![spec_digit_char(n)];
        assert(spec_dec(n) =~= s1);
        assert(s1.drop_last() =~= Seq::<char>::empty());
        assert(s1.last() == spec_digit_char(n));
        assert(spec_dec_val(s1) == spec_dec_val(Seq::<char>::empty()) * 10 + spec_digit_val(
            spec_digit_char(n),
        ));
        assert(spec_digit_val(spec_digit_char(n)) == n);
    } else {
        lemma_dec_props(n / 10);
        let s = spec_dec(n);
        assert(s == spec_dec(n / 10) + seq![spec_digit_char(n % 10)]);
        assert(s.drop_last() =~= spec_dec(n / 10));
        assert(s.last() == spec_digit_char(n % 10));
        assert(spec_dec_val(s) == (n / 10) * 10 + (n % 10));
        assert((n / 10) * 10 + (n % 10) == n) by (nonlinear_arith)
            requires n >= 10 {}
        assert(s.first() == spec_dec(n / 10).first());
        assert(n / 10 >= 1);
    }
}

/// A non-empty all-digit string without a leading zero is the decimal
/// rendering of its value: canonical decimals are unique.
pub proof fn lemma_dec_canonical(s: Seq<char>)
    requires
        s.len() >= 1,
        all_digits(s),
        s.len() > 1 ==> s.first() != '0',
    ensures
        spec_dec(spec_dec_val(s)) == s,
    decreases s.len(),
{
    let n = spec_dec_val(s);
    if s.len() == 1 {
        assert(n == spec_dec_val(s.drop_last()) * 10 + spec_digit_val(s.last()));
        assert(s.drop_last() =~= Seq::<char>::empty());
        assert(n == spec_digit_val(s[0]) && n < 10);
        assert(spec_digit_char(spec_digit_val(s[0])) == s[0]);
        assert(spec_dec(n) =~= s);
    } else {
        let front = s.drop_last();
        assert(front.len() >= 1 && front.first() == s.first());
        assert forall|i: int| 0 <= i < front.len() implies spec_is_digit(#[trigger] front[i]) by {
            assert(front[i] == s[i]);
        }
        lemma_dec_canonical(front);
        lemma_dec_val_lower_bound(front);
        let v = spec_dec_val(front);
        let d = spec_digit_val(s.last());
        assert(n == v * 10 + d);
        assert(d < 10);
        assert(n / 10 == v && n % 10 == d && n >= 10) by (nonlinear_arith)
            requires n == v * 10 + d, 0 <= d < 10, v >= 1 {}
        assert(spec_dec(n) == spec_dec(v) + seq![spec_digit_char(d)]);
        assert(spec_digit_char(spec_digit_val(s.last())) == s.last());
        assert(spec_dec(n) =~= s);
    }
}

/// A non-empty all-digit string without a leading zero denotes at least 1.
proof fn lemma_dec_val_lower_bound(s: Seq<char>)
    requires
        s.len() >= 1,
        all_digits(s),
        s.first() != '0',
    ensures
        spec_dec_val(s) >= 1,
    decreases s.len(),
{
    if s.len() == 1 {
        assert(s.drop_last() =~= Seq::<char>::empty());
        assert(s.last() == s[0]);
        assert(spec_dec_val(s) == spec_dec_val(Seq::<char>::empty()) * 10 + spec_digit_val(
            s.last(),
        ));
        assert(s[0] != '0' && spec_is_digit(s[0]));
        assert(s[0] as u32 > '0' as u32);
    } else {
        let front = s.drop_last();
        assert(front.first() == s.first());
        assert forall|i: int| 0 <= i < front.len() implies spec_is_digit(#[trigger] front[i]) by {
            assert(front[i] == s[i]);
        }
        lemma_dec_val_lower_bound(front);
        assert(spec_dec_val(s) == spec_dec_val(front) * 10 + spec_digit_val(s.last()));
        assert(spec_dec_val(front) * 10 >= 10) by (nonlinear_arith)
            requires spec_dec_val(front) >= 1 {}
    }
}

/// `p` occurs at `i` in `s`, and nowhere earlier.
pub open spec fn first_occurrence(s: Seq<char>, p: Seq<char>, i: int) -> bool {
    occurs_at(s, p, i) && forall|j: int| 0 <= j < i ==> !occurs_at(s, p, j)
}

fn occurs_at_exec(v: &Vec<char>, p: &Vec<char>, i: usize) -> (r: bool)
    requires
        i + p@.len() <= v@.len(),
    ensures
        r == occurs_at(v@, p@, i as int),
{
    let n = v.len();
    let mut k: usize = 0;
    while k < p.len()
        invariant
            i + p@.len() <= v@.len(),
            v@.len() == n,
            k <= p@.len(),
            forall|j: int| 0 <= j < k ==> v@[i + j] == p@[j],
        decreases p@.len() - k,
    {
        if v[i + k] != p[k] {
            proof {
                assert(v@.subrange(i as int, i + p@.len() as int)[k as int] == v@[i + k]);
            }
            return false;
        }
        k = k + 1;
    }
    proof {
        assert(v@.subrange(i as int, i + p@.len() as int) =~= p@);
    }
    true
}

/// The position of the first occurrence of `p` in `v`, if any.
pub fn find_first(v: &Vec<char>, p: &Vec<char>) -> (r: Option<usize>)
    ensures
        match r {
            Some(i) => first_occurrence(v@, p@, i as int),
            None => !contains_seq(v@, p@),
        },
{
    if p.len() == 0 {
        proof {
            assert(v@.subrange(0, 0) =~= p@);
        }
        return Some(0);
    }
    if p.len() > v.len() {
        return None;
    }
    let last_start = v.len() - p.len();
    let mut i: usize = 0;
    while i < last_start
        invariant
            p@.len() <= v@.len(),
            last_start == v@.len() - p@.len(),
            i <= last_start,
            forall|j: int| 0 <= j < i ==> !occurs_at(v@, p@, j),
        decreases last_start - i,
    {
        if occurs_at_exec(v, p, i) {
            return Some(i);
        }
        i = i + 1;
    }
    if occurs_at_exec(v, p, last_start) {
        return Some(last_start);
    }
    proof {
        assert forall|j: int| true implies !occurs_at(v@, p@, j) by {
            if 0 <= j <= last_start {
                assert(!occurs_at(v@, p@, j));
            }
        }
    }
    None
}

/// Whether `p` occurs anywhere in `v`.
pub fn contains_sub(v: &Vec<char>, p: &Vec<char>) -> (r: bool)
    ensures
        r == contains_seq(v@, p@),
{
    match find_first(v, p) {
        Some(_) => true,
        None => false,
    }
}

/// Whether `v` begins with `p`.
pub fn starts_with(v: &Vec<char>, p: &Vec<char>) -> (r: bool)
    ensures
        r == starts_with_seq(v@, p@),
{
    if p.len() > v.len() {
        return false;
    }
    occurs_at_exec(v, p, 0)
}

/// Whether `v` ends with `p`.
pub fn ends_with(v: &Vec<char>, p: &Vec<char>) -> (r: bool)
    ensures
        r == ends_with_seq(v@, p@),
{
    if p.len() > v.len() {
        return false;
    }
    let start = v.len() - p.len();
    let r = occurs_at_exec(v, p, start);
    proof {
        assert(occurs_at(v@, p@, start as int) == ends_with_seq(v@, p@));
    }
    r
}

/// A copy of `v[from..to]`.
pub fn sub_vec(v: &Vec<char>, from: usize, to: usize) -> (r: Vec<char>)
    requires
        from <= to <= v@.len(),
    ensures
        r@ == v@.subrange(from as int, to as int),
{
    let mut r: Vec<char> = Vec::new();
    let mut i: usize = from;
    while i < to
        invariant
            from <= i <= to <= v@.len(),
            r@ == v@.subrange(from as int, i as int),
        decreases to - i,
    {
        r.push(v[i]);
        proof {
            assert(r@ =~= v@.subrange(from as int, i + 1 as int));
        }
        i = i + 1;
    }
    r
}

/// `s` with every non-overlapping occurrence of `pat` replaced by `rep`,
/// scanning left to right, exactly as `str::replace` does.
pub open spec fn spec_replace(s: Seq<char>, pat: Seq<char>, rep: Seq<char>) -> Seq<char>
    recommends
        pat.len() > 0,
    decreases s.len(),
{
    if pat.len() == 0 || s.len() < pat.len() {
        s
    } else if s.subrange(0, pat.len() as int) == pat {
        rep + spec_replace(s.skip(pat.len() as int), pat, rep)
    } else {
        seq![s[0]] + spec_replace(s.drop_first(), pat, rep)
    }
}

/// Replaces every occurrence of `pat` in `v` by `rep`.
pub fn replace_all(v: &Vec<char>, pat: &Vec<char>, rep: &Vec<char>) -> (r: Vec<char>)
    requires
        pat@.len() > 0,
    ensures
        r@ == spec_replace(v@, pat@, rep@),
{
    let mut out: Vec<char> = Vec::new();
    let mut i: usize = 0;
    proof {
        assert(v@.skip(0) =~= v@);
        assert(out@ + spec_replace(v@, pat@, rep@) =~= spec_replace(v@, pat@, rep@));
    }
    while i < v.len()
        invariant
            pat@.len() > 0,
            i <= v@.len(),
            out@ + spec_replace(v@.skip(i as int), pat@, rep@) == spec_replace(v@, pat@, rep@),
        decreases v.len() - i,
    {
        let remaining = v.len() - i;
        if remaining >= pat.len() && occurs_at_exec(v, pat, i) {
            proof {
                let rest = v@.skip(i as int);
                assert(rest.subrange(0, pat@.len() as int) =~= v@.subrange(
                    i as int,
                    i + pat@.len() as int,
                ));
                assert(rest.skip(pat@.len() as int) =~= v@.skip(i + pat@.len() as int));
            }
            let ghost out0 = out@;
            let mut j: usize = 0;
            while j < rep.len()
                invariant
                    j <= rep@.len(),
                    out@ == out0 + rep@.subrange(0, j as int),
                decreases rep@.len() - j,
            {
                out.push(rep[j]);
                proof {
                    assert(out@ =~= out0 + rep@.subrange(0, j + 1 as int));
                }
                j = j + 1;
            }
            proof {
                assert(out@ =~= out0 + rep@);
                let rest = v@.skip(i as int);
                assert(spec_replace(rest, pat@, rep@) == rep@ + spec_replace(
                    rest.skip(pat@.len() as int),
                    pat@,
                    rep@,
                ));
                assert(out@ + spec_replace(v@.skip(i + pat@.len() as int), pat@, rep@)
                    =~= out0 + spec_replace(rest, pat@, rep@));
            }
            i = i + pat.len();
        } else {
            proof {
                let rest = v@.skip(i as int);
                if rest.len() >= pat@.len() {
                    assert(rest.subrange(0, pat@.len() as int) =~= v@.subrange(
                        i as int,
                        i + pat@.len() as int,
                    ));
                }
                assert(rest.drop_first() =~= v@.skip(i + 1));
            }
            out.push(v[i]);
            proof {
                let rest = v@.skip(i as int);
                assert(spec_replace(rest, pat@, rep@) == seq![rest[0]] + spec_replace(
                    rest.drop_first(),
                    pat@,
                    rep@,
                ));
                assert(out@ + spec_replace(v@.skip(i + 1), pat@, rep@) =~= spec_replace(
                    v@,
                    pat@,
                    rep@,
                ));
            }
            i = i + 1;
        }
    }
    proof {
        assert(v@.skip(v@.len() as int) =~= Seq::<char>::empty());
    }
    out
}

/// The first position at or after `from` holding `c`, or `s.len()` if none.
pub open spec fn first_idx_of(s: Seq<char>, from: int, c: char) -> int
    decreases s.len() - from,
{
    if from < 0 || from >= s.len() {
        s.len() as int
    } else if s[from] == c {
        from
    } else {
        first_idx_of(s, from + 1, c)
    }
}

pub proof fn lemma_first_idx_of_bounds(s: Seq<char>, from: int, c: char)
    requires
        0 <= from <= s.len(),
    ensures
        from <= first_idx_of(s, from, c) <= s.len(),
        first_idx_of(s, from, c) < s.len() ==> s[first_idx_of(s, from, c)] == c,
        forall|k: int| from <= k < first_idx_of(s, from, c) ==> s[k] != c,
    decreases s.len() - from,
{
    if from < s.len() && s[from] != c {
        lemma_first_idx_of_bounds(s, from + 1, c);
    }
}

/// Finds the first position at or after `from` holding `c`.
pub fn scan_char(v: &Vec<char>, from: usize, c: char) -> (r: usize)
    requires
        from <= v@.len(),
    ensures
        r == first_idx_of(v@, from as int, c),
        from <= r <= v@.len(),
        r < v@.len() ==> v@[r as int] == c,
        forall|k: int| from <= k < r ==> v@[k] != c,
{
    let n = v.len();
    let mut j = from;
    while j < n && v[j] != c
        invariant
            from <= j <= n,
            n == v@.len(),
            forall|k: int| from <= k < j ==> v@[k] != c,
        decreases n - j,
    {
        j = j + 1;
    }
    proof {
        lemma_first_idx_of_at(v@, from as int, j as int, c);
    }
    j
}

proof fn lemma_first_idx_of_at(s: Seq<char>, from: int, j: int, c: char)
    requires
        0 <= from <= j <= s.len(),
        forall|k: int| from <= k < j ==> s[k] != c,
        j < s.len() ==> s[j] == c,
    ensures
        first_idx_of(s, from, c) == j,
    decreases j - from,
{
    if from < j {
        lemma_first_idx_of_at(s, from + 1, j, c);
    }
}

/// Tests whether `p` occurs at position `i` of `v`.
pub fn occurs_at_check(v: &Vec<char>, p: &Vec<char>, i: usize) -> (r: bool)
    ensures
        r == (i + p@.len() <= v@.len() && occurs_at(v@, p@, i as int)),
{
    if i > v.len() || p.len() > v.len() - i {
        return false;
    }
    occurs_at_exec(v, p, i)
}

/// The Unicode `White_Space` characters, the set `char::is_whitespace` tests.
pub open spec fn is_ws_char(c: char) -> bool {
    c == ' ' || c == '\t' || c == '\n' || c == '\u{0B}' || c == '\u{0C}' || c == '\r'
        || c == '\u{85}' || c == '\u{A0}' || c == '\u{1680}'
        || ('\u{2000}' <= c && c <= '\u{200A}')
        || c == '\u{2028}' || c == '\u{2029}' || c == '\u{202F}' || c == '\u{205F}'
        || c == '\u{3000}'
}

pub fn is_ws(c: char) -> (r: bool)
    ensures
        r == is_ws_char(c),
{
    c == ' ' || c == '\t' || c == '\n' || c == '\u{0B}' || c == '\u{0C}' || c == '\r'
        || c == '\u{85}' || c == '\u{A0}' || c == '\u{1680}'
        || ('\u{2000}' <= c && c <= '\u{200A}')
        || c == '\u{2028}' || c == '\u{2029}' || c == '\u{202F}' || c == '\u{205F}'
        || c == '\u{3000}'
}

/// `s` with leading whitespace removed.
pub open spec fn spec_trim_start(s: Seq<char>) -> Seq<char>
    decreases s.len(),
{
    if s.len() > 0 && is_ws_char(s.first()) {
        spec_trim_start(s.drop_first())
    } else {
        s
    }
}

/// `s` with trailing whitespace removed.
pub open spec fn spec_trim_end(s: Seq<char>) -> Seq<char>
    decreases s.len(),
{
    if s.len() > 0 && is_ws_char(s.last()) {
        spec_trim_end(s.drop_last())
    } else {
        s
    }
}

/// `s` with surrounding whitespace removed, as `str::trim` leaves it.
pub open spec fn spec_trim(s: Seq<char>) -> Seq<char> {
    spec_trim_end(spec_trim_start(s))
}

/// Removes surrounding whitespace.
pub fn trim_chars(v: &Vec<char>) -> (r: Vec<char>)
    ensures
        r@ == spec_trim(v@),
{
    let n = v.len();
    let mut start: usize = 0;
    proof {
        assert(v@.skip(0) =~= v@);
    }
    while start < n && is_ws(v[start])
        invariant
            n == v@.len(),
            start <= n,
            spec_trim_start(v@) == spec_trim_start(v@.skip(start as int)),
        decreases n - start,
    {
        proof {
            assert(v@.skip(start as int).drop_first() =~= v@.skip(start + 1));
        }
        start = start + 1;
    }
    proof {
        assert(spec_trim_start(v@.skip(start as int)) == v@.skip(start as int));
    }
    let mut end: usize = n;
    proof {
        assert(v@.skip(start as int) =~= v@.subrange(start as int, end as int));
    }
    while end > start && is_ws(v[end - 1])
        invariant
            n == v@.len(),
            start <= end <= n,
            spec_trim_start(v@) == v@.subrange(start as int, n as int),
            spec_trim_end(v@.subrange(start as int, n as int)) == spec_trim_end(
                v@.subrange(start as int, end as int),
            ),
        decreases end,
    {
        proof {
            assert(v@.subrange(start as int, end as int).drop_last() =~= v@.subrange(
                start as int,
                end - 1,
            ));
        }
        end = end - 1;
    }
    proof {
        assert(spec_trim_end(v@.subrange(start as int, end as int)) == v@.subrange(
            start as int,
            end as int,
        ));
    }
    sub_vec(v, start, end)
}

/// Index of the first newline in `s`, or `s.len()` if there is none.
pub open spec fn first_nl(s: Seq<char>) -> int
    decreases s.len(),
{
    if s.len() == 0 {
        0
    } else if s.first() == '\n' {
        0
    } else {
        1 + first_nl(s.drop_first())
    }
}

proof fn lemma_first_nl_at(s: Seq<char>, j: int)
    requires
        0 <= j <= s.len(),
        forall|k: int| 0 <= k < j ==> s[k] != '\n',
        j < s.len() ==> s[j] == '\n',
        j == s.len() ==> forall|k: int| 0 <= k < s.len() ==> s[k] != '\n',
    ensures
        first_nl(s) == j,
    decreases j,
{
    if s.len() == 0 {
    } else if j == 0 {
    } else {
        lemma_first_nl_at(s.drop_first(), j - 1);
    }
}

/// A line with one trailing carriage return removed.
pub open spec fn drop_cr(l: Seq<char>) -> Seq<char> {
    if l.len() > 0 && l.last() == '\r' {
        l.drop_last()
    } else {
        l
    }
}

pub proof fn lemma_first_nl_bounds(s: Seq<char>)
    ensures
        0 <= first_nl(s) <= s.len(),
    decreases s.len(),
{
    if s.len() > 0 && s.first() != '\n' {
        lemma_first_nl_bounds(s.drop_first());
    }
}

#[via_fn]
proof fn spec_lines_decreases(s: Seq<char>) {
    lemma_first_nl_bounds(s);
}

/// The lines of `s`, exactly as `str::lines` yields them: split at `'\n'`,
/// one trailing `'\r'` removed from each line, no final empty line.
pub open spec fn spec_lines(s: Seq<char>) -> Seq<Seq<char>>
    decreases s.len(),
    via spec_lines_decreases
{
    if s.len() == 0 {
        Seq::empty()
    } else {
        let i = first_nl(s);
        if i >= s.len() {
            seq![drop_cr(s)]
        } else {
            seq![drop_cr(s.subrange(0, i))] + spec_lines(s.skip(i + 1))
        }
    }
}

/// The view of each line vector.
pub open spec fn lines_view(ls: Seq<Vec<char>>) -> Seq<Seq<char>> {
    ls.map_values(|l: Vec<char>| l@)
}

/// Splits into lines as `str::lines` does.
pub fn split_lines(v: &Vec<char>) -> (r: Vec<Vec<char>>)
    ensures
        lines_view(r@) == spec_lines(v@),
{
    let n = v.len();
    let mut out: Vec<Vec<char>> = Vec::new();
    let mut pos: usize = 0;
    proof {
        assert(v@.skip(0) =~= v@);
        assert(lines_view(out@) + spec_lines(v@) =~= spec_lines(v@));
    }
    while pos < n
        invariant
            n == v@.len(),
            pos <= n,
            lines_view(out@) + spec_lines(v@.skip(pos as int)) == spec_lines(v@),
        decreases n - pos,
    {
        let ghost rest = v@.skip(pos as int);
        let mut j: usize = pos;
        while j < n && v[j] != '\n'
            invariant
                n == v@.len(),
                pos <= j <= n,
                forall|k: int| pos <= k < j ==> v@[k] != '\n',
            decreases n - j,
        {
            j = j + 1;
        }
        proof {
            assert forall|k: int| 0 <= k < j - pos implies rest[k] != '\n' by {
                assert(rest[k] == v@[pos + k]);
            }
            if (j as int) < n {
                assert(rest[j - pos] == v@[j as int]);
            }
            lemma_first_nl_at(rest, j - pos);
        }
        let mut line = sub_vec(v, pos, j);
        if line.len() > 0 && line[line.len() - 1] == '\r' {
            line.pop();
            proof {
                assert(line@ =~= drop_cr(v@.subrange(pos as int, j as int)));
            }
        }
        let ghost out_before = out@;
        out.push(line);
        if j < n {
            proof {
                assert(rest.subrange(0, j - pos) =~= v@.subrange(pos as int, j as int));
                assert(rest.skip(j - pos + 1) =~= v@.skip(j + 1));
                assert(lines_view(out@) =~= lines_view(out_before).push(line@));
                assert(lines_view(out@) + spec_lines(v@.skip(j + 1)) =~= spec_lines(v@));
            }
            pos = j + 1;
        } else {
            proof {
                assert(rest =~= v@.subrange(pos as int, j as int));
                assert(lines_view(out@) =~= lines_view(out_before).push(line@));
                assert(v@.skip(n as int) =~= Seq::<char>::empty());
                assert(lines_view(out@) + spec_lines(v@.skip(n as int)) =~= spec_lines(v@));
            }
            pos = n;
        }
    }
    proof {
        assert(v@.skip(n as int) =~= Seq::<char>::empty());
        assert(lines_view(out@) =~= spec_lines(v@));
    }
    out
}

/// What `str::to_lowercase` returns: a function of the characters alone.
pub uninterp spec fn lower_of(s: Seq<char>) -> Seq<char>;

/// Relies on `str::to_lowercase`: the lowercased text depends on the
/// characters alone, the same in every process.
#[verifier::external_body]
pub(crate) fn lowercase(s: &str) -> (r: String)
    ensures
        r@ == lower_of(s@),
{
    s.to_lowercase()
}

} // verus!
