//! Character-level text primitives shared by the parsers: splitting into
//! lines and whitespace-separated tokens, and reading unsigned integers and
//! fixed-point decimals out of tokens.

use vstd::prelude::*;
use crate::rate::sat_u64;
use vstd::string::StringExecFns;

verus! {

/// ASCII decimal digit.
pub open spec fn is_digit_char(c: char) -> bool {
    '0' <= c && c <= '9'
}

/// Numeric value of a digit character.
pub open spec fn digit_val(c: char) -> nat
    recommends
        is_digit_char(c),
{
    ((c as int) - ('0' as int)) as nat
}

/// Value of a digit string, most significant digit first.
pub open spec fn digits_val(s: Seq<char>) -> nat
    decreases s.len(),
{
    if s.len() == 0 {
        0
    } else {
        digits_val(s.drop_last()) * 10 + digit_val(s.last())
    }
}

/// A token that `parse_u64` accepts: non-empty, all digits, value in range.
pub open spec fn is_u64_token(s: Seq<char>) -> bool {
    &&& s.len() > 0
    &&& forall|i: int| 0 <= i < s.len() ==> is_digit_char(#[trigger] s[i])
    &&& digits_val(s) <= u64::MAX
}

/// The number a token denotes, with the same fallback the engine uses
/// everywhere: a malformed or out-of-range token counts as 0.
pub open spec fn token_u64(s: Seq<char>) -> u64 {
    if is_u64_token(s) {
        digits_val(s) as u64
    } else {
        0
    }
}

/// Reads a base-10 `u64` from `s`; `None` when `s` is empty, has a
/// non-digit character, or denotes a value above `u64::MAX`.
pub fn parse_u64(s: &str) -> (r: Option<u64>)
    ensures
        r is Some <==> is_u64_token(s@),
        r is Some ==> r->Some_0 == digits_val(s@),
{
    let n = s.unicode_len();
    if n == 0 {
        return None;
    }
    let mut v: u64 = 0;
    let mut i: usize = 0;
    while i < n
        invariant
            0 < n == s@.len(),
            0 <= i <= n,
            forall|j: int| 0 <= j < i ==> is_digit_char(#[trigger] s@[j]),
            v == digits_val(s@.take(i as int)),
            digits_val(s@.take(i as int)) <= u64::MAX,
        decreases n - i,
    {
        let c = s.get_char(i);
        if !('0' <= c && c <= '9') {
            proof {
                lemma_non_digit_not_u64_token(s@, i as int);
            }
            return None;
        }
        let d: u64 = (c as u32 - '0' as u32) as u64;
        proof {
            assert(s@.take(i + 1).drop_last() =~= s@.take(i as int));
            assert(s@.take(i + 1).last() == s@[i as int]);
        }
        if v > (u64::MAX - d) / 10 {
            proof {
                lemma_overflowing_prefix_not_u64_token(s@, i + 1);
            }
            return None;
        }
        v = v * 10 + d;
        i = i + 1;
    }
    proof {
        assert(s@.take(n as int) =~= s@);
    }
    Some(v)
}

/// A token with a non-digit character is not a `u64` token.
proof fn lemma_non_digit_not_u64_token(s: Seq<char>, i: int)
    requires
        0 <= i < s.len(),
        !is_digit_char(s[i]),
    ensures
        !is_u64_token(s),
{
}

/// The value of a digit string bounds the value of each of its prefixes.
proof fn lemma_digits_val_prefix_le(s: Seq<char>, i: int)
    requires
        0 <= i <= s.len(),
        forall|j: int| 0 <= j < s.len() ==> is_digit_char(#[trigger] s[j]),
    ensures
        digits_val(s.take(i)) <= digits_val(s),
    decreases s.len() - i,
{
    if i < s.len() {
        lemma_digits_val_prefix_le(s, i + 1);
        assert(s.take(i + 1).drop_last() =~= s.take(i));
        assert(digits_val(s.take(i)) <= digits_val(s.take(i + 1)));
    } else {
        assert(s.take(i) =~= s);
    }
}

/// A prefix whose value is already out of range rules the whole token out.
proof fn lemma_overflowing_prefix_not_u64_token(s: Seq<char>, i: int)
    requires
        0 <= i <= s.len(),
        digits_val(s.take(i)) > u64::MAX,
    ensures
        !is_u64_token(s),
{
    if forall|j: int| 0 <= j < s.len() ==> is_digit_char(#[trigger] s[j]) {
        lemma_digits_val_prefix_le(s, i);
    }
}

/// `parse_u64` with the engine's fallback: malformed input counts as 0.
pub fn parse_u64_or_zero(s: &str) -> (r: u64)
    ensures
        r == token_u64(s@),
{
    match parse_u64(s) {
        Some(v) => v,
        None => 0,
    }
}

/// `s` begins with `p`.
pub open spec fn starts_with(s: Seq<char>, p: Seq<char>) -> bool {
    p.len() <= s.len() && s.take(p.len() as int) == p
}

/// Whether `s` begins with `p`.
pub fn str_starts_with(s: &str, p: &str) -> (r: bool)
    ensures
        r == starts_with(s@, p@),
{
    let np = p.unicode_len();
    let ns = s.unicode_len();
    if np > ns {
        proof {
            assert(!starts_with(s@, p@));
        }
        return false;
    }
    let mut i: usize = 0;
    while i < np
        invariant
            np == p@.len(),
            ns == s@.len(),
            np <= ns,
            0 <= i <= np,
            forall|j: int| 0 <= j < i ==> s@[j] == p@[j],
        decreases np - i,
    {
        if s.get_char(i) != p.get_char(i) {
            proof {
                assert(s@.take(np as int)[i as int] != p@[i as int]);
            }
            return false;
        }
        i = i + 1;
    }
    proof {
        assert(s@.take(np as int) =~= p@);
    }
    true
}

/// Whether `a` and `b` hold the same characters.
pub fn str_eq(a: &str, b: &str) -> (r: bool)
    ensures
        r == (a@ == b@),
{
    let na = a.unicode_len();
    let nb = b.unicode_len();
    if na != nb {
        proof {
            assert(a@ != b@);
        }
        return false;
    }
    let r = str_starts_with(a, b);
    proof {
        assert(a@.take(nb as int) =~= a@);
    }
    r
}

/// The second whitespace-separated token of `l` read as a number, the form
/// a labeled `<Label>: <value> ...` line carries; anything else reads as 0.
pub open spec fn second_token_u64(l: Seq<char>) -> u64 {
    if tokens_of(l).len() >= 2 {
        token_u64(tokens_of(l)[1])
    } else {
        0
    }
}

/// Reads the numeric value field of a `<Label>: <value> ...` line.
pub fn parse_labeled_value(l: &str) -> (r: u64)
    ensures
        r == second_token_u64(l@),
{
    let toks = tokenize(l);
    if toks.len() >= 2 {
        proof {
            assert(toks.deep_view()[1] == toks@[1]@);
        }
        parse_u64_or_zero(toks[1].as_str())
    } else {
        0
    }
}

/// Whitespace that separates fields in device output.
pub open spec fn is_space_char(c: char) -> bool {
    c == ' ' || c == '\t' || c == '\r' || c == '\n'
}

/// Index of the first whitespace character, or the length if there is none.
pub open spec fn first_space(s: Seq<char>) -> int
    decreases s.len(),
{
    if s.len() == 0 {
        0
    } else if is_space_char(s[0]) {
        0
    } else {
        1 + first_space(s.drop_first())
    }
}

/// The whitespace-separated tokens of `s`, in order.
pub open spec fn tokens_of(s: Seq<char>) -> Seq<Seq<char>>
    decreases s.len(),
    via tokens_of_decreases
{
    if s.len() == 0 {
        Seq::empty()
    } else if is_space_char(s[0]) {
        tokens_of(s.drop_first())
    } else {
        seq![s.take(first_space(s))] + tokens_of(s.skip(first_space(s)))
    }
}

#[via_fn]
proof fn tokens_of_decreases(s: Seq<char>) {
    lemma_first_space_bounds(s);
}

proof fn lemma_first_space_bounds(s: Seq<char>)
    ensures
        0 <= first_space(s) <= s.len(),
        forall|j: int| 0 <= j < first_space(s) ==> !is_space_char(#[trigger] s[j]),
        first_space(s) < s.len() ==> is_space_char(s[first_space(s)]),
        s.len() > 0 && !is_space_char(s[0]) ==> first_space(s) >= 1,
    decreases s.len(),
{
    if s.len() > 0 && !is_space_char(s[0]) {
        lemma_first_space_bounds(s.drop_first());
        assert forall|j: int| 0 <= j < first_space(s) implies !is_space_char(#[trigger] s[j]) by {
            if j > 0 {
                assert(s[j] == s.drop_first()[j - 1]);
            }
        }
    }
}

/// `first_space` is the unique boundary: all earlier characters are
/// non-space and the boundary itself is a space or the end.
proof fn lemma_first_space_is(s: Seq<char>, k: int)
    requires
        0 <= k <= s.len(),
        forall|j: int| 0 <= j < k ==> !is_space_char(#[trigger] s[j]),
        k < s.len() ==> is_space_char(s[k]),
    ensures
        first_space(s) == k,
    decreases s.len(),
{
    if s.len() == 0 || is_space_char(s[0]) {
    } else {
        lemma_first_space_is(s.drop_first(), k - 1);
    }
}

/// Splits `s` into its whitespace-separated tokens.
pub fn tokenize(s: &str) -> (toks: Vec<String>)
    ensures
        toks.deep_view() == tokens_of(s@),
{
    let n = s.unicode_len();
    let mut toks: Vec<String> = Vec::new();
    let mut i: usize = 0;
    proof {
        assert(s@.skip(0) =~= s@);
        assert(toks.deep_view() + tokens_of(s@) =~= tokens_of(s@));
    }
    while i < n
        invariant
            n == s@.len(),
            0 <= i <= n,
            tokens_of(s@) == toks.deep_view() + tokens_of(s@.skip(i as int)),
        decreases n - i,
    {
        let c = s.get_char(i);
        if c == ' ' || c == '\t' || c == '\r' || c == '\n' {
            proof {
                assert(s@.skip(i as int).drop_first() =~= s@.skip(i + 1));
            }
            i = i + 1;
        } else {
            let start = i;
            i = i + 1;
            while i < n
                invariant
                    n == s@.len(),
                    0 <= start < i <= n,
                    forall|j: int| start <= j < i ==> !is_space_char(#[trigger] s@[j]),
                ensures
                    0 <= start < i <= n,
                    forall|j: int| start <= j < i ==> !is_space_char(#[trigger] s@[j]),
                    i == n || is_space_char(s@[i as int]),
                decreases n - i,
            {
                let c2 = s.get_char(i);
                if c2 == ' ' || c2 == '\t' || c2 == '\r' || c2 == '\n' {
                    break;
                }
                i = i + 1;
            }
            let tok = s.substring_char(start, i).to_owned();
            proof {
                let u = s@.skip(start as int);
                lemma_first_space_is(u, i - start);
                assert(u.take(i - start) =~= s@.subrange(start as int, i as int));
                assert(u.skip(i - start) =~= s@.skip(i as int));
                assert(tokens_of(u) == seq![s@.subrange(start as int, i as int)]
                    + tokens_of(s@.skip(i as int)));
            }
            let ghost old_toks = toks.deep_view();
            toks.push(tok);
            proof {
                assert(toks.deep_view() =~= old_toks.push(tok@));
                assert(old_toks.push(tok@) =~= old_toks + seq![tok@]);
                assert(toks.deep_view() + tokens_of(s@.skip(i as int)) =~= tokens_of(s@));
            }
        }
    }
    proof {
        assert(s@.skip(n as int) =~= Seq::<char>::empty());
        assert(toks.deep_view() =~= tokens_of(s@));
    }
    toks
}

/// Index of the first newline, or the length if there is none.
pub open spec fn first_newline(s: Seq<char>) -> int
    decreases s.len(),
{
    if s.len() == 0 {
        0
    } else if s[0] == '\n' {
        0
    } else {
        1 + first_newline(s.drop_first())
    }
}

/// Segments of `s` between newlines; a trailing newline does not open a
/// final empty segment, matching how the source text is usually iterated.
pub open spec fn raw_lines(s: Seq<char>) -> Seq<Seq<char>>
    decreases s.len(),
    via raw_lines_decreases
{
    if s.len() == 0 {
        Seq::empty()
    } else if first_newline(s) == s.len() {
        seq![s]
    } else {
        seq![s.take(first_newline(s))] + raw_lines(s.skip(first_newline(s) + 1))
    }
}

#[via_fn]
proof fn raw_lines_decreases(s: Seq<char>) {
    lemma_first_newline_bounds(s);
}

proof fn lemma_first_newline_bounds(s: Seq<char>)
    ensures
        0 <= first_newline(s) <= s.len(),
    decreases s.len(),
{
    if s.len() > 0 && s[0] != '\n' {
        lemma_first_newline_bounds(s.drop_first());
    }
}

/// Drops a single carriage return left at the end of a line.
pub open spec fn strip_cr(l: Seq<char>) -> Seq<char> {
    if l.len() > 0 && l.last() == '\r' {
        l.drop_last()
    } else {
        l
    }
}

/// The lines of `s`: newline-separated, each without a trailing `'\r'`.
pub open spec fn lines_of(s: Seq<char>) -> Seq<Seq<char>> {
    raw_lines(s).map_values(|l: Seq<char>| strip_cr(l))
}

proof fn lemma_first_newline_is(s: Seq<char>, k: int)
    requires
        0 <= k <= s.len(),
        forall|j: int| 0 <= j < k ==> #[trigger] s[j] != '\n',
        k < s.len() ==> s[k] == '\n',
    ensures
        first_newline(s) == k,
    decreases s.len(),
{
    if s.len() == 0 || s[0] == '\n' {
    } else {
        lemma_first_newline_is(s.drop_first(), k - 1);
    }
}

/// Splits `s` into lines, stripping one trailing carriage return from each.
pub fn split_lines(s: &str) -> (ls: Vec<String>)
    ensures
        ls.deep_view() == lines_of(s@),
{
    let n = s.unicode_len();
    let mut ls: Vec<String> = Vec::new();
    let mut i: usize = 0;
    proof {
        assert(s@.skip(0) =~= s@);
        assert(ls.deep_view() + lines_of(s@) =~= lines_of(s@));
    }
    while i < n
        invariant
            n == s@.len(),
            0 <= i <= n,
            lines_of(s@) == ls.deep_view() + lines_of(s@.skip(i as int)),
        decreases n - i,
    {
        let start = i;
        while i < n
            invariant
                n == s@.len(),
                0 <= start <= i <= n,
                forall|j: int| start <= j < i ==> #[trigger] s@[j] != '\n',
            ensures
                0 <= start <= i <= n,
                forall|j: int| start <= j < i ==> #[trigger] s@[j] != '\n',
                i == n || s@[i as int] == '\n',
            decreases n - i,
        {
            if s.get_char(i) == '\n' {
                break;
            }
            i = i + 1;
        }
        // [start, i) is newline-free and i is a newline or the end.
        let mut end = i;
        if end > start && s.get_char(end - 1) == '\r' {
            end = end - 1;
        }
        let line = s.substring_char(start, end).to_owned();
        proof {
            let u = s@.skip(start as int);
            lemma_first_newline_is(u, i - start);
            assert(u.take(i - start) =~= s@.subrange(start as int, i as int));
            assert(strip_cr(s@.subrange(start as int, i as int))
                =~= s@.subrange(start as int, end as int));
            if i < n {
                assert(u.skip(i - start + 1) =~= s@.skip(i + 1));
                assert(raw_lines(u) == seq![u.take(i - start)] + raw_lines(s@.skip(i + 1)));
            } else {
                assert(raw_lines(u) == seq![u]);
                assert(u =~= s@.subrange(start as int, i as int));
                assert(s@.skip(n as int) =~= Seq::<char>::empty());
            }
        }
        let ghost old_ls = ls.deep_view();
        ls.push(line);
        proof {
            assert(ls.deep_view() =~= old_ls + seq![line@]);
            let u = s@.skip(start as int);
            if i < n {
                assert(lines_of(u) =~= seq![strip_cr(u.take(i - start))] + lines_of(s@.skip(i + 1)));
                assert(lines_of(s@) == ls.deep_view() + lines_of(s@.skip(i + 1)));
            } else {
                assert(lines_of(u) =~= seq![strip_cr(u)]);
                assert(lines_of(s@) == ls.deep_view() + lines_of(s@.skip(n as int)));
            }
        }
        if i < n {
            i = i + 1;
        }
    }
    proof {
        assert(s@.skip(n as int) =~= Seq::<char>::empty());
        assert(ls.deep_view() =~= lines_of(s@));
    }
    ls
}

/// Index of the first `'.'`, or the length if there is none.
pub open spec fn first_dot(s: Seq<char>) -> int
    decreases s.len(),
{
    if s.len() == 0 {
        0
    } else if s[0] == '.' {
        0
    } else {
        1 + first_dot(s.drop_first())
    }
}

/// Every character is a digit (vacuously true of the empty sequence).
pub open spec fn all_digits(s: Seq<char>) -> bool {
    forall|i: int| 0 <= i < s.len() ==> is_digit_char(#[trigger] s[i])
}

/// A number the size parser accepts: digits with at most one point, and a
/// digit on at least one side of it.
pub open spec fn dec_valid(s: Seq<char>) -> bool {
    let d = first_dot(s);
    if d == s.len() {
        s.len() > 0 && all_digits(s)
    } else {
        &&& d > 0 || s.len() - d - 1 > 0
        &&& all_digits(s.take(d))
        &&& all_digits(s.skip(d + 1))
    }
}

/// The value of a decimal token in tenths, honoring one fraction digit
/// (the precision the report prints); further digits are truncated, a
/// malformed token reads as 0, and the value saturates at `u64::MAX`.
pub open spec fn dec_tenths(s: Seq<char>) -> u64 {
    if !dec_valid(s) {
        0
    } else {
        let d = first_dot(s);
        let whole = if d == s.len() { s } else { s.take(d) };
        let frac = if d == s.len() { Seq::<char>::empty() } else { s.skip(d + 1) };
        sat_u64(
            digits_val(whole) * 10 + if frac.len() > 0 {
                digit_val(frac[0]) as int
            } else {
                0
            },
        )
    }
}


/// Accumulates the digits of `s[from..to]` into a value, saturating at
/// `u64::MAX`.
pub(crate) fn parse_digits_sat(s: &str, from: usize, to: usize) -> (v: u64)
    requires
        from <= to <= s@.len(),
        all_digits(s@.subrange(from as int, to as int)),
    ensures
        v == sat_u64(digits_val(s@.subrange(from as int, to as int)) as int),
{
    let ghost whole = s@.subrange(from as int, to as int);
    let mut v: u64 = 0;
    let mut j: usize = from;
    proof {
        assert(s@.subrange(from as int, from as int) =~= Seq::<char>::empty());
    }
    while j < to
        invariant
            from <= j <= to <= s@.len(),
            whole == s@.subrange(from as int, to as int),
            all_digits(whole),
            v == sat_u64(digits_val(s@.subrange(from as int, j as int)) as int),
        decreases to - j,
    {
        let c = s.get_char(j);
        proof {
            assert(whole[j - from] == s@[j as int]);
            assert(s@.subrange(from as int, j + 1).drop_last() =~= s@.subrange(
                from as int,
                j as int,
            ));
            assert(s@.subrange(from as int, j + 1).last() == s@[j as int]);
        }
        let d: u64 = (c as u32 - '0' as u32) as u64;
        if v > (u64::MAX - d) / 10 {
            v = u64::MAX;
        } else {
            v = v * 10 + d;
        }
        j = j + 1;
    }
    v
}

proof fn lemma_first_dot_is(s: Seq<char>, k: int)
    requires
        0 <= k <= s.len(),
        forall|j: int| 0 <= j < k ==> #[trigger] s[j] != '.',
        k < s.len() ==> s[k] == '.',
    ensures
        first_dot(s) == k,
    decreases s.len(),
{
    if s.len() == 0 || s[0] == '.' {
    } else {
        lemma_first_dot_is(s.drop_first(), k - 1);
    }
}

/// Reads a decimal token into tenths, honoring one fraction digit.
pub fn parse_dec_tenths(s: &str) -> (v: u64)
    ensures
        v == dec_tenths(s@),
{
    let n = s.unicode_len();
    // Find the first point.
    let mut d: usize = 0;
    while d < n
        invariant
            n == s@.len(),
            0 <= d <= n,
            forall|j: int| 0 <= j < d ==> #[trigger] s@[j] != '.',
        ensures
            0 <= d <= n,
            forall|j: int| 0 <= j < d ==> #[trigger] s@[j] != '.',
            d == n || s@[d as int] == '.',
        decreases n - d,
    {
        if s.get_char(d) == '.' {
            break;
        }
        d = d + 1;
    }
    proof {
        lemma_first_dot_is(s@, d as int);
    }
    // Validate the digit shape.
    let mut j: usize = 0;
    while j < n
        invariant
            n == s@.len(),
            0 <= j <= n,
            0 <= d <= n,
            first_dot(s@) == d as int,
            forall|k: int| 0 <= k < j && k != first_dot(s@) ==> is_digit_char(#[trigger] s@[k]),
        ensures
            0 <= j <= n,
            j == n || (j != d && !is_digit_char(s@[j as int])),
            forall|k: int| 0 <= k < j && k != first_dot(s@) ==> is_digit_char(#[trigger] s@[k]),
        decreases n - j,
    {
        if j != d {
            let c = s.get_char(j);
            if !('0' <= c && c <= '9') {
                break;
            }
        }
        j = j + 1;
    }
    if j < n {
        proof {
            if first_dot(s@) == s@.len() {
                assert(!all_digits(s@));
            } else {
                let fd = first_dot(s@);
                if (j as int) < fd {
                    assert(s@.take(fd)[j as int] == s@[j as int]);
                    assert(!all_digits(s@.take(fd)));
                } else {
                    assert(s@.skip(fd + 1)[j - fd - 1] == s@[j as int]);
                    assert(!all_digits(s@.skip(fd + 1)));
                }
            }
            assert(!dec_valid(s@));
        }
        return 0;
    }
    if n == 0 {
        return 0;
    }
    if d == n {
        // No point: the whole token is digits.
        proof {
            assert forall|k: int| 0 <= k < s@.len() implies is_digit_char(#[trigger] s@[k]) by {}
            assert(s@.subrange(0, n as int) =~= s@);
        }
        let w = parse_digits_sat(s, 0, n);
        return sat_mul10_add(w, 0);
    }
    if d == 0 && n == 1 {
        // A lone point carries no digits.
        proof {
            assert(!dec_valid(s@));
        }
        return 0;
    }
    proof {
        assert forall|k: int| 0 <= k < first_dot(s@) implies is_digit_char(
            #[trigger] s@.take(first_dot(s@))[k],
        ) by {
            assert(s@.take(first_dot(s@))[k] == s@[k]);
        }
        assert(all_digits(s@.subrange(0, d as int)));
        assert forall|k: int| 0 <= k < s@.len() - first_dot(s@) - 1 implies is_digit_char(
            #[trigger] s@.skip(first_dot(s@) + 1)[k],
        ) by {
            assert(s@.skip(first_dot(s@) + 1)[k] == s@[k + first_dot(s@) + 1]);
        }
        assert(dec_valid(s@));
    }
    let w = parse_digits_sat(s, 0, d);
    proof {
        assert(s@.subrange(0, d as int) =~= s@.take(d as int));
    }
    let fd: u64 = if d + 1 < n {
        let c = s.get_char(d + 1);
        proof {
            assert(s@.skip(d + 1)[0] == s@[d + 1]);
        }
        (c as u32 - '0' as u32) as u64
    } else {
        0
    };
    sat_mul10_add(w, fd)
}

/// `w * 10 + fd`, saturating; absorbs a saturated `w` correctly.
pub(crate) fn sat_mul10_add(w: u64, fd: u64) -> (r: u64)
    requires
        fd <= 9,
    ensures
        forall|x: int| x >= 0 && w == #[trigger] sat_u64(x) ==> r == sat_u64(x * 10 + fd),
{
    let r = if w > (u64::MAX - fd) / 10 {
        u64::MAX
    } else {
        w * 10 + fd
    };
    proof {
        assert forall|x: int| x >= 0 && w == #[trigger] sat_u64(x) implies r == sat_u64(
            x * 10 + fd,
        ) by {
            if x > u64::MAX {
                assert(w == u64::MAX);
                assert(x * 10 + fd > u64::MAX);
            } else {
                assert(w == x);
            }
        }
    }
    r
}



/// `s` has `p` as a contiguous subsequence.
pub open spec fn contains_seq(s: Seq<char>, p: Seq<char>) -> bool {
    exists|k: int| 0 <= k <= s.len() - p.len() && #[trigger] s.subrange(k, k + p.len()) == p
}

/// Whether `p` matches `s` at offset `k`.
fn matches_at(s: &str, p: &str, k: usize) -> (r: bool)
    requires
        k + p@.len() <= s@.len(),
        k + p@.len() <= usize::MAX,
    ensures
        r == (s@.subrange(k as int, k + p@.len()) == p@),
{
    let np = p.unicode_len();
    let mut i: usize = 0;
    while i < np
        invariant
            np == p@.len(),
            k + np <= s@.len(),
            k + np <= usize::MAX,
            0 <= i <= np,
            forall|j: int| 0 <= j < i ==> s@[k + j] == p@[j],
        decreases np - i,
    {
        if s.get_char(k + i) != p.get_char(i) {
            proof {
                assert(s@.subrange(k as int, k + np)[i as int] == s@[k + i]);
            }
            return false;
        }
        i = i + 1;
    }
    proof {
        assert(s@.subrange(k as int, k + np) =~= p@);
    }
    true
}

/// Whether `s` contains `p` anywhere.
pub fn str_contains(s: &str, p: &str) -> (r: bool)
    ensures
        r == contains_seq(s@, p@),
{
    let ns = s.unicode_len();
    let np = p.unicode_len();
    if np > ns {
        proof {
            assert(!contains_seq(s@, p@));
        }
        return false;
    }
    if np == 0 {
        proof {
            assert(s@.subrange(0, 0 + p@.len() as int) =~= p@);
            assert(contains_seq(s@, p@));
        }
        return true;
    }
    let mut k: usize = 0;
    while k <= ns - np
        invariant
            ns == s@.len(),
            np == p@.len(),
            0 < np <= ns,
            0 <= k <= ns - np + 1,
            forall|j: int| 0 <= j < k ==> #[trigger] s@.subrange(j, j + p@.len()) != p@,
        ensures
            0 <= k <= ns - np + 1,
            forall|j: int| 0 <= j < k ==> #[trigger] s@.subrange(j, j + p@.len()) != p@,
            k <= ns - np ==> s@.subrange(k as int, k + p@.len()) == p@,
        decreases ns - k,
    {
        if matches_at(s, p, k) {
            break;
        }
        k = k + 1;
    }
    if k <= ns - np {
        proof {
            assert(contains_seq(s@, p@));
        }
        true
    } else {
        proof {
            assert(forall|j: int| 0 <= j <= s@.len() - p@.len()
                ==> #[trigger] s@.subrange(j, j + p@.len()) != p@);
        }
        false
    }
}

/// `t` without any run of `c` at its end.
pub open spec fn strip_trailing(t: Seq<char>, c: char) -> Seq<char>
    decreases t.len(),
{
    if t.len() > 0 && t.last() == c {
        strip_trailing(t.drop_last(), c)
    } else {
        t
    }
}

/// Copies `t` without its trailing run of `c`.
pub fn strip_trailing_char(t: &str, c: char) -> (r: String)
    ensures
        r@ == strip_trailing(t@, c),
{
    let n = t.unicode_len();
    let mut end: usize = n;
    proof {
        assert(t@.take(n as int) =~= t@);
    }
    while end > 0
        invariant
            n == t@.len(),
            0 <= end <= n,
            strip_trailing(t@, c) == strip_trailing(t@.take(end as int), c),
        ensures
            0 <= end <= n,
            strip_trailing(t@, c) == strip_trailing(t@.take(end as int), c),
            end == 0 || t@[end - 1] != c,
        decreases end,
    {
        if t.get_char(end - 1) != c {
            break;
        }
        proof {
            assert(t@.take(end as int).last() == t@[end - 1]);
            assert(t@.take(end as int).drop_last() =~= t@.take(end - 1));
        }
        end = end - 1;
    }
    proof {
        if end > 0 {
            assert(strip_trailing(t@.take(end as int), c) == t@.take(end as int));
        } else {
            assert(t@.take(0) =~= Seq::<char>::empty());
        }
    }
    t.substring_char(0, end).to_owned()
}

/// Tokens joined with single spaces, the way a command line is put back
/// together out of its fields.
pub open spec fn joined(toks: Seq<Seq<char>>) -> Seq<char>
    decreases toks.len(),
{
    if toks.len() == 0 {
        Seq::empty()
    } else if toks.len() == 1 {
        toks[0]
    } else {
        joined(toks.drop_last()) + seq![' '] + toks.last()
    }
}

/// Joins `toks[start..]` with single spaces.
pub fn join_tokens(toks: &Vec<String>, start: usize) -> (r: String)
    requires
        start <= toks@.len(),
    ensures
        r@ == joined(toks.deep_view().skip(start as int)),
{
    let ghost dv = toks.deep_view();
    if start >= toks.len() {
        proof {
            assert(dv.skip(start as int) =~= Seq::<Seq<char>>::empty());
        }
        return String::new();
    }
    let mut r = toks[start].clone();
    let mut k: usize = start + 1;
    proof {
        assert(dv.subrange(start as int, k as int) =~= seq![dv[start as int]]);
        assert(r@ == joined(dv.subrange(start as int, k as int)));
    }
    while k < toks.len()
        invariant
            dv == toks.deep_view(),
            toks@.len() == dv.len(),
            start < k <= dv.len(),
            r@ == joined(dv.subrange(start as int, k as int)),
        decreases dv.len() - k,
    {
        proof {
            reveal_strlit(" ");
            assert(" "@ =~= seq![' ']);
            assert(dv.subrange(start as int, k + 1).drop_last() =~= dv.subrange(
                start as int,
                k as int,
            ));
            assert(dv.subrange(start as int, k + 1).last() == dv[k as int]);
        }
        r.append(" ");
        r.append(toks[k].as_str());
        k = k + 1;
    }
    proof {
        assert(dv.subrange(start as int, dv.len() as int) =~= dv.skip(start as int));
    }
    r
}


/// `s` without leading whitespace.
pub open spec fn strip_leading_ws(s: Seq<char>) -> Seq<char>
    decreases s.len(),
{
    if s.len() > 0 && is_space_char(s[0]) {
        strip_leading_ws(s.drop_first())
    } else {
        s
    }
}

/// `s` without trailing whitespace.
pub open spec fn strip_trailing_ws(s: Seq<char>) -> Seq<char>
    decreases s.len(),
{
    if s.len() > 0 && is_space_char(s.last()) {
        strip_trailing_ws(s.drop_last())
    } else {
        s
    }
}

/// `s` without leading and trailing whitespace.
pub open spec fn trimmed(s: Seq<char>) -> Seq<char> {
    strip_leading_ws(strip_trailing_ws(s))
}

/// Copies `s` without leading and trailing whitespace.
pub fn trim_str(s: &str) -> (r: String)
    ensures
        r@ == trimmed(s@),
{
    let n = s.unicode_len();
    let mut end: usize = n;
    proof {
        assert(s@.take(n as int) =~= s@);
    }
    while end > 0
        invariant
            n == s@.len(),
            0 <= end <= n,
            strip_trailing_ws(s@) == strip_trailing_ws(s@.take(end as int)),
        ensures
            0 <= end <= n,
            strip_trailing_ws(s@) == strip_trailing_ws(s@.take(end as int)),
            end == 0 || !is_space_char(s@[end - 1]),
        decreases end,
    {
        let c = s.get_char(end - 1);
        if !(c == ' ' || c == '\t' || c == '\r' || c == '\n') {
            break;
        }
        proof {
            assert(s@.take(end as int).last() == s@[end - 1]);
            assert(s@.take(end as int).drop_last() =~= s@.take(end - 1));
        }
        end = end - 1;
    }
    proof {
        if end > 0 {
            assert(s@.take(end as int).last() == s@[end - 1]);
            assert(strip_trailing_ws(s@.take(end as int)) == s@.take(end as int));
        } else {
            assert(s@.take(0) =~= Seq::<char>::empty());
        }
        assert(strip_trailing_ws(s@) == s@.take(end as int));
    }
    let mut start: usize = 0;
    while start < end
        invariant
            n == s@.len(),
            0 <= start <= end <= n,
            strip_leading_ws(s@.take(end as int)) == strip_leading_ws(
                s@.subrange(start as int, end as int),
            ),
        ensures
            0 <= start <= end <= n,
            strip_leading_ws(s@.take(end as int)) == strip_leading_ws(
                s@.subrange(start as int, end as int),
            ),
            start == end || !is_space_char(s@[start as int]),
        decreases end - start,
    {
        let c = s.get_char(start);
        if !(c == ' ' || c == '\t' || c == '\r' || c == '\n') {
            break;
        }
        proof {
            assert(s@.subrange(start as int, end as int)[0] == s@[start as int]);
            assert(s@.subrange(start as int, end as int).drop_first() =~= s@.subrange(
                start + 1,
                end as int,
            ));
        }
        start = start + 1;
    }
    proof {
        assert(s@.take(end as int) =~= s@.subrange(0, end as int));
        if start < end {
            assert(s@.subrange(start as int, end as int)[0] == s@[start as int]);
            assert(strip_leading_ws(s@.subrange(start as int, end as int)) == s@.subrange(
                start as int,
                end as int,
            ));
        } else {
            assert(s@.subrange(start as int, end as int) =~= Seq::<char>::empty());
        }
    }
    s.substring_char(start, end).to_owned()
}

/// The decimal digit character for a value below ten.
pub open spec fn digit_char_of(d: int) -> char
    recommends
        0 <= d <= 9,
{
    if d == 0 {
        '0'
    } else if d == 1 {
        '1'
    } else if d == 2 {
        '2'
    } else if d == 3 {
        '3'
    } else if d == 4 {
        '4'
    } else if d == 5 {
        '5'
    } else if d == 6 {
        '6'
    } else if d == 7 {
        '7'
    } else if d == 8 {
        '8'
    } else {
        '9'
    }
}

/// The decimal digits of `n`, most significant first, without leading
/// zeros (zero itself is the single digit `'0'`).
pub open spec fn dec_str_of(n: nat) -> Seq<char>
    decreases n,
{
    if n < 10 {
        seq![digit_char_of(n as int)]
    } else {
        dec_str_of(n / 10).push(digit_char_of((n % 10) as int))
    }
}

/// Appends one digit character.
fn push_digit(s: &mut String, d: u64)
    requires
        d <= 9,
    ensures
        final(s)@ == old(s)@.push(digit_char_of(d as int)),
{
    proof {
        reveal_strlit("0");
        reveal_strlit("1");
        reveal_strlit("2");
        reveal_strlit("3");
        reveal_strlit("4");
        reveal_strlit("5");
        reveal_strlit("6");
        reveal_strlit("7");
        reveal_strlit("8");
        reveal_strlit("9");
    }
    if d == 0 {
        s.append("0");
        proof {
            assert(old(s)@ + "0"@ =~= old(s)@.push('0'));
        }
    } else if d == 1 {
        s.append("1");
        proof {
            assert(old(s)@ + "1"@ =~= old(s)@.push('1'));
        }
    } else if d == 2 {
        s.append("2");
        proof {
            assert(old(s)@ + "2"@ =~= old(s)@.push('2'));
        }
    } else if d == 3 {
        s.append("3");
        proof {
            assert(old(s)@ + "3"@ =~= old(s)@.push('3'));
        }
    } else if d == 4 {
        s.append("4");
        proof {
            assert(old(s)@ + "4"@ =~= old(s)@.push('4'));
        }
    } else if d == 5 {
        s.append("5");
        proof {
            assert(old(s)@ + "5"@ =~= old(s)@.push('5'));
        }
    } else if d == 6 {
        s.append("6");
        proof {
            assert(old(s)@ + "6"@ =~= old(s)@.push('6'));
        }
    } else if d == 7 {
        s.append("7");
        proof {
            assert(old(s)@ + "7"@ =~= old(s)@.push('7'));
        }
    } else if d == 8 {
        s.append("8");
        proof {
            assert(old(s)@ + "8"@ =~= old(s)@.push('8'));
        }
    } else {
        s.append("9");
        proof {
            assert(old(s)@ + "9"@ =~= old(s)@.push('9'));
        }
    }
}

/// Writes `n` in decimal.
pub fn u64_to_string(n: u64) -> (r: String)
    ensures
        r@ == dec_str_of(n as nat),
    decreases n,
{
    if n < 10 {
        let mut s = String::new();
        push_digit(&mut s, n);
        proof {
            assert(Seq::<char>::empty().push(digit_char_of(n as int)) =~= seq![
                digit_char_of(n as int),
            ]);
        }
        s
    } else {
        let mut s = u64_to_string(n / 10);
        push_digit(&mut s, n % 10);
        s
    }
}

/// Index of the first occurrence of `c`, or the length if there is none.
pub open spec fn first_char_at(s: Seq<char>, c: char) -> int
    decreases s.len(),
{
    if s.len() == 0 {
        0
    } else if s[0] == c {
        0
    } else {
        1 + first_char_at(s.drop_first(), c)
    }
}

proof fn lemma_first_char_at_is(s: Seq<char>, c: char, k: int)
    requires
        0 <= k <= s.len(),
        forall|j: int| 0 <= j < k ==> #[trigger] s[j] != c,
        k < s.len() ==> s[k] == c,
    ensures
        first_char_at(s, c) == k,
    decreases s.len(),
{
    if s.len() == 0 || s[0] == c {
    } else {
        lemma_first_char_at_is(s.drop_first(), c, k - 1);
    }
}

/// Finds the first occurrence of `c`, returning its index or the length.
pub fn find_char(s: &str, c: char) -> (k: usize)
    ensures
        k == first_char_at(s@, c),
        k <= s@.len(),
{
    let n = s.unicode_len();
    let mut k: usize = 0;
    while k < n
        invariant
            n == s@.len(),
            0 <= k <= n,
            forall|j: int| 0 <= j < k ==> #[trigger] s@[j] != c,
        ensures
            0 <= k <= n,
            forall|j: int| 0 <= j < k ==> #[trigger] s@[j] != c,
            k == n || s@[k as int] == c,
        decreases n - k,
    {
        if s.get_char(k) == c {
            break;
        }
        k = k + 1;
    }
    proof {
        lemma_first_char_at_is(s@, c, k as int);
    }
    k
}

/// Index just past the last occurrence of `c`, or 0 if there is none.
pub open spec fn after_last_char(s: Seq<char>, c: char) -> int
    decreases s.len(),
{
    if s.len() == 0 {
        0
    } else if s.last() == c {
        s.len() as int
    } else {
        after_last_char(s.drop_last(), c)
    }
}

proof fn lemma_after_last_char_is(s: Seq<char>, c: char, k: int)
    requires
        0 <= k <= s.len(),
        forall|j: int| k <= j < s.len() ==> #[trigger] s[j] != c,
        k > 0 ==> s[k - 1] == c,
    ensures
        after_last_char(s, c) == k,
    decreases s.len(),
{
    if s.len() == 0 {
    } else if s.last() == c {
    } else {
        lemma_after_last_char_is(s.drop_last(), c, k);
    }
}

/// Scans backwards for `c`, returning the index just past its last
/// occurrence, or 0 when it never occurs.
pub fn find_last_char(s: &str, c: char) -> (k: usize)
    ensures
        k == after_last_char(s@, c),
        k <= s@.len(),
{
    let n = s.unicode_len();
    let mut k: usize = n;
    while k > 0
        invariant
            n == s@.len(),
            0 <= k <= n,
            forall|j: int| k <= j < n ==> #[trigger] s@[j] != c,
        ensures
            0 <= k <= n,
            forall|j: int| k <= j < n ==> #[trigger] s@[j] != c,
            k == 0 || s@[k - 1] == c,
        decreases k,
    {
        if s.get_char(k - 1) == c {
            break;
        }
        k = k - 1;
    }
    proof {
        lemma_after_last_char_is(s@, c, k as int);
    }
    k
}

/// Index of the first offset where `p` matches inside `s`, or -1.
pub open spec fn first_match(s: Seq<char>, p: Seq<char>) -> int
    decreases s.len(),
    via first_match_decreases
{
    if p.len() > s.len() {
        -1
    } else if s.subrange(0, p.len() as int) == p {
        0
    } else if first_match(s.drop_first(), p) < 0 {
        -1
    } else {
        1 + first_match(s.drop_first(), p)
    }
}

#[via_fn]
proof fn first_match_decreases(s: Seq<char>, p: Seq<char>) {
    if p.len() <= s.len() && s.subrange(0, p.len() as int) != p && s.len() == 0 {
        assert(s.subrange(0, p.len() as int) =~= p);
    }
}

/// `p` matches inside `s` at offset `j`.
pub open spec fn match_at_idx(s: Seq<char>, p: Seq<char>, j: int) -> bool {
    s.subrange(j, j + p.len() as int) == p
}

proof fn lemma_first_match_at(s: Seq<char>, p: Seq<char>, k: int)
    requires
        0 <= k <= s.len() - p.len(),
        forall|j: int| 0 <= j < k ==> !#[trigger] match_at_idx(s, p, j),
        match_at_idx(s, p, k),
    ensures
        first_match(s, p) == k,
    decreases s.len(),
{
    if k == 0 {
        assert(s.subrange(0, p.len() as int) == s.subrange(0, 0 + p.len() as int));
    } else {
        assert(!match_at_idx(s, p, 0));
        assert(s.subrange(0, p.len() as int) == s.subrange(0, 0 + p.len() as int));
        let t = s.drop_first();
        assert forall|j: int| 0 <= j < k - 1 implies !#[trigger] match_at_idx(t, p, j) by {
            assert(!match_at_idx(s, p, j + 1));
            assert(t.subrange(j, j + p.len() as int) =~= s.subrange(
                j + 1,
                j + 1 + p.len() as int,
            ));
        }
        assert(t.subrange(k - 1, k - 1 + p.len() as int) =~= s.subrange(k, k + p.len() as int));
        lemma_first_match_at(t, p, k - 1);
    }
}

proof fn lemma_first_match_none(s: Seq<char>, p: Seq<char>)
    requires
        forall|j: int| 0 <= j <= s.len() - p.len() ==> !#[trigger] match_at_idx(s, p, j),
    ensures
        first_match(s, p) == -1,
    decreases s.len(),
{
    if p.len() > s.len() {
    } else if s.len() == 0 {
        assert(s.subrange(0, 0 + p.len() as int) =~= p);
        assert(match_at_idx(s, p, 0));
        assert(!match_at_idx(s, p, 0));
    } else {
        assert(!match_at_idx(s, p, 0));
        assert(s.subrange(0, p.len() as int) == s.subrange(0, 0 + p.len() as int));
        let t = s.drop_first();
        assert(t.len() == s.len() - 1);
        assert forall|j: int| 0 <= j <= t.len() - p.len() implies !#[trigger] match_at_idx(
            t,
            p,
            j,
        ) by {
            assert(t.subrange(j, j + p.len() as int) =~= s.subrange(
                j + 1,
                j + 1 + p.len() as int,
            ));
            assert(!match_at_idx(s, p, j + 1));
        }
        lemma_first_match_none(t, p);
    }
}

/// A non-negative `first_match` result is a real in-range match.
pub proof fn lemma_first_match_found(s: Seq<char>, p: Seq<char>)
    requires
        first_match(s, p) >= 0,
    ensures
        0 <= first_match(s, p) <= s.len() - p.len(),
        match_at_idx(s, p, first_match(s, p)),
    decreases s.len(),
{
    if p.len() > s.len() {
    } else if s.subrange(0, p.len() as int) == p {
        assert(match_at_idx(s, p, 0)) by {
            assert(s.subrange(0, 0 + p.len() as int) == s.subrange(0, p.len() as int));
        }
    } else {
        assert(s.len() > 0) by {
            if s.len() == 0 {
                assert(s.subrange(0, p.len() as int) =~= p);
            }
        }
        let t = s.drop_first();
        assert(first_match(t, p) >= 0);
        lemma_first_match_found(t, p);
        let k = first_match(t, p);
        assert(t.subrange(k, k + p.len() as int) == s.subrange(k + 1, k + 1 + p.len() as int)) by {
            assert(t.subrange(k, k + p.len() as int) =~= s.subrange(
                k + 1,
                k + 1 + p.len() as int,
            ));
        }
        assert(match_at_idx(s, p, k + 1));
        assert(first_match(s, p) == 1 + k);
    }
}

/// Finds the first offset where `p` occurs inside `s`.
pub fn find_str(s: &str, p: &str) -> (r: Option<usize>)
    ensures
        match r {
            Some(k) => first_match(s@, p@) == k,
            None => first_match(s@, p@) == -1,
        },
{
    let ns = s.unicode_len();
    let np = p.unicode_len();
    if np > ns {
        proof {
            assert(first_match(s@, p@) == -1);
        }
        return None;
    }
    if np == 0 {
        proof {
            assert(s@.subrange(0, 0 + p@.len() as int) =~= p@);
            lemma_first_match_at(s@, p@, 0);
        }
        return Some(0);
    }
    let mut k: usize = 0;
    while k <= ns - np
        invariant
            ns == s@.len(),
            np == p@.len(),
            0 < np <= ns,
            0 <= k <= ns - np + 1,
            forall|j: int| 0 <= j < k ==> !#[trigger] match_at_idx(s@, p@, j),
        ensures
            0 <= k <= ns - np + 1,
            forall|j: int| 0 <= j < k ==> !#[trigger] match_at_idx(s@, p@, j),
            k <= ns - np ==> match_at_idx(s@, p@, k as int),
        decreases ns - k,
    {
        if matches_at(s, p, k) {
            proof {
                assert(match_at_idx(s@, p@, k as int));
            }
            break;
        }
        proof {
            assert(!match_at_idx(s@, p@, k as int));
        }
        k = k + 1;
    }
    if k <= ns - np {
        proof {
            lemma_first_match_at(s@, p@, k as int);
        }
        Some(k)
    } else {
        proof {
            lemma_first_match_none(s@, p@);
        }
        None
    }
}


/// `a` matches `b` ignoring ASCII case on `a`'s side: they are the same
/// character, or `a` is the upper-case letter of `b`.
pub open spec fn chars_match_ci(a: char, b: char) -> bool {
    a == b || ('A' <= a && a <= 'Z' && (b as int) == (a as int) + 32)
}

/// The lower-case pattern `p` matches inside `s` at offset `j`, ignoring
/// the ASCII case of `s`.
pub open spec fn matches_ci_at(s: Seq<char>, p: Seq<char>, j: int) -> bool {
    forall|k: int| 0 <= k < p.len() ==> chars_match_ci(#[trigger] s[j + k], p[k])
}

/// The lower-case pattern `p` occurs inside `s`, ignoring ASCII case.
pub open spec fn contains_ci(s: Seq<char>, p: Seq<char>) -> bool {
    exists|j: int| 0 <= j <= s.len() - p.len() && #[trigger] matches_ci_at(s, p, j)
}

/// Whether `p` matches at offset `k`, ignoring ASCII case in `s`.
fn ci_match_at(s: &str, p: &str, k: usize) -> (r: bool)
    requires
        k + p@.len() <= s@.len(),
        k + p@.len() <= usize::MAX,
    ensures
        r == matches_ci_at(s@, p@, k as int),
{
    let np = p.unicode_len();
    let mut i: usize = 0;
    while i < np
        invariant
            np == p@.len(),
            k + np <= s@.len(),
            k + np <= usize::MAX,
            0 <= i <= np,
            forall|j: int| 0 <= j < i ==> chars_match_ci(#[trigger] s@[k + j], p@[j]),
        decreases np - i,
    {
        let a = s.get_char(k + i);
        let b = p.get_char(i);
        let ok = a == b || ('A' <= a && a <= 'Z' && (b as u32) == (a as u32) + 32);
        if !ok {
            proof {
                assert(!chars_match_ci(s@[k + i], p@[i as int]));
            }
            return false;
        }
        i = i + 1;
    }
    true
}

/// Whether the lower-case pattern `p` occurs in `s`, ignoring `s`'s
/// ASCII case.
pub fn str_contains_ci(s: &str, p: &str) -> (r: bool)
    ensures
        r == contains_ci(s@, p@),
{
    let ns = s.unicode_len();
    let np = p.unicode_len();
    if np > ns {
        proof {
            assert(!contains_ci(s@, p@));
        }
        return false;
    }
    if np == 0 {
        proof {
            assert(matches_ci_at(s@, p@, 0));
        }
        return true;
    }
    let mut k: usize = 0;
    while k <= ns - np
        invariant
            ns == s@.len(),
            np == p@.len(),
            0 < np <= ns,
            0 <= k <= ns - np + 1,
            forall|j: int| 0 <= j < k ==> !#[trigger] matches_ci_at(s@, p@, j),
        ensures
            0 <= k <= ns - np + 1,
            forall|j: int| 0 <= j < k ==> !#[trigger] matches_ci_at(s@, p@, j),
            k <= ns - np ==> matches_ci_at(s@, p@, k as int),
        decreases ns - k,
    {
        if ci_match_at(s, p, k) {
            break;
        }
        k = k + 1;
    }
    if k <= ns - np {
        proof {
            assert(contains_ci(s@, p@));
        }
        true
    } else {
        false
    }
}

} // verus!
