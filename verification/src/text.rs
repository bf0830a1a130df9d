//! Character-level scanning: the lexical ground the grammar is built on.
//!
//! The grammar modules describe lines declaratively, as spec functions over
//! `Seq<char>`; this module supplies those spec functions (character classes,
//! numeral values, trimming, splitting) together with the verified executable
//! scanners that follow them.

use vstd::prelude::*;
use vstd::arithmetic::div_mod::lemma_fundamental_div_mod;

verus! {

/// Horizontal whitespace: what trimming removes around tokens.
pub open spec fn is_space_char(c: char) -> bool {
    c == ' ' || c == '\t' || c == '\r'
}

/// A decimal digit `0`..`9`.
pub open spec fn is_dec_digit(c: char) -> bool {
    '0' as u32 <= c as u32 && c as u32 <= '9' as u32
}

/// A hexadecimal digit, in either case.
pub open spec fn is_hex_digit(c: char) -> bool {
    ||| is_dec_digit(c)
    ||| ('a' as u32 <= c as u32 && c as u32 <= 'f' as u32)
    ||| ('A' as u32 <= c as u32 && c as u32 <= 'F' as u32)
}

/// The value of one hexadecimal digit (0 for a non-digit, so the function
/// is total and never negative).
pub open spec fn hex_digit_value(c: char) -> int {
    if is_dec_digit(c) {
        c as u32 - '0' as u32
    } else if 'a' as u32 <= c as u32 && c as u32 <= 'f' as u32 {
        10 + c as u32 - 'a' as u32
    } else if 'A' as u32 <= c as u32 && c as u32 <= 'F' as u32 {
        10 + c as u32 - 'A' as u32
    } else {
        0
    }
}

/// The value of one decimal digit (0 for a non-digit).
pub open spec fn dec_digit_value(c: char) -> int {
    if is_dec_digit(c) {
        c as u32 - '0' as u32
    } else {
        0
    }
}

/// A non-empty run of hexadecimal digits.
pub open spec fn is_hex_numeral(s: Seq<char>) -> bool {
    s.len() > 0 && (forall|j: int| 0 <= j < s.len() ==> is_hex_digit(#[trigger] s[j]))
}

/// A non-empty run of decimal digits.
pub open spec fn is_dec_numeral(s: Seq<char>) -> bool {
    s.len() > 0 && (forall|j: int| 0 <= j < s.len() ==> is_dec_digit(#[trigger] s[j]))
}

/// A hexadecimal literal as written in operand text: `0x` followed by at
/// least one hexadecimal digit.
pub open spec fn is_hex_literal(s: Seq<char>) -> bool {
    s.len() > 2 && s[0] == '0' && s[1] == 'x' && is_hex_numeral(s.skip(2))
}

/// The numeric value of a run of hexadecimal digits, most significant first.
pub open spec fn hex_value(s: Seq<char>) -> int
    decreases s.len(),
{
    if s.len() == 0 {
        0
    } else {
        16 * hex_value(s.drop_last()) + hex_digit_value(s.last())
    }
}

/// The numeric value of a run of decimal digits, most significant first.
pub open spec fn dec_value(s: Seq<char>) -> int
    decreases s.len(),
{
    if s.len() == 0 {
        0
    } else {
        10 * dec_value(s.drop_last()) + dec_digit_value(s.last())
    }
}

/// A numeral's value is never negative.
pub proof fn lemma_hex_value_nonneg(s: Seq<char>)
    ensures
        hex_value(s) >= 0,
    decreases s.len(),
{
    if s.len() > 0 {
        lemma_hex_value_nonneg(s.drop_last());
    }
}

/// A numeral's value is never negative.
pub proof fn lemma_dec_value_nonneg(s: Seq<char>)
    ensures
        dec_value(s) >= 0,
    decreases s.len(),
{
    if s.len() > 0 {
        lemma_dec_value_nonneg(s.drop_last());
    }
}

/// Reading one more digit multiplies the value by the base and adds the
/// digit.
pub proof fn lemma_hex_value_step(s: Seq<char>, i: int)
    requires
        0 <= i < s.len(),
    ensures
        hex_value(s.take(i + 1)) == 16 * hex_value(s.take(i)) + hex_digit_value(s[i]),
{
    assert(s.take(i + 1).drop_last() =~= s.take(i));
    assert(s.take(i + 1).last() == s[i]);
}

/// Reading one more digit multiplies the value by the base and adds the
/// digit.
pub proof fn lemma_dec_value_step(s: Seq<char>, i: int)
    requires
        0 <= i < s.len(),
    ensures
        dec_value(s.take(i + 1)) == 10 * dec_value(s.take(i)) + dec_digit_value(s[i]),
{
    assert(s.take(i + 1).drop_last() =~= s.take(i));
    assert(s.take(i + 1).last() == s[i]);
}

/// A prefix of a numeral never exceeds the whole numeral's value.
pub proof fn lemma_hex_value_prefix_le(s: Seq<char>, i: int)
    requires
        0 <= i <= s.len(),
    ensures
        hex_value(s.take(i)) <= hex_value(s),
    decreases s.len() - i,
{
    if i < s.len() {
        lemma_hex_value_step(s, i);
        lemma_hex_value_nonneg(s.take(i));
        assert(hex_value(s.take(i)) <= hex_value(s.take(i + 1)));
        lemma_hex_value_prefix_le(s, i + 1);
        assert(s.take(s.len() as int) =~= s);
    } else {
        assert(s.take(i) =~= s);
    }
}

/// A prefix of a numeral never exceeds the whole numeral's value.
pub proof fn lemma_dec_value_prefix_le(s: Seq<char>, i: int)
    requires
        0 <= i <= s.len(),
    ensures
        dec_value(s.take(i)) <= dec_value(s),
    decreases s.len() - i,
{
    if i < s.len() {
        lemma_dec_value_step(s, i);
        lemma_dec_value_nonneg(s.take(i));
        assert(dec_value(s.take(i)) <= dec_value(s.take(i + 1)));
        lemma_dec_value_prefix_le(s, i + 1);
        assert(s.take(s.len() as int) =~= s);
    } else {
        assert(s.take(i) =~= s);
    }
}

/// Whether `c` is horizontal whitespace.
pub fn is_space(c: char) -> (r: bool)
    ensures
        r == is_space_char(c),
{
    c == ' ' || c == '\t' || c == '\r'
}

/// The value of `c` as a hexadecimal digit, or `None` if it is not one.
pub fn hex_digit(c: char) -> (r: Option<u64>)
    ensures
        match r {
            Some(v) => is_hex_digit(c) && v as int == hex_digit_value(c),
            None => !is_hex_digit(c),
        },
{
    let v = c as u32;
    if '0' as u32 <= v && v <= '9' as u32 {
        Some((v - '0' as u32) as u64)
    } else if 'a' as u32 <= v && v <= 'f' as u32 {
        Some((10 + v - 'a' as u32) as u64)
    } else if 'A' as u32 <= v && v <= 'F' as u32 {
        Some((10 + v - 'A' as u32) as u64)
    } else {
        None
    }
}

/// The value of `c` as a decimal digit, or `None` if it is not one.
pub fn dec_digit(c: char) -> (r: Option<u64>)
    ensures
        match r {
            Some(v) => is_dec_digit(c) && v as int == dec_digit_value(c),
            None => !is_dec_digit(c),
        },
{
    let v = c as u32;
    if '0' as u32 <= v && v <= '9' as u32 {
        Some((v - '0' as u32) as u64)
    } else {
        None
    }
}

/// Character-for-character string equality.
pub fn str_eq(a: &str, b: &str) -> (r: bool)
    ensures
        r == (a@ == b@),
{
    let an = a.unicode_len();
    let bn = b.unicode_len();
    if an != bn {
        return false;
    }
    let mut i: usize = 0;
    while i < an
        invariant
            i <= an,
            an == a@.len(),
            an == b@.len(),
            forall|j: int| 0 <= j < i ==> a@[j] == b@[j],
        decreases an - i,
    {
        if a.get_char(i) != b.get_char(i) {
            return false;
        }
        i += 1;
    }
    proof {
        assert(a@ =~= b@);
    }
    true
}

/// Reads a whole string as a hexadecimal numeral. Returns its value
/// exactly when the string is a non-empty run of hexadecimal digits whose
/// value fits in 64 bits.
pub fn parse_hex_u64(s: &str) -> (r: Option<u64>)
    ensures
        match r {
            Some(v) => is_hex_numeral(s@) && v as int == hex_value(s@),
            None => !is_hex_numeral(s@) || hex_value(s@) > u64::MAX,
        },
{
    let n = s.unicode_len();
    if n == 0 {
        return None;
    }
    let mut acc: u64 = 0;
    let mut i: usize = 0;
    while i < n
        invariant
            i <= n,
            n == s@.len(),
            n > 0,
            forall|j: int| 0 <= j < i ==> is_hex_digit(#[trigger] s@[j]),
            acc as int == hex_value(s@.take(i as int)),
        decreases n - i,
    {
        let c = s.get_char(i);
        match hex_digit(c) {
            None => {
                return None;
            },
            Some(d) => {
                proof {
                    lemma_hex_value_step(s@, i as int);
                }
                if acc > (u64::MAX - d) / 16 {
                    proof {
                        lemma_fundamental_div_mod((u64::MAX - d) as int, 16);
                        assert(16 * (acc as int) + d as int > u64::MAX);
                        lemma_hex_value_prefix_le(s@, i as int + 1);
                    }
                    return None;
                }
                proof {
                    lemma_fundamental_div_mod((u64::MAX - d) as int, 16);
                    assert(16 * (acc as int) + d as int <= u64::MAX);
                }
                acc = 16 * acc + d;
            },
        }
        i += 1;
    }
    proof {
        assert(s@.take(n as int) =~= s@);
    }
    Some(acc)
}

/// Reads a whole string as a decimal numeral. Returns its value exactly
/// when the string is a non-empty run of decimal digits whose value fits in
/// 64 bits.
pub fn parse_dec_u64(s: &str) -> (r: Option<u64>)
    ensures
        match r {
            Some(v) => is_dec_numeral(s@) && v as int == dec_value(s@),
            None => !is_dec_numeral(s@) || dec_value(s@) > u64::MAX,
        },
{
    let n = s.unicode_len();
    if n == 0 {
        return None;
    }
    let mut acc: u64 = 0;
    let mut i: usize = 0;
    while i < n
        invariant
            i <= n,
            n == s@.len(),
            n > 0,
            forall|j: int| 0 <= j < i ==> is_dec_digit(#[trigger] s@[j]),
            acc as int == dec_value(s@.take(i as int)),
        decreases n - i,
    {
        let c = s.get_char(i);
        match dec_digit(c) {
            None => {
                return None;
            },
            Some(d) => {
                proof {
                    lemma_dec_value_step(s@, i as int);
                }
                if acc > (u64::MAX - d) / 10 {
                    proof {
                        lemma_fundamental_div_mod((u64::MAX - d) as int, 10);
                        assert(10 * (acc as int) + d as int > u64::MAX);
                        lemma_dec_value_prefix_le(s@, i as int + 1);
                    }
                    return None;
                }
                proof {
                    lemma_fundamental_div_mod((u64::MAX - d) as int, 10);
                    assert(10 * (acc as int) + d as int <= u64::MAX);
                }
                acc = 10 * acc + d;
            },
        }
        i += 1;
    }
    proof {
        assert(s@.take(n as int) =~= s@);
    }
    Some(acc)
}

/// `s` with horizontal whitespace removed from both ends.
pub open spec fn trimmed(s: Seq<char>) -> Seq<char>
    decreases s.len(),
{
    if s.len() == 0 {
        s
    } else if is_space_char(s.first()) {
        trimmed(s.drop_first())
    } else if is_space_char(s.last()) {
        trimmed(s.drop_last())
    } else {
        s
    }
}

/// Trimming is the subrange between the first and last non-space characters.
pub proof fn lemma_trimmed_subrange(s: Seq<char>, a: int, b: int)
    requires
        0 <= a <= b <= s.len(),
        forall|j: int| 0 <= j < a ==> is_space_char(#[trigger] s[j]),
        forall|j: int| b <= j < s.len() ==> is_space_char(#[trigger] s[j]),
        a < b ==> !is_space_char(s[a]) && !is_space_char(s[b - 1]),
    ensures
        trimmed(s) == s.subrange(a, b),
    decreases s.len(),
{
    if s.len() == 0 {
        assert(s.subrange(a, b) =~= s);
    } else if is_space_char(s.first()) {
        if a == 0 {
            assert(b == 0);
            lemma_trimmed_subrange(s.drop_first(), 0, 0);
            assert(s.subrange(0, 0) =~= s.drop_first().subrange(0, 0));
        } else {
            lemma_trimmed_subrange(s.drop_first(), a - 1, b - 1);
            assert(s.subrange(a, b) =~= s.drop_first().subrange(a - 1, b - 1));
        }
    } else if is_space_char(s.last()) {
        assert(b < s.len());
        lemma_trimmed_subrange(s.drop_last(), a, b);
        assert(s.subrange(a, b) =~= s.drop_last().subrange(a, b));
    } else {
        assert(a == 0);
        assert(b == s.len());
        assert(s.subrange(0, s.len() as int) =~= s);
    }
}

/// Returns a slice of `s` with surrounding whitespace removed, exactly as
/// [`trimmed`] describes.
pub fn trim(s: &str) -> (r: &str)
    ensures
        r@ == trimmed(s@),
{
    let n = s.unicode_len();
    let mut a: usize = 0;
    while a < n && is_space(s.get_char(a))
        invariant
            a <= n,
            n == s@.len(),
            forall|j: int| 0 <= j < a ==> is_space_char(#[trigger] s@[j]),
        decreases n - a,
    {
        a += 1;
    }
    let mut b: usize = n;
    while b > a && is_space(s.get_char(b - 1))
        invariant
            a <= b <= n,
            n == s@.len(),
            forall|j: int| b <= j < n ==> is_space_char(#[trigger] s@[j]),
        decreases b,
    {
        b -= 1;
    }
    proof {
        lemma_trimmed_subrange(s@, a as int, b as int);
    }
    s.substring_char(a, b)
}

/// The index of the first occurrence of `c` in `s` at or after `i`.
pub open spec fn find_char_from(s: Seq<char>, c: char, i: int) -> Option<int>
    decreases s.len() - i,
{
    if i < 0 || i >= s.len() {
        None
    } else if s[i] == c {
        Some(i)
    } else {
        find_char_from(s, c, i + 1)
    }
}

/// The index of the first occurrence of `c` in `s`.
pub open spec fn find_char(s: Seq<char>, c: char) -> Option<int> {
    find_char_from(s, c, 0)
}

/// What a successful or failed character search means, position by position.
pub proof fn lemma_find_char_from(s: Seq<char>, c: char, i: int)
    requires
        0 <= i,
    ensures
        match find_char_from(s, c, i) {
            Some(k) => i <= k < s.len() && s[k] == c && (forall|j: int|
                i <= j < k ==> s[j] != c),
            None => forall|j: int| i <= j < s.len() ==> s[j] != c,
        },
    decreases s.len() - i,
{
    if i < s.len() && s[i] != c {
        lemma_find_char_from(s, c, i + 1);
    }
}

/// Finds the first occurrence of `c`, following [`find_char`].
pub fn find_char_in(s: &str, c: char) -> (r: Option<usize>)
    ensures
        match r {
            Some(k) => find_char(s@, c) == Some(k as int),
            None => find_char(s@, c) is None,
        },
{
    let n = s.unicode_len();
    let mut i: usize = 0;
    while i < n
        invariant
            i <= n,
            n == s@.len(),
            find_char(s@, c) == find_char_from(s@, c, i as int),
        decreases n - i,
    {
        if s.get_char(i) == c {
            return Some(i);
        }
        i += 1;
    }
    None
}

/// The index of the first whitespace character in `s` at or after `i`.
pub open spec fn find_space_from(s: Seq<char>, i: int) -> Option<int>
    decreases s.len() - i,
{
    if i < 0 || i >= s.len() {
        None
    } else if is_space_char(s[i]) {
        Some(i)
    } else {
        find_space_from(s, i + 1)
    }
}

/// The index of the first whitespace character in `s`.
pub open spec fn find_space(s: Seq<char>) -> Option<int> {
    find_space_from(s, 0)
}

/// What a successful or failed whitespace search means.
pub proof fn lemma_find_space_from(s: Seq<char>, i: int)
    requires
        0 <= i,
    ensures
        match find_space_from(s, i) {
            Some(k) => i <= k < s.len() && is_space_char(s[k]) && (forall|j: int|
                i <= j < k ==> !is_space_char(#[trigger] s[j])),
            None => forall|j: int| i <= j < s.len() ==> !is_space_char(#[trigger] s[j]),
        },
    decreases s.len() - i,
{
    if i < s.len() && !is_space_char(s[i]) {
        lemma_find_space_from(s, i + 1);
    }
}

/// Finds the first whitespace character, following [`find_space`].
pub fn find_space_in(s: &str) -> (r: Option<usize>)
    ensures
        match r {
            Some(k) => find_space(s@) == Some(k as int),
            None => find_space(s@) is None,
        },
{
    let n = s.unicode_len();
    let mut i: usize = 0;
    while i < n
        invariant
            i <= n,
            n == s@.len(),
            find_space(s@) == find_space_from(s@, i as int),
        decreases n - i,
    {
        if is_space(s.get_char(i)) {
            return Some(i);
        }
        i += 1;
    }
    None
}

/// The index of the first occurrence of `c` at parenthesis depth zero, at or
/// after `i` when scanning starts there with depth `depth`.
///
/// Depth-aware search keeps the commas and the assignment marker inside a
/// parenthesized operand from being taken as separators of the line.
pub open spec fn find_top_from(s: Seq<char>, c: char, i: int, depth: int) -> Option<int>
    decreases s.len() - i,
{
    if i < 0 || i >= s.len() {
        None
    } else if depth == 0 && s[i] == c {
        Some(i)
    } else if s[i] == '(' {
        find_top_from(s, c, i + 1, depth + 1)
    } else if s[i] == ')' {
        find_top_from(s, c, i + 1, if depth > 0 { depth - 1 } else { 0 })
    } else {
        find_top_from(s, c, i + 1, depth)
    }
}

/// The index of the first occurrence of `c` outside all parentheses.
pub open spec fn find_top(s: Seq<char>, c: char) -> Option<int> {
    find_top_from(s, c, 0, 0)
}

/// A successful depth-aware search lands inside the sequence, on `c`.
pub proof fn lemma_find_top_from_range(s: Seq<char>, c: char, i: int, depth: int)
    requires
        0 <= i,
        find_top_from(s, c, i, depth) is Some,
    ensures
        match find_top_from(s, c, i, depth) {
            Some(k) => i <= k < s.len() && s[k] == c,
            None => false,
        },
    decreases s.len() - i,
{
    if i < s.len() && !(depth == 0 && s[i] == c) {
        if s[i] == '(' {
            lemma_find_top_from_range(s, c, i + 1, depth + 1);
        } else if s[i] == ')' {
            lemma_find_top_from_range(s, c, i + 1, if depth > 0 { depth - 1 } else { 0 });
        } else {
            lemma_find_top_from_range(s, c, i + 1, depth);
        }
    }
}

/// Finds the first `c` outside all parentheses, following [`find_top`].
pub fn find_top_in(s: &str, c: char) -> (r: Option<usize>)
    ensures
        match r {
            Some(k) => find_top(s@, c) == Some(k as int),
            None => find_top(s@, c) is None,
        },
{
    let n = s.unicode_len();
    let mut i: usize = 0;
    let mut depth: usize = 0;
    while i < n
        invariant
            i <= n,
            depth <= i,
            n == s@.len(),
            find_top(s@, c) == find_top_from(s@, c, i as int, depth as int),
        decreases n - i,
    {
        let ch = s.get_char(i);
        if depth == 0 && ch == c {
            return Some(i);
        }
        if ch == '(' {
            depth += 1;
        } else if ch == ')' {
            if depth > 0 {
                depth -= 1;
            }
        }
        i += 1;
    }
    None
}

/// `s` split at every occurrence of `c` outside parentheses. The separators
/// themselves are dropped; `n` separators give `n + 1` pieces, in order.
pub open spec fn split_top(s: Seq<char>, c: char) -> Seq<Seq<char>>
    decreases s.len(),
    via split_top_decreases
{
    match find_top(s, c) {
        None => seq![s],
        Some(k) => seq![s.take(k)] + split_top(s.skip(k + 1), c),
    }
}

#[via_fn]
proof fn split_top_decreases(s: Seq<char>, c: char) {
    if find_top(s, c) is Some {
        lemma_find_top_from_range(s, c, 0, 0);
    }
}

/// Splits `s` at the separators outside parentheses, following
/// [`split_top`].
pub fn split_top_in(s: &str, c: char) -> (r: Vec<String>)
    ensures
        r.deep_view() == split_top(s@, c),
{
    let mut parts: Vec<String> = Vec::new();
    let mut rest: &str = s;
    loop
        invariant
            split_top(s@, c) == parts.deep_view() + split_top(rest@, c),
        decreases rest@.len(),
    {
        let ghost parts0 = parts.deep_view();
        match find_top_in(rest, c) {
            None => {
                parts.push(rest.to_owned());
                proof {
                    assert(parts.deep_view() =~= parts0.push(rest@));
                    assert(parts.deep_view() + Seq::<Seq<char>>::empty() =~= parts.deep_view());
                    assert(split_top(s@, c) =~= parts.deep_view());
                }
                return parts;
            },
            Some(k) => {
                proof {
                    lemma_find_top_from_range(rest@, c, 0, 0);
                }
                let n = rest.unicode_len();
                let piece = rest.substring_char(0, k);
                parts.push(piece.to_owned());
                let tail = rest.substring_char(k + 1, n);
                proof {
                    assert(parts.deep_view() =~= parts0.push(rest@.take(k as int)));
                    assert(tail@ =~= rest@.skip(k as int + 1));
                    assert(parts.deep_view() + split_top(tail@, c) =~= parts0 + split_top(
                        rest@,
                        c,
                    ));
                }
                rest = tail;
            },
        }
    }
}

} // verus!
