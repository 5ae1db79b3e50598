//! Verified text utilities: substring search, decimal formatting and parsing,
//! whitespace trimming, line splitting and template substitution.
//!
//! Every executable function is specified against a small recursive spec
//! function over `Seq<char>`, so callers can state exact, character-level
//! contracts about the strings they build or inspect.

use vstd::prelude::*;
use vstd::string::StringExecFns;
use vstd::string::StrSliceExecFns;

verus! {

/// `pat` occurs in `s` starting at position `i`.
pub open spec fn occurs_at(s: Seq<char>, pat: Seq<char>, i: int) -> bool {
    0 <= i && i + pat.len() <= s.len() && s.subrange(i, i + pat.len()) == pat
}

/// `pat` occurs somewhere in `s`.
pub open spec fn contains_seq(s: Seq<char>, pat: Seq<char>) -> bool {
    exists|i: int| occurs_at(s, pat, i)
}

/// Position of the first occurrence of `pat` in `s` at or after `i`.
pub open spec fn find_from(s: Seq<char>, pat: Seq<char>, i: int) -> Option<int>
    decreases s.len() - i,
{
    if i < 0 || i + pat.len() > s.len() {
        None
    } else if pat.len() == 0 || s.subrange(i, i + pat.len()) == pat {
        Some(i)
    } else {
        find_from(s, pat, i + 1)
    }
}

pub open spec fn find_first(s: Seq<char>, pat: Seq<char>) -> Option<int> {
    find_from(s, pat, 0)
}

pub proof fn lemma_find_from_some(s: Seq<char>, pat: Seq<char>, i: int)
    requires
        find_from(s, pat, i) is Some,
    ensures
        occurs_at(s, pat, find_from(s, pat, i)->0),
        find_from(s, pat, i)->0 >= i,
        forall|j: int| i <= j < find_from(s, pat, i)->0 ==> !occurs_at(s, pat, j),
    decreases s.len() - i,
{
    if i < 0 || i + pat.len() > s.len() {
        assert(false);
    } else if pat.len() == 0 || s.subrange(i, i + pat.len()) == pat {
        if pat.len() == 0 {
            assert(s.subrange(i, i + pat.len()) =~= pat);
        }
    } else {
        lemma_find_from_some(s, pat, i + 1);
    }
}

pub proof fn lemma_find_from_none(s: Seq<char>, pat: Seq<char>, i: int)
    requires
        find_from(s, pat, i) is None,
        i >= 0,
    ensures
        forall|j: int| j >= i ==> !occurs_at(s, pat, j),
    decreases s.len() - i,
{
    if i + pat.len() > s.len() {
    } else if pat.len() == 0 || s.subrange(i, i + pat.len()) == pat {
        assert(false);
    } else {
        lemma_find_from_none(s, pat, i + 1);
    }
}

/// `find_first` is `Some` exactly when the pattern occurs at all.
pub proof fn lemma_find_first_contains(s: Seq<char>, pat: Seq<char>)
    ensures
        find_first(s, pat) is Some <==> contains_seq(s, pat),
{
    if find_first(s, pat) is Some {
        lemma_find_from_some(s, pat, 0);
    } else {
        lemma_find_from_none(s, pat, 0);
        if contains_seq(s, pat) {
            let i = choose|i: int| occurs_at(s, pat, i);
            assert(!occurs_at(s, pat, i));
        }
    }
}

/// Search for `pat` in `s`; returns the index (in characters) of the first
/// occurrence, exactly as `find_first` specifies.
pub fn find_str(s: &str, pat: &str) -> (r: Option<usize>)
    ensures
        match r {
            Some(i) => find_first(s@, pat@) == Some(i as int),
            None => find_first(s@, pat@) is None,
        },
{
    let s_len = s.unicode_len();
    let pat_len = pat.unicode_len();
    if pat_len > s_len {
        proof {
            assert(find_from(s@, pat@, 0) is None);
        }
        return None;
    }
    if pat_len == 0 {
        return Some(0);
    }
    let mut i: usize = 0;
    while i <= s_len - pat_len
        invariant
            0 < pat_len <= s_len,
            s_len == s@.len(),
            pat_len == pat@.len(),
            0 <= i <= s_len - pat_len + 1,
            find_from(s@, pat@, 0) == find_from(s@, pat@, i as int),
        decreases s_len - pat_len - i + 1,
    {
        let mut j: usize = 0;
        let mut matched = true;
        while j < pat_len
            invariant
                0 < pat_len <= s_len,
                s_len == s@.len(),
                pat_len == pat@.len(),
                i + pat_len <= s_len,
                0 <= j <= pat_len,
                matched <==> (forall|k: int| 0 <= k < j ==> s@[i + k] == #[trigger] pat@[k]),
            decreases pat_len - j,
        {
            let cs = s.get_char(i + j);
            let cp = pat.get_char(j);
            if cs != cp {
                matched = false;
            }
            j = j + 1;
        }
        if matched {
            proof {
                assert(s@.subrange(i as int, i + pat@.len()) =~= pat@);
            }
            return Some(i);
        }
        proof {
            assert(s@.subrange(i as int, i + pat@.len()) != pat@) by {
                if s@.subrange(i as int, i + pat@.len()) == pat@ {
                    let k = choose|k: int| 0 <= k < pat@.len() && s@[i + k] != #[trigger] pat@[k];
                    assert(s@.subrange(i as int, i + pat@.len())[k] == pat@[k]);
                }
            }
        }
        i = i + 1;
    }
    proof {
        assert(find_from(s@, pat@, i as int) is None);
    }
    None
}

/// Whether `s` contains `pat`, against the quantified `contains_seq` spec.
pub fn contains_str(s: &str, pat: &str) -> (r: bool)
    ensures
        r == contains_seq(s@, pat@),
{
    let r = find_str(s, pat);
    proof {
        lemma_find_first_contains(s@, pat@);
    }
    r.is_some()
}

/// The decimal digit character for `d` (`0 <= d <= 9`).
pub open spec fn digit_char(d: int) -> char {
    if d == 0 {
        '0'
    } else if d == 1 {
        '1'
    } else if d == 2 {
        '2'
    } else if d == 3 {
        '3'
    } else if d == 4 {
        '4'
    } else if d == 5 {
        '5'
    } else if d == 6 {
        '6'
    } else if d == 7 {
        '7'
    } else if d == 8 {
        '8'
    } else {
        '9'
    }
}

/// Decimal representation of `n`, most significant digit first, no leading
/// zeroes (a single `'0'` for zero).
pub open spec fn dec_digits(n: nat) -> Seq<char>
    decreases n,
{
    if n < 10 {
        seq![digit_char(n as int)]
    } else {
        dec_digits(n / 10).push(digit_char((n % 10) as int))
    }
}

fn digit_str(d: u64) -> (r: &'static str)
    requires
        d < 10,
    ensures
        r@ =~= seq![digit_char(d as int)],
{
    proof {
        reveal_strlit("0");
        reveal_strlit("1");
        reveal_strlit("2");
        reveal_strlit("3");
        reveal_strlit("4");
        reveal_strlit("5");
        reveal_strlit("6");
        reveal_strlit("7");
        reveal_strlit("8");
        reveal_strlit("9");
    }
    match d {
        0 => "0",
        1 => "1",
        2 => "2",
        3 => "3",
        4 => "4",
        5 => "5",
        6 => "6",
        7 => "7",
        8 => "8",
        _ => "9",
    }
}

/// Render `n` in decimal.
pub fn u64_to_dec(n: u64) -> (r: String)
    ensures
        r@ == dec_digits(n as nat),
    decreases n,
{
    if n < 10 {
        String::from_str(digit_str(n))
    } else {
        let mut s = u64_to_dec(n / 10);
        s.append(digit_str(n % 10));
        proof {
            assert(s@ =~= dec_digits((n / 10) as nat).push(digit_char((n % 10) as int)));
        }
        s
    }
}

pub open spec fn is_digit(c: char) -> bool {
    '0' <= c && c <= '9'
}

/// A decimal rendering is never empty and starts with a digit.
pub proof fn lemma_dec_digits_shape(n: nat)
    ensures
        dec_digits(n).len() >= 1,
        is_digit(dec_digits(n)[0]),
    decreases n,
{
    if n >= 10 {
        lemma_dec_digits_shape(n / 10);
    }
}

pub open spec fn digit_val(c: char) -> int {
    c as int - '0' as int
}

pub open spec fn all_digits(s: Seq<char>) -> bool {
    forall|i: int| 0 <= i < s.len() ==> is_digit(#[trigger] s[i])
}

/// Value of a decimal digit string.
pub open spec fn dec_value(s: Seq<char>) -> int
    decreases s.len(),
{
    if s.len() == 0 {
        0
    } else {
        dec_value(s.drop_last()) * 10 + digit_val(s.last())
    }
}

proof fn lemma_dec_value_nonneg(s: Seq<char>)
    requires
        all_digits(s),
    ensures
        dec_value(s) >= 0,
    decreases s.len(),
{
    if s.len() > 0 {
        assert(all_digits(s.drop_last())) by {
            assert(forall|i: int|
                0 <= i < s.drop_last().len() ==> s.drop_last()[i] == #[trigger] s[i]);
        }
        lemma_dec_value_nonneg(s.drop_last());
    }
}

proof fn lemma_dec_value_take_step(s: Seq<char>, i: int)
    requires
        0 <= i < s.len(),
    ensures
        dec_value(s.take(i + 1)) == dec_value(s.take(i)) * 10 + digit_val(s[i]),
{
    assert(s.take(i + 1).drop_last() =~= s.take(i));
    assert(s.take(i + 1).last() == s[i]);
}

proof fn lemma_dec_value_grows(s: Seq<char>, i: int)
    requires
        all_digits(s),
        0 <= i <= s.len(),
    ensures
        dec_value(s) >= dec_value(s.take(i)),
    decreases s.len() - i,
{
    assert(all_digits(s.take(i))) by {
        assert(forall|k: int| 0 <= k < s.take(i).len() ==> s.take(i)[k] == #[trigger] s[k]);
    }
    lemma_dec_value_nonneg(s.take(i));
    if i == s.len() {
        assert(s.take(i) =~= s);
    } else {
        lemma_dec_value_take_step(s, i);
        lemma_dec_value_grows(s, i + 1);
    }
}

/// Parse a decimal digit string. Returns `Some` exactly when `s` is a
/// non-empty string of decimal digits whose value fits in a `u64`.
pub fn parse_u64(s: &str) -> (r: Option<u64>)
    ensures
        match r {
            Some(n) => s@.len() > 0 && all_digits(s@) && n as int == dec_value(s@),
            None => !(s@.len() > 0 && all_digits(s@) && dec_value(s@) <= u64::MAX),
        },
{
    let len = s.unicode_len();
    if len == 0 {
        return None;
    }
    let mut acc: u64 = 0;
    let mut i: usize = 0;
    while i < len
        invariant
            len == s@.len(),
            0 <= i <= len,
            all_digits(s@.take(i as int)),
            acc as int == dec_value(s@.take(i as int)),
        decreases len - i,
    {
        let c = s.get_char(i);
        let cv = c as u32;
        if cv < 48 || cv > 57 {
            proof {
                assert(!is_digit(s@[i as int]));
            }
            return None;
        }
        let d = (cv - 48) as u64;
        proof {
            assert(is_digit(s@[i as int]));
            assert(d as int == digit_val(s@[i as int]));
            lemma_dec_value_take_step(s@, i as int);
        }
        if acc > (u64::MAX - d) / 10 {
            proof {
                assert(dec_value(s@.take(i + 1)) > u64::MAX) by {
                    assert(acc * 10 + d > u64::MAX) by (nonlinear_arith)
                        requires
                            acc > (u64::MAX - d) / 10,
                            d < 10,
                    ;
                }
                if s@.len() > 0 && all_digits(s@) {
                    lemma_dec_value_grows(s@, i + 1);
                }
            }
            return None;
        }
        acc = acc * 10 + d;
        proof {
            assert(all_digits(s@.take(i + 1))) by {
                assert(forall|k: int|
                    0 <= k < i + 1 ==> s@.take(i + 1)[k] == #[trigger] s@.take(i + 1)[k]);
                assert(forall|k: int| 0 <= k < i ==> s@.take(i + 1)[k] == s@.take(i as int)[k]);
                assert(forall|k: int|
                    0 <= k < i + 1 ==> is_digit(#[trigger] s@.take(i + 1)[k])) by {
                    assert(forall|k: int| 0 <= k < i ==> is_digit(#[trigger] s@.take(i as int)[k]));
                    assert(s@.take(i + 1)[i as int] == s@[i as int]);
                    assert(forall|k: int| 0 <= k < i ==> s@.take(i + 1)[k] == s@.take(i as int)[k]);
                }
            }
        }
        i = i + 1;
    }
    proof {
        assert(s@.take(len as int) =~= s@);
    }
    Some(acc)
}

pub open spec fn is_space(c: char) -> bool {
    c == ' ' || c == '\t' || c == '\n' || c == '\r'
}

pub open spec fn trim_left_spec(s: Seq<char>) -> Seq<char>
    decreases s.len(),
{
    if s.len() > 0 && is_space(s.first()) {
        trim_left_spec(s.drop_first())
    } else {
        s
    }
}

pub open spec fn trim_right_spec(s: Seq<char>) -> Seq<char>
    decreases s.len(),
{
    if s.len() > 0 && is_space(s.last()) {
        trim_right_spec(s.drop_last())
    } else {
        s
    }
}

/// `s` with the leading and trailing whitespace removed.
pub open spec fn trim_spec(s: Seq<char>) -> Seq<char> {
    trim_right_spec(trim_left_spec(s))
}

proof fn lemma_trim_left_subrange(s: Seq<char>, i: int)
    requires
        0 <= i <= s.len(),
        forall|k: int| 0 <= k < i ==> is_space(#[trigger] s[k]),
        i < s.len() ==> !is_space(s[i]),
    ensures
        trim_left_spec(s) == s.subrange(i, s.len() as int),
    decreases i,
{
    if i == 0 {
        assert(s.subrange(0, s.len() as int) =~= s);
    } else {
        assert(is_space(s.first()));
        assert(s.drop_first() =~= s.subrange(1, s.len() as int));
        lemma_trim_left_subrange(s.drop_first(), i - 1);
        assert(s.drop_first().subrange(i - 1, s.drop_first().len() as int) =~= s.subrange(
            i,
            s.len() as int,
        ));
    }
}

proof fn lemma_trim_right_subrange(s: Seq<char>, j: int)
    requires
        0 <= j <= s.len(),
        forall|k: int| j <= k < s.len() ==> is_space(#[trigger] s[k]),
        j > 0 ==> !is_space(s[j - 1]),
    ensures
        trim_right_spec(s) == s.subrange(0, j),
    decreases s.len() - j,
{
    if j == s.len() {
        assert(s.subrange(0, j) =~= s);
    } else {
        assert(is_space(s.last()));
        assert(s.drop_last() =~= s.subrange(0, s.len() - 1));
        lemma_trim_right_subrange(s.drop_last(), j);
        assert(s.drop_last().subrange(0, j) =~= s.subrange(0, j));
    }
}

fn is_space_char(c: char) -> (r: bool)
    ensures
        r == is_space(c),
{
    c == ' ' || c == '\t' || c == '\n' || c == '\r'
}

/// Remove leading and trailing whitespace.
pub fn trim(s: &str) -> (r: String)
    ensures
        r@ == trim_spec(s@),
{
    let len = s.unicode_len();
    let mut start: usize = 0;
    while start < len && is_space_char(s.get_char(start))
        invariant
            len == s@.len(),
            0 <= start <= len,
            forall|k: int| 0 <= k < start ==> is_space(#[trigger] s@[k]),
        decreases len - start,
    {
        start = start + 1;
    }
    proof {
        lemma_trim_left_subrange(s@, start as int);
    }
    let mut end: usize = len;
    while end > start && is_space_char(s.get_char(end - 1))
        invariant
            len == s@.len(),
            0 <= start <= end <= len,
            forall|k: int| 0 <= k < start ==> is_space(#[trigger] s@[k]),
            start < s@.len() ==> !is_space(s@[start as int]),
            forall|k: int| end <= k < len ==> is_space(#[trigger] s@[k]),
        decreases end,
    {
        end = end - 1;
    }
    let cut = s.substring_char(start, end);
    proof {
        let t = trim_left_spec(s@);
        assert(t == s@.subrange(start as int, len as int));
        assert(forall|k: int|
            end - start <= k < t.len() ==> is_space(#[trigger] t[k]) == is_space(s@[k + start]));
        lemma_trim_right_subrange(t, end - start);
        assert(t.subrange(0, end - start) =~= s@.subrange(start as int, end as int));
    }
    String::from_str(cut)
}

/// The prefix of `s` up to (not including) the first newline, or all of `s`
/// if it has none.
pub open spec fn line_spec(s: Seq<char>) -> Seq<char> {
    match find_first(s, seq!['\n']) {
        Some(i) => s.subrange(0, i),
        None => s,
    }
}

/// Cut `s` at its first newline.
pub fn take_line(s: &str) -> (r: String)
    ensures
        r@ == line_spec(s@),
{
    let len = s.unicode_len();
    let mut i: usize = 0;
    while i < len
        invariant
            len == s@.len(),
            0 <= i <= len,
            find_from(s@, seq!['\n'], 0) == find_from(s@, seq!['\n'], i as int),
            forall|k: int| 0 <= k < i ==> s@[k] != '\n',
        decreases len - i,
    {
        let c = s.get_char(i);
        proof {
            if c == '\n' {
                assert(s@.subrange(i as int, i + 1) =~= seq!['\n']);
            } else {
                assert(s@.subrange(i as int, i + 1) =~= seq![c]);
                assert(s@.subrange(i as int, i + 1) != seq!['\n']) by {
                    assert(s@.subrange(i as int, i + 1)[0] != seq!['\n'][0]);
                }
            }
        }
        if c == '\n' {
            let cut = s.substring_char(0, i);
            return String::from_str(cut);
        }
        i = i + 1;
    }
    proof {
        assert(find_from(s@, seq!['\n'], i as int) is None);
        assert(s@.subrange(0, len as int) =~= s@);
    }
    let cut = s.substring_char(0, len);
    String::from_str(cut)
}

/// `s` with every (leftmost, non-overlapping) occurrence of `pat` replaced by
/// `val`. The empty pattern replaces nothing.
pub open spec fn replace_spec(s: Seq<char>, pat: Seq<char>, val: Seq<char>) -> Seq<char>
    decreases s.len(),
    when pat.len() > 0
    via replace_spec_decreases
{
    if pat.len() == 0 {
        s
    } else {
        match find_first(s, pat) {
            None => s,
            Some(i) => s.subrange(0, i) + val + replace_spec(
                s.subrange(i + pat.len(), s.len() as int),
                pat,
                val,
            ),
        }
    }
}

#[via_fn]
proof fn replace_spec_decreases(s: Seq<char>, pat: Seq<char>, val: Seq<char>) {
    if pat.len() > 0 && find_first(s, pat) is Some {
        lemma_find_from_some(s, pat, 0);
    }
}

/// Replace every occurrence of `pat` in `s` by `val`.
pub fn replace_str(s: &str, pat: &str, val: &str) -> (r: String)
    requires
        pat@.len() > 0,
    ensures
        r@ == replace_spec(s@, pat@, val@),
{
    let mut out = String::new();
    let mut rest = String::from_str(s);
    loop
        invariant
            pat@.len() > 0,
            replace_spec(s@, pat@, val@) == out@ + replace_spec(rest@, pat@, val@),
        decreases rest@.len(),
    {
        match find_str(rest.as_str(), pat) {
            None => {
                out.append(rest.as_str());
                proof {
                    assert(out@ =~= replace_spec(s@, pat@, val@));
                }
                return out;
            },
            Some(i) => {
                proof {
                    lemma_find_from_some(rest@, pat@, 0);
                }
                let rest_len = rest.unicode_len();
                let pre = rest.as_str().substring_char(0, i);
                out.append(pre);
                out.append(val);
                let tail = rest.as_str().substring_char(i + pat.unicode_len(), rest_len);
                let new_rest = String::from_str(tail);
                proof {
                    assert(replace_spec(rest@, pat@, val@) == rest@.subrange(0, i as int) + val@
                        + replace_spec(new_rest@, pat@, val@));
                    assert(out@ + val@ + replace_spec(new_rest@, pat@, val@) == (out@ + val@)
                        + replace_spec(new_rest@, pat@, val@));
                }
                rest = new_rest;
            },
        }
    }
}

/// Concatenate two strings.
pub fn concat_str(a: &str, b: &str) -> (r: String)
    ensures
        r@ == a@ + b@,
{
    let mut out = String::from_str(a);
    out.append(b);
    out
}

} // verus!
