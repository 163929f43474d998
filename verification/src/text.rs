//! Verified text utilities shared by the partitioner, candidate builder and
//! configuration parsers: substring search, splitting, replacement, and
//! decimal formatting and parsing over character sequences.

use vstd::prelude::*;

verus! {

/// `pat` occurs in `s` starting exactly at index `i`.
pub open spec fn match_at(s: Seq<char>, pat: Seq<char>, i: int) -> bool {
    &&& 0 <= i
    &&& i + pat.len() <= s.len()
    &&& s.subrange(i, i + pat.len()) == pat
}

/// Index of the first occurrence of `pat` in `s` at or after `from`,
/// or -1 when there is none.
pub open spec fn spec_find(s: Seq<char>, pat: Seq<char>, from: int) -> int
    decreases s.len() - from,
{
    if from < 0 || from + pat.len() > s.len() {
        -1
    } else if pat.len() == 0 {
        from
    } else if s.subrange(from, from + pat.len()) == pat {
        from
    } else {
        spec_find(s, pat, from + 1)
    }
}

/// `spec_find` returns either -1 with no occurrence at or after `from`,
/// or the least occurrence index at or after `from`.
pub proof fn lemma_find_correct(s: Seq<char>, pat: Seq<char>, from: int)
    requires
        0 <= from,
    ensures
        spec_find(s, pat, from) == -1 || spec_find(s, pat, from) >= from,
        spec_find(s, pat, from) >= 0 ==> match_at(s, pat, spec_find(s, pat, from)),
        spec_find(s, pat, from) >= 0 ==> forall|k: int|
            from <= k < spec_find(s, pat, from) ==> !match_at(s, pat, k),
        spec_find(s, pat, from) == -1 ==> forall|k: int| from <= k ==> !match_at(s, pat, k),
    decreases s.len() - from,
{
    if from + pat.len() > s.len() {
        assert forall|k: int| from <= k implies !match_at(s, pat, k) by {
            assert(k + pat.len() > s.len());
        }
    } else if pat.len() == 0 {
        assert(s.subrange(from, from) =~= pat);
    } else if s.subrange(from, from + pat.len()) == pat {
    } else {
        lemma_find_correct(s, pat, from + 1);
        assert(!match_at(s, pat, from));
    }
}

/// First occurrence of `pat` in `s` at or after character index `from`,
/// as a character index, or `None` when there is none.
pub fn find_from(s: &str, pat: &str, from: usize) -> (r: Option<usize>)
    ensures
        match r {
            Some(i) => spec_find(s@, pat@, from as int) == i as int,
            None => spec_find(s@, pat@, from as int) == -1,
        },
{
    let n = s.unicode_len();
    let m = pat.unicode_len();
    if from > n || m > n - from {
        proof {
            lemma_find_correct(s@, pat@, from as int);
        }
        return None;
    }
    let mut i = from;
    loop
        invariant
            from <= i,
            i + m <= n,
            m <= n,
            n == s@.len(),
            m == pat@.len(),
            spec_find(s@, pat@, from as int) == spec_find(s@, pat@, i as int),
        decreases n - i,
    {
        // compare pat against s[i .. i + m]
        let mut j: usize = 0;
        while j < m
            invariant_except_break
                j <= m,
                i + m <= n,
                n == s@.len(),
                m == pat@.len(),
                forall|k: int| 0 <= k < j ==> s@[i + k] == pat@[k],
            ensures
                j <= m,
                i + m <= n,
                n == s@.len(),
                m == pat@.len(),
                j == m ==> forall|k: int| 0 <= k < m ==> s@[i + k] == pat@[k],
                j < m ==> s@[i + j] != pat@[j as int],
            decreases m - j,
        {
            if s.get_char(i + j) != pat.get_char(j) {
                break;
            }
            j = j + 1;
        }
        if j == m {
            proof {
                assert(s@.subrange(i as int, i + m) =~= pat@);
            }
            return Some(i);
        }
        proof {
            assert(s@.subrange(i as int, i + m) != pat@) by {
                let sub = s@.subrange(i as int, i + m);
                assert(sub[j as int] == s@[i + j]);
            }
            assert(spec_find(s@, pat@, i as int) == spec_find(s@, pat@, i + 1));
        }
        if i + m == n {
            proof {
                assert(spec_find(s@, pat@, i + 1) == -1);
            }
            return None;
        }
        i = i + 1;
    }
}

/// `pat` occurs somewhere in `s`.
pub fn contains_str(s: &str, pat: &str) -> (r: bool)
    ensures
        r <==> spec_find(s@, pat@, 0) >= 0,
{
    find_from(s, pat, 0).is_some()
}

/// `s` begins with `pat`.
pub fn starts_with_str(s: &str, pat: &str) -> (r: bool)
    ensures
        r <==> (pat@.len() <= s@.len() && s@.subrange(0, pat@.len() as int) =~= pat@),
{
    let n = s.unicode_len();
    let m = pat.unicode_len();
    if m > n {
        return false;
    }
    let mut j: usize = 0;
    while j < m
        invariant_except_break
            j <= m,
            m <= n,
            n == s@.len(),
            m == pat@.len(),
            forall|k: int| 0 <= k < j ==> s@[k] == pat@[k],
        ensures
            j <= m,
            m <= n,
            n == s@.len(),
            m == pat@.len(),
            j == m ==> forall|k: int| 0 <= k < m ==> s@[k] == pat@[k],
            j < m ==> s@[j as int] != pat@[j as int],
        decreases m - j,
    {
        if s.get_char(j) != pat.get_char(j) {
            break;
        }
        j = j + 1;
    }
    if j == m {
        proof {
            assert(s@.subrange(0, m as int) =~= pat@);
        }
        true
    } else {
        proof {
            assert(s@.subrange(0, m as int)[j as int] == s@[j as int]);
        }
        false
    }
}

/// The pieces of `s` between occurrences of `pat`, scanning from `from`.
/// An empty pattern, or no further occurrence, leaves a single piece.
pub open spec fn spec_split_from(s: Seq<char>, pat: Seq<char>, from: int) -> Seq<Seq<char>>
    decreases s.len() - from,
    via spec_split_from_dec
{
    let f = spec_find(s, pat, from);
    if pat.len() == 0 || f < 0 {
        seq![s.subrange(from, s.len() as int)]
    } else {
        seq![s.subrange(from, f)] + spec_split_from(s, pat, f + pat.len())
    }
}

#[via_fn]
proof fn spec_split_from_dec(s: Seq<char>, pat: Seq<char>, from: int) {
    if pat.len() > 0 && spec_find(s, pat, from) >= 0 {
        lemma_find_correct(s, pat, from);
    }
}

/// `s` split on every occurrence of `pat`, left to right.
pub open spec fn spec_split(s: Seq<char>, pat: Seq<char>) -> Seq<Seq<char>> {
    spec_split_from(s, pat, 0)
}

/// `s` split on every occurrence of `pat`, as owned strings.
pub fn split_str(s: &str, pat: &str) -> (parts: Vec<String>)
    ensures
        parts.deep_view() == spec_split(s@, pat@),
        parts.len() >= 1,
{
    let n = s.unicode_len();
    let m = pat.unicode_len();
    let mut parts: Vec<String> = Vec::new();
    if m == 0 {
        parts.push(s.to_owned());
        proof {
            assert(s@.subrange(0, s@.len() as int) =~= s@);
            assert(parts.deep_view() =~= spec_split(s@, pat@));
        }
        return parts;
    }
    let mut start: usize = 0;
    loop
        invariant
            start <= n,
            n == s@.len(),
            m == pat@.len(),
            m >= 1,
            parts.deep_view() + spec_split_from(s@, pat@, start as int) == spec_split(s@, pat@),
        decreases n - start,
    {
        let ghost prev = parts.deep_view();
        match find_from(s, pat, start) {
            Some(f) => {
                proof {
                    lemma_find_correct(s@, pat@, start as int);
                }
                parts.push(s.substring_char(start, f).to_owned());
                proof {
                    let piece = s@.subrange(start as int, f as int);
                    let rest = spec_split_from(s@, pat@, f + pat@.len());
                    assert(parts.deep_view() =~= prev + seq![piece]);
                    assert(spec_split_from(s@, pat@, start as int) == seq![piece] + rest);
                    assert((prev + seq![piece]) + rest =~= prev + (seq![piece] + rest));
                }
                start = f + m;
            },
            None => {
                parts.push(s.substring_char(start, n).to_owned());
                proof {
                    let piece = s@.subrange(start as int, n as int);
                    assert(spec_split_from(s@, pat@, start as int) == seq![piece]);
                    assert(parts.deep_view() =~= prev + seq![piece]);
                }
                return parts;
            },
        }
    }
}

/// `s` with every occurrence of `pat` at or after `from` replaced by `rep`,
/// scanning left to right over the piece `s[from..]`.
pub open spec fn spec_replace_from(s: Seq<char>, pat: Seq<char>, rep: Seq<char>, from: int) -> Seq<
    char,
>
    decreases s.len() - from,
    via spec_replace_from_dec
{
    let f = spec_find(s, pat, from);
    if pat.len() == 0 || f < 0 {
        s.subrange(from, s.len() as int)
    } else {
        s.subrange(from, f) + rep + spec_replace_from(s, pat, rep, f + pat.len())
    }
}

#[via_fn]
proof fn spec_replace_from_dec(s: Seq<char>, pat: Seq<char>, rep: Seq<char>, from: int) {
    if pat.len() > 0 && spec_find(s, pat, from) >= 0 {
        lemma_find_correct(s, pat, from);
    }
}

/// `s` with every occurrence of `pat` replaced by `rep`.
pub open spec fn spec_replace(s: Seq<char>, pat: Seq<char>, rep: Seq<char>) -> Seq<char> {
    spec_replace_from(s, pat, rep, 0)
}

/// `s` with every occurrence of `pat` replaced by `rep`, as an owned string.
pub fn replace_str(s: &str, pat: &str, rep: &str) -> (r: String)
    ensures
        r@ == spec_replace(s@, pat@, rep@),
{
    let n = s.unicode_len();
    let m = pat.unicode_len();
    let mut out = String::new();
    if m == 0 {
        out.append(s);
        proof {
            assert(s@.subrange(0, s@.len() as int) =~= s@);
            assert(out@ =~= spec_replace(s@, pat@, rep@));
        }
        return out;
    }
    let mut start: usize = 0;
    loop
        invariant
            start <= n,
            n == s@.len(),
            m == pat@.len(),
            m >= 1,
            out@ + spec_replace_from(s@, pat@, rep@, start as int) == spec_replace(
                s@,
                pat@,
                rep@,
            ),
        decreases n - start,
    {
        let ghost prev = out@;
        match find_from(s, pat, start) {
            Some(f) => {
                proof {
                    lemma_find_correct(s@, pat@, start as int);
                }
                out.append(s.substring_char(start, f));
                out.append(rep);
                proof {
                    let piece = s@.subrange(start as int, f as int);
                    let rest = spec_replace_from(s@, pat@, rep@, f + pat@.len());
                    assert(spec_replace_from(s@, pat@, rep@, start as int) == piece + rep@
                        + rest);
                    assert((prev + (piece + rep@)) + rest =~= prev + (piece + rep@ + rest));
                    assert(out@ =~= prev + (piece + rep@));
                }
                start = f + m;
            },
            None => {
                out.append(s.substring_char(start, n));
                proof {
                    let piece = s@.subrange(start as int, n as int);
                    assert(spec_replace_from(s@, pat@, rep@, start as int) == piece);
                    assert(out@ =~= prev + piece);
                }
                return out;
            },
        }
    }
}

/// The character for one decimal digit value.
pub open spec fn spec_digit(d: int) -> char {
    if d == 0 {
        '0'
    } else if d == 1 {
        '1'
    } else if d == 2 {
        '2'
    } else if d == 3 {
        '3'
    } else if d == 4 {
        '4'
    } else if d == 5 {
        '5'
    } else if d == 6 {
        '6'
    } else if d == 7 {
        '7'
    } else if d == 8 {
        '8'
    } else {
        '9'
    }
}

/// Decimal digits of `n`, most significant first, with no leading zeros
/// (and a single `'0'` for zero).
pub open spec fn spec_dec_digits(n: int) -> Seq<char>
    decreases n,
{
    if n < 10 {
        seq![spec_digit(n)]
    } else {
        spec_dec_digits(n / 10).push(spec_digit(n % 10))
    }
}

fn digit_str(d: u64) -> (s: &'static str)
    requires
        d < 10,
    ensures
        s@ == seq![spec_digit(d as int)],
{
    if d == 0 {
        let s = "0";
        proof {
            reveal_strlit("0");
            assert(s@ =~= seq![spec_digit(0)]);
        }
        s
    } else if d == 1 {
        let s = "1";
        proof {
            reveal_strlit("1");
            assert(s@ =~= seq![spec_digit(1)]);
        }
        s
    } else if d == 2 {
        let s = "2";
        proof {
            reveal_strlit("2");
            assert(s@ =~= seq![spec_digit(2)]);
        }
        s
    } else if d == 3 {
        let s = "3";
        proof {
            reveal_strlit("3");
            assert(s@ =~= seq![spec_digit(3)]);
        }
        s
    } else if d == 4 {
        let s = "4";
        proof {
            reveal_strlit("4");
            assert(s@ =~= seq![spec_digit(4)]);
        }
        s
    } else if d == 5 {
        let s = "5";
        proof {
            reveal_strlit("5");
            assert(s@ =~= seq![spec_digit(5)]);
        }
        s
    } else if d == 6 {
        let s = "6";
        proof {
            reveal_strlit("6");
            assert(s@ =~= seq![spec_digit(6)]);
        }
        s
    } else if d == 7 {
        let s = "7";
        proof {
            reveal_strlit("7");
            assert(s@ =~= seq![spec_digit(7)]);
        }
        s
    } else if d == 8 {
        let s = "8";
        proof {
            reveal_strlit("8");
            assert(s@ =~= seq![spec_digit(8)]);
        }
        s
    } else {
        let s = "9";
        proof {
            reveal_strlit("9");
            assert(s@ =~= seq![spec_digit(9)]);
        }
        s
    }
}

/// `v` written in decimal.
pub fn u64_to_string(v: u64) -> (s: String)
    ensures
        s@ == spec_dec_digits(v as int),
    decreases v,
{
    if v < 10 {
        digit_str(v).to_owned()
    } else {
        let mut s = u64_to_string(v / 10);
        s.append(digit_str(v % 10));
        proof {
            assert(s@ =~= spec_dec_digits((v / 10) as int).push(spec_digit((v % 10) as int)));
        }
        s
    }
}

/// `v` written in decimal.
pub fn u16_to_string(v: u16) -> (s: String)
    ensures
        s@ == spec_dec_digits(v as int),
{
    u64_to_string(v as u64)
}

/// Whether `c` is a decimal digit.
pub open spec fn spec_is_digit(c: char) -> bool {
    '0' <= c && c <= '9'
}

/// The value of a digit character.
pub open spec fn spec_digit_val(c: char) -> int {
    c as int - '0' as int
}

/// Every character of `s` is a decimal digit.
pub open spec fn spec_all_digits(s: Seq<char>) -> bool {
    forall|i: int| 0 <= i < s.len() ==> spec_is_digit(s[i])
}

/// The number denoted by the digit string `s`, most significant digit first.
pub open spec fn spec_digits_val(s: Seq<char>) -> int
    decreases s.len(),
{
    if s.len() == 0 {
        0
    } else {
        spec_digits_val(s.drop_last()) * 10 + spec_digit_val(s.last())
    }
}

/// What parsing `s` as an unsigned 64-bit decimal number yields: the value
/// when `s` is nonempty, all digits, and the value fits; nothing otherwise.
pub open spec fn spec_parse_u64(s: Seq<char>) -> Option<u64> {
    if s.len() == 0 || !spec_all_digits(s) {
        None
    } else if spec_digits_val(s) > u64::MAX as int {
        None
    } else {
        Some(spec_digits_val(s) as u64)
    }
}

/// What parsing `s` as an unsigned 16-bit decimal number yields.
pub open spec fn spec_parse_u16(s: Seq<char>) -> Option<u16> {
    match spec_parse_u64(s) {
        Some(v) => if v <= u16::MAX as u64 {
            Some(v as u16)
        } else {
            None
        },
        None => None,
    }
}

proof fn lemma_digits_val_nonneg(s: Seq<char>)
    requires
        spec_all_digits(s),
    ensures
        spec_digits_val(s) >= 0,
    decreases s.len(),
{
    if s.len() > 0 {
        assert(spec_all_digits(s.drop_last()));
        lemma_digits_val_nonneg(s.drop_last());
        assert(spec_is_digit(s.last()));
    }
}

proof fn lemma_digits_val_mono(s: Seq<char>, j: int)
    requires
        spec_all_digits(s),
        0 <= j <= s.len(),
    ensures
        spec_digits_val(s) >= spec_digits_val(s.take(j)),
    decreases s.len(),
{
    if j == s.len() {
        assert(s.take(j) =~= s);
    } else {
        assert(s.len() > 0);
        let d = s.drop_last();
        assert(spec_all_digits(d));
        assert(d.take(j) =~= s.take(j));
        lemma_digits_val_mono(d, j);
        lemma_digits_val_nonneg(d);
        assert(spec_is_digit(s.last()));
        assert(spec_digits_val(s) == spec_digits_val(d) * 10 + spec_digit_val(s.last()));
        assert(spec_digits_val(d) * 10 >= spec_digits_val(d)) by (nonlinear_arith)
            requires
                spec_digits_val(d) >= 0,
        ;
    }
}

/// Parse `s` as an unsigned 64-bit decimal number: digits only, no sign,
/// no surrounding whitespace.
pub fn parse_u64(s: &str) -> (r: Option<u64>)
    ensures
        r == spec_parse_u64(s@),
{
    let n = s.unicode_len();
    if n == 0 {
        return None;
    }
    let mut acc: u64 = 0;
    let mut i: usize = 0;
    while i < n
        invariant
            i <= n,
            n == s@.len(),
            n > 0,
            spec_all_digits(s@.take(i as int)),
            acc == spec_digits_val(s@.take(i as int)),
        decreases n - i,
    {
        let c = s.get_char(i);
        let cv = c as u32;
        if cv < 48 || cv > 57 {
            proof {
                assert(!spec_is_digit(s@[i as int]));
            }
            return None;
        }
        let d = (cv - 48) as u64;
        proof {
            assert(spec_is_digit(s@[i as int]));
            assert(d == spec_digit_val(s@[i as int]));
            assert(s@.take(i + 1).drop_last() =~= s@.take(i as int));
            assert(s@.take(i + 1).last() == s@[i as int]);
        }
        if acc > (u64::MAX - d) / 10 {
            proof {
                let full = spec_digits_val(s@.take(i + 1));
                assert(full == acc * 10 + d);
                assert(acc * 10 + d > u64::MAX) by (nonlinear_arith)
                    requires
                        acc > (u64::MAX - d) / 10,
                        d < 10,
                        acc <= u64::MAX,
                ;
                if spec_all_digits(s@) {
                    lemma_digits_val_mono(s@, i + 1);
                    assert(spec_digits_val(s@) > u64::MAX as int);
                }
            }
            return None;
        }
        proof {
            assert(acc * 10 + d <= u64::MAX) by (nonlinear_arith)
                requires
                    acc <= (u64::MAX - d) / 10,
                    d < 10,
            ;
        }
        acc = acc * 10 + d;
        i = i + 1;
    }
    proof {
        assert(s@.take(n as int) =~= s@);
    }
    Some(acc)
}

/// Parse `s` as an unsigned 16-bit decimal number.
pub fn parse_u16(s: &str) -> (r: Option<u16>)
    ensures
        r == spec_parse_u16(s@),
{
    match parse_u64(s) {
        Some(v) => if v <= u16::MAX as u64 {
            Some(v as u16)
        } else {
            None
        },
        None => None,
    }
}

} // verus!
