//! Numbers as text: decimal digits written and read.

use vstd::prelude::*;
use vstd::string::*;
use crate::text::chars_of;

verus! {

/// The character of the decimal digit `d`.
pub open spec fn digit_char(d: nat) -> char {
    ((48 + d) as u8) as char
}

/// The decimal form of `n`, without leading zeros.
pub open spec fn decimal(n: nat) -> Seq<char>
    decreases n,
{
    if n < 10 {
        seq![digit_char(n)]
    } else {
        decimal(n / 10).push(digit_char(n % 10))
    }
}

/// Appends the decimal form of `n` to `out`.
pub fn push_decimal(out: &mut String, n: usize)
    ensures
        final(out)@ == old(out)@ + decimal(n as nat),
    decreases n,
{
    if n >= 10 {
        push_decimal(out, n / 10);
    }
    let d: u8 = (n % 10) as u8;
    out.push((48u8 + d) as char);
    proof {
        if n < 10 {
            assert(old(out)@.push(digit_char(n as nat)) =~= old(out)@ + decimal(n as nat));
        } else {
            assert((old(out)@ + decimal((n / 10) as nat)).push(digit_char((n % 10) as nat)) =~= old(
                out,
            )@ + decimal(n as nat));
        }
    }
}

/// Whether `c` is one of the ten decimal digits.
pub open spec fn is_digit(c: char) -> bool {
    '0' <= c <= '9'
}

/// Whether every character of `s` is a decimal digit.
pub open spec fn all_digits(s: Seq<char>) -> bool {
    forall|i: int| 0 <= i < s.len() ==> is_digit(#[trigger] s[i])
}

/// The number that a run of decimal digits stands for.
pub open spec fn digits_value(s: Seq<char>) -> nat
    decreases s.len(),
{
    if s.len() == 0 {
        0
    } else {
        digits_value(s.drop_last()) * 10 + (s.last() as nat - 48) as nat
    }
}

/// The text without one leading `+`.
pub open spec fn unsigned_part(s: Seq<char>) -> Seq<char> {
    if s.len() > 0 && s[0] == '+' {
        s.subrange(1, s.len() as int)
    } else {
        s
    }
}

/// The number that `s` stands for as a `usize`: an optional `+`, then one
/// or more decimal digits whose value fits the type.
pub open spec fn parsed_usize(s: Seq<char>) -> Option<usize> {
    let d = unsigned_part(s);
    if d.len() > 0 && all_digits(d) && digits_value(d) <= usize::MAX {
        Some(digits_value(d) as usize)
    } else {
        None
    }
}

/// A run of digits stands for at least what any of its beginnings does.
pub proof fn lemma_value_grows(s: Seq<char>, k: int)
    requires
        0 <= k <= s.len(),
    ensures
        digits_value(s.subrange(0, k)) <= digits_value(s),
    decreases s.len(),
{
    if k == s.len() {
        assert(s.subrange(0, k) =~= s);
    } else {
        lemma_value_grows(s.drop_last(), k);
        assert(s.drop_last().subrange(0, k) =~= s.subrange(0, k));
    }
}

/// Reads `s` as a `usize`.
pub fn parse_usize(s: &Vec<char>) -> (r: Option<usize>)
    ensures
        r == parsed_usize(s@),
{
    let n: usize = s.len();
    let first: usize = if n > 0 && s[0] == '+' { 1 } else { 0 };
    let ghost d = unsigned_part(s@);
    assert(d == s@.subrange(first as int, n as int)) by {
        if first == 0 {
            assert(s@.subrange(0, n as int) =~= s@);
        }
    }
    if first == n {
        return None;
    }
    let mut acc: usize = 0;
    let mut i: usize = first;
    while i < n
        invariant
            first <= i <= n == s@.len(),
            d == s@.subrange(first as int, n as int),
            d == unsigned_part(s@),
            all_digits(d.subrange(0, i - first)),
            acc == digits_value(d.subrange(0, i - first)),
        decreases n - i,
    {
        let c = s[i];
        let ghost upto = d.subrange(0, i - first);
        let ghost next = d.subrange(0, i - first + 1);
        assert(next.drop_last() =~= upto);
        assert(next.last() == c);
        if c < '0' || c > '9' {
            assert(!is_digit(d[i - first]));
            return None;
        }
        let dig: usize = (c as u32 - 48) as usize;
        proof {
            lemma_value_grows(d, i - first + 1);
        }
        if acc > (usize::MAX - dig) / 10 {
            assert(digits_value(next) > usize::MAX) by (nonlinear_arith)
                requires
                    digits_value(next) == acc * 10 + dig,
                    acc > (usize::MAX - dig) / 10,
                    dig <= usize::MAX,
            ;
            return None;
        }
        assert(acc * 10 + dig <= usize::MAX) by (nonlinear_arith)
            requires
                acc <= (usize::MAX - dig) / 10,
                dig <= usize::MAX,
        ;
        acc = acc * 10 + dig;
        assert(all_digits(next)) by {
            assert forall|j: int| 0 <= j < next.len() implies is_digit(#[trigger] next[j]) by {
                if j < upto.len() {
                    assert(next[j] == upto[j]);
                }
            }
        }
        i = i + 1;
    }
    assert(d.subrange(0, n - first) =~= d);
    Some(acc)
}


/// How many decimal digits stand in a row in `s` from `from` on.
pub open spec fn digits_len(s: Seq<char>, from: int) -> int
    decreases s.len() - from,
{
    if 0 <= from < s.len() && is_digit(s[from]) {
        1 + digits_len(s, from + 1)
    } else {
        0
    }
}

/// Whether `c` is a sign.
pub open spec fn is_sign(c: char) -> bool {
    c == '+' || c == '-'
}

/// The letter `c` in lower case, where it is one of `A` to `Z`.
pub open spec fn lower_letter(c: char) -> char {
    if 'A' <= c <= 'Z' {
        ((c as u8) + 32) as char
    } else {
        c
    }
}

/// Whether `s[from..]` is the word `w`, whatever the case of its letters.
pub open spec fn is_word(s: Seq<char>, from: int, w: Seq<char>) -> bool {
    &&& s.len() - from == w.len()
    &&& forall|i: int| 0 <= i < w.len() ==> lower_letter(#[trigger] s[from + i]) == w[i]
}

/// Whether an exponent, or nothing, stands in `s` from `k` to the end: an
/// `e`, an optional sign and one or more digits.
pub open spec fn exponent_or_end(s: Seq<char>, k: int) -> bool {
    k == s.len() || (0 <= k < s.len() && (s[k] == 'e' || s[k] == 'E') && {
        let d = if k + 1 < s.len() && is_sign(s[k + 1]) {
            k + 2
        } else {
            k + 1
        };
        digits_len(s, d) > 0 && d + digits_len(s, d) == s.len()
    })
}

/// Whether `s[from..]` is digits with at most one point among them and at
/// least one digit, and then an exponent or nothing.
pub open spec fn is_decimal_number(s: Seq<char>, from: int) -> bool {
    let whole = digits_len(s, from);
    let dot = from + whole;
    if dot < s.len() && s[dot] == '.' {
        let frac = digits_len(s, dot + 1);
        whole + frac > 0 && exponent_or_end(s, dot + 1 + frac)
    } else {
        whole > 0 && exponent_or_end(s, dot)
    }
}

/// Whether `s` reads as a number: an optional sign, then `inf`, `infinity`
/// or `nan` in any case, or a decimal number.
pub open spec fn is_numeric_literal(s: Seq<char>) -> bool {
    let from: int = if s.len() > 0 && is_sign(s[0]) {
        1
    } else {
        0
    };
    is_word(s, from, "inf"@) || is_word(s, from, "infinity"@) || is_word(s, from, "nan"@)
        || is_decimal_number(s, from)
}

/// How many decimal digits stand in a row in `s` from `from` on.
pub fn count_digits(s: &Vec<char>, from: usize) -> (n: usize)
    requires
        from <= s@.len(),
    ensures
        n == digits_len(s@, from as int),
        from + n <= s@.len(),
{
    let mut k: usize = from;
    while k < s.len() && s[k] >= '0' && s[k] <= '9'
        invariant
            from <= k <= s@.len(),
            digits_len(s@, from as int) == (k - from) + digits_len(s@, k as int),
        decreases s@.len() - k,
    {
        k = k + 1;
    }
    k - from
}

/// Whether `s[from..]` is the word `w`, whatever the case of its letters.
pub fn word_at(s: &Vec<char>, from: usize, w: &str) -> (b: bool)
    requires
        from <= s@.len(),
    ensures
        b == is_word(s@, from as int, w@),
{
    let word = chars_of(w);
    let n: usize = s.len();
    if n - from != word.len() {
        return false;
    }
    let mut i: usize = 0;
    while i < word.len()
        invariant
            from <= s@.len() == n,
            s@.len() - from == word@.len(),
            word@ == w@,
            i <= word@.len(),
            forall|j: int| 0 <= j < i ==> lower_letter(#[trigger] s@[from + j]) == word@[j],
        decreases word@.len() - i,
    {
        let c = s[from + i];
        let l: char = if c >= 'A' && c <= 'Z' {
            ((c as u8) + 32) as char
        } else {
            c
        };
        if l != word[i] {
            assert(lower_letter(s@[from + i]) != w@[i as int]);
            return false;
        }
        i = i + 1;
    }
    true
}

/// Whether an exponent, or nothing, stands in `s` from `k` to the end.
pub fn exponent_ends(s: &Vec<char>, k: usize) -> (b: bool)
    requires
        k <= s@.len(),
    ensures
        b == exponent_or_end(s@, k as int),
{
    let n: usize = s.len();
    if k == n {
        return true;
    }
    if s[k] != 'e' && s[k] != 'E' {
        return false;
    }
    let d: usize = if k + 1 < n && (s[k + 1] == '+' || s[k + 1] == '-') {
        k + 2
    } else {
        k + 1
    };
    let m = count_digits(s, d);
    m > 0 && d + m == n
}

/// Whether `s` reads as a number.
pub fn is_number(s: &Vec<char>) -> (b: bool)
    ensures
        b == is_numeric_literal(s@),
{
    let n: usize = s.len();
    let from: usize = if n > 0 && (s[0] == '+' || s[0] == '-') {
        1
    } else {
        0
    };
    if word_at(s, from, "inf") || word_at(s, from, "infinity") || word_at(s, from, "nan") {
        return true;
    }
    let whole = count_digits(s, from);
    let dot: usize = from + whole;
    if dot < n && s[dot] == '.' {
        let frac = count_digits(s, dot + 1);
        (whole > 0 || frac > 0) && exponent_ends(s, dot + 1 + frac)
    } else {
        whole > 0 && exponent_ends(s, dot)
    }
}

} // verus!
