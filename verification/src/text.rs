//! Text as sequences of characters: the primitives the parsers are built on.

use vstd::prelude::*;
use vstd::string::*;
use vstd::utf8::*;

verus! {

/// `String::push` appends one character to the end of the string.
pub assume_specification[ String::push ](s: &mut String, c: char)
    ensures
        final(s)@ == old(s)@.push(c),
;

/// The characters of `s`, in order.
pub fn chars_of(s: &str) -> (v: Vec<char>)
    ensures
        v@ == s@,
{
    broadcast use vstd::string::group_string_axioms;
    let mut v: Vec<char> = Vec::new();
    for c in it: s.chars()
        invariant
            it.seq() == s@,
            v@ == it.seq().take(it.index()),
    {
        v.push(c);
    }
    v
}

/// The string made of the characters `v[from..to]`.
pub fn string_of(v: &Vec<char>, from: usize, to: usize) -> (s: String)
    requires
        from <= to <= v@.len(),
    ensures
        s@ == v@.subrange(from as int, to as int),
{
    let mut s = String::new();
    let mut i: usize = from;
    while i < to
        invariant
            from <= i <= to <= v@.len(),
            s@ == v@.subrange(from as int, i as int),
        decreases to - i,
    {
        s.push(v[i]);
        i = i + 1;
    }
    s
}


/// The string made of the characters of `v`.
pub fn text_of(v: &Vec<char>) -> (s: String)
    ensures
        s@ == v@,
{
    let s = string_of(v, 0, v.len());
    assert(v@.subrange(0, v@.len() as int) =~= v@);
    s
}

/// Whether `s` is the text `lit`.
pub fn is_text(s: &String, lit: &str) -> (b: bool)
    ensures
        b == (s@ == lit@),
{
    let other = String::from_str(lit);
    *s == other
}

/// What `str::to_lowercase` makes of a text: its Unicode lower-case form.
pub uninterp spec fn lowercase_of(s: Seq<char>) -> Seq<char>;

/// `str::to_lowercase` returns the lower-case form of the text, which
/// depends on the text alone.
#[verifier::external_body]
pub(crate) fn to_lowercase(s: &str) -> (r: String)
    ensures
        r@ == lowercase_of(s@),
{
    s.to_lowercase()
}

/// `std::str::from_utf8` accepts exactly the well-formed UTF-8 byte strings
/// and then gives the text that the bytes encode.
#[verifier::external_body]
pub(crate) fn decode_text(bytes: &[u8]) -> (r: Option<String>)
    ensures
        r is Some <==> valid_utf8(bytes@),
        r matches Some(s) ==> s@ == decode_utf8(bytes@),
{
    match std::str::from_utf8(bytes) {
        Ok(s) => Some(s.to_string()),
        Err(_) => None,
    }
}

/// Whether `pat` occurs in `s` at index `i`.
pub open spec fn matches_at<T>(s: Seq<T>, pat: Seq<T>, i: int) -> bool {
    &&& 0 <= i
    &&& i + pat.len() <= s.len()
    &&& s.subrange(i, i + pat.len()) == pat
}

/// The least index at or after `from` at which `pat` occurs in `s`.
pub open spec fn first_match<T>(s: Seq<T>, pat: Seq<T>, from: int) -> Option<int>
    decreases s.len() - from,
{
    if from < 0 || from + pat.len() > s.len() {
        None
    } else if matches_at(s, pat, from) {
        Some(from)
    } else if from < s.len() {
        first_match(s, pat, from + 1)
    } else {
        None
    }
}

/// Whether `c` is white space: one of the characters with the Unicode
/// property `White_Space`.
pub open spec fn is_space(c: char) -> bool {
    let u = c as u32;
    ||| 0x09 <= u <= 0x0D
    ||| u == 0x20
    ||| u == 0x85
    ||| u == 0xA0
    ||| u == 0x1680
    ||| 0x2000 <= u <= 0x200A
    ||| u == 0x2028
    ||| u == 0x2029
    ||| u == 0x202F
    ||| u == 0x205F
    ||| u == 0x3000
}

/// The text without the white space at its start.
pub open spec fn trimmed_start(s: Seq<char>) -> Seq<char>
    decreases s.len(),
{
    if s.len() > 0 && is_space(s[0]) {
        trimmed_start(s.drop_first())
    } else {
        s
    }
}

/// The text without the white space at its end.
pub open spec fn trimmed_end(s: Seq<char>) -> Seq<char>
    decreases s.len(),
{
    if s.len() > 0 && is_space(s.last()) {
        trimmed_end(s.drop_last())
    } else {
        s
    }
}

/// The text without the white space at its start and at its end.
pub open spec fn trimmed(s: Seq<char>) -> Seq<char> {
    trimmed_end(trimmed_start(s))
}

/// Whether `pat` occurs anywhere in `s`.
pub open spec fn contains<T>(s: Seq<T>, pat: Seq<T>) -> bool {
    first_match(s, pat, 0) is Some
}

/// The pieces of `s[from..]` between the occurrences of `pat`, taken from
/// left to right without overlap. There is always at least one piece.
pub open spec fn split_from<T>(s: Seq<T>, pat: Seq<T>, from: int) -> Seq<Seq<T>>
    recommends
        pat.len() > 0,
        0 <= from <= s.len(),
    decreases s.len() - from,
    when pat.len() > 0 && 0 <= from
{
    match first_match(s, pat, from) {
        None => seq![s.subrange(from, s.len() as int)],
        Some(i) => if from <= i && i + pat.len() <= s.len() {
            seq![s.subrange(from, i)] + split_from(s, pat, i + pat.len())
        } else {
            seq![s.subrange(from, s.len() as int)]
        },
    }
}

/// The indices of the occurrences of `pat` in `s` at or after `from`, taken
/// from left to right without overlap.
pub open spec fn matches_from<T>(s: Seq<T>, pat: Seq<T>, from: int) -> Seq<int>
    recommends
        pat.len() > 0,
        0 <= from,
    decreases s.len() - from,
    when pat.len() > 0 && 0 <= from
{
    match first_match(s, pat, from) {
        None => Seq::empty(),
        Some(i) => if from <= i && i + pat.len() <= s.len() {
            seq![i] + matches_from(s, pat, i + pat.len())
        } else {
            Seq::empty()
        },
    }
}

/// The pieces of `s` between the occurrences of `pat`.
pub open spec fn split<T>(s: Seq<T>, pat: Seq<T>) -> Seq<Seq<T>> {
    split_from(s, pat, 0)
}

/// The views of the vectors of `v`, in order.
pub open spec fn views(v: Seq<Vec<char>>) -> Seq<Seq<char>> {
    Seq::new(v.len(), |i: int| v[i]@)
}

/// What `first_match` returns lies in range and is an occurrence, and
/// nothing before it is.
pub proof fn lemma_first_match<T>(s: Seq<T>, pat: Seq<T>, from: int)
    requires
        0 <= from,
    ensures
        match first_match(s, pat, from) {
            Some(i) => from <= i && matches_at(s, pat, i) && forall|j: int|
                from <= j < i ==> !matches_at(s, pat, j),
            None => forall|j: int| from <= j ==> !matches_at(s, pat, j),
        },
    decreases s.len() - from,
{
    if from + pat.len() > s.len() {
    } else if matches_at(s, pat, from) {
    } else if from < s.len() {
        lemma_first_match(s, pat, from + 1);
    } else {
        assert(s.subrange(from, from + pat.len()) =~= pat);
    }
}

/// Searching behind a prefix finds what searching without it finds, moved
/// by the length of the prefix.
pub proof fn lemma_first_match_shift<T>(a: Seq<T>, s: Seq<T>, pat: Seq<T>, k: int)
    requires
        0 <= k,
    ensures
        first_match(a + s, pat, a.len() + k) == (match first_match(s, pat, k) {
            Some(i) => Some(i + a.len()),
            None => None,
        }),
    decreases s.len() - k,
{
    if k + pat.len() <= s.len() {
        assert((a + s).subrange(a.len() + k, a.len() + k + pat.len()) =~= s.subrange(
            k,
            k + pat.len(),
        ));
        if !matches_at(s, pat, k) && k < s.len() {
            lemma_first_match_shift(a, s, pat, k + 1);
        }
    }
}

/// Splitting behind a prefix gives the pieces that splitting without it
/// gives.
pub proof fn lemma_split_shift<T>(a: Seq<T>, s: Seq<T>, pat: Seq<T>, k: int)
    requires
        pat.len() > 0,
        0 <= k <= s.len(),
    ensures
        split_from(a + s, pat, a.len() + k) == split_from(s, pat, k),
    decreases s.len() - k,
{
    lemma_first_match_shift(a, s, pat, k);
    lemma_first_match(s, pat, k);
    match first_match(s, pat, k) {
        None => {
            assert((a + s).subrange(a.len() + k, (a + s).len() as int) =~= s.subrange(
                k,
                s.len() as int,
            ));
        },
        Some(i) => {
            assert((a + s).subrange(a.len() + k, a.len() + i) =~= s.subrange(k, i));
            lemma_split_shift(a, s, pat, i + pat.len());
        },
    }
}

/// Whether `pat` occurs in `s` at index `i`.
pub fn occurs_at(s: &Vec<char>, pat: &Vec<char>, i: usize) -> (b: bool)
    ensures
        b == matches_at(s@, pat@, i as int),
{
    if pat.len() > s.len() || i > s.len() - pat.len() {
        return false;
    }
    let mut k: usize = 0;
    while k < pat.len()
        invariant
            k <= pat@.len(),
            i + pat@.len() <= s@.len() <= usize::MAX,
            forall|j: int| 0 <= j < k ==> s@[i + j] == pat@[j],
        decreases pat@.len() - k,
    {
        if s[i + k] != pat[k] {
            assert(s@.subrange(i as int, i + pat@.len())[k as int] == s@[i + k]);
            return false;
        }
        k = k + 1;
    }
    assert(s@.subrange(i as int, i + pat@.len()) =~= pat@);
    true
}

/// The first occurrence of `pat` in `s` at or after `from`.
pub fn find(s: &Vec<char>, pat: &Vec<char>, from: usize) -> (r: Option<usize>)
    ensures
        match r {
            Some(i) => first_match(s@, pat@, from as int) == Some(i as int),
            None => first_match(s@, pat@, from as int) is None,
        },
{
    if pat.len() > s.len() {
        return None;
    }
    let last: usize = s.len() - pat.len();
    let mut i: usize = from;
    while i <= last
        invariant
            last + pat@.len() == s@.len(),
            from <= i,
            first_match(s@, pat@, from as int) == first_match(s@, pat@, i as int),
        decreases last - i,
    {
        if occurs_at(s, pat, i) {
            return Some(i);
        }
        if i == last {
            assert(first_match(s@, pat@, i + 1) is None);
            return None;
        }
        i = i + 1;
    }
    None
}

/// Whether `s` begins with `pat`.
pub fn starts_with(s: &Vec<char>, pat: &Vec<char>) -> (b: bool)
    ensures
        b == pat@.is_prefix_of(s@),
{
    let b = occurs_at(s, pat, 0);
    proof {
        if pat@.len() <= s@.len() {
            assert(s@.subrange(0, 0 + pat@.len() as int) =~= s@.subrange(0, pat@.len() as int));
        }
    }
    b
}

/// The pieces of `s` between the occurrences of `pat`.
pub fn split_on(s: &Vec<char>, pat: &Vec<char>) -> (out: Vec<Vec<char>>)
    requires
        pat@.len() > 0,
    ensures
        views(out@) == split(s@, pat@),
        out@.len() == split(s@, pat@).len(),
        out@.len() >= 1,
{
    let mut out: Vec<Vec<char>> = Vec::new();
    let n: usize = s.len();
    let mut pos: usize = 0;
    loop
        invariant
            pat@.len() > 0,
            pos <= s@.len() == n,
            split(s@, pat@) == views(out@) + split_from(s@, pat@, pos as int),
        decreases s@.len() - pos,
    {
        proof {
            lemma_first_match(s@, pat@, pos as int);
        }
        let ghost before = views(out@);
        match find(s, pat, pos) {
            None => {
                out.push(slice_of(s, pos, n));
                assert(views(out@) =~= before + seq![s@.subrange(pos as int, s@.len() as int)]);
                return out;
            },
            Some(i) => {
                out.push(slice_of(s, pos, i));
                assert(views(out@) =~= before + seq![s@.subrange(pos as int, i as int)]);
                pos = i + pat.len();
            },
        }
    }
}

/// A copy of `s[from..to]`.
pub fn slice_of(s: &Vec<char>, from: usize, to: usize) -> (out: Vec<char>)
    requires
        from <= to <= s@.len(),
    ensures
        out@ == s@.subrange(from as int, to as int),
{
    let mut out: Vec<char> = Vec::new();
    let mut i: usize = from;
    while i < to
        invariant
            from <= i <= to <= s@.len(),
            out@ == s@.subrange(from as int, i as int),
        decreases to - i,
    {
        out.push(s[i]);
        i = i + 1;
    }
    out
}

} // verus!
