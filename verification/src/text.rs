//! Character-level text processing: the string operations of std that the
//! game's logic relies on, stated over character sequences.
use vstd::prelude::*;

verus! {

broadcast use vstd::string::group_string_axioms;

/// Whether `c` has the Unicode White_Space property, the set of characters
/// that `char::is_whitespace` documents.
pub open spec fn is_whitespace_spec(c: char) -> bool {
    ||| ('\u{9}' <= c && c <= '\u{d}')
    ||| c == ' '
    ||| c == '\u{85}'
    ||| c == '\u{a0}'
    ||| c == '\u{1680}'
    ||| ('\u{2000}' <= c && c <= '\u{200a}')
    ||| c == '\u{2028}'
    ||| c == '\u{2029}'
    ||| c == '\u{202f}'
    ||| c == '\u{205f}'
    ||| c == '\u{3000}'
}

/// Whether `c` is an ASCII letter or digit.
pub open spec fn is_ascii_alphanumeric_spec(c: char) -> bool {
    ||| ('0' <= c && c <= '9')
    ||| ('A' <= c && c <= 'Z')
    ||| ('a' <= c && c <= 'z')
}

/// `s` without its leading whitespace.
pub open spec fn trim_start_spec(s: Seq<char>) -> Seq<char>
    decreases s.len(),
{
    if s.len() > 0 && is_whitespace_spec(s[0]) {
        trim_start_spec(s.drop_first())
    } else {
        s
    }
}

/// `s` without its trailing whitespace.
pub open spec fn trim_end_spec(s: Seq<char>) -> Seq<char>
    decreases s.len(),
{
    if s.len() > 0 && is_whitespace_spec(s.last()) {
        trim_end_spec(s.drop_last())
    } else {
        s
    }
}

/// `s` without leading and trailing whitespace, as `str::trim` gives it.
pub open spec fn trim_spec(s: Seq<char>) -> Seq<char> {
    trim_start_spec(trim_end_spec(s))
}

/// The character of a decimal digit.
pub open spec fn digit_char(d: nat) -> char {
    ((48 + d) as u8) as char
}

/// The decimal representation of `n`, without leading zeros.
pub open spec fn decimal_spec(n: nat) -> Seq<char>
    decreases n,
{
    if n < 10 {
        seq![digit_char(n)]
    } else {
        decimal_spec(n / 10).push(digit_char(n % 10))
    }
}

/// What `str::to_uppercase` returns for a string.
pub uninterp spec fn str_uppercase(s: Seq<char>) -> Seq<char>;

/// Whether `c` is an ASCII lower-case letter.
pub open spec fn is_ascii_lower(c: char) -> bool {
    'a' <= c && c <= 'z'
}

/// `c` with an ASCII lower-case letter made upper case.
pub open spec fn ascii_upper(c: char) -> char {
    if is_ascii_lower(c) {
        ((c as u32) - 32) as char
    } else {
        c
    }
}

/// Whether every character of `s` is ASCII.
pub open spec fn all_ascii(s: Seq<char>) -> bool {
    forall|i: int| 0 <= i < s.len() ==> (#[trigger] s[i] as u32) < 128
}

/// What std documents of upper-casing `s` into `u`: ASCII text has its
/// letters `a`-`z` made `A`-`Z` and keeps its other characters, and no
/// character is mapped to an ASCII lower-case letter.
pub open spec fn uppercase_facts(s: Seq<char>, u: Seq<char>) -> bool {
    &&& all_ascii(s) ==> u == s.map_values(|c: char| ascii_upper(c))
    &&& forall|i: int| 0 <= i < u.len() ==> !is_ascii_lower(#[trigger] u[i])
}

/// What `char::is_alphanumeric` returns for a character.
pub uninterp spec fn char_alphanumeric(c: char) -> bool;

/// What `char::is_numeric` returns for a character.
pub uninterp spec fn char_numeric(c: char) -> bool;

/// Appends one character to a string with `String::push`.
#[verifier::external_body]
pub(crate) fn push_char(s: &mut String, c: char)
    ensures
        final(s)@ == old(s)@.push(c),
{
    s.push(c);
}

/// Calls `str::to_uppercase`. Its result is the Unicode upper-case mapping of
/// every character of `s` (UnicodeData.txt and SpecialCasing.txt, as std
/// documents it), which is named here and not spelled out. Of it the contract
/// states what that mapping gives plainly: ASCII `a`-`z` become `A`-`Z`, other
/// ASCII characters stay, and no character becomes an ASCII lower-case letter.
#[verifier::external_body]
pub(crate) fn to_uppercase(s: &str) -> (r: String)
    ensures
        r@ == str_uppercase(s@),
        uppercase_facts(s@, r@),
{
    s.to_uppercase()
}

/// Calls `char::is_alphanumeric`: whether `c` is alphabetic or numeric in
/// the Unicode sense, named here and not spelled out.
#[verifier::external_body]
pub(crate) fn is_alphanumeric(c: char) -> (b: bool)
    ensures
        b == char_alphanumeric(c),
{
    c.is_alphanumeric()
}

/// Calls `char::is_numeric`: whether `c` has a Unicode numeric general
/// category, named here and not spelled out.
#[verifier::external_body]
pub(crate) fn is_numeric(c: char) -> (b: bool)
    ensures
        b == char_numeric(c),
{
    c.is_numeric()
}

/// Whether `c` is Unicode whitespace, as `char::is_whitespace` decides.
pub fn is_whitespace(c: char) -> (b: bool)
    ensures
        b == is_whitespace_spec(c),
{
    ('\u{9}' <= c && c <= '\u{d}') || c == ' ' || c == '\u{85}' || c == '\u{a0}' || c
        == '\u{1680}' || ('\u{2000}' <= c && c <= '\u{200a}') || c == '\u{2028}' || c
        == '\u{2029}' || c == '\u{202f}' || c == '\u{205f}' || c == '\u{3000}'
}

/// Whether `c` is an ASCII letter or digit, as
/// `char::is_ascii_alphanumeric` decides.
pub fn is_ascii_alphanumeric(c: char) -> (b: bool)
    ensures
        b == is_ascii_alphanumeric_spec(c),
{
    ('0' <= c && c <= '9') || ('A' <= c && c <= 'Z') || ('a' <= c && c <= 'z')
}

/// The characters of `s`, in order.
pub fn chars_of(s: &str) -> (v: Vec<char>)
    ensures
        v@ == s@,
{
    let mut v: Vec<char> = Vec::new();
    for c in it: s.chars()
        invariant
            v@ == it.seq().take(it.index()),
            it.seq() == s@,
    {
        v.push(c);
    }
    v
}

/// The string made of the characters `v[from..to]`.
pub fn string_from_range(v: &Vec<char>, from: usize, to: usize) -> (s: String)
    requires
        from <= to <= v.len(),
    ensures
        s@ == v@.subrange(from as int, to as int),
{
    let mut s = String::new();
    let mut i = from;
    while i < to
        invariant
            from <= i <= to <= v.len(),
            s@ == v@.subrange(from as int, i as int),
        decreases to - i,
    {
        push_char(&mut s, v[i]);
        assert(v@.subrange(from as int, i + 1) =~= v@.subrange(from as int, i as int).push(v@[i as int]));
        i += 1;
    }
    s
}

/// The string made of all characters of `v`.
pub fn string_from_chars(v: &Vec<char>) -> (s: String)
    ensures
        s@ == v@,
{
    let s = string_from_range(v, 0, v.len());
    assert(v@.subrange(0, v@.len() as int) =~= v@);
    s
}

proof fn lemma_trim_end_step(s: Seq<char>, end: int)
    requires
        0 < end <= s.len(),
        is_whitespace_spec(s[end - 1]),
    ensures
        trim_end_spec(s.subrange(0, end)) == trim_end_spec(s.subrange(0, end - 1)),
{
    assert(s.subrange(0, end).drop_last() =~= s.subrange(0, end - 1));
}

proof fn lemma_trim_start_step(t: Seq<char>, start: int)
    requires
        0 <= start < t.len(),
        is_whitespace_spec(t[start]),
    ensures
        trim_start_spec(t.subrange(start, t.len() as int)) == trim_start_spec(
            t.subrange(start + 1, t.len() as int),
        ),
{
    assert(t.subrange(start, t.len() as int).drop_first() =~= t.subrange(
        start + 1,
        t.len() as int,
    ));
}

/// The bounds of `v` with leading and trailing whitespace cut off.
pub fn trim_bounds(v: &Vec<char>, from: usize, to: usize) -> (r: (usize, usize))
    requires
        from <= to <= v.len(),
    ensures
        from <= r.0 <= r.1 <= to,
        v@.subrange(r.0 as int, r.1 as int) == trim_spec(v@.subrange(from as int, to as int)),
{
    let ghost s = v@.subrange(from as int, to as int);
    let mut end = to;
    while end > from && is_whitespace(v[end - 1])
        invariant
            from <= end <= to <= v.len(),
            s == v@.subrange(from as int, to as int),
            trim_end_spec(s) == trim_end_spec(v@.subrange(from as int, end as int)),
        decreases end,
    {
        proof {
            let t = v@.subrange(from as int, end as int);
            lemma_trim_end_step(t, end - from);
            assert(t.subrange(0, end - from) =~= t);
            assert(t.subrange(0, end - from - 1) =~= v@.subrange(from as int, end - 1));
        }
        end -= 1;
    }
    let ghost t = v@.subrange(from as int, end as int);
    assert(trim_end_spec(t) == t);
    let mut start = from;
    while start < end && is_whitespace(v[start])
        invariant
            from <= start <= end <= to <= v.len(),
            t == v@.subrange(from as int, end as int),
            trim_start_spec(t) == trim_start_spec(v@.subrange(start as int, end as int)),
        decreases end - start,
    {
        proof {
            let u = v@.subrange(start as int, end as int);
            lemma_trim_start_step(u, 0);
            assert(u.subrange(0, u.len() as int) =~= u);
            assert(u.subrange(1, u.len() as int) =~= v@.subrange(start + 1, end as int));
        }
        start += 1;
    }
    proof {
        let u = v@.subrange(start as int, end as int);
        if u.len() > 0 {
            assert(!is_whitespace_spec(u[0]));
        }
        assert(trim_start_spec(u) == u);
    }
    (start, end)
}

/// Appends the decimal representation of `n` to `s`.
pub fn push_decimal(s: &mut String, n: u64)
    ensures
        final(s)@ == old(s)@ + decimal_spec(n as nat),
    decreases n,
{
    if n >= 10 {
        push_decimal(s, n / 10);
    }
    let d = (n % 10) as u8;
    push_char(s, (48u8 + d) as char);
    proof {
        if n >= 10 {
            assert(old(s)@ + decimal_spec(n as nat) =~= old(s)@ + decimal_spec((n / 10) as nat)
                + seq![digit_char((n % 10) as nat)]);
        } else {
            assert(old(s)@ + decimal_spec(n as nat) =~= old(s)@.push(digit_char(n as nat)));
        }
    }
}

} // verus!
