//! Character-level text utilities shared by the library: conversion between
//! strings and character vectors, prefix/suffix/containment tests, Unicode
//! whitespace and control classification, and decimal parsing/formatting.

use vstd::prelude::*;

verus! {

/// Relies on `str::chars` and `Iterator::collect`: collecting the characters
/// of a string yields exactly the string's characters in order.
#[verifier::external_body]
pub(crate) fn str_chars(s: &str) -> (r: Vec<char>)
    ensures
        r@ == s@,
{
    s.chars().collect()
}

/// Relies on `String::from_iter` (via `Iterator::collect`): collecting
/// characters into a `String` yields the string of those characters in order.
#[verifier::external_body]
pub(crate) fn chars_string(v: &Vec<char>) -> (r: String)
    ensures
        r@ == v@,
{
    v.iter().collect()
}

/// Character-for-character equality of two string slices.
pub fn str_eq(a: &str, b: &str) -> (r: bool)
    ensures
        r == (a@ == b@),
{
    let x: String = a.to_owned();
    let y: String = b.to_owned();
    x == y
}

/// Whether `p` is a prefix of `v`.
pub fn chars_start_with(v: &Vec<char>, p: &Vec<char>) -> (r: bool)
    ensures
        r == p@.is_prefix_of(v@),
{
    if p.len() > v.len() {
        return false;
    }
    let mut i: usize = 0;
    while i < p.len()
        invariant
            0 <= i <= p@.len(),
            p@.len() <= v@.len(),
            forall|j: int| 0 <= j < i ==> v@[j] == p@[j],
        decreases p@.len() - i,
    {
        if v[i] != p[i] {
            assert(v@[i as int] != p@[i as int]);
            assert(!p@.is_prefix_of(v@));
            return false;
        }
        i = i + 1;
    }
    assert(v@.take(p@.len() as int) =~= p@);
    true
}

/// Whether `p` is a suffix of `v`.
pub fn chars_end_with(v: &Vec<char>, p: &Vec<char>) -> (r: bool)
    ensures
        r == p@.is_suffix_of(v@),
{
    if p.len() > v.len() {
        return false;
    }
    let off: usize = v.len() - p.len();
    let mut i: usize = 0;
    while i < p.len()
        invariant
            0 <= i <= p@.len(),
            p@.len() <= v@.len(),
            v@.len() <= usize::MAX,
            off == v@.len() - p@.len(),
            forall|j: int| 0 <= j < i ==> v@[off + j] == p@[j],
        decreases p@.len() - i,
    {
        assert(off + i < v@.len());
        if v[off + i] != p[i] {
            assert(v@[off + i as int] != p@[i as int]);
            assert(!p@.is_suffix_of(v@));
            return false;
        }
        i = i + 1;
    }
    assert(v@.skip(off as int) =~= p@);
    true
}

/// Character-for-character equality of two character vectors.
pub fn chars_eq(a: &Vec<char>, b: &Vec<char>) -> (r: bool)
    ensures
        r == (a@ == b@),
{
    if a.len() != b.len() {
        return false;
    }
    let mut i: usize = 0;
    while i < a.len()
        invariant
            0 <= i <= a@.len(),
            a@.len() == b@.len(),
            forall|j: int| 0 <= j < i ==> a@[j] == b@[j],
        decreases a@.len() - i,
    {
        if a[i] != b[i] {
            assert(a@[i as int] != b@[i as int]);
            return false;
        }
        i = i + 1;
    }
    assert(a@ =~= b@);
    true
}

/// Whether the character `c` occurs in `v`.
pub fn chars_contain_char(v: &Vec<char>, c: char) -> (r: bool)
    ensures
        r == v@.contains(c),
{
    let mut i: usize = 0;
    while i < v.len()
        invariant
            0 <= i <= v@.len(),
            forall|j: int| 0 <= j < i ==> v@[j] != c,
        decreases v@.len() - i,
    {
        if v[i] == c {
            return true;
        }
        i = i + 1;
    }
    false
}

/// Whether `n` occurs in `v` as a contiguous subsequence starting at some index.
pub open spec fn spec_contains_at(v: Seq<char>, n: Seq<char>, i: int) -> bool {
    0 <= i && i + n.len() <= v.len() && v.subrange(i, i + n.len()) == n
}

/// Whether `n` occurs anywhere in `v` as a contiguous subsequence.
pub open spec fn spec_contains_sub(v: Seq<char>, n: Seq<char>) -> bool {
    exists|i: int| spec_contains_at(v, n, i)
}

/// Whether the characters `n` occur contiguously anywhere within `v`.
pub fn chars_contain(v: &Vec<char>, n: &Vec<char>) -> (r: bool)
    ensures
        r == spec_contains_sub(v@, n@),
{
    if n.len() == 0 {
        assert(v@.subrange(0, 0) =~= n@);
        assert(spec_contains_at(v@, n@, 0));
        return true;
    }
    if n.len() > v.len() {
        assert(!spec_contains_sub(v@, n@)) by {
            assert(forall|i: int| !spec_contains_at(v@, n@, i));
        }
        return false;
    }
    let last: usize = v.len() - n.len();
    let mut s: usize = 0;
    loop
        invariant
            0 <= s <= last + 1,
            last == v@.len() - n@.len(),
            1 <= n@.len() <= v@.len(),
            v@.len() <= usize::MAX,
            forall|i: int| 0 <= i < s ==> !spec_contains_at(v@, n@, i),
        decreases last + 1 - s,
    {
        if s > last {
            assert(forall|i: int| !spec_contains_at(v@, n@, i));
            return false;
        }
        let mut j: usize = 0;
        let mut hit: bool = true;
        while j < n.len() && hit
            invariant
                0 <= j <= n@.len(),
                s + n@.len() <= v@.len(),
                v@.len() <= usize::MAX,
                hit ==> forall|k: int| 0 <= k < j ==> v@[s + k] == n@[k],
                !hit ==> v@.subrange(s as int, s + n@.len()) != n@,
            decreases n@.len() - j + (if hit {
                1int
            } else {
                0int
            }),
        {
            assert(s + j < v@.len());
            if v[s + j] != n[j] {
                hit = false;
                assert(v@.subrange(s as int, s + n@.len()) != n@) by {
                    assert(v@.subrange(s as int, s + n@.len())[j as int] != n@[j as int]);
                }
            } else {
                j = j + 1;
            }
        }
        if hit {
            assert(j == n@.len());
            assert(v@.subrange(s as int, s + n@.len()) =~= n@);
            assert(spec_contains_at(v@, n@, s as int));
            return true;
        }
        assert(!spec_contains_at(v@, n@, s as int));
        s = s + 1;
    }
}

/// The Unicode `White_Space` code points, as `char::is_whitespace` recognises
/// them.
pub open spec fn spec_is_space(c: char) -> bool {
    c == '\u{0009}' || c == '\u{000A}' || c == '\u{000B}' || c == '\u{000C}' || c == '\u{000D}'
        || c == '\u{0020}' || c == '\u{0085}' || c == '\u{00A0}' || c == '\u{1680}' || (
    '\u{2000}' <= c && c <= '\u{200A}') || c == '\u{2028}' || c == '\u{2029}' || c == '\u{202F}'
        || c == '\u{205F}' || c == '\u{3000}'
}

/// Whether `c` is a Unicode whitespace character.
pub fn is_space(c: char) -> (r: bool)
    ensures
        r == spec_is_space(c),
{
    c == '\u{0009}' || c == '\u{000A}' || c == '\u{000B}' || c == '\u{000C}' || c == '\u{000D}'
        || c == '\u{0020}' || c == '\u{0085}' || c == '\u{00A0}' || c == '\u{1680}' || (
    '\u{2000}' <= c && c <= '\u{200A}') || c == '\u{2028}' || c == '\u{2029}' || c == '\u{202F}'
        || c == '\u{205F}' || c == '\u{3000}'
}

/// The Unicode control characters (category Cc), as `char::is_control`
/// recognises them.
pub open spec fn spec_is_control(c: char) -> bool {
    c <= '\u{001F}' || ('\u{007F}' <= c && c <= '\u{009F}')
}

/// Whether `c` is a control character.
pub fn is_control(c: char) -> (r: bool)
    ensures
        r == spec_is_control(c),
{
    c <= '\u{001F}' || ('\u{007F}' <= c && c <= '\u{009F}')
}

/// `c` with an ASCII capital letter folded to its lower-case form; any other
/// character is unchanged.
pub open spec fn spec_lower(c: char) -> char {
    if c == 'A' {
        'a'
    } else if c == 'B' {
        'b'
    } else if c == 'C' {
        'c'
    } else if c == 'D' {
        'd'
    } else if c == 'E' {
        'e'
    } else if c == 'F' {
        'f'
    } else if c == 'G' {
        'g'
    } else if c == 'H' {
        'h'
    } else if c == 'I' {
        'i'
    } else if c == 'J' {
        'j'
    } else if c == 'K' {
        'k'
    } else if c == 'L' {
        'l'
    } else if c == 'M' {
        'm'
    } else if c == 'N' {
        'n'
    } else if c == 'O' {
        'o'
    } else if c == 'P' {
        'p'
    } else if c == 'Q' {
        'q'
    } else if c == 'R' {
        'r'
    } else if c == 'S' {
        's'
    } else if c == 'T' {
        't'
    } else if c == 'U' {
        'u'
    } else if c == 'V' {
        'v'
    } else if c == 'W' {
        'w'
    } else if c == 'X' {
        'x'
    } else if c == 'Y' {
        'y'
    } else if c == 'Z' {
        'z'
    } else {
        c
    }
}

/// Folds one ASCII capital letter to lower case.
pub fn lower_char(c: char) -> (r: char)
    ensures
        r == spec_lower(c),
{
    match c {
        'A' => 'a',
        'B' => 'b',
        'C' => 'c',
        'D' => 'd',
        'E' => 'e',
        'F' => 'f',
        'G' => 'g',
        'H' => 'h',
        'I' => 'i',
        'J' => 'j',
        'K' => 'k',
        'L' => 'l',
        'M' => 'm',
        'N' => 'n',
        'O' => 'o',
        'P' => 'p',
        'Q' => 'q',
        'R' => 'r',
        'S' => 's',
        'T' => 't',
        'U' => 'u',
        'V' => 'v',
        'W' => 'w',
        'X' => 'x',
        'Y' => 'y',
        'Z' => 'z',
        _ => c,
    }
}

/// The character-wise ASCII lower-casing of a sequence.
pub open spec fn spec_lower_seq(s: Seq<char>) -> Seq<char> {
    s.map_values(|c: char| spec_lower(c))
}

/// Folds every ASCII capital letter of `v` to lower case.
pub fn lower_chars(v: &Vec<char>) -> (r: Vec<char>)
    ensures
        r@ == spec_lower_seq(v@),
{
    let mut out: Vec<char> = Vec::new();
    let mut i: usize = 0;
    while i < v.len()
        invariant
            0 <= i <= v@.len(),
            out@ == spec_lower_seq(v@.take(i as int)),
        decreases v@.len() - i,
    {
        out.push(lower_char(v[i]));
        assert(spec_lower_seq(v@.take(i + 1)) =~= spec_lower_seq(v@.take(i as int)).push(
            spec_lower(v@[i as int]),
        ));
        i = i + 1;
    }
    assert(v@.take(v@.len() as int) =~= v@);
    out
}

/// The sequence with leading and trailing whitespace removed: the subrange
/// from the first non-space character to one past the last.
pub open spec fn spec_trim(s: Seq<char>) -> Seq<char> {
    spec_trim_end(spec_trim_start(s))
}

/// The sequence with leading whitespace removed.
pub open spec fn spec_trim_start(s: Seq<char>) -> Seq<char>
    decreases s.len(),
{
    if s.len() == 0 {
        s
    } else if spec_is_space(s[0]) {
        spec_trim_start(s.skip(1))
    } else {
        s
    }
}

/// The sequence with trailing whitespace removed.
pub open spec fn spec_trim_end(s: Seq<char>) -> Seq<char>
    decreases s.len(),
{
    if s.len() == 0 {
        s
    } else if spec_is_space(s[s.len() - 1]) {
        spec_trim_end(s.take(s.len() - 1))
    } else {
        s
    }
}

/// Removes leading and trailing whitespace characters.
pub fn trim_chars(v: &Vec<char>) -> (r: Vec<char>)
    ensures
        r@ == spec_trim(v@),
{
    let mut lo: usize = 0;
    assert(v@.skip(0) =~= v@);
    while lo < v.len() && is_space(v[lo])
        invariant
            0 <= lo <= v@.len(),
            spec_trim_start(v@) == spec_trim_start(v@.skip(lo as int)),
        decreases v@.len() - lo,
    {
        assert(v@.skip(lo as int).skip(1) =~= v@.skip(lo + 1));
        lo = lo + 1;
    }
    let mut hi: usize = v.len();
    if lo == v.len() {
        assert(v@.skip(lo as int) =~= Seq::<char>::empty());
        assert(spec_trim(v@) =~= Seq::<char>::empty());
        return Vec::new();
    }
    assert(spec_trim_start(v@) =~= v@.skip(lo as int));
    assert(v@.skip(lo as int).take((hi - lo) as int) =~= v@.skip(lo as int));
    while hi > lo && is_space(v[hi - 1])
        invariant
            lo <= hi <= v@.len(),
            spec_trim_end(v@.skip(lo as int)) == spec_trim_end(
                v@.skip(lo as int).take(hi - lo as int),
            ),
        decreases hi,
    {
        assert(v@.skip(lo as int).take(hi - lo as int).take(hi - 1 - lo as int) =~= v@.skip(
            lo as int,
        ).take(hi - 1 - lo as int));
        assert(v@.skip(lo as int).take(hi - lo as int)[hi - 1 - lo as int] == v@[hi - 1]);
        hi = hi - 1;
    }
    let mut out: Vec<char> = Vec::new();
    let mut i: usize = lo;
    while i < hi
        invariant
            lo <= i <= hi <= v@.len(),
            out@ =~= v@.subrange(lo as int, i as int),
        decreases hi - i,
    {
        out.push(v[i]);
        i = i + 1;
    }
    assert(v@.subrange(lo as int, hi as int) =~= v@.skip(lo as int).take(hi - lo as int));
    if hi == lo {
        assert(spec_trim_end(v@.skip(lo as int).take(0)) =~= Seq::<char>::empty());
    } else {
        assert(!spec_is_space(v@.skip(lo as int).take(hi - lo as int)[hi - lo - 1]));
    }
    out
}

/// The sequence with leading copies of `t` removed.
pub open spec fn spec_trim_char_start(s: Seq<char>, t: char) -> Seq<char>
    decreases s.len(),
{
    if s.len() == 0 {
        s
    } else if s[0] == t {
        spec_trim_char_start(s.skip(1), t)
    } else {
        s
    }
}

/// The sequence with trailing copies of `t` removed.
pub open spec fn spec_trim_char_end(s: Seq<char>, t: char) -> Seq<char>
    decreases s.len(),
{
    if s.len() == 0 {
        s
    } else if s[s.len() - 1] == t {
        spec_trim_char_end(s.take(s.len() - 1), t)
    } else {
        s
    }
}

/// The sequence with leading and trailing copies of `t` removed.
pub open spec fn spec_trim_char(s: Seq<char>, t: char) -> Seq<char> {
    spec_trim_char_end(spec_trim_char_start(s, t), t)
}

/// Removes leading and trailing copies of the character `t`.
pub fn trim_char(v: &Vec<char>, t: char) -> (r: Vec<char>)
    ensures
        r@ == spec_trim_char(v@, t),
{
    let mut lo: usize = 0;
    assert(v@.skip(0) =~= v@);
    while lo < v.len() && v[lo] == t
        invariant
            0 <= lo <= v@.len(),
            spec_trim_char_start(v@, t) == spec_trim_char_start(v@.skip(lo as int), t),
        decreases v@.len() - lo,
    {
        assert(v@.skip(lo as int).skip(1) =~= v@.skip(lo + 1));
        lo = lo + 1;
    }
    let mut hi: usize = v.len();
    if lo == v.len() {
        assert(v@.skip(lo as int) =~= Seq::<char>::empty());
        assert(spec_trim_char(v@, t) =~= Seq::<char>::empty());
        return Vec::new();
    }
    assert(spec_trim_char_start(v@, t) =~= v@.skip(lo as int));
    assert(v@.skip(lo as int).take((hi - lo) as int) =~= v@.skip(lo as int));
    while hi > lo && v[hi - 1] == t
        invariant
            lo <= hi <= v@.len(),
            spec_trim_char_end(v@.skip(lo as int), t) == spec_trim_char_end(
                v@.skip(lo as int).take(hi - lo as int),
                t,
            ),
        decreases hi,
    {
        assert(v@.skip(lo as int).take(hi - lo as int).take(hi - 1 - lo as int) =~= v@.skip(
            lo as int,
        ).take(hi - 1 - lo as int));
        assert(v@.skip(lo as int).take(hi - lo as int)[hi - 1 - lo as int] == v@[hi - 1]);
        hi = hi - 1;
    }
    let mut out: Vec<char> = Vec::new();
    let mut i: usize = lo;
    while i < hi
        invariant
            lo <= i <= hi <= v@.len(),
            out@ =~= v@.subrange(lo as int, i as int),
        decreases hi - i,
    {
        out.push(v[i]);
        i = i + 1;
    }
    assert(v@.subrange(lo as int, hi as int) =~= v@.skip(lo as int).take(hi - lo as int));
    if hi == lo {
        assert(spec_trim_char_end(v@.skip(lo as int).take(0), t) =~= Seq::<char>::empty());
    } else {
        assert(v@.skip(lo as int).take(hi - lo as int)[hi - lo - 1] != t);
    }
    out
}

/// Removes leading copies of the character `t`.
pub fn trim_char_start(v: &Vec<char>, t: char) -> (r: Vec<char>)
    ensures
        r@ == spec_trim_char_start(v@, t),
{
    let mut lo: usize = 0;
    assert(v@.skip(0) =~= v@);
    while lo < v.len() && v[lo] == t
        invariant
            0 <= lo <= v@.len(),
            spec_trim_char_start(v@, t) == spec_trim_char_start(v@.skip(lo as int), t),
        decreases v@.len() - lo,
    {
        assert(v@.skip(lo as int).skip(1) =~= v@.skip(lo + 1));
        lo = lo + 1;
    }
    let mut out: Vec<char> = Vec::new();
    let mut i: usize = lo;
    while i < v.len()
        invariant
            lo <= i <= v@.len(),
            out@ =~= v@.subrange(lo as int, i as int),
        decreases v@.len() - i,
    {
        out.push(v[i]);
        i = i + 1;
    }
    assert(out@ =~= v@.skip(lo as int));
    if lo == v.len() {
        assert(v@.skip(lo as int) =~= Seq::<char>::empty());
    } else {
        assert(v@.skip(lo as int)[0] != t);
    }
    out
}

/// The numeric value of an ASCII decimal digit, or 10 for any other character.
pub open spec fn spec_digit_val(c: char) -> nat {
    if '0' <= c && c <= '9' {
        ((c as u32) - ('0' as u32)) as nat
    } else {
        10
    }
}

/// Whether every character of `s` is an ASCII decimal digit, and `s` is
/// non-empty.
pub open spec fn spec_all_digits(s: Seq<char>) -> bool {
    s.len() > 0 && forall|i: int| 0 <= i < s.len() ==> spec_digit_val(#[trigger] s[i]) < 10
}

/// The value of `s` read as a decimal numeral.
pub open spec fn spec_dec_value(s: Seq<char>) -> nat
    decreases s.len(),
{
    if s.len() == 0 {
        0
    } else {
        spec_dec_value(s.take(s.len() - 1)) * 10 + spec_digit_val(s[s.len() - 1])
    }
}

/// Reads `v` as an unsigned decimal numeral. Returns `Some` exactly when `v`
/// is one or more ASCII digits whose value fits in `u32`.
pub fn parse_u32_digits(v: &Vec<char>) -> (r: Option<u32>)
    ensures
        match r {
            Some(n) => spec_all_digits(v@) && n == spec_dec_value(v@) && spec_dec_value(v@)
                <= u32::MAX,
            None => !spec_all_digits(v@) || spec_dec_value(v@) > u32::MAX,
        },
{
    if v.len() == 0 {
        return None;
    }
    let mut acc: u32 = 0;
    let mut i: usize = 0;
    while i < v.len()
        invariant
            0 <= i <= v@.len(),
            v@.len() > 0,
            acc == spec_dec_value(v@.take(i as int)),
            spec_dec_value(v@.take(i as int)) <= u32::MAX,
            forall|j: int| 0 <= j < i ==> spec_digit_val(#[trigger] v@[j]) < 10,
        decreases v@.len() - i,
    {
        let c = v[i];
        if !('0' <= c && c <= '9') {
            return None;
        }
        let d: u32 = (c as u32) - ('0' as u32);
        assert(d == spec_digit_val(v@[i as int]));
        assert(v@.take(i + 1).take(i as int) =~= v@.take(i as int));
        assert(spec_dec_value(v@.take(i + 1)) == spec_dec_value(v@.take(i as int)) * 10
            + spec_digit_val(v@[i as int]));
        if acc > (u32::MAX - d) / 10 {
            assert(spec_dec_value(v@.take(i + 1)) > u32::MAX) by (nonlinear_arith)
                requires
                    spec_dec_value(v@.take(i + 1)) == acc * 10 + d,
                    acc > ((u32::MAX as nat) - d) / 10,
                    d < 10,
            ;
            proof {
                lemma_dec_value_prefix_le(v@, (i + 1) as int);
            }
            return None;
        }
        assert(acc * 10 + d <= u32::MAX) by (nonlinear_arith)
            requires
                acc <= ((u32::MAX as nat) - d) / 10,
                d < 10,
        ;
        acc = acc * 10 + d;
        i = i + 1;
    }
    assert(v@.take(v@.len() as int) =~= v@);
    Some(acc)
}

/// A numeral prefix never exceeds the value of the whole numeral.
proof fn lemma_dec_value_prefix_le(s: Seq<char>, i: int)
    requires
        0 <= i <= s.len(),
    ensures
        spec_dec_value(s.take(i)) <= spec_dec_value(s),
    decreases s.len() - i,
{
    if i < s.len() {
        lemma_dec_value_prefix_le(s, i + 1);
        assert(s.take(i + 1).take(i) =~= s.take(i));
        assert(spec_dec_value(s.take(i + 1)) == spec_dec_value(s.take(i)) * 10 + spec_digit_val(
            s.take(i + 1)[i],
        ));
        assert(spec_dec_value(s.take(i)) * 10 >= spec_dec_value(s.take(i))) by (nonlinear_arith);
    } else {
        assert(s.take(i) =~= s);
    }
}

/// The shortest decimal numeral for `n` (no leading zeros; `0` for zero).
pub open spec fn spec_dec_digits(n: nat) -> Seq<char>
    decreases n,
{
    if n < 10 {
        seq![spec_digit_char(n)]
    } else {
        spec_dec_digits(n / 10).push(spec_digit_char(n % 10))
    }
}

/// The ASCII digit character for a value below ten.
pub open spec fn spec_digit_char(d: nat) -> char {
    if d == 0 {
        '0'
    } else if d == 1 {
        '1'
    } else if d == 2 {
        '2'
    } else if d == 3 {
        '3'
    } else if d == 4 {
        '4'
    } else if d == 5 {
        '5'
    } else if d == 6 {
        '6'
    } else if d == 7 {
        '7'
    } else if d == 8 {
        '8'
    } else {
        '9'
    }
}

/// The ASCII digit character for a value below ten.
pub fn digit_char(d: u32) -> (r: char)
    requires
        d < 10,
    ensures
        r == spec_digit_char(d as nat),
{
    match d {
        0 => '0',
        1 => '1',
        2 => '2',
        3 => '3',
        4 => '4',
        5 => '5',
        6 => '6',
        7 => '7',
        8 => '8',
        _ => '9',
    }
}

/// Writes `n` as a decimal numeral.
pub fn format_u64(n: u64) -> (r: Vec<char>)
    ensures
        r@ == spec_dec_digits(n as nat),
    decreases n,
{
    if n < 10 {
        let mut out: Vec<char> = Vec::new();
        out.push(digit_char(n as u32));
        assert(out@ =~= seq![spec_digit_char(n as nat)]);
        out
    } else {
        let mut out = format_u64(n / 10);
        out.push(digit_char((n % 10) as u32));
        out
    }
}

/// A decimal numeral reads back to the number it was written from.
pub proof fn lemma_dec_digits_value(n: nat)
    ensures
        spec_all_digits(spec_dec_digits(n)),
        spec_dec_value(spec_dec_digits(n)) == n,
    decreases n,
{
    if n < 10 {
        let s = spec_dec_digits(n);
        assert(s =~= seq![spec_digit_char(n)]);
        assert(spec_digit_val(spec_digit_char(n)) == n);
        assert(s.take(0) =~= Seq::<char>::empty());
        assert(spec_dec_value(s) == spec_dec_value(s.take(0)) * 10 + spec_digit_val(s[0]));
    } else {
        lemma_dec_digits_value(n / 10);
        let s = spec_dec_digits(n);
        assert(s =~= spec_dec_digits(n / 10).push(spec_digit_char(n % 10)));
        assert(s.take(s.len() - 1) =~= spec_dec_digits(n / 10));
        assert(s[s.len() - 1] == spec_digit_char(n % 10));
        assert(spec_digit_val(spec_digit_char(n % 10)) == n % 10);
        assert(forall|i: int|
            0 <= i < s.len() - 1 ==> spec_digit_val(#[trigger] s[i]) == spec_digit_val(
                spec_dec_digits(n / 10)[i],
            ));
        assert(spec_dec_value(s) == (n / 10) * 10 + n % 10);
        assert((n / 10) * 10 + n % 10 == n) by (nonlinear_arith);
    }
}

/// A leading zero does not change a numeral's value.
pub proof fn lemma_dec_value_leading_zero(s: Seq<char>)
    ensures
        spec_dec_value(seq!['0'] + s) == spec_dec_value(s),
    decreases s.len(),
{
    let z = seq!['0'] + s;
    if s.len() == 0 {
        assert(z =~= seq!['0']);
        assert(z.take(0) =~= Seq::<char>::empty());
        assert(spec_dec_value(z) == spec_dec_value(z.take(0)) * 10 + spec_digit_val('0'));
        assert(spec_digit_val('0') == 0);
    } else {
        lemma_dec_value_leading_zero(s.drop_last());
        assert(z.take(z.len() - 1) =~= seq!['0'] + s.drop_last());
        assert(z[z.len() - 1] == s[s.len() - 1]);
        assert(s.take(s.len() - 1) =~= s.drop_last());
    }
}

/// A zero-padded numeral is all digits and reads back to its number.
pub proof fn lemma_dec_pad3_value(n: nat)
    ensures
        spec_all_digits(spec_dec_pad3(n)),
        spec_dec_value(spec_dec_pad3(n)) == n,
{
    lemma_dec_digits_value(n);
    let d = spec_dec_digits(n);
    if n < 10 {
        assert(spec_dec_pad3(n) =~= seq!['0'] + (seq!['0'] + d));
        lemma_dec_value_leading_zero(d);
        lemma_dec_value_leading_zero(seq!['0'] + d);
        assert(forall|i: int|
            0 <= i < spec_dec_pad3(n).len() ==> spec_digit_val(#[trigger] spec_dec_pad3(n)[i])
                < 10);
    } else if n < 100 {
        assert(spec_dec_pad3(n) =~= seq!['0'] + d);
        lemma_dec_value_leading_zero(d);
        assert(forall|i: int|
            0 <= i < spec_dec_pad3(n).len() ==> spec_digit_val(#[trigger] spec_dec_pad3(n)[i])
                < 10);
    } else {
        assert(spec_dec_pad3(n) == d);
    }
}

/// `n` as a decimal numeral zero-padded on the left to at least three digits.
pub open spec fn spec_dec_pad3(n: nat) -> Seq<char> {
    if n < 10 {
        seq!['0', '0'] + spec_dec_digits(n)
    } else if n < 100 {
        seq!['0'] + spec_dec_digits(n)
    } else {
        spec_dec_digits(n)
    }
}

/// Writes `n` zero-padded to at least three digits.
pub fn format_u64_pad3(n: u64) -> (r: Vec<char>)
    ensures
        r@ == spec_dec_pad3(n as nat),
{
    let digits = format_u64(n);
    let mut out: Vec<char> = Vec::new();
    if n < 10 {
        out.push('0');
        out.push('0');
    } else if n < 100 {
        out.push('0');
    }
    let mut i: usize = 0;
    while i < digits.len()
        invariant
            0 <= i <= digits@.len(),
            digits@ == spec_dec_digits(n as nat),
            out@ =~= (if n < 10 {
                seq!['0', '0']
            } else if n < 100 {
                seq!['0']
            } else {
                Seq::<char>::empty()
            }) + digits@.take(i as int),
        decreases digits@.len() - i,
    {
        out.push(digits[i]);
        i = i + 1;
    }
    assert(digits@.take(digits@.len() as int) =~= digits@);
    out
}

} // verus!
