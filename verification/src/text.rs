//! Small character and string utilities shared by the assembler, the ISA
//! and the error messages: conversion between `&str`/`String` and character
//! vectors, decimal rendering of numbers and ASCII case folding.
use vstd::prelude::*;
use vstd::std_specs::iter::IteratorSpec;

verus! {

/// The character of the decimal digit `d` (`d < 10`).
pub open spec fn digit_char(d: nat) -> char {
    if d == 0 { '0' }
    else if d == 1 { '1' }
    else if d == 2 { '2' }
    else if d == 3 { '3' }
    else if d == 4 { '4' }
    else if d == 5 { '5' }
    else if d == 6 { '6' }
    else if d == 7 { '7' }
    else if d == 8 { '8' }
    else { '9' }
}

/// The decimal representation of `n`, without sign or leading zeros
/// (what `n.to_string()` gives for an unsigned integer).
pub open spec fn decimal(n: nat) -> Seq<char>
    decreases n,
{
    if n < 10 {
        seq![digit_char(n)]
    } else {
        decimal(n / 10).push(digit_char(n % 10))
    }
}

/// ASCII lower-case mapping of a single character (`char::to_ascii_lowercase`).
pub open spec fn ascii_lower(c: char) -> char {
    if 'A' <= c && c <= 'Z' {
        ((c as u32) + 32) as char
    } else {
        c
    }
}

/// `a` and `b` are equal when ASCII letters are compared without case
/// (`str::eq_ignore_ascii_case`).
pub open spec fn eq_ignore_case(a: Seq<char>, b: Seq<char>) -> bool {
    &&& a.len() == b.len()
    &&& forall|k: int| 0 <= k < a.len() ==> ascii_lower(#[trigger] a[k]) == ascii_lower(b[k])
}

/// Builds a `String` holding exactly the characters of `chars`.
#[verifier::external_body]
pub(crate) fn string_of(chars: &[char]) -> (s: String)
    ensures
        s@ == chars@,
{
    chars.iter().collect()
}

/// The characters of `s`, in order.
pub fn chars_of(s: &str) -> (v: Vec<char>)
    ensures
        v@ == s@,
{
    let mut v: Vec<char> = Vec::new();
    proof {
        broadcast use vstd::string::group_string_axioms;
    }
    for c in it: s.chars()
        invariant
            v@.len() == it.index(),
            forall|j: int| 0 <= j < v@.len() ==> v@[j] == it.seq()[j],
    {
        v.push(c);
    }
    proof {
        broadcast use vstd::string::group_string_axioms;
    }
    assert(v@ =~= s@);
    v
}

/// The characters of `s`, in order.
pub fn chars_of_string(s: &String) -> (v: Vec<char>)
    ensures
        v@ == s@,
{
    chars_of(s.as_str())
}

/// Exec form of [`digit_char`].
pub fn digit_to_char(d: usize) -> (c: char)
    requires
        d < 10,
    ensures
        c == digit_char(d as nat),
{
    if d == 0 { '0' }
    else if d == 1 { '1' }
    else if d == 2 { '2' }
    else if d == 3 { '3' }
    else if d == 4 { '4' }
    else if d == 5 { '5' }
    else if d == 6 { '6' }
    else if d == 7 { '7' }
    else if d == 8 { '8' }
    else { '9' }
}

/// The decimal digits of `n`, most significant first.
pub fn decimal_chars(n: usize) -> (v: Vec<char>)
    ensures
        v@ == decimal(n as nat),
    decreases n,
{
    if n < 10 {
        let mut v: Vec<char> = Vec::new();
        v.push(digit_to_char(n));
        v
    } else {
        let mut v = decimal_chars(n / 10);
        v.push(digit_to_char(n % 10));
        v
    }
}

/// `n.to_string()`: the decimal representation of `n`.
pub fn decimal_string(n: usize) -> (s: String)
    ensures
        s@ == decimal(n as nat),
{
    let v = decimal_chars(n);
    string_of(v.as_slice())
}

/// The character of the digit `d` (`d < 16`) in upper-case hexadecimal.
pub open spec fn hex_char(d: nat) -> char {
    if d < 10 {
        digit_char(d)
    } else if d == 10 {
        'A'
    } else if d == 11 {
        'B'
    } else if d == 12 {
        'C'
    } else if d == 13 {
        'D'
    } else if d == 14 {
        'E'
    } else {
        'F'
    }
}

/// The upper-case hexadecimal representation of `n`, without prefix or
/// leading zeros (what `{:X}` prints).
pub open spec fn hex_upper(n: nat) -> Seq<char>
    decreases n,
{
    if n < 16 {
        seq![hex_char(n)]
    } else {
        hex_upper(n / 16).push(hex_char(n % 16))
    }
}

/// The binary representation of `n`, without prefix or leading zeros
/// (what `{:b}` prints).
pub open spec fn binary(n: nat) -> Seq<char>
    decreases n,
{
    if n < 2 {
        seq![digit_char(n)]
    } else {
        binary(n / 2).push(digit_char(n % 2))
    }
}

/// `s` preceded by as many zeros as make it `width` characters long.
pub open spec fn zero_padded(s: Seq<char>, width: nat) -> Seq<char> {
    if s.len() >= width {
        s
    } else {
        Seq::new((width - s.len()) as nat, |i: int| '0') + s
    }
}

/// Exec form of [`hex_char`].
fn hex_digit(d: usize) -> (c: char)
    requires
        d < 16,
    ensures
        c == hex_char(d as nat),
{
    if d < 10 {
        digit_to_char(d)
    } else if d == 10 {
        'A'
    } else if d == 11 {
        'B'
    } else if d == 12 {
        'C'
    } else if d == 13 {
        'D'
    } else if d == 14 {
        'E'
    } else {
        'F'
    }
}

/// The upper-case hexadecimal digits of `n`, most significant first.
pub fn hex_chars(n: usize) -> (v: Vec<char>)
    ensures
        v@ == hex_upper(n as nat),
    decreases n,
{
    if n < 16 {
        let mut v: Vec<char> = Vec::new();
        v.push(hex_digit(n));
        v
    } else {
        let mut v = hex_chars(n / 16);
        v.push(hex_digit(n % 16));
        v
    }
}

/// The binary digits of `n`, most significant first.
pub fn binary_chars(n: usize) -> (v: Vec<char>)
    ensures
        v@ == binary(n as nat),
    decreases n,
{
    if n < 2 {
        let mut v: Vec<char> = Vec::new();
        v.push(digit_to_char(n));
        v
    } else {
        let mut v = binary_chars(n / 2);
        v.push(digit_to_char(n % 2));
        v
    }
}

/// `s` preceded by as many zeros as make it `width` characters long (see
/// [`zero_padded`]).
pub fn pad_zeros(s: Vec<char>, width: usize) -> (v: Vec<char>)
    ensures
        v@ == zero_padded(s@, width as nat),
{
    if s.len() >= width {
        return s;
    }
    let mut v: Vec<char> = Vec::new();
    let n = width - s.len();
    let mut k: usize = 0;
    while k < n
        invariant
            k <= n,
            v@ == Seq::new(k as nat, |i: int| '0'),
        decreases n - k,
    {
        v.push('0');
        k += 1;
        assert(v@ =~= Seq::new(k as nat, |i: int| '0'));
    }
    let mut j: usize = 0;
    let ghost zeros = v@;
    while j < s.len()
        invariant
            j <= s@.len(),
            v@ == zeros + s@.take(j as int),
        decreases s.len() - j,
    {
        v.push(s[j]);
        j += 1;
        assert(v@ =~= zeros + s@.take(j as int));
    }
    assert(s@.take(j as int) =~= s@);
    v
}

/// `items` separated by `, ` (how `{:?}` separates the entries of a list).
pub open spec fn joined(items: Seq<Seq<char>>) -> Seq<char>
    decreases items.len(),
{
    if items.len() == 0 {
        Seq::empty()
    } else if items.len() == 1 {
        items[0]
    } else {
        joined(items.drop_last()) + ", "@ + items.last()
    }
}

/// `items` between square brackets, separated by `, ` (how `{:?}` prints a
/// list).
pub open spec fn bracketed(items: Seq<Seq<char>>) -> Seq<char> {
    "["@ + joined(items) + "]"@
}

/// The texts of `items`.
pub open spec fn texts(items: Seq<String>) -> Seq<Seq<char>> {
    items.map_values(|x: String| x@)
}

/// `items` between square brackets, separated by `, ` (see [`bracketed`]).
pub fn bracketed_list(items: &Vec<String>) -> (s: String)
    ensures
        s@ == bracketed(texts(items@)),
{
    let ghost v = texts(items@);
    let mut s = String::from_str("[");
    assert(v.take(0) =~= Seq::<Seq<char>>::empty());
    assert(s@ =~= "["@ + joined(v.take(0)));
    let mut k: usize = 0;
    while k < items.len()
        invariant
            k <= items@.len(),
            v == texts(items@),
            s@ == "["@ + joined(v.take(k as int)),
        decreases items.len() - k,
    {
        let ghost before = s@;
        if k > 0 {
            s.append(", ");
        }
        s.append(items[k].as_str());
        proof {
            let t = v.take(k + 1);
            assert(t.drop_last() =~= v.take(k as int));
            assert(t.last() == items@[k as int]@);
            if k == 0 {
                assert(s@ =~= "["@ + joined(t));
            } else {
                assert(s@ =~= "["@ + joined(t));
            }
        }
        k += 1;
    }
    assert(v.take(k as int) =~= v);
    s.append("]");
    s
}

/// `n` in lower-case hexadecimal (what `{:x}` prints).
pub open spec fn hex_lower(n: nat) -> Seq<char> {
    hex_upper(n).map_values(|c: char| ascii_lower(c))
}

/// The lower-case hexadecimal digits of `n`, most significant first.
pub fn hex_lower_chars(n: usize) -> (v: Vec<char>)
    ensures
        v@ == hex_lower(n as nat),
{
    let upper = hex_chars(n);
    let mut v: Vec<char> = Vec::new();
    let mut k: usize = 0;
    while k < upper.len()
        invariant
            k <= upper@.len(),
            v@ == upper@.take(k as int).map_values(|c: char| ascii_lower(c)),
        decreases upper.len() - k,
    {
        v.push(to_ascii_lower(upper[k]));
        k += 1;
        assert(v@ =~= upper@.take(k as int).map_values(|c: char| ascii_lower(c)));
    }
    assert(upper@.take(k as int) =~= upper@);
    v
}

/// Exec form of [`ascii_lower`].
pub fn to_ascii_lower(c: char) -> (r: char)
    ensures
        r == ascii_lower(c),
{
    if 'A' <= c && c <= 'Z' {
        let u: u32 = (c as u32) + 32;
        assert(0x61 <= u <= 0x7a);
        char_from_ascii(u)
    } else {
        c
    }
}

/// The character whose code is the ASCII value `u`.
fn char_from_ascii(u: u32) -> (c: char)
    requires
        u < 128,
    ensures
        c == u as char,
{
    let b: u8 = u as u8;
    b as char
}

/// `a` and `b` compared as in `str::eq_ignore_ascii_case`.
pub fn chars_eq_ignore_case(a: &[char], b: &[char]) -> (r: bool)
    ensures
        r == eq_ignore_case(a@, b@),
{
    if a.len() != b.len() {
        return false;
    }
    let mut k: usize = 0;
    while k < a.len()
        invariant
            a@.len() == b@.len(),
            k <= a@.len(),
            forall|j: int| 0 <= j < k ==> ascii_lower(#[trigger] a@[j]) == ascii_lower(b@[j]),
        decreases a.len() - k,
    {
        if to_ascii_lower(a[k]) != to_ascii_lower(b[k]) {
            return false;
        }
        k += 1;
    }
    true
}

/// `a` and `b` hold the same characters.
pub fn chars_eq(a: &[char], b: &[char]) -> (r: bool)
    ensures
        r == (a@ == b@),
{
    if a.len() != b.len() {
        return false;
    }
    let mut k: usize = 0;
    while k < a.len()
        invariant
            a@.len() == b@.len(),
            k <= a@.len(),
            forall|j: int| 0 <= j < k ==> #[trigger] a@[j] == b@[j],
        decreases a.len() - k,
    {
        if a[k] != b[k] {
            return false;
        }
        k += 1;
    }
    assert(a@ =~= b@);
    true
}


/// The `Alphabetic` property of Unicode (`char::is_alphabetic`).
pub uninterp spec fn unicode_alphabetic(c: char) -> bool;

/// The numeric general categories of Unicode, `Nd`, `Nl` and `No`
/// (`char::is_numeric`).
pub uninterp spec fn unicode_numeric(c: char) -> bool;

/// The `White_Space` property of Unicode (`char::is_whitespace`): tab, line
/// feed, vertical tab, form feed, carriage return, space, next line,
/// no-break space, Ogham space mark, the spaces U+2000 to U+200A, line and
/// paragraph separators, narrow no-break space, medium mathematical space
/// and ideographic space.
pub open spec fn unicode_whitespace(c: char) -> bool {
    let u = c as u32;
    ||| 0x09 <= u <= 0x0d
    ||| u == 0x20
    ||| u == 0x85
    ||| u == 0xa0
    ||| u == 0x1680
    ||| 0x2000 <= u <= 0x200a
    ||| u == 0x2028
    ||| u == 0x2029
    ||| u == 0x202f
    ||| u == 0x205f
    ||| u == 0x3000
}

/// `char::is_alphabetic`: whether `c` has the Unicode `Alphabetic` property.
#[verifier::external_body]
pub(crate) fn is_alphabetic(c: char) -> (b: bool)
    ensures
        b == unicode_alphabetic(c),
{
    c.is_alphabetic()
}

/// `char::is_numeric`: whether `c` is in one of the Unicode number categories.
#[verifier::external_body]
pub(crate) fn is_numeric(c: char) -> (b: bool)
    ensures
        b == unicode_numeric(c),
{
    c.is_numeric()
}

/// `char::is_whitespace`: whether `c` has the Unicode `White_Space` property
/// (see [`unicode_whitespace`]).
pub fn is_whitespace(c: char) -> (b: bool)
    ensures
        b == unicode_whitespace(c),
{
    let u = c as u32;
    (0x09 <= u && u <= 0x0d) || u == 0x20 || u == 0x85 || u == 0xa0 || u == 0x1680 || (0x2000
        <= u && u <= 0x200a) || u == 0x2028 || u == 0x2029 || u == 0x202f || u == 0x205f || u
        == 0x3000
}

/// `char::is_alphanumeric`: alphabetic or numeric, as its documentation defines it.
pub fn is_alphanumeric(c: char) -> (b: bool)
    ensures
        b == (unicode_alphabetic(c) || unicode_numeric(c)),
{
    is_alphabetic(c) || is_numeric(c)
}

/// `char::is_ascii_punctuation`: the ASCII punctuation and symbol characters
/// `!"#$%&'()*+,-./`, `:;<=>?@`, `[\]^_\``` and `{|}~`.
pub open spec fn ascii_punctuation(c: char) -> bool {
    ||| '!' <= c && c <= '/'
    ||| ':' <= c && c <= '@'
    ||| '[' <= c && c <= '`'
    ||| '{' <= c && c <= '~'
}

/// Exec form of [`ascii_punctuation`].
pub fn is_ascii_punctuation(c: char) -> (b: bool)
    ensures
        b == ascii_punctuation(c),
{
    ('!' <= c && c <= '/') || (':' <= c && c <= '@') || ('[' <= c && c <= '`') || ('{' <= c
        && c <= '~')
}

/// `char::is_digit(10)`: an ASCII decimal digit.
pub open spec fn ascii_digit(c: char) -> bool {
    '0' <= c && c <= '9'
}

/// `char::is_ascii_hexdigit`: an ASCII hexadecimal digit, either case.
pub open spec fn ascii_hexdigit(c: char) -> bool {
    ||| '0' <= c && c <= '9'
    ||| 'a' <= c && c <= 'f'
    ||| 'A' <= c && c <= 'F'
}

/// Number of bytes of `c` in UTF-8 (`char::len_utf8`); the surrogate
/// range, which holds no `char`, is counted as `encode_scalar` counts it.
pub open spec fn utf8_len(c: char) -> nat {
    if (c as u32) < 0x80 {
        1
    } else if (c as u32) < 0x800 {
        2
    } else if (c as u32) < 0x10000 && !(0xD800 <= (c as u32) && (c as u32) <= 0xDFFF) {
        3
    } else {
        4
    }
}

/// Number of bytes of `s` in UTF-8 (`str::len`).
pub open spec fn byte_len(s: Seq<char>) -> nat
    decreases s.len(),
{
    if s.len() == 0 {
        0
    } else {
        byte_len(s.drop_last()) + utf8_len(s.last())
    }
}

/// Bytes of a single character.
pub proof fn lemma_byte_len_single(c: char)
    ensures
        byte_len(seq![c]) == utf8_len(c),
{
    assert(seq![c].drop_last() =~= Seq::<char>::empty());
    assert(seq![c].last() == c);
    assert(byte_len(Seq::<char>::empty()) == 0);
}

/// Bytes of a concatenation add up.
pub proof fn lemma_byte_len_cons(a: Seq<char>, b: Seq<char>)
    ensures
        byte_len(a + b) == byte_len(a) + byte_len(b),
    decreases b.len(),
{
    if b.len() == 0 {
        assert(a + b =~= a);
    } else {
        lemma_byte_len_cons(a, b.drop_last());
        assert((a + b).drop_last() =~= a + b.drop_last());
    }
}

/// Bytes of a text split at `k` add up.
pub proof fn lemma_byte_len_split(s: Seq<char>, k: nat)
    requires
        k <= s.len(),
    ensures
        byte_len(s) == byte_len(s.take(k as int)) + byte_len(s.skip(k as int)),
{
    lemma_byte_len_cons(s.take(k as int), s.skip(k as int));
    assert(s.take(k as int) + s.skip(k as int) =~= s);
}

/// Bytes of a prefix one character longer.
pub proof fn lemma_byte_len_prefix(s: Seq<char>, k: nat)
    requires
        0 < k <= s.len(),
    ensures
        byte_len(s.take(k as int)) == byte_len(s.take(k - 1)) + utf8_len(s[k - 1]),
        byte_len(s.take(k as int)) <= byte_len(s),
{
    assert(s.take(k as int).drop_last() =~= s.take(k - 1));
    lemma_byte_len_split(s, k);
}

/// Each character takes at most four bytes.
pub proof fn lemma_byte_len_at_most(s: Seq<char>)
    ensures
        byte_len(s) <= 4 * s.len(),
    decreases s.len(),
{
    if s.len() > 0 {
        lemma_byte_len_at_most(s.drop_last());
    }
}

/// [`byte_len`] counts the bytes of the UTF-8 encoding.
pub proof fn lemma_byte_len_encoded(s: Seq<char>)
    ensures
        byte_len(s) == vstd::utf8::encode_utf8(s).len(),
    decreases s.len(),
{
    if s.len() > 0 {
        lemma_byte_len_encoded(s.drop_first());
        lemma_byte_len_cons(seq![s[0]], s.drop_first());
        assert(seq![s[0]] + s.drop_first() =~= s);
        lemma_byte_len_single(s[0]);
        let c = s[0] as u32;
        assert(vstd::utf8::encode_scalar(c).len() == utf8_len(s[0]));
        assert(vstd::utf8::encode_utf8(s) == vstd::utf8::encode_scalar(c) + vstd::utf8::encode_utf8(s.drop_first()));
    }
}

/// Exec form of [`utf8_len`].
pub fn len_utf8(c: char) -> (n: usize)
    ensures
        n == utf8_len(c),
{
    let u = c as u32;
    if u < 0x80 {
        1
    } else if u < 0x800 {
        2
    } else if u < 0x10000 && !(0xD800 <= u && u <= 0xDFFF) {
        3
    } else {
        4
    }
}

} // verus!
