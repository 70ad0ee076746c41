//! Character classes and small string primitives shared by the front end.

use vstd::prelude::*;

verus! {

/// `c` is one of the ASCII decimal digits `0`..`9`.
pub open spec fn spec_is_ascii_digit(c: char) -> bool {
    '0' <= c && c <= '9'
}

/// `c` is an ASCII hexadecimal digit.
pub open spec fn spec_is_ascii_hexdigit(c: char) -> bool {
    ('0' <= c && c <= '9') || ('a' <= c && c <= 'f') || ('A' <= c && c <= 'F')
}

/// `c` is an ASCII letter.
pub open spec fn spec_is_ascii_alpha(c: char) -> bool {
    ('a' <= c && c <= 'z') || ('A' <= c && c <= 'Z')
}

/// `c` is ASCII whitespace in the sense of `char::is_ascii_whitespace`
/// (space, tab, line feed, form feed, carriage return).
pub open spec fn spec_is_ascii_whitespace(c: char) -> bool {
    c == ' ' || c == '\t' || c == '\n' || c == '\x0C' || c == '\r'
}

/// `c` has the Unicode `White_Space` property (the rule behind `char::is_whitespace`).
pub open spec fn spec_is_unicode_whitespace(c: char) -> bool {
    let u = c as u32;
    (0x9 <= u && u <= 0xD) || u == 0x20 || u == 0x85 || u == 0xA0 || u == 0x1680
        || (0x2000 <= u && u <= 0x200A) || u == 0x2028 || u == 0x2029 || u == 0x202F
        || u == 0x205F || u == 0x3000
}

/// The numeric value of a hexadecimal digit.
pub open spec fn spec_hex_value(c: char) -> int {
    if '0' <= c && c <= '9' {
        (c as u32) - ('0' as u32)
    } else if 'a' <= c && c <= 'f' {
        (c as u32) - ('a' as u32) + 10
    } else if 'A' <= c && c <= 'F' {
        (c as u32) - ('A' as u32) + 10
    } else {
        0
    }
}

/// Number of bytes that `c` takes in UTF-8.
pub open spec fn spec_utf8_len(c: char) -> nat {
    let u = c as u32;
    if u < 0x80 {
        1
    } else if u < 0x800 {
        2
    } else if u < 0x10000 {
        3
    } else {
        4
    }
}

/// Number of bytes that a whole character sequence takes in UTF-8.
pub open spec fn spec_utf8_bytes(s: Seq<char>) -> nat
    decreases s.len(),
{
    if s.len() == 0 {
        0
    } else {
        spec_utf8_bytes(s.drop_last()) + spec_utf8_len(s.last())
    }
}

/// A value is a Unicode scalar value, i.e. the code of some `char`.
pub open spec fn spec_is_scalar(v: int) -> bool {
    (0 <= v && v < 0xD800) || (0xE000 <= v && v <= 0x10FFFF)
}

pub fn is_ascii_digit(c: char) -> (r: bool)
    ensures
        r == spec_is_ascii_digit(c),
{
    '0' <= c && c <= '9'
}

pub fn is_ascii_hexdigit(c: char) -> (r: bool)
    ensures
        r == spec_is_ascii_hexdigit(c),
{
    ('0' <= c && c <= '9') || ('a' <= c && c <= 'f') || ('A' <= c && c <= 'F')
}

pub fn is_ascii_whitespace(c: char) -> (r: bool)
    ensures
        r == spec_is_ascii_whitespace(c),
{
    c == ' ' || c == '\t' || c == '\n' || c == '\x0C' || c == '\r'
}

pub fn is_unicode_whitespace(c: char) -> (r: bool)
    ensures
        r == spec_is_unicode_whitespace(c),
{
    let u = c as u32;
    (0x9 <= u && u <= 0xD) || u == 0x20 || u == 0x85 || u == 0xA0 || u == 0x1680
        || (0x2000 <= u && u <= 0x200A) || u == 0x2028 || u == 0x2029 || u == 0x202F
        || u == 0x205F || u == 0x3000
}

pub fn hex_value(c: char) -> (r: u32)
    requires
        spec_is_ascii_hexdigit(c),
    ensures
        r == spec_hex_value(c),
        r < 16,
{
    let u = c as u32;
    if '0' <= c && c <= '9' {
        u - ('0' as u32)
    } else if 'a' <= c && c <= 'f' {
        u - ('a' as u32) + 10
    } else {
        u - ('A' as u32) + 10
    }
}

pub fn utf8_len(c: char) -> (r: usize)
    ensures
        r == spec_utf8_len(c),
{
    let u = c as u32;
    if u < 0x80 {
        1
    } else if u < 0x800 {
        2
    } else if u < 0x10000 {
        3
    } else {
        4
    }
}

/// Appends one character (wraps `String::push`).
#[verifier::external_body]
pub(crate) fn push_char(s: &mut String, c: char)
    ensures
        final(s)@ == old(s)@.push(c),
{
    s.push(c);
}

/// Builds a `String` from a sequence of characters (wraps `FromIterator<char> for String`).
#[verifier::external_body]
pub(crate) fn string_from_chars(v: &[char]) -> (r: String)
    ensures
        r@ == v@,
{
    v.iter().collect()
}

/// The characters of a string slice (wraps `str::chars` collected into a vector); like
/// every `Vec`, its allocation stays within `isize::MAX` bytes (std's documented limit).
#[verifier::external_body]
pub(crate) fn chars_of(s: &str) -> (r: Vec<char>)
    ensures
        r@ == s@,
        r@.len() * 4 <= isize::MAX,
{
    s.chars().collect()
}

/// `char::from_u32`: the character with code `v`, when `v` is a Unicode scalar value.
#[verifier::external_body]
pub(crate) fn char_from_u32(v: u32) -> (r: Option<char>)
    ensures
        spec_is_scalar(v as int) ==> r == Some(v as char),
        !spec_is_scalar(v as int) ==> r is None,
{
    char::from_u32(v)
}

/// The text `Debug` gives for a string: the characters in double quotes, escaped
/// as `char::escape_debug` escapes them (with std's rules for quotes and grapheme
/// extenders).
pub uninterp spec fn str_debug_text(s: Seq<char>) -> Seq<char>;

/// `format!("{:?}")` of a string slice: std's `Debug` for `str` (named, not stated).
#[verifier::external_body]
pub(crate) fn str_debug(s: &str) -> (r: String)
    ensures
        r@ == str_debug_text(s@),
{
    format!("{:?}", s)
}

/// The lowercase form of a text, by the Unicode Lowercase mapping.
pub uninterp spec fn lowercase_text(s: Seq<char>) -> Seq<char>;

/// `str::to_lowercase`: the text in lowercase (named, not stated).
#[verifier::external_body]
pub(crate) fn lowercase(s: &str) -> (r: String)
    ensures
        r@ == lowercase_text(s@),
{
    s.to_lowercase()
}

/// Copies a string slice into an owned `String`.
pub fn owned(s: &str) -> (r: String)
    ensures
        r@ == s@,
{
    String::from_str(s)
}

/// Concatenation of two string slices.
pub fn concat(a: &str, b: &str) -> (r: String)
    ensures
        r@ == a@ + b@,
{
    let mut s = String::from_str(a);
    s.append(b);
    s
}

/// The decimal digits of a natural number (no leading zeros; "0" for zero).
pub open spec fn decimal_text(n: nat) -> Seq<char>
    decreases n,
{
    if n < 10 {
        seq![(('0' as u32) + n) as char]
    } else {
        decimal_text(n / 10).push((('0' as u32) + (n % 10)) as char)
    }
}

/// The decimal digits of `n`, appended to `out`.
pub fn push_decimal(n: u64, out: &mut Vec<char>)
    ensures
        final(out)@ == old(out)@ + decimal_text(n as nat),
    decreases n,
{
    if n < 10 {
        out.push(((48u8 + (n as u8)) as char));
        assert(decimal_text(n as nat) == seq![(('0' as u32) + n) as char]);
    } else {
        push_decimal(n / 10, out);
        let d = (n % 10) as u8;
        out.push(((48u8 + d) as char));
        assert(decimal_text(n as nat) == decimal_text((n / 10) as nat).push((('0' as u32) + (n % 10)) as char));
    }
}

/// Appends the characters of a string slice.
pub fn push_str_chars(out: &mut Vec<char>, t: &str)
    ensures
        final(out)@ == old(out)@ + t@,
{
    let n = t.unicode_len();
    let mut i: usize = 0;
    while i < n
        invariant
            n == t@.len(),
            i <= n,
            out@ == old(out)@ + t@.subrange(0, i as int),
        decreases n - i,
    {
        out.push(t.get_char(i));
        i += 1;
        assert(out@ =~= old(out)@ + t@.subrange(0, i as int));
    }
    assert(t@.subrange(0, n as int) =~= t@);
}

/// Appends the characters of a string.
pub fn push_string_chars(out: &mut Vec<char>, t: &String)
    ensures
        final(out)@ == old(out)@ + t@,
{
    push_str_chars(out, t.as_str());
}

} // verus!

verus! {

/// `t` occurs in `s` at index `i`.
pub open spec fn occurs_at(s: Seq<char>, t: Seq<char>, i: int) -> bool {
    0 <= i && i + t.len() <= s.len() && s.subrange(i, i + t.len()) == t
}

/// `t` occurs somewhere in `s` (what `str::contains` tests).
pub open spec fn spec_contains(s: Seq<char>, t: Seq<char>) -> bool {
    exists|i: int| occurs_at(s, t, i)
}

/// Whether `t` occurs in `s` at index `i`.
pub fn occurs_at_exec(s: &Vec<char>, t: &Vec<char>, i: usize) -> (r: bool)
    requires
        i + t@.len() <= s@.len(),
    ensures
        r == occurs_at(s@, t@, i as int),
{
    let n = t.len();
    let sl = s.len();
    let mut k: usize = 0;
    while k < n
        invariant
            n == t@.len(),
            i + n <= s@.len(),
            sl == s@.len(),
            k <= n,
            forall|j: int| 0 <= j < k ==> s@[i + j] == t@[j],
        decreases n - k,
    {
        if s[i + k] != t[k] {
            assert(s@.subrange(i as int, i + n)[k as int] != t@[k as int]);
            return false;
        }
        k += 1;
    }
    assert(s@.subrange(i as int, i + n) =~= t@);
    true
}

/// Whether `t` occurs in `s`.
pub fn contains_str(s: &str, t: &str) -> (r: bool)
    ensures
        r == spec_contains(s@, t@),
{
    let sc = chars_of(s);
    let tc = chars_of(t);
    if tc.len() > sc.len() {
        assert forall|i: int| !occurs_at(s@, t@, i) by {}
        return false;
    }
    let last = sc.len() - tc.len();
    let mut i: usize = 0;
    while i <= last
        invariant
            sc@ == s@,
            tc@ == t@,
            sc@.len() * 4 <= isize::MAX,
            last == sc@.len() - tc@.len(),
            i <= last + 1,
            forall|j: int| 0 <= j < i ==> !occurs_at(s@, t@, j),
        decreases last + 1 - i,
    {
        if occurs_at_exec(&sc, &tc, i) {
            return true;
        }
        i += 1;
    }
    assert forall|j: int| !occurs_at(s@, t@, j) by {
        if 0 <= j && j + t@.len() <= s@.len() {
            assert(j <= last);
        }
    }
    false
}

/// `n` copies of `c`.
pub open spec fn repeat_char(c: char, n: nat) -> Seq<char> {
    Seq::new(n, |_i: int| c)
}

/// `n` copies of `s` after one another.
pub open spec fn repeat_text(s: Seq<char>, n: nat) -> Seq<char>
    decreases n,
{
    if n == 0 {
        Seq::empty()
    } else {
        repeat_text(s, (n - 1) as nat) + s
    }
}

/// `n` copies of `s` (what `str::repeat` gives).
pub fn repeat_str(s: &str, n: usize) -> (r: String)
    requires
        s@.len() * n < usize::MAX,
    ensures
        r@ == repeat_text(s@, n as nat),
{
    let mut out: Vec<char> = Vec::new();
    let mut i: usize = 0;
    while i < n
        invariant
            i <= n,
            out@ == repeat_text(s@, i as nat),
        decreases n - i,
    {
        push_str_chars(&mut out, s);
        i += 1;
    }
    string_from_chars(out.as_slice())
}

} // verus!

verus! {

/// Whether two string slices hold the same text.
pub fn same_text(a: &str, b: &str) -> (r: bool)
    ensures
        r == (a@ == b@),
{
    let n = a.unicode_len();
    if n != b.unicode_len() {
        return false;
    }
    let mut i: usize = 0;
    while i < n
        invariant
            n == a@.len(),
            n == b@.len(),
            i <= n,
            forall|j: int| 0 <= j < i ==> a@[j] == b@[j],
        decreases n - i,
    {
        if a.get_char(i) != b.get_char(i) {
            return false;
        }
        i += 1;
    }
    assert(a@ =~= b@);
    true
}

/// A decimal text cut at its first `.`: what comes before, and what comes after
/// when there is a `.`.
pub open spec fn split_dot(t: Seq<char>) -> (Seq<char>, Option<Seq<char>>)
    decreases t.len(),
{
    if t.len() == 0 {
        (Seq::empty(), None)
    } else if t[0] == '.' {
        (Seq::empty(), Some(t.subrange(1, t.len() as int)))
    } else {
        let (a, b) = split_dot(t.subrange(1, t.len() as int));
        (seq![t[0]] + a, b)
    }
}

/// The text without its leading zeros.
pub open spec fn strip_leading_zeros(s: Seq<char>) -> Seq<char>
    decreases s.len(),
{
    if s.len() > 0 && s[0] == '0' {
        strip_leading_zeros(s.subrange(1, s.len() as int))
    } else {
        s
    }
}

/// The text without its trailing zeros.
pub open spec fn strip_trailing_zeros(s: Seq<char>) -> Seq<char>
    decreases s.len(),
{
    if s.len() > 0 && s.last() == '0' {
        strip_trailing_zeros(s.drop_last())
    } else {
        s
    }
}

/// How a number literal's decimal text is written: without leading zeros (but one
/// `0` before the point) and without trailing zeros after the point, and without the
/// point when nothing follows it, as a whole number or a double is printed.
pub open spec fn number_text(t: Seq<char>) -> Seq<char> {
    let (i, f) = split_dot(t);
    let i2 = strip_leading_zeros(i);
    let whole = if i2.len() == 0 { "0"@ } else { i2 };
    match f {
        Some(ff) => {
            let f2 = strip_trailing_zeros(ff);
            if f2.len() == 0 {
                whole
            } else {
                whole + "."@ + f2
            }
        },
        None => whole,
    }
}

/// The decimal text has digits other than zeros after its point.
pub open spec fn has_fraction(t: Seq<char>) -> bool {
    split_dot(t).1 matches Some(f) && strip_trailing_zeros(f).len() > 0
}

/// Appends a number literal's decimal text as it is written (see `number_text`).
pub fn push_number(out: &mut Vec<char>, t: &String) -> (r: bool)
    ensures
        final(out)@ == old(out)@ + number_text(t@),
        r == has_fraction(t@),
{
    let cs = chars_of(t.as_str());
    let n = cs.len();
    let mut k: usize = 0;
    proof {
        assert(cs@.take(0) =~= Seq::<char>::empty());
        assert(cs@.skip(0) =~= cs@);
        assert(split_dot(cs@).0 =~= Seq::<char>::empty() + split_dot(cs@).0);
    }
    while k < n && cs[k] != '.'
        invariant
            cs@ == t@,
            n == cs@.len(),
            k <= n,
            split_dot(cs@) == (cs@.take(k as int) + split_dot(cs@.skip(k as int)).0, split_dot(cs@.skip(k as int)).1),
        decreases n - k,
    {
        proof {
            let sk = cs@.skip(k as int);
            assert(sk.subrange(1, sk.len() as int) =~= cs@.skip(k as int + 1));
            assert(cs@.take(k as int + 1) =~= cs@.take(k as int) + seq![sk[0]]);
        }
        k += 1;
    }
    let ghost ip = cs@.take(k as int);
    proof {
        let sk = cs@.skip(k as int);
        if k < n {
            assert(sk.subrange(1, sk.len() as int) =~= cs@.skip(k as int + 1));
            assert(split_dot(cs@) == (ip, Some(cs@.skip(k as int + 1))));
        } else {
            assert(sk =~= Seq::<char>::empty());
            assert(split_dot(cs@) == (ip, None::<Seq<char>>));
        }
    }
    let mut a: usize = 0;
    while a < k && cs[a] == '0'
        invariant
            cs@ == t@,
            ip == cs@.take(k as int),
            k <= n == cs@.len(),
            a <= k,
            strip_leading_zeros(ip) == strip_leading_zeros(cs@.subrange(a as int, k as int)),
        decreases k - a,
    {
        proof {
            let sa = cs@.subrange(a as int, k as int);
            assert(sa.subrange(1, sa.len() as int) =~= cs@.subrange(a as int + 1, k as int));
        }
        a += 1;
    }
    proof {
        let sa = cs@.subrange(a as int, k as int);
        assert(strip_leading_zeros(ip) == sa);
    }
    if a == k {
        out.push('0');
    } else {
        let mut j: usize = a;
        let ghost o1 = out@;
        while j < k
            invariant
                cs@ == t@,
                a <= j <= k <= n == cs@.len(),
                out@ == o1 + cs@.subrange(a as int, j as int),
            decreases k - j,
        {
            out.push(cs[j]);
            j += 1;
            assert(out@ =~= o1 + cs@.subrange(a as int, j as int));
        }
    }
    let ghost whole = if a == k { "0"@ } else { cs@.subrange(a as int, k as int) };
    proof {
        reveal_strlit("0");
        reveal_strlit(".");
    }
    let ghost o2 = out@;
    assert(o2 == old(out)@ + whole);
    let mut frac = false;
    if k < n {
        let ghost fp = cs@.skip(k as int + 1);
        let mut e: usize = n;
        while e > k + 1 && cs[e - 1] == '0'
            invariant
                cs@ == t@,
                fp == cs@.skip(k as int + 1),
                k < n == cs@.len(),
                k + 1 <= e <= n,
                strip_trailing_zeros(fp) == strip_trailing_zeros(cs@.subrange(k as int + 1, e as int)),
            decreases e,
        {
            proof {
                let se = cs@.subrange(k as int + 1, e as int);
                assert(se.drop_last() =~= cs@.subrange(k as int + 1, e as int - 1));
            }
            e -= 1;
        }
        proof {
            let se = cs@.subrange(k as int + 1, e as int);
            assert(strip_trailing_zeros(fp) == se);
        }
        if e > k + 1 {
            frac = true;
            out.push('.');
            let mut j: usize = k + 1;
            while j < e
                invariant
                    cs@ == t@,
                    k + 1 <= j <= e <= n == cs@.len(),
                    out@ == o2 + seq!['.'] + cs@.subrange(k as int + 1, j as int),
                decreases e - j,
            {
                out.push(cs[j]);
                j += 1;
                assert(out@ =~= o2 + seq!['.'] + cs@.subrange(k as int + 1, j as int));
            }
        }
    }
    proof {
        assert(out@ =~= old(out)@ + number_text(t@));
    }
    frac
}

} // verus!
