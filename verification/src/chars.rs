//! Moving between strings and sequences of characters.

use vstd::prelude::*;
use vstd::slice::*;

verus! {

/// `String::push`: appends one character to the string.
#[verifier::external_body]
pub(crate) fn push_char(s: &mut String, c: char)
    ensures
        final(s)@ == old(s)@.push(c),
{
    s.push(c)
}

/// The characters of `s`, in order.
pub fn to_chars(s: &str) -> (v: Vec<char>)
    ensures
        v@ == s@,
{
    broadcast use vstd::string::group_string_axioms;

    let mut v: Vec<char> = Vec::new();
    for c in it: s.chars()
        invariant
            it.seq() == s@,
            v@ == s@.subrange(0, it.index() as int),
    {
        v.push(c);
    }
    v
}

/// Appends the characters of `chars` to `s`.
pub fn append_chars(s: &mut String, chars: &[char])
    ensures
        final(s)@ == old(s)@ + chars@,
{
    let n = chars.len();
    let mut i: usize = 0;
    while i < n
        invariant
            i <= n,
            n == chars@.len(),
            s@ == old(s)@ + chars@.subrange(0, i as int),
        decreases n - i,
    {
        push_char(s, chars[i]);
        i += 1;
    }
}

/// The string that holds the characters of `chars`.
pub fn string_of(chars: &[char]) -> (s: String)
    ensures
        s@ == chars@,
{
    let mut s = String::new();
    append_chars(&mut s, chars);
    s
}

/// Whether `a` holds exactly the characters of `word`.
pub fn is_word(a: &[char], word: &str) -> (r: bool)
    ensures
        r == (a@ == word@),
{
    let w = to_chars(word);
    if a.len() != w.len() {
        return false;
    }
    let n = a.len();
    let mut i: usize = 0;
    while i < n
        invariant
            i <= n,
            n == a@.len(),
            n == w@.len(),
            w@ == word@,
            forall|j: int| 0 <= j < i ==> a@[j] == w@[j],
        decreases n - i,
    {
        if a[i] != w[i] {
            return false;
        }
        i += 1;
    }
    assert(a@ =~= w@);
    true
}

/// The character in lower case, where it is an ASCII letter in upper case;
/// any other character as it is.
pub open spec fn ascii_lower(c: char) -> char {
    if 'A' <= c <= 'Z' {
        ((c as u32) + 32) as char
    } else {
        c
    }
}

/// The character in lower case, where it is an ASCII letter in upper case.
pub fn to_ascii_lower(c: char) -> (r: char)
    ensures
        r == ascii_lower(c),
{
    if 'A' <= c && c <= 'Z' {
        ((c as u32 + 32) as u8) as char
    } else {
        c
    }
}

/// True when `a` begins with `word` where upper and lower case of ASCII
/// letters count as the same: each character of `a`, in lower case, is the
/// character of `word` at its place. `word` is meant to be in lower case.
pub open spec fn begins_ignoring_case(a: Seq<char>, word: Seq<char>) -> bool {
    word.len() <= a.len() && forall|i: int|
        0 <= i < word.len() ==> ascii_lower(#[trigger] a[i]) == word[i]
}

/// Whether `a` begins with the characters of `word`, without regard to the
/// case of ASCII letters.
pub fn begins_with_word_ignoring_case(a: &[char], word: &str) -> (r: bool)
    ensures
        r == begins_ignoring_case(a@, word@),
{
    let w = to_chars(word);
    if a.len() < w.len() {
        return false;
    }
    let n = w.len();
    let mut i: usize = 0;
    while i < n
        invariant
            i <= n,
            n == w@.len(),
            n <= a@.len(),
            w@ == word@,
            forall|j: int| 0 <= j < i ==> ascii_lower(#[trigger] a@[j]) == w@[j],
        decreases n - i,
    {
        if to_ascii_lower(a[i]) != w[i] {
            return false;
        }
        i += 1;
    }
    true
}

/// The character of the decimal digit `d`.
pub open spec fn digit_char(d: nat) -> char {
    (('0' as nat) + d) as char
}

/// The decimal digits of `n`, most significant first, without leading zeros.
pub open spec fn decimal_digits(n: nat) -> Seq<char>
    decreases n,
{
    if n < 10 {
        seq![digit_char(n)]
    } else {
        decimal_digits(n / 10).push(digit_char(n % 10))
    }
}

/// Appends the decimal digits of `n` to `out`.
pub fn push_decimal(out: &mut Vec<char>, n: u64)
    ensures
        final(out)@ == old(out)@ + decimal_digits(n as nat),
    decreases n,
{
    if n >= 10 {
        push_decimal(out, n / 10);
    }
    let d: u8 = (n % 10) as u8;
    let c: char = (48u8 + d) as char;
    out.push(c);
}

/// Appends the characters of `word` to `out`.
pub fn push_word(out: &mut Vec<char>, word: &str)
    ensures
        final(out)@ == old(out)@ + word@,
{
    let mut w = to_chars(word);
    out.append(&mut w);
}

} // verus!
