//! Incremental UTF-8 decoding: the longest valid prefix of a byte sequence,
//! and whether what follows it was cut off or is malformed.

use vstd::prelude::*;
use vstd::utf8::*;

verus! {

/// `char::from_u32`: the character with scalar value `v`, where `v` is one.
#[verifier::external_body]
pub(crate) fn char_from_scalar(v: u32) -> (r: Option<char>)
    ensures
        r == if is_scalar(v) {
            Some(v as char)
        } else {
            None::<char>
        },
{
    char::from_u32(v)
}

/// The length of the longest prefix of `bytes` that is valid UTF-8.
pub open spec fn valid_prefix_len(bytes: Seq<u8>) -> int
    decreases bytes.len(),
{
    if bytes.len() > 0 && valid_first_scalar(bytes) {
        length_of_first_scalar(bytes) + valid_prefix_len(pop_first_scalar(bytes))
    } else {
        0
    }
}

/// What follows the longest valid prefix of `bytes`.
pub open spec fn after_valid_prefix(bytes: Seq<u8>) -> Seq<u8> {
    bytes.subrange(valid_prefix_len(bytes), bytes.len() as int)
}

/// The text that the longest valid prefix of `bytes` encodes.
pub open spec fn valid_prefix_text(bytes: Seq<u8>) -> Seq<char> {
    decode_utf8(bytes.subrange(0, valid_prefix_len(bytes)))
}

/// Whether `b1` may follow the leading byte `b0` of a scalar of three or
/// four bytes: a continuation byte that makes the scalar neither overlong,
/// nor a surrogate, nor larger than the last scalar.
pub open spec fn second_byte_fits(b0: u8, b1: u8) -> bool {
    if b0 == 0xE0 {
        0xA0 <= b1 <= 0xBF
    } else if b0 == 0xED {
        0x80 <= b1 <= 0x9F
    } else if b0 == 0xF0 {
        0x90 <= b1 <= 0xBF
    } else if b0 == 0xF4 {
        0x80 <= b1 <= 0x8F
    } else {
        0x80 <= b1 <= 0xBF
    }
}

/// True when `t` is the beginning of the encoding of one scalar and lacks
/// at least one byte of it: a sequence that was cut off, not a malformed one.
pub open spec fn is_incomplete(t: Seq<u8>) -> bool {
    ||| t.len() == 1 && 0xC2 <= t[0] <= 0xF4
    ||| t.len() == 2 && 0xE0 <= t[0] <= 0xF4 && second_byte_fits(t[0], t[1])
    ||| t.len() == 3 && 0xF0 <= t[0] <= 0xF4 && second_byte_fits(t[0], t[1])
        && is_continuation_byte(t[2])
}

/// True when `bytes` cannot be the beginning of any valid UTF-8 text: after
/// its longest valid prefix stands something that is not a cut-off scalar.
pub open spec fn is_malformed(bytes: Seq<u8>) -> bool {
    after_valid_prefix(bytes).len() > 0 && !is_incomplete(after_valid_prefix(bytes))
}

/// The number of bytes of the invalid sequence that `t` begins with, for a
/// `t` that begins with neither a valid nor a cut-off scalar.
pub open spec fn invalid_sequence_len(t: Seq<u8>) -> int {
    if !(0xC2 <= t[0] <= 0xF4) || t.len() < 2 || !second_byte_fits(t[0], t[1]) {
        1
    } else if t.len() < 3 || !is_continuation_byte(t[2]) {
        2
    } else {
        3
    }
}

/// A valid first scalar has between one and four bytes, all inside `s`.
pub proof fn lemma_first_scalar_len(s: Seq<u8>)
    requires
        valid_first_scalar(s),
    ensures
        1 <= length_of_first_scalar(s) <= 4,
        length_of_first_scalar(s) <= s.len(),
        pop_first_scalar(s).len() == s.len() - length_of_first_scalar(s),
{
}

/// The first scalar of `s` alone is valid UTF-8 and decodes to one character.
pub proof fn lemma_first_scalar_alone(s: Seq<u8>)
    requires
        valid_first_scalar(s),
    ensures
        valid_utf8(take_first_scalar(s)),
        decode_utf8(take_first_scalar(s)) == seq![decode_first_scalar(s) as char],
{
    let t = take_first_scalar(s);
    assert(valid_utf8(pop_first_scalar(t)));
    assert(decode_utf8(t) == seq![decode_first_scalar(t) as char] + decode_utf8(
        pop_first_scalar(t),
    ));
}

/// The first scalar of `a` is the first scalar of `a + b`.
pub proof fn lemma_first_scalar_of_concat(a: Seq<u8>, b: Seq<u8>)
    requires
        valid_first_scalar(a),
    ensures
        valid_first_scalar(a + b),
        length_of_first_scalar(a + b) == length_of_first_scalar(a),
        decode_first_scalar(a + b) == decode_first_scalar(a),
        pop_first_scalar(a + b) == pop_first_scalar(a) + b,
{
}

/// Valid UTF-8 followed by valid UTF-8 decodes to the one text followed by
/// the other.
pub proof fn lemma_decode_concat(a: Seq<u8>, b: Seq<u8>)
    requires
        valid_utf8(a),
        valid_utf8(b),
    ensures
        valid_utf8(a + b),
        decode_utf8(a + b) == decode_utf8(a) + decode_utf8(b),
    decreases a.len(),
{
    if a.len() == 0 {
        assert(a + b =~= b);
        assert(decode_utf8(a) + decode_utf8(b) =~= decode_utf8(b));
    } else {
        lemma_first_scalar_len(a);
        lemma_first_scalar_of_concat(a, b);
        lemma_decode_concat(pop_first_scalar(a), b);
        assert(decode_utf8(a + b) =~= decode_utf8(a) + decode_utf8(b));
    }
}

/// The longest valid prefix is valid, lies inside `bytes`, and no valid
/// scalar follows it.
pub proof fn lemma_valid_prefix(bytes: Seq<u8>)
    ensures
        0 <= valid_prefix_len(bytes) <= bytes.len(),
        valid_utf8(bytes.subrange(0, valid_prefix_len(bytes))),
        after_valid_prefix(bytes).len() > 0 ==> !valid_first_scalar(after_valid_prefix(bytes)),
    decreases bytes.len(),
{
    if bytes.len() > 0 && valid_first_scalar(bytes) {
        lemma_first_scalar_alone(bytes);
        let l = length_of_first_scalar(bytes);
        let rest = pop_first_scalar(bytes);
        lemma_valid_prefix(rest);
        let k = valid_prefix_len(rest);
        lemma_decode_concat(take_first_scalar(bytes), rest.subrange(0, k));
        assert(bytes.subrange(0, l + k) =~= take_first_scalar(bytes) + rest.subrange(0, k));
    }
}

/// Valid UTF-8 is its own longest valid prefix.
pub proof fn lemma_valid_prefix_of_valid(bytes: Seq<u8>)
    requires
        valid_utf8(bytes),
    ensures
        valid_prefix_len(bytes) == bytes.len(),
    decreases bytes.len(),
{
    if bytes.len() > 0 {
        lemma_valid_prefix_of_valid(pop_first_scalar(bytes));
    }
}

/// Decoding may stop at the longest valid prefix of what has come and go on
/// from there when more bytes come: the prefix of `x + more` is the prefix
/// of `x` and then the prefix of what `x` left over followed by `more`.
pub proof fn lemma_valid_prefix_resume(x: Seq<u8>, more: Seq<u8>)
    ensures
        valid_prefix_len(x + more) == valid_prefix_len(x) + valid_prefix_len(
            after_valid_prefix(x) + more,
        ),
        after_valid_prefix(x + more) == after_valid_prefix(after_valid_prefix(x) + more),
        valid_prefix_text(x + more) == valid_prefix_text(x) + valid_prefix_text(
            after_valid_prefix(x) + more,
        ),
    decreases x.len(),
{
    if x.len() > 0 && valid_first_scalar(x) {
        lemma_first_scalar_of_concat(x, more);
        lemma_first_scalar_alone(x);
        let l = length_of_first_scalar(x);
        let rest = pop_first_scalar(x);
        lemma_valid_prefix_resume(rest, more);
        lemma_valid_prefix(rest);
        lemma_valid_prefix(rest + more);
        assert(after_valid_prefix(x) =~= after_valid_prefix(rest));
        let k = valid_prefix_len(rest);
        let m = valid_prefix_len(rest + more);
        assert(x.subrange(0, l + k) =~= take_first_scalar(x) + rest.subrange(0, k));
        assert((x + more).subrange(0, l + m) =~= take_first_scalar(x) + (rest + more).subrange(
            0,
            m,
        ));
        lemma_decode_concat(take_first_scalar(x), rest.subrange(0, k));
        lemma_decode_concat(take_first_scalar(x), (rest + more).subrange(0, m));
    } else {
        assert(after_valid_prefix(x) =~= x);
    }
}

/// A sequence that was cut off begins with no valid scalar.
pub proof fn lemma_incomplete_has_no_scalar(t: Seq<u8>)
    requires
        is_incomplete(t),
    ensures
        !valid_first_scalar(t),
        valid_prefix_len(t) == 0,
        after_valid_prefix(t) == t,
{
}

/// The scalar that begins at `bytes[at]`, with the number of its bytes, if a
/// valid one begins there.
pub fn first_scalar(bytes: &[u8], at: usize) -> (r: Option<(u32, usize)>)
    requires
        at < bytes@.len(),
    ensures
        r is Some <==> valid_first_scalar(bytes@.subrange(at as int, bytes@.len() as int)),
        r matches Some((scalar, len)) ==> {
            let rest = bytes@.subrange(at as int, bytes@.len() as int);
            &&& scalar == decode_first_scalar(rest)
            &&& len == length_of_first_scalar(rest)
            &&& at + len <= bytes@.len()
            &&& is_scalar(scalar)
        },
{
    let n = bytes.len();
    let ghost rest = bytes@.subrange(at as int, n as int);
    let b0 = bytes[at];
    if b0 <= 0x7f {
        let scalar = (b0 & 0x7f) as u32;
        assert(scalar <= 0x7f) by (bit_vector)
            requires
                scalar == (b0 & 0x7f) as u32,
        ;
        Some((scalar, 1))
    } else if 0xc0 <= b0 && b0 <= 0xdf {
        if n - at < 2 {
            return None;
        }
        let b1 = bytes[at + 1];
        if !(0x80 <= b1 && b1 <= 0xbf) {
            return None;
        }
        let scalar = (((b0 & 0x1f) as u32) << 6) | ((b1 & 0x3f) as u32);
        assert(scalar <= 0x7ff) by (bit_vector)
            requires
                scalar == (((b0 & 0x1f) as u32) << 6) | ((b1 & 0x3f) as u32),
        ;
        if scalar < 0x80 {
            return None;
        }
        Some((scalar, 2))
    } else if 0xe0 <= b0 && b0 <= 0xef {
        if n - at < 3 {
            return None;
        }
        let b1 = bytes[at + 1];
        let b2 = bytes[at + 2];
        if !(0x80 <= b1 && b1 <= 0xbf) || !(0x80 <= b2 && b2 <= 0xbf) {
            return None;
        }
        let scalar = (((b0 & 0x0f) as u32) << 12) | (((b1 & 0x3f) as u32) << 6) | ((b2
            & 0x3f) as u32);
        assert(scalar <= 0xffff) by (bit_vector)
            requires
                scalar == (((b0 & 0x0f) as u32) << 12) | (((b1 & 0x3f) as u32) << 6) | ((b2
                    & 0x3f) as u32),
        ;
        if scalar < 0x800 || (0xd800 <= scalar && scalar <= 0xdfff) {
            return None;
        }
        Some((scalar, 3))
    } else if 0xf0 <= b0 && b0 <= 0xf7 {
        if n - at < 4 {
            return None;
        }
        let b1 = bytes[at + 1];
        let b2 = bytes[at + 2];
        let b3 = bytes[at + 3];
        if !(0x80 <= b1 && b1 <= 0xbf) || !(0x80 <= b2 && b2 <= 0xbf) || !(0x80 <= b3 && b3
            <= 0xbf) {
            return None;
        }
        let scalar = (((b0 & 0x07) as u32) << 18) | (((b1 & 0x3f) as u32) << 12) | (((b2
            & 0x3f) as u32) << 6) | ((b3 & 0x3f) as u32);
        if scalar < 0x10000 || scalar > 0x10ffff {
            return None;
        }
        Some((scalar, 4))
    } else {
        None
    }
}

/// Decodes the longest valid prefix of `bytes`: the text it encodes, and
/// the number of bytes it takes.
pub fn decode_prefix(bytes: &[u8]) -> (r: (Vec<char>, usize))
    ensures
        r.1 == valid_prefix_len(bytes@),
        r.0@ == valid_prefix_text(bytes@),
{
    let n = bytes.len();
    let mut text: Vec<char> = Vec::new();
    let mut at: usize = 0;
    assert(bytes@.subrange(0, n as int) == bytes@);
    while at < n
        invariant
            at <= n,
            n == bytes@.len(),
            valid_utf8(bytes@.subrange(0, at as int)),
            text@ == decode_utf8(bytes@.subrange(0, at as int)),
            valid_prefix_len(bytes@) == at + valid_prefix_len(bytes@.subrange(at as int, n as int)),
        ensures
            at <= n,
            at == valid_prefix_len(bytes@),
            text@ == decode_utf8(bytes@.subrange(0, at as int)),
        decreases n - at,
    {
        let ghost rest = bytes@.subrange(at as int, n as int);
        match first_scalar(bytes, at) {
            None => {
                break;
            },
            Some((scalar, len)) => {
                match char_from_scalar(scalar) {
                    None => {
                        break;
                    },
                    Some(c) => {
                        proof {
                            lemma_first_scalar_alone(rest);
                            lemma_decode_concat(
                                bytes@.subrange(0, at as int),
                                take_first_scalar(rest),
                            );
                            assert(bytes@.subrange(0, at + len) =~= bytes@.subrange(0, at as int)
                                + take_first_scalar(rest));
                            assert(pop_first_scalar(rest) =~= bytes@.subrange(at + len, n as int));
                        }
                        text.push(c);
                        at = at + len;
                    },
                }
            },
        }
    }
    (text, at)
}

/// Whether `t` is a scalar that was cut off.
pub fn is_incomplete_tail(t: &[u8]) -> (r: bool)
    ensures
        r == is_incomplete(t@),
{
    let n = t.len();
    if n == 0 || n > 3 {
        return false;
    }
    let b0 = t[0];
    if n == 1 {
        return 0xc2 <= b0 && b0 <= 0xf4;
    }
    let fits = second_byte_fits_exec(b0, t[1]);
    if n == 2 {
        return 0xe0 <= b0 && b0 <= 0xf4 && fits;
    }
    let b2 = t[2];
    0xf0 <= b0 && b0 <= 0xf4 && fits && 0x80 <= b2 && b2 <= 0xbf
}

/// Whether `b1` may follow the leading byte `b0` of a scalar of three or
/// four bytes.
pub fn second_byte_fits_exec(b0: u8, b1: u8) -> (r: bool)
    ensures
        r == second_byte_fits(b0, b1),
{
    if b0 == 0xe0 {
        0xa0 <= b1 && b1 <= 0xbf
    } else if b0 == 0xed {
        0x80 <= b1 && b1 <= 0x9f
    } else if b0 == 0xf0 {
        0x90 <= b1 && b1 <= 0xbf
    } else if b0 == 0xf4 {
        0x80 <= b1 && b1 <= 0x8f
    } else {
        0x80 <= b1 && b1 <= 0xbf
    }
}

/// The number of bytes of the invalid sequence that `t` begins with.
pub fn invalid_sequence_len_of(t: &[u8]) -> (r: usize)
    requires
        t@.len() > 0,
    ensures
        r == invalid_sequence_len(t@),
        1 <= r <= 3,
{
    let n = t.len();
    let b0 = t[0];
    if !(0xc2 <= b0 && b0 <= 0xf4) || n < 2 || !second_byte_fits_exec(b0, t[1]) {
        1
    } else if n < 3 || !(0x80 <= t[2] && t[2] <= 0xbf) {
        2
    } else {
        3
    }
}

/// The text that `bytes` encodes, if `bytes` is valid UTF-8.
pub fn decode_text(bytes: &[u8]) -> (r: Option<Vec<char>>)
    ensures
        r is Some <==> valid_utf8(bytes@),
        r matches Some(text) ==> text@ == decode_utf8(bytes@),
{
    let (text, len) = decode_prefix(bytes);
    proof {
        lemma_valid_prefix(bytes@);
        if valid_utf8(bytes@) {
            lemma_valid_prefix_of_valid(bytes@);
        }
        assert(bytes@.subrange(0, bytes@.len() as int) == bytes@);
    }
    if len == bytes.len() {
        Some(text)
    } else {
        None
    }
}

/// A valid first scalar is a Unicode scalar value; it is below 0x80 exactly
/// when it takes one byte, and that byte is then the scalar itself.
pub proof fn lemma_first_scalar_value(s: Seq<u8>)
    requires
        valid_first_scalar(s),
    ensures
        is_scalar(decode_first_scalar(s)),
        (decode_first_scalar(s) as char) as u32 == decode_first_scalar(s),
        decode_first_scalar(s) < 0x80 <==> length_of_first_scalar(s) == 1,
        length_of_first_scalar(s) == 1 ==> s[0] == decode_first_scalar(s),
{
    let b0 = s[0];
    let scalar = decode_first_scalar(s);
    if is_leading_byte_width_1(b0) {
        assert(scalar <= 0x7f && b0 as u32 == scalar) by (bit_vector)
            requires
                scalar == (b0 & 0x7f) as u32,
                b0 <= 0x7f,
        ;
    } else if is_leading_byte_width_2(b0) {
        let b1 = s[1];
        assert(scalar <= 0x7ff) by (bit_vector)
            requires
                scalar == (((b0 & 0x1f) as u32) << 6) | ((b1 & 0x3f) as u32),
        ;
    } else if is_leading_byte_width_3(b0) {
        let b1 = s[1];
        let b2 = s[2];
        assert(scalar <= 0xffff) by (bit_vector)
            requires
                scalar == (((b0 & 0x0f) as u32) << 12) | (((b1 & 0x3f) as u32) << 6) | ((b2
                    & 0x3f) as u32),
        ;
    }
}

/// Text that begins with an ASCII character is encoded by bytes that begin
/// with that character.
pub proof fn lemma_first_byte_of_ascii(v: Seq<u8>)
    requires
        valid_utf8(v),
        v.len() > 0,
        (decode_utf8(v)[0] as u32) < 0x80,
    ensures
        v[0] == decode_utf8(v)[0] as u32,
{
    lemma_first_scalar_value(v);
}

/// Text that ends with an ASCII character is encoded by bytes that end with
/// that character.
pub proof fn lemma_last_byte_of_ascii(v: Seq<u8>)
    requires
        valid_utf8(v),
        v.len() > 0,
        (decode_utf8(v).last() as u32) < 0x80,
    ensures
        v.last() == decode_utf8(v).last() as u32,
    decreases v.len(),
{
    lemma_first_scalar_value(v);
    let rest = pop_first_scalar(v);
    if rest.len() > 0 {
        lemma_last_byte_of_ascii(rest);
    } else {
        assert(decode_utf8(rest).len() == 0);
    }
}

/// The bytes of a valid scalar, cut off before its end, are a scalar that
/// was cut off.
pub proof fn lemma_cut_scalar_incomplete(s: Seq<u8>, k: int)
    requires
        valid_first_scalar(s),
        0 < k < length_of_first_scalar(s),
    ensures
        is_incomplete(s.subrange(0, k)),
{
    let b0 = s[0];
    let b1 = s[1];
    let scalar = decode_first_scalar(s);
    if is_leading_byte_width_2(b0) {
        assert(b0 >= 0xc2) by (bit_vector)
            requires
                0xc0 <= b0 <= 0xdf,
                scalar == (((b0 & 0x1f) as u32) << 6) | ((b1 & 0x3f) as u32),
                scalar >= 0x80,
        ;
    } else if is_leading_byte_width_3(b0) {
        let b2 = s[2];
        assert((b0 == 0xe0 ==> b1 >= 0xa0) && (b0 == 0xed ==> b1 <= 0x9f)) by (bit_vector)
            requires
                0xe0 <= b0 <= 0xef,
                0x80 <= b1 <= 0xbf,
                scalar == (((b0 & 0x0f) as u32) << 12) | (((b1 & 0x3f) as u32) << 6) | ((b2
                    & 0x3f) as u32),
                scalar >= 0x800,
                !(0xd800 <= scalar <= 0xdfff),
        ;
    } else {
        let b2 = s[2];
        let b3 = s[3];
        assert(b0 <= 0xf4 && (b0 == 0xf0 ==> b1 >= 0x90) && (b0 == 0xf4 ==> b1 <= 0x8f))
            by (bit_vector)
            requires
                0xf0 <= b0 <= 0xf7,
                0x80 <= b1 <= 0xbf,
                scalar == (((b0 & 0x07) as u32) << 18) | (((b1 & 0x3f) as u32) << 12) | (((b2
                    & 0x3f) as u32) << 6) | ((b3 & 0x3f) as u32),
                0x10000 <= scalar <= 0x10ffff,
        ;
    }
}

/// What is not malformed has no malformed beginning: however a text is cut,
/// its first part is valid UTF-8 followed at most by a scalar that was cut
/// off.
pub proof fn lemma_prefix_not_malformed(v: Seq<u8>, k: int)
    requires
        !is_malformed(v),
        0 <= k <= v.len(),
    ensures
        !is_malformed(v.subrange(0, k)),
    decreases v.len(),
{
    let p = v.subrange(0, k);
    if k == 0 {
        assert(after_valid_prefix(p).len() == 0);
    } else if valid_first_scalar(v) {
        lemma_first_scalar_len(v);
        let l = length_of_first_scalar(v);
        if k >= l {
            assert(p[0] == v[0]);
            if l >= 2 {
                assert(p[1] == v[1]);
            }
            if l >= 3 {
                assert(p[2] == v[2]);
            }
            if l >= 4 {
                assert(p[3] == v[3]);
            }
            assert(valid_first_scalar(p));
            lemma_first_scalar_len(p);
            lemma_valid_prefix(pop_first_scalar(v));
            lemma_valid_prefix(pop_first_scalar(p));
            assert(pop_first_scalar(p) =~= pop_first_scalar(v).subrange(0, k - l));
            assert(after_valid_prefix(v) =~= after_valid_prefix(pop_first_scalar(v)));
            assert(after_valid_prefix(p) =~= after_valid_prefix(pop_first_scalar(p)));
            lemma_prefix_not_malformed(pop_first_scalar(v), k - l);
        } else {
            lemma_cut_scalar_incomplete(v, k);
            lemma_incomplete_has_no_scalar(p);
        }
    } else {
        assert(after_valid_prefix(v) =~= v);
        assert(is_incomplete(v));
        assert(p[0] == v[0]);
        if k >= 2 {
            assert(p[1] == v[1]);
        }
        if k >= 3 {
            assert(p[2] == v[2]);
        }
        assert(is_incomplete(p));
        lemma_incomplete_has_no_scalar(p);
    }
}

/// A leading byte between 0xC2 and 0xF4 with as many bytes after it as it
/// asks for, the first of them fitting and the others continuation bytes,
/// is one valid scalar.
pub proof fn lemma_fitting_bytes_are_scalar(s: Seq<u8>)
    requires
        0xC2 <= s[0] <= 0xF4,
        s.len() == if s[0] <= 0xDF {
            2int
        } else if s[0] <= 0xEF {
            3int
        } else {
            4int
        },
        is_continuation_byte(s[1]),
        s[0] >= 0xE0 ==> second_byte_fits(s[0], s[1]),
        s.len() >= 3 ==> is_continuation_byte(s[2]),
        s.len() >= 4 ==> is_continuation_byte(s[3]),
    ensures
        valid_first_scalar(s),
        length_of_first_scalar(s) == s.len(),
        valid_utf8(s),
{
    let b0 = s[0];
    let b1 = s[1];
    let scalar = decode_first_scalar(s);
    if b0 <= 0xDF {
        assert(scalar >= 0x80 && scalar <= 0x7ff) by (bit_vector)
            requires
                0xc2 <= b0 <= 0xdf,
                scalar == (((b0 & 0x1f) as u32) << 6) | ((b1 & 0x3f) as u32),
        ;
    } else if b0 <= 0xEF {
        let b2 = s[2];
        assert(scalar >= 0x800 && !(0xd800 <= scalar <= 0xdfff)) by (bit_vector)
            requires
                0xe0 <= b0 <= 0xef,
                0x80 <= b1 <= 0xbf,
                b0 == 0xe0 ==> b1 >= 0xa0,
                b0 == 0xed ==> b1 <= 0x9f,
                scalar == (((b0 & 0x0f) as u32) << 12) | (((b1 & 0x3f) as u32) << 6) | ((b2
                    & 0x3f) as u32),
        ;
    } else {
        let b2 = s[2];
        let b3 = s[3];
        assert(0x10000 <= scalar <= 0x10ffff) by (bit_vector)
            requires
                0xf0 <= b0 <= 0xf4,
                0x80 <= b1 <= 0xbf,
                b0 == 0xf0 ==> b1 >= 0x90,
                b0 == 0xf4 ==> b1 <= 0x8f,
                scalar == (((b0 & 0x07) as u32) << 18) | (((b1 & 0x3f) as u32) << 12) | (((b2
                    & 0x3f) as u32) << 6) | ((b3 & 0x3f) as u32),
        ;
    }
    assert(valid_utf8(pop_first_scalar(s)));
}

/// A byte that fits after the leading byte `b0`.
pub open spec fn fitting_second_byte(b0: u8) -> u8 {
    if b0 == 0xE0 {
        0xA0
    } else if b0 == 0xF0 {
        0x90
    } else {
        0x80
    }
}

/// A scalar that was cut off can be completed: bytes exist that make it
/// one valid scalar. This is what tells it from a malformed sequence.
pub proof fn lemma_incomplete_can_be_completed(t: Seq<u8>)
    requires
        is_incomplete(t),
    ensures
        exists|more: Seq<u8>| more.len() > 0 && #[trigger] valid_utf8(t + more),
{
    let b0 = t[0];
    let width: int = if b0 <= 0xDF {
        2
    } else if b0 <= 0xEF {
        3
    } else {
        4
    };
    let more = Seq::new(
        (width - t.len()) as nat,
        |i: int|
            if t.len() + i == 1 {
                fitting_second_byte(b0)
            } else {
                0x80u8
            },
    );
    let s = t + more;
    lemma_fitting_bytes_are_scalar(s);
}

/// Malformed bytes begin no valid text: whatever follows them, the whole
/// is not valid UTF-8.
pub proof fn lemma_malformed_stays_invalid(bytes: Seq<u8>, more: Seq<u8>)
    requires
        is_malformed(bytes),
    ensures
        !valid_utf8(bytes + more),
{
    let whole = bytes + more;
    if valid_utf8(whole) {
        lemma_valid_prefix_of_valid(whole);
        assert(whole.subrange(0, bytes.len() as int) =~= bytes);
        lemma_prefix_not_malformed(whole, bytes.len() as int);
    }
}

/// Bytes that are not malformed begin some valid text: bytes exist that
/// make the whole valid UTF-8.
pub proof fn lemma_sound_bytes_can_be_completed(bytes: Seq<u8>)
    requires
        !is_malformed(bytes),
    ensures
        exists|more: Seq<u8>| #[trigger] valid_utf8(bytes + more),
{
    lemma_valid_prefix(bytes);
    let valid = bytes.subrange(0, valid_prefix_len(bytes));
    let rest = after_valid_prefix(bytes);
    if rest.len() == 0 {
        let more = Seq::<u8>::empty();
        assert(bytes + more =~= valid);
    } else {
        lemma_incomplete_can_be_completed(rest);
        let more = choose|more: Seq<u8>| more.len() > 0 && #[trigger] valid_utf8(rest + more);
        lemma_decode_concat(valid, rest + more);
        assert(bytes + more =~= valid + (rest + more));
    }
}

} // verus!
