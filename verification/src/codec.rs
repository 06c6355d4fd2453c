use vstd::prelude::*;
use vstd::utf8::encode_utf8;

use base64::engine::general_purpose::URL_SAFE_NO_PAD;
use base64::Engine;
use rand::RngCore;
use sha2::{Digest, Sha256};

verus! {

// ---------------------------------------------------------------------------
// Base64 with the URL-safe alphabet and no padding
// ---------------------------------------------------------------------------

/// A character of the URL-safe base64 alphabet.
pub open spec fn is_b64url_char(c: char) -> bool {
    ||| ('A' <= c && c <= 'Z')
    ||| ('a' <= c && c <= 'z')
    ||| ('0' <= c && c <= '9')
    ||| c == '-'
    ||| c == '_'
}

/// The length of the unpadded base64 text of `n` bytes.
pub open spec fn b64_len(n: nat) -> nat {
    (4 * n + 2) / 3
}

/// The character of the URL-safe alphabet for the six-bit value `v`.
pub open spec fn b64url_digit(v: u8) -> char {
    if v < 26 {
        ((65 + v) as u8) as char
    } else if v < 52 {
        ((71 + v) as u8) as char
    } else if v < 62 {
        ((v - 4) as u8) as char
    } else if v == 62 {
        '-'
    } else {
        '_'
    }
}

/// The unpadded URL-safe base64 text of `bytes`: each group of three bytes
/// gives four characters, a last group of two gives three, one gives two.
pub open spec fn b64url(bytes: Seq<u8>) -> Seq<char>
    decreases bytes.len(),
{
    if bytes.len() == 0 {
        Seq::empty()
    } else if bytes.len() == 1 {
        seq![b64url_digit(bytes[0] / 4), b64url_digit(((bytes[0] % 4) * 16) as u8)]
    } else if bytes.len() == 2 {
        seq![
            b64url_digit(bytes[0] / 4),
            b64url_digit(((bytes[0] % 4) * 16 + bytes[1] / 16) as u8),
            b64url_digit(((bytes[1] % 16) * 4) as u8),
        ]
    } else {
        seq![
            b64url_digit(bytes[0] / 4),
            b64url_digit(((bytes[0] % 4) * 16 + bytes[1] / 16) as u8),
            b64url_digit(((bytes[1] % 16) * 4 + bytes[2] / 64) as u8),
            b64url_digit(bytes[2] % 64),
        ] + b64url(bytes.skip(3))
    }
}


/// Encodes bytes as unpadded URL-safe base64 (`base64`'s `URL_SAFE_NO_PAD.encode`).
/// The contract states the text (RFC 4648, section 5, without padding), with
/// its length and alphabet. The encoder panics when the length of its output
/// overflows `usize`, which the bound on the input rules out.
#[verifier::external_body]
pub(crate) fn b64url_encode(bytes: &[u8]) -> (s: String)
    requires
        bytes@.len() <= usize::MAX / 2,
    ensures
        s@ == b64url(bytes@),
        s@.len() == b64_len(bytes@.len()),
        forall|i: int| 0 <= i < s@.len() ==> is_b64url_char(#[trigger] s@[i]),
{
    URL_SAFE_NO_PAD.encode(bytes)
}

/// The bytes whose unpadded URL-safe base64 text is `text`, if there are any
/// (there is at most one such sequence: `lemma_b64url_injective`).
pub open spec fn b64url_decoded(text: Seq<char>) -> Option<Seq<u8>> {
    if exists|v: Seq<u8>| b64url(v) == text {
        Some(choose|v: Seq<u8>| b64url(v) == text)
    } else {
        None
    }
}

proof fn lemma_b64url_digit_injective(a: u8, b: u8)
    requires
        a < 64,
        b < 64,
        b64url_digit(a) == b64url_digit(b),
    ensures
        a == b,
{
}

proof fn lemma_b64url_len(v: Seq<u8>)
    ensures
        b64url(v).len() == b64_len(v.len()),
    decreases v.len(),
{
    if v.len() >= 3 {
        lemma_b64url_len(v.skip(3));
    }
}

proof fn lemma_b64_len_injective(n: nat, m: nat)
    requires
        b64_len(n) == b64_len(m),
    ensures
        n == m,
{
    assert(n < m ==> (4 * n + 2) / 3 < (4 * m + 2) / 3) by (nonlinear_arith);
    assert(m < n ==> (4 * m + 2) / 3 < (4 * n + 2) / 3) by (nonlinear_arith);
}

proof fn lemma_group_injective(a0: u8, a1: u8, a2: u8, b0: u8, b1: u8, b2: u8)
    requires
        a0 / 4 == b0 / 4,
        (a0 % 4) * 16 + a1 / 16 == (b0 % 4) * 16 + b1 / 16,
        (a1 % 16) * 4 + a2 / 64 == (b1 % 16) * 4 + b2 / 64,
        a2 % 64 == b2 % 64,
    ensures
        a0 == b0 && a1 == b1 && a2 == b2,
{
    assert(a0 == b0 && a1 == b1 && a2 == b2) by (bit_vector)
        requires
            a0 / 4 == b0 / 4,
            (a0 % 4) * 16 + a1 / 16 == (b0 % 4) * 16 + b1 / 16,
            (a1 % 16) * 4 + a2 / 64 == (b1 % 16) * 4 + b2 / 64,
            a2 % 64 == b2 % 64,
    ;
}

proof fn lemma_pair_injective(a0: u8, a1: u8, b0: u8, b1: u8)
    requires
        a0 / 4 == b0 / 4,
        (a0 % 4) * 16 + a1 / 16 == (b0 % 4) * 16 + b1 / 16,
        (a1 % 16) * 4 == (b1 % 16) * 4,
    ensures
        a0 == b0 && a1 == b1,
{
    assert(a0 == b0 && a1 == b1) by (bit_vector)
        requires
            a0 / 4 == b0 / 4,
            (a0 % 4) * 16 + a1 / 16 == (b0 % 4) * 16 + b1 / 16,
            (a1 % 16) * 4 == (b1 % 16) * 4,
    ;
}

proof fn lemma_single_injective(a0: u8, b0: u8)
    requires
        a0 / 4 == b0 / 4,
        (a0 % 4) * 16 == (b0 % 4) * 16,
    ensures
        a0 == b0,
{
    assert(a0 == b0) by (bit_vector)
        requires
            a0 / 4 == b0 / 4,
            (a0 % 4) * 16 == (b0 % 4) * 16,
    ;
}

/// Two byte sequences with the same base64 text are equal.
pub proof fn lemma_b64url_injective(a: Seq<u8>, b: Seq<u8>)
    requires
        b64url(a) == b64url(b),
    ensures
        a == b,
    decreases a.len(),
{
    lemma_b64url_len(a);
    lemma_b64url_len(b);
    lemma_b64_len_injective(a.len(), b.len());
    let ta = b64url(a);
    if a.len() == 1 {
        assert(ta[0] == b64url(b)[0] && ta[1] == b64url(b)[1]);
        lemma_b64url_digit_injective(a[0] / 4, b[0] / 4);
        lemma_b64url_digit_injective(((a[0] % 4) * 16) as u8, ((b[0] % 4) * 16) as u8);
        lemma_single_injective(a[0], b[0]);
        assert(a =~= b);
    } else if a.len() == 2 {
        assert(ta[0] == b64url(b)[0] && ta[1] == b64url(b)[1] && ta[2] == b64url(b)[2]);
        lemma_b64url_digit_injective(a[0] / 4, b[0] / 4);
        lemma_b64url_digit_injective(
            ((a[0] % 4) * 16 + a[1] / 16) as u8,
            ((b[0] % 4) * 16 + b[1] / 16) as u8,
        );
        lemma_b64url_digit_injective(((a[1] % 16) * 4) as u8, ((b[1] % 16) * 4) as u8);
        lemma_pair_injective(a[0], a[1], b[0], b[1]);
        assert(a =~= b);
    } else if a.len() >= 3 {
        let tb = b64url(b);
        assert(ta[0] == tb[0] && ta[1] == tb[1] && ta[2] == tb[2] && ta[3] == tb[3]);
        lemma_b64url_digit_injective(a[0] / 4, b[0] / 4);
        lemma_b64url_digit_injective(
            ((a[0] % 4) * 16 + a[1] / 16) as u8,
            ((b[0] % 4) * 16 + b[1] / 16) as u8,
        );
        lemma_b64url_digit_injective(
            ((a[1] % 16) * 4 + a[2] / 64) as u8,
            ((b[1] % 16) * 4 + b[2] / 64) as u8,
        );
        lemma_b64url_digit_injective(a[2] % 64, b[2] % 64);
        lemma_group_injective(a[0], a[1], a[2], b[0], b[1], b[2]);
        assert(b64url(a.skip(3)) =~= ta.skip(4));
        assert(b64url(b.skip(3)) =~= tb.skip(4));
        lemma_b64url_injective(a.skip(3), b.skip(3));
        assert(a =~= seq![a[0], a[1], a[2]] + a.skip(3));
        assert(b =~= seq![b[0], b[1], b[2]] + b.skip(3));
    } else {
        assert(a =~= b);
    }
}

/// Decodes unpadded URL-safe base64 (`base64`'s `URL_SAFE_NO_PAD.decode`);
/// `None` when the text is not valid. This engine decodes canonically (no
/// padding, no trailing bits): the text is valid exactly when it is the
/// encoding of some bytes, and those bytes are the result.
#[verifier::external_body]
pub(crate) fn b64url_decode(text: &str) -> (r: Option<Vec<u8>>)
    ensures
        r matches Some(v) ==> b64url(v@) == text@,
        r is None ==> forall|v: Seq<u8>| b64url(v) != text@,
{
    URL_SAFE_NO_PAD.decode(text).ok()
}

// ---------------------------------------------------------------------------
// SHA-256
// ---------------------------------------------------------------------------

/// The SHA-256 digest of `data`.
pub uninterp spec fn sha256(data: Seq<u8>) -> Seq<u8>;

/// The SHA-256 digest (`sha2::Sha256::digest`); the contract names it and
/// gives its length of 32 bytes.
#[verifier::external_body]
pub(crate) fn sha256_digest(data: &[u8]) -> (r: Vec<u8>)
    ensures
        r@ == sha256(data@),
        r@.len() == 32,
{
    Sha256::digest(data).to_vec()
}

// ---------------------------------------------------------------------------
// Randomness
// ---------------------------------------------------------------------------

/// `n` random bytes from the thread's generator (`rand::thread_rng().fill_bytes`).
/// Only the length is stated: the bytes are whatever the generator gave.
#[verifier::external_body]
pub(crate) fn random_bytes(n: usize) -> (r: Vec<u8>)
    ensures
        r@.len() == n,
{
    let mut bytes = vec![0u8; n];
    rand::thread_rng().fill_bytes(&mut bytes);
    bytes
}

// ---------------------------------------------------------------------------
// Percent-encoding
// ---------------------------------------------------------------------------

/// A byte that percent-encoding leaves as it is: an ASCII letter or digit,
/// `-`, `.`, `_` or `~`.
pub open spec fn is_unreserved(b: u8) -> bool {
    ||| (48 <= b && b <= 57)
    ||| (65 <= b && b <= 90)
    ||| (97 <= b && b <= 122)
    ||| b == 45
    ||| b == 46
    ||| b == 95
    ||| b == 126
}

/// The upper-case hexadecimal digit for `d < 16`.
pub open spec fn hex_upper(d: u8) -> char {
    if d < 10 {
        ((48 + d) as u8) as char
    } else {
        ((55 + d) as u8) as char
    }
}

/// The encoding of one byte: itself if unreserved, else `%` and two
/// upper-case hexadecimal digits.
pub open spec fn percent_byte(b: u8) -> Seq<char> {
    if is_unreserved(b) {
        seq![b as char]
    } else {
        seq!['%', hex_upper(b / 16), hex_upper(b % 16)]
    }
}

/// The percent-encoding of `bytes`, byte by byte.
pub open spec fn percent_encoded(bytes: Seq<u8>) -> Seq<char>
    decreases bytes.len(),
{
    if bytes.len() == 0 {
        Seq::empty()
    } else {
        percent_encoded(bytes.drop_last()) + percent_byte(bytes.last())
    }
}

/// Percent-encodes the UTF-8 bytes of `s` (`urlencoding::encode`): every byte
/// but ASCII letters, digits and `-._~` becomes `%` and two upper-case
/// hexadecimal digits.
#[verifier::external_body]
pub(crate) fn url_encode(s: &str) -> (r: String)
    ensures
        r@ == percent_encoded(encode_utf8(s@)),
{
    urlencoding::encode(s).into_owned()
}

// ---------------------------------------------------------------------------
// JSON string literals
// ---------------------------------------------------------------------------

/// The lower-case hexadecimal digit for `d < 16`.
pub open spec fn hex_lower(d: u8) -> char {
    if d < 10 {
        ((48 + d) as u8) as char
    } else {
        ((87 + d) as u8) as char
    }
}

/// How `serde_json` writes one character inside a string literal: `"` and
/// `\` behind a backslash, the short escapes of backspace, tab, line feed,
/// form feed and carriage return, other control characters below U+0020 as
/// `\u00` and two lower-case hexadecimal digits, everything else as it is.
pub open spec fn json_escape_char(c: char) -> Seq<char> {
    if c == '"' {
        seq!['\\', '"']
    } else if c == '\\' {
        seq!['\\', '\\']
    } else if c == '\u{8}' {
        seq!['\\', 'b']
    } else if c == '\t' {
        seq!['\\', 't']
    } else if c == '\n' {
        seq!['\\', 'n']
    } else if c == '\u{c}' {
        seq!['\\', 'f']
    } else if c == '\r' {
        seq!['\\', 'r']
    } else if (c as u32) < 32 {
        seq!['\\', 'u', '0', '0', hex_lower((c as u8) / 16), hex_lower((c as u8) % 16)]
    } else {
        seq![c]
    }
}

/// The characters of `s`, each escaped as in a JSON string literal.
pub open spec fn json_escaped(s: Seq<char>) -> Seq<char>
    decreases s.len(),
{
    if s.len() == 0 {
        Seq::empty()
    } else {
        json_escaped(s.drop_last()) + json_escape_char(s.last())
    }
}

/// The JSON string literal that `serde_json` writes for `s`.
pub open spec fn json_quoted(s: Seq<char>) -> Seq<char> {
    seq!['"'] + json_escaped(s) + seq!['"']
}

/// `s` as a JSON string literal, quoted and escaped (`serde_json::to_string`
/// of a `str`, with its compact formatter). It also states that the call
/// succeeds: a `str` serializes without error, and the serializer writes into
/// a `Vec`, whose writer never fails.
#[verifier::external_body]
pub(crate) fn json_quote(s: &str) -> (r: Option<String>)
    ensures
        r is Some,
        r matches Some(q) ==> q@ == json_quoted(s@),
{
    serde_json::to_string(s).ok()
}

}
