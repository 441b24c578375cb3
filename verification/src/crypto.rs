//! Digests, encodings and random values that the server draws on, each from
//! the crate that provides it.

use base64::Engine;
use rand::RngCore;
use sha2::Digest;
use vstd::prelude::*;
use vstd::string::StringSliceAdditionalSpecFns;

verus! {

/// The SHA-256 digest of a byte string.
pub uninterp spec fn sha256(data: Seq<u8>) -> Seq<u8>;

/// The character of the URL-safe base64 alphabet (RFC 4648, section 5) for a
/// six-bit value: `A-Z`, `a-z`, `0-9`, then `-` and `_`.
pub open spec fn base64_url_digit(n: int) -> char {
    if n < 26 {
        (65 + n) as char
    } else if n < 52 {
        (71 + n) as char
    } else if n < 62 {
        (n - 4) as char
    } else if n == 62 {
        '-'
    } else {
        '_'
    }
}

/// The URL-safe base64 encoding of a byte string (RFC 4648, section 5),
/// without `=` padding: each group of three bytes gives four characters of
/// six bits each, and a final group of one or two bytes gives two or three,
/// its missing low bits zero.
pub open spec fn base64_url_nopad(data: Seq<u8>) -> Seq<char>
    decreases data.len(),
{
    if data.len() == 0 {
        seq![]
    } else if data.len() == 1 {
        seq![base64_url_digit((data[0] as int) / 4), base64_url_digit(((data[0] as int) % 4) * 16)]
    } else if data.len() == 2 {
        seq![
            base64_url_digit((data[0] as int) / 4),
            base64_url_digit(((data[0] as int) % 4) * 16 + (data[1] as int) / 16),
            base64_url_digit(((data[1] as int) % 16) * 4),
        ]
    } else {
        seq![
            base64_url_digit((data[0] as int) / 4),
            base64_url_digit(((data[0] as int) % 4) * 16 + (data[1] as int) / 16),
            base64_url_digit(((data[1] as int) % 16) * 4 + (data[2] as int) / 64),
            base64_url_digit((data[2] as int) % 64),
        ] + base64_url_nopad(data.skip(3))
    }
}

/// A character of the URL-safe base64 alphabet: `A-Z a-z 0-9 - _`.
pub open spec fn is_base64_url_char(c: char) -> bool {
    ||| 'A' <= c <= 'Z'
    ||| 'a' <= c <= 'z'
    ||| '0' <= c <= '9'
    ||| c == '-'
    ||| c == '_'
}

/// The length of an unpadded base64 text for `n` bytes: four characters per
/// three bytes, and two or three for a final group of one or two bytes.
pub open spec fn base64_nopad_len(n: nat) -> nat {
    (n / 3) * 4 + if n % 3 == 0 {
        0nat
    } else if n % 3 == 1 {
        2nat
    } else {
        3nat
    }
}

/// Trusted: `sha2::Sha256::digest` returns the 32-byte SHA-256 digest of its
/// input; the digest is named by `sha256`.
#[verifier::external_body]
fn sha256_digest(data: &[u8]) -> (digest: Vec<u8>)
    ensures
        digest@ == sha256(data@),
        digest@.len() == 32,
{
    sha2::Sha256::digest(data).to_vec()
}

/// Trusted: `URL_SAFE_NO_PAD.encode` of the base64 crate returns the unpadded
/// URL-safe base64 encoding of its input, `base64_url_nopad`, as the crate's
/// alphabet, its `NO_PAD` configuration and its encoder show. The crate panics
/// when the output length overflows `usize`, which the bound on the input
/// rules out.
#[verifier::external_body]
fn base64_url_encode(data: &[u8]) -> (text: String)
    requires
        data@.len() <= usize::MAX / 2,
    ensures
        text@ == base64_url_nopad(data@),
{
    base64::engine::general_purpose::URL_SAFE_NO_PAD.encode(data)
}

/// Trusted: fills 32 bytes from `rand::rng()` (the thread-local generator)
/// with `RngCore::fill_bytes`. Nothing is claimed of the bytes.
#[verifier::external_body]
fn random_bytes() -> (bytes: [u8; 32]) {
    let mut bytes = [0u8; 32];
    rand::rng().fill_bytes(&mut bytes);
    bytes
}

/// A lower-case hexadecimal digit.
pub open spec fn is_lower_hex_digit(c: char) -> bool {
    ('0' <= c <= '9') || ('a' <= c <= 'f')
}

/// The hyphenated text of a random (version 4, RFC 9562 variant) UUID:
/// 36 characters, hyphens at positions 8, 13, 18 and 23, lower-case
/// hexadecimal digits elsewhere, the version digit `4` at position 14, and
/// one of `8 9 a b` at position 19.
pub open spec fn is_uuid_v4_text(s: Seq<char>) -> bool {
    &&& s.len() == 36
    &&& forall|i: int|
        0 <= i < 36 ==> if i == 8 || i == 13 || i == 18 || i == 23 {
            #[trigger] s[i] == '-'
        } else {
            is_lower_hex_digit(s[i])
        }
    &&& s[14] == '4'
    &&& (s[19] == '8' || s[19] == '9' || s[19] == 'a' || s[19] == 'b')
}

/// Trusted: `uuid::Uuid::new_v4()` rendered with `to_string()`. The uuid
/// crate sets the version and variant bits of the random value and writes it
/// in lower-case hyphenated form; the random digits are not claimed.
#[verifier::external_body]
pub(crate) fn new_client_id() -> (id: String)
    ensures
        is_uuid_v4_text(id@),
{
    uuid::Uuid::new_v4().to_string()
}

/// A text that the server hands out as a token or code: the unpadded
/// URL-safe base64 encoding of 32 bytes.
pub open spec fn is_issued_token(t: Seq<char>) -> bool {
    &&& exists|b: Seq<u8>| b.len() == 32 && t == #[trigger] base64_url_nopad(b)
    &&& t.len() == 43
    &&& forall|i: int| 0 <= i < t.len() ==> is_base64_url_char(#[trigger] t[i])
}

/// A fresh random token: 32 random bytes in unpadded URL-safe base64.
pub fn random_token() -> (token: String)
    ensures
        is_issued_token(token@),
{
    let bytes = random_bytes();
    let token = base64_url_encode(&bytes);
    proof {
        lemma_base64_len(bytes@);
        lemma_base64_alphabet(bytes@);
    }
    assert(base64_nopad_len(32) == 43);
    token
}

/// The PKCE `S256` challenge of a code verifier: the unpadded URL-safe base64
/// of the SHA-256 digest of the verifier's UTF-8 bytes.
pub open spec fn pkce_challenge(verifier: Seq<char>) -> Seq<char> {
    base64_url_nopad(sha256(vstd::utf8::encode_utf8(verifier)))
}

/// Computes the PKCE `S256` challenge of `verifier`: the unpadded URL-safe
/// base64 text of the SHA-256 digest of all of the verifier's UTF-8 bytes,
/// however long the verifier is. The digest has 32 bytes, so the challenge
/// has 43 characters.
pub fn s256_challenge(verifier: &str) -> (challenge: String)
    ensures
        challenge@ == pkce_challenge(verifier@),
        challenge@ == base64_url_nopad(sha256(vstd::utf8::encode_utf8(verifier@))),
        challenge@.len() == 43,
{
    let digest = sha256_digest(verifier.as_bytes());
    proof {
        lemma_base64_len(digest@);
    }
    assert(base64_nopad_len(32) == 43);
    base64_url_encode(digest.as_slice())
}

proof fn lemma_digit_in_alphabet(n: int)
    requires
        0 <= n < 64,
    ensures
        is_base64_url_char(base64_url_digit(n)),
{
}

proof fn lemma_digit_injective(n: int, m: int)
    requires
        0 <= n < 64,
        0 <= m < 64,
        base64_url_digit(n) == base64_url_digit(m),
    ensures
        n == m,
{
}

/// The unpadded base64 text of `data` has `base64_nopad_len` characters.
pub proof fn lemma_base64_len(data: Seq<u8>)
    ensures
        base64_url_nopad(data).len() == base64_nopad_len(data.len()),
    decreases data.len(),
{
    if data.len() >= 3 {
        lemma_base64_len(data.skip(3));
        assert(base64_nopad_len(data.len()) == 4 + base64_nopad_len((data.len() - 3) as nat)) by {
            assert((data.len() - 3) / 3 == data.len() / 3 - 1);
            assert((data.len() - 3) % 3 == data.len() % 3);
        }
    }
}

/// Every character of an unpadded base64 text is in the URL-safe alphabet.
pub proof fn lemma_base64_alphabet(data: Seq<u8>)
    ensures
        forall|i: int|
            0 <= i < base64_url_nopad(data).len() ==> is_base64_url_char(
                #[trigger] base64_url_nopad(data)[i],
            ),
    decreases data.len(),
{
    if data.len() == 0 {
    } else if data.len() == 1 {
        lemma_digit_in_alphabet((data[0] as int) / 4);
        lemma_digit_in_alphabet(((data[0] as int) % 4) * 16);
    } else if data.len() == 2 {
        lemma_digit_in_alphabet((data[0] as int) / 4);
        lemma_digit_in_alphabet(((data[0] as int) % 4) * 16 + (data[1] as int) / 16);
        lemma_digit_in_alphabet(((data[1] as int) % 16) * 4);
    } else {
        lemma_base64_alphabet(data.skip(3));
        lemma_digit_in_alphabet((data[0] as int) / 4);
        lemma_digit_in_alphabet(((data[0] as int) % 4) * 16 + (data[1] as int) / 16);
        lemma_digit_in_alphabet(((data[1] as int) % 16) * 4 + (data[2] as int) / 64);
        lemma_digit_in_alphabet((data[2] as int) % 64);
        let head = seq![
            base64_url_digit((data[0] as int) / 4),
            base64_url_digit(((data[0] as int) % 4) * 16 + (data[1] as int) / 16),
            base64_url_digit(((data[1] as int) % 16) * 4 + (data[2] as int) / 64),
            base64_url_digit((data[2] as int) % 64),
        ];
        let tail = base64_url_nopad(data.skip(3));
        assert forall|i: int| 0 <= i < (head + tail).len() implies is_base64_url_char(
            #[trigger] (head + tail)[i],
        ) by {
            if i >= 4 {
                assert((head + tail)[i] == tail[i - 4]);
            }
        }
    }
}

proof fn lemma_group_injective(a0: u8, a1: u8, a2: u8, b0: u8, b1: u8, b2: u8)
    requires
        a0 / 4 == b0 / 4,
        (a0 % 4) * 16 + a1 / 16 == (b0 % 4) * 16 + b1 / 16,
        (a1 % 16) * 4 + a2 / 64 == (b1 % 16) * 4 + b2 / 64,
        a2 % 64 == b2 % 64,
    ensures
        a0 == b0,
        a1 == b1,
        a2 == b2,
{
    assert(a0 == b0 && a1 == b1 && a2 == b2) by (nonlinear_arith)
        requires
            a0 / 4 == b0 / 4,
            (a0 % 4) * 16 + a1 / 16 == (b0 % 4) * 16 + b1 / 16,
            (a1 % 16) * 4 + a2 / 64 == (b1 % 16) * 4 + b2 / 64,
            a2 % 64 == b2 % 64,
            a0 < 256,
            a1 < 256,
            a2 < 256,
            b0 < 256,
            b1 < 256,
            b2 < 256,
    ;
}

/// Unpadded base64 is injective: different byte strings give different texts.
pub proof fn lemma_base64_injective(x: Seq<u8>, y: Seq<u8>)
    requires
        base64_url_nopad(x) == base64_url_nopad(y),
    ensures
        x == y,
    decreases x.len(),
{
    lemma_base64_len(x);
    lemma_base64_len(y);
    assert(x.len() == y.len()) by {
        let n = x.len();
        let m = y.len();
        assert(base64_nopad_len(n) == base64_nopad_len(m));
        assert(n / 3 == m / 3 && n % 3 == m % 3) by (nonlinear_arith)
            requires
                (n / 3) * 4 + (if n % 3 == 0 {
                    0int
                } else if n % 3 == 1 {
                    2int
                } else {
                    3int
                }) == (m / 3) * 4 + (if m % 3 == 0 {
                    0int
                } else if m % 3 == 1 {
                    2int
                } else {
                    3int
                }),
        ;
    }
    let ex = base64_url_nopad(x);
    let ey = base64_url_nopad(y);
    if x.len() == 0 {
        assert(x =~= y);
    } else if x.len() == 1 {
        assert(ex[0] == ey[0] && ex[1] == ey[1]);
        lemma_digit_injective((x[0] as int) / 4, (y[0] as int) / 4);
        lemma_digit_injective(((x[0] as int) % 4) * 16, ((y[0] as int) % 4) * 16);
        assert(x[0] == y[0]);
        assert(x =~= y);
    } else if x.len() == 2 {
        assert(ex[0] == ey[0] && ex[1] == ey[1] && ex[2] == ey[2]);
        lemma_digit_injective((x[0] as int) / 4, (y[0] as int) / 4);
        lemma_digit_injective(((x[0] as int) % 4) * 16 + (x[1] as int) / 16, ((y[0] as int) % 4) * 16 + (y[1] as int) / 16);
        lemma_digit_injective(((x[1] as int) % 16) * 4, ((y[1] as int) % 16) * 4);
        lemma_group_injective(x[0], x[1], 0, y[0], y[1], 0);
        assert(x =~= y);
    } else {
        assert(ex[0] == ey[0] && ex[1] == ey[1] && ex[2] == ey[2] && ex[3] == ey[3]);
        lemma_digit_injective((x[0] as int) / 4, (y[0] as int) / 4);
        lemma_digit_injective(((x[0] as int) % 4) * 16 + (x[1] as int) / 16, ((y[0] as int) % 4) * 16 + (y[1] as int) / 16);
        lemma_digit_injective(((x[1] as int) % 16) * 4 + (x[2] as int) / 64, ((y[1] as int) % 16) * 4 + (y[2] as int) / 64);
        lemma_digit_injective((x[2] as int) % 64, (y[2] as int) % 64);
        lemma_group_injective(x[0], x[1], x[2], y[0], y[1], y[2]);
        assert(base64_url_nopad(x.skip(3)) =~= ex.skip(4));
        assert(base64_url_nopad(y.skip(3)) =~= ey.skip(4));
        lemma_base64_injective(x.skip(3), y.skip(3));
        assert(x =~= y) by {
            assert forall|i: int| 0 <= i < x.len() implies x[i] == y[i] by {
                if i >= 3 {
                    assert(x[i] == x.skip(3)[i - 3]);
                    assert(y[i] == y.skip(3)[i - 3]);
                }
            }
        }
    }
}

} // verus!
