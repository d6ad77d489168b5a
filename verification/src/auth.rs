//! Stateless admin authentication.
//!
//! A session is an HMAC-SHA256 signed token `<expiry>.<hex tag>` kept in an
//! `HttpOnly` cookie. The signing key is derived from the admin password, so a
//! token survives restarts but cannot be forged without the password.

use vstd::prelude::*;
use hmac::Mac;
use sha2::Digest;
use vstd::utf8::encode_utf8;
use crate::num::{parse_i64, signed_decimal};
use crate::text::{ascii_lower, split_once};

verus! {

/// The SHA-256 digest of `data` (computed by the `sha2` crate).
pub uninterp spec fn sha256(data: Seq<u8>) -> Seq<u8>;

/// The HMAC-SHA256 tag of `msg` under `key` (computed by the `hmac` crate).
pub uninterp spec fn hmac_sha256(key: Seq<u8>, msg: Seq<u8>) -> Seq<u8>;

/// The lower-case hexadecimal digit for `n < 16`.
pub open spec fn hex_digit(n: nat) -> char {
    if n < 10 {
        (n + 48) as char
    } else {
        (n + 87) as char
    }
}

/// Lower-case hexadecimal text of `data`, two digits per byte.
pub open spec fn hex_lower(data: Seq<u8>) -> Seq<char>
    decreases data.len(),
{
    if data.len() == 0 {
        seq![]
    } else {
        hex_lower(data.drop_last()) + seq![
            hex_digit((data.last() / 16) as nat),
            hex_digit((data.last() % 16) as nat),
        ]
    }
}

/// The UTF-8 bytes of a text.
pub open spec fn utf8(s: Seq<char>) -> Seq<u8> {
    encode_utf8(s)
}

/// The signing key derived from an admin password.
pub open spec fn spec_signing_key(password: Seq<char>) -> Seq<u8> {
    sha256(utf8(password))
}

/// The token that grants admin access until `expiry` (unix seconds).
pub open spec fn spec_token(key: Seq<u8>, expiry: i64) -> Seq<char> {
    let exp = signed_decimal(expiry as int);
    exp + seq!['.'] + hex_lower(hmac_sha256(key, utf8(exp)))
}

/// Whether `token` is accepted at time `now`: it is `<expiry>.<tag>` with a
/// decimal `expiry` later than `now`, and `tag` is (case-insensitively) the
/// hex HMAC of the expiry text under `key`.
pub open spec fn token_valid_at(key: Seq<u8>, token: Seq<char>, now: i64) -> bool {
    match split_once(token, '.') {
        None => false,
        Some((exp, tag)) => match parse_i64(exp) {
            None => false,
            Some(expiry) => now < expiry && hex_lower(hmac_sha256(key, utf8(exp))) == ascii_lower(
                tag,
            ),
        },
    }
}

/// Whether two passwords match, as decided by comparing their digests.
pub open spec fn passwords_match(stored: Seq<char>, provided: Seq<char>) -> bool {
    sha256(utf8(stored)) == sha256(utf8(provided))
}

#[verifier::external_type_specification]
#[verifier::external_body]
pub struct ExSystemTime(std::time::SystemTime);

/// `SystemTime::now`: the wall clock. Nothing is stated of the time it reads.
#[verifier::external_body]
fn system_now() -> std::time::SystemTime {
    std::time::SystemTime::now()
}

/// `SystemTime::duration_since(UNIX_EPOCH)`, `None` for a time before the
/// epoch. Nothing is stated of the duration, which depends on the clock.
#[verifier::external_body]
fn since_unix_epoch(t: &std::time::SystemTime) -> Option<std::time::Duration> {
    t.duration_since(std::time::UNIX_EPOCH).ok()
}

/// `Duration::as_secs`: the whole seconds of a duration. The duration is
/// opaque here, so nothing is stated of the number.
#[verifier::external_body]
fn duration_secs(d: &std::time::Duration) -> u64 {
    d.as_secs()
}

/// `sha2::Sha256::digest`: the digest is named [`sha256`]; the crate's
/// `Sha256` has a 32-byte output.
#[verifier::external_body]
fn sha256_digest(data: &[u8]) -> (r: Vec<u8>)
    ensures
        r@ == sha256(data@),
        r@.len() == 32,
{
    sha2::Sha256::digest(data).to_vec()
}

/// `hmac::Hmac::<Sha256>::new_from_slice(key)`, `update(msg)`, `finalize()`:
/// the tag is named [`hmac_sha256`]. `new_from_slice` accepts a key of any
/// length for HMAC, so the `expect` never fires.
#[verifier::external_body]
fn hmac_sha256_tag(key: &[u8], msg: &[u8]) -> (r: Vec<u8>)
    ensures
        r@ == hmac_sha256(key@, msg@),
{
    let mut mac = hmac::Hmac::<sha2::Sha256>::new_from_slice(key).expect("HMAC key length");
    mac.update(msg);
    mac.finalize().into_bytes().to_vec()
}

/// `hex::encode`: two lower-case hexadecimal digits per byte, in order.
#[verifier::external_body]
fn hex_encode(data: &[u8]) -> (r: String)
    ensures
        r@ == hex_lower(data@),
{
    hex::encode(data)
}

/// Unix time in seconds from the whole seconds elapsed since the epoch, as
/// a signed number (`None`, a clock before 1970, reads as 0). The seconds
/// are taken as they are, unscaled, and wrap as `as i64` does.
pub fn secs_since_epoch(elapsed: Option<u64>) -> (r: i64)
    ensures
        r == match elapsed {
            Some(s) => s as i64,
            None => 0i64,
        },
        match elapsed {
            Some(s) => s <= i64::MAX ==> r == s,
            None => r == 0,
        },
{
    match elapsed {
        Some(s) => s as i64,
        None => 0,
    }
}

/// The current time in unix seconds (0 when the clock reads before 1970).
pub fn now_secs() -> i64 {
    let t = system_now();
    let elapsed = match since_unix_epoch(&t) {
        Some(d) => Some(duration_secs(&d)),
        None => None,
    };
    secs_since_epoch(elapsed)
}

/// Derive a stable 32-byte signing key from the admin password.
pub fn signing_key(admin_password: &str) -> (r: Vec<u8>)
    ensures
        r@ == spec_signing_key(admin_password@),
        r@.len() == 32,
{
    sha256_digest(admin_password.as_bytes())
}

/// Create an `expiry.hmac` token valid until `expiry` (unix seconds).
pub fn make_token(key: &[u8], expiry: i64) -> (r: String)
    ensures
        r@ == spec_token(key@, expiry),
{
    let exp = crate::num::i64_to_string(expiry);
    let tag = hmac_sha256_tag(key, exp.as_str().as_bytes());
    let hex = hex_encode(tag.as_slice());
    proof {
        reveal_strlit(".");
    }
    crate::text::concat3(exp.as_str(), ".", hex.as_str())
}

proof fn lemma_utf8_injective(a: Seq<char>, b: Seq<char>)
    requires
        encode_utf8(a) == encode_utf8(b),
    ensures
        a == b,
{
    vstd::utf8::encode_utf8_decode_utf8(a);
    vstd::utf8::encode_utf8_decode_utf8(b);
}

/// Verify a token at time `now`: it must be correctly signed and not expired.
pub fn verify_token_at(key: &[u8], token: &str, now: i64) -> (r: bool)
    ensures
        r == token_valid_at(key@, token@, now),
{
    let Some((exp, tag)) = crate::text::split_once_str(token, '.') else {
        return false;
    };
    let Some(expiry) = crate::num::parse_i64_str(exp) else {
        return false;
    };
    if expiry <= now {
        return false;
    }
    let mac = hmac_sha256_tag(key, exp.as_bytes());
    let expected = hex_encode(mac.as_slice());
    let lowered = crate::text::to_ascii_lower(tag);
    let r = constant_time_eq(expected.as_str().as_bytes(), lowered.as_str().as_bytes());
    proof {
        if r {
            lemma_utf8_injective(expected@, lowered@);
        }
    }
    r
}

/// Verify a token against the current time: it must be correctly signed and
/// not expired.
pub fn verify_token(key: &[u8], token: &str) -> (r: bool)
    ensures
        exists|now: i64| r == token_valid_at(key@, token@, now),
{
    let now = now_secs();
    verify_token_at(key, token, now)
}

/// Constant-time password check (avoids leaking a length/prefix timing signal).
pub fn check_password(stored: &str, provided: &str) -> (r: bool)
    ensures
        r == passwords_match(stored@, provided@),
{
    let a = sha256_digest(stored.as_bytes());
    let b = sha256_digest(provided.as_bytes());
    constant_time_eq(a.as_slice(), b.as_slice())
}

/// Byte-wise equality that looks at every byte whatever the first mismatch.
pub fn constant_time_eq(a: &[u8], b: &[u8]) -> (r: bool)
    ensures
        r == (a@ == b@),
{
    if a.len() != b.len() {
        return false;
    }
    let mut diff: u8 = 0;
    let mut i: usize = 0;
    while i < a.len()
        invariant
            a@.len() == b@.len(),
            i <= a@.len(),
            (diff == 0) == (forall|j: int| 0 <= j < i ==> a@[j] == b@[j]),
        decreases a@.len() - i,
    {
        let x = a[i];
        let y = b[i];
        let nd = diff | (x ^ y);
        assert((nd == 0) == (diff == 0 && x == y)) by (bit_vector)
            requires
                nd == diff | (x ^ y),
        ;
        diff = nd;
        i = i + 1;
    }
    assert((forall|j: int| 0 <= j < a@.len() ==> a@[j] == b@[j]) ==> a@ =~= b@);
    diff == 0
}

proof fn lemma_hex_lower_is_lower(data: Seq<u8>)
    ensures
        ascii_lower(hex_lower(data)) == hex_lower(data),
        !hex_lower(data).contains('.'),
    decreases data.len(),
{
    let h = hex_lower(data);
    assert forall|i: int| 0 <= i < h.len() implies crate::text::ascii_lower_char(h[i]) == h[i]
        && h[i] != '.' by {
        lemma_hex_lower_chars(data, i);
    }
    assert(ascii_lower(h) =~= h);
}

proof fn lemma_hex_lower_chars(data: Seq<u8>, i: int)
    requires
        0 <= i < hex_lower(data).len(),
    ensures
        crate::text::ascii_lower_char(hex_lower(data)[i]) == hex_lower(data)[i],
        hex_lower(data)[i] != '.',
        hex_lower(data).len() == 2 * data.len(),
    decreases data.len(),
{
    let h = hex_lower(data);
    let p = hex_lower(data.drop_last());
    lemma_hex_len(data.drop_last());
    let hi = (data.last() / 16) as nat;
    let lo = (data.last() % 16) as nat;
    if i < p.len() {
        lemma_hex_lower_chars(data.drop_last(), i);
        assert(h[i] == p[i]);
    } else if i == p.len() {
        assert(h[i] == hex_digit(hi));
        assert(hex_digit(hi) as u32 == if hi < 10 { hi + 48 } else { hi + 87 });
    } else {
        assert(h[i] == hex_digit(lo));
        assert(hex_digit(lo) as u32 == if lo < 10 { lo + 48 } else { lo + 87 });
    }
}

proof fn lemma_hex_len(data: Seq<u8>)
    ensures
        hex_lower(data).len() == 2 * data.len(),
    decreases data.len(),
{
    if data.len() > 0 {
        lemma_hex_len(data.drop_last());
    }
}

/// A token made with a key is accepted under that key exactly until its
/// expiry: at any time before `expiry`, and at no time from `expiry` on.
pub proof fn lemma_token_roundtrip(key: Seq<u8>, expiry: i64, now: i64)
    ensures
        token_valid_at(key, spec_token(key, expiry), now) == (now < expiry),
{
    let exp = signed_decimal(expiry as int);
    let tag = hex_lower(hmac_sha256(key, utf8(exp)));
    crate::num::lemma_signed_decimal_no(expiry as int, '.');
    crate::text::lemma_split_once_concat(exp, '.', tag);
    crate::num::lemma_parse_signed_decimal(expiry);
    lemma_hex_lower_is_lower(hmac_sha256(key, utf8(exp)));
}

/// A password always matches itself.
pub proof fn lemma_password_matches_itself(password: Seq<char>)
    ensures
        passwords_match(password, password),
{
}

} // verus!
