//! The calls into `std` and outside crates that the library's logic makes:
//! randomness, clocks, SHA-256, Base64 and Unicode case mapping.
use base64::Engine;
use rand::RngCore;
use sha2::Digest;
use vstd::prelude::*;

verus! {

/// Monotonic clock reading (`std::time::Instant`), used as the origin of a server's clock.
#[verifier::external_type_specification]
#[verifier::external_body]
pub struct ExInstant(std::time::Instant);

/// Calls `rand::thread_rng().fill_bytes` on a buffer of `n` zero bytes.
/// Claims only that `n` bytes come back; their values are left unsaid (they are random).
#[verifier::external_body]
pub fn random_bytes(n: usize) -> (r: Vec<u8>)
    ensures
        r@.len() == n,
{
    let mut buf = vec![0u8; n];
    rand::thread_rng().fill_bytes(&mut buf);
    buf
}

/// Calls `std::time::Instant::now()`. Nothing is claimed of the reading.
#[verifier::external_body]
pub fn instant_now() -> (r: std::time::Instant) {
    std::time::Instant::now()
}

/// Calls `Instant::elapsed` on `origin` and returns `Duration::as_millis` of it.
/// Nothing is claimed of the value: it depends on the time of the call.
#[verifier::external_body]
pub fn elapsed_millis(origin: &std::time::Instant) -> (r: u128) {
    origin.elapsed().as_millis()
}

/// Calls `SystemTime::now().duration_since(UNIX_EPOCH)` and returns its whole seconds
/// (0 when the system clock is before the epoch, as `unwrap_or_default` gives).
/// Nothing is claimed of the value: it is the wall-clock time.
#[verifier::external_body]
pub fn unix_time_secs() -> (r: u64) {
    std::time::SystemTime::now().duration_since(std::time::UNIX_EPOCH).unwrap_or_default().as_secs()
}

/// The SHA-256 digest of a byte sequence (what `sha2::Sha256::digest` computes).
pub uninterp spec fn sha256_spec(data: Seq<u8>) -> Seq<u8>;

/// Calls `sha2::Sha256::digest`. Claims that the result is the SHA-256 digest of
/// `data` (a function of `data` alone) and that it is 32 bytes long.
#[verifier::external_body]
pub fn sha256(data: &[u8]) -> (r: Vec<u8>)
    ensures
        r@ == sha256_spec(data@),
        r@.len() == 32,
{
    sha2::Sha256::digest(data).to_vec()
}

/// The URL-safe Base64 alphabet (RFC 4648 §5): `A-Z a-z 0-9 - _`.
pub open spec fn b64url_char(v: nat) -> char {
    if v < 26 {
        (v + 65) as char
    } else if v < 52 {
        (v + 71) as char
    } else if v < 62 {
        (v - 4) as char
    } else if v == 62 {
        '-'
    } else {
        '_'
    }
}

/// URL-safe Base64 without padding: every 3 bytes give 4 characters; a trailing
/// group of 1 or 2 bytes gives 2 or 3 characters.
pub open spec fn b64url_nopad(bytes: Seq<u8>) -> Seq<char>
    decreases bytes.len(),
{
    if bytes.len() == 0 {
        Seq::empty()
    } else if bytes.len() == 1 {
        let b0 = bytes[0] as nat;
        seq![b64url_char(b0 / 4), b64url_char((b0 % 4) * 16)]
    } else if bytes.len() == 2 {
        let b0 = bytes[0] as nat;
        let b1 = bytes[1] as nat;
        seq![b64url_char(b0 / 4), b64url_char((b0 % 4) * 16 + b1 / 16), b64url_char((b1 % 16) * 4)]
    } else {
        let b0 = bytes[0] as nat;
        let b1 = bytes[1] as nat;
        let b2 = bytes[2] as nat;
        seq![
            b64url_char(b0 / 4),
            b64url_char((b0 % 4) * 16 + b1 / 16),
            b64url_char((b1 % 16) * 4 + b2 / 64),
            b64url_char(b2 % 64),
        ] + b64url_nopad(bytes.skip(3))
    }
}

/// Calls `base64::engine::general_purpose::URL_SAFE_NO_PAD.encode`. Claims that the
/// result is the RFC 4648 URL-safe encoding of `data` without `=` padding. The crate
/// panics when the encoded length overflows `usize`; `requires` keeps inputs far below.
#[verifier::external_body]
pub fn b64url_encode(data: &[u8]) -> (r: String)
    requires
        data@.len() <= 0x1000_0000,
    ensures
        r@ == b64url_nopad(data@),
{
    base64::engine::general_purpose::URL_SAFE_NO_PAD.encode(data)
}

/// Full Unicode uppercase mapping of a string (what `str::to_uppercase` returns).
pub uninterp spec fn to_uppercase_spec(s: Seq<char>) -> Seq<char>;

/// Every character is ASCII (code point below 128).
pub open spec fn is_ascii_text(s: Seq<char>) -> bool {
    forall|i: int| 0 <= i < s.len() ==> (#[trigger] s[i] as u32) < 128
}

/// ASCII-only uppercase mapping: `a-z` become `A-Z`, every other character stays.
pub open spec fn ascii_upper_char(c: char) -> char {
    if 'a' as u32 <= c as u32 <= 'z' as u32 {
        ((c as u32) - 32) as char
    } else {
        c
    }
}

/// `ascii_upper_char` applied to every character.
pub open spec fn ascii_upper(s: Seq<char>) -> Seq<char> {
    s.map_values(|c: char| ascii_upper_char(c))
}

/// Calls `str::to_uppercase`. Claims that the result depends on `s` alone and, for
/// an all-ASCII `s`, maps `a-z` to `A-Z` and keeps every other character; the
/// Unicode mapping of other characters is left unsaid.
#[verifier::external_body]
pub fn to_uppercase(s: &str) -> (r: String)
    ensures
        r@ == to_uppercase_spec(s@),
        is_ascii_text(s@) ==> r@ == ascii_upper(s@),
{
    s.to_uppercase()
}

} // verus!
