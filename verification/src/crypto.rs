use vstd::prelude::*;

use rand::Rng;
use rand::RngCore;
use sha2::Digest;

use crate::strutil::push_char;

verus! {

/// The alphanumeric alphabet tokens are drawn from, by index:
/// `A`..`Z`, then `a`..`z`, then `0`..`9`.
pub open spec fn char_for_index(i: int) -> char {
    if i < 26 {
        (65 + i) as char
    } else if i < 52 {
        (97 + (i - 26)) as char
    } else {
        (48 + (i - 52)) as char
    }
}

/// An ASCII letter or digit, as produced by `char_for_index`.
pub open spec fn is_token_char(c: char) -> bool {
    (65 <= c as int <= 90) || (97 <= c as int <= 122) || (48 <= c as int <= 57)
}

/// `s` begins with `prefix`.
pub open spec fn has_prefix(s: Seq<char>, prefix: Seq<char>) -> bool {
    s.len() >= prefix.len() && s.subrange(0, prefix.len() as int) == prefix
}

/// A generated token body: every character is from the token alphabet.
pub open spec fn all_token_chars(s: Seq<char>) -> bool {
    forall|i: int| 0 <= i < s.len() ==> is_token_char(s[i])
}

/// Relies on rand's `thread_rng().gen_range(0..n)`: a uniformly random
/// index below `n`. The range must be non-empty or rand panics.
#[verifier::external_body]
fn random_index(n: usize) -> (r: usize)
    requires
        n > 0,
    ensures
        r < n,
{
    rand::thread_rng().gen_range(0..n)
}

/// Relies on rand's `RngCore::fill_bytes`: `len` random bytes.
#[verifier::external_body]
pub fn random_bytes(len: usize) -> (r: Vec<u8>)
    ensures
        r@.len() == len,
{
    let mut v = vec![0u8; len];
    rand::thread_rng().fill_bytes(&mut v);
    v
}

/// Relies on `uuid::Uuid::new_v4`: a fresh random identifier, carried
/// as its 128-bit value.
#[verifier::external_body]
pub fn new_uuid() -> u128 {
    uuid::Uuid::new_v4().as_u128()
}

/// Relies on `chrono::Utc::now`: the wall clock, as unix seconds.
#[verifier::external_body]
pub fn now_seconds() -> i64 {
    chrono::Utc::now().timestamp()
}

/// What SHA-256 yields for a string's UTF-8 bytes, in lower-case hex.
/// The digest takes pages to state, so the result is only named.
pub uninterp spec fn sha256_hex_of(s: Seq<char>) -> Seq<char>;

/// Relies on sha2's SHA-256: a digest of the input bytes alone,
/// rendered as 64 lower-case hex characters.
#[verifier::external_body]
pub fn sha256_hex(s: &str) -> (r: String)
    ensures
        r@ == sha256_hex_of(s@),
        r@.len() == 64,
{
    let mut hasher = sha2::Sha256::new();
    hasher.update(s.as_bytes());
    format!("{:x}", hasher.finalize())
}

/// Draws `length` random characters from the token alphabet.
pub fn generate_random_token(length: usize) -> (r: String)
    ensures
        r@.len() == length,
        all_token_chars(r@),
{
    let mut s = String::new();
    let mut k: usize = 0;
    while k < length
        invariant
            k <= length,
            s@.len() == k,
            all_token_chars(s@),
        decreases length - k,
    {
        let idx = random_index(62);
        let b: u8 = if idx < 26 {
            65 + (idx as u8)
        } else if idx < 52 {
            97 + (idx as u8 - 26)
        } else {
            48 + (idx as u8 - 52)
        };
        proof {
            assert(b == char_for_index(idx as int) as u8);
            assert(is_token_char(b as char));
        }
        push_char(&mut s, b as char);
        k = k + 1;
    }
    s
}

/// The zero-padded six-digit decimal rendering of `v`.
pub open spec fn decimal6(v: int) -> Seq<char> {
    seq![
        (48 + (v / 100000) % 10) as char,
        (48 + (v / 10000) % 10) as char,
        (48 + (v / 1000) % 10) as char,
        (48 + (v / 100) % 10) as char,
        (48 + (v / 10) % 10) as char,
        (48 + v % 10) as char,
    ]
}

pub open spec fn is_digit_char(c: char) -> bool {
    48 <= c as int <= 57
}

/// Renders `v` as exactly six decimal digits, high digit first.
pub fn format_six_digits(v: u32) -> (r: String)
    requires
        v < 1000000,
    ensures
        r@ == decimal6(v as int),
        r@.len() == 6,
        forall|i: int| 0 <= i < 6 ==> is_digit_char(r@[i]),
{
    let mut s = String::new();
    push_char(&mut s, (48 + ((v / 100000) % 10) as u8) as char);
    push_char(&mut s, (48 + ((v / 10000) % 10) as u8) as char);
    push_char(&mut s, (48 + ((v / 1000) % 10) as u8) as char);
    push_char(&mut s, (48 + ((v / 100) % 10) as u8) as char);
    push_char(&mut s, (48 + ((v / 10) % 10) as u8) as char);
    push_char(&mut s, (48 + (v % 10) as u8) as char);
    proof {
        assert(s@ =~= decimal6(v as int));
    }
    s
}

/// A six-digit one-time code: the decimal rendering of a value drawn
/// uniformly from 100000 to 999998, so its first digit is never zero.
pub fn generate_otp_code() -> (r: String)
    ensures
        r@.len() == 6,
        forall|i: int| 0 <= i < 6 ==> is_digit_char(r@[i]),
        exists|v: int| 100000 <= v <= 999998 && r@ == decimal6(v),
{
    let n = random_index(899999);
    let v: u32 = 100000 + (n as u32);
    let r = format_six_digits(v);
    proof {
        assert(100000 <= v as int <= 999998 && r@ == decimal6(v as int));
    }
    r
}

/// A session id: `sess_` followed by 32 characters from the
/// alphanumeric token alphabet.
pub fn generate_session_id() -> (r: String)
    ensures
        has_prefix(r@, "sess_"@),
        r@.len() == "sess_"@.len() + 32,
        all_token_chars(r@.skip("sess_"@.len() as int)),
{
    let t = generate_random_token(32);
    let r = String::from_str("sess_").concat(t.as_str());
    proof {
        assert(r@.subrange(0, "sess_"@.len() as int) =~= "sess_"@);
        assert(r@.skip("sess_"@.len() as int) =~= t@);
    }
    r
}

/// A refresh token: `rt_` followed by 64 characters from the
/// alphanumeric token alphabet.
pub fn generate_refresh_token() -> (r: String)
    ensures
        has_prefix(r@, "rt_"@),
        r@.len() == "rt_"@.len() + 64,
        all_token_chars(r@.skip("rt_"@.len() as int)),
{
    let t = generate_random_token(64);
    let r = String::from_str("rt_").concat(t.as_str());
    proof {
        assert(r@.subrange(0, "rt_"@.len() as int) =~= "rt_"@);
        assert(r@.skip("rt_"@.len() as int) =~= t@);
    }
    r
}

/// A magic-link token: `ml_` followed by 48 characters from the
/// alphanumeric token alphabet.
pub fn generate_magic_link_token() -> (r: String)
    ensures
        has_prefix(r@, "ml_"@),
        r@.len() == "ml_"@.len() + 48,
        all_token_chars(r@.skip("ml_"@.len() as int)),
{
    let t = generate_random_token(48);
    let r = String::from_str("ml_").concat(t.as_str());
    proof {
        assert(r@.subrange(0, "ml_"@.len() as int) =~= "ml_"@);
        assert(r@.skip("ml_"@.len() as int) =~= t@);
    }
    r
}

/// A password-reset token: `reset_` followed by 48 characters from
/// the alphanumeric token alphabet.
pub fn generate_reset_token() -> (r: String)
    ensures
        has_prefix(r@, "reset_"@),
        r@.len() == "reset_"@.len() + 48,
        all_token_chars(r@.skip("reset_"@.len() as int)),
{
    let t = generate_random_token(48);
    let r = String::from_str("reset_").concat(t.as_str());
    proof {
        assert(r@.subrange(0, "reset_"@.len() as int) =~= "reset_"@);
        assert(r@.skip("reset_"@.len() as int) =~= t@);
    }
    r
}

/// An API key: `mk_` followed by 32 characters from the alphanumeric
/// token alphabet.
pub fn generate_api_key() -> (r: String)
    ensures
        has_prefix(r@, "mk_"@),
        r@.len() == "mk_"@.len() + 32,
        all_token_chars(r@.skip("mk_"@.len() as int)),
{
    let t = generate_random_token(32);
    let r = String::from_str("mk_").concat(t.as_str());
    proof {
        assert(r@.subrange(0, "mk_"@.len() as int) =~= "mk_"@);
        assert(r@.skip("mk_"@.len() as int) =~= t@);
    }
    r
}

/// Hashes an API key for storage: only this digest is ever persisted.
pub fn hash_api_key(key: &str) -> (r: String)
    ensures
        r@ == sha256_hex_of(key@),
        r@.len() == 64,
{
    sha256_hex(key)
}

} // verus!
