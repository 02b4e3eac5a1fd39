use vstd::prelude::*;

use crate::crypto::{generate_random_token, is_token_char, random_bytes};
use crate::error::AuthError;
use crate::strutil::{push_char, seq_contains_char, str_contains_char, str_eq};

verus! {

/// The value of one hex digit, upper or lower case.
pub open spec fn hex_val(c: char) -> Option<int> {
    if 48 <= c as int <= 57 {
        Some(c as int - 48)
    } else if 97 <= c as int <= 102 {
        Some(c as int - 87)
    } else if 65 <= c as int <= 70 {
        Some(c as int - 55)
    } else {
        None
    }
}

/// The lower-case hex digit for a value below 16.
pub open spec fn hex_digit(v: int) -> char {
    if v < 10 {
        (48 + v) as char
    } else {
        (87 + v) as char
    }
}

/// The lower-case hex rendering of a byte sequence, two digits a byte.
pub open spec fn hex_of_bytes(bs: Seq<u8>) -> Seq<char>
    decreases bs.len(),
{
    if bs.len() == 0 {
        Seq::empty()
    } else {
        hex_of_bytes(bs.drop_last()) + seq![
            hex_digit(bs.last() as int / 16),
            hex_digit(bs.last() as int % 16),
        ]
    }
}

/// The bytes read from a string two characters at a time; a chunk that is
/// not two hex digits is skipped, and a trailing odd character ignored.
pub open spec fn hex_pairs(s: Seq<char>) -> Seq<u8>
    decreases s.len(),
{
    if s.len() < 2 {
        Seq::empty()
    } else {
        let rest = hex_pairs(s.skip(2));
        match (hex_val(s[0]), hex_val(s[1])) {
            (Some(h), Some(l)) => seq![(16 * h + l) as u8] + rest,
            _ => rest,
        }
    }
}

/// Renders bytes as lower-case hex.
pub fn bytes_to_hex(bs: &Vec<u8>) -> (r: String)
    ensures
        r@ == hex_of_bytes(bs@),
        r@.len() == 2 * bs@.len(),
{
    let n = bs.len();
    let mut s = String::new();
    let mut i: usize = 0;
    while i < n
        invariant
            n == bs@.len(),
            i <= n,
            s@ == hex_of_bytes(bs@.subrange(0, i as int)),
            s@.len() == 2 * i,
        decreases n - i,
    {
        let b = bs[i];
        let hi = b / 16;
        let lo = b % 16;
        push_char(&mut s, if hi < 10 { (48 + hi) as char } else { (87 + hi) as char });
        push_char(&mut s, if lo < 10 { (48 + lo) as char } else { (87 + lo) as char });
        proof {
            assert(bs@.subrange(0, i as int + 1).drop_last() =~= bs@.subrange(0, i as int));
            assert(bs@.subrange(0, i as int + 1).last() == bs@[i as int]);
        }
        i = i + 1;
    }
    proof {
        assert(bs@.subrange(0, n as int) =~= bs@);
    }
    s
}

/// Reads a hex string back to bytes, with `hex_pairs` semantics.
pub fn hex_to_bytes(s: &str) -> (r: Vec<u8>)
    ensures
        r@ == hex_pairs(s@),
{
    let len = s.unicode_len();
    let mut out: Vec<u8> = Vec::new();
    let mut i: usize = 0;
    proof {
        assert(s@.skip(0) =~= s@);
    }
    while i < len && i + 1 < len
        invariant
            len == s@.len(),
            i <= len,
            i % 2 == 0,
            hex_pairs(s@) == out@ + hex_pairs(s@.skip(i as int)),
        decreases len - i,
    {
        let c0 = s.get_char(i);
        let c1 = s.get_char(i + 1);
        let h = hex_digit_value(c0);
        let l = hex_digit_value(c1);
        proof {
            assert(s@.skip(i as int)[0] == s@[i as int]);
            assert(s@.skip(i as int)[1] == s@[i as int + 1]);
            assert(s@.skip(i as int).skip(2) =~= s@.skip(i as int + 2));
        }
        match (h, l) {
            (Some(hv), Some(lv)) => {
                out.push(16 * hv + lv);
            },
            _ => {},
        }
        i = i + 2;
    }
    proof {
        assert(hex_pairs(s@.skip(i as int)) =~= Seq::<u8>::empty());
    }
    out
}

/// Reads one hex digit.
fn hex_digit_value(c: char) -> (r: Option<u8>)
    ensures
        match r {
            Some(v) => hex_val(c) == Some(v as int) && v < 16,
            None => hex_val(c) is None,
        },
{
    let u = c as u32;
    if 48 <= u && u <= 57 {
        Some((u - 48) as u8)
    } else if 97 <= u && u <= 102 {
        Some((u - 87) as u8)
    } else if 65 <= u && u <= 70 {
        Some((u - 55) as u8)
    } else {
        None
    }
}

/// What `totp_rs::TOTP::get_url` yields for a SHA-1, six-digit,
/// 30-second-step configuration: a deterministic `otpauth://` URL of the
/// secret, issuer and account. Only named here.
pub uninterp spec fn totp_url_of(secret: Seq<u8>, issuer: Seq<char>, account: Seq<char>) -> Seq<char>;

/// Relies on `totp_rs::TOTP::new` and `get_url`: with six digits, a
/// secret of at least 16 bytes and no colon in issuer or account,
/// construction cannot fail, and the URL depends on these arguments
/// alone.
#[verifier::external_body]
fn totp_provisioning_url(secret: &Vec<u8>, issuer: &String, account: &String) -> (r: String)
    requires
        secret@.len() >= 16,
        !seq_contains_char(issuer@, ':'),
        !seq_contains_char(account@, ':'),
    ensures
        r@ == totp_url_of(secret@, issuer@, account@),
{
    let totp = totp_rs::TOTP::new(
        totp_rs::Algorithm::SHA1,
        6,
        1,
        30,
        secret.clone(),
        Some(issuer.clone()),
        account.clone(),
    ).unwrap();
    totp.get_url()
}

/// Relies on `totp_rs::TOTP::new`, `generate` and the system clock: the
/// codes of the previous, current and next 30-second steps — the
/// one-step tolerance window. They depend on the clock, so only their
/// shape is stated: six decimal digits each, from the `result % 10^6`
/// formatting. Nothing is returned only when the system clock reads
/// before the epoch.
#[verifier::external_body]
fn totp_window_codes(secret: &Vec<u8>) -> (r: Option<(String, String, String)>)
    requires
        secret@.len() >= 16,
    ensures
        r matches Some(w) ==> {
            &&& w.0@.len() == 6 && forall|i: int|
                0 <= i < 6 ==> crate::crypto::is_digit_char(w.0@[i])
            &&& w.1@.len() == 6 && forall|i: int|
                0 <= i < 6 ==> crate::crypto::is_digit_char(w.1@[i])
            &&& w.2@.len() == 6 && forall|i: int|
                0 <= i < 6 ==> crate::crypto::is_digit_char(w.2@[i])
        },
{
    let totp = totp_rs::TOTP::new(totp_rs::Algorithm::SHA1, 6, 1, 30, secret.clone(), None, String::new())
        .ok()?;
    let t = std::time::SystemTime::now().duration_since(std::time::UNIX_EPOCH).ok()?.as_secs();
    Some((totp.generate(t.saturating_sub(30)), totp.generate(t), totp.generate(t.saturating_add(30))))
}

/// Time-based one-time-password enrolment and verification.
pub struct MfaService;

impl MfaService {
    /// A fresh 160-bit shared secret, hex-encoded for storage: 40 hex
    /// characters.
    pub fn generate_secret() -> (r: String)
        ensures
            r@.len() == 40,
            exists|bs: Seq<u8>| bs.len() == 20 && r@ == hex_of_bytes(bs),
    {
        let bytes = random_bytes(20);
        let r = bytes_to_hex(&bytes);
        proof {
            assert(bytes@.len() == 20 && r@ == hex_of_bytes(bytes@));
        }
        r
    }

    /// The `otpauth://` provisioning URL for an enrolled secret, from
    /// which the client renders its QR code. Fails when the stored hex
    /// decodes to fewer than 16 bytes, or the account name holds a colon.
    pub fn generate_qr_code(secret: &str, email: &str) -> (r: Result<String, AuthError>)
        ensures
            r matches Err(e) ==> e == AuthError::Internal,
            (r is Err) == (hex_pairs(secret@).len() < 16 || seq_contains_char(email@, ':')),
            r matches Ok(u) ==> u@ == totp_url_of(hex_pairs(secret@), "Merco Auth"@, email@),
    {
        let bytes = hex_to_bytes(secret);
        if bytes.len() < 16 {
            return Err(AuthError::Internal);
        }
        if str_contains_char(email, ':') {
            return Err(AuthError::Internal);
        }
        let issuer = String::from_str("Merco Auth");
        proof {
            reveal_strlit("Merco Auth");
            assert(!seq_contains_char(issuer@, ':')) by {
                assert(forall|i: int| 0 <= i < issuer@.len() ==> issuer@[i] != ':');
            }
        }
        let account = email.to_owned();
        Ok(totp_provisioning_url(&bytes, &issuer, &account))
    }

    /// Compares a presented code against the one-step tolerance window
    /// of the stored secret: the previous, current and next 30-second
    /// step codes. Fails with `Internal` when the stored hex decodes to
    /// fewer than 16 bytes or the clock cannot be read; the answer is
    /// true only when the candidate equals one of the window's codes, so
    /// a match can only hold for six decimal digits.
    pub fn verify_totp(secret: &str, code: &str) -> (r: Result<bool, AuthError>)
        ensures
            r matches Err(e) ==> e == AuthError::Internal,
            hex_pairs(secret@).len() < 16 ==> r is Err,
            r matches Ok(b) ==> hex_pairs(secret@).len() >= 16,
            r matches Ok(b) && b ==> code@.len() == 6 && forall|i: int|
                0 <= i < 6 ==> crate::crypto::is_digit_char(code@[i]),
    {
        let bytes = hex_to_bytes(secret);
        if bytes.len() < 16 {
            return Err(AuthError::Internal);
        }
        match totp_window_codes(&bytes) {
            Some(window) => Ok(
                str_eq(window.0.as_str(), code) || str_eq(window.1.as_str(), code) || str_eq(
                    window.2.as_str(),
                    code,
                ),
            ),
            None => Err(AuthError::Internal),
        }
    }

    /// `count` fresh backup codes of eight token characters each.
    pub fn generate_backup_codes(count: usize) -> (r: Vec<String>)
        ensures
            r@.len() == count,
            forall|i: int| 0 <= i < count
                ==> (#[trigger] r@[i])@.len() == 8 && forall|j: int|
                    0 <= j < 8 ==> is_token_char(r@[i]@[j]),
    {
        let mut out: Vec<String> = Vec::new();
        let mut k: usize = 0;
        while k < count
            invariant
                k <= count,
                out@.len() == k,
                forall|i: int| 0 <= i < k
                    ==> (#[trigger] out@[i])@.len() == 8 && forall|j: int|
                        0 <= j < 8 ==> is_token_char(out@[i]@[j]),
            decreases count - k,
        {
            let code = generate_random_token(8);
            out.push(code);
            k = k + 1;
        }
        out
    }
}

} // verus!
