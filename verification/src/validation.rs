use vstd::prelude::*;
use vstd::string::StringSliceAdditionalSpecFns;

use crate::error::AuthError;

verus! {

/// True iff byte `b` occurs in `s`.
pub open spec fn bytes_contain(s: Seq<u8>, b: u8) -> bool {
    exists|i: int| 0 <= i < s.len() && s[i] == b
}

/// An acceptable email: holds an `@` and is 4 to 254 bytes long.
pub open spec fn valid_email(s: Seq<u8>) -> bool {
    bytes_contain(s, 64) && 3 < s.len() < 255
}

pub open spec fn is_digit_byte(b: u8) -> bool {
    48 <= b <= 57
}

pub open spec fn is_letter_byte(b: u8) -> bool {
    (65 <= b <= 90) || (97 <= b <= 122)
}

/// An acceptable password: 8 to 128 bytes with at least one ASCII digit
/// and one ASCII letter.
pub open spec fn valid_password(s: Seq<u8>) -> bool {
    &&& 8 <= s.len() <= 128
    &&& exists|i: int| 0 <= i < s.len() && is_digit_byte(s[i])
    &&& exists|i: int| 0 <= i < s.len() && is_letter_byte(s[i])
}

pub open spec fn is_phone_tail_byte(b: u8) -> bool {
    is_digit_byte(b) || b == 32 || b == 45
}

/// An acceptable phone number: `+`, then digits, spaces or dashes,
/// 8 to 19 bytes in all.
pub open spec fn valid_phone(s: Seq<u8>) -> bool {
    &&& s.len() > 0 && s[0] == 43
    &&& 7 < s.len() < 20
    &&& forall|i: int| 1 <= i < s.len() ==> is_phone_tail_byte(s[i])
}

/// Checks the email shape. The second argument names the field for the
/// caller's error reporting and does not affect the outcome.
pub fn validate_email(email: &str, _field: &str) -> (r: Result<(), AuthError>)
    ensures
        (r is Ok) == valid_email(email.spec_bytes()),
        r matches Err(e) ==> e matches AuthError::InvalidInput(m) && m@ == "invalid_email"@,
{
    let bs = email.as_bytes();
    let n = bs.len();
    if n <= 3 || n >= 255 {
        return Err(AuthError::InvalidInput(String::from_str("invalid_email")));
    }
    let mut i: usize = 0;
    while i < n
        invariant
            n == email.spec_bytes().len(),
            3 < n < 255,
            bs@ == email.spec_bytes(),
            i <= n,
            forall|j: int| 0 <= j < i ==> bs@[j] != 64,
        decreases n - i,
    {
        if bs[i] == 64 {
            proof {
                assert(email.spec_bytes()[i as int] == 64);
            }
            return Ok(());
        }
        i = i + 1;
    }
    Err(AuthError::InvalidInput(String::from_str("invalid_email")))
}

/// Checks the password shape, reporting the first failed rule.
pub fn validate_password(password: &str, _field: &str) -> (r: Result<(), AuthError>)
    ensures
        (r is Ok) == valid_password(password.spec_bytes()),
        r matches Err(e) ==> e matches AuthError::InvalidInput(m) && m@ == (
            if password.spec_bytes().len() < 8 {
                "password_too_short"@
            } else if password.spec_bytes().len() > 128 {
                "password_too_long"@
            } else {
                "password_weak"@
            }
        ),
{
    let bs = password.as_bytes();
    let n = bs.len();
    if n < 8 {
        return Err(AuthError::InvalidInput(String::from_str("password_too_short")));
    }
    if n > 128 {
        return Err(AuthError::InvalidInput(String::from_str("password_too_long")));
    }
    let mut has_number = false;
    let mut has_letter = false;
    let mut i: usize = 0;
    while i < n
        invariant
            n == password.spec_bytes().len(),
            bs@ == password.spec_bytes(),
            i <= n,
            has_number == exists|j: int| 0 <= j < i && is_digit_byte(bs@[j]),
            has_letter == exists|j: int| 0 <= j < i && is_letter_byte(bs@[j]),
        decreases n - i,
    {
        let b = bs[i];
        if 48 <= b && b <= 57 {
            has_number = true;
        }
        if (65 <= b && b <= 90) || (97 <= b && b <= 122) {
            has_letter = true;
        }
        i = i + 1;
    }
    if !has_number || !has_letter {
        return Err(AuthError::InvalidInput(String::from_str("password_weak")));
    }
    Ok(())
}

/// Checks the phone-number shape.
pub fn validate_phone(phone: &str, _field: &str) -> (r: Result<(), AuthError>)
    ensures
        (r is Ok) == valid_phone(phone.spec_bytes()),
        r matches Err(e) ==> e matches AuthError::InvalidInput(m) && m@ == "invalid_phone"@,
{
    let bs = phone.as_bytes();
    let n = bs.len();
    if n <= 7 || n >= 20 {
        return Err(AuthError::InvalidInput(String::from_str("invalid_phone")));
    }
    if bs[0] != 43 {
        return Err(AuthError::InvalidInput(String::from_str("invalid_phone")));
    }
    let mut i: usize = 1;
    while i < n
        invariant
            n == phone.spec_bytes().len(),
            bs@ == phone.spec_bytes(),
            1 <= i <= n,
            forall|j: int| 1 <= j < i ==> is_phone_tail_byte(bs@[j]),
        decreases n - i,
    {
        let b = bs[i];
        if !((48 <= b && b <= 57) || b == 32 || b == 45) {
            return Err(AuthError::InvalidInput(String::from_str("invalid_phone")));
        }
        i = i + 1;
    }
    Ok(())
}

} // verus!
