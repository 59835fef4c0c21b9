//! Shape checks on banking identifiers and contact data.

use crate::error::PolishApiError;
use crate::text::chars_of;
use vstd::prelude::*;
use vstd::utf8::encode_utf8;

verus! {

/// Whether `c` has the Unicode `Alphabetic` or a `Numeric` property.
pub uninterp spec fn alphanumeric(c: char) -> bool;

/// Whether `c` has the Unicode `Alphabetic` property.
pub uninterp spec fn alphabetic(c: char) -> bool;

/// Whether `c` has the Unicode `Uppercase` property.
pub uninterp spec fn uppercase(c: char) -> bool;

/// Relies on `char::is_alphanumeric`.
#[verifier::external_body]
fn is_alphanumeric(c: char) -> (r: bool)
    ensures
        r == alphanumeric(c),
{
    c.is_alphanumeric()
}

/// Relies on `char::is_alphabetic`.
#[verifier::external_body]
fn is_alphabetic(c: char) -> (r: bool)
    ensures
        r == alphabetic(c),
{
    c.is_alphabetic()
}

/// Relies on `char::is_uppercase`.
#[verifier::external_body]
fn is_uppercase(c: char) -> (r: bool)
    ensures
        r == uppercase(c),
{
    c.is_uppercase()
}

/// Every character of `s` is alphanumeric, and also uppercase where `upper`
/// holds.
pub open spec fn all_alphanumeric_spec(s: Seq<char>, upper: bool) -> bool {
    forall|i: int| 0 <= i < s.len() ==> alphanumeric(#[trigger] s[i]) && (upper ==> uppercase(s[i]))
}

/// Every character of `s` is an uppercase letter.
pub open spec fn all_uppercase_alphabetic(s: Seq<char>) -> bool {
    forall|i: int| 0 <= i < s.len() ==> alphabetic(#[trigger] s[i]) && uppercase(s[i])
}

/// Whether every character of `cs` is alphanumeric, and also uppercase
/// where `upper` holds.
fn all_alphanumeric(cs: &Vec<char>, upper: bool) -> (r: bool)
    ensures
        r == all_alphanumeric_spec(cs@, upper),
{
    let mut k: usize = 0;
    while k < cs.len()
        invariant
            k <= cs.len(),
            forall|j: int| 0 <= j < k ==> alphanumeric(#[trigger] cs@[j]) && (upper ==> uppercase(cs@[j])),
        decreases cs.len() - k,
    {
        if !is_alphanumeric(cs[k]) || (upper && !is_uppercase(cs[k])) {
            return false;
        }
        k += 1;
    }
    true
}

/// An IBAN shape: 15 to 34 bytes, all characters alphanumeric, the first
/// two (the country code) alphabetic.
pub open spec fn is_iban_shaped(s: Seq<char>) -> bool {
    &&& 15 <= encode_utf8(s).len() <= 34
    &&& all_alphanumeric_spec(s, false)
    &&& s.len() >= 2
    &&& alphabetic(s[0])
    &&& alphabetic(s[1])
}

/// Checks the shape of an IBAN (not its check digits).
pub fn validate_iban(iban: &str) -> (r: Result<(), PolishApiError>)
    ensures
        r is Ok <==> is_iban_shaped(iban@),
        r matches Err(e) ==> e is Validation,
{
    let n = iban.as_bytes().len();
    if n < 15 || n > 34 {
        return Err(PolishApiError::Validation("IBAN length must be between 15 and 34 characters".to_owned()));
    }
    let cs = chars_of(iban);
    if !all_alphanumeric(&cs, false) {
        assert(!all_alphanumeric_spec(iban@, false));
        return Err(PolishApiError::Validation("IBAN must contain only alphanumeric characters".to_owned()));
    }
    assert(all_alphanumeric_spec(iban@, false));
    if cs.len() < 2 || !is_alphabetic(cs[0]) || !is_alphabetic(cs[1]) {
        return Err(PolishApiError::Validation("IBAN country code must be alphabetic".to_owned()));
    }
    Ok(())
}

/// An ISO 4217 shape: three bytes, all uppercase alphabetic characters.
pub open spec fn is_currency_shaped(s: Seq<char>) -> bool {
    &&& encode_utf8(s).len() == 3
    &&& all_uppercase_alphabetic(s)
}

/// Checks that a currency code is three uppercase letters.
pub fn validate_currency_code(currency: &str) -> (r: Result<(), PolishApiError>)
    ensures
        r is Ok <==> is_currency_shaped(currency@),
        r matches Err(e) ==> e is Validation,
{
    if currency.as_bytes().len() != 3 {
        return Err(PolishApiError::Validation("Currency code must be exactly 3 characters".to_owned()));
    }
    let cs = chars_of(currency);
    let mut k: usize = 0;
    while k < cs.len()
        invariant
            k <= cs.len(),
            cs@ == currency@,
            forall|j: int| 0 <= j < k ==> alphabetic(#[trigger] cs@[j]) && uppercase(cs@[j]),
        decreases cs.len() - k,
    {
        if !is_alphabetic(cs[k]) || !is_uppercase(cs[k]) {
            assert(!(alphabetic(currency@[k as int]) && uppercase(currency@[k as int])));
            return Err(PolishApiError::Validation("Currency code must be uppercase alphabetic characters".to_owned()));
        }
        k += 1;
    }
    Ok(())
}

/// A BIC shape: 8 or 11 bytes, all uppercase alphanumeric characters.
pub open spec fn is_bic_shaped(s: Seq<char>) -> bool {
    &&& (encode_utf8(s).len() == 8 || encode_utf8(s).len() == 11)
    &&& all_alphanumeric_spec(s, true)
}

/// Checks the shape of a BIC (SWIFT) code.
pub fn validate_bic(bic: &str) -> (r: Result<(), PolishApiError>)
    ensures
        r is Ok <==> is_bic_shaped(bic@),
        r matches Err(e) ==> e is Validation,
{
    let n = bic.as_bytes().len();
    if n != 8 && n != 11 {
        return Err(PolishApiError::Validation("BIC code must be 8 or 11 characters long".to_owned()));
    }
    let cs = chars_of(bic);
    if !all_alphanumeric(&cs, true) {
        assert(!all_alphanumeric_spec(bic@, true));
        return Err(PolishApiError::Validation("BIC code must be uppercase alphanumeric characters".to_owned()));
    }
    assert(all_alphanumeric_spec(bic@, true));
    Ok(())
}

/// Exactly one `@`, with characters on both sides of it.
pub open spec fn is_email_shaped(s: Seq<char>) -> bool {
    exists|i: int|
        0 < i < s.len() - 1 && #[trigger] s[i] == '@' && forall|j: int|
            0 <= j < s.len() && j != i ==> s[j] != '@'
}

/// Checks that an email address is `local@domain` with both parts non-empty.
pub fn validate_email(email: &str) -> (r: Result<(), PolishApiError>)
    ensures
        r is Ok <==> is_email_shaped(email@),
        r matches Err(e) ==> e is Validation,
{
    let cs = chars_of(email);
    let n = cs.len();
    let mut count: usize = 0;
    let mut at: usize = 0;
    let mut k: usize = 0;
    while k < n
        invariant
            n == cs@.len(),
            cs@ == email@,
            k <= n,
            count <= k,
            count == 0 ==> forall|j: int| 0 <= j < k ==> cs@[j] != '@',
            count >= 1 ==> at < k && cs@[at as int] == '@',
            count == 1 ==> forall|j: int| 0 <= j < k && j != at ==> cs@[j] != '@',
            count >= 2 ==> exists|j: int| 0 <= j < k && j != at && #[trigger] cs@[j] == '@',
        decreases n - k,
    {
        if cs[k] == '@' {
            if count == 0 {
                at = k;
            }
            if count < 2 {
                count += 1;
            }
        }
        k += 1;
    }
    if count == 0 {
        return Err(PolishApiError::Validation("Email must contain @ symbol".to_owned()));
    }
    if count >= 2 {
        return Err(PolishApiError::Validation("Email must have exactly one @ symbol".to_owned()));
    }
    if at == 0 || at == n - 1 {
        assert(!is_email_shaped(email@)) by {
            if is_email_shaped(email@) {
                let i = choose|i: int|
                    0 < i < email@.len() - 1 && #[trigger] email@[i] == '@' && forall|j: int|
                        0 <= j < email@.len() && j != i ==> email@[j] != '@';
                assert(i == at);
            }
        }
        return Err(PolishApiError::Validation("Email local and domain parts cannot be empty".to_owned()));
    }
    assert(email@[at as int] == '@');
    Ok(())
}

} // verus!
