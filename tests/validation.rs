use polishapi::{validate_bic, validate_currency_code, validate_email, validate_iban, PolishApiError};

#[test]
fn test_validate_iban() {
    assert!(validate_iban("PL61109010140000071219812874").is_ok());
    assert!(validate_iban("DE89370400440532013000").is_ok());
    assert!(validate_iban("INVALID").is_err());
    assert!(validate_iban("").is_err());
}

#[test]
fn test_validate_currency_code() {
    assert!(validate_currency_code("PLN").is_ok());
    assert!(validate_currency_code("EUR").is_ok());
    assert!(validate_currency_code("USD").is_ok());
    assert!(validate_currency_code("pln").is_err());
    assert!(validate_currency_code("EURO").is_err());
    assert!(validate_currency_code("").is_err());
}

#[test]
fn test_validate_bic() {
    assert!(validate_bic("BREXPLPW").is_ok());
    assert!(validate_bic("BREXPLPWXXX").is_ok());
    assert!(validate_bic("INVALID").is_err());
    assert!(validate_bic("").is_err());
}

#[test]
fn test_validate_email() {
    assert!(validate_email("test@example.com").is_ok());
    assert!(validate_email("user@domain.org").is_ok());
    assert!(validate_email("invalid-email").is_err());
    assert!(validate_email("@domain.com").is_err());
    assert!(validate_email("user@").is_err());
    assert!(validate_email("").is_err());
}

#[test]
fn iban_edges_of_length_and_country_code() {
    // 15 and 34 bytes are the bounds.
    assert!(validate_iban("NO9386011117947").is_ok());
    assert!(validate_iban("MT84MALT011000012345MTLCAST001S123").is_ok());
    assert!(validate_iban("NO938601111794").is_err());
    assert!(validate_iban("MT84MALT011000012345MTLCAST001S1234").is_err());
    assert!(matches!(validate_iban("1L61109010140000071219812874"), Err(PolishApiError::Validation(_))));
    assert!(matches!(validate_iban("PL6110901014-000071219812874"), Err(PolishApiError::Validation(_))));
}

#[test]
fn bic_must_be_uppercase() {
    assert!(validate_bic("brexplpw").is_err());
    // A digit is not uppercase, so a BIC with a digit is refused too.
    assert!(validate_bic("BREXPLP1").is_err());
    assert!(validate_bic("ÄBCDEFGH").is_err());
    assert!(matches!(validate_bic("BREX-LPW"), Err(PolishApiError::Validation(_))));
}

#[test]
fn currency_letters_only() {
    assert!(validate_currency_code("P1N").is_err());
    assert!(matches!(validate_currency_code("PL"), Err(PolishApiError::Validation(_))));
}

#[test]
fn email_needs_exactly_one_at() {
    assert!(validate_email("a@b@c").is_err());
    assert!(validate_email("a@b").is_ok());
    assert!(matches!(validate_email("ab"), Err(PolishApiError::Validation(_))));
}
