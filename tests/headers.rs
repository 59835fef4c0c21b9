use polishapi::{
    validate_authorization_header, validate_request_id, HeadersBuilder, PolishApiError,
    RequestAuthenticator, RequestHeaders, RequestId,
};

fn fresh_id() -> RequestId {
    RequestId { value: uuid::Uuid::new_v4().as_u128() }
}

#[test]
fn test_headers_builder() {
    let headers = HeadersBuilder::new(fresh_id())
        .authorization("test-token")
        .accept_language("en-US")
        .build();

    assert_eq!(headers.authorization, "Bearer test-token");
    assert_eq!(headers.accept_language, "en-US");
    assert_eq!(headers.accept_encoding, "gzip, deflate");
    assert_eq!(headers.accept_charset, "utf-8");
}

#[test]
fn test_validate_authorization_header() {
    assert!(validate_authorization_header("Bearer valid-token").is_ok());
    assert!(validate_authorization_header("Invalid token").is_err());
    assert!(validate_authorization_header("Bearer ").is_err());
}

#[test]
fn test_validate_request_id() {
    let valid_id = fresh_id();
    assert!(validate_request_id(&valid_id).is_ok());

    let nil_id = RequestId::nil();
    assert!(validate_request_id(&nil_id).is_err());
}

#[test]
fn builder_sets_request_id_and_keeps_the_rest() {
    let id = RequestId { value: 0x1234 };
    let headers = HeadersBuilder::new(fresh_id())
        .accept_language("pl-PL")
        .request_id(id)
        .authorization("abc")
        .build();
    assert_eq!(headers.x_request_id, id);
    assert_eq!(headers.accept_language, "pl-PL");
    assert_eq!(headers.authorization, "Bearer abc");
    assert_eq!(headers.x_jws_signature, "");
}

#[test]
fn default_headers_carry_the_given_request_id() {
    let id = fresh_id();
    let headers = RequestHeaders::with_request_id(id);
    assert_eq!(headers.authorization, "");
    assert_eq!(headers.x_jws_signature, "");
    assert_eq!(headers.accept_encoding, "gzip, deflate");
    assert_eq!(headers.accept_language, "en-US");
    assert_eq!(headers.accept_charset, "utf-8");
    assert_eq!(headers.x_request_id, id);
    assert!(!headers.x_request_id.is_nil());
}

#[test]
fn authorization_header_edges() {
    assert!(matches!(validate_authorization_header("Bearer"), Err(PolishApiError::Validation(_))));
    assert!(validate_authorization_header("bearer token").is_err());
    assert!(validate_authorization_header("Bearer x").is_ok());
}

#[test]
fn authenticator_without_signer_refuses() {
    let auth = RequestAuthenticator::new(None);
    let base = HeadersBuilder::new(fresh_id()).authorization("t").build();
    assert!(matches!(auth.sign_payload("{}"), Err(PolishApiError::Config(_))));
    assert!(matches!(auth.authenticate("{}", &base), Err(PolishApiError::Config(_))));
}
