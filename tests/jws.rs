use base64::Engine as _;
use polishapi::{parse, HeadersBuilder, JwsSigner, PolishApiError, RequestAuthenticator, RequestId};

const TEST_KEY_DER: [u8; 1191] = [
    0x30, 0x82, 0x04, 0xa3, 0x02, 0x01, 0x00, 0x02, 0x82, 0x01, 0x01, 0x00, 0xc5, 0x9f, 0x70, 0x7c,
    0xfd, 0xef, 0x43, 0x35, 0x88, 0xc0, 0x4c, 0x35, 0x5d, 0x7a, 0xf7, 0x1b, 0xac, 0x07, 0xb0, 0x22,
    0x54, 0xcb, 0xbc, 0xfd, 0xae, 0x68, 0x08, 0x79, 0xdb, 0x87, 0xdc, 0x88, 0xdd, 0x94, 0x1c, 0x53,
    0x3d, 0xc0, 0xcb, 0xed, 0xba, 0x8b, 0x8e, 0xed, 0xa6, 0x4d, 0xb2, 0x82, 0xc5, 0xd5, 0x54, 0x16,
    0xe3, 0x9f, 0x4d, 0x99, 0x56, 0x41, 0x21, 0xe1, 0x19, 0xe6, 0x5c, 0x32, 0x51, 0xb5, 0xcf, 0xcc,
    0xf9, 0x33, 0xfa, 0x7e, 0x16, 0x41, 0x80, 0x26, 0x34, 0x92, 0xd2, 0xda, 0x01, 0x8e, 0xa7, 0x2b,
    0xe8, 0x10, 0x6a, 0xaa, 0x2b, 0x11, 0x20, 0x24, 0x93, 0x43, 0x2e, 0x0b, 0x42, 0x6b, 0x77, 0x85,
    0xb4, 0xd1, 0x1d, 0x85, 0xb6, 0x1c, 0x9f, 0xa2, 0x2f, 0x53, 0x84, 0x43, 0xa2, 0xc8, 0xeb, 0x4b,
    0x99, 0x86, 0x4e, 0xf7, 0x2f, 0xc7, 0x9a, 0x97, 0xcb, 0x99, 0x8c, 0x13, 0x8c, 0x94, 0x36, 0x0b,
    0x1e, 0x4a, 0x64, 0x17, 0x48, 0x42, 0xf1, 0xa3, 0x99, 0xbe, 0x65, 0xf5, 0xf2, 0xf8, 0x98, 0xf7,
    0xfc, 0xb9, 0x5d, 0xa5, 0xc9, 0x48, 0x4e, 0x51, 0x3a, 0x08, 0x53, 0xfe, 0x03, 0x13, 0x70, 0x20,
    0x21, 0xc4, 0xf0, 0x54, 0x7f, 0x41, 0xa0, 0x93, 0x08, 0x78, 0x7a, 0xbd, 0xfd, 0xd8, 0x81, 0xbd,
    0x42, 0x49, 0x50, 0xa8, 0x12, 0x57, 0x70, 0x49, 0xbf, 0x5b, 0xc5, 0x58, 0x6e, 0xed, 0xe4, 0x92,
    0x13, 0x9b, 0xa2, 0xb0, 0xf9, 0x50, 0x8b, 0x42, 0x8d, 0xa3, 0x16, 0xfd, 0xe2, 0x2e, 0x91, 0xff,
    0x15, 0xb4, 0xe5, 0xb0, 0x65, 0x7c, 0xd8, 0xa7, 0x41, 0x55, 0xb2, 0xdf, 0x1a, 0x06, 0xb6, 0xe5,
    0x63, 0x59, 0xa5, 0xf3, 0xd7, 0xec, 0xd4, 0xf6, 0x0d, 0x69, 0x8b, 0x51, 0x74, 0x4c, 0x99, 0xbc,
    0xda, 0x96, 0x87, 0xab, 0xfd, 0x7f, 0x86, 0x9d, 0x53, 0x58, 0x51, 0xfb, 0x02, 0x03, 0x01, 0x00,
    0x01, 0x02, 0x82, 0x01, 0x00, 0x09, 0x1f, 0x69, 0xc0, 0x9b, 0x5d, 0xa6, 0xd5, 0xf0, 0x7b, 0x7a,
    0xb3, 0xcb, 0xf3, 0x97, 0xe1, 0xfd, 0xcd, 0xad, 0x0d, 0x28, 0xaa, 0x44, 0x63, 0x2c, 0x35, 0xe9,
    0x38, 0xec, 0x30, 0x18, 0x0c, 0xc9, 0x63, 0x18, 0xf0, 0xf9, 0x72, 0x23, 0xa2, 0x7f, 0x1b, 0x5f,
    0x7c, 0x60, 0xfc, 0xf2, 0x8c, 0xa4, 0x37, 0xf6, 0x2b, 0x1d, 0xa9, 0x86, 0x44, 0xd9, 0xd2, 0x7a,
    0x8f, 0x3a, 0xf4, 0x2e, 0x0a, 0xb4, 0x9d, 0x96, 0xa6, 0x23, 0xaa, 0xde, 0x99, 0x60, 0xca, 0xf7,
    0xf0, 0xcb, 0x8f, 0x2b, 0x8f, 0x47, 0x70, 0x75, 0x0f, 0x20, 0x7b, 0x56, 0xdb, 0xdc, 0x23, 0xc2,
    0x3e, 0xc3, 0x52, 0xdf, 0xeb, 0xed, 0x23, 0xab, 0x8a, 0x24, 0x90, 0x08, 0x08, 0xda, 0xcb, 0x4a,
    0x23, 0x36, 0x84, 0x13, 0x20, 0x51, 0x82, 0x17, 0x8f, 0xe4, 0x85, 0x15, 0x5d, 0x71, 0x25, 0xdf,
    0x0b, 0xba, 0xd3, 0xaf, 0xbf, 0x9d, 0x23, 0xb9, 0xe2, 0x7a, 0xc4, 0x80, 0x81, 0xf0, 0x63, 0xbd,
    0x58, 0xf7, 0xa0, 0xf6, 0x97, 0x8b, 0x0a, 0x41, 0x54, 0xb9, 0x75, 0x9a, 0x5b, 0xe2, 0x8d, 0x4d,
    0x2c, 0xe2, 0x08, 0xf6, 0x74, 0x2b, 0x7f, 0x04, 0xc1, 0xed, 0xdb, 0x3b, 0xbc, 0x1f, 0xc1, 0x9e,
    0xad, 0x6e, 0xdb, 0x12, 0xac, 0xb6, 0xfc, 0x86, 0x5d, 0x62, 0x2a, 0x0b, 0x7b, 0x37, 0x3e, 0x9e,
    0x0a, 0x43, 0x5e, 0x18, 0x5c, 0x62, 0xd9, 0xa2, 0x1c, 0xd5, 0x5d, 0x08, 0xf4, 0xff, 0x46, 0x79,
    0xe5, 0x36, 0x9d, 0x87, 0x49, 0xa6, 0xce, 0xe9, 0xb3, 0x91, 0x7e, 0xf7, 0xbb, 0x93, 0x7c, 0x96,
    0x18, 0xc7, 0x1a, 0xda, 0xf3, 0xc8, 0x24, 0x45, 0x47, 0x40, 0x17, 0x3c, 0x37, 0x00, 0x84, 0x87,
    0x05, 0x75, 0xf4, 0x92, 0x83, 0x42, 0x73, 0xb3, 0x42, 0xf1, 0x5c, 0xd1, 0xa5, 0x00, 0xc4, 0xca,
    0x30, 0x16, 0xd3, 0xdd, 0x81, 0x02, 0x81, 0x81, 0x00, 0xee, 0xfc, 0x42, 0xd8, 0xeb, 0x4e, 0x50,
    0xe7, 0x34, 0x48, 0x69, 0x41, 0x92, 0x20, 0x23, 0x75, 0x8e, 0x31, 0x96, 0x44, 0x27, 0x4b, 0x95,
    0x8b, 0x9e, 0xca, 0xf5, 0x1d, 0x9b, 0xe2, 0xd7, 0xd7, 0x53, 0xf0, 0xd2, 0xb7, 0x1b, 0x9f, 0xa2,
    0xc9, 0x5b, 0xa3, 0x78, 0x9e, 0xbb, 0x96, 0x09, 0x90, 0xf4, 0x80, 0x87, 0x99, 0x64, 0x04, 0xa8,
    0xaf, 0x41, 0x5a, 0xfc, 0xc4, 0xfa, 0x1a, 0xe8, 0x1d, 0x99, 0x19, 0x66, 0x90, 0xa5, 0xaf, 0xbb,
    0x52, 0x4c, 0x97, 0x67, 0x77, 0x24, 0xc0, 0x37, 0xd3, 0xb6, 0x98, 0x7c, 0x43, 0x5c, 0xa1, 0x4a,
    0x95, 0xb7, 0xeb, 0x21, 0x2a, 0x9d, 0x08, 0x65, 0x02, 0xd2, 0x7e, 0x0d, 0x41, 0x3a, 0xcd, 0xda,
    0xe8, 0x5a, 0x30, 0x7e, 0x3c, 0xb7, 0x91, 0xa9, 0x36, 0x97, 0xf1, 0xb4, 0x88, 0x96, 0x2b, 0x23,
    0x1f, 0x0a, 0x66, 0x10, 0x63, 0xf0, 0x17, 0x6c, 0x11, 0x02, 0x81, 0x81, 0x00, 0xd3, 0xb1, 0x4e,
    0x2c, 0x0d, 0x29, 0x61, 0x0e, 0x61, 0x58, 0xee, 0xe1, 0x8d, 0x60, 0xce, 0xd0, 0x22, 0xbc, 0x42,
    0xc2, 0xb7, 0x55, 0x50, 0x61, 0xbb, 0x98, 0x56, 0x32, 0x37, 0xc5, 0x51, 0x11, 0xa5, 0x80, 0x3c,
    0xfa, 0x3b, 0xfa, 0x4b, 0x74, 0x47, 0x59, 0x3d, 0x5b, 0xbe, 0x74, 0xdf, 0x4f, 0xa5, 0x63, 0x7b,
    0xd7, 0x1a, 0x3a, 0x06, 0x2f, 0xde, 0xb5, 0x60, 0x26, 0xab, 0x0c, 0x32, 0xa7, 0x70, 0x91, 0x64,
    0x86, 0x27, 0xec, 0xb9, 0x0d, 0x6b, 0xc7, 0xd2, 0x22, 0xb1, 0x6d, 0x25, 0xa3, 0x0d, 0xdd, 0x92,
    0xa5, 0x73, 0x96, 0x61, 0x02, 0x7c, 0x96, 0xe2, 0xb2, 0x3e, 0xad, 0x7b, 0x8e, 0x9e, 0xa1, 0x5d,
    0x2f, 0xb8, 0x4c, 0xec, 0x7a, 0x39, 0x2d, 0x8a, 0x91, 0x6c, 0xe9, 0xc8, 0x65, 0x21, 0x7d, 0xf3,
    0xa5, 0xd4, 0x4a, 0xa5, 0x0b, 0x8f, 0x8c, 0x84, 0xd1, 0x2a, 0x0e, 0x19, 0x4b, 0x02, 0x81, 0x80,
    0x1a, 0xc2, 0x30, 0x11, 0xed, 0xb6, 0xe5, 0x24, 0x1e, 0x1c, 0x85, 0x7c, 0x8c, 0x0a, 0x01, 0x2e,
    0x66, 0x6f, 0x72, 0xed, 0xca, 0xa0, 0x91, 0xec, 0x02, 0x29, 0xa3, 0x6c, 0x5f, 0x49, 0xf4, 0xf4,
    0xed, 0x37, 0x27, 0xc0, 0xcc, 0xdd, 0x00, 0xf3, 0x1e, 0xc9, 0x9c, 0xf5, 0xd8, 0xf7, 0x21, 0xb7,
    0x13, 0x49, 0x58, 0xe5, 0x79, 0xe7, 0x73, 0xa3, 0xbb, 0xe3, 0x9e, 0x2d, 0xc7, 0xfb, 0x3f, 0x46,
    0x21, 0x20, 0x50, 0xf5, 0x9d, 0x37, 0xa1, 0xf7, 0xc3, 0x0f, 0xa8, 0xcc, 0x14, 0x57, 0x59, 0x68,
    0xe1, 0x27, 0x0d, 0xb2, 0xd5, 0x2a, 0x52, 0x19, 0x95, 0x70, 0x44, 0x54, 0x6b, 0x24, 0xc7, 0x7a,
    0x9b, 0x6a, 0xf5, 0xbc, 0xfa, 0x02, 0x96, 0xa2, 0x31, 0x87, 0x00, 0x7b, 0x77, 0xea, 0x5d, 0x51,
    0xf9, 0x8d, 0x5c, 0xb3, 0x76, 0x6c, 0xfa, 0x0f, 0xbd, 0xb0, 0x53, 0xe1, 0x7c, 0xbe, 0x82, 0xa1,
    0x02, 0x81, 0x80, 0x16, 0x76, 0x57, 0xdf, 0x20, 0xbe, 0x65, 0x48, 0x0b, 0x58, 0x4e, 0x70, 0xac,
    0x79, 0xbb, 0x38, 0x26, 0x97, 0x67, 0x56, 0x15, 0xf1, 0xfd, 0x87, 0x81, 0x4a, 0x56, 0xcb, 0x19,
    0x53, 0xdc, 0x98, 0x4c, 0xc1, 0x60, 0xb7, 0x04, 0xaa, 0x38, 0x5b, 0x6c, 0x3e, 0xb1, 0xde, 0x0c,
    0x45, 0x86, 0x74, 0x83, 0x0e, 0x1d, 0x53, 0xe3, 0xba, 0x88, 0x71, 0x87, 0xe6, 0x22, 0xff, 0xb7,
    0x62, 0xa1, 0xf5, 0x56, 0x62, 0x77, 0x12, 0x2d, 0x26, 0x57, 0x34, 0x6f, 0x5d, 0x52, 0x94, 0xcf,
    0xd2, 0xcf, 0x0d, 0x90, 0x29, 0x14, 0xa8, 0x6d, 0xad, 0x65, 0x39, 0xc8, 0x52, 0x92, 0x57, 0x6b,
    0x83, 0x28, 0xfb, 0x27, 0x25, 0xe4, 0x27, 0x6e, 0x1c, 0xeb, 0x72, 0xc4, 0xa2, 0x6a, 0x73, 0xa7,
    0xe4, 0xde, 0x98, 0xac, 0x87, 0x1a, 0xd5, 0x5b, 0xc3, 0x57, 0xe3, 0xf4, 0x25, 0x6a, 0xea, 0x6e,
    0xd5, 0xf4, 0x25, 0x02, 0x81, 0x81, 0x00, 0xe8, 0x3d, 0x0c, 0xab, 0x4d, 0x9b, 0x78, 0x22, 0xa0,
    0x29, 0xf2, 0x71, 0x1b, 0xce, 0x56, 0x58, 0x39, 0x87, 0x80, 0x3a, 0xe6, 0x9b, 0x17, 0xf7, 0x1a,
    0x02, 0x91, 0xc4, 0xff, 0x00, 0xc5, 0x53, 0x8a, 0x9e, 0xcc, 0xbf, 0xda, 0x18, 0xef, 0xe6, 0x04,
    0x09, 0x72, 0xb6, 0x50, 0x73, 0xe8, 0x5e, 0x63, 0x79, 0xc6, 0x00, 0xf3, 0x3f, 0xe2, 0xdb, 0xa2,
    0x23, 0xcf, 0x64, 0xee, 0xcf, 0xfa, 0x76, 0xf9, 0xa0, 0xd2, 0x7e, 0x88, 0x9e, 0xf1, 0x5d, 0xf1,
    0x4d, 0x76, 0xde, 0x95, 0x3b, 0x9a, 0xcf, 0x80, 0x69, 0xf8, 0x63, 0xf9, 0x7d, 0x77, 0x34, 0xd5,
    0xc0, 0xb9, 0x65, 0xe4, 0x11, 0xbe, 0x28, 0xd6, 0x48, 0x44, 0x69, 0x19, 0xd1, 0x02, 0xf7, 0x57,
    0xd0, 0x47, 0x45, 0x8b, 0x97, 0x3f, 0xe0, 0xd0, 0xc8, 0x3a, 0x19, 0x48, 0xb7, 0x18, 0xdf, 0xa1,
    0x50, 0x72, 0xcf, 0x1f, 0xbb, 0xa0, 0x56,
];

const REQUEST_PAYLOAD: &str = "{\"requestId\":\"11111111-1111-1111-1111-111111111111\"}";

fn test_key_der() -> Vec<u8> {
    TEST_KEY_DER.to_vec()
}

/// The test key as PEM text with a neutral label, 64 base64 characters a line.
fn test_key_pem() -> String {
    let body = base64::engine::general_purpose::STANDARD.encode(TEST_KEY_DER);
    let mut pem = String::from("-----BEGIN TEST KEY-----\n");
    for chunk in body.as_bytes().chunks(64) {
        pem.push_str(std::str::from_utf8(chunk).unwrap());
        pem.push('\n');
    }
    pem.push_str("-----END TEST KEY-----\n");
    pem
}

fn signer(kid: &str) -> JwsSigner {
    JwsSigner::new(&test_key_der(), kid.to_string()).unwrap()
}

fn is_url_safe(s: &str) -> bool {
    !s.is_empty() && s.chars().all(|c| c.is_ascii_alphanumeric() || c == '-' || c == '_')
}

fn decode_url(s: &str) -> Vec<u8> {
    base64::engine::general_purpose::URL_SAFE_NO_PAD.decode(s).unwrap()
}

#[test]
fn signs_the_request_payload_with_a_2048_bit_key() {
    let s = signer("test-key-1");
    let token = s.sign(REQUEST_PAYLOAD).unwrap();
    let (header, signature) = token.split_once("..").unwrap();
    assert!(is_url_safe(header));
    assert!(is_url_safe(signature));
    assert_eq!(
        String::from_utf8(decode_url(header)).unwrap(),
        "{\"alg\":\"RS256\",\"kid\":\"test-key-1\",\"b64\":false,\"crit\":[\"b64\"]}"
    );
    assert_eq!(decode_url(signature).len(), 256);
}

#[test]
fn token_has_the_detached_shape_for_several_payloads() {
    let s = signer("k");
    for payload in ["x", "{}", "{\"a\":[1,2,3]}", "zażółć gęślą jaźń"] {
        let token = s.sign(payload).unwrap();
        let parts: Vec<&str> = token.split('.').collect();
        assert_eq!(parts.len(), 3);
        assert!(parts[1].is_empty());
        assert!(is_url_safe(parts[0]));
        assert!(is_url_safe(parts[2]));
    }
}

#[test]
fn header_json_escapes_the_key_id() {
    let s = signer("a\"b");
    let token = s.sign("{}").unwrap();
    let header = token.split('.').next().unwrap();
    assert_eq!(
        String::from_utf8(decode_url(header)).unwrap(),
        "{\"alg\":\"RS256\",\"kid\":\"a\\\"b\",\"b64\":false,\"crit\":[\"b64\"]}"
    );
    assert_eq!(s.key_id(), "a\"b");
    let c = signer("t\n\u{1}\\é");
    let token = c.sign("{}").unwrap();
    let header = token.split('.').next().unwrap();
    assert_eq!(
        String::from_utf8(decode_url(header)).unwrap(),
        "{\"alg\":\"RS256\",\"kid\":\"t\\n\\u0001\\\\é\",\"b64\":false,\"crit\":[\"b64\"]}"
    );
}

#[test]
fn signing_is_deterministic() {
    let s = signer("k");
    assert_eq!(s.sign(REQUEST_PAYLOAD).unwrap(), s.sign(REQUEST_PAYLOAD).unwrap());
    assert_ne!(s.sign("a").unwrap(), s.sign("b").unwrap());
}

#[test]
fn verify_accepts_its_own_signature() {
    let s = signer("test-key-1");
    for payload in ["", "x", REQUEST_PAYLOAD] {
        let token = s.sign(payload).unwrap();
        assert!(s.verify(&token, payload).unwrap());
    }
}

#[test]
fn verify_rejects_another_payload() {
    let s = signer("test-key-1");
    let token = s.sign(REQUEST_PAYLOAD).unwrap();
    assert!(!s.verify(&token, "{\"requestId\":\"22222222-2222-2222-2222-222222222222\"}").unwrap());
    assert!(!s.verify(&token, "").unwrap());
}

#[test]
fn verify_rejects_a_tampered_signature() {
    let s = signer("k");
    let token = s.sign("payload").unwrap();
    let (header, signature) = token.split_once("..").unwrap();
    let mut sig = decode_url(signature);
    sig[0] ^= 1;
    let forged = format!("{}..{}", header, base64::engine::general_purpose::URL_SAFE_NO_PAD.encode(&sig));
    assert!(!s.verify(&forged, "payload").unwrap());
}

#[test]
fn verify_reports_malformed_tokens() {
    let s = signer("k");
    assert!(matches!(s.verify("abc", "p"), Err(PolishApiError::Format(_))));
    assert!(matches!(s.verify("a.b.c", "p"), Err(PolishApiError::NotDetached(_))));
    assert!(matches!(s.verify("a.b.c.d", "p"), Err(PolishApiError::Format(_))));
    assert!(matches!(s.verify("abc..+/+", "p"), Err(PolishApiError::Format(_))));
}

#[test]
fn parse_splits_detached_tokens() {
    let p = parse("abc..def").unwrap();
    assert_eq!(p.header_b64, "abc");
    assert_eq!(p.signature_b64, "def");
    let p = parse("..").unwrap();
    assert_eq!(p.header_b64, "");
    assert_eq!(p.signature_b64, "");
}

#[test]
fn parse_rejects_wrong_dot_counts_and_payload_segments() {
    for bad in ["", "abc", "abc.def", "a...b", "a..b.c", "a..b..c", "abc."] {
        assert!(matches!(parse(bad), Err(PolishApiError::Format(_))), "{}", bad);
    }
    for regular in ["a.b.c", ".a.", "h.payload.s"] {
        assert!(matches!(parse(regular), Err(PolishApiError::NotDetached(_))), "{}", regular);
    }
}

#[test]
fn from_pem_signs_like_the_der_key() {
    let from_der = signer("k");
    let from_pem = JwsSigner::from_pem(&test_key_pem(), "k".to_string()).unwrap();
    assert_eq!(from_pem.sign(REQUEST_PAYLOAD).unwrap(), from_der.sign(REQUEST_PAYLOAD).unwrap());
    let crlf = test_key_pem().replace('\n', "\r\n");
    let from_crlf = JwsSigner::from_pem(&crlf, "k".to_string()).unwrap();
    assert_eq!(from_crlf.sign("p").unwrap(), from_der.sign("p").unwrap());
    let relabelled = format!("junk before\n{}\ntrailing text", test_key_pem().replace("TEST KEY", "ANYTHING"));
    let from_relabelled = JwsSigner::from_pem(&relabelled, "k".to_string()).unwrap();
    assert_eq!(from_relabelled.sign("p").unwrap(), from_der.sign("p").unwrap());
}

#[test]
fn pem_to_der_returns_the_decoded_body() {
    assert_eq!(polishapi::pem::pem_to_der(&test_key_pem()).unwrap(), test_key_der());
    let small = "-----BEGIN X-----\nAAEC\nAw==\n-----END X-----\n";
    assert_eq!(polishapi::pem::pem_to_der(small).unwrap(), vec![0u8, 1, 2, 3]);
}

#[test]
fn from_pem_rejects_missing_markers_and_bad_base64() {
    let body_only: String = test_key_pem().lines().filter(|l| !l.starts_with("-----")).collect::<Vec<_>>().join("\n");
    assert!(matches!(JwsSigner::from_pem(&body_only, "k".to_string()), Err(PolishApiError::KeyFormat(_))));
    let no_end: String = test_key_pem().lines().filter(|l| !l.starts_with("-----END")).collect::<Vec<_>>().join("\n");
    assert!(matches!(JwsSigner::from_pem(&no_end, "k".to_string()), Err(PolishApiError::KeyFormat(_))));
    let bad = "-----BEGIN TEST KEY-----\n!!!not base64!!!\n-----END TEST KEY-----\n";
    assert!(matches!(JwsSigner::from_pem(bad, "k".to_string()), Err(PolishApiError::KeyFormat(_))));
    let not_a_key = "-----BEGIN TEST KEY-----\nAAEC\n-----END TEST KEY-----\n";
    assert!(matches!(JwsSigner::from_pem(not_a_key, "k".to_string()), Err(PolishApiError::KeyFormat(_))));
}

#[test]
fn new_rejects_bytes_that_are_not_a_key() {
    match JwsSigner::new(&[], "k".to_string()) {
        Err(PolishApiError::KeyFormat(m)) => assert_eq!(m, "not an RSA private key"),
        _ => panic!("expected a key format error"),
    }
    assert!(matches!(JwsSigner::new(&[0x30, 0x03, 0x02, 0x01, 0x00], "k".to_string()), Err(PolishApiError::KeyFormat(_))));
    let mut der = test_key_der();
    der.truncate(100);
    assert!(JwsSigner::new(&der, "k".to_string()).is_err());
}

#[test]
fn compose_detached_encodes_the_signature() {
    let t = polishapi::jws::compose_detached("hdr", &[0xfb, 0xff, 0x00]);
    assert_eq!(t, "hdr..-_8A");
}

#[test]
fn authenticator_signs_into_a_copy_of_the_headers() {
    let auth = RequestAuthenticator::new(Some(signer("test-key-1")));
    let base = HeadersBuilder::new(RequestId { value: 1 })
        .authorization("token")
        .accept_language("pl")
        .request_id(RequestId { value: 7 })
        .build();
    let signed = auth.authenticate(REQUEST_PAYLOAD, &base).unwrap();
    assert_eq!(signed.x_jws_signature, signer("test-key-1").sign(REQUEST_PAYLOAD).unwrap());
    assert_eq!(signed.x_jws_signature, auth.sign_payload(REQUEST_PAYLOAD).unwrap());
    assert_eq!(signed.authorization, "Bearer token");
    assert_eq!(signed.accept_language, "pl");
    assert_eq!(signed.x_request_id, RequestId { value: 7 });
    assert_eq!(base.x_jws_signature, "");
}
