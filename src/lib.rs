//! Request signing for PolishAPI open-banking calls: detached JWS (RS256,
//! unencoded payload) over each outgoing JSON body, and the composition of
//! the correlation headers that carry the signature.

pub mod encoding;
pub mod error;
pub mod headers;
pub mod jws;
pub mod pem;
pub mod rsa;
pub mod text;
pub mod types;
pub mod validation;

pub use error::PolishApiError;
pub use headers::{
    validate_authorization_header, validate_request_id, HeadersBuilder, RequestAuthenticator,
    RequestHeaders, RequestId,
};
pub use jws::{parse, DetachedJws, JwsSigner};
pub use validation::{validate_bic, validate_currency_code, validate_email, validate_iban};
