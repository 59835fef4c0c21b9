//! Request headers and the authenticator that signs each outgoing payload.

use crate::error::PolishApiError;
use crate::jws::{header_segment_of, signed_token_of, signing_input_of, JwsSigner};
use crate::rsa::rs256_signs;
use crate::text::chars_of;
use vstd::prelude::*;

verus! {

/// A request correlation id: a UUID as its 128-bit big-endian value. Fresh
/// random ids are drawn by the caller (the transport) and handed in.
#[derive(Debug, Clone, Copy, PartialEq, Eq, Structural)]
pub struct RequestId {
    pub value: u128,
}

impl RequestId {
    /// The nil UUID, all bits zero.
    pub fn nil() -> (r: RequestId)
        ensures
            r.value == 0,
    {
        RequestId { value: 0 }
    }

    pub open spec fn is_nil_spec(&self) -> bool {
        self.value == 0
    }

    /// Whether this is the nil UUID.
    #[verifier::when_used_as_spec(is_nil_spec)]
    pub fn is_nil(&self) -> (r: bool)
        ensures
            r == self.is_nil_spec(),
    {
        self.value == 0
    }
}

/// The headers of one authenticated call.
#[derive(Debug)]
pub struct RequestHeaders {
    /// `Authorization`, `Bearer <token>`.
    pub authorization: String,
    pub accept_encoding: String,
    /// `Accept-Language`.
    pub accept_language: String,
    pub accept_charset: String,
    /// `X-JWS-SIGNATURE`, the detached JWS of the request body.
    pub x_jws_signature: String,
    /// `X-REQUEST-ID`.
    pub x_request_id: RequestId,
}

impl RequestHeaders {
    /// No authorization and no signature yet, `gzip, deflate`, `en-US`,
    /// `utf-8`, and the given request id.
    pub fn with_request_id(request_id: RequestId) -> (r: RequestHeaders)
        ensures
            r.authorization@ == Seq::<char>::empty(),
            r.accept_encoding@ == "gzip, deflate"@,
            r.accept_language@ == "en-US"@,
            r.accept_charset@ == "utf-8"@,
            r.x_jws_signature@ == Seq::<char>::empty(),
            r.x_request_id == request_id,
    {
        RequestHeaders {
            authorization: String::new(),
            accept_encoding: "gzip, deflate".to_owned(),
            accept_language: "en-US".to_owned(),
            accept_charset: "utf-8".to_owned(),
            x_jws_signature: String::new(),
            x_request_id: request_id,
        }
    }
}

/// `h` is `base` with the signature replaced by `sig` and every other
/// header passed through.
pub open spec fn with_signature(h: RequestHeaders, base: RequestHeaders, sig: Seq<char>) -> bool {
    &&& h.authorization@ == base.authorization@
    &&& h.accept_encoding@ == base.accept_encoding@
    &&& h.accept_language@ == base.accept_language@
    &&& h.accept_charset@ == base.accept_charset@
    &&& h.x_request_id == base.x_request_id
    &&& h.x_jws_signature@ == sig
}

/// Builds request headers from the defaults.
pub struct HeadersBuilder {
    headers: RequestHeaders,
}

impl View for HeadersBuilder {
    type V = RequestHeaders;

    closed spec fn view(&self) -> RequestHeaders {
        self.headers
    }
}

impl HeadersBuilder {
    /// A builder holding the default headers, with the given request id.
    pub fn new(request_id: RequestId) -> (r: HeadersBuilder)
        ensures
            r@.x_request_id == request_id,
            r@.authorization@ == Seq::<char>::empty(),
            r@.accept_encoding@ == "gzip, deflate"@,
            r@.accept_language@ == "en-US"@,
            r@.accept_charset@ == "utf-8"@,
            r@.x_jws_signature@ == Seq::<char>::empty(),
    {
        HeadersBuilder { headers: RequestHeaders::with_request_id(request_id) }
    }

    /// Sets `Authorization` to `Bearer <token>`.
    pub fn authorization(self, token: &str) -> (r: HeadersBuilder)
        ensures
            r@.authorization@ == "Bearer "@ + token@,
            r@.accept_encoding@ == self@.accept_encoding@,
            r@.accept_language@ == self@.accept_language@,
            r@.accept_charset@ == self@.accept_charset@,
            r@.x_jws_signature@ == self@.x_jws_signature@,
            r@.x_request_id == self@.x_request_id,
    {
        let mut headers = self.headers;
        let mut value = "Bearer ".to_owned();
        value.append(token);
        headers.authorization = value;
        HeadersBuilder { headers }
    }

    /// Sets `Accept-Language`.
    pub fn accept_language(self, language: &str) -> (r: HeadersBuilder)
        ensures
            r@.accept_language@ == language@,
            r@.authorization@ == self@.authorization@,
            r@.accept_encoding@ == self@.accept_encoding@,
            r@.accept_charset@ == self@.accept_charset@,
            r@.x_jws_signature@ == self@.x_jws_signature@,
            r@.x_request_id == self@.x_request_id,
    {
        let mut headers = self.headers;
        headers.accept_language = language.to_owned();
        HeadersBuilder { headers }
    }

    /// Sets `X-REQUEST-ID`.
    pub fn request_id(self, request_id: RequestId) -> (r: HeadersBuilder)
        ensures
            r@.x_request_id == request_id,
            r@.authorization@ == self@.authorization@,
            r@.accept_encoding@ == self@.accept_encoding@,
            r@.accept_language@ == self@.accept_language@,
            r@.accept_charset@ == self@.accept_charset@,
            r@.x_jws_signature@ == self@.x_jws_signature@,
    {
        let mut headers = self.headers;
        headers.x_request_id = request_id;
        HeadersBuilder { headers }
    }

    /// The headers built so far.
    pub fn build(self) -> (r: RequestHeaders)
        ensures
            r == self@,
    {
        self.headers
    }
}

/// Signs the payload of every authenticated call with the one signer it
/// was given, and puts the signature into the call's headers.
pub struct RequestAuthenticator {
    signer: Option<JwsSigner>,
}

impl RequestAuthenticator {
    /// The signer's key and key id, where a signer was given.
    pub closed spec fn signer_spec(&self) -> Option<(Seq<u8>, Seq<char>)> {
        match self.signer {
            Some(s) => Some(s@),
            None => None,
        }
    }

    pub fn new(signer: Option<JwsSigner>) -> (r: RequestAuthenticator)
        ensures
            r.signer_spec() == match signer {
                Some(s) => Some(s@),
                None => None::<(Seq<u8>, Seq<char>)>,
            },
    {
        RequestAuthenticator { signer }
    }

    /// The detached JWS of `payload`, as the signer returns it. Fails with
    /// `Config` where no signer was given: authenticated calls are never
    /// sent unsigned.
    pub fn sign_payload(&self, payload: &str) -> (r: Result<String, PolishApiError>)
        ensures
            self.signer_spec() is None ==> r matches Err(PolishApiError::Config(_)),
            self.signer_spec() matches Some(k) ==> (r is Ok <==> rs256_signs(
                k.0,
                signing_input_of(header_segment_of(k.1), payload@),
            )),
            self.signer_spec() matches Some(k) ==> match r {
                Ok(t) => t@ == signed_token_of(k.0, k.1, payload@),
                Err(e) => e is Signing,
            },
    {
        match &self.signer {
            Some(signer) => signer.sign(payload),
            None => Err(PolishApiError::Config("no JWS signer is configured".to_owned())),
        }
    }

    /// A copy of `base` whose `X-JWS-SIGNATURE` is the signature of
    /// `payload`; `base` itself is left as it was.
    pub fn authenticate(&self, payload: &str, base: &RequestHeaders) -> (r: Result<RequestHeaders, PolishApiError>)
        ensures
            self.signer_spec() is None ==> r matches Err(PolishApiError::Config(_)),
            self.signer_spec() matches Some(k) ==> (r is Ok <==> rs256_signs(
                k.0,
                signing_input_of(header_segment_of(k.1), payload@),
            )),
            self.signer_spec() matches Some(k) ==> match r {
                Ok(h) => with_signature(h, *base, signed_token_of(k.0, k.1, payload@)),
                Err(e) => e is Signing,
            },
    {
        let signature = match self.sign_payload(payload) {
            Ok(t) => t,
            Err(e) => {
                return Err(e);
            },
        };
        Ok(RequestHeaders {
            authorization: base.authorization.clone(),
            accept_encoding: base.accept_encoding.clone(),
            accept_language: base.accept_language.clone(),
            accept_charset: base.accept_charset.clone(),
            x_jws_signature: signature,
            x_request_id: base.x_request_id,
        })
    }
}

/// `Bearer ` followed by a non-empty token.
pub open spec fn is_bearer_header(s: Seq<char>) -> bool {
    s.len() > 7 && s.subrange(0, 7) == "Bearer "@
}

/// Checks that an `Authorization` value is `Bearer ` and a non-empty token.
pub fn validate_authorization_header(auth_header: &str) -> (r: Result<(), PolishApiError>)
    ensures
        r is Ok <==> is_bearer_header(auth_header@),
        r matches Err(e) ==> e is Validation,
{
    let cs = chars_of(auth_header);
    let prefix = chars_of("Bearer ");
    proof {
        reveal_strlit("Bearer ");
    }
    if cs.len() < 7 {
        return Err(PolishApiError::Validation("Authorization header must start with 'Bearer '".to_owned()));
    }
    let mut k: usize = 0;
    while k < 7
        invariant
            cs.len() >= 7,
            cs@ == auth_header@,
            prefix@ == "Bearer "@,
            prefix@.len() == 7,
            k <= 7,
            forall|j: int| 0 <= j < k ==> cs@[j] == prefix@[j],
        decreases 7 - k,
    {
        if cs[k] != prefix[k] {
            assert(auth_header@.subrange(0, 7)[k as int] != "Bearer "@[k as int]);
            assert(!is_bearer_header(auth_header@));
            return Err(PolishApiError::Validation("Authorization header must start with 'Bearer '".to_owned()));
        }
        k += 1;
    }
    assert(cs@.subrange(0, 7) =~= "Bearer "@);
    if cs.len() == 7 {
        return Err(PolishApiError::Validation("Authorization token cannot be empty".to_owned()));
    }
    Ok(())
}

/// Checks that a request id is not the nil UUID.
pub fn validate_request_id(request_id: &RequestId) -> (r: Result<(), PolishApiError>)
    ensures
        r is Ok <==> !request_id.is_nil(),
        r matches Err(e) ==> e is Validation,
{
    if request_id.is_nil() {
        return Err(PolishApiError::Validation("Request ID cannot be nil".to_owned()));
    }
    Ok(())
}

} // verus!
