//! Detached JWS (RFC 7515 compact form with the payload segment left empty,
//! RFC 7797 unencoded payload) signed with RS256.
//!
//! The protected header is serialised with the fixed field order
//! `alg`, `kid`, `b64`, `crit`:
//! `{"alg":"RS256","kid":<kid as a JSON string>,"b64":false,"crit":["b64"]}`.
//! This order is a choice of this crate, not a requirement of RFC 7515: a
//! verifier reads the header segment as it was sent.

use crate::encoding::{
    base64_std_of, base64url_of, decode_base64url, encode_base64url, is_base64url_char,
    lemma_base64_injective, lemma_base64url_alphabet,
};
use crate::error::PolishApiError;
use crate::pem::{law_pem_reencoding, pem_body_of, pem_der_of, pem_to_der};
use crate::rsa::{
    rs256_signature, rs256_signs, rs256_valid, rs256_verify, rsa_der_accepted, rsa_modulus_len,
    rsa_public_key_of, RsaKey,
};
use crate::text::chars_of;
use vstd::prelude::*;
use vstd::utf8::*;

verus! {

/// A lowercase hexadecimal digit.
pub open spec fn hex_digit(v: int) -> char {
    if v < 10 {
        (v + 48) as char
    } else {
        (v - 10 + 97) as char
    }
}

/// How `serde_json` writes one character inside a JSON string: `"` and `\`
/// escaped with a backslash, the control characters with a short escape
/// where JSON has one and as `\u00xx` otherwise, anything else unchanged.
pub open spec fn json_escape_char(c: char) -> Seq<char> {
    if c == '"' {
        seq!['\\', '"']
    } else if c == '\\' {
        seq!['\\', '\\']
    } else if c == '\u{8}' {
        seq!['\\', 'b']
    } else if c == '\t' {
        seq!['\\', 't']
    } else if c == '\n' {
        seq!['\\', 'n']
    } else if c == '\u{c}' {
        seq!['\\', 'f']
    } else if c == '\r' {
        seq!['\\', 'r']
    } else if (c as int) < 0x20 {
        seq!['\\', 'u', '0', '0', hex_digit((c as int) / 16), hex_digit((c as int) % 16)]
    } else {
        seq![c]
    }
}

/// The characters of `s`, each escaped for a JSON string.
pub open spec fn json_escaped(s: Seq<char>) -> Seq<char>
    decreases s.len(),
{
    if s.len() == 0 {
        Seq::empty()
    } else {
        json_escaped(s.drop_last()) + json_escape_char(s.last())
    }
}

/// The JSON string literal that `serde_json` writes for `s`: `s` escaped,
/// between double quotes.
pub open spec fn json_string_of(s: Seq<char>) -> Seq<char> {
    seq!['"'] + json_escaped(s) + seq!['"']
}

/// Relies on `serde_json::to_string` applied to a `&str` (its
/// `format_escaped_str`): the JSON string literal for it. A `str`
/// serialises into a `Vec` writer, which does not fail.
#[verifier::external_body]
fn json_string(s: &str) -> (r: Option<String>)
    ensures
        r is Some,
        r matches Some(j) ==> j@ == json_string_of(s@),
{
    serde_json::to_string(s).ok()
}

/// The protected header for key id `kid`, as JSON text.
pub open spec fn header_json_of(kid: Seq<char>) -> Seq<char> {
    "{\"alg\":\"RS256\",\"kid\":"@ + json_string_of(kid) + ",\"b64\":false,\"crit\":[\"b64\"]}"@
}

/// The first segment of a token signed under key id `kid`: the base64url of
/// the UTF-8 header.
pub open spec fn header_segment_of(kid: Seq<char>) -> Seq<char> {
    base64url_of(encode_utf8(header_json_of(kid)))
}

/// The bytes that are signed: the header segment, a dot, and the payload
/// itself (not base64-encoded, since `b64` is false).
pub open spec fn signing_input_of(header_b64: Seq<char>, payload: Seq<char>) -> Seq<u8> {
    encode_utf8(header_b64 + seq!['.'] + payload)
}

/// A detached token: header segment, an empty payload segment, and the
/// base64url signature.
pub open spec fn detached_jws_of(header_b64: Seq<char>, sig: Seq<u8>) -> Seq<char> {
    header_b64 + seq!['.', '.'] + base64url_of(sig)
}

/// The token that the signer with private key `der` and key id `kid`
/// produces for `payload`.
pub open spec fn signed_token_of(der: Seq<u8>, kid: Seq<char>, payload: Seq<char>) -> Seq<char> {
    let h = header_segment_of(kid);
    detached_jws_of(h, rs256_signature(der, signing_input_of(h, payload)))
}

pub open spec fn no_dot(s: Seq<char>) -> bool {
    forall|i: int| 0 <= i < s.len() ==> s[i] != '.'
}

/// `t` is `h..g` with no other dot: exactly two dots, and nothing between them.
pub open spec fn is_detached_form(t: Seq<char>, h: Seq<char>, g: Seq<char>) -> bool {
    &&& t == h + seq!['.', '.'] + g
    &&& no_dot(h)
    &&& no_dot(g)
}

/// The header and signature segments of `t`, where `t` has the detached form.
pub open spec fn split_detached(t: Seq<char>) -> Option<(Seq<char>, Seq<char>)> {
    if exists|h: Seq<char>, g: Seq<char>| is_detached_form(t, h, g) {
        Some(choose|h: Seq<char>, g: Seq<char>| is_detached_form(t, h, g))
    } else {
        None
    }
}

/// `s` is the base64url (unpadded) encoding of some bytes.
pub open spec fn is_base64url(s: Seq<char>) -> bool {
    exists|b: Seq<u8>| base64url_of(b) == s
}

/// The bytes whose base64url encoding is `s` (unique by
/// `lemma_base64_injective`).
pub open spec fn base64url_decode(s: Seq<char>) -> Seq<u8> {
    choose|b: Seq<u8>| base64url_of(b) == s
}

pub open spec fn all_base64url(s: Seq<char>) -> bool {
    forall|i: int| 0 <= i < s.len() ==> is_base64url_char(s[i])
}

/// `t` matches `^[A-Za-z0-9_-]+\.\.[A-Za-z0-9_-]+$`.
pub open spec fn matches_detached_pattern(t: Seq<char>) -> bool {
    exists|h: Seq<char>, g: Seq<char>|
        {
            &&& t == h + seq!['.', '.'] + g
            &&& h.len() > 0
            &&& g.len() > 0
            &&& all_base64url(h)
            &&& all_base64url(g)
        }
}

proof fn lemma_form_first_dot(t: Seq<char>, h: Seq<char>, g: Seq<char>, i: int)
    requires
        is_detached_form(t, h, g),
        0 <= i < t.len(),
        t[i] == '.',
        forall|k: int| 0 <= k < i ==> t[k] != '.',
    ensures
        h.len() == i,
{
    if h.len() < i {
        assert(t[h.len() as int] == '.');
    } else if h.len() > i {
        assert(h[i] == t[i]);
    }
}

proof fn lemma_form_unique(t: Seq<char>, h1: Seq<char>, g1: Seq<char>, h2: Seq<char>, g2: Seq<char>)
    requires
        is_detached_form(t, h1, g1),
        is_detached_form(t, h2, g2),
    ensures
        h1 == h2,
        g1 == g2,
{
    assert(t[h1.len() as int] == '.');
    assert forall|k: int| 0 <= k < h1.len() implies t[k] != '.' by {
        assert(t[k] == h1[k]);
    }
    lemma_form_first_dot(t, h2, g2, h1.len() as int);
    assert(h1 =~= t.subrange(0, h1.len() as int));
    assert(h2 =~= t.subrange(0, h1.len() as int));
    assert(g1 =~= t.subrange(h1.len() + 2int, t.len() as int));
    assert(g2 =~= t.subrange(h1.len() + 2int, t.len() as int));
}

proof fn lemma_split_detached_is(t: Seq<char>, h: Seq<char>, g: Seq<char>)
    requires
        is_detached_form(t, h, g),
    ensures
        split_detached(t) == Some((h, g)),
{
    let (h2, g2) = choose|h2: Seq<char>, g2: Seq<char>| is_detached_form(t, h2, g2);
    lemma_form_unique(t, h, g, h2, g2);
}

proof fn lemma_base64url_decode_is(s: Seq<char>, b: Seq<u8>)
    requires
        base64url_of(b) == s,
    ensures
        is_base64url(s),
        base64url_decode(s) == b,
{
    let c = base64url_decode(s);
    lemma_base64_injective(c, b, true, false);
}

proof fn lemma_all_base64url_no_dot(s: Seq<char>)
    requires
        all_base64url(s),
    ensures
        no_dot(s),
{
    assert forall|i: int| 0 <= i < s.len() implies s[i] != '.' by {
        assert(is_base64url_char(s[i]));
    }
}

proof fn lemma_header_segment_nonempty(kid: Seq<char>)
    ensures
        header_segment_of(kid).len() > 0,
{
    let j = header_json_of(kid);
    reveal_strlit("{\"alg\":\"RS256\",\"kid\":");
    assert(j.len() > 0);
    assert(encode_utf8(j) == encode_scalar(j[0] as u32) + encode_utf8(j.drop_first()));
    lemma_base64url_alphabet(encode_utf8(j));
}

/// A detached token over a non-empty signature matches
/// `^[A-Za-z0-9_-]+\.\.[A-Za-z0-9_-]+$`.
pub proof fn law_detached_token_pattern(kid: Seq<char>, sig: Seq<u8>)
    requires
        sig.len() > 0,
    ensures
        matches_detached_pattern(detached_jws_of(header_segment_of(kid), sig)),
{
    let h = header_segment_of(kid);
    let g = base64url_of(sig);
    lemma_header_segment_nonempty(kid);
    lemma_base64url_alphabet(encode_utf8(header_json_of(kid)));
    lemma_base64url_alphabet(sig);
    assert(all_base64url(h));
    assert(all_base64url(g));
}

/// A detached token parses back into its header segment and signature
/// segment, and the header segment decodes to exactly the UTF-8 protected
/// header for the key id.
pub proof fn law_header_segment_decodes(kid: Seq<char>, sig: Seq<u8>)
    ensures
        split_detached(detached_jws_of(header_segment_of(kid), sig)) == Some(
            (header_segment_of(kid), base64url_of(sig)),
        ),
        is_base64url(header_segment_of(kid)),
        base64url_decode(header_segment_of(kid)) == encode_utf8(header_json_of(kid)),
        base64url_decode(base64url_of(sig)) == sig,
{
    let hb = encode_utf8(header_json_of(kid));
    let h = header_segment_of(kid);
    let g = base64url_of(sig);
    lemma_base64url_alphabet(hb);
    lemma_base64url_alphabet(sig);
    assert(all_base64url(h));
    assert(all_base64url(g));
    lemma_all_base64url_no_dot(h);
    lemma_all_base64url_no_dot(g);
    lemma_split_detached_is(detached_jws_of(h, sig), h, g);
    lemma_base64url_decode_is(h, hb);
    lemma_base64url_decode_is(g, sig);
}


/// The number of dots in `t`.
pub open spec fn dot_count(t: Seq<char>) -> nat
    decreases t.len(),
{
    if t.len() == 0 {
        0
    } else {
        dot_count(t.drop_last()) + if t.last() == '.' { 1nat } else { 0nat }
    }
}

proof fn lemma_dot_count_concat(a: Seq<char>, b: Seq<char>)
    ensures
        dot_count(a + b) == dot_count(a) + dot_count(b),
    decreases b.len(),
{
    if b.len() > 0 {
        assert((a + b).drop_last() =~= a + b.drop_last());
        lemma_dot_count_concat(a, b.drop_last());
    } else {
        assert(a + b =~= a);
    }
}

proof fn lemma_dot_count_zero(s: Seq<char>)
    ensures
        dot_count(s) == 0 <==> no_dot(s),
    decreases s.len(),
{
    if s.len() > 0 {
        lemma_dot_count_zero(s.drop_last());
        if no_dot(s) {
            assert(no_dot(s.drop_last()));
        }
        if dot_count(s) == 0 {
            assert forall|i: int| 0 <= i < s.len() implies s[i] != '.' by {
                if i < s.len() - 1 {
                    assert(s.drop_last()[i] == s[i]);
                }
            }
        }
    }
}

/// A token parses exactly when it has two dots and they are adjacent: zero,
/// one or more than two dots, or a non-empty middle segment, are rejected.
pub proof fn law_detached_form_iff_two_adjacent_dots(t: Seq<char>)
    ensures
        split_detached(t) is Some <==> {
            &&& dot_count(t) == 2
            &&& exists|i: int| 0 <= i && i + 1 < t.len() && t[i] == '.' && #[trigger] t[i + 1] == '.'
        },
{
    let two = seq!['.', '.'];
    assert(dot_count(two) == 2) by {
        assert(two.drop_last() =~= seq!['.']);
        assert(seq!['.'].drop_last() =~= Seq::<char>::empty());
        assert(dot_count(Seq::<char>::empty()) == 0);
        assert(dot_count(seq!['.']) == 1);
    }
    if split_detached(t) is Some {
        let (h, g) = choose|h: Seq<char>, g: Seq<char>| is_detached_form(t, h, g);
        lemma_dot_count_concat(h, two);
        lemma_dot_count_concat(h + two, g);
        lemma_dot_count_zero(h);
        lemma_dot_count_zero(g);
        let i = h.len() as int;
        assert(t[i] == '.' && t[i + 1] == '.');
    }
    if dot_count(t) == 2 && exists|i: int| 0 <= i && i + 1 < t.len() && t[i] == '.' && #[trigger] t[i + 1] == '.' {
        let i = choose|i: int| 0 <= i && i + 1 < t.len() && t[i] == '.' && #[trigger] t[i + 1] == '.';
        let h = t.subrange(0, i);
        let g = t.subrange(i + 2, t.len() as int);
        assert(t =~= h + two + g);
        lemma_dot_count_concat(h, two);
        lemma_dot_count_concat(h + two, g);
        lemma_dot_count_zero(h);
        lemma_dot_count_zero(g);
        lemma_split_detached_is(t, h, g);
    }
}

/// A signer loaded from a PEM text whose body is the base64 of `der` signs
/// every payload exactly as a signer loaded from `der` with the same key id.
pub proof fn law_pem_signer_signs_as_der(t: Seq<char>, der: Seq<u8>, kid: Seq<char>, payload: Seq<char>)
    requires
        pem_body_of(t) == Some(base64_std_of(der)),
    ensures
        pem_der_of(t) == Some(der),
        signed_token_of(pem_der_of(t)->0, kid, payload) == signed_token_of(der, kid, payload),
{
    law_pem_reencoding(t, der);
}


/// Sign then verify: where the signature of a token is valid under the
/// signer's public key (as `JwsSigner::sign` ensures of every token it
/// returns), the token has the detached form, its signature segment is
/// base64url, and the check that `JwsSigner::verify` makes on it with the
/// same payload succeeds.
pub proof fn law_sign_then_verify(der: Seq<u8>, kid: Seq<char>, payload: Seq<char>)
    requires
        rs256_valid(
            rsa_public_key_of(der),
            signing_input_of(header_segment_of(kid), payload),
            rs256_signature(der, signing_input_of(header_segment_of(kid), payload)),
        ),
    ensures
        split_detached(signed_token_of(der, kid, payload)) matches Some((h, g)) && {
            &&& is_base64url(g)
            &&& rs256_valid(rsa_public_key_of(der), signing_input_of(h, payload), base64url_decode(g))
        },
{
    let h = header_segment_of(kid);
    let sig = rs256_signature(der, signing_input_of(h, payload));
    law_header_segment_decodes(kid, sig);
}

/// The two segments of a detached token.
pub struct DetachedJws {
    pub header_b64: String,
    pub signature_b64: String,
}

/// Splits a detached token `header..signature`. Fails with `Format` where
/// the input does not have exactly two dots, and with `NotDetached` where it
/// has two dots with a payload segment between them.
pub fn parse(jws: &str) -> (r: Result<DetachedJws, PolishApiError>)
    ensures
        r is Ok <==> split_detached(jws@) is Some,
        r matches Ok(p) ==> split_detached(jws@) == Some((p.header_b64@, p.signature_b64@)),
        r matches Err(PolishApiError::Format(_)) <==> dot_count(jws@) != 2,
        r matches Err(PolishApiError::NotDetached(_)) <==> dot_count(jws@) == 2 && split_detached(jws@) is None,
        r matches Err(e) ==> e is Format || e is NotDetached,
{
    let cs = chars_of(jws);
    let n = cs.len();
    let mut dots: usize = 0;
    let mut c: usize = 0;
    while c < n
        invariant
            n == cs@.len(),
            cs@ == jws@,
            c <= n,
            dots <= c,
            dots == dot_count(cs@.subrange(0, c as int)),
        decreases n - c,
    {
        proof {
            assert(cs@.subrange(0, c + 1).drop_last() =~= cs@.subrange(0, c as int));
        }
        if cs[c] == '.' {
            dots += 1;
        }
        c += 1;
    }
    proof {
        assert(cs@.subrange(0, n as int) =~= cs@);
        law_detached_form_iff_two_adjacent_dots(jws@);
    }
    if dots != 2 {
        return Err(PolishApiError::Format("a compact JWS has exactly two dots".to_owned()));
    }
    let mut i: usize = 0;
    while i < n
        invariant
            n == cs@.len(),
            cs@ == jws@,
            i <= n,
            forall|k: int| 0 <= k < i ==> cs@[k] != '.',
        ensures
            i <= n,
            forall|k: int| 0 <= k < i ==> cs@[k] != '.',
            i < n ==> cs@[i as int] == '.',
        decreases n - i,
    {
        if cs[i] == '.' {
            break;
        }
        i += 1;
    }
    if i == n {
        proof {
            assert forall|h: Seq<char>, g: Seq<char>| !is_detached_form(jws@, h, g) by {
                if is_detached_form(jws@, h, g) {
                    assert(jws@[h.len() as int] == '.');
                }
            }
        }
        return Err(PolishApiError::NotDetached("the payload segment of a detached JWS must be empty".to_owned()));
    }
    if i + 1 == n || cs[i + 1] != '.' {
        proof {
            assert forall|h: Seq<char>, g: Seq<char>| !is_detached_form(jws@, h, g) by {
                if is_detached_form(jws@, h, g) {
                    lemma_form_first_dot(jws@, h, g, i as int);
                    assert(jws@[i + 1] == '.');
                }
            }
        }
        return Err(PolishApiError::NotDetached("the payload segment of a detached JWS must be empty".to_owned()));
    }
    let mut j: usize = i + 2;
    while j < n
        invariant
            n == cs@.len(),
            cs@ == jws@,
            i + 2 <= j <= n,
            forall|k: int| i + 2 <= k < j ==> cs@[k] != '.',
        ensures
            i + 2 <= j <= n,
            forall|k: int| i + 2 <= k < j ==> cs@[k] != '.',
            j < n ==> cs@[j as int] == '.',
        decreases n - j,
    {
        if cs[j] == '.' {
            break;
        }
        j += 1;
    }
    if j < n {
        proof {
            assert forall|h: Seq<char>, g: Seq<char>| !is_detached_form(jws@, h, g) by {
                if is_detached_form(jws@, h, g) {
                    lemma_form_first_dot(jws@, h, g, i as int);
                    assert(g[j - i - 2] == jws@[j as int]);
                }
            }
        }
        return Err(PolishApiError::NotDetached("the payload segment of a detached JWS must be empty".to_owned()));
    }
    let header_b64 = jws.substring_char(0, i).to_owned();
    let signature_b64 = jws.substring_char(i + 2, n).to_owned();
    proof {
        let h = header_b64@;
        let g = signature_b64@;
        assert(jws@ =~= h + seq!['.', '.'] + g);
        assert(no_dot(h)) by {
            assert forall|k: int| 0 <= k < h.len() implies h[k] != '.' by {
                assert(h[k] == cs@[k]);
            }
        }
        assert(no_dot(g)) by {
            assert forall|k: int| 0 <= k < g.len() implies g[k] != '.' by {
                assert(g[k] == cs@[k + i + 2]);
            }
        }
        lemma_split_detached_is(jws@, h, g);
    }
    Ok(DetachedJws { header_b64, signature_b64 })
}


/// Signs request payloads with one RSA private key and reports one key id.
/// Immutable after construction: any number of callers may share it.
pub struct JwsSigner {
    key: RsaKey,
    key_id: String,
}

impl View for JwsSigner {
    /// The DER private key and the key id.
    type V = (Seq<u8>, Seq<char>);

    closed spec fn view(&self) -> (Seq<u8>, Seq<char>) {
        (self.key@, self.key_id@)
    }
}

/// The token `header_b64..base64url(signature)`.
pub fn compose_detached(header_b64: &str, signature: &[u8]) -> (t: String)
    ensures
        t@ == header_b64@ + seq!['.', '.'] + base64url_of(signature@),
{
    let sig_b64 = encode_base64url(signature);
    let mut t = header_b64.to_owned();
    t.append("..");
    t.append(sig_b64.as_str());
    proof {
        reveal_strlit("..");
    }
    t
}

impl JwsSigner {
    /// A signer over the DER `RSAPrivateKey` `private_key_der`. Fails with
    /// `KeyFormat` where the bytes are not an RSA private key.
    pub fn new(private_key_der: &[u8], key_id: String) -> (r: Result<JwsSigner, PolishApiError>)
        ensures
            r is Ok <==> rsa_der_accepted(private_key_der@),
            r matches Ok(s) ==> s@ == (private_key_der@, key_id@),
            r matches Err(e) ==> e matches PolishApiError::KeyFormat(m) && m@ == "not an RSA private key"@,
    {
        match RsaKey::from_der(private_key_der) {
            Some(key) => Ok(JwsSigner { key, key_id }),
            None => Err(PolishApiError::KeyFormat("not an RSA private key".to_owned())),
        }
    }

    /// A signer over the first PEM block of `private_key_pem` (any label).
    /// Fails with `KeyFormat` where the delimiters are missing, the body is
    /// not base64, or the bytes are not an RSA private key.
    pub fn from_pem(private_key_pem: &str, key_id: String) -> (r: Result<JwsSigner, PolishApiError>)
        ensures
            r is Ok <==> (pem_der_of(private_key_pem@) matches Some(d) && rsa_der_accepted(d)),
            r matches Ok(s) ==> s@ == (pem_der_of(private_key_pem@)->0, key_id@),
            r matches Err(e) ==> e matches PolishApiError::KeyFormat(m) && (m@ == "not an RSA private key"@
                || m@ == "missing PEM delimiters"@ || m@ == "invalid base64 in PEM body"@),
    {
        match pem_to_der(private_key_pem) {
            Ok(der) => JwsSigner::new(der.as_slice(), key_id),
            Err(e) => Err(e),
        }
    }

    /// The key id that every token of this signer carries.
    pub fn key_id(&self) -> (r: &str)
        ensures
            r@ == self@.1,
    {
        self.key_id.as_str()
    }

    /// The detached JWS of `payload`. Fails with `Signing` exactly where
    /// `ring` fails to sign the signing input with this key.
    pub fn sign(&self, payload: &str) -> (r: Result<String, PolishApiError>)
        ensures
            r is Ok <==> rs256_signs(self@.0, signing_input_of(header_segment_of(self@.1), payload@)),
            r matches Ok(t) ==> {
                &&& t@ == signed_token_of(self@.0, self@.1, payload@)
                &&& rs256_valid(
                    rsa_public_key_of(self@.0),
                    signing_input_of(header_segment_of(self@.1), payload@),
                    rs256_signature(self@.0, signing_input_of(header_segment_of(self@.1), payload@)),
                )
                &&& rs256_signature(self@.0, signing_input_of(header_segment_of(self@.1), payload@)).len()
                    == rsa_modulus_len(self@.0)
                &&& matches_detached_pattern(t@)
            },
            r matches Err(e) ==> e is Signing,
    {
        let kid_json = json_string(self.key_id.as_str()).unwrap();
        let mut header = "{\"alg\":\"RS256\",\"kid\":".to_owned();
        header.append(kid_json.as_str());
        header.append(",\"b64\":false,\"crit\":[\"b64\"]}");
        let header_b64 = encode_base64url(header.as_str().as_bytes());
        let mut input = header_b64.clone();
        input.append(".");
        input.append(payload);
        proof {
            reveal_strlit(".");
            assert(header@ == header_json_of(self@.1));
            assert(input@ =~= header_segment_of(self@.1) + seq!['.'] + payload@);
        }
        let sig = match self.key.sign(input.as_str().as_bytes()) {
            Some(sig) => sig,
            None => {
                return Err(PolishApiError::Signing("RSA signing failed".to_owned()));
            },
        };
        let t = compose_detached(header_b64.as_str(), sig.as_slice());
        proof {
            assert(self.key_id@ == self@.1);
            law_detached_token_pattern(self@.1, sig@);
        }
        Ok(t)
    }

    /// Whether `jws` is a valid signature of `payload` under this signer's
    /// public key. The signing input is rebuilt from the token's own header
    /// segment. Fails with `Format` where the token is not of the detached
    /// form or its signature segment is not base64url; a well-formed token
    /// with a wrong signature gives `Ok(false)`. A token with a payload
    /// segment fails with `NotDetached`, as `parse` does.
    pub fn verify(&self, jws: &str, payload: &str) -> (r: Result<bool, PolishApiError>)
        ensures
            r matches Err(PolishApiError::NotDetached(_)) <==> dot_count(jws@) == 2 && split_detached(jws@) is None,
            r is Ok <==> (split_detached(jws@) matches Some((h, g)) && is_base64url(g)),
            r matches Ok(b) ==> b == rs256_valid(
                rsa_public_key_of(self@.0),
                signing_input_of((split_detached(jws@)->0).0, payload@),
                base64url_decode((split_detached(jws@)->0).1),
            ),
            r matches Err(e) ==> e is Format || e is NotDetached,
    {
        let parts = match parse(jws) {
            Ok(p) => p,
            Err(e) => {
                return Err(e);
            },
        };
        let sig = match decode_base64url(parts.signature_b64.as_str()) {
            Some(sig) => sig,
            None => {
                return Err(PolishApiError::Format("the signature segment is not base64url".to_owned()));
            },
        };
        proof {
            lemma_base64url_decode_is(parts.signature_b64@, sig@);
        }
        let mut input = parts.header_b64.clone();
        input.append(".");
        input.append(payload);
        proof {
            reveal_strlit(".");
            assert(input@ =~= parts.header_b64@ + seq!['.'] + payload@);
        }
        let public_key = self.key.public_key_der();
        Ok(rs256_verify(public_key.as_slice(), input.as_str().as_bytes(), sig.as_slice()))
    }
}

} // verus!
