//! Base64 (RFC 4648) as used by this crate: the URL-safe alphabet without
//! padding for JWS segments, and the standard padded alphabet for PEM bodies.
//! The encoders and decoders are the `base64` crate's; the spec functions
//! here say what they compute.

use base64::Engine as _;
use vstd::prelude::*;

verus! {

/// The character that stands for the six-bit value `v`.
pub open spec fn sextet_char(v: int, url_safe: bool) -> char {
    if v < 26 {
        (v + 65) as char
    } else if v < 52 {
        (v - 26 + 97) as char
    } else if v < 62 {
        (v - 52 + 48) as char
    } else if v == 62 {
        if url_safe { '-' } else { '+' }
    } else {
        if url_safe { '_' } else { '/' }
    }
}

/// RFC 4648 base64 of `b`: each group of three bytes becomes four characters;
/// a final group of one or two bytes becomes two or three characters, followed
/// by `=` up to four when `pad` holds.
pub open spec fn base64_of(b: Seq<u8>, url_safe: bool, pad: bool) -> Seq<char>
    decreases b.len(),
{
    if b.len() == 0 {
        Seq::empty()
    } else if b.len() == 1 {
        let s = seq![sextet_char((b[0] as int) / 4, url_safe), sextet_char(((b[0] as int) % 4) * 16, url_safe)];
        if pad { s + seq!['=', '='] } else { s }
    } else if b.len() == 2 {
        let s = seq![
            sextet_char((b[0] as int) / 4, url_safe),
            sextet_char(((b[0] as int) % 4) * 16 + (b[1] as int) / 16, url_safe),
            sextet_char(((b[1] as int) % 16) * 4, url_safe),
        ];
        if pad { s.push('=') } else { s }
    } else {
        seq![
            sextet_char((b[0] as int) / 4, url_safe),
            sextet_char(((b[0] as int) % 4) * 16 + (b[1] as int) / 16, url_safe),
            sextet_char(((b[1] as int) % 16) * 4 + (b[2] as int) / 64, url_safe),
            sextet_char((b[2] as int) % 64, url_safe),
        ] + base64_of(b.subrange(3, b.len() as int), url_safe, pad)
    }
}

/// Base64url without padding (RFC 4648 section 5), as JWS uses it.
pub open spec fn base64url_of(b: Seq<u8>) -> Seq<char> {
    base64_of(b, true, false)
}

/// Standard base64 with padding (RFC 4648 section 4), as PEM bodies use it.
pub open spec fn base64_std_of(b: Seq<u8>) -> Seq<char> {
    base64_of(b, false, true)
}

/// A character of the base64url alphabet: `[A-Za-z0-9_-]`.
pub open spec fn is_base64url_char(c: char) -> bool {
    ||| 'A' <= c <= 'Z'
    ||| 'a' <= c <= 'z'
    ||| '0' <= c <= '9'
    ||| c == '-'
    ||| c == '_'
}

/// Relies on `base64`'s `URL_SAFE_NO_PAD` engine, `Engine::encode`.
#[verifier::external_body]
pub(crate) fn encode_base64url(bytes: &[u8]) -> (r: String)
    ensures
        r@ == base64url_of(bytes@),
{
    base64::engine::general_purpose::URL_SAFE_NO_PAD.encode(bytes)
}

/// Relies on `base64`'s `URL_SAFE_NO_PAD` engine, `Engine::decode`. That
/// engine rejects padding and non-zero trailing bits, so it accepts exactly
/// the strings that its encoder produces.
#[verifier::external_body]
pub(crate) fn decode_base64url(s: &str) -> (r: Option<Vec<u8>>)
    ensures
        r is Some <==> exists|b: Seq<u8>| #[trigger] base64url_of(b) == s@,
        r matches Some(b) ==> base64url_of(b@) == s@,
{
    base64::engine::general_purpose::URL_SAFE_NO_PAD.decode(s).ok()
}

/// Relies on `base64`'s `STANDARD` engine, `Engine::decode`, applied to the
/// text made of `chars`. That engine requires canonical padding and zero
/// trailing bits, so it accepts exactly the strings that its encoder produces.
#[verifier::external_body]
pub(crate) fn decode_base64_std(chars: &Vec<char>) -> (r: Option<Vec<u8>>)
    ensures
        r is Some <==> exists|b: Seq<u8>| #[trigger] base64_std_of(b) == chars@,
        r matches Some(b) ==> base64_std_of(b@) == chars@,
{
    let text: String = chars.iter().collect();
    base64::engine::general_purpose::STANDARD.decode(text).ok()
}

proof fn lemma_sextet_char_injective(v: int, w: int, url_safe: bool)
    requires
        0 <= v < 64,
        0 <= w < 64,
        sextet_char(v, url_safe) == sextet_char(w, url_safe),
    ensures
        v == w,
{
    let cv = sextet_char(v, url_safe);
    let cw = sextet_char(w, url_safe);
    assert(cv as int == cw as int);
}

proof fn lemma_sextet_char_is_not_pad(v: int, url_safe: bool)
    requires
        0 <= v < 64,
    ensures
        sextet_char(v, url_safe) != '=',
{
}

/// Each character of an unpadded base64url string is in the alphabet, and
/// the string is empty only for empty input.
pub proof fn lemma_base64url_alphabet(b: Seq<u8>)
    ensures
        forall|i: int| 0 <= i < base64url_of(b).len() ==> is_base64url_char(#[trigger] base64url_of(b)[i]),
        base64url_of(b).len() == 0 <==> b.len() == 0,
    decreases b.len(),
{
    reveal_with_fuel(base64_of, 2);
    if b.len() >= 3 {
        lemma_base64url_alphabet(b.subrange(3, b.len() as int));
    }
}

proof fn lemma_base64_chars(b: Seq<u8>, url_safe: bool, pad: bool)
    requires
        b.len() >= 1,
    ensures
        ({
            let e = base64_of(b, url_safe, pad);
            let (b0, b1, b2) = (b[0] as int, b[1] as int, b[2] as int);
            &&& e[0] == sextet_char(b0 / 4, url_safe)
            &&& b.len() == 1 ==> {
                &&& e.len() == if pad { 4int } else { 2int }
                &&& e[1] == sextet_char((b0 % 4) * 16, url_safe)
                &&& pad ==> e[2] == '=' && e[3] == '='
            }
            &&& b.len() == 2 ==> {
                &&& e.len() == if pad { 4int } else { 3int }
                &&& e[1] == sextet_char((b0 % 4) * 16 + b1 / 16, url_safe)
                &&& e[2] == sextet_char((b1 % 16) * 4, url_safe)
                &&& pad ==> e[3] == '='
            }
            &&& b.len() >= 3 ==> {
                &&& e.len() >= 4
                &&& e[1] == sextet_char((b0 % 4) * 16 + b1 / 16, url_safe)
                &&& e[2] == sextet_char((b1 % 16) * 4 + b2 / 64, url_safe)
                &&& e[3] == sextet_char(b2 % 64, url_safe)
                &&& e.subrange(4, e.len() as int) == base64_of(b.subrange(3, b.len() as int), url_safe, pad)
            }
        }),
{
    let e = base64_of(b, url_safe, pad);
    let (b0, b1, b2) = (b[0] as int, b[1] as int, b[2] as int);
    if b.len() == 1 {
        let s = seq![sextet_char(b0 / 4, url_safe), sextet_char((b0 % 4) * 16, url_safe)];
        if pad {
            assert(e == s + seq!['=', '=']);
        } else {
            assert(e == s);
        }
    } else if b.len() == 2 {
        let s = seq![
            sextet_char(b0 / 4, url_safe),
            sextet_char((b0 % 4) * 16 + b1 / 16, url_safe),
            sextet_char((b1 % 16) * 4, url_safe),
        ];
        if pad {
            assert(e == s.push('='));
        } else {
            assert(e == s);
        }
    } else {
        let s = seq![
            sextet_char(b0 / 4, url_safe),
            sextet_char((b0 % 4) * 16 + b1 / 16, url_safe),
            sextet_char((b1 % 16) * 4 + b2 / 64, url_safe),
            sextet_char(b2 % 64, url_safe),
        ];
        let rest = base64_of(b.subrange(3, b.len() as int), url_safe, pad);
        assert(e == s + rest);
        assert(e.subrange(4, e.len() as int) =~= rest);
    }
}

/// Base64 encoding is one-to-one.
pub proof fn lemma_base64_injective(a: Seq<u8>, b: Seq<u8>, url_safe: bool, pad: bool)
    requires
        base64_of(a, url_safe, pad) == base64_of(b, url_safe, pad),
    ensures
        a == b,
    decreases a.len(),
{
    let ea = base64_of(a, url_safe, pad);
    let eb = base64_of(b, url_safe, pad);
    if a.len() == 0 || b.len() == 0 {
        assert(a.len() == 0 && b.len() == 0) by {
            if a.len() > 0 {
                lemma_base64_chars(a, url_safe, pad);
            }
            if b.len() > 0 {
                lemma_base64_chars(b, url_safe, pad);
            }
        }
        assert(a =~= b);
    } else {
        lemma_base64_chars(a, url_safe, pad);
        lemma_base64_chars(b, url_safe, pad);
        let (a0, b0, a1, b1, a2, b2) = (a[0] as int, b[0] as int, a[1] as int, b[1] as int, a[2] as int, b[2] as int);
        lemma_sextet_char_injective(a0 / 4, b0 / 4, url_safe);
        if a.len() >= 3 {
            lemma_sextet_char_is_not_pad((a1 % 16) * 4 + a2 / 64, url_safe);
            lemma_sextet_char_is_not_pad(a2 % 64, url_safe);
        }
        if b.len() >= 3 {
            lemma_sextet_char_is_not_pad((b1 % 16) * 4 + b2 / 64, url_safe);
            lemma_sextet_char_is_not_pad(b2 % 64, url_safe);
        }
        if a.len() == 2 {
            lemma_sextet_char_is_not_pad((a1 % 16) * 4, url_safe);
        }
        if b.len() == 2 {
            lemma_sextet_char_is_not_pad((b1 % 16) * 4, url_safe);
        }
        if a.len() == 1 {
            assert(b.len() == 1);
            lemma_sextet_char_injective((a0 % 4) * 16, (b0 % 4) * 16, url_safe);
            assert(a =~= b);
        } else if a.len() == 2 {
            assert(b.len() == 2);
            lemma_sextet_char_injective((a0 % 4) * 16 + a1 / 16, (b0 % 4) * 16 + b1 / 16, url_safe);
            lemma_sextet_char_injective((a1 % 16) * 4, (b1 % 16) * 4, url_safe);
            assert(a =~= b);
        } else {
            assert(b.len() >= 3);
            lemma_sextet_char_injective((a0 % 4) * 16 + a1 / 16, (b0 % 4) * 16 + b1 / 16, url_safe);
            lemma_sextet_char_injective((a1 % 16) * 4 + a2 / 64, (b1 % 16) * 4 + b2 / 64, url_safe);
            lemma_sextet_char_injective(a2 % 64, b2 % 64, url_safe);
            let ta = a.subrange(3, a.len() as int);
            let tb = b.subrange(3, b.len() as int);
            lemma_base64_injective(ta, tb, url_safe, pad);
            assert(a =~= b) by {
                assert forall|i: int| 0 <= i < a.len() implies a[i] == b[i] by {
                    if i >= 3 {
                        assert(a[i] == ta[i - 3]);
                        assert(b[i] == tb[i - 3]);
                    }
                }
            }
        }
    }
}

} // verus!
