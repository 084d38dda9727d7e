//! Token issuer: builds the session token itself — the claims as a JSON
//! document, both segments base64url-encoded without padding — and has the
//! HMAC-SHA256 signature computed over the signing input. Only the signature
//! primitive is outside code; the framing is verified down to the bytes.

use vstd::prelude::*;
use vstd::string::StrSliceExecFns;
use vstd::string::StringExecFns;
use vstd::utf8::encode_utf8;

use crate::errors::AuthError;

verus! {

/// The claims a session token carries: the user's identity and the absolute
/// time at which the token expires.
pub struct Claims {
    pub email: String,
    pub exp: usize,
}

/// Every byte of `s` is ASCII.
pub open spec fn all_ascii(s: Seq<u8>) -> bool {
    forall|i: int| 0 <= i < s.len() ==> s[i] < 128
}

/// The ASCII bytes of `s`, read as characters.
pub open spec fn ascii_chars_of(s: Seq<u8>) -> Seq<char> {
    Seq::new(s.len(), |i: int| s[i] as char)
}

/// The base64url symbol for a 6-bit value: `A-Z`, `a-z`, `0-9`, `-`, `_`.
pub open spec fn b64byte(n: u8) -> u8
    recommends
        n < 64,
{
    if n < 26 {
        (65 + n) as u8
    } else if n < 52 {
        (71 + n) as u8
    } else if n < 62 {
        (n - 4) as u8
    } else if n == 62 {
        45
    } else {
        95
    }
}

/// The base64url symbols of one final group of 1 to 3 bytes, unpadded.
pub open spec fn b64_group(g: Seq<u8>) -> Seq<u8>
    recommends
        1 <= g.len() <= 3,
{
    if g.len() == 1 {
        seq![b64byte(g[0] >> 2), b64byte((g[0] & 3) << 4)]
    } else if g.len() == 2 {
        seq![
            b64byte(g[0] >> 2),
            b64byte(((g[0] & 3) << 4) | (g[1] >> 4)),
            b64byte((g[1] & 15) << 2),
        ]
    } else {
        seq![
            b64byte(g[0] >> 2),
            b64byte(((g[0] & 3) << 4) | (g[1] >> 4)),
            b64byte(((g[1] & 15) << 2) | (g[2] >> 6)),
            b64byte(g[2] & 63),
        ]
    }
}

/// base64url without padding, three input bytes a group.
pub open spec fn base64url_of(s: Seq<u8>) -> Seq<u8>
    decreases s.len(),
{
    if s.len() == 0 {
        Seq::empty()
    } else if s.len() <= 3 {
        b64_group(s)
    } else {
        b64_group(s.take(3)) + base64url_of(s.skip(3))
    }
}

/// The decimal digits of `n`, most significant first.
pub open spec fn dec_str_of(n: nat) -> Seq<u8>
    decreases n,
{
    if n < 10 {
        seq![(48 + n) as u8]
    } else {
        dec_str_of(n / 10) + seq![(48 + n % 10) as u8]
    }
}

/// A lower-case hexadecimal digit.
pub open spec fn hex_digit(n: u8) -> u8
    recommends
        n < 16,
{
    if n < 10 {
        (48 + n) as u8
    } else {
        (87 + n) as u8
    }
}

/// How one byte of a JSON string body is written: quote and backslash get a
/// backslash escape, control bytes a `\u00XX` escape, everything else (UTF-8
/// continuation bytes included) stands as it is.
pub open spec fn json_escaped_byte(b: u8) -> Seq<u8> {
    if b == 34 {
        seq![92u8, 34u8]
    } else if b == 92 {
        seq![92u8, 92u8]
    } else if b < 32 {
        seq![92u8, 117u8, 48u8, 48u8, hex_digit(b >> 4), hex_digit(b & 15)]
    } else {
        seq![b]
    }
}

/// The JSON escaping of a whole string body.
pub open spec fn json_escaped(s: Seq<u8>) -> Seq<u8>
    decreases s.len(),
{
    if s.len() == 0 {
        Seq::empty()
    } else {
        json_escaped_byte(s[0]) + json_escaped(s.drop_first())
    }
}

/// The bytes of the fixed token header document naming the HS256 algorithm.
pub open spec fn header_json() -> Seq<u8> {
    seq![
        123u8, 34u8, 97u8, 108u8, 103u8, 34u8, 58u8, 34u8, 72u8, 83u8, 50u8, 53u8, 54u8, 34u8,
        44u8, 34u8, 116u8, 121u8, 112u8, 34u8, 58u8, 34u8, 74u8, 87u8, 84u8, 34u8, 125u8,
    ]
}

/// `{"email":"` — the opening of the claims document.
pub open spec fn claims_prefix() -> Seq<u8> {
    seq![123u8, 34u8, 101u8, 109u8, 97u8, 105u8, 108u8, 34u8, 58u8, 34u8]
}

/// `","exp":` — between the escaped email and the expiry.
pub open spec fn claims_mid() -> Seq<u8> {
    seq![34u8, 44u8, 34u8, 101u8, 120u8, 112u8, 34u8, 58u8]
}

/// The claims document: the escaped email and the decimal expiry.
pub open spec fn claims_json_of(email_utf8: Seq<u8>, exp: nat) -> Seq<u8> {
    claims_prefix() + json_escaped(email_utf8) + claims_mid() + dec_str_of(exp) + seq![125u8]
}

/// What is signed: both segments base64url-encoded, joined by a dot.
pub open spec fn signing_input_of(email_utf8: Seq<u8>, exp: nat) -> Seq<u8> {
    base64url_of(header_json()) + seq![46u8] + base64url_of(claims_json_of(email_utf8, exp))
}

/// Names the HMAC-SHA256 signature segment: the base64url encoding of the
/// tag of `message` under `key`, a function of the two alone.
pub uninterp spec fn hs256_sig_of(message: Seq<u8>, key: Seq<u8>) -> Seq<char>;

/// The whole session token for an email and an expiry under a signing key.
pub open spec fn token_of(email: Seq<char>, exp: nat, key: Seq<u8>) -> Seq<char> {
    ascii_chars_of(signing_input_of(encode_utf8(email), exp)) + seq!['.'] + hs256_sig_of(
        signing_input_of(encode_utf8(email), exp),
        key,
    )
}

fn b64sym(n: u8) -> (r: u8)
    requires
        n < 64,
    ensures
        r == b64byte(n),
        r < 128,
{
    if n < 26 {
        65 + n
    } else if n < 52 {
        71 + n
    } else if n < 62 {
        n - 4
    } else if n == 62 {
        45
    } else {
        95
    }
}

/// Encodes `bytes` as unpadded base64url.
pub fn base64url_encode(bytes: &[u8]) -> (r: Vec<u8>)
    ensures
        r@ == base64url_of(bytes@),
        all_ascii(r@),
{
    let mut out: Vec<u8> = Vec::new();
    let n = bytes.len();
    let mut i: usize = 0;
    proof {
        assert(bytes@.skip(0) =~= bytes@);
        assert(out@ + base64url_of(bytes@) =~= base64url_of(bytes@));
    }
    while i < n
        invariant
            n == bytes@.len(),
            i <= n,
            i % 3 == 0 || i == n,
            base64url_of(bytes@) == out@ + base64url_of(bytes@.skip(i as int)),
            all_ascii(out@),
        decreases n - i,
    {
        let ghost rest = bytes@.skip(i as int);
        let b0 = bytes[i];
        assert(b0 >> 2 < 64 && (b0 & 3) << 4 < 64) by (bit_vector);
        if i + 3 <= n {
            let b1 = bytes[i + 1];
            let b2 = bytes[i + 2];
            assert(((b0 & 3) << 4) | (b1 >> 4) < 64 && (b1 & 15) << 2 < 64) by (bit_vector);
            assert(((b1 & 15) << 2) | (b2 >> 6) < 64 && b2 & 63 < 64) by (bit_vector);
            out.push(b64sym(b0 >> 2));
            out.push(b64sym(((b0 & 3) << 4) | (b1 >> 4)));
            out.push(b64sym(((b1 & 15) << 2) | (b2 >> 6)));
            out.push(b64sym(b2 & 63));
            proof {
                assert(rest.take(3) =~= seq![b0, b1, b2]);
                if rest.len() == 3 {
                    assert(rest.take(3) =~= rest);
                    assert(rest.skip(3) =~= Seq::<u8>::empty());
                    assert(b64_group(rest) + base64url_of(rest.skip(3)) =~= b64_group(
                        rest.take(3),
                    ));
                }
                assert(base64url_of(rest) == b64_group(rest.take(3)) + base64url_of(rest.skip(3)));
                assert(rest.skip(3) =~= bytes@.skip(i + 3));
                assert(out@ + base64url_of(bytes@.skip(i + 3)) =~= base64url_of(bytes@));
            }
            i = i + 3;
        } else if i + 2 == n {
            let b1 = bytes[i + 1];
            assert(((b0 & 3) << 4) | (b1 >> 4) < 64 && (b1 & 15) << 2 < 64) by (bit_vector);
            out.push(b64sym(b0 >> 2));
            out.push(b64sym(((b0 & 3) << 4) | (b1 >> 4)));
            out.push(b64sym((b1 & 15) << 2));
            proof {
                assert(rest =~= seq![b0, b1]);
                assert(out@ + base64url_of(bytes@.skip(n as int)) =~= base64url_of(bytes@));
            }
            i = n;
        } else {
            out.push(b64sym(b0 >> 2));
            out.push(b64sym((b0 & 3) << 4));
            proof {
                assert(rest =~= seq![b0]);
                assert(out@ + base64url_of(bytes@.skip(n as int)) =~= base64url_of(bytes@));
            }
            i = n;
        }
    }
    proof {
        assert(bytes@.skip(n as int) =~= Seq::<u8>::empty());
        assert(base64url_of(bytes@) =~= out@);
    }
    out
}

/// Appends the decimal digits of `n`.
pub fn push_dec(out: &mut Vec<u8>, n: usize)
    ensures
        final(out)@ == old(out)@ + dec_str_of(n as nat),
    decreases n,
{
    if n < 10 {
        out.push(48 + n as u8);
        assert(out@ =~= old(out)@ + dec_str_of(n as nat));
    } else {
        push_dec(out, n / 10);
        out.push(48 + (n % 10) as u8);
        assert(out@ =~= old(out)@ + dec_str_of(n as nat));
    }
}

fn hex_sym(n: u8) -> (r: u8)
    requires
        n < 16,
    ensures
        r == hex_digit(n),
{
    if n < 10 {
        48 + n
    } else {
        87 + n
    }
}

/// Appends the JSON escaping of `bytes`.
pub fn push_json_escaped(out: &mut Vec<u8>, bytes: &[u8])
    ensures
        final(out)@ == old(out)@ + json_escaped(bytes@),
{
    let n = bytes.len();
    let mut i: usize = 0;
    proof {
        assert(bytes@.skip(0) =~= bytes@);
    }
    while i < n
        invariant
            n == bytes@.len(),
            i <= n,
            out@ + json_escaped(bytes@.skip(i as int)) == old(out)@ + json_escaped(bytes@),
        decreases n - i,
    {
        let ghost rest = bytes@.skip(i as int);
        let b = bytes[i];
        if b == 34 {
            out.push(92);
            out.push(34);
        } else if b == 92 {
            out.push(92);
            out.push(92);
        } else if b < 32 {
            assert(b >> 4 < 16 && b & 15 < 16) by (bit_vector);
            out.push(92);
            out.push(117);
            out.push(48);
            out.push(48);
            out.push(hex_sym(b >> 4));
            out.push(hex_sym(b & 15));
        } else {
            out.push(b);
        }
        proof {
            assert(rest.drop_first() =~= bytes@.skip(i + 1));
            assert(out@ + json_escaped(bytes@.skip(i + 1)) =~= old(out)@ + json_escaped(bytes@));
        }
        i = i + 1;
    }
    proof {
        assert(bytes@.skip(n as int) =~= Seq::<u8>::empty());
        assert(out@ =~= old(out)@ + json_escaped(bytes@));
    }
}

fn header_bytes() -> (r: Vec<u8>)
    ensures
        r@ == header_json(),
{
    let v: Vec<u8> = vec![
        123u8, 34u8, 97u8, 108u8, 103u8, 34u8, 58u8, 34u8, 72u8, 83u8, 50u8, 53u8, 54u8, 34u8,
        44u8, 34u8, 116u8, 121u8, 112u8, 34u8, 58u8, 34u8, 74u8, 87u8, 84u8, 34u8, 125u8,
    ];
    proof {
        assert(v@ =~= header_json());
    }
    v
}

/// Builds the claims document for an email and an expiry.
pub fn build_claims_json(email: &str, exp: usize) -> (r: Vec<u8>)
    ensures
        r@ == claims_json_of(encode_utf8(email@), exp as nat),
{
    let mut out: Vec<u8> = vec![123u8, 34u8, 101u8, 109u8, 97u8, 105u8, 108u8, 34u8, 58u8, 34u8];
    proof {
        assert(out@ =~= claims_prefix());
    }
    let email_bytes = email.as_bytes_vec();
    push_json_escaped(&mut out, email_bytes.as_slice());
    out.push(34);
    out.push(44);
    out.push(34);
    out.push(101);
    out.push(120);
    out.push(112);
    out.push(34);
    out.push(58);
    proof {
        assert(out@ =~= claims_prefix() + json_escaped(encode_utf8(email@)) + claims_mid());
    }
    push_dec(&mut out, exp);
    out.push(125);
    proof {
        assert(out@ =~= claims_json_of(encode_utf8(email@), exp as nat));
    }
    out
}

/// Relies on `jsonwebtoken::crypto::sign` with `Algorithm::HS256` and a key
/// from `EncodingKey::from_secret`: the HS256 arm always returns `Ok` with
/// the unpadded base64url encoding of the HMAC-SHA256 tag of `message` under
/// `key` — a deterministic function of the two alone.
#[verifier::external_body]
fn sign_hs256(message: &[u8], key: &[u8; 32]) -> (r: String)
    ensures
        r@ == hs256_sig_of(message@, key@),
{
    let encoding_key = jsonwebtoken::EncodingKey::from_secret(key);
    match jsonwebtoken::crypto::sign(message, &encoding_key, jsonwebtoken::Algorithm::HS256) {
        Ok(sig) => sig,
        Err(_) => String::new(),
    }
}

/// Relies on `String::from_utf8`: a sequence of bytes below 128 is valid
/// UTF-8 and decodes to one character per byte.
#[verifier::external_body]
fn ascii_to_string(bytes: Vec<u8>) -> (r: String)
    requires
        all_ascii(bytes@),
    ensures
        r@.len() == bytes@.len(),
        forall|i: int| 0 <= i < bytes@.len() ==> r@[i] == bytes@[i] as char,
{
    match String::from_utf8(bytes) {
        Ok(s) => s,
        Err(_) => String::new(),
    }
}

/// Encodes the claims into a signed, tamper-evident token under the
/// process-wide symmetric key. Deterministic in claims and key; the expiry
/// is whatever the claims carry — the flows set it to issue time plus the
/// token lifetime.
pub fn generate_token(claims: Claims, jwt_secret_key: [u8; 32]) -> (r: Result<String, AuthError>)
    ensures
        r matches Ok(t) && t@ == token_of(claims.email@, claims.exp as nat, jwt_secret_key@),
{
    let ghost email_utf8 = encode_utf8(claims.email@);
    let claims_json = build_claims_json(claims.email.as_str(), claims.exp);
    let header = header_bytes();
    let mut input = base64url_encode(header.as_slice());
    input.push(46);
    let mut claims_b64 = base64url_encode(claims_json.as_slice());
    let ghost claims_b64_view = claims_b64@;
    input.append(&mut claims_b64);
    proof {
        assert(input@ =~= signing_input_of(email_utf8, claims.exp as nat));
        assert forall|i: int| 0 <= i < input@.len() implies input@[i] < 128 by {
            let h = base64url_of(header_json());
            if i < h.len() {
            } else if i == h.len() {
            } else {
                assert(input@[i] == claims_b64_view[i - h.len() - 1]);
            }
        }
    }
    let sig = sign_hs256(input.as_slice(), &jwt_secret_key);
    let ghost input_view = input@;
    let mut token = ascii_to_string(input);
    proof {
        assert(token@ =~= ascii_chars_of(input_view));
    }
    token.append(".");
    token.append(sig.as_str());
    proof {
        reveal_strlit(".");
        assert("."@ =~= seq!['.']);
        assert(token@ =~= token_of(claims.email@, claims.exp as nat, jwt_secret_key@));
    }
    Ok(token)
}

} // verus!
