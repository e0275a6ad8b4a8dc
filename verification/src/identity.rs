//! Hello identity material: the Ed25519 public key of a local seed, and
//! the single-use hello nonce (16 CSPRNG bytes, base64url without
//! padding).

use vstd::prelude::*;
use crate::text::concat2;
use base64::Engine;

verus! {

/// The Ed25519 public key derived from a 32-byte secret seed.
pub uninterp spec fn ed25519_public_key(seed: Seq<u8>) -> Seq<u8>;

/// The public key of a seed, as `ed25519_dalek` derives it
/// (`SigningKey::from_bytes(seed).verifying_key().to_bytes()`): the
/// contract names the result as a function of the seed alone.
#[verifier::external_body]
fn ed25519_public_key_of(seed: &[u8; 32]) -> (res: [u8; 32])
    ensures
        res@ == ed25519_public_key(seed@),
{
    ed25519_dalek::SigningKey::from_bytes(seed).verifying_key().to_bytes()
}

/// The hello public key of the local identity seed.
pub fn local_public_key(seed: &[u8; 32]) -> (res: [u8; 32])
    ensures
        res@ == ed25519_public_key(seed@),
{
    ed25519_public_key_of(seed)
}

/// The base64url digit of a 6-bit value.
pub open spec fn b64_digit(v: nat) -> char {
    if v < 26 {
        ((v + 65) as u32) as char
    } else if v < 52 {
        ((v + 71) as u32) as char
    } else if v < 62 {
        ((v - 4) as u32) as char
    } else if v == 62 {
        '-'
    } else {
        '_'
    }
}

/// Base64url text of `bytes` without padding (RFC 4648 §5): each group
/// of three bytes gives four digits, a trailing pair three, a trailing
/// byte two.
pub open spec fn base64_url(bytes: Seq<u8>) -> Seq<char>
    decreases bytes.len(),
{
    if bytes.len() == 0 {
        Seq::empty()
    } else if bytes.len() == 1 {
        seq![b64_digit((bytes[0] / 4) as nat), b64_digit(((bytes[0] % 4) * 16) as nat)]
    } else if bytes.len() == 2 {
        seq![
            b64_digit((bytes[0] / 4) as nat),
            b64_digit(((bytes[0] % 4) * 16 + bytes[1] / 16) as nat),
            b64_digit(((bytes[1] % 16) * 4) as nat),
        ]
    } else {
        seq![
            b64_digit((bytes[0] / 4) as nat),
            b64_digit(((bytes[0] % 4) * 16 + bytes[1] / 16) as nat),
            b64_digit(((bytes[1] % 16) * 4 + bytes[2] / 64) as nat),
            b64_digit((bytes[2] % 64) as nat),
        ] + base64_url(bytes.subrange(3, bytes.len() as int))
    }
}

/// Base64url without padding, by `base64`'s `URL_SAFE_NO_PAD` engine.
#[verifier::external_body]
fn base64_url_no_pad(bytes: &[u8]) -> (res: String)
    requires
        bytes@.len() <= 1_000_000,
    ensures
        res@ == base64_url(bytes@),
{
    base64::engine::general_purpose::URL_SAFE_NO_PAD.encode(bytes)
}

/// Sixteen bytes from the operating system's CSPRNG (`getrandom`), or
/// the error's text. Nothing is stated of the bytes.
#[verifier::external_body]
fn random_bytes16() -> (res: Result<[u8; 16], String>) {
    let mut bytes = [0u8; 16];
    match getrandom::getrandom(&mut bytes) {
        Ok(()) => Ok(bytes),
        Err(error) => Err(error.to_string()),
    }
}

/// The nonce text made from a draw: the drawn bytes in base64url, or
/// `CSPRNG failure: {error}` when the draw failed.
pub open spec fn nonce_of_draw(drawn: Result<Seq<u8>, Seq<char>>) -> Result<Seq<char>, Seq<char>> {
    match drawn {
        Ok(b) => Ok(base64_url(b)),
        Err(d) => Err("CSPRNG failure: "@ + d),
    }
}

/// A string result by its views.
pub open spec fn text_result_view(res: Result<String, String>) -> Result<Seq<char>, Seq<char>> {
    match res {
        Ok(s) => Ok(s@),
        Err(e) => Err(e@),
    }
}

/// A draw of sixteen bytes by its views.
pub open spec fn draw_view(drawn: Result<[u8; 16], String>) -> Result<Seq<u8>, Seq<char>> {
    match drawn {
        Ok(b) => Ok(b@),
        Err(d) => Err(d@),
    }
}

/// The nonce made from a draw of the CSPRNG: the drawn bytes in base64url
/// without padding, or `CSPRNG failure: {error}` when the draw failed.
pub fn nonce_from_draw(drawn: Result<[u8; 16], String>) -> (res: Result<String, String>)
    ensures
        text_result_view(res) == nonce_of_draw(draw_view(drawn)),
{
    match drawn {
        Ok(bytes) => Ok(base64_url_no_pad(&bytes)),
        Err(detail) => {
            proof {
                reveal_strlit("CSPRNG failure: ");
            }
            Err(concat2("CSPRNG failure: ", detail.as_str()))
        },
    }
}

/// A fresh single-use hello nonce: 16 CSPRNG bytes in base64url without
/// padding (22 characters, above the 16-character wire floor). A CSPRNG
/// failure yields `CSPRNG failure: {error}`. The bytes are whatever the
/// draw gave: the result is that of `nonce_from_draw` on some draw of
/// sixteen bytes.
pub fn generate_nonce() -> (res: Result<String, String>)
    ensures
        exists|drawn: Result<Seq<u8>, Seq<char>>| (drawn is Ok ==> drawn->Ok_0.len() == 16)
            && #[trigger] nonce_of_draw(drawn) == text_result_view(res),
        match res {
            Ok(nonce) => exists|bytes: Seq<u8>| bytes.len() == 16 && #[trigger] base64_url(bytes) == nonce@,
            Err(message) => exists|detail: Seq<char>| message@ == "CSPRNG failure: "@ + detail,
        },
{
    let drawn = random_bytes16();
    let ghost d = draw_view(drawn);
    proof {
        if drawn is Ok {
            assert(drawn->Ok_0@.len() == 16);
        }
    }
    let res = nonce_from_draw(drawn);
    proof {
        assert(nonce_of_draw(d) == text_result_view(res));
        if res is Ok {
            assert(base64_url(d->Ok_0) == res->Ok_0@);
        } else {
            assert(res->Err_0@ == "CSPRNG failure: "@ + d->Err_0);
        }
    }
    res
}

/// Sixteen bytes encode to twenty-two digits.
pub proof fn lemma_nonce_length(bytes: Seq<u8>)
    requires
        bytes.len() == 16,
    ensures
        base64_url(bytes).len() == 22,
{
    let b1 = bytes.subrange(3, 16);
    let b2 = b1.subrange(3, 13);
    let b3 = b2.subrange(3, 10);
    let b4 = b3.subrange(3, 7);
    let b5 = b4.subrange(3, 4);
    assert(base64_url(b5).len() == 2);
    assert(base64_url(b4).len() == 6);
    assert(base64_url(b3).len() == 10);
    assert(base64_url(b2).len() == 14);
    assert(base64_url(b1).len() == 18);
}

/// A generated nonce meets the wire floor of 16 characters.
pub proof fn law_nonce_meets_wire_floor(nonce: Seq<char>)
    requires
        exists|bytes: Seq<u8>| bytes.len() == 16 && #[trigger] base64_url(bytes) == nonce,
    ensures
        nonce.len() == 22,
        nonce.len() >= 16,
{
    let bytes = choose|bytes: Seq<u8>| bytes.len() == 16 && #[trigger] base64_url(bytes) == nonce;
    lemma_nonce_length(bytes);
}

} // verus!
