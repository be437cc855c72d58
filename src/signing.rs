//! Request signing for the exchange APIs: HMAC-SHA256 over a payload that
//! each exchange defines, sent as lowercase hex.

use vstd::prelude::*;

use crate::text::{decimal_of, decimal_text, digit_chars, digit_text};

verus! {

/// The HMAC-SHA256 tag of `message` under `key`.
pub uninterp spec fn hmac_sha256_of(key: Seq<u8>, message: Seq<u8>) -> Seq<u8>;

/// Relies on `hmac::Hmac<sha2::Sha256>`: `Mac::new_from_slice` accepts a key
/// of any length, and `finalize` gives the tag of all bytes passed to
/// `update`.
#[verifier::external_body]
fn hmac_sha256(key: &[u8], message: &[u8]) -> (r: Vec<u8>)
    ensures
        r@ == hmac_sha256_of(key@, message@),
{
    match <hmac::Hmac<sha2::Sha256> as hmac::Mac>::new_from_slice(key) {
        Ok(mut mac) => {
            hmac::Mac::update(&mut mac, message);
            hmac::Mac::finalize(mac).into_bytes().to_vec()
        },
        Err(_) => Vec::new(),
    }
}

/// Lowercase hex, two digits for each byte, most significant first.
pub open spec fn hex_of(b: Seq<u8>) -> Seq<char>
    decreases b.len(),
{
    if b.len() == 0 {
        Seq::empty()
    } else {
        hex_of(b.drop_last()) + seq![
            digit_chars()[(b.last() / 16) as int],
            digit_chars()[(b.last() % 16) as int],
        ]
    }
}

/// Lowercase hex of `bytes`.
pub fn hex_lower(bytes: &Vec<u8>) -> (r: String)
    ensures
        r@ == hex_of(bytes@),
{
    let mut out = String::new();
    let mut i: usize = 0;
    while i < bytes.len()
        invariant
            i <= bytes@.len(),
            out@ == hex_of(bytes@.take(i as int)),
        decreases bytes@.len() - i,
    {
        let b = bytes[i];
        out.append(digit_text(b / 16));
        out.append(digit_text(b % 16));
        proof {
            let t = bytes@.take(i + 1);
            assert(t.drop_last() =~= bytes@.take(i as int));
            assert(out@ =~= hex_of(t));
        }
        i = i + 1;
    }
    assert(bytes@.take(i as int) =~= bytes@);
    out
}

/// The text that MEXC signs: the request time first, then the request's own
/// parameters, if any.
pub open spec fn mexc_payload(now: nat, parameters: Seq<char>) -> Seq<char> {
    if parameters.len() == 0 {
        "timestamp="@ + decimal_of(now)
    } else {
        "timestamp="@ + decimal_of(now) + "&"@ + parameters
    }
}

/// The query of a signed MEXC request: the signature, then the signed
/// payload.
pub open spec fn mexc_query(secret: Seq<u8>, now: nat, parameters: Seq<char>) -> Seq<char> {
    let payload = mexc_payload(now, parameters);
    "signature="@ + hex_of(hmac_sha256_of(secret, vstd::utf8::encode_utf8(payload))) + "&"@
        + payload
}

/// The text that Coinbase signs: time, method, path and body, one after
/// another.
pub open spec fn coinbase_payload(
    time: nat,
    method: Seq<char>,
    path: Seq<char>,
    body: Seq<char>,
) -> Seq<char> {
    decimal_of(time) + method + path + body
}

/// Signs `payload` under `secret` and gives the tag in hex.
fn sign_text(secret: &[u8], payload: &String) -> (r: String)
    ensures
        r@ == hex_of(hmac_sha256_of(secret@, vstd::utf8::encode_utf8(payload@))),
{
    let tag = hmac_sha256(secret, payload.as_str().as_bytes());
    hex_lower(&tag)
}

/// The signed query of a MEXC request made at `now` (server time, in
/// milliseconds) with the request's own `parameters`.
pub fn mexc_signed_query(secret: &[u8], now: u64, parameters: &str) -> (r: String)
    ensures
        r@ == mexc_query(secret@, now as nat, parameters@),
{
    let prefix = "timestamp=".to_owned();
    let payload = if parameters.unicode_len() == 0 {
        prefix.concat(decimal_text(now as u128).as_str())
    } else {
        prefix.concat(decimal_text(now as u128).as_str()).concat("&").concat(parameters)
    };
    assert(payload@ =~= mexc_payload(now as nat, parameters@));
    let signature = sign_text(secret, &payload);
    let r = "signature=".to_owned().concat(signature.as_str()).concat("&").concat(payload.as_str());
    assert(r@ =~= mexc_query(secret@, now as nat, parameters@));
    r
}

/// The hex signature of a Coinbase request at `time` (server time, in
/// seconds).
pub fn coinbase_signature(secret: &[u8], time: u64, method: &str, path: &str, body: &str) -> (r:
    String)
    ensures
        r@ == hex_of(
            hmac_sha256_of(
                secret@,
                vstd::utf8::encode_utf8(coinbase_payload(time as nat, method@, path@, body@)),
            ),
        ),
{
    let payload = decimal_text(time as u128).concat(method).concat(path).concat(body);
    assert(payload@ =~= coinbase_payload(time as nat, method@, path@, body@));
    sign_text(secret, &payload)
}

} // verus!
