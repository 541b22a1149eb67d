//! Private-session authentication: the login signature is the HMAC-SHA256 of
//! a timestamped verification path under the account secret, base64-encoded.

use base64::Engine;
use hmac::{Hmac, KeyInit, Mac};
use sha2::Sha256;
use vstd::prelude::*;

use crate::decimal::{format_u64, spec_digits};
use crate::types::Timestamp;

verus! {

/// The HMAC-SHA256 tag of `msg` under `key`; a function of its arguments
/// alone, computed by the outside implementation.
pub uninterp spec fn hmac_sha256_of(key: Seq<u8>, msg: Seq<u8>) -> Seq<u8>;

/// The standard padded base64 rendering of `bytes`; a function of its
/// argument alone, computed by the outside implementation.
pub uninterp spec fn base64_of(bytes: Seq<u8>) -> Seq<u8>;

/// Relies on hmac's `Hmac<Sha256>`: the tag is a function of key and message
/// alone and is 32 bytes wide (SHA-256's output size); keys of any length
/// are accepted, so the construction cannot fail.
#[verifier::external_body]
fn hmac_sha256(key: &[u8], msg: &[u8]) -> (r: Vec<u8>)
    ensures
        r@ == hmac_sha256_of(key@, msg@),
        r@.len() == 32,
{
    let mut mac = Hmac::<Sha256>::new_from_slice(key).expect("any key length is accepted");
    mac.update(msg);
    mac.finalize().into_bytes().to_vec()
}

/// Relies on base64's standard engine: the rendering is a function of the
/// input alone, four output bytes for every started group of three.
#[verifier::external_body]
fn base64_encode(bytes: &[u8]) -> (r: Vec<u8>)
    ensures
        r@ == base64_of(bytes@),
        r@.len() == 4 * ((bytes@.len() + 2) / 3),
{
    base64::engine::general_purpose::STANDARD.encode(bytes).into_bytes()
}

/// The fixed verification path signed at login.
pub open spec fn spec_login_suffix() -> Seq<u8> {
    seq![
        71u8,
        69u8,
        84u8,
        47u8,
        117u8,
        115u8,
        101u8,
        114u8,
        115u8,
        47u8,
        115u8,
        101u8,
        108u8,
        102u8,
        47u8,
        118u8,
        101u8,
        114u8,
        105u8,
        102u8,
        121u8,
    ]
}

/// The bytes signed at login: the timestamp's digits followed by the request
/// method and verification path.
pub fn build_login_payload(timestamp: Timestamp) -> (r: Vec<u8>)
    ensures
        r@ == spec_digits(timestamp as int) + spec_login_suffix(),
{
    let mut out: Vec<u8> = Vec::new();
    format_u64(timestamp, &mut out);
    let suffix: [u8; 21] = [
        71,
        69,
        84,
        47,
        117,
        115,
        101,
        114,
        115,
        47,
        115,
        101,
        108,
        102,
        47,
        118,
        101,
        114,
        105,
        102,
        121,
    ];
    let mut i: usize = 0;
    proof {
        assert(suffix@ =~= spec_login_suffix());
        assert(out@ =~= spec_digits(timestamp as int) + spec_login_suffix().take(0));
    }
    while i < 21
        invariant
            i <= 21,
            suffix@ == spec_login_suffix(),
            out@ == spec_digits(timestamp as int) + spec_login_suffix().take(i as int),
        decreases 21 - i,
    {
        out.push(suffix[i]);
        proof {
            assert(spec_login_suffix().take(i + 1).drop_last() =~= spec_login_suffix().take(
                i as int,
            ));
            assert(out@ =~= spec_digits(timestamp as int) + spec_login_suffix().take(i + 1));
        }
        i = i + 1;
    }
    proof {
        assert(spec_login_suffix().take(21) =~= spec_login_suffix());
    }
    out
}

/// The login signature: base64 of the HMAC-SHA256 tag of the timestamped
/// verification path under the account secret. Always 44 bytes.
pub fn build_sign(secret_key: &[u8], timestamp: Timestamp) -> (r: Vec<u8>)
    ensures
        r@ == base64_of(
            hmac_sha256_of(secret_key@, spec_digits(timestamp as int) + spec_login_suffix()),
        ),
        r@.len() == 44,
{
    let payload = build_login_payload(timestamp);
    let tag = hmac_sha256(secret_key, payload.as_slice());
    base64_encode(tag.as_slice())
}

} // verus!
