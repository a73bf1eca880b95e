//! Credential signature for the AUTH handshake.
//!
//! The service verifies `SHA-256(clientId ++ timestamp ++ hex(SHA-256(secret)))`
//! rendered as lowercase hex, so the exact byte-for-byte form is an external
//! interface contract, not an internal choice.

use vstd::prelude::*;

use crate::codec::{hex_digit, push_bytes};
use sha2::Digest;

verus! {

/// SHA-256 digest of a byte string; the digest itself is left abstract.
pub uninterp spec fn sha256_of(data: Seq<u8>) -> Seq<u8>;

/// Relies on `sha2::Sha256`: the digest is 32 bytes long and depends on the
/// input bytes alone.
#[verifier::external_body]
fn sha256(data: &[u8]) -> (r: Vec<u8>)
    ensures
        r@ == sha256_of(data@),
        r@.len() == 32,
{
    let mut hasher = sha2::Sha256::new();
    hasher.update(data);
    hasher.finalize().to_vec()
}

/// Lowercase hex rendering of a byte string, high nibble first.
pub open spec fn hex_of(data: Seq<u8>) -> Seq<u8>
    decreases data.len(),
{
    if data.len() == 0 {
        Seq::empty()
    } else {
        seq![hex_digit((data.first() >> 4) as nat), hex_digit((data.first() & 0x0f) as nat)]
            + hex_of(data.drop_first())
    }
}

/// Relies on `hex::encode`: two lowercase hex digits per byte, high nibble
/// first.
#[verifier::external_body]
fn hex_bytes(data: &[u8]) -> (r: Vec<u8>)
    ensures
        r@ == hex_of(data@),
{
    hex::encode(data).into_bytes()
}

/// A lowercase hex digit byte.
pub open spec fn is_hex_lower(b: u8) -> bool {
    (0x30 <= b && b <= 0x39) || (0x61 <= b && b <= 0x66)
}

/// Hex rendering doubles the length and yields lowercase digits only.
pub proof fn lemma_hex_of_shape(data: Seq<u8>)
    ensures
        hex_of(data).len() == 2 * data.len(),
        forall|k: int| 0 <= k < hex_of(data).len() ==> is_hex_lower(#[trigger] hex_of(data)[k]),
    decreases data.len(),
{
    if data.len() > 0 {
        lemma_hex_of_shape(data.drop_first());
        let b = data.first();
        assert((b >> 4) < 16 && (b & 0x0f) < 16) by (bit_vector);
        assert(is_hex_lower(hex_digit((b >> 4) as nat)));
        assert(is_hex_lower(hex_digit((b & 0x0f) as nat)));
        assert forall|k: int|
            0 <= k < hex_of(data).len() implies is_hex_lower(#[trigger] hex_of(data)[k]) by {
            if k >= 2 {
                assert(hex_of(data)[k] == hex_of(data.drop_first())[k - 2]);
            }
        }
    }
}

/// The credential proof sent with AUTH, as lowercase hex bytes.
pub open spec fn sig_of(client_id: Seq<u8>, timestamp: Seq<u8>, secret: Seq<u8>) -> Seq<u8> {
    hex_of(sha256_of(client_id + timestamp + hex_of(sha256_of(secret))))
}

/// Computes the credential proof from the client identity, the decimal
/// timestamp text and the shared secret.
pub fn compute_signature(client_id: &[u8], timestamp: &[u8], api_secret: &[u8]) -> (r: Vec<u8>)
    ensures
        r@ == sig_of(client_id@, timestamp@, api_secret@),
        r@.len() == 64,
        forall|k: int| 0 <= k < r@.len() ==> is_hex_lower(#[trigger] r@[k]),
{
    let secret_digest = sha256(api_secret);
    let secret_hex = hex_bytes(secret_digest.as_slice());
    let mut buf: Vec<u8> = Vec::new();
    push_bytes(&mut buf, client_id);
    push_bytes(&mut buf, timestamp);
    push_bytes(&mut buf, secret_hex.as_slice());
    let digest = sha256(buf.as_slice());
    proof {
        lemma_hex_of_shape(digest@);
    }
    hex_bytes(digest.as_slice())
}

/// Law: the signature is deterministic — two computations from identical
/// inputs yield identical signatures.
pub proof fn lemma_signature_deterministic(
    c1: Seq<u8>,
    t1: Seq<u8>,
    s1: Seq<u8>,
    c2: Seq<u8>,
    t2: Seq<u8>,
    s2: Seq<u8>,
)
    requires
        c1 == c2,
        t1 == t2,
        s1 == s2,
    ensures
        sig_of(c1, t1, s1) == sig_of(c2, t2, s2),
{
}

} // verus!
