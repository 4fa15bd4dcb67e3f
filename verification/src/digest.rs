//! The challenge authenticator: a keyed MD5 digest over the tunnel id, the
//! shared secret and the peer's challenge.

use vstd::prelude::*;
use crate::bytes::{be16, push_be16};

verus! {

/// The MD5 digest of a byte string, as the `md5` crate computes it.
pub uninterp spec fn md5_of(data: Seq<u8>) -> [u8; 16];

/// Calls `md5::compute` on `data`. The digest is a function of the bytes
/// alone; the contract gives it the name `md5_of` and claims nothing else
/// about it.
#[verifier::external_body]
fn md5_digest(data: &[u8]) -> (digest: [u8; 16])
    ensures
        digest == md5_of(data@),
{
    md5::compute(data).0
}

/// The byte string that is hashed to answer a challenge: the tunnel id in
/// big-endian order, then the secret, then the challenge.
pub open spec fn response_input(tunnel_id: u16, secret: Seq<u8>, challenge: Seq<u8>) -> Seq<u8> {
    be16(tunnel_id) + secret + challenge
}

/// The response owed to `challenge` on tunnel `tunnel_id` under `secret`.
pub open spec fn response_of(tunnel_id: u16, secret: Seq<u8>, challenge: Seq<u8>) -> [u8; 16] {
    md5_of(response_input(tunnel_id, secret, challenge))
}

/// Assembles the byte string that `compute_response` hashes.
pub fn build_response_input(tunnel_id: u16, secret: &[u8], challenge: &[u8]) -> (input: Vec<u8>)
    ensures
        input@ == response_input(tunnel_id, secret@, challenge@),
{
    let mut input: Vec<u8> = Vec::new();
    push_be16(&mut input, tunnel_id);
    input.extend_from_slice(secret);
    input.extend_from_slice(challenge);
    assert(input@ =~= response_input(tunnel_id, secret@, challenge@));
    input
}

/// Computes the 16-byte response to a challenge. Neither the secret nor the
/// challenge is constrained in length; both may be empty. The result depends
/// on the three arguments alone.
pub fn compute_response(tunnel_id: u16, secret: &[u8], challenge: &[u8]) -> (response: [u8; 16])
    ensures
        response == response_of(tunnel_id, secret@, challenge@),
{
    let input = build_response_input(tunnel_id, secret, challenge);
    md5_digest(input.as_slice())
}

/// The response is a function of the tunnel id, the secret and the
/// challenge: equal arguments give equal responses.
pub proof fn lemma_response_deterministic(
    tunnel_id: u16,
    secret: Seq<u8>,
    challenge: Seq<u8>,
    other_tunnel_id: u16,
    other_secret: Seq<u8>,
    other_challenge: Seq<u8>,
)
    requires
        tunnel_id == other_tunnel_id,
        secret =~= other_secret,
        challenge =~= other_challenge,
    ensures
        response_of(tunnel_id, secret, challenge) == response_of(
            other_tunnel_id,
            other_secret,
            other_challenge,
        ),
{
}

} // verus!
