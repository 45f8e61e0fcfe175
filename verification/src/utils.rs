//! Hashing, and the names derived from it.

use crate::types::XorName;
use vstd::prelude::*;

verus! {

/// The SHA-512 digest of a message.
pub uninterp spec fn sha512_digest(message: Seq<u8>) -> Seq<u8>;

/// `sodiumoxide::crypto::hash::sha512::hash`: the 64 bytes it returns are the
/// SHA-512 digest of `message`, a function of the message alone.
#[verifier::external_body]
fn sha512(message: &[u8]) -> (digest: [u8; 64])
    ensures
        digest@ == sha512_digest(message@),
{
    sodiumoxide::crypto::hash::sha512::hash(message).0
}

/// The digest of a message, as the network compares it.
pub fn digest(message: &[u8]) -> (digest: [u8; 64])
    ensures
        digest@ == sha512_digest(message@),
{
    sha512(message)
}

/// The name under which a client's account is kept: the digest of its
/// public signing key.
pub fn client_name(client_key: &[u8]) -> (name: XorName)
    ensures
        name@ == sha512_digest(client_key@),
{
    XorName(sha512(client_key))
}

} // verus!
