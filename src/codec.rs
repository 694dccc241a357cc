//! Candid framing of the one-number messages exchanged with the remote actor.

use vstd::prelude::*;

verus! {

#[verifier::external_type_specification]
#[verifier::external_body]
pub struct ExPrincipal(candid::Principal);

#[verifier::external_type_specification]
#[verifier::external_body]
pub struct ExCandidError(candid::Error);

/// The Candid message that carries the single `nat64` argument `n`, if it can be built.
pub uninterp spec fn candid_u64_args(n: u64) -> Option<Seq<u8>>;

/// The `nat64` that the Candid message `b` carries as its single value, if it is one.
pub uninterp spec fn candid_u64_reply(b: Seq<u8>) -> Option<u64>;

/// Relies on `candid::encode_args` applied to the one-element tuple `(n,)`.
#[verifier::external_body]
pub(crate) fn encode_u64_arg(n: u64) -> (r: Result<Vec<u8>, candid::Error>)
    ensures
        r is Ok <==> candid_u64_args(n) is Some,
        r matches Ok(b) ==> candid_u64_args(n) == Some(b@),
{
    candid::encode_args((n,))
}

/// Relies on `candid::decode_one::<u64>`: reads a message that carries one `nat64`.
#[verifier::external_body]
pub(crate) fn decode_u64_reply(b: &Vec<u8>) -> (r: Result<u64, candid::Error>)
    ensures
        r is Ok <==> candid_u64_reply(b@) is Some,
        r matches Ok(x) ==> candid_u64_reply(b@) == Some(x),
{
    candid::decode_one::<u64>(b.as_slice())
}

} // verus!
