//! The lockup queries of Osmosis.
use crate::proto;
use crate::proto::{ProtoError, WireMessage, string1_decode};
use vstd::prelude::*;

verus! {

/// Asks how much of `denom` is locked for at least `duration`.
#[derive(Debug, PartialEq, Eq, PartialOrd, Ord)]
pub struct LockedDenomRequest {
    /// Sender's address.
    pub denom: String,
    pub duration: core::time::Duration,
}

/// The amount locked, as decimal text.
#[derive(Clone, Debug, PartialEq, Eq, PartialOrd, Ord, Default)]
pub struct LockedDenomResponse {
    pub amount: String,
}

impl LockedDenomResponse {
    /// The wire form of the response.
    pub fn into_proto(self) -> (p: proto::LockedDenomResponse)
        ensures
            p.amount == self.amount,
    {
        proto::LockedDenomResponse { amount: self.amount }
    }

    /// The response read from its wire form.
    pub fn from_proto(p: &proto::LockedDenomResponse) -> (r: LockedDenomResponse)
        ensures
            r.amount == p.amount,
    {
        LockedDenomResponse { amount: p.amount.clone() }
    }

    /// The Protobuf bytes of the response.
    pub fn into_bytes(self) -> (res: Result<Vec<u8>, ProtoError>)
        ensures
            res matches Ok(b) && b@ == crate::wire::opt_string_field(1, self.amount@),
    {
        Ok(self.into_proto().encode_to_vec())
    }

    /// The response read from its Protobuf bytes.
    pub fn decode(bytes: &[u8]) -> (res: Result<LockedDenomResponse, ProtoError>)
        ensures
            res is Ok <==> string1_decode(bytes@, Seq::empty()) is Some,
            res matches Ok(m) ==> string1_decode(bytes@, Seq::empty()) == Some(m.amount@),
    {
        match proto::LockedDenomResponse::decode(bytes) {
            Ok(p) => Ok(LockedDenomResponse::from_proto(&p)),
            Err(e) => Err(e),
        }
    }
}

} // verus!
