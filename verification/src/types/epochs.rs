//! The epochs queries of Osmosis.
use crate::proto;
use crate::proto::{MsgProto, ProtoError, WireMessage, uint64_1_decode};
use crate::types::Msg;
use vstd::prelude::*;

verus! {

/// Asks for the current epoch of the epoch series `identifier`.
#[derive(Clone, Debug, PartialEq, Eq, PartialOrd, Ord, Default)]
pub struct QueryCurrentEpochRequest {
    pub identifier: String,
}

impl QueryCurrentEpochRequest {
    /// The wire form of the request.
    pub fn into_proto(&self) -> (p: proto::QueryCurrentEpochRequest)
        ensures
            p.identifier == self.identifier,
    {
        proto::QueryCurrentEpochRequest { identifier: self.identifier.clone() }
    }

    /// The request read from its wire form.
    pub fn from_proto(p: &proto::QueryCurrentEpochRequest) -> (r: QueryCurrentEpochRequest)
        ensures
            r.identifier == p.identifier,
    {
        QueryCurrentEpochRequest { identifier: p.identifier.clone() }
    }
}

impl Msg for QueryCurrentEpochRequest {
    type Proto = proto::QueryCurrentEpochRequest;

    open spec fn spec_wire_bytes(&self) -> Seq<u8> {
        crate::wire::opt_string_field(1, self.identifier@)
    }

    fn to_proto(&self) -> (p: proto::QueryCurrentEpochRequest) {
        self.into_proto()
    }
}

/// The number of the current epoch.
#[derive(Clone, Debug, PartialEq, Eq, PartialOrd, Ord, Default)]
pub struct QueryCurrentEpochResponse {
    pub current_epoch: u64,
}

impl QueryCurrentEpochResponse {
    /// The wire form of the response.
    pub fn into_proto(&self) -> (p: proto::QueryCurrentEpochResponse)
        ensures
            p.current_epoch == self.current_epoch,
    {
        proto::QueryCurrentEpochResponse { current_epoch: self.current_epoch }
    }

    /// The response read from its wire form.
    pub fn from_proto(p: &proto::QueryCurrentEpochResponse) -> (r: QueryCurrentEpochResponse)
        ensures
            r.current_epoch == p.current_epoch,
    {
        QueryCurrentEpochResponse { current_epoch: p.current_epoch }
    }

    /// The response read from its Protobuf bytes.
    pub fn decode(bytes: &[u8]) -> (res: Result<QueryCurrentEpochResponse, ProtoError>)
        ensures
            res is Ok <==> uint64_1_decode(bytes@, 0) is Some,
            res matches Ok(m) ==> uint64_1_decode(bytes@, 0) == Some(m.current_epoch),
    {
        match proto::QueryCurrentEpochResponse::decode(bytes) {
            Ok(p) => Ok(QueryCurrentEpochResponse::from_proto(&p)),
            Err(e) => Err(e),
        }
    }
}

} // verus!
