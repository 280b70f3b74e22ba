//! The incentives queries of Osmosis.
use crate::proto;
use crate::proto::{ProtoError, WireMessage};
use crate::types::Msg;
use vstd::prelude::*;

verus! {

/// Asks what rewards the locks `lock_ids` of `owner` earn up to epoch `end_epoch`.
#[derive(Clone, Debug, PartialEq, Eq, PartialOrd, Ord, Default)]
pub struct RewardsEstRequest {
    /// Sender's address.
    pub owner: String,
    pub lock_ids: Vec<u64>,
    pub end_epoch: i64,
}

/// A spot price, as decimal text.
#[derive(Clone, Debug, PartialEq, Eq, PartialOrd, Ord, Default)]
pub struct QuerySpotPriceResponse {
    pub spot_price: String,
}

impl QuerySpotPriceResponse {
    /// A response holding the given price text.
    pub fn new(spot_price: &str) -> (r: QuerySpotPriceResponse)
        ensures
            r.spot_price@ == spot_price@,
    {
        QuerySpotPriceResponse { spot_price: spot_price.to_string() }
    }

    /// The wire form of the response.
    pub fn into_proto(self) -> (p: proto::QuerySpotPriceResponse)
        ensures
            p.spot_price == self.spot_price,
    {
        proto::QuerySpotPriceResponse { spot_price: self.spot_price }
    }

    /// The response read from its wire form.
    pub fn from_proto(p: &proto::QuerySpotPriceResponse) -> (r: QuerySpotPriceResponse)
        ensures
            r.spot_price == p.spot_price,
    {
        QuerySpotPriceResponse { spot_price: p.spot_price.clone() }
    }

    /// The Protobuf bytes of the response.
    pub fn into_bytes(self) -> (res: Result<Vec<u8>, ProtoError>)
        ensures
            res matches Ok(b) && b@ == crate::wire::opt_string_field(1, self.spot_price@),
    {
        Ok(self.into_proto().encode_to_vec())
    }
}

impl Msg for QuerySpotPriceResponse {
    type Proto = proto::QuerySpotPriceResponse;

    open spec fn spec_wire_bytes(&self) -> Seq<u8> {
        crate::wire::opt_string_field(1, self.spot_price@)
    }

    fn to_proto(&self) -> (p: proto::QuerySpotPriceResponse) {
        proto::QuerySpotPriceResponse { spot_price: self.spot_price.clone() }
    }
}

} // verus!
