//! The gamm (pool) messages and queries of Osmosis.
use crate::proto;
use crate::proto::{lemma_string1_roundtrip, MsgProto, ProtoError, WireMessage, string1_decode};
use crate::types::{coins_into_proto, coins_into_proto_vec, Coin, Msg};
use vstd::prelude::*;
use vstd::utf8::encode_utf8;

verus! {

/// One hop of a swap: the pool and the denomination it swaps into.
#[derive(Clone, Debug, PartialEq, Eq, PartialOrd, Ord, Default)]
pub struct SwapAmountInRoute {
    /// Pool
    pub pool_id: u64,
    /// Denomination out
    pub token_out_denom: String,
}

impl SwapAmountInRoute {
    /// The wire form of the route.
    pub open spec fn spec_into_proto(&self) -> proto::SwapAmountInRoute {
        proto::SwapAmountInRoute { pool_id: self.pool_id, token_out_denom: self.token_out_denom }
    }

    /// The wire form of the route.
    pub fn into_proto(&self) -> (p: proto::SwapAmountInRoute)
        ensures
            p == self.spec_into_proto(),
            p.pool_id == self.pool_id,
            p.token_out_denom == self.token_out_denom,
    {
        proto::SwapAmountInRoute {
            pool_id: self.pool_id,
            token_out_denom: self.token_out_denom.clone(),
        }
    }

    /// The route read from its wire form.
    pub fn from_proto(p: &proto::SwapAmountInRoute) -> (r: SwapAmountInRoute)
        ensures
            r.spec_into_proto() == *p,
            r.pool_id == p.pool_id,
            r.token_out_denom == p.token_out_denom,
    {
        SwapAmountInRoute { pool_id: p.pool_id, token_out_denom: p.token_out_denom.clone() }
    }
}

/// The wire forms of a list of routes, in order.
pub open spec fn routes_into_proto(rs: Seq<SwapAmountInRoute>) -> Seq<proto::SwapAmountInRoute> {
    rs.map_values(|r: SwapAmountInRoute| r.spec_into_proto())
}

/// The wire forms of a list of routes.
pub fn routes_into_proto_vec(rs: &Vec<SwapAmountInRoute>) -> (ps: Vec<proto::SwapAmountInRoute>)
    ensures
        ps@ == routes_into_proto(rs@),
{
    let mut ps: Vec<proto::SwapAmountInRoute> = Vec::new();
    let mut i: usize = 0;
    while i < rs.len()
        invariant
            i <= rs@.len(),
            ps@ == routes_into_proto(rs@.take(i as int)),
        decreases rs@.len() - i,
    {
        ps.push(rs[i].into_proto());
        assert(routes_into_proto(rs@.take((i + 1) as int)) =~= routes_into_proto(
            rs@.take(i as int),
        ).push(rs@[i as int].spec_into_proto()));
        i = i + 1;
    }
    assert(rs@.take(rs@.len() as int) =~= rs@);
    ps
}

/// The routes read from their wire forms.
pub fn routes_from_proto_vec(ps: &Vec<proto::SwapAmountInRoute>) -> (rs: Vec<SwapAmountInRoute>)
    ensures
        routes_into_proto(rs@) == ps@,
{
    let mut rs: Vec<SwapAmountInRoute> = Vec::new();
    let mut i: usize = 0;
    while i < ps.len()
        invariant
            i <= ps@.len(),
            routes_into_proto(rs@) == ps@.take(i as int),
        decreases ps@.len() - i,
    {
        let ghost before = rs@;
        let r = SwapAmountInRoute::from_proto(&ps[i]);
        rs.push(r);
        assert(routes_into_proto(rs@) =~= routes_into_proto(before).push(ps@[i as int]));
        assert(ps@.take((i + 1) as int) =~= ps@.take(i as int).push(ps@[i as int]));
        i = i + 1;
    }
    assert(ps@.take(ps@.len() as int) =~= ps@);
    rs
}

/// The first position at which `denoms` holds `denom`, if any.
pub fn find_denom(denoms: &Vec<String>, denom: &String) -> (res: Option<usize>)
    ensures
        res matches Some(i) ==> i < denoms@.len() && denoms@[i as int]@ == denom@ && forall|j: int|
            0 <= j < i ==> (#[trigger] denoms@[j])@ != denom@,
        res is None ==> forall|j: int| 0 <= j < denoms@.len() ==> (#[trigger] denoms@[j])@ != denom@,
{
    let mut i: usize = 0;
    while i < denoms.len()
        invariant
            i <= denoms@.len(),
            forall|j: int| 0 <= j < i ==> (#[trigger] denoms@[j])@ != denom@,
        decreases denoms@.len() - i,
    {
        if denoms[i] == *denom {
            return Some(i);
        }
        i = i + 1;
    }
    None
}

/// Asks for the spot price of a pool between two denominations.
#[derive(Clone, Debug, PartialEq, Eq, PartialOrd, Ord, Default)]
pub struct QuerySpotPriceRequest {
    pub pool_id: u64,
    pub token_in_denom: String,
    pub token_out_denom: String,
    pub with_swap_fee: bool,
}

impl QuerySpotPriceRequest {
    /// The wire form of the request.
    pub open spec fn spec_into_proto(&self) -> proto::QuerySpotPriceRequest {
        proto::QuerySpotPriceRequest {
            pool_id: self.pool_id,
            token_in_denom: self.token_in_denom,
            token_out_denom: self.token_out_denom,
            with_swap_fee: self.with_swap_fee,
        }
    }

    /// The wire form of the request.
    pub fn into_proto(&self) -> (p: proto::QuerySpotPriceRequest)
        ensures
            p == self.spec_into_proto(),
            p.pool_id == self.pool_id,
            p.token_in_denom == self.token_in_denom,
            p.token_out_denom == self.token_out_denom,
            p.with_swap_fee == self.with_swap_fee,
    {
        proto::QuerySpotPriceRequest {
            pool_id: self.pool_id,
            token_in_denom: self.token_in_denom.clone(),
            token_out_denom: self.token_out_denom.clone(),
            with_swap_fee: self.with_swap_fee,
        }
    }

    /// The request read from its wire form.
    pub fn from_proto(p: &proto::QuerySpotPriceRequest) -> (r: QuerySpotPriceRequest)
        ensures
            r.spec_into_proto() == *p,
            r.pool_id == p.pool_id,
            r.token_in_denom == p.token_in_denom,
            r.token_out_denom == p.token_out_denom,
            r.with_swap_fee == p.with_swap_fee,
    {
        QuerySpotPriceRequest {
            pool_id: p.pool_id,
            token_in_denom: p.token_in_denom.clone(),
            token_out_denom: p.token_out_denom.clone(),
            with_swap_fee: p.with_swap_fee,
        }
    }
}

impl Msg for QuerySpotPriceRequest {
    type Proto = proto::QuerySpotPriceRequest;

    open spec fn spec_wire_bytes(&self) -> Seq<u8> {
        self.spec_into_proto().wire_bytes()
    }

    fn to_proto(&self) -> (p: proto::QuerySpotPriceRequest) {
        self.into_proto()
    }
}

/// The spot price of a pool, as decimal text.
#[derive(Clone, Debug, PartialEq, Eq, PartialOrd, Ord, Default)]
pub struct QuerySpotPriceResponse {
    pub spot_price: String,
}

impl QuerySpotPriceResponse {
    /// A response holding the given price text.
    pub fn new(spot_price: &str) -> (r: QuerySpotPriceResponse)
        ensures
            r.spot_price@ == spot_price@,
    {
        QuerySpotPriceResponse { spot_price: spot_price.to_string() }
    }

    /// The wire form of the response.
    pub fn into_proto(self) -> (p: proto::QuerySpotPriceResponse)
        ensures
            p.spot_price == self.spot_price,
    {
        proto::QuerySpotPriceResponse { spot_price: self.spot_price }
    }

    /// The response read from its wire form.
    pub fn from_proto(p: &proto::QuerySpotPriceResponse) -> (r: QuerySpotPriceResponse)
        ensures
            r.spot_price == p.spot_price,
    {
        QuerySpotPriceResponse { spot_price: p.spot_price.clone() }
    }

    /// The Protobuf bytes of the response.
    pub fn into_bytes(self) -> (res: Result<Vec<u8>, ProtoError>)
        ensures
            res matches Ok(b) && b@ == crate::wire::opt_string_field(1, self.spot_price@),
    {
        Ok(self.into_proto().encode_to_vec())
    }

    /// The response read out of an `Any` that holds it.
    pub fn from_any(any: &proto::Any) -> (res: Result<QuerySpotPriceResponse, ProtoError>)
        requires
            any.type_url@ == proto::QuerySpotPriceResponse::spec_type_url() ==> string1_decode(
                any.value@,
                Seq::empty(),
            ) is Some,
        ensures
            res is Ok <==> any.type_url@ == proto::QuerySpotPriceResponse::spec_type_url(),
            any.type_url@ != proto::QuerySpotPriceResponse::spec_type_url() <==> res == Err::<
                QuerySpotPriceResponse,
                ProtoError,
            >(ProtoError::TypeUrlMismatch),
            res matches Ok(m) ==> string1_decode(any.value@, Seq::empty()) == Some(m.spot_price@),
    {
        match proto::QuerySpotPriceResponse::from_any(any) {
            Ok(p) => Ok(QuerySpotPriceResponse::from_proto(&p)),
            Err(e) => Err(e),
        }
    }
}

impl Msg for QuerySpotPriceResponse {
    type Proto = proto::QuerySpotPriceResponse;

    open spec fn spec_wire_bytes(&self) -> Seq<u8> {
        crate::wire::opt_string_field(1, self.spot_price@)
    }

    fn to_proto(&self) -> (p: proto::QuerySpotPriceResponse) {
        proto::QuerySpotPriceResponse { spot_price: self.spot_price.clone() }
    }
}

/// Asks how much a swap along `routes` would give for `token_in`.
#[derive(Clone, Debug, PartialEq, Eq, PartialOrd, Ord, Default)]
pub struct QuerySwapExactAmountInRequest {
    /// Sender's address.
    pub sender: String,
    pub pool_id: u64,
    pub token_in: String,
    pub routes: Vec<SwapAmountInRoute>,
}

impl QuerySwapExactAmountInRequest {
    /// The wire form of the request.
    pub fn into_proto(&self) -> (p: proto::QuerySwapExactAmountInRequest)
        ensures
            p.sender == self.sender,
            p.pool_id == self.pool_id,
            p.token_in == self.token_in,
            p.routes@ == routes_into_proto(self.routes@),
    {
        proto::QuerySwapExactAmountInRequest {
            sender: self.sender.clone(),
            pool_id: self.pool_id,
            token_in: self.token_in.clone(),
            routes: routes_into_proto_vec(&self.routes),
        }
    }

    /// The request read from its wire form.
    pub fn from_proto(p: &proto::QuerySwapExactAmountInRequest) -> (r: QuerySwapExactAmountInRequest)
        ensures
            p.sender == r.sender,
            p.pool_id == r.pool_id,
            p.token_in == r.token_in,
            p.routes@ == routes_into_proto(r.routes@),
    {
        QuerySwapExactAmountInRequest {
            sender: p.sender.clone(),
            pool_id: p.pool_id,
            token_in: p.token_in.clone(),
            routes: routes_from_proto_vec(&p.routes),
        }
    }
}

impl Msg for QuerySwapExactAmountInRequest {
    type Proto = proto::QuerySwapExactAmountInRequest;

    open spec fn spec_wire_bytes(&self) -> Seq<u8> {
        crate::wire::opt_string_field(1, self.sender@) + crate::wire::opt_uint64_field(
            2,
            self.pool_id,
        ) + crate::wire::opt_string_field(3, self.token_in@) + proto::repeated_field(
            4,
            routes_into_proto(self.routes@),
        )
    }

    fn to_proto(&self) -> (p: proto::QuerySwapExactAmountInRequest) {
        self.into_proto()
    }
}

/// How much a swap would give, as decimal text.
#[derive(Clone, Debug, PartialEq, Eq, PartialOrd, Ord, Default)]
pub struct QuerySwapExactAmountInResponse {
    pub token_out_amount: String,
}

impl QuerySwapExactAmountInResponse {
    /// The wire form of the response.
    pub fn into_proto(self) -> (p: proto::QuerySwapExactAmountInResponse)
        ensures
            p.token_out_amount == self.token_out_amount,
    {
        proto::QuerySwapExactAmountInResponse { token_out_amount: self.token_out_amount }
    }

    /// The response read from its wire form.
    pub fn from_proto(p: &proto::QuerySwapExactAmountInResponse) -> (r: QuerySwapExactAmountInResponse)
        ensures
            r.token_out_amount == p.token_out_amount,
    {
        QuerySwapExactAmountInResponse { token_out_amount: p.token_out_amount.clone() }
    }

    /// The response read out of an `Any` that holds it.
    pub fn from_any(any: &proto::Any) -> (res: Result<QuerySwapExactAmountInResponse, ProtoError>)
        requires
            any.type_url@ == proto::QuerySwapExactAmountInResponse::spec_type_url()
                ==> string1_decode(any.value@, Seq::empty()) is Some,
        ensures
            res is Ok <==> any.type_url@ == proto::QuerySwapExactAmountInResponse::spec_type_url(),
            any.type_url@ != proto::QuerySwapExactAmountInResponse::spec_type_url() <==> res
                == Err::<QuerySwapExactAmountInResponse, ProtoError>(ProtoError::TypeUrlMismatch),
            res matches Ok(m) ==> string1_decode(any.value@, Seq::empty()) == Some(
                m.token_out_amount@,
            ),
    {
        match proto::QuerySwapExactAmountInResponse::from_any(any) {
            Ok(p) => Ok(QuerySwapExactAmountInResponse::from_proto(&p)),
            Err(e) => Err(e),
        }
    }
}

impl Msg for QuerySwapExactAmountInResponse {
    type Proto = proto::QuerySwapExactAmountInResponse;

    open spec fn spec_wire_bytes(&self) -> Seq<u8> {
        crate::wire::opt_string_field(1, self.token_out_amount@)
    }

    fn to_proto(&self) -> (p: proto::QuerySwapExactAmountInResponse) {
        proto::QuerySwapExactAmountInResponse { token_out_amount: self.token_out_amount.clone() }
    }
}

/// Swaps exactly `token_in` along `routes`, asking for at least `token_out_min_amount`.
#[derive(Clone, Debug, PartialEq, Eq, Default)]
pub struct MsgSwapExactAmountIn {
    pub sender: String,
    pub routes: Vec<SwapAmountInRoute>,
    pub token_in: Coin,
    pub token_out_min_amount: String,
}

impl MsgSwapExactAmountIn {
    /// The wire form of the message.
    pub fn into_proto(&self) -> (p: proto::MsgSwapExactAmountIn)
        ensures
            p.sender == self.sender,
            p.routes@ == routes_into_proto(self.routes@),
            p.token_in == Some(self.token_in.spec_into_proto()),
            p.token_out_min_amount == self.token_out_min_amount,
    {
        proto::MsgSwapExactAmountIn {
            sender: self.sender.clone(),
            routes: routes_into_proto_vec(&self.routes),
            token_in: Some(self.token_in.into_proto()),
            token_out_min_amount: self.token_out_min_amount.clone(),
        }
    }
}

impl Msg for MsgSwapExactAmountIn {
    type Proto = proto::MsgSwapExactAmountIn;

    open spec fn spec_wire_bytes(&self) -> Seq<u8> {
        crate::wire::opt_string_field(1, self.sender@) + proto::repeated_field(
            2,
            routes_into_proto(self.routes@),
        ) + crate::wire::message_field(3, self.token_in.spec_into_proto().wire_bytes())
            + crate::wire::opt_string_field(4, self.token_out_min_amount@)
    }

    fn to_proto(&self) -> (p: proto::MsgSwapExactAmountIn) {
        self.into_proto()
    }
}

/// Joins a pool for `share_out_amount` shares, paying at most `token_in_maxs`.
#[derive(Clone, Debug, PartialEq, Eq, Default)]
pub struct MsgJoinPool {
    pub sender: String,
    pub pool_id: u64,
    pub share_out_amount: String,
    pub token_in_maxs: Vec<Coin>,
}

impl MsgJoinPool {
    /// The wire form of the message.
    pub fn into_proto(&self) -> (p: proto::MsgJoinPool)
        ensures
            p.sender == self.sender,
            p.pool_id == self.pool_id,
            p.share_out_amount == self.share_out_amount,
            p.token_in_maxs@ == coins_into_proto(self.token_in_maxs@),
    {
        proto::MsgJoinPool {
            sender: self.sender.clone(),
            pool_id: self.pool_id,
            share_out_amount: self.share_out_amount.clone(),
            token_in_maxs: coins_into_proto_vec(&self.token_in_maxs),
        }
    }
}

impl Msg for MsgJoinPool {
    type Proto = proto::MsgJoinPool;

    open spec fn spec_wire_bytes(&self) -> Seq<u8> {
        crate::wire::opt_string_field(1, self.sender@) + crate::wire::opt_uint64_field(
            2,
            self.pool_id,
        ) + crate::wire::opt_string_field(3, self.share_out_amount@) + proto::repeated_field(
            4,
            coins_into_proto(self.token_in_maxs@),
        )
    }

    fn to_proto(&self) -> (p: proto::MsgJoinPool) {
        self.into_proto()
    }
}

/// What `to_any` makes of a spot-price response, `from_any` takes back: the `Any`
/// names the response's type and its bytes read back as the same price text.
pub proof fn law_spot_price_response_to_any_from_any(m: QuerySpotPriceResponse, any: proto::Any)
    requires
        encode_utf8(m.spot_price@).len() <= u64::MAX,
        any.type_url@ == proto::QuerySpotPriceResponse::spec_type_url(),
        any.value@ == m.spec_wire_bytes(),
    ensures
        string1_decode(any.value@, Seq::empty()) == Some(m.spot_price@),
{
    lemma_string1_roundtrip(m.spot_price@);
}

/// What `to_any` makes of a swap-estimate response, `from_any` takes back: the `Any`
/// names the response's type and its bytes read back as the same amount text.
pub proof fn law_swap_estimate_response_to_any_from_any(
    m: QuerySwapExactAmountInResponse,
    any: proto::Any,
)
    requires
        encode_utf8(m.token_out_amount@).len() <= u64::MAX,
        any.type_url@ == proto::QuerySwapExactAmountInResponse::spec_type_url(),
        any.value@ == m.spec_wire_bytes(),
    ensures
        string1_decode(any.value@, Seq::empty()) == Some(m.token_out_amount@),
{
    lemma_string1_roundtrip(m.token_out_amount@);
}

/// A spot-price request goes on the wire with each field in its own role: the pool
/// as field 1, the input denomination as field 2, the output denomination as field
/// 3, the swap-fee flag as field 4.
pub proof fn law_spot_price_request_wire_roles(r: QuerySpotPriceRequest)
    ensures
        r.spec_into_proto().token_in_denom == r.token_in_denom,
        r.spec_into_proto().token_out_denom == r.token_out_denom,
        r.spec_wire_bytes() == crate::wire::opt_uint64_field(1, r.pool_id) + crate::wire::opt_string_field(
            2,
            r.token_in_denom@,
        ) + crate::wire::opt_string_field(3, r.token_out_denom@) + crate::wire::opt_bool_field(
            4,
            r.with_swap_fee,
        ),
{
}

/// A swap route goes on the wire with its pool as field 1 and its output
/// denomination as field 2.
pub proof fn law_route_wire_roles(r: SwapAmountInRoute)
    ensures
        r.spec_into_proto().pool_id == r.pool_id,
        r.spec_into_proto().token_out_denom == r.token_out_denom,
{
}

} // verus!
