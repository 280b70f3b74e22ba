//! The Protobuf messages of the Cosmos SDK and of Osmosis that the contracts send
//! and receive, with their encodings as `prost` writes them for proto3: fields in
//! the order of their numbers, a scalar field left out when it holds its default.
use crate::wire::{
    key_bytes, key_decode, lemma_key_roundtrip, lemma_string_roundtrip, lemma_uint64_roundtrip,
    message_field, opt_bool_field, opt_bytes_field, put_bytes_field, opt_string_field, opt_uint64_field,
    put_bool_field, put_message_field, put_string_field, put_uint64_field, read_key, read_string,
    read_uint64, skip_unknown, skipped_len, string_merge, uint64_merge, delimited, varint_bytes,
    WireKind, MAX_TAG,
};
use crate::balancer::{
    any_opt_view, fields_decode, law_pool_response_roundtrip, pool_response_encodable,
    pool_response_step, AnyView, CoinView,
};
use crate::msg_read::{
    coins_view, empty_join_pool, empty_join_swap_extern, empty_spot_price_request,
    empty_swap_estimate_request, empty_swap_msg, join_pool_encodable, join_pool_step,
    join_swap_extern_encodable, join_swap_extern_step, law_join_pool_roundtrip,
    law_join_swap_extern_roundtrip, law_spot_price_request_roundtrip,
    law_swap_estimate_request_roundtrip, law_swap_msg_roundtrip, merge_join_pool,
    merge_join_swap_extern, merge_spot_price_request, merge_swap_estimate_request, merge_swap_msg,
    routes_view, spot_price_request_encodable, spot_price_request_step,
    swap_estimate_request_encodable, swap_estimate_request_step, swap_msg_encodable,
    swap_msg_step, RouteView,
};
use vstd::prelude::*;
use vstd::utf8::*;

verus! {

broadcast use vstd::utf8::encode_utf8_decode_utf8, vstd::utf8::encode_utf8_valid_utf8;

/// A message with a Protobuf encoding.
pub trait WireMessage: Sized {
    /// The bytes of the message.
    spec fn wire_bytes(&self) -> Seq<u8>;

    /// Appends the bytes of the message to `buf`.
    fn encode_raw(&self, buf: &mut Vec<u8>)
        ensures
            final(buf)@ == old(buf)@ + self.wire_bytes(),
    ;

    /// The bytes of the message in a new vector.
    fn encode_to_vec(&self) -> (out: Vec<u8>)
        ensures
            out@ == self.wire_bytes(),
    {
        let mut out: Vec<u8> = Vec::new();
        self.encode_raw(&mut out);
        assert(out@ =~= self.wire_bytes());
        out
    }
}

/// A repeated message field: one embedded message field per element, in order.
pub open spec fn repeated_field<M: WireMessage>(tag: nat, ms: Seq<M>) -> Seq<u8>
    decreases ms.len(),
{
    if ms.len() == 0 {
        Seq::empty()
    } else {
        repeated_field(tag, ms.drop_last()) + message_field(tag, ms.last().wire_bytes())
    }
}

/// An optional message field: left out when absent.
pub open spec fn optional_field<M: WireMessage>(tag: nat, m: Option<M>) -> Seq<u8> {
    match m {
        Some(m) => message_field(tag, m.wire_bytes()),
        None => Seq::empty(),
    }
}

fn put_repeated<M: WireMessage>(tag: u32, ms: &Vec<M>, buf: &mut Vec<u8>)
    requires
        1 <= tag <= MAX_TAG,
    ensures
        final(buf)@ == old(buf)@ + repeated_field(tag as nat, ms@),
{
    let mut i: usize = 0;
    assert(ms@.take(0) =~= Seq::<M>::empty());
    while i < ms.len()
        invariant
            1 <= tag <= MAX_TAG,
            i <= ms@.len(),
            buf@ == old(buf)@ + repeated_field(tag as nat, ms@.take(i as int)),
        decreases ms@.len() - i,
    {
        let mut body: Vec<u8> = Vec::new();
        ms[i].encode_raw(&mut body);
        put_message_field(tag, body, buf);
        assert(ms@.take((i + 1) as int).drop_last() =~= ms@.take(i as int));
        i = i + 1;
    }
    assert(ms@.take(ms@.len() as int) =~= ms@);
}

fn put_optional<M: WireMessage>(tag: u32, m: &Option<M>, buf: &mut Vec<u8>)
    requires
        1 <= tag <= MAX_TAG,
    ensures
        final(buf)@ == old(buf)@ + optional_field(tag as nat, *m),
{
    match m {
        Some(inner) => {
            let mut body: Vec<u8> = Vec::new();
            inner.encode_raw(&mut body);
            put_message_field(tag, body, buf);
        },
        None => {
            assert(buf@ =~= old(buf)@ + optional_field(tag as nat, *m));
        },
    }
}

fn put_opt_bytes(tag: u32, v: &Vec<u8>, buf: &mut Vec<u8>)
    requires
        1 <= tag <= MAX_TAG,
    ensures
        final(buf)@ == old(buf)@ + opt_bytes_field(tag as nat, v@),
{
    if v.len() != 0 {
        put_bytes_field(tag, v, buf);
    } else {
        assert(buf@ =~= old(buf)@ + opt_bytes_field(tag as nat, v@));
    }
}

fn put_opt_string(tag: u32, s: &String, buf: &mut Vec<u8>)
    requires
        1 <= tag <= MAX_TAG,
    ensures
        final(buf)@ == old(buf)@ + opt_string_field(tag as nat, s@),
{
    if !s.as_str().is_empty() {
        put_string_field(tag, s, buf);
    } else {
        assert(buf@ =~= old(buf)@ + opt_string_field(tag as nat, s@));
    }
}

fn put_opt_uint64(tag: u32, v: u64, buf: &mut Vec<u8>)
    requires
        1 <= tag <= MAX_TAG,
    ensures
        final(buf)@ == old(buf)@ + opt_uint64_field(tag as nat, v),
{
    if v != 0 {
        put_uint64_field(tag, v, buf);
    } else {
        assert(buf@ =~= old(buf)@ + opt_uint64_field(tag as nat, v));
    }
}

fn put_opt_bool(tag: u32, b: bool, buf: &mut Vec<u8>)
    requires
        1 <= tag <= MAX_TAG,
    ensures
        final(buf)@ == old(buf)@ + opt_bool_field(tag as nat, b),
{
    if b {
        put_bool_field(tag, b, buf);
    } else {
        assert(buf@ =~= old(buf)@ + opt_bool_field(tag as nat, b));
    }
}

/// `cosmos.base.v1beta1.Coin`: a denomination and an amount, both as text.
#[derive(Clone, Debug, PartialEq, Eq, Default)]
pub struct Coin {
    pub denom: String,
    pub amount: String,
}

impl WireMessage for Coin {
    open spec fn wire_bytes(&self) -> Seq<u8> {
        opt_string_field(1, self.denom@) + opt_string_field(2, self.amount@)
    }

    fn encode_raw(&self, buf: &mut Vec<u8>) {
        put_opt_string(1, &self.denom, buf);
        put_opt_string(2, &self.amount, buf);
        assert(buf@ =~= old(buf)@ + self.wire_bytes());
    }
}

/// `google.protobuf.Any`: a message's type URL and its encoded bytes.
#[derive(Clone, Debug, PartialEq, Eq, Default)]
pub struct Any {
    pub type_url: String,
    pub value: Vec<u8>,
}

impl WireMessage for Any {
    open spec fn wire_bytes(&self) -> Seq<u8> {
        opt_string_field(1, self.type_url@) + opt_bytes_field(2, self.value@)
    }

    fn encode_raw(&self, buf: &mut Vec<u8>) {
        put_opt_string(1, &self.type_url, buf);
        put_opt_bytes(2, &self.value, buf);
        assert(buf@ =~= old(buf)@ + self.wire_bytes());
    }
}

/// `google.protobuf.Timestamp`.
#[derive(Clone, Copy, Debug, PartialEq, Eq, Default)]
pub struct Timestamp {
    pub seconds: i64,
    pub nanos: i32,
}

/// `google.protobuf.Duration`.
#[derive(Clone, Copy, Debug, PartialEq, Eq, Default)]
pub struct Duration {
    pub seconds: i64,
    pub nanos: i32,
}

/// `ibc.applications.interchain_accounts.v1.CosmosTx`.
#[derive(Clone, Debug, PartialEq, Eq, Default)]
pub struct CosmosTx {
    pub messages: Vec<Any>,
}

/// `osmosis.epochs.v1beta1.QueryCurrentEpochRequest`.
#[derive(Clone, Debug, PartialEq, Eq, Default)]
pub struct QueryCurrentEpochRequest {
    pub identifier: String,
}

impl WireMessage for QueryCurrentEpochRequest {
    open spec fn wire_bytes(&self) -> Seq<u8> {
        opt_string_field(1, self.identifier@)
    }

    fn encode_raw(&self, buf: &mut Vec<u8>) {
        put_opt_string(1, &self.identifier, buf);
    }
}

/// `osmosis.epochs.v1beta1.QueryCurrentEpochResponse`.
#[derive(Clone, Debug, PartialEq, Eq, Default)]
pub struct QueryCurrentEpochResponse {
    pub current_epoch: u64,
}

impl WireMessage for QueryCurrentEpochResponse {
    open spec fn wire_bytes(&self) -> Seq<u8> {
        opt_uint64_field(1, self.current_epoch)
    }

    fn encode_raw(&self, buf: &mut Vec<u8>) {
        put_opt_uint64(1, self.current_epoch, buf);
    }
}

/// `osmosis.gamm.v1beta1.PoolAsset`: a token and its weight as text.
#[derive(Clone, Debug, PartialEq, Eq, Default)]
pub struct PoolAsset {
    pub token: Option<Coin>,
    pub weight: String,
}

impl WireMessage for PoolAsset {
    open spec fn wire_bytes(&self) -> Seq<u8> {
        optional_field(1, self.token) + opt_string_field(2, self.weight@)
    }

    fn encode_raw(&self, buf: &mut Vec<u8>) {
        put_optional(1, &self.token, buf);
        put_opt_string(2, &self.weight, buf);
        assert(buf@ =~= old(buf)@ + self.wire_bytes());
    }
}

/// `osmosis.gamm.poolmodels.balancer.SmoothWeightChangeParams`.
#[derive(Clone, Debug, PartialEq, Eq, Default)]
pub struct SmoothWeightChangeParams {
    pub start_time: Option<Timestamp>,
    pub duration: Option<Duration>,
    pub initial_pool_weights: Option<PoolAsset>,
    pub target_pool_weights: Option<PoolAsset>,
}

/// `osmosis.gamm.poolmodels.balancer.PoolParams`.
#[derive(Clone, Debug, PartialEq, Eq, Default)]
pub struct PoolParams {
    pub swap_fee: String,
    pub exit_fee: String,
    pub smooth_weight_change_params: Option<SmoothWeightChangeParams>,
}

/// `osmosis.gamm.poolmodels.balancer.Pool`.
#[derive(Clone, Debug, PartialEq, Eq, Default)]
pub struct Pool {
    pub address: String,
    pub id: u64,
    pub pool_params: Option<PoolParams>,
    pub future_pool_governor: String,
    pub total_shares: Option<Coin>,
    pub pool_assets: Vec<PoolAsset>,
    pub total_weight: String,
}

/// `osmosis.gamm.v1beta1.SwapAmountInRoute`: a pool and the denomination it swaps to.
#[derive(Clone, Debug, PartialEq, Eq, Default)]
pub struct SwapAmountInRoute {
    pub pool_id: u64,
    pub token_out_denom: String,
}

impl WireMessage for SwapAmountInRoute {
    open spec fn wire_bytes(&self) -> Seq<u8> {
        opt_uint64_field(1, self.pool_id) + opt_string_field(2, self.token_out_denom@)
    }

    fn encode_raw(&self, buf: &mut Vec<u8>) {
        put_opt_uint64(1, self.pool_id, buf);
        put_opt_string(2, &self.token_out_denom, buf);
        assert(buf@ =~= old(buf)@ + self.wire_bytes());
    }
}

/// `osmosis.gamm.v1beta1.MsgSwapExactAmountIn`.
#[derive(Clone, Debug, PartialEq, Eq, Default)]
pub struct MsgSwapExactAmountIn {
    pub sender: String,
    pub routes: Vec<SwapAmountInRoute>,
    pub token_in: Option<Coin>,
    pub token_out_min_amount: String,
}

impl WireMessage for MsgSwapExactAmountIn {
    open spec fn wire_bytes(&self) -> Seq<u8> {
        opt_string_field(1, self.sender@) + repeated_field(2, self.routes@) + optional_field(
            3,
            self.token_in,
        ) + opt_string_field(4, self.token_out_min_amount@)
    }

    fn encode_raw(&self, buf: &mut Vec<u8>) {
        put_opt_string(1, &self.sender, buf);
        put_repeated(2, &self.routes, buf);
        put_optional(3, &self.token_in, buf);
        put_opt_string(4, &self.token_out_min_amount, buf);
        assert(buf@ =~= old(buf)@ + self.wire_bytes());
    }
}

/// `osmosis.gamm.v1beta1.MsgJoinPool`.
#[derive(Clone, Debug, PartialEq, Eq, Default)]
pub struct MsgJoinPool {
    pub sender: String,
    pub pool_id: u64,
    pub share_out_amount: String,
    pub token_in_maxs: Vec<Coin>,
}

impl WireMessage for MsgJoinPool {
    open spec fn wire_bytes(&self) -> Seq<u8> {
        opt_string_field(1, self.sender@) + opt_uint64_field(2, self.pool_id) + opt_string_field(
            3,
            self.share_out_amount@,
        ) + repeated_field(4, self.token_in_maxs@)
    }

    fn encode_raw(&self, buf: &mut Vec<u8>) {
        put_opt_string(1, &self.sender, buf);
        put_opt_uint64(2, self.pool_id, buf);
        put_opt_string(3, &self.share_out_amount, buf);
        put_repeated(4, &self.token_in_maxs, buf);
        assert(buf@ =~= old(buf)@ + self.wire_bytes());
    }
}

/// `osmosis.gamm.v1beta1.MsgJoinSwapExternAmountIn`.
#[derive(Clone, Debug, PartialEq, Eq, Default)]
pub struct MsgJoinSwapExternAmountIn {
    pub sender: String,
    pub pool_id: u64,
    pub token_in: Option<Coin>,
    pub share_out_min_amount: String,
}

impl WireMessage for MsgJoinSwapExternAmountIn {
    open spec fn wire_bytes(&self) -> Seq<u8> {
        opt_string_field(1, self.sender@) + opt_uint64_field(2, self.pool_id) + optional_field(
            3,
            self.token_in,
        ) + opt_string_field(4, self.share_out_min_amount@)
    }

    fn encode_raw(&self, buf: &mut Vec<u8>) {
        put_opt_string(1, &self.sender, buf);
        put_opt_uint64(2, self.pool_id, buf);
        put_optional(3, &self.token_in, buf);
        put_opt_string(4, &self.share_out_min_amount, buf);
        assert(buf@ =~= old(buf)@ + self.wire_bytes());
    }
}

/// `osmosis.gamm.v1beta1.QuerySpotPriceRequest`.
#[derive(Clone, Debug, PartialEq, Eq, Default)]
pub struct QuerySpotPriceRequest {
    pub pool_id: u64,
    pub token_in_denom: String,
    pub token_out_denom: String,
    pub with_swap_fee: bool,
}

impl WireMessage for QuerySpotPriceRequest {
    open spec fn wire_bytes(&self) -> Seq<u8> {
        opt_uint64_field(1, self.pool_id) + opt_string_field(2, self.token_in_denom@)
            + opt_string_field(3, self.token_out_denom@) + opt_bool_field(4, self.with_swap_fee)
    }

    fn encode_raw(&self, buf: &mut Vec<u8>) {
        put_opt_uint64(1, self.pool_id, buf);
        put_opt_string(2, &self.token_in_denom, buf);
        put_opt_string(3, &self.token_out_denom, buf);
        put_opt_bool(4, self.with_swap_fee, buf);
        assert(buf@ =~= old(buf)@ + self.wire_bytes());
    }
}

/// `osmosis.gamm.v1beta1.QuerySpotPriceResponse`.
#[derive(Clone, Debug, PartialEq, Eq, Default)]
pub struct QuerySpotPriceResponse {
    pub spot_price: String,
}

impl WireMessage for QuerySpotPriceResponse {
    open spec fn wire_bytes(&self) -> Seq<u8> {
        opt_string_field(1, self.spot_price@)
    }

    fn encode_raw(&self, buf: &mut Vec<u8>) {
        put_opt_string(1, &self.spot_price, buf);
    }
}

/// `osmosis.gamm.v1beta1.QuerySwapExactAmountInRequest`.
#[derive(Clone, Debug, PartialEq, Eq, Default)]
pub struct QuerySwapExactAmountInRequest {
    pub sender: String,
    pub pool_id: u64,
    pub token_in: String,
    pub routes: Vec<SwapAmountInRoute>,
}

impl WireMessage for QuerySwapExactAmountInRequest {
    open spec fn wire_bytes(&self) -> Seq<u8> {
        opt_string_field(1, self.sender@) + opt_uint64_field(2, self.pool_id) + opt_string_field(
            3,
            self.token_in@,
        ) + repeated_field(4, self.routes@)
    }

    fn encode_raw(&self, buf: &mut Vec<u8>) {
        put_opt_string(1, &self.sender, buf);
        put_opt_uint64(2, self.pool_id, buf);
        put_opt_string(3, &self.token_in, buf);
        put_repeated(4, &self.routes, buf);
        assert(buf@ =~= old(buf)@ + self.wire_bytes());
    }
}

/// `osmosis.gamm.v1beta1.QuerySwapExactAmountInResponse`.
#[derive(Clone, Debug, PartialEq, Eq, Default)]
pub struct QuerySwapExactAmountInResponse {
    pub token_out_amount: String,
}

impl WireMessage for QuerySwapExactAmountInResponse {
    open spec fn wire_bytes(&self) -> Seq<u8> {
        opt_string_field(1, self.token_out_amount@)
    }

    fn encode_raw(&self, buf: &mut Vec<u8>) {
        put_opt_string(1, &self.token_out_amount, buf);
    }
}

/// `osmosis.gamm.v1beta1.QueryPoolRequest`.
#[derive(Clone, Debug, PartialEq, Eq, Default)]
pub struct QueryPoolRequest {
    pub pool_id: u64,
}

impl WireMessage for QueryPoolRequest {
    open spec fn wire_bytes(&self) -> Seq<u8> {
        opt_uint64_field(1, self.pool_id)
    }

    fn encode_raw(&self, buf: &mut Vec<u8>) {
        put_opt_uint64(1, self.pool_id, buf);
    }
}

/// `osmosis.gamm.v1beta1.QueryPoolResponse`.
#[derive(Clone, Debug, PartialEq, Eq, Default)]
pub struct QueryPoolResponse {
    pub pool: Option<Any>,
}

impl WireMessage for QueryPoolResponse {
    open spec fn wire_bytes(&self) -> Seq<u8> {
        optional_field(1, self.pool)
    }

    fn encode_raw(&self, buf: &mut Vec<u8>) {
        put_optional(1, &self.pool, buf);
    }
}

/// `osmosis.lockup.LockedDenomResponse`.
#[derive(Clone, Debug, PartialEq, Eq, Default)]
pub struct LockedDenomResponse {
    pub amount: String,
}

impl WireMessage for LockedDenomResponse {
    open spec fn wire_bytes(&self) -> Seq<u8> {
        opt_string_field(1, self.amount@)
    }

    fn encode_raw(&self, buf: &mut Vec<u8>) {
        put_opt_string(1, &self.amount, buf);
    }
}

// ---------------------------------------------------------------------------
// Decoding.
/// Why bytes did not decode.
#[derive(Clone, Copy, Debug, PartialEq, Eq, Structural)]
pub enum ProtoError {
    /// The bytes are not a valid encoding of the message.
    Decode,
    /// An `Any` names another message type.
    TypeUrlMismatch,
}

/// Reads, field by field, a message whose one known field is string field 1, as
/// the `merge` of a `prost` message does: the last occurrence of the field wins and
/// other fields are skipped. `acc` is the value read so far.
pub open spec fn string1_decode(b: Seq<u8>, acc: Seq<char>) -> Option<Seq<char>>
    decreases b.len(),
{
    if b.len() == 0 {
        Some(acc)
    } else {
        match key_decode(b) {
            None => None,
            Some((tag, w, n)) => if n < 1 || n > b.len() {
                None
            } else {
                let rest = b.skip(n as int);
                if tag == 1 {
                    match string_merge(w, rest) {
                        None => None,
                        Some((s, m)) => if m > rest.len() {
                            None
                        } else {
                            string1_decode(rest.skip(m as int), s)
                        },
                    }
                } else {
                    match skipped_len(w, tag, rest) {
                        None => None,
                        Some(m) => if m > rest.len() {
                            None
                        } else {
                            string1_decode(rest.skip(m as int), acc)
                        },
                    }
                }
            },
        }
    }
}

/// Reads, field by field, a message whose one known field is `uint64` field 1.
pub open spec fn uint64_1_decode(b: Seq<u8>, acc: u64) -> Option<u64>
    decreases b.len(),
{
    if b.len() == 0 {
        Some(acc)
    } else {
        match key_decode(b) {
            None => None,
            Some((tag, w, n)) => if n < 1 || n > b.len() {
                None
            } else {
                let rest = b.skip(n as int);
                if tag == 1 {
                    match uint64_merge(w, rest) {
                        None => None,
                        Some((v, m)) => if m > rest.len() {
                            None
                        } else {
                            uint64_1_decode(rest.skip(m as int), v)
                        },
                    }
                } else {
                    match skipped_len(w, tag, rest) {
                        None => None,
                        Some(m) => if m > rest.len() {
                            None
                        } else {
                            uint64_1_decode(rest.skip(m as int), acc)
                        },
                    }
                }
            },
        }
    }
}

proof fn lemma_key_len(b: Seq<u8>)
    ensures
        key_decode(b) matches Some((t, w, n)) ==> 1 <= n <= b.len(),
{
    crate::wire::lemma_varint_dec_len(b, 10);
}

/// Decodes a message whose one known field is string field 1.
fn decode_string1(bytes: &[u8]) -> (res: Result<String, ProtoError>)
    ensures
        res is Ok <==> string1_decode(bytes@, Seq::empty()) is Some,
        res matches Ok(s) ==> string1_decode(bytes@, Seq::empty()) == Some(s@),
{
    let mut pos: usize = 0;
    let mut acc = String::new();
    assert(bytes@.skip(0) =~= bytes@);
    while pos < bytes.len()
        invariant
            pos <= bytes@.len(),
            string1_decode(bytes@, Seq::empty()) == string1_decode(bytes@.skip(pos as int), acc@),
        decreases bytes@.len() - pos,
    {
        let ghost b = bytes@.skip(pos as int);
        proof {
            lemma_key_len(b);
        }
        let (tag, w, left) = match read_key(bytes, pos) {
            Ok(k) => k,
            Err(_) => return Err(ProtoError::Decode),
        };
        let ghost n = (bytes@.len() - pos - left) as nat;
        let p = bytes.len() - left;
        assert(b.skip(n as int) =~= bytes@.skip(p as int));
        if tag == 1 {
            match read_string(w, bytes, p) {
                Ok((s, left2)) => {
                    let ghost m = (bytes@.len() - p - left2) as nat;
                    assert(bytes@.skip(p as int).skip(m as int) =~= bytes@.skip(
                        (bytes@.len() - left2) as int,
                    ));
                    acc = s;
                    pos = bytes.len() - left2;
                },
                Err(_) => return Err(ProtoError::Decode),
            }
        } else {
            match skip_unknown(w, tag, bytes, p) {
                Ok(left2) => {
                    let ghost m = (bytes@.len() - p - left2) as nat;
                    assert(bytes@.skip(p as int).skip(m as int) =~= bytes@.skip(
                        (bytes@.len() - left2) as int,
                    ));
                    pos = bytes.len() - left2;
                },
                Err(_) => return Err(ProtoError::Decode),
            }
        }
    }
    Ok(acc)
}

/// Decodes a message whose one known field is `uint64` field 1.
fn decode_uint64_1(bytes: &[u8]) -> (res: Result<u64, ProtoError>)
    ensures
        res is Ok <==> uint64_1_decode(bytes@, 0) is Some,
        res matches Ok(v) ==> uint64_1_decode(bytes@, 0) == Some(v),
{
    let mut pos: usize = 0;
    let mut acc: u64 = 0;
    assert(bytes@.skip(0) =~= bytes@);
    while pos < bytes.len()
        invariant
            pos <= bytes@.len(),
            uint64_1_decode(bytes@, 0) == uint64_1_decode(bytes@.skip(pos as int), acc),
        decreases bytes@.len() - pos,
    {
        let ghost b = bytes@.skip(pos as int);
        proof {
            lemma_key_len(b);
        }
        let (tag, w, left) = match read_key(bytes, pos) {
            Ok(k) => k,
            Err(_) => return Err(ProtoError::Decode),
        };
        let ghost n = (bytes@.len() - pos - left) as nat;
        let p = bytes.len() - left;
        assert(b.skip(n as int) =~= bytes@.skip(p as int));
        if tag == 1 {
            match read_uint64(w, bytes, p) {
                Ok((v, left2)) => {
                    let ghost m = (bytes@.len() - p - left2) as nat;
                    assert(bytes@.skip(p as int).skip(m as int) =~= bytes@.skip(
                        (bytes@.len() - left2) as int,
                    ));
                    acc = v;
                    pos = bytes.len() - left2;
                },
                Err(_) => return Err(ProtoError::Decode),
            }
        } else {
            match skip_unknown(w, tag, bytes, p) {
                Ok(left2) => {
                    let ghost m = (bytes@.len() - p - left2) as nat;
                    assert(bytes@.skip(p as int).skip(m as int) =~= bytes@.skip(
                        (bytes@.len() - left2) as int,
                    ));
                    pos = bytes.len() - left2;
                },
                Err(_) => return Err(ProtoError::Decode),
            }
        }
    }
    Ok(acc)
}

/// The bytes of a present string field 1 read back as its string.
pub proof fn lemma_string1_roundtrip(s: Seq<char>)
    requires
        encode_utf8(s).len() <= u64::MAX,
    ensures
        string1_decode(opt_string_field(1, s), Seq::empty()) == Some(s),
{
    reveal_with_fuel(string1_decode, 2);
    if s.len() > 0 {
        let b = opt_string_field(1, s);
        let d = delimited(encode_utf8(s));
        lemma_key_roundtrip(1, WireKind::LengthDelimited, d);
        let n = key_bytes(1, WireKind::LengthDelimited).len();
        assert(b.skip(n as int) =~= d);
        lemma_string_roundtrip(s, Seq::empty());
        assert(d + Seq::<u8>::empty() =~= d);
        assert(d.skip(d.len() as int) =~= Seq::<u8>::empty());
    } else {
        assert(opt_string_field(1, s) =~= Seq::<u8>::empty());
        assert(s =~= Seq::<char>::empty());
    }
}

/// The bytes of a `uint64` field 1 read back as its value.
pub proof fn lemma_uint64_1_roundtrip(v: u64)
    ensures
        uint64_1_decode(opt_uint64_field(1, v), 0) == Some(v),
{
    reveal_with_fuel(uint64_1_decode, 2);
    if v != 0 {
        let b = opt_uint64_field(1, v);
        let d = varint_bytes(v as nat);
        lemma_key_roundtrip(1, WireKind::Varint, d);
        let n = key_bytes(1, WireKind::Varint).len();
        assert(b.skip(n as int) =~= d);
        lemma_uint64_roundtrip(v, Seq::empty());
        assert(d + Seq::<u8>::empty() =~= d);
        assert(d.skip(d.len() as int) =~= Seq::<u8>::empty());
    } else {
        assert(opt_uint64_field(1, v) =~= Seq::<u8>::empty());
    }
}

impl QuerySpotPriceResponse {
    /// Decodes the message from its Protobuf bytes.
    pub fn decode(bytes: &[u8]) -> (res: Result<QuerySpotPriceResponse, ProtoError>)
        ensures
            res is Ok <==> string1_decode(bytes@, Seq::empty()) is Some,
            res matches Ok(m) ==> string1_decode(bytes@, Seq::empty()) == Some(m.spot_price@),
    {
        match decode_string1(bytes) {
            Ok(s) => Ok(QuerySpotPriceResponse { spot_price: s }),
            Err(e) => Err(e),
        }
    }
}

impl QuerySwapExactAmountInResponse {
    /// Decodes the message from its Protobuf bytes.
    pub fn decode(bytes: &[u8]) -> (res: Result<QuerySwapExactAmountInResponse, ProtoError>)
        ensures
            res is Ok <==> string1_decode(bytes@, Seq::empty()) is Some,
            res matches Ok(m) ==> string1_decode(bytes@, Seq::empty()) == Some(m.token_out_amount@),
    {
        match decode_string1(bytes) {
            Ok(s) => Ok(QuerySwapExactAmountInResponse { token_out_amount: s }),
            Err(e) => Err(e),
        }
    }
}

impl LockedDenomResponse {
    /// Decodes the message from its Protobuf bytes.
    pub fn decode(bytes: &[u8]) -> (res: Result<LockedDenomResponse, ProtoError>)
        ensures
            res is Ok <==> string1_decode(bytes@, Seq::empty()) is Some,
            res matches Ok(m) ==> string1_decode(bytes@, Seq::empty()) == Some(m.amount@),
    {
        match decode_string1(bytes) {
            Ok(s) => Ok(LockedDenomResponse { amount: s }),
            Err(e) => Err(e),
        }
    }
}

impl QueryCurrentEpochResponse {
    /// Decodes the message from its Protobuf bytes.
    pub fn decode(bytes: &[u8]) -> (res: Result<QueryCurrentEpochResponse, ProtoError>)
        ensures
            res is Ok <==> uint64_1_decode(bytes@, 0) is Some,
            res matches Ok(m) ==> uint64_1_decode(bytes@, 0) == Some(m.current_epoch),
    {
        match decode_uint64_1(bytes) {
            Ok(v) => Ok(QueryCurrentEpochResponse { current_epoch: v }),
            Err(e) => Err(e),
        }
    }
}

/// A spot-price response reads back from its own bytes.
pub proof fn law_spot_price_response_roundtrip(m: QuerySpotPriceResponse)
    requires
        encode_utf8(m.spot_price@).len() <= u64::MAX,
    ensures
        string1_decode(m.wire_bytes(), Seq::empty()) == Some(m.spot_price@),
{
    lemma_string1_roundtrip(m.spot_price@);
}

/// A swap-estimate response reads back from its own bytes.
pub proof fn law_swap_estimate_response_roundtrip(m: QuerySwapExactAmountInResponse)
    requires
        encode_utf8(m.token_out_amount@).len() <= u64::MAX,
    ensures
        string1_decode(m.wire_bytes(), Seq::empty()) == Some(m.token_out_amount@),
{
    lemma_string1_roundtrip(m.token_out_amount@);
}

/// A locked-amount response reads back from its own bytes.
pub proof fn law_locked_denom_response_roundtrip(m: LockedDenomResponse)
    requires
        encode_utf8(m.amount@).len() <= u64::MAX,
    ensures
        string1_decode(m.wire_bytes(), Seq::empty()) == Some(m.amount@),
{
    lemma_string1_roundtrip(m.amount@);
}

/// A current-epoch response reads back from its own bytes.
pub proof fn law_current_epoch_response_roundtrip(m: QueryCurrentEpochResponse)
    ensures
        uint64_1_decode(m.wire_bytes(), 0) == Some(m.current_epoch),
{
    lemma_uint64_1_roundtrip(m.current_epoch);
}

// ---------------------------------------------------------------------------
// Type URLs.
/// A message that travels inside a `google.protobuf.Any` under a fixed type URL.
pub trait MsgProto: WireMessage + View {
    /// The type URL of the message.
    spec fn spec_type_url() -> Seq<char>;

    /// The type URL of the message.
    fn type_url() -> (url: String)
        ensures
            url@ == Self::spec_type_url(),
    ;

    /// What the message read from `b` is, where `b` reads as one.
    spec fn spec_decode(b: Seq<u8>) -> Option<<Self as View>::V>;

    /// Whether every length in the message can be written as a varint.
    spec fn encodable(&self) -> bool;

    /// Decodes the message from its Protobuf bytes.
    fn decode_bytes(bytes: &[u8]) -> (res: Result<Self, ProtoError>)
        ensures
            res is Ok <==> Self::spec_decode(bytes@) is Some,
            res matches Ok(m) ==> Self::spec_decode(bytes@) == Some(m@),
    ;

    /// The message reads back from its own bytes as itself.
    proof fn lemma_read_back(m: Self)
        requires
            m.encodable(),
        ensures
            Self::spec_decode(m.wire_bytes()) == Some(m@),
    ;

    /// Wraps the encoded message in an `Any` under its type URL.
    fn to_any(&self) -> (any: Any)
        ensures
            any.type_url@ == Self::spec_type_url(),
            any.value@ == self.wire_bytes(),
    {
        Any { type_url: Self::type_url(), value: self.encode_to_vec() }
    }

    /// Reads the message out of an `Any`: refused when the `Any` names another type.
    fn from_any(any: &Any) -> (res: Result<Self, ProtoError>)
        requires
            any.type_url@ == Self::spec_type_url() ==> Self::spec_decode(any.value@) is Some,
        ensures
            res is Ok <==> any.type_url@ == Self::spec_type_url(),
            any.type_url@ != Self::spec_type_url() <==> res == Err::<Self, ProtoError>(
                ProtoError::TypeUrlMismatch,
            ),
            res matches Ok(m) ==> Self::spec_decode(any.value@) == Some(m@),
    {
        if any.type_url == Self::type_url() {
            Self::decode_bytes(any.value.as_slice())
        } else {
            Err(ProtoError::TypeUrlMismatch)
        }
    }
}

/// What `to_any` makes of a message, `from_any` takes back: the `Any` names the
/// message's type and its bytes read back as the message.
pub proof fn law_to_any_from_any<P: MsgProto>(p: P, any: Any)
    requires
        p.encodable(),
        any.type_url@ == P::spec_type_url(),
        any.value@ == p.wire_bytes(),
    ensures
        P::spec_decode(any.value@) == Some(p@),
{
    P::lemma_read_back(p);
}

impl View for QuerySpotPriceResponse {
    type V = Seq<char>;

    open spec fn view(&self) -> Seq<char> {
        self.spot_price@
    }
}

impl View for QuerySwapExactAmountInResponse {
    type V = Seq<char>;

    open spec fn view(&self) -> Seq<char> {
        self.token_out_amount@
    }
}

impl View for QueryPoolRequest {
    type V = u64;

    open spec fn view(&self) -> u64 {
        self.pool_id
    }
}

impl View for QueryCurrentEpochRequest {
    type V = Seq<char>;

    open spec fn view(&self) -> Seq<char> {
        self.identifier@
    }
}

impl MsgProto for MsgSwapExactAmountIn {
    open spec fn spec_type_url() -> Seq<char> {
        "/osmosis.gamm.v1beta1.MsgSwapExactAmountIn"@
    }

    fn type_url() -> (url: String) {
        "/osmosis.gamm.v1beta1.MsgSwapExactAmountIn".to_string()
    }

    open spec fn spec_decode(b: Seq<u8>) -> Option<<Self as View>::V> {
        fields_decode(b, empty_swap_msg(), swap_msg_step())
    }

    open spec fn encodable(&self) -> bool {
        swap_msg_encodable(*self)
    }

    fn decode_bytes(bytes: &[u8]) -> (res: Result<Self, ProtoError>) {
        let init = MsgSwapExactAmountIn {
            sender: String::new(),
            routes: Vec::new(),
            token_in: None,
            token_out_min_amount: String::new(),
        };
        assert(routes_view(init.routes@) =~= Seq::<RouteView>::empty());
        assert(init@ == empty_swap_msg());
        merge_swap_msg(bytes, init)
    }

    proof fn lemma_read_back(m: Self) {
        law_swap_msg_roundtrip(m);
    }
}

impl MsgProto for MsgJoinPool {
    open spec fn spec_type_url() -> Seq<char> {
        "/osmosis.gamm.v1beta1.MsgJoinPool"@
    }

    fn type_url() -> (url: String) {
        "/osmosis.gamm.v1beta1.MsgJoinPool".to_string()
    }

    open spec fn spec_decode(b: Seq<u8>) -> Option<<Self as View>::V> {
        fields_decode(b, empty_join_pool(), join_pool_step())
    }

    open spec fn encodable(&self) -> bool {
        join_pool_encodable(*self)
    }

    fn decode_bytes(bytes: &[u8]) -> (res: Result<Self, ProtoError>) {
        let init = MsgJoinPool {
            sender: String::new(),
            pool_id: 0,
            share_out_amount: String::new(),
            token_in_maxs: Vec::new(),
        };
        assert(coins_view(init.token_in_maxs@) =~= Seq::<CoinView>::empty());
        assert(init@ == empty_join_pool());
        merge_join_pool(bytes, init)
    }

    proof fn lemma_read_back(m: Self) {
        law_join_pool_roundtrip(m);
    }
}

impl MsgProto for MsgJoinSwapExternAmountIn {
    open spec fn spec_type_url() -> Seq<char> {
        "/osmosis.gamm.v1beta1.MsgJoinSwapExternAmountIn"@
    }

    fn type_url() -> (url: String) {
        "/osmosis.gamm.v1beta1.MsgJoinSwapExternAmountIn".to_string()
    }

    open spec fn spec_decode(b: Seq<u8>) -> Option<<Self as View>::V> {
        fields_decode(b, empty_join_swap_extern(), join_swap_extern_step())
    }

    open spec fn encodable(&self) -> bool {
        join_swap_extern_encodable(*self)
    }

    fn decode_bytes(bytes: &[u8]) -> (res: Result<Self, ProtoError>) {
        let init = MsgJoinSwapExternAmountIn {
            sender: String::new(),
            pool_id: 0,
            token_in: None,
            share_out_min_amount: String::new(),
        };
        merge_join_swap_extern(bytes, init)
    }

    proof fn lemma_read_back(m: Self) {
        law_join_swap_extern_roundtrip(m);
    }
}

impl MsgProto for QuerySpotPriceRequest {
    open spec fn spec_type_url() -> Seq<char> {
        "/osmosis.gamm.v1beta1.Query/SpotPrice"@
    }

    fn type_url() -> (url: String) {
        "/osmosis.gamm.v1beta1.Query/SpotPrice".to_string()
    }

    open spec fn spec_decode(b: Seq<u8>) -> Option<<Self as View>::V> {
        fields_decode(b, empty_spot_price_request(), spot_price_request_step())
    }

    open spec fn encodable(&self) -> bool {
        spot_price_request_encodable(*self)
    }

    fn decode_bytes(bytes: &[u8]) -> (res: Result<Self, ProtoError>) {
        let init = QuerySpotPriceRequest {
            pool_id: 0,
            token_in_denom: String::new(),
            token_out_denom: String::new(),
            with_swap_fee: false,
        };
        merge_spot_price_request(bytes, init)
    }

    proof fn lemma_read_back(m: Self) {
        law_spot_price_request_roundtrip(m);
    }
}

impl MsgProto for QuerySpotPriceResponse {
    open spec fn spec_type_url() -> Seq<char> {
        "/osmosis.gamm.v1beta1.QuerySpotPriceReponse"@
    }

    fn type_url() -> (url: String) {
        "/osmosis.gamm.v1beta1.QuerySpotPriceReponse".to_string()
    }

    open spec fn spec_decode(b: Seq<u8>) -> Option<<Self as View>::V> {
        string1_decode(b, Seq::empty())
    }

    open spec fn encodable(&self) -> bool {
        encode_utf8(self.spot_price@).len() <= u64::MAX
    }

    fn decode_bytes(bytes: &[u8]) -> (res: Result<Self, ProtoError>) {
        match decode_string1(bytes) {
            Ok(s) => Ok(QuerySpotPriceResponse { spot_price: s }),
            Err(e) => Err(e),
        }
    }

    proof fn lemma_read_back(m: Self) {
        lemma_string1_roundtrip(m.spot_price@);
    }
}

impl MsgProto for QuerySwapExactAmountInRequest {
    open spec fn spec_type_url() -> Seq<char> {
        "/osmosis.gamm.v1beta1.Query/EstimateSwapExactAmountIn"@
    }

    fn type_url() -> (url: String) {
        "/osmosis.gamm.v1beta1.Query/EstimateSwapExactAmountIn".to_string()
    }

    open spec fn spec_decode(b: Seq<u8>) -> Option<<Self as View>::V> {
        fields_decode(b, empty_swap_estimate_request(), swap_estimate_request_step())
    }

    open spec fn encodable(&self) -> bool {
        swap_estimate_request_encodable(*self)
    }

    fn decode_bytes(bytes: &[u8]) -> (res: Result<Self, ProtoError>) {
        let init = QuerySwapExactAmountInRequest {
            sender: String::new(),
            pool_id: 0,
            token_in: String::new(),
            routes: Vec::new(),
        };
        assert(routes_view(init.routes@) =~= Seq::<RouteView>::empty());
        assert(init@ == empty_swap_estimate_request());
        merge_swap_estimate_request(bytes, init)
    }

    proof fn lemma_read_back(m: Self) {
        law_swap_estimate_request_roundtrip(m);
    }
}

impl MsgProto for QuerySwapExactAmountInResponse {
    open spec fn spec_type_url() -> Seq<char> {
        "/osmosis.gamm.v1beta1.QuerySwapExactAmountInResponse"@
    }

    fn type_url() -> (url: String) {
        "/osmosis.gamm.v1beta1.QuerySwapExactAmountInResponse".to_string()
    }

    open spec fn spec_decode(b: Seq<u8>) -> Option<<Self as View>::V> {
        string1_decode(b, Seq::empty())
    }

    open spec fn encodable(&self) -> bool {
        encode_utf8(self.token_out_amount@).len() <= u64::MAX
    }

    fn decode_bytes(bytes: &[u8]) -> (res: Result<Self, ProtoError>) {
        match decode_string1(bytes) {
            Ok(s) => Ok(QuerySwapExactAmountInResponse { token_out_amount: s }),
            Err(e) => Err(e),
        }
    }

    proof fn lemma_read_back(m: Self) {
        lemma_string1_roundtrip(m.token_out_amount@);
    }
}

impl MsgProto for QueryPoolRequest {
    open spec fn spec_type_url() -> Seq<char> {
        "/osmosis.gamm.v1beta1.Query/Pool"@
    }

    fn type_url() -> (url: String) {
        "/osmosis.gamm.v1beta1.Query/Pool".to_string()
    }

    open spec fn spec_decode(b: Seq<u8>) -> Option<<Self as View>::V> {
        uint64_1_decode(b, 0)
    }

    open spec fn encodable(&self) -> bool {
        true
    }

    fn decode_bytes(bytes: &[u8]) -> (res: Result<Self, ProtoError>) {
        match decode_uint64_1(bytes) {
            Ok(v) => Ok(QueryPoolRequest { pool_id: v }),
            Err(e) => Err(e),
        }
    }

    proof fn lemma_read_back(m: Self) {
        lemma_uint64_1_roundtrip(m.pool_id);
    }
}

impl MsgProto for QueryCurrentEpochRequest {
    open spec fn spec_type_url() -> Seq<char> {
        "/osmosis.epochs.v1beta1.Query/CurrentEpoch"@
    }

    fn type_url() -> (url: String) {
        "/osmosis.epochs.v1beta1.Query/CurrentEpoch".to_string()
    }

    open spec fn spec_decode(b: Seq<u8>) -> Option<<Self as View>::V> {
        string1_decode(b, Seq::empty())
    }

    open spec fn encodable(&self) -> bool {
        encode_utf8(self.identifier@).len() <= u64::MAX
    }

    fn decode_bytes(bytes: &[u8]) -> (res: Result<Self, ProtoError>) {
        match decode_string1(bytes) {
            Ok(s) => Ok(QueryCurrentEpochRequest { identifier: s }),
            Err(e) => Err(e),
        }
    }

    proof fn lemma_read_back(m: Self) {
        lemma_string1_roundtrip(m.identifier@);
    }
}

impl View for QueryPoolResponse {
    type V = Option<AnyView>;

    open spec fn view(&self) -> Option<AnyView> {
        any_opt_view(self.pool)
    }
}

impl MsgProto for QueryPoolResponse {
    open spec fn spec_type_url() -> Seq<char> {
        "/osmosis.gamm.v1beta1.QueryPoolResponse"@
    }

    fn type_url() -> (url: String) {
        "/osmosis.gamm.v1beta1.QueryPoolResponse".to_string()
    }

    open spec fn spec_decode(b: Seq<u8>) -> Option<<Self as View>::V> {
        fields_decode(b, None, pool_response_step())
    }

    open spec fn encodable(&self) -> bool {
        pool_response_encodable(*self)
    }

    fn decode_bytes(bytes: &[u8]) -> (res: Result<Self, ProtoError>) {
        QueryPoolResponse::decode(bytes)
    }

    proof fn lemma_read_back(m: Self) {
        law_pool_response_roundtrip(m);
    }
}

/// Wrapping a spot-price response in an `Any` and reading it back gives it back.
pub proof fn law_spot_price_response_any_roundtrip(m: QuerySpotPriceResponse, any: Any)
    requires
        encode_utf8(m.spot_price@).len() <= u64::MAX,
        any.type_url@ == QuerySpotPriceResponse::spec_type_url(),
        any.value@ == m.wire_bytes(),
    ensures
        string1_decode(any.value@, Seq::empty()) == Some(m.spot_price@),
{
    lemma_string1_roundtrip(m.spot_price@);
}

} // verus!
