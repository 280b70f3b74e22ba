//! The pool-manager contract: it holds the funds of remote contracts and follows
//! the epochs of Osmosis.
use crate::balancer::{empty_pool, fields_decode, pool_response_step, pool_step};
use crate::osmosis::{get_contract_key, FundRecord, StargateQuery};
use crate::proto;
use crate::proto::{MsgProto, ProtoError, uint64_1_decode};
use crate::response::{attrs_view, text_attr, BankCoin, Response};
use crate::types::epochs::{QueryCurrentEpochRequest, QueryCurrentEpochResponse};
use crate::types::Msg;
use vstd::prelude::*;

verus! {

// ---------------------------------------------------------------------------
// Messages.
/// Instantiates the contract; it needs no data.
#[derive(Clone, Debug, PartialEq, Eq)]
pub struct InstantiateMsg {}

/// What the contract can be told to do.
#[derive(Clone, Debug, PartialEq, Eq)]
pub enum ExecuteMsg {
    Fund(FundMsg),
    UpdateEpoch(UpdateEpochMsg),
}

/// Funds the remote contract at `contract_port_id` over `contract_connection_id`.
#[derive(Clone, Debug, PartialEq, Eq)]
pub struct FundMsg {
    pub contract_port_id: String,
    pub contract_connection_id: String,
}

/// Brings the contract up to the current epoch.
#[derive(Clone, Debug, PartialEq, Eq)]
pub struct UpdateEpochMsg {}

/// A swap packet.
#[derive(Clone, Debug, PartialEq, Eq)]
pub struct IbcSwapPacket {
    pub pool_id: u64,
    pub in_amount: u64,
    pub in_denom: String,
    pub out_denom: String,
    pub min_out_amount: String,
    pub to_address: String,
}

/// A packet asking to join a pool with one token.
#[derive(Clone, Debug, PartialEq, Eq)]
pub struct IbcJoinExternAmountInPacket {
    pub pool_id: u64,
    pub in_amount: u64,
    pub in_denom: String,
    pub share_out_min_amount: String,
    pub to_address: String,
}

/// A spot-price query packet.
#[derive(Clone, Debug, PartialEq, Eq)]
pub struct SpotPriceQueryPacket {
    pub pool_id: u64,
    pub in_denom: String,
    pub out_denom: String,
    pub with_swap_fee: bool,
}

/// The packets the contract receives.
#[derive(Clone, Debug, PartialEq, Eq)]
pub enum PacketMsg {
    IbcSwap { ibc_swap_packet: IbcSwapPacket },
    SpotPriceQuery { spot_price_query_packet: SpotPriceQueryPacket },
}

/// The answer to a spot-price query packet.
#[derive(Clone, Debug, PartialEq, Eq)]
pub struct SpotPriceQueryResponse {
    pub spot_price: String,
}

// ---------------------------------------------------------------------------
// State.
/// A decimal coin: a denomination and a decimal amount as text.
#[derive(Clone, Debug, PartialEq, Eq, Default)]
pub struct DecCoin {
    pub denom: String,
    pub amount: String,
}

/// The reward per gamm share bonded up to an epoch.
#[derive(Clone, Debug, PartialEq, Eq, Default)]
pub struct EpochState {
    pub total_reward_per_gamm: Vec<DecCoin>,
}

/// The configuration of the contract.
#[derive(Debug, PartialEq, Eq, Default)]
pub struct Config {
    pub first_epoch: u64,
    pub pool_id: u64,
    pub incentivized_reward_denoms: Vec<String>,
    pub gamm_denom: String,
    pub asset_denoms: (String, String),
}

/// The last epoch the contract was brought up to.
#[derive(Clone, Debug, PartialEq, Eq, Default)]
pub struct LastEpochUpdated {
    pub epoch_id: u64,
}

// ---------------------------------------------------------------------------
// Entry points.
/// Instantiates the contract.
pub fn instantiate(_msg: &InstantiateMsg) -> (res: Response)
    ensures
        res.messages@.len() == 0,
        attrs_view(res.attributes@) == seq![text_attr("action"@, "instantiate"@)],
        res.events@.len() == 0,
        res.ack is None,
{
    Response::with_attribute("action", "instantiate")
}

/// Migrates the contract: nothing to do.
pub fn migrate() -> (res: Response)
    ensures
        res.messages@.len() == 0,
        res.attributes@.len() == 0,
        res.events@.len() == 0,
        res.ack is None,
{
    Response::new()
}

/// The query for the current epoch of the daily epoch series.
pub fn current_epoch_query() -> (q: StargateQuery)
    ensures
        q.path@ == proto::QueryCurrentEpochRequest::spec_type_url(),
        q.data@ == crate::wire::opt_string_field(1, "day"@),
{
    let req = QueryCurrentEpochRequest { identifier: "day".to_string() };
    let any = req.to_any();
    StargateQuery { path: any.type_url, data: any.value }
}

/// The current epoch that the reply to `current_epoch_query` carries.
pub fn query_current_epoch_id(reply: &[u8]) -> (res: Result<u64, ProtoError>)
    ensures
        res is Ok <==> uint64_1_decode(reply@, 0) is Some,
        res matches Ok(epoch) ==> uint64_1_decode(reply@, 0) == Some(epoch),
{
    match QueryCurrentEpochResponse::decode(reply) {
        Ok(r) => Ok(r.current_epoch),
        Err(e) => Err(e),
    }
}

/// The query for a pool.
pub fn pool_query(pool_id: u64) -> (q: StargateQuery)
    ensures
        q.path@ == proto::QueryPoolRequest::spec_type_url(),
        q.data@ == crate::wire::opt_uint64_field(1, pool_id),
{
    let any = proto::QueryPoolRequest { pool_id }.to_any();
    StargateQuery { path: any.type_url, data: any.value }
}

/// Whether `records` are the writes of `funds` under `contract_key`: one per coin,
/// in order, each holding the amount of that coin alone, so that a later write
/// replaces what an earlier one held.
pub open spec fn records_sent(records: Seq<FundRecord>, contract_key: Seq<char>, funds: Seq<BankCoin>) -> bool {
    &&& records.len() == funds.len()
    &&& forall|i: int|
        0 <= i < funds.len() ==> {
            &&& (#[trigger] records[i]).contract_key@ == contract_key
            &&& records[i].denom == funds[i].denom
            &&& records[i].amount == funds[i].amount
        }
}

/// Funds the remote contract that `msg` names with the coins sent along: the
/// writes, one per coin in order under the key `connection/port`, each the amount
/// of that coin, and the response.
pub fn execute_fund(funds: &Vec<BankCoin>, msg: FundMsg) -> (res: (Vec<FundRecord>, Response))
    ensures
        records_sent(res.0@, msg.contract_connection_id@ + "/"@ + msg.contract_port_id@, funds@),
        res.1.messages@.len() == 0,
        attrs_view(res.1.attributes@) == seq![text_attr("action"@, "execute_fund_msg"@)],
        res.1.events@.len() == 0,
        res.1.ack is None,
{
    let contract_key = get_contract_key(msg.contract_connection_id, msg.contract_port_id);
    let mut records: Vec<FundRecord> = Vec::new();
    let mut i: usize = 0;
    while i < funds.len()
        invariant
            i <= funds@.len(),
            records@.len() == i,
            forall|j: int|
                0 <= j < i ==> {
                    &&& (#[trigger] records@[j]).contract_key@ == contract_key@
                    &&& records@[j].denom == funds@[j].denom
                    &&& records@[j].amount == funds@[j].amount
                },
        decreases funds@.len() - i,
    {
        records.push(
            FundRecord {
                contract_key: contract_key.clone(),
                denom: funds[i].denom.clone(),
                amount: funds[i].amount,
            },
        );
        i = i + 1;
    }
    (records, Response::with_attribute("action", "execute_fund_msg"))
}

/// The epoch update as the contract has it: it records the coins sent along for the
/// remote contract that `msg` names, exactly as `execute_fund` does.
pub fn execute_update_epoch(funds: &Vec<BankCoin>, msg: FundMsg) -> (res: (Vec<FundRecord>, Response))
    ensures
        records_sent(res.0@, msg.contract_connection_id@ + "/"@ + msg.contract_port_id@, funds@),
        res.1.messages@.len() == 0,
        attrs_view(res.1.attributes@) == seq![text_attr("action"@, "execute_fund_msg"@)],
        res.1.events@.len() == 0,
        res.1.ack is None,
{
    execute_fund(funds, msg)
}

/// Why the reply to a pool query yields no pool; the contract aborts on each.
#[derive(Clone, Copy, Debug, PartialEq, Eq, Structural)]
pub enum PoolReplyError {
    /// The reply is not a valid encoded response.
    Undecodable,
    /// The response holds no pool.
    MissingPool,
    /// The pool's `Any` names a type other than the balancer pool's.
    TypeUrlMismatch,
    /// The pool's bytes are not a valid encoded balancer pool.
    UndecodablePool,
}

/// The balancer pool in the reply to `pool_query`.
pub fn query_pool(reply: &[u8]) -> (res: Result<proto::Pool, PoolReplyError>)
    ensures
        match fields_decode(reply@, None, pool_response_step()) {
            None => res == Err::<proto::Pool, PoolReplyError>(PoolReplyError::Undecodable),
            Some(None) => res == Err::<proto::Pool, PoolReplyError>(PoolReplyError::MissingPool),
            Some(Some(any)) => if any.type_url.len() != 0 {
                res == Err::<proto::Pool, PoolReplyError>(PoolReplyError::TypeUrlMismatch)
            } else {
                match fields_decode(any.value, empty_pool(), pool_step()) {
                    None => res == Err::<proto::Pool, PoolReplyError>(
                        PoolReplyError::UndecodablePool,
                    ),
                    Some(p) => res matches Ok(v) && v@ == p,
                }
            },
        },
{
    let response = match proto::QueryPoolResponse::decode(reply) {
        Ok(r) => r,
        Err(_) => return Err(PoolReplyError::Undecodable),
    };
    let any = match response.pool {
        Some(a) => a,
        None => return Err(PoolReplyError::MissingPool),
    };
    if !any.type_url.as_str().is_empty() {
        return Err(PoolReplyError::TypeUrlMismatch);
    }
    match proto::Pool::decode(any.value.as_slice()) {
        Ok(p) => Ok(p),
        Err(_) => Err(PoolReplyError::UndecodablePool),
    }
}

} // verus!
