//! The contract on Osmosis: it receives swap, liquidity and spot-price packets from
//! registered remote contracts and turns them into Osmosis messages and queries.
use crate::proto;
use crate::proto::{MsgProto, ProtoError, WireMessage, string1_decode};
use crate::response::{
    attrs_view, text_attr, text_attribute, Acknowledgement, Attribute, BankCoin, Event,
    OutgoingMsg, Response,
};
use crate::pool_api::{balance_of, find_balance};
use crate::text::{parse_amount, parse_u128, same_text};
use crate::types::gamm::{
    routes_into_proto, MsgJoinPool, MsgSwapExactAmountIn, QuerySpotPriceRequest,
    QuerySwapExactAmountInRequest, SwapAmountInRoute,
};
use crate::types::{Coin, Msg};
use vstd::prelude::*;

verus! {

/// The IBC version the contract speaks.
pub const IBC_VERSION: &'static str = "ibc-gamm-1";

/// The reply id of a swap.
pub const RECEIVE_SWAP_ID: u64 = 1234;

/// The reply id of an instantiation callback.
pub const INIT_CALLBACK_ID: u64 = 7890;

// ---------------------------------------------------------------------------
// Messages.
/// Instantiates the contract; it needs no data.
#[derive(Clone, Debug, PartialEq, Eq)]
pub struct InstantiateMsg {}

/// What the contract can be told to do.
#[derive(Clone, Debug, PartialEq, Eq)]
pub enum ExecuteMsg {
    SetIBCDenomForContractMsg(SetIBCDenomForContractMsg),
}

/// Registers the IBC denomination of a remote contract's token.
#[derive(Clone, Debug, PartialEq, Eq)]
pub struct SetIBCDenomForContractMsg {
    pub ibc_denom: String,
    pub contract_port_id: String,
    pub contract_channel_id: String,
    /// denom of that contract token on the native chain
    pub contract_native_denom: String,
}

/// A swap asked for by a remote contract.
#[derive(Clone, Debug, PartialEq, Eq)]
pub struct IbcSwap {
    pub pool_id: u64,
    pub in_amount: String,
    pub in_denom: String,
    pub min_out_amount: String,
    pub out_denom: String,
    pub to_address: String,
}

/// A swap packet: swap `in_amount` of `in_denom` in pool `pool_id` for at least
/// `min_out_amount` of `out_denom`, and send the proceeds to `to_address`.
#[derive(Clone, Debug, PartialEq, Eq)]
pub struct IbcSwapPacket {
    pub pool_id: u64,
    pub in_amount: String,
    pub in_denom: String,
    pub min_out_amount: String,
    pub out_denom: String,
    pub to_address: String,
}

/// A spot-price query packet.
#[derive(Clone, Debug, PartialEq, Eq)]
pub struct SpotPriceQueryPacket {
    pub pool_id: u64,
    pub in_denom: String,
    pub out_denom: String,
    pub with_swap_fee: bool,
}

/// A packet asking to join pool `pool_id` for `share_out_amount` shares, paying at
/// most the two given token amounts.
#[derive(Clone, Debug, PartialEq, Eq)]
pub struct IbcAddLiquidPacket {
    pub pool_id: u64,
    pub token1_denom: String,
    pub token1_amount: String,
    pub token2_denom: String,
    pub token2_amount: String,
    pub share_out_amount: String,
}

/// The packets the contract receives.
#[derive(Clone, Debug, PartialEq, Eq)]
pub enum PacketMsg {
    IbcSwap { ibc_swap_packet: IbcSwapPacket },
    SpotPriceQuery { spot_price_query_packet: SpotPriceQueryPacket },
    IbcAddLiquidity { ibc_add_liquidity: IbcAddLiquidPacket },
}

/// The answer to a spot-price query packet.
#[derive(Clone, Debug, PartialEq, Eq)]
pub struct SpotPriceQueryResponse {
    pub spot_price: String,
}

// ---------------------------------------------------------------------------
// State.
/// The key under which the funds of a remote contract are kept: its connection id,
/// a slash, and its port id.
pub fn get_contract_key(contract_connection_id: String, contract_port_id: String) -> (key: String)
    ensures
        key@ == contract_connection_id@ + "/"@ + contract_port_id@,
{
    contract_connection_id.concat("/").concat(contract_port_id.as_str())
}

/// One write of the funds table: `amount` of `denom` held for the remote contract
/// under `contract_key`.
#[derive(Clone, Debug, PartialEq, Eq)]
pub struct FundRecord {
    pub contract_key: String,
    pub denom: String,
    pub amount: u128,
}

/// The amount of `denom` already recorded in `stored`, 0 where none is.
pub open spec fn recorded(stored: Seq<BankCoin>, denom: Seq<char>) -> int {
    match balance_of(stored, denom) {
        Some(a) => a as int,
        None => 0,
    }
}

/// The total amount of the coins of `denom` among `funds`.
pub open spec fn sent_total(funds: Seq<BankCoin>, denom: Seq<char>) -> int
    decreases funds.len(),
{
    if funds.len() == 0 {
        0
    } else {
        sent_total(funds.drop_last(), denom) + if funds.last().denom@ == denom {
            funds.last().amount as int
        } else {
            0
        }
    }
}

/// The total that the record of the `i`-th coin of `funds` holds once written: what
/// was recorded for its denomination before, plus every coin of that denomination
/// sent up to and including it.
pub open spec fn fund_total_at(stored: Seq<BankCoin>, funds: Seq<BankCoin>, i: int) -> int {
    recorded(stored, funds[i].denom@) + sent_total(funds.take(i + 1), funds[i].denom@)
}

/// Whether `records` are the writes of `funds` under `contract_key` on top of the
/// records `stored`: one per coin, in order, each the running total of its
/// denomination, so that the last write of a denomination holds what was recorded
/// before plus all that was sent of it.
pub open spec fn records_funds(
    records: Seq<FundRecord>,
    contract_key: Seq<char>,
    stored: Seq<BankCoin>,
    funds: Seq<BankCoin>,
) -> bool {
    &&& records.len() == funds.len()
    &&& forall|i: int|
        0 <= i < funds.len() ==> {
            &&& (#[trigger] records[i]).contract_key@ == contract_key
            &&& records[i].denom == funds[i].denom
            &&& records[i].amount == fund_total_at(stored, funds, i)
        }
}

/// Whether some running total of `funds` on top of `stored` passes `u128::MAX`.
pub open spec fn fund_overflows(stored: Seq<BankCoin>, funds: Seq<BankCoin>) -> bool {
    exists|i: int| 0 <= i < funds.len() && fund_total_at(stored, funds, i) > u128::MAX
}

proof fn lemma_sent_total_grows(funds: Seq<BankCoin>, denom: Seq<char>, a: int, b: int)
    requires
        0 <= a <= b <= funds.len(),
    ensures
        sent_total(funds.take(a), denom) <= sent_total(funds.take(b), denom),
    decreases b - a,
{
    if a < b {
        lemma_sent_total_grows(funds, denom, a, b - 1);
        assert(funds.take(b).drop_last() =~= funds.take(b - 1));
    }
}

proof fn lemma_sent_total_flat(funds: Seq<BankCoin>, denom: Seq<char>, a: int, b: int)
    requires
        0 <= a <= b <= funds.len(),
        forall|j: int| a <= j < b ==> (#[trigger] funds[j]).denom@ != denom,
    ensures
        sent_total(funds.take(a), denom) == sent_total(funds.take(b), denom),
    decreases b - a,
{
    if a < b {
        lemma_sent_total_flat(funds, denom, a, b - 1);
        assert(funds.take(b).drop_last() =~= funds.take(b - 1));
        assert(funds.take(b).last() == funds[b - 1]);
    }
}

/// Funding adds up: the last write of a denomination holds what was recorded for it
/// before plus everything sent of it.
pub proof fn law_fund_totals(stored: Seq<BankCoin>, funds: Seq<BankCoin>, i: int)
    requires
        0 <= i < funds.len(),
        forall|j: int| i < j < funds.len() ==> (#[trigger] funds[j]).denom@ != funds[i].denom@,
    ensures
        fund_total_at(stored, funds, i) == recorded(stored, funds[i].denom@) + sent_total(
            funds,
            funds[i].denom@,
        ),
{
    lemma_sent_total_flat(funds, funds[i].denom@, i + 1, funds.len() as int);
    assert(funds.take(funds.len() as int) =~= funds);
}

/// The writes that funding a remote contract makes: one per coin sent, in order,
/// under the contract's key, each adding the coin to what `stored` (the records of
/// the contract's key for the denominations sent) already holds. Refused where a
/// total would pass `u128::MAX`.
pub fn execute_fund(
    contract_connection_id: String,
    contract_port_id: String,
    stored: &Vec<BankCoin>,
    funds: &Vec<BankCoin>,
) -> (res: Result<(Vec<FundRecord>, Response), String>)
    ensures
        res is Err <==> fund_overflows(stored@, funds@),
        res matches Err(e) ==> e@ == "fund total overflows"@,
        res matches Ok((records, resp)) ==> {
            &&& records_funds(
                records@,
                contract_connection_id@ + "/"@ + contract_port_id@,
                stored@,
                funds@,
            )
            &&& resp.messages@.len() == 0
            &&& attrs_view(resp.attributes@) == seq![text_attr("action"@, "execute_fund_msg"@)]
            &&& resp.events@.len() == 0
            &&& resp.ack is None
        },
{
    let contract_key = get_contract_key(contract_connection_id, contract_port_id);
    let mut records: Vec<FundRecord> = Vec::new();
    let mut i: usize = 0;
    while i < funds.len()
        invariant
            i <= funds@.len(),
            records@.len() == i,
            forall|k: int| 0 <= k < i ==> fund_total_at(stored@, funds@, k) <= u128::MAX,
            forall|j: int|
                0 <= j < i ==> {
                    &&& (#[trigger] records@[j]).contract_key@ == contract_key@
                    &&& records@[j].denom == funds@[j].denom
                    &&& records@[j].amount == fund_total_at(stored@, funds@, j)
                },
        decreases funds@.len() - i,
    {
        let ghost d = funds@[i as int].denom@;
        let mut total: u128 = match find_balance(stored, funds[i].denom.as_str()) {
            Some(a) => a,
            None => 0,
        };
        let mut j: usize = 0;
        assert(funds@.take(0) =~= Seq::<BankCoin>::empty());
        while j <= i
            invariant
                i < funds@.len(),
                i < funds.len(),
                j <= i + 1,
                d == funds@[i as int].denom@,
                total == recorded(stored@, d) + sent_total(funds@.take(j as int), d),
            decreases i + 1 - j,
        {
            assert(funds@.take((j + 1) as int).drop_last() =~= funds@.take(j as int));
            if same_text(funds[j].denom.as_str(), funds[i].denom.as_str()) {
                match total.checked_add(funds[j].amount) {
                    Some(t) => {
                        total = t;
                    },
                    None => {
                        proof {
                            lemma_sent_total_grows(funds@, d, (j + 1) as int, (i + 1) as int);
                            assert(fund_total_at(stored@, funds@, i as int) > u128::MAX);
                        }
                        return Err("fund total overflows".to_string());
                    },
                }
            }
            j = j + 1;
        }
        records.push(
            FundRecord {
                contract_key: contract_key.clone(),
                denom: funds[i].denom.clone(),
                amount: total,
            },
        );
        i = i + 1;
    }
    Ok((records, Response::with_attribute("action", "execute_fund_msg")))
}

// ---------------------------------------------------------------------------
// Channel handshake.
/// The text of an optional string.
pub open spec fn opt_text(o: Option<&str>) -> Option<Seq<char>> {
    match o {
        Some(v) => Some(v@),
        None => None,
    }
}

/// The ordering of an IBC channel.
#[derive(Clone, Copy, Debug, PartialEq, Eq, Structural)]
pub enum ChannelOrder {
    Ordered,
    Unordered,
}

/// Why a channel is refused: it must be ordered, and both ends must speak
/// `ibc-gamm-1`.
pub open spec fn channel_open_error(
    order: ChannelOrder,
    version: Seq<char>,
    counterparty_version: Option<Seq<char>>,
) -> Option<Seq<char>> {
    if order != ChannelOrder::Ordered {
        Some("Only supports ordered channels"@)
    } else if version != IBC_VERSION@ {
        Some("Must set version to `ibc-gamm-1`"@)
    } else if counterparty_version matches Some(v) && v != IBC_VERSION@ {
        Some("Counterparty version must be `ibc-gamm-1`"@)
    } else {
        None
    }
}

/// Accepts a channel only where it is ordered and both ends speak `ibc-gamm-1`.
pub fn ibc_channel_open(order: ChannelOrder, version: &str, counterparty_version: Option<&str>) -> (res:
    Result<(), String>)
    ensures
        res is Ok <==> channel_open_error(order, version@, opt_text(counterparty_version)) is None,
        res matches Err(e) ==> channel_open_error(
            order,
            version@,
            opt_text(counterparty_version),
        ) == Some(e@),
{
    match order {
        ChannelOrder::Ordered => {},
        ChannelOrder::Unordered => {
            return Err("Only supports ordered channels".to_string());
        },
    }
    if !same_text(version, IBC_VERSION) {
        return Err("Must set version to `ibc-gamm-1`".to_string());
    }
    match counterparty_version {
        Some(v) => {
            if !same_text(v, IBC_VERSION) {
                return Err("Counterparty version must be `ibc-gamm-1`".to_string());
            }
        },
        None => {},
    }
    Ok(())
}

/// Connects a channel: the contract records the connection of `channel_id`.
pub fn ibc_channel_connect(channel_id: &str, connection_id: &str) -> (res: ((String, String), Response))
    ensures
        res.0.0@ == channel_id@,
        res.0.1@ == connection_id@,
        res.1.messages@.len() == 0,
        attrs_view(res.1.attributes@) == seq![
            text_attr("action"@, "ibc_connect"@),
            text_attr("channel_id"@, channel_id@),
        ],
        res.1.events@.len() == 1,
        res.1.events@[0].ty@ == "ibc"@,
        attrs_view(res.1.events@[0].attributes@) == seq![text_attr("channel"@, "connect"@)],
        res.1.ack is None,
{
    let mut attributes: Vec<Attribute> = Vec::new();
    attributes.push(text_attribute("action", "ibc_connect"));
    attributes.push(text_attribute("channel_id", channel_id));
    let mut event_attributes: Vec<Attribute> = Vec::new();
    event_attributes.push(text_attribute("channel", "connect"));
    let mut events: Vec<Event> = Vec::new();
    events.push(Event { ty: "ibc".to_string(), attributes: event_attributes });
    assert(attrs_view(attributes@) =~= seq![
        text_attr("action"@, "ibc_connect"@),
        text_attr("channel_id"@, channel_id@),
    ]);
    assert(attrs_view(events@[0].attributes@) =~= seq![text_attr("channel"@, "connect"@)]);
    (
        (channel_id.to_string(), connection_id.to_string()),
        Response { messages: Vec::new(), attributes, events, ack: None },
    )
}

/// Closes a channel: the contract forgets the connection recorded for
/// `channel_id`, which comes back as the channel whose record goes.
pub fn ibc_channel_close(channel_id: &str) -> (res: (String, Response))
    ensures
        res.0@ == channel_id@,
        res.1.messages@.len() == 0,
        attrs_view(res.1.attributes@) == seq![
            text_attr("action"@, "ibc_close"@),
            text_attr("channel_id"@, channel_id@),
        ],
        res.1.events@.len() == 0,
        res.1.ack is None,
{
    let mut attributes: Vec<Attribute> = Vec::new();
    attributes.push(text_attribute("action", "ibc_close"));
    attributes.push(text_attribute("channel_id", channel_id));
    assert(attrs_view(attributes@) =~= seq![
        text_attr("action"@, "ibc_close"@),
        text_attr("channel_id"@, channel_id@),
    ]);
    (
        channel_id.to_string(),
        Response { messages: Vec::new(), attributes, events: Vec::new(), ack: None },
    )
}

/// Instantiates the contract.
pub fn instantiate(_msg: &InstantiateMsg) -> (res: Response)
    ensures
        res.messages@.len() == 0,
        attrs_view(res.attributes@) == seq![text_attr("action"@, "instantiate"@)],
        res.events@.len() == 0,
        res.ack is None,
{
    Response::with_attribute("action", "instantiate")
}

/// Handles a reply: nothing to do.
pub fn reply() -> (res: Response)
    ensures
        res.messages@.len() == 0,
        res.attributes@.len() == 0,
        res.events@.len() == 0,
        res.ack is None,
{
    Response::new()
}

/// Migrates the contract: nothing to do.
pub fn migrate() -> (res: Response)
    ensures
        res.messages@.len() == 0,
        res.attributes@.len() == 0,
        res.events@.len() == 0,
        res.ack is None,
{
    Response::new()
}

/// Handles the acknowledgement of a packet; the contract sends none.
pub fn ibc_packet_ack() -> (res: Response)
    ensures
        res.messages@.len() == 0,
        attrs_view(res.attributes@) == seq![text_attr("action"@, "ibc_packet_ack"@)],
        res.events@.len() == 0,
        res.ack is None,
{
    Response::with_attribute("action", "ibc_packet_ack")
}

/// Handles the timeout of a packet; the contract sends none.
pub fn ibc_packet_timeout() -> (res: Response)
    ensures
        res.messages@.len() == 0,
        attrs_view(res.attributes@) == seq![text_attr("action"@, "ibc_packet_timeout"@)],
        res.events@.len() == 0,
        res.ack is None,
{
    Response::with_attribute("action", "ibc_packet_timeout")
}

// ---------------------------------------------------------------------------
// Receiving packets.
/// The denomination whose registration a packet is checked against: the input
/// denomination of a swap, the first token of a liquidity packet; none for a
/// spot-price query.
pub open spec fn permission_denom(p: PacketMsg) -> Option<String> {
    match p {
        PacketMsg::IbcSwap { ibc_swap_packet } => Some(ibc_swap_packet.in_denom),
        PacketMsg::SpotPriceQuery { .. } => None,
        PacketMsg::IbcAddLiquidity { ibc_add_liquidity } => Some(ibc_add_liquidity.token1_denom),
    }
}

/// The denomination whose registration (port and connection) a packet is checked
/// against; the packet also needs the connection of its channel exactly when it
/// has one.
pub fn packet_permission_denom(packet: &PacketMsg) -> (d: Option<String>)
    ensures
        d == permission_denom(*packet),
        packet matches PacketMsg::IbcSwap { ibc_swap_packet } ==> d == Some(ibc_swap_packet.in_denom),
        packet matches PacketMsg::IbcAddLiquidity { ibc_add_liquidity } ==> d == Some(
            ibc_add_liquidity.token1_denom,
        ),
        packet is SpotPriceQuery ==> d is None,
{
    match packet {
        PacketMsg::IbcSwap { ibc_swap_packet } => Some(ibc_swap_packet.in_denom.clone()),
        PacketMsg::SpotPriceQuery { .. } => None,
        PacketMsg::IbcAddLiquidity { ibc_add_liquidity } => Some(
            ibc_add_liquidity.token1_denom.clone(),
        ),
    }
}

/// Whether a packet that came from `counterparty_port_id` over `connection_id` may
/// move the funds of a denomination registered for `(port, connection)`.
pub open spec fn permitted(
    counterparty_port_id: Seq<char>,
    connection_id: Seq<char>,
    registration: (String, String),
) -> bool {
    counterparty_port_id == registration.0@ && connection_id == registration.1@
}

/// Whether a swap of the input amount `in_amount` stays within the funded `funded`:
/// the amount reads as a number no greater than it.
pub open spec fn within_funds(in_amount: Seq<char>, funded: u128) -> bool {
    parse_u128(in_amount) matches Some(a) && a <= funded
}

/// A Stargate query: the gRPC path and the Protobuf request.
#[derive(Clone, Debug, PartialEq, Eq)]
pub struct StargateQuery {
    pub path: String,
    pub data: Vec<u8>,
}

/// A swap that waits for the estimate of its proceeds.
#[derive(Clone, Debug, PartialEq, Eq)]
pub struct PendingSwap {
    pub sender: String,
    pub route: SwapAmountInRoute,
    pub token_in: Coin,
    pub min_out_amount: String,
    pub out_denom: String,
    pub to_address: String,
    /// What the sender's fund record of the input denomination holds once the swap
    /// goes through.
    pub fund_left: u128,
}

/// What the contract does next with a received packet.
#[derive(Clone, Debug, PartialEq, Eq)]
pub enum ReceiveStep {
    /// Answer with this response.
    Respond(Response),
    /// Estimate the swap with this query, then finish it with `finish_swap`.
    EstimateSwap { query: StargateQuery, pending: PendingSwap },
    /// Ask for the spot price with this query, then answer with `finish_spot_price`.
    QuerySpotPrice { query: StargateQuery },
}

/// The answer to a packet that may not move the funds it names.
pub open spec fn is_denied(r: Response) -> bool {
    &&& r.messages@.len() == 0
    &&& attrs_view(r.attributes@) == seq![text_attr("packet"@, "receive"@)]
    &&& r.events@.len() == 0
    &&& r.ack matches Some(Acknowledgement::Error(e)) && e@
        == "contract don't have permission to move fund"@
}

fn denied() -> (r: Response)
    ensures
        is_denied(r),
{
    let mut r = Response::with_attribute("packet", "receive");
    r.ack = Some(Acknowledgement::Error("contract don't have permission to move fund".to_string()));
    r
}

/// The wire form of the one route of a swap packet.
pub open spec fn swap_route(p: IbcSwapPacket) -> proto::SwapAmountInRoute {
    proto::SwapAmountInRoute { pool_id: p.pool_id, token_out_denom: p.out_denom }
}

/// The bytes of the estimate request for a swap packet, made by `sender`: the input
/// given as the amount followed by the denomination.
pub open spec fn swap_estimate_bytes(sender: Seq<char>, p: IbcSwapPacket) -> Seq<u8> {
    crate::wire::opt_string_field(1, sender) + crate::wire::opt_uint64_field(2, p.pool_id)
        + crate::wire::opt_string_field(3, p.in_amount@ + p.in_denom@) + proto::repeated_field(
        4,
        seq![swap_route(p)],
    )
}

/// The bytes of the spot-price request of a packet.
pub open spec fn spot_price_request_bytes(p: SpotPriceQueryPacket) -> Seq<u8> {
    crate::wire::opt_uint64_field(1, p.pool_id) + crate::wire::opt_string_field(2, p.in_denom@)
        + crate::wire::opt_string_field(3, p.out_denom@) + crate::wire::opt_bool_field(
        4,
        p.with_swap_fee,
    )
}

/// The wire form of a coin given by its denomination and amount.
pub open spec fn coin_proto(denom: String, amount: String) -> proto::Coin {
    proto::Coin { denom, amount }
}

/// The bytes of the pool-join message for a liquidity packet, made by `sender`.
pub open spec fn join_pool_bytes(sender: Seq<char>, p: IbcAddLiquidPacket) -> Seq<u8> {
    crate::wire::opt_string_field(1, sender) + crate::wire::opt_uint64_field(2, p.pool_id)
        + crate::wire::opt_string_field(3, p.share_out_amount@) + proto::repeated_field(
        4,
        seq![coin_proto(p.token1_denom, p.token1_amount), coin_proto(p.token2_denom, p.token2_amount)],
    )
}

fn estimate_swap(this_contract_address: &str, p: &IbcSwapPacket, fund_left: u128) -> (res: (
    StargateQuery,
    PendingSwap,
))
    ensures
        res.1.fund_left == fund_left,
        res.0.path@ == proto::QuerySwapExactAmountInRequest::spec_type_url(),
        res.0.data@ == swap_estimate_bytes(this_contract_address@, *p),
        res.1.sender@ == this_contract_address@,
        res.1.route.spec_into_proto() == swap_route(*p),
        res.1.route.pool_id == p.pool_id,
        res.1.route.token_out_denom == p.out_denom,
        res.1.token_in.spec_into_proto() == coin_proto(p.in_denom, p.in_amount),
        res.1.token_in.denom == p.in_denom,
        res.1.token_in.amount == p.in_amount,
        res.1.min_out_amount == p.min_out_amount,
        res.1.out_denom == p.out_denom,
        res.1.to_address == p.to_address,
{
    let route = SwapAmountInRoute { pool_id: p.pool_id, token_out_denom: p.out_denom.clone() };
    let token_in = Coin { denom: p.in_denom.clone(), amount: p.in_amount.clone() };
    let mut routes: Vec<SwapAmountInRoute> = Vec::new();
    routes.push(SwapAmountInRoute { pool_id: p.pool_id, token_out_denom: p.out_denom.clone() });
    let req = QuerySwapExactAmountInRequest {
        pool_id: p.pool_id,
        token_in: token_in.to_display_string(),
        sender: this_contract_address.to_string(),
        routes,
    };
    let any = req.to_any();
    assert(routes_into_proto(req.routes@) =~= seq![swap_route(*p)]);
    let pending = PendingSwap {
        sender: this_contract_address.to_string(),
        route,
        token_in,
        min_out_amount: p.min_out_amount.clone(),
        out_denom: p.out_denom.clone(),
        to_address: p.to_address.clone(),
        fund_left,
    };
    (StargateQuery { path: any.type_url, data: any.value }, pending)
}

fn receive_add_liquidity(this_contract_address: &str, p: &IbcAddLiquidPacket) -> (res: Response)
    ensures
        res.messages@.len() == 1,
        res.messages@[0] matches OutgoingMsg::Stargate { type_url, value } && type_url@
            == proto::MsgJoinPool::spec_type_url() && value@ == join_pool_bytes(
            this_contract_address@,
            *p,
        ),
        attrs_view(res.attributes@) == seq![text_attr("action"@, "receive_add_liquidity"@)],
        res.events@.len() == 0,
        res.ack == Some(Acknowledgement::Success),
{
    let mut token_maxs: Vec<Coin> = Vec::new();
    token_maxs.push(Coin { amount: p.token1_amount.clone(), denom: p.token1_denom.clone() });
    token_maxs.push(Coin { amount: p.token2_amount.clone(), denom: p.token2_denom.clone() });
    let join = MsgJoinPool {
        sender: this_contract_address.to_string(),
        pool_id: p.pool_id,
        share_out_amount: p.share_out_amount.clone(),
        token_in_maxs: token_maxs,
    };
    let any = join.to_any();
    assert(crate::types::coins_into_proto(join.token_in_maxs@) =~= seq![
        coin_proto(p.token1_denom, p.token1_amount),
        coin_proto(p.token2_denom, p.token2_amount),
    ]);
    let mut r = Response::with_attribute("action", "receive_add_liquidity");
    r.messages.push(OutgoingMsg::Stargate { type_url: any.type_url, value: any.value });
    r.ack = Some(Acknowledgement::Success);
    r
}

/// Takes in a packet that came from `counterparty_port_id` over `connection_id`;
/// `registration` is the port and connection registered for the packet's
/// `permission_denom`. A swap or liquidity packet from anywhere else is denied;
/// a permitted swap is estimated first, a spot-price query is asked.
///
/// A remote contract may swap only what it has funded: `funded` is its fund record
/// of the swap's input denomination, under `get_contract_key(connection_id,
/// counterparty_port_id)` (0 where there is none). A swap whose input amount does
/// not read as a number, or is more than `funded`, is denied; an estimated swap
/// carries what the record holds once the swap goes through.
pub fn receive_packet(
    this_contract_address: &str,
    counterparty_port_id: &str,
    connection_id: Option<String>,
    registration: Option<(String, String)>,
    funded: u128,
    packet: PacketMsg,
) -> (res: ReceiveStep)
    requires
        !(packet is SpotPriceQuery) ==> connection_id is Some && registration is Some,
    ensures
        packet matches PacketMsg::IbcSwap { ibc_swap_packet } ==> {
            if permitted(counterparty_port_id@, connection_id.unwrap()@, registration.unwrap())
                && within_funds(ibc_swap_packet.in_amount@, funded) {
                res matches ReceiveStep::EstimateSwap { query, pending } && {
                    &&& pending.fund_left == funded - parse_u128(ibc_swap_packet.in_amount@).unwrap()
                    &&& query.path@ == proto::QuerySwapExactAmountInRequest::spec_type_url()
                    &&& query.data@ == swap_estimate_bytes(this_contract_address@, ibc_swap_packet)
                    &&& pending.sender@ == this_contract_address@
                    &&& pending.route.spec_into_proto() == swap_route(ibc_swap_packet)
                    &&& pending.route.pool_id == ibc_swap_packet.pool_id
                    &&& pending.route.token_out_denom == ibc_swap_packet.out_denom
                    &&& pending.token_in.denom == ibc_swap_packet.in_denom
                    &&& pending.token_in.amount == ibc_swap_packet.in_amount
                    &&& pending.token_in.spec_into_proto() == coin_proto(
                        ibc_swap_packet.in_denom,
                        ibc_swap_packet.in_amount,
                    )
                    &&& pending.min_out_amount == ibc_swap_packet.min_out_amount
                    &&& pending.out_denom == ibc_swap_packet.out_denom
                    &&& pending.to_address == ibc_swap_packet.to_address
                }
            } else {
                res matches ReceiveStep::Respond(r) && is_denied(r)
            }
        },
        packet matches PacketMsg::SpotPriceQuery { spot_price_query_packet } ==> (
        res matches ReceiveStep::QuerySpotPrice { query } && query.path@
            == proto::QuerySpotPriceRequest::spec_type_url() && query.data@
            == spot_price_request_bytes(spot_price_query_packet)),
        packet matches PacketMsg::IbcAddLiquidity { ibc_add_liquidity } ==> {
            if permitted(counterparty_port_id@, connection_id.unwrap()@, registration.unwrap()) {
                res matches ReceiveStep::Respond(r) && {
                    &&& r.messages@.len() == 1
                    &&& r.messages@[0] matches OutgoingMsg::Stargate { type_url, value }
                        && type_url@ == proto::MsgJoinPool::spec_type_url() && value@
                        == join_pool_bytes(this_contract_address@, ibc_add_liquidity)
                    &&& attrs_view(r.attributes@) == seq![
                        text_attr("action"@, "receive_add_liquidity"@),
                    ]
                    &&& r.events@.len() == 0
                    &&& r.ack == Some(Acknowledgement::Success)
                }
            } else {
                res matches ReceiveStep::Respond(r) && is_denied(r)
            }
        },
{
    match packet {
        PacketMsg::IbcSwap { ibc_swap_packet } => {
            let conn = connection_id.unwrap();
            let (expected_port_id, expected_conn_id) = registration.unwrap();
            if !(same_text(counterparty_port_id, expected_port_id.as_str()) && same_text(
                conn.as_str(),
                expected_conn_id.as_str(),
            )) {
                return ReceiveStep::Respond(denied());
            }
            let amount = match parse_amount(ibc_swap_packet.in_amount.as_str()) {
                Some(a) => a,
                None => {
                    return ReceiveStep::Respond(denied());
                },
            };
            if amount > funded {
                return ReceiveStep::Respond(denied());
            }
            let (query, pending) = estimate_swap(this_contract_address, &ibc_swap_packet, funded - amount);
            ReceiveStep::EstimateSwap { query, pending }
        },
        PacketMsg::SpotPriceQuery { spot_price_query_packet } => {
            let p = spot_price_query_packet;
            let req = QuerySpotPriceRequest {
                pool_id: p.pool_id,
                token_in_denom: p.in_denom,
                token_out_denom: p.out_denom,
                with_swap_fee: p.with_swap_fee,
            };
            let any = req.to_any();
            ReceiveStep::QuerySpotPrice { query: StargateQuery { path: any.type_url, data: any.value } }
        },
        PacketMsg::IbcAddLiquidity { ibc_add_liquidity } => {
            let conn = connection_id.unwrap();
            let (expected_port_id, expected_conn_id) = registration.unwrap();
            if !(same_text(counterparty_port_id, expected_port_id.as_str()) && same_text(
                conn.as_str(),
                expected_conn_id.as_str(),
            )) {
                return ReceiveStep::Respond(denied());
            }
            ReceiveStep::Respond(receive_add_liquidity(this_contract_address, &ibc_add_liquidity))
        },
    }
}

/// Why a swap cannot be finished; the contract aborts.
#[derive(Clone, Copy, Debug, PartialEq, Eq, Structural)]
pub enum SwapFailure {
    /// The estimate is not a valid encoded response.
    UndecodableEstimate,
    /// The estimated amount is not a number.
    BadEstimate,
    /// The packet's minimum output is not a number.
    BadMinOutAmount,
}

/// The bytes of the swap message of a pending swap.
pub open spec fn swap_msg_bytes(s: PendingSwap) -> Seq<u8> {
    crate::wire::opt_string_field(1, s.sender@) + proto::repeated_field(
        2,
        seq![s.route.spec_into_proto()],
    ) + crate::wire::message_field(3, s.token_in.spec_into_proto().wire_bytes())
        + crate::wire::opt_string_field(4, s.min_out_amount@)
}

/// The estimate that a reply to the estimate query carries, if it reads.
pub open spec fn estimate_of(reply: Seq<u8>) -> Option<Seq<char>> {
    string1_decode(reply, Seq::empty())
}

/// Finishes a swap with the reply to its estimate query: where the estimate is
/// below the minimum output the packet is answered with an error; otherwise the
/// swap is dispatched, the whole estimate is sent to the recipient, and what the
/// sender's fund record holds from then on comes back with the response.
pub fn finish_swap(pending: PendingSwap, reply: &[u8]) -> (res: Result<(Response, Option<u128>), SwapFailure>)
    ensures
        estimate_of(reply@) is None <==> res == Err::<(Response, Option<u128>), SwapFailure>(
            SwapFailure::UndecodableEstimate,
        ),
        estimate_of(reply@) matches Some(est) ==> {
            if parse_u128(est) is None {
                res == Err::<(Response, Option<u128>), SwapFailure>(SwapFailure::BadEstimate)
            } else if parse_u128(pending.min_out_amount@) is None {
                res == Err::<(Response, Option<u128>), SwapFailure>(SwapFailure::BadMinOutAmount)
            } else if parse_u128(est).unwrap() < parse_u128(pending.min_out_amount@).unwrap() {
                res matches Ok((r, left)) && left is None && {
                    &&& r.messages@.len() == 0
                    &&& attrs_view(r.attributes@) == seq![text_attr("packet"@, "receive"@)]
                    &&& r.events@.len() == 0
                    &&& r.ack matches Some(Acknowledgement::Error(e)) && e@
                        == "out amount greater than min out amount"@
                }
            } else {
                res matches Ok((r, left)) && left == Some(pending.fund_left) && {
                    &&& r.messages@.len() == 2
                    &&& r.messages@[0] matches OutgoingMsg::Stargate { type_url, value }
                        && type_url@ == proto::MsgSwapExactAmountIn::spec_type_url() && value@
                        == swap_msg_bytes(pending)
                    &&& r.messages@[1] matches OutgoingMsg::BankSend { to_address, amount }
                        && to_address == pending.to_address && amount@.len() == 1
                        && amount@[0].denom == pending.out_denom && amount@[0].amount
                        == parse_u128(est).unwrap()
                    &&& attrs_view(r.attributes@) == seq![text_attr("action"@, "receive_swap"@)]
                    &&& r.events@.len() == 0
                    &&& r.ack == Some(Acknowledgement::Success)
                }
            }
        },
{
    let estimate = match proto::QuerySwapExactAmountInResponse::decode(reply) {
        Ok(m) => crate::types::gamm::QuerySwapExactAmountInResponse::from_proto(&m),
        Err(_) => return Err(SwapFailure::UndecodableEstimate),
    };
    let out_amount = match parse_amount(estimate.token_out_amount.as_str()) {
        Some(v) => v,
        None => return Err(SwapFailure::BadEstimate),
    };
    let min_out_amount = match parse_amount(pending.min_out_amount.as_str()) {
        Some(v) => v,
        None => return Err(SwapFailure::BadMinOutAmount),
    };
    if out_amount < min_out_amount {
        let mut r = Response::with_attribute("packet", "receive");
        r.ack = Some(Acknowledgement::Error("out amount greater than min out amount".to_string()));
        return Ok((r, None));
    }
    let mut routes: Vec<SwapAmountInRoute> = Vec::new();
    routes.push(
        SwapAmountInRoute {
            pool_id: pending.route.pool_id,
            token_out_denom: pending.route.token_out_denom.clone(),
        },
    );
    let swap = MsgSwapExactAmountIn {
        sender: pending.sender.clone(),
        routes,
        token_in: Coin {
            denom: pending.token_in.denom.clone(),
            amount: pending.token_in.amount.clone(),
        },
        token_out_min_amount: pending.min_out_amount.clone(),
    };
    let any = swap.to_any();
    assert(routes_into_proto(swap.routes@) =~= seq![pending.route.spec_into_proto()]);
    let mut amount: Vec<BankCoin> = Vec::new();
    amount.push(BankCoin { denom: pending.out_denom.clone(), amount: out_amount });
    let mut r = Response::with_attribute("action", "receive_swap");
    r.messages.push(OutgoingMsg::Stargate { type_url: any.type_url, value: any.value });
    r.messages.push(OutgoingMsg::BankSend { to_address: pending.to_address.clone(), amount });
    r.ack = Some(Acknowledgement::Success);
    Ok((r, Some(pending.fund_left)))
}

/// Answers a spot-price query packet with the price in the reply to its query.
pub fn finish_spot_price(reply: &[u8]) -> (res: Result<Response, ProtoError>)
    ensures
        res is Ok <==> string1_decode(reply@, Seq::empty()) is Some,
        res matches Ok(r) ==> {
            &&& r.messages@.len() == 0
            &&& r.attributes@.len() == 0
            &&& r.events@.len() == 0
            &&& r.ack matches Some(Acknowledgement::SpotPrice(sp)) && Some(sp.spot_price@)
                == string1_decode(reply@, Seq::empty())
        },
{
    match proto::QuerySpotPriceResponse::decode(reply) {
        Ok(m) => {
            let res = crate::types::gamm::QuerySpotPriceResponse::from_proto(&m);
            let mut r = Response::new();
            r.ack = Some(
                Acknowledgement::SpotPrice(SpotPriceQueryResponse { spot_price: res.spot_price }),
            );
            Ok(r)
        },
        Err(e) => Err(e),
    }
}

/// The answer to a packet that could not be read or whose channel or denomination
/// is not registered: an error acknowledgement saying why.
pub fn invalid_packet(reason: &str) -> (res: Response)
    ensures
        res.messages@.len() == 0,
        res.attributes@.len() == 0,
        res.events@.len() == 1,
        res.events@[0].ty@ == "ibc"@,
        attrs_view(res.events@[0].attributes@) == seq![text_attr("packet"@, "receive"@)],
        res.ack matches Some(Acknowledgement::Error(e)) && e@ == "invalid packet: "@ + reason@,
{
    let mut event_attributes: Vec<Attribute> = Vec::new();
    event_attributes.push(text_attribute("packet", "receive"));
    assert(attrs_view(event_attributes@) =~= seq![text_attr("packet"@, "receive"@)]);
    let mut events: Vec<Event> = Vec::new();
    events.push(Event { ty: "ibc".to_string(), attributes: event_attributes });
    let message = "invalid packet: ".to_string().concat(reason);
    Response {
        messages: Vec::new(),
        attributes: Vec::new(),
        events,
        ack: Some(Acknowledgement::Error(message)),
    }
}

// ---------------------------------------------------------------------------
// Laws of the packet flows.
/// A swap packet is checked against the registration and the fund record of its
/// input denomination; a liquidity packet against those of its first token; a
/// spot-price query against none.
pub proof fn law_permission_denom_roles(p: IbcSwapPacket, l: IbcAddLiquidPacket, q: SpotPriceQueryPacket)
    ensures
        permission_denom(PacketMsg::IbcSwap { ibc_swap_packet: p }) == Some(p.in_denom),
        permission_denom(PacketMsg::IbcAddLiquidity { ibc_add_liquidity: l }) == Some(l.token1_denom),
        permission_denom(PacketMsg::SpotPriceQuery { spot_price_query_packet: q }) is None,
{
}

/// A swap goes to the packet's output denomination in the packet's pool: the route,
/// the estimate request's one route, and the coin paid in are built from the
/// packet's fields in their own roles.
pub proof fn law_swap_route_roles(sender: Seq<char>, p: IbcSwapPacket)
    ensures
        swap_route(p).pool_id == p.pool_id,
        swap_route(p).token_out_denom == p.out_denom,
        swap_estimate_bytes(sender, p) == crate::wire::opt_string_field(1, sender)
            + crate::wire::opt_uint64_field(2, p.pool_id) + crate::wire::opt_string_field(
            3,
            p.in_amount@ + p.in_denom@,
        ) + proto::repeated_field(
            4,
            seq![(proto::SwapAmountInRoute { pool_id: p.pool_id, token_out_denom: p.out_denom })],
        ),
        coin_proto(p.in_denom, p.in_amount).denom == p.in_denom,
        coin_proto(p.in_denom, p.in_amount).amount == p.in_amount,
{
}

/// The spot-price query asked for a packet keeps the pool, the input and output
/// denominations and the swap-fee flag in their own fields.
pub proof fn law_spot_price_request_roles(p: SpotPriceQueryPacket)
    ensures
        spot_price_request_bytes(p) == (proto::QuerySpotPriceRequest {
            pool_id: p.pool_id,
            token_in_denom: p.in_denom,
            token_out_denom: p.out_denom,
            with_swap_fee: p.with_swap_fee,
        }).wire_bytes(),
{
}

/// The pool-join message of a liquidity packet names the packet's pool and share
/// amount, and offers at most the first token's amount of the first denomination and
/// the second token's amount of the second, in that order.
pub proof fn law_join_pool_roles(sender: Seq<char>, p: IbcAddLiquidPacket)
    ensures
        join_pool_bytes(sender, p) == crate::wire::opt_string_field(1, sender)
            + crate::wire::opt_uint64_field(2, p.pool_id) + crate::wire::opt_string_field(
            3,
            p.share_out_amount@,
        ) + proto::repeated_field(
            4,
            seq![
                proto::Coin { denom: p.token1_denom, amount: p.token1_amount },
                proto::Coin { denom: p.token2_denom, amount: p.token2_amount },
            ],
        ),
{
}

/// The swap dispatched for a pending swap is made by its sender, takes its one route
/// (pool and output denomination), pays its input coin (denomination and amount) and
/// asks for at least its minimum output.
pub proof fn law_swap_msg_roles(s: PendingSwap)
    ensures
        swap_msg_bytes(s) == crate::wire::opt_string_field(1, s.sender@) + proto::repeated_field(
            2,
            seq![
                proto::SwapAmountInRoute {
                    pool_id: s.route.pool_id,
                    token_out_denom: s.route.token_out_denom,
                },
            ],
        ) + crate::wire::message_field(
            3,
            (proto::Coin { denom: s.token_in.denom, amount: s.token_in.amount }).wire_bytes(),
        ) + crate::wire::opt_string_field(4, s.min_out_amount@),
{
}

} // verus!
