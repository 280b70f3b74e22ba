//! The contract on Juno: it takes swap, funding and spot-price requests from users
//! and sends them as packets to the contract on Osmosis.
use crate::response::{
    attrs_view, text_attr, text_attribute, Acknowledgement, Attribute, AttributeValue,
    OutgoingMsg, OutgoingPacket, Response,
};
use crate::text::timestamp_plus_seconds;
use vstd::prelude::*;

verus! {

/// How long a packet lives before it times out, in seconds.
pub const PACKET_LIFETIME: u64 = 3600;

// ---------------------------------------------------------------------------
// Messages.
/// Instantiates the contract; its sender becomes the admin.
#[derive(Clone, Debug, PartialEq, Eq)]
pub struct InstantiateMsg {}

/// What the contract can be told to do.
#[derive(Clone, Debug, PartialEq, Eq)]
pub enum ExecuteMsg {
    SetDenom(SetIbcDenomMsg),
    IbcSwap(IbcSwapMsg),
    IbcFundGammContract(IbcFundGammContractMsg),
    SpotPriceQuery(SpotPriceQueryMsg),
}

/// Sets the denomination of the contract.
#[derive(Clone, Debug, PartialEq, Eq)]
pub struct SetIbcDenomMsg {
    pub ibc_denom: String,
}

/// Asks for a swap on Osmosis.
#[derive(Clone, Debug, PartialEq, Eq)]
pub struct IbcSwapMsg {
    pub channel_id: String,
    pub pool_id: u64,
    pub in_denom: String,
    pub in_amount: String,
    pub out_denom: String,
    pub min_out_amount: String,
    pub to_address: String,
}

/// Funds the gamm contract on the other side.
#[derive(Clone, Debug, PartialEq, Eq)]
pub struct IbcFundGammContractMsg {
    /// The local channel to send the packets on
    pub channel_id: String,
    /// The remote address to send to.
    pub remote_gamm_contract_address: String,
}

/// Asks for a spot price on Osmosis.
#[derive(Clone, Debug, PartialEq, Eq)]
pub struct SpotPriceQueryMsg {
    /// The local channel to send the packets on
    pub channel_id: String,
    pub pool_id: u64,
    pub in_denom: String,
    pub out_denom: String,
    pub with_swap_fee: bool,
}

/// The packets the contract sends.
#[derive(Clone, Debug, PartialEq, Eq)]
pub enum PacketMsg {
    IbcSwap { ibc_swap_packet: IbcSwapPacket },
    SpotPriceQuery { spot_price_query_packet: SpotPriceQueryPacket },
    Ics20 { ics20_packet: Ics20Packet },
}

/// An ICS-20 transfer packet.
#[derive(Clone, Debug, PartialEq, Eq, Default)]
pub struct Ics20Packet {
    /// amount of tokens to transfer
    pub amount: u128,
    /// the token denomination to be transferred
    pub denom: String,
    /// the recipient address on the destination chain
    pub receiver: String,
    /// the sender address
    pub sender: String,
}

/// A swap packet.
#[derive(Clone, Debug, PartialEq, Eq)]
pub struct IbcSwapPacket {
    pub pool_id: u64,
    pub in_amount: String,
    pub in_denom: String,
    pub min_out_amount: String,
    pub out_denom: String,
    pub to_address: String,
}

/// A spot-price query packet.
#[derive(Clone, Debug, PartialEq, Eq)]
pub struct SpotPriceQueryPacket {
    pub pool_id: u64,
    pub in_denom: String,
    pub out_denom: String,
    pub with_swap_fee: bool,
}

/// The answer to a spot-price query packet.
#[derive(Clone, Debug, PartialEq, Eq)]
pub struct SpotPriceQueryResponse {
    pub spot_price: String,
}

// ---------------------------------------------------------------------------
// State.
/// The stored configuration: who administers the contract, and its denomination.
#[derive(Clone, Debug, PartialEq, Eq)]
pub struct Config {
    pub admin: String,
    pub denom: String,
}

/// A coin sent along with a message.
#[derive(Clone, Debug, PartialEq, Eq)]
pub struct SentCoin {
    pub denom: String,
    pub amount: u128,
}

/// Why a message is refused.
#[derive(Clone, Debug, PartialEq, Eq)]
pub enum ContractError {
    /// A generic error with its message.
    Generic(String),
}

impl ContractError {
    /// The message of the error.
    pub open spec fn message(&self) -> Seq<char> {
        match self {
            ContractError::Generic(m) => m@,
        }
    }
}

// ---------------------------------------------------------------------------
// Entry points.
/// Instantiates the contract: the sender becomes the admin and the denomination
/// starts as `nil`.
pub fn instantiate(sender: &str, _msg: &InstantiateMsg) -> (res: (Config, Response))
    ensures
        res.0.admin@ == sender@,
        res.0.denom@ == "nil"@,
        res.1.messages@.len() == 0,
        attrs_view(res.1.attributes@) == seq![text_attr("action"@, "instantiate"@)],
        res.1.events@.len() == 0,
        res.1.ack is None,
{
    let cfg = Config { admin: sender.to_string(), denom: "nil".to_string() };
    (cfg, Response::with_attribute("action", "instantiate"))
}

/// What setting the denomination to `denom` answers to `sender`: a refusal unless
/// the sender is the admin, else the configuration with the new denomination.
pub open spec fn set_denom_outcome(
    cfg: Config,
    sender: Seq<char>,
    denom: String,
    res: Result<(Config, Response), ContractError>,
) -> bool {
    if sender != cfg.admin@ {
        res matches Err(e) && e.message() == "Only admin may set new denom"@
    } else {
        res matches Ok((new_cfg, resp)) && {
            &&& new_cfg.admin == cfg.admin
            &&& new_cfg.denom == denom
            &&& resp.messages@.len() == 0
            &&& attrs_view(resp.attributes@) == seq![
                text_attr("action"@, "handle_update_denom"@),
                text_attr("new_admin"@, denom@),
            ]
            &&& resp.events@.len() == 0
            &&& resp.ack is None
        }
    }
}

/// Sets the denomination: only the admin may.
pub fn handle_set_denom(cfg: &Config, sender: &str, denom: String) -> (res: Result<(Config, Response), ContractError>)
    ensures
        set_denom_outcome(*cfg, sender@, denom, res),
{
    if !crate::text::same_text(sender, cfg.admin.as_str()) {
        return Err(ContractError::Generic("Only admin may set new denom".to_string()));
    }
    let mut attributes: Vec<Attribute> = Vec::new();
    attributes.push(text_attribute("action", "handle_update_denom"));
    attributes.push(text_attribute("new_admin", denom.as_str()));
    assert(attrs_view(attributes@) =~= seq![
        text_attr("action"@, "handle_update_denom"@),
        text_attr("new_admin"@, denom@),
    ]);
    let new_cfg = Config { admin: cfg.admin.clone(), denom };
    Ok((new_cfg, Response { messages: Vec::new(), attributes, events: Vec::new(), ack: None }))
}

/// Why a transfer is refused for the coins sent with it: none sent, or more than
/// one.
pub open spec fn coins_refusal(funds: Seq<SentCoin>) -> Option<Seq<char>> {
    if funds.len() == 0 {
        Some("you must send the coins you wish to ibc transfer"@)
    } else if funds.len() > 1 {
        Some("you can only ibc transfer one coin"@)
    } else {
        None
    }
}

/// Whether `res` is a refusal with message `m`.
pub open spec fn refused_with<T>(res: Result<T, ContractError>, m: Seq<char>) -> bool {
    res matches Err(e) && e.message() == m
}

/// The one coin of a transfer: refused when no coin or more than one is sent.
pub fn single_coin(funds: &Vec<SentCoin>) -> (res: Result<SentCoin, ContractError>)
    ensures
        coins_refusal(funds@) matches Some(m) ==> refused_with(res, m),
        coins_refusal(funds@) is None ==> res == Ok::<SentCoin, ContractError>(funds@[0]),
{
    if funds.len() == 0 {
        return Err(
            ContractError::Generic("you must send the coins you wish to ibc transfer".to_string()),
        );
    }
    if funds.len() > 1 {
        return Err(ContractError::Generic("you can only ibc transfer one coin".to_string()));
    }
    Ok(SentCoin { denom: funds[0].denom.clone(), amount: funds[0].amount })
}

/// The time at which a packet sent now times out.
pub open spec fn packet_timeout(block_time_nanos: u64) -> int {
    block_time_nanos + PACKET_LIFETIME * 1_000_000_000
}

/// What funding the remote gamm contract answers: a refusal unless exactly one coin
/// is sent, else an ICS-20 packet of 10000000 `test` from `sender` to the remote
/// contract.
pub open spec fn send_funds_outcome(
    block_time_nanos: u64,
    sender: Seq<char>,
    funds: Seq<SentCoin>,
    msg: IbcFundGammContractMsg,
    res: Result<Response, ContractError>,
) -> bool {
    match coins_refusal(funds) {
        Some(m) => refused_with(res, m),
        None => res matches Ok(resp) && {
            &&& resp.messages@.len() == 1
            &&& resp.messages@[0] matches OutgoingMsg::SendPacket { channel_id, data, timeout_nanos }
                && channel_id == msg.channel_id && timeout_nanos == packet_timeout(block_time_nanos)
                && (data matches OutgoingPacket::Ics20(p) && p.amount == 10000000 && p.denom@
                == "test"@ && p.sender@ == sender && p.receiver
                == msg.remote_gamm_contract_address)
            &&& attrs_view(resp.attributes@) == seq![text_attr("action"@, "handle_send_funds"@)]
            &&& resp.events@.len() == 0
            &&& resp.ack is None
        },
    }
}

/// Sends one coin's worth of ICS-20 transfer to the remote gamm contract.
pub fn handle_send_funds(
    block_time_nanos: u64,
    sender: &str,
    funds: &Vec<SentCoin>,
    msg: IbcFundGammContractMsg,
) -> (res: Result<Response, ContractError>)
    requires
        coins_refusal(funds@) is None ==> packet_timeout(block_time_nanos) <= u64::MAX,
    ensures
        send_funds_outcome(block_time_nanos, sender@, funds@, msg, res),
        res matches Ok(r) ==> (r.messages@[0] matches OutgoingMsg::SendPacket {
            channel_id,
            data: OutgoingPacket::Ics20(p),
            timeout_nanos,
        } && channel_id == msg.channel_id && timeout_nanos == block_time_nanos + 3600 * 1_000_000_000
            && p.sender@ == sender@ && p.receiver == msg.remote_gamm_contract_address && p.amount
            == 10000000 && p.denom@ == "test"@),
{
    match single_coin(funds) {
        Err(e) => Err(e),
        Ok(_) => {
            let transfer_packet = Ics20Packet {
                amount: 10000000,
                denom: "test".to_string(),
                sender: sender.to_string(),
                receiver: msg.remote_gamm_contract_address,
            };
            let timeout_nanos = timestamp_plus_seconds(block_time_nanos, PACKET_LIFETIME);
            let mut resp = Response::with_attribute("action", "handle_send_funds");
            resp.messages.push(
                OutgoingMsg::SendPacket {
                    channel_id: msg.channel_id,
                    data: OutgoingPacket::Ics20(transfer_packet),
                    timeout_nanos,
                },
            );
            Ok(resp)
        },
    }
}

/// The swap packet of a swap request.
pub open spec fn swap_packet_of(msg: IbcSwapMsg) -> IbcSwapPacket {
    IbcSwapPacket {
        pool_id: msg.pool_id,
        in_amount: msg.in_amount,
        in_denom: msg.in_denom,
        min_out_amount: msg.min_out_amount,
        out_denom: msg.out_denom,
        to_address: msg.to_address,
    }
}

/// What a swap request answers: a refusal unless exactly one coin is sent, else the
/// swap packet sent on the request's channel.
pub open spec fn ibc_swap_outcome(
    block_time_nanos: u64,
    funds: Seq<SentCoin>,
    msg: IbcSwapMsg,
    res: Result<Response, ContractError>,
) -> bool {
    match coins_refusal(funds) {
        Some(m) => refused_with(res, m),
        None => res matches Ok(resp) && {
            &&& resp.messages@.len() == 1
            &&& resp.messages@[0] matches OutgoingMsg::SendPacket { channel_id, data, timeout_nanos }
                && channel_id == msg.channel_id && timeout_nanos == packet_timeout(block_time_nanos)
                && data == OutgoingPacket::Packet(
                PacketMsg::IbcSwap { ibc_swap_packet: swap_packet_of(msg) },
            )
            &&& attrs_view(resp.attributes@) == seq![
                text_attr("action"@, "swap_amount"@),
                ("packet"@, None),
                text_attr("in_denom"@, msg.in_denom@),
            ]
            &&& resp.events@.len() == 0
            &&& resp.ack is None
        },
    }
}

/// Sends a swap packet, with the one coin the user pays.
pub fn handle_ibc_swap(
    _cfg: &Config,
    block_time_nanos: u64,
    funds: &Vec<SentCoin>,
    msg: IbcSwapMsg,
) -> (res: Result<Response, ContractError>)
    requires
        coins_refusal(funds@) is None ==> packet_timeout(block_time_nanos) <= u64::MAX,
    ensures
        ibc_swap_outcome(block_time_nanos, funds@, msg, res),
        res matches Ok(r) ==> (r.messages@[0] matches OutgoingMsg::SendPacket {
            channel_id,
            data: OutgoingPacket::Packet(PacketMsg::IbcSwap { ibc_swap_packet: p }),
            timeout_nanos,
        } && channel_id == msg.channel_id && timeout_nanos == block_time_nanos + 3600 * 1_000_000_000
            && p.pool_id == msg.pool_id && p.in_amount == msg.in_amount && p.in_denom == msg.in_denom
            && p.min_out_amount == msg.min_out_amount && p.out_denom == msg.out_denom && p.to_address
            == msg.to_address),
{
    match single_coin(funds) {
        Err(e) => Err(e),
        Ok(_) => {
            let packet = IbcSwapPacket {
                pool_id: msg.pool_id,
                in_amount: msg.in_amount.clone(),
                in_denom: msg.in_denom.clone(),
                out_denom: msg.out_denom.clone(),
                to_address: msg.to_address.clone(),
                min_out_amount: msg.min_out_amount.clone(),
            };
            let timeout_nanos = timestamp_plus_seconds(block_time_nanos, PACKET_LIFETIME);
            let mut attributes: Vec<Attribute> = Vec::new();
            attributes.push(text_attribute("action", "swap_amount"));
            attributes.push(
                Attribute { key: "packet".to_string(), value: AttributeValue::EncodedPacket },
            );
            attributes.push(text_attribute("in_denom", msg.in_denom.as_str()));
            assert(attrs_view(attributes@) =~= seq![
                text_attr("action"@, "swap_amount"@),
                ("packet"@, None),
                text_attr("in_denom"@, msg.in_denom@),
            ]);
            let mut messages: Vec<OutgoingMsg> = Vec::new();
            messages.push(
                OutgoingMsg::SendPacket {
                    channel_id: msg.channel_id,
                    data: OutgoingPacket::Packet(PacketMsg::IbcSwap { ibc_swap_packet: packet }),
                    timeout_nanos,
                },
            );
            Ok(Response { messages, attributes, events: Vec::new(), ack: None })
        },
    }
}

/// The spot-price query packet of a request.
pub open spec fn spot_price_packet_of(msg: SpotPriceQueryMsg) -> SpotPriceQueryPacket {
    SpotPriceQueryPacket {
        pool_id: msg.pool_id,
        in_denom: msg.in_denom,
        out_denom: msg.out_denom,
        with_swap_fee: msg.with_swap_fee,
    }
}

/// What a spot-price request answers: the query packet sent on its channel.
pub open spec fn spot_price_outcome(block_time_nanos: u64, msg: SpotPriceQueryMsg, res: Response) -> bool {
    &&& res.messages@.len() == 1
    &&& res.messages@[0] matches OutgoingMsg::SendPacket { channel_id, data, timeout_nanos }
        && channel_id == msg.channel_id && timeout_nanos == packet_timeout(block_time_nanos)
        && data == OutgoingPacket::Packet(
        PacketMsg::SpotPriceQuery { spot_price_query_packet: spot_price_packet_of(msg) },
    )
    &&& attrs_view(res.attributes@) == seq![text_attr("action"@, "handle_send_funds"@)]
    &&& res.events@.len() == 0
    &&& res.ack is None
}

/// Sends a spot-price query packet.
pub fn handle_spot_price_query(block_time_nanos: u64, msg: SpotPriceQueryMsg) -> (res: Response)
    requires
        packet_timeout(block_time_nanos) <= u64::MAX,
    ensures
        spot_price_outcome(block_time_nanos, msg, res),
        res.messages@[0] matches OutgoingMsg::SendPacket {
            channel_id,
            data: OutgoingPacket::Packet(PacketMsg::SpotPriceQuery { spot_price_query_packet: p }),
            timeout_nanos,
        } && channel_id == msg.channel_id && timeout_nanos == block_time_nanos + 3600 * 1_000_000_000
            && p.pool_id == msg.pool_id && p.in_denom == msg.in_denom && p.out_denom == msg.out_denom
            && p.with_swap_fee == msg.with_swap_fee,
{
    let packet = SpotPriceQueryPacket {
        pool_id: msg.pool_id,
        in_denom: msg.in_denom,
        out_denom: msg.out_denom,
        with_swap_fee: msg.with_swap_fee,
    };
    let timeout_nanos = timestamp_plus_seconds(block_time_nanos, PACKET_LIFETIME);
    let mut resp = Response::with_attribute("action", "handle_send_funds");
    resp.messages.push(
        OutgoingMsg::SendPacket {
            channel_id: msg.channel_id,
            data: OutgoingPacket::Packet(
                PacketMsg::SpotPriceQuery { spot_price_query_packet: packet },
            ),
            timeout_nanos,
        },
    );
    resp
}

/// The response part of an execution's result.
pub open spec fn response_of(res: Result<(Option<Config>, Response), ContractError>) -> Result<
    Response,
    ContractError,
> {
    match res {
        Ok((_, r)) => Ok(r),
        Err(e) => Err(e),
    }
}

/// The configuration-and-response part of an execution that may change the
/// configuration.
pub open spec fn config_change_of(res: Result<(Option<Config>, Response), ContractError>) -> Result<
    (Config, Response),
    ContractError,
> {
    match res {
        Ok((Some(c), r)) => Ok((c, r)),
        Ok((None, _)) => arbitrary(),
        Err(e) => Err(e),
    }
}

/// Dispatches a message to its handler. `cfg` is the stored configuration, which
/// the denomination and swap handlers need; the new configuration comes back when
/// the message sets one.
pub fn execute(
    cfg: Option<&Config>,
    block_time_nanos: u64,
    sender: &str,
    funds: &Vec<SentCoin>,
    msg: ExecuteMsg,
) -> (res: Result<(Option<Config>, Response), ContractError>)
    requires
        msg is SpotPriceQuery || ((msg is IbcSwap || msg is IbcFundGammContract) && coins_refusal(
            funds@,
        ) is None) ==> packet_timeout(block_time_nanos) <= u64::MAX,
        msg is SetDenom || msg is IbcSwap ==> cfg is Some,
    ensures
        msg matches ExecuteMsg::SetDenom(m) ==> (res matches Ok((c, _)) ==> c is Some)
            && set_denom_outcome(*cfg.unwrap(), sender@, m.ibc_denom, config_change_of(res)),
        msg matches ExecuteMsg::IbcSwap(m) ==> (res matches Ok((c, _)) ==> c is None)
            && ibc_swap_outcome(block_time_nanos, funds@, m, response_of(res)),
        msg matches ExecuteMsg::IbcFundGammContract(m) ==> (res matches Ok((c, _)) ==> c is None)
            && send_funds_outcome(block_time_nanos, sender@, funds@, m, response_of(res)),
        msg matches ExecuteMsg::SpotPriceQuery(m) ==> (res matches Ok((c, r)) && c is None
            && spot_price_outcome(block_time_nanos, m, r)),
{
    match msg {
        ExecuteMsg::SetDenom(m) => match handle_set_denom(cfg.unwrap(), sender, m.ibc_denom) {
            Ok((new_cfg, resp)) => Ok((Some(new_cfg), resp)),
            Err(e) => Err(e),
        },
        ExecuteMsg::IbcSwap(m) => match handle_ibc_swap(cfg.unwrap(), block_time_nanos, funds, m) {
            Ok(resp) => Ok((None, resp)),
            Err(e) => Err(e),
        },
        ExecuteMsg::IbcFundGammContract(m) => match handle_send_funds(
            block_time_nanos,
            sender,
            funds,
            m,
        ) {
            Ok(resp) => Ok((None, resp)),
            Err(e) => Err(e),
        },
        ExecuteMsg::SpotPriceQuery(m) => Ok((None, handle_spot_price_query(block_time_nanos, m))),
    }
}

/// Handles a reply: nothing to do.
pub fn reply() -> (res: Response)
    ensures
        res.messages@.len() == 0,
        res.attributes@.len() == 0,
        res.events@.len() == 0,
        res.ack is None,
{
    Response::new()
}

/// Opens a channel: this side accepts any channel.
pub fn ibc_channel_open() -> (res: Result<(), String>)
    ensures
        res is Ok,
{
    Ok(())
}

/// Connects a channel.
pub fn ibc_channel_connect(channel_id: &str) -> (res: Response)
    ensures
        res.messages@.len() == 0,
        attrs_view(res.attributes@) == seq![
            text_attr("action"@, "ibc_connect"@),
            text_attr("channel_id"@, channel_id@),
        ],
        res.events@.len() == 0,
        res.ack is None,
{
    let mut attributes: Vec<Attribute> = Vec::new();
    attributes.push(text_attribute("action", "ibc_connect"));
    attributes.push(text_attribute("channel_id", channel_id));
    let resp = Response { messages: Vec::new(), attributes, events: Vec::new(), ack: None };
    assert(attrs_view(resp.attributes@) =~= seq![
        text_attr("action"@, "ibc_connect"@),
        text_attr("channel_id"@, channel_id@),
    ]);
    resp
}

/// Closes a channel.
pub fn ibc_channel_close(channel_id: &str) -> (res: Response)
    ensures
        res.messages@.len() == 0,
        attrs_view(res.attributes@) == seq![
            text_attr("action"@, "ibc_close"@),
            text_attr("channel_id"@, channel_id@),
        ],
        res.events@.len() == 0,
        res.ack is None,
{
    let mut attributes: Vec<Attribute> = Vec::new();
    attributes.push(text_attribute("action", "ibc_close"));
    attributes.push(text_attribute("channel_id", channel_id));
    let resp = Response { messages: Vec::new(), attributes, events: Vec::new(), ack: None };
    assert(attrs_view(resp.attributes@) =~= seq![
        text_attr("action"@, "ibc_close"@),
        text_attr("channel_id"@, channel_id@),
    ]);
    resp
}

/// Receives a packet: the other side never sends one, so the contract answers `{}`.
pub fn ibc_packet_receive() -> (res: Response)
    ensures
        res.messages@.len() == 0,
        attrs_view(res.attributes@) == seq![text_attr("action"@, "ibc_packet_ack"@)],
        res.events@.len() == 0,
        res.ack matches Some(Acknowledgement::Raw(b)) && b@ == seq![123u8, 125u8],
{
    let mut resp = Response::with_attribute("action", "ibc_packet_ack");
    let mut raw: Vec<u8> = Vec::new();
    raw.push(123u8);
    raw.push(125u8);
    assert(raw@ =~= seq![123u8, 125u8]);
    resp.ack = Some(Acknowledgement::Raw(raw));
    resp
}

/// Handles the acknowledgement of a sent packet.
pub fn ibc_packet_ack() -> (res: Response)
    ensures
        res.messages@.len() == 0,
        attrs_view(res.attributes@) == seq![text_attr("action"@, "acknowledge_ics20"@)],
        res.events@.len() == 0,
        res.ack is None,
{
    Response::with_attribute("action", "acknowledge_ics20")
}

/// Handles the acknowledgement of a swap packet.
pub fn acknowledge_ibc_swap() -> (res: Response)
    ensures
        res.messages@.len() == 0,
        attrs_view(res.attributes@) == seq![text_attr("action"@, "acknowledge_dispatch"@)],
        res.events@.len() == 0,
        res.ack is None,
{
    Response::with_attribute("action", "acknowledge_dispatch")
}

/// Handles the timeout of a sent packet.
pub fn ibc_packet_timeout() -> (res: Response)
    ensures
        res.messages@.len() == 0,
        attrs_view(res.attributes@) == seq![text_attr("action"@, "ibc_packet_timeout"@)],
        res.events@.len() == 0,
        res.ack is None,
{
    Response::with_attribute("action", "ibc_packet_timeout")
}

/// The packets sent for a request carry the request's fields in their own roles: a
/// spot-price query asks about the request's pool, from its input denomination to
/// its output denomination; a swap swaps the request's input for its output, with
/// its minimum and recipient.
pub proof fn law_packets_keep_request_roles(q: SpotPriceQueryMsg, m: IbcSwapMsg)
    ensures
        spot_price_packet_of(q).pool_id == q.pool_id,
        spot_price_packet_of(q).in_denom == q.in_denom,
        spot_price_packet_of(q).out_denom == q.out_denom,
        spot_price_packet_of(q).with_swap_fee == q.with_swap_fee,
        swap_packet_of(m).pool_id == m.pool_id,
        swap_packet_of(m).in_amount == m.in_amount,
        swap_packet_of(m).in_denom == m.in_denom,
        swap_packet_of(m).min_out_amount == m.min_out_amount,
        swap_packet_of(m).out_denom == m.out_denom,
        swap_packet_of(m).to_address == m.to_address,
{
}

} // verus!
