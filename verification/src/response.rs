//! What a contract entry point answers: the messages it dispatches, its attributes
//! and events, and, for a received packet, its acknowledgement.
use crate::juno;
use crate::osmosis::SpotPriceQueryResponse;
use vstd::prelude::*;

verus! {

/// The value of an attribute: text, or the JSON of the packet the response sends,
/// in Base64.
#[derive(Clone, Debug, PartialEq, Eq)]
pub enum AttributeValue {
    Text(String),
    EncodedPacket,
}

/// A key and a value attached to a response.
#[derive(Clone, Debug, PartialEq, Eq)]
pub struct Attribute {
    pub key: String,
    pub value: AttributeValue,
}

impl View for Attribute {
    /// The key, and the text of the value (none for the encoded packet).
    type V = (Seq<char>, Option<Seq<char>>);

    open spec fn view(&self) -> (Seq<char>, Option<Seq<char>>) {
        (
            self.key@,
            match self.value {
                AttributeValue::Text(t) => Some(t@),
                AttributeValue::EncodedPacket => None,
            },
        )
    }
}

/// The view of a text attribute.
pub open spec fn text_attr(key: Seq<char>, value: Seq<char>) -> (Seq<char>, Option<Seq<char>>) {
    (key, Some(value))
}

/// The views of a list of attributes.
pub open spec fn attrs_view(attrs: Seq<Attribute>) -> Seq<(Seq<char>, Option<Seq<char>>)> {
    attrs.map_values(|a: Attribute| a@)
}

/// A text attribute.
pub fn text_attribute(key: &str, value: &str) -> (a: Attribute)
    ensures
        a@ == text_attr(key@, value@),
{
    Attribute { key: key.to_string(), value: AttributeValue::Text(value.to_string()) }
}

/// An event with its attributes.
#[derive(Clone, Debug, PartialEq, Eq)]
pub struct Event {
    pub ty: String,
    pub attributes: Vec<Attribute>,
}

/// A native token amount sent by a bank message.
#[derive(Clone, Debug, PartialEq, Eq)]
pub struct BankCoin {
    pub denom: String,
    pub amount: u128,
}

/// The data of a packet sent over IBC, written as JSON on the wire.
#[derive(Clone, Debug, PartialEq, Eq)]
pub enum OutgoingPacket {
    Packet(juno::PacketMsg),
    Ics20(juno::Ics20Packet),
}

/// A message dispatched by a response.
#[derive(Clone, Debug, PartialEq, Eq)]
pub enum OutgoingMsg {
    /// A Protobuf message executed by the chain.
    Stargate { type_url: String, value: Vec<u8> },
    /// A bank transfer.
    BankSend { to_address: String, amount: Vec<BankCoin> },
    /// A packet sent on an IBC channel, timing out at `timeout_nanos`.
    SendPacket { channel_id: String, data: OutgoingPacket, timeout_nanos: u64 },
}

/// The acknowledgement written back for a received packet.
#[derive(Clone, Debug, PartialEq, Eq)]
pub enum Acknowledgement {
    /// Success with no payload.
    Success,
    /// Success with a spot price.
    SpotPrice(SpotPriceQueryResponse),
    /// Failure with a message.
    Error(String),
    /// Bytes written as they are.
    Raw(Vec<u8>),
}

/// What an entry point answers.
#[derive(Clone, Debug, PartialEq, Eq)]
pub struct Response {
    pub messages: Vec<OutgoingMsg>,
    pub attributes: Vec<Attribute>,
    pub events: Vec<Event>,
    pub ack: Option<Acknowledgement>,
}

impl Response {
    /// An empty response.
    pub fn new() -> (r: Response)
        ensures
            r.messages@.len() == 0,
            r.attributes@.len() == 0,
            r.events@.len() == 0,
            r.ack is None,
    {
        Response { messages: Vec::new(), attributes: Vec::new(), events: Vec::new(), ack: None }
    }

    /// A response with no messages or events and the one text attribute `key = value`.
    pub fn with_attribute(key: &str, value: &str) -> (r: Response)
        ensures
            r.messages@.len() == 0,
            attrs_view(r.attributes@) == seq![text_attr(key@, value@)],
            r.events@.len() == 0,
            r.ack is None,
    {
        let mut attributes: Vec<Attribute> = Vec::new();
        attributes.push(text_attribute(key, value));
        assert(attrs_view(attributes@) =~= seq![text_attr(key@, value@)]);
        Response { messages: Vec::new(), attributes, events: Vec::new(), ack: None }
    }
}

} // verus!
