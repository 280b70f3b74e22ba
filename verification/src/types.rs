//! The typed views of the Cosmos and Osmosis messages that the contracts work with,
//! and their conversions to and from the wire messages of `crate::proto`.
pub mod epochs;
pub mod gamm;
pub mod incentives;
pub mod lockup;

use crate::proto;
use crate::proto::{MsgProto, WireMessage};
use vstd::prelude::*;

verus! {

/// A typed message that maps one to one onto a wire message with a type URL.
pub trait Msg: Sized {
    /// The wire message.
    type Proto: MsgProto;

    /// The bytes of the message's wire form.
    spec fn spec_wire_bytes(&self) -> Seq<u8>;

    /// The wire form of the message.
    fn to_proto(&self) -> (p: Self::Proto)
        ensures
            p.wire_bytes() == self.spec_wire_bytes(),
    ;

    /// The message encoded in an `Any` under the type URL of its wire form.
    fn to_any(&self) -> (any: proto::Any)
        ensures
            any.type_url@ == Self::Proto::spec_type_url(),
            any.value@ == self.spec_wire_bytes(),
    {
        self.to_proto().to_any()
    }

    /// The message, given up, encoded in an `Any` under the type URL of its wire form.
    fn into_any(self) -> (any: proto::Any)
        ensures
            any.type_url@ == Self::Proto::spec_type_url(),
            any.value@ == self.spec_wire_bytes(),
    {
        self.to_any()
    }
}

/// A token with a denomination and an amount, both as text.
#[derive(Clone, Debug, PartialEq, Eq, PartialOrd, Ord, Default)]
pub struct Coin {
    /// Denomination
    pub denom: String,
    /// Amount
    pub amount: String,
}

impl Coin {
    /// The wire form of the coin.
    pub open spec fn spec_into_proto(&self) -> proto::Coin {
        proto::Coin { denom: self.denom, amount: self.amount }
    }

    /// The coin as it is written out: its amount followed by its denomination.
    pub fn to_display_string(&self) -> (s: String)
        ensures
            s@ == self.amount@ + self.denom@,
    {
        self.amount.clone().concat(self.denom.as_str())
    }

    /// The wire form of the coin.
    pub fn into_proto(&self) -> (p: proto::Coin)
        ensures
            p == self.spec_into_proto(),
            p.denom == self.denom,
            p.amount == self.amount,
    {
        proto::Coin { denom: self.denom.clone(), amount: self.amount.clone() }
    }

    /// The coin read from its wire form.
    pub fn from_proto(p: &proto::Coin) -> (c: Coin)
        ensures
            c.spec_into_proto() == *p,
            c.denom == p.denom,
            c.amount == p.amount,
    {
        Coin { denom: p.denom.clone(), amount: p.amount.clone() }
    }
}

/// The wire forms of a list of coins, in order.
pub open spec fn coins_into_proto(cs: Seq<Coin>) -> Seq<proto::Coin> {
    cs.map_values(|c: Coin| c.spec_into_proto())
}

/// The wire forms of a list of coins.
pub fn coins_into_proto_vec(cs: &Vec<Coin>) -> (ps: Vec<proto::Coin>)
    ensures
        ps@ == coins_into_proto(cs@),
{
    let mut ps: Vec<proto::Coin> = Vec::new();
    let mut i: usize = 0;
    while i < cs.len()
        invariant
            i <= cs@.len(),
            ps@ == coins_into_proto(cs@.take(i as int)),
        decreases cs@.len() - i,
    {
        ps.push(cs[i].into_proto());
        assert(coins_into_proto(cs@.take((i + 1) as int)) =~= coins_into_proto(cs@.take(i as int)).push(
            cs@[i as int].spec_into_proto(),
        ));
        i = i + 1;
    }
    assert(cs@.take(cs@.len() as int) =~= cs@);
    ps
}

/// A coin's wire form keeps its denomination and its amount in their own fields.
pub proof fn law_coin_wire_roles(c: Coin)
    ensures
        c.spec_into_proto().denom == c.denom,
        c.spec_into_proto().amount == c.amount,
        c.spec_into_proto().wire_bytes() == crate::wire::opt_string_field(1, c.denom@)
            + crate::wire::opt_string_field(2, c.amount@),
{
}

} // verus!
