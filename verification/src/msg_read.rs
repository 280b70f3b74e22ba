//! The gamm messages and queries read back from their Protobuf bytes, field by field
//! as the `merge` of a `prost` message does it, and the laws that each reads back
//! as itself from the bytes it is written as.
use crate::balancer::{
    coin_field_at, coin_opt_view, coin_step, empty_coin, fields_decode,
    law_coin_roundtrip, lemma_delimited_body, lemma_fields_end, lemma_fields_fail,
    lemma_fields_field, lemma_fields_step, lemma_opt_string_field, merge_sub, message_at,
    next_key, skip_at, skip_step, string_at, uint64_at, CoinView,
};
use crate::proto::{
    optional_field, repeated_field, Coin, MsgJoinPool, MsgJoinSwapExternAmountIn,
    MsgSwapExactAmountIn, ProtoError, QuerySpotPriceRequest, QuerySwapExactAmountInRequest,
    SwapAmountInRoute, WireMessage,
};
use crate::wire::{
    bool_merge, delimited, key_bytes, lemma_string_roundtrip, lemma_uint64_roundtrip,
    lemma_varint_roundtrip, opt_bool_field, opt_string_field, opt_uint64_field, read_bool,
    string_merge, uint64_merge, varint_bytes, WireKind, MAX_TAG,
};
use vstd::prelude::*;
use vstd::utf8::encode_utf8;

verus! {

// ---------------------------------------------------------------------------
// Reading back what was written, field by field.
pub(crate) proof fn lemma_opt_uint64_field<M>(
    tag: nat,
    v: u64,
    rest: Seq<u8>,
    acc: M,
    next: M,
    step: spec_fn(M, u32, WireKind, Seq<u8>) -> Option<(M, nat)>,
)
    requires
        1 <= tag <= MAX_TAG,
        v != 0 ==> step(acc, tag as u32, WireKind::Varint, varint_bytes(v as nat) + rest) == Some(
            (next, varint_bytes(v as nat).len()),
        ),
        v == 0 ==> next == acc,
    ensures
        fields_decode(opt_uint64_field(tag, v) + rest, acc, step) == fields_decode(rest, next, step),
{
    if v != 0 {
        lemma_fields_field(tag, WireKind::Varint, varint_bytes(v as nat), rest, acc, next, step);
        assert(opt_uint64_field(tag, v) + rest =~= key_bytes(tag, WireKind::Varint) + varint_bytes(
            v as nat,
        ) + rest);
    } else {
        assert(opt_uint64_field(tag, v) + rest =~= rest);
    }
}

pub(crate) proof fn lemma_opt_bool_field<M>(
    tag: nat,
    b: bool,
    rest: Seq<u8>,
    acc: M,
    next: M,
    step: spec_fn(M, u32, WireKind, Seq<u8>) -> Option<(M, nat)>,
)
    requires
        1 <= tag <= MAX_TAG,
        b ==> step(acc, tag as u32, WireKind::Varint, varint_bytes(1) + rest) == Some(
            (next, varint_bytes(1).len()),
        ),
        !b ==> next == acc,
    ensures
        fields_decode(opt_bool_field(tag, b) + rest, acc, step) == fields_decode(rest, next, step),
{
    if b {
        lemma_fields_field(tag, WireKind::Varint, varint_bytes(1), rest, acc, next, step);
        assert(opt_bool_field(tag, b) + rest =~= key_bytes(tag, WireKind::Varint) + varint_bytes(1)
            + rest);
    } else {
        assert(opt_bool_field(tag, b) + rest =~= rest);
    }
}

/// `acc` with the views of `items` added one after another by `push`.
pub open spec fn push_all<M, E: View>(acc: M, items: Seq<E>, push: spec_fn(M, E::V) -> M) -> M
    decreases items.len(),
{
    if items.len() == 0 {
        acc
    } else {
        push(push_all(acc, items.drop_last(), push), items.last()@)
    }
}

pub(crate) proof fn lemma_repeated_field<M, E: WireMessage + View>(
    tag: nat,
    items: Seq<E>,
    rest: Seq<u8>,
    acc: M,
    step: spec_fn(M, u32, WireKind, Seq<u8>) -> Option<(M, nat)>,
    push: spec_fn(M, E::V) -> M,
)
    requires
        1 <= tag <= MAX_TAG,
        forall|m: M, r: Seq<u8>, i: int|
            0 <= i < items.len() ==> #[trigger] step(
                m,
                tag as u32,
                WireKind::LengthDelimited,
                delimited(items[i].wire_bytes()) + r,
            ) == Some((push(m, items[i]@), delimited(items[i].wire_bytes()).len())),
    ensures
        fields_decode(repeated_field(tag, items) + rest, acc, step) == fields_decode(
            rest,
            push_all(acc, items, push),
            step,
        ),
    decreases items.len(),
{
    if items.len() == 0 {
        assert(repeated_field(tag, items) + rest =~= rest);
    } else {
        let init = items.drop_last();
        let last = items.last();
        let body = last.wire_bytes();
        let tail = crate::wire::message_field(tag, body) + rest;
        assert forall|m: M, r: Seq<u8>, i: int| 0 <= i < init.len() implies #[trigger] step(
            m,
            tag as u32,
            WireKind::LengthDelimited,
            delimited(init[i].wire_bytes()) + r,
        ) == Some((push(m, init[i]@), delimited(init[i].wire_bytes()).len())) by {
            assert(init[i] == items[i]);
            assert(step(m, tag as u32, WireKind::LengthDelimited, delimited(items[i].wire_bytes()) + r)
                == Some((push(m, items[i]@), delimited(items[i].wire_bytes()).len())));
        }
        lemma_repeated_field(tag, init, tail, acc, step, push);
        let mid = push_all(acc, init, push);
        assert(items[items.len() - 1] == last);
        assert(step(mid, tag as u32, WireKind::LengthDelimited, delimited(items[items.len() - 1].wire_bytes()) + rest)
            == Some((push(mid, items[items.len() - 1]@), delimited(items[items.len() - 1].wire_bytes()).len())));
        lemma_fields_field(tag, WireKind::LengthDelimited, delimited(body), rest, mid, push(mid, last@), step);
        assert(tail =~= key_bytes(tag, WireKind::LengthDelimited) + delimited(body) + rest);
        assert(repeated_field(tag, items) + rest =~= repeated_field(tag, init) + tail);
    }
}

// ---------------------------------------------------------------------------
// Swap route.
/// A swap route as plain values.
pub struct RouteView {
    pub pool_id: u64,
    pub token_out_denom: Seq<char>,
}

impl View for SwapAmountInRoute {
    type V = RouteView;

    open spec fn view(&self) -> RouteView {
        RouteView { pool_id: self.pool_id, token_out_denom: self.token_out_denom@ }
    }
}

/// The route that a message starts from.
pub open spec fn empty_route() -> RouteView {
    RouteView { pool_id: 0, token_out_denom: Seq::empty() }
}

/// One field of a route: the pool is `uint64` field 1, the denomination out string 2.
pub open spec fn route_step() -> spec_fn(RouteView, u32, WireKind, Seq<u8>) -> Option<(RouteView, nat)> {
    |acc: RouteView, tag: u32, w: WireKind, rest: Seq<u8>|
        if tag == 1 {
            match uint64_merge(w, rest) {
                Some((v, m)) => Some((RouteView { pool_id: v, ..acc }, m)),
                None => None,
            }
        } else if tag == 2 {
            match string_merge(w, rest) {
                Some((s, m)) => Some((RouteView { token_out_denom: s, ..acc }, m)),
                None => None,
            }
        } else {
            skip_step(acc, w, tag, rest)
        }
}

/// Reads the fields of `bytes` into the route `init`.
pub fn merge_route(bytes: &[u8], init: SwapAmountInRoute) -> (res: Result<SwapAmountInRoute, ProtoError>)
    ensures
        res is Ok <==> fields_decode(bytes@, init@, route_step()) is Some,
        res matches Ok(v) ==> fields_decode(bytes@, init@, route_step()) == Some(v@),
{
    let ghost start = init@;
    let mut acc = init;
    let mut pos: usize = 0;
    assert(bytes@.skip(0) =~= bytes@);
    while pos < bytes.len()
        invariant
            start == init@,
            pos <= bytes@.len(),
            fields_decode(bytes@, start, route_step()) == fields_decode(
                bytes@.skip(pos as int),
                acc@,
                route_step(),
            ),
        decreases bytes@.len() - pos,
    {
        let (tag, w, p) = match next_key(bytes, pos) {
            Ok(k) => k,
            Err(e) => return Err(e),
        };
        let ghost before = acc@;
        let r: Result<usize, ProtoError> = if tag == 1 {
            match uint64_at(w, bytes, p) {
                Ok((v, q)) => {
                    acc.pool_id = v;
                    Ok(q)
                },
                Err(e) => Err(e),
            }
        } else if tag == 2 {
            match string_at(w, bytes, p) {
                Ok((s, q)) => {
                    acc.token_out_denom = s;
                    Ok(q)
                },
                Err(e) => Err(e),
            }
        } else {
            skip_at(w, tag, bytes, p)
        };
        match r {
            Ok(q) => {
                proof {
                    lemma_fields_step(bytes@, pos as int, p as int, q as int, before, acc@, route_step());
                }
                pos = q;
            },
            Err(e) => {
                proof {
                    lemma_fields_fail(bytes@, pos as int, p as int, before, route_step());
                }
                return Err(e);
            },
        }
    }
    proof {
        lemma_fields_end(bytes@, acc@, route_step());
    }
    Ok(acc)
}

/// Whether the route's text is short enough for its length to be written.
pub open spec fn route_encodable(r: SwapAmountInRoute) -> bool {
    encode_utf8(r.token_out_denom@).len() <= u64::MAX
}

/// A route reads back from its own bytes as itself.
pub proof fn law_route_roundtrip(r: SwapAmountInRoute)
    requires
        route_encodable(r),
    ensures
        fields_decode(r.wire_bytes(), empty_route(), route_step()) == Some(r@),
{
    let denom_bytes = opt_string_field(2, r.token_out_denom@);
    let mid = RouteView { pool_id: r.pool_id, token_out_denom: Seq::empty() };
    lemma_uint64_roundtrip(r.pool_id, denom_bytes);
    lemma_opt_uint64_field(1, r.pool_id, denom_bytes, empty_route(), mid, route_step());
    lemma_string_roundtrip(r.token_out_denom@, Seq::empty());
    assert(delimited(encode_utf8(r.token_out_denom@)) + Seq::<u8>::empty() =~= delimited(
        encode_utf8(r.token_out_denom@),
    ));
    if r.token_out_denom@.len() == 0 {
        assert(r.token_out_denom@ =~= Seq::<char>::empty());
    }
    lemma_opt_string_field(2, r.token_out_denom@, Seq::empty(), mid, r@, route_step());
    assert(denom_bytes + Seq::<u8>::empty() =~= denom_bytes);
    assert(r.wire_bytes() =~= opt_uint64_field(1, r.pool_id) + denom_bytes);
}

/// The `bool` payload at `bytes[p..]` and where it ends.
fn bool_at(w: WireKind, bytes: &[u8], p: usize) -> (res: Result<(bool, usize), ProtoError>)
    requires
        p <= bytes@.len(),
    ensures
        res is Ok <==> bool_merge(w, bytes@.skip(p as int)) is Some,
        res matches Ok((v, q)) ==> p <= q <= bytes@.len() && bool_merge(w, bytes@.skip(p as int))
            == Some((v, (q - p) as nat)),
{
    match read_bool(w, bytes, p) {
        Ok((v, left)) => Ok((v, bytes.len() - left)),
        Err(_) => Err(ProtoError::Decode),
    }
}

// ---------------------------------------------------------------------------
// Spot-price request.
/// A spot-price request as plain values.
pub struct SpotPriceRequestView {
    pub pool_id: u64,
    pub token_in_denom: Seq<char>,
    pub token_out_denom: Seq<char>,
    pub with_swap_fee: bool,
}

impl View for QuerySpotPriceRequest {
    type V = SpotPriceRequestView;

    open spec fn view(&self) -> SpotPriceRequestView {
        SpotPriceRequestView {
            pool_id: self.pool_id,
            token_in_denom: self.token_in_denom@,
            token_out_denom: self.token_out_denom@,
            with_swap_fee: self.with_swap_fee,
        }
    }
}

/// The spot-price request that a message starts from.
pub open spec fn empty_spot_price_request() -> SpotPriceRequestView {
    SpotPriceRequestView {
        pool_id: 0,
        token_in_denom: Seq::empty(),
        token_out_denom: Seq::empty(),
        with_swap_fee: false,
    }
}

/// One field of a spot-price request: the pool is `uint64` field 1, the
/// denominations in and out strings 2 and 3, whether to count the swap fee `bool` 4.
pub open spec fn spot_price_request_step() -> spec_fn(SpotPriceRequestView, u32, WireKind, Seq<u8>) -> Option<
    (SpotPriceRequestView, nat),
> {
    |acc: SpotPriceRequestView, tag: u32, w: WireKind, rest: Seq<u8>|
        if tag == 1 {
            match uint64_merge(w, rest) {
                Some((v, m)) => Some((SpotPriceRequestView { pool_id: v, ..acc }, m)),
                None => None,
            }
        } else if tag == 2 {
            match string_merge(w, rest) {
                Some((s, m)) => Some((SpotPriceRequestView { token_in_denom: s, ..acc }, m)),
                None => None,
            }
        } else if tag == 3 {
            match string_merge(w, rest) {
                Some((s, m)) => Some((SpotPriceRequestView { token_out_denom: s, ..acc }, m)),
                None => None,
            }
        } else if tag == 4 {
            match bool_merge(w, rest) {
                Some((b, m)) => Some((SpotPriceRequestView { with_swap_fee: b, ..acc }, m)),
                None => None,
            }
        } else {
            skip_step(acc, w, tag, rest)
        }
}

/// Reads the fields of `bytes` into the spot-price request `init`.
pub fn merge_spot_price_request(bytes: &[u8], init: QuerySpotPriceRequest) -> (res: Result<
    QuerySpotPriceRequest,
    ProtoError,
>)
    ensures
        res is Ok <==> fields_decode(bytes@, init@, spot_price_request_step()) is Some,
        res matches Ok(v) ==> fields_decode(bytes@, init@, spot_price_request_step()) == Some(v@),
{
    let ghost start = init@;
    let mut acc = init;
    let mut pos: usize = 0;
    assert(bytes@.skip(0) =~= bytes@);
    while pos < bytes.len()
        invariant
            start == init@,
            pos <= bytes@.len(),
            fields_decode(bytes@, start, spot_price_request_step()) == fields_decode(
                bytes@.skip(pos as int),
                acc@,
                spot_price_request_step(),
            ),
        decreases bytes@.len() - pos,
    {
        let (tag, w, p) = match next_key(bytes, pos) {
            Ok(k) => k,
            Err(e) => return Err(e),
        };
        let ghost before = acc@;
        let r: Result<usize, ProtoError> = if tag == 1 {
            match uint64_at(w, bytes, p) {
                Ok((v, q)) => {
                    acc.pool_id = v;
                    Ok(q)
                },
                Err(e) => Err(e),
            }
        } else if tag == 2 {
            match string_at(w, bytes, p) {
                Ok((s, q)) => {
                    acc.token_in_denom = s;
                    Ok(q)
                },
                Err(e) => Err(e),
            }
        } else if tag == 3 {
            match string_at(w, bytes, p) {
                Ok((s, q)) => {
                    acc.token_out_denom = s;
                    Ok(q)
                },
                Err(e) => Err(e),
            }
        } else if tag == 4 {
            match bool_at(w, bytes, p) {
                Ok((b, q)) => {
                    acc.with_swap_fee = b;
                    Ok(q)
                },
                Err(e) => Err(e),
            }
        } else {
            skip_at(w, tag, bytes, p)
        };
        match r {
            Ok(q) => {
                proof {
                    lemma_fields_step(
                        bytes@,
                        pos as int,
                        p as int,
                        q as int,
                        before,
                        acc@,
                        spot_price_request_step(),
                    );
                }
                pos = q;
            },
            Err(e) => {
                proof {
                    lemma_fields_fail(bytes@, pos as int, p as int, before, spot_price_request_step());
                }
                return Err(e);
            },
        }
    }
    proof {
        lemma_fields_end(bytes@, acc@, spot_price_request_step());
    }
    Ok(acc)
}

/// Whether the request's texts are short enough for their lengths to be written.
pub open spec fn spot_price_request_encodable(r: QuerySpotPriceRequest) -> bool {
    &&& encode_utf8(r.token_in_denom@).len() <= u64::MAX
    &&& encode_utf8(r.token_out_denom@).len() <= u64::MAX
}

/// A spot-price request reads back from its own bytes as itself.
#[verifier::spinoff_prover]
#[verifier::rlimit(40)]
pub proof fn law_spot_price_request_roundtrip(r: QuerySpotPriceRequest)
    requires
        spot_price_request_encodable(r),
    ensures
        fields_decode(r.wire_bytes(), empty_spot_price_request(), spot_price_request_step()) == Some(
            r@,
        ),
{
    let step = spot_price_request_step();
    let b4 = opt_bool_field(4, r.with_swap_fee);
    let b3 = opt_string_field(3, r.token_out_denom@) + b4;
    let b2 = opt_string_field(2, r.token_in_denom@) + b3;
    let v1 = SpotPriceRequestView { pool_id: r.pool_id, ..empty_spot_price_request() };
    let v2 = SpotPriceRequestView { token_in_denom: r.token_in_denom@, ..v1 };
    let v3 = SpotPriceRequestView { token_out_denom: r.token_out_denom@, ..v2 };
    lemma_uint64_roundtrip(r.pool_id, b2);
    lemma_opt_uint64_field(1, r.pool_id, b2, empty_spot_price_request(), v1, step);
    lemma_string_roundtrip(r.token_in_denom@, b3);
    if r.token_in_denom@.len() == 0 {
        assert(r.token_in_denom@ =~= Seq::<char>::empty());
    }
    lemma_opt_string_field(2, r.token_in_denom@, b3, v1, v2, step);
    lemma_string_roundtrip(r.token_out_denom@, b4);
    if r.token_out_denom@.len() == 0 {
        assert(r.token_out_denom@ =~= Seq::<char>::empty());
    }
    lemma_opt_string_field(3, r.token_out_denom@, b4, v2, v3, step);
    lemma_varint_roundtrip(1, Seq::empty());
    assert(varint_bytes(1) + Seq::<u8>::empty() =~= varint_bytes(1));
    lemma_opt_bool_field(4, r.with_swap_fee, Seq::empty(), v3, r@, step);
    assert(b4 + Seq::<u8>::empty() =~= b4);
    assert(r.wire_bytes() =~= opt_uint64_field(1, r.pool_id) + b2);
}

// ---------------------------------------------------------------------------
// Joining a pool with one token.
/// A single-token pool join as plain values.
pub struct JoinSwapExternView {
    pub sender: Seq<char>,
    pub pool_id: u64,
    pub token_in: Option<CoinView>,
    pub share_out_min_amount: Seq<char>,
}

impl View for MsgJoinSwapExternAmountIn {
    type V = JoinSwapExternView;

    open spec fn view(&self) -> JoinSwapExternView {
        JoinSwapExternView {
            sender: self.sender@,
            pool_id: self.pool_id,
            token_in: coin_opt_view(self.token_in),
            share_out_min_amount: self.share_out_min_amount@,
        }
    }
}

/// The single-token pool join that a message starts from.
pub open spec fn empty_join_swap_extern() -> JoinSwapExternView {
    JoinSwapExternView {
        sender: Seq::empty(),
        pool_id: 0,
        token_in: None,
        share_out_min_amount: Seq::empty(),
    }
}

/// One field of a single-token pool join: the sender is string 1, the pool
/// `uint64` 2, the token paid embedded coin 3, the least share wanted string 4.
pub open spec fn join_swap_extern_step() -> spec_fn(JoinSwapExternView, u32, WireKind, Seq<u8>) -> Option<
    (JoinSwapExternView, nat),
> {
    |acc: JoinSwapExternView, tag: u32, w: WireKind, rest: Seq<u8>|
        if tag == 1 {
            match string_merge(w, rest) {
                Some((s, m)) => Some((JoinSwapExternView { sender: s, ..acc }, m)),
                None => None,
            }
        } else if tag == 2 {
            match uint64_merge(w, rest) {
                Some((v, m)) => Some((JoinSwapExternView { pool_id: v, ..acc }, m)),
                None => None,
            }
        } else if tag == 3 {
            match merge_sub(w, rest, acc.token_in, empty_coin(), coin_step()) {
                Some((c, m)) => Some((JoinSwapExternView { token_in: Some(c), ..acc }, m)),
                None => None,
            }
        } else if tag == 4 {
            match string_merge(w, rest) {
                Some((s, m)) => Some((JoinSwapExternView { share_out_min_amount: s, ..acc }, m)),
                None => None,
            }
        } else {
            skip_step(acc, w, tag, rest)
        }
}

/// Reads the fields of `bytes` into the single-token pool join `init`.
pub fn merge_join_swap_extern(bytes: &[u8], init: MsgJoinSwapExternAmountIn) -> (res: Result<
    MsgJoinSwapExternAmountIn,
    ProtoError,
>)
    ensures
        res is Ok <==> fields_decode(bytes@, init@, join_swap_extern_step()) is Some,
        res matches Ok(v) ==> fields_decode(bytes@, init@, join_swap_extern_step()) == Some(v@),
{
    let ghost start = init@;
    let mut acc = init;
    let mut pos: usize = 0;
    assert(bytes@.skip(0) =~= bytes@);
    while pos < bytes.len()
        invariant
            start == init@,
            pos <= bytes@.len(),
            fields_decode(bytes@, start, join_swap_extern_step()) == fields_decode(
                bytes@.skip(pos as int),
                acc@,
                join_swap_extern_step(),
            ),
        decreases bytes@.len() - pos,
    {
        let (tag, w, p) = match next_key(bytes, pos) {
            Ok(k) => k,
            Err(e) => return Err(e),
        };
        let ghost before = acc@;
        let r: Result<usize, ProtoError> = if tag == 1 {
            match string_at(w, bytes, p) {
                Ok((s, q)) => {
                    acc.sender = s;
                    Ok(q)
                },
                Err(e) => Err(e),
            }
        } else if tag == 2 {
            match uint64_at(w, bytes, p) {
                Ok((v, q)) => {
                    acc.pool_id = v;
                    Ok(q)
                },
                Err(e) => Err(e),
            }
        } else if tag == 3 {
            match coin_field_at(w, bytes, p, acc.token_in.take()) {
                Ok((c, q)) => {
                    acc.token_in = Some(c);
                    Ok(q)
                },
                Err(e) => Err(e),
            }
        } else if tag == 4 {
            match string_at(w, bytes, p) {
                Ok((s, q)) => {
                    acc.share_out_min_amount = s;
                    Ok(q)
                },
                Err(e) => Err(e),
            }
        } else {
            skip_at(w, tag, bytes, p)
        };
        match r {
            Ok(q) => {
                proof {
                    lemma_fields_step(
                        bytes@,
                        pos as int,
                        p as int,
                        q as int,
                        before,
                        acc@,
                        join_swap_extern_step(),
                    );
                }
                pos = q;
            },
            Err(e) => {
                proof {
                    lemma_fields_fail(bytes@, pos as int, p as int, before, join_swap_extern_step());
                }
                return Err(e);
            },
        }
    }
    proof {
        lemma_fields_end(bytes@, acc@, join_swap_extern_step());
    }
    Ok(acc)
}

/// Whether a coin's texts and bytes are short enough for their lengths to be written.
pub open spec fn coin_encodable(c: Coin) -> bool {
    &&& encode_utf8(c.denom@).len() <= u64::MAX
    &&& encode_utf8(c.amount@).len() <= u64::MAX
    &&& c.wire_bytes().len() <= u64::MAX
}

/// Whether the message's texts and coin are short enough for their lengths to be
/// written.
pub open spec fn join_swap_extern_encodable(m: MsgJoinSwapExternAmountIn) -> bool {
    &&& encode_utf8(m.sender@).len() <= u64::MAX
    &&& encode_utf8(m.share_out_min_amount@).len() <= u64::MAX
    &&& m.token_in matches Some(c) ==> coin_encodable(c)
}

/// A single-token pool join reads back from its own bytes as itself.
#[verifier::spinoff_prover]
#[verifier::rlimit(40)]
pub proof fn law_join_swap_extern_roundtrip(x: MsgJoinSwapExternAmountIn)
    requires
        join_swap_extern_encodable(x),
    ensures
        fields_decode(x.wire_bytes(), empty_join_swap_extern(), join_swap_extern_step()) == Some(x@),
{
    let step = join_swap_extern_step();
    let b4 = opt_string_field(4, x.share_out_min_amount@);
    let b3 = optional_field(3, x.token_in) + b4;
    let b2 = opt_uint64_field(2, x.pool_id) + b3;
    let v1 = JoinSwapExternView { sender: x.sender@, ..empty_join_swap_extern() };
    let v2 = JoinSwapExternView { pool_id: x.pool_id, ..v1 };
    let v3 = JoinSwapExternView { token_in: coin_opt_view(x.token_in), ..v2 };
    lemma_string_roundtrip(x.sender@, b2);
    if x.sender@.len() == 0 {
        assert(x.sender@ =~= Seq::<char>::empty());
    }
    lemma_opt_string_field(1, x.sender@, b2, empty_join_swap_extern(), v1, step);
    lemma_uint64_roundtrip(x.pool_id, b3);
    lemma_opt_uint64_field(2, x.pool_id, b3, v1, v2, step);
    match x.token_in {
        Some(c) => {
            law_coin_roundtrip(c);
            lemma_delimited_body(c.wire_bytes(), b4);
            lemma_fields_field(3, WireKind::LengthDelimited, delimited(c.wire_bytes()), b4, v2, v3, step);
            assert(b3 =~= key_bytes(3, WireKind::LengthDelimited) + delimited(c.wire_bytes()) + b4);
        },
        None => {
            assert(b3 =~= b4);
        },
    }
    lemma_string_roundtrip(x.share_out_min_amount@, Seq::empty());
    assert(delimited(encode_utf8(x.share_out_min_amount@)) + Seq::<u8>::empty() =~= delimited(
        encode_utf8(x.share_out_min_amount@),
    ));
    if x.share_out_min_amount@.len() == 0 {
        assert(x.share_out_min_amount@ =~= Seq::<char>::empty());
    }
    lemma_opt_string_field(4, x.share_out_min_amount@, Seq::empty(), v3, x@, step);
    assert(b4 + Seq::<u8>::empty() =~= b4);
    assert(x.wire_bytes() =~= opt_string_field(1, x.sender@) + b2);
}

// ---------------------------------------------------------------------------
// Repeated routes and coins.
/// The views of a list of routes.
pub open spec fn routes_view(rs: Seq<SwapAmountInRoute>) -> Seq<RouteView> {
    rs.map_values(|r: SwapAmountInRoute| r@)
}

/// The views of a list of coins.
pub open spec fn coins_view(cs: Seq<Coin>) -> Seq<CoinView> {
    cs.map_values(|c: Coin| c@)
}

/// The empty route.
fn new_route() -> (r: SwapAmountInRoute)
    ensures
        r@ == empty_route(),
{
    SwapAmountInRoute { pool_id: 0, token_out_denom: String::new() }
}

/// Reads the embedded route whose payload starts at `bytes[p..]`.
fn route_field_at(w: WireKind, bytes: &[u8], p: usize) -> (res: Result<(SwapAmountInRoute, usize), ProtoError>)
    requires
        p <= bytes@.len(),
    ensures
        res is Ok <==> merge_sub(w, bytes@.skip(p as int), None, empty_route(), route_step()) is Some,
        res matches Ok((r, q)) ==> p <= q <= bytes@.len() && merge_sub(
            w,
            bytes@.skip(p as int),
            None,
            empty_route(),
            route_step(),
        ) == Some((r@, (q - p) as nat)),
{
    let (a, q) = match message_at(w, bytes, p) {
        Ok(r) => r,
        Err(e) => return Err(e),
    };
    match merge_route(&bytes[a..q], new_route()) {
        Ok(r) => Ok((r, q)),
        Err(e) => Err(e),
    }
}

/// Whether each route is short enough for its lengths to be written.
pub open spec fn routes_encodable(rs: Seq<SwapAmountInRoute>) -> bool {
    forall|i: int|
        0 <= i < rs.len() ==> route_encodable(#[trigger] rs[i]) && rs[i].wire_bytes().len() <= u64::MAX
}

/// Whether each coin is short enough for its lengths to be written.
pub open spec fn coins_encodable(cs: Seq<Coin>) -> bool {
    forall|i: int| 0 <= i < cs.len() ==> coin_encodable(#[trigger] cs[i])
}

// ---------------------------------------------------------------------------
// Swap message.
/// A swap message as plain values.
pub struct SwapMsgView {
    pub sender: Seq<char>,
    pub routes: Seq<RouteView>,
    pub token_in: Option<CoinView>,
    pub token_out_min_amount: Seq<char>,
}

impl View for MsgSwapExactAmountIn {
    type V = SwapMsgView;

    open spec fn view(&self) -> SwapMsgView {
        SwapMsgView {
            sender: self.sender@,
            routes: routes_view(self.routes@),
            token_in: coin_opt_view(self.token_in),
            token_out_min_amount: self.token_out_min_amount@,
        }
    }
}

/// The swap message that a message starts from.
pub open spec fn empty_swap_msg() -> SwapMsgView {
    SwapMsgView {
        sender: Seq::empty(),
        routes: Seq::empty(),
        token_in: None,
        token_out_min_amount: Seq::empty(),
    }
}

/// Adds a route to a swap message.
pub open spec fn swap_msg_push() -> spec_fn(SwapMsgView, RouteView) -> SwapMsgView {
    |m: SwapMsgView, r: RouteView| SwapMsgView { routes: m.routes.push(r), ..m }
}

/// One field of a swap message: the sender is string 1, each route one embedded
/// message 2, the token paid embedded coin 3, the least output wanted string 4.
pub open spec fn swap_msg_step() -> spec_fn(SwapMsgView, u32, WireKind, Seq<u8>) -> Option<(SwapMsgView, nat)> {
    |acc: SwapMsgView, tag: u32, w: WireKind, rest: Seq<u8>|
        if tag == 1 {
            match string_merge(w, rest) {
                Some((s, m)) => Some((SwapMsgView { sender: s, ..acc }, m)),
                None => None,
            }
        } else if tag == 2 {
            match merge_sub(w, rest, None, empty_route(), route_step()) {
                Some((r, m)) => Some((swap_msg_push()(acc, r), m)),
                None => None,
            }
        } else if tag == 3 {
            match merge_sub(w, rest, acc.token_in, empty_coin(), coin_step()) {
                Some((c, m)) => Some((SwapMsgView { token_in: Some(c), ..acc }, m)),
                None => None,
            }
        } else if tag == 4 {
            match string_merge(w, rest) {
                Some((s, m)) => Some((SwapMsgView { token_out_min_amount: s, ..acc }, m)),
                None => None,
            }
        } else {
            skip_step(acc, w, tag, rest)
        }
}

/// Reads the fields of `bytes` into the swap message `init`.
pub fn merge_swap_msg(bytes: &[u8], init: MsgSwapExactAmountIn) -> (res: Result<MsgSwapExactAmountIn, ProtoError>)
    ensures
        res is Ok <==> fields_decode(bytes@, init@, swap_msg_step()) is Some,
        res matches Ok(v) ==> fields_decode(bytes@, init@, swap_msg_step()) == Some(v@),
{
    let ghost start = init@;
    let mut acc = init;
    let mut pos: usize = 0;
    assert(bytes@.skip(0) =~= bytes@);
    while pos < bytes.len()
        invariant
            start == init@,
            pos <= bytes@.len(),
            fields_decode(bytes@, start, swap_msg_step()) == fields_decode(
                bytes@.skip(pos as int),
                acc@,
                swap_msg_step(),
            ),
        decreases bytes@.len() - pos,
    {
        let (tag, w, p) = match next_key(bytes, pos) {
            Ok(k) => k,
            Err(e) => return Err(e),
        };
        let ghost before = acc@;
        let r: Result<usize, ProtoError> = if tag == 1 {
            match string_at(w, bytes, p) {
                Ok((s, q)) => {
                    acc.sender = s;
                    Ok(q)
                },
                Err(e) => Err(e),
            }
        } else if tag == 2 {
            match route_field_at(w, bytes, p) {
                Ok((route, q)) => {
                    let ghost routes = acc.routes@;
                    acc.routes.push(route);
                    assert(routes_view(acc.routes@) =~= routes_view(routes).push(route@));
                    Ok(q)
                },
                Err(e) => Err(e),
            }
        } else if tag == 3 {
            match coin_field_at(w, bytes, p, acc.token_in.take()) {
                Ok((c, q)) => {
                    acc.token_in = Some(c);
                    Ok(q)
                },
                Err(e) => Err(e),
            }
        } else if tag == 4 {
            match string_at(w, bytes, p) {
                Ok((s, q)) => {
                    acc.token_out_min_amount = s;
                    Ok(q)
                },
                Err(e) => Err(e),
            }
        } else {
            skip_at(w, tag, bytes, p)
        };
        match r {
            Ok(q) => {
                proof {
                    lemma_fields_step(bytes@, pos as int, p as int, q as int, before, acc@, swap_msg_step());
                }
                pos = q;
            },
            Err(e) => {
                proof {
                    lemma_fields_fail(bytes@, pos as int, p as int, before, swap_msg_step());
                }
                return Err(e);
            },
        }
    }
    proof {
        lemma_fields_end(bytes@, acc@, swap_msg_step());
    }
    Ok(acc)
}

proof fn lemma_swap_msg_push_all(acc: SwapMsgView, rs: Seq<SwapAmountInRoute>)
    ensures
        push_all(acc, rs, swap_msg_push()) == (SwapMsgView { routes: acc.routes + routes_view(rs), ..acc }),
    decreases rs.len(),
{
    if rs.len() == 0 {
        assert(acc.routes + routes_view(rs) =~= acc.routes);
    } else {
        lemma_swap_msg_push_all(acc, rs.drop_last());
        assert(acc.routes + routes_view(rs) =~= (acc.routes + routes_view(rs.drop_last())).push(
            rs.last()@,
        ));
    }
}

/// Whether the swap message's texts, routes and coin are short enough for their
/// lengths to be written.
pub open spec fn swap_msg_encodable(x: MsgSwapExactAmountIn) -> bool {
    &&& encode_utf8(x.sender@).len() <= u64::MAX
    &&& routes_encodable(x.routes@)
    &&& x.token_in matches Some(c) ==> coin_encodable(c)
    &&& encode_utf8(x.token_out_min_amount@).len() <= u64::MAX
}

/// A swap message reads back from its own bytes as itself.
#[verifier::spinoff_prover]
#[verifier::rlimit(40)]
pub proof fn law_swap_msg_roundtrip(x: MsgSwapExactAmountIn)
    requires
        swap_msg_encodable(x),
    ensures
        fields_decode(x.wire_bytes(), empty_swap_msg(), swap_msg_step()) == Some(x@),
{
    let step = swap_msg_step();
    let b4 = opt_string_field(4, x.token_out_min_amount@);
    let b3 = optional_field(3, x.token_in) + b4;
    let b2 = repeated_field(2, x.routes@) + b3;
    let v1 = SwapMsgView { sender: x.sender@, ..empty_swap_msg() };
    let v2 = SwapMsgView { routes: routes_view(x.routes@), ..v1 };
    let v3 = SwapMsgView { token_in: coin_opt_view(x.token_in), ..v2 };
    lemma_string_roundtrip(x.sender@, b2);
    if x.sender@.len() == 0 {
        assert(x.sender@ =~= Seq::<char>::empty());
    }
    lemma_opt_string_field(1, x.sender@, b2, empty_swap_msg(), v1, step);
    let items = x.routes@;
    assert forall|m: SwapMsgView, r: Seq<u8>, i: int| 0 <= i < items.len() implies #[trigger] step(
        m,
        2u32,
        WireKind::LengthDelimited,
        delimited(items[i].wire_bytes()) + r,
    ) == Some((swap_msg_push()(m, items[i]@), delimited(items[i].wire_bytes()).len())) by {
        lemma_delimited_body(items[i].wire_bytes(), r);
        law_route_roundtrip(items[i]);
    }
    lemma_repeated_field(2, items, b3, v1, step, swap_msg_push());
    lemma_swap_msg_push_all(v1, items);
    assert(v1.routes + routes_view(items) =~= routes_view(items));
    match x.token_in {
        Some(c) => {
            law_coin_roundtrip(c);
            lemma_delimited_body(c.wire_bytes(), b4);
            lemma_fields_field(3, WireKind::LengthDelimited, delimited(c.wire_bytes()), b4, v2, v3, step);
            assert(b3 =~= key_bytes(3, WireKind::LengthDelimited) + delimited(c.wire_bytes()) + b4);
        },
        None => {
            assert(b3 =~= b4);
        },
    }
    lemma_string_roundtrip(x.token_out_min_amount@, Seq::empty());
    assert(delimited(encode_utf8(x.token_out_min_amount@)) + Seq::<u8>::empty() =~= delimited(
        encode_utf8(x.token_out_min_amount@),
    ));
    if x.token_out_min_amount@.len() == 0 {
        assert(x.token_out_min_amount@ =~= Seq::<char>::empty());
    }
    lemma_opt_string_field(4, x.token_out_min_amount@, Seq::empty(), v3, x@, step);
    assert(b4 + Seq::<u8>::empty() =~= b4);
    assert(x.wire_bytes() =~= opt_string_field(1, x.sender@) + b2);
}

// ---------------------------------------------------------------------------
// Swap estimate request.
/// A swap estimate request as plain values.
pub struct SwapEstimateRequestView {
    pub sender: Seq<char>,
    pub pool_id: u64,
    pub token_in: Seq<char>,
    pub routes: Seq<RouteView>,
}

impl View for QuerySwapExactAmountInRequest {
    type V = SwapEstimateRequestView;

    open spec fn view(&self) -> SwapEstimateRequestView {
        SwapEstimateRequestView {
            sender: self.sender@,
            pool_id: self.pool_id,
            token_in: self.token_in@,
            routes: routes_view(self.routes@),
        }
    }
}

/// The swap estimate request that a message starts from.
pub open spec fn empty_swap_estimate_request() -> SwapEstimateRequestView {
    SwapEstimateRequestView { sender: Seq::empty(), pool_id: 0, token_in: Seq::empty(), routes: Seq::empty() }
}

/// Adds a route to a swap estimate request.
pub open spec fn swap_estimate_request_push() -> spec_fn(SwapEstimateRequestView, RouteView) -> SwapEstimateRequestView {
    |m: SwapEstimateRequestView, r: RouteView| SwapEstimateRequestView { routes: m.routes.push(r), ..m }
}

/// One field of a swap estimate request: the sender is string 1, the pool `uint64`
/// 2, the token in (amount then denomination) string 3, each route one embedded
/// message 4.
pub open spec fn swap_estimate_request_step() -> spec_fn(SwapEstimateRequestView, u32, WireKind, Seq<u8>) -> Option<
    (SwapEstimateRequestView, nat),
> {
    |acc: SwapEstimateRequestView, tag: u32, w: WireKind, rest: Seq<u8>|
        if tag == 1 {
            match string_merge(w, rest) {
                Some((s, m)) => Some((SwapEstimateRequestView { sender: s, ..acc }, m)),
                None => None,
            }
        } else if tag == 2 {
            match uint64_merge(w, rest) {
                Some((v, m)) => Some((SwapEstimateRequestView { pool_id: v, ..acc }, m)),
                None => None,
            }
        } else if tag == 3 {
            match string_merge(w, rest) {
                Some((s, m)) => Some((SwapEstimateRequestView { token_in: s, ..acc }, m)),
                None => None,
            }
        } else if tag == 4 {
            match merge_sub(w, rest, None, empty_route(), route_step()) {
                Some((r, m)) => Some((swap_estimate_request_push()(acc, r), m)),
                None => None,
            }
        } else {
            skip_step(acc, w, tag, rest)
        }
}

/// Reads the fields of `bytes` into the swap estimate request `init`.
pub fn merge_swap_estimate_request(bytes: &[u8], init: QuerySwapExactAmountInRequest) -> (res: Result<
    QuerySwapExactAmountInRequest,
    ProtoError,
>)
    ensures
        res is Ok <==> fields_decode(bytes@, init@, swap_estimate_request_step()) is Some,
        res matches Ok(v) ==> fields_decode(bytes@, init@, swap_estimate_request_step()) == Some(v@),
{
    let ghost start = init@;
    let mut acc = init;
    let mut pos: usize = 0;
    assert(bytes@.skip(0) =~= bytes@);
    while pos < bytes.len()
        invariant
            start == init@,
            pos <= bytes@.len(),
            fields_decode(bytes@, start, swap_estimate_request_step()) == fields_decode(
                bytes@.skip(pos as int),
                acc@,
                swap_estimate_request_step(),
            ),
        decreases bytes@.len() - pos,
    {
        let (tag, w, p) = match next_key(bytes, pos) {
            Ok(k) => k,
            Err(e) => return Err(e),
        };
        let ghost before = acc@;
        let r: Result<usize, ProtoError> = if tag == 1 {
            match string_at(w, bytes, p) {
                Ok((s, q)) => {
                    acc.sender = s;
                    Ok(q)
                },
                Err(e) => Err(e),
            }
        } else if tag == 2 {
            match uint64_at(w, bytes, p) {
                Ok((v, q)) => {
                    acc.pool_id = v;
                    Ok(q)
                },
                Err(e) => Err(e),
            }
        } else if tag == 3 {
            match string_at(w, bytes, p) {
                Ok((s, q)) => {
                    acc.token_in = s;
                    Ok(q)
                },
                Err(e) => Err(e),
            }
        } else if tag == 4 {
            match route_field_at(w, bytes, p) {
                Ok((route, q)) => {
                    let ghost routes = acc.routes@;
                    acc.routes.push(route);
                    assert(routes_view(acc.routes@) =~= routes_view(routes).push(route@));
                    Ok(q)
                },
                Err(e) => Err(e),
            }
        } else {
            skip_at(w, tag, bytes, p)
        };
        match r {
            Ok(q) => {
                proof {
                    lemma_fields_step(
                        bytes@,
                        pos as int,
                        p as int,
                        q as int,
                        before,
                        acc@,
                        swap_estimate_request_step(),
                    );
                }
                pos = q;
            },
            Err(e) => {
                proof {
                    lemma_fields_fail(bytes@, pos as int, p as int, before, swap_estimate_request_step());
                }
                return Err(e);
            },
        }
    }
    proof {
        lemma_fields_end(bytes@, acc@, swap_estimate_request_step());
    }
    Ok(acc)
}

proof fn lemma_swap_estimate_request_push_all(acc: SwapEstimateRequestView, rs: Seq<SwapAmountInRoute>)
    ensures
        push_all(acc, rs, swap_estimate_request_push()) == (SwapEstimateRequestView {
            routes: acc.routes + routes_view(rs),
            ..acc
        }),
    decreases rs.len(),
{
    if rs.len() == 0 {
        assert(acc.routes + routes_view(rs) =~= acc.routes);
    } else {
        lemma_swap_estimate_request_push_all(acc, rs.drop_last());
        assert(acc.routes + routes_view(rs) =~= (acc.routes + routes_view(rs.drop_last())).push(
            rs.last()@,
        ));
    }
}

/// Whether the request's texts and routes are short enough for their lengths to be
/// written.
pub open spec fn swap_estimate_request_encodable(x: QuerySwapExactAmountInRequest) -> bool {
    &&& encode_utf8(x.sender@).len() <= u64::MAX
    &&& encode_utf8(x.token_in@).len() <= u64::MAX
    &&& routes_encodable(x.routes@)
}

/// A swap estimate request reads back from its own bytes as itself.
#[verifier::spinoff_prover]
#[verifier::rlimit(40)]
pub proof fn law_swap_estimate_request_roundtrip(x: QuerySwapExactAmountInRequest)
    requires
        swap_estimate_request_encodable(x),
    ensures
        fields_decode(x.wire_bytes(), empty_swap_estimate_request(), swap_estimate_request_step())
            == Some(x@),
{
    let step = swap_estimate_request_step();
    let b4 = repeated_field(4, x.routes@);
    let b3 = opt_string_field(3, x.token_in@) + b4;
    let b2 = opt_uint64_field(2, x.pool_id) + b3;
    let v1 = SwapEstimateRequestView { sender: x.sender@, ..empty_swap_estimate_request() };
    let v2 = SwapEstimateRequestView { pool_id: x.pool_id, ..v1 };
    let v3 = SwapEstimateRequestView { token_in: x.token_in@, ..v2 };
    lemma_string_roundtrip(x.sender@, b2);
    if x.sender@.len() == 0 {
        assert(x.sender@ =~= Seq::<char>::empty());
    }
    lemma_opt_string_field(1, x.sender@, b2, empty_swap_estimate_request(), v1, step);
    lemma_uint64_roundtrip(x.pool_id, b3);
    lemma_opt_uint64_field(2, x.pool_id, b3, v1, v2, step);
    lemma_string_roundtrip(x.token_in@, b4);
    if x.token_in@.len() == 0 {
        assert(x.token_in@ =~= Seq::<char>::empty());
    }
    lemma_opt_string_field(3, x.token_in@, b4, v2, v3, step);
    let items = x.routes@;
    assert forall|m: SwapEstimateRequestView, r: Seq<u8>, i: int| 0 <= i < items.len() implies #[trigger] step(
        m,
        4u32,
        WireKind::LengthDelimited,
        delimited(items[i].wire_bytes()) + r,
    ) == Some((swap_estimate_request_push()(m, items[i]@), delimited(items[i].wire_bytes()).len())) by {
        lemma_delimited_body(items[i].wire_bytes(), r);
        law_route_roundtrip(items[i]);
    }
    lemma_repeated_field(4, items, Seq::empty(), v3, step, swap_estimate_request_push());
    lemma_swap_estimate_request_push_all(v3, items);
    assert(v3.routes + routes_view(items) =~= routes_view(items));
    assert(b4 + Seq::<u8>::empty() =~= b4);
    assert(x.wire_bytes() =~= opt_string_field(1, x.sender@) + b2);
}

// ---------------------------------------------------------------------------
// Pool join.
/// A pool join as plain values.
pub struct JoinPoolView {
    pub sender: Seq<char>,
    pub pool_id: u64,
    pub share_out_amount: Seq<char>,
    pub token_in_maxs: Seq<CoinView>,
}

impl View for MsgJoinPool {
    type V = JoinPoolView;

    open spec fn view(&self) -> JoinPoolView {
        JoinPoolView {
            sender: self.sender@,
            pool_id: self.pool_id,
            share_out_amount: self.share_out_amount@,
            token_in_maxs: coins_view(self.token_in_maxs@),
        }
    }
}

/// The pool join that a message starts from.
pub open spec fn empty_join_pool() -> JoinPoolView {
    JoinPoolView { sender: Seq::empty(), pool_id: 0, share_out_amount: Seq::empty(), token_in_maxs: Seq::empty() }
}

/// Adds a coin to the most a pool join pays.
pub open spec fn join_pool_push() -> spec_fn(JoinPoolView, CoinView) -> JoinPoolView {
    |m: JoinPoolView, c: CoinView| JoinPoolView { token_in_maxs: m.token_in_maxs.push(c), ..m }
}

/// One field of a pool join: the sender is string 1, the pool `uint64` 2, the share
/// wanted string 3, each coin of the most it pays one embedded coin 4.
pub open spec fn join_pool_step() -> spec_fn(JoinPoolView, u32, WireKind, Seq<u8>) -> Option<(JoinPoolView, nat)> {
    |acc: JoinPoolView, tag: u32, w: WireKind, rest: Seq<u8>|
        if tag == 1 {
            match string_merge(w, rest) {
                Some((s, m)) => Some((JoinPoolView { sender: s, ..acc }, m)),
                None => None,
            }
        } else if tag == 2 {
            match uint64_merge(w, rest) {
                Some((v, m)) => Some((JoinPoolView { pool_id: v, ..acc }, m)),
                None => None,
            }
        } else if tag == 3 {
            match string_merge(w, rest) {
                Some((s, m)) => Some((JoinPoolView { share_out_amount: s, ..acc }, m)),
                None => None,
            }
        } else if tag == 4 {
            match merge_sub(w, rest, None, empty_coin(), coin_step()) {
                Some((c, m)) => Some((join_pool_push()(acc, c), m)),
                None => None,
            }
        } else {
            skip_step(acc, w, tag, rest)
        }
}

/// Reads the fields of `bytes` into the pool join `init`.
pub fn merge_join_pool(bytes: &[u8], init: MsgJoinPool) -> (res: Result<MsgJoinPool, ProtoError>)
    ensures
        res is Ok <==> fields_decode(bytes@, init@, join_pool_step()) is Some,
        res matches Ok(v) ==> fields_decode(bytes@, init@, join_pool_step()) == Some(v@),
{
    let ghost start = init@;
    let mut acc = init;
    let mut pos: usize = 0;
    assert(bytes@.skip(0) =~= bytes@);
    while pos < bytes.len()
        invariant
            start == init@,
            pos <= bytes@.len(),
            fields_decode(bytes@, start, join_pool_step()) == fields_decode(
                bytes@.skip(pos as int),
                acc@,
                join_pool_step(),
            ),
        decreases bytes@.len() - pos,
    {
        let (tag, w, p) = match next_key(bytes, pos) {
            Ok(k) => k,
            Err(e) => return Err(e),
        };
        let ghost before = acc@;
        let r: Result<usize, ProtoError> = if tag == 1 {
            match string_at(w, bytes, p) {
                Ok((s, q)) => {
                    acc.sender = s;
                    Ok(q)
                },
                Err(e) => Err(e),
            }
        } else if tag == 2 {
            match uint64_at(w, bytes, p) {
                Ok((v, q)) => {
                    acc.pool_id = v;
                    Ok(q)
                },
                Err(e) => Err(e),
            }
        } else if tag == 3 {
            match string_at(w, bytes, p) {
                Ok((s, q)) => {
                    acc.share_out_amount = s;
                    Ok(q)
                },
                Err(e) => Err(e),
            }
        } else if tag == 4 {
            match coin_field_at(w, bytes, p, None) {
                Ok((c, q)) => {
                    let ghost coins = acc.token_in_maxs@;
                    acc.token_in_maxs.push(c);
                    assert(coins_view(acc.token_in_maxs@) =~= coins_view(coins).push(c@));
                    Ok(q)
                },
                Err(e) => Err(e),
            }
        } else {
            skip_at(w, tag, bytes, p)
        };
        match r {
            Ok(q) => {
                proof {
                    lemma_fields_step(bytes@, pos as int, p as int, q as int, before, acc@, join_pool_step());
                }
                pos = q;
            },
            Err(e) => {
                proof {
                    lemma_fields_fail(bytes@, pos as int, p as int, before, join_pool_step());
                }
                return Err(e);
            },
        }
    }
    proof {
        lemma_fields_end(bytes@, acc@, join_pool_step());
    }
    Ok(acc)
}

proof fn lemma_join_pool_push_all(acc: JoinPoolView, cs: Seq<Coin>)
    ensures
        push_all(acc, cs, join_pool_push()) == (JoinPoolView {
            token_in_maxs: acc.token_in_maxs + coins_view(cs),
            ..acc
        }),
    decreases cs.len(),
{
    if cs.len() == 0 {
        assert(acc.token_in_maxs + coins_view(cs) =~= acc.token_in_maxs);
    } else {
        lemma_join_pool_push_all(acc, cs.drop_last());
        assert(acc.token_in_maxs + coins_view(cs) =~= (acc.token_in_maxs + coins_view(
            cs.drop_last(),
        )).push(cs.last()@));
    }
}

/// Whether the pool join's texts and coins are short enough for their lengths to be
/// written.
pub open spec fn join_pool_encodable(x: MsgJoinPool) -> bool {
    &&& encode_utf8(x.sender@).len() <= u64::MAX
    &&& encode_utf8(x.share_out_amount@).len() <= u64::MAX
    &&& coins_encodable(x.token_in_maxs@)
}

/// A pool join reads back from its own bytes as itself.
#[verifier::spinoff_prover]
#[verifier::rlimit(40)]
pub proof fn law_join_pool_roundtrip(x: MsgJoinPool)
    requires
        join_pool_encodable(x),
    ensures
        fields_decode(x.wire_bytes(), empty_join_pool(), join_pool_step()) == Some(x@),
{
    let step = join_pool_step();
    let b4 = repeated_field(4, x.token_in_maxs@);
    let b3 = opt_string_field(3, x.share_out_amount@) + b4;
    let b2 = opt_uint64_field(2, x.pool_id) + b3;
    let v1 = JoinPoolView { sender: x.sender@, ..empty_join_pool() };
    let v2 = JoinPoolView { pool_id: x.pool_id, ..v1 };
    let v3 = JoinPoolView { share_out_amount: x.share_out_amount@, ..v2 };
    lemma_string_roundtrip(x.sender@, b2);
    if x.sender@.len() == 0 {
        assert(x.sender@ =~= Seq::<char>::empty());
    }
    lemma_opt_string_field(1, x.sender@, b2, empty_join_pool(), v1, step);
    lemma_uint64_roundtrip(x.pool_id, b3);
    lemma_opt_uint64_field(2, x.pool_id, b3, v1, v2, step);
    lemma_string_roundtrip(x.share_out_amount@, b4);
    if x.share_out_amount@.len() == 0 {
        assert(x.share_out_amount@ =~= Seq::<char>::empty());
    }
    lemma_opt_string_field(3, x.share_out_amount@, b4, v2, v3, step);
    let items = x.token_in_maxs@;
    assert forall|m: JoinPoolView, r: Seq<u8>, i: int| 0 <= i < items.len() implies #[trigger] step(
        m,
        4u32,
        WireKind::LengthDelimited,
        delimited(items[i].wire_bytes()) + r,
    ) == Some((join_pool_push()(m, items[i]@), delimited(items[i].wire_bytes()).len())) by {
        lemma_delimited_body(items[i].wire_bytes(), r);
        law_coin_roundtrip(items[i]);
    }
    lemma_repeated_field(4, items, Seq::empty(), v3, step, join_pool_push());
    lemma_join_pool_push_all(v3, items);
    assert(v3.token_in_maxs + coins_view(items) =~= coins_view(items));
    assert(b4 + Seq::<u8>::empty() =~= b4);
    assert(x.wire_bytes() =~= opt_string_field(1, x.sender@) + b2);
}

} // verus!
