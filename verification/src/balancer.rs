//! The reply to a pool query: `osmosis.gamm.v1beta1.QueryPoolResponse`, the `Any`
//! inside it, and the balancer pool with its parts, read from their Protobuf bytes
//! field by field as the `merge` of a `prost` message does it.
use crate::proto::{Any, Coin, Duration, Pool, PoolAsset, PoolParams, ProtoError, QueryPoolResponse, SmoothWeightChangeParams, Timestamp};
use crate::proto::{optional_field, WireMessage};
use crate::wire::{
    delimited, key_bytes, lemma_key_roundtrip, lemma_string_roundtrip, lemma_varint_roundtrip,
    opt_string_field, MAX_TAG,
    bytes_merge, int32_merge, int64_merge, key_decode, lemma_varint_dec_len, read_bytes,
    read_int32, read_int64, read_key, read_string, read_uint64, read_varint, skip_unknown,
    skipped_len, string_merge, uint64_merge, WireKind,
};
use vstd::prelude::*;
use vstd::utf8::encode_utf8;

verus! {

// ---------------------------------------------------------------------------
// Reading a message field by field.
/// Reads the fields at the front of `b` one after another into `acc`: a key, then
/// what `step` makes of the field with that key, until the bytes are used up.
/// `step` gives the message after the field and the length of the field's payload,
/// or `None` where the payload does not read.
pub open spec fn fields_decode<M>(
    b: Seq<u8>,
    acc: M,
    step: spec_fn(M, u32, WireKind, Seq<u8>) -> Option<(M, nat)>,
) -> Option<M>
    decreases b.len(),
{
    if b.len() == 0 {
        Some(acc)
    } else {
        match key_decode(b) {
            None => None,
            Some((tag, w, n)) => if n == 0 || n > b.len() {
                None
            } else {
                match step(acc, tag, w, b.skip(n as int)) {
                    None => None,
                    Some((next, m)) => if m > b.len() - n {
                        None
                    } else {
                        fields_decode(b.skip(n as int).skip(m as int), next, step)
                    },
                }
            },
        }
    }
}

/// A field the message does not know: skipped, the message unchanged.
pub open spec fn skip_step<M>(acc: M, w: WireKind, tag: u32, rest: Seq<u8>) -> Option<(M, nat)> {
    match skipped_len(w, tag, rest) {
        Some(m) => Some((acc, m)),
        None => None,
    }
}

/// The body of an embedded message field at the front of `rest`: its bytes and the
/// length of the whole payload, length prefix included.
pub open spec fn sub_message(w: WireKind, rest: Seq<u8>) -> Option<(Seq<u8>, nat)> {
    bytes_merge(w, rest)
}

pub(crate) proof fn lemma_fields_step<M>(
    bytes: Seq<u8>,
    pos: int,
    p: int,
    q: int,
    acc: M,
    next: M,
    step: spec_fn(M, u32, WireKind, Seq<u8>) -> Option<(M, nat)>,
)
    requires
        0 <= pos < p <= q <= bytes.len(),
        key_decode(bytes.skip(pos)) matches Some((t, w, n)) && n == p - pos && step(
            acc,
            t,
            w,
            bytes.skip(p),
        ) == Some((next, (q - p) as nat)),
    ensures
        fields_decode(bytes.skip(pos), acc, step) == fields_decode(bytes.skip(q), next, step),
{
    let b = bytes.skip(pos);
    assert(b.skip(p - pos) =~= bytes.skip(p));
    assert(bytes.skip(p).skip(q - p) =~= bytes.skip(q));
}

pub(crate) proof fn lemma_fields_fail<M>(
    bytes: Seq<u8>,
    pos: int,
    p: int,
    acc: M,
    step: spec_fn(M, u32, WireKind, Seq<u8>) -> Option<(M, nat)>,
)
    requires
        0 <= pos < p <= bytes.len(),
        key_decode(bytes.skip(pos)) matches Some((t, w, n)) && n == p - pos && step(
            acc,
            t,
            w,
            bytes.skip(p),
        ) is None,
    ensures
        fields_decode(bytes.skip(pos), acc, step) is None,
{
    let b = bytes.skip(pos);
    assert(b.skip(p - pos) =~= bytes.skip(p));
}

pub(crate) proof fn lemma_fields_end<M>(
    bytes: Seq<u8>,
    acc: M,
    step: spec_fn(M, u32, WireKind, Seq<u8>) -> Option<(M, nat)>,
)
    ensures
        fields_decode(bytes.skip(bytes.len() as int), acc, step) == Some(acc),
{
    assert(bytes.skip(bytes.len() as int).len() == 0);
}

/// The key at `bytes[pos..]`: its tag, its wire type and where its field's payload
/// starts.
pub(crate) fn next_key(bytes: &[u8], pos: usize) -> (res: Result<(u32, WireKind, usize), ProtoError>)
    requires
        pos < bytes@.len(),
    ensures
        res is Ok <==> key_decode(bytes@.skip(pos as int)) is Some,
        res matches Ok((t, w, p)) ==> pos < p <= bytes@.len() && key_decode(bytes@.skip(pos as int))
            == Some((t, w, (p - pos) as nat)),
{
    proof {
        lemma_varint_dec_len(bytes@.skip(pos as int), 10);
    }
    match read_key(bytes, pos) {
        Ok((t, w, left)) => Ok((t, w, bytes.len() - left)),
        Err(_) => Err(ProtoError::Decode),
    }
}

/// The string payload at `bytes[p..]` and where it ends.
pub(crate) fn string_at(w: WireKind, bytes: &[u8], p: usize) -> (res: Result<(String, usize), ProtoError>)
    requires
        p <= bytes@.len(),
    ensures
        res is Ok <==> string_merge(w, bytes@.skip(p as int)) is Some,
        res matches Ok((s, q)) ==> p <= q <= bytes@.len() && string_merge(w, bytes@.skip(p as int))
            == Some((s@, (q - p) as nat)),
{
    match read_string(w, bytes, p) {
        Ok((s, left)) => Ok((s, bytes.len() - left)),
        Err(_) => Err(ProtoError::Decode),
    }
}

/// The `uint64` payload at `bytes[p..]` and where it ends.
pub(crate) fn uint64_at(w: WireKind, bytes: &[u8], p: usize) -> (res: Result<(u64, usize), ProtoError>)
    requires
        p <= bytes@.len(),
    ensures
        res is Ok <==> uint64_merge(w, bytes@.skip(p as int)) is Some,
        res matches Ok((v, q)) ==> p <= q <= bytes@.len() && uint64_merge(w, bytes@.skip(p as int))
            == Some((v, (q - p) as nat)),
{
    match read_uint64(w, bytes, p) {
        Ok((v, left)) => Ok((v, bytes.len() - left)),
        Err(_) => Err(ProtoError::Decode),
    }
}

/// The `int64` payload at `bytes[p..]` and where it ends.
pub(crate) fn int64_at(w: WireKind, bytes: &[u8], p: usize) -> (res: Result<(i64, usize), ProtoError>)
    requires
        p <= bytes@.len(),
    ensures
        res is Ok <==> int64_merge(w, bytes@.skip(p as int)) is Some,
        res matches Ok((v, q)) ==> p <= q <= bytes@.len() && int64_merge(w, bytes@.skip(p as int))
            == Some((v, (q - p) as nat)),
{
    match read_int64(w, bytes, p) {
        Ok((v, left)) => Ok((v, bytes.len() - left)),
        Err(_) => Err(ProtoError::Decode),
    }
}

/// The `int32` payload at `bytes[p..]` and where it ends.
pub(crate) fn int32_at(w: WireKind, bytes: &[u8], p: usize) -> (res: Result<(i32, usize), ProtoError>)
    requires
        p <= bytes@.len(),
    ensures
        res is Ok <==> int32_merge(w, bytes@.skip(p as int)) is Some,
        res matches Ok((v, q)) ==> p <= q <= bytes@.len() && int32_merge(w, bytes@.skip(p as int))
            == Some((v, (q - p) as nat)),
{
    match read_int32(w, bytes, p) {
        Ok((v, left)) => Ok((v, bytes.len() - left)),
        Err(_) => Err(ProtoError::Decode),
    }
}

/// The `bytes` payload at `bytes[p..]` and where it ends.
pub(crate) fn bytes_at(w: WireKind, bytes: &[u8], p: usize) -> (res: Result<(Vec<u8>, usize), ProtoError>)
    requires
        p <= bytes@.len(),
    ensures
        res is Ok <==> bytes_merge(w, bytes@.skip(p as int)) is Some,
        res matches Ok((v, q)) ==> p <= q <= bytes@.len() && bytes_merge(w, bytes@.skip(p as int))
            == Some((v@, (q - p) as nat)),
{
    match read_bytes(w, bytes, p) {
        Ok((v, left)) => Ok((v, bytes.len() - left)),
        Err(_) => Err(ProtoError::Decode),
    }
}

/// Skips the unknown field whose payload starts at `bytes[p..]`: where it ends.
pub(crate) fn skip_at(w: WireKind, tag: u32, bytes: &[u8], p: usize) -> (res: Result<usize, ProtoError>)
    requires
        p <= bytes@.len(),
    ensures
        res is Ok <==> skipped_len(w, tag, bytes@.skip(p as int)) is Some,
        res matches Ok(q) ==> p <= q <= bytes@.len() && skipped_len(w, tag, bytes@.skip(p as int))
            == Some((q - p) as nat),
{
    match skip_unknown(w, tag, bytes, p) {
        Ok(left) => Ok(bytes.len() - left),
        Err(_) => Err(ProtoError::Decode),
    }
}

/// The embedded message whose payload starts at `bytes[p..]`: where its body starts
/// and where it ends.
pub(crate) fn message_at(w: WireKind, bytes: &[u8], p: usize) -> (res: Result<(usize, usize), ProtoError>)
    requires
        p <= bytes@.len(),
    ensures
        res is Ok <==> sub_message(w, bytes@.skip(p as int)) is Some,
        res matches Ok((a, q)) ==> p <= a <= q <= bytes@.len() && sub_message(
            w,
            bytes@.skip(p as int),
        ) == Some((bytes@.subrange(a as int, q as int), (q - p) as nat)),
{
    if w != WireKind::LengthDelimited {
        return Err(ProtoError::Decode);
    }
    proof {
        lemma_varint_dec_len(bytes@.skip(p as int), 10);
    }
    let (len, left) = match read_varint(bytes, p) {
        Ok(r) => r,
        Err(_) => return Err(ProtoError::Decode),
    };
    if len > left as u64 {
        return Err(ProtoError::Decode);
    }
    let a = bytes.len() - left;
    let q = a + len as usize;
    assert(bytes@.skip(p as int).subrange((a - p) as int, (q - p) as int) =~= bytes@.subrange(
        a as int,
        q as int,
    ));
    Ok((a, q))
}

// ---------------------------------------------------------------------------
// Coin.
/// A coin as plain text.
pub struct CoinView {
    pub denom: Seq<char>,
    pub amount: Seq<char>,
}

impl View for Coin {
    type V = CoinView;

    open spec fn view(&self) -> CoinView {
        CoinView { denom: self.denom@, amount: self.amount@ }
    }
}

/// The coin that a message starts from.
pub open spec fn empty_coin() -> CoinView {
    CoinView { denom: Seq::empty(), amount: Seq::empty() }
}

/// One field of a coin: the denomination is field 1, the amount field 2.
pub open spec fn coin_step() -> spec_fn(CoinView, u32, WireKind, Seq<u8>) -> Option<(CoinView, nat)> {
    |acc: CoinView, tag: u32, w: WireKind, rest: Seq<u8>|
        if tag == 1 {
            match string_merge(w, rest) {
                Some((s, m)) => Some((CoinView { denom: s, amount: acc.amount }, m)),
                None => None,
            }
        } else if tag == 2 {
            match string_merge(w, rest) {
                Some((s, m)) => Some((CoinView { denom: acc.denom, amount: s }, m)),
                None => None,
            }
        } else {
            skip_step(acc, w, tag, rest)
        }
}

/// Reads the fields of `bytes` into the coin `acc`.
pub fn merge_coin(bytes: &[u8], init: Coin) -> (res: Result<Coin, ProtoError>)
    ensures
        res is Ok <==> fields_decode(bytes@, init@, coin_step()) is Some,
        res matches Ok(c) ==> fields_decode(bytes@, init@, coin_step()) == Some(c@),
{
    let ghost start = init@;
    let mut acc = init;
    let mut pos: usize = 0;
    assert(bytes@.skip(0) =~= bytes@);
    while pos < bytes.len()
        invariant
            start == init@,
            pos <= bytes@.len(),
            fields_decode(bytes@, start, coin_step()) == fields_decode(
                bytes@.skip(pos as int),
                acc@,
                coin_step(),
            ),
        decreases bytes@.len() - pos,
    {
        let (tag, w, p) = match next_key(bytes, pos) {
            Ok(k) => k,
            Err(e) => return Err(e),
        };
        let ghost before = acc@;
        let q = if tag == 1 {
            match string_at(w, bytes, p) {
                Ok((s, q)) => {
                    acc.denom = s;
                    q
                },
                Err(e) => {
                    proof {
                        lemma_fields_fail(bytes@, pos as int, p as int, before, coin_step());
                    }
                    return Err(e);
                },
            }
        } else if tag == 2 {
            match string_at(w, bytes, p) {
                Ok((s, q)) => {
                    acc.amount = s;
                    q
                },
                Err(e) => {
                    proof {
                        lemma_fields_fail(bytes@, pos as int, p as int, before, coin_step());
                    }
                    return Err(e);
                },
            }
        } else {
            match skip_at(w, tag, bytes, p) {
                Ok(q) => q,
                Err(e) => {
                    proof {
                        lemma_fields_fail(bytes@, pos as int, p as int, before, coin_step());
                    }
                    return Err(e);
                },
            }
        };
        proof {
            lemma_fields_step(bytes@, pos as int, p as int, q as int, before, acc@, coin_step());
        }
        pos = q;
    }
    proof {
        lemma_fields_end(bytes@, acc@, coin_step());
    }
    Ok(acc)
}

/// A coin that may be absent, as plain text.
pub open spec fn coin_opt_view(o: Option<Coin>) -> Option<CoinView> {
    match o {
        Some(c) => Some(c@),
        None => None,
    }
}

/// What an embedded message field of type `S` does to the value `cur` it merges
/// into: its body is read into `cur`, or into the empty `S` where there is none.
pub open spec fn merge_sub<S>(
    w: WireKind,
    rest: Seq<u8>,
    cur: Option<S>,
    empty: S,
    step: spec_fn(S, u32, WireKind, Seq<u8>) -> Option<(S, nat)>,
) -> Option<(S, nat)> {
    match sub_message(w, rest) {
        Some((body, m)) => match fields_decode(
            body,
            match cur {
                Some(v) => v,
                None => empty,
            },
            step,
        ) {
            Some(v) => Some((v, m)),
            None => None,
        },
        None => None,
    }
}

// ---------------------------------------------------------------------------
// Pool asset.
/// A pool asset as plain values.
pub struct PoolAssetView {
    pub token: Option<CoinView>,
    pub weight: Seq<char>,
}

impl View for PoolAsset {
    type V = PoolAssetView;

    open spec fn view(&self) -> PoolAssetView {
        PoolAssetView { token: coin_opt_view(self.token), weight: self.weight@ }
    }
}

/// The pool asset that a message starts from.
pub open spec fn empty_pool_asset() -> PoolAssetView {
    PoolAssetView { token: None, weight: Seq::empty() }
}

/// One field of a pool asset: the token is embedded message 1, the weight string 2.
pub open spec fn pool_asset_step() -> spec_fn(PoolAssetView, u32, WireKind, Seq<u8>) -> Option<
    (PoolAssetView, nat),
> {
    |acc: PoolAssetView, tag: u32, w: WireKind, rest: Seq<u8>|
        if tag == 1 {
            match merge_sub(w, rest, acc.token, empty_coin(), coin_step()) {
                Some((c, m)) => Some((PoolAssetView { token: Some(c), weight: acc.weight }, m)),
                None => None,
            }
        } else if tag == 2 {
            match string_merge(w, rest) {
                Some((s, m)) => Some((PoolAssetView { token: acc.token, weight: s }, m)),
                None => None,
            }
        } else {
            skip_step(acc, w, tag, rest)
        }
}

/// The empty coin.
pub(crate) fn new_coin() -> (c: Coin)
    ensures
        c@ == empty_coin(),
{
    Coin { denom: String::new(), amount: String::new() }
}

/// Reads the embedded coin whose payload starts at `bytes[p..]` into `cur`.
pub(crate) fn coin_field_at(w: WireKind, bytes: &[u8], p: usize, cur: Option<Coin>) -> (res: Result<(Coin, usize), ProtoError>)
    requires
        p <= bytes@.len(),
    ensures
        res is Ok <==> merge_sub(w, bytes@.skip(p as int), coin_opt_view(cur), empty_coin(), coin_step()) is Some,
        res matches Ok((c, q)) ==> p <= q <= bytes@.len() && merge_sub(
            w,
            bytes@.skip(p as int),
            coin_opt_view(cur),
            empty_coin(),
            coin_step(),
        ) == Some((c@, (q - p) as nat)),
{
    let (a, q) = match message_at(w, bytes, p) {
        Ok(r) => r,
        Err(e) => return Err(e),
    };
    let base = match cur {
        Some(c) => c,
        None => new_coin(),
    };
    match merge_coin(&bytes[a..q], base) {
        Ok(c) => Ok((c, q)),
        Err(e) => Err(e),
    }
}

/// Reads the fields of `bytes` into the pool asset `init`.
pub fn merge_pool_asset(bytes: &[u8], init: PoolAsset) -> (res: Result<PoolAsset, ProtoError>)
    ensures
        res is Ok <==> fields_decode(bytes@, init@, pool_asset_step()) is Some,
        res matches Ok(a) ==> fields_decode(bytes@, init@, pool_asset_step()) == Some(a@),
{
    let ghost start = init@;
    let mut token = init.token;
    let mut weight = init.weight;
    let mut pos: usize = 0;
    assert(bytes@.skip(0) =~= bytes@);
    while pos < bytes.len()
        invariant
            start == init@,
            pos <= bytes@.len(),
            fields_decode(bytes@, start, pool_asset_step()) == fields_decode(
                bytes@.skip(pos as int),
                PoolAssetView { token: coin_opt_view(token), weight: weight@ },
                pool_asset_step(),
            ),
        decreases bytes@.len() - pos,
    {
        let (tag, w, p) = match next_key(bytes, pos) {
            Ok(k) => k,
            Err(e) => return Err(e),
        };
        let ghost before = PoolAssetView { token: coin_opt_view(token), weight: weight@ };
        let r: Result<usize, ProtoError> = if tag == 1 {
            match coin_field_at(w, bytes, p, token.take()) {
                Ok((c, q)) => {
                    token = Some(c);
                    Ok(q)
                },
                Err(e) => Err(e),
            }
        } else if tag == 2 {
            match string_at(w, bytes, p) {
                Ok((s, q)) => {
                    weight = s;
                    Ok(q)
                },
                Err(e) => Err(e),
            }
        } else {
            skip_at(w, tag, bytes, p)
        };
        match r {
            Ok(q) => {
                proof {
                    lemma_fields_step(
                        bytes@,
                        pos as int,
                        p as int,
                        q as int,
                        before,
                        PoolAssetView { token: coin_opt_view(token), weight: weight@ },
                        pool_asset_step(),
                    );
                }
                pos = q;
            },
            Err(e) => {
                proof {
                    lemma_fields_fail(bytes@, pos as int, p as int, before, pool_asset_step());
                }
                return Err(e);
            },
        }
    }
    proof {
        lemma_fields_end(bytes@, PoolAssetView { token: coin_opt_view(token), weight: weight@ }, pool_asset_step());
    }
    Ok(PoolAsset { token, weight })
}

// ---------------------------------------------------------------------------
// Timestamp and duration.
/// One field of a timestamp: the seconds are `int64` field 1, the nanoseconds
/// `int32` field 2.
pub open spec fn timestamp_step() -> spec_fn(Timestamp, u32, WireKind, Seq<u8>) -> Option<(Timestamp, nat)> {
    |acc: Timestamp, tag: u32, w: WireKind, rest: Seq<u8>|
        if tag == 1 {
            match int64_merge(w, rest) {
                Some((v, m)) => Some((Timestamp { seconds: v, nanos: acc.nanos }, m)),
                None => None,
            }
        } else if tag == 2 {
            match int32_merge(w, rest) {
                Some((v, m)) => Some((Timestamp { seconds: acc.seconds, nanos: v }, m)),
                None => None,
            }
        } else {
            skip_step(acc, w, tag, rest)
        }
}

/// One field of a duration: the seconds are `int64` field 1, the nanoseconds
/// `int32` field 2.
pub open spec fn duration_step() -> spec_fn(Duration, u32, WireKind, Seq<u8>) -> Option<(Duration, nat)> {
    |acc: Duration, tag: u32, w: WireKind, rest: Seq<u8>|
        if tag == 1 {
            match int64_merge(w, rest) {
                Some((v, m)) => Some((Duration { seconds: v, nanos: acc.nanos }, m)),
                None => None,
            }
        } else if tag == 2 {
            match int32_merge(w, rest) {
                Some((v, m)) => Some((Duration { seconds: acc.seconds, nanos: v }, m)),
                None => None,
            }
        } else {
            skip_step(acc, w, tag, rest)
        }
}

/// Reads the fields of `bytes` into the timestamp `init`.
pub fn merge_timestamp(bytes: &[u8], init: Timestamp) -> (res: Result<Timestamp, ProtoError>)
    ensures
        res is Ok <==> fields_decode(bytes@, init, timestamp_step()) is Some,
        res matches Ok(t) ==> fields_decode(bytes@, init, timestamp_step()) == Some(t),
{
    let mut acc = init;
    let mut pos: usize = 0;
    assert(bytes@.skip(0) =~= bytes@);
    while pos < bytes.len()
        invariant
            pos <= bytes@.len(),
            fields_decode(bytes@, init, timestamp_step()) == fields_decode(
                bytes@.skip(pos as int),
                acc,
                timestamp_step(),
            ),
        decreases bytes@.len() - pos,
    {
        let (tag, w, p) = match next_key(bytes, pos) {
            Ok(k) => k,
            Err(e) => return Err(e),
        };
        let ghost before = acc;
        let r: Result<usize, ProtoError> = if tag == 1 {
            match int64_at(w, bytes, p) {
                Ok((v, q)) => {
                    acc = Timestamp { seconds: v, nanos: acc.nanos };
                    Ok(q)
                },
                Err(e) => Err(e),
            }
        } else if tag == 2 {
            match int32_at(w, bytes, p) {
                Ok((v, q)) => {
                    acc = Timestamp { seconds: acc.seconds, nanos: v };
                    Ok(q)
                },
                Err(e) => Err(e),
            }
        } else {
            skip_at(w, tag, bytes, p)
        };
        match r {
            Ok(q) => {
                proof {
                    lemma_fields_step(bytes@, pos as int, p as int, q as int, before, acc, timestamp_step());
                }
                pos = q;
            },
            Err(e) => {
                proof {
                    lemma_fields_fail(bytes@, pos as int, p as int, before, timestamp_step());
                }
                return Err(e);
            },
        }
    }
    proof {
        lemma_fields_end(bytes@, acc, timestamp_step());
    }
    Ok(acc)
}

/// Reads the fields of `bytes` into the duration `init`.
pub fn merge_duration(bytes: &[u8], init: Duration) -> (res: Result<Duration, ProtoError>)
    ensures
        res is Ok <==> fields_decode(bytes@, init, duration_step()) is Some,
        res matches Ok(d) ==> fields_decode(bytes@, init, duration_step()) == Some(d),
{
    let mut acc = init;
    let mut pos: usize = 0;
    assert(bytes@.skip(0) =~= bytes@);
    while pos < bytes.len()
        invariant
            pos <= bytes@.len(),
            fields_decode(bytes@, init, duration_step()) == fields_decode(
                bytes@.skip(pos as int),
                acc,
                duration_step(),
            ),
        decreases bytes@.len() - pos,
    {
        let (tag, w, p) = match next_key(bytes, pos) {
            Ok(k) => k,
            Err(e) => return Err(e),
        };
        let ghost before = acc;
        let r: Result<usize, ProtoError> = if tag == 1 {
            match int64_at(w, bytes, p) {
                Ok((v, q)) => {
                    acc = Duration { seconds: v, nanos: acc.nanos };
                    Ok(q)
                },
                Err(e) => Err(e),
            }
        } else if tag == 2 {
            match int32_at(w, bytes, p) {
                Ok((v, q)) => {
                    acc = Duration { seconds: acc.seconds, nanos: v };
                    Ok(q)
                },
                Err(e) => Err(e),
            }
        } else {
            skip_at(w, tag, bytes, p)
        };
        match r {
            Ok(q) => {
                proof {
                    lemma_fields_step(bytes@, pos as int, p as int, q as int, before, acc, duration_step());
                }
                pos = q;
            },
            Err(e) => {
                proof {
                    lemma_fields_fail(bytes@, pos as int, p as int, before, duration_step());
                }
                return Err(e);
            },
        }
    }
    proof {
        lemma_fields_end(bytes@, acc, duration_step());
    }
    Ok(acc)
}

// ---------------------------------------------------------------------------
// Smooth weight change parameters.
/// A pool asset that may be absent, as plain values.
pub open spec fn pool_asset_opt_view(o: Option<PoolAsset>) -> Option<PoolAssetView> {
    match o {
        Some(a) => Some(a@),
        None => None,
    }
}

/// The smooth weight change parameters as plain values.
pub struct SmoothWeightChangeParamsView {
    pub start_time: Option<Timestamp>,
    pub duration: Option<Duration>,
    pub initial_pool_weights: Option<PoolAssetView>,
    pub target_pool_weights: Option<PoolAssetView>,
}

impl View for SmoothWeightChangeParams {
    type V = SmoothWeightChangeParamsView;

    open spec fn view(&self) -> SmoothWeightChangeParamsView {
        SmoothWeightChangeParamsView {
            start_time: self.start_time,
            duration: self.duration,
            initial_pool_weights: pool_asset_opt_view(self.initial_pool_weights),
            target_pool_weights: pool_asset_opt_view(self.target_pool_weights),
        }
    }
}

/// The smooth weight change parameters that a message starts from.
pub open spec fn empty_smooth() -> SmoothWeightChangeParamsView {
    SmoothWeightChangeParamsView {
        start_time: None,
        duration: None,
        initial_pool_weights: None,
        target_pool_weights: None,
    }
}

/// One field of the smooth weight change parameters: the start time is embedded
/// message 1, the duration 2, the initial weights 3 and the target weights 4.
pub open spec fn smooth_step() -> spec_fn(SmoothWeightChangeParamsView, u32, WireKind, Seq<u8>) -> Option<
    (SmoothWeightChangeParamsView, nat),
> {
    |acc: SmoothWeightChangeParamsView, tag: u32, w: WireKind, rest: Seq<u8>|
        if tag == 1 {
            match merge_sub(w, rest, acc.start_time, Timestamp { seconds: 0, nanos: 0 }, timestamp_step()) {
                Some((t, m)) => Some((SmoothWeightChangeParamsView { start_time: Some(t), ..acc }, m)),
                None => None,
            }
        } else if tag == 2 {
            match merge_sub(w, rest, acc.duration, Duration { seconds: 0, nanos: 0 }, duration_step()) {
                Some((d, m)) => Some((SmoothWeightChangeParamsView { duration: Some(d), ..acc }, m)),
                None => None,
            }
        } else if tag == 3 {
            match merge_sub(w, rest, acc.initial_pool_weights, empty_pool_asset(), pool_asset_step()) {
                Some((a, m)) => Some(
                    (SmoothWeightChangeParamsView { initial_pool_weights: Some(a), ..acc }, m),
                ),
                None => None,
            }
        } else if tag == 4 {
            match merge_sub(w, rest, acc.target_pool_weights, empty_pool_asset(), pool_asset_step()) {
                Some((a, m)) => Some(
                    (SmoothWeightChangeParamsView { target_pool_weights: Some(a), ..acc }, m),
                ),
                None => None,
            }
        } else {
            skip_step(acc, w, tag, rest)
        }
}

/// Reads the embedded timestamp whose payload starts at `bytes[p..]` into `cur`.
fn timestamp_field_at(w: WireKind, bytes: &[u8], p: usize, cur: Option<Timestamp>) -> (res: Result<(Timestamp, usize), ProtoError>)
    requires
        p <= bytes@.len(),
    ensures
        res is Ok <==> merge_sub(w, bytes@.skip(p as int), cur, Timestamp { seconds: 0, nanos: 0 }, timestamp_step()) is Some,
        res matches Ok((t, q)) ==> p <= q <= bytes@.len() && merge_sub(
            w,
            bytes@.skip(p as int),
            cur,
            Timestamp { seconds: 0, nanos: 0 },
            timestamp_step(),
        ) == Some((t, (q - p) as nat)),
{
    let (a, q) = match message_at(w, bytes, p) {
        Ok(r) => r,
        Err(e) => return Err(e),
    };
    let base = match cur {
        Some(t) => t,
        None => Timestamp { seconds: 0, nanos: 0 },
    };
    match merge_timestamp(&bytes[a..q], base) {
        Ok(t) => Ok((t, q)),
        Err(e) => Err(e),
    }
}

/// Reads the embedded duration whose payload starts at `bytes[p..]` into `cur`.
fn duration_field_at(w: WireKind, bytes: &[u8], p: usize, cur: Option<Duration>) -> (res: Result<(Duration, usize), ProtoError>)
    requires
        p <= bytes@.len(),
    ensures
        res is Ok <==> merge_sub(w, bytes@.skip(p as int), cur, Duration { seconds: 0, nanos: 0 }, duration_step()) is Some,
        res matches Ok((d, q)) ==> p <= q <= bytes@.len() && merge_sub(
            w,
            bytes@.skip(p as int),
            cur,
            Duration { seconds: 0, nanos: 0 },
            duration_step(),
        ) == Some((d, (q - p) as nat)),
{
    let (a, q) = match message_at(w, bytes, p) {
        Ok(r) => r,
        Err(e) => return Err(e),
    };
    let base = match cur {
        Some(d) => d,
        None => Duration { seconds: 0, nanos: 0 },
    };
    match merge_duration(&bytes[a..q], base) {
        Ok(d) => Ok((d, q)),
        Err(e) => Err(e),
    }
}

/// The empty pool asset.
fn new_pool_asset() -> (a: PoolAsset)
    ensures
        a@ == empty_pool_asset(),
{
    PoolAsset { token: None, weight: String::new() }
}

/// Reads the embedded pool asset whose payload starts at `bytes[p..]` into `cur`.
fn pool_asset_field_at(w: WireKind, bytes: &[u8], p: usize, cur: Option<PoolAsset>) -> (res: Result<(PoolAsset, usize), ProtoError>)
    requires
        p <= bytes@.len(),
    ensures
        res is Ok <==> merge_sub(
            w,
            bytes@.skip(p as int),
            pool_asset_opt_view(cur),
            empty_pool_asset(),
            pool_asset_step(),
        ) is Some,
        res matches Ok((a, q)) ==> p <= q <= bytes@.len() && merge_sub(
            w,
            bytes@.skip(p as int),
            pool_asset_opt_view(cur),
            empty_pool_asset(),
            pool_asset_step(),
        ) == Some((a@, (q - p) as nat)),
{
    let (a, q) = match message_at(w, bytes, p) {
        Ok(r) => r,
        Err(e) => return Err(e),
    };
    let base = match cur {
        Some(x) => x,
        None => new_pool_asset(),
    };
    match merge_pool_asset(&bytes[a..q], base) {
        Ok(x) => Ok((x, q)),
        Err(e) => Err(e),
    }
}

/// Reads the fields of `bytes` into the smooth weight change parameters `init`.
pub fn merge_smooth_weight_change_params(bytes: &[u8], init: SmoothWeightChangeParams) -> (res: Result<
    SmoothWeightChangeParams,
    ProtoError,
>)
    ensures
        res is Ok <==> fields_decode(bytes@, init@, smooth_step()) is Some,
        res matches Ok(v) ==> fields_decode(bytes@, init@, smooth_step()) == Some(v@),
{
    let ghost start = init@;
    let mut acc = init;
    let mut pos: usize = 0;
    assert(bytes@.skip(0) =~= bytes@);
    while pos < bytes.len()
        invariant
            start == init@,
            pos <= bytes@.len(),
            fields_decode(bytes@, start, smooth_step()) == fields_decode(
                bytes@.skip(pos as int),
                acc@,
                smooth_step(),
            ),
        decreases bytes@.len() - pos,
    {
        let (tag, w, p) = match next_key(bytes, pos) {
            Ok(k) => k,
            Err(e) => return Err(e),
        };
        let ghost before = acc@;
        let r: Result<usize, ProtoError> = if tag == 1 {
            match timestamp_field_at(w, bytes, p, acc.start_time) {
                Ok((t, q)) => {
                    acc.start_time = Some(t);
                    Ok(q)
                },
                Err(e) => Err(e),
            }
        } else if tag == 2 {
            match duration_field_at(w, bytes, p, acc.duration) {
                Ok((d, q)) => {
                    acc.duration = Some(d);
                    Ok(q)
                },
                Err(e) => Err(e),
            }
        } else if tag == 3 {
            match pool_asset_field_at(w, bytes, p, acc.initial_pool_weights.take()) {
                Ok((a, q)) => {
                    acc.initial_pool_weights = Some(a);
                    Ok(q)
                },
                Err(e) => Err(e),
            }
        } else if tag == 4 {
            match pool_asset_field_at(w, bytes, p, acc.target_pool_weights.take()) {
                Ok((a, q)) => {
                    acc.target_pool_weights = Some(a);
                    Ok(q)
                },
                Err(e) => Err(e),
            }
        } else {
            skip_at(w, tag, bytes, p)
        };
        match r {
            Ok(q) => {
                proof {
                    lemma_fields_step(bytes@, pos as int, p as int, q as int, before, acc@, smooth_step());
                }
                pos = q;
            },
            Err(e) => {
                proof {
                    lemma_fields_fail(bytes@, pos as int, p as int, before, smooth_step());
                }
                return Err(e);
            },
        }
    }
    proof {
        lemma_fields_end(bytes@, acc@, smooth_step());
    }
    Ok(acc)
}

// ---------------------------------------------------------------------------
// Pool parameters.
/// Smooth weight change parameters that may be absent, as plain values.
pub open spec fn smooth_opt_view(o: Option<SmoothWeightChangeParams>) -> Option<SmoothWeightChangeParamsView> {
    match o {
        Some(v) => Some(v@),
        None => None,
    }
}

/// The pool parameters as plain values.
pub struct PoolParamsView {
    pub swap_fee: Seq<char>,
    pub exit_fee: Seq<char>,
    pub smooth_weight_change_params: Option<SmoothWeightChangeParamsView>,
}

impl View for PoolParams {
    type V = PoolParamsView;

    open spec fn view(&self) -> PoolParamsView {
        PoolParamsView {
            swap_fee: self.swap_fee@,
            exit_fee: self.exit_fee@,
            smooth_weight_change_params: smooth_opt_view(self.smooth_weight_change_params),
        }
    }
}

/// The pool parameters that a message starts from.
pub open spec fn empty_pool_params() -> PoolParamsView {
    PoolParamsView { swap_fee: Seq::empty(), exit_fee: Seq::empty(), smooth_weight_change_params: None }
}

/// One field of the pool parameters: the swap fee is string 1, the exit fee string
/// 2, the smooth weight change parameters embedded message 3.
pub open spec fn pool_params_step() -> spec_fn(PoolParamsView, u32, WireKind, Seq<u8>) -> Option<
    (PoolParamsView, nat),
> {
    |acc: PoolParamsView, tag: u32, w: WireKind, rest: Seq<u8>|
        if tag == 1 {
            match string_merge(w, rest) {
                Some((s, m)) => Some((PoolParamsView { swap_fee: s, ..acc }, m)),
                None => None,
            }
        } else if tag == 2 {
            match string_merge(w, rest) {
                Some((s, m)) => Some((PoolParamsView { exit_fee: s, ..acc }, m)),
                None => None,
            }
        } else if tag == 3 {
            match merge_sub(w, rest, acc.smooth_weight_change_params, empty_smooth(), smooth_step()) {
                Some((v, m)) => Some((PoolParamsView { smooth_weight_change_params: Some(v), ..acc }, m)),
                None => None,
            }
        } else {
            skip_step(acc, w, tag, rest)
        }
}

/// The empty smooth weight change parameters.
fn new_smooth() -> (v: SmoothWeightChangeParams)
    ensures
        v@ == empty_smooth(),
{
    SmoothWeightChangeParams {
        start_time: None,
        duration: None,
        initial_pool_weights: None,
        target_pool_weights: None,
    }
}

/// Reads the embedded smooth weight change parameters whose payload starts at
/// `bytes[p..]` into `cur`.
fn smooth_field_at(w: WireKind, bytes: &[u8], p: usize, cur: Option<SmoothWeightChangeParams>) -> (res: Result<
    (SmoothWeightChangeParams, usize),
    ProtoError,
>)
    requires
        p <= bytes@.len(),
    ensures
        res is Ok <==> merge_sub(w, bytes@.skip(p as int), smooth_opt_view(cur), empty_smooth(), smooth_step()) is Some,
        res matches Ok((v, q)) ==> p <= q <= bytes@.len() && merge_sub(
            w,
            bytes@.skip(p as int),
            smooth_opt_view(cur),
            empty_smooth(),
            smooth_step(),
        ) == Some((v@, (q - p) as nat)),
{
    let (a, q) = match message_at(w, bytes, p) {
        Ok(r) => r,
        Err(e) => return Err(e),
    };
    let base = match cur {
        Some(v) => v,
        None => new_smooth(),
    };
    match merge_smooth_weight_change_params(&bytes[a..q], base) {
        Ok(v) => Ok((v, q)),
        Err(e) => Err(e),
    }
}

/// Reads the fields of `bytes` into the pool parameters `init`.
pub fn merge_pool_params(bytes: &[u8], init: PoolParams) -> (res: Result<PoolParams, ProtoError>)
    ensures
        res is Ok <==> fields_decode(bytes@, init@, pool_params_step()) is Some,
        res matches Ok(v) ==> fields_decode(bytes@, init@, pool_params_step()) == Some(v@),
{
    let ghost start = init@;
    let mut acc = init;
    let mut pos: usize = 0;
    assert(bytes@.skip(0) =~= bytes@);
    while pos < bytes.len()
        invariant
            start == init@,
            pos <= bytes@.len(),
            fields_decode(bytes@, start, pool_params_step()) == fields_decode(
                bytes@.skip(pos as int),
                acc@,
                pool_params_step(),
            ),
        decreases bytes@.len() - pos,
    {
        let (tag, w, p) = match next_key(bytes, pos) {
            Ok(k) => k,
            Err(e) => return Err(e),
        };
        let ghost before = acc@;
        let r: Result<usize, ProtoError> = if tag == 1 {
            match string_at(w, bytes, p) {
                Ok((s, q)) => {
                    acc.swap_fee = s;
                    Ok(q)
                },
                Err(e) => Err(e),
            }
        } else if tag == 2 {
            match string_at(w, bytes, p) {
                Ok((s, q)) => {
                    acc.exit_fee = s;
                    Ok(q)
                },
                Err(e) => Err(e),
            }
        } else if tag == 3 {
            match smooth_field_at(w, bytes, p, acc.smooth_weight_change_params.take()) {
                Ok((v, q)) => {
                    acc.smooth_weight_change_params = Some(v);
                    Ok(q)
                },
                Err(e) => Err(e),
            }
        } else {
            skip_at(w, tag, bytes, p)
        };
        match r {
            Ok(q) => {
                proof {
                    lemma_fields_step(bytes@, pos as int, p as int, q as int, before, acc@, pool_params_step());
                }
                pos = q;
            },
            Err(e) => {
                proof {
                    lemma_fields_fail(bytes@, pos as int, p as int, before, pool_params_step());
                }
                return Err(e);
            },
        }
    }
    proof {
        lemma_fields_end(bytes@, acc@, pool_params_step());
    }
    Ok(acc)
}

// ---------------------------------------------------------------------------
// Pool.
/// Pool parameters that may be absent, as plain values.
pub open spec fn pool_params_opt_view(o: Option<PoolParams>) -> Option<PoolParamsView> {
    match o {
        Some(v) => Some(v@),
        None => None,
    }
}

/// A list of pool assets as plain values.
pub open spec fn pool_assets_view(assets: Seq<PoolAsset>) -> Seq<PoolAssetView> {
    assets.map_values(|a: PoolAsset| a@)
}

/// A balancer pool as plain values.
pub struct PoolView {
    pub address: Seq<char>,
    pub id: u64,
    pub pool_params: Option<PoolParamsView>,
    pub future_pool_governor: Seq<char>,
    pub total_shares: Option<CoinView>,
    pub pool_assets: Seq<PoolAssetView>,
    pub total_weight: Seq<char>,
}

impl View for Pool {
    type V = PoolView;

    open spec fn view(&self) -> PoolView {
        PoolView {
            address: self.address@,
            id: self.id,
            pool_params: pool_params_opt_view(self.pool_params),
            future_pool_governor: self.future_pool_governor@,
            total_shares: coin_opt_view(self.total_shares),
            pool_assets: pool_assets_view(self.pool_assets@),
            total_weight: self.total_weight@,
        }
    }
}

/// The pool that a message starts from.
pub open spec fn empty_pool() -> PoolView {
    PoolView {
        address: Seq::empty(),
        id: 0,
        pool_params: None,
        future_pool_governor: Seq::empty(),
        total_shares: None,
        pool_assets: Seq::empty(),
        total_weight: Seq::empty(),
    }
}

/// One field of a balancer pool: the address is string 1, the id `uint64` 2, the
/// parameters embedded message 3, the future governor string 4, the total shares
/// embedded coin 5, each pool asset one embedded message 6, the total weight string 7.
pub open spec fn pool_step() -> spec_fn(PoolView, u32, WireKind, Seq<u8>) -> Option<(PoolView, nat)> {
    |acc: PoolView, tag: u32, w: WireKind, rest: Seq<u8>|
        if tag == 1 {
            match string_merge(w, rest) {
                Some((s, m)) => Some((PoolView { address: s, ..acc }, m)),
                None => None,
            }
        } else if tag == 2 {
            match uint64_merge(w, rest) {
                Some((v, m)) => Some((PoolView { id: v, ..acc }, m)),
                None => None,
            }
        } else if tag == 3 {
            match merge_sub(w, rest, acc.pool_params, empty_pool_params(), pool_params_step()) {
                Some((v, m)) => Some((PoolView { pool_params: Some(v), ..acc }, m)),
                None => None,
            }
        } else if tag == 4 {
            match string_merge(w, rest) {
                Some((s, m)) => Some((PoolView { future_pool_governor: s, ..acc }, m)),
                None => None,
            }
        } else if tag == 5 {
            match merge_sub(w, rest, acc.total_shares, empty_coin(), coin_step()) {
                Some((c, m)) => Some((PoolView { total_shares: Some(c), ..acc }, m)),
                None => None,
            }
        } else if tag == 6 {
            match merge_sub(w, rest, None, empty_pool_asset(), pool_asset_step()) {
                Some((a, m)) => Some((PoolView { pool_assets: acc.pool_assets.push(a), ..acc }, m)),
                None => None,
            }
        } else if tag == 7 {
            match string_merge(w, rest) {
                Some((s, m)) => Some((PoolView { total_weight: s, ..acc }, m)),
                None => None,
            }
        } else {
            skip_step(acc, w, tag, rest)
        }
}

/// The empty pool parameters.
fn new_pool_params() -> (v: PoolParams)
    ensures
        v@ == empty_pool_params(),
{
    PoolParams { swap_fee: String::new(), exit_fee: String::new(), smooth_weight_change_params: None }
}

/// Reads the embedded pool parameters whose payload starts at `bytes[p..]` into `cur`.
fn pool_params_field_at(w: WireKind, bytes: &[u8], p: usize, cur: Option<PoolParams>) -> (res: Result<
    (PoolParams, usize),
    ProtoError,
>)
    requires
        p <= bytes@.len(),
    ensures
        res is Ok <==> merge_sub(
            w,
            bytes@.skip(p as int),
            pool_params_opt_view(cur),
            empty_pool_params(),
            pool_params_step(),
        ) is Some,
        res matches Ok((v, q)) ==> p <= q <= bytes@.len() && merge_sub(
            w,
            bytes@.skip(p as int),
            pool_params_opt_view(cur),
            empty_pool_params(),
            pool_params_step(),
        ) == Some((v@, (q - p) as nat)),
{
    let (a, q) = match message_at(w, bytes, p) {
        Ok(r) => r,
        Err(e) => return Err(e),
    };
    let base = match cur {
        Some(v) => v,
        None => new_pool_params(),
    };
    match merge_pool_params(&bytes[a..q], base) {
        Ok(v) => Ok((v, q)),
        Err(e) => Err(e),
    }
}

/// Reads the fields of `bytes` into the pool `init`.
pub fn merge_pool(bytes: &[u8], init: Pool) -> (res: Result<Pool, ProtoError>)
    ensures
        res is Ok <==> fields_decode(bytes@, init@, pool_step()) is Some,
        res matches Ok(v) ==> fields_decode(bytes@, init@, pool_step()) == Some(v@),
{
    let ghost start = init@;
    let mut acc = init;
    let mut pos: usize = 0;
    assert(bytes@.skip(0) =~= bytes@);
    while pos < bytes.len()
        invariant
            start == init@,
            pos <= bytes@.len(),
            fields_decode(bytes@, start, pool_step()) == fields_decode(
                bytes@.skip(pos as int),
                acc@,
                pool_step(),
            ),
        decreases bytes@.len() - pos,
    {
        let (tag, w, p) = match next_key(bytes, pos) {
            Ok(k) => k,
            Err(e) => return Err(e),
        };
        let ghost before = acc@;
        let r: Result<usize, ProtoError> = if tag == 1 {
            match string_at(w, bytes, p) {
                Ok((s, q)) => {
                    acc.address = s;
                    Ok(q)
                },
                Err(e) => Err(e),
            }
        } else if tag == 2 {
            match uint64_at(w, bytes, p) {
                Ok((v, q)) => {
                    acc.id = v;
                    Ok(q)
                },
                Err(e) => Err(e),
            }
        } else if tag == 3 {
            match pool_params_field_at(w, bytes, p, acc.pool_params.take()) {
                Ok((v, q)) => {
                    acc.pool_params = Some(v);
                    Ok(q)
                },
                Err(e) => Err(e),
            }
        } else if tag == 4 {
            match string_at(w, bytes, p) {
                Ok((s, q)) => {
                    acc.future_pool_governor = s;
                    Ok(q)
                },
                Err(e) => Err(e),
            }
        } else if tag == 5 {
            match coin_field_at(w, bytes, p, acc.total_shares.take()) {
                Ok((c, q)) => {
                    acc.total_shares = Some(c);
                    Ok(q)
                },
                Err(e) => Err(e),
            }
        } else if tag == 6 {
            match pool_asset_field_at(w, bytes, p, None) {
                Ok((a, q)) => {
                    let ghost assets = acc.pool_assets@;
                    acc.pool_assets.push(a);
                    assert(pool_assets_view(acc.pool_assets@) =~= pool_assets_view(assets).push(a@));
                    Ok(q)
                },
                Err(e) => Err(e),
            }
        } else if tag == 7 {
            match string_at(w, bytes, p) {
                Ok((s, q)) => {
                    acc.total_weight = s;
                    Ok(q)
                },
                Err(e) => Err(e),
            }
        } else {
            skip_at(w, tag, bytes, p)
        };
        match r {
            Ok(q) => {
                proof {
                    lemma_fields_step(bytes@, pos as int, p as int, q as int, before, acc@, pool_step());
                }
                pos = q;
            },
            Err(e) => {
                proof {
                    lemma_fields_fail(bytes@, pos as int, p as int, before, pool_step());
                }
                return Err(e);
            },
        }
    }
    proof {
        lemma_fields_end(bytes@, acc@, pool_step());
    }
    Ok(acc)
}

impl Pool {
    /// Decodes a balancer pool from its Protobuf bytes.
    pub fn decode(bytes: &[u8]) -> (res: Result<Pool, ProtoError>)
        ensures
            res is Ok <==> fields_decode(bytes@, empty_pool(), pool_step()) is Some,
            res matches Ok(v) ==> fields_decode(bytes@, empty_pool(), pool_step()) == Some(v@),
    {
        let init = Pool {
            address: String::new(),
            id: 0,
            pool_params: None,
            future_pool_governor: String::new(),
            total_shares: None,
            pool_assets: Vec::new(),
            total_weight: String::new(),
        };
        assert(pool_assets_view(init.pool_assets@) =~= Seq::<PoolAssetView>::empty());
        assert(init@ == empty_pool());
        merge_pool(bytes, init)
    }

    /// Reads a balancer pool out of an `Any` that holds it: the pool answers to the
    /// empty type URL, and an `Any` that names another is refused.
    pub fn from_any(any: &Any) -> (res: Result<Pool, ProtoError>)
        requires
            any.type_url@.len() == 0 ==> fields_decode(any.value@, empty_pool(), pool_step()) is Some,
        ensures
            res is Ok <==> any.type_url@.len() == 0,
            any.type_url@.len() != 0 <==> res == Err::<Pool, ProtoError>(ProtoError::TypeUrlMismatch),
            res matches Ok(v) ==> fields_decode(any.value@, empty_pool(), pool_step()) == Some(v@),
    {
        if any.type_url.as_str().is_empty() {
            Pool::decode(any.value.as_slice())
        } else {
            Err(ProtoError::TypeUrlMismatch)
        }
    }
}

// ---------------------------------------------------------------------------
// Any and the pool query's reply.
/// An `Any` as plain values.
pub struct AnyView {
    pub type_url: Seq<char>,
    pub value: Seq<u8>,
}

impl View for Any {
    type V = AnyView;

    open spec fn view(&self) -> AnyView {
        AnyView { type_url: self.type_url@, value: self.value@ }
    }
}

/// The `Any` that a message starts from.
pub open spec fn empty_any() -> AnyView {
    AnyView { type_url: Seq::empty(), value: Seq::empty() }
}

/// One field of an `Any`: the type URL is string 1, the value bytes 2.
pub open spec fn any_step() -> spec_fn(AnyView, u32, WireKind, Seq<u8>) -> Option<(AnyView, nat)> {
    |acc: AnyView, tag: u32, w: WireKind, rest: Seq<u8>|
        if tag == 1 {
            match string_merge(w, rest) {
                Some((s, m)) => Some((AnyView { type_url: s, value: acc.value }, m)),
                None => None,
            }
        } else if tag == 2 {
            match bytes_merge(w, rest) {
                Some((v, m)) => Some((AnyView { type_url: acc.type_url, value: v }, m)),
                None => None,
            }
        } else {
            skip_step(acc, w, tag, rest)
        }
}

/// Reads the fields of `bytes` into the `Any` `init`.
pub fn merge_any(bytes: &[u8], init: Any) -> (res: Result<Any, ProtoError>)
    ensures
        res is Ok <==> fields_decode(bytes@, init@, any_step()) is Some,
        res matches Ok(v) ==> fields_decode(bytes@, init@, any_step()) == Some(v@),
{
    let ghost start = init@;
    let mut acc = init;
    let mut pos: usize = 0;
    assert(bytes@.skip(0) =~= bytes@);
    while pos < bytes.len()
        invariant
            start == init@,
            pos <= bytes@.len(),
            fields_decode(bytes@, start, any_step()) == fields_decode(
                bytes@.skip(pos as int),
                acc@,
                any_step(),
            ),
        decreases bytes@.len() - pos,
    {
        let (tag, w, p) = match next_key(bytes, pos) {
            Ok(k) => k,
            Err(e) => return Err(e),
        };
        let ghost before = acc@;
        let r: Result<usize, ProtoError> = if tag == 1 {
            match string_at(w, bytes, p) {
                Ok((s, q)) => {
                    acc.type_url = s;
                    Ok(q)
                },
                Err(e) => Err(e),
            }
        } else if tag == 2 {
            match bytes_at(w, bytes, p) {
                Ok((v, q)) => {
                    acc.value = v;
                    Ok(q)
                },
                Err(e) => Err(e),
            }
        } else {
            skip_at(w, tag, bytes, p)
        };
        match r {
            Ok(q) => {
                proof {
                    lemma_fields_step(bytes@, pos as int, p as int, q as int, before, acc@, any_step());
                }
                pos = q;
            },
            Err(e) => {
                proof {
                    lemma_fields_fail(bytes@, pos as int, p as int, before, any_step());
                }
                return Err(e);
            },
        }
    }
    proof {
        lemma_fields_end(bytes@, acc@, any_step());
    }
    Ok(acc)
}

/// An `Any` that may be absent, as plain values.
pub open spec fn any_opt_view(o: Option<Any>) -> Option<AnyView> {
    match o {
        Some(v) => Some(v@),
        None => None,
    }
}

/// One field of the pool query's reply: the pool is embedded `Any` 1.
pub open spec fn pool_response_step() -> spec_fn(Option<AnyView>, u32, WireKind, Seq<u8>) -> Option<
    (Option<AnyView>, nat),
> {
    |acc: Option<AnyView>, tag: u32, w: WireKind, rest: Seq<u8>|
        if tag == 1 {
            match merge_sub(w, rest, acc, empty_any(), any_step()) {
                Some((v, m)) => Some((Some(v), m)),
                None => None,
            }
        } else {
            skip_step(acc, w, tag, rest)
        }
}

/// The empty `Any`.
fn new_any() -> (v: Any)
    ensures
        v@ == empty_any(),
{
    Any { type_url: String::new(), value: Vec::new() }
}

impl QueryPoolResponse {
    /// Decodes the reply to a pool query from its Protobuf bytes.
    pub fn decode(bytes: &[u8]) -> (res: Result<QueryPoolResponse, ProtoError>)
        ensures
            res is Ok <==> fields_decode(bytes@, None, pool_response_step()) is Some,
            res matches Ok(v) ==> fields_decode(bytes@, None, pool_response_step()) == Some(
                any_opt_view(v.pool),
            ),
    {
        let mut pool: Option<Any> = None;
        let mut pos: usize = 0;
        assert(bytes@.skip(0) =~= bytes@);
        while pos < bytes.len()
            invariant
                pos <= bytes@.len(),
                fields_decode(bytes@, None, pool_response_step()) == fields_decode(
                    bytes@.skip(pos as int),
                    any_opt_view(pool),
                    pool_response_step(),
                ),
            decreases bytes@.len() - pos,
        {
            let (tag, w, p) = match next_key(bytes, pos) {
                Ok(k) => k,
                Err(e) => return Err(e),
            };
            let ghost before = any_opt_view(pool);
            let r: Result<usize, ProtoError> = if tag == 1 {
                match message_at(w, bytes, p) {
                    Ok((a, q)) => {
                        let base = match pool.take() {
                            Some(v) => v,
                            None => new_any(),
                        };
                        match merge_any(&bytes[a..q], base) {
                            Ok(v) => {
                                pool = Some(v);
                                Ok(q)
                            },
                            Err(e) => Err(e),
                        }
                    },
                    Err(e) => Err(e),
                }
            } else {
                skip_at(w, tag, bytes, p)
            };
            match r {
                Ok(q) => {
                    proof {
                        lemma_fields_step(
                            bytes@,
                            pos as int,
                            p as int,
                            q as int,
                            before,
                            any_opt_view(pool),
                            pool_response_step(),
                        );
                    }
                    pos = q;
                },
                Err(e) => {
                    proof {
                        lemma_fields_fail(bytes@, pos as int, p as int, before, pool_response_step());
                    }
                    return Err(e);
                },
            }
        }
        proof {
            lemma_fields_end(bytes@, any_opt_view(pool), pool_response_step());
        }
        Ok(QueryPoolResponse { pool })
    }
}

// ---------------------------------------------------------------------------
// Reading back what was written.
pub(crate) proof fn lemma_fields_field<M>(
    tag: nat,
    w: WireKind,
    payload: Seq<u8>,
    rest: Seq<u8>,
    acc: M,
    next: M,
    step: spec_fn(M, u32, WireKind, Seq<u8>) -> Option<(M, nat)>,
)
    requires
        1 <= tag <= MAX_TAG,
        step(acc, tag as u32, w, payload + rest) == Some((next, payload.len())),
    ensures
        fields_decode(key_bytes(tag, w) + payload + rest, acc, step) == fields_decode(rest, next, step),
{
    let b = key_bytes(tag, w) + payload + rest;
    lemma_key_roundtrip(tag, w, payload + rest);
    assert(b =~= key_bytes(tag, w) + (payload + rest));
    let n = key_bytes(tag, w).len();
    assert(b.skip(n as int) =~= payload + rest);
    assert((payload + rest).skip(payload.len() as int) =~= rest);
}

pub(crate) proof fn lemma_delimited_body(body: Seq<u8>, rest: Seq<u8>)
    requires
        body.len() <= u64::MAX,
    ensures
        bytes_merge(WireKind::LengthDelimited, delimited(body) + rest) == Some(
            (body, delimited(body).len()),
        ),
{
    let b = delimited(body) + rest;
    assert(b =~= crate::wire::varint_bytes(body.len()) + (body + rest));
    lemma_varint_roundtrip(body.len(), body + rest);
    let k = crate::wire::varint_bytes(body.len()).len();
    assert(b.subrange(k as int, (k + body.len()) as int) =~= body);
}

pub(crate) proof fn lemma_opt_string_field<M>(
    tag: nat,
    s: Seq<char>,
    rest: Seq<u8>,
    acc: M,
    next: M,
    step: spec_fn(M, u32, WireKind, Seq<u8>) -> Option<(M, nat)>,
)
    requires
        1 <= tag <= MAX_TAG,
        encode_utf8(s).len() <= u64::MAX,
        s.len() != 0 ==> step(acc, tag as u32, WireKind::LengthDelimited, delimited(encode_utf8(s)) + rest)
            == Some((next, delimited(encode_utf8(s)).len())),
        s.len() == 0 ==> next == acc,
    ensures
        fields_decode(opt_string_field(tag, s) + rest, acc, step) == fields_decode(rest, next, step),
{
    if s.len() != 0 {
        lemma_fields_field(tag, WireKind::LengthDelimited, delimited(encode_utf8(s)), rest, acc, next, step);
        assert(opt_string_field(tag, s) + rest =~= key_bytes(tag, WireKind::LengthDelimited) + delimited(
            encode_utf8(s),
        ) + rest);
    } else {
        assert(opt_string_field(tag, s) + rest =~= rest);
    }
}

/// A coin reads back from its own bytes as itself.
pub proof fn law_coin_roundtrip(c: Coin)
    requires
        encode_utf8(c.denom@).len() <= u64::MAX,
        encode_utf8(c.amount@).len() <= u64::MAX,
    ensures
        fields_decode(c.wire_bytes(), empty_coin(), coin_step()) == Some(c@),
{
    let mid = CoinView { denom: c.denom@, amount: Seq::empty() };
    let amount_bytes = opt_string_field(2, c.amount@);
    lemma_string_roundtrip(c.denom@, amount_bytes);
    if c.denom@.len() == 0 {
        assert(c.denom@ =~= Seq::<char>::empty());
    }
    lemma_opt_string_field(1, c.denom@, amount_bytes, empty_coin(), mid, coin_step());
    lemma_string_roundtrip(c.amount@, Seq::empty());
    assert(delimited(encode_utf8(c.amount@)) + Seq::<u8>::empty() =~= delimited(encode_utf8(c.amount@)));
    if c.amount@.len() == 0 {
        assert(c.amount@ =~= Seq::<char>::empty());
    }
    lemma_opt_string_field(2, c.amount@, Seq::empty(), mid, c@, coin_step());
    assert(amount_bytes + Seq::<u8>::empty() =~= amount_bytes);
    assert(c.wire_bytes() =~= opt_string_field(1, c.denom@) + amount_bytes);
}

/// A pool asset reads back from its own bytes as itself.
pub proof fn law_pool_asset_roundtrip(a: PoolAsset)
    requires
        a.token matches Some(c) ==> {
            &&& encode_utf8(c.denom@).len() <= u64::MAX
            &&& encode_utf8(c.amount@).len() <= u64::MAX
            &&& c.wire_bytes().len() <= u64::MAX
        },
        encode_utf8(a.weight@).len() <= u64::MAX,
    ensures
        fields_decode(a.wire_bytes(), empty_pool_asset(), pool_asset_step()) == Some(a@),
{
    let weight_bytes = opt_string_field(2, a.weight@);
    let mid = PoolAssetView { token: coin_opt_view(a.token), weight: Seq::empty() };
    match a.token {
        Some(c) => {
            let body = c.wire_bytes();
            law_coin_roundtrip(c);
            lemma_delimited_body(body, weight_bytes);
            lemma_fields_field(
                1,
                WireKind::LengthDelimited,
                delimited(body),
                weight_bytes,
                empty_pool_asset(),
                mid,
                pool_asset_step(),
            );
            assert(optional_field(1, a.token) + weight_bytes =~= key_bytes(1, WireKind::LengthDelimited)
                + delimited(body) + weight_bytes);
        },
        None => {
            assert(optional_field(1, a.token) + weight_bytes =~= weight_bytes);
        },
    }
    lemma_string_roundtrip(a.weight@, Seq::empty());
    assert(delimited(encode_utf8(a.weight@)) + Seq::<u8>::empty() =~= delimited(encode_utf8(a.weight@)));
    if a.weight@.len() == 0 {
        assert(a.weight@ =~= Seq::<char>::empty());
    }
    lemma_opt_string_field(2, a.weight@, Seq::empty(), mid, a@, pool_asset_step());
    assert(weight_bytes + Seq::<u8>::empty() =~= weight_bytes);
    assert(a.wire_bytes() =~= optional_field(1, a.token) + weight_bytes);
}

/// Whether an `Any`'s type URL and value are short enough for their lengths to be
/// written.
pub open spec fn any_encodable(a: Any) -> bool {
    &&& encode_utf8(a.type_url@).len() <= u64::MAX
    &&& a.value@.len() <= u64::MAX
}

/// An `Any` reads back from its own bytes as itself.
pub proof fn law_any_roundtrip(a: Any)
    requires
        any_encodable(a),
    ensures
        fields_decode(a.wire_bytes(), empty_any(), any_step()) == Some(a@),
{
    let step = any_step();
    let b2 = crate::wire::opt_bytes_field(2, a.value@);
    let v1 = AnyView { type_url: a.type_url@, value: Seq::empty() };
    lemma_string_roundtrip(a.type_url@, b2);
    if a.type_url@.len() == 0 {
        assert(a.type_url@ =~= Seq::<char>::empty());
    }
    lemma_opt_string_field(1, a.type_url@, b2, empty_any(), v1, step);
    if a.value@.len() != 0 {
        lemma_delimited_body(a.value@, Seq::empty());
        assert(delimited(a.value@) + Seq::<u8>::empty() =~= delimited(a.value@));
        lemma_fields_field(2, WireKind::LengthDelimited, delimited(a.value@), Seq::empty(), v1, a@, step);
        assert(b2 =~= key_bytes(2, WireKind::LengthDelimited) + delimited(a.value@) + Seq::<u8>::empty());
    } else {
        assert(a.value@ =~= Seq::<u8>::empty());
        assert(b2 =~= Seq::<u8>::empty());
    }
    assert(a.wire_bytes() =~= opt_string_field(1, a.type_url@) + b2);
}

/// Whether the reply's pool is short enough for its lengths to be written.
pub open spec fn pool_response_encodable(r: QueryPoolResponse) -> bool {
    r.pool matches Some(a) ==> any_encodable(a) && a.wire_bytes().len() <= u64::MAX
}

/// The reply to a pool query reads back from its own bytes as itself.
pub proof fn law_pool_response_roundtrip(r: QueryPoolResponse)
    requires
        pool_response_encodable(r),
    ensures
        fields_decode(r.wire_bytes(), None, pool_response_step()) == Some(any_opt_view(r.pool)),
{
    match r.pool {
        Some(a) => {
            let body = a.wire_bytes();
            law_any_roundtrip(a);
            lemma_delimited_body(body, Seq::empty());
            assert(delimited(body) + Seq::<u8>::empty() =~= delimited(body));
            lemma_fields_field(
                1,
                WireKind::LengthDelimited,
                delimited(body),
                Seq::empty(),
                None,
                Some(a@),
                pool_response_step(),
            );
            assert(r.wire_bytes() =~= key_bytes(1, WireKind::LengthDelimited) + delimited(body)
                + Seq::<u8>::empty());
        },
        None => {
            assert(r.wire_bytes() =~= Seq::<u8>::empty());
        },
    }
}

// ---------------------------------------------------------------------------
// The fields of the pool and its parts, each in its own role.
/// An embedded message field `tag` whose body is given, left out when absent.
pub open spec fn opt_body_field<V>(tag: nat, m: Option<(Seq<u8>, V)>) -> Seq<u8> {
    match m {
        Some((b, _)) => crate::wire::message_field(tag, b),
        None => Seq::empty(),
    }
}

/// What an optional embedded message reads as: its view where it is there.
pub open spec fn opt_body_view<V>(m: Option<(Seq<u8>, V)>) -> Option<V> {
    match m {
        Some((_, v)) => Some(v),
        None => None,
    }
}

pub(crate) proof fn lemma_opt_body_field<M, V>(
    tag: nat,
    m: Option<(Seq<u8>, V)>,
    rest: Seq<u8>,
    acc: M,
    next: M,
    step: spec_fn(M, u32, WireKind, Seq<u8>) -> Option<(M, nat)>,
)
    requires
        1 <= tag <= MAX_TAG,
        m matches Some((b, _)) ==> step(acc, tag as u32, WireKind::LengthDelimited, delimited(b) + rest)
            == Some((next, delimited(b).len())),
        m is None ==> next == acc,
    ensures
        fields_decode(opt_body_field(tag, m) + rest, acc, step) == fields_decode(rest, next, step),
{
    match m {
        Some((b, _)) => {
            lemma_fields_field(tag, WireKind::LengthDelimited, delimited(b), rest, acc, next, step);
            assert(opt_body_field(tag, m) + rest =~= key_bytes(tag, WireKind::LengthDelimited)
                + delimited(b) + rest);
        },
        None => {
            assert(opt_body_field(tag, m) + rest =~= rest);
        },
    }
}

/// Whether an optional embedded body is short enough to be written and reads, from
/// `empty` by `step`, as its view.
pub open spec fn body_reads_as<V>(
    m: Option<(Seq<u8>, V)>,
    empty: V,
    step: spec_fn(V, u32, WireKind, Seq<u8>) -> Option<(V, nat)>,
) -> bool {
    m matches Some((b, v)) ==> b.len() <= u64::MAX && fields_decode(b, empty, step) == Some(v)
}

/// Pool parameters read the swap fee from string field 1, the exit fee from string
/// field 2 and the smooth weight change parameters from embedded message 3.
pub proof fn law_pool_params_fields(
    swap_fee: Seq<char>,
    exit_fee: Seq<char>,
    smooth: Option<(Seq<u8>, SmoothWeightChangeParamsView)>,
)
    requires
        encode_utf8(swap_fee).len() <= u64::MAX,
        encode_utf8(exit_fee).len() <= u64::MAX,
        body_reads_as(smooth, empty_smooth(), smooth_step()),
    ensures
        fields_decode(
            opt_string_field(1, swap_fee) + opt_string_field(2, exit_fee) + opt_body_field(3, smooth),
            empty_pool_params(),
            pool_params_step(),
        ) == Some(
            PoolParamsView {
                swap_fee,
                exit_fee,
                smooth_weight_change_params: opt_body_view(smooth),
            },
        ),
{
    let step = pool_params_step();
    let b3 = opt_body_field(3, smooth);
    let b2 = opt_string_field(2, exit_fee) + b3;
    let v1 = PoolParamsView { swap_fee, ..empty_pool_params() };
    let v2 = PoolParamsView { exit_fee, ..v1 };
    let v3 = PoolParamsView { smooth_weight_change_params: opt_body_view(smooth), ..v2 };
    lemma_string_roundtrip(swap_fee, b2);
    if swap_fee.len() == 0 {
        assert(swap_fee =~= Seq::<char>::empty());
    }
    lemma_opt_string_field(1, swap_fee, b2, empty_pool_params(), v1, step);
    lemma_string_roundtrip(exit_fee, b3);
    if exit_fee.len() == 0 {
        assert(exit_fee =~= Seq::<char>::empty());
    }
    lemma_opt_string_field(2, exit_fee, b3, v1, v2, step);
    if let Some((b, _)) = smooth {
        lemma_delimited_body(b, Seq::empty());
    }
    lemma_opt_body_field(3, smooth, Seq::empty(), v2, v3, step);
    assert(b3 + Seq::<u8>::empty() =~= b3);
    assert(opt_string_field(1, swap_fee) + opt_string_field(2, exit_fee) + b3 =~= opt_string_field(
        1,
        swap_fee,
    ) + b2);
}

/// A timestamp reads its seconds from field 1 and its nanoseconds from field 2.
pub proof fn law_timestamp_fields(seconds: u64, nanos: u64)
    requires
        seconds <= i64::MAX,
        nanos <= i32::MAX,
    ensures
        fields_decode(
            crate::wire::opt_uint64_field(1, seconds) + crate::wire::opt_uint64_field(2, nanos),
            Timestamp { seconds: 0, nanos: 0 },
            timestamp_step(),
        ) == Some(Timestamp { seconds: seconds as i64, nanos: nanos as i32 }),
{
    let step = timestamp_step();
    let b2 = crate::wire::opt_uint64_field(2, nanos);
    let v1 = Timestamp { seconds: seconds as i64, nanos: 0 };
    let v2 = Timestamp { seconds: seconds as i64, nanos: nanos as i32 };
    lemma_varint_roundtrip(seconds as nat, b2);
    crate::msg_read::lemma_opt_uint64_field(1, seconds, b2, Timestamp { seconds: 0, nanos: 0 }, v1, step);
    lemma_varint_roundtrip(nanos as nat, Seq::empty());
    assert(crate::wire::varint_bytes(nanos as nat) + Seq::<u8>::empty() =~= crate::wire::varint_bytes(
        nanos as nat,
    ));
    crate::msg_read::lemma_opt_uint64_field(2, nanos, Seq::empty(), v1, v2, step);
    assert(b2 + Seq::<u8>::empty() =~= b2);
}

/// A duration reads its seconds from field 1 and its nanoseconds from field 2.
pub proof fn law_duration_fields(seconds: u64, nanos: u64)
    requires
        seconds <= i64::MAX,
        nanos <= i32::MAX,
    ensures
        fields_decode(
            crate::wire::opt_uint64_field(1, seconds) + crate::wire::opt_uint64_field(2, nanos),
            Duration { seconds: 0, nanos: 0 },
            duration_step(),
        ) == Some(Duration { seconds: seconds as i64, nanos: nanos as i32 }),
{
    let step = duration_step();
    let b2 = crate::wire::opt_uint64_field(2, nanos);
    let v1 = Duration { seconds: seconds as i64, nanos: 0 };
    let v2 = Duration { seconds: seconds as i64, nanos: nanos as i32 };
    lemma_varint_roundtrip(seconds as nat, b2);
    crate::msg_read::lemma_opt_uint64_field(1, seconds, b2, Duration { seconds: 0, nanos: 0 }, v1, step);
    lemma_varint_roundtrip(nanos as nat, Seq::empty());
    assert(crate::wire::varint_bytes(nanos as nat) + Seq::<u8>::empty() =~= crate::wire::varint_bytes(
        nanos as nat,
    ));
    crate::msg_read::lemma_opt_uint64_field(2, nanos, Seq::empty(), v1, v2, step);
    assert(b2 + Seq::<u8>::empty() =~= b2);
}

proof fn lemma_smooth_start_field(m: Option<(Seq<u8>, Timestamp)>, rest: Seq<u8>, acc: SmoothWeightChangeParamsView)
    requires
        acc.start_time is None,
        body_reads_as(m, Timestamp { seconds: 0, nanos: 0 }, timestamp_step()),
    ensures
        fields_decode(opt_body_field(1, m) + rest, acc, smooth_step()) == fields_decode(
            rest,
            SmoothWeightChangeParamsView { start_time: opt_body_view(m), ..acc },
            smooth_step(),
        ),
{
    if let Some((b, _)) = m {
        lemma_delimited_body(b, rest);
    }
    lemma_opt_body_field(
        1,
        m,
        rest,
        acc,
        SmoothWeightChangeParamsView { start_time: opt_body_view(m), ..acc },
        smooth_step(),
    );
}

proof fn lemma_smooth_duration_field(m: Option<(Seq<u8>, Duration)>, rest: Seq<u8>, acc: SmoothWeightChangeParamsView)
    requires
        acc.duration is None,
        body_reads_as(m, Duration { seconds: 0, nanos: 0 }, duration_step()),
    ensures
        fields_decode(opt_body_field(2, m) + rest, acc, smooth_step()) == fields_decode(
            rest,
            SmoothWeightChangeParamsView { duration: opt_body_view(m), ..acc },
            smooth_step(),
        ),
{
    if let Some((b, _)) = m {
        lemma_delimited_body(b, rest);
    }
    lemma_opt_body_field(
        2,
        m,
        rest,
        acc,
        SmoothWeightChangeParamsView { duration: opt_body_view(m), ..acc },
        smooth_step(),
    );
}

proof fn lemma_smooth_initial_field(m: Option<(Seq<u8>, PoolAssetView)>, rest: Seq<u8>, acc: SmoothWeightChangeParamsView)
    requires
        acc.initial_pool_weights is None,
        body_reads_as(m, empty_pool_asset(), pool_asset_step()),
    ensures
        fields_decode(opt_body_field(3, m) + rest, acc, smooth_step()) == fields_decode(
            rest,
            SmoothWeightChangeParamsView { initial_pool_weights: opt_body_view(m), ..acc },
            smooth_step(),
        ),
{
    if let Some((b, _)) = m {
        lemma_delimited_body(b, rest);
    }
    lemma_opt_body_field(
        3,
        m,
        rest,
        acc,
        SmoothWeightChangeParamsView { initial_pool_weights: opt_body_view(m), ..acc },
        smooth_step(),
    );
}

proof fn lemma_smooth_target_field(m: Option<(Seq<u8>, PoolAssetView)>, rest: Seq<u8>, acc: SmoothWeightChangeParamsView)
    requires
        acc.target_pool_weights is None,
        body_reads_as(m, empty_pool_asset(), pool_asset_step()),
    ensures
        fields_decode(opt_body_field(4, m) + rest, acc, smooth_step()) == fields_decode(
            rest,
            SmoothWeightChangeParamsView { target_pool_weights: opt_body_view(m), ..acc },
            smooth_step(),
        ),
{
    if let Some((b, _)) = m {
        lemma_delimited_body(b, rest);
    }
    lemma_opt_body_field(
        4,
        m,
        rest,
        acc,
        SmoothWeightChangeParamsView { target_pool_weights: opt_body_view(m), ..acc },
        smooth_step(),
    );
}

/// Smooth weight change parameters read the start time from embedded message 1, the
/// duration from 2, the initial weights from 3 and the target weights from 4.
#[verifier::spinoff_prover]
pub proof fn law_smooth_fields(
    start_time: Option<(Seq<u8>, Timestamp)>,
    duration: Option<(Seq<u8>, Duration)>,
    initial: Option<(Seq<u8>, PoolAssetView)>,
    target: Option<(Seq<u8>, PoolAssetView)>,
)
    requires
        body_reads_as(start_time, Timestamp { seconds: 0, nanos: 0 }, timestamp_step()),
        body_reads_as(duration, Duration { seconds: 0, nanos: 0 }, duration_step()),
        body_reads_as(initial, empty_pool_asset(), pool_asset_step()),
        body_reads_as(target, empty_pool_asset(), pool_asset_step()),
    ensures
        fields_decode(
            opt_body_field(1, start_time) + opt_body_field(2, duration) + opt_body_field(3, initial)
                + opt_body_field(4, target),
            empty_smooth(),
            smooth_step(),
        ) == Some(
            SmoothWeightChangeParamsView {
                start_time: opt_body_view(start_time),
                duration: opt_body_view(duration),
                initial_pool_weights: opt_body_view(initial),
                target_pool_weights: opt_body_view(target),
            },
        ),
{
    let b4 = opt_body_field(4, target);
    let b3 = opt_body_field(3, initial) + b4;
    let b2 = opt_body_field(2, duration) + b3;
    let v1 = SmoothWeightChangeParamsView { start_time: opt_body_view(start_time), ..empty_smooth() };
    let v2 = SmoothWeightChangeParamsView { duration: opt_body_view(duration), ..v1 };
    let v3 = SmoothWeightChangeParamsView { initial_pool_weights: opt_body_view(initial), ..v2 };
    let v4 = SmoothWeightChangeParamsView { target_pool_weights: opt_body_view(target), ..v3 };
    let step = smooth_step();
    let all = opt_body_field(1, start_time) + opt_body_field(2, duration) + opt_body_field(3, initial)
        + b4;
    assert(all =~= opt_body_field(1, start_time) + b2);
    assert(b4 =~= b4 + Seq::<u8>::empty());
    let d0 = fields_decode(opt_body_field(1, start_time) + b2, empty_smooth(), step);
    let d1 = fields_decode(b2, v1, step);
    let d2 = fields_decode(b3, v2, step);
    let d3 = fields_decode(b4, v3, step);
    assert(d0 == d1) by {
        lemma_smooth_start_field(start_time, b2, empty_smooth());
    }
    assert(d1 == d2) by {
        lemma_smooth_duration_field(duration, b3, v1);
    }
    assert(d2 == d3) by {
        lemma_smooth_initial_field(initial, b4, v2);
    }
    assert(d3 == Some(v4)) by {
        lemma_smooth_target_field(target, Seq::empty(), v3);
        assert(fields_decode(Seq::<u8>::empty(), v4, step) == Some(v4));
    }
}

/// Whether a pool asset's texts, coin and own bytes are short enough for their
/// lengths to be written.
pub open spec fn pool_asset_encodable(a: PoolAsset) -> bool {
    &&& a.token matches Some(c) ==> crate::msg_read::coin_encodable(c)
    &&& encode_utf8(a.weight@).len() <= u64::MAX
    &&& a.wire_bytes().len() <= u64::MAX
}

/// Adds one asset read from field 6 to a pool.
pub open spec fn pool_asset_push() -> spec_fn(PoolView, PoolAssetView) -> PoolView {
    |m: PoolView, a: PoolAssetView| PoolView { pool_assets: m.pool_assets.push(a), ..m }
}

proof fn lemma_pool_push_all(acc: PoolView, items: Seq<PoolAsset>)
    ensures
        crate::msg_read::push_all(acc, items, pool_asset_push()) == (PoolView {
            pool_assets: acc.pool_assets + pool_assets_view(items),
            ..acc
        }),
    decreases items.len(),
{
    if items.len() == 0 {
        assert(acc.pool_assets + pool_assets_view(items) =~= acc.pool_assets);
    } else {
        lemma_pool_push_all(acc, items.drop_last());
        assert(pool_assets_view(items) =~= pool_assets_view(items.drop_last()).push(items.last()@));
        assert(acc.pool_assets + pool_assets_view(items) =~= (acc.pool_assets + pool_assets_view(
            items.drop_last(),
        )).push(items.last()@));
    }
}

proof fn lemma_pool_assets_field(items: Seq<PoolAsset>, rest: Seq<u8>, acc: PoolView)
    requires
        forall|i: int| 0 <= i < items.len() ==> pool_asset_encodable(#[trigger] items[i]),
    ensures
        fields_decode(crate::proto::repeated_field(6, items) + rest, acc, pool_step()) == fields_decode(
            rest,
            PoolView { pool_assets: acc.pool_assets + pool_assets_view(items), ..acc },
            pool_step(),
        ),
{
    let step = pool_step();
    assert forall|m: PoolView, r: Seq<u8>, i: int| 0 <= i < items.len() implies #[trigger] step(
        m,
        6u32,
        WireKind::LengthDelimited,
        delimited(items[i].wire_bytes()) + r,
    ) == Some((pool_asset_push()(m, items[i]@), delimited(items[i].wire_bytes()).len())) by {
        assert(pool_asset_encodable(items[i]));
        lemma_delimited_body(items[i].wire_bytes(), r);
        law_pool_asset_roundtrip(items[i]);
    }
    crate::msg_read::lemma_repeated_field(6, items, rest, acc, step, pool_asset_push());
    lemma_pool_push_all(acc, items);
}

proof fn lemma_pool_params_field(m: Option<(Seq<u8>, PoolParamsView)>, rest: Seq<u8>, acc: PoolView)
    requires
        acc.pool_params is None,
        body_reads_as(m, empty_pool_params(), pool_params_step()),
    ensures
        fields_decode(opt_body_field(3, m) + rest, acc, pool_step()) == fields_decode(
            rest,
            PoolView { pool_params: opt_body_view(m), ..acc },
            pool_step(),
        ),
{
    if let Some((b, _)) = m {
        lemma_delimited_body(b, rest);
    }
    lemma_opt_body_field(3, m, rest, acc, PoolView { pool_params: opt_body_view(m), ..acc }, pool_step());
}

proof fn lemma_pool_shares_field(m: Option<(Seq<u8>, CoinView)>, rest: Seq<u8>, acc: PoolView)
    requires
        acc.total_shares is None,
        body_reads_as(m, empty_coin(), coin_step()),
    ensures
        fields_decode(opt_body_field(5, m) + rest, acc, pool_step()) == fields_decode(
            rest,
            PoolView { total_shares: opt_body_view(m), ..acc },
            pool_step(),
        ),
{
    if let Some((b, _)) = m {
        lemma_delimited_body(b, rest);
    }
    lemma_opt_body_field(5, m, rest, acc, PoolView { total_shares: opt_body_view(m), ..acc }, pool_step());
}

proof fn lemma_pool_id_field(id: u64, rest: Seq<u8>, acc: PoolView)
    requires
        acc.id == 0,
    ensures
        fields_decode(crate::wire::opt_uint64_field(2, id) + rest, acc, pool_step()) == fields_decode(
            rest,
            PoolView { id, ..acc },
            pool_step(),
        ),
{
    lemma_varint_roundtrip(id as nat, rest);
    crate::msg_read::lemma_opt_uint64_field(2, id, rest, acc, PoolView { id, ..acc }, pool_step());
}

proof fn lemma_pool_address_field(s: Seq<char>, rest: Seq<u8>, acc: PoolView)
    requires
        acc.address == Seq::<char>::empty(),
        encode_utf8(s).len() <= u64::MAX,
    ensures
        fields_decode(opt_string_field(1, s) + rest, acc, pool_step()) == fields_decode(
            rest,
            PoolView { address: s, ..acc },
            pool_step(),
        ),
{
    lemma_string_roundtrip(s, rest);
    if s.len() == 0 {
        assert(s =~= Seq::<char>::empty());
    }
    lemma_opt_string_field(1, s, rest, acc, PoolView { address: s, ..acc }, pool_step());
}

proof fn lemma_pool_future_pool_governor_field(s: Seq<char>, rest: Seq<u8>, acc: PoolView)
    requires
        acc.future_pool_governor == Seq::<char>::empty(),
        encode_utf8(s).len() <= u64::MAX,
    ensures
        fields_decode(opt_string_field(4, s) + rest, acc, pool_step()) == fields_decode(
            rest,
            PoolView { future_pool_governor: s, ..acc },
            pool_step(),
        ),
{
    lemma_string_roundtrip(s, rest);
    if s.len() == 0 {
        assert(s =~= Seq::<char>::empty());
    }
    lemma_opt_string_field(4, s, rest, acc, PoolView { future_pool_governor: s, ..acc }, pool_step());
}

proof fn lemma_pool_total_weight_field(s: Seq<char>, rest: Seq<u8>, acc: PoolView)
    requires
        acc.total_weight == Seq::<char>::empty(),
        encode_utf8(s).len() <= u64::MAX,
    ensures
        fields_decode(opt_string_field(7, s) + rest, acc, pool_step()) == fields_decode(
            rest,
            PoolView { total_weight: s, ..acc },
            pool_step(),
        ),
{
    lemma_string_roundtrip(s, rest);
    if s.len() == 0 {
        assert(s =~= Seq::<char>::empty());
    }
    lemma_opt_string_field(7, s, rest, acc, PoolView { total_weight: s, ..acc }, pool_step());
}

proof fn lemma_seven_parts(
    a: Seq<u8>,
    b: Seq<u8>,
    c: Seq<u8>,
    d: Seq<u8>,
    e: Seq<u8>,
    f: Seq<u8>,
    g: Seq<u8>,
)
    ensures
        a + b + c + d + e + f + g == a + (b + (c + (d + (e + (f + g))))),
{
    assert(a + b + c + d + e + f + g =~= a + (b + (c + (d + (e + (f + g))))));
}

/// The last four fields of a pool, from an accumulator where they are still unset.
#[verifier::spinoff_prover]
proof fn lemma_pool_tail_fields(
    governor: Seq<char>,
    shares: Option<(Seq<u8>, CoinView)>,
    assets: Seq<PoolAsset>,
    total_weight: Seq<char>,
    acc: PoolView,
)
    requires
        acc.future_pool_governor == Seq::<char>::empty(),
        acc.total_shares is None,
        acc.pool_assets == Seq::<PoolAssetView>::empty(),
        acc.total_weight == Seq::<char>::empty(),
        encode_utf8(governor).len() <= u64::MAX,
        body_reads_as(shares, empty_coin(), coin_step()),
        forall|i: int| 0 <= i < assets.len() ==> pool_asset_encodable(#[trigger] assets[i]),
        encode_utf8(total_weight).len() <= u64::MAX,
    ensures
        fields_decode(
            opt_string_field(4, governor) + (opt_body_field(5, shares) + (crate::proto::repeated_field(
                6,
                assets,
            ) + opt_string_field(7, total_weight))),
            acc,
            pool_step(),
        ) == Some(
            PoolView {
                future_pool_governor: governor,
                total_shares: opt_body_view(shares),
                pool_assets: pool_assets_view(assets),
                total_weight,
                ..acc
            },
        ),
{
    let step = pool_step();
    let b7 = opt_string_field(7, total_weight);
    let b6 = crate::proto::repeated_field(6, assets) + b7;
    let b5 = opt_body_field(5, shares) + b6;
    let v4 = PoolView { future_pool_governor: governor, ..acc };
    let v5 = PoolView { total_shares: opt_body_view(shares), ..v4 };
    let v6 = PoolView { pool_assets: v5.pool_assets + pool_assets_view(assets), ..v5 };
    let v7 = PoolView { total_weight, ..v6 };
    assert(fields_decode(opt_string_field(4, governor) + b5, acc, step) == fields_decode(b5, v4, step))
        by {
        lemma_pool_future_pool_governor_field(governor, b5, acc);
    }
    assert(fields_decode(b5, v4, step) == fields_decode(b6, v5, step)) by {
        lemma_pool_shares_field(shares, b6, v4);
    }
    assert(fields_decode(b6, v5, step) == fields_decode(b7, v6, step)) by {
        lemma_pool_assets_field(assets, b7, v5);
    }
    assert(fields_decode(b7, v6, step) == Some(v7)) by {
        lemma_pool_total_weight_field(total_weight, Seq::empty(), v6);
        assert(b7 + Seq::<u8>::empty() =~= b7);
        assert(fields_decode(Seq::<u8>::empty(), v7, step) == Some(v7));
    }
    assert(v5.pool_assets + pool_assets_view(assets) =~= pool_assets_view(assets));
}

/// A balancer pool reads its address from string field 1, its id from `uint64` field 2,
/// its parameters from embedded message 3, its governor from string field 4, its total
/// shares from embedded coin 5, one asset from each embedded message 6 in their order,
/// and its total weight from string field 7.
#[verifier::spinoff_prover]
pub proof fn law_pool_fields(
    address: Seq<char>,
    id: u64,
    params: Option<(Seq<u8>, PoolParamsView)>,
    governor: Seq<char>,
    shares: Option<(Seq<u8>, CoinView)>,
    assets: Seq<PoolAsset>,
    total_weight: Seq<char>,
)
    requires
        encode_utf8(address).len() <= u64::MAX,
        body_reads_as(params, empty_pool_params(), pool_params_step()),
        encode_utf8(governor).len() <= u64::MAX,
        body_reads_as(shares, empty_coin(), coin_step()),
        forall|i: int| 0 <= i < assets.len() ==> pool_asset_encodable(#[trigger] assets[i]),
        encode_utf8(total_weight).len() <= u64::MAX,
    ensures
        fields_decode(
            opt_string_field(1, address) + crate::wire::opt_uint64_field(2, id) + opt_body_field(3, params)
                + opt_string_field(4, governor) + opt_body_field(5, shares)
                + crate::proto::repeated_field(6, assets) + opt_string_field(7, total_weight),
            empty_pool(),
            pool_step(),
        ) == Some(
            PoolView {
                address,
                id,
                pool_params: opt_body_view(params),
                future_pool_governor: governor,
                total_shares: opt_body_view(shares),
                pool_assets: pool_assets_view(assets),
                total_weight,
            },
        ),
{
    let step = pool_step();
    let b4 = opt_string_field(4, governor) + (opt_body_field(5, shares) + (crate::proto::repeated_field(
        6,
        assets,
    ) + opt_string_field(7, total_weight)));
    let b3 = opt_body_field(3, params) + b4;
    let b2 = crate::wire::opt_uint64_field(2, id) + b3;
    let v1 = PoolView { address, ..empty_pool() };
    let v2 = PoolView { id, ..v1 };
    let v3 = PoolView { pool_params: opt_body_view(params), ..v2 };
    lemma_seven_parts(
        opt_string_field(1, address),
        crate::wire::opt_uint64_field(2, id),
        opt_body_field(3, params),
        opt_string_field(4, governor),
        opt_body_field(5, shares),
        crate::proto::repeated_field(6, assets),
        opt_string_field(7, total_weight),
    );
    assert(fields_decode(opt_string_field(1, address) + b2, empty_pool(), step) == fields_decode(
        b2,
        v1,
        step,
    )) by {
        lemma_pool_address_field(address, b2, empty_pool());
    }
    assert(fields_decode(b2, v1, step) == fields_decode(b3, v2, step)) by {
        lemma_pool_id_field(id, b3, v1);
    }
    assert(fields_decode(b3, v2, step) == fields_decode(b4, v3, step)) by {
        lemma_pool_params_field(params, b4, v2);
    }
    lemma_pool_tail_fields(governor, shares, assets, total_weight, v3);
}

/// A coin reads its denomination from string field 1 and its amount from string
/// field 2.
pub proof fn law_coin_fields(denom: Seq<char>, amount: Seq<char>)
    requires
        encode_utf8(denom).len() <= u64::MAX,
        encode_utf8(amount).len() <= u64::MAX,
    ensures
        fields_decode(opt_string_field(1, denom) + opt_string_field(2, amount), empty_coin(), coin_step())
            == Some(CoinView { denom, amount }),
{
    let step = coin_step();
    let b2 = opt_string_field(2, amount);
    let v1 = CoinView { denom, amount: Seq::empty() };
    let v2 = CoinView { denom, amount };
    lemma_string_roundtrip(denom, b2);
    if denom.len() == 0 {
        assert(denom =~= Seq::<char>::empty());
    }
    lemma_opt_string_field(1, denom, b2, empty_coin(), v1, step);
    lemma_string_roundtrip(amount, Seq::empty());
    assert(delimited(encode_utf8(amount)) + Seq::<u8>::empty() =~= delimited(encode_utf8(amount)));
    if amount.len() == 0 {
        assert(amount =~= Seq::<char>::empty());
    }
    lemma_opt_string_field(2, amount, Seq::empty(), v1, v2, step);
    assert(b2 + Seq::<u8>::empty() =~= b2);
}

/// A pool asset reads its token from embedded coin 1 and its weight from string
/// field 2.
pub proof fn law_pool_asset_fields(token: Option<(Seq<u8>, CoinView)>, weight: Seq<char>)
    requires
        body_reads_as(token, empty_coin(), coin_step()),
        encode_utf8(weight).len() <= u64::MAX,
    ensures
        fields_decode(opt_body_field(1, token) + opt_string_field(2, weight), empty_pool_asset(), pool_asset_step())
            == Some(PoolAssetView { token: opt_body_view(token), weight }),
{
    let step = pool_asset_step();
    let b2 = opt_string_field(2, weight);
    let v1 = PoolAssetView { token: opt_body_view(token), weight: Seq::empty() };
    let v2 = PoolAssetView { token: opt_body_view(token), weight };
    if let Some((b, _)) = token {
        lemma_delimited_body(b, b2);
    }
    lemma_opt_body_field(1, token, b2, empty_pool_asset(), v1, step);
    lemma_string_roundtrip(weight, Seq::empty());
    assert(delimited(encode_utf8(weight)) + Seq::<u8>::empty() =~= delimited(encode_utf8(weight)));
    if weight.len() == 0 {
        assert(weight =~= Seq::<char>::empty());
    }
    lemma_opt_string_field(2, weight, Seq::empty(), v1, v2, step);
    assert(b2 + Seq::<u8>::empty() =~= b2);
}

} // verus!
