//! The Protobuf wire format: varints, field keys, and the scalar field codecs of
//! `prost::encoding` that the messages of this crate are built from.
use vstd::prelude::*;
use vstd::utf8::*;
use prost::encoding::WireType as PW;

verus! {

broadcast use vstd::utf8::encode_utf8_decode_utf8, vstd::utf8::encode_utf8_valid_utf8;

/// The largest field number Protobuf allows.
pub const MAX_TAG: u32 = 536870911;

/// The six wire types of a field key.
#[derive(Clone, Copy, Debug, PartialEq, Eq, Structural)]
pub enum WireKind {
    Varint,
    SixtyFourBit,
    LengthDelimited,
    StartGroup,
    EndGroup,
    ThirtyTwoBit,
}

/// The code of a wire type in the low three bits of a key.
pub open spec fn wire_code(w: WireKind) -> nat {
    match w {
        WireKind::Varint => 0,
        WireKind::SixtyFourBit => 1,
        WireKind::LengthDelimited => 2,
        WireKind::StartGroup => 3,
        WireKind::EndGroup => 4,
        WireKind::ThirtyTwoBit => 5,
    }
}

/// The wire type of a code; meaningful for codes 0 to 5.
pub open spec fn wire_of_code(c: int) -> WireKind {
    if c == 0 {
        WireKind::Varint
    } else if c == 1 {
        WireKind::SixtyFourBit
    } else if c == 2 {
        WireKind::LengthDelimited
    } else if c == 3 {
        WireKind::StartGroup
    } else if c == 4 {
        WireKind::EndGroup
    } else {
        WireKind::ThirtyTwoBit
    }
}

/// LEB128: seven bits per byte, least significant group first, the high bit set on
/// every byte but the last.
pub open spec fn varint_bytes(v: nat) -> Seq<u8>
    decreases v,
{
    if v < 128 {
        seq![v as u8]
    } else {
        seq![(v % 128 + 128) as u8] + varint_bytes(v / 128)
    }
}

/// Reads a varint of at most `budget` bytes from the front of `b`: its value and
/// the number of bytes it takes. On the last allowed byte only 0 and 1 are accepted,
/// so that a ten-byte varint stays below 2^64.
pub open spec fn varint_dec(b: Seq<u8>, budget: nat) -> Option<(int, nat)>
    decreases budget,
{
    if budget == 0 || b.len() == 0 {
        None
    } else if b[0] < 128 {
        if budget == 1 && b[0] >= 2 {
            None
        } else {
            Some((b[0] as int, 1))
        }
    } else {
        match varint_dec(b.drop_first(), (budget - 1) as nat) {
            Some((v, n)) => Some(((b[0] - 128) + 128 * v, n + 1)),
            None => None,
        }
    }
}

/// A varint of at most ten bytes at the front of `b`.
pub open spec fn varint_decode(b: Seq<u8>) -> Option<(int, nat)> {
    varint_dec(b, 10)
}

/// The bytes of a field key.
pub open spec fn key_bytes(tag: nat, w: WireKind) -> Seq<u8> {
    varint_bytes(tag * 8 + wire_code(w))
}

/// A field key at the front of `b`: its tag, its wire type and its length.
pub open spec fn key_decode(b: Seq<u8>) -> Option<(u32, WireKind, nat)> {
    match varint_decode(b) {
        Some((k, n)) => if k > u32::MAX || k % 8 > 5 || k / 8 < 1 {
            None
        } else {
            Some(((k / 8) as u32, wire_of_code(k % 8), n))
        },
        None => None,
    }
}

/// A length-delimited payload: its length as a varint, then its bytes.
pub open spec fn delimited(body: Seq<u8>) -> Seq<u8> {
    varint_bytes(body.len()) + body
}

/// A string field: key, length, UTF-8 bytes.
pub open spec fn string_field(tag: nat, s: Seq<char>) -> Seq<u8> {
    key_bytes(tag, WireKind::LengthDelimited) + delimited(encode_utf8(s))
}

/// A string field that is left out when the string is empty, as proto3 does.
pub open spec fn opt_string_field(tag: nat, s: Seq<char>) -> Seq<u8> {
    if s.len() == 0 {
        Seq::empty()
    } else {
        string_field(tag, s)
    }
}

/// A `uint64` field: key, then the value as a varint.
pub open spec fn uint64_field(tag: nat, v: u64) -> Seq<u8> {
    key_bytes(tag, WireKind::Varint) + varint_bytes(v as nat)
}

/// A `uint64` field that is left out when the value is zero.
pub open spec fn opt_uint64_field(tag: nat, v: u64) -> Seq<u8> {
    if v == 0 {
        Seq::empty()
    } else {
        uint64_field(tag, v)
    }
}

/// A `bool` field: key, then 1 or 0 as a varint.
pub open spec fn bool_field(tag: nat, b: bool) -> Seq<u8> {
    key_bytes(tag, WireKind::Varint) + varint_bytes(if b { 1 } else { 0 })
}

/// A `bool` field that is left out when it is false.
pub open spec fn opt_bool_field(tag: nat, b: bool) -> Seq<u8> {
    if b {
        bool_field(tag, b)
    } else {
        Seq::empty()
    }
}

/// An embedded message field: key, then the message's bytes length-delimited.
pub open spec fn message_field(tag: nat, body: Seq<u8>) -> Seq<u8> {
    key_bytes(tag, WireKind::LengthDelimited) + delimited(body)
}

/// A `bytes` field: key, length, the bytes.
pub open spec fn bytes_field(tag: nat, v: Seq<u8>) -> Seq<u8> {
    key_bytes(tag, WireKind::LengthDelimited) + delimited(v)
}

/// A `bytes` field that is left out when there are no bytes.
pub open spec fn opt_bytes_field(tag: nat, v: Seq<u8>) -> Seq<u8> {
    if v.len() == 0 {
        Seq::empty()
    } else {
        bytes_field(tag, v)
    }
}

/// What `prost::encoding::string::merge` reads at the front of `b` for a field of
/// wire type `w`: the string and the number of bytes it takes.
pub open spec fn string_merge(w: WireKind, b: Seq<u8>) -> Option<(Seq<char>, nat)> {
    if w != WireKind::LengthDelimited {
        None
    } else {
        match varint_decode(b) {
            Some((len, k)) => if len > b.len() - k {
                None
            } else if !valid_utf8(b.subrange(k as int, k + len)) {
                None
            } else {
                Some((decode_utf8(b.subrange(k as int, k + len)), (k + len) as nat))
            },
            None => None,
        }
    }
}

/// What `prost::encoding::uint64::merge` reads at the front of `b` for a field of
/// wire type `w`: the value and the number of bytes it takes.
pub open spec fn uint64_merge(w: WireKind, b: Seq<u8>) -> Option<(u64, nat)> {
    if w != WireKind::Varint {
        None
    } else {
        match varint_decode(b) {
            Some((v, n)) => Some((v as u64, n)),
            None => None,
        }
    }
}

/// What `prost::encoding::bytes::merge` reads at the front of `b` for a field of
/// wire type `w`: the bytes and the number of bytes the field's payload takes.
pub open spec fn bytes_merge(w: WireKind, b: Seq<u8>) -> Option<(Seq<u8>, nat)> {
    if w != WireKind::LengthDelimited {
        None
    } else {
        match varint_decode(b) {
            Some((len, k)) => if len > b.len() - k {
                None
            } else {
                Some((b.subrange(k as int, k + len), (k + len) as nat))
            },
            None => None,
        }
    }
}

/// What `prost::encoding::bool::merge` reads at the front of `b` for a field of
/// wire type `w`: whether the varint is not zero, and its length.
pub open spec fn bool_merge(w: WireKind, b: Seq<u8>) -> Option<(bool, nat)> {
    if w != WireKind::Varint {
        None
    } else {
        match varint_decode(b) {
            Some((v, n)) => Some((v != 0, n)),
            None => None,
        }
    }
}

/// What `prost::encoding::int64::merge` reads at the front of `b` for a field of
/// wire type `w`: the varint taken as an `i64`, and its length.
pub open spec fn int64_merge(w: WireKind, b: Seq<u8>) -> Option<(i64, nat)> {
    if w != WireKind::Varint {
        None
    } else {
        match varint_decode(b) {
            Some((v, n)) => Some((v as i64, n)),
            None => None,
        }
    }
}

/// What `prost::encoding::int32::merge` reads at the front of `b` for a field of
/// wire type `w`: the varint cut down to an `i32`, and its length.
pub open spec fn int32_merge(w: WireKind, b: Seq<u8>) -> Option<(i32, nat)> {
    if w != WireKind::Varint {
        None
    } else {
        match varint_decode(b) {
            Some((v, n)) => Some((v as i32, n)),
            None => None,
        }
    }
}

/// The number of bytes that `prost::encoding::skip_field` passes over at the front of
/// `rest` for a field of wire type `w` other than a group: a varint, four or eight
/// bytes, or a length-delimited payload; `None` where they are not there.
pub open spec fn plain_skip_len(w: WireKind, rest: Seq<u8>) -> Option<nat> {
    match w {
        WireKind::Varint => match varint_decode(rest) {
            Some((_, n)) => Some(n),
            None => None,
        },
        WireKind::ThirtyTwoBit => if rest.len() >= 4 {
            Some(4)
        } else {
            None
        },
        WireKind::SixtyFourBit => if rest.len() >= 8 {
            Some(8)
        } else {
            None
        },
        WireKind::LengthDelimited => match bytes_merge(w, rest) {
            Some((_, n)) => Some(n),
            None => None,
        },
        _ => None,
    }
}

/// The number of bytes that `prost::encoding::skip_field` passes over at the front of
/// `rest` for an unknown field of wire type `w` and number `tag`, or `None` where it
/// fails.
pub uninterp spec fn skipped_len(w: WireKind, tag: u32, rest: Seq<u8>) -> Option<nat>;

// ---------------------------------------------------------------------------
// Trusted calls into `prost::encoding`.
#[verifier::external_type_specification]
#[verifier::external_body]
pub struct ExDecodeError(prost::DecodeError);

/// Calls `prost::encoding::encode_varint`, which appends `value` in LEB128 form.
#[verifier::external_body]
pub(crate) fn put_varint(value: u64, buf: &mut Vec<u8>)
    ensures
        final(buf)@ == old(buf)@ + varint_bytes(value as nat),
{
    prost::encoding::encode_varint(value, buf);
}

/// Calls `prost::encoding::encode_key` for a length-delimited field: it appends
/// `tag * 8 + 2` as a varint.
#[verifier::external_body]
pub(crate) fn put_length_delimited_key(tag: u32, buf: &mut Vec<u8>)
    requires
        1 <= tag <= MAX_TAG,
    ensures
        final(buf)@ == old(buf)@ + key_bytes(tag as nat, WireKind::LengthDelimited),
{
    prost::encoding::encode_key(tag, PW::LengthDelimited, buf);
}

/// Calls `prost::encoding::string::encode`, which appends the key, the byte length
/// and the UTF-8 bytes of `value`.
#[verifier::external_body]
pub(crate) fn put_string_field(tag: u32, value: &String, buf: &mut Vec<u8>)
    requires
        1 <= tag <= MAX_TAG,
    ensures
        final(buf)@ == old(buf)@ + string_field(tag as nat, value@),
{
    prost::encoding::string::encode(tag, value, buf);
}

/// Calls `prost::encoding::bytes::encode`, which appends the key, the length and the
/// bytes of `value`.
#[verifier::external_body]
pub(crate) fn put_bytes_field(tag: u32, value: &Vec<u8>, buf: &mut Vec<u8>)
    requires
        1 <= tag <= MAX_TAG,
    ensures
        final(buf)@ == old(buf)@ + bytes_field(tag as nat, value@),
{
    prost::encoding::bytes::encode(tag, value, buf);
}

/// Calls `prost::encoding::uint64::encode`, which appends the key and the varint.
#[verifier::external_body]
pub(crate) fn put_uint64_field(tag: u32, value: u64, buf: &mut Vec<u8>)
    requires
        1 <= tag <= MAX_TAG,
    ensures
        final(buf)@ == old(buf)@ + uint64_field(tag as nat, value),
{
    prost::encoding::uint64::encode(tag, &value, buf);
}

/// Calls `prost::encoding::bool::encode`, which appends the key and 1 or 0.
#[verifier::external_body]
pub(crate) fn put_bool_field(tag: u32, value: bool, buf: &mut Vec<u8>)
    requires
        1 <= tag <= MAX_TAG,
    ensures
        final(buf)@ == old(buf)@ + bool_field(tag as nat, value),
{
    prost::encoding::bool::encode(tag, &value, buf);
}

/// Calls `prost::encoding::decode_key` on `bytes[pos..]`: on success it gives the
/// tag, the wire type and how many bytes are left after the key.
#[verifier::external_body]
pub(crate) fn read_key(bytes: &[u8], pos: usize) -> (res: Result<(u32, WireKind, usize), prost::DecodeError>)
    requires
        pos <= bytes@.len(),
    ensures
        res is Ok <==> key_decode(bytes@.skip(pos as int)) is Some,
        res matches Ok((tag, w, left)) ==> left <= bytes@.len() - pos && key_decode(bytes@.skip(pos as int)) == Some(
            (tag, w, (bytes@.len() - pos - left) as nat),
        ),
{
    let mut rest = &bytes[pos..];
    let (tag, wt) = prost::encoding::decode_key(&mut rest)?;
    let w = match wt {
        PW::Varint => WireKind::Varint,
        PW::SixtyFourBit => WireKind::SixtyFourBit,
        PW::LengthDelimited => WireKind::LengthDelimited,
        PW::StartGroup => WireKind::StartGroup,
        PW::EndGroup => WireKind::EndGroup,
        PW::ThirtyTwoBit => WireKind::ThirtyTwoBit,
    };
    Ok((tag, w, rest.len()))
}

/// Calls `prost::encoding::string::merge` on `bytes[pos..]` with an empty string:
/// on success it gives the string read and how many bytes are left.
#[verifier::external_body]
pub(crate) fn read_string(w: WireKind, bytes: &[u8], pos: usize) -> (res: Result<(String, usize), prost::DecodeError>)
    requires
        pos <= bytes@.len(),
    ensures
        res is Ok <==> string_merge(w, bytes@.skip(pos as int)) is Some,
        res matches Ok((s, left)) ==> left <= bytes@.len() - pos && string_merge(w, bytes@.skip(pos as int)) == Some(
            (s@, (bytes@.len() - pos - left) as nat),
        ),
{
    let mut rest = &bytes[pos..];
    let wt = match w {
        WireKind::Varint => PW::Varint,
        WireKind::SixtyFourBit => PW::SixtyFourBit,
        WireKind::LengthDelimited => PW::LengthDelimited,
        WireKind::StartGroup => PW::StartGroup,
        WireKind::EndGroup => PW::EndGroup,
        WireKind::ThirtyTwoBit => PW::ThirtyTwoBit,
    };
    let mut s = String::new();
    prost::encoding::string::merge(wt, &mut s, &mut rest, Default::default())?;
    Ok((s, rest.len()))
}

/// Calls `prost::encoding::uint64::merge` on `bytes[pos..]`: on success it gives the
/// value read and how many bytes are left.
#[verifier::external_body]
pub(crate) fn read_uint64(w: WireKind, bytes: &[u8], pos: usize) -> (res: Result<(u64, usize), prost::DecodeError>)
    requires
        pos <= bytes@.len(),
    ensures
        res is Ok <==> uint64_merge(w, bytes@.skip(pos as int)) is Some,
        res matches Ok((v, left)) ==> left <= bytes@.len() - pos && uint64_merge(w, bytes@.skip(pos as int)) == Some(
            (v, (bytes@.len() - pos - left) as nat),
        ),
{
    let mut rest = &bytes[pos..];
    let wt = match w {
        WireKind::Varint => PW::Varint,
        WireKind::SixtyFourBit => PW::SixtyFourBit,
        WireKind::LengthDelimited => PW::LengthDelimited,
        WireKind::StartGroup => PW::StartGroup,
        WireKind::EndGroup => PW::EndGroup,
        WireKind::ThirtyTwoBit => PW::ThirtyTwoBit,
    };
    let mut v = 0u64;
    prost::encoding::uint64::merge(wt, &mut v, &mut rest, Default::default())?;
    Ok((v, rest.len()))
}

/// Calls `prost::encoding::decode_varint` on `bytes[pos..]`: on success it gives the
/// value read and how many bytes are left.
#[verifier::external_body]
pub(crate) fn read_varint(bytes: &[u8], pos: usize) -> (res: Result<(u64, usize), prost::DecodeError>)
    requires
        pos <= bytes@.len(),
    ensures
        res is Ok <==> varint_decode(bytes@.skip(pos as int)) is Some,
        res matches Ok((v, left)) ==> left <= bytes@.len() - pos && varint_decode(bytes@.skip(pos as int)) == Some(
            (v as int, (bytes@.len() - pos - left) as nat),
        ),
{
    let mut rest = &bytes[pos..];
    let v = prost::encoding::decode_varint(&mut rest)?;
    Ok((v, rest.len()))
}

/// Calls `prost::encoding::bytes::merge` on `bytes[pos..]` with an empty vector: on
/// success it gives the bytes read and how many bytes are left.
#[verifier::external_body]
pub(crate) fn read_bytes(w: WireKind, bytes: &[u8], pos: usize) -> (res: Result<(Vec<u8>, usize), prost::DecodeError>)
    requires
        pos <= bytes@.len(),
    ensures
        res is Ok <==> bytes_merge(w, bytes@.skip(pos as int)) is Some,
        res matches Ok((v, left)) ==> left <= bytes@.len() - pos && bytes_merge(w, bytes@.skip(pos as int)) == Some(
            (v@, (bytes@.len() - pos - left) as nat),
        ),
{
    let mut rest = &bytes[pos..];
    let wt = match w {
        WireKind::Varint => PW::Varint,
        WireKind::SixtyFourBit => PW::SixtyFourBit,
        WireKind::LengthDelimited => PW::LengthDelimited,
        WireKind::StartGroup => PW::StartGroup,
        WireKind::EndGroup => PW::EndGroup,
        WireKind::ThirtyTwoBit => PW::ThirtyTwoBit,
    };
    let mut v: Vec<u8> = Vec::new();
    prost::encoding::bytes::merge(wt, &mut v, &mut rest, Default::default())?;
    Ok((v, rest.len()))
}

/// Calls `prost::encoding::bool::merge` on `bytes[pos..]`: on success it gives the
/// value read and how many bytes are left.
#[verifier::external_body]
pub(crate) fn read_bool(w: WireKind, bytes: &[u8], pos: usize) -> (res: Result<(bool, usize), prost::DecodeError>)
    requires
        pos <= bytes@.len(),
    ensures
        res is Ok <==> bool_merge(w, bytes@.skip(pos as int)) is Some,
        res matches Ok((v, left)) ==> left <= bytes@.len() - pos && bool_merge(w, bytes@.skip(pos as int)) == Some(
            (v, (bytes@.len() - pos - left) as nat),
        ),
{
    let mut rest = &bytes[pos..];
    let wt = match w {
        WireKind::Varint => PW::Varint,
        WireKind::SixtyFourBit => PW::SixtyFourBit,
        WireKind::LengthDelimited => PW::LengthDelimited,
        WireKind::StartGroup => PW::StartGroup,
        WireKind::EndGroup => PW::EndGroup,
        WireKind::ThirtyTwoBit => PW::ThirtyTwoBit,
    };
    let mut v = false;
    prost::encoding::bool::merge(wt, &mut v, &mut rest, Default::default())?;
    Ok((v, rest.len()))
}

/// Calls `prost::encoding::int64::merge` on `bytes[pos..]`: on success it gives the
/// value read and how many bytes are left.
#[verifier::external_body]
pub(crate) fn read_int64(w: WireKind, bytes: &[u8], pos: usize) -> (res: Result<(i64, usize), prost::DecodeError>)
    requires
        pos <= bytes@.len(),
    ensures
        res is Ok <==> int64_merge(w, bytes@.skip(pos as int)) is Some,
        res matches Ok((v, left)) ==> left <= bytes@.len() - pos && int64_merge(w, bytes@.skip(pos as int)) == Some(
            (v, (bytes@.len() - pos - left) as nat),
        ),
{
    let mut rest = &bytes[pos..];
    let wt = match w {
        WireKind::Varint => PW::Varint,
        WireKind::SixtyFourBit => PW::SixtyFourBit,
        WireKind::LengthDelimited => PW::LengthDelimited,
        WireKind::StartGroup => PW::StartGroup,
        WireKind::EndGroup => PW::EndGroup,
        WireKind::ThirtyTwoBit => PW::ThirtyTwoBit,
    };
    let mut v = 0i64;
    prost::encoding::int64::merge(wt, &mut v, &mut rest, Default::default())?;
    Ok((v, rest.len()))
}

/// Calls `prost::encoding::int32::merge` on `bytes[pos..]`: on success it gives the
/// value read and how many bytes are left.
#[verifier::external_body]
pub(crate) fn read_int32(w: WireKind, bytes: &[u8], pos: usize) -> (res: Result<(i32, usize), prost::DecodeError>)
    requires
        pos <= bytes@.len(),
    ensures
        res is Ok <==> int32_merge(w, bytes@.skip(pos as int)) is Some,
        res matches Ok((v, left)) ==> left <= bytes@.len() - pos && int32_merge(w, bytes@.skip(pos as int)) == Some(
            (v, (bytes@.len() - pos - left) as nat),
        ),
{
    let mut rest = &bytes[pos..];
    let wt = match w {
        WireKind::Varint => PW::Varint,
        WireKind::SixtyFourBit => PW::SixtyFourBit,
        WireKind::LengthDelimited => PW::LengthDelimited,
        WireKind::StartGroup => PW::StartGroup,
        WireKind::EndGroup => PW::EndGroup,
        WireKind::ThirtyTwoBit => PW::ThirtyTwoBit,
    };
    let mut v = 0i32;
    prost::encoding::int32::merge(wt, &mut v, &mut rest, Default::default())?;
    Ok((v, rest.len()))
}

/// Calls `prost::encoding::skip_field` on `bytes[pos..]` for a field that the message
/// does not know: on success it gives how many bytes are left after the field, which
/// is never more than were there. For every wire type but a group the bytes passed
/// over are stated (`plain_skip_len`); for a group, which `skip_field` walks field
/// by field, only that the count is a function of the wire type, the tag and the
/// bytes.
#[verifier::external_body]
pub(crate) fn skip_unknown(w: WireKind, tag: u32, bytes: &[u8], pos: usize) -> (res: Result<usize, prost::DecodeError>)
    requires
        pos <= bytes@.len(),
    ensures
        res is Ok <==> skipped_len(w, tag, bytes@.skip(pos as int)) is Some,
        res matches Ok(left) ==> left <= bytes@.len() - pos && skipped_len(
            w,
            tag,
            bytes@.skip(pos as int),
        ) == Some((bytes@.len() - pos - left) as nat),
        w != WireKind::StartGroup ==> (res is Ok <==> plain_skip_len(w, bytes@.skip(pos as int)) is Some),
        w != WireKind::StartGroup ==> (res matches Ok(left) ==> plain_skip_len(
            w,
            bytes@.skip(pos as int),
        ) == Some((bytes@.len() - pos - left) as nat)),
{
    let mut rest = &bytes[pos..];
    let wt = match w {
        WireKind::Varint => PW::Varint,
        WireKind::SixtyFourBit => PW::SixtyFourBit,
        WireKind::LengthDelimited => PW::LengthDelimited,
        WireKind::StartGroup => PW::StartGroup,
        WireKind::EndGroup => PW::EndGroup,
        WireKind::ThirtyTwoBit => PW::ThirtyTwoBit,
    };
    prost::encoding::skip_field(wt, tag, &mut rest, Default::default())?;
    Ok(rest.len())
}

// ---------------------------------------------------------------------------
// Verified helpers.
/// Appends an embedded message field whose encoded body is `body`.
pub(crate) fn put_message_field(tag: u32, body: Vec<u8>, buf: &mut Vec<u8>)
    requires
        1 <= tag <= MAX_TAG,
    ensures
        final(buf)@ == old(buf)@ + message_field(tag as nat, body@),
{
    let mut body = body;
    let ghost b = body@;
    put_length_delimited_key(tag, buf);
    put_varint(body.len() as u64, buf);
    buf.append(&mut body);
    assert(final(buf)@ =~= old(buf)@ + message_field(tag as nat, b)) by {
        assert(old(buf)@ + key_bytes(tag as nat, WireKind::LengthDelimited) + varint_bytes(b.len())
            + b =~= old(buf)@ + message_field(tag as nat, b));
    }
}

// ---------------------------------------------------------------------------
// Lemmas.
/// The largest value plus one that a varint of `budget` bytes can carry.
pub open spec fn varint_cap(budget: nat) -> int
    decreases budget,
{
    if budget <= 1 {
        2
    } else {
        128 * varint_cap((budget - 1) as nat)
    }
}

proof fn lemma_varint_cap_positive(budget: nat)
    ensures
        varint_cap(budget) >= 2,
    decreases budget,
{
    if budget > 1 {
        lemma_varint_cap_positive((budget - 1) as nat);
    }
}

proof fn lemma_varint_dec_bytes(v: nat, rest: Seq<u8>, budget: nat)
    requires
        budget >= 1,
        v < varint_cap(budget),
    ensures
        varint_dec(varint_bytes(v) + rest, budget) == Some((v as int, varint_bytes(v).len())),
    decreases v,
{
    let b = varint_bytes(v) + rest;
    if v < 128 {
        assert(b[0] == v as u8);
        if budget > 1 {
            lemma_varint_cap_positive((budget - 1) as nat);
        }
    } else {
        assert(b[0] == (v % 128 + 128) as u8);
        if budget <= 1 {
            assert(false);
        }
        let q = v / 128;
        assert(q < varint_cap((budget - 1) as nat)) by (nonlinear_arith)
            requires
                v < 128 * varint_cap((budget - 1) as nat),
                q == v / 128,
        ;
        assert(b.drop_first() =~= varint_bytes(q) + rest);
        lemma_varint_dec_bytes(q, rest, (budget - 1) as nat);
    }
}

proof fn lemma_varint_cap_ten()
    ensures
        varint_cap(10) == 0x1_0000_0000_0000_0000,
{
    reveal_with_fuel(varint_cap, 11);
}

/// A varint reads back as the value it was written from.
pub proof fn lemma_varint_roundtrip(v: nat, rest: Seq<u8>)
    requires
        v <= u64::MAX,
    ensures
        varint_decode(varint_bytes(v) + rest) == Some((v as int, varint_bytes(v).len())),
{
    lemma_varint_cap_ten();
    lemma_varint_dec_bytes(v, rest, 10);
}

/// A varint that reads takes at least one byte and no more than there are.
pub proof fn lemma_varint_dec_len(b: Seq<u8>, budget: nat)
    ensures
        varint_dec(b, budget) matches Some((v, n)) ==> 1 <= n <= b.len() && n <= budget && 0 <= v,
    decreases budget,
{
    if budget > 0 && b.len() > 0 && b[0] >= 128 {
        lemma_varint_dec_len(b.drop_first(), (budget - 1) as nat);
    }
}

/// A key reads back as the tag and wire type it was written from.
pub proof fn lemma_key_roundtrip(tag: nat, w: WireKind, rest: Seq<u8>)
    requires
        1 <= tag <= MAX_TAG,
    ensures
        key_decode(key_bytes(tag, w) + rest) == Some((tag as u32, w, key_bytes(tag, w).len())),
{
    lemma_varint_roundtrip(tag * 8 + wire_code(w), rest);
}

/// A string field's payload reads back as the string.
pub proof fn lemma_string_roundtrip(s: Seq<char>, rest: Seq<u8>)
    requires
        encode_utf8(s).len() <= u64::MAX,
    ensures
        string_merge(WireKind::LengthDelimited, delimited(encode_utf8(s)) + rest) == Some(
            (s, delimited(encode_utf8(s)).len()),
        ),
{
    let e = encode_utf8(s);
    let b = delimited(e) + rest;
    assert(b =~= varint_bytes(e.len()) + (e + rest));
    lemma_varint_roundtrip(e.len(), e + rest);
    let k = varint_bytes(e.len()).len();
    assert(b.subrange(k as int, (k + e.len()) as int) =~= e);
}

/// A `uint64` field's payload reads back as the value.
pub proof fn lemma_uint64_roundtrip(v: u64, rest: Seq<u8>)
    ensures
        uint64_merge(WireKind::Varint, varint_bytes(v as nat) + rest) == Some(
            (v, varint_bytes(v as nat).len()),
        ),
{
    lemma_varint_roundtrip(v as nat, rest);
}

} // verus!
