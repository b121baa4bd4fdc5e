//! The protobuf wire format: what the bytes of one field are, and how they
//! are read back.
//!
//! A message is a run of fields. A field is a key, which carries a field
//! number and a wire type, followed by a value whose layout the wire type
//! decides. The spec functions below state that layout. The private
//! functions under them call `prost::encoding`, one outside function each.

use crate::text;
use vstd::prelude::*;

verus! {

/// The wire type of a varint value.
pub const VARINT: u8 = 0;

/// The wire type of an eight-byte value.
pub const SIXTY_FOUR_BIT: u8 = 1;

/// The wire type of a value that a length precedes.
pub const LENGTH_DELIMITED: u8 = 2;

/// The wire type that opens a group.
pub const START_GROUP: u8 = 3;

/// The wire type that closes a group.
pub const END_GROUP: u8 = 4;

/// The wire type of a four-byte value.
pub const THIRTY_TWO_BIT: u8 = 5;

/// How many levels of messages and groups a payload may nest.
pub const RECURSION_LIMIT: u32 = 100;

// ---------------------------------------------------------------------------
// What a field looks like
// ---------------------------------------------------------------------------

/// `value` in groups of seven bits, least significant first, where every
/// byte but the last has its high bit set.
pub open spec fn varint(value: nat) -> Seq<u8>
    decreases value,
{
    if value < 128 {
        seq![value as u8]
    } else {
        seq![(value % 128 + 128) as u8] + varint(value / 128)
    }
}

/// The key of field `number` with wire type `wire`.
pub open spec fn key(number: u32, wire: u8) -> Seq<u8> {
    varint((number * 8 + wire) as nat)
}

/// `body` behind its length.
pub open spec fn delimited(body: Seq<u8>) -> Seq<u8> {
    varint(body.len()) + body
}

/// A varint field.
pub open spec fn varint_field(number: u32, value: u64) -> Seq<u8> {
    key(number, VARINT) + varint(value as nat)
}

/// `value` in `width` bytes, least significant first.
pub open spec fn little_endian(value: nat, width: nat) -> Seq<u8>
    decreases width,
{
    if width == 0 {
        seq![]
    } else {
        seq![(value % 256) as u8] + little_endian(value / 256, (width - 1) as nat)
    }
}

/// A four-byte field.
pub open spec fn fixed32_field(number: u32, value: u32) -> Seq<u8> {
    key(number, THIRTY_TWO_BIT) + little_endian(value as nat, 4)
}

/// An eight-byte field.
pub open spec fn fixed64_field(number: u32, value: u64) -> Seq<u8> {
    key(number, SIXTY_FOUR_BIT) + little_endian(value as nat, 8)
}

/// A field that holds raw bytes, or the encoding of a nested message.
pub open spec fn bytes_field(number: u32, body: Seq<u8>) -> Seq<u8> {
    key(number, LENGTH_DELIMITED) + delimited(body)
}

/// A field that holds text in UTF-8.
pub open spec fn string_field(number: u32, text: Seq<char>) -> Seq<u8> {
    bytes_field(number, vstd::utf8::encode_utf8(text))
}

// ---------------------------------------------------------------------------
// What reading gives back
// ---------------------------------------------------------------------------

/// Read a varint of at most `budget` bytes: its value, and what follows it.
pub open spec fn read_groups(bytes: Seq<u8>, budget: nat) -> Option<(nat, Seq<u8>)>
    decreases budget,
{
    if budget == 0 || bytes.len() == 0 {
        None
    } else if bytes[0] < 128 {
        Some((bytes[0] as nat, bytes.skip(1)))
    } else {
        match read_groups(bytes.skip(1), (budget - 1) as nat) {
            Some((high, rest)) => Some(((bytes[0] - 128 + 128 * high) as nat, rest)),
            None => None,
        }
    }
}

/// Read a varint: at most ten bytes, and a value that fits 64 bits.
pub open spec fn read_varint(bytes: Seq<u8>) -> Option<(u64, Seq<u8>)> {
    match read_groups(bytes, 10) {
        Some((value, rest)) => if value <= u64::MAX {
            Some((value as u64, rest))
        } else {
            None
        },
        None => None,
    }
}

/// Read a key: the field number, the wire type, and what follows.
///
/// A key fits 32 bits, its field number is not 0, and its wire type is one
/// of the six above.
pub open spec fn read_key(bytes: Seq<u8>) -> Option<(u32, u8, Seq<u8>)> {
    match read_varint(bytes) {
        Some((k, rest)) => if k <= u32::MAX && k % 8 <= 5 && k / 8 >= 1 {
            Some(((k / 8) as u32, (k % 8) as u8, rest))
        } else {
            None
        },
        None => None,
    }
}

/// Read a length and the bytes it covers: those bytes, and what follows.
pub open spec fn read_delimited(bytes: Seq<u8>) -> Option<(Seq<u8>, Seq<u8>)> {
    match read_varint(bytes) {
        Some((len, rest)) => if len <= rest.len() {
            Some((rest.take(len as int), rest.skip(len as int)))
        } else {
            None
        },
        None => None,
    }
}

/// The number that bytes spell, least significant first.
pub open spec fn little_endian_value(bytes: Seq<u8>) -> nat
    decreases bytes.len(),
{
    if bytes.len() == 0 {
        0
    } else {
        bytes[0] as nat + 256 * little_endian_value(bytes.skip(1))
    }
}

/// Read a four-byte number.
pub open spec fn read_fixed32(bytes: Seq<u8>) -> Option<(u32, Seq<u8>)> {
    if bytes.len() >= 4 {
        Some((little_endian_value(bytes.take(4)) as u32, bytes.skip(4)))
    } else {
        None
    }
}

/// Read an eight-byte number.
pub open spec fn read_fixed64(bytes: Seq<u8>) -> Option<(u64, Seq<u8>)> {
    if bytes.len() >= 8 {
        Some((little_endian_value(bytes.take(8)) as u64, bytes.skip(8)))
    } else {
        None
    }
}

/// Read text: a length and that many bytes of UTF-8.
pub open spec fn read_string(bytes: Seq<u8>) -> Option<(Seq<char>, Seq<u8>)> {
    match read_delimited(bytes) {
        Some((body, rest)) => if vstd::utf8::valid_utf8(body) {
            Some((vstd::utf8::decode_utf8(body), rest))
        } else {
            None
        },
        None => None,
    }
}

/// Read the value of a varint field.
pub open spec fn read_varint_value(wire: u8, bytes: Seq<u8>) -> Option<(u64, Seq<u8>)> {
    if wire == VARINT {
        read_varint(bytes)
    } else {
        None
    }
}

/// Read the value of a four-byte field.
pub open spec fn read_fixed32_value(wire: u8, bytes: Seq<u8>) -> Option<(u32, Seq<u8>)> {
    if wire == THIRTY_TWO_BIT {
        read_fixed32(bytes)
    } else {
        None
    }
}

/// Read the value of an eight-byte field.
pub open spec fn read_fixed64_value(wire: u8, bytes: Seq<u8>) -> Option<(u64, Seq<u8>)> {
    if wire == SIXTY_FOUR_BIT {
        read_fixed64(bytes)
    } else {
        None
    }
}

/// Read the value of a field of raw bytes.
pub open spec fn read_bytes_value(wire: u8, bytes: Seq<u8>) -> Option<(Seq<u8>, Seq<u8>)> {
    if wire == LENGTH_DELIMITED {
        read_delimited(bytes)
    } else {
        None
    }
}

/// Read the value of a field of text.
pub open spec fn read_string_value(wire: u8, bytes: Seq<u8>) -> Option<(Seq<char>, Seq<u8>)> {
    if wire == LENGTH_DELIMITED {
        read_string(bytes)
    } else {
        None
    }
}

/// What a read leaves, without the value it gave.
pub open spec fn rest_of<T>(read: Option<(T, Seq<u8>)>) -> Option<Seq<u8>> {
    match read {
        Some((_, rest)) => Some(rest),
        None => None,
    }
}

/// Pass over one value that is no group.
pub open spec fn skip_value(wire: u8, bytes: Seq<u8>) -> Option<Seq<u8>> {
    if wire == VARINT {
        rest_of(read_varint(bytes))
    } else if wire == SIXTY_FOUR_BIT {
        rest_of(read_fixed64(bytes))
    } else if wire == LENGTH_DELIMITED {
        rest_of(read_delimited(bytes))
    } else if wire == THIRTY_TWO_BIT {
        rest_of(read_fixed32(bytes))
    } else {
        None
    }
}

/// Pass over the value of field `number`, which may be a group.
///
/// `limit` is how many more levels may open; none may be passed over at 0.
pub open spec fn skip_field(number: u32, wire: u8, bytes: Seq<u8>, limit: nat) -> Option<Seq<u8>>
    decreases limit, bytes.len(), 1nat,
{
    if limit == 0 {
        None
    } else if wire == START_GROUP {
        skip_group(number, bytes, limit)
    } else {
        skip_value(wire, bytes)
    }
}

/// Pass over the fields of group `number`, up to and with its end key.
pub open spec fn skip_group(number: u32, bytes: Seq<u8>, limit: nat) -> Option<Seq<u8>>
    decreases limit, bytes.len(), 0nat,
{
    if limit == 0 {
        None
    } else {
        match read_key(bytes) {
            None => None,
            Some((inner, wire, rest)) => if wire == END_GROUP {
                if inner == number {
                    Some(rest)
                } else {
                    None
                }
            } else {
                match skip_field(inner, wire, rest, (limit - 1) as nat) {
                    Some(after) => if after.len() < bytes.len() {
                        skip_group(number, after, limit)
                    } else {
                        None
                    },
                    None => None,
                }
            },
        }
    }
}

// ---------------------------------------------------------------------------
// Why reading fails
// ---------------------------------------------------------------------------

/// Where decoding failed: the names of a message and of one of its fields,
/// the innermost first.
pub type Trail = Seq<(Seq<char>, Seq<char>)>;

/// Why decoding failed, and where.
#[verifier::ext_equal]
pub struct Fault {
    pub trail: Trail,
    pub reason: Seq<char>,
}

/// A fault that names no field.
pub open spec fn fault(reason: Seq<char>) -> Fault {
    Fault { trail: Seq::empty(), reason }
}

/// The name of a wire type.
pub open spec fn wire_name(wire: u8) -> Seq<char> {
    match wire {
        0 => "Varint"@,
        1 => "SixtyFourBit"@,
        2 => "LengthDelimited"@,
        3 => "StartGroup"@,
        4 => "EndGroup"@,
        _ => "ThirtyTwoBit"@,
    }
}

/// Why a value of wire type `actual` is not one of wire type `expected`.
pub open spec fn wrong_wire(actual: u8, expected: u8) -> Seq<char> {
    "invalid wire type: "@ + wire_name(actual) + " (expected "@ + wire_name(expected) + ")"@
}

/// Why bytes hold no key.
pub open spec fn key_reason(bytes: Seq<u8>) -> Seq<char> {
    match read_varint(bytes) {
        None => "invalid varint"@,
        Some((k, _)) => if k > u32::MAX {
            "invalid key value: "@ + text::decimal(k as nat)
        } else if k % 8 > 5 {
            "invalid wire type value: "@ + text::decimal((k % 8) as nat)
        } else {
            "invalid tag value: 0"@
        },
    }
}

/// Why bytes hold no value of a varint field.
pub open spec fn varint_reason(wire: u8) -> Seq<char> {
    if wire == VARINT {
        "invalid varint"@
    } else {
        wrong_wire(wire, VARINT)
    }
}

/// Why bytes hold no value of a field of the fixed-width wire type
/// `expected`.
pub open spec fn fixed_reason(wire: u8, expected: u8) -> Seq<char> {
    if wire == expected {
        "buffer underflow"@
    } else {
        wrong_wire(wire, expected)
    }
}

/// Why bytes hold no length with the bytes it covers.
pub open spec fn delimited_reason(bytes: Seq<u8>) -> Seq<char> {
    match read_varint(bytes) {
        None => "invalid varint"@,
        Some(_) => "buffer underflow"@,
    }
}

/// Why bytes hold no value of a field of raw bytes.
pub open spec fn bytes_reason(wire: u8, bytes: Seq<u8>) -> Seq<char> {
    if wire == LENGTH_DELIMITED {
        delimited_reason(bytes)
    } else {
        wrong_wire(wire, LENGTH_DELIMITED)
    }
}

/// Why bytes hold no value of a field of text.
pub open spec fn string_reason(wire: u8, bytes: Seq<u8>) -> Seq<char> {
    if read_bytes_value(wire, bytes) is Some {
        "invalid string value: data is not UTF-8 encoded"@
    } else {
        bytes_reason(wire, bytes)
    }
}

/// Why a value that is no group cannot be passed over.
pub open spec fn skip_value_reason(wire: u8, bytes: Seq<u8>) -> Seq<char> {
    if wire == VARINT {
        "invalid varint"@
    } else if wire == LENGTH_DELIMITED {
        delimited_reason(bytes)
    } else if wire == END_GROUP {
        "unexpected end group tag"@
    } else {
        "buffer underflow"@
    }
}

/// Why the value of field `number` cannot be passed over.
pub open spec fn skip_field_reason(number: u32, wire: u8, bytes: Seq<u8>, limit: nat) -> Seq<char>
    decreases limit, bytes.len(), 1nat,
{
    if limit == 0 {
        "recursion limit reached"@
    } else if wire == START_GROUP {
        skip_group_reason(number, bytes, limit)
    } else {
        skip_value_reason(wire, bytes)
    }
}

/// Why group `number` cannot be passed over.
pub open spec fn skip_group_reason(number: u32, bytes: Seq<u8>, limit: nat) -> Seq<char>
    decreases limit, bytes.len(), 0nat,
{
    match read_key(bytes) {
        None => key_reason(bytes),
        Some((inner, wire, rest)) => if wire == END_GROUP || limit == 0 {
            "unexpected end group tag"@
        } else {
            match skip_field(inner, wire, rest, (limit - 1) as nat) {
                None => skip_field_reason(inner, wire, rest, (limit - 1) as nat),
                Some(after) => if after.len() < bytes.len() {
                    skip_group_reason(number, after, limit)
                } else {
                    seq![]
                },
            }
        },
    }
}

// ---------------------------------------------------------------------------
// Calls into prost
// ---------------------------------------------------------------------------

/// What `prost` reports when bytes do not decode.
#[verifier::external_type_specification]
#[verifier::external_body]
pub struct ExDecodeError(prost::DecodeError);

/// The location that a `prost::DecodeError` carries: the pairs that
/// `DecodeError::push` put there, in order.
pub uninterp spec fn error_trail(error: prost::DecodeError) -> Trail;

/// The description that a `prost::DecodeError` was made with.
pub uninterp spec fn error_reason(error: prost::DecodeError) -> Seq<char>;

/// What a `prost::DecodeError` says: its location, and its description.
pub open spec fn error_fault(error: prost::DecodeError) -> Fault {
    Fault { trail: error_trail(error), reason: error_reason(error) }
}

/// `prost::encoding::decode_key` reads a key from the front of the bytes and
/// leaves what follows. It fails exactly where [`read_key`] reads nothing, for
/// the reason that [`key_reason`] gives, and names no field.
#[verifier::external_body]
pub(crate) fn take_key(bytes: &[u8]) -> (key: Result<(u32, u8, &[u8]), prost::DecodeError>)
    ensures
        match key {
            Ok((number, wire, rest)) => read_key(bytes@) == Some((number, wire, rest@)),
            Err(error) => {
                &&& read_key(bytes@) is None
                &&& error_fault(error) == fault(key_reason(bytes@))
            },
        },
{
    let mut rest = bytes;
    let (number, wire) = prost::encoding::decode_key(&mut rest)?;
    Ok((number, wire as u8, rest))
}

/// `prost::encoding::uint64::merge` reads a varint, of wire type 0 alone. It
/// fails for the reason that [`varint_reason`] gives, and names no field.
#[verifier::external_body]
pub(crate) fn take_varint(wire: u8, bytes: &[u8]) -> (value: Result<
    (u64, &[u8]),
    prost::DecodeError,
>)
    requires
        wire <= 5,
    ensures
        match value {
            Ok((value, rest)) => read_varint_value(wire, bytes@) == Some((value, rest@)),
            Err(error) => {
                &&& read_varint_value(wire, bytes@) is None
                &&& error_fault(error) == fault(varint_reason(wire))
            },
        },
{
    let wire = prost::encoding::WireType::try_from(u64::from(wire))?;
    let mut value: u64 = 0;
    let mut rest = bytes;
    prost::encoding::uint64::merge(wire, &mut value, &mut rest, Default::default())?;
    Ok((value, rest))
}

/// `prost::encoding::fixed32::merge` reads four bytes, of wire type 5 alone.
/// It fails for the reason that [`fixed_reason`] gives, and names no field.
#[verifier::external_body]
pub(crate) fn take_fixed32(wire: u8, bytes: &[u8]) -> (value: Result<
    (u32, &[u8]),
    prost::DecodeError,
>)
    requires
        wire <= 5,
    ensures
        match value {
            Ok((value, rest)) => read_fixed32_value(wire, bytes@) == Some((value, rest@)),
            Err(error) => {
                &&& read_fixed32_value(wire, bytes@) is None
                &&& error_fault(error) == fault(fixed_reason(wire, THIRTY_TWO_BIT))
            },
        },
{
    let wire = prost::encoding::WireType::try_from(u64::from(wire))?;
    let mut value: u32 = 0;
    let mut rest = bytes;
    prost::encoding::fixed32::merge(wire, &mut value, &mut rest, Default::default())?;
    Ok((value, rest))
}

/// `prost::encoding::fixed64::merge` reads eight bytes, of wire type 1 alone.
/// It fails for the reason that [`fixed_reason`] gives, and names no field.
#[verifier::external_body]
pub(crate) fn take_fixed64(wire: u8, bytes: &[u8]) -> (value: Result<
    (u64, &[u8]),
    prost::DecodeError,
>)
    requires
        wire <= 5,
    ensures
        match value {
            Ok((value, rest)) => read_fixed64_value(wire, bytes@) == Some((value, rest@)),
            Err(error) => {
                &&& read_fixed64_value(wire, bytes@) is None
                &&& error_fault(error) == fault(fixed_reason(wire, SIXTY_FOUR_BIT))
            },
        },
{
    let wire = prost::encoding::WireType::try_from(u64::from(wire))?;
    let mut value: u64 = 0;
    let mut rest = bytes;
    prost::encoding::fixed64::merge(wire, &mut value, &mut rest, Default::default())?;
    Ok((value, rest))
}

/// `prost::encoding::bytes::merge` reads a length and the bytes it covers,
/// of wire type 2 alone. It fails for the reason that [`bytes_reason`] gives,
/// and names no field.
#[verifier::external_body]
pub(crate) fn take_bytes(wire: u8, bytes: &[u8]) -> (body: Result<
    (Vec<u8>, &[u8]),
    prost::DecodeError,
>)
    requires
        wire <= 5,
    ensures
        match body {
            Ok((body, rest)) => read_bytes_value(wire, bytes@) == Some((body@, rest@)),
            Err(error) => {
                &&& read_bytes_value(wire, bytes@) is None
                &&& error_fault(error) == fault(bytes_reason(wire, bytes@))
            },
        },
{
    let wire = prost::encoding::WireType::try_from(u64::from(wire))?;
    let mut body: Vec<u8> = Vec::new();
    let mut rest = bytes;
    prost::encoding::bytes::merge(wire, &mut body, &mut rest, Default::default())?;
    Ok((body, rest))
}

/// `prost::encoding::string::merge` reads a length and that many bytes of
/// UTF-8, of wire type 2 alone. It fails for the reason that
/// [`string_reason`] gives, and names no field.
#[verifier::external_body]
pub(crate) fn take_string(wire: u8, bytes: &[u8]) -> (text: Result<
    (String, &[u8]),
    prost::DecodeError,
>)
    requires
        wire <= 5,
    ensures
        match text {
            Ok((text, rest)) => read_string_value(wire, bytes@) == Some((text@, rest@)),
            Err(error) => {
                &&& read_string_value(wire, bytes@) is None
                &&& error_fault(error) == fault(string_reason(wire, bytes@))
            },
        },
{
    let wire = prost::encoding::WireType::try_from(u64::from(wire))?;
    let mut text = String::new();
    let mut rest = bytes;
    prost::encoding::string::merge(wire, &mut text, &mut rest, Default::default())?;
    Ok((text, rest))
}

/// `prost::encoding::skip_field` passes over one value. This calls it for
/// every wire type but the start of a group, where it opens no level and
/// reads no more than [`skip_value`] does. It fails for the reason that
/// [`skip_value_reason`] gives, and names no field.
#[verifier::external_body]
pub(crate) fn drop_value(number: u32, wire: u8, bytes: &[u8]) -> (rest: Result<
    &[u8],
    prost::DecodeError,
>)
    requires
        wire <= 5,
        wire != START_GROUP,
    ensures
        match rest {
            Ok(rest) => skip_value(wire, bytes@) == Some(rest@),
            Err(error) => {
                &&& skip_value(wire, bytes@) is None
                &&& error_fault(error) == fault(skip_value_reason(wire, bytes@))
            },
        },
{
    let wire = prost::encoding::WireType::try_from(u64::from(wire))?;
    let mut rest = bytes;
    prost::encoding::skip_field(wire, number, &mut rest, Default::default())?;
    Ok(rest)
}

/// `prost::DecodeError::new` makes an error that carries `reason` and no
/// location.
#[verifier::external_body]
pub(crate) fn decode_error(reason: &'static str) -> (error: prost::DecodeError)
    ensures
        error_reason(error) == reason@,
        error_trail(error) == fault(reason@).trail,
{
    prost::DecodeError::new(reason)
}

/// `prost::DecodeError::push` puts a message and a field behind the location
/// that an error carries, and leaves its description.
#[verifier::external_body]
pub(crate) fn push_location(
    error: &mut prost::DecodeError,
    message: &'static str,
    field: &'static str,
)
    ensures
        error_trail(*final(error)) == error_trail(*old(error)).push((message@, field@)),
        error_reason(*final(error)) == error_reason(*old(error)),
{
    error.push(message, field)
}

/// `prost::encoding::uint64::encode` appends a varint field.
#[verifier::external_body]
pub(crate) fn put_varint(number: u32, value: u64, out: &mut Vec<u8>)
    requires
        1 <= number < 0x2000_0000,
    ensures
        final(out)@ == old(out)@ + varint_field(number, value),
{
    prost::encoding::uint64::encode(number, &value, out)
}

/// `prost::encoding::fixed32::encode` appends a four-byte field.
#[verifier::external_body]
pub(crate) fn put_fixed32(number: u32, value: u32, out: &mut Vec<u8>)
    requires
        1 <= number < 0x2000_0000,
    ensures
        final(out)@ == old(out)@ + fixed32_field(number, value),
{
    prost::encoding::fixed32::encode(number, &value, out)
}

/// `prost::encoding::fixed64::encode` appends an eight-byte field.
#[verifier::external_body]
pub(crate) fn put_fixed64(number: u32, value: u64, out: &mut Vec<u8>)
    requires
        1 <= number < 0x2000_0000,
    ensures
        final(out)@ == old(out)@ + fixed64_field(number, value),
{
    prost::encoding::fixed64::encode(number, &value, out)
}

/// `prost::encoding::bytes::encode` appends a field of raw bytes.
#[verifier::external_body]
pub(crate) fn put_bytes(number: u32, body: &Vec<u8>, out: &mut Vec<u8>)
    requires
        1 <= number < 0x2000_0000,
    ensures
        final(out)@ == old(out)@ + bytes_field(number, body@),
{
    prost::encoding::bytes::encode(number, body, out)
}

/// `prost::encoding::string::encode` appends a field of text.
#[verifier::external_body]
pub(crate) fn put_string(number: u32, text: &String, out: &mut Vec<u8>)
    requires
        1 <= number < 0x2000_0000,
    ensures
        final(out)@ == old(out)@ + string_field(number, text@),
{
    prost::encoding::string::encode(number, text, out)
}

// ---------------------------------------------------------------------------
// Passing over what no field table names
// ---------------------------------------------------------------------------

/// Pass over the value of field `number`, which may be a group.
pub(crate) fn drop_field(number: u32, wire: u8, bytes: &[u8], limit: u32) -> (rest: Result<
    &[u8],
    prost::DecodeError,
>)
    requires
        wire <= 5,
    ensures
        match rest {
            Ok(rest) => skip_field(number, wire, bytes@, limit as nat) == Some(rest@),
            Err(error) => {
                &&& skip_field(number, wire, bytes@, limit as nat) is None
                &&& error_fault(error) == fault(
                    skip_field_reason(number, wire, bytes@, limit as nat),
                )
            },
        },
    decreases limit, bytes@.len(), 1nat,
{
    if limit == 0 {
        return Err(decode_error("recursion limit reached"));
    }
    if wire == START_GROUP {
        drop_group(number, bytes, limit)
    } else {
        drop_value(number, wire, bytes)
    }
}

/// Pass over the fields of group `number`, up to and with its end key.
fn drop_group(number: u32, bytes: &[u8], limit: u32) -> (rest: Result<&[u8], prost::DecodeError>)
    requires
        limit > 0,
    ensures
        match rest {
            Ok(rest) => skip_group(number, bytes@, limit as nat) == Some(rest@),
            Err(error) => {
                &&& skip_group(number, bytes@, limit as nat) is None
                &&& error_fault(error) == fault(skip_group_reason(number, bytes@, limit as nat))
            },
        },
    decreases limit, bytes@.len(), 0nat,
{
    let mut left = bytes;
    loop
        invariant
            limit > 0,
            left@.len() <= bytes@.len(),
            skip_group(number, left@, limit as nat) == skip_group(number, bytes@, limit as nat),
            skip_group_reason(number, left@, limit as nat) == skip_group_reason(
                number,
                bytes@,
                limit as nat,
            ),
        decreases left@.len(),
    {
        let (inner, wire, rest) = match take_key(left) {
            Ok(key) => key,
            Err(error) => return Err(error),
        };
        if wire == END_GROUP {
            if inner == number {
                return Ok(rest);
            }
            return Err(decode_error("unexpected end group tag"));
        }
        proof {
            lemma_read_key_shrinks(left@);
            lemma_skip_shrinks(inner, wire, rest@, (limit - 1) as nat);
        }
        let after = match drop_field(inner, wire, rest, limit - 1) {
            Ok(after) => after,
            Err(error) => return Err(error),
        };
        left = after;
    }
}

// ---------------------------------------------------------------------------
// Reading moves forward
// ---------------------------------------------------------------------------

/// A varint takes at least one byte, and leaves the end of what it was read
/// from.
pub proof fn lemma_read_varint_shrinks(bytes: Seq<u8>)
    ensures
        read_varint(bytes) matches Some((_, rest)) ==> rest.len() < bytes.len(),
{
    lemma_read_groups_shrinks(bytes, 10);
}

proof fn lemma_read_groups_shrinks(bytes: Seq<u8>, budget: nat)
    ensures
        read_groups(bytes, budget) matches Some((_, rest)) ==> rest.len() < bytes.len(),
    decreases budget,
{
    if budget > 0 && bytes.len() > 0 && bytes[0] >= 128 {
        lemma_read_groups_shrinks(bytes.skip(1), (budget - 1) as nat);
    }
}

/// A key takes at least one byte.
pub proof fn lemma_read_key_shrinks(bytes: Seq<u8>)
    ensures
        read_key(bytes) matches Some((_, _, rest)) ==> rest.len() < bytes.len(),
{
    lemma_read_varint_shrinks(bytes);
}

/// Passing over a field leaves no more bytes than there were.
pub proof fn lemma_skip_shrinks(number: u32, wire: u8, bytes: Seq<u8>, limit: nat)
    ensures
        skip_field(number, wire, bytes, limit) matches Some(rest) ==> rest.len() <= bytes.len(),
{
    if limit > 0 && wire == START_GROUP {
        lemma_skip_group_shrinks(number, bytes, limit);
    }
    lemma_read_varint_shrinks(bytes);
}

proof fn lemma_skip_group_shrinks(number: u32, bytes: Seq<u8>, limit: nat)
    ensures
        skip_group(number, bytes, limit) matches Some(rest) ==> rest.len() <= bytes.len(),
    decreases bytes.len(),
{
    lemma_read_key_shrinks(bytes);
    if limit > 0 {
        if let Some((inner, wire, rest)) = read_key(bytes) {
            if wire != END_GROUP {
                if let Some(after) = skip_field(inner, wire, rest, (limit - 1) as nat) {
                    if after.len() < bytes.len() {
                        lemma_skip_group_shrinks(number, after, limit);
                    }
                }
            }
        }
    }
}

/// What is passed over under one limit is passed over under a higher one.
pub proof fn lemma_skip_field_deeper(
    number: u32,
    wire: u8,
    bytes: Seq<u8>,
    limit: nat,
    more: nat,
)
    requires
        limit <= more,
    ensures
        skip_field(number, wire, bytes, limit) matches Some(rest) ==> skip_field(
            number,
            wire,
            bytes,
            more,
        ) == Some(rest),
    decreases limit, bytes.len(), 1nat,
{
    if limit > 0 && wire == START_GROUP {
        lemma_skip_group_deeper(number, bytes, limit, more);
    }
}

proof fn lemma_skip_group_deeper(number: u32, bytes: Seq<u8>, limit: nat, more: nat)
    requires
        0 < limit <= more,
    ensures
        skip_group(number, bytes, limit) matches Some(rest) ==> skip_group(number, bytes, more)
            == Some(rest),
    decreases limit, bytes.len(), 0nat,
{
    if let Some((inner, wire, rest)) = read_key(bytes) {
        if wire != END_GROUP {
            lemma_skip_field_deeper(inner, wire, rest, (limit - 1) as nat, (more - 1) as nat);
            if let Some(after) = skip_field(inner, wire, rest, (limit - 1) as nat) {
                if after.len() < bytes.len() {
                    lemma_skip_group_deeper(number, after, limit, more);
                }
            }
        }
    }
}

// ---------------------------------------------------------------------------
// Reading gives back what was written
// ---------------------------------------------------------------------------

proof fn lemma_read_groups_varint(value: nat, rest: Seq<u8>, budget: nat)
    requires
        budget > 0,
        value < vstd::arithmetic::power::pow(128, budget),
    ensures
        read_groups(varint(value) + rest, budget) == Some((value, rest)),
    decreases budget,
{
    reveal(vstd::arithmetic::power::pow);
    let bytes = varint(value) + rest;
    if value < 128 {
        assert(bytes.skip(1) =~= rest);
    } else {
        let tail = varint(value / 128) + rest;
        assert(bytes.skip(1) =~= tail);
        if budget == 1 {
            assert(vstd::arithmetic::power::pow(128, 0) == 1);
        }
        lemma_read_groups_varint(value / 128, rest, (budget - 1) as nat);
    }
}

/// A varint reads back as the value it was written from.
pub proof fn lemma_varint_round_trip(value: u64, rest: Seq<u8>)
    ensures
        read_varint(varint(value as nat) + rest) == Some((value, rest)),
{
    assert(vstd::arithmetic::power::pow(128, 10) > u64::MAX) by {
        reveal_with_fuel(vstd::arithmetic::power::pow, 11);
    }
    lemma_read_groups_varint(value as nat, rest, 10);
}

/// A key reads back as the field number and wire type it was written from.
pub proof fn lemma_key_round_trip(number: u32, wire: u8, rest: Seq<u8>)
    requires
        1 <= number < 0x2000_0000,
        wire <= 5,
    ensures
        read_key(key(number, wire) + rest) == Some((number, wire, rest)),
{
    lemma_varint_round_trip((number * 8 + wire) as u64, rest);
}

/// Bytes behind their length read back as those bytes.
pub proof fn lemma_delimited_round_trip(body: Seq<u8>, rest: Seq<u8>)
    requires
        body.len() <= u64::MAX,
    ensures
        read_delimited(delimited(body) + rest) == Some((body, rest)),
{
    lemma_varint_round_trip(body.len() as u64, body + rest);
    assert(delimited(body) + rest =~= varint(body.len()) + (body + rest));
    assert((body + rest).take(body.len() as int) =~= body);
    assert((body + rest).skip(body.len() as int) =~= rest);
}

/// Text behind its length reads back as that text.
pub proof fn lemma_string_round_trip(text: Seq<char>, rest: Seq<u8>)
    requires
        vstd::utf8::encode_utf8(text).len() <= u64::MAX,
    ensures
        read_string(delimited(vstd::utf8::encode_utf8(text)) + rest) == Some((text, rest)),
{
    lemma_delimited_round_trip(vstd::utf8::encode_utf8(text), rest);
    vstd::utf8::encode_utf8_valid_utf8(text);
    vstd::utf8::encode_utf8_decode_utf8(text);
}

proof fn lemma_little_endian(value: nat, width: nat)
    requires
        value < vstd::arithmetic::power::pow(256, width),
    ensures
        little_endian(value, width).len() == width,
        little_endian_value(little_endian(value, width)) == value,
    decreases width,
{
    reveal(vstd::arithmetic::power::pow);
    if width > 0 {
        lemma_little_endian(value / 256, (width - 1) as nat);
        let bytes = little_endian(value, width);
        assert(bytes.skip(1) =~= little_endian(value / 256, (width - 1) as nat));
    }
}

/// A four-byte number reads back as itself.
pub proof fn lemma_fixed32_round_trip(value: u32, rest: Seq<u8>)
    ensures
        read_fixed32(little_endian(value as nat, 4) + rest) == Some((value, rest)),
{
    assert(vstd::arithmetic::power::pow(256, 4) > u32::MAX) by {
        reveal_with_fuel(vstd::arithmetic::power::pow, 5);
    }
    lemma_little_endian(value as nat, 4);
    let bytes = little_endian(value as nat, 4);
    assert((bytes + rest).take(4) =~= bytes);
    assert((bytes + rest).skip(4) =~= rest);
}

/// An eight-byte number reads back as itself.
pub proof fn lemma_fixed64_round_trip(value: u64, rest: Seq<u8>)
    ensures
        read_fixed64(little_endian(value as nat, 8) + rest) == Some((value, rest)),
{
    assert(vstd::arithmetic::power::pow(256, 8) > u64::MAX) by {
        reveal_with_fuel(vstd::arithmetic::power::pow, 9);
    }
    lemma_little_endian(value as nat, 8);
    let bytes = little_endian(value as nat, 8);
    assert((bytes + rest).take(8) =~= bytes);
    assert((bytes + rest).skip(8) =~= rest);
}

// ---------------------------------------------------------------------------
// What follows a value does not change how it is read
// ---------------------------------------------------------------------------

/// What is left of `rest` without the `more` bytes that it ends with.
pub open spec fn cut(rest: Seq<u8>, more: Seq<u8>) -> Seq<u8> {
    rest.take(rest.len() - more.len())
}

proof fn lemma_read_groups_cut(bytes: Seq<u8>, more: Seq<u8>, budget: nat)
    ensures
        read_groups(bytes + more, budget) matches Some((value, rest)) ==> more.len() <= rest.len()
            ==> rest == cut(rest, more) + more && read_groups(bytes, budget) == Some(
            (value, cut(rest, more)),
        ),
    decreases budget,
{
    if budget > 0 {
        if bytes.len() == 0 {
            assert(bytes + more =~= more);
            lemma_read_groups_shrinks(more, budget);
        } else {
            assert((bytes + more).skip(1) =~= bytes.skip(1) + more);
            if bytes[0] < 128 {
                assert(cut(bytes.skip(1) + more, more) =~= bytes.skip(1));
            } else {
                lemma_read_groups_cut(bytes.skip(1), more, (budget - 1) as nat);
            }
        }
    }
}

/// A varint that ends before `more` reads alike without it.
pub proof fn lemma_read_varint_cut(bytes: Seq<u8>, more: Seq<u8>)
    ensures
        read_varint(bytes + more) matches Some((value, rest)) ==> more.len() <= rest.len()
            ==> rest == cut(rest, more) + more && read_varint(bytes) == Some(
            (value, cut(rest, more)),
        ),
{
    lemma_read_groups_cut(bytes, more, 10);
}

/// A key that ends before `more` reads alike without it.
pub proof fn lemma_read_key_cut(bytes: Seq<u8>, more: Seq<u8>)
    ensures
        read_key(bytes + more) matches Some((number, wire, rest)) ==> more.len() <= rest.len()
            ==> rest == cut(rest, more) + more && read_key(bytes) == Some(
            (number, wire, cut(rest, more)),
        ),
{
    lemma_read_varint_cut(bytes, more);
}

/// Bytes behind their length that end before `more` read alike without it.
pub proof fn lemma_read_delimited_cut(bytes: Seq<u8>, more: Seq<u8>)
    ensures
        read_delimited(bytes + more) matches Some((body, rest)) ==> more.len() <= rest.len()
            ==> rest == cut(rest, more) + more && read_delimited(bytes) == Some(
            (body, cut(rest, more)),
        ),
{
    lemma_read_varint_cut(bytes, more);
    if let Some((len, behind)) = read_varint(bytes + more) {
        if len + more.len() <= behind.len() {
            let front = cut(behind, more);
            assert(behind.take(len as int) =~= front.take(len as int));
            assert(behind.skip(len as int) =~= front.skip(len as int) + more);
            assert(cut(behind.skip(len as int), more) =~= front.skip(len as int));
        }
    }
}

/// Numbers of a fixed width that end before `more` read alike without it.
pub proof fn lemma_read_fixed_cut(bytes: Seq<u8>, more: Seq<u8>)
    ensures
        read_fixed32(bytes + more) matches Some((value, rest)) ==> more.len() <= rest.len()
            ==> rest == cut(rest, more) + more && read_fixed32(bytes) == Some(
            (value, cut(rest, more)),
        ),
        read_fixed64(bytes + more) matches Some((value, rest)) ==> more.len() <= rest.len()
            ==> rest == cut(rest, more) + more && read_fixed64(bytes) == Some(
            (value, cut(rest, more)),
        ),
{
    if bytes.len() >= 4 {
        assert((bytes + more).take(4) =~= bytes.take(4));
        assert((bytes + more).skip(4) =~= bytes.skip(4) + more);
        assert(cut(bytes.skip(4) + more, more) =~= bytes.skip(4));
    }
    if bytes.len() >= 8 {
        assert((bytes + more).take(8) =~= bytes.take(8));
        assert((bytes + more).skip(8) =~= bytes.skip(8) + more);
        assert(cut(bytes.skip(8) + more, more) =~= bytes.skip(8));
    }
}

/// A field that ends before `more` is passed over alike without it.
pub proof fn lemma_skip_field_cut(
    number: u32,
    wire: u8,
    bytes: Seq<u8>,
    more: Seq<u8>,
    limit: nat,
)
    ensures
        skip_field(number, wire, bytes + more, limit) matches Some(rest) ==> more.len()
            <= rest.len() ==> rest == cut(rest, more) + more && skip_field(
            number,
            wire,
            bytes,
            limit,
        ) == Some(cut(rest, more)),
    decreases limit, bytes.len(), 1nat,
{
    if limit > 0 {
        if wire == START_GROUP {
            lemma_skip_group_cut(number, bytes, more, limit);
        } else {
            lemma_read_varint_cut(bytes, more);
            lemma_read_delimited_cut(bytes, more);
            lemma_read_fixed_cut(bytes, more);
        }
    }
}

proof fn lemma_skip_group_cut(number: u32, bytes: Seq<u8>, more: Seq<u8>, limit: nat)
    ensures
        skip_group(number, bytes + more, limit) matches Some(rest) ==> more.len() <= rest.len()
            ==> rest == cut(rest, more) + more && skip_group(number, bytes, limit) == Some(
            cut(rest, more),
        ),
    decreases limit, bytes.len(), 0nat,
{
    lemma_read_key_cut(bytes, more);
    lemma_read_key_shrinks(bytes);
    lemma_skip_group_shrinks(number, bytes + more, limit);
    if limit > 0 {
        if let Some((inner, wire, rest)) = read_key(bytes + more) {
            if wire != END_GROUP {
                if let Some(after) = skip_field(inner, wire, rest, (limit - 1) as nat) {
                    lemma_skip_shrinks(inner, wire, rest, (limit - 1) as nat);
                    lemma_skip_group_shrinks(number, after, limit);
                    if more.len() <= after.len() {
                        let front = cut(rest, more);
                        lemma_skip_field_cut(inner, wire, front, more, (limit - 1) as nat);
                        lemma_skip_group_cut(number, cut(after, more), more, limit);
                    }
                }
            }
        }
    }
}

// ---------------------------------------------------------------------------
// What the format says
// ---------------------------------------------------------------------------

/// The number that groups of seven bits spell, least significant first.
pub open spec fn grouped_number(bytes: Seq<u8>) -> nat
    decreases bytes.len(),
{
    if bytes.len() == 0 {
        0
    } else {
        (bytes[0] % 128) as nat + 128 * grouped_number(bytes.skip(1))
    }
}

/// A varint spells its number in groups of seven bits. Every byte but the
/// last has its high bit set, the last has not, and there is no byte more than
/// the number needs.
pub proof fn law_a_varint_spells_its_number(value: nat)
    ensures
        grouped_number(varint(value)) == value,
        varint(value).len() > 0,
        varint(value).last() < 128,
        varint(value).len() > 1 ==> varint(value).last() > 0,
        forall|i: int| 0 <= i < varint(value).len() - 1 ==> #[trigger] varint(value)[i] >= 128,
    decreases value,
{
    let bytes = varint(value);
    if value < 128 {
        assert(bytes.skip(1) =~= Seq::empty());
        assert(grouped_number(Seq::empty()) == 0);
        assert(grouped_number(bytes) == value);
    } else {
        let high = varint(value / 128);
        law_a_varint_spells_its_number(value / 128);
        assert(bytes.skip(1) =~= high);
        assert(bytes[0] == (value % 128 + 128) as u8);
        assert(bytes.last() == high.last());
        assert forall|i: int| 0 <= i < bytes.len() - 1 implies #[trigger] bytes[i] >= 128 by {
            if i > 0 {
                assert(bytes[i] == high[i - 1]);
            }
        }
        if high.len() == 1 {
            assert(high.skip(1) =~= Seq::empty());
            assert(grouped_number(high.skip(1)) == 0);
            assert(high.last() == high[0]);
        }
    }
}

/// A number of a fixed width is written with its lowest byte first.
pub proof fn law_a_fixed_number_starts_with_its_lowest_byte(value: nat, width: nat)
    ensures
        little_endian(value, width).len() == width,
        forall|i: int|
            0 <= i < width ==> #[trigger] little_endian(value, width)[i] == (value
                / (vstd::arithmetic::power::pow(256, i as nat) as nat)) % 256,
    decreases width,
{
    if width > 0 {
        let below = (width - 1) as nat;
        let high = little_endian(value / 256, below);
        law_a_fixed_number_starts_with_its_lowest_byte(value / 256, below);
        let bytes = little_endian(value, width);
        assert forall|i: int| 0 <= i < width implies #[trigger] bytes[i] == (value
            / (vstd::arithmetic::power::pow(256, i as nat) as nat)) % 256 by {
            reveal(vstd::arithmetic::power::pow);
            if i == 0 {
                assert(vstd::arithmetic::power::pow(256, 0) == 1);
                assert(value / 1 == value);
                assert(bytes[0] == (value % 256) as u8);
            } else {
                let p = vstd::arithmetic::power::pow(256, (i - 1) as nat);
                vstd::arithmetic::power::lemma_pow_positive(256, (i - 1) as nat);
                assert(bytes[i] == high[i - 1]);
                assert(vstd::arithmetic::power::pow(256, i as nat) == 256 * p);
                vstd::arithmetic::div_mod::lemma_div_denominator(value as int, 256, p);
                assert(high[i - 1] == ((value / 256) / (p as nat)) % 256);
                assert((value / 256) / (p as nat) == value / ((256 * p) as nat));
            }
        }
    }
}

/// A field is its key and its value: the key is the varint of eight times the
/// field number and the wire type, which is 0 for a varint, 1 for eight bytes,
/// 2 for what a length precedes, and 5 for four bytes.
pub proof fn law_a_field_is_a_key_and_a_value(
    number: u32,
    value: u64,
    small: u32,
    body: Seq<u8>,
    text: Seq<char>,
)
    ensures
        varint_field(number, value) == varint((number * 8) as nat) + varint(value as nat),
        fixed64_field(number, value) == varint((number * 8 + 1) as nat) + little_endian(
            value as nat,
            8,
        ),
        fixed32_field(number, small) == varint((number * 8 + 5) as nat) + little_endian(
            small as nat,
            4,
        ),
        bytes_field(number, body) == varint((number * 8 + 2) as nat) + (varint(body.len()) + body),
        string_field(number, text) == bytes_field(number, vstd::utf8::encode_utf8(text)),
        RECURSION_LIMIT == 100,
{
}

/// A field that a message does not have is passed over whole: a varint, four
/// or eight bytes, a length and what it covers, or a group up to the key that
/// ends it. An end key on its own is refused, and so is everything once no
/// level is left.
pub proof fn law_an_unknown_field_is_passed_over_whole(
    number: u32,
    bytes: Seq<u8>,
    limit: nat,
)
    ensures
        limit > 0 ==> skip_field(number, 0, bytes, limit) == rest_of(read_varint(bytes)),
        limit > 0 ==> skip_field(number, 1, bytes, limit) == if bytes.len() >= 8 {
            Some(bytes.skip(8))
        } else {
            None
        },
        limit > 0 ==> skip_field(number, 2, bytes, limit) == rest_of(read_delimited(bytes)),
        limit > 0 ==> skip_field(number, 5, bytes, limit) == if bytes.len() >= 4 {
            Some(bytes.skip(4))
        } else {
            None
        },
        skip_field(number, 4, bytes, limit) is None,
        skip_field(number, 3, bytes, limit) == skip_group(number, bytes, limit),
        forall|wire: u8| #[trigger] skip_field(number, wire, bytes, 0) is None,
        skip_group(number, bytes, 0) is None,
{
}

/// A group ends at the first end key on its own level, which must carry its
/// own number. Before that it may hold any fields, groups among them one level
/// further down.
pub proof fn law_a_group_ends_at_its_own_end_key(number: u32, bytes: Seq<u8>, limit: nat)
    requires
        limit > 0,
    ensures
        read_key(bytes) is None ==> skip_group(number, bytes, limit) is None,
        read_key(bytes) matches Some((inner, 4, rest)) ==> skip_group(number, bytes, limit)
            == if inner == number {
            Some(rest)
        } else {
            None
        },
        read_key(bytes) matches Some((inner, wire, rest)) ==> (wire != 4 ==> match skip_field(
            inner,
            wire,
            rest,
            (limit - 1) as nat,
        ) {
            Some(after) => skip_group(number, bytes, limit) == skip_group(number, after, limit),
            None => skip_group(number, bytes, limit) is None,
        }),
{
    lemma_read_key_shrinks(bytes);
    if let Some((inner, wire, rest)) = read_key(bytes) {
        lemma_skip_shrinks(inner, wire, rest, (limit - 1) as nat);
    }
}

/// Why a group is refused: what is wrong with the first field that cannot be
/// passed over, or an end key that belongs to another group.
pub proof fn law_a_group_is_refused_for_its_first_fault(
    number: u32,
    bytes: Seq<u8>,
    limit: nat,
)
    requires
        limit > 0,
    ensures
        read_key(bytes) is None ==> skip_group_reason(number, bytes, limit) == key_reason(bytes),
        read_key(bytes) matches Some((_, 4, _)) ==> skip_group_reason(number, bytes, limit)
            == "unexpected end group tag"@,
        read_key(bytes) matches Some((inner, wire, rest)) ==> (wire != 4 ==> match skip_field(
            inner,
            wire,
            rest,
            (limit - 1) as nat,
        ) {
            Some(after) => skip_group_reason(number, bytes, limit) == skip_group_reason(
                number,
                after,
                limit,
            ),
            None => skip_group_reason(number, bytes, limit) == skip_field_reason(
                inner,
                wire,
                rest,
                (limit - 1) as nat,
            ),
        }),
        skip_field_reason(number, 3, bytes, limit) == skip_group_reason(number, bytes, limit),
        forall|wire: u8|
            #[trigger] skip_field_reason(number, wire, bytes, 0) == "recursion limit reached"@,
{
    lemma_read_key_shrinks(bytes);
    if let Some((inner, wire, rest)) = read_key(bytes) {
        lemma_skip_shrinks(inner, wire, rest, (limit - 1) as nat);
    }
}

/// What is wrong with bytes that cannot be read, in words.
pub proof fn law_a_reason_says_what_is_wrong(wire: u8, bytes: Seq<u8>, number: u32, limit: nat)
    requires
        limit > 0,
    ensures
        wire_name(0) == "Varint"@,
        wire_name(1) == "SixtyFourBit"@,
        wire_name(2) == "LengthDelimited"@,
        wire_name(3) == "StartGroup"@,
        wire_name(4) == "EndGroup"@,
        wire_name(5) == "ThirtyTwoBit"@,
        wire != 0 ==> varint_reason(wire) == "invalid wire type: "@ + wire_name(wire)
            + " (expected "@ + "Varint"@ + ")"@,
        varint_reason(0) == "invalid varint"@,
        wire != 5 ==> fixed_reason(wire, 5) == "invalid wire type: "@ + wire_name(wire)
            + " (expected "@ + "ThirtyTwoBit"@ + ")"@,
        fixed_reason(5, 5) == "buffer underflow"@,
        wire != 1 ==> fixed_reason(wire, 1) == "invalid wire type: "@ + wire_name(wire)
            + " (expected "@ + "SixtyFourBit"@ + ")"@,
        fixed_reason(1, 1) == "buffer underflow"@,
        wire != 2 ==> bytes_reason(wire, bytes) == "invalid wire type: "@ + wire_name(wire)
            + " (expected "@ + "LengthDelimited"@ + ")"@,
        read_varint(bytes) is None ==> bytes_reason(2, bytes) == "invalid varint"@,
        read_varint(bytes) is Some ==> bytes_reason(2, bytes) == "buffer underflow"@,
        read_bytes_value(wire, bytes) is None ==> string_reason(wire, bytes) == bytes_reason(
            wire,
            bytes,
        ),
        read_bytes_value(wire, bytes) is Some ==> string_reason(wire, bytes)
            == "invalid string value: data is not UTF-8 encoded"@,
        read_varint(bytes) is None ==> key_reason(bytes) == "invalid varint"@,
        read_varint(bytes) matches Some((k, _)) ==> {
            &&& k > u32::MAX ==> key_reason(bytes) == "invalid key value: "@ + text::decimal(
                k as nat,
            )
            &&& k <= u32::MAX && k % 8 > 5 ==> key_reason(bytes) == "invalid wire type value: "@
                + text::decimal((k % 8) as nat)
            &&& k <= u32::MAX && k % 8 <= 5 ==> key_reason(bytes) == "invalid tag value: 0"@
        },
        skip_field_reason(number, 0, bytes, limit) == "invalid varint"@,
        skip_field_reason(number, 1, bytes, limit) == "buffer underflow"@,
        skip_field_reason(number, 5, bytes, limit) == "buffer underflow"@,
        skip_field_reason(number, 2, bytes, limit) == bytes_reason(2, bytes),
        skip_field_reason(number, 4, bytes, limit) == "unexpected end group tag"@,
{
}

} // verus!
