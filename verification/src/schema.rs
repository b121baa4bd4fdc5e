//! The messages of the Sparkplug schema, and which bytes spell one.
//!
//! A nested message stands in the middle of the message that holds it, and
//! its fields are read from what is left of the whole. So a field may run
//! past the end of its message, which shows only once it has been read. This
//! module says which bytes the schema accepts, down to the last level, and
//! of those that it does not accept, why not and where.

use crate::wire::{self, Fault};
use vstd::prelude::*;

verus! {

/// A message of the Sparkplug schema.
#[derive(Debug, Clone, Copy, PartialEq, Eq)]
pub enum MessageKind {
    Payload,
    Metric,
    MetaData,
    PropertySet,
    PropertyValue,
    PropertySetList,
    DataSet,
    DataSetValue,
    Row,
    Template,
    Parameter,
    /// A message that declares no field of its own.
    Extension,
}

/// How the schema lays out one field.
#[derive(Debug, Clone, Copy, PartialEq, Eq)]
pub enum FieldType {
    /// A number or a flag in a varint.
    Varint,
    /// A repeated number, one to a field or packed behind one length.
    RepeatedVarint,
    Fixed32,
    Fixed64,
    Text,
    Bytes,
    Nested(MessageKind),
    /// No field of the message has this number.
    Unknown,
}

/// The field table of the schema.
#[verifier::opaque]
pub open spec fn field_type(kind: MessageKind, number: u32) -> FieldType {
    match kind {
        MessageKind::Payload => match number {
            1 => FieldType::Varint,  // timestamp
            2 => FieldType::Nested(MessageKind::Metric),  // metrics
            3 => FieldType::Varint,  // seq
            4 => FieldType::Text,  // uuid
            5 => FieldType::Bytes,  // body
            _ => FieldType::Unknown,
        },
        MessageKind::Metric => match number {
            1 => FieldType::Text,  // name
            2 => FieldType::Varint,  // alias
            3 => FieldType::Varint,  // timestamp
            4 => FieldType::Varint,  // datatype
            5 => FieldType::Varint,  // is_historical
            6 => FieldType::Varint,  // is_transient
            7 => FieldType::Varint,  // is_null
            8 => FieldType::Nested(MessageKind::MetaData),  // metadata
            9 => FieldType::Nested(MessageKind::PropertySet),  // properties
            10 => FieldType::Varint,  // int_value
            11 => FieldType::Varint,  // long_value
            12 => FieldType::Fixed32,  // float_value
            13 => FieldType::Fixed64,  // double_value
            14 => FieldType::Varint,  // boolean_value
            15 => FieldType::Text,  // string_value
            16 => FieldType::Bytes,  // bytes_value
            17 => FieldType::Nested(MessageKind::DataSet),  // dataset_value
            18 => FieldType::Nested(MessageKind::Template),  // template_value
            19 => FieldType::Nested(MessageKind::Extension),  // extension_value
            _ => FieldType::Unknown,
        },
        MessageKind::MetaData => match number {
            1 => FieldType::Varint,  // is_multi_part
            2 => FieldType::Text,  // content_type
            3 => FieldType::Varint,  // size
            4 => FieldType::Varint,  // seq
            5 => FieldType::Text,  // file_name
            6 => FieldType::Text,  // file_type
            7 => FieldType::Text,  // md5
            8 => FieldType::Text,  // description
            _ => FieldType::Unknown,
        },
        MessageKind::PropertySet => match number {
            1 => FieldType::Text,  // keys
            2 => FieldType::Nested(MessageKind::PropertyValue),  // values
            _ => FieldType::Unknown,
        },
        MessageKind::PropertyValue => match number {
            1 => FieldType::Varint,  // type
            2 => FieldType::Varint,  // is_null
            3 => FieldType::Varint,  // int_value
            4 => FieldType::Varint,  // long_value
            5 => FieldType::Fixed32,  // float_value
            6 => FieldType::Fixed64,  // double_value
            7 => FieldType::Varint,  // boolean_value
            8 => FieldType::Text,  // string_value
            9 => FieldType::Nested(MessageKind::PropertySet),  // propertyset_value
            10 => FieldType::Nested(MessageKind::PropertySetList),  // propertysets_value
            11 => FieldType::Nested(MessageKind::Extension),  // extension_value
            _ => FieldType::Unknown,
        },
        MessageKind::PropertySetList => match number {
            1 => FieldType::Nested(MessageKind::PropertySet),  // propertyset
            _ => FieldType::Unknown,
        },
        MessageKind::DataSet => match number {
            1 => FieldType::Varint,  // num_of_columns
            2 => FieldType::Text,  // columns
            3 => FieldType::RepeatedVarint,  // types
            4 => FieldType::Nested(MessageKind::Row),  // rows
            _ => FieldType::Unknown,
        },
        MessageKind::DataSetValue => match number {
            1 => FieldType::Varint,  // int_value
            2 => FieldType::Varint,  // long_value
            3 => FieldType::Fixed32,  // float_value
            4 => FieldType::Fixed64,  // double_value
            5 => FieldType::Varint,  // boolean_value
            6 => FieldType::Text,  // string_value
            7 => FieldType::Nested(MessageKind::Extension),  // extension_value
            _ => FieldType::Unknown,
        },
        MessageKind::Row => match number {
            1 => FieldType::Nested(MessageKind::DataSetValue),  // elements
            _ => FieldType::Unknown,
        },
        MessageKind::Template => match number {
            1 => FieldType::Text,  // version
            2 => FieldType::Nested(MessageKind::Metric),  // metrics
            3 => FieldType::Nested(MessageKind::Parameter),  // parameters
            4 => FieldType::Text,  // template_ref
            5 => FieldType::Varint,  // is_definition
            _ => FieldType::Unknown,
        },
        MessageKind::Parameter => match number {
            1 => FieldType::Text,  // name
            2 => FieldType::Varint,  // type
            3 => FieldType::Varint,  // int_value
            4 => FieldType::Varint,  // long_value
            5 => FieldType::Fixed32,  // float_value
            6 => FieldType::Fixed64,  // double_value
            7 => FieldType::Varint,  // boolean_value
            8 => FieldType::Text,  // string_value
            9 => FieldType::Nested(MessageKind::Extension),  // extension_value
            _ => FieldType::Unknown,
        },
        MessageKind::Extension => FieldType::Unknown,
    }
}

/// The name of a message.
pub open spec fn message_name(kind: MessageKind) -> Seq<char> {
    match kind {
        MessageKind::Payload => "Payload"@,
        MessageKind::Metric => "Metric"@,
        MessageKind::MetaData => "MetaData"@,
        MessageKind::PropertySet => "PropertySet"@,
        MessageKind::PropertyValue => "PropertyValue"@,
        MessageKind::PropertySetList => "PropertySetList"@,
        MessageKind::DataSet => "DataSet"@,
        MessageKind::DataSetValue => "DataSetValue"@,
        MessageKind::Row => "Row"@,
        MessageKind::Template => "Template"@,
        MessageKind::Parameter => "Parameter"@,
        MessageKind::Extension => ""@,
    }
}

/// The name of field `number` of a message, where the message has that
/// field. The values of which a message holds one share a name.
pub open spec fn field_name(kind: MessageKind, number: u32) -> Seq<char> {
    match kind {
        MessageKind::Payload => match number {
            1 => "timestamp"@,
            2 => "metrics"@,
            3 => "seq"@,
            4 => "uuid"@,
            _ => "body"@,
        },
        MessageKind::Metric => match number {
            1 => "name"@,
            2 => "alias"@,
            3 => "timestamp"@,
            4 => "datatype"@,
            5 => "is_historical"@,
            6 => "is_transient"@,
            7 => "is_null"@,
            8 => "metadata"@,
            9 => "properties"@,
            _ => "value"@,
        },
        MessageKind::MetaData => match number {
            1 => "is_multi_part"@,
            2 => "content_type"@,
            3 => "size"@,
            4 => "seq"@,
            5 => "file_name"@,
            6 => "file_type"@,
            7 => "md5"@,
            _ => "description"@,
        },
        MessageKind::PropertySet => match number {
            1 => "keys"@,
            _ => "values"@,
        },
        MessageKind::PropertyValue => match number {
            1 => "r#type"@,
            2 => "is_null"@,
            _ => "value"@,
        },
        MessageKind::PropertySetList => match number {
            _ => "propertyset"@,
        },
        MessageKind::DataSet => match number {
            1 => "num_of_columns"@,
            2 => "columns"@,
            3 => "types"@,
            _ => "rows"@,
        },
        MessageKind::DataSetValue => "value"@,
        MessageKind::Row => match number {
            _ => "elements"@,
        },
        MessageKind::Template => match number {
            1 => "version"@,
            2 => "metrics"@,
            3 => "parameters"@,
            4 => "template_ref"@,
            _ => "is_definition"@,
        },
        MessageKind::Parameter => match number {
            1 => "name"@,
            2 => "r#type"@,
            _ => "value"@,
        },
        MessageKind::Extension => ""@,
    }
}

/// A fault, with the field that it was found in behind its location.
pub open spec fn located(kind: MessageKind, number: u32, fault: Fault) -> Fault {
    if field_type(kind, number) == FieldType::Unknown {
        fault
    } else {
        Fault {
            trail: fault.trail.push((message_name(kind), field_name(kind, number))),
            reason: fault.reason,
        }
    }
}

/// What a read leaves, or why it failed.
pub open spec fn left_by<T>(read: Option<(T, Seq<u8>)>, reason: Seq<char>) -> Result<
    Seq<u8>,
    Fault,
> {
    match read {
        Some((_, rest)) => Ok(rest),
        None => Err(wire::fault(reason)),
    }
}

/// Read the length of what is nested: what follows it, and how much of that
/// is left where the nested part ends.
pub open spec fn enter(bytes: Seq<u8>) -> Result<(Seq<u8>, nat), Fault> {
    match wire::read_varint(bytes) {
        Some((len, rest)) => if len <= rest.len() {
            Ok((rest, (rest.len() - len) as nat))
        } else {
            Err(wire::fault("buffer underflow"@))
        },
        None => Err(wire::fault("invalid varint"@)),
    }
}

/// Nothing is left before `stop`: reading ended there, or behind it.
pub open spec fn leave(bytes: Seq<u8>, stop: nat) -> Result<Seq<u8>, Fault> {
    if bytes.len() == stop {
        Ok(bytes)
    } else {
        Err(wire::fault("delimited length exceeded"@))
    }
}

/// Read varints until no more than `stop` bytes are left.
pub open spec fn pass_packed(bytes: Seq<u8>, stop: nat) -> Result<Seq<u8>, Fault>
    decreases bytes.len(),
{
    if bytes.len() <= stop {
        leave(bytes, stop)
    } else {
        match wire::read_varint(bytes) {
            Some((_, rest)) => if rest.len() < bytes.len() {
                pass_packed(rest, stop)
            } else {
                Ok(rest)
            },
            None => Err(wire::fault("invalid varint"@)),
        }
    }
}

/// Read the value of one field: what follows it, or why it is not accepted.
///
/// `limit` is how many more levels of messages may open.
pub open spec fn pass_field(
    kind: MessageKind,
    number: u32,
    wire: u8,
    bytes: Seq<u8>,
    limit: nat,
) -> Result<Seq<u8>, Fault>
    decreases limit, bytes.len(), 1nat,
{
    match field_type(kind, number) {
        FieldType::Varint => left_by(
            wire::read_varint_value(wire, bytes),
            wire::varint_reason(wire),
        ),
        FieldType::RepeatedVarint => if wire == wire::LENGTH_DELIMITED {
            match enter(bytes) {
                Ok((rest, stop)) => pass_packed(rest, stop),
                Err(fault) => Err(fault),
            }
        } else {
            left_by(wire::read_varint_value(wire, bytes), wire::varint_reason(wire))
        },
        FieldType::Fixed32 => left_by(
            wire::read_fixed32_value(wire, bytes),
            wire::fixed_reason(wire, wire::THIRTY_TWO_BIT),
        ),
        FieldType::Fixed64 => left_by(
            wire::read_fixed64_value(wire, bytes),
            wire::fixed_reason(wire, wire::SIXTY_FOUR_BIT),
        ),
        FieldType::Text => left_by(
            wire::read_string_value(wire, bytes),
            wire::string_reason(wire, bytes),
        ),
        FieldType::Bytes => left_by(
            wire::read_bytes_value(wire, bytes),
            wire::bytes_reason(wire, bytes),
        ),
        FieldType::Nested(inner) => if wire != wire::LENGTH_DELIMITED {
            Err(wire::fault(wire::wrong_wire(wire, wire::LENGTH_DELIMITED)))
        } else if limit == 0 {
            Err(wire::fault("recursion limit reached"@))
        } else {
            match enter(bytes) {
                Ok((rest, stop)) => pass_message(inner, rest, stop, (limit - 1) as nat),
                Err(fault) => Err(fault),
            }
        },
        FieldType::Unknown => match wire::skip_field(number, wire, bytes, limit) {
            Some(rest) => Ok(rest),
            None => Err(wire::fault(wire::skip_field_reason(number, wire, bytes, limit))),
        },
    }
}

/// Read the fields of a message until no more than `stop` bytes are left.
pub open spec fn pass_message(kind: MessageKind, bytes: Seq<u8>, stop: nat, limit: nat) -> Result<
    Seq<u8>,
    Fault,
>
    decreases limit, bytes.len(), 0nat,
{
    if bytes.len() <= stop {
        leave(bytes, stop)
    } else {
        match wire::read_key(bytes) {
            Some((number, wire, rest)) => if rest.len() < bytes.len() {
                match pass_field(kind, number, wire, rest, limit) {
                    Ok(after) => if after.len() < bytes.len() {
                        pass_message(kind, after, stop, limit)
                    } else {
                        Ok(after)
                    },
                    Err(fault) => Err(located(kind, number, fault)),
                }
            } else {
                Ok(rest)
            },
            None => Err(wire::fault(wire::key_reason(bytes))),
        }
    }
}

/// The schema accepts `bytes` as a message of this kind.
pub open spec fn accepts(kind: MessageKind, bytes: Seq<u8>, limit: nat) -> bool {
    pass_message(kind, bytes, 0, limit) is Ok
}

/// Why the schema does not accept `bytes`, and where.
pub open spec fn fault_in(kind: MessageKind, bytes: Seq<u8>, limit: nat) -> Fault {
    pass_message(kind, bytes, 0, limit)->Err_0
}

/// How the schema lays out field `number` of a message.
pub(crate) fn field_type_of(kind: MessageKind, number: u32) -> (field: FieldType)
    ensures
        field == field_type(kind, number),
{
    proof {
        reveal(field_type);
    }
    match kind {
        MessageKind::Payload => match number {
            1 | 3 => FieldType::Varint,
            2 => FieldType::Nested(MessageKind::Metric),
            4 => FieldType::Text,
            5 => FieldType::Bytes,
            _ => FieldType::Unknown,
        },
        MessageKind::Metric => match number {
            1 | 15 => FieldType::Text,
            2 | 3 | 4 | 5 | 6 | 7 | 10 | 11 | 14 => FieldType::Varint,
            8 => FieldType::Nested(MessageKind::MetaData),
            9 => FieldType::Nested(MessageKind::PropertySet),
            12 => FieldType::Fixed32,
            13 => FieldType::Fixed64,
            16 => FieldType::Bytes,
            17 => FieldType::Nested(MessageKind::DataSet),
            18 => FieldType::Nested(MessageKind::Template),
            19 => FieldType::Nested(MessageKind::Extension),
            _ => FieldType::Unknown,
        },
        MessageKind::MetaData => match number {
            1 | 3 | 4 => FieldType::Varint,
            2 | 5 | 6 | 7 | 8 => FieldType::Text,
            _ => FieldType::Unknown,
        },
        MessageKind::PropertySet => match number {
            1 => FieldType::Text,
            2 => FieldType::Nested(MessageKind::PropertyValue),
            _ => FieldType::Unknown,
        },
        MessageKind::PropertyValue => match number {
            1 | 2 | 3 | 4 | 7 => FieldType::Varint,
            5 => FieldType::Fixed32,
            6 => FieldType::Fixed64,
            8 => FieldType::Text,
            9 => FieldType::Nested(MessageKind::PropertySet),
            10 => FieldType::Nested(MessageKind::PropertySetList),
            11 => FieldType::Nested(MessageKind::Extension),
            _ => FieldType::Unknown,
        },
        MessageKind::PropertySetList => match number {
            1 => FieldType::Nested(MessageKind::PropertySet),
            _ => FieldType::Unknown,
        },
        MessageKind::DataSet => match number {
            1 => FieldType::Varint,
            2 => FieldType::Text,
            3 => FieldType::RepeatedVarint,
            4 => FieldType::Nested(MessageKind::Row),
            _ => FieldType::Unknown,
        },
        MessageKind::DataSetValue => match number {
            1 | 2 | 5 => FieldType::Varint,
            3 => FieldType::Fixed32,
            4 => FieldType::Fixed64,
            6 => FieldType::Text,
            7 => FieldType::Nested(MessageKind::Extension),
            _ => FieldType::Unknown,
        },
        MessageKind::Row => match number {
            1 => FieldType::Nested(MessageKind::DataSetValue),
            _ => FieldType::Unknown,
        },
        MessageKind::Template => match number {
            1 | 4 => FieldType::Text,
            2 => FieldType::Nested(MessageKind::Metric),
            3 => FieldType::Nested(MessageKind::Parameter),
            5 => FieldType::Varint,
            _ => FieldType::Unknown,
        },
        MessageKind::Parameter => match number {
            1 | 8 => FieldType::Text,
            2 | 3 | 4 | 7 => FieldType::Varint,
            5 => FieldType::Fixed32,
            6 => FieldType::Fixed64,
            9 => FieldType::Nested(MessageKind::Extension),
            _ => FieldType::Unknown,
        },
        MessageKind::Extension => FieldType::Unknown,
    }
}

/// The name of a message.
fn name_of(kind: MessageKind) -> (name: &'static str)
    ensures
        name@ == message_name(kind),
{
    match kind {
        MessageKind::Payload => "Payload",
        MessageKind::Metric => "Metric",
        MessageKind::MetaData => "MetaData",
        MessageKind::PropertySet => "PropertySet",
        MessageKind::PropertyValue => "PropertyValue",
        MessageKind::PropertySetList => "PropertySetList",
        MessageKind::DataSet => "DataSet",
        MessageKind::DataSetValue => "DataSetValue",
        MessageKind::Row => "Row",
        MessageKind::Template => "Template",
        MessageKind::Parameter => "Parameter",
        MessageKind::Extension => "",
    }
}

/// The name of field `number` of a message.
fn field_name_of(kind: MessageKind, number: u32) -> (name: &'static str)
    ensures
        name@ == field_name(kind, number),
{
    match kind {
        MessageKind::Payload => match number {
            1 => "timestamp",
            2 => "metrics",
            3 => "seq",
            4 => "uuid",
            _ => "body",
        },
        MessageKind::Metric => match number {
            1 => "name",
            2 => "alias",
            3 => "timestamp",
            4 => "datatype",
            5 => "is_historical",
            6 => "is_transient",
            7 => "is_null",
            8 => "metadata",
            9 => "properties",
            _ => "value",
        },
        MessageKind::MetaData => match number {
            1 => "is_multi_part",
            2 => "content_type",
            3 => "size",
            4 => "seq",
            5 => "file_name",
            6 => "file_type",
            7 => "md5",
            _ => "description",
        },
        MessageKind::PropertySet => match number {
            1 => "keys",
            _ => "values",
        },
        MessageKind::PropertyValue => match number {
            1 => "r#type",
            2 => "is_null",
            _ => "value",
        },
        MessageKind::PropertySetList => match number {
            _ => "propertyset",
        },
        MessageKind::DataSet => match number {
            1 => "num_of_columns",
            2 => "columns",
            3 => "types",
            _ => "rows",
        },
        MessageKind::DataSetValue => "value",
        MessageKind::Row => match number {
            _ => "elements",
        },
        MessageKind::Template => match number {
            1 => "version",
            2 => "metrics",
            3 => "parameters",
            4 => "template_ref",
            _ => "is_definition",
        },
        MessageKind::Parameter => match number {
            1 => "name",
            2 => "r#type",
            _ => "value",
        },
        MessageKind::Extension => "",
    }
}

/// Put the field that an error was found in behind its location.
fn locate(kind: MessageKind, number: u32, error: prost::DecodeError) -> (located_error:
    prost::DecodeError)
    ensures
        wire::error_fault(located_error) == located(kind, number, wire::error_fault(error)),
{
    let mut error = error;
    match field_type_of(kind, number) {
        FieldType::Unknown => {},
        _ => wire::push_location(&mut error, name_of(kind), field_name_of(kind, number)),
    }
    error
}

/// What a run of reads came to.
pub open spec fn outcome(read: Result<&[u8], prost::DecodeError>) -> Result<Seq<u8>, Fault> {
    match read {
        Ok(rest) => Ok(rest@),
        Err(error) => Err(wire::error_fault(error)),
    }
}

/// Read the length of what is nested.
fn open_nested(bytes: &[u8]) -> (opened: Result<(&[u8], usize), prost::DecodeError>)
    ensures
        match opened {
            Ok((rest, stop)) => enter(bytes@) == Ok::<(Seq<u8>, nat), Fault>((rest@, stop as nat)),
            Err(error) => enter(bytes@) == Err::<(Seq<u8>, nat), Fault>(wire::error_fault(error)),
        },
        opened matches Ok((rest, _)) ==> rest@.len() < bytes@.len(),
{
    proof {
        wire::lemma_read_varint_shrinks(bytes@);
    }
    let (len, rest) = match wire::take_varint(wire::VARINT, bytes) {
        Ok(read) => read,
        Err(error) => return Err(error),
    };
    if len > rest.len() as u64 {
        return Err(wire::decode_error("buffer underflow"));
    }
    Ok((rest, rest.len() - len as usize))
}

/// Check that reading ended at `stop`.
fn close_nested(bytes: &[u8], stop: usize) -> (closed: Result<&[u8], prost::DecodeError>)
    ensures
        outcome(closed) == leave(bytes@, stop as nat),
{
    if bytes.len() == stop {
        Ok(bytes)
    } else {
        Err(wire::decode_error("delimited length exceeded"))
    }
}

/// Read varints until no more than `stop` bytes are left.
fn check_packed(bytes: &[u8], stop: usize) -> (checked: Result<&[u8], prost::DecodeError>)
    ensures
        outcome(checked) == pass_packed(bytes@, stop as nat),
{
    let mut left = bytes;
    while left.len() > stop
        invariant
            pass_packed(left@, stop as nat) == pass_packed(bytes@, stop as nat),
        decreases left@.len(),
    {
        proof {
            wire::lemma_read_varint_shrinks(left@);
        }
        let (_, rest) = match wire::take_varint(wire::VARINT, left) {
            Ok(read) => read,
            Err(error) => return Err(error),
        };
        left = rest;
    }
    close_nested(left, stop)
}

/// Read the value of one field, and check it against the schema.
fn check_field(kind: MessageKind, number: u32, wire: u8, bytes: &[u8], limit: u32) -> (rest: Result<
    &[u8],
    prost::DecodeError,
>)
    requires
        wire <= 5,
    ensures
        outcome(rest) == pass_field(kind, number, wire, bytes@, limit as nat),
    decreases limit, bytes@.len(), 1nat,
{
    match field_type_of(kind, number) {
        FieldType::Varint => match wire::take_varint(wire, bytes) {
            Ok((_, rest)) => Ok(rest),
            Err(error) => Err(error),
        },
        FieldType::RepeatedVarint => if wire == wire::LENGTH_DELIMITED {
            match open_nested(bytes) {
                Ok((rest, stop)) => check_packed(rest, stop),
                Err(error) => Err(error),
            }
        } else {
            match wire::take_varint(wire, bytes) {
                Ok((_, rest)) => Ok(rest),
                Err(error) => Err(error),
            }
        },
        FieldType::Fixed32 => match wire::take_fixed32(wire, bytes) {
            Ok((_, rest)) => Ok(rest),
            Err(error) => Err(error),
        },
        FieldType::Fixed64 => match wire::take_fixed64(wire, bytes) {
            Ok((_, rest)) => Ok(rest),
            Err(error) => Err(error),
        },
        FieldType::Text => match wire::take_string(wire, bytes) {
            Ok((_, rest)) => Ok(rest),
            Err(error) => Err(error),
        },
        FieldType::Bytes => match wire::take_bytes(wire, bytes) {
            Ok((_, rest)) => Ok(rest),
            Err(error) => Err(error),
        },
        FieldType::Nested(inner) => {
            if wire != wire::LENGTH_DELIMITED {
                return match wire::take_bytes(wire, bytes) {
                    Ok((_, rest)) => Ok(rest),
                    Err(error) => Err(error),
                };
            }
            if limit == 0 {
                return Err(wire::decode_error("recursion limit reached"));
            }
            match open_nested(bytes) {
                Ok((rest, stop)) => check_part(inner, rest, stop, limit - 1),
                Err(error) => Err(error),
            }
        },
        FieldType::Unknown => wire::drop_field(number, wire, bytes, limit),
    }
}

/// Read the fields of a message until no more than `stop` bytes are left.
fn check_part(kind: MessageKind, bytes: &[u8], stop: usize, limit: u32) -> (rest: Result<
    &[u8],
    prost::DecodeError,
>)
    ensures
        outcome(rest) == pass_message(kind, bytes@, stop as nat, limit as nat),
    decreases limit, bytes@.len(), 0nat,
{
    let mut left = bytes;
    while left.len() > stop
        invariant
            left@.len() <= bytes@.len(),
            pass_message(kind, left@, stop as nat, limit as nat) == pass_message(
                kind,
                bytes@,
                stop as nat,
                limit as nat,
            ),
        decreases left@.len(),
    {
        proof {
            wire::lemma_read_key_shrinks(left@);
        }
        let (number, wire, rest) = match wire::take_key(left) {
            Ok(read) => read,
            Err(error) => return Err(error),
        };
        proof {
            lemma_pass_field_shrinks(kind, number, wire, rest@, limit as nat);
        }
        left = match check_field(kind, number, wire, rest, limit) {
            Ok(after) => after,
            Err(error) => return Err(locate(kind, number, error)),
        };
    }
    close_nested(left, stop)
}

/// Check that `bytes` spell a message of this kind.
pub(crate) fn check_message(kind: MessageKind, bytes: &[u8], limit: u32) -> (checked: Result<
    (),
    prost::DecodeError,
>)
    ensures
        match checked {
            Ok(()) => accepts(kind, bytes@, limit as nat),
            Err(error) => {
                &&& !accepts(kind, bytes@, limit as nat)
                &&& wire::error_fault(error) == fault_in(kind, bytes@, limit as nat)
            },
        },
{
    match check_part(kind, bytes, 0, limit) {
        Ok(_) => Ok(()),
        Err(error) => Err(error),
    }
}

/// Reading packed varints leaves no more bytes than there were.
proof fn lemma_pass_packed_shrinks(bytes: Seq<u8>, stop: nat)
    ensures
        pass_packed(bytes, stop) matches Ok(rest) ==> rest.len() <= bytes.len(),
    decreases bytes.len(),
{
    wire::lemma_read_varint_shrinks(bytes);
    if bytes.len() > stop {
        if let Some((_, rest)) = wire::read_varint(bytes) {
            lemma_pass_packed_shrinks(rest, stop);
        }
    }
}

/// Reading a field leaves no more bytes than there were.
pub proof fn lemma_pass_field_shrinks(
    kind: MessageKind,
    number: u32,
    wire: u8,
    bytes: Seq<u8>,
    limit: nat,
)
    ensures
        pass_field(kind, number, wire, bytes, limit) matches Ok(rest) ==> rest.len()
            <= bytes.len(),
    decreases limit, bytes.len(), 1nat,
{
    wire::lemma_read_varint_shrinks(bytes);
    wire::lemma_skip_shrinks(number, wire, bytes, limit);
    if let Ok((rest, stop)) = enter(bytes) {
        lemma_pass_packed_shrinks(rest, stop);
        if let FieldType::Nested(inner) = field_type(kind, number) {
            if limit > 0 {
                lemma_pass_message_shrinks(inner, rest, stop, (limit - 1) as nat);
            }
        }
    }
}

proof fn lemma_pass_message_shrinks(kind: MessageKind, bytes: Seq<u8>, stop: nat, limit: nat)
    ensures
        pass_message(kind, bytes, stop, limit) matches Ok(rest) ==> rest.len() <= bytes.len(),
    decreases limit, bytes.len(), 0nat,
{
    wire::lemma_read_key_shrinks(bytes);
    if bytes.len() > stop {
        if let Some((number, wire, rest)) = wire::read_key(bytes) {
            lemma_pass_field_shrinks(kind, number, wire, rest, limit);
            if let Ok(after) = pass_field(kind, number, wire, rest, limit) {
                lemma_pass_message_shrinks(kind, after, stop, limit);
            }
        }
    }
}

// ---------------------------------------------------------------------------
// A nested message that is accepted where it stands is accepted by itself
// ---------------------------------------------------------------------------

/// Reading ends where it was to stop, or fails.
pub proof fn lemma_pass_message_stops(kind: MessageKind, bytes: Seq<u8>, stop: nat, limit: nat)
    ensures
        pass_message(kind, bytes, stop, limit) matches Ok(rest) ==> rest.len() == stop
            && bytes.len() >= stop,
    decreases limit, bytes.len(), 0nat,
{
    wire::lemma_read_key_shrinks(bytes);
    if bytes.len() > stop {
        if let Some((number, wire, rest)) = wire::read_key(bytes) {
            lemma_pass_field_shrinks(kind, number, wire, rest, limit);
            if let Ok(after) = pass_field(kind, number, wire, rest, limit) {
                lemma_pass_message_stops(kind, after, stop, limit);
            }
        }
    }
}

proof fn lemma_pass_packed_stops(bytes: Seq<u8>, stop: nat)
    ensures
        pass_packed(bytes, stop) matches Ok(rest) ==> rest.len() == stop && bytes.len() >= stop,
    decreases bytes.len(),
{
    wire::lemma_read_varint_shrinks(bytes);
    if bytes.len() > stop {
        if let Some((_, rest)) = wire::read_varint(bytes) {
            lemma_pass_packed_stops(rest, stop);
        }
    }
}

proof fn lemma_pass_packed_cut(bytes: Seq<u8>, more: Seq<u8>, stop: nat)
    requires
        pass_packed(bytes + more, stop) is Ok,
        more.len() <= stop,
    ensures
        pass_packed(bytes, (stop - more.len()) as nat) == Ok::<Seq<u8>, Fault>(
            wire::cut(pass_packed(bytes + more, stop)->Ok_0, more),
        ),
        pass_packed(bytes + more, stop)->Ok_0 == wire::cut(
            pass_packed(bytes + more, stop)->Ok_0,
            more,
        ) + more,
    decreases bytes.len(),
{
    let all = bytes + more;
    lemma_pass_packed_stops(all, stop);
    if all.len() <= stop {
        assert(wire::cut(all, more) =~= bytes);
    } else {
        let (_, rest) = wire::read_varint(all).unwrap();
        wire::lemma_read_varint_shrinks(all);
        lemma_pass_packed_stops(rest, stop);
        wire::lemma_read_varint_cut(bytes, more);
        wire::lemma_read_varint_shrinks(bytes);
        lemma_pass_packed_cut(wire::cut(rest, more), more, stop);
    }
}

proof fn lemma_enter_cut(bytes: Seq<u8>, more: Seq<u8>)
    ensures
        enter(bytes + more) matches Ok((rest, stop)) ==> more.len() <= stop ==> enter(bytes) == Ok::<
            (Seq<u8>, nat),
            Fault,
        >((wire::cut(rest, more), (stop - more.len()) as nat)) && rest == wire::cut(rest, more)
            + more,
{
    wire::lemma_read_varint_cut(bytes, more);
}

/// A field that ends before `more` is read alike without it.
pub proof fn lemma_pass_field_cut(
    kind: MessageKind,
    number: u32,
    wire: u8,
    bytes: Seq<u8>,
    more: Seq<u8>,
    limit: nat,
)
    ensures
        pass_field(kind, number, wire, bytes + more, limit) matches Ok(rest) ==> more.len()
            <= rest.len() ==> rest == wire::cut(rest, more) + more && pass_field(
            kind,
            number,
            wire,
            bytes,
            limit,
        ) == Ok::<Seq<u8>, Fault>(wire::cut(rest, more)),
    decreases limit, bytes.len(), 1nat,
{
    let all = bytes + more;
    match field_type(kind, number) {
        FieldType::Varint => wire::lemma_read_varint_cut(bytes, more),
        FieldType::RepeatedVarint => {
            wire::lemma_read_varint_cut(bytes, more);
            if wire == wire::LENGTH_DELIMITED {
                if let Ok((rest, stop)) = enter(all) {
                    lemma_pass_packed_stops(rest, stop);
                    if pass_packed(rest, stop) is Ok && more.len() <= stop {
                        lemma_enter_cut(bytes, more);
                        lemma_pass_packed_cut(wire::cut(rest, more), more, stop);
                    }
                }
            }
        },
        FieldType::Fixed32 => wire::lemma_read_fixed_cut(bytes, more),
        FieldType::Fixed64 => wire::lemma_read_fixed_cut(bytes, more),
        FieldType::Text => wire::lemma_read_delimited_cut(bytes, more),
        FieldType::Bytes => wire::lemma_read_delimited_cut(bytes, more),
        FieldType::Nested(inner) => {
            if wire == wire::LENGTH_DELIMITED && limit > 0 {
                if let Ok((rest, stop)) = enter(all) {
                    lemma_pass_message_stops(inner, rest, stop, (limit - 1) as nat);
                    if pass_message(inner, rest, stop, (limit - 1) as nat) is Ok && more.len()
                        <= stop {
                        lemma_enter_cut(bytes, more);
                        lemma_pass_message_cut(
                            inner,
                            wire::cut(rest, more),
                            more,
                            stop,
                            (limit - 1) as nat,
                        );
                    }
                }
            }
        },
        FieldType::Unknown => wire::lemma_skip_field_cut(number, wire, bytes, more, limit),
    }
}

/// A message that ends before `more` is read alike without it.
pub proof fn lemma_pass_message_cut(
    kind: MessageKind,
    bytes: Seq<u8>,
    more: Seq<u8>,
    stop: nat,
    limit: nat,
)
    requires
        pass_message(kind, bytes + more, stop, limit) is Ok,
        more.len() <= stop,
    ensures
        pass_message(kind, bytes, (stop - more.len()) as nat, limit) == Ok::<Seq<u8>, Fault>(
            wire::cut(pass_message(kind, bytes + more, stop, limit)->Ok_0, more),
        ),
        pass_message(kind, bytes + more, stop, limit)->Ok_0 == wire::cut(
            pass_message(kind, bytes + more, stop, limit)->Ok_0,
            more,
        ) + more,
    decreases limit, bytes.len(), 0nat,
{
    let all = bytes + more;
    lemma_pass_message_stops(kind, all, stop, limit);
    if all.len() <= stop {
        assert(wire::cut(all, more) =~= bytes);
    } else {
        wire::lemma_read_key_shrinks(all);
        let (number, wire, rest) = wire::read_key(all).unwrap();
        lemma_pass_field_shrinks(kind, number, wire, rest, limit);
        let after = pass_field(kind, number, wire, rest, limit)->Ok_0;
        lemma_pass_message_stops(kind, after, stop, limit);
        wire::lemma_read_key_cut(bytes, more);
        wire::lemma_read_key_shrinks(bytes);
        lemma_pass_field_cut(kind, number, wire, wire::cut(rest, more), more, limit);
        lemma_pass_message_cut(kind, wire::cut(after, more), more, stop, limit);
    }
}

/// A nested message that is read where it stands is accepted by itself, and
/// reading it leaves what follows it.
pub proof fn lemma_nested_is_accepted(kind: MessageKind, bytes: Seq<u8>, stop: nat, limit: nat)
    requires
        pass_message(kind, bytes, stop, limit) is Ok,
    ensures
        stop <= bytes.len(),
        accepts(kind, bytes.take(bytes.len() - stop), limit),
        pass_message(kind, bytes, stop, limit) == Ok::<Seq<u8>, Fault>(
            bytes.skip(bytes.len() - stop),
        ),
{
    lemma_pass_message_stops(kind, bytes, stop, limit);
    let body = bytes.take(bytes.len() - stop);
    let more = bytes.skip(bytes.len() - stop);
    assert(body + more =~= bytes);
    lemma_pass_message_cut(kind, body, more, stop, limit);
    let rest = pass_message(kind, bytes, stop, limit)->Ok_0;
    assert(wire::cut(rest, more) + more =~= more);
}

/// Packed varints that are read where they stand are read by themselves.
pub proof fn lemma_packed_is_accepted(bytes: Seq<u8>, stop: nat)
    requires
        pass_packed(bytes, stop) is Ok,
    ensures
        stop <= bytes.len(),
        pass_packed(bytes.take(bytes.len() - stop), 0) is Ok,
        pass_packed(bytes, stop) == Ok::<Seq<u8>, Fault>(bytes.skip(bytes.len() - stop)),
{
    lemma_pass_packed_stops(bytes, stop);
    let body = bytes.take(bytes.len() - stop);
    let more = bytes.skip(bytes.len() - stop);
    assert(body + more =~= bytes);
    lemma_pass_packed_cut(body, more, stop);
    let rest = pass_packed(bytes, stop)->Ok_0;
    assert(wire::cut(rest, more) + more =~= more);
}

// ---------------------------------------------------------------------------
// What the schema says
// ---------------------------------------------------------------------------

/// Which fields each message has, and how each is laid out: by the numbers
/// that Sparkplug B gives them, and by no other.
pub proof fn law_the_schema_numbers_its_fields(number: u32)
    ensures
        ({
            let field = field_type(MessageKind::Payload, number);
            &&& field == FieldType::Unknown <==> number == 0 || number > 5
            &&& field == FieldType::Varint <==> number == 1 || number == 3
            &&& field == FieldType::Nested(MessageKind::Metric) <==> number == 2
            &&& field == FieldType::Text <==> number == 4
            &&& field == FieldType::Bytes <==> number == 5
        }),
        ({
            let field = field_type(MessageKind::Metric, number);
            &&& field == FieldType::Unknown <==> number == 0 || number > 19
            &&& field == FieldType::Text <==> number == 1 || number == 15
            &&& field == FieldType::Varint <==> number == 2 || number == 3 || number == 4
                || number == 5 || number == 6 || number == 7 || number == 10 || number == 11
                || number == 14
            &&& field == FieldType::Nested(MessageKind::MetaData) <==> number == 8
            &&& field == FieldType::Nested(MessageKind::PropertySet) <==> number == 9
            &&& field == FieldType::Fixed32 <==> number == 12
            &&& field == FieldType::Fixed64 <==> number == 13
            &&& field == FieldType::Bytes <==> number == 16
            &&& field == FieldType::Nested(MessageKind::DataSet) <==> number == 17
            &&& field == FieldType::Nested(MessageKind::Template) <==> number == 18
            &&& field == FieldType::Nested(MessageKind::Extension) <==> number == 19
        }),
        ({
            let field = field_type(MessageKind::MetaData, number);
            &&& field == FieldType::Unknown <==> number == 0 || number > 8
            &&& field == FieldType::Varint <==> number == 1 || number == 3 || number == 4
            &&& field == FieldType::Text <==> number == 2 || number == 5 || number == 6
                || number == 7 || number == 8
        }),
        ({
            let field = field_type(MessageKind::PropertySet, number);
            &&& field == FieldType::Unknown <==> number == 0 || number > 2
            &&& field == FieldType::Text <==> number == 1
            &&& field == FieldType::Nested(MessageKind::PropertyValue) <==> number == 2
        }),
        ({
            let field = field_type(MessageKind::PropertyValue, number);
            &&& field == FieldType::Unknown <==> number == 0 || number > 11
            &&& field == FieldType::Varint <==> number == 1 || number == 2 || number == 3
                || number == 4 || number == 7
            &&& field == FieldType::Fixed32 <==> number == 5
            &&& field == FieldType::Fixed64 <==> number == 6
            &&& field == FieldType::Text <==> number == 8
            &&& field == FieldType::Nested(MessageKind::PropertySet) <==> number == 9
            &&& field == FieldType::Nested(MessageKind::PropertySetList) <==> number == 10
            &&& field == FieldType::Nested(MessageKind::Extension) <==> number == 11
        }),
        ({
            let field = field_type(MessageKind::PropertySetList, number);
            &&& field == FieldType::Unknown <==> number == 0 || number > 1
            &&& field == FieldType::Nested(MessageKind::PropertySet) <==> number == 1
        }),
        ({
            let field = field_type(MessageKind::DataSet, number);
            &&& field == FieldType::Unknown <==> number == 0 || number > 4
            &&& field == FieldType::Varint <==> number == 1
            &&& field == FieldType::Text <==> number == 2
            &&& field == FieldType::RepeatedVarint <==> number == 3
            &&& field == FieldType::Nested(MessageKind::Row) <==> number == 4
        }),
        ({
            let field = field_type(MessageKind::DataSetValue, number);
            &&& field == FieldType::Unknown <==> number == 0 || number > 7
            &&& field == FieldType::Varint <==> number == 1 || number == 2 || number == 5
            &&& field == FieldType::Fixed32 <==> number == 3
            &&& field == FieldType::Fixed64 <==> number == 4
            &&& field == FieldType::Text <==> number == 6
            &&& field == FieldType::Nested(MessageKind::Extension) <==> number == 7
        }),
        ({
            let field = field_type(MessageKind::Row, number);
            &&& field == FieldType::Unknown <==> number == 0 || number > 1
            &&& field == FieldType::Nested(MessageKind::DataSetValue) <==> number == 1
        }),
        ({
            let field = field_type(MessageKind::Template, number);
            &&& field == FieldType::Unknown <==> number == 0 || number > 5
            &&& field == FieldType::Text <==> number == 1 || number == 4
            &&& field == FieldType::Nested(MessageKind::Metric) <==> number == 2
            &&& field == FieldType::Nested(MessageKind::Parameter) <==> number == 3
            &&& field == FieldType::Varint <==> number == 5
        }),
        ({
            let field = field_type(MessageKind::Parameter, number);
            &&& field == FieldType::Unknown <==> number == 0 || number > 9
            &&& field == FieldType::Text <==> number == 1 || number == 8
            &&& field == FieldType::Varint <==> number == 2 || number == 3 || number == 4
                || number == 7
            &&& field == FieldType::Fixed32 <==> number == 5
            &&& field == FieldType::Fixed64 <==> number == 6
            &&& field == FieldType::Nested(MessageKind::Extension) <==> number == 9
        }),
        field_type(MessageKind::Extension, number) == FieldType::Unknown,
{
    reveal(field_type);
}

/// Messages and fields are named as the schema names them, where every value
/// that a message holds one of goes by one name.
pub proof fn law_fields_go_by_their_names()
    ensures
        message_name(MessageKind::Payload) == "Payload"@,
        field_name(MessageKind::Payload, 1) == "timestamp"@,
        field_name(MessageKind::Payload, 2) == "metrics"@,
        field_name(MessageKind::Payload, 3) == "seq"@,
        field_name(MessageKind::Payload, 4) == "uuid"@,
        field_name(MessageKind::Payload, 5) == "body"@,
        message_name(MessageKind::Metric) == "Metric"@,
        field_name(MessageKind::Metric, 1) == "name"@,
        field_name(MessageKind::Metric, 2) == "alias"@,
        field_name(MessageKind::Metric, 3) == "timestamp"@,
        field_name(MessageKind::Metric, 4) == "datatype"@,
        field_name(MessageKind::Metric, 5) == "is_historical"@,
        field_name(MessageKind::Metric, 6) == "is_transient"@,
        field_name(MessageKind::Metric, 7) == "is_null"@,
        field_name(MessageKind::Metric, 8) == "metadata"@,
        field_name(MessageKind::Metric, 9) == "properties"@,
        field_name(MessageKind::Metric, 10) == "value"@,
        field_name(MessageKind::Metric, 11) == "value"@,
        field_name(MessageKind::Metric, 12) == "value"@,
        field_name(MessageKind::Metric, 13) == "value"@,
        field_name(MessageKind::Metric, 14) == "value"@,
        field_name(MessageKind::Metric, 15) == "value"@,
        field_name(MessageKind::Metric, 16) == "value"@,
        field_name(MessageKind::Metric, 17) == "value"@,
        field_name(MessageKind::Metric, 18) == "value"@,
        field_name(MessageKind::Metric, 19) == "value"@,
        message_name(MessageKind::MetaData) == "MetaData"@,
        field_name(MessageKind::MetaData, 1) == "is_multi_part"@,
        field_name(MessageKind::MetaData, 2) == "content_type"@,
        field_name(MessageKind::MetaData, 3) == "size"@,
        field_name(MessageKind::MetaData, 4) == "seq"@,
        field_name(MessageKind::MetaData, 5) == "file_name"@,
        field_name(MessageKind::MetaData, 6) == "file_type"@,
        field_name(MessageKind::MetaData, 7) == "md5"@,
        field_name(MessageKind::MetaData, 8) == "description"@,
        message_name(MessageKind::PropertySet) == "PropertySet"@,
        field_name(MessageKind::PropertySet, 1) == "keys"@,
        field_name(MessageKind::PropertySet, 2) == "values"@,
        message_name(MessageKind::PropertyValue) == "PropertyValue"@,
        field_name(MessageKind::PropertyValue, 1) == "r#type"@,
        field_name(MessageKind::PropertyValue, 2) == "is_null"@,
        field_name(MessageKind::PropertyValue, 3) == "value"@,
        field_name(MessageKind::PropertyValue, 4) == "value"@,
        field_name(MessageKind::PropertyValue, 5) == "value"@,
        field_name(MessageKind::PropertyValue, 6) == "value"@,
        field_name(MessageKind::PropertyValue, 7) == "value"@,
        field_name(MessageKind::PropertyValue, 8) == "value"@,
        field_name(MessageKind::PropertyValue, 9) == "value"@,
        field_name(MessageKind::PropertyValue, 10) == "value"@,
        field_name(MessageKind::PropertyValue, 11) == "value"@,
        message_name(MessageKind::PropertySetList) == "PropertySetList"@,
        field_name(MessageKind::PropertySetList, 1) == "propertyset"@,
        message_name(MessageKind::DataSet) == "DataSet"@,
        field_name(MessageKind::DataSet, 1) == "num_of_columns"@,
        field_name(MessageKind::DataSet, 2) == "columns"@,
        field_name(MessageKind::DataSet, 3) == "types"@,
        field_name(MessageKind::DataSet, 4) == "rows"@,
        message_name(MessageKind::DataSetValue) == "DataSetValue"@,
        field_name(MessageKind::DataSetValue, 1) == "value"@,
        field_name(MessageKind::DataSetValue, 2) == "value"@,
        field_name(MessageKind::DataSetValue, 3) == "value"@,
        field_name(MessageKind::DataSetValue, 4) == "value"@,
        field_name(MessageKind::DataSetValue, 5) == "value"@,
        field_name(MessageKind::DataSetValue, 6) == "value"@,
        field_name(MessageKind::DataSetValue, 7) == "value"@,
        message_name(MessageKind::Row) == "Row"@,
        field_name(MessageKind::Row, 1) == "elements"@,
        message_name(MessageKind::Template) == "Template"@,
        field_name(MessageKind::Template, 1) == "version"@,
        field_name(MessageKind::Template, 2) == "metrics"@,
        field_name(MessageKind::Template, 3) == "parameters"@,
        field_name(MessageKind::Template, 4) == "template_ref"@,
        field_name(MessageKind::Template, 5) == "is_definition"@,
        message_name(MessageKind::Parameter) == "Parameter"@,
        field_name(MessageKind::Parameter, 1) == "name"@,
        field_name(MessageKind::Parameter, 2) == "r#type"@,
        field_name(MessageKind::Parameter, 3) == "value"@,
        field_name(MessageKind::Parameter, 4) == "value"@,
        field_name(MessageKind::Parameter, 5) == "value"@,
        field_name(MessageKind::Parameter, 6) == "value"@,
        field_name(MessageKind::Parameter, 7) == "value"@,
        field_name(MessageKind::Parameter, 8) == "value"@,
        field_name(MessageKind::Parameter, 9) == "value"@,
{
}

/// A fault takes the message and the field it was found in behind what it
/// names already, and keeps its reason. A field that the message does not have
/// is not named.
pub proof fn law_a_fault_is_located_from_the_inside_out(
    kind: MessageKind,
    number: u32,
    fault: Fault,
)
    ensures
        located(kind, number, fault).reason == fault.reason,
        field_type(kind, number) != FieldType::Unknown ==> located(kind, number, fault).trail
            == fault.trail.push((message_name(kind), field_name(kind, number))),
        field_type(kind, number) == FieldType::Unknown ==> located(kind, number, fault)
            == fault,
{
}

/// A message is accepted field by field. It ends where its bytes do; one that
/// reads past its end is refused for that, one with no key at the next field
/// for that, and one with a field that is not accepted for that field, which
/// is then named.
pub proof fn law_a_message_is_accepted_field_by_field(
    kind: MessageKind,
    bytes: Seq<u8>,
    stop: nat,
    limit: nat,
)
    ensures
        bytes.len() == stop ==> pass_message(kind, bytes, stop, limit) == Ok::<Seq<u8>, Fault>(
            bytes,
        ),
        bytes.len() < stop ==> pass_message(kind, bytes, stop, limit) == Err::<Seq<u8>, Fault>(
            Fault { trail: Seq::empty(), reason: "delimited length exceeded"@ },
        ),
        bytes.len() > stop && wire::read_key(bytes) is None ==> pass_message(
            kind,
            bytes,
            stop,
            limit,
        ) == Err::<Seq<u8>, Fault>(
            Fault { trail: Seq::empty(), reason: wire::key_reason(bytes) },
        ),
        bytes.len() > stop ==> (wire::read_key(bytes) matches Some((number, wire, rest))
            ==> match pass_field(kind, number, wire, rest, limit) {
            Ok(after) => pass_message(kind, bytes, stop, limit) == pass_message(
                kind,
                after,
                stop,
                limit,
            ),
            Err(fault) => pass_message(kind, bytes, stop, limit) == Err::<Seq<u8>, Fault>(
                located(kind, number, fault),
            ),
        }),
        accepts(kind, bytes, limit) <==> pass_message(kind, bytes, 0, limit) is Ok,
        !accepts(kind, bytes, limit) ==> pass_message(kind, bytes, 0, limit) == Err::<
            Seq<u8>,
            Fault,
        >(fault_in(kind, bytes, limit)),
{
    wire::lemma_read_key_shrinks(bytes);
    if let Some((number, wire, rest)) = wire::read_key(bytes) {
        lemma_pass_field_shrinks(kind, number, wire, rest, limit);
    }
}

/// A field with the wrong wire type is refused, whatever stands behind its
/// key, and the reason names both wire types.
pub proof fn law_a_wrong_wire_type_is_refused(
    kind: MessageKind,
    number: u32,
    wire: u8,
    bytes: Seq<u8>,
    limit: nat,
)
    requires
        ({
            let field = field_type(kind, number);
            &&& field != FieldType::Unknown
            &&& field == FieldType::Varint || field == FieldType::RepeatedVarint ==> wire != 0
            &&& field == FieldType::RepeatedVarint ==> wire != 2
            &&& field == FieldType::Fixed32 ==> wire != 5
            &&& field == FieldType::Fixed64 ==> wire != 1
            &&& field == FieldType::Text || field == FieldType::Bytes || field is Nested ==> wire
                != 2
        }),
    ensures
        ({
            let expected: u8 = match field_type(kind, number) {
                FieldType::Varint | FieldType::RepeatedVarint => 0,
                FieldType::Fixed32 => 5,
                FieldType::Fixed64 => 1,
                _ => 2,
            };
            pass_field(kind, number, wire, bytes, limit) == Err::<Seq<u8>, Fault>(
                Fault {
                    trail: Seq::empty(),
                    reason: "invalid wire type: "@ + wire::wire_name(wire) + " (expected "@
                        + wire::wire_name(expected) + ")"@,
                },
            )
        }),
{
}

/// A field with the right wire type is accepted when its value can be read,
/// and leaves what follows that value. Text must be UTF-8 as well.
pub proof fn law_a_plain_field_is_accepted_when_it_can_be_read(
    kind: MessageKind,
    number: u32,
    bytes: Seq<u8>,
    limit: nat,
)
    ensures
        field_type(kind, number) == FieldType::Varint || field_type(kind, number)
            == FieldType::RepeatedVarint ==> pass_field(kind, number, 0, bytes, limit)
            == match wire::read_varint(bytes) {
            Some((_, rest)) => Ok::<Seq<u8>, Fault>(rest),
            None => Err(Fault { trail: Seq::empty(), reason: "invalid varint"@ }),
        },
        field_type(kind, number) == FieldType::Fixed32 ==> pass_field(
            kind,
            number,
            5,
            bytes,
            limit,
        ) == if bytes.len() >= 4 {
            Ok::<Seq<u8>, Fault>(bytes.skip(4))
        } else {
            Err(Fault { trail: Seq::empty(), reason: "buffer underflow"@ })
        },
        field_type(kind, number) == FieldType::Fixed64 ==> pass_field(
            kind,
            number,
            1,
            bytes,
            limit,
        ) == if bytes.len() >= 8 {
            Ok::<Seq<u8>, Fault>(bytes.skip(8))
        } else {
            Err(Fault { trail: Seq::empty(), reason: "buffer underflow"@ })
        },
        field_type(kind, number) == FieldType::Bytes ==> pass_field(kind, number, 2, bytes, limit)
            == match wire::read_delimited(bytes) {
            Some((_, rest)) => Ok::<Seq<u8>, Fault>(rest),
            None => Err(Fault { trail: Seq::empty(), reason: wire::delimited_reason(bytes) }),
        },
        field_type(kind, number) == FieldType::Text ==> pass_field(kind, number, 2, bytes, limit)
            == match wire::read_delimited(bytes) {
            Some((body, rest)) => if vstd::utf8::valid_utf8(body) {
                Ok::<Seq<u8>, Fault>(rest)
            } else {
                Err(
                    Fault {
                        trail: Seq::empty(),
                        reason: "invalid string value: data is not UTF-8 encoded"@,
                    },
                )
            },
            None => Err(Fault { trail: Seq::empty(), reason: wire::delimited_reason(bytes) }),
        },
{
}

/// A nested message is accepted when a level is left for it, its length does
/// not run past the bytes, and its fields end where that length says. What
/// follows it is left.
pub proof fn law_a_nested_message_is_accepted_inside_its_length(
    kind: MessageKind,
    number: u32,
    inner: MessageKind,
    bytes: Seq<u8>,
    limit: nat,
)
    requires
        field_type(kind, number) == FieldType::Nested(inner),
    ensures
        limit == 0 ==> pass_field(kind, number, 2, bytes, limit) == Err::<Seq<u8>, Fault>(
            Fault { trail: Seq::empty(), reason: "recursion limit reached"@ },
        ),
        limit > 0 && wire::read_varint(bytes) is None ==> pass_field(kind, number, 2, bytes, limit)
            == Err::<Seq<u8>, Fault>(Fault { trail: Seq::empty(), reason: "invalid varint"@ }),
        limit > 0 ==> (wire::read_varint(bytes) matches Some((len, rest)) ==> {
            &&& len > rest.len() ==> pass_field(kind, number, 2, bytes, limit) == Err::<
                Seq<u8>,
                Fault,
            >(Fault { trail: Seq::empty(), reason: "buffer underflow"@ })
            &&& len <= rest.len() ==> pass_field(kind, number, 2, bytes, limit) == pass_message(
                inner,
                rest,
                (rest.len() - len) as nat,
                (limit - 1) as nat,
            )
            &&& pass_field(kind, number, 2, bytes, limit) matches Ok(after) ==> len <= rest.len()
                && after == rest.skip(len as int) && accepts(
                inner,
                rest.take(len as int),
                (limit - 1) as nat,
            )
        }),
{
    if limit > 0 {
        if let Some((len, rest)) = wire::read_varint(bytes) {
            if len <= rest.len() {
                let stop = (rest.len() - len) as nat;
                if pass_message(inner, rest, stop, (limit - 1) as nat) is Ok {
                    lemma_nested_is_accepted(inner, rest, stop, (limit - 1) as nat);
                }
            }
        }
    }
}

/// Packed numbers are accepted when varints fill their length from end to end.
pub proof fn law_packed_numbers_fill_their_length(bytes: Seq<u8>, stop: nat)
    ensures
        bytes.len() == stop ==> pass_packed(bytes, stop) == Ok::<Seq<u8>, Fault>(bytes),
        bytes.len() < stop ==> pass_packed(bytes, stop) == Err::<Seq<u8>, Fault>(
            Fault { trail: Seq::empty(), reason: "delimited length exceeded"@ },
        ),
        bytes.len() > stop ==> match wire::read_varint(bytes) {
            Some((_, rest)) => pass_packed(bytes, stop) == pass_packed(rest, stop),
            None => pass_packed(bytes, stop) == Err::<Seq<u8>, Fault>(
                Fault { trail: Seq::empty(), reason: "invalid varint"@ },
            ),
        },
        forall|kind: MessageKind, number: u32, limit: nat|
            field_type(kind, number) == FieldType::RepeatedVarint ==> #[trigger] pass_field(
                kind,
                number,
                2,
                bytes,
                limit,
            ) == match wire::read_varint(bytes) {
                Some((len, rest)) => if len <= rest.len() {
                    pass_packed(rest, (rest.len() - len) as nat)
                } else {
                    Err::<Seq<u8>, Fault>(
                        Fault { trail: Seq::empty(), reason: "buffer underflow"@ },
                    )
                },
                None => Err(Fault { trail: Seq::empty(), reason: "invalid varint"@ }),
            },
{
    wire::lemma_read_varint_shrinks(bytes);
}

/// A field that the message does not have is passed over, and refused only
/// where it cannot be.
pub proof fn law_an_unknown_field_changes_nothing(
    kind: MessageKind,
    number: u32,
    wire: u8,
    bytes: Seq<u8>,
    limit: nat,
)
    requires
        field_type(kind, number) == FieldType::Unknown,
    ensures
        pass_field(kind, number, wire, bytes, limit) == match wire::skip_field(
            number,
            wire,
            bytes,
            limit,
        ) {
            Some(rest) => Ok::<Seq<u8>, Fault>(rest),
            None => Err(
                Fault {
                    trail: Seq::empty(),
                    reason: wire::skip_field_reason(number, wire, bytes, limit),
                },
            ),
        },
{
}

} // verus!
