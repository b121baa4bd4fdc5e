//! What each message looks like in bytes, key by key.
//!
//! Sparkplug B numbers the fields of its messages, and a host application
//! that was written by somebody else goes by those numbers. So the laws below
//! spell out the key of every field, and what stands behind it.

use crate::payload;
use crate::payload::codec;
use crate::payload::codec::data_set;
use crate::payload::codec::meta_data;
use crate::payload::codec::metrics;
use crate::payload::codec::parameter;
use crate::payload::codec::property;
use crate::payload::fields::{self, FieldValueView, FieldView};
use crate::payload::metric::ValueView;
use crate::payload::nested::{
    DataSetValueView, DataSetView, MetaDataView, NestedValueView, ParameterView,
    PropertyInnerView, PropertySetListView, PropertySetView, PropertyValueView, RowView,
    TemplateView,
};
use crate::payload::{MetricView, PayloadView};
use crate::wire;
use vstd::prelude::*;

verus! {

// ---------------------------------------------------------------------------
// The parts of a message
// ---------------------------------------------------------------------------

/// A key and a number behind it, or nothing.
pub open spec fn number_part(key: Seq<u8>, held: Option<u64>) -> Seq<u8> {
    match held {
        Some(v) => key + wire::varint(v as nat),
        None => Seq::empty(),
    }
}

/// A key and a 32-bit number behind it, or nothing.
pub open spec fn small_part(key: Seq<u8>, held: Option<u32>) -> Seq<u8> {
    match held {
        Some(v) => key + wire::varint(v as nat),
        None => Seq::empty(),
    }
}

/// A key and one byte behind it, which is one for a flag that is set and zero
/// for one that is not, or nothing.
pub open spec fn flag_part(key: Seq<u8>, held: Option<bool>) -> Seq<u8> {
    match held {
        Some(true) => key + seq![1u8],
        Some(false) => key + seq![0u8],
        None => Seq::empty(),
    }
}

/// A key, a length, and that many bytes, or nothing.
pub open spec fn bytes_part(key: Seq<u8>, held: Option<Seq<u8>>) -> Seq<u8> {
    match held {
        Some(v) => key + wire::varint(v.len()) + v,
        None => Seq::empty(),
    }
}

/// A key, a length, and that many bytes of UTF-8, or nothing.
pub open spec fn text_part(key: Seq<u8>, held: Option<Seq<char>>) -> Seq<u8> {
    match held {
        Some(v) => key + wire::varint(vstd::utf8::encode_utf8(v).len())
            + vstd::utf8::encode_utf8(v),
        None => Seq::empty(),
    }
}

/// Texts, each behind the key, in order.
pub open spec fn text_parts(key: Seq<u8>, texts: Seq<Seq<char>>) -> Seq<u8>
    decreases texts.len(),
{
    if texts.len() == 0 {
        Seq::empty()
    } else {
        text_parts(key, texts.drop_last()) + text_part(key, Some(texts.last()))
    }
}

/// Numbers, each behind the key, in order.
pub open spec fn small_parts(key: Seq<u8>, numbers: Seq<u32>) -> Seq<u8>
    decreases numbers.len(),
{
    if numbers.len() == 0 {
        Seq::empty()
    } else {
        small_parts(key, numbers.drop_last()) + small_part(key, Some(numbers.last()))
    }
}

/// Messages, each behind the key and its length, in order.
pub open spec fn message_parts(key: Seq<u8>, bodies: Seq<Seq<u8>>) -> Seq<u8>
    decreases bodies.len(),
{
    if bodies.len() == 0 {
        Seq::empty()
    } else {
        message_parts(key, bodies.drop_last()) + bytes_part(key, Some(bodies.last()))
    }
}

proof fn lemma_join(first: Seq<FieldView>, second: Seq<FieldView>)
    ensures
        fields::fields_bytes(first + second) == fields::fields_bytes(first)
            + fields::fields_bytes(second),
    decreases second.len(),
{
    if second.len() == 0 {
        assert(first + second =~= first);
        assert(fields::fields_bytes(first) + fields::fields_bytes(second)
            =~= fields::fields_bytes(first));
    } else {
        lemma_join(first, second.drop_last());
        assert((first + second).drop_last() =~= first + second.drop_last());
        assert(fields::fields_bytes(first + second) =~= fields::fields_bytes(first)
            + fields::fields_bytes(second));
    }
}

proof fn lemma_one(f: FieldView)
    ensures
        fields::fields_bytes(seq![f]) == fields::field_bytes(f),
        fields::fields_bytes(Seq::empty()) == Seq::<u8>::empty(),
{
    assert(seq![f].drop_last() =~= Seq::empty());
    assert(seq![f].last() == f);
    assert(fields::fields_bytes(Seq::empty()) =~= Seq::<u8>::empty());
    assert(Seq::<u8>::empty() + fields::field_bytes(f) =~= fields::field_bytes(f));
}

/// A key takes one byte for the field numbers up to 15, and two for those up
/// to 2047.
proof fn lemma_key(number: u32, wire: u8)
    requires
        number < 2048,
        wire <= 5,
    ensures
        number < 16 ==> wire::key(number, wire) == seq![(number * 8 + wire) as u8],
        number >= 16 ==> wire::key(number, wire) == seq![
            ((number * 8 + wire) % 128 + 128) as u8,
            ((number * 8 + wire) / 128) as u8,
        ],
{
    let k = (number * 8 + wire) as nat;
    if number >= 16 {
        assert(wire::varint(k / 128) =~= seq![(k / 128) as u8]);
        assert(wire::varint(k) =~= seq![(k % 128 + 128) as u8, (k / 128) as u8]);
    }
}

proof fn lemma_number(number: u32, held: Option<u64>)
    requires
        1 <= number < 2048,
    ensures
        fields::fields_bytes(fields::number_in(number, held)) == number_part(
            wire::key(number, wire::VARINT),
            held,
        ),
{
    if let Some(v) = held {
        lemma_one(FieldView { number, value: FieldValueView::Number(v) });
    }
}

proof fn lemma_small(number: u32, held: Option<u32>)
    requires
        1 <= number < 2048,
    ensures
        fields::fields_bytes(fields::number_in(number, fields::widened(held))) == small_part(
            wire::key(number, wire::VARINT),
            held,
        ),
{
    lemma_number(number, fields::widened(held));
}

proof fn lemma_flag(number: u32, held: Option<bool>)
    requires
        1 <= number < 2048,
    ensures
        fields::fields_bytes(fields::number_in(number, fields::flagged(held))) == flag_part(
            wire::key(number, wire::VARINT),
            held,
        ),
{
    lemma_number(number, fields::flagged(held));
    assert(wire::varint(1) =~= seq![1u8]);
    assert(wire::varint(0) =~= seq![0u8]);
}

proof fn lemma_text(number: u32, held: Option<Seq<char>>)
    requires
        1 <= number < 2048,
    ensures
        fields::fields_bytes(fields::text_in(number, held)) == text_part(
            wire::key(number, wire::LENGTH_DELIMITED),
            held,
        ),
{
    if let Some(v) = held {
        lemma_one(FieldView { number, value: FieldValueView::Text(v) });
        assert(fields::field_bytes(FieldView { number, value: FieldValueView::Text(v) })
            =~= text_part(wire::key(number, wire::LENGTH_DELIMITED), held));
    }
}

proof fn lemma_bytes(number: u32, held: Option<Seq<u8>>)
    requires
        1 <= number < 2048,
    ensures
        fields::fields_bytes(fields::bytes_in(number, held)) == bytes_part(
            wire::key(number, wire::LENGTH_DELIMITED),
            held,
        ),
        fields::fields_bytes(fields::message_in(number, held)) == bytes_part(
            wire::key(number, wire::LENGTH_DELIMITED),
            held,
        ),
{
    if let Some(v) = held {
        lemma_one(FieldView { number, value: FieldValueView::Bytes(v) });
        lemma_one(FieldView { number, value: FieldValueView::Message(v) });
        assert(wire::bytes_field(number, v) =~= bytes_part(
            wire::key(number, wire::LENGTH_DELIMITED),
            held,
        ));
    }
}

proof fn lemma_texts(number: u32, texts: Seq<Seq<char>>)
    requires
        1 <= number < 2048,
    ensures
        fields::fields_bytes(fields::texts_in(number, texts)) == text_parts(
            wire::key(number, wire::LENGTH_DELIMITED),
            texts,
        ),
    decreases texts.len(),
{
    let all = fields::texts_in(number, texts);
    if texts.len() > 0 {
        lemma_texts(number, texts.drop_last());
        lemma_text(number, Some(texts.last()));
        assert(all.drop_last() =~= fields::texts_in(number, texts.drop_last()));
        lemma_one(all.last());
        assert(fields::text_in(number, Some(texts.last())) =~= seq![all.last()]);
    }
}

proof fn lemma_smalls(number: u32, numbers: Seq<u32>)
    requires
        1 <= number < 2048,
    ensures
        fields::fields_bytes(fields::numbers_in(number, numbers)) == small_parts(
            wire::key(number, wire::VARINT),
            numbers,
        ),
    decreases numbers.len(),
{
    let all = fields::numbers_in(number, numbers);
    if numbers.len() > 0 {
        lemma_smalls(number, numbers.drop_last());
        lemma_small(number, Some(numbers.last()));
        assert(all.drop_last() =~= fields::numbers_in(number, numbers.drop_last()));
        lemma_one(all.last());
        assert(fields::number_in(number, fields::widened(Some(numbers.last()))) =~= seq![
            all.last(),
        ]);
    }
}

proof fn lemma_messages(number: u32, bodies: Seq<Seq<u8>>)
    requires
        1 <= number < 2048,
    ensures
        fields::fields_bytes(fields::messages_in(number, bodies)) == message_parts(
            wire::key(number, wire::LENGTH_DELIMITED),
            bodies,
        ),
    decreases bodies.len(),
{
    let all = fields::messages_in(number, bodies);
    if bodies.len() > 0 {
        lemma_messages(number, bodies.drop_last());
        lemma_bytes(number, Some(bodies.last()));
        assert(all.drop_last() =~= fields::messages_in(number, bodies.drop_last()));
        lemma_one(all.last());
        assert(fields::message_in(number, Some(bodies.last())) =~= seq![all.last()]);
    }
}

// ---------------------------------------------------------------------------
// Metadata
// ---------------------------------------------------------------------------

/// Metadata in bytes: its eight fields under the numbers 1 to 8, in order,
/// without those that hold nothing.
pub proof fn law_the_bytes_of_metadata(m: MetaDataView)
    ensures
        meta_data::meta_data_bytes(m) == flag_part(seq![0x08u8], m.is_multi_part)
            + text_part(seq![0x12u8], m.content_type)
            + number_part(seq![0x18u8], m.size)
            + number_part(seq![0x20u8], m.seq)
            + text_part(seq![0x2au8], m.file_name)
            + text_part(seq![0x32u8], m.file_type)
            + text_part(seq![0x3au8], m.md5)
            + text_part(seq![0x42u8], m.description),
{
    let p1 = fields::number_in(1, fields::flagged(m.is_multi_part));
    lemma_key(1, 0);
    lemma_flag(1, m.is_multi_part);
    let p2 = fields::text_in(2, m.content_type);
    lemma_key(2, 2);
    lemma_text(2, m.content_type);
    let p3 = fields::number_in(3, m.size);
    lemma_key(3, 0);
    lemma_number(3, m.size);
    let p4 = fields::number_in(4, m.seq);
    lemma_key(4, 0);
    lemma_number(4, m.seq);
    let p5 = fields::text_in(5, m.file_name);
    lemma_key(5, 2);
    lemma_text(5, m.file_name);
    let p6 = fields::text_in(6, m.file_type);
    lemma_key(6, 2);
    lemma_text(6, m.file_type);
    let p7 = fields::text_in(7, m.md5);
    lemma_key(7, 2);
    lemma_text(7, m.md5);
    let p8 = fields::text_in(8, m.description);
    lemma_key(8, 2);
    lemma_text(8, m.description);
    lemma_join(p1, p2);
    lemma_join(p1 + p2, p3);
    lemma_join(p1 + p2 + p3, p4);
    lemma_join(p1 + p2 + p3 + p4, p5);
    lemma_join(p1 + p2 + p3 + p4 + p5, p6);
    lemma_join(p1 + p2 + p3 + p4 + p5 + p6, p7);
    lemma_join(p1 + p2 + p3 + p4 + p5 + p6 + p7, p8);
}

// ---------------------------------------------------------------------------
// Values
// ---------------------------------------------------------------------------

proof fn lemma_fixed(number: u32, single: u32, double: u64)
    requires
        1 <= number < 2048,
    ensures
        fields::fields_bytes(
            seq![FieldView { number, value: FieldValueView::Single(single) }],
        ) == wire::key(number, wire::THIRTY_TWO_BIT) + wire::little_endian(single as nat, 4),
        fields::fields_bytes(
            seq![FieldView { number, value: FieldValueView::Double(double) }],
        ) == wire::key(number, wire::SIXTY_FOUR_BIT) + wire::little_endian(double as nat, 8),
{
    lemma_one(FieldView { number, value: FieldValueView::Single(single) });
    lemma_one(FieldView { number, value: FieldValueView::Double(double) });
}

proof fn lemma_nothing(key: Seq<u8>)
    ensures
        bytes_part(key, Some(Seq::empty())) == key + seq![0u8],
{
    assert(wire::varint(0) =~= seq![0u8]);
    assert(bytes_part(key, Some(Seq::empty())) =~= key + seq![0u8]);
}

/// The value of a cell in bytes: its field under the numbers 1 to 7.
pub open spec fn cell_part(held: Option<NestedValueView>) -> Seq<u8> {
    match held {
        Some(NestedValueView::IntValue(v)) => seq![0x08u8] + wire::varint(v as nat),
        Some(NestedValueView::LongValue(v)) => seq![0x10u8] + wire::varint(v as nat),
        Some(NestedValueView::FloatValue(v)) => seq![0x1du8] + wire::little_endian(v as nat, 4),
        Some(NestedValueView::DoubleValue(v)) => seq![0x21u8] + wire::little_endian(v as nat, 8),
        Some(NestedValueView::BooleanValue(v)) => flag_part(seq![0x28u8], Some(v)),
        Some(NestedValueView::StringValue(v)) => text_part(seq![0x32u8], Some(v)),
        Some(NestedValueView::ExtensionValue) => seq![0x3au8] + seq![0u8],
        None => Seq::empty(),
    }
}

proof fn lemma_cell_part(held: Option<NestedValueView>)
    ensures
        fields::fields_bytes(data_set::nested_fields(1, held)) == cell_part(held),
{
    match held {
        Some(NestedValueView::IntValue(v)) => {
            lemma_key(1, 0);
            lemma_small(1, Some(v));
        },
        Some(NestedValueView::LongValue(v)) => {
            lemma_key(2, 0);
            lemma_number(2, Some(v));
        },
        Some(NestedValueView::FloatValue(v)) => {
            lemma_key(3, 5);
            lemma_fixed(3, v, 0);
        },
        Some(NestedValueView::DoubleValue(v)) => {
            lemma_key(4, 1);
            lemma_fixed(4, 0, v);
        },
        Some(NestedValueView::BooleanValue(v)) => {
            lemma_key(5, 0);
            lemma_flag(5, Some(v));
        },
        Some(NestedValueView::StringValue(v)) => {
            lemma_key(6, 2);
            lemma_text(6, Some(v));
        },
        Some(NestedValueView::ExtensionValue) => {
            lemma_key(7, 2);
            lemma_bytes(7, Some(Seq::empty()));
            lemma_nothing(seq![0x3au8]);
        },
        None => {},
    }
}

/// The value of a parameter in bytes: its field under the numbers 3 to 9.
pub open spec fn parameter_part(held: Option<NestedValueView>) -> Seq<u8> {
    match held {
        Some(NestedValueView::IntValue(v)) => seq![0x18u8] + wire::varint(v as nat),
        Some(NestedValueView::LongValue(v)) => seq![0x20u8] + wire::varint(v as nat),
        Some(NestedValueView::FloatValue(v)) => seq![0x2du8] + wire::little_endian(v as nat, 4),
        Some(NestedValueView::DoubleValue(v)) => seq![0x31u8] + wire::little_endian(v as nat, 8),
        Some(NestedValueView::BooleanValue(v)) => flag_part(seq![0x38u8], Some(v)),
        Some(NestedValueView::StringValue(v)) => text_part(seq![0x42u8], Some(v)),
        Some(NestedValueView::ExtensionValue) => seq![0x4au8] + seq![0u8],
        None => Seq::empty(),
    }
}

proof fn lemma_parameter_part(held: Option<NestedValueView>)
    ensures
        fields::fields_bytes(data_set::nested_fields(3, held)) == parameter_part(held),
{
    match held {
        Some(NestedValueView::IntValue(v)) => {
            lemma_key(3, 0);
            lemma_small(3, Some(v));
        },
        Some(NestedValueView::LongValue(v)) => {
            lemma_key(4, 0);
            lemma_number(4, Some(v));
        },
        Some(NestedValueView::FloatValue(v)) => {
            lemma_key(5, 5);
            lemma_fixed(5, v, 0);
        },
        Some(NestedValueView::DoubleValue(v)) => {
            lemma_key(6, 1);
            lemma_fixed(6, 0, v);
        },
        Some(NestedValueView::BooleanValue(v)) => {
            lemma_key(7, 0);
            lemma_flag(7, Some(v));
        },
        Some(NestedValueView::StringValue(v)) => {
            lemma_key(8, 2);
            lemma_text(8, Some(v));
        },
        Some(NestedValueView::ExtensionValue) => {
            lemma_key(9, 2);
            lemma_bytes(9, Some(Seq::empty()));
            lemma_nothing(seq![0x4au8]);
        },
        None => {},
    }
}

// ---------------------------------------------------------------------------
// Data sets
// ---------------------------------------------------------------------------

/// A cell in bytes: its value.
pub proof fn law_the_bytes_of_a_cell(c: DataSetValueView)
    ensures
        data_set::cell_bytes(c) == cell_part(c.value),
{
    lemma_cell_part(c.value);
}

/// A row in bytes: its cells in order, each under the number 1.
pub proof fn law_the_bytes_of_a_row(r: RowView)
    ensures
        data_set::row_bytes(r) == message_parts(seq![0x0au8], data_set::cell_bodies(r.elements)),
{
    let p1 = fields::messages_in(1, data_set::cell_bodies(r.elements));
    lemma_key(1, 2);
    lemma_messages(1, data_set::cell_bodies(r.elements));
}

/// A data set in bytes: the number of its columns under 1, their names under
/// 2, their types under 3, and its rows under 4.
pub proof fn law_the_bytes_of_a_data_set(d: DataSetView)
    ensures
        data_set::data_set_bytes(d) == number_part(seq![0x08u8], d.num_of_columns)
            + text_parts(seq![0x12u8], d.columns)
            + small_parts(seq![0x18u8], d.types)
            + message_parts(seq![0x22u8], data_set::row_bodies(d.rows)),
{
    let p1 = fields::number_in(1, d.num_of_columns);
    lemma_key(1, 0);
    lemma_number(1, d.num_of_columns);
    let p2 = fields::texts_in(2, d.columns);
    lemma_key(2, 2);
    lemma_texts(2, d.columns);
    let p3 = fields::numbers_in(3, d.types);
    lemma_key(3, 0);
    lemma_smalls(3, d.types);
    let p4 = fields::messages_in(4, data_set::row_bodies(d.rows));
    lemma_key(4, 2);
    lemma_messages(4, data_set::row_bodies(d.rows));
    lemma_join(p1, p2);
    lemma_join(p1 + p2, p3);
    lemma_join(p1 + p2 + p3, p4);
}

/// The bodies of a list are those of its items, in order.
pub proof fn law_a_list_is_written_item_by_item(
    cells: Seq<DataSetValueView>,
    rows: Seq<RowView>,
    parameters: Seq<ParameterView>,
    properties: Seq<PropertyValueView>,
    sets: Seq<PropertySetView>,
    listed: Seq<MetricView>,
)
    ensures
        data_set::cell_bodies(cells).len() == cells.len(),
        forall|i: int|
            0 <= i < cells.len() ==> #[trigger] data_set::cell_bodies(cells)[i]
                == data_set::cell_bytes(cells[i]),
        data_set::row_bodies(rows).len() == rows.len(),
        forall|i: int|
            0 <= i < rows.len() ==> #[trigger] data_set::row_bodies(rows)[i]
                == data_set::row_bytes(rows[i]),
        parameter::parameter_bodies(parameters).len() == parameters.len(),
        forall|i: int|
            0 <= i < parameters.len() ==> #[trigger] parameter::parameter_bodies(parameters)[i]
                == parameter::parameter_bytes(parameters[i]),
        property::property_bodies(properties).len() == properties.len(),
        forall|i: int|
            0 <= i < properties.len() ==> #[trigger] property::property_bodies(properties)[i]
                == property::property_bytes(properties[i]),
        property::set_bodies(sets).len() == sets.len(),
        forall|i: int|
            0 <= i < sets.len() ==> #[trigger] property::set_bodies(sets)[i]
                == property::set_bytes(sets[i]),
        metrics::metric_bodies(listed).len() == listed.len(),
        forall|i: int|
            0 <= i < listed.len() ==> #[trigger] metrics::metric_bodies(listed)[i]
                == metrics::metric_bytes(listed[i]),
{
}

// ---------------------------------------------------------------------------
// Properties
// ---------------------------------------------------------------------------

/// The value of a property in bytes: its field under the numbers 3 to 11.
pub open spec fn inner_part(held: Option<PropertyInnerView>) -> Seq<u8> {
    match held {
        Some(PropertyInnerView::IntValue(v)) => seq![0x18u8] + wire::varint(v as nat),
        Some(PropertyInnerView::LongValue(v)) => seq![0x20u8] + wire::varint(v as nat),
        Some(PropertyInnerView::FloatValue(v)) => seq![0x2du8] + wire::little_endian(v as nat, 4),
        Some(PropertyInnerView::DoubleValue(v)) => seq![0x31u8] + wire::little_endian(v as nat, 8),
        Some(PropertyInnerView::BooleanValue(v)) => flag_part(seq![0x38u8], Some(v)),
        Some(PropertyInnerView::StringValue(v)) => text_part(seq![0x42u8], Some(v)),
        Some(PropertyInnerView::PropertysetValue(s)) => bytes_part(
            seq![0x4au8],
            Some(property::set_bytes(s)),
        ),
        Some(PropertyInnerView::PropertysetsValue(l)) => bytes_part(
            seq![0x52u8],
            Some(property::sets_bytes(l)),
        ),
        Some(PropertyInnerView::ExtensionValue) => seq![0x5au8, 0u8],
        None => Seq::empty(),
    }
}

proof fn lemma_inner_part(value: PropertyInnerView)
    ensures
        fields::fields_bytes(property::inner_fields(value)) == inner_part(Some(value)),
{
    match value {
        PropertyInnerView::IntValue(v) => {
            lemma_key(3, 0);
            lemma_small(3, Some(v));
        },
        PropertyInnerView::LongValue(v) => {
            lemma_key(4, 0);
            lemma_number(4, Some(v));
        },
        PropertyInnerView::FloatValue(v) => {
            lemma_key(5, 5);
            lemma_fixed(5, v, 0);
        },
        PropertyInnerView::DoubleValue(v) => {
            lemma_key(6, 1);
            lemma_fixed(6, 0, v);
        },
        PropertyInnerView::BooleanValue(v) => {
            lemma_key(7, 0);
            lemma_flag(7, Some(v));
        },
        PropertyInnerView::StringValue(v) => {
            lemma_key(8, 2);
            lemma_text(8, Some(v));
        },
        PropertyInnerView::PropertysetValue(s) => {
            lemma_key(9, 2);
            lemma_bytes(9, Some(property::set_bytes(s)));
        },
        PropertyInnerView::PropertysetsValue(l) => {
            lemma_key(10, 2);
            lemma_bytes(10, Some(property::sets_bytes(l)));
        },
        PropertyInnerView::ExtensionValue => {
            lemma_key(11, 2);
            lemma_bytes(11, Some(Seq::empty()));
            lemma_nothing(seq![0x5au8]);
            assert(seq![0x5au8] + seq![0u8] =~= seq![0x5au8, 0u8]);
        },
    }
}

/// A property in bytes: its datatype under 1, whether it is null under 2, and
/// its value.
pub proof fn law_the_bytes_of_a_property(p: PropertyValueView)
    ensures
        property::property_bytes(p) == small_part(seq![0x08u8], p.datatype)
            + flag_part(seq![0x10u8], p.is_null)
            + inner_part(p.value),
{
    let p1 = fields::number_in(1, fields::widened(p.datatype));
    lemma_key(1, 0);
    lemma_small(1, p.datatype);
    let p2 = fields::number_in(2, fields::flagged(p.is_null));
    lemma_key(2, 0);
    lemma_flag(2, p.is_null);
    let p3 = match p.value {
        Some(value) => property::inner_fields(value),
        None => Seq::empty(),
    };
    match p.value {
        Some(value) => lemma_inner_part(value),
        None => {},
    }
    lemma_join(p1, p2);
    lemma_join(p1 + p2, p3);
}

/// A property set in bytes: its keys under 1, and the values beside them under
/// 2.
pub proof fn law_the_bytes_of_a_property_set(s: PropertySetView)
    ensures
        property::set_bytes(s) == text_parts(seq![0x0au8], s.keys)
            + message_parts(seq![0x12u8], property::property_bodies(s.values)),
{
    property::lemma_set_parts(s);
    let p1 = fields::texts_in(1, s.keys);
    lemma_key(1, 2);
    lemma_texts(1, s.keys);
    let p2 = fields::messages_in(2, property::property_bodies(s.values));
    lemma_key(2, 2);
    lemma_messages(2, property::property_bodies(s.values));
    lemma_join(p1, p2);
}

/// A list of property sets in bytes: each of them under 1.
pub proof fn law_the_bytes_of_property_sets(l: PropertySetListView)
    ensures
        property::sets_bytes(l) == message_parts(seq![0x0au8], property::set_bodies(l.propertyset)),
{
    property::lemma_sets_parts(l);
    let p1 = fields::messages_in(1, property::set_bodies(l.propertyset));
    lemma_key(1, 2);
    lemma_messages(1, property::set_bodies(l.propertyset));
}

// ---------------------------------------------------------------------------
// Templates and metrics
// ---------------------------------------------------------------------------

/// A parameter in bytes: its name under 1, its datatype under 2, and its value.
pub proof fn law_the_bytes_of_a_parameter(p: ParameterView)
    ensures
        parameter::parameter_bytes(p) == text_part(seq![0x0au8], p.name)
            + small_part(seq![0x10u8], p.datatype)
            + parameter_part(p.value),
{
    let p1 = fields::text_in(1, p.name);
    lemma_key(1, 2);
    lemma_text(1, p.name);
    let p2 = fields::number_in(2, fields::widened(p.datatype));
    lemma_key(2, 0);
    lemma_small(2, p.datatype);
    let p3 = data_set::nested_fields(3, p.value);
    lemma_parameter_part(p.value);
    lemma_join(p1, p2);
    lemma_join(p1 + p2, p3);
}

/// A template in bytes: its version under 1, its metrics under 2, its
/// parameters under 3, the template it refers to under 4, and whether it is a
/// definition under 5.
pub proof fn law_the_bytes_of_a_template(t: TemplateView)
    ensures
        metrics::template_bytes(t) == text_part(seq![0x0au8], t.version)
            + message_parts(seq![0x12u8], metrics::metric_bodies(t.metrics))
            + message_parts(seq![0x1au8], parameter::parameter_bodies(t.parameters))
            + text_part(seq![0x22u8], t.template_ref)
            + flag_part(seq![0x28u8], t.is_definition),
{
    metrics::lemma_template_parts(t);
    let p1 = fields::text_in(1, t.version);
    lemma_key(1, 2);
    lemma_text(1, t.version);
    let p2 = fields::messages_in(2, metrics::metric_bodies(t.metrics));
    lemma_key(2, 2);
    lemma_messages(2, metrics::metric_bodies(t.metrics));
    let p3 = fields::messages_in(3, parameter::parameter_bodies(t.parameters));
    lemma_key(3, 2);
    lemma_messages(3, parameter::parameter_bodies(t.parameters));
    let p4 = fields::text_in(4, t.template_ref);
    lemma_key(4, 2);
    lemma_text(4, t.template_ref);
    let p5 = fields::number_in(5, fields::flagged(t.is_definition));
    lemma_key(5, 0);
    lemma_flag(5, t.is_definition);
    lemma_join(p1, p2);
    lemma_join(p1 + p2, p3);
    lemma_join(p1 + p2 + p3, p4);
    lemma_join(p1 + p2 + p3 + p4, p5);
}

/// The value of a metric in bytes: its field under the numbers 10 to 19.
pub open spec fn value_part(held: Option<ValueView>) -> Seq<u8> {
    match held {
        Some(ValueView::IntValue(v)) => seq![0x50u8] + wire::varint(v as nat),
        Some(ValueView::LongValue(v)) => seq![0x58u8] + wire::varint(v as nat),
        Some(ValueView::FloatValue(v)) => seq![0x65u8] + wire::little_endian(v as nat, 4),
        Some(ValueView::DoubleValue(v)) => seq![0x69u8] + wire::little_endian(v as nat, 8),
        Some(ValueView::BooleanValue(v)) => flag_part(seq![0x70u8], Some(v)),
        Some(ValueView::StringValue(v)) => text_part(seq![0x7au8], Some(v)),
        Some(ValueView::BytesValue(v)) => bytes_part(seq![0x82u8, 0x01u8], Some(v)),
        Some(ValueView::DatasetValue(d)) => bytes_part(
            seq![0x8au8, 0x01u8],
            Some(data_set::data_set_bytes(d)),
        ),
        Some(ValueView::TemplateValue(t)) => bytes_part(
            seq![0x92u8, 0x01u8],
            Some(metrics::template_bytes(t)),
        ),
        Some(ValueView::ExtensionValue) => seq![0x9au8, 0x01u8, 0u8],
        None => Seq::empty(),
    }
}

proof fn lemma_value_part(value: ValueView)
    ensures
        fields::fields_bytes(metrics::value_fields(value)) == value_part(Some(value)),
{
    match value {
        ValueView::IntValue(v) => {
            lemma_key(10, 0);
            lemma_small(10, Some(v));
        },
        ValueView::LongValue(v) => {
            lemma_key(11, 0);
            lemma_number(11, Some(v));
        },
        ValueView::FloatValue(v) => {
            lemma_key(12, 5);
            lemma_fixed(12, v, 0);
        },
        ValueView::DoubleValue(v) => {
            lemma_key(13, 1);
            lemma_fixed(13, 0, v);
        },
        ValueView::BooleanValue(v) => {
            lemma_key(14, 0);
            lemma_flag(14, Some(v));
        },
        ValueView::StringValue(v) => {
            lemma_key(15, 2);
            lemma_text(15, Some(v));
        },
        ValueView::BytesValue(v) => {
            lemma_key(16, 2);
            lemma_bytes(16, Some(v));
        },
        ValueView::DatasetValue(d) => {
            lemma_key(17, 2);
            lemma_bytes(17, Some(data_set::data_set_bytes(d)));
        },
        ValueView::TemplateValue(t) => {
            lemma_key(18, 2);
            lemma_bytes(18, Some(metrics::template_bytes(t)));
        },
        ValueView::ExtensionValue => {
            lemma_key(19, 2);
            lemma_bytes(19, Some(Seq::empty()));
            lemma_nothing(seq![0x9au8, 0x01u8]);
            assert(seq![0x9au8, 0x01u8] + seq![0u8] =~= seq![0x9au8, 0x01u8, 0u8]);
        },
    }
}

/// Metadata in bytes, if there is any.
pub open spec fn meta_data_held(held: Option<MetaDataView>) -> Option<Seq<u8>> {
    match held {
        Some(d) => Some(meta_data::meta_data_bytes(d)),
        None => None,
    }
}

/// Properties in bytes, if there are any.
pub open spec fn properties_held(held: Option<PropertySetView>) -> Option<Seq<u8>> {
    match held {
        Some(s) => Some(property::set_bytes(s)),
        None => None,
    }
}

/// The plain fields of a metric.
proof fn lemma_plain_part(m: MetricView)
    ensures
        fields::fields_bytes(metrics::plain_fields(m)) == text_part(seq![0x0au8], m.name)
            + number_part(seq![0x10u8], m.alias)
            + number_part(seq![0x18u8], m.timestamp)
            + small_part(seq![0x20u8], m.datatype)
            + flag_part(seq![0x28u8], m.is_historical)
            + flag_part(seq![0x30u8], m.is_transient)
            + flag_part(seq![0x38u8], m.is_null),
{
    let p1 = fields::text_in(1, m.name);
    lemma_key(1, 2);
    lemma_text(1, m.name);
    let p2 = fields::number_in(2, m.alias);
    lemma_key(2, 0);
    lemma_number(2, m.alias);
    let p3 = fields::number_in(3, m.timestamp);
    lemma_key(3, 0);
    lemma_number(3, m.timestamp);
    let p4 = fields::number_in(4, fields::widened(m.datatype));
    lemma_key(4, 0);
    lemma_small(4, m.datatype);
    let p5 = fields::number_in(5, fields::flagged(m.is_historical));
    lemma_key(5, 0);
    lemma_flag(5, m.is_historical);
    let p6 = fields::number_in(6, fields::flagged(m.is_transient));
    lemma_key(6, 0);
    lemma_flag(6, m.is_transient);
    let p7 = fields::number_in(7, fields::flagged(m.is_null));
    lemma_key(7, 0);
    lemma_flag(7, m.is_null);
    lemma_join(p1, p2);
    lemma_join(p1 + p2, p3);
    lemma_join(p1 + p2 + p3, p4);
    lemma_join(p1 + p2 + p3 + p4, p5);
    lemma_join(p1 + p2 + p3 + p4 + p5, p6);
    lemma_join(p1 + p2 + p3 + p4 + p5 + p6, p7);
}

/// A metric in bytes: its name under 1, its alias under 2, its instant under
/// 3, its datatype under 4, whether it is historical under 5, transient under
/// 6 and null under 7, its metadata under 8, its properties under 9, and its
/// value.
pub proof fn law_the_bytes_of_a_metric(m: MetricView)
    ensures
        metrics::metric_bytes(m) == text_part(seq![0x0au8], m.name)
            + number_part(seq![0x10u8], m.alias)
            + number_part(seq![0x18u8], m.timestamp)
            + small_part(seq![0x20u8], m.datatype)
            + flag_part(seq![0x28u8], m.is_historical)
            + flag_part(seq![0x30u8], m.is_transient)
            + flag_part(seq![0x38u8], m.is_null)
            + bytes_part(seq![0x42u8], meta_data_held(m.metadata))
            + bytes_part(seq![0x4au8], properties_held(m.properties))
            + value_part(m.value),
{
    lemma_plain_part(m);
    let plain = metrics::plain_fields(m);
    let p8 = fields::message_in(8, metrics::meta_data_body(m.metadata));
    let p9 = fields::message_in(9, metrics::properties_body(m.properties));
    let p10 = match m.value {
        Some(value) => metrics::value_fields(value),
        None => Seq::empty(),
    };
    lemma_key(8, 2);
    lemma_key(9, 2);
    lemma_bytes(8, metrics::meta_data_body(m.metadata));
    lemma_bytes(9, metrics::properties_body(m.properties));
    match m.value {
        Some(value) => lemma_value_part(value),
        None => {},
    }
    lemma_join(plain, p8);
    lemma_join(plain + p8, p9);
    lemma_join(plain + p8 + p9, p10);
}

// ---------------------------------------------------------------------------
// Payloads
// ---------------------------------------------------------------------------

/// A payload in bytes: its instant under 1, its metrics under 2, its `seq`
/// under 3, its identifier under 4, and its body under 5.
pub proof fn law_the_bytes_of_a_payload(p: PayloadView)
    ensures
        codec::payload_bytes(p) == number_part(seq![0x08u8], p.timestamp)
            + message_parts(seq![0x12u8], metrics::metric_bodies(p.metrics))
            + number_part(seq![0x18u8], p.seq)
            + text_part(seq![0x22u8], p.uuid)
            + bytes_part(seq![0x2au8], p.body),
{
    let p1 = fields::number_in(1, p.timestamp);
    lemma_key(1, 0);
    lemma_number(1, p.timestamp);
    let p2 = fields::messages_in(2, metrics::metric_bodies(p.metrics));
    lemma_key(2, 2);
    lemma_messages(2, metrics::metric_bodies(p.metrics));
    let p3 = fields::number_in(3, p.seq);
    lemma_key(3, 0);
    lemma_number(3, p.seq);
    let p4 = fields::text_in(4, p.uuid);
    lemma_key(4, 2);
    lemma_text(4, p.uuid);
    let p5 = fields::bytes_in(5, p.body);
    lemma_key(5, 2);
    lemma_bytes(5, p.body);
    lemma_join(p1, p2);
    lemma_join(p1 + p2, p3);
    lemma_join(p1 + p2 + p3, p4);
    lemma_join(p1 + p2 + p3 + p4, p5);
}

// ---------------------------------------------------------------------------
// A metric of one field
// ---------------------------------------------------------------------------

proof fn lemma_varint_is_short(value: nat, budget: nat)
    requires
        budget > 0,
        value < vstd::arithmetic::power::pow(128, budget),
    ensures
        wire::varint(value).len() <= budget,
    decreases budget,
{
    reveal(vstd::arithmetic::power::pow);
    if value >= 128 {
        if budget == 1 {
            assert(vstd::arithmetic::power::pow(128, 0) == 1);
        }
        lemma_varint_is_short(value / 128, (budget - 1) as nat);
    }
}

proof fn lemma_varint_len(value: u64)
    ensures
        wire::varint(value as nat).len() <= 10,
{
    assert(vstd::arithmetic::power::pow(128, 10) > u64::MAX) by {
        reveal_with_fuel(vstd::arithmetic::power::pow, 11);
    }
    lemma_varint_is_short(value as nat, 10);
}

/// A metric that holds one number and nothing else is the key of that field
/// and the number, and those bytes read as that metric: 0x10 is the key of an
/// alias, 0x18 that of an instant, and 0x58 that of a 64-bit value.
pub proof fn law_one_number_has_its_own_key(v: u64)
    ensures
        ({
            let alias = MetricView { alias: Some(v), ..payload::no_metric() };
            let instant = MetricView { timestamp: Some(v), ..payload::no_metric() };
            let value = MetricView {
                value: Some(ValueView::LongValue(v)),
                ..payload::no_metric()
            };
            &&& metrics::metric_bytes(alias) == seq![0x10u8] + wire::varint(v as nat)
            &&& metrics::metric_read(seq![0x10u8] + wire::varint(v as nat)) == Some(alias)
            &&& metrics::metric_bytes(instant) == seq![0x18u8] + wire::varint(v as nat)
            &&& metrics::metric_read(seq![0x18u8] + wire::varint(v as nat)) == Some(instant)
            &&& metrics::metric_bytes(value) == seq![0x58u8] + wire::varint(v as nat)
            &&& metrics::metric_read(seq![0x58u8] + wire::varint(v as nat)) == Some(value)
        }),
{
    lemma_varint_len(v);
    let alias = MetricView { alias: Some(v), ..payload::no_metric() };
    let instant = MetricView { timestamp: Some(v), ..payload::no_metric() };
    let value = MetricView { value: Some(ValueView::LongValue(v)), ..payload::no_metric() };
    law_the_bytes_of_a_metric(alias);
    law_the_bytes_of_a_metric(instant);
    law_the_bytes_of_a_metric(value);
    assert(metrics::metric_bytes(alias) =~= seq![0x10u8] + wire::varint(v as nat));
    assert(metrics::metric_bytes(instant) =~= seq![0x18u8] + wire::varint(v as nat));
    assert(metrics::metric_bytes(value) =~= seq![0x58u8] + wire::varint(v as nat));
    metrics::law_a_metric_reads_back(alias);
    metrics::law_a_metric_reads_back(instant);
    metrics::law_a_metric_reads_back(value);
}

/// A metric that holds one 32-bit number, one floating-point number or one
/// flag and nothing else is the key of that field and what it holds.
pub proof fn law_one_small_value_has_its_own_key(v: u32, bits: u64, flag: bool)
    ensures
        ({
            let datatype = MetricView { datatype: Some(v), ..payload::no_metric() };
            let whole = MetricView { value: Some(ValueView::IntValue(v)), ..payload::no_metric() };
            let single = MetricView {
                value: Some(ValueView::FloatValue(v)),
                ..payload::no_metric()
            };
            let double = MetricView {
                value: Some(ValueView::DoubleValue(bits)),
                ..payload::no_metric()
            };
            let historical = MetricView { is_historical: Some(flag), ..payload::no_metric() };
            let transient = MetricView { is_transient: Some(flag), ..payload::no_metric() };
            let null = MetricView { is_null: Some(flag), ..payload::no_metric() };
            let boolean = MetricView {
                value: Some(ValueView::BooleanValue(flag)),
                ..payload::no_metric()
            };
            let set = seq![if flag { 1u8 } else { 0u8 }];
            &&& metrics::metric_bytes(datatype) == seq![0x20u8] + wire::varint(v as nat)
            &&& metrics::metric_bytes(whole) == seq![0x50u8] + wire::varint(v as nat)
            &&& metrics::metric_bytes(single) == seq![0x65u8] + wire::little_endian(v as nat, 4)
            &&& metrics::metric_bytes(double) == seq![0x69u8] + wire::little_endian(bits as nat, 8)
            &&& metrics::metric_bytes(historical) == seq![0x28u8] + set
            &&& metrics::metric_bytes(transient) == seq![0x30u8] + set
            &&& metrics::metric_bytes(null) == seq![0x38u8] + set
            &&& metrics::metric_bytes(boolean) == seq![0x70u8] + set
            &&& metrics::metric_read(seq![0x69u8] + wire::little_endian(bits as nat, 8)) == Some(
                double,
            )
            &&& metrics::metric_read(seq![0x65u8] + wire::little_endian(v as nat, 4)) == Some(
                single,
            )
            &&& metrics::metric_read(seq![0x70u8] + set) == Some(boolean)
        }),
{
    let datatype = MetricView { datatype: Some(v), ..payload::no_metric() };
    let whole = MetricView { value: Some(ValueView::IntValue(v)), ..payload::no_metric() };
    let single = MetricView { value: Some(ValueView::FloatValue(v)), ..payload::no_metric() };
    let double = MetricView { value: Some(ValueView::DoubleValue(bits)), ..payload::no_metric() };
    let historical = MetricView { is_historical: Some(flag), ..payload::no_metric() };
    let transient = MetricView { is_transient: Some(flag), ..payload::no_metric() };
    let null = MetricView { is_null: Some(flag), ..payload::no_metric() };
    let boolean = MetricView { value: Some(ValueView::BooleanValue(flag)), ..payload::no_metric() };
    let set = seq![if flag { 1u8 } else { 0u8 }];
    law_the_bytes_of_a_metric(datatype);
    law_the_bytes_of_a_metric(whole);
    law_the_bytes_of_a_metric(single);
    law_the_bytes_of_a_metric(double);
    law_the_bytes_of_a_metric(historical);
    law_the_bytes_of_a_metric(transient);
    law_the_bytes_of_a_metric(null);
    law_the_bytes_of_a_metric(boolean);
    assert(metrics::metric_bytes(datatype) =~= seq![0x20u8] + wire::varint(v as nat));
    assert(metrics::metric_bytes(whole) =~= seq![0x50u8] + wire::varint(v as nat));
    assert(metrics::metric_bytes(single) =~= seq![0x65u8] + wire::little_endian(v as nat, 4));
    assert(metrics::metric_bytes(double) =~= seq![0x69u8] + wire::little_endian(bits as nat, 8));
    assert(metrics::metric_bytes(historical) =~= seq![0x28u8] + set);
    assert(metrics::metric_bytes(transient) =~= seq![0x30u8] + set);
    assert(metrics::metric_bytes(null) =~= seq![0x38u8] + set);
    assert(metrics::metric_bytes(boolean) =~= seq![0x70u8] + set);
    wire::law_a_fixed_number_starts_with_its_lowest_byte(v as nat, 4);
    wire::law_a_fixed_number_starts_with_its_lowest_byte(bits as nat, 8);
    metrics::law_a_metric_reads_back(single);
    metrics::law_a_metric_reads_back(double);
    metrics::law_a_metric_reads_back(boolean);
}

} // verus!
