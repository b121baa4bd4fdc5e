//! Where each field of a message goes when it is read, by its number.
//!
//! A message is read from fields that may come in any order and more than
//! once. The last one under a number counts, a list keeps all of them in
//! order, and a nested message takes up each of them in turn. The laws below
//! say so for every field of every message, whatever else the bytes hold.

use crate::payload;
use crate::payload::codec;
use crate::payload::codec::data_set;
use crate::payload::codec::meta_data;
use crate::payload::codec::metrics;
use crate::payload::codec::parameter;
use crate::payload::codec::property;
use crate::payload::fields::{self, FieldValueView, FieldView};
use crate::payload::metric::ValueView;
use crate::payload::nested::{
    self, DataSetValueView, DataSetView, MetaDataView, NestedValueView, ParameterView,
    PropertyInnerView, PropertySetListView, PropertySetView, PropertyValueView, RowView,
    TemplateView,
};
use crate::payload::{MetricView, PayloadView};
use crate::schema::{self, MessageKind};
use crate::wire;
use vstd::prelude::*;

verus! {

// ---------------------------------------------------------------------------
// What fields hold under a number
// ---------------------------------------------------------------------------

/// The number that the last field under `number` holds, or `held` when there
/// is none.
pub open spec fn last_number(fs: Seq<FieldView>, number: u32, held: Option<u64>) -> Option<u64>
    decreases fs.len(),
{
    if fs.len() == 0 {
        held
    } else {
        match fs.last().value {
            FieldValueView::Number(v) if fs.last().number == number => Some(v),
            _ => last_number(fs.drop_last(), number, held),
        }
    }
}

/// The low 32 bits of the number that the last field under `number` holds, or
/// `held` when there is none.
pub open spec fn last_small(fs: Seq<FieldView>, number: u32, held: Option<u32>) -> Option<u32>
    decreases fs.len(),
{
    if fs.len() == 0 {
        held
    } else {
        match fs.last().value {
            FieldValueView::Number(v) if fs.last().number == number => Some(
                (v % 0x1_0000_0000) as u32,
            ),
            _ => last_small(fs.drop_last(), number, held),
        }
    }
}

/// Whether the number that the last field under `number` holds is not zero,
/// or `held` when there is none.
pub open spec fn last_flag(fs: Seq<FieldView>, number: u32, held: Option<bool>) -> Option<bool>
    decreases fs.len(),
{
    if fs.len() == 0 {
        held
    } else {
        match fs.last().value {
            FieldValueView::Number(v) if fs.last().number == number => Some(v > 0),
            _ => last_flag(fs.drop_last(), number, held),
        }
    }
}

/// The text that the last field under `number` holds, or `held` when there is
/// none.
pub open spec fn last_text(
    fs: Seq<FieldView>,
    number: u32,
    held: Option<Seq<char>>,
) -> Option<Seq<char>>
    decreases fs.len(),
{
    if fs.len() == 0 {
        held
    } else {
        match fs.last().value {
            FieldValueView::Text(v) if fs.last().number == number => Some(v),
            _ => last_text(fs.drop_last(), number, held),
        }
    }
}

/// The bytes that the last field under `number` holds, or `held` when there
/// is none.
pub open spec fn last_bytes(
    fs: Seq<FieldView>,
    number: u32,
    held: Option<Seq<u8>>,
) -> Option<Seq<u8>>
    decreases fs.len(),
{
    if fs.len() == 0 {
        held
    } else {
        match fs.last().value {
            FieldValueView::Bytes(v) if fs.last().number == number => Some(v),
            _ => last_bytes(fs.drop_last(), number, held),
        }
    }
}

/// The texts that the fields under `number` hold, in order.
pub open spec fn texts_under(fs: Seq<FieldView>, number: u32) -> Seq<Seq<char>>
    decreases fs.len(),
{
    if fs.len() == 0 {
        Seq::empty()
    } else {
        match fs.last().value {
            FieldValueView::Text(v) if fs.last().number == number => texts_under(
                fs.drop_last(),
                number,
            ).push(v),
            _ => texts_under(fs.drop_last(), number),
        }
    }
}

/// The numbers that the fields under `number` hold, in order, one to a field
/// or packed, each in its low 32 bits.
pub open spec fn smalls_under(fs: Seq<FieldView>, number: u32) -> Seq<u32>
    decreases fs.len(),
{
    if fs.len() == 0 {
        Seq::empty()
    } else {
        let before = smalls_under(fs.drop_last(), number);
        match fs.last().value {
            FieldValueView::Number(v) if fs.last().number == number => before.push(
                (v % 0x1_0000_0000) as u32,
            ),
            FieldValueView::Numbers(v) if fs.last().number == number => before + Seq::new(
                v.len(),
                |i: int| (v[i] % 0x1_0000_0000) as u32,
            ),
            _ => before,
        }
    }
}

/// The bodies of the messages that the fields under `number` hold, in order.
pub open spec fn bodies_under(fs: Seq<FieldView>, number: u32) -> Seq<Seq<u8>>
    decreases fs.len(),
{
    if fs.len() == 0 {
        Seq::empty()
    } else {
        match fs.last().value {
            FieldValueView::Message(v) if fs.last().number == number => bodies_under(
                fs.drop_last(),
                number,
            ).push(v),
            _ => bodies_under(fs.drop_last(), number),
        }
    }
}

/// Whether no field from `from` on has a number from `low` to `high`.
pub open spec fn none_from(fs: Seq<FieldView>, from: int, low: u32, high: u32) -> bool {
    forall|j: int| from <= j < fs.len() ==> !(low <= (#[trigger] fs[j]).number <= high)
}

proof fn lemma_none_shorter(fs: Seq<FieldView>, from: int, low: u32, high: u32)
    requires
        0 <= from < fs.len(),
        none_from(fs, from, low, high),
    ensures
        none_from(fs.drop_last(), from, low, high),
        !(low <= fs.last().number <= high),
{
    assert(fs[fs.len() - 1] == fs.last());
    assert forall|j: int| from <= j < fs.drop_last().len() implies !(low <= (
    #[trigger] fs.drop_last()[j]).number <= high) by {
        assert(fs.drop_last()[j] == fs[j]);
    }
}

// ---------------------------------------------------------------------------
// Metadata
// ---------------------------------------------------------------------------

/// Metadata takes each field from its number: 1 says whether it is one of
/// several parts, 2 its content type, 3 its size, 4 its number among the
/// parts, 5 and 6 the name and the type of a file, 7 its digest, and 8 what it
/// is.
pub proof fn law_metadata_is_read_by_number(start: MetaDataView, bytes: Seq<u8>)
    ensures
        ({
            let fs = fields::fields_in(MessageKind::MetaData, bytes);
            let m = meta_data::meta_data_from(start, bytes);
            &&& m.is_multi_part == last_flag(fs, 1, start.is_multi_part)
            &&& m.content_type == last_text(fs, 2, start.content_type)
            &&& m.size == last_number(fs, 3, start.size)
            &&& m.seq == last_number(fs, 4, start.seq)
            &&& m.file_name == last_text(fs, 5, start.file_name)
            &&& m.file_type == last_text(fs, 6, start.file_type)
            &&& m.md5 == last_text(fs, 7, start.md5)
            &&& m.description == last_text(fs, 8, start.description)
        }),
{
    lemma_metadata_read(start, fields::fields_in(MessageKind::MetaData, bytes));
}

proof fn lemma_metadata_read(start: MetaDataView, fs: Seq<FieldView>)
    ensures
        ({
            let m = fields::folded(start, fs, meta_data::meta_data_step());
            &&& m.is_multi_part == last_flag(fs, 1, start.is_multi_part)
            &&& m.content_type == last_text(fs, 2, start.content_type)
            &&& m.size == last_number(fs, 3, start.size)
            &&& m.seq == last_number(fs, 4, start.seq)
            &&& m.file_name == last_text(fs, 5, start.file_name)
            &&& m.file_type == last_text(fs, 6, start.file_type)
            &&& m.md5 == last_text(fs, 7, start.md5)
            &&& m.description == last_text(fs, 8, start.description)
        }),
    decreases fs.len(),
{
    if fs.len() > 0 {
        lemma_metadata_read(start, fs.drop_last());
    }
}

// ---------------------------------------------------------------------------
// Values of cells and parameters
// ---------------------------------------------------------------------------

/// The value of a cell is that of its last field, and the number of that field
/// says which kind it is: 1 and 2 a whole number, 3 and 4 a floating-point
/// number, 5 a flag, 6 a text, and 7 an extension.
pub proof fn law_the_value_of_a_cell_is_read_by_number(
    start: DataSetValueView,
    bytes: Seq<u8>,
    limit: nat,
    i: int,
)
    ensures
        ({
            let fs = fields::fields_in(MessageKind::DataSetValue, bytes);
            let c = data_set::cell_from(start, bytes, limit);
            &&& none_from(fs, 0, 1, 7) ==> c.value == start.value
            &&& 0 <= i < fs.len() && none_from(fs, i + 1, 1, 7) ==> match (
                fs[i].number,
                fs[i].value,
            ) {
                (1, FieldValueView::Number(v)) => c.value == Some(
                    NestedValueView::IntValue((v % 0x1_0000_0000) as u32),
                ),
                (2, FieldValueView::Number(v)) => c.value == Some(NestedValueView::LongValue(v)),
                (3, FieldValueView::Single(v)) => c.value == Some(NestedValueView::FloatValue(v)),
                (4, FieldValueView::Double(v)) => c.value == Some(NestedValueView::DoubleValue(v)),
                (5, FieldValueView::Number(v)) => c.value == Some(
                    NestedValueView::BooleanValue(v > 0),
                ),
                (6, FieldValueView::Text(v)) => c.value == Some(NestedValueView::StringValue(v)),
                (7, FieldValueView::Message(_)) => limit > 0 ==> c.value == Some(
                    NestedValueView::ExtensionValue,
                ),
                _ => true,
            }
        }),
{
    let fs = fields::fields_in(MessageKind::DataSetValue, bytes);
    lemma_value_of_a_cell(start, fs, limit, i);
}

proof fn lemma_value_of_a_cell(start: DataSetValueView, fs: Seq<FieldView>, limit: nat, i: int)
    ensures
        ({
            let c = fields::folded(start, fs, data_set::cell_step(limit));
            &&& none_from(fs, 0, 1, 7) ==> c.value == start.value
            &&& 0 <= i < fs.len() && none_from(fs, i + 1, 1, 7) ==> match (
                fs[i].number,
                fs[i].value,
            ) {
                (1, FieldValueView::Number(v)) => c.value == Some(
                    NestedValueView::IntValue((v % 0x1_0000_0000) as u32),
                ),
                (2, FieldValueView::Number(v)) => c.value == Some(NestedValueView::LongValue(v)),
                (3, FieldValueView::Single(v)) => c.value == Some(NestedValueView::FloatValue(v)),
                (4, FieldValueView::Double(v)) => c.value == Some(NestedValueView::DoubleValue(v)),
                (5, FieldValueView::Number(v)) => c.value == Some(
                    NestedValueView::BooleanValue(v > 0),
                ),
                (6, FieldValueView::Text(v)) => c.value == Some(NestedValueView::StringValue(v)),
                (7, FieldValueView::Message(_)) => limit > 0 ==> c.value == Some(
                    NestedValueView::ExtensionValue,
                ),
                _ => true,
            }
        }),
    decreases fs.len(),
{
    if fs.len() > 0 {
        lemma_value_of_a_cell(start, fs.drop_last(), limit, i);
        if none_from(fs, 0, 1, 7) {
            lemma_none_shorter(fs, 0, 1, 7);
        }
        if 0 <= i < fs.len() - 1 && none_from(fs, i + 1, 1, 7) {
            lemma_none_shorter(fs, i + 1, 1, 7);
            assert(fs.drop_last()[i] == fs[i]);
        }
    }
}

/// The value of a parameter is that of its last field from 3 on, and the
/// number of that field says which kind it is: 3 and 4 a whole number, 5 and 6
/// a floating-point number, 7 a flag, 8 a text, and 9 an extension.
pub proof fn law_the_value_of_a_parameter_is_read_by_number(
    start: ParameterView,
    bytes: Seq<u8>,
    limit: nat,
    i: int,
)
    ensures
        ({
            let fs = fields::fields_in(MessageKind::Parameter, bytes);
            let p = parameter::parameter_from(start, bytes, limit);
            &&& none_from(fs, 0, 3, 9) ==> p.value == start.value
            &&& 0 <= i < fs.len() && none_from(fs, i + 1, 3, 9) ==> match (
                fs[i].number,
                fs[i].value,
            ) {
                (3, FieldValueView::Number(v)) => p.value == Some(
                    NestedValueView::IntValue((v % 0x1_0000_0000) as u32),
                ),
                (4, FieldValueView::Number(v)) => p.value == Some(NestedValueView::LongValue(v)),
                (5, FieldValueView::Single(v)) => p.value == Some(NestedValueView::FloatValue(v)),
                (6, FieldValueView::Double(v)) => p.value == Some(NestedValueView::DoubleValue(v)),
                (7, FieldValueView::Number(v)) => p.value == Some(
                    NestedValueView::BooleanValue(v > 0),
                ),
                (8, FieldValueView::Text(v)) => p.value == Some(NestedValueView::StringValue(v)),
                (9, FieldValueView::Message(_)) => limit > 0 ==> p.value == Some(
                    NestedValueView::ExtensionValue,
                ),
                _ => true,
            }
        }),
{
    let fs = fields::fields_in(MessageKind::Parameter, bytes);
    lemma_value_of_a_parameter(start, fs, limit, i);
}

proof fn lemma_value_of_a_parameter(start: ParameterView, fs: Seq<FieldView>, limit: nat, i: int)
    ensures
        ({
            let p = fields::folded(start, fs, parameter::parameter_step(limit));
            &&& none_from(fs, 0, 3, 9) ==> p.value == start.value
            &&& 0 <= i < fs.len() && none_from(fs, i + 1, 3, 9) ==> match (
                fs[i].number,
                fs[i].value,
            ) {
                (3, FieldValueView::Number(v)) => p.value == Some(
                    NestedValueView::IntValue((v % 0x1_0000_0000) as u32),
                ),
                (4, FieldValueView::Number(v)) => p.value == Some(NestedValueView::LongValue(v)),
                (5, FieldValueView::Single(v)) => p.value == Some(NestedValueView::FloatValue(v)),
                (6, FieldValueView::Double(v)) => p.value == Some(NestedValueView::DoubleValue(v)),
                (7, FieldValueView::Number(v)) => p.value == Some(
                    NestedValueView::BooleanValue(v > 0),
                ),
                (8, FieldValueView::Text(v)) => p.value == Some(NestedValueView::StringValue(v)),
                (9, FieldValueView::Message(_)) => limit > 0 ==> p.value == Some(
                    NestedValueView::ExtensionValue,
                ),
                _ => true,
            }
        }),
    decreases fs.len(),
{
    if fs.len() > 0 {
        lemma_value_of_a_parameter(start, fs.drop_last(), limit, i);
        if none_from(fs, 0, 3, 9) {
            lemma_none_shorter(fs, 0, 3, 9);
        }
        if 0 <= i < fs.len() - 1 && none_from(fs, i + 1, 3, 9) {
            lemma_none_shorter(fs, i + 1, 3, 9);
            assert(fs.drop_last()[i] == fs[i]);
        }
    }
}

/// A parameter takes its name from the fields under 1 and its datatype from
/// those under 2.
pub proof fn law_a_parameter_is_read_by_number(start: ParameterView, bytes: Seq<u8>, limit: nat)
    ensures
        ({
            let fs = fields::fields_in(MessageKind::Parameter, bytes);
            let p = parameter::parameter_from(start, bytes, limit);
            &&& p.name == last_text(fs, 1, start.name)
            &&& p.datatype == last_small(fs, 2, start.datatype)
        }),
{
    lemma_parameter_read(start, fields::fields_in(MessageKind::Parameter, bytes), limit);
}

proof fn lemma_parameter_read(start: ParameterView, fs: Seq<FieldView>, limit: nat)
    ensures
        ({
            let p = fields::folded(start, fs, parameter::parameter_step(limit));
            &&& p.name == last_text(fs, 1, start.name)
            &&& p.datatype == last_small(fs, 2, start.datatype)
        }),
    decreases fs.len(),
{
    if fs.len() > 0 {
        lemma_parameter_read(start, fs.drop_last(), limit);
    }
}

// ---------------------------------------------------------------------------
// Data sets
// ---------------------------------------------------------------------------

/// The cells that bodies spell.
pub open spec fn cells_read(bodies: Seq<Seq<u8>>, limit: nat) -> Seq<DataSetValueView> {
    bodies.map_values(|b: Seq<u8>| data_set::cell_from(data_set::no_cell(), b, limit))
}

/// The rows that bodies spell.
pub open spec fn rows_read(bodies: Seq<Seq<u8>>, limit: nat) -> Seq<RowView> {
    bodies.map_values(|b: Seq<u8>| data_set::row_from(data_set::no_row(), b, limit))
}

/// A row takes a cell from each field under 1, in order.
pub proof fn law_a_row_is_read_by_number(start: RowView, bytes: Seq<u8>, limit: nat)
    requires
        limit > 0,
    ensures
        data_set::row_from(start, bytes, limit).elements == start.elements + cells_read(
            bodies_under(fields::fields_in(MessageKind::Row, bytes), 1),
            (limit - 1) as nat,
        ),
{
    lemma_row_read(start, fields::fields_in(MessageKind::Row, bytes), limit);
}

proof fn lemma_row_read(start: RowView, fs: Seq<FieldView>, limit: nat)
    requires
        limit > 0,
    ensures
        fields::folded(start, fs, data_set::row_step(limit)).elements == start.elements
            + cells_read(bodies_under(fs, 1), (limit - 1) as nat),
    decreases fs.len(),
{
    if fs.len() > 0 {
        lemma_row_read(start, fs.drop_last(), limit);
    }
    assert(fields::folded(start, fs, data_set::row_step(limit)).elements =~= start.elements
        + cells_read(bodies_under(fs, 1), (limit - 1) as nat));
}

/// A data set takes the number of its columns from the fields under 1, a
/// column from each under 2, its types from those under 3, packed or not, and
/// a row from each under 4, all in order.
pub proof fn law_a_data_set_is_read_by_number(start: DataSetView, bytes: Seq<u8>, limit: nat)
    requires
        limit > 0,
    ensures
        ({
            let fs = fields::fields_in(MessageKind::DataSet, bytes);
            let d = data_set::data_set_from(start, bytes, limit);
            &&& d.num_of_columns == last_number(fs, 1, start.num_of_columns)
            &&& d.columns == start.columns + texts_under(fs, 2)
            &&& d.types == start.types + smalls_under(fs, 3)
            &&& d.rows == start.rows + rows_read(bodies_under(fs, 4), (limit - 1) as nat)
        }),
{
    lemma_data_set_read(start, fields::fields_in(MessageKind::DataSet, bytes), limit);
}

proof fn lemma_data_set_read(start: DataSetView, fs: Seq<FieldView>, limit: nat)
    requires
        limit > 0,
    ensures
        ({
            let d = fields::folded(start, fs, data_set::data_set_step(limit));
            &&& d.num_of_columns == last_number(fs, 1, start.num_of_columns)
            &&& d.columns == start.columns + texts_under(fs, 2)
            &&& d.types == start.types + smalls_under(fs, 3)
            &&& d.rows == start.rows + rows_read(bodies_under(fs, 4), (limit - 1) as nat)
        }),
    decreases fs.len(),
{
    if fs.len() > 0 {
        lemma_data_set_read(start, fs.drop_last(), limit);
        if let FieldValueView::Numbers(v) = fs.last().value {
            assert(data_set::low_halves(v) =~= Seq::new(
                v.len(),
                |i: int| (v[i] % 0x1_0000_0000) as u32,
            ));
        }
    }
    let d = fields::folded(start, fs, data_set::data_set_step(limit));
    assert(d.columns =~= start.columns + texts_under(fs, 2));
    assert(d.types =~= start.types + smalls_under(fs, 3));
    assert(d.rows =~= start.rows + rows_read(bodies_under(fs, 4), (limit - 1) as nat));
}

// ---------------------------------------------------------------------------
// Properties
// ---------------------------------------------------------------------------

/// The properties that bodies spell.
pub open spec fn properties_read(bodies: Seq<Seq<u8>>, limit: nat) -> Seq<PropertyValueView> {
    bodies.map_values(|b: Seq<u8>| property::property_from(property::no_property(), b, limit))
}

/// The property sets that bodies spell.
pub open spec fn sets_read(bodies: Seq<Seq<u8>>, limit: nat) -> Seq<PropertySetView> {
    bodies.map_values(|b: Seq<u8>| property::set_from(nested::no_property_set(), b, limit))
}

/// A property set takes a key from each field under 1 and a value from each
/// under 2, in order.
pub proof fn law_a_property_set_is_read_by_number(
    start: PropertySetView,
    bytes: Seq<u8>,
    limit: nat,
)
    requires
        limit > 0,
    ensures
        ({
            let fs = fields::fields_in(MessageKind::PropertySet, bytes);
            let s = property::set_from(start, bytes, limit);
            &&& s.keys == start.keys + texts_under(fs, 1)
            &&& s.values == start.values + properties_read(
                bodies_under(fs, 2),
                (limit - 1) as nat,
            )
        }),
{
    lemma_set_read(start, fields::fields_in(MessageKind::PropertySet, bytes), limit);
}

proof fn lemma_set_read(start: PropertySetView, fs: Seq<FieldView>, limit: nat)
    requires
        limit > 0,
    ensures
        ({
            let s = property::set_with_all(start, fs, limit);
            &&& s.keys == start.keys + texts_under(fs, 1)
            &&& s.values == start.values + properties_read(
                bodies_under(fs, 2),
                (limit - 1) as nat,
            )
        }),
    decreases fs.len(),
{
    if fs.len() > 0 {
        assert(property::set_with_all(start, fs, limit) == property::with_set(
            property::set_with_all(start, fs.drop_last(), limit),
            fs.last(),
            limit,
        ));
        lemma_set_read(start, fs.drop_last(), limit);
    }
    let s = property::set_with_all(start, fs, limit);
    assert(s.keys =~= start.keys + texts_under(fs, 1));
    assert(s.values =~= start.values + properties_read(bodies_under(fs, 2), (limit - 1) as nat));
}

/// A list of property sets takes a set from each field under 1, in order.
pub proof fn law_property_sets_are_read_by_number(
    start: PropertySetListView,
    bytes: Seq<u8>,
    limit: nat,
)
    requires
        limit > 0,
    ensures
        property::sets_from(start, bytes, limit).propertyset == start.propertyset + sets_read(
            bodies_under(fields::fields_in(MessageKind::PropertySetList, bytes), 1),
            (limit - 1) as nat,
        ),
{
    lemma_sets_read(start, fields::fields_in(MessageKind::PropertySetList, bytes), limit);
}

proof fn lemma_sets_read(start: PropertySetListView, fs: Seq<FieldView>, limit: nat)
    requires
        limit > 0,
    ensures
        property::sets_with_all(start, fs, limit).propertyset == start.propertyset + sets_read(
            bodies_under(fs, 1),
            (limit - 1) as nat,
        ),
    decreases fs.len(),
{
    if fs.len() > 0 {
        assert(property::sets_with_all(start, fs, limit) == property::with_sets(
            property::sets_with_all(start, fs.drop_last(), limit),
            fs.last(),
            limit,
        ));
        lemma_sets_read(start, fs.drop_last(), limit);
    }
    assert(property::sets_with_all(start, fs, limit).propertyset =~= start.propertyset
        + sets_read(bodies_under(fs, 1), (limit - 1) as nat));
}

/// The value of a property is that of its last field from 3 on, and the number
/// of that field says which kind it is: 3 and 4 a whole number, 5 and 6 a
/// floating-point number, 7 a flag, 8 a text, 9 a property set, 10 a list of
/// them, and 11 an extension. A set that comes twice goes on.
pub proof fn law_the_value_of_a_property_is_read_by_number(
    start: PropertyValueView,
    bytes: Seq<u8>,
    limit: nat,
    i: int,
)
    ensures
        ({
            let fs = fields::fields_in(MessageKind::PropertyValue, bytes);
            let p = property::property_from(start, bytes, limit);
            let before = property::property_with_all(start, fs.take(i), limit).value;
            &&& none_from(fs, 0, 3, 11) ==> p.value == start.value
            &&& 0 <= i < fs.len() && none_from(fs, i + 1, 3, 11) ==> match (
                fs[i].number,
                fs[i].value,
            ) {
                (3, FieldValueView::Number(v)) => p.value == Some(
                    PropertyInnerView::IntValue((v % 0x1_0000_0000) as u32),
                ),
                (4, FieldValueView::Number(v)) => p.value == Some(PropertyInnerView::LongValue(v)),
                (5, FieldValueView::Single(v)) => p.value == Some(PropertyInnerView::FloatValue(v)),
                (6, FieldValueView::Double(v)) => p.value == Some(
                    PropertyInnerView::DoubleValue(v),
                ),
                (7, FieldValueView::Number(v)) => p.value == Some(
                    PropertyInnerView::BooleanValue(v > 0),
                ),
                (8, FieldValueView::Text(v)) => p.value == Some(PropertyInnerView::StringValue(v)),
                (9, FieldValueView::Message(body)) => limit > 0 ==> p.value == Some(
                    PropertyInnerView::PropertysetValue(
                        property::set_from(
                            match before {
                                Some(PropertyInnerView::PropertysetValue(s)) => s,
                                _ => nested::no_property_set(),
                            },
                            body,
                            (limit - 1) as nat,
                        ),
                    ),
                ),
                (10, FieldValueView::Message(body)) => limit > 0 ==> p.value == Some(
                    PropertyInnerView::PropertysetsValue(
                        property::sets_from(
                            match before {
                                Some(PropertyInnerView::PropertysetsValue(l)) => l,
                                _ => nested::no_property_sets(),
                            },
                            body,
                            (limit - 1) as nat,
                        ),
                    ),
                ),
                (11, FieldValueView::Message(_)) => limit > 0 ==> p.value == Some(
                    PropertyInnerView::ExtensionValue,
                ),
                _ => true,
            }
        }),
{
    lemma_value_of_a_property(start, fields::fields_in(MessageKind::PropertyValue, bytes), limit, i);
}

proof fn lemma_value_of_a_property(start: PropertyValueView, fs: Seq<FieldView>, limit: nat, i: int)
    ensures
        ({
            let p = property::property_with_all(start, fs, limit);
            let before = property::property_with_all(start, fs.take(i), limit).value;
            &&& none_from(fs, 0, 3, 11) ==> p.value == start.value
            &&& 0 <= i < fs.len() && none_from(fs, i + 1, 3, 11) ==> match (
                fs[i].number,
                fs[i].value,
            ) {
                (3, FieldValueView::Number(v)) => p.value == Some(
                    PropertyInnerView::IntValue((v % 0x1_0000_0000) as u32),
                ),
                (4, FieldValueView::Number(v)) => p.value == Some(PropertyInnerView::LongValue(v)),
                (5, FieldValueView::Single(v)) => p.value == Some(PropertyInnerView::FloatValue(v)),
                (6, FieldValueView::Double(v)) => p.value == Some(
                    PropertyInnerView::DoubleValue(v),
                ),
                (7, FieldValueView::Number(v)) => p.value == Some(
                    PropertyInnerView::BooleanValue(v > 0),
                ),
                (8, FieldValueView::Text(v)) => p.value == Some(PropertyInnerView::StringValue(v)),
                (9, FieldValueView::Message(body)) => limit > 0 ==> p.value == Some(
                    PropertyInnerView::PropertysetValue(
                        property::set_from(
                            match before {
                                Some(PropertyInnerView::PropertysetValue(s)) => s,
                                _ => nested::no_property_set(),
                            },
                            body,
                            (limit - 1) as nat,
                        ),
                    ),
                ),
                (10, FieldValueView::Message(body)) => limit > 0 ==> p.value == Some(
                    PropertyInnerView::PropertysetsValue(
                        property::sets_from(
                            match before {
                                Some(PropertyInnerView::PropertysetsValue(l)) => l,
                                _ => nested::no_property_sets(),
                            },
                            body,
                            (limit - 1) as nat,
                        ),
                    ),
                ),
                (11, FieldValueView::Message(_)) => limit > 0 ==> p.value == Some(
                    PropertyInnerView::ExtensionValue,
                ),
                _ => true,
            }
        }),
    decreases fs.len(),
{
    if fs.len() > 0 {
        assert(property::property_with_all(start, fs, limit) == property::with_property(
            property::property_with_all(start, fs.drop_last(), limit),
            fs.last(),
            limit,
        ));
        lemma_value_of_a_property(start, fs.drop_last(), limit, i);
        if none_from(fs, 0, 3, 11) {
            lemma_none_shorter(fs, 0, 3, 11);
        }
        if 0 <= i < fs.len() - 1 {
            assert(fs.drop_last()[i] == fs[i]);
            assert(fs.drop_last().take(i) =~= fs.take(i));
            if none_from(fs, i + 1, 3, 11) {
                lemma_none_shorter(fs, i + 1, 3, 11);
            }
        } else if i == fs.len() - 1 {
            assert(fs.take(i) =~= fs.drop_last());
        }
    }
}

/// A property takes its datatype from the fields under 1, and whether it is
/// null from those under 2.
pub proof fn law_a_property_is_read_by_number(
    start: PropertyValueView,
    bytes: Seq<u8>,
    limit: nat,
)
    ensures
        ({
            let fs = fields::fields_in(MessageKind::PropertyValue, bytes);
            let p = property::property_from(start, bytes, limit);
            &&& p.datatype == last_small(fs, 1, start.datatype)
            &&& p.is_null == last_flag(fs, 2, start.is_null)
        }),
{
    lemma_property_read(start, fields::fields_in(MessageKind::PropertyValue, bytes), limit);
}

proof fn lemma_property_read(start: PropertyValueView, fs: Seq<FieldView>, limit: nat)
    ensures
        ({
            let p = property::property_with_all(start, fs, limit);
            &&& p.datatype == last_small(fs, 1, start.datatype)
            &&& p.is_null == last_flag(fs, 2, start.is_null)
        }),
    decreases fs.len(),
{
    if fs.len() > 0 {
        assert(property::property_with_all(start, fs, limit) == property::with_property(
            property::property_with_all(start, fs.drop_last(), limit),
            fs.last(),
            limit,
        ));
        lemma_property_read(start, fs.drop_last(), limit);
    }
}

// ---------------------------------------------------------------------------
// Metrics
// ---------------------------------------------------------------------------

/// Metadata, with the fields of each body taken up in turn.
pub open spec fn metadata_taken(held: Option<MetaDataView>, bodies: Seq<Seq<u8>>) -> Option<
    MetaDataView,
>
    decreases bodies.len(),
{
    if bodies.len() == 0 {
        held
    } else {
        Some(
            meta_data::meta_data_from(
                match metadata_taken(held, bodies.drop_last()) {
                    Some(m) => m,
                    None => nested::no_meta_data(),
                },
                bodies.last(),
            ),
        )
    }
}

/// Properties, with the fields of each body taken up in turn.
pub open spec fn properties_taken(
    held: Option<PropertySetView>,
    bodies: Seq<Seq<u8>>,
    limit: nat,
) -> Option<PropertySetView>
    decreases bodies.len(),
{
    if bodies.len() == 0 {
        held
    } else {
        Some(
            property::set_from(
                match properties_taken(held, bodies.drop_last(), limit) {
                    Some(s) => s,
                    None => nested::no_property_set(),
                },
                bodies.last(),
                limit,
            ),
        )
    }
}

/// A metric takes each field from its number, whatever else its bytes hold: 1
/// its name, 2 its alias, 3 its instant, 4 its datatype, 5 whether it is
/// historical, 6 whether it is transient, 7 whether it is null, 8 its
/// metadata, and 9 its properties.
pub proof fn law_a_metric_is_read_by_number(start: MetricView, bytes: Seq<u8>, limit: nat)
    ensures
        ({
            let fs = fields::fields_in(MessageKind::Metric, bytes);
            let m = metrics::metric_from(start, bytes, limit);
            &&& m.name == last_text(fs, 1, start.name)
            &&& m.alias == last_number(fs, 2, start.alias)
            &&& m.timestamp == last_number(fs, 3, start.timestamp)
            &&& m.datatype == last_small(fs, 4, start.datatype)
            &&& m.is_historical == last_flag(fs, 5, start.is_historical)
            &&& m.is_transient == last_flag(fs, 6, start.is_transient)
            &&& m.is_null == last_flag(fs, 7, start.is_null)
            &&& limit > 0 ==> m.metadata == metadata_taken(start.metadata, bodies_under(fs, 8))
            &&& limit > 0 ==> m.properties == properties_taken(
                start.properties,
                bodies_under(fs, 9),
                (limit - 1) as nat,
            )
        }),
{
    let fs = fields::fields_in(MessageKind::Metric, bytes);
    lemma_metric_read(start, fs, limit);
    lemma_metric_nested_read(start, fs, limit);
}

proof fn lemma_metric_read(start: MetricView, fs: Seq<FieldView>, limit: nat)
    ensures
        ({
            let m = metrics::metric_with_all(start, fs, limit);
            &&& m.name == last_text(fs, 1, start.name)
            &&& m.alias == last_number(fs, 2, start.alias)
            &&& m.timestamp == last_number(fs, 3, start.timestamp)
            &&& m.datatype == last_small(fs, 4, start.datatype)
            &&& m.is_historical == last_flag(fs, 5, start.is_historical)
            &&& m.is_transient == last_flag(fs, 6, start.is_transient)
            &&& m.is_null == last_flag(fs, 7, start.is_null)
        }),
    decreases fs.len(),
{
    if fs.len() > 0 {
        assert(metrics::metric_with_all(start, fs, limit) == metrics::with_metric(
            metrics::metric_with_all(start, fs.drop_last(), limit),
            fs.last(),
            limit,
        ));
        lemma_metric_read(start, fs.drop_last(), limit);
    }
}

proof fn lemma_metric_nested_read(start: MetricView, fs: Seq<FieldView>, limit: nat)
    ensures
        ({
            let m = metrics::metric_with_all(start, fs, limit);
            &&& limit > 0 ==> m.metadata == metadata_taken(start.metadata, bodies_under(fs, 8))
            &&& limit > 0 ==> m.properties == properties_taken(
                start.properties,
                bodies_under(fs, 9),
                (limit - 1) as nat,
            )
        }),
    decreases fs.len(),
{
    if fs.len() > 0 {
        assert(metrics::metric_with_all(start, fs, limit) == metrics::with_metric(
            metrics::metric_with_all(start, fs.drop_last(), limit),
            fs.last(),
            limit,
        ));
        lemma_metric_nested_read(start, fs.drop_last(), limit);
        if let FieldValueView::Message(body) = fs.last().value {
            let meta = bodies_under(fs.drop_last(), 8);
            let props = bodies_under(fs.drop_last(), 9);
            assert(meta.push(body).drop_last() =~= meta);
            assert(props.push(body).drop_last() =~= props);
        }
    }
}

/// The value of a metric is that of its last field from 10 on, and the number
/// of that field says which kind it is: 10 and 11 a whole number, 12 and 13 a
/// floating-point number, 14 a flag, 15 a text, 16 bytes, 17 a data set, 18 a
/// template, and 19 an extension. A data set or a template that comes twice
/// goes on.
pub proof fn law_the_value_of_a_metric_is_read_by_number(
    start: MetricView,
    bytes: Seq<u8>,
    limit: nat,
    i: int,
)
    ensures
        ({
            let fs = fields::fields_in(MessageKind::Metric, bytes);
            let m = metrics::metric_from(start, bytes, limit);
            let before = metrics::metric_with_all(start, fs.take(i), limit).value;
            &&& none_from(fs, 0, 10, 19) ==> m.value == start.value
            &&& 0 <= i < fs.len() && none_from(fs, i + 1, 10, 19) ==> match (
                fs[i].number,
                fs[i].value,
            ) {
                (10, FieldValueView::Number(v)) => m.value == Some(
                    ValueView::IntValue((v % 0x1_0000_0000) as u32),
                ),
                (11, FieldValueView::Number(v)) => m.value == Some(ValueView::LongValue(v)),
                (12, FieldValueView::Single(v)) => m.value == Some(ValueView::FloatValue(v)),
                (13, FieldValueView::Double(v)) => m.value == Some(ValueView::DoubleValue(v)),
                (14, FieldValueView::Number(v)) => m.value == Some(
                    ValueView::BooleanValue(v > 0),
                ),
                (15, FieldValueView::Text(v)) => m.value == Some(ValueView::StringValue(v)),
                (16, FieldValueView::Bytes(v)) => m.value == Some(ValueView::BytesValue(v)),
                (17, FieldValueView::Message(body)) => limit > 0 ==> m.value == Some(
                    ValueView::DatasetValue(
                        data_set::data_set_from(
                            match before {
                                Some(ValueView::DatasetValue(d)) => d,
                                _ => nested::no_data_set(),
                            },
                            body,
                            (limit - 1) as nat,
                        ),
                    ),
                ),
                (18, FieldValueView::Message(body)) => limit > 0 ==> m.value == Some(
                    ValueView::TemplateValue(
                        metrics::template_from(
                            match before {
                                Some(ValueView::TemplateValue(t)) => t,
                                _ => nested::no_template(),
                            },
                            body,
                            (limit - 1) as nat,
                        ),
                    ),
                ),
                (19, FieldValueView::Message(_)) => limit > 0 ==> m.value == Some(
                    ValueView::ExtensionValue,
                ),
                _ => true,
            }
        }),
{
    lemma_value_of_a_metric(start, fields::fields_in(MessageKind::Metric, bytes), limit, i);
}

proof fn lemma_value_of_a_metric(start: MetricView, fs: Seq<FieldView>, limit: nat, i: int)
    ensures
        ({
            let m = metrics::metric_with_all(start, fs, limit);
            let before = metrics::metric_with_all(start, fs.take(i), limit).value;
            &&& none_from(fs, 0, 10, 19) ==> m.value == start.value
            &&& 0 <= i < fs.len() && none_from(fs, i + 1, 10, 19) ==> match (
                fs[i].number,
                fs[i].value,
            ) {
                (10, FieldValueView::Number(v)) => m.value == Some(
                    ValueView::IntValue((v % 0x1_0000_0000) as u32),
                ),
                (11, FieldValueView::Number(v)) => m.value == Some(ValueView::LongValue(v)),
                (12, FieldValueView::Single(v)) => m.value == Some(ValueView::FloatValue(v)),
                (13, FieldValueView::Double(v)) => m.value == Some(ValueView::DoubleValue(v)),
                (14, FieldValueView::Number(v)) => m.value == Some(
                    ValueView::BooleanValue(v > 0),
                ),
                (15, FieldValueView::Text(v)) => m.value == Some(ValueView::StringValue(v)),
                (16, FieldValueView::Bytes(v)) => m.value == Some(ValueView::BytesValue(v)),
                (17, FieldValueView::Message(body)) => limit > 0 ==> m.value == Some(
                    ValueView::DatasetValue(
                        data_set::data_set_from(
                            match before {
                                Some(ValueView::DatasetValue(d)) => d,
                                _ => nested::no_data_set(),
                            },
                            body,
                            (limit - 1) as nat,
                        ),
                    ),
                ),
                (18, FieldValueView::Message(body)) => limit > 0 ==> m.value == Some(
                    ValueView::TemplateValue(
                        metrics::template_from(
                            match before {
                                Some(ValueView::TemplateValue(t)) => t,
                                _ => nested::no_template(),
                            },
                            body,
                            (limit - 1) as nat,
                        ),
                    ),
                ),
                (19, FieldValueView::Message(_)) => limit > 0 ==> m.value == Some(
                    ValueView::ExtensionValue,
                ),
                _ => true,
            }
        }),
    decreases fs.len(),
{
    if fs.len() > 0 {
        assert(metrics::metric_with_all(start, fs, limit) == metrics::with_metric(
            metrics::metric_with_all(start, fs.drop_last(), limit),
            fs.last(),
            limit,
        ));
        lemma_value_of_a_metric(start, fs.drop_last(), limit, i);
        if none_from(fs, 0, 10, 19) {
            lemma_none_shorter(fs, 0, 10, 19);
        }
        if 0 <= i < fs.len() - 1 {
            assert(fs.drop_last()[i] == fs[i]);
            assert(fs.drop_last().take(i) =~= fs.take(i));
            if none_from(fs, i + 1, 10, 19) {
                lemma_none_shorter(fs, i + 1, 10, 19);
            }
        } else if i == fs.len() - 1 {
            assert(fs.take(i) =~= fs.drop_last());
        }
    }
}

/// The metrics that bodies spell.
pub open spec fn metrics_read(bodies: Seq<Seq<u8>>, limit: nat) -> Seq<MetricView> {
    bodies.map_values(|b: Seq<u8>| metrics::metric_from(payload::no_metric(), b, limit))
}

/// The parameters that bodies spell.
pub open spec fn parameters_read(bodies: Seq<Seq<u8>>, limit: nat) -> Seq<ParameterView> {
    bodies.map_values(
        |b: Seq<u8>| parameter::parameter_from(parameter::no_parameter(), b, limit),
    )
}

/// A template takes its version from the fields under 1, a metric from each
/// under 2 and a parameter from each under 3, in order, the template it refers
/// to from those under 4, and whether it is a definition from those under 5.
pub proof fn law_a_template_is_read_by_number(start: TemplateView, bytes: Seq<u8>, limit: nat)
    requires
        limit > 0,
    ensures
        ({
            let fs = fields::fields_in(MessageKind::Template, bytes);
            let t = metrics::template_from(start, bytes, limit);
            &&& t.version == last_text(fs, 1, start.version)
            &&& t.metrics == start.metrics + metrics_read(bodies_under(fs, 2), (limit - 1) as nat)
            &&& t.parameters == start.parameters + parameters_read(
                bodies_under(fs, 3),
                (limit - 1) as nat,
            )
            &&& t.template_ref == last_text(fs, 4, start.template_ref)
            &&& t.is_definition == last_flag(fs, 5, start.is_definition)
        }),
{
    lemma_template_read(start, fields::fields_in(MessageKind::Template, bytes), limit);
}

proof fn lemma_template_read(start: TemplateView, fs: Seq<FieldView>, limit: nat)
    requires
        limit > 0,
    ensures
        ({
            let t = metrics::template_with_all(start, fs, limit);
            &&& t.version == last_text(fs, 1, start.version)
            &&& t.metrics == start.metrics + metrics_read(bodies_under(fs, 2), (limit - 1) as nat)
            &&& t.parameters == start.parameters + parameters_read(
                bodies_under(fs, 3),
                (limit - 1) as nat,
            )
            &&& t.template_ref == last_text(fs, 4, start.template_ref)
            &&& t.is_definition == last_flag(fs, 5, start.is_definition)
        }),
    decreases fs.len(),
{
    if fs.len() > 0 {
        assert(metrics::template_with_all(start, fs, limit) == metrics::with_template(
            metrics::template_with_all(start, fs.drop_last(), limit),
            fs.last(),
            limit,
        ));
        lemma_template_read(start, fs.drop_last(), limit);
    }
    let t = metrics::template_with_all(start, fs, limit);
    assert(t.metrics =~= start.metrics + metrics_read(bodies_under(fs, 2), (limit - 1) as nat));
    assert(t.parameters =~= start.parameters + parameters_read(
        bodies_under(fs, 3),
        (limit - 1) as nat,
    ));
}

// ---------------------------------------------------------------------------
// Payloads
// ---------------------------------------------------------------------------

/// A payload takes its instant from the fields under 1, a metric from each
/// under 2, in order, its `seq` from those under 3, its identifier from those
/// under 4, and its body from those under 5.
pub proof fn law_a_payload_is_read_by_number(bytes: Seq<u8>, p: PayloadView)
    requires
        codec::decoded(bytes) == Some(p),
    ensures
        ({
            let fs = fields::fields_in(MessageKind::Payload, bytes);
            &&& p.timestamp == last_number(fs, 1, None)
            &&& p.metrics == metrics_read(bodies_under(fs, 2), 99)
            &&& p.seq == last_number(fs, 3, None)
            &&& p.uuid == last_text(fs, 4, None)
            &&& p.body == last_bytes(fs, 5, None)
        }),
{
    lemma_payload_read(fields::fields_in(MessageKind::Payload, bytes), 100);
}

proof fn lemma_payload_read(fs: Seq<FieldView>, limit: nat)
    requires
        limit > 0,
    ensures
        ({
            let p = fields::folded(payload::no_payload(), fs, codec::payload_step(limit));
            &&& p.timestamp == last_number(fs, 1, None)
            &&& p.metrics == metrics_read(bodies_under(fs, 2), (limit - 1) as nat)
            &&& p.seq == last_number(fs, 3, None)
            &&& p.uuid == last_text(fs, 4, None)
            &&& p.body == last_bytes(fs, 5, None)
        }),
    decreases fs.len(),
{
    if fs.len() > 0 {
        lemma_payload_read(fs.drop_last(), limit);
    }
    let p = fields::folded(payload::no_payload(), fs, codec::payload_step(limit));
    assert(p.metrics =~= metrics_read(bodies_under(fs, 2), (limit - 1) as nat));
}

// ---------------------------------------------------------------------------
// Which bytes are read
// ---------------------------------------------------------------------------

/// Bytes read as a message exactly when the schema accepts them, a hundred
/// levels deep at most, and then as what their fields make of a message that
/// holds nothing. Bytes that are no payload are told why, and where.
pub proof fn law_accepted_bytes_are_read(bytes: Seq<u8>)
    ensures
        codec::decoded(bytes) == if schema::accepts(MessageKind::Payload, bytes, 100) {
            Some(codec::payload_from(payload::no_payload(), bytes, 100))
        } else {
            None
        },
        metrics::metric_read(bytes) == if schema::accepts(MessageKind::Metric, bytes, 100) {
            Some(metrics::metric_from(payload::no_metric(), bytes, 100))
        } else {
            None
        },
        metrics::template_read(bytes) == if schema::accepts(MessageKind::Template, bytes, 100) {
            Some(metrics::template_from(nested::no_template(), bytes, 100))
        } else {
            None
        },
        parameter::parameter_read(bytes) == if schema::accepts(MessageKind::Parameter, bytes, 100) {
            Some(parameter::parameter_from(parameter::no_parameter(), bytes, 100))
        } else {
            None
        },
        property::property_read(bytes) == if schema::accepts(MessageKind::PropertyValue, bytes, 100) {
            Some(property::property_from(property::no_property(), bytes, 100))
        } else {
            None
        },
        property::set_read(bytes) == if schema::accepts(MessageKind::PropertySet, bytes, 100) {
            Some(property::set_from(nested::no_property_set(), bytes, 100))
        } else {
            None
        },
        property::sets_read(bytes) == if schema::accepts(MessageKind::PropertySetList, bytes, 100) {
            Some(property::sets_from(nested::no_property_sets(), bytes, 100))
        } else {
            None
        },
        data_set::cell_read(bytes) == if schema::accepts(MessageKind::DataSetValue, bytes, 100) {
            Some(data_set::cell_from(data_set::no_cell(), bytes, 100))
        } else {
            None
        },
        data_set::row_read(bytes) == if schema::accepts(MessageKind::Row, bytes, 100) {
            Some(data_set::row_from(data_set::no_row(), bytes, 100))
        } else {
            None
        },
        data_set::data_set_read(bytes) == if schema::accepts(MessageKind::DataSet, bytes, 100) {
            Some(data_set::data_set_from(nested::no_data_set(), bytes, 100))
        } else {
            None
        },
        meta_data::meta_data_read(bytes) == if schema::accepts(MessageKind::MetaData, bytes, 100) {
            Some(meta_data::meta_data_from(nested::no_meta_data(), bytes))
        } else {
            None
        },
        codec::fault(bytes) == schema::fault_in(MessageKind::Payload, bytes, 100),
        property::no_property().datatype is None,
        property::no_property().is_null is None,
        property::no_property().value is None,
        parameter::no_parameter().name is None,
        parameter::no_parameter().datatype is None,
        parameter::no_parameter().value is None,
        data_set::no_cell().value is None,
        data_set::no_row().elements.len() == 0,
{
}

} // verus!
