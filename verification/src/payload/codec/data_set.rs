//! The bytes of a data set, its rows and its cells, and of the values that
//! cells and parameters share.

use crate::payload::codec::{low_half, low_half_of};
use crate::payload::fields::{self, FieldValue, FieldValueView, FieldView};
use crate::payload::metric::{Double, Single};
use crate::payload::nested::{
    self, DataSet, DataSetValue, DataSetValueView, DataSetView, NestedValue, NestedValueView, Row,
    RowView,
};
use crate::payload;
use crate::schema::{self, MessageKind};
use crate::wire;
use vstd::prelude::*;

verus! {

// ---------------------------------------------------------------------------
// Values
// ---------------------------------------------------------------------------

/// A value, with one more field taken up. Its fields are numbered from
/// `first` on.
pub open spec fn with_nested(
    held: Option<NestedValueView>,
    first: u32,
    f: FieldView,
    limit: nat,
) -> Option<NestedValueView> {
    match f.value {
        FieldValueView::Number(v) => if f.number == first {
            Some(NestedValueView::IntValue(low_half(v)))
        } else if f.number == first + 1 {
            Some(NestedValueView::LongValue(v))
        } else if f.number == first + 4 {
            Some(NestedValueView::BooleanValue(v != 0))
        } else {
            held
        },
        FieldValueView::Single(v) => if f.number == first + 2 {
            Some(NestedValueView::FloatValue(v))
        } else {
            held
        },
        FieldValueView::Double(v) => if f.number == first + 3 {
            Some(NestedValueView::DoubleValue(v))
        } else {
            held
        },
        FieldValueView::Text(v) => if f.number == first + 5 {
            Some(NestedValueView::StringValue(v))
        } else {
            held
        },
        FieldValueView::Message(_) => if f.number == first + 6 && limit > 0 {
            Some(NestedValueView::ExtensionValue)
        } else {
            held
        },
        _ => held,
    }
}

/// The field of a value, if there is one.
pub open spec fn nested_fields(first: u32, held: Option<NestedValueView>) -> Seq<FieldView> {
    match held {
        Some(NestedValueView::IntValue(v)) => fields::number_in(first, Some(v as u64)),
        Some(NestedValueView::LongValue(v)) => fields::number_in((first + 1) as u32, Some(v)),
        Some(NestedValueView::FloatValue(v)) => seq![
            FieldView { number: (first + 2) as u32, value: FieldValueView::Single(v) },
        ],
        Some(NestedValueView::DoubleValue(v)) => seq![
            FieldView { number: (first + 3) as u32, value: FieldValueView::Double(v) },
        ],
        Some(NestedValueView::BooleanValue(v)) => fields::number_in(
            (first + 4) as u32,
            Some(fields::flag_number(v)),
        ),
        Some(NestedValueView::StringValue(v)) => fields::text_in((first + 5) as u32, Some(v)),
        Some(NestedValueView::ExtensionValue) => fields::message_in(
            (first + 6) as u32,
            Some(Seq::empty()),
        ),
        None => Seq::empty(),
    }
}

/// Whether a value nests no deeper than `limit` levels.
pub open spec fn nested_fits(held: Option<NestedValueView>, limit: nat) -> bool {
    held == Some(NestedValueView::ExtensionValue) ==> limit > 0
}

/// Take up one field of a value.
pub(crate) fn merge_nested(
    held: Option<NestedValue>,
    first: u32,
    number: u32,
    value: &FieldValue,
    limit: u32,
) -> (merged: Option<NestedValue>)
    requires
        first <= 3,
    ensures
        payload::view_of(merged) == with_nested(
            payload::view_of(held),
            first,
            FieldView { number, value: value@ },
            limit as nat,
        ),
{
    match value {
        FieldValue::Number(v) => if number == first {
            Some(NestedValue::IntValue(low_half_of(*v)))
        } else if number == first + 1 {
            Some(NestedValue::LongValue(*v))
        } else if number == first + 4 {
            Some(NestedValue::BooleanValue(*v != 0))
        } else {
            held
        },
        FieldValue::Single(v) => if number == first + 2 {
            Some(NestedValue::FloatValue(Single(*v)))
        } else {
            held
        },
        FieldValue::Double(v) => if number == first + 3 {
            Some(NestedValue::DoubleValue(Double(*v)))
        } else {
            held
        },
        FieldValue::Text(v) => if number == first + 5 {
            Some(NestedValue::StringValue(v.clone()))
        } else {
            held
        },
        FieldValue::Message(_) => if number == first + 6 && limit > 0 {
            Some(NestedValue::ExtensionValue)
        } else {
            held
        },
        _ => held,
    }
}

/// Write a value, if there is one.
pub(crate) fn write_nested(first: u32, held: &Option<NestedValue>, writer: &mut fields::Writer)
    requires
        1 <= first <= 3,
        old(writer).is_exact(),
    ensures
        final(writer).is_exact(),
        final(writer).written() == old(writer).written() + nested_fields(
            first,
            payload::view_of(*held),
        ),
{
    match held {
        Some(NestedValue::IntValue(v)) => writer.number(first, Some(*v as u64)),
        Some(NestedValue::LongValue(v)) => writer.number(first + 1, Some(*v)),
        Some(NestedValue::FloatValue(v)) => writer.single(first + 2, v.0),
        Some(NestedValue::DoubleValue(v)) => writer.double(first + 3, v.0),
        Some(NestedValue::BooleanValue(v)) => writer.flag(first + 4, Some(*v)),
        Some(NestedValue::StringValue(v)) => writer.text(first + 5, v),
        Some(NestedValue::ExtensionValue) => {
            let body: Vec<u8> = Vec::new();
            assert(body@ =~= Seq::empty());
            writer.message(first + 6, &body)
        },
        None => {
            assert(writer.written() + Seq::empty() =~= writer.written());
        },
    }
}

// ---------------------------------------------------------------------------
// Cells
// ---------------------------------------------------------------------------

/// A cell that holds nothing.
pub open spec fn no_cell() -> DataSetValueView {
    DataSetValueView { value: None }
}

/// A cell, with one more field taken up.
pub open spec fn with_cell(c: DataSetValueView, f: FieldView, limit: nat) -> DataSetValueView {
    DataSetValueView { value: with_nested(c.value, 1, f, limit) }
}

/// Takes up one field of a cell.
pub open spec fn cell_step(limit: nat) -> spec_fn(
    DataSetValueView,
    FieldView,
) -> DataSetValueView {
    |c: DataSetValueView, f: FieldView| with_cell(c, f, limit)
}

/// A cell, with the fields of `bytes` taken up.
pub open spec fn cell_from(c: DataSetValueView, bytes: Seq<u8>, limit: nat) -> DataSetValueView {
    fields::folded(c, fields::fields_in(MessageKind::DataSetValue, bytes), cell_step(limit))
}

/// The bytes of a cell.
pub open spec fn cell_bytes(c: DataSetValueView) -> Seq<u8> {
    fields::fields_bytes(nested_fields(1, c.value))
}

/// The bytes of each cell.
pub open spec fn cell_bodies(cells: Seq<DataSetValueView>) -> Seq<Seq<u8>> {
    cells.map_values(|c: DataSetValueView| cell_bytes(c))
}

/// Whether a cell nests no deeper than `limit` levels.
pub open spec fn cell_fits(c: DataSetValueView, limit: nat) -> bool {
    nested_fits(c.value, limit)
}

/// The cell that bytes spell, if the schema accepts them.
pub open spec fn cell_read(bytes: Seq<u8>) -> Option<DataSetValueView> {
    if schema::accepts(MessageKind::DataSetValue, bytes, wire::RECURSION_LIMIT as nat) {
        Some(cell_from(no_cell(), bytes, wire::RECURSION_LIMIT as nat))
    } else {
        None
    }
}

/// Take up the fields of `bytes`.
pub(crate) fn merge_cell(held: DataSetValue, bytes: &[u8], limit: u32) -> (c: DataSetValue)
    ensures
        c@ == cell_from(held@, bytes@, limit as nat),
{
    let read = fields::read_fields(MessageKind::DataSetValue, bytes);
    let ghost fs = fields::field_views(read@);
    let ghost start = held@;
    let mut value = held.value;
    let mut i: usize = 0;
    while i < read.len()
        invariant
            i <= read.len(),
            fs == fields::field_views(read@),
            (DataSetValueView { value: payload::view_of(value) }) == fields::folded(
                start,
                fs.take(i as int),
                cell_step(limit as nat),
            ),
        decreases read.len() - i,
    {
        value = merge_nested(value, 1, read[i].number, &read[i].value, limit);
        proof {
            fields::lemma_folded_next(start, fs, i as int, cell_step(limit as nat));
        }
        i += 1;
    }
    assert(fs.take(i as int) =~= fs);
    DataSetValue { value }
}

impl Default for DataSetValue {
    fn default() -> (c: Self)
        ensures
            c@ == no_cell(),
    {
        DataSetValue { value: None }
    }
}

/// Write a cell.
pub(crate) fn encode_cell(c: &DataSetValue) -> (bytes: Vec<u8>)
    ensures
        bytes@ == cell_bytes(c@),
{
    let mut writer = fields::Writer::start();
    write_nested(1, &c.value, &mut writer);
    assert(writer.written() =~= nested_fields(1, c@.value));
    writer.finish()
}

impl DataSetValue {
    /// Read a cell from its bytes.
    ///
    /// # Errors
    ///
    /// Fails when the schema does not accept the bytes.
    pub fn decode(bytes: &[u8]) -> (read: Result<Self, prost::DecodeError>)
        ensures
            match read {
                Ok(read) => cell_read(bytes@) == Some(read@),
                Err(error) => {
                    &&& cell_read(bytes@) is None
                    &&& wire::error_fault(error) == schema::fault_in(
                        MessageKind::DataSetValue,
                        bytes@,
                        wire::RECURSION_LIMIT as nat,
                    )
                },
            },
    {
        match schema::check_message(MessageKind::DataSetValue, bytes, wire::RECURSION_LIMIT) {
            Ok(()) => Ok(merge_cell(DataSetValue::default(), bytes, wire::RECURSION_LIMIT)),
            Err(error) => Err(error),
        }
    }

    /// Write a cell.
    pub fn encode_to_vec(&self) -> (bytes: Vec<u8>)
        ensures
            bytes@ == cell_bytes(self@),
    {
        encode_cell(self)
    }
}

/// A cell reads back as itself at any level it fits, from bytes that hold its
/// fields and nothing else.
pub proof fn lemma_cell(c: DataSetValueView, limit: nat)
    requires
        cell_fits(c, limit),
        cell_bytes(c).len() <= u64::MAX,
    ensures
        cell_from(no_cell(), cell_bytes(c), limit) == c,
        fields::passes(MessageKind::DataSetValue, cell_bytes(c), limit),
        fields::holds_fields_only(MessageKind::DataSetValue, cell_bytes(c), limit),
        schema::accepts(MessageKind::DataSetValue, cell_bytes(c), limit),
{
    reveal(schema::field_type);
    if limit > 0 {
        fields::lemma_empty_message(MessageKind::Extension, (limit - 1) as nat);
    }
    let list = nested_fields(1, c.value);
    fields::lemma_part_behind(
        MessageKind::DataSetValue,
        limit,
        no_cell(),
        Seq::empty(),
        list,
        cell_step(limit),
        no_cell(),
        c,
    );
    assert(Seq::empty() + list =~= list);
    fields::lemma_sound_message(MessageKind::DataSetValue, list, limit);
}

/// Reading a cell gives back what was written, and what is written holds its
/// fields and nothing else.
pub proof fn law_a_cell_reads_back(c: DataSetValueView)
    requires
        cell_fits(c, wire::RECURSION_LIMIT as nat),
        cell_bytes(c).len() <= u64::MAX,
    ensures
        cell_read(cell_bytes(c)) == Some(c),
        fields::holds_fields_only(
            MessageKind::DataSetValue,
            cell_bytes(c),
            wire::RECURSION_LIMIT as nat,
        ),
{
    lemma_cell(c, wire::RECURSION_LIMIT as nat);
}

// ---------------------------------------------------------------------------
// Rows
// ---------------------------------------------------------------------------

/// A row of no cells.
pub open spec fn no_row() -> RowView {
    RowView { elements: Seq::empty() }
}

/// A row, with one more field taken up.
pub open spec fn with_row(r: RowView, f: FieldView, limit: nat) -> RowView {
    match (f.number, f.value) {
        (1, FieldValueView::Message(body)) => if limit > 0 {
            RowView { elements: r.elements.push(cell_from(no_cell(), body, (limit - 1) as nat)) }
        } else {
            r
        },
        _ => r,
    }
}

/// Takes up one field of a row.
pub open spec fn row_step(limit: nat) -> spec_fn(RowView, FieldView) -> RowView {
    |r: RowView, f: FieldView| with_row(r, f, limit)
}

/// A row, with the fields of `bytes` taken up.
pub open spec fn row_from(r: RowView, bytes: Seq<u8>, limit: nat) -> RowView {
    fields::folded(r, fields::fields_in(MessageKind::Row, bytes), row_step(limit))
}

/// The fields of a row.
pub open spec fn row_fields(r: RowView) -> Seq<FieldView> {
    fields::messages_in(1, cell_bodies(r.elements))
}

/// The bytes of a row.
pub open spec fn row_bytes(r: RowView) -> Seq<u8> {
    fields::fields_bytes(row_fields(r))
}

/// The bytes of each row.
pub open spec fn row_bodies(rows: Seq<RowView>) -> Seq<Seq<u8>> {
    rows.map_values(|r: RowView| row_bytes(r))
}

/// Whether a row nests no deeper than `limit` levels.
pub open spec fn row_fits(r: RowView, limit: nat) -> bool {
    &&& r.elements.len() > 0 ==> limit > 0
    &&& forall|i: int|
        0 <= i < r.elements.len() ==> cell_fits(#[trigger] r.elements[i], (limit - 1) as nat)
}

/// The row that bytes spell, if the schema accepts them.
pub open spec fn row_read(bytes: Seq<u8>) -> Option<RowView> {
    if schema::accepts(MessageKind::Row, bytes, wire::RECURSION_LIMIT as nat) {
        Some(row_from(no_row(), bytes, wire::RECURSION_LIMIT as nat))
    } else {
        None
    }
}

/// Take up the fields of `bytes`.
pub(crate) fn merge_row(held: Row, bytes: &[u8], limit: u32) -> (r: Row)
    ensures
        r@ == row_from(held@, bytes@, limit as nat),
{
    let read = fields::read_fields(MessageKind::Row, bytes);
    let ghost fs = fields::field_views(read@);
    let ghost start = held@;
    let mut r = held;
    let mut i: usize = 0;
    while i < read.len()
        invariant
            i <= read.len(),
            fs == fields::field_views(read@),
            r@ == fields::folded(start, fs.take(i as int), row_step(limit as nat)),
        decreases read.len() - i,
    {
        let ghost before = r@;
        match (read[i].number, &read[i].value) {
            (1, FieldValue::Message(body)) => if limit > 0 {
                let ghost cells = r.elements@;
                r.elements.push(merge_cell(DataSetValue::default(), body.as_slice(), limit - 1));
                assert(nested::views(r.elements@) =~= nested::views(cells).push(
                    r.elements@.last()@,
                ));
            },
            _ => {},
        }
        assert(r@ == with_row(before, fs[i as int], limit as nat));
        proof {
            fields::lemma_folded_next(start, fs, i as int, row_step(limit as nat));
        }
        i += 1;
    }
    assert(fs.take(i as int) =~= fs);
    r
}

/// Write a list, one item to a field.
pub(crate) fn write_cells(number: u32, items: &Vec<DataSetValue>, writer: &mut fields::Writer)
    requires
        1 <= number < 0x2000_0000,
        old(writer).is_exact(),
    ensures
        final(writer).is_exact(),
        final(writer).written() == old(writer).written() + fields::messages_in(
            number,
            cell_bodies(nested::views(items@)),
        ),
{
    let ghost all = fields::messages_in(number, cell_bodies(nested::views(items@)));
    let ghost before = writer.written();
    let mut i: usize = 0;
    assert(writer.written() =~= before + all.take(0));
    while i < items.len()
        invariant
            1 <= number < 0x2000_0000,
            i <= items.len(),
            all == fields::messages_in(number, cell_bodies(nested::views(items@))),
            writer.is_exact(),
            writer.written() == before + all.take(i as int),
        decreases items.len() - i,
    {
        let body = encode_cell(&items[i]);
        writer.message(number, &body);
        assert(writer.written() =~= before + all.take(i + 1));
        i += 1;
    }
    assert(all.take(i as int) =~= all);
}

/// Write a row.
pub(crate) fn encode_row(r: &Row) -> (bytes: Vec<u8>)
    ensures
        bytes@ == row_bytes(r@),
{
    let mut writer = fields::Writer::start();
    write_cells(1, &r.elements, &mut writer);
    assert(writer.written() =~= row_fields(r@));
    writer.finish()
}

impl Default for Row {
    fn default() -> (r: Self)
        ensures
            r@ == no_row(),
    {
        let r = Row { elements: Vec::new() };
        assert(r@.elements =~= no_row().elements);
        r
    }
}

impl Row {
    /// Read a row from its bytes.
    ///
    /// # Errors
    ///
    /// Fails when the schema does not accept the bytes.
    pub fn decode(bytes: &[u8]) -> (read: Result<Self, prost::DecodeError>)
        ensures
            match read {
                Ok(read) => row_read(bytes@) == Some(read@),
                Err(error) => {
                    &&& row_read(bytes@) is None
                    &&& wire::error_fault(error) == schema::fault_in(
                        MessageKind::Row,
                        bytes@,
                        wire::RECURSION_LIMIT as nat,
                    )
                },
            },
    {
        match schema::check_message(MessageKind::Row, bytes, wire::RECURSION_LIMIT) {
            Ok(()) => Ok(merge_row(Row::default(), bytes, wire::RECURSION_LIMIT)),
            Err(error) => Err(error),
        }
    }

    /// Write a row.
    pub fn encode_to_vec(&self) -> (bytes: Vec<u8>)
        ensures
            bytes@ == row_bytes(self@),
    {
        encode_row(self)
    }
}

/// A row reads back as itself at any level it fits, from bytes that hold its
/// fields and nothing else.
pub proof fn lemma_row(r: RowView, limit: nat)
    requires
        row_fits(r, limit),
        row_bytes(r).len() <= u64::MAX,
    ensures
        row_from(no_row(), row_bytes(r), limit) == r,
        fields::passes(MessageKind::Row, row_bytes(r), limit),
        fields::holds_fields_only(MessageKind::Row, row_bytes(r), limit),
        schema::accepts(MessageKind::Row, row_bytes(r), limit),
{
    reveal(schema::field_type);
    let list = row_fields(r);
    let step = row_step(limit);
    let holding = |cells: Seq<DataSetValueView>| RowView { elements: cells };
    assert forall|i: int| 0 <= i < list.len() implies fields::is_sound(
        MessageKind::Row,
        #[trigger] list[i],
        limit,
    ) && step(holding(r.elements.take(i)), list[i]) == holding(r.elements.take(i + 1)) by {
        let cell = r.elements[i];
        fields::lemma_message_at(list, i);
        lemma_cell(cell, (limit - 1) as nat);
        assert(r.elements.take(i).push(cell) =~= r.elements.take(i + 1));
    }
    fields::lemma_list_behind(
        MessageKind::Row,
        limit,
        no_row(),
        Seq::empty(),
        list,
        step,
        r.elements,
        holding,
    );
    assert(Seq::empty() + list =~= list);
    fields::lemma_sound_message(MessageKind::Row, list, limit);
}

/// Reading a row gives back what was written, and what is written holds its
/// fields and nothing else.
pub proof fn law_a_row_reads_back(r: RowView)
    requires
        row_fits(r, wire::RECURSION_LIMIT as nat),
        row_bytes(r).len() <= u64::MAX,
    ensures
        row_read(row_bytes(r)) == Some(r),
        fields::holds_fields_only(
            MessageKind::Row,
            row_bytes(r),
            wire::RECURSION_LIMIT as nat,
        ),
{
    lemma_row(r, wire::RECURSION_LIMIT as nat);
}

// ---------------------------------------------------------------------------
// Data sets
// ---------------------------------------------------------------------------

/// Numbers of 64 bits, cut to 32 each.
pub open spec fn low_halves(numbers: Seq<u64>) -> Seq<u32> {
    numbers.map_values(|v: u64| low_half(v))
}

/// A data set, with one more field taken up.
pub open spec fn with_data_set(d: DataSetView, f: FieldView, limit: nat) -> DataSetView {
    match (f.number, f.value) {
        (1, FieldValueView::Number(v)) => DataSetView { num_of_columns: Some(v), ..d },
        (2, FieldValueView::Text(v)) => DataSetView { columns: d.columns.push(v), ..d },
        (3, FieldValueView::Number(v)) => DataSetView { types: d.types.push(low_half(v)), ..d },
        (3, FieldValueView::Numbers(v)) => DataSetView { types: d.types + low_halves(v), ..d },
        (4, FieldValueView::Message(body)) => if limit > 0 {
            DataSetView { rows: d.rows.push(row_from(no_row(), body, (limit - 1) as nat)), ..d }
        } else {
            d
        },
        _ => d,
    }
}

/// Takes up one field of a data set.
pub open spec fn data_set_step(limit: nat) -> spec_fn(DataSetView, FieldView) -> DataSetView {
    |d: DataSetView, f: FieldView| with_data_set(d, f, limit)
}

/// A data set, with the fields of `bytes` taken up.
pub open spec fn data_set_from(d: DataSetView, bytes: Seq<u8>, limit: nat) -> DataSetView {
    fields::folded(d, fields::fields_in(MessageKind::DataSet, bytes), data_set_step(limit))
}

/// The fields of a data set, in the order of their numbers.
pub open spec fn data_set_fields(d: DataSetView) -> Seq<FieldView> {
    fields::number_in(1, d.num_of_columns) + fields::texts_in(2, d.columns) + fields::numbers_in(
        3,
        d.types,
    ) + fields::messages_in(4, row_bodies(d.rows))
}

/// The bytes of a data set.
pub open spec fn data_set_bytes(d: DataSetView) -> Seq<u8> {
    fields::fields_bytes(data_set_fields(d))
}

/// Whether a data set nests no deeper than `limit` levels.
pub open spec fn data_set_fits(d: DataSetView, limit: nat) -> bool {
    &&& d.rows.len() > 0 ==> limit > 0
    &&& forall|i: int|
        0 <= i < d.rows.len() ==> row_fits(#[trigger] d.rows[i], (limit - 1) as nat)
}

/// The data set that bytes spell, if the schema accepts them.
pub open spec fn data_set_read(bytes: Seq<u8>) -> Option<DataSetView> {
    if schema::accepts(MessageKind::DataSet, bytes, wire::RECURSION_LIMIT as nat) {
        Some(data_set_from(nested::no_data_set(), bytes, wire::RECURSION_LIMIT as nat))
    } else {
        None
    }
}

/// Add numbers to a list, cut to 32 bits each.
fn push_numbers(numbers: &Vec<u64>, list: &mut Vec<u32>)
    ensures
        final(list)@ == old(list)@ + low_halves(numbers@),
{
    let ghost before = list@;
    let mut i: usize = 0;
    assert(list@ =~= before + low_halves(numbers@).take(0));
    while i < numbers.len()
        invariant
            i <= numbers.len(),
            list@ == before + low_halves(numbers@).take(i as int),
        decreases numbers.len() - i,
    {
        list.push(low_half_of(numbers[i]));
        i += 1;
        assert(list@ =~= before + low_halves(numbers@).take(i as int));
    }
    assert(low_halves(numbers@).take(i as int) =~= low_halves(numbers@));
}

/// Take up the fields of `bytes`.
pub(crate) fn merge_data_set(held: DataSet, bytes: &[u8], limit: u32) -> (d: DataSet)
    ensures
        d@ == data_set_from(held@, bytes@, limit as nat),
{
    let read = fields::read_fields(MessageKind::DataSet, bytes);
    let ghost fs = fields::field_views(read@);
    let ghost start = held@;
    let mut d = held;
    let mut i: usize = 0;
    while i < read.len()
        invariant
            i <= read.len(),
            fs == fields::field_views(read@),
            d@ == fields::folded(start, fs.take(i as int), data_set_step(limit as nat)),
        decreases read.len() - i,
    {
        let ghost before = d@;
        match (read[i].number, &read[i].value) {
            (1, FieldValue::Number(v)) => d.num_of_columns = Some(*v),
            (2, FieldValue::Text(v)) => {
                let ghost columns = d.columns@;
                d.columns.push(v.clone());
                assert(crate::text::text_views(d.columns@) =~= crate::text::text_views(
                    columns,
                ).push(v@));
            },
            (3, FieldValue::Number(v)) => d.types.push(low_half_of(*v)),
            (3, FieldValue::Numbers(v)) => push_numbers(v, &mut d.types),
            (4, FieldValue::Message(body)) => if limit > 0 {
                let ghost rows = d.rows@;
                d.rows.push(merge_row(Row::default(), body.as_slice(), limit - 1));
                assert(nested::views(d.rows@) =~= nested::views(rows).push(d.rows@.last()@));
            },
            _ => {},
        }
        assert(d@ == with_data_set(before, fs[i as int], limit as nat));
        proof {
            fields::lemma_folded_next(start, fs, i as int, data_set_step(limit as nat));
        }
        i += 1;
    }
    assert(fs.take(i as int) =~= fs);
    d
}

/// Write a list, one item to a field.
pub(crate) fn write_rows(number: u32, items: &Vec<Row>, writer: &mut fields::Writer)
    requires
        1 <= number < 0x2000_0000,
        old(writer).is_exact(),
    ensures
        final(writer).is_exact(),
        final(writer).written() == old(writer).written() + fields::messages_in(
            number,
            row_bodies(nested::views(items@)),
        ),
{
    let ghost all = fields::messages_in(number, row_bodies(nested::views(items@)));
    let ghost before = writer.written();
    let mut i: usize = 0;
    assert(writer.written() =~= before + all.take(0));
    while i < items.len()
        invariant
            1 <= number < 0x2000_0000,
            i <= items.len(),
            all == fields::messages_in(number, row_bodies(nested::views(items@))),
            writer.is_exact(),
            writer.written() == before + all.take(i as int),
        decreases items.len() - i,
    {
        let body = encode_row(&items[i]);
        writer.message(number, &body);
        assert(writer.written() =~= before + all.take(i + 1));
        i += 1;
    }
    assert(all.take(i as int) =~= all);
}

/// Write a data set.
pub(crate) fn encode_data_set(d: &DataSet) -> (bytes: Vec<u8>)
    ensures
        bytes@ == data_set_bytes(d@),
{
    let mut writer = fields::Writer::start();
    writer.number(1, d.num_of_columns);
    assert(writer.written() =~= fields::number_in(1, d@.num_of_columns));
    writer.texts(2, &d.columns);
    writer.numbers(3, &d.types);
    write_rows(4, &d.rows, &mut writer);
    writer.finish()
}

impl DataSet {
    /// Read a data set from its bytes.
    ///
    /// # Errors
    ///
    /// Fails when the schema does not accept the bytes.
    pub fn decode(bytes: &[u8]) -> (read: Result<Self, prost::DecodeError>)
        ensures
            match read {
                Ok(read) => data_set_read(bytes@) == Some(read@),
                Err(error) => {
                    &&& data_set_read(bytes@) is None
                    &&& wire::error_fault(error) == schema::fault_in(
                        MessageKind::DataSet,
                        bytes@,
                        wire::RECURSION_LIMIT as nat,
                    )
                },
            },
    {
        match schema::check_message(MessageKind::DataSet, bytes, wire::RECURSION_LIMIT) {
            Ok(()) => Ok(merge_data_set(DataSet::default(), bytes, wire::RECURSION_LIMIT)),
            Err(error) => Err(error),
        }
    }

    /// Write a data set.
    pub fn encode_to_vec(&self) -> (bytes: Vec<u8>)
        ensures
            bytes@ == data_set_bytes(self@),
    {
        encode_data_set(self)
    }
}

/// A data set reads back as itself at any level it fits, from bytes that hold its
/// fields and nothing else.
pub proof fn lemma_data_set(d: DataSetView, limit: nat)
    requires
        data_set_fits(d, limit),
        data_set_bytes(d).len() <= u64::MAX,
    ensures
        data_set_from(nested::no_data_set(), data_set_bytes(d), limit) == d,
        fields::passes(MessageKind::DataSet, data_set_bytes(d), limit),
        fields::holds_fields_only(MessageKind::DataSet, data_set_bytes(d), limit),
        schema::accepts(MessageKind::DataSet, data_set_bytes(d), limit),
{
    reveal(schema::field_type);
    let kind = MessageKind::DataSet;
    let list = data_set_fields(d);
    let step = data_set_step(limit);
    let d0 = nested::no_data_set();
    let d1 = DataSetView { num_of_columns: d.num_of_columns, ..d0 };
    let p1 = fields::number_in(1, d.num_of_columns);
    fields::lemma_part_behind(kind, limit, d0, Seq::empty(), p1, step, d0, d1);
    assert(Seq::empty() + p1 =~= p1);

    let p2 = fields::texts_in(2, d.columns);
    let with_columns = |columns: Seq<Seq<char>>| DataSetView { columns, ..d1 };
    assert forall|i: int| 0 <= i < p2.len() implies fields::is_sound(
        kind,
        #[trigger] p2[i],
        limit,
    ) && step(with_columns(d.columns.take(i)), p2[i]) == with_columns(d.columns.take(i + 1)) by {
        assert(d.columns.take(i).push(d.columns[i]) =~= d.columns.take(i + 1));
    }
    fields::lemma_list_behind(kind, limit, d0, p1, p2, step, d.columns, with_columns);
    let d2 = with_columns(d.columns);

    let p3 = fields::numbers_in(3, d.types);
    let with_types = |types: Seq<u32>| DataSetView { types, ..d2 };
    assert forall|i: int| 0 <= i < p3.len() implies fields::is_sound(
        kind,
        #[trigger] p3[i],
        limit,
    ) && step(with_types(d.types.take(i)), p3[i]) == with_types(d.types.take(i + 1)) by {
        assert(low_half(d.types[i] as u64) == d.types[i]);
        assert(d.types.take(i).push(d.types[i]) =~= d.types.take(i + 1));
    }
    fields::lemma_list_behind(kind, limit, d0, p1 + p2, p3, step, d.types, with_types);
    let d3 = with_types(d.types);

    let p4 = fields::messages_in(4, row_bodies(d.rows));
    let with_rows = |rows: Seq<RowView>| DataSetView { rows, ..d3 };
    assert forall|i: int| 0 <= i < p4.len() implies fields::is_sound(
        kind,
        #[trigger] p4[i],
        limit,
    ) && step(with_rows(d.rows.take(i)), p4[i]) == with_rows(d.rows.take(i + 1)) by {
        let at = (p1 + p2 + p3).len() + i;
        assert(list[at] == p4[i]);
        fields::lemma_message_at(list, at);
        lemma_row(d.rows[i], (limit - 1) as nat);
        assert(d.rows.take(i).push(d.rows[i]) =~= d.rows.take(i + 1));
    }
    fields::lemma_list_behind(kind, limit, d0, p1 + p2 + p3, p4, step, d.rows, with_rows);
    fields::lemma_sound_message(kind, list, limit);
}

/// Reading a data set gives back what was written, and what is written holds its
/// fields and nothing else.
pub proof fn law_a_data_set_reads_back(d: DataSetView)
    requires
        data_set_fits(d, wire::RECURSION_LIMIT as nat),
        data_set_bytes(d).len() <= u64::MAX,
    ensures
        data_set_read(data_set_bytes(d)) == Some(d),
        fields::holds_fields_only(
            MessageKind::DataSet,
            data_set_bytes(d),
            wire::RECURSION_LIMIT as nat,
        ),
{
    lemma_data_set(d, wire::RECURSION_LIMIT as nat);
}

} // verus!
