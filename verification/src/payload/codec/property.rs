//! The bytes of properties, which may hold properties in turn.

use crate::payload::codec::{low_half, low_half_of};
use crate::payload::fields::{self, FieldValue, FieldValueView, FieldView};
use crate::payload::metric::{Double, Single};
use crate::payload::nested::{
    self, PropertyInner, PropertyInnerView, PropertySet, PropertySetList, PropertySetListView,
    PropertySetView, PropertyValue, PropertyValueView,
};
use crate::schema::{self, MessageKind};
use crate::text;
use crate::wire;
use vstd::prelude::*;

verus! {

// ---------------------------------------------------------------------------
// Reading
// ---------------------------------------------------------------------------

/// A property that holds nothing.
pub open spec fn no_property() -> PropertyValueView {
    PropertyValueView { datatype: None, is_null: None, value: None }
}

/// A property with a value.
pub open spec fn valued(p: PropertyValueView, value: PropertyInnerView) -> PropertyValueView {
    PropertyValueView { value: Some(value), ..p }
}

/// The property set that a property holds, or an empty one.
pub open spec fn held_set(p: PropertyValueView) -> PropertySetView {
    match p.value {
        Some(PropertyInnerView::PropertysetValue(s)) => s,
        _ => nested::no_property_set(),
    }
}

/// The list of property sets that a property holds, or an empty one.
pub open spec fn held_sets(p: PropertyValueView) -> PropertySetListView {
    match p.value {
        Some(PropertyInnerView::PropertysetsValue(l)) => l,
        _ => nested::no_property_sets(),
    }
}

/// A property, with one more field taken up. `limit` is how many more levels
/// of messages may open.
pub open spec fn with_property(p: PropertyValueView, f: FieldView, limit: nat) -> PropertyValueView
    decreases limit, 0nat,
{
    match (f.number, f.value) {
        (1, FieldValueView::Number(v)) => PropertyValueView { datatype: Some(low_half(v)), ..p },
        (2, FieldValueView::Number(v)) => PropertyValueView { is_null: Some(v != 0), ..p },
        (3, FieldValueView::Number(v)) => valued(p, PropertyInnerView::IntValue(low_half(v))),
        (4, FieldValueView::Number(v)) => valued(p, PropertyInnerView::LongValue(v)),
        (5, FieldValueView::Single(v)) => valued(p, PropertyInnerView::FloatValue(v)),
        (6, FieldValueView::Double(v)) => valued(p, PropertyInnerView::DoubleValue(v)),
        (7, FieldValueView::Number(v)) => valued(p, PropertyInnerView::BooleanValue(v != 0)),
        (8, FieldValueView::Text(v)) => valued(p, PropertyInnerView::StringValue(v)),
        (9, FieldValueView::Message(body)) => if limit > 0 {
            valued(
                p,
                PropertyInnerView::PropertysetValue(
                    set_with_all(
                        held_set(p),
                        fields::fields_in(MessageKind::PropertySet, body),
                        (limit - 1) as nat,
                    ),
                ),
            )
        } else {
            p
        },
        (10, FieldValueView::Message(body)) => if limit > 0 {
            valued(
                p,
                PropertyInnerView::PropertysetsValue(
                    sets_with_all(
                        held_sets(p),
                        fields::fields_in(MessageKind::PropertySetList, body),
                        (limit - 1) as nat,
                    ),
                ),
            )
        } else {
            p
        },
        (11, FieldValueView::Message(_)) => if limit > 0 {
            valued(p, PropertyInnerView::ExtensionValue)
        } else {
            p
        },
        _ => p,
    }
}

/// A property, with a run of fields taken up.
pub open spec fn property_with_all(
    p: PropertyValueView,
    fs: Seq<FieldView>,
    limit: nat,
) -> PropertyValueView
    decreases limit, fs.len(),
{
    if fs.len() == 0 {
        p
    } else {
        with_property(property_with_all(p, fs.drop_last(), limit), fs.last(), limit)
    }
}

/// A property set, with one more field taken up.
pub open spec fn with_set(s: PropertySetView, f: FieldView, limit: nat) -> PropertySetView
    decreases limit, 0nat,
{
    match (f.number, f.value) {
        (1, FieldValueView::Text(v)) => PropertySetView { keys: s.keys.push(v), ..s },
        (2, FieldValueView::Message(body)) => if limit > 0 {
            PropertySetView {
                values: s.values.push(
                    property_with_all(
                        no_property(),
                        fields::fields_in(MessageKind::PropertyValue, body),
                        (limit - 1) as nat,
                    ),
                ),
                ..s
            }
        } else {
            s
        },
        _ => s,
    }
}

/// A property set, with a run of fields taken up.
pub open spec fn set_with_all(
    s: PropertySetView,
    fs: Seq<FieldView>,
    limit: nat,
) -> PropertySetView
    decreases limit, fs.len(),
{
    if fs.len() == 0 {
        s
    } else {
        with_set(set_with_all(s, fs.drop_last(), limit), fs.last(), limit)
    }
}

/// A list of property sets, with one more field taken up.
pub open spec fn with_sets(l: PropertySetListView, f: FieldView, limit: nat) -> PropertySetListView
    decreases limit, 0nat,
{
    match (f.number, f.value) {
        (1, FieldValueView::Message(body)) => if limit > 0 {
            PropertySetListView {
                propertyset: l.propertyset.push(
                    set_with_all(
                        nested::no_property_set(),
                        fields::fields_in(MessageKind::PropertySet, body),
                        (limit - 1) as nat,
                    ),
                ),
            }
        } else {
            l
        },
        _ => l,
    }
}

/// A list of property sets, with a run of fields taken up.
pub open spec fn sets_with_all(
    l: PropertySetListView,
    fs: Seq<FieldView>,
    limit: nat,
) -> PropertySetListView
    decreases limit, fs.len(),
{
    if fs.len() == 0 {
        l
    } else {
        with_sets(sets_with_all(l, fs.drop_last(), limit), fs.last(), limit)
    }
}

/// Takes up one field of a property.
pub open spec fn property_step(limit: nat) -> spec_fn(
    PropertyValueView,
    FieldView,
) -> PropertyValueView {
    |p: PropertyValueView, f: FieldView| with_property(p, f, limit)
}

/// A property, with the fields of `bytes` taken up.
pub open spec fn property_from(
    p: PropertyValueView,
    bytes: Seq<u8>,
    limit: nat,
) -> PropertyValueView {
    property_with_all(p, fields::fields_in(MessageKind::PropertyValue, bytes), limit)
}

/// The property that bytes spell, if the schema accepts them.
pub open spec fn property_read(bytes: Seq<u8>) -> Option<PropertyValueView> {
    if schema::accepts(MessageKind::PropertyValue, bytes, wire::RECURSION_LIMIT as nat) {
        Some(property_from(no_property(), bytes, wire::RECURSION_LIMIT as nat))
    } else {
        None
    }
}

/// Fields are taken up one by one.
pub proof fn lemma_property_folds(p: PropertyValueView, fs: Seq<FieldView>, limit: nat)
    ensures
        property_with_all(p, fs, limit) == fields::folded(p, fs, property_step(limit)),
    decreases fs.len(),
{
    if fs.len() > 0 {
        lemma_property_folds(p, fs.drop_last(), limit);
    }
}

/// Takes up one field of a property set.
pub open spec fn set_step(limit: nat) -> spec_fn(PropertySetView, FieldView) -> PropertySetView {
    |s: PropertySetView, f: FieldView| with_set(s, f, limit)
}

/// A property set, with the fields of `bytes` taken up.
pub open spec fn set_from(s: PropertySetView, bytes: Seq<u8>, limit: nat) -> PropertySetView {
    set_with_all(s, fields::fields_in(MessageKind::PropertySet, bytes), limit)
}

/// The property set that bytes spell, if the schema accepts them.
pub open spec fn set_read(bytes: Seq<u8>) -> Option<PropertySetView> {
    if schema::accepts(MessageKind::PropertySet, bytes, wire::RECURSION_LIMIT as nat) {
        Some(set_from(nested::no_property_set(), bytes, wire::RECURSION_LIMIT as nat))
    } else {
        None
    }
}

/// Fields are taken up one by one.
pub proof fn lemma_set_folds(s: PropertySetView, fs: Seq<FieldView>, limit: nat)
    ensures
        set_with_all(s, fs, limit) == fields::folded(s, fs, set_step(limit)),
    decreases fs.len(),
{
    if fs.len() > 0 {
        lemma_set_folds(s, fs.drop_last(), limit);
    }
}

/// Takes up one field of a list of property sets.
pub open spec fn sets_step(limit: nat) -> spec_fn(
    PropertySetListView,
    FieldView,
) -> PropertySetListView {
    |l: PropertySetListView, f: FieldView| with_sets(l, f, limit)
}

/// A list of property sets, with the fields of `bytes` taken up.
pub open spec fn sets_from(
    l: PropertySetListView,
    bytes: Seq<u8>,
    limit: nat,
) -> PropertySetListView {
    sets_with_all(l, fields::fields_in(MessageKind::PropertySetList, bytes), limit)
}

/// The list of property sets that bytes spell, if the schema accepts them.
pub open spec fn sets_read(bytes: Seq<u8>) -> Option<PropertySetListView> {
    if schema::accepts(MessageKind::PropertySetList, bytes, wire::RECURSION_LIMIT as nat) {
        Some(sets_from(nested::no_property_sets(), bytes, wire::RECURSION_LIMIT as nat))
    } else {
        None
    }
}

/// Fields are taken up one by one.
pub proof fn lemma_sets_folds(l: PropertySetListView, fs: Seq<FieldView>, limit: nat)
    ensures
        sets_with_all(l, fs, limit) == fields::folded(l, fs, sets_step(limit)),
    decreases fs.len(),
{
    if fs.len() > 0 {
        lemma_sets_folds(l, fs.drop_last(), limit);
    }
}

/// The property set of a value, or an empty one.
fn set_of(held: Option<PropertyInner>) -> (s: PropertySet)
    ensures
        s@ == held_set(
            PropertyValueView { value: crate::payload::view_of(held), ..no_property() },
        ),
{
    match held {
        Some(PropertyInner::PropertysetValue(s)) => s,
        _ => PropertySet::default(),
    }
}

/// The list of property sets of a value, or an empty one.
fn sets_of(held: Option<PropertyInner>) -> (l: PropertySetList)
    ensures
        l@ == held_sets(
            PropertyValueView { value: crate::payload::view_of(held), ..no_property() },
        ),
{
    match held {
        Some(PropertyInner::PropertysetsValue(l)) => l,
        _ => PropertySetList::default(),
    }
}

/// Take up the fields of `bytes`.
pub(crate) fn merge_property(held: PropertyValue, bytes: &[u8], limit: u32) -> (p: PropertyValue)
    ensures
        p@ == property_from(held@, bytes@, limit as nat),
    decreases limit,
{
    let read = fields::read_fields(MessageKind::PropertyValue, bytes);
    let ghost fs = fields::field_views(read@);
    let ghost start = held@;
    let mut p = held;
    let mut i: usize = 0;
    while i < read.len()
        invariant
            i <= read.len(),
            fs == fields::field_views(read@),
            p@ == fields::folded(start, fs.take(i as int), property_step(limit as nat)),
        decreases read.len() - i,
    {
        let ghost before = p@;
        match (read[i].number, &read[i].value) {
            (1, FieldValue::Number(v)) => p.datatype = Some(low_half_of(*v)),
            (2, FieldValue::Number(v)) => p.is_null = Some(*v != 0),
            (3, FieldValue::Number(v)) => p.value = Some(PropertyInner::IntValue(low_half_of(*v))),
            (4, FieldValue::Number(v)) => p.value = Some(PropertyInner::LongValue(*v)),
            (5, FieldValue::Single(v)) => p.value = Some(PropertyInner::FloatValue(Single(*v))),
            (6, FieldValue::Double(v)) => p.value = Some(PropertyInner::DoubleValue(Double(*v))),
            (7, FieldValue::Number(v)) => p.value = Some(PropertyInner::BooleanValue(*v != 0)),
            (8, FieldValue::Text(v)) => p.value = Some(PropertyInner::StringValue(v.clone())),
            (9, FieldValue::Message(body)) => if limit > 0 {
                let held = set_of(p.value.take());
                p.value = Some(
                    PropertyInner::PropertysetValue(merge_set(held, body.as_slice(), limit - 1)),
                );
            },
            (10, FieldValue::Message(body)) => if limit > 0 {
                let held = sets_of(p.value.take());
                p.value = Some(
                    PropertyInner::PropertysetsValue(merge_sets(held, body.as_slice(), limit - 1)),
                );
            },
            (11, FieldValue::Message(_)) => if limit > 0 {
                p.value = Some(PropertyInner::ExtensionValue);
            },
            _ => {},
        }
        assert(p@ == with_property(before, fs[i as int], limit as nat));
        proof {
            fields::lemma_folded_next(start, fs, i as int, property_step(limit as nat));
        }
        i += 1;
    }
    assert(fs.take(i as int) =~= fs);
    proof {
        lemma_property_folds(start, fs, limit as nat);
    }
    p
}

impl Default for PropertyValue {
    fn default() -> (p: Self)
        ensures
            p@ == no_property(),
    {
        PropertyValue { datatype: None, is_null: None, value: None }
    }
}

/// Take up the fields of `bytes`.
pub(crate) fn merge_set(held: PropertySet, bytes: &[u8], limit: u32) -> (s: PropertySet)
    ensures
        s@ == set_from(held@, bytes@, limit as nat),
    decreases limit,
{
    let read = fields::read_fields(MessageKind::PropertySet, bytes);
    let ghost fs = fields::field_views(read@);
    let ghost start = held@;
    let mut s = held;
    let mut i: usize = 0;
    while i < read.len()
        invariant
            i <= read.len(),
            fs == fields::field_views(read@),
            s@ == fields::folded(start, fs.take(i as int), set_step(limit as nat)),
        decreases read.len() - i,
    {
        let ghost before = s@;
        match (read[i].number, &read[i].value) {
            (1, FieldValue::Text(v)) => {
                let ghost keys = s.keys@;
                s.keys.push(v.clone());
                assert(text::text_views(s.keys@) =~= text::text_views(keys).push(v@));
                assert(s@.values =~= before.values);
            },
            (2, FieldValue::Message(body)) => if limit > 0 {
                s.values.push(merge_property(PropertyValue::default(), body.as_slice(), limit - 1));
                assert(s@.values =~= before.values.push(s.values@.last()@));
            },
            _ => {},
        }
        assert(s@ == with_set(before, fs[i as int], limit as nat));
        proof {
            fields::lemma_folded_next(start, fs, i as int, set_step(limit as nat));
        }
        i += 1;
    }
    assert(fs.take(i as int) =~= fs);
    proof {
        lemma_set_folds(start, fs, limit as nat);
    }
    s
}

/// Take up the fields of `bytes`.
pub(crate) fn merge_sets(held: PropertySetList, bytes: &[u8], limit: u32) -> (l: PropertySetList)
    ensures
        l@ == sets_from(held@, bytes@, limit as nat),
    decreases limit,
{
    let read = fields::read_fields(MessageKind::PropertySetList, bytes);
    let ghost fs = fields::field_views(read@);
    let ghost start = held@;
    let mut l = held;
    let mut i: usize = 0;
    while i < read.len()
        invariant
            i <= read.len(),
            fs == fields::field_views(read@),
            l@ == fields::folded(start, fs.take(i as int), sets_step(limit as nat)),
        decreases read.len() - i,
    {
        let ghost before = l@;
        match (read[i].number, &read[i].value) {
            (1, FieldValue::Message(body)) => if limit > 0 {
                l.propertyset.push(merge_set(PropertySet::default(), body.as_slice(), limit - 1));
                assert(l@.propertyset =~= before.propertyset.push(l.propertyset@.last()@));
            },
            _ => {},
        }
        assert(l@ == with_sets(before, fs[i as int], limit as nat));
        proof {
            fields::lemma_folded_next(start, fs, i as int, sets_step(limit as nat));
        }
        i += 1;
    }
    assert(fs.take(i as int) =~= fs);
    proof {
        lemma_sets_folds(start, fs, limit as nat);
    }
    l
}

// ---------------------------------------------------------------------------
// Writing
// ---------------------------------------------------------------------------

/// The field of the value of a property.
pub open spec fn inner_fields(value: PropertyInnerView) -> Seq<FieldView>
    decreases value,
{
    match value {
        PropertyInnerView::IntValue(v) => fields::number_in(3, Some(v as u64)),
        PropertyInnerView::LongValue(v) => fields::number_in(4, Some(v)),
        PropertyInnerView::FloatValue(v) => seq![
            FieldView { number: 5, value: FieldValueView::Single(v) },
        ],
        PropertyInnerView::DoubleValue(v) => seq![
            FieldView { number: 6, value: FieldValueView::Double(v) },
        ],
        PropertyInnerView::BooleanValue(v) => fields::number_in(7, Some(fields::flag_number(v))),
        PropertyInnerView::StringValue(v) => fields::text_in(8, Some(v)),
        PropertyInnerView::PropertysetValue(s) => fields::message_in(
            9,
            Some(fields::fields_bytes(set_fields(s))),
        ),
        PropertyInnerView::PropertysetsValue(l) => fields::message_in(
            10,
            Some(fields::fields_bytes(sets_fields(l))),
        ),
        PropertyInnerView::ExtensionValue => fields::message_in(11, Some(Seq::empty())),
    }
}

/// The fields of a property, in the order of their numbers.
pub open spec fn property_fields(p: PropertyValueView) -> Seq<FieldView>
    decreases p,
{
    fields::number_in(1, fields::widened(p.datatype)) + fields::number_in(
        2,
        fields::flagged(p.is_null),
    ) + match p.value {
        Some(value) => inner_fields(value),
        None => Seq::empty(),
    }
}

/// The fields of a property set, in the order of their numbers.
pub open spec fn set_fields(s: PropertySetView) -> Seq<FieldView>
    decreases s,
{
    fields::texts_in(1, s.keys) + fields::messages_in(
        2,
        Seq::new(
            s.values.len(),
            |i: int|
                if 0 <= i < s.values.len() {
                    fields::fields_bytes(property_fields(s.values[i]))
                } else {
                    arbitrary()
                },
        ),
    )
}

/// The fields of a list of property sets.
pub open spec fn sets_fields(l: PropertySetListView) -> Seq<FieldView>
    decreases l,
{
    fields::messages_in(
        1,
        Seq::new(
            l.propertyset.len(),
            |i: int|
                if 0 <= i < l.propertyset.len() {
                    fields::fields_bytes(set_fields(l.propertyset[i]))
                } else {
                    arbitrary()
                },
        ),
    )
}

/// The bytes of a property.
pub open spec fn property_bytes(p: PropertyValueView) -> Seq<u8> {
    fields::fields_bytes(property_fields(p))
}

/// The bytes of a property set.
pub open spec fn set_bytes(s: PropertySetView) -> Seq<u8> {
    fields::fields_bytes(set_fields(s))
}

/// The bytes of a list of property sets.
pub open spec fn sets_bytes(l: PropertySetListView) -> Seq<u8> {
    fields::fields_bytes(sets_fields(l))
}

/// The bytes of each property.
pub open spec fn property_bodies(values: Seq<PropertyValueView>) -> Seq<Seq<u8>> {
    values.map_values(|p: PropertyValueView| property_bytes(p))
}

/// The bytes of each property set.
pub open spec fn set_bodies(sets: Seq<PropertySetView>) -> Seq<Seq<u8>> {
    sets.map_values(|s: PropertySetView| set_bytes(s))
}

/// The parts of the message, one behind the other.
pub proof fn lemma_set_parts(s: PropertySetView)
    ensures
        set_fields(s) == fields::texts_in(1, s.keys) + fields::messages_in(
            2,
            property_bodies(s.values),
        ),
{
    assert(set_fields(s) =~= fields::texts_in(1, s.keys) + fields::messages_in(
        2,
        property_bodies(s.values),
    ));
}

/// The parts of the message, one behind the other.
pub proof fn lemma_sets_parts(l: PropertySetListView)
    ensures
        sets_fields(l) == fields::messages_in(1, set_bodies(l.propertyset)),
{
    assert(sets_fields(l) =~= fields::messages_in(1, set_bodies(l.propertyset)));
}

/// Write the value of a property.
fn write_inner(value: &PropertyInner, writer: &mut fields::Writer)
    requires
        old(writer).is_exact(),
    ensures
        final(writer).is_exact(),
        final(writer).written() == old(writer).written() + inner_fields(value@),
    decreases value,
{
    match value {
        PropertyInner::IntValue(v) => writer.number(3, Some(*v as u64)),
        PropertyInner::LongValue(v) => writer.number(4, Some(*v)),
        PropertyInner::FloatValue(v) => writer.single(5, v.0),
        PropertyInner::DoubleValue(v) => writer.double(6, v.0),
        PropertyInner::BooleanValue(v) => writer.flag(7, Some(*v)),
        PropertyInner::StringValue(v) => writer.text(8, v),
        PropertyInner::PropertysetValue(s) => {
            let body = encode_set(s);
            writer.message(9, &body)
        },
        PropertyInner::PropertysetsValue(l) => {
            let body = encode_sets(l);
            writer.message(10, &body)
        },
        PropertyInner::ExtensionValue => {
            let body: Vec<u8> = Vec::new();
            assert(body@ =~= Seq::empty());
            writer.message(11, &body)
        },
    }
}

/// Write a property.
pub(crate) fn encode_property(p: &PropertyValue) -> (bytes: Vec<u8>)
    ensures
        bytes@ == property_bytes(p@),
    decreases p,
{
    let mut writer = fields::Writer::start();
    writer.small(1, p.datatype);
    assert(writer.written() =~= fields::number_in(1, fields::widened(p@.datatype)));
    writer.flag(2, p.is_null);
    match &p.value {
        Some(value) => write_inner(value, &mut writer),
        None => {
            assert(writer.written() + Seq::empty() =~= writer.written());
        },
    }
    writer.finish()
}

/// Write a list, one item to a field.
pub(crate) fn write_properties(number: u32, items: &Vec<PropertyValue>, writer: &mut fields::Writer)
    requires
        1 <= number < 0x2000_0000,
        old(writer).is_exact(),
    ensures
        final(writer).is_exact(),
        final(writer).written() == old(writer).written() + fields::messages_in(
            number,
            property_bodies(nested::views(items@)),
        ),
    decreases items,
{
    let ghost all = fields::messages_in(number, property_bodies(nested::views(items@)));
    let ghost before = writer.written();
    let mut i: usize = 0;
    assert(writer.written() =~= before + all.take(0));
    while i < items.len()
        invariant
            1 <= number < 0x2000_0000,
            i <= items.len(),
            all == fields::messages_in(number, property_bodies(nested::views(items@))),
            writer.is_exact(),
            writer.written() == before + all.take(i as int),
        decreases items.len() - i,
    {
        assert(decreases_to!(items => items@[i as int]));
        let body = encode_property(&items[i]);
        writer.message(number, &body);
        assert(writer.written() =~= before + all.take(i + 1));
        i += 1;
    }
    assert(all.take(i as int) =~= all);
}

/// Write a property set.
pub(crate) fn encode_set(s: &PropertySet) -> (bytes: Vec<u8>)
    ensures
        bytes@ == set_bytes(s@),
    decreases s,
{
    let mut writer = fields::Writer::start();
    writer.texts(1, &s.keys);
    assert(writer.written() =~= fields::texts_in(1, s@.keys));
    write_properties(2, &s.values, &mut writer);
    proof {
        assert(nested::views(s.values@) =~= s@.values);
        lemma_set_parts(s@);
    }
    writer.finish()
}

/// Write a list, one item to a field.
pub(crate) fn write_sets(number: u32, items: &Vec<PropertySet>, writer: &mut fields::Writer)
    requires
        1 <= number < 0x2000_0000,
        old(writer).is_exact(),
    ensures
        final(writer).is_exact(),
        final(writer).written() == old(writer).written() + fields::messages_in(
            number,
            set_bodies(nested::views(items@)),
        ),
    decreases items,
{
    let ghost all = fields::messages_in(number, set_bodies(nested::views(items@)));
    let ghost before = writer.written();
    let mut i: usize = 0;
    assert(writer.written() =~= before + all.take(0));
    while i < items.len()
        invariant
            1 <= number < 0x2000_0000,
            i <= items.len(),
            all == fields::messages_in(number, set_bodies(nested::views(items@))),
            writer.is_exact(),
            writer.written() == before + all.take(i as int),
        decreases items.len() - i,
    {
        assert(decreases_to!(items => items@[i as int]));
        let body = encode_set(&items[i]);
        writer.message(number, &body);
        assert(writer.written() =~= before + all.take(i + 1));
        i += 1;
    }
    assert(all.take(i as int) =~= all);
}

/// Write a list of property sets.
pub(crate) fn encode_sets(l: &PropertySetList) -> (bytes: Vec<u8>)
    ensures
        bytes@ == sets_bytes(l@),
    decreases l,
{
    let mut writer = fields::Writer::start();
    write_sets(1, &l.propertyset, &mut writer);
    proof {
        assert(nested::views(l.propertyset@) =~= l@.propertyset);
        lemma_sets_parts(l@);
        assert(writer.written() =~= sets_fields(l@));
    }
    writer.finish()
}

impl PropertyValue {
    /// Read a property from its bytes.
    ///
    /// # Errors
    ///
    /// Fails when the schema does not accept the bytes.
    pub fn decode(bytes: &[u8]) -> (read: Result<Self, prost::DecodeError>)
        ensures
            match read {
                Ok(read) => property_read(bytes@) == Some(read@),
                Err(error) => {
                    &&& property_read(bytes@) is None
                    &&& wire::error_fault(error) == schema::fault_in(
                        MessageKind::PropertyValue,
                        bytes@,
                        wire::RECURSION_LIMIT as nat,
                    )
                },
            },
    {
        match schema::check_message(MessageKind::PropertyValue, bytes, wire::RECURSION_LIMIT) {
            Ok(()) => Ok(merge_property(PropertyValue::default(), bytes, wire::RECURSION_LIMIT)),
            Err(error) => Err(error),
        }
    }

    /// Write a property.
    pub fn encode_to_vec(&self) -> (bytes: Vec<u8>)
        ensures
            bytes@ == property_bytes(self@),
    {
        encode_property(self)
    }
}

impl PropertySet {
    /// Read a property set from its bytes.
    ///
    /// # Errors
    ///
    /// Fails when the schema does not accept the bytes.
    pub fn decode(bytes: &[u8]) -> (read: Result<Self, prost::DecodeError>)
        ensures
            match read {
                Ok(read) => set_read(bytes@) == Some(read@),
                Err(error) => {
                    &&& set_read(bytes@) is None
                    &&& wire::error_fault(error) == schema::fault_in(
                        MessageKind::PropertySet,
                        bytes@,
                        wire::RECURSION_LIMIT as nat,
                    )
                },
            },
    {
        match schema::check_message(MessageKind::PropertySet, bytes, wire::RECURSION_LIMIT) {
            Ok(()) => Ok(merge_set(PropertySet::default(), bytes, wire::RECURSION_LIMIT)),
            Err(error) => Err(error),
        }
    }

    /// Write a property set.
    pub fn encode_to_vec(&self) -> (bytes: Vec<u8>)
        ensures
            bytes@ == set_bytes(self@),
    {
        encode_set(self)
    }
}

impl PropertySetList {
    /// Read a list of property sets from its bytes.
    ///
    /// # Errors
    ///
    /// Fails when the schema does not accept the bytes.
    pub fn decode(bytes: &[u8]) -> (read: Result<Self, prost::DecodeError>)
        ensures
            match read {
                Ok(read) => sets_read(bytes@) == Some(read@),
                Err(error) => {
                    &&& sets_read(bytes@) is None
                    &&& wire::error_fault(error) == schema::fault_in(
                        MessageKind::PropertySetList,
                        bytes@,
                        wire::RECURSION_LIMIT as nat,
                    )
                },
            },
    {
        match schema::check_message(MessageKind::PropertySetList, bytes, wire::RECURSION_LIMIT) {
            Ok(()) => Ok(merge_sets(PropertySetList::default(), bytes, wire::RECURSION_LIMIT)),
            Err(error) => Err(error),
        }
    }

    /// Write a list of property sets.
    pub fn encode_to_vec(&self) -> (bytes: Vec<u8>)
        ensures
            bytes@ == sets_bytes(self@),
    {
        encode_sets(self)
    }
}

// ---------------------------------------------------------------------------
// What is written is read back
// ---------------------------------------------------------------------------

/// Whether a property nests no deeper than `limit` levels.
pub open spec fn property_fits(p: PropertyValueView, limit: nat) -> bool
    decreases limit,
{
    match p.value {
        Some(PropertyInnerView::PropertysetValue(s)) => limit > 0 && set_fits(
            s,
            (limit - 1) as nat,
        ),
        Some(PropertyInnerView::PropertysetsValue(l)) => limit > 0 && sets_fits(
            l,
            (limit - 1) as nat,
        ),
        Some(PropertyInnerView::ExtensionValue) => limit > 0,
        _ => true,
    }
}

/// Whether a property set nests no deeper than `limit` levels.
pub open spec fn set_fits(s: PropertySetView, limit: nat) -> bool
    decreases limit,
{
    &&& s.values.len() > 0 ==> limit > 0
    &&& forall|i: int|
        0 <= i < s.values.len() ==> property_fits(#[trigger] s.values[i], (limit - 1) as nat)
}

/// Whether a list of property sets nests no deeper than `limit` levels.
pub open spec fn sets_fits(l: PropertySetListView, limit: nat) -> bool
    decreases limit,
{
    &&& l.propertyset.len() > 0 ==> limit > 0
    &&& forall|i: int|
        0 <= i < l.propertyset.len() ==> set_fits(#[trigger] l.propertyset[i], (limit - 1) as nat)
}

/// A property takes up the field of a value as that value.
proof fn lemma_inner_taken(held: PropertyValueView, value: PropertyInnerView, limit: nat)
    requires
        held.value is None,
        property_fits(valued(no_property(), value), limit),
        inner_fields(value)[0].value matches FieldValueView::Message(body) ==> body.len()
            <= u64::MAX,
    ensures
        inner_fields(value).len() == 1,
        fields::is_sound(MessageKind::PropertyValue, inner_fields(value)[0], limit),
        with_property(held, inner_fields(value)[0], limit) == valued(held, value),
    decreases limit, 0nat,
{
    reveal(schema::field_type);
    match value {
        PropertyInnerView::PropertysetValue(s) => {
            lemma_set(s, (limit - 1) as nat);
        },
        PropertyInnerView::PropertysetsValue(l) => {
            lemma_sets(l, (limit - 1) as nat);
        },
        PropertyInnerView::ExtensionValue => {
            fields::lemma_empty_message(MessageKind::Extension, (limit - 1) as nat);
        },
        _ => {},
    }
}

/// A property reads back as itself at any level it fits, from bytes that hold its
/// fields and nothing else.
pub proof fn lemma_property(p: PropertyValueView, limit: nat)
    requires
        property_fits(p, limit),
        property_bytes(p).len() <= u64::MAX,
    ensures
        property_from(no_property(), property_bytes(p), limit) == p,
        fields::passes(MessageKind::PropertyValue, property_bytes(p), limit),
        fields::holds_fields_only(MessageKind::PropertyValue, property_bytes(p), limit),
        schema::accepts(MessageKind::PropertyValue, property_bytes(p), limit),
    decreases limit, 1nat,
{
    reveal(schema::field_type);
    let kind = MessageKind::PropertyValue;
    let list = property_fields(p);
    let step = property_step(limit);
    let v0 = no_property();
    let v1 = PropertyValueView { datatype: p.datatype, ..v0 };
    let p1 = fields::number_in(1, fields::widened(p.datatype));
    fields::lemma_part_behind(kind, limit, v0, Seq::empty(), p1, step, v0, v1);
    assert(Seq::empty() + p1 =~= p1);
    let v2 = PropertyValueView { is_null: p.is_null, ..v1 };
    let p2 = fields::number_in(2, fields::flagged(p.is_null));
    fields::lemma_part_behind(kind, limit, v0, p1, p2, step, v1, v2);
    let p3 = match p.value {
        Some(value) => inner_fields(value),
        None => Seq::empty(),
    };
    if let Some(value) = p.value {
        let at = (p1 + p2).len() as int;
        assert(p3.len() == 1);
        assert(list[at] == p3[0]);
        fields::lemma_message_at(list, at);
        lemma_inner_taken(v2, value, limit);
    }
    fields::lemma_part_behind(kind, limit, v0, p1 + p2, p3, step, v2, p);
    fields::lemma_sound_message(kind, list, limit);
    lemma_property_folds(v0, list, limit);
}

/// A property set reads back as itself at any level it fits, from bytes that hold its
/// fields and nothing else.
pub proof fn lemma_set(s: PropertySetView, limit: nat)
    requires
        set_fits(s, limit),
        set_bytes(s).len() <= u64::MAX,
    ensures
        set_from(nested::no_property_set(), set_bytes(s), limit) == s,
        fields::passes(MessageKind::PropertySet, set_bytes(s), limit),
        fields::holds_fields_only(MessageKind::PropertySet, set_bytes(s), limit),
        schema::accepts(MessageKind::PropertySet, set_bytes(s), limit),
    decreases limit, 1nat,
{
    reveal(schema::field_type);
    let kind = MessageKind::PropertySet;
    lemma_set_parts(s);
    let list = set_fields(s);
    let step = set_step(limit);
    let s0 = nested::no_property_set();
    let p1 = fields::texts_in(1, s.keys);
    let with_keys = |keys: Seq<Seq<char>>| PropertySetView { keys, ..s0 };
    assert forall|i: int| 0 <= i < p1.len() implies fields::is_sound(
        kind,
        #[trigger] p1[i],
        limit,
    ) && step(with_keys(s.keys.take(i)), p1[i]) == with_keys(s.keys.take(i + 1)) by {
        assert(s.keys.take(i).push(s.keys[i]) =~= s.keys.take(i + 1));
    }
    fields::lemma_list_behind(kind, limit, s0, Seq::empty(), p1, step, s.keys, with_keys);
    assert(Seq::empty() + p1 =~= p1);
    let s1 = with_keys(s.keys);
    let p2 = fields::messages_in(2, property_bodies(s.values));
    let with_values = |values: Seq<PropertyValueView>| PropertySetView { values, ..s1 };
    assert forall|i: int| 0 <= i < p2.len() implies fields::is_sound(
        kind,
        #[trigger] p2[i],
        limit,
    ) && step(with_values(s.values.take(i)), p2[i]) == with_values(s.values.take(i + 1)) by {
        assert(list[p1.len() + i] == p2[i]);
        fields::lemma_message_at(list, p1.len() + i);
        lemma_property(s.values[i], (limit - 1) as nat);
        assert(s.values.take(i).push(s.values[i]) =~= s.values.take(i + 1));
    }
    fields::lemma_list_behind(kind, limit, s0, p1, p2, step, s.values, with_values);
    fields::lemma_sound_message(kind, list, limit);
    lemma_set_folds(s0, list, limit);
}

/// A list of property sets reads back as itself at any level it fits, from bytes that hold its
/// fields and nothing else.
pub proof fn lemma_sets(l: PropertySetListView, limit: nat)
    requires
        sets_fits(l, limit),
        sets_bytes(l).len() <= u64::MAX,
    ensures
        sets_from(nested::no_property_sets(), sets_bytes(l), limit) == l,
        fields::passes(MessageKind::PropertySetList, sets_bytes(l), limit),
        fields::holds_fields_only(MessageKind::PropertySetList, sets_bytes(l), limit),
        schema::accepts(MessageKind::PropertySetList, sets_bytes(l), limit),
    decreases limit, 1nat,
{
    reveal(schema::field_type);
    let kind = MessageKind::PropertySetList;
    lemma_sets_parts(l);
    let list = sets_fields(l);
    let step = sets_step(limit);
    let l0 = nested::no_property_sets();
    let holding = |sets: Seq<PropertySetView>| PropertySetListView { propertyset: sets };
    assert forall|i: int| 0 <= i < list.len() implies fields::is_sound(
        kind,
        #[trigger] list[i],
        limit,
    ) && step(holding(l.propertyset.take(i)), list[i]) == holding(l.propertyset.take(i + 1)) by {
        fields::lemma_message_at(list, i);
        lemma_set(l.propertyset[i], (limit - 1) as nat);
        assert(l.propertyset.take(i).push(l.propertyset[i]) =~= l.propertyset.take(i + 1));
    }
    fields::lemma_list_behind(kind, limit, l0, Seq::empty(), list, step, l.propertyset, holding);
    assert(Seq::empty() + list =~= list);
    fields::lemma_sound_message(kind, list, limit);
    lemma_sets_folds(l0, list, limit);
}

/// Reading a property gives back what was written, and what is written holds its
/// fields and nothing else.
pub proof fn law_a_property_reads_back(p: PropertyValueView)
    requires
        property_fits(p, wire::RECURSION_LIMIT as nat),
        property_bytes(p).len() <= u64::MAX,
    ensures
        property_read(property_bytes(p)) == Some(p),
        fields::holds_fields_only(
            MessageKind::PropertyValue,
            property_bytes(p),
            wire::RECURSION_LIMIT as nat,
        ),
{
    lemma_property(p, wire::RECURSION_LIMIT as nat);
}

/// Reading a property set gives back what was written, and what is written holds its
/// fields and nothing else.
pub proof fn law_a_property_set_reads_back(s: PropertySetView)
    requires
        set_fits(s, wire::RECURSION_LIMIT as nat),
        set_bytes(s).len() <= u64::MAX,
    ensures
        set_read(set_bytes(s)) == Some(s),
        fields::holds_fields_only(
            MessageKind::PropertySet,
            set_bytes(s),
            wire::RECURSION_LIMIT as nat,
        ),
{
    lemma_set(s, wire::RECURSION_LIMIT as nat);
}

/// Reading a list of property sets gives back what was written, and what is written holds its
/// fields and nothing else.
pub proof fn law_property_sets_read_back(l: PropertySetListView)
    requires
        sets_fits(l, wire::RECURSION_LIMIT as nat),
        sets_bytes(l).len() <= u64::MAX,
    ensures
        sets_read(sets_bytes(l)) == Some(l),
        fields::holds_fields_only(
            MessageKind::PropertySetList,
            sets_bytes(l),
            wire::RECURSION_LIMIT as nat,
        ),
{
    lemma_sets(l, wire::RECURSION_LIMIT as nat);
}

} // verus!
