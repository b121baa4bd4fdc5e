//! The bytes of a template's parameters.

use crate::payload;
use crate::payload::codec::data_set;
use crate::payload::codec::{low_half, low_half_of};
use crate::payload::fields::{self, FieldValue, FieldValueView, FieldView};
use crate::payload::nested::{self, Parameter, ParameterView};
use crate::schema::{self, MessageKind};
use crate::wire;
use vstd::prelude::*;

verus! {

/// A parameter that holds nothing.
pub open spec fn no_parameter() -> ParameterView {
    ParameterView { name: None, datatype: None, value: None }
}

/// A parameter, with one more field taken up.
pub open spec fn with_parameter(p: ParameterView, f: FieldView, limit: nat) -> ParameterView {
    match (f.number, f.value) {
        (1, FieldValueView::Text(v)) => ParameterView { name: Some(v), ..p },
        (2, FieldValueView::Number(v)) => ParameterView { datatype: Some(low_half(v)), ..p },
        _ => ParameterView { value: data_set::with_nested(p.value, 3, f, limit), ..p },
    }
}

/// Takes up one field of a parameter.
pub open spec fn parameter_step(limit: nat) -> spec_fn(ParameterView, FieldView) -> ParameterView {
    |p: ParameterView, f: FieldView| with_parameter(p, f, limit)
}

/// A parameter, with the fields of `bytes` taken up.
pub open spec fn parameter_from(p: ParameterView, bytes: Seq<u8>, limit: nat) -> ParameterView {
    fields::folded(p, fields::fields_in(MessageKind::Parameter, bytes), parameter_step(limit))
}

/// The fields of a parameter, in the order of their numbers.
pub open spec fn parameter_fields(p: ParameterView) -> Seq<FieldView> {
    fields::text_in(1, p.name) + fields::number_in(2, fields::widened(p.datatype))
        + data_set::nested_fields(3, p.value)
}

/// The bytes of a parameter.
pub open spec fn parameter_bytes(p: ParameterView) -> Seq<u8> {
    fields::fields_bytes(parameter_fields(p))
}

/// The bytes of each parameter.
pub open spec fn parameter_bodies(parameters: Seq<ParameterView>) -> Seq<Seq<u8>> {
    parameters.map_values(|p: ParameterView| parameter_bytes(p))
}

/// Whether a parameter nests no deeper than `limit` levels.
pub open spec fn parameter_fits(p: ParameterView, limit: nat) -> bool {
    data_set::nested_fits(p.value, limit)
}

/// The parameter that bytes spell, if the schema accepts them.
pub open spec fn parameter_read(bytes: Seq<u8>) -> Option<ParameterView> {
    if schema::accepts(MessageKind::Parameter, bytes, wire::RECURSION_LIMIT as nat) {
        Some(parameter_from(no_parameter(), bytes, wire::RECURSION_LIMIT as nat))
    } else {
        None
    }
}

/// Take up the fields of `bytes`.
pub(crate) fn merge_parameter(held: Parameter, bytes: &[u8], limit: u32) -> (p: Parameter)
    ensures
        p@ == parameter_from(held@, bytes@, limit as nat),
{
    let read = fields::read_fields(MessageKind::Parameter, bytes);
    let ghost fs = fields::field_views(read@);
    let ghost start = held@;
    let mut p = held;
    let mut i: usize = 0;
    while i < read.len()
        invariant
            i <= read.len(),
            fs == fields::field_views(read@),
            p@ == fields::folded(start, fs.take(i as int), parameter_step(limit as nat)),
        decreases read.len() - i,
    {
        let ghost before = p@;
        match (read[i].number, &read[i].value) {
            (1, FieldValue::Text(v)) => p.name = Some(v.clone()),
            (2, FieldValue::Number(v)) => p.datatype = Some(low_half_of(*v)),
            (number, value) => {
                let held = p.value.take();
                p.value = data_set::merge_nested(held, 3, number, value, limit);
            },
        }
        assert(p@ == with_parameter(before, fs[i as int], limit as nat));
        proof {
            fields::lemma_folded_next(start, fs, i as int, parameter_step(limit as nat));
        }
        i += 1;
    }
    assert(fs.take(i as int) =~= fs);
    p
}

/// Write a list, one item to a field.
pub(crate) fn write_parameters(number: u32, items: &Vec<Parameter>, writer: &mut fields::Writer)
    requires
        1 <= number < 0x2000_0000,
        old(writer).is_exact(),
    ensures
        final(writer).is_exact(),
        final(writer).written() == old(writer).written() + fields::messages_in(
            number,
            parameter_bodies(nested::views(items@)),
        ),
{
    let ghost all = fields::messages_in(number, parameter_bodies(nested::views(items@)));
    let ghost before = writer.written();
    let mut i: usize = 0;
    assert(writer.written() =~= before + all.take(0));
    while i < items.len()
        invariant
            1 <= number < 0x2000_0000,
            i <= items.len(),
            all == fields::messages_in(number, parameter_bodies(nested::views(items@))),
            writer.is_exact(),
            writer.written() == before + all.take(i as int),
        decreases items.len() - i,
    {
        let body = encode_parameter(&items[i]);
        writer.message(number, &body);
        assert(writer.written() =~= before + all.take(i + 1));
        i += 1;
    }
    assert(all.take(i as int) =~= all);
}

/// Write a parameter.
pub(crate) fn encode_parameter(p: &Parameter) -> (bytes: Vec<u8>)
    ensures
        bytes@ == parameter_bytes(p@),
{
    let mut writer = fields::Writer::start();
    writer.held_text(1, &p.name);
    assert(writer.written() =~= fields::text_in(1, p@.name));
    writer.small(2, p.datatype);
    data_set::write_nested(3, &p.value, &mut writer);
    writer.finish()
}

impl Default for Parameter {
    fn default() -> (p: Self)
        ensures
            p@ == no_parameter(),
    {
        Parameter { name: None, datatype: None, value: None }
    }
}

impl Parameter {
    /// Read a parameter from its bytes.
    ///
    /// # Errors
    ///
    /// Fails when the schema does not accept the bytes.
    pub fn decode(bytes: &[u8]) -> (read: Result<Self, prost::DecodeError>)
        ensures
            match read {
                Ok(read) => parameter_read(bytes@) == Some(read@),
                Err(error) => {
                    &&& parameter_read(bytes@) is None
                    &&& wire::error_fault(error) == schema::fault_in(
                        MessageKind::Parameter,
                        bytes@,
                        wire::RECURSION_LIMIT as nat,
                    )
                },
            },
    {
        match schema::check_message(MessageKind::Parameter, bytes, wire::RECURSION_LIMIT) {
            Ok(()) => Ok(merge_parameter(Parameter::default(), bytes, wire::RECURSION_LIMIT)),
            Err(error) => Err(error),
        }
    }

    /// Write a parameter.
    pub fn encode_to_vec(&self) -> (bytes: Vec<u8>)
        ensures
            bytes@ == parameter_bytes(self@),
    {
        encode_parameter(self)
    }
}

/// A parameter reads back as itself at any level it fits, from bytes that hold its
/// fields and nothing else.
pub proof fn lemma_parameter(p: ParameterView, limit: nat)
    requires
        parameter_fits(p, limit),
        parameter_bytes(p).len() <= u64::MAX,
    ensures
        parameter_from(no_parameter(), parameter_bytes(p), limit) == p,
        fields::passes(MessageKind::Parameter, parameter_bytes(p), limit),
        fields::holds_fields_only(MessageKind::Parameter, parameter_bytes(p), limit),
        schema::accepts(MessageKind::Parameter, parameter_bytes(p), limit),
{
    reveal(schema::field_type);
    if limit > 0 {
        fields::lemma_empty_message(MessageKind::Extension, (limit - 1) as nat);
    }
    let kind = MessageKind::Parameter;
    let step = parameter_step(limit);
    let v0 = no_parameter();
    let v1 = ParameterView { name: p.name, ..v0 };
    let p1 = fields::text_in(1, p.name);
    fields::lemma_part_behind(kind, limit, v0, Seq::empty(), p1, step, v0, v1);
    assert(Seq::empty() + p1 =~= p1);
    let v2 = ParameterView { datatype: p.datatype, ..v1 };
    let p2 = fields::number_in(2, fields::widened(p.datatype));
    fields::lemma_part_behind(kind, limit, v0, p1, p2, step, v1, v2);
    let p3 = data_set::nested_fields(3, p.value);
    fields::lemma_part_behind(kind, limit, v0, p1 + p2, p3, step, v2, p);
    fields::lemma_sound_message(kind, parameter_fields(p), limit);
}

/// Reading a parameter gives back what was written, and what is written holds its
/// fields and nothing else.
pub proof fn law_a_parameter_reads_back(p: ParameterView)
    requires
        parameter_fits(p, wire::RECURSION_LIMIT as nat),
        parameter_bytes(p).len() <= u64::MAX,
    ensures
        parameter_read(parameter_bytes(p)) == Some(p),
        fields::holds_fields_only(
            MessageKind::Parameter,
            parameter_bytes(p),
            wire::RECURSION_LIMIT as nat,
        ),
{
    lemma_parameter(p, wire::RECURSION_LIMIT as nat);
}

} // verus!
