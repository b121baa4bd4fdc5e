//! Reading and writing undo each other.

use crate::payload::codec::data_set;
use crate::payload::codec::metrics;
use crate::payload::codec::parameter;
use crate::payload::codec::property;
use crate::payload::codec;
use crate::payload::fields::{self, FieldValueView, FieldView};
use crate::payload::nested::{
    self, DataSetValueView, DataSetView, ParameterView, PropertySetListView, PropertySetView,
    PropertyValueView, RowView, TemplateView,
};
use crate::payload::{self, MetricView, PayloadView};
use crate::schema::MessageKind;
use crate::wire;
use vstd::prelude::*;

verus! {

/// Whether a metric of a payload nests no deeper than a payload may.
pub open spec fn metric_is_valid(m: MetricView) -> bool {
    metrics::metric_fits(m, (wire::RECURSION_LIMIT - 1) as nat)
}

/// Whether every metric of a payload is valid.
pub open spec fn is_valid(p: PayloadView) -> bool {
    forall|i: int| 0 <= i < p.metrics.len() ==> metric_is_valid(#[trigger] p.metrics[i])
}

/// Reading a payload gives back what was written, field for field, whenever
/// it nests no deeper than a payload may and its bytes can be counted in 64
/// bits.
pub proof fn law_decode_gives_back_encode(p: PayloadView)
    requires
        is_valid(p),
        codec::payload_bytes(p).len() <= u64::MAX,
    ensures
        codec::decoded(codec::payload_bytes(p)) == Some(p),
{
    codec::lemma_payload(p, wire::RECURSION_LIMIT as nat);
}

/// The bytes of a payload hold the fields of the schema and nothing else, at
/// every level.
pub proof fn law_encode_writes_known_fields_only(p: PayloadView)
    requires
        is_valid(p),
        codec::payload_bytes(p).len() <= u64::MAX,
    ensures
        fields::holds_fields_only(
            MessageKind::Payload,
            codec::payload_bytes(p),
            wire::RECURSION_LIMIT as nat,
        ),
{
    codec::lemma_payload(p, wire::RECURSION_LIMIT as nat);
}

/// Every payload that can be read is valid.
pub proof fn law_a_decoded_payload_is_valid(bytes: Seq<u8>, p: PayloadView)
    requires
        codec::decoded(bytes) == Some(p),
    ensures
        is_valid(p),
{
    let limit = wire::RECURSION_LIMIT as nat;
    let step = codec::payload_step(limit);
    let kept = |p: PayloadView| is_valid(p);
    assert forall|p: PayloadView, f: FieldView| kept(p) implies kept(#[trigger] step(p, f)) by {
        if let FieldValueView::Message(body) = f.value {
            lemma_metric_fits(payload::no_metric(), body, (limit - 1) as nat);
        }
    }
    fields::lemma_folded_keeps(
        payload::no_payload(),
        fields::fields_in(MessageKind::Payload, bytes),
        step,
        kept,
    );
}

/// Every payload that can be read reads back as itself when it is written
/// again, from bytes that hold the fields of the schema and nothing else:
/// what the bytes it was read from held beside them is gone.
pub proof fn law_a_decoded_payload_encodes_and_decodes_to_itself(bytes: Seq<u8>, p: PayloadView)
    requires
        codec::decoded(bytes) == Some(p),
        codec::payload_bytes(p).len() <= u64::MAX,
    ensures
        is_valid(p),
        codec::decoded(codec::payload_bytes(p)) == Some(p),
        fields::holds_fields_only(
            MessageKind::Payload,
            codec::payload_bytes(p),
            wire::RECURSION_LIMIT as nat,
        ),
{
    law_a_decoded_payload_is_valid(bytes, p);
    codec::lemma_payload(p, wire::RECURSION_LIMIT as nat);
}

// ---------------------------------------------------------------------------
// What is read nests no deeper than the limit it is read under
// ---------------------------------------------------------------------------

proof fn lemma_cell_fits(c: DataSetValueView, bytes: Seq<u8>, limit: nat)
    requires
        data_set::cell_fits(c, limit),
    ensures
        data_set::cell_fits(data_set::cell_from(c, bytes, limit), limit),
{
    fields::lemma_folded_keeps(
        c,
        fields::fields_in(MessageKind::DataSetValue, bytes),
        data_set::cell_step(limit),
        |c: DataSetValueView| data_set::cell_fits(c, limit),
    );
}

proof fn lemma_row_fits(r: RowView, bytes: Seq<u8>, limit: nat)
    requires
        data_set::row_fits(r, limit),
    ensures
        data_set::row_fits(data_set::row_from(r, bytes, limit), limit),
{
    let step = data_set::row_step(limit);
    let kept = |r: RowView| data_set::row_fits(r, limit);
    assert forall|r: RowView, f: FieldView| kept(r) implies kept(#[trigger] step(r, f)) by {
        if let FieldValueView::Message(body) = f.value {
            if limit > 0 {
                lemma_cell_fits(data_set::no_cell(), body, (limit - 1) as nat);
            }
        }
    }
    fields::lemma_folded_keeps(r, fields::fields_in(MessageKind::Row, bytes), step, kept);
}

proof fn lemma_data_set_fits(d: DataSetView, bytes: Seq<u8>, limit: nat)
    requires
        data_set::data_set_fits(d, limit),
    ensures
        data_set::data_set_fits(data_set::data_set_from(d, bytes, limit), limit),
{
    let step = data_set::data_set_step(limit);
    let kept = |d: DataSetView| data_set::data_set_fits(d, limit);
    assert forall|d: DataSetView, f: FieldView| kept(d) implies kept(#[trigger] step(d, f)) by {
        if let FieldValueView::Message(body) = f.value {
            if limit > 0 {
                lemma_row_fits(data_set::no_row(), body, (limit - 1) as nat);
            }
        }
    }
    fields::lemma_folded_keeps(d, fields::fields_in(MessageKind::DataSet, bytes), step, kept);
}

proof fn lemma_parameter_fits(p: ParameterView, bytes: Seq<u8>, limit: nat)
    requires
        parameter::parameter_fits(p, limit),
    ensures
        parameter::parameter_fits(parameter::parameter_from(p, bytes, limit), limit),
{
    fields::lemma_folded_keeps(
        p,
        fields::fields_in(MessageKind::Parameter, bytes),
        parameter::parameter_step(limit),
        |p: ParameterView| parameter::parameter_fits(p, limit),
    );
}

proof fn lemma_property_fits(p: PropertyValueView, bytes: Seq<u8>, limit: nat)
    requires
        property::property_fits(p, limit),
    ensures
        property::property_fits(property::property_from(p, bytes, limit), limit),
    decreases limit,
{
    let fs = fields::fields_in(MessageKind::PropertyValue, bytes);
    let step = property::property_step(limit);
    let kept = |p: PropertyValueView| property::property_fits(p, limit);
    assert forall|p: PropertyValueView, f: FieldView| kept(p) implies kept(
        #[trigger] step(p, f),
    ) by {
        if let FieldValueView::Message(body) = f.value {
            if limit > 0 {
                let below = (limit - 1) as nat;
                lemma_set_fits(property::held_set(p), body, below);
                lemma_sets_fits(property::held_sets(p), body, below);
            }
        }
    }
    fields::lemma_folded_keeps(p, fs, step, kept);
    property::lemma_property_folds(p, fs, limit);
}

proof fn lemma_set_fits(s: PropertySetView, bytes: Seq<u8>, limit: nat)
    requires
        property::set_fits(s, limit),
    ensures
        property::set_fits(property::set_from(s, bytes, limit), limit),
    decreases limit,
{
    let fs = fields::fields_in(MessageKind::PropertySet, bytes);
    let step = property::set_step(limit);
    let kept = |s: PropertySetView| property::set_fits(s, limit);
    assert forall|s: PropertySetView, f: FieldView| kept(s) implies kept(#[trigger] step(s, f)) by {
        if let FieldValueView::Message(body) = f.value {
            if limit > 0 {
                lemma_property_fits(property::no_property(), body, (limit - 1) as nat);
            }
        }
    }
    fields::lemma_folded_keeps(s, fs, step, kept);
    property::lemma_set_folds(s, fs, limit);
}

proof fn lemma_sets_fits(l: PropertySetListView, bytes: Seq<u8>, limit: nat)
    requires
        property::sets_fits(l, limit),
    ensures
        property::sets_fits(property::sets_from(l, bytes, limit), limit),
    decreases limit,
{
    let fs = fields::fields_in(MessageKind::PropertySetList, bytes);
    let step = property::sets_step(limit);
    let kept = |l: PropertySetListView| property::sets_fits(l, limit);
    assert forall|l: PropertySetListView, f: FieldView| kept(l) implies kept(
        #[trigger] step(l, f),
    ) by {
        if let FieldValueView::Message(body) = f.value {
            if limit > 0 {
                lemma_set_fits(nested::no_property_set(), body, (limit - 1) as nat);
            }
        }
    }
    fields::lemma_folded_keeps(l, fs, step, kept);
    property::lemma_sets_folds(l, fs, limit);
}

proof fn lemma_metric_fits(m: MetricView, bytes: Seq<u8>, limit: nat)
    requires
        metrics::metric_fits(m, limit),
    ensures
        metrics::metric_fits(metrics::metric_from(m, bytes, limit), limit),
    decreases limit,
{
    let fs = fields::fields_in(MessageKind::Metric, bytes);
    let step = metrics::metric_step(limit);
    let kept = |m: MetricView| metrics::metric_fits(m, limit);
    assert forall|m: MetricView, f: FieldView| kept(m) implies kept(#[trigger] step(m, f)) by {
        if let FieldValueView::Message(body) = f.value {
            if limit > 0 {
                let below = (limit - 1) as nat;
                lemma_set_fits(metrics::held_properties(m), body, below);
                lemma_data_set_fits(metrics::held_data_set(m), body, below);
                lemma_template_fits(metrics::held_template(m), body, below);
            }
        }
    }
    fields::lemma_folded_keeps(m, fs, step, kept);
    metrics::lemma_metric_folds(m, fs, limit);
}

proof fn lemma_template_fits(t: TemplateView, bytes: Seq<u8>, limit: nat)
    requires
        metrics::template_fits(t, limit),
    ensures
        metrics::template_fits(metrics::template_from(t, bytes, limit), limit),
    decreases limit,
{
    let fs = fields::fields_in(MessageKind::Template, bytes);
    let step = metrics::template_step(limit);
    let kept = |t: TemplateView| metrics::template_fits(t, limit);
    assert forall|t: TemplateView, f: FieldView| kept(t) implies kept(#[trigger] step(t, f)) by {
        if let FieldValueView::Message(body) = f.value {
            if limit > 0 {
                let below = (limit - 1) as nat;
                lemma_metric_fits(payload::no_metric(), body, below);
                lemma_parameter_fits(parameter::no_parameter(), body, below);
            }
        }
    }
    fields::lemma_folded_keeps(t, fs, step, kept);
    metrics::lemma_template_folds(t, fs, limit);
}

/// A metric that holds no message nests nothing, so it is valid; metadata is
/// one level, whatever it holds. A payload is valid when its metrics are.
pub proof fn law_what_nests_nothing_is_valid(m: MetricView, p: PayloadView)
    ensures
        m.metadata is None && m.properties is None && !(m.value matches Some(
            payload::metric::ValueView::DatasetValue(_),
        )) && !(m.value matches Some(payload::metric::ValueView::TemplateValue(_)))
            ==> metric_is_valid(m),
        metric_is_valid(m) ==> metric_is_valid(MetricView { metadata: None, ..m }),
        metric_is_valid(MetricView { metadata: None, ..m }) ==> metric_is_valid(m),
        is_valid(p) <==> forall|i: int|
            0 <= i < p.metrics.len() ==> metric_is_valid(#[trigger] p.metrics[i]),
{
}

/// What is valid below one limit is valid below a higher one.
pub proof fn law_a_higher_limit_takes_more(m: MetricView, limit: nat)
    requires
        metrics::metric_fits(m, limit),
        limit < wire::RECURSION_LIMIT,
    ensures
        metric_is_valid(m),
{
    lemma_metric_fits_more(m, limit, (wire::RECURSION_LIMIT - 1) as nat);
}

proof fn lemma_set_fits_more(s: PropertySetView, limit: nat, more: nat)
    requires
        property::set_fits(s, limit),
        limit <= more,
    ensures
        property::set_fits(s, more),
    decreases limit,
{
    assert forall|i: int| 0 <= i < s.values.len() implies property::property_fits(
        #[trigger] s.values[i],
        (more - 1) as nat,
    ) by {
        lemma_property_fits_more(s.values[i], (limit - 1) as nat, (more - 1) as nat);
    }
}

proof fn lemma_property_fits_more(p: PropertyValueView, limit: nat, more: nat)
    requires
        property::property_fits(p, limit),
        limit <= more,
    ensures
        property::property_fits(p, more),
    decreases limit,
{
    match p.value {
        Some(nested::PropertyInnerView::PropertysetValue(s)) => {
            lemma_set_fits_more(s, (limit - 1) as nat, (more - 1) as nat);
        },
        Some(nested::PropertyInnerView::PropertysetsValue(l)) => {
            lemma_sets_fits_more(l, (limit - 1) as nat, (more - 1) as nat);
        },
        _ => {},
    }
}

proof fn lemma_sets_fits_more(l: PropertySetListView, limit: nat, more: nat)
    requires
        property::sets_fits(l, limit),
        limit <= more,
    ensures
        property::sets_fits(l, more),
    decreases limit,
{
    assert forall|i: int| 0 <= i < l.propertyset.len() implies property::set_fits(
        #[trigger] l.propertyset[i],
        (more - 1) as nat,
    ) by {
        lemma_set_fits_more(l.propertyset[i], (limit - 1) as nat, (more - 1) as nat);
    }
}

proof fn lemma_data_set_fits_more(d: DataSetView, limit: nat, more: nat)
    requires
        data_set::data_set_fits(d, limit),
        limit <= more,
    ensures
        data_set::data_set_fits(d, more),
{
    assert forall|i: int| 0 <= i < d.rows.len() implies data_set::row_fits(
        #[trigger] d.rows[i],
        (more - 1) as nat,
    ) by {
        let r = d.rows[i];
        assert(data_set::row_fits(r, (limit - 1) as nat));
        assert forall|j: int| 0 <= j < r.elements.len() implies data_set::cell_fits(
            #[trigger] r.elements[j],
            (more - 2) as nat,
        ) by {
            assert(data_set::cell_fits(r.elements[j], (limit - 2) as nat));
        }
    }
}

proof fn lemma_metric_fits_more(m: MetricView, limit: nat, more: nat)
    requires
        metrics::metric_fits(m, limit),
        limit <= more,
    ensures
        metrics::metric_fits(m, more),
    decreases limit,
{
    if let Some(s) = m.properties {
        lemma_set_fits_more(s, (limit - 1) as nat, (more - 1) as nat);
    }
    match m.value {
        Some(payload::metric::ValueView::DatasetValue(d)) => {
            lemma_data_set_fits_more(d, (limit - 1) as nat, (more - 1) as nat);
        },
        Some(payload::metric::ValueView::TemplateValue(t)) => {
            lemma_template_fits_more(t, (limit - 1) as nat, (more - 1) as nat);
        },
        _ => {},
    }
}

proof fn lemma_template_fits_more(t: TemplateView, limit: nat, more: nat)
    requires
        metrics::template_fits(t, limit),
        limit <= more,
    ensures
        metrics::template_fits(t, more),
    decreases limit,
{
    assert forall|i: int| 0 <= i < t.metrics.len() implies metrics::metric_fits(
        #[trigger] t.metrics[i],
        (more - 1) as nat,
    ) by {
        lemma_metric_fits_more(t.metrics[i], (limit - 1) as nat, (more - 1) as nat);
    }
    assert forall|i: int| 0 <= i < t.parameters.len() implies parameter::parameter_fits(
        #[trigger] t.parameters[i],
        (more - 1) as nat,
    ) by {
        assert(parameter::parameter_fits(t.parameters[i], (limit - 1) as nat));
    }
}

} // verus!
