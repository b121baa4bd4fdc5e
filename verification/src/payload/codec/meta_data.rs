//! The bytes of metadata.

use crate::payload::fields::{self, FieldValue, FieldValueView, FieldView};
use crate::payload::nested::{self, MetaData, MetaDataView};
use crate::schema::{self, MessageKind};
use crate::wire;
use vstd::prelude::*;

verus! {

/// Metadata, with one more field taken up.
pub open spec fn with_meta_data(m: MetaDataView, f: FieldView) -> MetaDataView {
    match (f.number, f.value) {
        (1, FieldValueView::Number(v)) => MetaDataView { is_multi_part: Some(v != 0), ..m },
        (2, FieldValueView::Text(v)) => MetaDataView { content_type: Some(v), ..m },
        (3, FieldValueView::Number(v)) => MetaDataView { size: Some(v), ..m },
        (4, FieldValueView::Number(v)) => MetaDataView { seq: Some(v), ..m },
        (5, FieldValueView::Text(v)) => MetaDataView { file_name: Some(v), ..m },
        (6, FieldValueView::Text(v)) => MetaDataView { file_type: Some(v), ..m },
        (7, FieldValueView::Text(v)) => MetaDataView { md5: Some(v), ..m },
        (8, FieldValueView::Text(v)) => MetaDataView { description: Some(v), ..m },
        _ => m,
    }
}

/// Takes up one field of metadata.
pub open spec fn meta_data_step() -> spec_fn(MetaDataView, FieldView) -> MetaDataView {
    |m: MetaDataView, f: FieldView| with_meta_data(m, f)
}

/// Metadata, with the fields of `bytes` taken up.
pub open spec fn meta_data_from(m: MetaDataView, bytes: Seq<u8>) -> MetaDataView {
    fields::folded(m, fields::fields_in(MessageKind::MetaData, bytes), meta_data_step())
}

/// The fields of metadata, in the order of their numbers.
pub open spec fn meta_data_fields(m: MetaDataView) -> Seq<FieldView> {
    fields::number_in(1, fields::flagged(m.is_multi_part))
        + fields::text_in(2, m.content_type)
        + fields::number_in(3, m.size)
        + fields::number_in(4, m.seq)
        + fields::text_in(5, m.file_name)
        + fields::text_in(6, m.file_type)
        + fields::text_in(7, m.md5)
        + fields::text_in(8, m.description)
}

/// The bytes of metadata.
pub open spec fn meta_data_bytes(m: MetaDataView) -> Seq<u8> {
    fields::fields_bytes(meta_data_fields(m))
}

/// The metadata that bytes spell, if the schema accepts them.
pub open spec fn meta_data_read(bytes: Seq<u8>) -> Option<MetaDataView> {
    if schema::accepts(MessageKind::MetaData, bytes, wire::RECURSION_LIMIT as nat) {
        Some(meta_data_from(nested::no_meta_data(), bytes))
    } else {
        None
    }
}

/// Take up the fields of `bytes`.
pub(crate) fn merge_meta_data(held: MetaData, bytes: &[u8]) -> (m: MetaData)
    ensures
        m@ == meta_data_from(held@, bytes@),
{
    let read = fields::read_fields(MessageKind::MetaData, bytes);
    let ghost fs = fields::field_views(read@);
    let ghost start = held@;
    let mut m = held;
    let mut i: usize = 0;
    while i < read.len()
        invariant
            i <= read.len(),
            fs == fields::field_views(read@),
            m@ == fields::folded(start, fs.take(i as int), meta_data_step()),
        decreases read.len() - i,
    {
        let ghost before = m@;
        match (read[i].number, &read[i].value) {
            (1, FieldValue::Number(v)) => m.is_multi_part = Some(*v != 0),
            (2, FieldValue::Text(v)) => m.content_type = Some(v.clone()),
            (3, FieldValue::Number(v)) => m.size = Some(*v),
            (4, FieldValue::Number(v)) => m.seq = Some(*v),
            (5, FieldValue::Text(v)) => m.file_name = Some(v.clone()),
            (6, FieldValue::Text(v)) => m.file_type = Some(v.clone()),
            (7, FieldValue::Text(v)) => m.md5 = Some(v.clone()),
            (8, FieldValue::Text(v)) => m.description = Some(v.clone()),
            _ => {},
        }
        assert(m@ == with_meta_data(before, fs[i as int]));
        proof {
            fields::lemma_folded_next(start, fs, i as int, meta_data_step());
        }
        i += 1;
    }
    assert(fs.take(i as int) =~= fs);
    m
}

/// Write metadata.
pub(crate) fn encode_meta_data(m: &MetaData) -> (bytes: Vec<u8>)
    ensures
        bytes@ == meta_data_bytes(m@),
{
    let mut writer = fields::Writer::start();
    writer.flag(1, m.is_multi_part);
    writer.held_text(2, &m.content_type);
    writer.number(3, m.size);
    writer.number(4, m.seq);
    writer.held_text(5, &m.file_name);
    writer.held_text(6, &m.file_type);
    writer.held_text(7, &m.md5);
    writer.held_text(8, &m.description);
    assert(Seq::<FieldView>::empty() + fields::number_in(1, fields::flagged(m@.is_multi_part))
        =~= fields::number_in(1, fields::flagged(m@.is_multi_part)));
    writer.finish()
}

impl MetaData {
    /// Read metadata from its bytes.
    ///
    /// # Errors
    ///
    /// Fails when the schema does not accept the bytes.
    pub fn decode(bytes: &[u8]) -> (read: Result<Self, prost::DecodeError>)
        ensures
            match read {
                Ok(read) => meta_data_read(bytes@) == Some(read@),
                Err(error) => {
                    &&& meta_data_read(bytes@) is None
                    &&& wire::error_fault(error) == schema::fault_in(
                        MessageKind::MetaData,
                        bytes@,
                        wire::RECURSION_LIMIT as nat,
                    )
                },
            },
    {
        match schema::check_message(MessageKind::MetaData, bytes, wire::RECURSION_LIMIT) {
            Ok(()) => Ok(merge_meta_data(MetaData::default(), bytes)),
            Err(error) => Err(error),
        }
    }

    /// Write this metadata.
    pub fn encode_to_vec(&self) -> (bytes: Vec<u8>)
        ensures
            bytes@ == meta_data_bytes(self@),
    {
        encode_meta_data(self)
    }
}

/// Metadata reads back as itself at any level, from bytes that hold its
/// fields and nothing else.
pub proof fn lemma_meta_data(m: MetaDataView, limit: nat)
    requires
        meta_data_bytes(m).len() <= u64::MAX,
    ensures
        meta_data_from(nested::no_meta_data(), meta_data_bytes(m)) == m,
        fields::passes(MessageKind::MetaData, meta_data_bytes(m), limit),
        fields::holds_fields_only(MessageKind::MetaData, meta_data_bytes(m), limit),
        schema::accepts(MessageKind::MetaData, meta_data_bytes(m), limit),
{
    reveal(schema::field_type);
    let s = meta_data_step();
    let v0 = nested::no_meta_data();
    let a0 = Seq::<FieldView>::empty();
    let v1 = MetaDataView { is_multi_part: m.is_multi_part, ..v0 };
    let p1 = fields::number_in(1, fields::flagged(m.is_multi_part));
    fields::lemma_part_behind(MessageKind::MetaData, limit, v0, a0, p1, s, v0, v1);
    let a1 = a0 + p1;
    let v2 = MetaDataView { content_type: m.content_type, ..v1 };
    let p2 = fields::text_in(2, m.content_type);
    fields::lemma_part_behind(MessageKind::MetaData, limit, v0, a1, p2, s, v1, v2);
    let a2 = a1 + p2;
    let v3 = MetaDataView { size: m.size, ..v2 };
    let p3 = fields::number_in(3, m.size);
    fields::lemma_part_behind(MessageKind::MetaData, limit, v0, a2, p3, s, v2, v3);
    let a3 = a2 + p3;
    let v4 = MetaDataView { seq: m.seq, ..v3 };
    let p4 = fields::number_in(4, m.seq);
    fields::lemma_part_behind(MessageKind::MetaData, limit, v0, a3, p4, s, v3, v4);
    let a4 = a3 + p4;
    let v5 = MetaDataView { file_name: m.file_name, ..v4 };
    let p5 = fields::text_in(5, m.file_name);
    fields::lemma_part_behind(MessageKind::MetaData, limit, v0, a4, p5, s, v4, v5);
    let a5 = a4 + p5;
    let v6 = MetaDataView { file_type: m.file_type, ..v5 };
    let p6 = fields::text_in(6, m.file_type);
    fields::lemma_part_behind(MessageKind::MetaData, limit, v0, a5, p6, s, v5, v6);
    let a6 = a5 + p6;
    let v7 = MetaDataView { md5: m.md5, ..v6 };
    let p7 = fields::text_in(7, m.md5);
    fields::lemma_part_behind(MessageKind::MetaData, limit, v0, a6, p7, s, v6, v7);
    let a7 = a6 + p7;
    let v8 = MetaDataView { description: m.description, ..v7 };
    let p8 = fields::text_in(8, m.description);
    fields::lemma_part_behind(MessageKind::MetaData, limit, v0, a7, p8, s, v7, v8);
    let a8 = a7 + p8;
    assert(a1 =~= p1);
    fields::lemma_sound_message(MessageKind::MetaData, meta_data_fields(m), limit);
}

/// Reading metadata gives back what was written, and what is written holds
/// its fields and nothing else.
pub proof fn law_meta_data_reads_back(m: MetaDataView)
    requires
        meta_data_bytes(m).len() <= u64::MAX,
    ensures
        meta_data_read(meta_data_bytes(m)) == Some(m),
        fields::holds_fields_only(
            MessageKind::MetaData,
            meta_data_bytes(m),
            wire::RECURSION_LIMIT as nat,
        ),
{
    lemma_meta_data(m, wire::RECURSION_LIMIT as nat);
}

} // verus!
