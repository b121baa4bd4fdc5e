//! The fields that a message of the schema holds, one by one, and their
//! bytes.

use crate::schema::{self, FieldType, MessageKind};
use crate::text;
use crate::wire;
use vstd::prelude::*;

verus! {

/// The value of one field.
#[derive(Debug)]
pub enum FieldValue {
    /// A number or a flag.
    Number(u64),
    /// Numbers that came packed behind one length.
    Numbers(Vec<u64>),
    /// Four bytes.
    Single(u32),
    /// Eight bytes.
    Double(u64),
    Text(String),
    Bytes(Vec<u8>),
    /// A nested message, in its encoded form.
    Message(Vec<u8>),
}

/// What a [`FieldValue`] holds.
pub enum FieldValueView {
    Number(u64),
    Numbers(Seq<u64>),
    Single(u32),
    Double(u64),
    Text(Seq<char>),
    Bytes(Seq<u8>),
    Message(Seq<u8>),
}

impl View for FieldValue {
    type V = FieldValueView;

    open spec fn view(&self) -> FieldValueView {
        match self {
            FieldValue::Number(v) => FieldValueView::Number(*v),
            FieldValue::Numbers(v) => FieldValueView::Numbers(v@),
            FieldValue::Single(v) => FieldValueView::Single(*v),
            FieldValue::Double(v) => FieldValueView::Double(*v),
            FieldValue::Text(v) => FieldValueView::Text(v@),
            FieldValue::Bytes(v) => FieldValueView::Bytes(v@),
            FieldValue::Message(v) => FieldValueView::Message(v@),
        }
    }
}

/// One field of a message.
#[derive(Debug)]
pub struct Field {
    pub number: u32,
    pub value: FieldValue,
}

/// What a [`Field`] holds.
pub struct FieldView {
    pub number: u32,
    pub value: FieldValueView,
}

impl View for Field {
    type V = FieldView;

    open spec fn view(&self) -> FieldView {
        FieldView { number: self.number, value: self.value@ }
    }
}

/// The views of a list of fields.
pub open spec fn field_views(fields: Seq<Field>) -> Seq<FieldView> {
    fields.map_values(|field: Field| field@)
}

// ---------------------------------------------------------------------------
// Reading the fields of a message
// ---------------------------------------------------------------------------

/// The numbers in `taken`, and the varints that `bytes` hold behind them.
pub open spec fn packed_numbers(taken: Seq<u64>, bytes: Seq<u8>) -> Seq<u64>
    decreases bytes.len(),
{
    match wire::read_varint(bytes) {
        Some((value, rest)) => if rest.len() < bytes.len() {
            packed_numbers(taken.push(value), rest)
        } else {
            taken
        },
        None => taken,
    }
}

/// A read, with what it gave as the value of a field.
pub open spec fn valued<T>(
    read: Option<(T, Seq<u8>)>,
    value: spec_fn(T) -> FieldValueView,
) -> Option<(Option<FieldValueView>, Seq<u8>)> {
    match read {
        Some((v, rest)) => Some((Some(value(v)), rest)),
        None => None,
    }
}

/// Read the value of field `number`: the value, unless the message has no
/// such field, and what follows.
pub open spec fn read_value(kind: MessageKind, number: u32, wire: u8, bytes: Seq<u8>) -> Option<
    (Option<FieldValueView>, Seq<u8>),
> {
    match schema::field_type(kind, number) {
        FieldType::Varint => valued(
            wire::read_varint_value(wire, bytes),
            |v: u64| FieldValueView::Number(v),
        ),
        FieldType::RepeatedVarint => if wire == wire::LENGTH_DELIMITED {
            valued(
                wire::read_delimited(bytes),
                |v: Seq<u8>| FieldValueView::Numbers(packed_numbers(seq![], v)),
            )
        } else {
            valued(wire::read_varint_value(wire, bytes), |v: u64| FieldValueView::Number(v))
        },
        FieldType::Fixed32 => valued(
            wire::read_fixed32_value(wire, bytes),
            |v: u32| FieldValueView::Single(v),
        ),
        FieldType::Fixed64 => valued(
            wire::read_fixed64_value(wire, bytes),
            |v: u64| FieldValueView::Double(v),
        ),
        FieldType::Text => valued(
            wire::read_string_value(wire, bytes),
            |v: Seq<char>| FieldValueView::Text(v),
        ),
        FieldType::Bytes => valued(
            wire::read_bytes_value(wire, bytes),
            |v: Seq<u8>| FieldValueView::Bytes(v),
        ),
        FieldType::Nested(_) => valued(
            wire::read_bytes_value(wire, bytes),
            |v: Seq<u8>| FieldValueView::Message(v),
        ),
        FieldType::Unknown => match wire::skip_field(
            number,
            wire,
            bytes,
            wire::RECURSION_LIMIT as nat,
        ) {
            Some(rest) => Some((None, rest)),
            None => None,
        },
    }
}

/// Fields, with one more if it has a value.
pub open spec fn with_value(
    taken: Seq<FieldView>,
    number: u32,
    value: Option<FieldValueView>,
) -> Seq<FieldView> {
    match value {
        Some(value) => taken.push(FieldView { number, value }),
        None => taken,
    }
}

/// The fields in `taken`, and those that `bytes` hold behind them.
pub open spec fn fields_behind(kind: MessageKind, taken: Seq<FieldView>, bytes: Seq<u8>) -> Seq<
    FieldView,
>
    decreases bytes.len(),
{
    match wire::read_key(bytes) {
        Some((number, wire, rest)) => match read_value(kind, number, wire, rest) {
            Some((value, after)) => if after.len() < bytes.len() {
                fields_behind(kind, with_value(taken, number, value), after)
            } else {
                taken
            },
            None => taken,
        },
        None => taken,
    }
}

/// The fields that the bytes of a message hold, in order, without those the
/// message does not have.
///
/// They end where a field cannot be read. In bytes that the schema accepts
/// this is their end: see [`law_accepted_bytes_are_read_through`].
pub open spec fn fields_in(kind: MessageKind, bytes: Seq<u8>) -> Seq<FieldView> {
    fields_behind(kind, seq![], bytes)
}

/// Read the varints that `bytes` hold.
fn take_packed(bytes: &[u8]) -> (numbers: Vec<u64>)
    ensures
        numbers@ == packed_numbers(seq![], bytes@),
{
    let mut numbers: Vec<u64> = Vec::new();
    let mut left = bytes;
    assert(numbers@ =~= seq![]);
    loop
        invariant
            packed_numbers(numbers@, left@) == packed_numbers(seq![], bytes@),
        decreases left@.len(),
    {
        proof {
            wire::lemma_read_varint_shrinks(left@);
        }
        match wire::take_varint(wire::VARINT, left) {
            Ok((value, rest)) => {
                numbers.push(value);
                left = rest;
            },
            Err(_) => return numbers,
        }
    }
}

/// Read the value of field `number`, and leave what follows.
fn take_value(kind: MessageKind, number: u32, wire: u8, bytes: &[u8]) -> (read: Option<
    (Option<FieldValue>, &[u8]),
>)
    requires
        wire <= 5,
    ensures
        match read {
            Some((value, rest)) => read_value(kind, number, wire, bytes@) == Some(
                (crate::payload::view_of(value), rest@),
            ),
            None => read_value(kind, number, wire, bytes@) is None,
        },
{
    match schema::field_type_of(kind, number) {
        FieldType::Varint => match wire::take_varint(wire, bytes) {
            Ok((v, rest)) => Some((Some(FieldValue::Number(v)), rest)),
            Err(_) => None,
        },
        FieldType::RepeatedVarint => if wire == wire::LENGTH_DELIMITED {
            match wire::take_bytes(wire, bytes) {
                Ok((v, rest)) => Some((Some(FieldValue::Numbers(take_packed(v.as_slice()))), rest)),
                Err(_) => None,
            }
        } else {
            match wire::take_varint(wire, bytes) {
                Ok((v, rest)) => Some((Some(FieldValue::Number(v)), rest)),
                Err(_) => None,
            }
        },
        FieldType::Fixed32 => match wire::take_fixed32(wire, bytes) {
            Ok((v, rest)) => Some((Some(FieldValue::Single(v)), rest)),
            Err(_) => None,
        },
        FieldType::Fixed64 => match wire::take_fixed64(wire, bytes) {
            Ok((v, rest)) => Some((Some(FieldValue::Double(v)), rest)),
            Err(_) => None,
        },
        FieldType::Text => match wire::take_string(wire, bytes) {
            Ok((v, rest)) => Some((Some(FieldValue::Text(v)), rest)),
            Err(_) => None,
        },
        FieldType::Bytes => match wire::take_bytes(wire, bytes) {
            Ok((v, rest)) => Some((Some(FieldValue::Bytes(v)), rest)),
            Err(_) => None,
        },
        FieldType::Nested(_) => match wire::take_bytes(wire, bytes) {
            Ok((v, rest)) => Some((Some(FieldValue::Message(v)), rest)),
            Err(_) => None,
        },
        FieldType::Unknown => match wire::drop_field(number, wire, bytes, wire::RECURSION_LIMIT) {
            Ok(rest) => Some((None, rest)),
            Err(_) => None,
        },
    }
}

/// Reading a value leaves no more bytes than there were.
proof fn lemma_read_value_shrinks(kind: MessageKind, number: u32, wire: u8, bytes: Seq<u8>)
    ensures
        read_value(kind, number, wire, bytes) matches Some((_, rest)) ==> rest.len()
            <= bytes.len(),
{
    wire::lemma_read_varint_shrinks(bytes);
    wire::lemma_skip_shrinks(number, wire, bytes, wire::RECURSION_LIMIT as nat);
}

/// Read the fields that the bytes of a message hold.
pub(crate) fn read_fields(kind: MessageKind, bytes: &[u8]) -> (fields: Vec<Field>)
    ensures
        field_views(fields@) == fields_in(kind, bytes@),
{
    let mut fields: Vec<Field> = Vec::new();
    let mut left = bytes;
    assert(field_views(fields@) =~= seq![]);
    loop
        invariant
            fields_behind(kind, field_views(fields@), left@) == fields_in(kind, bytes@),
        decreases left@.len(),
    {
        proof {
            wire::lemma_read_key_shrinks(left@);
        }
        let (number, wire, rest) = match wire::take_key(left) {
            Ok(read) => read,
            Err(_) => return fields,
        };
        proof {
            lemma_read_value_shrinks(kind, number, wire, rest@);
        }
        let (value, after) = match take_value(kind, number, wire, rest) {
            Some(read) => read,
            None => return fields,
        };
        let ghost before = fields@;
        if let Some(value) = value {
            fields.push(Field { number, value });
            assert(field_views(fields@) =~= field_views(before).push(fields@.last()@));
        }
        left = after;
    }
}

// ---------------------------------------------------------------------------
// Writing fields
// ---------------------------------------------------------------------------

/// Varints, one after the other.
pub open spec fn varints(numbers: Seq<u64>) -> Seq<u8>
    decreases numbers.len(),
{
    if numbers.len() == 0 {
        seq![]
    } else {
        varints(numbers.drop_last()) + wire::varint(numbers.last() as nat)
    }
}

/// The bytes of one field.
pub open spec fn field_bytes(f: FieldView) -> Seq<u8> {
    match f.value {
        FieldValueView::Number(v) => wire::varint_field(f.number, v),
        FieldValueView::Numbers(v) => wire::bytes_field(f.number, varints(v)),
        FieldValueView::Single(v) => wire::fixed32_field(f.number, v),
        FieldValueView::Double(v) => wire::fixed64_field(f.number, v),
        FieldValueView::Text(v) => wire::string_field(f.number, v),
        FieldValueView::Bytes(v) => wire::bytes_field(f.number, v),
        FieldValueView::Message(v) => wire::bytes_field(f.number, v),
    }
}

/// The bytes of a run of fields.
pub open spec fn fields_bytes(fs: Seq<FieldView>) -> Seq<u8>
    decreases fs.len(),
{
    if fs.len() == 0 {
        seq![]
    } else {
        fields_bytes(fs.drop_last()) + field_bytes(fs.last())
    }
}

/// A field that holds a number, or nothing.
pub open spec fn number_in(number: u32, held: Option<u64>) -> Seq<FieldView> {
    match held {
        Some(v) => seq![FieldView { number, value: FieldValueView::Number(v) }],
        None => seq![],
    }
}

/// A 32-bit number where a 64-bit one is written.
pub open spec fn widened(held: Option<u32>) -> Option<u64> {
    match held {
        Some(v) => Some(v as u64),
        None => None,
    }
}

/// A flag as a number.
pub open spec fn flag_number(flag: bool) -> u64 {
    if flag {
        1
    } else {
        0
    }
}

/// A flag as a number, where there is one.
pub open spec fn flagged(held: Option<bool>) -> Option<u64> {
    match held {
        Some(v) => Some(flag_number(v)),
        None => None,
    }
}

/// A field that holds text, or nothing.
pub open spec fn text_in(number: u32, held: Option<Seq<char>>) -> Seq<FieldView> {
    match held {
        Some(v) => seq![FieldView { number, value: FieldValueView::Text(v) }],
        None => seq![],
    }
}

/// A field that holds raw bytes, or nothing.
pub open spec fn bytes_in(number: u32, held: Option<Seq<u8>>) -> Seq<FieldView> {
    match held {
        Some(v) => seq![FieldView { number, value: FieldValueView::Bytes(v) }],
        None => seq![],
    }
}

/// A field that holds a nested message, or nothing.
pub open spec fn message_in(number: u32, held: Option<Seq<u8>>) -> Seq<FieldView> {
    match held {
        Some(v) => seq![FieldView { number, value: FieldValueView::Message(v) }],
        None => seq![],
    }
}

/// Fields that hold a text each.
pub open spec fn texts_in(number: u32, texts: Seq<Seq<char>>) -> Seq<FieldView> {
    texts.map_values(|v: Seq<char>| FieldView { number, value: FieldValueView::Text(v) })
}

/// Fields that hold a number each.
pub open spec fn numbers_in(number: u32, numbers: Seq<u32>) -> Seq<FieldView> {
    numbers.map_values(|v: u32| FieldView { number, value: FieldValueView::Number(v as u64) })
}

/// Fields that hold a nested message each.
pub open spec fn messages_in(number: u32, bodies: Seq<Seq<u8>>) -> Seq<FieldView> {
    bodies.map_values(|v: Seq<u8>| FieldView { number, value: FieldValueView::Message(v) })
}

/// The bytes of a message that is being written.
pub(crate) struct Writer {
    out: Vec<u8>,
    fields: Ghost<Seq<FieldView>>,
}

impl Writer {
    /// The fields that were written so far.
    pub closed spec fn written(self) -> Seq<FieldView> {
        self.fields@
    }

    /// The bytes are those of the fields.
    pub closed spec fn is_exact(self) -> bool {
        self.out@ == fields_bytes(self.fields@)
    }

    /// Start with no field.
    pub(crate) fn start() -> (writer: Self)
        ensures
            writer.is_exact(),
            writer.written() == Seq::<FieldView>::empty(),
    {
        let writer = Writer { out: Vec::new(), fields: Ghost(Seq::empty()) };
        assert(writer.out@ =~= fields_bytes(writer.fields@));
        writer
    }

    /// The bytes.
    pub(crate) fn finish(self) -> (bytes: Vec<u8>)
        requires
            self.is_exact(),
        ensures
            bytes@ == fields_bytes(self.written()),
    {
        self.out
    }

    /// Write a number, if there is one.
    pub(crate) fn number(&mut self, number: u32, held: Option<u64>)
        requires
            1 <= number < 0x2000_0000,
            old(self).is_exact(),
        ensures
            final(self).is_exact(),
            final(self).written() == old(self).written() + number_in(number, held),
    {
        if let Some(v) = held {
            let ghost f = FieldView { number, value: FieldValueView::Number(v) };
            wire::put_varint(number, v, &mut self.out);
            proof {
                lemma_one_more(self.fields@, f);
            }
            self.fields = Ghost(self.fields@.push(f));
        }
        assert(self.fields@ =~= old(self).fields@ + number_in(number, held));
    }

    /// Write a 32-bit number, if there is one.
    pub(crate) fn small(&mut self, number: u32, held: Option<u32>)
        requires
            1 <= number < 0x2000_0000,
            old(self).is_exact(),
        ensures
            final(self).is_exact(),
            final(self).written() == old(self).written() + number_in(number, widened(held)),
    {
        let wide = match held {
            Some(v) => Some(v as u64),
            None => None,
        };
        self.number(number, wide)
    }

    /// Write a flag, if there is one.
    pub(crate) fn flag(&mut self, number: u32, held: Option<bool>)
        requires
            1 <= number < 0x2000_0000,
            old(self).is_exact(),
        ensures
            final(self).is_exact(),
            final(self).written() == old(self).written() + number_in(number, flagged(held)),
    {
        let wide = match held {
            Some(true) => Some(1),
            Some(false) => Some(0),
            None => None,
        };
        self.number(number, wide)
    }

    /// Write a four-byte number.
    pub(crate) fn single(&mut self, number: u32, v: u32)
        requires
            1 <= number < 0x2000_0000,
            old(self).is_exact(),
        ensures
            final(self).is_exact(),
            final(self).written() == old(self).written() + seq![
                FieldView { number, value: FieldValueView::Single(v) },
            ],
    {
        let ghost f = FieldView { number, value: FieldValueView::Single(v) };
        wire::put_fixed32(number, v, &mut self.out);
        proof {
            lemma_one_more(self.fields@, f);
        }
        self.fields = Ghost(self.fields@.push(f));
        assert(self.fields@ =~= old(self).fields@ + seq![f]);
    }

    /// Write an eight-byte number.
    pub(crate) fn double(&mut self, number: u32, v: u64)
        requires
            1 <= number < 0x2000_0000,
            old(self).is_exact(),
        ensures
            final(self).is_exact(),
            final(self).written() == old(self).written() + seq![
                FieldView { number, value: FieldValueView::Double(v) },
            ],
    {
        let ghost f = FieldView { number, value: FieldValueView::Double(v) };
        wire::put_fixed64(number, v, &mut self.out);
        proof {
            lemma_one_more(self.fields@, f);
        }
        self.fields = Ghost(self.fields@.push(f));
        assert(self.fields@ =~= old(self).fields@ + seq![f]);
    }

    /// Write text.
    pub(crate) fn text(&mut self, number: u32, v: &String)
        requires
            1 <= number < 0x2000_0000,
            old(self).is_exact(),
        ensures
            final(self).is_exact(),
            final(self).written() == old(self).written() + text_in(number, Some(v@)),
    {
        let ghost f = FieldView { number, value: FieldValueView::Text(v@) };
        wire::put_string(number, v, &mut self.out);
        proof {
            lemma_one_more(self.fields@, f);
        }
        self.fields = Ghost(self.fields@.push(f));
        assert(self.fields@ =~= old(self).fields@ + seq![f]);
    }

    /// Write text, if there is any.
    pub(crate) fn held_text(&mut self, number: u32, held: &Option<String>)
        requires
            1 <= number < 0x2000_0000,
            old(self).is_exact(),
        ensures
            final(self).is_exact(),
            final(self).written() == old(self).written() + text_in(
                number,
                crate::payload::view_of(*held),
            ),
    {
        if let Some(v) = held {
            self.text(number, v);
        } else {
            assert(self.fields@ =~= old(self).fields@ + seq![]);
        }
    }

    /// Write raw bytes.
    pub(crate) fn raw(&mut self, number: u32, v: &Vec<u8>)
        requires
            1 <= number < 0x2000_0000,
            old(self).is_exact(),
        ensures
            final(self).is_exact(),
            final(self).written() == old(self).written() + bytes_in(number, Some(v@)),
    {
        let ghost f = FieldView { number, value: FieldValueView::Bytes(v@) };
        wire::put_bytes(number, v, &mut self.out);
        proof {
            lemma_one_more(self.fields@, f);
        }
        self.fields = Ghost(self.fields@.push(f));
        assert(self.fields@ =~= old(self).fields@ + seq![f]);
    }

    /// Write a nested message.
    pub(crate) fn message(&mut self, number: u32, body: &Vec<u8>)
        requires
            1 <= number < 0x2000_0000,
            old(self).is_exact(),
        ensures
            final(self).is_exact(),
            final(self).written() == old(self).written() + message_in(number, Some(body@)),
    {
        let ghost f = FieldView { number, value: FieldValueView::Message(body@) };
        wire::put_bytes(number, body, &mut self.out);
        proof {
            lemma_one_more(self.fields@, f);
        }
        self.fields = Ghost(self.fields@.push(f));
        assert(self.fields@ =~= old(self).fields@ + seq![f]);
    }

    /// Write texts, one to a field.
    pub(crate) fn texts(&mut self, number: u32, texts: &Vec<String>)
        requires
            1 <= number < 0x2000_0000,
            old(self).is_exact(),
        ensures
            final(self).is_exact(),
            final(self).written() == old(self).written() + texts_in(
                number,
                text::text_views(texts@),
            ),
    {
        let ghost all = texts_in(number, text::text_views(texts@));
        let ghost before = self.fields@;
        let mut i: usize = 0;
        assert(self.fields@ =~= before + all.take(0));
        while i < texts.len()
            invariant
                1 <= number < 0x2000_0000,
                i <= texts.len(),
                all == texts_in(number, text::text_views(texts@)),
                self.is_exact(),
                self.fields@ == before + all.take(i as int),
            decreases texts.len() - i,
        {
            self.text(number, &texts[i]);
            assert(self.fields@ =~= before + all.take(i + 1));
            i += 1;
        }
        assert(all.take(i as int) =~= all);
    }

    /// Write numbers, one to a field.
    pub(crate) fn numbers(&mut self, number: u32, numbers: &Vec<u32>)
        requires
            1 <= number < 0x2000_0000,
            old(self).is_exact(),
        ensures
            final(self).is_exact(),
            final(self).written() == old(self).written() + numbers_in(number, numbers@),
    {
        let ghost all = numbers_in(number, numbers@);
        let ghost before = self.fields@;
        let mut i: usize = 0;
        assert(self.fields@ =~= before + all.take(0));
        while i < numbers.len()
            invariant
                1 <= number < 0x2000_0000,
                i <= numbers.len(),
                all == numbers_in(number, numbers@),
                self.is_exact(),
                self.fields@ == before + all.take(i as int),
            decreases numbers.len() - i,
        {
            self.number(number, Some(numbers[i] as u64));
            assert(self.fields@ =~= before + all.take(i + 1));
            i += 1;
        }
        assert(all.take(i as int) =~= all);
    }
}

/// The bytes of a run of fields and one more.
proof fn lemma_one_more(fs: Seq<FieldView>, f: FieldView)
    ensures
        fields_bytes(fs.push(f)) == fields_bytes(fs) + field_bytes(f),
{
    assert(fs.push(f).drop_last() =~= fs);
}

// ---------------------------------------------------------------------------
// What is written is read back
// ---------------------------------------------------------------------------

/// Whatever follows, the fields of `body` are read and end with it.
pub open spec fn passes(kind: MessageKind, body: Seq<u8>, limit: nat) -> bool {
    forall|more: Seq<u8>|
        #![trigger body + more]
        schema::pass_message(kind, body + more, more.len(), limit) == Ok::<Seq<u8>, wire::Fault>(
            more,
        )
}

/// Whether bytes hold the fields of a message and nothing else, in its
/// nested messages too: no field that the message does not have, and none
/// written otherwise than [`field_bytes`] writes it.
pub open spec fn holds_fields_only(kind: MessageKind, bytes: Seq<u8>, limit: nat) -> bool
    decreases limit,
{
    let fs = fields_in(kind, bytes);
    &&& fields_bytes(fs) == bytes
    &&& forall|i: int|
        0 <= i < fs.len() ==> match (
            (#[trigger] fs[i]).value,
            schema::field_type(kind, fs[i].number),
        ) {
            (FieldValueView::Message(body), FieldType::Nested(inner)) => limit > 0
                && holds_fields_only(inner, body, (limit - 1) as nat),
            _ => true,
        }
}

/// Whether the message has the field, and the field holds what its type
/// says: a nested message one that stands up to being read.
pub open spec fn is_sound(kind: MessageKind, f: FieldView, limit: nat) -> bool {
    match f.value {
        FieldValueView::Number(_) => schema::field_type(kind, f.number) == FieldType::Varint
            || schema::field_type(kind, f.number) == FieldType::RepeatedVarint,
        FieldValueView::Numbers(_) => false,
        FieldValueView::Single(_) => schema::field_type(kind, f.number) == FieldType::Fixed32,
        FieldValueView::Double(_) => schema::field_type(kind, f.number) == FieldType::Fixed64,
        FieldValueView::Text(_) => schema::field_type(kind, f.number) == FieldType::Text,
        FieldValueView::Bytes(_) => schema::field_type(kind, f.number) == FieldType::Bytes,
        FieldValueView::Message(body) => {
            &&& limit > 0
            &&& schema::field_type(kind, f.number) matches FieldType::Nested(inner)
            &&& passes(inner, body, (limit - 1) as nat)
            &&& holds_fields_only(inner, body, (limit - 1) as nat)
        },
    }
}

/// Whether every field of a run is sound.
pub open spec fn all_sound(kind: MessageKind, fs: Seq<FieldView>, limit: nat) -> bool {
    forall|i: int| 0 <= i < fs.len() ==> is_sound(kind, #[trigger] fs[i], limit)
}

/// The wire type of a field.
pub open spec fn wire_of(value: FieldValueView) -> u8 {
    match value {
        FieldValueView::Number(_) => wire::VARINT,
        FieldValueView::Single(_) => wire::THIRTY_TWO_BIT,
        FieldValueView::Double(_) => wire::SIXTY_FOUR_BIT,
        _ => wire::LENGTH_DELIMITED,
    }
}

/// The bytes of a field behind its key.
pub open spec fn value_bytes(value: FieldValueView) -> Seq<u8> {
    match value {
        FieldValueView::Number(v) => wire::varint(v as nat),
        FieldValueView::Numbers(v) => wire::delimited(varints(v)),
        FieldValueView::Single(v) => wire::little_endian(v as nat, 4),
        FieldValueView::Double(v) => wire::little_endian(v as nat, 8),
        FieldValueView::Text(v) => wire::delimited(vstd::utf8::encode_utf8(v)),
        FieldValueView::Bytes(v) => wire::delimited(v),
        FieldValueView::Message(v) => wire::delimited(v),
    }
}

/// The field table numbers no field 0, nor one past 28 bits.
proof fn lemma_known_number(kind: MessageKind, number: u32)
    requires
        schema::field_type(kind, number) != FieldType::Unknown,
    ensures
        1 <= number < 0x2000_0000,
{
    reveal(schema::field_type);
}

/// The key of a sound field, with what is behind it.
proof fn lemma_field_key(kind: MessageKind, f: FieldView, more: Seq<u8>, limit: nat)
    requires
        is_sound(kind, f, limit),
    ensures
        wire::read_key(field_bytes(f) + more) == Some(
            (f.number, wire_of(f.value), value_bytes(f.value) + more),
        ),
        value_bytes(f.value).len() <= field_bytes(f).len(),
        field_bytes(f).len() > 0,
{
    lemma_known_number(kind, f.number);
    let key = wire::key(f.number, wire_of(f.value));
    let tail = value_bytes(f.value);
    assert(field_bytes(f) == key + tail);
    assert(field_bytes(f) + more =~= key + (tail + more));
    wire::lemma_key_round_trip(f.number, wire_of(f.value), tail + more);
}

/// The value of a sound field reads back as itself.
proof fn lemma_value_read(kind: MessageKind, f: FieldView, more: Seq<u8>, limit: nat)
    requires
        is_sound(kind, f, limit),
        value_bytes(f.value).len() <= u64::MAX,
    ensures
        read_value(kind, f.number, wire_of(f.value), value_bytes(f.value) + more) == Some(
            (Some(f.value), more),
        ),
{
    match f.value {
        FieldValueView::Number(v) => wire::lemma_varint_round_trip(v, more),
        FieldValueView::Numbers(_) => {},
        FieldValueView::Single(v) => wire::lemma_fixed32_round_trip(v, more),
        FieldValueView::Double(v) => wire::lemma_fixed64_round_trip(v, more),
        FieldValueView::Text(v) => wire::lemma_string_round_trip(v, more),
        FieldValueView::Bytes(v) => wire::lemma_delimited_round_trip(v, more),
        FieldValueView::Message(v) => wire::lemma_delimited_round_trip(v, more),
    }
}

/// The value of a sound field is read past.
proof fn lemma_value_passes(kind: MessageKind, f: FieldView, more: Seq<u8>, limit: nat)
    requires
        is_sound(kind, f, limit),
        value_bytes(f.value).len() <= u64::MAX,
    ensures
        schema::pass_field(
            kind,
            f.number,
            wire_of(f.value),
            value_bytes(f.value) + more,
            limit,
        ) == Ok::<Seq<u8>, wire::Fault>(more),
{
    lemma_value_read(kind, f, more, limit);
    if let FieldValueView::Message(v) = f.value {
        let bytes = value_bytes(f.value) + more;
        assert(bytes =~= wire::varint(v.len()) + (v + more));
        wire::lemma_varint_round_trip(v.len() as u64, v + more);
        assert(schema::enter(bytes) == Ok::<(Seq<u8>, nat), wire::Fault>((v + more, more.len())));
    }
}

/// A sound field is read back as itself.
proof fn lemma_field_read(
    kind: MessageKind,
    taken: Seq<FieldView>,
    f: FieldView,
    more: Seq<u8>,
    limit: nat,
)
    requires
        is_sound(kind, f, limit),
        field_bytes(f).len() <= u64::MAX,
    ensures
        fields_behind(kind, taken, field_bytes(f) + more) == fields_behind(
            kind,
            taken.push(f),
            more,
        ),
{
    lemma_field_key(kind, f, more, limit);
    lemma_value_read(kind, f, more, limit);
}

/// A sound field is read past.
proof fn lemma_field_passes(
    kind: MessageKind,
    f: FieldView,
    more: Seq<u8>,
    stop: nat,
    limit: nat,
)
    requires
        is_sound(kind, f, limit),
        field_bytes(f).len() <= u64::MAX,
        stop <= more.len(),
    ensures
        schema::pass_message(kind, field_bytes(f) + more, stop, limit) == schema::pass_message(
            kind,
            more,
            stop,
            limit,
        ),
{
    lemma_field_key(kind, f, more, limit);
    lemma_value_passes(kind, f, more, limit);
    wire::lemma_read_key_shrinks(field_bytes(f) + more);
}

/// A run of sound fields is read back field for field, and read past.
proof fn lemma_run_read(
    kind: MessageKind,
    taken: Seq<FieldView>,
    fs: Seq<FieldView>,
    more: Seq<u8>,
    stop: nat,
    limit: nat,
)
    requires
        all_sound(kind, fs, limit),
        fields_bytes(fs).len() <= u64::MAX,
        stop <= more.len(),
    ensures
        fields_behind(kind, taken, fields_bytes(fs) + more) == fields_behind(
            kind,
            taken + fs,
            more,
        ),
        schema::pass_message(kind, fields_bytes(fs) + more, stop, limit) == schema::pass_message(
            kind,
            more,
            stop,
            limit,
        ),
    decreases fs.len(),
{
    if fs.len() == 0 {
        assert(fields_bytes(fs) + more =~= more);
        assert(taken + fs =~= taken);
    } else {
        let last = field_bytes(fs.last());
        assert(fields_bytes(fs) + more =~= fields_bytes(fs.drop_last()) + (last + more));
        lemma_run_read(kind, taken, fs.drop_last(), last + more, stop, limit);
        lemma_field_read(kind, taken + fs.drop_last(), fs.last(), more, limit);
        lemma_field_passes(kind, fs.last(), more, stop, limit);
        assert((taken + fs.drop_last()).push(fs.last()) =~= taken + fs);
    }
}

/// A message made of sound fields is read back field for field, is accepted
/// wherever it stands, and holds nothing else.
pub proof fn lemma_sound_message(kind: MessageKind, fs: Seq<FieldView>, limit: nat)
    requires
        all_sound(kind, fs, limit),
        fields_bytes(fs).len() <= u64::MAX,
    ensures
        fields_in(kind, fields_bytes(fs)) == fs,
        passes(kind, fields_bytes(fs), limit),
        holds_fields_only(kind, fields_bytes(fs), limit),
        schema::accepts(kind, fields_bytes(fs), limit),
{
    let bytes = fields_bytes(fs);
    let empty = Seq::<u8>::empty();
    assert(bytes + empty =~= bytes);
    lemma_run_read(kind, seq![], fs, empty, 0, limit);
    assert(Seq::<FieldView>::empty() + fs =~= fs);
    assert(fields_behind(kind, fs, empty) == fs);
    assert forall|more: Seq<u8>|
        #![trigger bytes + more]
        schema::pass_message(kind, bytes + more, more.len(), limit) == Ok::<Seq<u8>, wire::Fault>(
            more,
        ) by {
        lemma_run_read(kind, seq![], fs, more, more.len(), limit);
    }
    assert forall|i: int| 0 <= i < fs.len() implies match (
        (#[trigger] fs[i]).value,
        schema::field_type(kind, fs[i].number),
    ) {
        (FieldValueView::Message(body), FieldType::Nested(inner)) => limit > 0
            && holds_fields_only(inner, body, (limit - 1) as nat),
        _ => true,
    } by {
        assert(is_sound(kind, fs[i], limit));
    }
}

/// A message that declares no field.
pub proof fn lemma_empty_message(kind: MessageKind, limit: nat)
    ensures
        passes(kind, Seq::empty(), limit),
        holds_fields_only(kind, Seq::empty(), limit),
{
    lemma_sound_message(kind, Seq::empty(), limit);
    assert(fields_bytes(Seq::empty()) =~= Seq::empty());
}

/// A nested message is no longer than the message it stands in.
pub proof fn lemma_message_at(fs: Seq<FieldView>, i: int)
    requires
        0 <= i < fs.len(),
    ensures
        fs[i].value matches FieldValueView::Message(body) ==> body.len() <= fields_bytes(fs).len(),
    decreases fs.len(),
{
    if i < fs.len() - 1 {
        lemma_message_at(fs.drop_last(), i);
    }
}

// ---------------------------------------------------------------------------
// Taking fields up, one by one
// ---------------------------------------------------------------------------

/// What is held after each field of a run was taken up in turn.
pub open spec fn folded<T>(
    held: T,
    fs: Seq<FieldView>,
    step: spec_fn(T, FieldView) -> T,
) -> T
    decreases fs.len(),
{
    if fs.len() == 0 {
        held
    } else {
        step(folded(held, fs.drop_last(), step), fs.last())
    }
}

/// One more field of a run is taken up.
pub proof fn lemma_folded_next<T>(
    held: T,
    fs: Seq<FieldView>,
    i: int,
    step: spec_fn(T, FieldView) -> T,
)
    requires
        0 <= i < fs.len(),
    ensures
        folded(held, fs.take(i + 1), step) == step(folded(held, fs.take(i), step), fs[i]),
{
    assert(fs.take(i + 1).drop_last() =~= fs.take(i));
}

/// What holds at the start, and is kept by each field, holds at the end.
pub proof fn lemma_folded_keeps<T>(
    held: T,
    fs: Seq<FieldView>,
    step: spec_fn(T, FieldView) -> T,
    kept: spec_fn(T) -> bool,
)
    requires
        kept(held),
        forall|t: T, f: FieldView| kept(t) ==> kept(#[trigger] step(t, f)),
    ensures
        kept(folded(held, fs, step)),
    decreases fs.len(),
{
    if fs.len() > 0 {
        lemma_folded_keeps(held, fs.drop_last(), step, kept);
    }
}

/// Two runs of fields are taken up one after the other.
proof fn lemma_folded_join<T>(
    held: T,
    first: Seq<FieldView>,
    second: Seq<FieldView>,
    step: spec_fn(T, FieldView) -> T,
)
    ensures
        folded(held, first + second, step) == folded(folded(held, first, step), second, step),
    decreases second.len(),
{
    if second.len() == 0 {
        assert(first + second =~= first);
    } else {
        lemma_folded_join(held, first, second.drop_last(), step);
        assert((first + second).drop_last() =~= first + second.drop_last());
    }
}

/// One more part of a message, which is a field or nothing.
pub proof fn lemma_part_behind<T>(
    kind: MessageKind,
    limit: nat,
    start: T,
    before: Seq<FieldView>,
    part: Seq<FieldView>,
    step: spec_fn(T, FieldView) -> T,
    held: T,
    after: T,
)
    requires
        folded(start, before, step) == held,
        all_sound(kind, before, limit),
        part.len() <= 1,
        part.len() == 0 ==> after == held,
        part.len() == 1 ==> step(held, part[0]) == after && is_sound(kind, part[0], limit),
    ensures
        folded(start, before + part, step) == after,
        all_sound(kind, before + part, limit),
{
    lemma_folded_join(start, before, part, step);
    if part.len() == 1 {
        assert(part.drop_last() =~= seq![]);
        assert(folded(held, part.drop_last(), step) == held);
    }
}

/// One more part of a message, which holds a field for each item of a list.
pub proof fn lemma_list_behind<T, U>(
    kind: MessageKind,
    limit: nat,
    start: T,
    before: Seq<FieldView>,
    part: Seq<FieldView>,
    step: spec_fn(T, FieldView) -> T,
    items: Seq<U>,
    holding: spec_fn(Seq<U>) -> T,
)
    requires
        folded(start, before, step) == holding(Seq::empty()),
        all_sound(kind, before, limit),
        part.len() == items.len(),
        forall|i: int|
            0 <= i < part.len() ==> is_sound(kind, #[trigger] part[i], limit) && step(
                holding(items.take(i)),
                part[i],
            ) == holding(items.take(i + 1)),
    ensures
        folded(start, before + part, step) == holding(items),
        all_sound(kind, before + part, limit),
{
    lemma_folded_join(start, before, part, step);
    lemma_list_folded(part, step, items, holding);
}

proof fn lemma_list_folded<T, U>(
    part: Seq<FieldView>,
    step: spec_fn(T, FieldView) -> T,
    items: Seq<U>,
    holding: spec_fn(Seq<U>) -> T,
)
    requires
        part.len() == items.len(),
        forall|i: int|
            0 <= i < part.len() ==> step(holding(items.take(i)), #[trigger] part[i]) == holding(
                items.take(i + 1),
            ),
    ensures
        folded(holding(Seq::empty()), part, step) == holding(items),
    decreases part.len(),
{
    if part.len() == 0 {
        assert(items =~= Seq::empty());
    } else {
        let n = part.len() - 1;
        assert forall|i: int| 0 <= i < n implies step(
            holding(items.drop_last().take(i)),
            #[trigger] part.drop_last()[i],
        ) == holding(items.drop_last().take(i + 1)) by {
            assert(part.drop_last()[i] == part[i]);
            assert(items.drop_last().take(i) =~= items.take(i));
            assert(items.drop_last().take(i + 1) =~= items.take(i + 1));
        }
        lemma_list_folded(part.drop_last(), step, items.drop_last(), holding);
        assert(items.take(n) =~= items.drop_last());
        assert(items.take(n + 1) =~= items);
        assert(part[n] == part.last());
    }
}

// ---------------------------------------------------------------------------
// Nothing that is accepted is lost
// ---------------------------------------------------------------------------

/// Whether what a field holds is read to its end, in nested messages too.
pub open spec fn value_is_read_through(
    kind: MessageKind,
    number: u32,
    wire: u8,
    bytes: Seq<u8>,
    limit: nat,
) -> bool
    decreases limit, bytes.len(), 1nat,
{
    match (schema::field_type(kind, number), wire::read_bytes_value(wire, bytes)) {
        (FieldType::Nested(inner), Some((body, _))) => limit > 0 && is_read_through(
            inner,
            body,
            (limit - 1) as nat,
        ),
        (FieldType::RepeatedVarint, Some((body, _))) => schema::pass_packed(body, 0) is Ok,
        _ => true,
    }
}

/// Whether the fields of a message are read to the end of its bytes, in
/// nested messages too.
pub open spec fn is_read_through(kind: MessageKind, bytes: Seq<u8>, limit: nat) -> bool
    decreases limit, bytes.len(), 0nat,
{
    if bytes.len() == 0 {
        true
    } else {
        match wire::read_key(bytes) {
            Some((number, wire, rest)) => rest.len() < bytes.len() && value_is_read_through(
                kind,
                number,
                wire,
                rest,
                limit,
            ) && match read_value(kind, number, wire, rest) {
                Some((_, after)) => after.len() < bytes.len() && is_read_through(
                    kind,
                    after,
                    limit,
                ),
                None => false,
            },
            None => false,
        }
    }
}

proof fn lemma_value_is_read_through(
    kind: MessageKind,
    number: u32,
    wire: u8,
    bytes: Seq<u8>,
    limit: nat,
)
    requires
        schema::pass_field(kind, number, wire, bytes, limit) is Ok,
        limit <= wire::RECURSION_LIMIT,
    ensures
        read_value(kind, number, wire, bytes) matches Some((_, after)) && after
            == schema::pass_field(kind, number, wire, bytes, limit)->Ok_0,
        value_is_read_through(kind, number, wire, bytes, limit),
    decreases limit, bytes.len(), 1nat,
{
    match schema::field_type(kind, number) {
        FieldType::RepeatedVarint => {
            if wire == wire::LENGTH_DELIMITED {
                let (rest, stop) = schema::enter(bytes)->Ok_0;
                schema::lemma_packed_is_accepted(rest, stop);
            }
        },
        FieldType::Nested(inner) => {
            let (rest, stop) = schema::enter(bytes)->Ok_0;
            let below = (limit - 1) as nat;
            schema::lemma_nested_is_accepted(inner, rest, stop, below);
            law_accepted_bytes_are_read_through(inner, rest.take(rest.len() - stop), below);
        },
        FieldType::Unknown => {
            wire::lemma_skip_field_deeper(
                number,
                wire,
                bytes,
                limit,
                wire::RECURSION_LIMIT as nat,
            );
        },
        _ => {},
    }
}

/// The fields of a message that the schema accepts are read to the last
/// byte, at every level: nothing that is accepted is lost but the fields
/// that a message does not have.
pub proof fn law_accepted_bytes_are_read_through(kind: MessageKind, bytes: Seq<u8>, limit: nat)
    requires
        schema::accepts(kind, bytes, limit),
        limit <= wire::RECURSION_LIMIT,
    ensures
        is_read_through(kind, bytes, limit),
    decreases limit, bytes.len(), 2nat,
{
    if bytes.len() > 0 {
        wire::lemma_read_key_shrinks(bytes);
        let (number, wire, rest) = wire::read_key(bytes).unwrap();
        schema::lemma_pass_field_shrinks(kind, number, wire, rest, limit);
        lemma_value_is_read_through(kind, number, wire, rest, limit);
        let after = schema::pass_field(kind, number, wire, rest, limit)->Ok_0;
        law_accepted_bytes_are_read_through(kind, after, limit);
    }
}

// ---------------------------------------------------------------------------
// Fields are read one by one
// ---------------------------------------------------------------------------

proof fn lemma_fields_behind(kind: MessageKind, taken: Seq<FieldView>, bytes: Seq<u8>)
    ensures
        fields_behind(kind, taken, bytes) == taken + fields_in(kind, bytes),
    decreases bytes.len(),
{
    let none = Seq::<FieldView>::empty();
    assert(taken + none =~= taken);
    if let Some((number, wire, rest)) = wire::read_key(bytes) {
        if let Some((value, after)) = read_value(kind, number, wire, rest) {
            if after.len() < bytes.len() {
                lemma_fields_behind(kind, with_value(taken, number, value), after);
                lemma_fields_behind(kind, with_value(none, number, value), after);
                assert(with_value(taken, number, value) + fields_in(kind, after) =~= taken + (
                with_value(none, number, value) + fields_in(kind, after)));
            }
        }
    }
}

/// The fields of a message are read one by one: the next field is the one its
/// key names, a field that the message does not have is left out, and then
/// come the fields of what follows.
pub proof fn law_fields_are_read_one_by_one(kind: MessageKind, bytes: Seq<u8>)
    ensures
        bytes.len() == 0 ==> fields_in(kind, bytes).len() == 0,
        wire::read_key(bytes) matches Some((number, wire, rest)) ==> match read_value(
            kind,
            number,
            wire,
            rest,
        ) {
            Some((Some(value), after)) => fields_in(kind, bytes) == seq![
                FieldView { number, value },
            ] + fields_in(kind, after),
            Some((None, after)) => fields_in(kind, bytes) == fields_in(kind, after),
            None => fields_in(kind, bytes).len() == 0,
        },
{
    wire::lemma_read_key_shrinks(bytes);
    wire::lemma_read_varint_shrinks(bytes);
    let none = Seq::<FieldView>::empty();
    if let Some((number, wire, rest)) = wire::read_key(bytes) {
        lemma_read_value_shrinks(kind, number, wire, rest);
        if let Some((value, after)) = read_value(kind, number, wire, rest) {
            lemma_fields_behind(kind, with_value(none, number, value), after);
            match value {
                Some(value) => {
                    assert(with_value(none, number, Some(value)) =~= seq![
                        FieldView { number, value },
                    ]);
                },
                None => {
                    assert(none + fields_in(kind, after) =~= fields_in(kind, after));
                },
            }
        }
    }
}

/// The value of a field is what its wire type and the schema say it is. A
/// field that the message does not have gives no value.
pub proof fn law_a_value_is_read_by_its_type(
    kind: MessageKind,
    number: u32,
    bytes: Seq<u8>,
)
    ensures
        ({
            let field = schema::field_type(kind, number);
            &&& field == FieldType::Varint || field == FieldType::RepeatedVarint ==> read_value(
                kind,
                number,
                0,
                bytes,
            ) == match wire::read_varint(bytes) {
                Some((v, rest)) => Some((Some(FieldValueView::Number(v)), rest)),
                None => None,
            }
            &&& field == FieldType::Fixed32 ==> read_value(kind, number, 5, bytes)
                == match wire::read_fixed32(bytes) {
                Some((v, rest)) => Some((Some(FieldValueView::Single(v)), rest)),
                None => None,
            }
            &&& field == FieldType::Fixed64 ==> read_value(kind, number, 1, bytes)
                == match wire::read_fixed64(bytes) {
                Some((v, rest)) => Some((Some(FieldValueView::Double(v)), rest)),
                None => None,
            }
            &&& field == FieldType::Text ==> read_value(kind, number, 2, bytes)
                == match wire::read_string(bytes) {
                Some((v, rest)) => Some((Some(FieldValueView::Text(v)), rest)),
                None => None,
            }
            &&& field == FieldType::Bytes ==> read_value(kind, number, 2, bytes)
                == match wire::read_delimited(bytes) {
                Some((v, rest)) => Some((Some(FieldValueView::Bytes(v)), rest)),
                None => None,
            }
            &&& field is Nested ==> read_value(kind, number, 2, bytes)
                == match wire::read_delimited(bytes) {
                Some((v, rest)) => Some((Some(FieldValueView::Message(v)), rest)),
                None => None,
            }
            &&& field == FieldType::RepeatedVarint ==> read_value(kind, number, 2, bytes)
                == match wire::read_delimited(bytes) {
                Some((v, rest)) => Some(
                    (Some(FieldValueView::Numbers(packed_numbers(Seq::empty(), v))), rest),
                ),
                None => None,
            }
            &&& field == FieldType::Unknown ==> forall|wire: u8| #[trigger]
                read_value(kind, number, wire, bytes) == match wire::skip_field(
                    number,
                    wire,
                    bytes,
                    100,
                ) {
                    Some(rest) => Some((None::<FieldValueView>, rest)),
                    None => None,
                }
        }),
{
}

proof fn lemma_packed_behind(taken: Seq<u64>, bytes: Seq<u8>)
    ensures
        packed_numbers(taken, bytes) == taken + packed_numbers(Seq::empty(), bytes),
    decreases bytes.len(),
{
    let none = Seq::<u64>::empty();
    assert(taken + none =~= taken);
    if let Some((value, rest)) = wire::read_varint(bytes) {
        if rest.len() < bytes.len() {
            lemma_packed_behind(taken.push(value), rest);
            lemma_packed_behind(none.push(value), rest);
            assert(taken.push(value) + packed_numbers(none, rest) =~= taken + (none.push(value)
                + packed_numbers(none, rest)));
        }
    }
}

/// Packed numbers are read one by one, and those that were written one behind
/// the other are read back.
pub proof fn law_packed_numbers_are_read_one_by_one(bytes: Seq<u8>)
    ensures
        wire::read_varint(bytes) is None ==> packed_numbers(Seq::empty(), bytes).len() == 0,
        wire::read_varint(bytes) matches Some((value, rest)) ==> packed_numbers(
            Seq::empty(),
            bytes,
        ) == seq![value] + packed_numbers(Seq::empty(), rest),
{
    wire::lemma_read_varint_shrinks(bytes);
    if let Some((value, rest)) = wire::read_varint(bytes) {
        let none = Seq::<u64>::empty();
        lemma_packed_behind(none.push(value), rest);
        assert(none.push(value) =~= seq![value]);
    }
}

/// Fields are shown one by one, in order.
pub proof fn law_fields_are_shown_in_order(listed: Seq<Field>)
    ensures
        field_views(listed).len() == listed.len(),
        forall|i: int|
            0 <= i < listed.len() ==> {
                &&& (#[trigger] field_views(listed)[i]).number == listed[i].number
                &&& field_views(listed)[i].value == listed[i].value@
            },
{
}

} // verus!
