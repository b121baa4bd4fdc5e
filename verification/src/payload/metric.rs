//! The value a metric carries.

use crate::float;
use crate::payload::nested::{self, DataSet, DataSetView, Template, TemplateView};
use vstd::prelude::*;

verus! {

/// The bits of a single-precision number.
///
/// Two of them are equal when the numbers are: the two zeros equal each
/// other, and a NaN equals nothing.
#[derive(Debug, Clone, Copy)]
pub struct Single(pub u32);

impl PartialEq for Single {
    fn eq(&self, other: &Self) -> (same: bool) {
        float::singles_equal(self.0, other.0)
    }
}

impl vstd::std_specs::cmp::PartialEqSpecImpl for Single {
    open spec fn obeys_eq_spec() -> bool {
        true
    }

    open spec fn eq_spec(&self, other: &Self) -> bool {
        float::same_single(self.0, other.0)
    }
}

/// The bits of a double-precision number.
///
/// Two of them are equal when the numbers are: the two zeros equal each
/// other, and a NaN equals nothing.
#[derive(Debug, Clone, Copy)]
pub struct Double(pub u64);

impl PartialEq for Double {
    fn eq(&self, other: &Self) -> (same: bool) {
        float::doubles_equal(self.0, other.0)
    }
}

impl vstd::std_specs::cmp::PartialEqSpecImpl for Double {
    open spec fn obeys_eq_spec() -> bool {
        true
    }

    open spec fn eq_spec(&self, other: &Self) -> bool {
        float::same_double(self.0, other.0)
    }
}

/// One of the values a metric can hold.
#[derive(Debug)]
pub enum Value {
    IntValue(u32),
    LongValue(u64),
    FloatValue(Single),
    DoubleValue(Double),
    BooleanValue(bool),
    StringValue(String),
    BytesValue(Vec<u8>),
    DatasetValue(DataSet),
    TemplateValue(Template),
    /// A message with no field of its own.
    ExtensionValue,
}

/// What a [`Value`] holds.
pub enum ValueView {
    IntValue(u32),
    LongValue(u64),
    FloatValue(u32),
    DoubleValue(u64),
    BooleanValue(bool),
    StringValue(Seq<char>),
    BytesValue(Seq<u8>),
    DatasetValue(DataSetView),
    TemplateValue(TemplateView),
    ExtensionValue,
}

/// What a value holds.
pub open spec fn value_view(value: Value) -> ValueView
    decreases value,
{
    match value {
        Value::IntValue(v) => ValueView::IntValue(v),
        Value::LongValue(v) => ValueView::LongValue(v),
        Value::FloatValue(v) => ValueView::FloatValue(v.0),
        Value::DoubleValue(v) => ValueView::DoubleValue(v.0),
        Value::BooleanValue(v) => ValueView::BooleanValue(v),
        Value::StringValue(v) => ValueView::StringValue(v@),
        Value::BytesValue(v) => ValueView::BytesValue(v@),
        Value::DatasetValue(v) => ValueView::DatasetValue(v@),
        Value::TemplateValue(v) => ValueView::TemplateValue(nested::template_view(v)),
        Value::ExtensionValue => ValueView::ExtensionValue,
    }
}

impl View for Value {
    type V = ValueView;

    open spec fn view(&self) -> ValueView {
        value_view(*self)
    }
}

/// Copy a list of bytes.
pub(crate) fn copy_bytes(bytes: &Vec<u8>) -> (copy: Vec<u8>)
    ensures
        copy@ == bytes@,
{
    let copy = bytes.clone();
    assert(copy@ =~= bytes@);
    copy
}

/// Copy a value.
pub(crate) fn copy_value(value: &Value) -> (copy: Value)
    ensures
        copy@ == value@,
    decreases value,
{
    match value {
        Value::IntValue(v) => Value::IntValue(*v),
        Value::LongValue(v) => Value::LongValue(*v),
        Value::FloatValue(v) => Value::FloatValue(*v),
        Value::DoubleValue(v) => Value::DoubleValue(*v),
        Value::BooleanValue(v) => Value::BooleanValue(*v),
        Value::StringValue(v) => Value::StringValue(v.clone()),
        Value::BytesValue(v) => Value::BytesValue(copy_bytes(v)),
        Value::DatasetValue(v) => Value::DatasetValue(v.clone()),
        Value::TemplateValue(v) => Value::TemplateValue(nested::copy_template(v)),
        Value::ExtensionValue => Value::ExtensionValue,
    }
}

impl Clone for Value {
    fn clone(&self) -> (copy: Self)
        ensures
            copy@ == self@,
    {
        copy_value(self)
    }
}

/// What a value holds is what its variant holds, under the variant of the
/// same name: a floating-point number by its bits.
pub proof fn law_a_value_shows_what_it_holds(value: Value)
    ensures
        match value {
            Value::IntValue(v) => value@ == ValueView::IntValue(v),
            Value::LongValue(v) => value@ == ValueView::LongValue(v),
            Value::FloatValue(v) => value@ == ValueView::FloatValue(v.0),
            Value::DoubleValue(v) => value@ == ValueView::DoubleValue(v.0),
            Value::BooleanValue(v) => value@ == ValueView::BooleanValue(v),
            Value::StringValue(v) => value@ == ValueView::StringValue(v@),
            Value::BytesValue(v) => value@ == ValueView::BytesValue(v@),
            Value::DatasetValue(v) => value@ == ValueView::DatasetValue(v@),
            Value::TemplateValue(v) => value@ == ValueView::TemplateValue(v@),
            Value::ExtensionValue => value@ == ValueView::ExtensionValue,
        },
{
}

/// `==` on floating-point numbers compares the numbers.
pub proof fn law_equality_of_numbers_compares_them(a: Single, b: Single, c: Double, d: Double)
    ensures
        vstd::std_specs::cmp::PartialEqSpec::eq_spec(&a, &b) <==> float::same_single(a.0, b.0),
        vstd::std_specs::cmp::PartialEqSpec::eq_spec(&c, &d) <==> float::same_double(c.0, d.0),
{
}

} // verus!
