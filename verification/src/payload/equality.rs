//! When two messages are equal: every field is, and a floating-point number
//! equals another as numbers do, so the two zeros are equal and a NaN equals
//! nothing.

use crate::float;
use crate::payload::metric::{Value, ValueView};
use crate::payload::nested::{
    self, DataSet, DataSetValue, DataSetValueView, DataSetView, MetaData, MetaDataView,
    NestedValue, NestedValueView, Parameter, ParameterView, PropertyInner, PropertyInnerView,
    PropertySet, PropertySetList, PropertySetListView, PropertySetView, PropertyValue,
    PropertyValueView, Row, RowView, Template, TemplateView,
};
use crate::payload::{self, Metric, MetricView, Payload, PayloadView};
use crate::text;
use vstd::prelude::*;
use vstd::std_specs::cmp::PartialEqSpec;

verus! {

// ---------------------------------------------------------------------------
// Text, bytes and numbers
// ---------------------------------------------------------------------------

/// Whether two lists of bytes are the same.
fn bytes_equal(a: &Vec<u8>, b: &Vec<u8>) -> (same: bool)
    ensures
        same == (a@ == b@),
{
    if a.len() != b.len() {
        return false;
    }
    let mut i: usize = 0;
    while i < a.len()
        invariant
            i <= a.len(),
            a.len() == b.len(),
            forall|j: int| 0 <= j < i ==> a@[j] == b@[j],
        decreases a.len() - i,
    {
        if a[i] != b[i] {
            return false;
        }
        i += 1;
    }
    assert(a@ =~= b@);
    true
}

/// Whether two lists of numbers are the same.
fn numbers_equal(a: &Vec<u32>, b: &Vec<u32>) -> (same: bool)
    ensures
        same == (a@ == b@),
{
    if a.len() != b.len() {
        return false;
    }
    let mut i: usize = 0;
    while i < a.len()
        invariant
            i <= a.len(),
            a.len() == b.len(),
            forall|j: int| 0 <= j < i ==> a@[j] == b@[j],
        decreases a.len() - i,
    {
        if a[i] != b[i] {
            return false;
        }
        i += 1;
    }
    assert(a@ =~= b@);
    true
}

/// Whether two lists of texts are the same.
fn texts_equal(a: &Vec<String>, b: &Vec<String>) -> (same: bool)
    ensures
        same == (text::text_views(a@) == text::text_views(b@)),
{
    let ghost left = text::text_views(a@);
    let ghost right = text::text_views(b@);
    if a.len() != b.len() {
        assert(left.len() != right.len());
        return false;
    }
    let mut i: usize = 0;
    while i < a.len()
        invariant
            i <= a.len(),
            a.len() == b.len(),
            left == text::text_views(a@),
            right == text::text_views(b@),
            forall|j: int| 0 <= j < i ==> left[j] == right[j],
        decreases a.len() - i,
    {
        if !text::same_text(a[i].as_str(), b[i].as_str()) {
            assert(left[i as int] != right[i as int]);
            return false;
        }
        i += 1;
    }
    assert(left =~= right);
    true
}

/// Whether two texts that may be missing are the same.
fn held_texts_equal(a: &Option<String>, b: &Option<String>) -> (same: bool)
    ensures
        same == (payload::view_of(*a) == payload::view_of(*b)),
{
    match (a, b) {
        (Some(a), Some(b)) => text::same_text(a.as_str(), b.as_str()),
        (None, None) => true,
        _ => false,
    }
}

/// Whether two numbers that may be missing are the same.
fn held_longs_equal(a: Option<u64>, b: Option<u64>) -> (same: bool)
    ensures
        same == (a == b),
{
    match (a, b) {
        (Some(a), Some(b)) => a == b,
        (None, None) => true,
        _ => false,
    }
}

/// Whether two 32-bit numbers that may be missing are the same.
fn held_smalls_equal(a: Option<u32>, b: Option<u32>) -> (same: bool)
    ensures
        same == (a == b),
{
    match (a, b) {
        (Some(a), Some(b)) => a == b,
        (None, None) => true,
        _ => false,
    }
}

/// Whether two flags that may be missing are the same.
fn held_flags_equal(a: Option<bool>, b: Option<bool>) -> (same: bool)
    ensures
        same == (a == b),
{
    match (a, b) {
        (Some(a), Some(b)) => a == b,
        (None, None) => true,
        _ => false,
    }
}

// ---------------------------------------------------------------------------
// Metadata
// ---------------------------------------------------------------------------

/// Whether two metadata are equal.
pub open spec fn same_meta_data(a: MetaDataView, b: MetaDataView) -> bool {
    a == b
}

fn meta_data_equal(a: &MetaData, b: &MetaData) -> (same: bool)
    ensures
        same == same_meta_data(a@, b@),
{
    held_flags_equal(a.is_multi_part, b.is_multi_part)
        && held_texts_equal(&a.content_type, &b.content_type)
        && held_longs_equal(a.size, b.size)
        && held_longs_equal(a.seq, b.seq)
        && held_texts_equal(&a.file_name, &b.file_name)
        && held_texts_equal(&a.file_type, &b.file_type)
        && held_texts_equal(&a.md5, &b.md5)
        && held_texts_equal(&a.description, &b.description)
}

impl PartialEq for MetaData {
    fn eq(&self, other: &Self) -> (same: bool) {
        meta_data_equal(self, other)
    }
}

impl vstd::std_specs::cmp::PartialEqSpecImpl for MetaData {
    open spec fn obeys_eq_spec() -> bool {
        true
    }

    open spec fn eq_spec(&self, other: &Self) -> bool {
        same_meta_data(self@, other@)
    }
}

impl Eq for MetaData {

}

// ---------------------------------------------------------------------------
// Data sets
// ---------------------------------------------------------------------------

/// Whether two values of cells or parameters are equal.
pub open spec fn same_nested(a: NestedValueView, b: NestedValueView) -> bool {
    match (a, b) {
        (NestedValueView::FloatValue(a), NestedValueView::FloatValue(b)) => float::same_single(
            a,
            b,
        ),
        (NestedValueView::DoubleValue(a), NestedValueView::DoubleValue(b)) => float::same_double(
            a,
            b,
        ),
        (a, b) => a == b,
    }
}

fn nested_equal(a: &NestedValue, b: &NestedValue) -> (same: bool)
    ensures
        same == same_nested(a@, b@),
{
    match (a, b) {
        (NestedValue::IntValue(a), NestedValue::IntValue(b)) => *a == *b,
        (NestedValue::LongValue(a), NestedValue::LongValue(b)) => *a == *b,
        (NestedValue::FloatValue(a), NestedValue::FloatValue(b)) => {
            float::singles_equal(a.0, b.0)
        },
        (NestedValue::DoubleValue(a), NestedValue::DoubleValue(b)) => {
            float::doubles_equal(a.0, b.0)
        },
        (NestedValue::BooleanValue(a), NestedValue::BooleanValue(b)) => *a == *b,
        (NestedValue::StringValue(a), NestedValue::StringValue(b)) => {
            text::same_text(a.as_str(), b.as_str())
        },
        (NestedValue::ExtensionValue, NestedValue::ExtensionValue) => true,
        _ => false,
    }
}

impl PartialEq for NestedValue {
    fn eq(&self, other: &Self) -> (same: bool) {
        nested_equal(self, other)
    }
}

impl vstd::std_specs::cmp::PartialEqSpecImpl for NestedValue {
    open spec fn obeys_eq_spec() -> bool {
        true
    }

    open spec fn eq_spec(&self, other: &Self) -> bool {
        same_nested(self@, other@)
    }
}

/// Whether two values that may be missing are equal.
pub open spec fn same_held_nested(a: Option<NestedValueView>, b: Option<NestedValueView>) -> bool {
    match (a, b) {
        (Some(a), Some(b)) => same_nested(a, b),
        (None, None) => true,
        _ => false,
    }
}

fn held_nested_equal(a: &Option<NestedValue>, b: &Option<NestedValue>) -> (same: bool)
    ensures
        same == same_held_nested(payload::view_of(*a), payload::view_of(*b)),
{
    match (a, b) {
        (Some(a), Some(b)) => nested_equal(a, b),
        (None, None) => true,
        _ => false,
    }
}

/// Whether two cells are equal.
pub open spec fn same_cell(a: DataSetValueView, b: DataSetValueView) -> bool {
    same_held_nested(a.value, b.value)
}

fn cell_equal(a: &DataSetValue, b: &DataSetValue) -> (same: bool)
    ensures
        same == same_cell(a@, b@),
{
    held_nested_equal(&a.value, &b.value)
}

impl PartialEq for DataSetValue {
    fn eq(&self, other: &Self) -> (same: bool) {
        cell_equal(self, other)
    }
}

impl vstd::std_specs::cmp::PartialEqSpecImpl for DataSetValue {
    open spec fn obeys_eq_spec() -> bool {
        true
    }

    open spec fn eq_spec(&self, other: &Self) -> bool {
        same_cell(self@, other@)
    }
}

/// Whether two lists hold equal items in the same order.
pub open spec fn same_cells(a: Seq<DataSetValueView>, b: Seq<DataSetValueView>) -> bool
{
    &&& a.len() == b.len()
    &&& forall|i: int| 0 <= i < a.len() ==> same_cell(#[trigger] a[i], b[i])
}

fn cells_equal(a: &Vec<DataSetValue>, b: &Vec<DataSetValue>) -> (same: bool)
    ensures
        same == same_cells(nested::views(a@), nested::views(b@)),
{
    let ghost left = nested::views(a@);
    let ghost right = nested::views(b@);
    if a.len() != b.len() {
        return false;
    }
    let mut i: usize = 0;
    while i < a.len()
        invariant
            i <= a.len(),
            a.len() == b.len(),
            left == nested::views(a@),
            right == nested::views(b@),
            forall|j: int| 0 <= j < i ==> same_cell(#[trigger] left[j], right[j]),
        decreases a.len() - i,
    {
        if !cell_equal(&a[i], &b[i]) {
            assert(!same_cell(left[i as int], right[i as int]));
            return false;
        }
        i += 1;
    }
    true
}

/// Whether two rows are equal.
pub open spec fn same_row(a: RowView, b: RowView) -> bool {
    same_cells(a.elements, b.elements)
}

fn row_equal(a: &Row, b: &Row) -> (same: bool)
    ensures
        same == same_row(a@, b@),
{
    cells_equal(&a.elements, &b.elements)
}

impl PartialEq for Row {
    fn eq(&self, other: &Self) -> (same: bool) {
        row_equal(self, other)
    }
}

impl vstd::std_specs::cmp::PartialEqSpecImpl for Row {
    open spec fn obeys_eq_spec() -> bool {
        true
    }

    open spec fn eq_spec(&self, other: &Self) -> bool {
        same_row(self@, other@)
    }
}

/// Whether two lists hold equal items in the same order.
pub open spec fn same_rows(a: Seq<RowView>, b: Seq<RowView>) -> bool
{
    &&& a.len() == b.len()
    &&& forall|i: int| 0 <= i < a.len() ==> same_row(#[trigger] a[i], b[i])
}

fn rows_equal(a: &Vec<Row>, b: &Vec<Row>) -> (same: bool)
    ensures
        same == same_rows(nested::views(a@), nested::views(b@)),
{
    let ghost left = nested::views(a@);
    let ghost right = nested::views(b@);
    if a.len() != b.len() {
        return false;
    }
    let mut i: usize = 0;
    while i < a.len()
        invariant
            i <= a.len(),
            a.len() == b.len(),
            left == nested::views(a@),
            right == nested::views(b@),
            forall|j: int| 0 <= j < i ==> same_row(#[trigger] left[j], right[j]),
        decreases a.len() - i,
    {
        if !row_equal(&a[i], &b[i]) {
            assert(!same_row(left[i as int], right[i as int]));
            return false;
        }
        i += 1;
    }
    true
}

/// Whether two data sets are equal.
pub open spec fn same_data_set(a: DataSetView, b: DataSetView) -> bool {
    &&& a.num_of_columns == b.num_of_columns
    &&& a.columns == b.columns
    &&& a.types == b.types
    &&& same_rows(a.rows, b.rows)
}

fn data_set_equal(a: &DataSet, b: &DataSet) -> (same: bool)
    ensures
        same == same_data_set(a@, b@),
{
    held_longs_equal(a.num_of_columns, b.num_of_columns) && texts_equal(&a.columns, &b.columns)
        && numbers_equal(&a.types, &b.types) && rows_equal(&a.rows, &b.rows)
}

impl PartialEq for DataSet {
    fn eq(&self, other: &Self) -> (same: bool) {
        data_set_equal(self, other)
    }
}

impl vstd::std_specs::cmp::PartialEqSpecImpl for DataSet {
    open spec fn obeys_eq_spec() -> bool {
        true
    }

    open spec fn eq_spec(&self, other: &Self) -> bool {
        same_data_set(self@, other@)
    }
}

// ---------------------------------------------------------------------------
// Properties
// ---------------------------------------------------------------------------

/// Whether two values of properties are equal.
pub open spec fn same_inner(a: PropertyInnerView, b: PropertyInnerView) -> bool
    decreases a,
{
    match (a, b) {
        (PropertyInnerView::FloatValue(a), PropertyInnerView::FloatValue(b)) => {
            float::same_single(a, b)
        },
        (PropertyInnerView::DoubleValue(a), PropertyInnerView::DoubleValue(b)) => {
            float::same_double(a, b)
        },
        (PropertyInnerView::PropertysetValue(a), PropertyInnerView::PropertysetValue(b)) => {
            same_set(a, b)
        },
        (PropertyInnerView::PropertysetsValue(a), PropertyInnerView::PropertysetsValue(b)) => {
            same_sets(a, b)
        },
        (a, b) => a == b,
    }
}

/// Whether two properties are equal.
pub open spec fn same_property(a: PropertyValueView, b: PropertyValueView) -> bool
    decreases a,
{
    &&& a.datatype == b.datatype
    &&& a.is_null == b.is_null
    &&& match (a.value, b.value) {
        (Some(a), Some(b)) => same_inner(a, b),
        (None, None) => true,
        _ => false,
    }
}

/// Whether two lists hold equal items in the same order.
pub open spec fn same_properties(a: Seq<PropertyValueView>, b: Seq<PropertyValueView>) -> bool
    decreases a,
{
    &&& a.len() == b.len()
    &&& forall|i: int| 0 <= i < a.len() ==> same_property(#[trigger] a[i], b[i])
}

/// Whether two property sets are equal.
pub open spec fn same_set(a: PropertySetView, b: PropertySetView) -> bool
    decreases a,
{
    &&& a.keys == b.keys
    &&& same_properties(a.values, b.values)
}

/// Whether two lists hold equal items in the same order.
pub open spec fn same_set_list(a: Seq<PropertySetView>, b: Seq<PropertySetView>) -> bool
    decreases a,
{
    &&& a.len() == b.len()
    &&& forall|i: int| 0 <= i < a.len() ==> same_set(#[trigger] a[i], b[i])
}

/// Whether two lists of property sets are equal.
pub open spec fn same_sets(a: PropertySetListView, b: PropertySetListView) -> bool
    decreases a,
{
    same_set_list(a.propertyset, b.propertyset)
}

fn inner_equal(a: &PropertyInner, b: &PropertyInner) -> (same: bool)
    ensures
        same == same_inner(a@, b@),
    decreases a,
{
    match (a, b) {
        (PropertyInner::IntValue(a), PropertyInner::IntValue(b)) => *a == *b,
        (PropertyInner::LongValue(a), PropertyInner::LongValue(b)) => *a == *b,
        (PropertyInner::FloatValue(a), PropertyInner::FloatValue(b)) => {
            float::singles_equal(a.0, b.0)
        },
        (PropertyInner::DoubleValue(a), PropertyInner::DoubleValue(b)) => {
            float::doubles_equal(a.0, b.0)
        },
        (PropertyInner::BooleanValue(a), PropertyInner::BooleanValue(b)) => *a == *b,
        (PropertyInner::StringValue(a), PropertyInner::StringValue(b)) => {
            text::same_text(a.as_str(), b.as_str())
        },
        (PropertyInner::PropertysetValue(a), PropertyInner::PropertysetValue(b)) => {
            set_equal(a, b)
        },
        (PropertyInner::PropertysetsValue(a), PropertyInner::PropertysetsValue(b)) => {
            sets_equal(a, b)
        },
        (PropertyInner::ExtensionValue, PropertyInner::ExtensionValue) => true,
        _ => false,
    }
}

fn property_equal(a: &PropertyValue, b: &PropertyValue) -> (same: bool)
    ensures
        same == same_property(a@, b@),
    decreases a,
{
    let values = match (&a.value, &b.value) {
        (Some(a), Some(b)) => inner_equal(a, b),
        (None, None) => true,
        _ => false,
    };
    held_smalls_equal(a.datatype, b.datatype) && held_flags_equal(a.is_null, b.is_null) && values
}

fn properties_equal(a: &Vec<PropertyValue>, b: &Vec<PropertyValue>) -> (same: bool)
    ensures
        same == same_properties(nested::views(a@), nested::views(b@)),
    decreases a,
{
    let ghost left = nested::views(a@);
    let ghost right = nested::views(b@);
    if a.len() != b.len() {
        return false;
    }
    let mut i: usize = 0;
    while i < a.len()
        invariant
            i <= a.len(),
            a.len() == b.len(),
            left == nested::views(a@),
            right == nested::views(b@),
            forall|j: int| 0 <= j < i ==> same_property(#[trigger] left[j], right[j]),
        decreases a.len() - i,
    {
        assert(decreases_to!(a => a@[i as int]));
        if !property_equal(&a[i], &b[i]) {
            assert(!same_property(left[i as int], right[i as int]));
            return false;
        }
        i += 1;
    }
    true
}

fn set_equal(a: &PropertySet, b: &PropertySet) -> (same: bool)
    ensures
        same == same_set(a@, b@),
    decreases a,
{
    proof {
        assert(nested::views(a.values@) =~= a@.values);
        assert(nested::views(b.values@) =~= b@.values);
    }
    texts_equal(&a.keys, &b.keys) && properties_equal(&a.values, &b.values)
}

fn set_list_equal(a: &Vec<PropertySet>, b: &Vec<PropertySet>) -> (same: bool)
    ensures
        same == same_set_list(nested::views(a@), nested::views(b@)),
    decreases a,
{
    let ghost left = nested::views(a@);
    let ghost right = nested::views(b@);
    if a.len() != b.len() {
        return false;
    }
    let mut i: usize = 0;
    while i < a.len()
        invariant
            i <= a.len(),
            a.len() == b.len(),
            left == nested::views(a@),
            right == nested::views(b@),
            forall|j: int| 0 <= j < i ==> same_set(#[trigger] left[j], right[j]),
        decreases a.len() - i,
    {
        assert(decreases_to!(a => a@[i as int]));
        if !set_equal(&a[i], &b[i]) {
            assert(!same_set(left[i as int], right[i as int]));
            return false;
        }
        i += 1;
    }
    true
}

fn sets_equal(a: &PropertySetList, b: &PropertySetList) -> (same: bool)
    ensures
        same == same_sets(a@, b@),
    decreases a,
{
    proof {
        assert(nested::views(a.propertyset@) =~= a@.propertyset);
        assert(nested::views(b.propertyset@) =~= b@.propertyset);
    }
    set_list_equal(&a.propertyset, &b.propertyset)
}

impl PartialEq for PropertyInner {
    fn eq(&self, other: &Self) -> (same: bool) {
        inner_equal(self, other)
    }
}

impl vstd::std_specs::cmp::PartialEqSpecImpl for PropertyInner {
    open spec fn obeys_eq_spec() -> bool {
        true
    }

    open spec fn eq_spec(&self, other: &Self) -> bool {
        same_inner(self@, other@)
    }
}

impl PartialEq for PropertyValue {
    fn eq(&self, other: &Self) -> (same: bool) {
        property_equal(self, other)
    }
}

impl vstd::std_specs::cmp::PartialEqSpecImpl for PropertyValue {
    open spec fn obeys_eq_spec() -> bool {
        true
    }

    open spec fn eq_spec(&self, other: &Self) -> bool {
        same_property(self@, other@)
    }
}

impl PartialEq for PropertySet {
    fn eq(&self, other: &Self) -> (same: bool) {
        set_equal(self, other)
    }
}

impl vstd::std_specs::cmp::PartialEqSpecImpl for PropertySet {
    open spec fn obeys_eq_spec() -> bool {
        true
    }

    open spec fn eq_spec(&self, other: &Self) -> bool {
        same_set(self@, other@)
    }
}

impl PartialEq for PropertySetList {
    fn eq(&self, other: &Self) -> (same: bool) {
        sets_equal(self, other)
    }
}

impl vstd::std_specs::cmp::PartialEqSpecImpl for PropertySetList {
    open spec fn obeys_eq_spec() -> bool {
        true
    }

    open spec fn eq_spec(&self, other: &Self) -> bool {
        same_sets(self@, other@)
    }
}

// ---------------------------------------------------------------------------
// Metrics and templates
// ---------------------------------------------------------------------------

/// Whether two parameters are equal.
pub open spec fn same_parameter(a: ParameterView, b: ParameterView) -> bool {
    &&& a.name == b.name
    &&& a.datatype == b.datatype
    &&& same_held_nested(a.value, b.value)
}

fn parameter_equal(a: &Parameter, b: &Parameter) -> (same: bool)
    ensures
        same == same_parameter(a@, b@),
{
    held_texts_equal(&a.name, &b.name) && held_smalls_equal(a.datatype, b.datatype)
        && held_nested_equal(&a.value, &b.value)
}

impl PartialEq for Parameter {
    fn eq(&self, other: &Self) -> (same: bool) {
        parameter_equal(self, other)
    }
}

impl vstd::std_specs::cmp::PartialEqSpecImpl for Parameter {
    open spec fn obeys_eq_spec() -> bool {
        true
    }

    open spec fn eq_spec(&self, other: &Self) -> bool {
        same_parameter(self@, other@)
    }
}

/// Whether two lists hold equal items in the same order.
pub open spec fn same_parameters(a: Seq<ParameterView>, b: Seq<ParameterView>) -> bool
{
    &&& a.len() == b.len()
    &&& forall|i: int| 0 <= i < a.len() ==> same_parameter(#[trigger] a[i], b[i])
}

fn parameters_equal(a: &Vec<Parameter>, b: &Vec<Parameter>) -> (same: bool)
    ensures
        same == same_parameters(nested::views(a@), nested::views(b@)),
{
    let ghost left = nested::views(a@);
    let ghost right = nested::views(b@);
    if a.len() != b.len() {
        return false;
    }
    let mut i: usize = 0;
    while i < a.len()
        invariant
            i <= a.len(),
            a.len() == b.len(),
            left == nested::views(a@),
            right == nested::views(b@),
            forall|j: int| 0 <= j < i ==> same_parameter(#[trigger] left[j], right[j]),
        decreases a.len() - i,
    {
        if !parameter_equal(&a[i], &b[i]) {
            assert(!same_parameter(left[i as int], right[i as int]));
            return false;
        }
        i += 1;
    }
    true
}

/// Whether two values of metrics are equal.
pub open spec fn same_value(a: ValueView, b: ValueView) -> bool
    decreases a,
{
    match (a, b) {
        (ValueView::FloatValue(a), ValueView::FloatValue(b)) => float::same_single(a, b),
        (ValueView::DoubleValue(a), ValueView::DoubleValue(b)) => float::same_double(a, b),
        (ValueView::DatasetValue(a), ValueView::DatasetValue(b)) => same_data_set(a, b),
        (ValueView::TemplateValue(a), ValueView::TemplateValue(b)) => same_template(a, b),
        (a, b) => a == b,
    }
}

/// Whether two properties that may be missing are equal.
pub open spec fn same_held_set(a: Option<PropertySetView>, b: Option<PropertySetView>) -> bool {
    match (a, b) {
        (Some(a), Some(b)) => same_set(a, b),
        (None, None) => true,
        _ => false,
    }
}

/// Whether two metrics are equal.
pub open spec fn same_metric(a: MetricView, b: MetricView) -> bool
    decreases a,
{
    &&& a.name == b.name
    &&& a.alias == b.alias
    &&& a.timestamp == b.timestamp
    &&& a.datatype == b.datatype
    &&& a.is_historical == b.is_historical
    &&& a.is_transient == b.is_transient
    &&& a.is_null == b.is_null
    &&& a.metadata == b.metadata
    &&& same_held_set(a.properties, b.properties)
    &&& match (a.value, b.value) {
        (Some(a), Some(b)) => same_value(a, b),
        (None, None) => true,
        _ => false,
    }
}

/// Whether two lists hold equal items in the same order.
pub open spec fn same_metrics(a: Seq<MetricView>, b: Seq<MetricView>) -> bool
    decreases a,
{
    &&& a.len() == b.len()
    &&& forall|i: int| 0 <= i < a.len() ==> same_metric(#[trigger] a[i], b[i])
}

/// Whether two templates are equal.
pub open spec fn same_template(a: TemplateView, b: TemplateView) -> bool
    decreases a,
{
    &&& a.version == b.version
    &&& same_metrics(a.metrics, b.metrics)
    &&& same_parameters(a.parameters, b.parameters)
    &&& a.template_ref == b.template_ref
    &&& a.is_definition == b.is_definition
}

fn value_equal(a: &Value, b: &Value) -> (same: bool)
    ensures
        same == same_value(a@, b@),
    decreases a,
{
    match (a, b) {
        (Value::IntValue(a), Value::IntValue(b)) => *a == *b,
        (Value::LongValue(a), Value::LongValue(b)) => *a == *b,
        (Value::FloatValue(a), Value::FloatValue(b)) => float::singles_equal(a.0, b.0),
        (Value::DoubleValue(a), Value::DoubleValue(b)) => float::doubles_equal(a.0, b.0),
        (Value::BooleanValue(a), Value::BooleanValue(b)) => *a == *b,
        (Value::StringValue(a), Value::StringValue(b)) => text::same_text(a.as_str(), b.as_str()),
        (Value::BytesValue(a), Value::BytesValue(b)) => bytes_equal(a, b),
        (Value::DatasetValue(a), Value::DatasetValue(b)) => data_set_equal(a, b),
        (Value::TemplateValue(a), Value::TemplateValue(b)) => template_equal(a, b),
        (Value::ExtensionValue, Value::ExtensionValue) => true,
        _ => false,
    }
}

fn held_meta_data_equal(a: &Option<MetaData>, b: &Option<MetaData>) -> (same: bool)
    ensures
        same == (payload::view_of(*a) == payload::view_of(*b)),
{
    match (a, b) {
        (Some(a), Some(b)) => meta_data_equal(a, b),
        (None, None) => true,
        _ => false,
    }
}

fn held_set_equal(a: &Option<PropertySet>, b: &Option<PropertySet>) -> (same: bool)
    ensures
        same == same_held_set(payload::view_of(*a), payload::view_of(*b)),
{
    match (a, b) {
        (Some(a), Some(b)) => set_equal(a, b),
        (None, None) => true,
        _ => false,
    }
}

fn metric_equal(a: &Metric, b: &Metric) -> (same: bool)
    ensures
        same == same_metric(a@, b@),
    decreases a,
{
    let values = match (&a.value, &b.value) {
        (Some(a), Some(b)) => value_equal(a, b),
        (None, None) => true,
        _ => false,
    };
    held_texts_equal(&a.name, &b.name) && held_longs_equal(a.alias, b.alias) && held_longs_equal(
        a.timestamp,
        b.timestamp,
    ) && held_smalls_equal(a.datatype, b.datatype) && held_flags_equal(
        a.is_historical,
        b.is_historical,
    ) && held_flags_equal(a.is_transient, b.is_transient) && held_flags_equal(
        a.is_null,
        b.is_null,
    ) && held_meta_data_equal(&a.metadata, &b.metadata) && held_set_equal(
        &a.properties,
        &b.properties,
    ) && values
}

fn metrics_equal(a: &Vec<Metric>, b: &Vec<Metric>) -> (same: bool)
    ensures
        same == same_metrics(nested::views(a@), nested::views(b@)),
    decreases a,
{
    let ghost left = nested::views(a@);
    let ghost right = nested::views(b@);
    if a.len() != b.len() {
        return false;
    }
    let mut i: usize = 0;
    while i < a.len()
        invariant
            i <= a.len(),
            a.len() == b.len(),
            left == nested::views(a@),
            right == nested::views(b@),
            forall|j: int| 0 <= j < i ==> same_metric(#[trigger] left[j], right[j]),
        decreases a.len() - i,
    {
        assert(decreases_to!(a => a@[i as int]));
        if !metric_equal(&a[i], &b[i]) {
            assert(!same_metric(left[i as int], right[i as int]));
            return false;
        }
        i += 1;
    }
    true
}

fn template_equal(a: &Template, b: &Template) -> (same: bool)
    ensures
        same == same_template(a@, b@),
    decreases a,
{
    proof {
        assert(nested::views(a.metrics@) =~= a@.metrics);
        assert(nested::views(b.metrics@) =~= b@.metrics);
    }
    held_texts_equal(&a.version, &b.version) && metrics_equal(&a.metrics, &b.metrics)
        && parameters_equal(&a.parameters, &b.parameters) && held_texts_equal(
        &a.template_ref,
        &b.template_ref,
    ) && held_flags_equal(a.is_definition, b.is_definition)
}

/// Whether two payloads are equal.
pub open spec fn same_payload(a: PayloadView, b: PayloadView) -> bool {
    &&& a.timestamp == b.timestamp
    &&& same_metrics(a.metrics, b.metrics)
    &&& a.seq == b.seq
    &&& a.uuid == b.uuid
    &&& a.body == b.body
}

fn payload_equal(a: &Payload, b: &Payload) -> (same: bool)
    ensures
        same == same_payload(a@, b@),
{
    proof {
        assert(nested::views(a.metrics@) =~= a@.metrics);
        assert(nested::views(b.metrics@) =~= b@.metrics);
    }
    let bodies = match (&a.body, &b.body) {
        (Some(a), Some(b)) => bytes_equal(a, b),
        (None, None) => true,
        _ => false,
    };
    held_longs_equal(a.timestamp, b.timestamp) && metrics_equal(&a.metrics, &b.metrics)
        && held_longs_equal(a.seq, b.seq) && held_texts_equal(&a.uuid, &b.uuid) && bodies
}

impl PartialEq for Value {
    fn eq(&self, other: &Self) -> (same: bool) {
        value_equal(self, other)
    }
}

impl vstd::std_specs::cmp::PartialEqSpecImpl for Value {
    open spec fn obeys_eq_spec() -> bool {
        true
    }

    open spec fn eq_spec(&self, other: &Self) -> bool {
        same_value(self@, other@)
    }
}

impl PartialEq for Metric {
    fn eq(&self, other: &Self) -> (same: bool) {
        metric_equal(self, other)
    }
}

impl vstd::std_specs::cmp::PartialEqSpecImpl for Metric {
    open spec fn obeys_eq_spec() -> bool {
        true
    }

    open spec fn eq_spec(&self, other: &Self) -> bool {
        same_metric(self@, other@)
    }
}

impl PartialEq for Template {
    fn eq(&self, other: &Self) -> (same: bool) {
        template_equal(self, other)
    }
}

impl vstd::std_specs::cmp::PartialEqSpecImpl for Template {
    open spec fn obeys_eq_spec() -> bool {
        true
    }

    open spec fn eq_spec(&self, other: &Self) -> bool {
        same_template(self@, other@)
    }
}

impl PartialEq for Payload {
    fn eq(&self, other: &Self) -> (same: bool) {
        payload_equal(self, other)
    }
}

impl vstd::std_specs::cmp::PartialEqSpecImpl for Payload {
    open spec fn obeys_eq_spec() -> bool {
        true
    }

    open spec fn eq_spec(&self, other: &Self) -> bool {
        same_payload(self@, other@)
    }
}

// ---------------------------------------------------------------------------
// Equal messages hold the same, up to the sign of a zero
// ---------------------------------------------------------------------------

/// The bits of a single-precision number, with a zero that has no sign.
pub open spec fn settled_single(bits: u32) -> u32 {
    if bits == 0x8000_0000 {
        0
    } else {
        bits
    }
}

/// The bits of a double-precision number, with a zero that has no sign.
pub open spec fn settled_double(bits: u64) -> u64 {
    if bits == 0x8000_0000_0000_0000 {
        0
    } else {
        bits
    }
}

/// A value, with every zero in it without a sign.
pub open spec fn settled_nested(v: NestedValueView) -> NestedValueView
{
    match v {
        NestedValueView::FloatValue(b) => NestedValueView::FloatValue(settled_single(b)),
        NestedValueView::DoubleValue(b) => NestedValueView::DoubleValue(settled_double(b)),
        v => v,
    }
}

/// Whether every floating-point number in it is a number.
pub open spec fn counts_nested(v: NestedValueView) -> bool
{
    match v {
        NestedValueView::FloatValue(b) => float::same_single(b, b),
        NestedValueView::DoubleValue(b) => float::same_double(b, b),
        _ => true,
    }
}

/// A value that may be missing, with every zero in it without a sign.
pub open spec fn settled_held(held: Option<NestedValueView>) -> Option<NestedValueView> {
    match held {
        Some(v) => Some(settled_nested(v)),
        None => None,
    }
}

/// Whether a value that may be missing holds numbers only.
pub open spec fn counts_held(held: Option<NestedValueView>) -> bool {
    held matches Some(v) ==> counts_nested(v)
}

/// A cell, with a zero in it without a sign.
pub open spec fn settled_cell(c: DataSetValueView) -> DataSetValueView {
    DataSetValueView { value: settled_held(c.value) }
}

/// Whether a cell holds a number, if it holds a floating-point number.
pub open spec fn counts_cell(c: DataSetValueView) -> bool {
    counts_held(c.value)
}

/// A list, with every zero in it without a sign.
pub open spec fn settled_cells(items: Seq<DataSetValueView>) -> Seq<DataSetValueView>
{
    Seq::new(
        items.len(),
        |i: int|
            if 0 <= i < items.len() {
                settled_cell(items[i])
            } else {
                arbitrary()
            },
    )
}

/// Whether every floating-point number in a list is a number.
pub open spec fn counts_cells(items: Seq<DataSetValueView>) -> bool
{
    forall|i: int| 0 <= i < items.len() ==> counts_cell(#[trigger] items[i])
}

/// A row, with every zero in it without a sign.
pub open spec fn settled_row(r: RowView) -> RowView {
    RowView { elements: settled_cells(r.elements) }
}

/// Whether every floating-point number in a row is a number.
pub open spec fn counts_row(r: RowView) -> bool {
    counts_cells(r.elements)
}

/// A list, with every zero in it without a sign.
pub open spec fn settled_rows(items: Seq<RowView>) -> Seq<RowView>
{
    Seq::new(
        items.len(),
        |i: int|
            if 0 <= i < items.len() {
                settled_row(items[i])
            } else {
                arbitrary()
            },
    )
}

/// Whether every floating-point number in a list is a number.
pub open spec fn counts_rows(items: Seq<RowView>) -> bool
{
    forall|i: int| 0 <= i < items.len() ==> counts_row(#[trigger] items[i])
}

/// A data set, with every zero in it without a sign.
pub open spec fn settled_data_set(d: DataSetView) -> DataSetView {
    DataSetView { rows: settled_rows(d.rows), ..d }
}

/// Whether every floating-point number in a data set is a number.
pub open spec fn counts_data_set(d: DataSetView) -> bool {
    counts_rows(d.rows)
}

/// A parameter, with a zero in it without a sign.
pub open spec fn settled_parameter(p: ParameterView) -> ParameterView {
    ParameterView { value: settled_held(p.value), ..p }
}

/// Whether a parameter holds a number, if it holds a floating-point number.
pub open spec fn counts_parameter(p: ParameterView) -> bool {
    counts_held(p.value)
}

/// A list, with every zero in it without a sign.
pub open spec fn settled_parameters(items: Seq<ParameterView>) -> Seq<ParameterView>
{
    Seq::new(
        items.len(),
        |i: int|
            if 0 <= i < items.len() {
                settled_parameter(items[i])
            } else {
                arbitrary()
            },
    )
}

/// Whether every floating-point number in a list is a number.
pub open spec fn counts_parameters(items: Seq<ParameterView>) -> bool
{
    forall|i: int| 0 <= i < items.len() ==> counts_parameter(#[trigger] items[i])
}

/// The value of a property, with every zero in it without a sign.
pub open spec fn settled_inner(v: PropertyInnerView) -> PropertyInnerView
    decreases v,
{
    match v {
        PropertyInnerView::FloatValue(b) => PropertyInnerView::FloatValue(settled_single(b)),
        PropertyInnerView::DoubleValue(b) => PropertyInnerView::DoubleValue(settled_double(b)),
        PropertyInnerView::PropertysetValue(x) => PropertyInnerView::PropertysetValue(settled_set(x)),
        PropertyInnerView::PropertysetsValue(x) => PropertyInnerView::PropertysetsValue(settled_sets(x)),
        v => v,
    }
}

/// Whether every floating-point number in it is a number.
pub open spec fn counts_inner(v: PropertyInnerView) -> bool
    decreases v,
{
    match v {
        PropertyInnerView::FloatValue(b) => float::same_single(b, b),
        PropertyInnerView::DoubleValue(b) => float::same_double(b, b),
        PropertyInnerView::PropertysetValue(x) => counts_set(x),
        PropertyInnerView::PropertysetsValue(x) => counts_sets(x),
        _ => true,
    }
}

/// A property, with every zero in it without a sign.
pub open spec fn settled_property(p: PropertyValueView) -> PropertyValueView
    decreases p,
{
    PropertyValueView {
        value: match p.value {
            Some(v) => Some(settled_inner(v)),
            None => None,
        },
        ..p
    }
}

/// Whether every floating-point number in a property is a number.
pub open spec fn counts_property(p: PropertyValueView) -> bool
    decreases p,
{
    match p.value {
        Some(v) => counts_inner(v),
        None => true,
    }
}

/// A list, with every zero in it without a sign.
pub open spec fn settled_properties(items: Seq<PropertyValueView>) -> Seq<PropertyValueView>
    decreases items,
{
    Seq::new(
        items.len(),
        |i: int|
            if 0 <= i < items.len() {
                settled_property(items[i])
            } else {
                arbitrary()
            },
    )
}

/// Whether every floating-point number in a list is a number.
pub open spec fn counts_properties(items: Seq<PropertyValueView>) -> bool
    decreases items,
{
    forall|i: int| 0 <= i < items.len() ==> counts_property(#[trigger] items[i])
}

/// A property set, with every zero in it without a sign.
pub open spec fn settled_set(s: PropertySetView) -> PropertySetView
    decreases s,
{
    PropertySetView { values: settled_properties(s.values), ..s }
}

/// Whether every floating-point number in a property set is a number.
pub open spec fn counts_set(s: PropertySetView) -> bool
    decreases s,
{
    counts_properties(s.values)
}

/// A list, with every zero in it without a sign.
pub open spec fn settled_set_list(items: Seq<PropertySetView>) -> Seq<PropertySetView>
    decreases items,
{
    Seq::new(
        items.len(),
        |i: int|
            if 0 <= i < items.len() {
                settled_set(items[i])
            } else {
                arbitrary()
            },
    )
}

/// Whether every floating-point number in a list is a number.
pub open spec fn counts_set_list(items: Seq<PropertySetView>) -> bool
    decreases items,
{
    forall|i: int| 0 <= i < items.len() ==> counts_set(#[trigger] items[i])
}

/// A list of property sets, with every zero in it without a sign.
pub open spec fn settled_sets(l: PropertySetListView) -> PropertySetListView
    decreases l,
{
    PropertySetListView { propertyset: settled_set_list(l.propertyset) }
}

/// Whether every floating-point number in a list of property sets is a number.
pub open spec fn counts_sets(l: PropertySetListView) -> bool
    decreases l,
{
    counts_set_list(l.propertyset)
}

/// The value of a metric, with every zero in it without a sign.
pub open spec fn settled_value(v: ValueView) -> ValueView
    decreases v,
{
    match v {
        ValueView::FloatValue(b) => ValueView::FloatValue(settled_single(b)),
        ValueView::DoubleValue(b) => ValueView::DoubleValue(settled_double(b)),
        ValueView::DatasetValue(x) => ValueView::DatasetValue(settled_data_set(x)),
        ValueView::TemplateValue(x) => ValueView::TemplateValue(settled_template(x)),
        v => v,
    }
}

/// Whether every floating-point number in it is a number.
pub open spec fn counts_value(v: ValueView) -> bool
    decreases v,
{
    match v {
        ValueView::FloatValue(b) => float::same_single(b, b),
        ValueView::DoubleValue(b) => float::same_double(b, b),
        ValueView::DatasetValue(x) => counts_data_set(x),
        ValueView::TemplateValue(x) => counts_template(x),
        _ => true,
    }
}

/// A metric, with every zero in it without a sign.
pub open spec fn settled_metric(m: MetricView) -> MetricView
    decreases m,
{
    MetricView {
        properties: match m.properties {
            Some(s) => Some(settled_set(s)),
            None => None,
        },
        value: match m.value {
            Some(v) => Some(settled_value(v)),
            None => None,
        },
        ..m
    }
}

/// Whether every floating-point number in a metric is a number.
pub open spec fn counts_metric(m: MetricView) -> bool
    decreases m,
{
    &&& m.properties matches Some(s) ==> counts_set(s)
    &&& match m.value {
        Some(v) => counts_value(v),
        None => true,
    }
}

/// A list, with every zero in it without a sign.
pub open spec fn settled_metrics(items: Seq<MetricView>) -> Seq<MetricView>
    decreases items,
{
    Seq::new(
        items.len(),
        |i: int|
            if 0 <= i < items.len() {
                settled_metric(items[i])
            } else {
                arbitrary()
            },
    )
}

/// Whether every floating-point number in a list is a number.
pub open spec fn counts_metrics(items: Seq<MetricView>) -> bool
    decreases items,
{
    forall|i: int| 0 <= i < items.len() ==> counts_metric(#[trigger] items[i])
}

/// A template, with every zero in it without a sign.
pub open spec fn settled_template(t: TemplateView) -> TemplateView
    decreases t,
{
    TemplateView {
        metrics: settled_metrics(t.metrics),
        parameters: settled_parameters(t.parameters),
        ..t
    }
}

/// Whether every floating-point number in a template is a number.
pub open spec fn counts_template(t: TemplateView) -> bool
    decreases t,
{
    counts_metrics(t.metrics) && counts_parameters(t.parameters)
}

/// Numbers are equal when they are the same up to the sign of a zero, and are
/// numbers.
proof fn lemma_settled_floats(a: u32, b: u32, c: u64, d: u64)
    ensures
        float::same_single(a, b) <==> settled_single(a) == settled_single(b)
            && float::same_single(a, a) && float::same_single(b, b),
        float::same_double(c, d) <==> settled_double(c) == settled_double(d)
            && float::same_double(c, c) && float::same_double(d, d),
{
    float::law_only_the_zeros_differ_in_bits(a, b, c, d);
}

proof fn lemma_nested_settled(a: NestedValueView, b: NestedValueView)
    ensures
        same_nested(a, b) <==> settled_nested(a) == settled_nested(b) && counts_nested(a)
            && counts_nested(b),
{
    match (a, b) {
        (NestedValueView::FloatValue(x), NestedValueView::FloatValue(y)) => {
            lemma_settled_floats(x, y, 0, 0);
        },
        (NestedValueView::DoubleValue(x), NestedValueView::DoubleValue(y)) => {
            lemma_settled_floats(0, 0, x, y);
        },
        _ => {},
    }
}

proof fn lemma_held_settled(a: Option<NestedValueView>, b: Option<NestedValueView>)
    ensures
        same_held_nested(a, b) <==> settled_held(a) == settled_held(b) && counts_held(a)
            && counts_held(b),
{
    if let (Some(x), Some(y)) = (a, b) {
        lemma_nested_settled(x, y);
    }
}

proof fn lemma_cell_settled(a: DataSetValueView, b: DataSetValueView)
    ensures
        same_cell(a, b) <==> settled_cell(a) == settled_cell(b) && counts_cell(a) && counts_cell(b),
{
    lemma_held_settled(a.value, b.value);
}

proof fn lemma_cells_settled(a: Seq<DataSetValueView>, b: Seq<DataSetValueView>)
    ensures
        same_cells(a, b) <==> settled_cells(a) == settled_cells(b) && counts_cells(a) && counts_cells(b),
{
    if a.len() == b.len() {
        assert forall|i: int| 0 <= i < a.len() implies (same_cell(#[trigger] a[i], b[i]) <==> settled_cell(
            a[i],
        ) == settled_cell(b[i]) && counts_cell(a[i]) && counts_cell(b[i])) by {
            lemma_cell_settled(a[i], b[i]);
        }
        if same_cells(a, b) {
            assert forall|i: int| 0 <= i < b.len() implies counts_cell(#[trigger] b[i]) by {
                assert(same_cell(a[i], b[i]));
            }
            assert forall|i: int| 0 <= i < a.len() implies counts_cell(#[trigger] a[i]) by {
                assert(same_cell(a[i], b[i]));
            }
            assert forall|i: int| 0 <= i < a.len() implies settled_cells(a)[i] == settled_cells(b)[i] by {
                assert(same_cell(a[i], b[i]));
            }
            assert(settled_cells(a) =~= settled_cells(b));
        }
        if settled_cells(a) == settled_cells(b) && counts_cells(a) && counts_cells(b) {
            assert forall|i: int| 0 <= i < a.len() implies same_cell(#[trigger] a[i], b[i]) by {
                assert(settled_cells(a)[i] == settled_cells(b)[i]);
                assert(counts_cell(b[i]));
            }
        }
    } else {
        assert(settled_cells(a).len() != settled_cells(b).len());
    }
}

proof fn lemma_row_settled(a: RowView, b: RowView)
    ensures
        same_row(a, b) <==> settled_row(a) == settled_row(b) && counts_row(a) && counts_row(b),
{
    lemma_cells_settled(a.elements, b.elements);
}

proof fn lemma_rows_settled(a: Seq<RowView>, b: Seq<RowView>)
    ensures
        same_rows(a, b) <==> settled_rows(a) == settled_rows(b) && counts_rows(a) && counts_rows(b),
{
    if a.len() == b.len() {
        assert forall|i: int| 0 <= i < a.len() implies (same_row(#[trigger] a[i], b[i]) <==> settled_row(
            a[i],
        ) == settled_row(b[i]) && counts_row(a[i]) && counts_row(b[i])) by {
            lemma_row_settled(a[i], b[i]);
        }
        if same_rows(a, b) {
            assert forall|i: int| 0 <= i < b.len() implies counts_row(#[trigger] b[i]) by {
                assert(same_row(a[i], b[i]));
            }
            assert forall|i: int| 0 <= i < a.len() implies counts_row(#[trigger] a[i]) by {
                assert(same_row(a[i], b[i]));
            }
            assert forall|i: int| 0 <= i < a.len() implies settled_rows(a)[i] == settled_rows(b)[i] by {
                assert(same_row(a[i], b[i]));
            }
            assert(settled_rows(a) =~= settled_rows(b));
        }
        if settled_rows(a) == settled_rows(b) && counts_rows(a) && counts_rows(b) {
            assert forall|i: int| 0 <= i < a.len() implies same_row(#[trigger] a[i], b[i]) by {
                assert(settled_rows(a)[i] == settled_rows(b)[i]);
                assert(counts_row(b[i]));
            }
        }
    } else {
        assert(settled_rows(a).len() != settled_rows(b).len());
    }
}

/// Two data sets are equal when they are the same up to the sign of a zero,
/// and every floating-point number in them is a number.
pub proof fn law_equal_data_sets_are_the_same(a: DataSetView, b: DataSetView)
    ensures
        same_data_set(a, b) <==> settled_data_set(a) == settled_data_set(b) && counts_data_set(a)
            && counts_data_set(b),
{
    lemma_rows_settled(a.rows, b.rows);
}

proof fn lemma_parameter_settled(a: ParameterView, b: ParameterView)
    ensures
        same_parameter(a, b) <==> settled_parameter(a) == settled_parameter(b)
            && counts_parameter(a) && counts_parameter(b),
{
    lemma_held_settled(a.value, b.value);
}

proof fn lemma_parameters_settled(a: Seq<ParameterView>, b: Seq<ParameterView>)
    ensures
        same_parameters(a, b) <==> settled_parameters(a) == settled_parameters(b) && counts_parameters(a) && counts_parameters(b),
{
    if a.len() == b.len() {
        assert forall|i: int| 0 <= i < a.len() implies (same_parameter(#[trigger] a[i], b[i]) <==> settled_parameter(
            a[i],
        ) == settled_parameter(b[i]) && counts_parameter(a[i]) && counts_parameter(b[i])) by {
            lemma_parameter_settled(a[i], b[i]);
        }
        if same_parameters(a, b) {
            assert forall|i: int| 0 <= i < b.len() implies counts_parameter(#[trigger] b[i]) by {
                assert(same_parameter(a[i], b[i]));
            }
            assert forall|i: int| 0 <= i < a.len() implies counts_parameter(#[trigger] a[i]) by {
                assert(same_parameter(a[i], b[i]));
            }
            assert forall|i: int| 0 <= i < a.len() implies settled_parameters(a)[i] == settled_parameters(b)[i] by {
                assert(same_parameter(a[i], b[i]));
            }
            assert(settled_parameters(a) =~= settled_parameters(b));
        }
        if settled_parameters(a) == settled_parameters(b) && counts_parameters(a) && counts_parameters(b) {
            assert forall|i: int| 0 <= i < a.len() implies same_parameter(#[trigger] a[i], b[i]) by {
                assert(settled_parameters(a)[i] == settled_parameters(b)[i]);
                assert(counts_parameter(b[i]));
            }
        }
    } else {
        assert(settled_parameters(a).len() != settled_parameters(b).len());
    }
}

proof fn lemma_inner_settled(a: PropertyInnerView, b: PropertyInnerView)
    ensures
        same_inner(a, b) <==> settled_inner(a) == settled_inner(b) && counts_inner(a)
            && counts_inner(b),
    decreases a,
{
    match (a, b) {
        (PropertyInnerView::FloatValue(x), PropertyInnerView::FloatValue(y)) => {
            lemma_settled_floats(x, y, 0, 0);
        },
        (PropertyInnerView::DoubleValue(x), PropertyInnerView::DoubleValue(y)) => {
            lemma_settled_floats(0, 0, x, y);
        },
        (PropertyInnerView::PropertysetValue(x), PropertyInnerView::PropertysetValue(y)) => {
            law_equal_property_sets_are_the_same(x, y);
        },
        (PropertyInnerView::PropertysetsValue(x), PropertyInnerView::PropertysetsValue(y)) => {
            lemma_sets_settled(x, y);
        },
        _ => {},
    }
}

proof fn lemma_property_settled(a: PropertyValueView, b: PropertyValueView)
    ensures
        same_property(a, b) <==> settled_property(a) == settled_property(b) && counts_property(a)
            && counts_property(b),
    decreases a,
{
    if let (Some(x), Some(y)) = (a.value, b.value) {
        lemma_inner_settled(x, y);
    }
}

proof fn lemma_properties_settled(a: Seq<PropertyValueView>, b: Seq<PropertyValueView>)
    ensures
        same_properties(a, b) <==> settled_properties(a) == settled_properties(b) && counts_properties(a) && counts_properties(b),
    decreases a,
{
    if a.len() == b.len() {
        assert forall|i: int| 0 <= i < a.len() implies (same_property(#[trigger] a[i], b[i]) <==> settled_property(
            a[i],
        ) == settled_property(b[i]) && counts_property(a[i]) && counts_property(b[i])) by {
            lemma_property_settled(a[i], b[i]);
        }
        if same_properties(a, b) {
            assert forall|i: int| 0 <= i < b.len() implies counts_property(#[trigger] b[i]) by {
                assert(same_property(a[i], b[i]));
            }
            assert forall|i: int| 0 <= i < a.len() implies counts_property(#[trigger] a[i]) by {
                assert(same_property(a[i], b[i]));
            }
            assert forall|i: int| 0 <= i < a.len() implies settled_properties(a)[i] == settled_properties(b)[i] by {
                assert(same_property(a[i], b[i]));
            }
            assert(settled_properties(a) =~= settled_properties(b));
        }
        if settled_properties(a) == settled_properties(b) && counts_properties(a) && counts_properties(b) {
            assert forall|i: int| 0 <= i < a.len() implies same_property(#[trigger] a[i], b[i]) by {
                assert(settled_properties(a)[i] == settled_properties(b)[i]);
                assert(counts_property(b[i]));
            }
        }
    } else {
        assert(settled_properties(a).len() != settled_properties(b).len());
    }
}

/// Two property sets are equal when they are the same up to the sign of a
/// zero, and every floating-point number in them is a number.
pub proof fn law_equal_property_sets_are_the_same(a: PropertySetView, b: PropertySetView)
    ensures
        same_set(a, b) <==> settled_set(a) == settled_set(b) && counts_set(a) && counts_set(b),
    decreases a,
{
    lemma_properties_settled(a.values, b.values);
}

proof fn lemma_set_list_settled(a: Seq<PropertySetView>, b: Seq<PropertySetView>)
    ensures
        same_set_list(a, b) <==> settled_set_list(a) == settled_set_list(b) && counts_set_list(a) && counts_set_list(b),
    decreases a,
{
    if a.len() == b.len() {
        assert forall|i: int| 0 <= i < a.len() implies (same_set(#[trigger] a[i], b[i]) <==> settled_set(
            a[i],
        ) == settled_set(b[i]) && counts_set(a[i]) && counts_set(b[i])) by {
            law_equal_property_sets_are_the_same(a[i], b[i]);
        }
        if same_set_list(a, b) {
            assert forall|i: int| 0 <= i < b.len() implies counts_set(#[trigger] b[i]) by {
                assert(same_set(a[i], b[i]));
            }
            assert forall|i: int| 0 <= i < a.len() implies counts_set(#[trigger] a[i]) by {
                assert(same_set(a[i], b[i]));
            }
            assert forall|i: int| 0 <= i < a.len() implies settled_set_list(a)[i] == settled_set_list(b)[i] by {
                assert(same_set(a[i], b[i]));
            }
            assert(settled_set_list(a) =~= settled_set_list(b));
        }
        if settled_set_list(a) == settled_set_list(b) && counts_set_list(a) && counts_set_list(b) {
            assert forall|i: int| 0 <= i < a.len() implies same_set(#[trigger] a[i], b[i]) by {
                assert(settled_set_list(a)[i] == settled_set_list(b)[i]);
                assert(counts_set(b[i]));
            }
        }
    } else {
        assert(settled_set_list(a).len() != settled_set_list(b).len());
    }
}

proof fn lemma_sets_settled(a: PropertySetListView, b: PropertySetListView)
    ensures
        same_sets(a, b) <==> settled_sets(a) == settled_sets(b) && counts_sets(a) && counts_sets(b),
    decreases a,
{
    lemma_set_list_settled(a.propertyset, b.propertyset);
}

proof fn lemma_value_settled(a: ValueView, b: ValueView)
    ensures
        same_value(a, b) <==> settled_value(a) == settled_value(b) && counts_value(a)
            && counts_value(b),
    decreases a,
{
    match (a, b) {
        (ValueView::FloatValue(x), ValueView::FloatValue(y)) => {
            lemma_settled_floats(x, y, 0, 0);
        },
        (ValueView::DoubleValue(x), ValueView::DoubleValue(y)) => {
            lemma_settled_floats(0, 0, x, y);
        },
        (ValueView::DatasetValue(x), ValueView::DatasetValue(y)) => {
            law_equal_data_sets_are_the_same(x, y);
        },
        (ValueView::TemplateValue(x), ValueView::TemplateValue(y)) => {
            law_equal_templates_are_the_same(x, y);
        },
        _ => {},
    }
}

/// Two metrics are equal when they are the same, field for field, up to the
/// sign of a zero, and every floating-point number in them is a number.
pub proof fn law_equal_metrics_are_the_same(a: MetricView, b: MetricView)
    ensures
        same_metric(a, b) <==> settled_metric(a) == settled_metric(b) && counts_metric(a)
            && counts_metric(b),
    decreases a,
{
    if let (Some(x), Some(y)) = (a.properties, b.properties) {
        law_equal_property_sets_are_the_same(x, y);
    }
    if let (Some(x), Some(y)) = (a.value, b.value) {
        lemma_value_settled(x, y);
    }
}

proof fn lemma_metrics_settled(a: Seq<MetricView>, b: Seq<MetricView>)
    ensures
        same_metrics(a, b) <==> settled_metrics(a) == settled_metrics(b) && counts_metrics(a) && counts_metrics(b),
    decreases a,
{
    if a.len() == b.len() {
        assert forall|i: int| 0 <= i < a.len() implies (same_metric(#[trigger] a[i], b[i]) <==> settled_metric(
            a[i],
        ) == settled_metric(b[i]) && counts_metric(a[i]) && counts_metric(b[i])) by {
            law_equal_metrics_are_the_same(a[i], b[i]);
        }
        if same_metrics(a, b) {
            assert forall|i: int| 0 <= i < b.len() implies counts_metric(#[trigger] b[i]) by {
                assert(same_metric(a[i], b[i]));
            }
            assert forall|i: int| 0 <= i < a.len() implies counts_metric(#[trigger] a[i]) by {
                assert(same_metric(a[i], b[i]));
            }
            assert forall|i: int| 0 <= i < a.len() implies settled_metrics(a)[i] == settled_metrics(b)[i] by {
                assert(same_metric(a[i], b[i]));
            }
            assert(settled_metrics(a) =~= settled_metrics(b));
        }
        if settled_metrics(a) == settled_metrics(b) && counts_metrics(a) && counts_metrics(b) {
            assert forall|i: int| 0 <= i < a.len() implies same_metric(#[trigger] a[i], b[i]) by {
                assert(settled_metrics(a)[i] == settled_metrics(b)[i]);
                assert(counts_metric(b[i]));
            }
        }
    } else {
        assert(settled_metrics(a).len() != settled_metrics(b).len());
    }
}

/// Two templates are equal when they are the same up to the sign of a zero,
/// and every floating-point number in them is a number.
pub proof fn law_equal_templates_are_the_same(a: TemplateView, b: TemplateView)
    ensures
        same_template(a, b) <==> settled_template(a) == settled_template(b) && counts_template(a)
            && counts_template(b),
    decreases a,
{
    lemma_metrics_settled(a.metrics, b.metrics);
    lemma_parameters_settled(a.parameters, b.parameters);
}

/// Two payloads are equal when they are the same, field for field, up to the
/// sign of a zero, and every floating-point number in them is a number.
pub proof fn law_equal_payloads_are_the_same(a: PayloadView, b: PayloadView)
    ensures
        same_payload(a, b) <==> {
            &&& a.timestamp == b.timestamp
            &&& a.seq == b.seq
            &&& a.uuid == b.uuid
            &&& a.body == b.body
            &&& settled_metrics(a.metrics) == settled_metrics(b.metrics)
            &&& counts_metrics(a.metrics)
            &&& counts_metrics(b.metrics)
        },
{
    lemma_metrics_settled(a.metrics, b.metrics);
}

/// A metric equals itself when every floating-point number in it is a number,
/// and metadata always does.
pub proof fn law_a_message_equals_itself(m: MetricView, p: PayloadView, d: MetaDataView)
    ensures
        same_metric(m, m) <==> counts_metric(m),
        same_payload(p, p) <==> counts_metrics(p.metrics),
        same_meta_data(d, d),
        forall|other: MetaDataView| #[trigger] same_meta_data(d, other) ==> d == other,
{
    law_equal_metrics_are_the_same(m, m);
    law_equal_payloads_are_the_same(p, p);
}

/// `==` on metrics and payloads, and on their values, asks whether what they
/// hold is equal.
pub proof fn law_equality_compares_what_is_held(
    a: Metric,
    b: Metric,
    p: Payload,
    q: Payload,
    v: Value,
    w: Value,
)
    ensures
        PartialEqSpec::eq_spec(&a, &b) <==> same_metric(a@, b@),
        PartialEqSpec::eq_spec(&p, &q) <==> same_payload(p@, q@),
        PartialEqSpec::eq_spec(&v, &w) <==> same_value(v@, w@),
{
}

/// `==` on nested messages asks whether what they hold is equal.
pub proof fn law_equality_of_nested_messages_compares_what_is_held(
    metadata: (MetaData, MetaData),
    sets: (DataSet, DataSet),
    rows: (Row, Row),
    cells: (DataSetValue, DataSetValue),
    values: (NestedValue, NestedValue),
    properties: (PropertyValue, PropertyValue),
    inner: (PropertyInner, PropertyInner),
    property_sets: (PropertySet, PropertySet),
    lists: (PropertySetList, PropertySetList),
    templates: (Template, Template),
    parameters: (Parameter, Parameter),
)
    ensures
        PartialEqSpec::eq_spec(&metadata.0, &metadata.1) <==> same_meta_data(
            metadata.0@,
            metadata.1@,
        ),
        PartialEqSpec::eq_spec(&sets.0, &sets.1) <==> same_data_set(
            sets.0@,
            sets.1@,
        ),
        PartialEqSpec::eq_spec(&rows.0, &rows.1) <==> same_row(
            rows.0@,
            rows.1@,
        ),
        PartialEqSpec::eq_spec(&cells.0, &cells.1) <==> same_cell(
            cells.0@,
            cells.1@,
        ),
        PartialEqSpec::eq_spec(&values.0, &values.1) <==> same_nested(
            values.0@,
            values.1@,
        ),
        PartialEqSpec::eq_spec(&properties.0, &properties.1) <==> same_property(
            properties.0@,
            properties.1@,
        ),
        PartialEqSpec::eq_spec(&inner.0, &inner.1) <==> same_inner(
            inner.0@,
            inner.1@,
        ),
        PartialEqSpec::eq_spec(&property_sets.0, &property_sets.1) <==> same_set(
            property_sets.0@,
            property_sets.1@,
        ),
        PartialEqSpec::eq_spec(&lists.0, &lists.1) <==> same_sets(
            lists.0@,
            lists.1@,
        ),
        PartialEqSpec::eq_spec(&templates.0, &templates.1) <==> same_template(
            templates.0@,
            templates.1@,
        ),
        PartialEqSpec::eq_spec(&parameters.0, &parameters.1) <==> same_parameter(
            parameters.0@,
            parameters.1@,
        ),
{
}

/// The value of a metric, a property or a cell equals another when it is of
/// the same kind and holds the same, up to the sign of a zero, and is a number
/// if it is a floating-point number.
pub proof fn law_equal_values_are_the_same(
    a: ValueView,
    b: ValueView,
    p: PropertyInnerView,
    q: PropertyInnerView,
    v: NestedValueView,
    w: NestedValueView,
)
    ensures
        same_value(a, b) <==> settled_value(a) == settled_value(b) && counts_value(a)
            && counts_value(b),
        same_inner(p, q) <==> settled_inner(p) == settled_inner(q) && counts_inner(p)
            && counts_inner(q),
        same_nested(v, w) <==> settled_nested(v) == settled_nested(w) && counts_nested(v)
            && counts_nested(w),
{
    lemma_value_settled(a, b);
    lemma_inner_settled(p, q);
    lemma_nested_settled(v, w);
}

/// Cells, rows, properties, lists of property sets and parameters are equal
/// when they are the same up to the sign of a zero, and hold numbers only.
pub proof fn law_equal_parts_are_the_same(
    cells: (DataSetValueView, DataSetValueView),
    rows: (RowView, RowView),
    properties: (PropertyValueView, PropertyValueView),
    lists: (PropertySetListView, PropertySetListView),
    parameters: (ParameterView, ParameterView),
)
    ensures
        same_cell(cells.0, cells.1) <==> settled_cell(cells.0) == settled_cell(cells.1)
            && counts_cell(cells.0) && counts_cell(cells.1),
        same_row(rows.0, rows.1) <==> settled_row(rows.0) == settled_row(rows.1) && counts_row(
            rows.0,
        ) && counts_row(rows.1),
        same_property(properties.0, properties.1) <==> settled_property(properties.0)
            == settled_property(properties.1) && counts_property(properties.0)
            && counts_property(properties.1),
        same_sets(lists.0, lists.1) <==> settled_sets(lists.0) == settled_sets(lists.1)
            && counts_sets(lists.0) && counts_sets(lists.1),
        same_parameter(parameters.0, parameters.1) <==> settled_parameter(parameters.0)
            == settled_parameter(parameters.1) && counts_parameter(parameters.0)
            && counts_parameter(parameters.1),
{
    lemma_cell_settled(cells.0, cells.1);
    lemma_row_settled(rows.0, rows.1);
    lemma_property_settled(properties.0, properties.1);
    lemma_sets_settled(lists.0, lists.1);
    lemma_parameter_settled(parameters.0, parameters.1);
}

/// `==` does what its contract says, on every message and every value.
pub proof fn law_equality_keeps_its_contract()
    ensures
        <MetaData as PartialEqSpec>::obeys_eq_spec(),
        <NestedValue as PartialEqSpec>::obeys_eq_spec(),
        <DataSetValue as PartialEqSpec>::obeys_eq_spec(),
        <Row as PartialEqSpec>::obeys_eq_spec(),
        <DataSet as PartialEqSpec>::obeys_eq_spec(),
        <PropertyInner as PartialEqSpec>::obeys_eq_spec(),
        <PropertyValue as PartialEqSpec>::obeys_eq_spec(),
        <PropertySet as PartialEqSpec>::obeys_eq_spec(),
        <PropertySetList as PartialEqSpec>::obeys_eq_spec(),
        <Parameter as PartialEqSpec>::obeys_eq_spec(),
        <Value as PartialEqSpec>::obeys_eq_spec(),
        <Metric as PartialEqSpec>::obeys_eq_spec(),
        <Template as PartialEqSpec>::obeys_eq_spec(),
        <Payload as PartialEqSpec>::obeys_eq_spec(),
        <crate::payload::metric::Single as PartialEqSpec>::obeys_eq_spec(),
        <crate::payload::metric::Double as PartialEqSpec>::obeys_eq_spec(),
        <crate::sparkplug::types::MetricValue as PartialEqSpec>::obeys_eq_spec(),
{
}

} // verus!
