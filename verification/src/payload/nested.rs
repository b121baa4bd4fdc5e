//! The messages that nest inside a metric.
//!
//! A property may hold properties in turn, and a template holds metrics, so
//! both go as deep as they like.

use crate::payload::metric::{Double, Single};
use crate::payload::{self, Metric, MetricView};
use crate::text;
use vstd::prelude::*;

verus! {

/// The views of a list.
pub open spec fn views<T: View>(items: Seq<T>) -> Seq<T::V> {
    items.map_values(|item: T| item@)
}

// ---------------------------------------------------------------------------
// Metadata
// ---------------------------------------------------------------------------

/// What a metric says about the bytes it carries.
#[derive(Debug)]
pub struct MetaData {
    pub is_multi_part: Option<bool>,
    pub content_type: Option<String>,
    pub size: Option<u64>,
    pub seq: Option<u64>,
    pub file_name: Option<String>,
    pub file_type: Option<String>,
    pub md5: Option<String>,
    pub description: Option<String>,
}

/// What a [`MetaData`] holds.
#[verifier::ext_equal]
pub struct MetaDataView {
    pub is_multi_part: Option<bool>,
    pub content_type: Option<Seq<char>>,
    pub size: Option<u64>,
    pub seq: Option<u64>,
    pub file_name: Option<Seq<char>>,
    pub file_type: Option<Seq<char>>,
    pub md5: Option<Seq<char>>,
    pub description: Option<Seq<char>>,
}

impl View for MetaData {
    type V = MetaDataView;

    open spec fn view(&self) -> MetaDataView {
        MetaDataView {
            is_multi_part: self.is_multi_part,
            content_type: payload::view_of(self.content_type),
            size: self.size,
            seq: self.seq,
            file_name: payload::view_of(self.file_name),
            file_type: payload::view_of(self.file_type),
            md5: payload::view_of(self.md5),
            description: payload::view_of(self.description),
        }
    }
}

/// Metadata that says nothing.
pub open spec fn no_meta_data() -> MetaDataView {
    MetaDataView {
        is_multi_part: None,
        content_type: None,
        size: None,
        seq: None,
        file_name: None,
        file_type: None,
        md5: None,
        description: None,
    }
}

impl Default for MetaData {
    fn default() -> (meta: Self)
        ensures
            meta@ == no_meta_data(),
    {
        MetaData {
            is_multi_part: None,
            content_type: None,
            size: None,
            seq: None,
            file_name: None,
            file_type: None,
            md5: None,
            description: None,
        }
    }
}

impl Clone for MetaData {
    fn clone(&self) -> (copy: Self)
        ensures
            copy@ == self@,
    {
        MetaData {
            is_multi_part: self.is_multi_part,
            content_type: payload::copy_text(&self.content_type),
            size: self.size,
            seq: self.seq,
            file_name: payload::copy_text(&self.file_name),
            file_type: payload::copy_text(&self.file_type),
            md5: payload::copy_text(&self.md5),
            description: payload::copy_text(&self.description),
        }
    }
}

// ---------------------------------------------------------------------------
// Plain values
// ---------------------------------------------------------------------------

/// The value of a parameter, or of a cell of a data set.
#[derive(Debug)]
pub enum NestedValue {
    IntValue(u32),
    LongValue(u64),
    FloatValue(Single),
    DoubleValue(Double),
    BooleanValue(bool),
    StringValue(String),
    /// A message with no field of its own.
    ExtensionValue,
}

/// What a [`NestedValue`] holds.
#[verifier::ext_equal]
pub enum NestedValueView {
    IntValue(u32),
    LongValue(u64),
    FloatValue(u32),
    DoubleValue(u64),
    BooleanValue(bool),
    StringValue(Seq<char>),
    ExtensionValue,
}

impl View for NestedValue {
    type V = NestedValueView;

    open spec fn view(&self) -> NestedValueView {
        match self {
            NestedValue::IntValue(v) => NestedValueView::IntValue(*v),
            NestedValue::LongValue(v) => NestedValueView::LongValue(*v),
            NestedValue::FloatValue(v) => NestedValueView::FloatValue(v.0),
            NestedValue::DoubleValue(v) => NestedValueView::DoubleValue(v.0),
            NestedValue::BooleanValue(v) => NestedValueView::BooleanValue(*v),
            NestedValue::StringValue(v) => NestedValueView::StringValue(v@),
            NestedValue::ExtensionValue => NestedValueView::ExtensionValue,
        }
    }
}

impl Clone for NestedValue {
    fn clone(&self) -> (copy: Self)
        ensures
            copy@ == self@,
    {
        match self {
            NestedValue::IntValue(v) => NestedValue::IntValue(*v),
            NestedValue::LongValue(v) => NestedValue::LongValue(*v),
            NestedValue::FloatValue(v) => NestedValue::FloatValue(*v),
            NestedValue::DoubleValue(v) => NestedValue::DoubleValue(*v),
            NestedValue::BooleanValue(v) => NestedValue::BooleanValue(*v),
            NestedValue::StringValue(v) => NestedValue::StringValue(v.clone()),
            NestedValue::ExtensionValue => NestedValue::ExtensionValue,
        }
    }
}

/// Copy a value that may be missing.
fn copy_nested(held: &Option<NestedValue>) -> (copy: Option<NestedValue>)
    ensures
        payload::view_of(copy) == payload::view_of(*held),
{
    match held {
        Some(value) => Some(value.clone()),
        None => None,
    }
}

/// Copy a list of texts.
fn copy_texts(items: &Vec<String>) -> (copy: Vec<String>)
    ensures
        text::text_views(copy@) == text::text_views(items@),
{
    let mut copy: Vec<String> = Vec::new();
    let mut i: usize = 0;
    while i < items.len()
        invariant
            i <= items.len(),
            i == copy.len(),
            forall|j: int| 0 <= j < i ==> (#[trigger] copy@[j])@ == items@[j]@,
        decreases items.len() - i,
    {
        copy.push(items[i].clone());
        i += 1;
    }
    assert(text::text_views(copy@) =~= text::text_views(items@));
    copy
}

// ---------------------------------------------------------------------------
// Data sets
// ---------------------------------------------------------------------------

/// One cell of a data set.
#[derive(Debug)]
pub struct DataSetValue {
    pub value: Option<NestedValue>,
}

/// What a [`DataSetValue`] holds.
#[verifier::ext_equal]
pub struct DataSetValueView {
    pub value: Option<NestedValueView>,
}

impl View for DataSetValue {
    type V = DataSetValueView;

    open spec fn view(&self) -> DataSetValueView {
        DataSetValueView { value: payload::view_of(self.value) }
    }
}

impl Clone for DataSetValue {
    fn clone(&self) -> (copy: Self)
        ensures
            copy@ == self@,
    {
        DataSetValue { value: copy_nested(&self.value) }
    }
}

/// Copy a list.
fn copy_cells(items: &Vec<DataSetValue>) -> (copy: Vec<DataSetValue>)
    ensures
        views(copy@) == views(items@),
{
    let mut copy: Vec<DataSetValue> = Vec::new();
    let mut i: usize = 0;
    while i < items.len()
        invariant
            i <= items.len(),
            i == copy.len(),
            forall|j: int| 0 <= j < i ==> (#[trigger] copy@[j])@ == items@[j]@,
        decreases items.len() - i,
    {
        copy.push(items[i].clone());
        i += 1;
    }
    assert(views(copy@) =~= views(items@));
    copy
}

/// One row of a data set.
#[derive(Debug)]
pub struct Row {
    pub elements: Vec<DataSetValue>,
}

/// What a [`Row`] holds.
#[verifier::ext_equal]
pub struct RowView {
    pub elements: Seq<DataSetValueView>,
}

impl View for Row {
    type V = RowView;

    open spec fn view(&self) -> RowView {
        RowView { elements: views(self.elements@) }
    }
}

impl Clone for Row {
    fn clone(&self) -> (copy: Self)
        ensures
            copy@ == self@,
    {
        Row { elements: copy_cells(&self.elements) }
    }
}

/// Copy a list.
fn copy_rows(items: &Vec<Row>) -> (copy: Vec<Row>)
    ensures
        views(copy@) == views(items@),
{
    let mut copy: Vec<Row> = Vec::new();
    let mut i: usize = 0;
    while i < items.len()
        invariant
            i <= items.len(),
            i == copy.len(),
            forall|j: int| 0 <= j < i ==> (#[trigger] copy@[j])@ == items@[j]@,
        decreases items.len() - i,
    {
        copy.push(items[i].clone());
        i += 1;
    }
    assert(views(copy@) =~= views(items@));
    copy
}

/// A table of values.
#[derive(Debug)]
pub struct DataSet {
    pub num_of_columns: Option<u64>,
    pub columns: Vec<String>,
    /// The code of a [`crate::DataType`] for each column.
    pub types: Vec<u32>,
    pub rows: Vec<Row>,
}

/// What a [`DataSet`] holds.
#[verifier::ext_equal]
pub struct DataSetView {
    pub num_of_columns: Option<u64>,
    pub columns: Seq<Seq<char>>,
    pub types: Seq<u32>,
    pub rows: Seq<RowView>,
}

impl View for DataSet {
    type V = DataSetView;

    open spec fn view(&self) -> DataSetView {
        DataSetView {
            num_of_columns: self.num_of_columns,
            columns: text::text_views(self.columns@),
            types: self.types@,
            rows: views(self.rows@),
        }
    }
}

/// A data set that holds nothing.
pub open spec fn no_data_set() -> DataSetView {
    DataSetView { num_of_columns: None, columns: seq![], types: seq![], rows: seq![] }
}

impl Default for DataSet {
    fn default() -> (set: Self)
        ensures
            set@ == no_data_set(),
    {
        let set = DataSet {
            num_of_columns: None,
            columns: Vec::new(),
            types: Vec::new(),
            rows: Vec::new(),
        };
        assert(set@ =~= no_data_set());
        set
    }
}

impl Clone for DataSet {
    fn clone(&self) -> (copy: Self)
        ensures
            copy@ == self@,
    {
        let types = self.types.clone();
        assert(types@ =~= self.types@);
        DataSet {
            num_of_columns: self.num_of_columns,
            columns: copy_texts(&self.columns),
            types,
            rows: copy_rows(&self.rows),
        }
    }
}

// ---------------------------------------------------------------------------
// Properties
// ---------------------------------------------------------------------------

/// One of the values a property can hold.
#[derive(Debug)]
pub enum PropertyInner {
    IntValue(u32),
    LongValue(u64),
    FloatValue(Single),
    DoubleValue(Double),
    BooleanValue(bool),
    StringValue(String),
    PropertysetValue(PropertySet),
    PropertysetsValue(PropertySetList),
    /// A message with no field of its own.
    ExtensionValue,
}

/// What a [`PropertyInner`] holds.
pub enum PropertyInnerView {
    IntValue(u32),
    LongValue(u64),
    FloatValue(u32),
    DoubleValue(u64),
    BooleanValue(bool),
    StringValue(Seq<char>),
    PropertysetValue(PropertySetView),
    PropertysetsValue(PropertySetListView),
    ExtensionValue,
}

/// One property of a metric.
#[derive(Debug)]
pub struct PropertyValue {
    /// The code of a [`crate::DataType`].
    pub datatype: Option<u32>,
    pub is_null: Option<bool>,
    pub value: Option<PropertyInner>,
}

/// What a [`PropertyValue`] holds.
#[verifier::ext_equal]
pub struct PropertyValueView {
    pub datatype: Option<u32>,
    pub is_null: Option<bool>,
    pub value: Option<PropertyInnerView>,
}

/// The properties of a metric: keys, and the values beside them.
#[derive(Debug)]
pub struct PropertySet {
    pub keys: Vec<String>,
    pub values: Vec<PropertyValue>,
}

/// What a [`PropertySet`] holds.
#[verifier::ext_equal]
pub struct PropertySetView {
    pub keys: Seq<Seq<char>>,
    pub values: Seq<PropertyValueView>,
}

/// A list of property sets.
#[derive(Debug)]
pub struct PropertySetList {
    pub propertyset: Vec<PropertySet>,
}

/// What a [`PropertySetList`] holds.
#[verifier::ext_equal]
pub struct PropertySetListView {
    pub propertyset: Seq<PropertySetView>,
}

/// What the value of a property holds.
pub open spec fn inner_view(inner: PropertyInner) -> PropertyInnerView
    decreases inner,
{
    match inner {
        PropertyInner::IntValue(v) => PropertyInnerView::IntValue(v),
        PropertyInner::LongValue(v) => PropertyInnerView::LongValue(v),
        PropertyInner::FloatValue(v) => PropertyInnerView::FloatValue(v.0),
        PropertyInner::DoubleValue(v) => PropertyInnerView::DoubleValue(v.0),
        PropertyInner::BooleanValue(v) => PropertyInnerView::BooleanValue(v),
        PropertyInner::StringValue(v) => PropertyInnerView::StringValue(v@),
        PropertyInner::PropertysetValue(v) => PropertyInnerView::PropertysetValue(set_view(v)),
        PropertyInner::PropertysetsValue(v) => PropertyInnerView::PropertysetsValue(sets_view(v)),
        PropertyInner::ExtensionValue => PropertyInnerView::ExtensionValue,
    }
}

/// What a property holds.
pub open spec fn property_view(property: PropertyValue) -> PropertyValueView
    decreases property,
{
    PropertyValueView {
        datatype: property.datatype,
        is_null: property.is_null,
        value: match property.value {
            Some(inner) => Some(inner_view(inner)),
            None => None,
        },
    }
}

/// What a property set holds.
pub open spec fn set_view(set: PropertySet) -> PropertySetView
    decreases set,
{
    PropertySetView {
        keys: text::text_views(set.keys@),
        values: Seq::new(
            set.values@.len(),
            |i: int|
                if 0 <= i < set.values@.len() {
                    property_view(set.values@[i])
                } else {
                    arbitrary()
                },
        ),
    }
}

/// What a list of property sets holds.
pub open spec fn sets_view(list: PropertySetList) -> PropertySetListView
    decreases list,
{
    PropertySetListView {
        propertyset: Seq::new(
            list.propertyset@.len(),
            |i: int|
                if 0 <= i < list.propertyset@.len() {
                    set_view(list.propertyset@[i])
                } else {
                    arbitrary()
                },
        ),
    }
}

impl View for PropertyInner {
    type V = PropertyInnerView;

    open spec fn view(&self) -> PropertyInnerView {
        inner_view(*self)
    }
}

impl View for PropertyValue {
    type V = PropertyValueView;

    open spec fn view(&self) -> PropertyValueView {
        property_view(*self)
    }
}

impl View for PropertySet {
    type V = PropertySetView;

    open spec fn view(&self) -> PropertySetView {
        set_view(*self)
    }
}

impl View for PropertySetList {
    type V = PropertySetListView;

    open spec fn view(&self) -> PropertySetListView {
        sets_view(*self)
    }
}

/// A property set that holds nothing.
pub open spec fn no_property_set() -> PropertySetView {
    PropertySetView { keys: seq![], values: seq![] }
}

impl Default for PropertySet {
    fn default() -> (set: Self)
        ensures
            set@ == no_property_set(),
    {
        let set = PropertySet { keys: Vec::new(), values: Vec::new() };
        assert(set@.keys =~= no_property_set().keys);
        assert(set@.values =~= no_property_set().values);
        set
    }
}

/// A list of no property sets.
pub open spec fn no_property_sets() -> PropertySetListView {
    PropertySetListView { propertyset: seq![] }
}

impl Default for PropertySetList {
    fn default() -> (list: Self)
        ensures
            list@ == no_property_sets(),
    {
        let list = PropertySetList { propertyset: Vec::new() };
        assert(list@.propertyset =~= no_property_sets().propertyset);
        list
    }
}

fn copy_inner(inner: &PropertyInner) -> (copy: PropertyInner)
    ensures
        copy@ == inner@,
    decreases inner,
{
    match inner {
        PropertyInner::IntValue(v) => PropertyInner::IntValue(*v),
        PropertyInner::LongValue(v) => PropertyInner::LongValue(*v),
        PropertyInner::FloatValue(v) => PropertyInner::FloatValue(*v),
        PropertyInner::DoubleValue(v) => PropertyInner::DoubleValue(*v),
        PropertyInner::BooleanValue(v) => PropertyInner::BooleanValue(*v),
        PropertyInner::StringValue(v) => PropertyInner::StringValue(v.clone()),
        PropertyInner::PropertysetValue(v) => PropertyInner::PropertysetValue(copy_set(v)),
        PropertyInner::PropertysetsValue(v) => PropertyInner::PropertysetsValue(copy_sets(v)),
        PropertyInner::ExtensionValue => PropertyInner::ExtensionValue,
    }
}

fn copy_property(property: &PropertyValue) -> (copy: PropertyValue)
    ensures
        copy@ == property@,
    decreases property,
{
    PropertyValue {
        datatype: property.datatype,
        is_null: property.is_null,
        value: match &property.value {
            Some(inner) => Some(copy_inner(inner)),
            None => None,
        },
    }
}

fn copy_set(set: &PropertySet) -> (copy: PropertySet)
    ensures
        copy@ == set@,
    decreases set,
{
    let mut values: Vec<PropertyValue> = Vec::new();
    let mut i: usize = 0;
    while i < set.values.len()
        invariant
            i <= set.values.len(),
            i == values.len(),
            forall|j: int| 0 <= j < i ==> (#[trigger] values@[j])@ == set.values@[j]@,
        decreases set.values.len() - i,
    {
        assert(decreases_to!(set => set.values@[i as int]));
        values.push(copy_property(&set.values[i]));
        i += 1;
    }
    let copy = PropertySet { keys: copy_texts(&set.keys), values };
    assert(copy@.values =~= set@.values);
    copy
}

fn copy_sets(list: &PropertySetList) -> (copy: PropertySetList)
    ensures
        copy@ == list@,
    decreases list,
{
    let mut propertyset: Vec<PropertySet> = Vec::new();
    let mut i: usize = 0;
    while i < list.propertyset.len()
        invariant
            i <= list.propertyset.len(),
            i == propertyset.len(),
            forall|j: int| 0 <= j < i ==> (#[trigger] propertyset@[j])@ == list.propertyset@[j]@,
        decreases list.propertyset.len() - i,
    {
        assert(decreases_to!(list => list.propertyset@[i as int]));
        propertyset.push(copy_set(&list.propertyset[i]));
        i += 1;
    }
    let copy = PropertySetList { propertyset };
    assert(copy@.propertyset =~= list@.propertyset);
    copy
}

impl Clone for PropertyInner {
    fn clone(&self) -> (copy: Self)
        ensures
            copy@ == self@,
    {
        copy_inner(self)
    }
}

impl Clone for PropertyValue {
    fn clone(&self) -> (copy: Self)
        ensures
            copy@ == self@,
    {
        copy_property(self)
    }
}

impl Clone for PropertySet {
    fn clone(&self) -> (copy: Self)
        ensures
            copy@ == self@,
    {
        copy_set(self)
    }
}

impl Clone for PropertySetList {
    fn clone(&self) -> (copy: Self)
        ensures
            copy@ == self@,
    {
        copy_sets(self)
    }
}

// ---------------------------------------------------------------------------
// Templates
// ---------------------------------------------------------------------------

/// One parameter of a template.
#[derive(Debug)]
pub struct Parameter {
    pub name: Option<String>,
    /// The code of a [`crate::DataType`].
    pub datatype: Option<u32>,
    pub value: Option<NestedValue>,
}

/// What a [`Parameter`] holds.
#[verifier::ext_equal]
pub struct ParameterView {
    pub name: Option<Seq<char>>,
    pub datatype: Option<u32>,
    pub value: Option<NestedValueView>,
}

impl View for Parameter {
    type V = ParameterView;

    open spec fn view(&self) -> ParameterView {
        ParameterView {
            name: payload::view_of(self.name),
            datatype: self.datatype,
            value: payload::view_of(self.value),
        }
    }
}

impl Clone for Parameter {
    fn clone(&self) -> (copy: Self)
        ensures
            copy@ == self@,
    {
        Parameter {
            name: payload::copy_text(&self.name),
            datatype: self.datatype,
            value: copy_nested(&self.value),
        }
    }
}

/// Copy a list.
fn copy_parameters(items: &Vec<Parameter>) -> (copy: Vec<Parameter>)
    ensures
        views(copy@) == views(items@),
{
    let mut copy: Vec<Parameter> = Vec::new();
    let mut i: usize = 0;
    while i < items.len()
        invariant
            i <= items.len(),
            i == copy.len(),
            forall|j: int| 0 <= j < i ==> (#[trigger] copy@[j])@ == items@[j]@,
        decreases items.len() - i,
    {
        copy.push(items[i].clone());
        i += 1;
    }
    assert(views(copy@) =~= views(items@));
    copy
}

/// A definition, or an instance, of a group of metrics.
#[derive(Debug)]
pub struct Template {
    pub version: Option<String>,
    pub metrics: Vec<Metric>,
    pub parameters: Vec<Parameter>,
    pub template_ref: Option<String>,
    pub is_definition: Option<bool>,
}

/// What a [`Template`] holds.
#[verifier::ext_equal]
pub struct TemplateView {
    pub version: Option<Seq<char>>,
    pub metrics: Seq<MetricView>,
    pub parameters: Seq<ParameterView>,
    pub template_ref: Option<Seq<char>>,
    pub is_definition: Option<bool>,
}

/// What a template holds.
pub open spec fn template_view(template: Template) -> TemplateView
    decreases template,
{
    TemplateView {
        version: payload::view_of(template.version),
        metrics: Seq::new(
            template.metrics@.len(),
            |i: int|
                if 0 <= i < template.metrics@.len() {
                    payload::metric_view(template.metrics@[i])
                } else {
                    arbitrary()
                },
        ),
        parameters: views(template.parameters@),
        template_ref: payload::view_of(template.template_ref),
        is_definition: template.is_definition,
    }
}

impl View for Template {
    type V = TemplateView;

    open spec fn view(&self) -> TemplateView {
        template_view(*self)
    }
}

/// A template that holds nothing.
pub open spec fn no_template() -> TemplateView {
    TemplateView {
        version: None,
        metrics: seq![],
        parameters: seq![],
        template_ref: None,
        is_definition: None,
    }
}

impl Default for Template {
    fn default() -> (template: Self)
        ensures
            template@ == no_template(),
    {
        let template = Template {
            version: None,
            metrics: Vec::new(),
            parameters: Vec::new(),
            template_ref: None,
            is_definition: None,
        };
        assert(template@.metrics =~= no_template().metrics);
        assert(template@.parameters =~= no_template().parameters);
        template
    }
}

/// Copy a template.
pub(crate) fn copy_template(template: &Template) -> (copy: Template)
    ensures
        copy@ == template@,
    decreases template,
{
    let mut metrics: Vec<Metric> = Vec::new();
    let mut i: usize = 0;
    while i < template.metrics.len()
        invariant
            i <= template.metrics.len(),
            i == metrics.len(),
            forall|j: int| 0 <= j < i ==> (#[trigger] metrics@[j])@ == template.metrics@[j]@,
        decreases template.metrics.len() - i,
    {
        assert(decreases_to!(template => template.metrics@[i as int]));
        metrics.push(payload::copy_metric(&template.metrics[i]));
        i += 1;
    }
    let copy = Template {
        version: payload::copy_text(&template.version),
        metrics,
        parameters: copy_parameters(&template.parameters),
        template_ref: payload::copy_text(&template.template_ref),
        is_definition: template.is_definition,
    };
    assert(copy@.metrics =~= template@.metrics);
    copy
}

impl Clone for Template {
    fn clone(&self) -> (copy: Self)
        ensures
            copy@ == self@,
    {
        copy_template(self)
    }
}

/// What metadata holds is what its fields hold, each under its own name.
pub proof fn law_metadata_shows_its_fields(m: MetaData)
    ensures
        m@.is_multi_part == m.is_multi_part,
        m@.size == m.size,
        m@.seq == m.seq,
        m.content_type matches Some(held) ==> m@.content_type == Some(held@),
        m.content_type is None ==> m@.content_type is None,
        m.file_name matches Some(held) ==> m@.file_name == Some(held@),
        m.file_name is None ==> m@.file_name is None,
        m.file_type matches Some(held) ==> m@.file_type == Some(held@),
        m.file_type is None ==> m@.file_type is None,
        m.md5 matches Some(held) ==> m@.md5 == Some(held@),
        m.md5 is None ==> m@.md5 is None,
        m.description matches Some(held) ==> m@.description == Some(held@),
        m.description is None ==> m@.description is None,
{
}

/// What a value of a cell or a parameter holds is what its variant holds.
pub proof fn law_a_nested_value_shows_what_it_holds(value: NestedValue)
    ensures
        match value {
            NestedValue::IntValue(v) => value@ == NestedValueView::IntValue(v),
            NestedValue::LongValue(v) => value@ == NestedValueView::LongValue(v),
            NestedValue::FloatValue(v) => value@ == NestedValueView::FloatValue(v.0),
            NestedValue::DoubleValue(v) => value@ == NestedValueView::DoubleValue(v.0),
            NestedValue::BooleanValue(v) => value@ == NestedValueView::BooleanValue(v),
            NestedValue::StringValue(v) => value@ == NestedValueView::StringValue(v@),
            NestedValue::ExtensionValue => value@ == NestedValueView::ExtensionValue,
        },
{
}

/// What a data set holds is what its fields hold, list by list and in order,
/// down to the value of each cell.
pub proof fn law_a_data_set_shows_its_fields(d: DataSet, row: Row, cell: DataSetValue)
    ensures
        d@.num_of_columns == d.num_of_columns,
        d@.columns.len() == d.columns@.len(),
        forall|i: int| 0 <= i < d.columns@.len() ==> #[trigger] d@.columns[i] == d.columns@[i]@,
        d@.types == d.types@,
        d@.rows.len() == d.rows@.len(),
        forall|i: int| 0 <= i < d.rows@.len() ==> #[trigger] d@.rows[i] == d.rows@[i]@,
        row@.elements.len() == row.elements@.len(),
        forall|i: int|
            0 <= i < row.elements@.len() ==> #[trigger] row@.elements[i] == row.elements@[i]@,
        cell.value matches Some(value) ==> cell@.value == Some(value@),
        cell.value is None ==> cell@.value is None,
{
}

/// What a property holds is what its fields hold, whatever stands in it.
pub proof fn law_a_property_shows_its_fields(p: PropertyValue, inner: PropertyInner)
    ensures
        p@.datatype == p.datatype,
        p@.is_null == p.is_null,
        p.value matches Some(value) ==> p@.value == Some(value@),
        p.value is None ==> p@.value is None,
        match inner {
            PropertyInner::IntValue(v) => inner@ == PropertyInnerView::IntValue(v),
            PropertyInner::LongValue(v) => inner@ == PropertyInnerView::LongValue(v),
            PropertyInner::FloatValue(v) => inner@ == PropertyInnerView::FloatValue(v.0),
            PropertyInner::DoubleValue(v) => inner@ == PropertyInnerView::DoubleValue(v.0),
            PropertyInner::BooleanValue(v) => inner@ == PropertyInnerView::BooleanValue(v),
            PropertyInner::StringValue(v) => inner@ == PropertyInnerView::StringValue(v@),
            PropertyInner::PropertysetValue(v) => inner@ == PropertyInnerView::PropertysetValue(
                v@,
            ),
            PropertyInner::PropertysetsValue(v) => inner@ == PropertyInnerView::PropertysetsValue(
                v@,
            ),
            PropertyInner::ExtensionValue => inner@ == PropertyInnerView::ExtensionValue,
        },
{
}

/// What property sets hold is what their fields hold, in order.
pub proof fn law_a_property_set_shows_its_fields(s: PropertySet, l: PropertySetList)
    ensures
        s@.keys.len() == s.keys@.len(),
        forall|i: int| 0 <= i < s.keys@.len() ==> #[trigger] s@.keys[i] == s.keys@[i]@,
        s@.values.len() == s.values@.len(),
        forall|i: int| 0 <= i < s.values@.len() ==> #[trigger] s@.values[i] == s.values@[i]@,
        l@.propertyset.len() == l.propertyset@.len(),
        forall|i: int|
            0 <= i < l.propertyset@.len() ==> #[trigger] l@.propertyset[i] == l.propertyset@[i]@,
{
}

/// What a template holds is what its fields hold, its metrics and its
/// parameters in order.
pub proof fn law_a_template_shows_its_fields(t: Template, p: Parameter)
    ensures
        t@.is_definition == t.is_definition,
        t@.metrics.len() == t.metrics@.len(),
        forall|i: int| 0 <= i < t.metrics@.len() ==> #[trigger] t@.metrics[i] == t.metrics@[i]@,
        t@.parameters.len() == t.parameters@.len(),
        forall|i: int|
            0 <= i < t.parameters@.len() ==> #[trigger] t@.parameters[i] == t.parameters@[i]@,
        t.version matches Some(held) ==> t@.version == Some(held@),
        t.version is None ==> t@.version is None,
        t.template_ref matches Some(held) ==> t@.template_ref == Some(held@),
        t.template_ref is None ==> t@.template_ref is None,
        p.name matches Some(held) ==> p@.name == Some(held@),
        p.name is None ==> p@.name is None,
        p@.datatype == p.datatype,
        p.value matches Some(held) ==> p@.value == Some(held@),
        p.value is None ==> p@.value is None,
{
}

/// A nested message that holds nothing holds nothing in any field.
pub proof fn law_nothing_nested_is_held_at_first()
    ensures
        no_meta_data().is_multi_part is None,
        no_meta_data().content_type is None,
        no_meta_data().size is None,
        no_meta_data().seq is None,
        no_meta_data().file_name is None,
        no_meta_data().file_type is None,
        no_meta_data().md5 is None,
        no_meta_data().description is None,
        no_data_set().num_of_columns is None,
        no_data_set().columns.len() == 0,
        no_data_set().types.len() == 0,
        no_data_set().rows.len() == 0,
        no_property_set().keys.len() == 0,
        no_property_set().values.len() == 0,
        no_property_sets().propertyset.len() == 0,
        no_template().version is None,
        no_template().metrics.len() == 0,
        no_template().parameters.len() == 0,
        no_template().template_ref is None,
        no_template().is_definition is None,
{
}

} // verus!
