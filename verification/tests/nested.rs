//! The messages that nest inside a metric.

use sparkplug_mqtt::{
    decode_payload, metric, DataSet, DataSetValue, MetaData, Metric, NestedValue, Parameter,
    Payload, PropertyInner, PropertySet, PropertySetList, PropertyValue, Row, SparkplugError,
    Template,
};

/// The metric that a payload holds behind one field of raw bytes.
fn read_metric(bytes: &[u8]) -> Metric {
    Metric::decode(bytes).expect("the schema accepts it")
}

const METADATA: [u8; 21] = [
    0x08, 0x01, // is_multi_part
    0x12, 0x01, b'c', // content_type
    0x18, 0xac, 0x02, // size
    0x20, 0x03, // seq
    0x2a, 0x01, b'f', // file_name
    0x32, 0x01, b't', // file_type
    0x3a, 0x01, b'm', // md5
    0x42, 0x00, // description
];

#[test]
fn metadata_is_read_and_written() {
    let metadata = MetaData {
        is_multi_part: Some(true),
        content_type: Some("c".to_owned()),
        size: Some(300),
        seq: Some(3),
        file_name: Some("f".to_owned()),
        file_type: Some("t".to_owned()),
        md5: Some("m".to_owned()),
        description: Some(String::new()),
    };
    assert_eq!(MetaData::decode(&METADATA).unwrap(), metadata);
    assert_eq!(metadata.encode_to_vec(), METADATA.to_vec());
    assert_eq!(metadata.clone(), metadata);

    let mut bytes = vec![0x42, 21];
    bytes.extend_from_slice(&METADATA);
    assert_eq!(read_metric(&bytes).metadata, Some(metadata));
    assert_eq!(read_metric(&bytes).encode_to_vec(), bytes);
}

#[test]
fn a_later_field_of_metadata_replaces_an_earlier_one() {
    // size 1, an unknown field, and size 2.
    let read = MetaData::decode(&[0x18, 0x01, 0x78, 0x05, 0x18, 0x02]).unwrap();
    assert_eq!(
        read,
        MetaData {
            size: Some(2),
            ..Default::default()
        }
    );
    assert_eq!(read.encode_to_vec(), vec![0x18, 0x02]);
}

#[test]
fn a_metric_that_holds_nothing_reads_nothing() {
    let metric = read_metric(&[]);
    assert_eq!(metric, Metric::default());
    assert_eq!(metric.metadata, None);
    assert_eq!(metric.properties, None);
    assert_eq!(metric.value, None);
    assert_eq!(metric.encode_to_vec(), Vec::<u8>::new());
}

#[test]
fn properties_are_read_and_written_all_the_way_down() {
    let bytes = vec![
        0x0a, 0x01, b'k', // key
        0x0a, 0x01, b'n', // key
        0x12, 0x07, // value
        0x08, 0x0c, 0x10, 0x00, 0x42, 0x01, b'v', // type 12, not null, text
        0x12, 0x05, // value
        0x4a, 0x03, 0x0a, 0x01, b'x', // a set with a key
        0x12, 0x07, // value
        0x52, 0x05, 0x0a, 0x03, 0x0a, 0x01, b'y', // a list of one set
    ];
    let keyed = |key: &str| PropertySet {
        keys: vec![key.to_owned()],
        values: vec![],
    };
    let valued = |value: PropertyInner| PropertyValue {
        datatype: None,
        is_null: None,
        value: Some(value),
    };
    let set = PropertySet {
        keys: vec!["k".to_owned(), "n".to_owned()],
        values: vec![
            PropertyValue {
                datatype: Some(12),
                is_null: Some(false),
                value: Some(PropertyInner::StringValue("v".to_owned())),
            },
            valued(PropertyInner::PropertysetValue(keyed("x"))),
            valued(PropertyInner::PropertysetsValue(PropertySetList {
                propertyset: vec![keyed("y")],
            })),
        ],
    };
    assert_eq!(PropertySet::decode(&bytes).unwrap(), set);
    assert_eq!(set.encode_to_vec(), bytes);
    assert_eq!(set.clone(), set);

    let list = PropertySetList {
        propertyset: vec![set.clone(), PropertySet::default()],
    };
    assert_eq!(
        PropertySetList::decode(&list.encode_to_vec()).unwrap(),
        list
    );
    assert_eq!(list.clone(), list);

    let mut bytes_of_metric = vec![0x4a, bytes.len() as u8];
    bytes_of_metric.extend_from_slice(&bytes);
    let metric = Metric {
        properties: Some(set),
        ..Default::default()
    };
    assert_eq!(read_metric(&bytes_of_metric), metric);
    assert_eq!(metric.encode_to_vec(), bytes_of_metric);
}

#[test]
fn each_kind_of_property_is_read_and_written() {
    let cases: [(&[u8], PropertyInner); 6] = [
        (&[0x18, 0x07], PropertyInner::IntValue(7)),
        (&[0x20, 0x07], PropertyInner::LongValue(7)),
        (
            &[0x2d, 0x00, 0x00, 0x80, 0x3f],
            PropertyInner::FloatValue(metric::Single(1.0f32.to_bits())),
        ),
        (
            &[0x31, 0, 0, 0, 0, 0, 0, 0xf8, 0x3f],
            PropertyInner::DoubleValue(metric::Double(1.5f64.to_bits())),
        ),
        (&[0x38, 0x01], PropertyInner::BooleanValue(true)),
        (&[0x5a, 0x00], PropertyInner::ExtensionValue),
    ];
    for (bytes, value) in cases {
        let property = PropertyValue {
            datatype: None,
            is_null: None,
            value: Some(value),
        };
        assert_eq!(PropertyValue::decode(bytes).unwrap(), property);
        assert_eq!(property.encode_to_vec(), bytes.to_vec());
        assert_eq!(property.clone(), property);
    }
}

#[test]
fn a_property_set_that_comes_twice_goes_on() {
    // Two sets of one key each under one property.
    let read = PropertyValue::decode(&[0x4a, 0x03, 0x0a, 0x01, b'a', 0x4a, 0x03, 0x0a, 0x01, b'b'])
        .unwrap();
    assert_eq!(
        read.value,
        Some(PropertyInner::PropertysetValue(PropertySet {
            keys: vec!["a".to_owned(), "b".to_owned()],
            values: vec![],
        }))
    );
}

#[test]
fn a_data_set_is_read_row_by_row() {
    let bytes = [
        0x08, 0x02, // num_of_columns
        0x12, 0x01, b'a', 0x12, 0x01, b'b', // columns
        0x1a, 0x02, 0x0a, 0x0c, // types, packed
        0x18, 0x01, // one more type
        0x22, 0x10, // a row
        0x0a, 0x09, 0x21, 0, 0, 0, 0, 0, 0, 0xf8, 0x3f, // 1.5
        0x0a, 0x03, 0x32, 0x01, b'x', // text
        0x22, 0x00, // an empty row
    ];
    let row = Row {
        elements: vec![
            DataSetValue {
                value: Some(NestedValue::DoubleValue(metric::Double(1.5f64.to_bits()))),
            },
            DataSetValue {
                value: Some(NestedValue::StringValue("x".to_owned())),
            },
        ],
    };
    let set = DataSet {
        num_of_columns: Some(2),
        columns: vec!["a".to_owned(), "b".to_owned()],
        types: vec![10, 12, 1],
        rows: vec![row.clone(), Row { elements: vec![] }],
    };
    assert_eq!(DataSet::decode(&bytes).unwrap(), set);
    assert_eq!(
        read_metric(
            &[&[0x8a, 0x01, bytes.len() as u8], &bytes[..]].concat()
        )
        .value,
        Some(metric::Value::DatasetValue(set.clone()))
    );
    // Types are written one to a field.
    assert_eq!(
        set.encode_to_vec(),
        [
            &[0x08, 0x02, 0x12, 0x01, b'a', 0x12, 0x01, b'b'][..],
            &[0x18, 0x0a, 0x18, 0x0c, 0x18, 0x01],
            &bytes[14..],
        ]
        .concat()
    );
    assert_eq!(DataSet::decode(&set.encode_to_vec()).unwrap(), set);
    assert_eq!(Row::decode(&row.encode_to_vec()).unwrap(), row);
    assert_eq!(set.clone(), set);
}

#[test]
fn a_template_is_read_and_written_with_its_metrics() {
    let bytes = vec![
        0x0a, 0x01, b'1', // version
        0x12, 0x05, 0x0a, 0x01, b'm', 0x70, 0x01, // a metric that holds a flag
        0x1a, 0x05, 0x0a, 0x01, b'p', 0x18, 0x07, // a parameter
        0x22, 0x01, b't', // template_ref
        0x28, 0x01, // is_definition
    ];
    let template = Template {
        version: Some("1".to_owned()),
        metrics: vec![Metric {
            name: Some("m".to_owned()),
            value: Some(metric::Value::BooleanValue(true)),
            ..Default::default()
        }],
        parameters: vec![Parameter {
            name: Some("p".to_owned()),
            datatype: None,
            value: Some(NestedValue::IntValue(7)),
        }],
        template_ref: Some("t".to_owned()),
        is_definition: Some(true),
    };
    assert_eq!(Template::decode(&bytes).unwrap(), template);
    assert_eq!(template.encode_to_vec(), bytes);
    assert_eq!(template.clone(), template);
    let metric = Metric {
        value: Some(metric::Value::TemplateValue(template)),
        ..Default::default()
    };
    assert_eq!(
        metric.encode_to_vec(),
        [&[0x92, 0x01, bytes.len() as u8], &bytes[..]].concat()
    );
    assert_eq!(read_metric(&metric.encode_to_vec()), metric);
}

#[test]
fn a_parameter_is_read_and_written() {
    let parameter = Parameter {
        name: Some("p".to_owned()),
        datatype: Some(9),
        value: Some(NestedValue::FloatValue(metric::Single(1.0f32.to_bits()))),
    };
    let bytes = vec![0x0a, 0x01, b'p', 0x10, 0x09, 0x2d, 0x00, 0x00, 0x80, 0x3f];
    assert_eq!(parameter.encode_to_vec(), bytes);
    assert_eq!(Parameter::decode(&bytes).unwrap(), parameter);
}

#[test]
fn each_kind_of_nested_value_is_read_and_written() {
    let cases: [(&[u8], Option<NestedValue>); 8] = [
        (&[], None),
        (&[0x08, 0x07], Some(NestedValue::IntValue(7))),
        (&[0x10, 0x07], Some(NestedValue::LongValue(7))),
        (
            &[0x1d, 0x00, 0x00, 0x80, 0x3f],
            Some(NestedValue::FloatValue(metric::Single(1.0f32.to_bits()))),
        ),
        (
            &[0x21, 0, 0, 0, 0, 0, 0, 0xf8, 0x3f],
            Some(NestedValue::DoubleValue(metric::Double(1.5f64.to_bits()))),
        ),
        (&[0x28, 0x01], Some(NestedValue::BooleanValue(true))),
        (&[0x32, 0x01, b'x'], Some(NestedValue::StringValue("x".to_owned()))),
        (&[0x3a, 0x00], Some(NestedValue::ExtensionValue)),
    ];
    for (bytes, value) in cases {
        let cell = DataSetValue { value };
        assert_eq!(DataSetValue::decode(bytes).unwrap(), cell);
        assert_eq!(cell.encode_to_vec(), bytes.to_vec());
    }
    // The later one wins.
    assert_eq!(
        DataSetValue::decode(&[0x08, 0x07, 0x3a, 0x02, 0x08, 0x01, 0x28, 0x00])
            .unwrap()
            .value,
        Some(NestedValue::BooleanValue(false))
    );
}

#[test]
fn bytes_that_are_no_nested_message_are_refused() {
    assert!(MetaData::decode(&[0x0a, 0x00]).is_err());
    assert!(PropertySet::decode(&[0x12, 0x01, 0x08]).is_err());
    assert!(PropertySetList::decode(&[0x0a, 0x02, 0x0a]).is_err());
    assert!(PropertyValue::decode(&[0x08]).is_err());
    assert!(DataSet::decode(&[0x08]).is_err());
    assert!(DataSetValue::decode(&[0x32, 0x01, 0xff]).is_err());
    assert!(Row::decode(&[0x08, 0x01]).is_err());
    assert!(Template::decode(&[0x12, 0x01, 0x08]).is_err());
    assert!(Parameter::decode(&[0x0a]).is_err());
    let error = Metric::decode(&[0x08, 0x01]).expect_err("a name is text");
    assert_eq!(
        SparkplugError::from(error).message(),
        "payload decode failed: failed to decode Protobuf message: \
         Metric.name: invalid wire type: Varint (expected LengthDelimited)"
    );
}

#[test]
fn equal_metrics_hold_equal_numbers() {
    let with = |bits: u64| Metric {
        value: Some(metric::Value::DatasetValue(DataSet {
            rows: vec![Row {
                elements: vec![DataSetValue {
                    value: Some(NestedValue::DoubleValue(metric::Double(bits))),
                }],
            }],
            ..Default::default()
        })),
        ..Default::default()
    };
    assert_eq!(with(0.0f64.to_bits()), with((-0.0f64).to_bits()));
    assert_ne!(with(f64::NAN.to_bits()), with(f64::NAN.to_bits()));
    assert_ne!(with(1.0f64.to_bits()), with(2.0f64.to_bits()));
    assert_ne!(with(1.0f64.to_bits()), Metric::default());
    assert_eq!(
        Payload {
            metrics: vec![with(1)],
            ..Default::default()
        },
        Payload {
            metrics: vec![with(1)],
            ..Default::default()
        }
    );
}

#[test]
fn a_decode_error_says_where_it_happened() {
    let cases: [(&[u8], &str); 5] = [
        (&[0x08], "Payload.timestamp: invalid varint"),
        (&[0x80], "invalid varint"),
        (&[0x12, 0x01, 0x10], "Metric.alias: Payload.metrics: invalid varint"),
        (
            &[0x12, 0x04, 0x42, 0x02, 0x0a, 0x00],
            "MetaData.is_multi_part: Metric.metadata: Payload.metrics: \
             invalid wire type: LengthDelimited (expected Varint)",
        ),
        (
            &[0x12, 0x06, 0x4a, 0x04, 0x12, 0x02, 0x0a, 0x00],
            "PropertyValue.r#type: PropertySet.values: Metric.properties: Payload.metrics: \
             invalid wire type: LengthDelimited (expected Varint)",
        ),
    ];
    for (bytes, location) in cases {
        let error = decode_payload(bytes).expect_err("the bytes spell no payload");
        assert_eq!(
            SparkplugError::from(error).message(),
            format!("payload decode failed: failed to decode Protobuf message: {location}")
        );
    }
}
