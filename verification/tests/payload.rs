//! Payloads: their bytes, their numbers and their text.

use sparkplug_mqtt::{
    decode_payload, metric, DataSet, FormattedValue, MetaData, Metric, Number, Payload,
    PropertySet, SparkplugError, Template,
};

fn metric_with(value: metric::Value) -> Metric {
    Metric {
        value: Some(value),
        ..Default::default()
    }
}

/// The number of a metric as a floating-point number.
fn plotted(metric: &Metric) -> Option<f64> {
    metric.numeric_value().map(|number| match number {
        Number::Whole(v) => v as f64,
        Number::Single(bits) => f64::from(f32::from_bits(bits)),
        Number::Double(bits) => f64::from_bits(bits),
    })
}

/// The value of a metric as text.
fn shown(metric: &Metric) -> String {
    match metric.format_value() {
        FormattedValue::Text(text) => text,
        FormattedValue::Single(bits) => format!("{}", f32::from_bits(bits)),
        FormattedValue::Double(bits) => format!("{}", f64::from_bits(bits)),
    }
}

#[test]
fn numeric_value_reads_every_number_variant() {
    assert_eq!(plotted(&metric_with(metric::Value::IntValue(7))), Some(7.0));
    assert_eq!(plotted(&metric_with(metric::Value::LongValue(7))), Some(7.0));
    assert_eq!(
        plotted(&metric_with(metric::Value::FloatValue(metric::Single(7.5f32.to_bits())))),
        Some(7.5)
    );
    assert_eq!(
        plotted(&metric_with(metric::Value::DoubleValue(metric::Double(7.5f64.to_bits())))),
        Some(7.5)
    );
}

#[test]
fn numeric_value_reads_a_boolean_as_one_or_zero() {
    assert_eq!(
        plotted(&metric_with(metric::Value::BooleanValue(true))),
        Some(1.0)
    );
    assert_eq!(
        plotted(&metric_with(metric::Value::BooleanValue(false))),
        Some(0.0)
    );
}

#[test]
fn numeric_value_rejects_what_it_cannot_plot() {
    assert_eq!(
        plotted(&metric_with(metric::Value::StringValue("AUTO".to_owned()))),
        None
    );
    assert_eq!(
        plotted(&metric_with(metric::Value::BytesValue(vec![1, 2]))),
        None
    );
    assert_eq!(plotted(&Metric::default()), None);
}

#[test]
fn numeric_value_keeps_every_bit_of_its_number() {
    assert_eq!(
        metric_with(metric::Value::IntValue(u32::MAX)).numeric_value(),
        Some(Number::Whole(4_294_967_295))
    );
    assert_eq!(
        metric_with(metric::Value::LongValue(u64::MAX)).numeric_value(),
        Some(Number::Whole(u64::MAX))
    );
    assert_eq!(
        metric_with(metric::Value::FloatValue(metric::Single(0x7fc0_0001))).numeric_value(),
        Some(Number::Single(0x7fc0_0001))
    );
    assert_eq!(
        metric_with(metric::Value::DatasetValue(DataSet::default())).numeric_value(),
        None
    );
}

#[test]
fn format_value_quotes_a_string_and_leaves_a_number_bare() {
    assert_eq!(
        shown(&metric_with(metric::Value::StringValue("AUTO".to_owned()))),
        "\"AUTO\""
    );
    assert_eq!(
        shown(&metric_with(metric::Value::DoubleValue(metric::Double(7.5f64.to_bits())))),
        "7.5"
    );
    assert_eq!(
        shown(&metric_with(metric::Value::BooleanValue(true))),
        "true"
    );
}

#[test]
fn format_value_says_so_when_there_is_no_value() {
    assert_eq!(shown(&Metric::default()), "No value");
}

#[test]
fn format_value_writes_each_other_kind() {
    assert_eq!(shown(&metric_with(metric::Value::IntValue(0))), "0");
    assert_eq!(
        shown(&metric_with(metric::Value::LongValue(u64::MAX))),
        "18446744073709551615"
    );
    assert_eq!(
        shown(&metric_with(metric::Value::FloatValue(metric::Single(0.5f32.to_bits())))),
        "0.5"
    );
    assert_eq!(
        shown(&metric_with(metric::Value::BooleanValue(false))),
        "false"
    );
    assert_eq!(
        shown(&metric_with(metric::Value::BytesValue(vec![]))),
        format!("{:?}", Vec::<u8>::new())
    );
    assert_eq!(
        shown(&metric_with(metric::Value::BytesValue(vec![1, 20, 255]))),
        format!("{:?}", vec![1u8, 20, 255])
    );
    for value in [
        metric::Value::DatasetValue(DataSet::default()),
        metric::Value::TemplateValue(Template::default()),
        metric::Value::ExtensionValue,
    ] {
        assert_eq!(shown(&metric_with(value)), "Unknown value type");
    }
}

#[test]
fn decode_payload_reads_back_what_was_encoded() {
    let payload = Payload {
        timestamp: Some(1_700_000_000_000),
        metrics: vec![Metric {
            name: Some("temperature".to_owned()),
            value: Some(metric::Value::DoubleValue(metric::Double(42.5f64.to_bits()))),
            datatype: Some(10),
            ..Default::default()
        }],
        ..Default::default()
    };
    let decoded = decode_payload(&payload.encode_to_vec()).expect("should decode payload");
    assert_eq!(decoded, payload);
}

#[test]
fn decode_payload_rejects_bytes_that_are_not_a_payload() {
    assert!(decode_payload(&[0xff, 0xff, 0xff, 0xff]).is_err());
}

/// One metric for each value a metric can hold, with every other field set.
fn full_payload() -> Payload {
    let values = vec![
        metric::Value::IntValue(300),
        metric::Value::LongValue(u64::MAX),
        metric::Value::FloatValue(metric::Single(1.5f32.to_bits())),
        metric::Value::DoubleValue(metric::Double((-2.25f64).to_bits())),
        metric::Value::BooleanValue(true),
        metric::Value::StringValue("h\u{e9}llo".to_owned()),
        metric::Value::BytesValue(vec![0, 1, 2, 255]),
        metric::Value::DatasetValue(DataSet {
            num_of_columns: Some(2),
            columns: vec!["a".to_owned()],
            types: vec![1],
            rows: vec![],
        }),
        metric::Value::TemplateValue(Template {
            version: Some("v".to_owned()),
            ..Default::default()
        }),
        metric::Value::ExtensionValue,
    ];
    Payload {
        timestamp: Some(1),
        metrics: values
            .into_iter()
            .map(|value| Metric {
                name: Some("m".to_owned()),
                alias: Some(128),
                timestamp: Some(2),
                datatype: Some(10),
                is_historical: Some(true),
                is_transient: Some(false),
                is_null: Some(false),
                metadata: Some(MetaData {
                    is_multi_part: Some(true),
                    ..Default::default()
                }),
                properties: Some(PropertySet {
                    keys: vec!["k".to_owned()],
                    values: vec![],
                }),
                value: Some(value),
            })
            .collect(),
        seq: Some(255),
        uuid: Some("id".to_owned()),
        body: Some(vec![9, 8, 7]),
    }
}

#[test]
fn every_kind_of_value_survives_a_round_trip() {
    let payload = full_payload();
    let bytes = payload.encode_to_vec();
    let decoded = decode_payload(&bytes).expect("every field is one the schema accepts");
    assert_eq!(decoded, payload);
    assert_eq!(decoded.encode_to_vec(), bytes);
}

#[test]
fn a_clone_holds_what_the_original_holds() {
    let payload = full_payload();
    assert_eq!(payload.clone(), payload);
}

#[test]
fn an_empty_payload_has_no_bytes() {
    assert_eq!(Payload::default().encode_to_vec(), Vec::<u8>::new());
    assert_eq!(
        decode_payload(&[]).expect("no bytes spell an empty payload"),
        Payload::default()
    );
}

#[test]
fn the_bytes_of_a_payload_follow_the_wire_format() {
    let payload = Payload {
        timestamp: Some(300),
        metrics: vec![Metric {
            name: Some("t".to_owned()),
            value: Some(metric::Value::FloatValue(metric::Single(1.0f32.to_bits()))),
            ..Default::default()
        }],
        seq: Some(1),
        ..Default::default()
    };
    assert_eq!(
        payload.encode_to_vec(),
        vec![
            0x08, 0xac, 0x02, // field 1, varint 300
            0x12, 0x08, // field 2, eight bytes
            0x0a, 0x01, b't', // field 1, one byte of text
            0x65, 0x00, 0x00, 0x80, 0x3f, // field 12, four bytes
            0x18, 0x01, // field 3, varint 1
        ]
    );
}

#[test]
fn a_later_field_replaces_an_earlier_one() {
    // seq 1, then seq 2.
    let read = decode_payload(&[0x18, 0x01, 0x18, 0x02]).expect("both are fields of a payload");
    assert_eq!(read.seq, Some(2));
    // A metric whose value is an integer, and then a flag.
    let read = decode_payload(&[0x12, 0x04, 0x50, 0x07, 0x70, 0x01]).expect("both are values");
    assert_eq!(
        read.metrics[0].value,
        Some(metric::Value::BooleanValue(true))
    );
}

#[test]
fn a_nested_message_that_comes_twice_goes_on() {
    // A metric with two runs of metadata: is_multi_part, then a size.
    let read = decode_payload(&[0x12, 0x08, 0x42, 0x02, 0x08, 0x01, 0x42, 0x02, 0x18, 0x05])
        .expect("both runs are metadata");
    assert_eq!(
        read.metrics[0].metadata,
        Some(MetaData {
            is_multi_part: Some(true),
            size: Some(5),
            ..Default::default()
        })
    );
    // A data set that is left for a number and taken up again starts anew.
    let read = decode_payload(&[
        0x12, 0x0d, 0x8a, 0x01, 0x02, 0x08, 0x01, 0x50, 0x07, 0x8a, 0x01, 0x03, 0x12, 0x01, b'c',
    ])
    .expect("all are values");
    assert_eq!(
        read.metrics[0].value,
        Some(metric::Value::DatasetValue(DataSet {
            columns: vec!["c".to_owned()],
            ..Default::default()
        }))
    );
}

#[test]
fn an_unknown_field_of_a_nested_message_is_not_written_again() {
    // A metric whose metadata holds field 15 and nothing else.
    let read = decode_payload(&[0x12, 0x04, 0x42, 0x02, 0x78, 0x01])
        .expect("unknown fields do not matter");
    assert_eq!(read.metrics[0].metadata, Some(MetaData::default()));
    assert_eq!(read.encode_to_vec(), vec![0x12, 0x02, 0x42, 0x00]);
    let plain = decode_payload(&[0x12, 0x02, 0x42, 0x00]).expect("empty metadata");
    assert_eq!(read, plain);

    // Metadata out of order, with a size that takes more bytes than it needs.
    let read = decode_payload(&[0x12, 0x09, 0x42, 0x07, 0x20, 0x03, 0x18, 0x82, 0x00, 0x08, 0x05])
        .expect("fields may come in any order");
    assert_eq!(
        read.encode_to_vec(),
        vec![0x12, 0x08, 0x42, 0x06, 0x08, 0x01, 0x18, 0x02, 0x20, 0x03]
    );
    // An extension declares no field, so nothing of it is written.
    let read = decode_payload(&[0x12, 0x05, 0x9a, 0x01, 0x02, 0x08, 0x01])
        .expect("unknown fields do not matter");
    assert_eq!(
        read.metrics[0].value,
        Some(metric::Value::ExtensionValue)
    );
    assert_eq!(read.encode_to_vec(), vec![0x12, 0x03, 0x9a, 0x01, 0x00]);
}

#[test]
fn a_payload_that_was_read_writes_bytes_that_read_back() {
    // A metric with an unknown field, a name, and properties that hold an
    // unknown field; and an unknown field behind the metric.
    let read = decode_payload(&[
        0x12, 0x0d, 0xa0, 0x06, 0x01, 0x0a, 0x01, b'm', 0x4a, 0x05, 0x0a, 0x01, b'k', 0x78, 0x05,
        0x78, 0x01,
    ])
    .expect("the schema accepts it");
    let written = read.encode_to_vec();
    assert_eq!(
        written,
        vec![0x12, 0x08, 0x0a, 0x01, b'm', 0x4a, 0x03, 0x0a, 0x01, b'k']
    );
    assert_eq!(decode_payload(&written).expect("it was written"), read);
}

#[test]
fn a_field_that_runs_past_its_message_is_reported_there() {
    // A metric of two bytes whose name has five.
    let error = decode_payload(&[0x12, 0x02, 0x0a, 0x05, b'h', b'e', b'l', b'l', b'o'])
        .expect_err("the name ends behind the metric");
    assert_eq!(
        SparkplugError::from(error).message(),
        "payload decode failed: failed to decode Protobuf message: \
         Payload.metrics: delimited length exceeded"
    );
    // The same, where the name ends behind the payload too.
    let error = decode_payload(&[0x12, 0x02, 0x0a, 0x05, b'h', b'e'])
        .expect_err("the name ends behind the payload");
    assert_eq!(
        SparkplugError::from(error).message(),
        "payload decode failed: failed to decode Protobuf message: \
         Metric.name: Payload.metrics: buffer underflow"
    );
}

#[test]
fn a_decode_error_says_what_is_wrong() {
    let cases: [(&[u8], &str); 13] = [
        (&[0x80], "invalid varint"),
        (
            &[0xff, 0xff, 0xff, 0xff, 0x1f],
            "invalid key value: 8589934591",
        ),
        (&[0x0e], "invalid wire type value: 6"),
        (&[0x00], "invalid tag value: 0"),
        (
            &[0x0d, 0, 0, 0, 0],
            "Payload.timestamp: invalid wire type: ThirtyTwoBit (expected Varint)",
        ),
        (
            &[0x13],
            "Payload.metrics: invalid wire type: StartGroup (expected LengthDelimited)",
        ),
        (&[0x12, 0x05, 0x08], "Payload.metrics: buffer underflow"),
        (&[0x2a, 0x80], "Payload.body: invalid varint"),
        (
            &[0x22, 0x01, 0xff],
            "Payload.uuid: invalid string value: data is not UTF-8 encoded",
        ),
        (&[0x12, 0x02, 0x65, 0x00], "Metric.value: Payload.metrics: buffer underflow"),
        (&[0x7c], "unexpected end group tag"),
        (&[0x7b, 0x74], "unexpected end group tag"),
        // A data set whose packed types end in the middle of one.
        (
            &[0x12, 0x06, 0x8a, 0x01, 0x03, 0x1a, 0x01, 0x80, 0x01],
            "DataSet.types: Metric.value: Payload.metrics: delimited length exceeded",
        ),
    ];
    for (bytes, what) in cases {
        let error = decode_payload(bytes).expect_err("the bytes spell no payload");
        assert_eq!(
            SparkplugError::from(error).message(),
            format!("payload decode failed: failed to decode Protobuf message: {what}")
        );
    }
}

#[test]
fn messages_nest_a_hundred_levels_and_no_more() {
    // Each level is a metric that holds a template, which takes two.
    let nested = |depth: usize| {
        let mut metric = Metric::default();
        for _ in 0..depth {
            metric = Metric {
                value: Some(metric::Value::TemplateValue(Template {
                    metrics: vec![metric],
                    ..Default::default()
                })),
                ..Default::default()
            };
        }
        Payload {
            metrics: vec![metric],
            ..Default::default()
        }
    };
    let deep = nested(49);
    assert_eq!(
        decode_payload(&deep.encode_to_vec()).expect("it nests 99 levels"),
        deep
    );
    let error = decode_payload(&nested(50).encode_to_vec()).expect_err("it nests 101 levels");
    assert!(SparkplugError::from(error)
        .message()
        .ends_with("Metric.value: Payload.metrics: recursion limit reached"));
}

#[test]
fn an_unknown_field_is_passed_over() {
    // Field 15 as a varint, as text, and as a group; then seq 3.
    let read = decode_payload(&[
        0x78, 0x2a, 0x7a, 0x02, b'h', b'i', 0x7b, 0x08, 0x01, 0x7c, 0x18, 0x03,
    ])
    .expect("unknown fields do not matter");
    assert_eq!(
        read,
        Payload {
            seq: Some(3),
            ..Default::default()
        }
    );
}

#[test]
fn a_narrow_number_keeps_its_low_bits() {
    // datatype 2^32 + 7, which is 7 in 32 bits.
    let read = decode_payload(&[0x12, 0x06, 0x20, 0x87, 0x80, 0x80, 0x80, 0x10])
        .expect("a varint may be wider than its field");
    assert_eq!(read.metrics[0].datatype, Some(7));
}

#[test]
fn broken_bytes_are_refused() {
    let broken: [&[u8]; 9] = [
        // A key with no value.
        &[0x08],
        // A varint that never ends.
        &[0x08, 0x80],
        // A varint past ten bytes.
        &[
            0x08, 0x80, 0x80, 0x80, 0x80, 0x80, 0x80, 0x80, 0x80, 0x80, 0x80, 0x01,
        ],
        // A varint past 64 bits.
        &[
            0x08, 0xff, 0xff, 0xff, 0xff, 0xff, 0xff, 0xff, 0xff, 0xff, 0x02,
        ],
        // A length past the end.
        &[0x22, 0x05, b'a'],
        // Text that is not UTF-8.
        &[0x22, 0x01, 0xff],
        // The wrong wire type for a number.
        &[0x0a, 0x00],
        // Field number zero.
        &[0x00, 0x00],
        // A group that does not end.
        &[0x7b, 0x08, 0x01],
    ];
    for bytes in broken {
        assert!(decode_payload(bytes).is_err(), "{bytes:?} is no payload");
    }
}

#[test]
fn a_broken_nested_message_is_refused() {
    // Metadata whose first field, a flag, has the wrong wire type.
    assert!(decode_payload(&[0x12, 0x04, 0x42, 0x02, 0x0a, 0x00]).is_err());
    // A data set whose column count is cut off.
    assert!(decode_payload(&[0x12, 0x04, 0x8a, 0x01, 0x01, 0x08]).is_err());
}
