//! The datatype codes.

use sparkplug_mqtt::DataType;

const ALL: [DataType; 21] = [
    DataType::Int8,
    DataType::Int16,
    DataType::Int32,
    DataType::Int64,
    DataType::UInt8,
    DataType::UInt16,
    DataType::UInt32,
    DataType::UInt64,
    DataType::Float,
    DataType::Double,
    DataType::Boolean,
    DataType::String,
    DataType::DateTime,
    DataType::Text,
    DataType::Uuid,
    DataType::DataSet,
    DataType::Bytes,
    DataType::File,
    DataType::Template,
    DataType::PropertySet,
    DataType::PropertySetList,
];

#[test]
fn every_datatype_survives_the_round_trip() {
    for datatype in ALL {
        assert_eq!(
            DataType::from_code(datatype.code()),
            Some(datatype),
            "{datatype:?} does not come back from its own code"
        );
    }
}

#[test]
fn no_two_datatypes_share_a_code() {
    for (index, datatype) in ALL.iter().enumerate() {
        for other in &ALL[index + 1..] {
            assert_ne!(
                datatype.code(),
                other.code(),
                "{datatype:?} and {other:?} claim the same code"
            );
        }
    }
}

#[test]
fn the_codes_match_the_specification() {
    assert_eq!(DataType::Int8.code(), 1);
    assert_eq!(DataType::Int64.code(), 4);
    assert_eq!(DataType::UInt64.code(), 8);
    assert_eq!(DataType::Float.code(), 9);
    assert_eq!(DataType::Double.code(), 10);
    assert_eq!(DataType::Boolean.code(), 11);
    assert_eq!(DataType::String.code(), 12);
    assert_eq!(DataType::PropertySetList.code(), 21);
}

#[test]
fn unknown_is_not_a_datatype() {
    assert_eq!(DataType::from_code(0), None);
}

#[test]
fn a_code_outside_the_table_is_rejected() {
    for code in [22, 31, 99, u32::MAX] {
        assert_eq!(
            DataType::from_code(code),
            None,
            "code {code} names no datatype this crate knows"
        );
    }
}

#[test]
fn the_codes_run_from_one_to_twenty_one() {
    for (index, datatype) in ALL.iter().enumerate() {
        assert_eq!(datatype.code(), index as u32 + 1);
    }
}
