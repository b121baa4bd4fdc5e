//! The Sparkplug B datatype codes.

use vstd::prelude::*;

verus! {

/// The datatype of a metric value, as Sparkplug B numbers it.
///
/// A metric carries this as a number in its `datatype` field. Use
/// [`DataType::code`] to write one and [`DataType::from_code`] to read one
/// back.
///
/// This grows as the crate covers more of Sparkplug B, so it is
/// `#[non_exhaustive]`: match with a wildcard arm.
#[derive(Debug, Clone, Copy, PartialEq, Eq, Structural)]
#[non_exhaustive]
pub enum DataType {
    Int8,
    Int16,
    Int32,
    Int64,
    UInt8,
    UInt16,
    UInt32,
    UInt64,
    Float,
    Double,
    Boolean,
    String,
    DateTime,
    Text,
    Uuid,
    DataSet,
    Bytes,
    File,
    Template,
    PropertySet,
    PropertySetList,
}

/// The number a datatype carries on the wire.
pub open spec fn code_of(datatype: DataType) -> u32 {
    match datatype {
        DataType::Int8 => 1,
        DataType::Int16 => 2,
        DataType::Int32 => 3,
        DataType::Int64 => 4,
        DataType::UInt8 => 5,
        DataType::UInt16 => 6,
        DataType::UInt32 => 7,
        DataType::UInt64 => 8,
        DataType::Float => 9,
        DataType::Double => 10,
        DataType::Boolean => 11,
        DataType::String => 12,
        DataType::DateTime => 13,
        DataType::Text => 14,
        DataType::Uuid => 15,
        DataType::DataSet => 16,
        DataType::Bytes => 17,
        DataType::File => 18,
        DataType::Template => 19,
        DataType::PropertySet => 20,
        DataType::PropertySetList => 21,
    }
}

impl DataType {
    /// The number this datatype carries on the wire.
    #[must_use]
    pub fn code(self) -> (code: u32)
        ensures
            code == code_of(self),
    {
        match self {
            DataType::Int8 => 1,
            DataType::Int16 => 2,
            DataType::Int32 => 3,
            DataType::Int64 => 4,
            DataType::UInt8 => 5,
            DataType::UInt16 => 6,
            DataType::UInt32 => 7,
            DataType::UInt64 => 8,
            DataType::Float => 9,
            DataType::Double => 10,
            DataType::Boolean => 11,
            DataType::String => 12,
            DataType::DateTime => 13,
            DataType::Text => 14,
            DataType::Uuid => 15,
            DataType::DataSet => 16,
            DataType::Bytes => 17,
            DataType::File => 18,
            DataType::Template => 19,
            DataType::PropertySet => 20,
            DataType::PropertySetList => 21,
        }
    }

    /// The datatype a wire number names, or `None` when no datatype claims
    /// that number.
    ///
    /// Code 0 stands for an unknown datatype and has no variant. The array
    /// codes 22 to 31 are not covered, so they also return `None`.
    #[must_use]
    pub fn from_code(code: u32) -> (datatype: Option<Self>)
        ensures
            match datatype {
                Some(datatype) => code_of(datatype) == code,
                None => forall|other: DataType| code_of(other) != code,
            },
    {
        match code {
            1 => Some(DataType::Int8),
            2 => Some(DataType::Int16),
            3 => Some(DataType::Int32),
            4 => Some(DataType::Int64),
            5 => Some(DataType::UInt8),
            6 => Some(DataType::UInt16),
            7 => Some(DataType::UInt32),
            8 => Some(DataType::UInt64),
            9 => Some(DataType::Float),
            10 => Some(DataType::Double),
            11 => Some(DataType::Boolean),
            12 => Some(DataType::String),
            13 => Some(DataType::DateTime),
            14 => Some(DataType::Text),
            15 => Some(DataType::Uuid),
            16 => Some(DataType::DataSet),
            17 => Some(DataType::Bytes),
            18 => Some(DataType::File),
            19 => Some(DataType::Template),
            20 => Some(DataType::PropertySet),
            21 => Some(DataType::PropertySetList),
            _ => None,
        }
    }
}

/// No two datatypes share a code, so a code read back names the datatype it
/// was written from.
pub proof fn law_codes_are_distinct(a: DataType, b: DataType)
    requires
        code_of(a) == code_of(b),
    ensures
        a == b,
{
}

/// The codes are exactly the numbers from 1 to 21: zero and every number
/// past the table name no datatype.
pub proof fn law_codes_fill_the_table(code: u32)
    ensures
        (exists|datatype: DataType| code_of(datatype) == code) <==> 1 <= code <= 21,
{
    if 1 <= code <= 21 {
        let named = if code == 1 {
            DataType::Int8
        } else if code == 2 {
            DataType::Int16
        } else if code == 3 {
            DataType::Int32
        } else if code == 4 {
            DataType::Int64
        } else if code == 5 {
            DataType::UInt8
        } else if code == 6 {
            DataType::UInt16
        } else if code == 7 {
            DataType::UInt32
        } else if code == 8 {
            DataType::UInt64
        } else if code == 9 {
            DataType::Float
        } else if code == 10 {
            DataType::Double
        } else if code == 11 {
            DataType::Boolean
        } else if code == 12 {
            DataType::String
        } else if code == 13 {
            DataType::DateTime
        } else if code == 14 {
            DataType::Text
        } else if code == 15 {
            DataType::Uuid
        } else if code == 16 {
            DataType::DataSet
        } else if code == 17 {
            DataType::Bytes
        } else if code == 18 {
            DataType::File
        } else if code == 19 {
            DataType::Template
        } else if code == 20 {
            DataType::PropertySet
        } else {
            DataType::PropertySetList
        };
        assert(code_of(named) == code);
    }
}

/// The codes are those that Sparkplug B gives, in the order it lists the
/// datatypes: the whole numbers with a sign, those without, the
/// floating-point numbers, a flag, the texts and the rest.
pub proof fn law_codes_follow_the_sparkplug_table()
    ensures
        code_of(DataType::Int8) == 1,
        code_of(DataType::Int16) == 2,
        code_of(DataType::Int32) == 3,
        code_of(DataType::Int64) == 4,
        code_of(DataType::UInt8) == 5,
        code_of(DataType::UInt16) == 6,
        code_of(DataType::UInt32) == 7,
        code_of(DataType::UInt64) == 8,
        code_of(DataType::Float) == 9,
        code_of(DataType::Double) == 10,
        code_of(DataType::Boolean) == 11,
        code_of(DataType::String) == 12,
        code_of(DataType::DateTime) == 13,
        code_of(DataType::Text) == 14,
        code_of(DataType::Uuid) == 15,
        code_of(DataType::DataSet) == 16,
        code_of(DataType::Bytes) == 17,
        code_of(DataType::File) == 18,
        code_of(DataType::Template) == 19,
        code_of(DataType::PropertySet) == 20,
        code_of(DataType::PropertySetList) == 21,
{
}

} // verus!
