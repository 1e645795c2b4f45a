//! Columnar input: physical storage types and null-aware typed arrays, batch by batch.
use vstd::prelude::*;

verus! {

/// Resolution of a stored timestamp.
#[derive(Clone, Copy, Debug, PartialEq, Eq, Structural)]
pub enum TimeUnit {
    Second,
    Millisecond,
    Microsecond,
    Nanosecond,
}

/// Layout of a stored interval.
#[derive(Clone, Copy, Debug, PartialEq, Eq, Structural)]
pub enum IntervalUnit {
    YearMonth,
    DayTime,
    MonthDayNano,
}

/// Physical storage type of a column.
#[derive(Debug)]
pub enum DataType {
    Null,
    Boolean,
    Int8,
    Int16,
    Int32,
    Int64,
    UInt8,
    UInt16,
    UInt32,
    UInt64,
    Float16,
    Float32,
    Float64,
    /// Unit and optional time zone name.
    Timestamp(TimeUnit, Option<String>),
    Binary,
    Utf8,
    LargeUtf8,
    Interval(IntervalUnit),
    /// Element type of each list.
    List(Box<DataType>),
    /// Any other storage type, by its name.
    Other(String),
}

impl DataType {
    /// An equal copy.
    pub fn copy(&self) -> (r: DataType)
        ensures
            r == *self,
        decreases self,
    {
        match self {
            DataType::Null => DataType::Null,
            DataType::Boolean => DataType::Boolean,
            DataType::Int8 => DataType::Int8,
            DataType::Int16 => DataType::Int16,
            DataType::Int32 => DataType::Int32,
            DataType::Int64 => DataType::Int64,
            DataType::UInt8 => DataType::UInt8,
            DataType::UInt16 => DataType::UInt16,
            DataType::UInt32 => DataType::UInt32,
            DataType::UInt64 => DataType::UInt64,
            DataType::Float16 => DataType::Float16,
            DataType::Float32 => DataType::Float32,
            DataType::Float64 => DataType::Float64,
            DataType::Timestamp(u, tz) => {
                let z = match tz {
                    Some(s) => Some(s.clone()),
                    None => None,
                };
                DataType::Timestamp(*u, z)
            },
            DataType::Binary => DataType::Binary,
            DataType::Utf8 => DataType::Utf8,
            DataType::LargeUtf8 => DataType::LargeUtf8,
            DataType::Interval(u) => DataType::Interval(*u),
            DataType::List(e) => {
                let inner = (**e).copy();
                DataType::List(Box::new(inner))
            },
            DataType::Other(s) => DataType::Other(s.clone()),
        }
    }
}

/// A floating-point value: its IEEE-754 bits and its decimal text.
#[derive(Debug)]
pub struct FloatValue {
    pub bits: u64,
    pub text: String,
}

impl FloatValue {
    pub fn new(bits: u64, text: String) -> (r: FloatValue)
        ensures
            r.bits == bits,
            r.text == text,
    {
        FloatValue { bits, text }
    }

    /// An equal copy.
    pub fn copy(&self) -> (r: FloatValue)
        ensures
            r == *self,
    {
        FloatValue { bits: self.bits, text: self.text.clone() }
    }
}

/// A day-time interval: whole days and milliseconds within the day.
#[derive(Clone, Copy, Debug, PartialEq, Eq, Structural)]
pub struct DayTime {
    pub days: i32,
    pub milliseconds: i32,
}

/// The nested array that a list cell holds, by element kind; `None` is a null element.
#[derive(Debug)]
pub enum ListItems {
    /// Elements of a signed integer type (8 to 64 bits).
    Signed(Vec<Option<i64>>),
    /// Elements of an unsigned integer type (8 to 64 bits).
    Unsigned(Vec<Option<u64>>),
    /// Elements of a floating-point type (16 to 64 bits).
    Float(Vec<Option<FloatValue>>),
    Boolean(Vec<Option<bool>>),
    /// Elements of a UTF-8 string type (small or large).
    Text(Vec<Option<String>>),
    /// Elements of a type that has no text form here.
    Unsupported(DataType),
}

/// A null-aware typed array: one entry per row, `None` where the row is null.
#[derive(Debug)]
pub enum ColumnArray {
    /// Int8, Int16, Int32 or Int64.
    Signed(Vec<Option<i64>>),
    /// UInt8, UInt16, UInt32 or UInt64.
    Unsigned(Vec<Option<u64>>),
    Float64(Vec<Option<FloatValue>>),
    /// Utf8 or LargeUtf8.
    Utf8(Vec<Option<String>>),
    Boolean(Vec<Option<bool>>),
    /// Microseconds since the epoch, without time zone.
    TimestampMicrosecond(Vec<Option<i64>>),
    /// Nanoseconds since the epoch, without time zone.
    TimestampNanosecond(Vec<Option<i64>>),
    IntervalDayTime(Vec<Option<DayTime>>),
    /// Months.
    IntervalYearMonth(Vec<Option<i32>>),
    List(Vec<Option<ListItems>>),
    /// An array of a storage type that the converter does not decode.
    Unsupported(DataType),
}

impl ColumnArray {
    /// Number of entries; `None` for an array whose type is not decoded.
    pub open spec fn len_of(&self) -> Option<nat> {
        match self {
            ColumnArray::Signed(v) => Some(v@.len()),
            ColumnArray::Unsigned(v) => Some(v@.len()),
            ColumnArray::Float64(v) => Some(v@.len()),
            ColumnArray::Utf8(v) => Some(v@.len()),
            ColumnArray::Boolean(v) => Some(v@.len()),
            ColumnArray::TimestampMicrosecond(v) => Some(v@.len()),
            ColumnArray::TimestampNanosecond(v) => Some(v@.len()),
            ColumnArray::IntervalDayTime(v) => Some(v@.len()),
            ColumnArray::IntervalYearMonth(v) => Some(v@.len()),
            ColumnArray::List(v) => Some(v@.len()),
            ColumnArray::Unsupported(_) => None,
        }
    }

    /// Whether entry `i` is null.
    pub open spec fn is_null_at(&self, i: int) -> bool {
        match self {
            ColumnArray::Signed(v) => v@[i] is None,
            ColumnArray::Unsigned(v) => v@[i] is None,
            ColumnArray::Float64(v) => v@[i] is None,
            ColumnArray::Utf8(v) => v@[i] is None,
            ColumnArray::Boolean(v) => v@[i] is None,
            ColumnArray::TimestampMicrosecond(v) => v@[i] is None,
            ColumnArray::TimestampNanosecond(v) => v@[i] is None,
            ColumnArray::IntervalDayTime(v) => v@[i] is None,
            ColumnArray::IntervalYearMonth(v) => v@[i] is None,
            ColumnArray::List(v) => v@[i] is None,
            ColumnArray::Unsupported(_) => false,
        }
    }
}

/// A named, typed column of a batch's schema.
#[derive(Debug)]
pub struct Field {
    pub name: String,
    pub data_type: DataType,
}

/// A block of rows stored column by column.
#[derive(Debug)]
pub struct Batch {
    pub fields: Vec<Field>,
    pub columns: Vec<ColumnArray>,
    pub num_rows: usize,
}

impl Batch {
    /// One array per field, and each decodable array holds one entry per row.
    pub open spec fn wf(&self) -> bool {
        &&& self.columns@.len() == self.fields@.len()
        &&& forall|c: int|
            0 <= c < self.columns@.len() ==> match #[trigger] self.columns@[c].len_of() {
                Some(n) => n == self.num_rows,
                None => true,
            }
    }
}

} // verus!
