use dataframe::columnar::{Batch, ColumnArray, DataType, DayTime, Field, FloatValue, ListItems, TimeUnit};
use dataframe::convert::{arrow_to_column_type, batch_to_dataframe, day_time_string, decode_cell, year_month_string, ConversionError};
use dataframe::dataframe::{Column, ColumnFlags, ColumnType, DataFrame, Row, TableValue, TimestampValue};

fn field(name: &str, data_type: DataType) -> Field {
    Field { name: name.to_string(), data_type }
}

fn int_batch(values: Vec<Option<i64>>) -> Batch {
    let n = values.len();
    Batch { fields: vec![field("n", DataType::Int64)], columns: vec![ColumnArray::Signed(values)], num_rows: n }
}

#[test]
fn test_dataframe_print() {
    let frame = DataFrame::new(
        vec![Column::new("test".to_string(), ColumnType::String, ColumnFlags::empty())],
        vec![Row::new(vec![TableValue::String("simple_str".to_string())])],
    );

    assert_eq!(
        frame.print(),
        "+------------+\n\
        | test       |\n\
        +------------+\n\
        | simple_str |\n\
        +------------+"
    );
}

#[test]
fn integer_column_with_null() {
    let df = batch_to_dataframe(&vec![int_batch(vec![Some(1), None, Some(3)])]).unwrap();
    assert_eq!(df.get_columns().len(), 1);
    assert_eq!(df.get_columns()[0].get_name(), "n");
    assert!(matches!(df.get_columns()[0].get_type(), ColumnType::Int64));
    assert_eq!(df.get_columns()[0].get_flags(), ColumnFlags::empty());
    let rows = df.get_rows();
    assert_eq!(rows.len(), 3);
    assert!(matches!(rows[0].values()[0], TableValue::Int64(1)));
    assert!(matches!(rows[1].values()[0], TableValue::Null));
    assert!(matches!(rows[2].values()[0], TableValue::Int64(3)));
}

#[test]
fn microsecond_timestamp_text() {
    let b = Batch {
        fields: vec![field("t", DataType::Timestamp(TimeUnit::Microsecond, None))],
        columns: vec![ColumnArray::TimestampMicrosecond(vec![Some(1_600_000_000_123_456)])],
        num_rows: 1,
    };
    let df = batch_to_dataframe(&vec![b]).unwrap();
    assert!(matches!(df.get_columns()[0].get_type(), ColumnType::String));
    match &df.get_rows()[0].values()[0] {
        TableValue::Timestamp(t) => {
            assert_eq!(t.get_time_stamp(), 1_600_000_000_123_456_000);
            assert_eq!(t.to_string(), "2020-09-13T12:26:40.123");
        }
        _ => panic!("expected a timestamp"),
    }
}

#[test]
fn timestamp_drops_low_digits() {
    assert_eq!(TimestampValue::new(1_600_000_000_123_456_789).get_time_stamp(), 1_600_000_000_123_456_000);
    assert_eq!(TimestampValue::new(-1_999).get_time_stamp(), -1_000);
    assert_eq!(TimestampValue::new(1_600_000_000_123_456_789).to_string(), "2020-09-13T12:26:40.123");
    assert_eq!(TimestampValue::new(0).to_string(), "1970-01-01T00:00:00.000");
}

#[test]
fn timestamp_millis_survive() {
    for n in [0i64, 999, 1_000_000, 1_234_567_890, -1_234_567_890, 1_600_000_000_987_654_321] {
        let text = TimestampValue::new(n).to_string();
        let ms = n.div_euclid(1_000_000).rem_euclid(1000);
        assert_eq!(&text[text.len() - 4..], format!(".{:03}", ms));
    }
}

#[test]
fn list_cell_text() {
    let v = TableValue::List(ListItems::Signed(vec![Some(10), None, Some(30)]));
    assert_eq!(v.to_string(), "{10,NULL,30}");
    let b = TableValue::List(ListItems::Boolean(vec![Some(true), Some(false)]));
    assert_eq!(b.to_string(), "{true,false}");
    let s = TableValue::List(ListItems::Text(vec![Some("a".to_string()), None]));
    assert_eq!(s.to_string(), "{a,NULL}");
    let u = TableValue::List(ListItems::Unsigned(vec![Some(u64::MAX)]));
    assert_eq!(u.to_string(), "{18446744073709551615}");
    let e = TableValue::List(ListItems::Float(vec![]));
    assert_eq!(e.to_string(), "{}");
}

#[test]
fn list_column_converts() {
    let b = Batch {
        fields: vec![field("l", DataType::List(Box::new(DataType::Int32)))],
        columns: vec![ColumnArray::List(vec![Some(ListItems::Signed(vec![Some(10), None, Some(30)])), None])],
        num_rows: 2,
    };
    let df = batch_to_dataframe(&vec![b]).unwrap();
    assert!(matches!(df.get_columns()[0].get_type(), ColumnType::List(_)));
    assert_eq!(df.get_rows()[0].values()[0].to_string(), "{10,NULL,30}");
    assert!(matches!(df.get_rows()[1].values()[0], TableValue::Null));
}

#[test]
fn value_texts() {
    assert_eq!(TableValue::Null.to_string(), "NULL");
    assert_eq!(TableValue::Int64(-42).to_string(), "-42");
    assert_eq!(TableValue::Boolean(true).to_string(), "true");
    assert_eq!(TableValue::String("x y".to_string()).to_string(), "x y");
    assert_eq!(TableValue::Float64(FloatValue::new(1.5f64.to_bits(), "1.5".to_string())).to_string(), "1.5");
}

#[test]
fn rows_over_batches() {
    let batches = vec![
        int_batch(vec![]),
        int_batch(vec![Some(1), Some(2)]),
        int_batch(vec![]),
        int_batch(vec![Some(3)]),
    ];
    let df = batch_to_dataframe(&batches).unwrap();
    assert_eq!(df.len(), 3);
    for row in df.get_rows() {
        assert_eq!(row.len(), df.get_columns().len());
    }
    assert!(matches!(df.get_rows()[2].values()[0], TableValue::Int64(3)));
    let rows = df.into_rows();
    assert_eq!(rows.len(), 3);
}

#[test]
fn no_batches() {
    let df = batch_to_dataframe(&vec![]).unwrap();
    assert_eq!(df.len(), 0);
    assert_eq!(df.get_columns().len(), 0);
}

#[test]
fn schema_from_first_batch_with_rows() {
    let empty = Batch { fields: vec![field("a", DataType::Other("Date32".to_string()))], columns: vec![ColumnArray::Unsupported(DataType::Other("Date32".to_string()))], num_rows: 0 };
    let df = batch_to_dataframe(&vec![empty, int_batch(vec![Some(4)])]).unwrap();
    assert_eq!(df.get_columns()[0].get_name(), "n");
    assert_eq!(df.len(), 1);
}

#[test]
fn all_null_column() {
    let b = Batch {
        fields: vec![field("s", DataType::Utf8), field("b", DataType::Boolean)],
        columns: vec![ColumnArray::Utf8(vec![None, None]), ColumnArray::Boolean(vec![None, None])],
        num_rows: 2,
    };
    let df = batch_to_dataframe(&vec![b]).unwrap();
    for row in df.get_rows() {
        assert!(row.values().iter().all(|v| matches!(v, TableValue::Null)));
    }
}

#[test]
fn print_twice_is_identical() {
    let df = batch_to_dataframe(&vec![int_batch(vec![Some(7), None])]).unwrap();
    assert_eq!(df.print(), df.print());
    assert_eq!(df.print(), "+------+\n| n    |\n+------+\n| 7    |\n| NULL |\n+------+");
}

#[test]
fn type_mapping() {
    assert!(matches!(arrow_to_column_type(DataType::Binary), Ok(ColumnType::Blob)));
    assert!(matches!(arrow_to_column_type(DataType::LargeUtf8), Ok(ColumnType::String)));
    assert!(matches!(arrow_to_column_type(DataType::Timestamp(TimeUnit::Second, None)), Ok(ColumnType::String)));
    assert!(matches!(arrow_to_column_type(DataType::Float16), Ok(ColumnType::Double)));
    assert!(matches!(arrow_to_column_type(DataType::UInt8), Ok(ColumnType::Int64)));
    assert!(matches!(arrow_to_column_type(DataType::Float32), Err(ConversionError::UnsupportedType(DataType::Float32))));
    assert!(matches!(arrow_to_column_type(DataType::Null), Err(ConversionError::UnsupportedType(_))));
}

#[test]
fn unsupported_schema_type() {
    let b = Batch { fields: vec![field("x", DataType::Other("Date32".to_string()))], columns: vec![ColumnArray::Signed(vec![Some(1)])], num_rows: 1 };
    assert!(matches!(batch_to_dataframe(&vec![b]), Err(ConversionError::UnsupportedType(DataType::Other(_)))));
}

#[test]
fn unsupported_cell_type() {
    let b = Batch { fields: vec![field("x", DataType::Float16)], columns: vec![ColumnArray::Unsupported(DataType::Float16)], num_rows: 1 };
    assert!(matches!(batch_to_dataframe(&vec![b]), Err(ConversionError::UnsupportedType(DataType::Float16))));
}

#[test]
fn unsigned_wraps_into_int64() {
    let a = ColumnArray::Unsigned(vec![Some(u64::MAX), Some(5)]);
    assert!(matches!(decode_cell(&a, 0), TableValue::Int64(-1)));
    assert!(matches!(decode_cell(&a, 1), TableValue::Int64(5)));
}

#[test]
fn interval_texts() {
    assert_eq!(day_time_string(DayTime { days: 1, milliseconds: 3_723_004 }), "0 years 0 mons 1 days 1 hours 2 mins 3.04 secs");
    assert_eq!(day_time_string(DayTime { days: 0, milliseconds: 250 }), "0 years 0 mons 0 days 0 hours 0 mins 0.250 secs");
    assert_eq!(year_month_string(14), "1 years 2 mons 0 days 0 hours 0 mins 0.00 secs");
    assert_eq!(year_month_string(-13), "-2 years 11 mons 0 days 0 hours 0 mins 0.00 secs");
    let a = ColumnArray::IntervalYearMonth(vec![None]);
    assert!(matches!(decode_cell(&a, 0), TableValue::Null));
}

#[test]
fn mutate_rows_in_place() {
    let mut df = batch_to_dataframe(&vec![int_batch(vec![Some(1)])]).unwrap();
    df.mut_rows()[0] = Row::new(vec![TableValue::Null]);
    assert!(matches!(df.get_rows()[0].values()[0], TableValue::Null));
    let mut r = Row::new(vec![]);
    r.push(TableValue::Int64(2));
    assert_eq!(r.len(), 1);
}
