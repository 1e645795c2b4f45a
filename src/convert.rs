//! Schema derivation and cell-by-cell decoding of columnar batches into rows.
use vstd::prelude::*;
use crate::columnar::{Batch, ColumnArray, DataType, DayTime, FloatValue, ListItems};
use crate::dataframe::{Column, ColumnFlags, ColumnType, DataFrame, Row, TableValue, TimestampValue, millis_truncated};
use crate::text::{i64_text, int_text, two_digit, two_digit_text};

verus! {

/// Why a conversion failed.
#[derive(Debug)]
pub enum ConversionError {
    /// A storage type that has no semantic type, or whose cells are not decoded.
    UnsupportedType(DataType),
}

/// The semantic type of a storage type, if it has one.
pub open spec fn column_type_of(t: DataType) -> Option<ColumnType> {
    match t {
        DataType::Binary => Some(ColumnType::Blob),
        DataType::Utf8 | DataType::LargeUtf8 => Some(ColumnType::String),
        DataType::Timestamp(_, _) => Some(ColumnType::String),
        DataType::Interval(_) => Some(ColumnType::String),
        DataType::Float16 | DataType::Float64 => Some(ColumnType::Double),
        DataType::Boolean => Some(ColumnType::Boolean),
        DataType::List(e) => Some(ColumnType::List(e)),
        DataType::Int8 | DataType::Int16 | DataType::Int32 | DataType::Int64 | DataType::UInt8
        | DataType::UInt16 | DataType::UInt32 | DataType::UInt64 => Some(ColumnType::Int64),
        _ => None,
    }
}

/// Maps a storage type to its semantic column type.
pub fn arrow_to_column_type(arrow_type: DataType) -> (r: Result<ColumnType, ConversionError>)
    ensures
        match column_type_of(arrow_type) {
            Some(c) => r == Ok::<ColumnType, ConversionError>(c),
            None => r == Err::<ColumnType, ConversionError>(ConversionError::UnsupportedType(arrow_type)),
        },
{
    match arrow_type {
        DataType::Binary => Ok(ColumnType::Blob),
        DataType::Utf8 | DataType::LargeUtf8 => Ok(ColumnType::String),
        DataType::Timestamp(_, _) => Ok(ColumnType::String),
        DataType::Interval(_) => Ok(ColumnType::String),
        DataType::Float16 | DataType::Float64 => Ok(ColumnType::Double),
        DataType::Boolean => Ok(ColumnType::Boolean),
        DataType::List(e) => Ok(ColumnType::List(e)),
        DataType::Int8 | DataType::Int16 | DataType::Int32 | DataType::Int64 | DataType::UInt8
        | DataType::UInt16 | DataType::UInt32 | DataType::UInt64 => Ok(ColumnType::Int64),
        x => Err(ConversionError::UnsupportedType(x)),
    }
}

/// Integer division rounding toward zero, for a positive divisor.
pub open spec fn div_toward_zero(a: int, b: int) -> int {
    if a >= 0 {
        a / b
    } else {
        -((-a) / b)
    }
}

/// Text of a day-time interval:
/// `0 years 0 mons D days H hours M mins S.mm secs`, the parts of the milliseconds
/// taken toward zero, and the leftover milliseconds written as `{:02}` writes them.
pub open spec fn day_time_text(d: DayTime) -> Seq<char> {
    let ms = d.milliseconds as int;
    let secs = div_toward_zero(ms, 1000);
    let mins = div_toward_zero(secs, 60);
    let hours = div_toward_zero(mins, 60);
    "0 years 0 mons "@ + int_text(d.days as int) + " days "@ + int_text(hours) + " hours "@
        + int_text(mins - hours * 60) + " mins "@ + int_text(secs - mins * 60) + "."@
        + two_digit_text(ms - secs * 1000) + " secs"@
}

/// Text of a year-month interval of `months`: whole years rounded down, and the months left.
pub open spec fn year_month_text(months: int) -> Seq<char> {
    int_text(months / 12) + " years "@ + int_text(months % 12)
        + " mons 0 days 0 hours 0 mins 0.00 secs"@
}

fn div_zero(a: i64, b: i64) -> (r: i64)
    requires
        b > 0,
        -0x1_0000_0000 <= a <= 0x1_0000_0000,
    ensures
        r == div_toward_zero(a as int, b as int),
        -0x1_0000_0000 <= r <= 0x1_0000_0000,
{
    if a >= 0 {
        a / b
    } else {
        -((-a) / b)
    }
}

/// The interval text of a day-time value.
pub fn day_time_string(d: DayTime) -> (r: String)
    ensures
        r@ == day_time_text(d),
{
    let ms = d.milliseconds as i64;
    let secs = div_zero(ms, 1000);
    let mins = div_zero(secs, 60);
    let hours = div_zero(mins, 60);
    assert(-0x1_0000_0000 * 1000 <= secs * 1000 <= 0x1_0000_0000 * 1000) by (nonlinear_arith)
        requires -0x1_0000_0000 <= secs <= 0x1_0000_0000;
    assert(-0x1_0000_0000 * 60 <= mins * 60 <= 0x1_0000_0000 * 60) by (nonlinear_arith)
        requires -0x1_0000_0000 <= mins <= 0x1_0000_0000;
    assert(-0x1_0000_0000 * 60 <= hours * 60 <= 0x1_0000_0000 * 60) by (nonlinear_arith)
        requires -0x1_0000_0000 <= hours <= 0x1_0000_0000;
    let mut r = String::from_str("0 years 0 mons ");
    r.append(i64_text(d.days as i64).as_str());
    r.append(" days ");
    r.append(i64_text(hours).as_str());
    r.append(" hours ");
    r.append(i64_text(mins - hours * 60).as_str());
    r.append(" mins ");
    r.append(i64_text(secs - mins * 60).as_str());
    r.append(".");
    r.append(two_digit(ms - secs * 1000).as_str());
    r.append(" secs");
    r
}

/// The interval text of a year-month value.
pub fn year_month_string(months: i32) -> (r: String)
    ensures
        r@ == year_month_text(months as int),
{
    let m = months as i64;
    let years: i64 = if m >= 0 {
        m / 12
    } else {
        -((-m + 11) / 12)
    };
    assert(years == (m as int) / 12) by (nonlinear_arith)
        requires years == (if m >= 0 { m / 12 } else { -((-m + 11) / 12) });
    let rest: i64 = m - years * 12;
    assert(rest == (m as int) % 12) by (nonlinear_arith)
        requires years == (m as int) / 12, rest == m - years * 12;
    let mut r = i64_text(years);
    r.append(" years ");
    r.append(i64_text(rest).as_str());
    r.append(" mons 0 days 0 hours 0 mins 0.00 secs");
    r
}


/// Whether two nested arrays hold the same elements of the same kind.
pub open spec fn same_items(a: ListItems, b: ListItems) -> bool {
    match (a, b) {
        (ListItems::Signed(x), ListItems::Signed(y)) => x@ == y@,
        (ListItems::Unsigned(x), ListItems::Unsigned(y)) => x@ == y@,
        (ListItems::Float(x), ListItems::Float(y)) => x@ == y@,
        (ListItems::Boolean(x), ListItems::Boolean(y)) => x@ == y@,
        (ListItems::Text(x), ListItems::Text(y)) => x@ == y@,
        (ListItems::Unsupported(x), ListItems::Unsupported(y)) => x == y,
        _ => false,
    }
}

fn copy_options<T: Copy>(v: &Vec<Option<T>>) -> (r: Vec<Option<T>>)
    ensures
        r@ == v@,
{
    let mut r: Vec<Option<T>> = Vec::new();
    let mut i: usize = 0;
    while i < v.len()
        invariant
            i <= v.len(),
            r@ =~= v@.take(i as int),
        decreases v.len() - i,
    {
        r.push(v[i]);
        i = i + 1;
    }
    assert(v@.take(v.len() as int) =~= v@);
    r
}

fn copy_floats(v: &Vec<Option<FloatValue>>) -> (r: Vec<Option<FloatValue>>)
    ensures
        r@ == v@,
{
    let mut r: Vec<Option<FloatValue>> = Vec::new();
    let mut i: usize = 0;
    while i < v.len()
        invariant
            i <= v.len(),
            r@ =~= v@.take(i as int),
        decreases v.len() - i,
    {
        let e = match &v[i] {
            Some(f) => Some(f.copy()),
            None => None,
        };
        r.push(e);
        i = i + 1;
    }
    assert(v@.take(v.len() as int) =~= v@);
    r
}

fn copy_strings(v: &Vec<Option<String>>) -> (r: Vec<Option<String>>)
    ensures
        r@ == v@,
{
    let mut r: Vec<Option<String>> = Vec::new();
    let mut i: usize = 0;
    while i < v.len()
        invariant
            i <= v.len(),
            r@ =~= v@.take(i as int),
        decreases v.len() - i,
    {
        let e = match &v[i] {
            Some(s) => Some(s.clone()),
            None => None,
        };
        r.push(e);
        i = i + 1;
    }
    assert(v@.take(v.len() as int) =~= v@);
    r
}

fn copy_items(items: &ListItems) -> (r: ListItems)
    ensures
        same_items(r, *items),
{
    match items {
        ListItems::Signed(v) => ListItems::Signed(copy_options(v)),
        ListItems::Unsigned(v) => ListItems::Unsigned(copy_options(v)),
        ListItems::Float(v) => ListItems::Float(copy_floats(v)),
        ListItems::Boolean(v) => ListItems::Boolean(copy_options(v)),
        ListItems::Text(v) => ListItems::Text(copy_strings(v)),
        ListItems::Unsupported(t) => ListItems::Unsupported(t.copy()),
    }
}

/// A 64-bit unsigned value read as a 64-bit signed one (two's complement).
pub open spec fn as_signed(x: int) -> int {
    if x <= i64::MAX {
        x
    } else {
        x - 0x1_0000_0000_0000_0000
    }
}

/// Whether the converter decodes cells of this array.
pub open spec fn decoded(a: ColumnArray) -> bool {
    !(a is Unsupported)
}

/// Whether every microsecond count of the array still fits in `i64` as nanoseconds.
pub open spec fn scales_to_nanos(a: ColumnArray) -> bool {
    match a {
        ColumnArray::TimestampMicrosecond(v) => forall|i: int|
            0 <= i < v@.len() && #[trigger] v@[i] is Some ==> i64::MIN <= v@[i]->Some_0 * 1000
                <= i64::MAX,
        _ => true,
    }
}

/// Whether `v` is the value of entry `i` of `a`: `Null` where the entry is null, else
/// the entry's value in the semantic form of its storage type.
pub open spec fn cell_value(a: ColumnArray, i: int, v: TableValue) -> bool {
    if a.is_null_at(i) {
        v is Null
    } else {
        match a {
            ColumnArray::Signed(x) => v == TableValue::Int64(x@[i]->Some_0),
            ColumnArray::Unsigned(x) => v is Int64 && v->Int64_0 as int == as_signed(
                x@[i]->Some_0 as int,
            ),
            ColumnArray::Float64(x) => v == TableValue::Float64(x@[i]->Some_0),
            ColumnArray::Utf8(x) => v == TableValue::String(x@[i]->Some_0),
            ColumnArray::Boolean(x) => v == TableValue::Boolean(x@[i]->Some_0),
            ColumnArray::TimestampMicrosecond(x) => v is Timestamp && v->Timestamp_0@
                == millis_truncated(x@[i]->Some_0 * 1000),
            ColumnArray::TimestampNanosecond(x) => v is Timestamp && v->Timestamp_0@
                == millis_truncated(x@[i]->Some_0 as int),
            ColumnArray::IntervalDayTime(x) => v is String && v->String_0@ == day_time_text(
                x@[i]->Some_0,
            ),
            ColumnArray::IntervalYearMonth(x) => v is String && v->String_0@ == year_month_text(
                x@[i]->Some_0 as int,
            ),
            ColumnArray::List(x) => v is List && same_items(v->List_0, x@[i]->Some_0),
            ColumnArray::Unsupported(_) => false,
        }
    }
}

/// Decodes entry `i` of a decoded array.
pub fn decode_cell(a: &ColumnArray, i: usize) -> (v: TableValue)
    requires
        decoded(*a),
        i < a.len_of()->Some_0,
        scales_to_nanos(*a),
    ensures
        cell_value(*a, i as int, v),
{
    match a {
        ColumnArray::Signed(x) => match x[i] {
            Some(n) => TableValue::Int64(n),
            None => TableValue::Null,
        },
        ColumnArray::Unsigned(x) => match x[i] {
            Some(n) => {
                let w: i64 = if n <= 0x7fff_ffff_ffff_ffff {
                    n as i64
                } else {
                    (n - 0x8000_0000_0000_0000) as i64 + i64::MIN
                };
                TableValue::Int64(w)
            },
            None => TableValue::Null,
        },
        ColumnArray::Float64(x) => match &x[i] {
            Some(f) => TableValue::Float64(f.copy()),
            None => TableValue::Null,
        },
        ColumnArray::Utf8(x) => match &x[i] {
            Some(s) => TableValue::String(s.clone()),
            None => TableValue::Null,
        },
        ColumnArray::Boolean(x) => match x[i] {
            Some(b) => TableValue::Boolean(b),
            None => TableValue::Null,
        },
        ColumnArray::TimestampMicrosecond(x) => match x[i] {
            Some(n) => {
                assert(x@[i as int] is Some);
                TableValue::Timestamp(TimestampValue::new(n * 1000))
            },
            None => TableValue::Null,
        },
        ColumnArray::TimestampNanosecond(x) => match x[i] {
            Some(n) => TableValue::Timestamp(TimestampValue::new(n)),
            None => TableValue::Null,
        },
        ColumnArray::IntervalDayTime(x) => match x[i] {
            Some(d) => TableValue::String(day_time_string(d)),
            None => TableValue::Null,
        },
        ColumnArray::IntervalYearMonth(x) => match x[i] {
            Some(m) => TableValue::String(year_month_string(m)),
            None => TableValue::Null,
        },
        ColumnArray::List(x) => match &x[i] {
            Some(items) => TableValue::List(copy_items(items)),
            None => TableValue::Null,
        },
        ColumnArray::Unsupported(_) => TableValue::Null,
    }
}


/// Rows over all batches; a batch without rows adds none.
pub open spec fn total_rows(bs: Seq<Batch>) -> int
    decreases bs.len(),
{
    if bs.len() == 0 {
        0
    } else {
        total_rows(bs.drop_last()) + bs.last().num_rows
    }
}

/// Index of the first batch from `k` on that has rows, or `bs.len()` if none has.
pub open spec fn first_nonempty(bs: Seq<Batch>, k: int) -> int
    decreases bs.len() - k,
{
    if k < 0 || k >= bs.len() {
        bs.len() as int
    } else if bs[k].num_rows > 0 {
        k
    } else {
        first_nonempty(bs, k + 1)
    }
}

/// The batch whose fields give the columns: the first with rows, else the first.
pub open spec fn schema_index(bs: Seq<Batch>) -> int {
    if first_nonempty(bs, 0) < bs.len() {
        first_nonempty(bs, 0)
    } else {
        0
    }
}

/// Every field of the schema batch has a semantic type.
pub open spec fn schema_maps(bs: Seq<Batch>) -> bool {
    bs.len() > 0 ==> forall|j: int|
        0 <= j < bs[schema_index(bs)].fields@.len() ==> (#[trigger] column_type_of(
            bs[schema_index(bs)].fields@[j].data_type,
        )) is Some
}

/// Every array of every batch with rows is of a decoded storage type.
pub open spec fn cells_decoded(bs: Seq<Batch>) -> bool {
    forall|k: int, c: int|
        0 <= k < bs.len() && bs[k].num_rows > 0 && 0 <= c < bs[k].columns@.len() ==> decoded(
            #[trigger] bs[k].columns@[c],
        )
}

/// Whether `row` holds, in column order, the values of entry `i` of the batch's arrays.
pub open spec fn row_of(b: Batch, i: int, row: Row) -> bool {
    &&& row@.len() == b.columns@.len()
    &&& forall|c: int| 0 <= c < b.columns@.len() ==> cell_value(b.columns@[c], i, #[trigger] row@[c])
}

/// Whether `col` is the column that field `f` gives: same name, its semantic type, no flags.
pub open spec fn column_of(f: crate::columnar::Field, col: Column) -> bool {
    &&& col.spec_name() == f.name@
    &&& column_type_of(f.data_type) == Some(col.spec_type())
    &&& col.spec_flags().bits == 0
}

/// Whether `df` is the result of converting `bs`: the schema batch's columns, and each
/// row of each batch, in batch order, decoded cell by cell.
pub open spec fn converted(bs: Seq<Batch>, df: DataFrame) -> bool {
    &&& df.spec_rows().len() == total_rows(bs)
    &&& bs.len() == 0 ==> df.spec_columns().len() == 0
    &&& bs.len() > 0 ==> {
        let fs = bs[schema_index(bs)].fields@;
        &&& df.spec_columns().len() == fs.len()
        &&& forall|j: int| 0 <= j < fs.len() ==> column_of(fs[j], #[trigger] df.spec_columns()[j])
    }
    &&& forall|k: int, i: int|
        0 <= k < bs.len() && 0 <= i < bs[k].num_rows ==> row_of(
            bs[k],
            i,
            #[trigger] df.spec_rows()[total_rows(bs.take(k)) + i],
        )
}

proof fn lemma_total_step(bs: Seq<Batch>, k: int)
    requires
        0 <= k < bs.len(),
    ensures
        total_rows(bs.take(k + 1)) == total_rows(bs.take(k)) + bs[k].num_rows,
{
    assert(bs.take(k + 1).drop_last() =~= bs.take(k));
}

proof fn lemma_total_nonneg(bs: Seq<Batch>)
    ensures
        total_rows(bs) >= 0,
    decreases bs.len(),
{
    if bs.len() > 0 {
        lemma_total_nonneg(bs.drop_last());
    }
}

proof fn lemma_total_mono(bs: Seq<Batch>, k2: int, k: int)
    requires
        0 <= k2 < k <= bs.len(),
    ensures
        total_rows(bs.take(k2)) >= 0,
        total_rows(bs.take(k2)) + bs[k2].num_rows <= total_rows(bs.take(k)),
    decreases k - k2,
{
    lemma_total_step(bs, k2);
    lemma_total_nonneg(bs.take(k2));
    if k2 + 1 < k {
        lemma_total_mono(bs, k2 + 1, k);
        lemma_total_step(bs, k2 + 1);
    }
}

/// Converts batches into one result: columns from the schema batch's fields, then
/// the rows of every batch in order, each row decoded cell by cell.
pub fn batch_to_dataframe(batches: &Vec<Batch>) -> (r: Result<DataFrame, ConversionError>)
    requires
        forall|k: int| 0 <= k < batches@.len() ==> (#[trigger] batches@[k]).wf(),
        forall|k: int, c: int|
            0 <= k < batches@.len() && 0 <= c < batches@[k].columns@.len() ==> scales_to_nanos(
                #[trigger] batches@[k].columns@[c],
            ),
    ensures
        r is Ok <==> schema_maps(batches@) && cells_decoded(batches@),
        r matches Ok(df) ==> converted(batches@, df),
        r matches Err(ConversionError::UnsupportedType(t)) ==> {
            &&& !schema_maps(batches@) ==> exists|j: int|
                0 <= j < batches@[schema_index(batches@)].fields@.len() && (#[trigger] batches@[schema_index(batches@)].fields@[j]).data_type == t
                    && column_type_of(t) is None
            &&& schema_maps(batches@) ==> exists|k: int, c: int|
                0 <= k < batches@.len() && batches@[k].num_rows > 0 && 0 <= c < batches@[k].columns@.len()
                    && #[trigger] batches@[k].columns@[c] == ColumnArray::Unsupported(t)
        },
{
    let ghost bs = batches@;
    let mut cols: Vec<Column> = Vec::new();
    if batches.len() > 0 {
        let mut s: usize = 0;
        while s < batches.len() && batches[s].num_rows == 0
            invariant
                s <= batches.len(),
                bs == batches@,
                first_nonempty(bs, 0) == first_nonempty(bs, s as int),
            decreases batches.len() - s,
        {
            s = s + 1;
        }
        if s == batches.len() {
            s = 0;
        }
        assert(s as int == schema_index(bs));
        let fields = &batches[s].fields;
        let mut j: usize = 0;
        while j < fields.len()
            invariant
                j <= fields.len(),
                bs == batches@,
                s < batches.len(),
                s as int == schema_index(bs),
                *fields == batches@[s as int].fields,
                cols@.len() == j,
                forall|j2: int| 0 <= j2 < j ==> column_of(fields@[j2], #[trigger] cols@[j2]),
            decreases fields.len() - j,
        {
            let t = arrow_to_column_type(fields[j].data_type.copy());
            match t {
                Ok(ct) => {
                    cols.push(Column::new(fields[j].name.clone(), ct, ColumnFlags::empty()));
                },
                Err(e) => {
                    assert(column_type_of(bs[schema_index(bs)].fields@[j as int].data_type) is None);
                    assert(!schema_maps(bs)) by {
                        if schema_maps(bs) {
                            assert(0 <= j < bs[schema_index(bs)].fields@.len());
                        }
                    }
                    return Err(e);
                },
            }
            j = j + 1;
        }
        assert(schema_maps(bs)) by {
            assert forall|j2: int| 0 <= j2 < fields@.len() implies (#[trigger] column_type_of(
                fields@[j2].data_type,
            )) is Some by {
                assert(column_of(fields@[j2], cols@[j2]));
            }
        }
    }
    let mut k: usize = 0;
    while k < batches.len()
        invariant
            k <= batches.len(),
            bs == batches@,
            schema_maps(bs),
            forall|k2: int, c: int|
                0 <= k2 < k && bs[k2].num_rows > 0 && 0 <= c < bs[k2].columns@.len() ==> decoded(
                    #[trigger] bs[k2].columns@[c],
                ),
        decreases batches.len() - k,
    {
        if batches[k].num_rows > 0 {
            let mut c: usize = 0;
            while c < batches[k].columns.len()
                invariant
                    k < batches.len(),
                    schema_maps(bs),
                    batches@[k as int].num_rows > 0,
                    c <= batches@[k as int].columns@.len(),
                    bs == batches@,
                    forall|k2: int, c2: int|
                        0 <= k2 < k && bs[k2].num_rows > 0 && 0 <= c2 < bs[k2].columns@.len()
                            ==> decoded(#[trigger] bs[k2].columns@[c2]),
                    forall|c2: int| 0 <= c2 < c ==> decoded(#[trigger] bs[k as int].columns@[c2]),
                decreases batches@[k as int].columns@.len() - c,
            {
                match &batches[k].columns[c] {
                    ColumnArray::Unsupported(t) => {
                        let t2 = t.copy();
                        assert(bs[k as int].columns@[c as int] == ColumnArray::Unsupported(t2));
                        assert(!decoded(bs[k as int].columns@[c as int]));
                        assert(batches@[k as int].columns@[c as int] == ColumnArray::Unsupported(t2));
                        assert(!cells_decoded(bs)) by {
                            if cells_decoded(bs) {
                                assert(0 <= k < bs.len() && bs[k as int].num_rows > 0);
                                assert(0 <= c < bs[k as int].columns@.len());
                            }
                        }
                        return Err(ConversionError::UnsupportedType(t2));
                    },
                    _ => {},
                }
                c = c + 1;
            }
        }
        k = k + 1;
    }
    let mut all_rows: Vec<Row> = Vec::new();
    let mut k: usize = 0;
    while k < batches.len()
        invariant
            k <= batches.len(),
            bs == batches@,
            cells_decoded(bs),
            forall|k: int| 0 <= k < bs.len() ==> (#[trigger] bs[k]).wf(),
            forall|k: int, c: int|
                0 <= k < bs.len() && 0 <= c < bs[k].columns@.len() ==> scales_to_nanos(
                    #[trigger] bs[k].columns@[c],
                ),
            all_rows@.len() == total_rows(bs.take(k as int)),
            forall|k2: int, i: int|
                0 <= k2 < k && 0 <= i < bs[k2].num_rows ==> row_of(
                    bs[k2],
                    i,
                    #[trigger] all_rows@[total_rows(bs.take(k2)) + i],
                ),
        decreases batches.len() - k,
    {
        let b = &batches[k];
        let ghost base = total_rows(bs.take(k as int));
        proof {
            lemma_total_step(bs, k as int);
            lemma_total_nonneg(bs.take(k as int));
        }
        let mut i: usize = 0;
        while i < b.num_rows
            invariant
                k < batches.len(),
                *b == bs[k as int],
                bs == batches@,
                cells_decoded(bs),
                b.wf(),
                forall|c: int| 0 <= c < b.columns@.len() ==> scales_to_nanos(#[trigger] b.columns@[c]),
                base == total_rows(bs.take(k as int)),
                base >= 0,
                all_rows@.len() == base + i,
                i <= b.num_rows,
                forall|k2: int, i2: int|
                    0 <= k2 < k && 0 <= i2 < bs[k2].num_rows ==> row_of(
                        bs[k2],
                        i2,
                        #[trigger] all_rows@[total_rows(bs.take(k2)) + i2],
                    ),
                forall|i2: int| 0 <= i2 < i ==> row_of(*b, i2, #[trigger] all_rows@[base + i2]),
            decreases b.num_rows - i,
        {
            let mut vals: Vec<TableValue> = Vec::new();
            let mut c: usize = 0;
            while c < b.columns.len()
                invariant
                    c <= b.columns@.len(),
                    i < b.num_rows,
                    b.wf(),
                    b.num_rows > 0,
                    forall|c2: int| 0 <= c2 < b.columns@.len() ==> decoded(#[trigger] b.columns@[c2]),
                    forall|c2: int| 0 <= c2 < b.columns@.len() ==> scales_to_nanos(#[trigger] b.columns@[c2]),
                    vals@.len() == c,
                    forall|c2: int| 0 <= c2 < c ==> cell_value(b.columns@[c2], i as int, #[trigger] vals@[c2]),
                decreases b.columns@.len() - c,
            {
                assert(decoded(b.columns@[c as int]));
                assert(b.columns@[c as int].len_of() is Some);
                let v = decode_cell(&b.columns[c], i);
                vals.push(v);
                c = c + 1;
            }
            let row = Row::new(vals);
            let ghost prev = all_rows@;
            let ghost rv = row;
            all_rows.push(row);
            assert(all_rows@ == prev.push(rv));
            assert(prev.len() == base + i);
            assert forall|k2: int, i2: int|
                0 <= k2 < k && 0 <= i2 < bs[k2].num_rows implies row_of(
                    bs[k2],
                    i2,
                    #[trigger] all_rows@[total_rows(bs.take(k2)) + i2],
                ) by {
                lemma_total_mono(bs, k2, k as int);
                assert(all_rows@[total_rows(bs.take(k2)) + i2] == prev[total_rows(bs.take(k2)) + i2]);
            }
            assert forall|i2: int| 0 <= i2 < i + 1 implies row_of(*b, i2, #[trigger] all_rows@[base + i2]) by {
                if i2 < i {
                    assert(all_rows@[base + i2] == prev[base + i2]);
                }
            }
            i = i + 1;
        }
        k = k + 1;
    }
    assert(bs.take(bs.len() as int) =~= bs);
    Ok(DataFrame::new(cols, all_rows))
}


spec fn origin(bs: Seq<Batch>, k: int, i: int) -> int {
    total_rows(bs.take(k)) + i
}

proof fn lemma_row_origin(bs: Seq<Batch>, j: int)
    requires
        0 <= j < total_rows(bs),
    ensures
        exists|k: int, i: int|
            0 <= k < bs.len() && 0 <= i < bs[k].num_rows && j == #[trigger] origin(bs, k, i),
    decreases bs.len(),
{
    let n = bs.len() - 1;
    assert(bs.take(n) =~= bs.drop_last());
    if j < total_rows(bs.drop_last()) {
        lemma_row_origin(bs.drop_last(), j);
        let (k, i) = choose|k: int, i: int|
            0 <= k < bs.drop_last().len() && 0 <= i < bs.drop_last()[k].num_rows && j
                == #[trigger] origin(bs.drop_last(), k, i);
        assert(bs.drop_last().take(k) =~= bs.take(k));
        assert(j == origin(bs, k, i));
    } else {
        assert(j == origin(bs, n, j - total_rows(bs.take(n))));
    }
}

/// Converting batches that all have as many arrays as the schema batch has fields
/// yields one row per row of the batches (batches without rows add none), and every
/// row holds exactly one value per column.
pub proof fn converted_rows_match_columns(bs: Seq<Batch>, df: DataFrame)
    requires
        forall|k: int| 0 <= k < bs.len() ==> (#[trigger] bs[k]).wf(),
        forall|k: int| 0 <= k < bs.len() ==> (#[trigger] bs[k]).fields@.len() == bs[schema_index(bs)].fields@.len(),
        converted(bs, df),
    ensures
        df.spec_rows().len() == total_rows(bs),
        df.wf(),
{
    assert forall|j: int| 0 <= j < df.spec_rows().len() implies #[trigger] df.spec_rows()[j]@.len()
        == df.spec_columns().len() by {
        lemma_row_origin(bs, j);
        let (k, i) = choose|k: int, i: int|
            0 <= k < bs.len() && 0 <= i < bs[k].num_rows && j == #[trigger] origin(bs, k, i);
        assert(row_of(bs[k], i, df.spec_rows()[total_rows(bs.take(k)) + i]));
        assert(bs[k].wf());
        assert(bs[k].fields@.len() == bs[schema_index(bs)].fields@.len());
    }
}

/// Converting a batch whose array is null at every row yields `Null` in that
/// column of every row of the batch: no value is made up from a null entry.
pub proof fn null_column_yields_nulls(bs: Seq<Batch>, df: DataFrame, k: int, c: int)
    requires
        converted(bs, df),
        0 <= k < bs.len(),
        0 <= c < bs[k].columns@.len(),
        forall|i: int| 0 <= i < bs[k].num_rows ==> #[trigger] bs[k].columns@[c].is_null_at(i),
    ensures
        forall|i: int|
            0 <= i < bs[k].num_rows ==> (#[trigger] df.spec_rows()[total_rows(bs.take(k)) + i])@[c] is Null,
{
    assert forall|i: int| 0 <= i < bs[k].num_rows implies (#[trigger] df.spec_rows()[total_rows(bs.take(k)) + i])@[c] is Null by {
        assert(row_of(bs[k], i, df.spec_rows()[total_rows(bs.take(k)) + i]));
        assert(bs[k].columns@[c].is_null_at(i));
    }
}

} // verus!
