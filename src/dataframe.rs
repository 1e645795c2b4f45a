//! The row-oriented result model (columns, rows, values) and its text grid.
use vstd::prelude::*;
use chrono::TimeZone;
use crate::columnar::{DataType, FloatValue, ListItems};
use crate::text::{comma_join, i64_text, int_text, join_with_commas, u64_text};

verus! {

/// Semantic type of a result column.
#[derive(Debug)]
pub enum ColumnType {
    String,
    Int64,
    Double,
    Boolean,
    Blob,
    /// A list whose elements have the given storage type.
    List(Box<DataType>),
}

impl ColumnType {
    /// An equal copy.
    pub fn copy(&self) -> (r: ColumnType)
        ensures
            r == *self,
    {
        match self {
            ColumnType::String => ColumnType::String,
            ColumnType::Int64 => ColumnType::Int64,
            ColumnType::Double => ColumnType::Double,
            ColumnType::Boolean => ColumnType::Boolean,
            ColumnType::Blob => ColumnType::Blob,
            ColumnType::List(e) => ColumnType::List(Box::new((**e).copy())),
        }
    }
}

/// Attribute bits of a column (nullability, key markers and the like).
#[derive(Clone, Copy, Debug, PartialEq, Eq, Structural)]
pub struct ColumnFlags {
    pub bits: u8,
}

impl ColumnFlags {
    /// The set with no attribute.
    pub fn empty() -> (r: ColumnFlags)
        ensures
            r.bits == 0,
    {
        ColumnFlags { bits: 0 }
    }
}

/// A named, typed column of a result.
#[derive(Debug)]
pub struct Column {
    name: String,
    column_type: ColumnType,
    column_flags: ColumnFlags,
}

impl Column {
    pub closed spec fn spec_name(&self) -> Seq<char> {
        self.name@
    }

    pub closed spec fn spec_type(&self) -> ColumnType {
        self.column_type
    }

    pub closed spec fn spec_flags(&self) -> ColumnFlags {
        self.column_flags
    }

    pub fn new(name: String, column_type: ColumnType, column_flags: ColumnFlags) -> (r: Column)
        ensures
            r.spec_name() == name@,
            r.spec_type() == column_type,
            r.spec_flags() == column_flags,
    {
        Column { name, column_type, column_flags }
    }

    pub fn get_name(&self) -> (r: String)
        ensures
            r@ == self.spec_name(),
    {
        self.name.clone()
    }

    pub fn get_type(&self) -> (r: ColumnType)
        ensures
            r == self.spec_type(),
    {
        self.column_type.copy()
    }

    pub fn get_flags(&self) -> (r: ColumnFlags)
        ensures
            r == self.spec_flags(),
    {
        self.column_flags
    }
}

/// The name of the text that chrono writes for a UTC instant given in nanoseconds
/// since the epoch, as `YYYY-MM-DDTHH:MM:SS.mmm`.
pub uninterp spec fn timestamp_text(unix_nano: int) -> Seq<char>;

/// The millisecond within the second of an instant given in nanoseconds.
pub open spec fn millis_of_second(unix_nano: int) -> int {
    (unix_nano / 1_000_000) % 1000
}

/// `.` and the three digits of the millisecond within the second.
pub open spec fn millis_suffix(unix_nano: int) -> Seq<char> {
    let ms = millis_of_second(unix_nano);
    seq!['.', crate::text::digit_char(ms / 100), crate::text::digit_char((ms / 10) % 10),
        crate::text::digit_char(ms % 10)]
}

/// Relies on chrono's `Utc.timestamp_nanos` (total on `i64`) and its formatting with
/// `%Y-%m-%dT%H:%M:%S%.3f`, whose `%.3f` writes `.` and the zero-padded millisecond.
#[verifier::external_body]
fn format_utc_nanos(unix_nano: i64) -> (r: String)
    ensures
        r@ == timestamp_text(unix_nano as int),
        r@.len() >= 4,
        r@.subrange(r@.len() - 4, r@.len() as int) == millis_suffix(unix_nano as int),
{
    chrono::Utc.timestamp_nanos(unix_nano).format("%Y-%m-%dT%H:%M:%S%.3f").to_string()
}

/// A nanosecond count with its low three decimal digits zeroed (toward zero).
pub open spec fn millis_truncated(n: int) -> int {
    if n >= 0 {
        n - n % 1000
    } else {
        n + (-n) % 1000
    }
}

/// An instant in nanoseconds since the epoch, with the low three decimal digits of the
/// count always zero.
#[derive(Clone, Copy, PartialEq, Eq, Structural, PartialOrd, Ord, Hash, Debug)]
pub struct TimestampValue {
    unix_nano: i64,
}

impl View for TimestampValue {
    type V = int;

    closed spec fn view(&self) -> int {
        self.unix_nano as int
    }
}

impl TimestampValue {
    /// Zeroes the low three decimal digits of `unix_nano` (toward zero).
    pub fn new(unix_nano: i64) -> (r: TimestampValue)
        ensures
            r@ == millis_truncated(unix_nano as int),
    {
        if unix_nano >= 0 {
            TimestampValue { unix_nano: unix_nano - unix_nano % 1000 }
        } else {
            let m: i64 = -(unix_nano + 1);
            let rem: i64 = (m % 1000 + 1) % 1000;
            assert(rem == (-(unix_nano as int)) % 1000) by (nonlinear_arith)
                requires m == -(unix_nano + 1), m >= 0, rem == (m % 1000 + 1) % 1000;
            TimestampValue { unix_nano: unix_nano + rem }
        }
    }

    pub fn get_time_stamp(&self) -> (r: i64)
        ensures
            r as int == self@,
    {
        self.unix_nano
    }

    /// The text `YYYY-MM-DDTHH:MM:SS.mmm` of the instant, in UTC.
    pub fn to_string(&self) -> (r: String)
        ensures
            r@ == timestamp_text(self@),
            r@.len() >= 4,
            r@.subrange(r@.len() - 4, r@.len() as int) == millis_suffix(self@),
    {
        format_utc_nanos(self.unix_nano)
    }
}

/// The value of one cell.
#[derive(Debug)]
pub enum TableValue {
    Null,
    String(String),
    Int64(i64),
    Boolean(bool),
    /// The nested array of a list cell.
    List(ListItems),
    Float64(FloatValue),
    Timestamp(TimestampValue),
}

pub open spec fn null_text() -> Seq<char> {
    "NULL"@
}

pub open spec fn bool_text(b: bool) -> Seq<char> {
    if b {
        "true"@
    } else {
        "false"@
    }
}

/// Text of each element of a nested array, `NULL` for a null element.
pub open spec fn item_texts(items: ListItems) -> Seq<Seq<char>> {
    match items {
        ListItems::Signed(v) => v@.map_values(
            |o: Option<i64>|
                match o {
                    Some(x) => int_text(x as int),
                    None => null_text(),
                },
        ),
        ListItems::Unsigned(v) => v@.map_values(
            |o: Option<u64>|
                match o {
                    Some(x) => int_text(x as int),
                    None => null_text(),
                },
        ),
        ListItems::Float(v) => v@.map_values(
            |o: Option<FloatValue>|
                match o {
                    Some(x) => x.text@,
                    None => null_text(),
                },
        ),
        ListItems::Boolean(v) => v@.map_values(
            |o: Option<bool>|
                match o {
                    Some(x) => bool_text(x),
                    None => null_text(),
                },
        ),
        ListItems::Text(v) => v@.map_values(
            |o: Option<String>|
                match o {
                    Some(x) => x@,
                    None => null_text(),
                },
        ),
        ListItems::Unsupported(_) => Seq::empty(),
    }
}

/// Whether a value has a text form: a list must hold elements of a supported kind.
pub open spec fn renderable(v: TableValue) -> bool {
    match v {
        TableValue::List(items) => !(items is Unsupported),
        _ => true,
    }
}

/// The text form of a value.
pub open spec fn value_text(v: TableValue) -> Seq<char> {
    match v {
        TableValue::Null => null_text(),
        TableValue::String(s) => s@,
        TableValue::Int64(x) => int_text(x as int),
        TableValue::Boolean(b) => bool_text(b),
        TableValue::Float64(f) => f.text@,
        TableValue::Timestamp(t) => timestamp_text(t@),
        TableValue::List(items) => seq!['{'] + comma_join(item_texts(items)) + seq!['}'],
    }
}

fn null_string() -> (r: String)
    ensures
        r@ == null_text(),
{
    String::from_str("NULL")
}

fn bool_string(b: bool) -> (r: String)
    ensures
        r@ == bool_text(b),
{
    if b {
        String::from_str("true")
    } else {
        String::from_str("false")
    }
}

/// Texts of the elements of a nested array.
fn item_strings(items: &ListItems) -> (r: Vec<String>)
    requires
        !(*items is Unsupported),
    ensures
        r@.map_values(|s: String| s@) == item_texts(*items),
{
    let mut r: Vec<String> = Vec::new();
    match items {
        ListItems::Signed(v) => {
            let mut i: usize = 0;
            while i < v.len()
                invariant
                    i <= v.len(),
                    r@.map_values(|s: String| s@) =~= item_texts(*items).take(i as int),
                    *items == ListItems::Signed(*v),
                decreases v.len() - i,
            {
                let t = match v[i] {
                    Some(x) => i64_text(x),
                    None => null_string(),
                };
                let ghost prev = r@;
                r.push(t);
                assert(r@.map_values(|s: String| s@) =~= prev.map_values(|s: String| s@).push(t@));
                assert(item_texts(*items).take(i as int + 1) =~= item_texts(*items).take(i as int).push(item_texts(*items)[i as int]));
                i = i + 1;
            }
        },
        ListItems::Unsigned(v) => {
            let mut i: usize = 0;
            while i < v.len()
                invariant
                    i <= v.len(),
                    r@.map_values(|s: String| s@) =~= item_texts(*items).take(i as int),
                    *items == ListItems::Unsigned(*v),
                decreases v.len() - i,
            {
                let t = match v[i] {
                    Some(x) => u64_text(x),
                    None => null_string(),
                };
                let ghost prev = r@;
                r.push(t);
                assert(r@.map_values(|s: String| s@) =~= prev.map_values(|s: String| s@).push(t@));
                assert(item_texts(*items).take(i as int + 1) =~= item_texts(*items).take(i as int).push(item_texts(*items)[i as int]));
                i = i + 1;
            }
        },
        ListItems::Float(v) => {
            let mut i: usize = 0;
            while i < v.len()
                invariant
                    i <= v.len(),
                    r@.map_values(|s: String| s@) =~= item_texts(*items).take(i as int),
                    *items == ListItems::Float(*v),
                decreases v.len() - i,
            {
                let t = match &v[i] {
                    Some(x) => x.text.clone(),
                    None => null_string(),
                };
                let ghost prev = r@;
                r.push(t);
                assert(r@.map_values(|s: String| s@) =~= prev.map_values(|s: String| s@).push(t@));
                assert(item_texts(*items).take(i as int + 1) =~= item_texts(*items).take(i as int).push(item_texts(*items)[i as int]));
                i = i + 1;
            }
        },
        ListItems::Boolean(v) => {
            let mut i: usize = 0;
            while i < v.len()
                invariant
                    i <= v.len(),
                    r@.map_values(|s: String| s@) =~= item_texts(*items).take(i as int),
                    *items == ListItems::Boolean(*v),
                decreases v.len() - i,
            {
                let t = match v[i] {
                    Some(x) => bool_string(x),
                    None => null_string(),
                };
                let ghost prev = r@;
                r.push(t);
                assert(r@.map_values(|s: String| s@) =~= prev.map_values(|s: String| s@).push(t@));
                assert(item_texts(*items).take(i as int + 1) =~= item_texts(*items).take(i as int).push(item_texts(*items)[i as int]));
                i = i + 1;
            }
        },
        ListItems::Text(v) => {
            let mut i: usize = 0;
            while i < v.len()
                invariant
                    i <= v.len(),
                    r@.map_values(|s: String| s@) =~= item_texts(*items).take(i as int),
                    *items == ListItems::Text(*v),
                decreases v.len() - i,
            {
                let t = match &v[i] {
                    Some(x) => x.clone(),
                    None => null_string(),
                };
                let ghost prev = r@;
                r.push(t);
                assert(r@.map_values(|s: String| s@) =~= prev.map_values(|s: String| s@).push(t@));
                assert(item_texts(*items).take(i as int + 1) =~= item_texts(*items).take(i as int).push(item_texts(*items)[i as int]));
                i = i + 1;
            }
        },
        ListItems::Unsupported(_) => {},
    }
    assert(item_texts(*items).take(item_texts(*items).len() as int) =~= item_texts(*items));
    r
}

impl TableValue {
    /// The text form of the value: `NULL`, the string itself, decimal numbers,
    /// `true`/`false`, the timestamp text, or `{a,b,...}` for a list.
    pub fn to_string(&self) -> (r: String)
        requires
            renderable(*self),
        ensures
            r@ == value_text(*self),
    {
        match self {
            TableValue::Null => null_string(),
            TableValue::String(s) => s.clone(),
            TableValue::Int64(x) => i64_text(*x),
            TableValue::Boolean(b) => bool_string(*b),
            TableValue::Float64(f) => f.text.clone(),
            TableValue::Timestamp(t) => t.to_string(),
            TableValue::List(items) => {
                let parts = item_strings(items);
                let mut r = String::from_str("{");
                let joined = join_with_commas(&parts);
                r.append(joined.as_str());
                r.append("}");
                proof {
                    reveal_strlit("{");
                    reveal_strlit("}");
                }
                assert(r@ =~= seq!['{'] + comma_join(item_texts(*items)) + seq!['}']);
                r
            },
        }
    }
}


/// One result row: a value per column, in column order.
#[derive(Debug)]
pub struct Row {
    values: Vec<TableValue>,
}

impl View for Row {
    type V = Seq<TableValue>;

    closed spec fn view(&self) -> Seq<TableValue> {
        self.values@
    }
}

impl Row {
    pub fn new(values: Vec<TableValue>) -> (r: Row)
        ensures
            r@ == values@,
    {
        Row { values }
    }

    pub fn len(&self) -> (r: usize)
        ensures
            r == self@.len(),
    {
        self.values.len()
    }

    pub fn values(&self) -> (r: &Vec<TableValue>)
        ensures
            r@ == self@,
    {
        &self.values
    }

    pub fn push(&mut self, val: TableValue)
        ensures
            final(self)@ == old(self)@.push(val),
    {
        self.values.push(val);
    }
}

/// Columns and rows of a materialized result.
#[derive(Debug)]
pub struct DataFrame {
    columns: Vec<Column>,
    data: Vec<Row>,
}

/// The border style of the grid: `+---+` borders, `|` between cells.
pub open spec fn grid_style() -> Seq<char> {
    "||--+-++|    ++++++"@
}

/// The name of the text that comfy-table lays out for a header and rows of cell texts,
/// in a given style, with trailing whitespace trimmed from each line.
pub uninterp spec fn grid_text(style: Seq<char>, header: Seq<Seq<char>>, rows: Seq<Seq<Seq<char>>>) -> Seq<char>;

pub open spec fn texts_of(v: Seq<String>) -> Seq<Seq<char>> {
    v.map_values(|s: String| s@)
}

pub open spec fn rows_texts_of(v: Seq<Vec<String>>) -> Seq<Seq<Seq<char>>> {
    v.map_values(|r: Vec<String>| texts_of(r@))
}

/// Relies on comfy-table's `Table::new`, `load_preset`, `set_header`, `add_row` and
/// `trim_fmt`: the laid-out grid depends on the style and cell texts alone.
#[verifier::external_body]
fn render_grid(style: &str, header: &Vec<String>, rows: &Vec<Vec<String>>) -> (r: String)
    ensures
        r@ == grid_text(style@, texts_of(header@), rows_texts_of(rows@)),
{
    let mut table = comfy_table::Table::new();
    table.load_preset(style);
    table.set_header(header.clone());
    for row in rows.iter() {
        table.add_row(row.clone());
    }
    table.trim_fmt()
}

impl DataFrame {
    pub closed spec fn spec_columns(&self) -> Seq<Column> {
        self.columns@
    }

    pub closed spec fn spec_rows(&self) -> Seq<Row> {
        self.data@
    }

    /// Every row has one value per column.
    pub open spec fn wf(&self) -> bool {
        forall|i: int|
            0 <= i < self.spec_rows().len() ==> #[trigger] self.spec_rows()[i]@.len()
                == self.spec_columns().len()
    }

    /// Every value has a text form.
    pub open spec fn renderable(&self) -> bool {
        forall|i: int, j: int|
            0 <= i < self.spec_rows().len() && 0 <= j < self.spec_rows()[i]@.len()
                ==> renderable(#[trigger] self.spec_rows()[i]@[j])
    }

    /// Column names, in order.
    pub open spec fn header_texts(&self) -> Seq<Seq<char>> {
        self.spec_columns().map_values(|c: Column| c.spec_name())
    }

    /// Text of each value of each row.
    pub open spec fn body_texts(&self) -> Seq<Seq<Seq<char>>> {
        self.spec_rows().map_values(|r: Row| r@.map_values(|v: TableValue| value_text(v)))
    }

    pub fn new(columns: Vec<Column>, data: Vec<Row>) -> (r: DataFrame)
        ensures
            r.spec_columns() == columns@,
            r.spec_rows() == data@,
    {
        DataFrame { columns, data }
    }

    pub fn len(&self) -> (r: usize)
        ensures
            r == self.spec_rows().len(),
    {
        self.data.len()
    }

    pub fn get_columns(&self) -> (r: &Vec<Column>)
        ensures
            r@ == self.spec_columns(),
    {
        &self.columns
    }

    pub fn get_rows(&self) -> (r: &Vec<Row>)
        ensures
            r@ == self.spec_rows(),
    {
        &self.data
    }

    pub fn into_rows(self) -> (r: Vec<Row>)
        ensures
            r@ == self.spec_rows(),
    {
        self.data
    }

    /// The rows, for changes in place; the columns stay as they are.
    pub fn mut_rows(&mut self) -> (r: &mut Vec<Row>)
        ensures
            r@ == old(self).spec_rows(),
            final(self).spec_columns() == old(self).spec_columns(),
            final(self).spec_rows() == final(r)@,
    {
        &mut self.data
    }

    /// The grid text: a header line of column names and one line per row, each cell
    /// holding the value's text form, with `+---+` borders.
    pub fn print(&self) -> (r: String)
        requires
            self.renderable(),
        ensures
            r@ == grid_text(grid_style(), self.header_texts(), self.body_texts()),
    {
        let mut header: Vec<String> = Vec::new();
        let mut i: usize = 0;
        while i < self.columns.len()
            invariant
                i <= self.columns.len(),
                texts_of(header@) =~= self.header_texts().take(i as int),
            decreases self.columns.len() - i,
        {
            let name = self.columns[i].get_name();
            let ghost prev = header@;
            header.push(name);
            assert(texts_of(header@) =~= texts_of(prev).push(name@));
            assert(self.header_texts().take(i as int + 1) =~= self.header_texts().take(i as int).push(self.header_texts()[i as int]));
            i = i + 1;
        }
        assert(self.header_texts().take(self.columns.len() as int) =~= self.header_texts());
        let mut body: Vec<Vec<String>> = Vec::new();
        let mut k: usize = 0;
        while k < self.data.len()
            invariant
                k <= self.data.len(),
                self.renderable(),
                rows_texts_of(body@) =~= self.body_texts().take(k as int),
            decreases self.data.len() - k,
        {
            let row = &self.data[k];
            let ghost want = self.body_texts()[k as int];
            let mut cells: Vec<String> = Vec::new();
            let mut j: usize = 0;
            while j < row.values.len()
                invariant
                    j <= row.values.len(),
                    row == self.data@[k as int],
                    k < self.data.len(),
                    self.renderable(),
                    want == row@.map_values(|v: TableValue| value_text(v)),
                    texts_of(cells@) =~= want.take(j as int),
                decreases row.values.len() - j,
            {
                assert(renderable(self.spec_rows()[k as int]@[j as int]));
                let t = row.values[j].to_string();
                let ghost prev = cells@;
                cells.push(t);
                assert(texts_of(cells@) =~= texts_of(prev).push(t@));
                assert(want.take(j as int + 1) =~= want.take(j as int).push(want[j as int]));
                j = j + 1;
            }
            assert(want.take(row.values.len() as int) =~= want);
            let ghost prev = body@;
            let ghost cv = cells@;
            body.push(cells);
            assert(rows_texts_of(body@) =~= rows_texts_of(prev).push(texts_of(cv)));
            assert(self.body_texts().take(k as int + 1) =~= self.body_texts().take(k as int).push(want));
            k = k + 1;
        }
        assert(self.body_texts().take(self.data.len() as int) =~= self.body_texts());
        render_grid("||--+-++|    ++++++", &header, &body)
    }
}


/// Zeroing the low three digits keeps the millisecond within the second, so the
/// timestamp text ends in the input's own `.mmm`; the exception is a negative count
/// whose truncation toward zero lands on a whole second from below it.
pub proof fn truncation_keeps_millis(unix_nano: int)
    requires
        !(unix_nano < 0 && unix_nano % 1000 != 0 && millis_truncated(unix_nano) % 1_000_000 == 0),
    ensures
        millis_of_second(millis_truncated(unix_nano)) == millis_of_second(unix_nano),
        millis_suffix(millis_truncated(unix_nano)) == millis_suffix(unix_nano),
{
    let t = millis_truncated(unix_nano);
    let q = unix_nano / 1_000_000;
    let r = unix_nano % 1_000_000;
    assert(unix_nano == 1_000_000 * q + r && 0 <= r < 1_000_000);
    if unix_nano >= 0 {
        assert(unix_nano % 1000 == r % 1000) by (nonlinear_arith)
            requires unix_nano == 1_000_000 * q + r, 0 <= r < 1_000_000, unix_nano >= 0;
        assert(t / 1_000_000 == q);
    } else {
        let d = (-unix_nano) % 1000;
        assert(t == unix_nano + d);
        assert((unix_nano + d) % 1000 == 0);
        if d == 0 {
        } else {
            assert(unix_nano % 1000 != 0);
            assert(t % 1_000_000 != 0);
            assert(0 <= r + d < 1_000_000) by (nonlinear_arith)
                requires t == 1_000_000 * q + r + d, t % 1000 == 0, t % 1_000_000 != 0,
                    0 <= r < 1_000_000, 0 < d < 1000;
            assert(t / 1_000_000 == q);
        }
    }
}

/// Rendering depends on the column names and the value texts alone: the same frame,
/// or any frame with the same names and texts, renders to the same grid.
pub proof fn rendering_is_deterministic(a: DataFrame, b: DataFrame)
    requires
        a.header_texts() == b.header_texts(),
        a.body_texts() == b.body_texts(),
    ensures
        grid_text(grid_style(), a.header_texts(), a.body_texts()) == grid_text(
            grid_style(),
            b.header_texts(),
            b.body_texts(),
        ),
{
}

} // verus!
