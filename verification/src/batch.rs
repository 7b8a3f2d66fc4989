//! The record batches of a scan, as far as statistics are read from them.

use vstd::prelude::*;

use chrono::{SecondsFormat, Utc};
use datafusion::arrow::array::{
    Array, ArrayData, AsArray, BooleanArray, Int64Array, RecordBatch, StringArray,
    TimestampMicrosecondArray,
};
use datafusion::arrow::compute::cast;
use datafusion::arrow::datatypes::{DataType, TimeUnit};

use crate::array::{find_route, ArrayKind, ArrayTree, CastRoute};

verus! {

/// The unit of a timestamp.
#[derive(Debug, Clone, Copy, PartialEq, Eq, Structural)]
pub enum TimestampUnit {
    Second,
    Millisecond,
    Microsecond,
    Nanosecond,
}

/// The type of the values that a dictionary refers to.
#[derive(Debug, Clone, Copy, PartialEq, Eq, Structural)]
pub enum DictionaryValues {
    Utf8,
    Other,
}

/// The type of a field, as far as types are told apart.
#[derive(Debug, Clone, Copy, PartialEq, Eq, Structural)]
pub enum ColumnType {
    Utf8,
    Dictionary(DictionaryValues),
    Int64,
    Boolean,
    Timestamp(TimestampUnit),
    Other,
}

/// A record batch of a scan. It is opaque: what it holds is spoken of through `batch_rows`,
/// `batch_columns` and `batch_text`.
#[verifier::external_body]
pub struct ScanBatch {
    pub record_batch: RecordBatch,
}

/// The cells of an array, by the type of the array; a null cell is `None`.
pub enum ArrayCells {
    Utf8(Seq<Option<Seq<char>>>),
    Int64(Seq<Option<i64>>),
    TimestampMicrosecond(Seq<Option<i64>>),
    Boolean(Seq<Option<bool>>),
    /// A dictionary of strings: the string that each key stands for, `None` where the key or its
    /// string is null.
    DictionaryUtf8(Seq<Option<Seq<char>>>),
    Other,
}

/// A column of a record batch: the name and the type of its field, and its array.
pub struct BatchColumn {
    pub name: Seq<char>,
    pub data_type: ColumnType,
    pub null_count: usize,
    pub tree: ArrayTree,
    pub cells: ArrayCells,
}

/// The number of rows of a record batch.
pub uninterp spec fn batch_rows(batch: ScanBatch) -> usize;

/// The columns of a record batch, in the order of its schema.
pub uninterp spec fn batch_columns(batch: ScanBatch) -> Seq<BatchColumn>;

/// The cells of the column with a name after `arrow::compute::cast` to strings on its route, where
/// there is such a column and the cast succeeds.
pub uninterp spec fn batch_text(batch: ScanBatch, name: Seq<char>) -> Option<
    Seq<Option<Seq<char>>>,
>;

/// The first column with a name.
pub open spec fn column_named(columns: Seq<BatchColumn>, name: Seq<char>) -> Option<BatchColumn>
    decreases columns.len(),
{
    if columns.len() == 0 {
        None
    } else if columns[0].name == name {
        Some(columns[0])
    } else {
        column_named(columns.drop_first(), name)
    }
}

/// The nulls of the column with a name.
pub open spec fn null_count_named(batch: ScanBatch, name: Seq<char>) -> Option<usize> {
    match column_named(batch_columns(batch), name) {
        Some(column) => Some(column.null_count),
        None => None,
    }
}

/// The cells of the column with a name, where it is an array of strings.
pub open spec fn strings_named(batch: ScanBatch, name: Seq<char>) -> Option<
    Seq<Option<Seq<char>>>,
> {
    match column_named(batch_columns(batch), name) {
        Some(BatchColumn { cells: ArrayCells::Utf8(cells), .. }) => Some(cells),
        _ => None,
    }
}

/// The strings of the column with a name, where it is an array or a dictionary of strings.
pub open spec fn text_named(batch: ScanBatch, name: Seq<char>) -> Option<Seq<Option<Seq<char>>>> {
    match column_named(batch_columns(batch), name) {
        Some(BatchColumn { cells: ArrayCells::Utf8(cells), .. }) => Some(cells),
        Some(BatchColumn { cells: ArrayCells::DictionaryUtf8(cells), .. }) => Some(cells),
        _ => None,
    }
}

/// The number of bytes that the text in cells takes in UTF-8.
pub open spec fn text_bytes(cells: Seq<Option<Seq<char>>>) -> nat
    decreases cells.len(),
{
    if cells.len() == 0 {
        0
    } else {
        text_bytes(cells.drop_last()) + match cells.last() {
            Some(text) => vstd::utf8::encode_utf8(text).len(),
            None => 0,
        }
    }
}

/// 32-bit offsets can address the text in cells.
pub open spec fn addressable(cells: Seq<Option<Seq<char>>>) -> bool {
    text_bytes(cells) <= i32::MAX
}

/// The route on which the column with a name is cast to strings, if there is one.
pub open spec fn route_named(batch: ScanBatch, name: Seq<char>) -> Option<CastRoute> {
    match column_named(batch_columns(batch), name) {
        Some(column) => crate::array::route(column.tree),
        None => None,
    }
}

/// What the column with a name reads as after a cast to strings. Strings stay as they are. Of a
/// dictionary of strings come the strings that its keys stand for, unless they are too much text for
/// 32-bit offsets. Other arrays are read where there is a route for them.
pub open spec fn cast_named(batch: ScanBatch, name: Seq<char>) -> Option<Seq<Option<Seq<char>>>> {
    match column_named(batch_columns(batch), name) {
        Some(BatchColumn { cells: ArrayCells::Utf8(cells), .. }) => Some(cells),
        Some(BatchColumn { cells: ArrayCells::DictionaryUtf8(cells), .. }) => if addressable(
            cells,
        ) {
            Some(cells)
        } else {
            None
        },
        Some(_) => if route_named(batch, name) is Some {
            batch_text(batch, name)
        } else {
            None
        },
        None => None,
    }
}

/// Among the cells that the column with a name was read with are at least as many nulls as are counted
/// in it.
pub open spec fn nulls_are_cells<T>(
    batch: ScanBatch,
    name: Seq<char>,
    cells: Seq<Option<T>>,
) -> bool {
    &&& null_count_named(batch, name) is Some
    &&& null_count_named(batch, name)->0 <= crate::scan::null_cells(cells)
}

/// The column with a name is an array of lists of one element with null lists among them. A cast to
/// strings takes the elements, and the nulls among the lists are lost.
pub open spec fn loses_nulls(batch: ScanBatch, name: Seq<char>) -> bool {
    match column_named(batch_columns(batch), name) {
        Some(column) => column.tree.kind == ArrayKind::FixedSizeList(1) && column.null_count > 0,
        None => false,
    }
}

/// The cells of the column with a name, where it is an array of 64-bit integers.
pub open spec fn integers_named(batch: ScanBatch, name: Seq<char>) -> Option<Seq<Option<i64>>> {
    match column_named(batch_columns(batch), name) {
        Some(BatchColumn { cells: ArrayCells::Int64(cells), .. }) => Some(cells),
        _ => None,
    }
}

/// The cells of the column with a name, where it is an array of timestamps in microseconds.
pub open spec fn timestamps_named(batch: ScanBatch, name: Seq<char>) -> Option<Seq<Option<i64>>> {
    match column_named(batch_columns(batch), name) {
        Some(BatchColumn { cells: ArrayCells::TimestampMicrosecond(cells), .. }) => Some(cells),
        _ => None,
    }
}

/// The cells of the column with a name, where it is an array of booleans.
pub open spec fn booleans_named(batch: ScanBatch, name: Seq<char>) -> Option<Seq<Option<bool>>> {
    match column_named(batch_columns(batch), name) {
        Some(BatchColumn { cells: ArrayCells::Boolean(cells), .. }) => Some(cells),
        _ => None,
    }
}

/// `RecordBatch::num_rows`: the number of rows.
#[verifier::external_body]
pub(crate) fn num_rows(batch: &ScanBatch) -> (rows: usize)
    ensures
        rows == batch_rows(*batch),
{
    batch.record_batch.num_rows()
}

/// `Schema::fields` and its length: the number of fields, each of which has a column.
#[verifier::external_body]
pub(crate) fn num_fields(batch: &ScanBatch) -> (fields: usize)
    ensures
        fields == batch_columns(*batch).len(),
{
    batch.record_batch.schema_ref().fields().len()
}

/// `Schema::field` and `Field::name`: the name of the field in a place of the schema.
#[verifier::external_body]
pub(crate) fn field_name(batch: &ScanBatch, place: usize) -> (name: String)
    requires
        place < batch_columns(*batch).len(),
    ensures
        name@ == batch_columns(*batch)[place as int].name,
{
    batch.record_batch.schema_ref().field(place).name().clone()
}

/// `Schema::field` and `Field::data_type`: the type of the field in a place of the schema. Types
/// that are not told apart are all `Other`.
#[verifier::external_body]
pub(crate) fn field_type(batch: &ScanBatch, place: usize) -> (data_type: ColumnType)
    requires
        place < batch_columns(*batch).len(),
    ensures
        data_type == batch_columns(*batch)[place as int].data_type,
{
    match batch.record_batch.schema_ref().field(place).data_type() {
        DataType::Utf8 => ColumnType::Utf8,
        DataType::Dictionary(_, values) => match values.as_ref() {
            DataType::Utf8 => ColumnType::Dictionary(DictionaryValues::Utf8),
            _ => ColumnType::Dictionary(DictionaryValues::Other),
        },
        DataType::Int64 => ColumnType::Int64,
        DataType::Boolean => ColumnType::Boolean,
        DataType::Timestamp(TimeUnit::Second, _) => ColumnType::Timestamp(TimestampUnit::Second),
        DataType::Timestamp(TimeUnit::Millisecond, _) => ColumnType::Timestamp(TimestampUnit::Millisecond),
        DataType::Timestamp(TimeUnit::Microsecond, _) => ColumnType::Timestamp(TimestampUnit::Microsecond),
        DataType::Timestamp(TimeUnit::Nanosecond, _) => ColumnType::Timestamp(TimestampUnit::Nanosecond),
        _ => ColumnType::Other,
    }
}

/// `RecordBatch::column_by_name` and `Array::null_count`: the nulls of the first column with a
/// name, of which there are no more than rows.
#[verifier::external_body]
pub(crate) fn column_null_count(batch: &ScanBatch, name: &str) -> (count: Option<usize>)
    ensures
        count == null_count_named(*batch, name@),
        count is Some ==> count->0 <= batch_rows(*batch),
{
    batch.record_batch.column_by_name(name).map(|array| array.null_count())
}

/// `RecordBatch::column_by_name`, a downcast to `StringArray` and its cells: one for each
/// row, and as many null cells as nulls.
#[verifier::external_body]
pub(crate) fn column_strings(batch: &ScanBatch, name: &str) -> (cells: Option<Vec<Option<String>>>)
    ensures
        cells.deep_view() == strings_named(*batch, name@),
        cells is Some ==> cells->0@.len() == batch_rows(*batch),
        cells is Some ==> null_count_named(*batch, name@) is Some && null_count_named(
            *batch,
            name@,
        )->0 == crate::scan::null_cells(cells->0.deep_view()),
{
    let array = batch.record_batch.column_by_name(name)?.as_any().downcast_ref::<StringArray>()?;
    Some(array.iter().map(|cell| cell.map(str::to_string)).collect())
}

/// `RecordBatch::column_by_name` and `Array::to_data`: the data of the first column with a name. An
/// array of strings, and a dictionary of strings, are told by what they are made of.
#[verifier::external_body]
pub(crate) fn column_data(batch: &ScanBatch, name: &str) -> (data: Option<ArrayData>)
    ensures
        match column_named(batch_columns(*batch), name@) {
            Some(column) => {
                &&& data is Some
                &&& crate::array::array_tree(data->0) == column.tree
                &&& column.cells is Utf8 ==> crate::array::array_tree(data->0).kind
                    == ArrayKind::Utf8
                &&& column.cells is DictionaryUtf8 ==> {
                    let tree = crate::array::array_tree(data->0);
                    &&& tree.kind == ArrayKind::Dictionary
                    &&& tree.parts.len() == 1
                    &&& tree.parts[0].kind == ArrayKind::Utf8
                }
            },
            None => data is None,
        },
{
    batch.record_batch.column_by_name(name).map(|array| array.to_data())
}

/// `arrow::compute::cast` of a column on its route and then to `Utf8`, and the cells of the result: one
/// for each row. Views of strings are cast to `LargeUtf8` in between. What they are has only a name here,
/// but for columns of strings. An array of strings stays as it is. Of a dictionary come the strings
/// that its keys stand for; the cast fails exactly where they are more text than 32-bit offsets
/// address. There are at least as many null cells as nulls, unless nulls are lost with lists.
#[verifier::external_body]
pub(crate) fn column_text(batch: &ScanBatch, name: &str, route: CastRoute) -> (cells: Option<
    Vec<Option<String>>,
>)
    requires
        route_named(*batch, name@) == Some(route),
    ensures
        cells.deep_view() == batch_text(*batch, name@),
        text_named(*batch, name@) is Some ==> cells.deep_view() == if strings_named(
            *batch,
            name@,
        ) is Some || addressable(text_named(*batch, name@)->0) {
            text_named(*batch, name@)
        } else {
            None
        },
        cells is Some ==> cells->0@.len() == batch_rows(*batch),
        cells is Some && !loses_nulls(*batch, name@) ==> nulls_are_cells(
            *batch,
            name@,
            cells->0.deep_view(),
        ),
{
    let column = batch.record_batch.column_by_name(name)?;
    let (large, utf8) = (DataType::LargeUtf8, DataType::Utf8);
    let text = match (route, column.data_type()) {
        (CastRoute::ThroughLarge, _) => cast(column, &large),
        (CastRoute::ThroughViews, _) => cast(&cast(column, &DataType::Utf8View).ok()?, &large),
        (CastRoute::ThroughValues, DataType::Dictionary(keys, _)) => cast(
            column,
            &DataType::Dictionary(keys.clone(), Box::new(large)),
        ),
        _ => cast(column, &utf8),
    };
    let text = cast(&text.ok()?, &utf8).ok()?;
    Some(text.as_string_opt::<i32>()?.iter().map(|cell| cell.map(str::to_string)).collect())
}

/// `RecordBatch::column_by_name`, a downcast to `Int64Array` and its cells: one for each
/// row, and as many null cells as nulls.
#[verifier::external_body]
pub(crate) fn column_integers(batch: &ScanBatch, name: &str) -> (cells: Option<Vec<Option<i64>>>)
    ensures
        cells.deep_view() == integers_named(*batch, name@),
        cells is Some ==> cells->0@.len() == batch_rows(*batch),
        cells is Some ==> null_count_named(*batch, name@) is Some && null_count_named(
            *batch,
            name@,
        )->0 == crate::scan::null_cells(cells->0.deep_view()),
{
    let array = batch.record_batch.column_by_name(name)?.as_any().downcast_ref::<Int64Array>()?;
    Some(array.iter().collect())
}

/// `RecordBatch::column_by_name`, a downcast to `TimestampMicrosecondArray`, whatever its time zone,
/// and its cells: one for each row, and as many null cells as nulls.
#[verifier::external_body]
pub(crate) fn column_timestamps(batch: &ScanBatch, name: &str) -> (cells: Option<Vec<Option<i64>>>)
    ensures
        cells.deep_view() == timestamps_named(*batch, name@),
        cells is Some ==> cells->0@.len() == batch_rows(*batch),
        cells is Some ==> null_count_named(*batch, name@) is Some && null_count_named(
            *batch,
            name@,
        )->0 == crate::scan::null_cells(cells->0.deep_view()),
{
    let column = batch.record_batch.column_by_name(name)?;
    let array = column.as_any().downcast_ref::<TimestampMicrosecondArray>()?;
    Some(array.iter().collect())
}

/// `RecordBatch::column_by_name`, a downcast to `BooleanArray` and its cells: one for each
/// row, and as many null cells as nulls.
#[verifier::external_body]
pub(crate) fn column_booleans(batch: &ScanBatch, name: &str) -> (cells: Option<Vec<Option<bool>>>)
    ensures
        cells.deep_view() == booleans_named(*batch, name@),
        cells is Some ==> cells->0@.len() == batch_rows(*batch),
        cells is Some ==> null_count_named(*batch, name@) is Some && null_count_named(
            *batch,
            name@,
        )->0 == crate::scan::null_cells(cells->0.deep_view()),
{
    let array = batch.record_batch.column_by_name(name)?.as_any().downcast_ref::<BooleanArray>()?;
    Some(array.iter().collect())
}

/// Reads the column with a name as strings.
pub(crate) fn read_column_text(batch: &ScanBatch, name: &str) -> (cells: Option<
    Vec<Option<String>>,
>)
    ensures
        cells.deep_view() == cast_named(*batch, name@),
        cells is Some ==> cells->0@.len() == batch_rows(*batch),
        cells is Some && !loses_nulls(*batch, name@) ==> nulls_are_cells(
            *batch,
            name@,
            cells->0.deep_view(),
        ),
{
    proof {
        reveal_with_fuel(crate::array::route, 2);
    }
    match column_data(batch, name) {
        Some(data) => match find_route(&data) {
            Some(route) => column_text(batch, name, route),
            None => None,
        },
        None => None,
    }
}

/// A decimal digit.
pub open spec fn is_digit(character: char) -> bool {
    '0' <= character <= '9'
}

/// A moment in UTC to the second: a year, `-MM-DDTHH:MM:SSZ`. A year has four digits, or a sign and
/// at least four.
pub open spec fn is_utc_second(moment: Seq<char>) -> bool {
    let end = moment.len() as int;
    &&& end >= 20
    &&& moment[end - 16] == '-' && is_digit(moment[end - 15]) && is_digit(moment[end - 14])
    &&& moment[end - 13] == '-' && is_digit(moment[end - 12]) && is_digit(moment[end - 11])
    &&& moment[end - 10] == 'T' && is_digit(moment[end - 9]) && is_digit(moment[end - 8])
    &&& moment[end - 7] == ':' && is_digit(moment[end - 6]) && is_digit(moment[end - 5])
    &&& moment[end - 4] == ':' && is_digit(moment[end - 3]) && is_digit(moment[end - 2])
    &&& moment[end - 1] == 'Z'
    &&& end == 20 ==> is_digit(moment[0])
    &&& end > 20 ==> moment[0] == '+' || moment[0] == '-'
    &&& forall|i: int| 1 <= i < end - 16 ==> is_digit(#[trigger] moment[i])
}

/// `chrono::Utc::now` and `DateTime::to_rfc3339_opts` with whole seconds and `Z`: the present
/// moment. Which moment that is depends on the clock, and is not stated. `Utc::now` panics on a clock
/// that stands before 1970.
#[verifier::external_body]
pub(crate) fn present_moment() -> (moment: String)
    ensures
        is_utc_second(moment@),
{
    Utc::now().to_rfc3339_opts(SecondsFormat::Secs, true)
}

} // verus!
