//! Collecting statistics from the record batches of a scan.

use vstd::prelude::*;

use crate::batch::{
    column_booleans, column_integers, column_null_count, column_strings, column_timestamps,
    field_name, field_type, num_fields, num_rows, present_moment, read_column_text, BatchColumn,
    ColumnType, DictionaryValues, ScanBatch, TimestampUnit,
};
use crate::contracts::{
    ColumnSchemaSignature, ColumnStatisticsObservation, ColumnStatisticsObservationView,
    StatisticsObservation,
};
use crate::plan::BatchStatisticsPlan;
use crate::scan::{
    count_nulls, count_rows, distinct_booleans, distinct_integers, distinct_strings, kept_signature,
    observation_of, report_column, reports_distinct, FieldCells, FieldSample, ScanSample,
};

verus! {

/// The array that 64-bit integers are read from.
#[derive(Debug, Clone, Copy, PartialEq, Eq, Structural)]
pub enum Int64Storage {
    Int64,
    TimestampMicrosecond,
}

/// The number of rows of each batch.
pub open spec fn scan_rows(batches: Seq<ScanBatch>) -> Seq<usize> {
    Seq::new(batches.len(), |i: int| crate::batch::batch_rows(batches[i]))
}

/// The nulls of the column with a name in each batch.
pub open spec fn scan_nulls(batches: Seq<ScanBatch>, name: Seq<char>) -> Seq<Option<usize>> {
    Seq::new(batches.len(), |i: int| crate::batch::null_count_named(batches[i], name))
}

/// The cells of the column with a name in each batch, as strings.
pub open spec fn scan_strings(batches: Seq<ScanBatch>, name: Seq<char>) -> Seq<
    Option<Seq<Option<Seq<char>>>>,
> {
    Seq::new(batches.len(), |i: int| crate::batch::strings_named(batches[i], name))
}

/// The cells of the column with a name in each batch, cast to strings.
pub open spec fn scan_text(batches: Seq<ScanBatch>, name: Seq<char>) -> Seq<
    Option<Seq<Option<Seq<char>>>>,
> {
    Seq::new(batches.len(), |i: int| crate::batch::cast_named(batches[i], name))
}

/// The cells of the column with a name in each batch, as integers.
pub open spec fn scan_integers(
    batches: Seq<ScanBatch>,
    name: Seq<char>,
    storage: Int64Storage,
) -> Seq<Option<Seq<Option<i64>>>> {
    Seq::new(
        batches.len(),
        |i: int|
            match storage {
                Int64Storage::Int64 => crate::batch::integers_named(batches[i], name),
                Int64Storage::TimestampMicrosecond => crate::batch::timestamps_named(
                    batches[i],
                    name,
                ),
            },
    )
}

/// The cells of the column with a name in each batch, as booleans.
pub open spec fn scan_booleans(batches: Seq<ScanBatch>, name: Seq<char>) -> Seq<
    Option<Seq<Option<bool>>>,
> {
    Seq::new(batches.len(), |i: int| crate::batch::booleans_named(batches[i], name))
}

/// The cells of a field, read as its type asks.
pub open spec fn scan_cells(
    batches: Seq<ScanBatch>,
    name: Seq<char>,
    data_type: ColumnType,
) -> FieldCells {
    match data_type {
        ColumnType::Utf8 => FieldCells::Strings(scan_strings(batches, name)),
        ColumnType::Dictionary(DictionaryValues::Utf8) => FieldCells::Strings(
            scan_text(batches, name),
        ),
        ColumnType::Int64 => FieldCells::Integers(
            scan_integers(batches, name, Int64Storage::Int64),
        ),
        ColumnType::Boolean => FieldCells::Booleans(scan_booleans(batches, name)),
        ColumnType::Timestamp(TimestampUnit::Microsecond) => FieldCells::Integers(
            scan_integers(batches, name, Int64Storage::TimestampMicrosecond),
        ),
        _ => FieldCells::NotCounted,
    }
}

/// A field of a scan, read from its batches.
pub open spec fn scan_field(batches: Seq<ScanBatch>, column: BatchColumn) -> FieldSample {
    FieldSample {
        name: column.name,
        null_counts: scan_nulls(batches, column.name),
        cells: scan_cells(batches, column.name, column.data_type),
    }
}

/// A scan, read from its batches: the fields are those of the first batch.
pub open spec fn scan_of(batches: Seq<ScanBatch>) -> ScanSample {
    ScanSample {
        rows: scan_rows(batches),
        fields: if batches.len() == 0 {
            Seq::empty()
        } else {
            Seq::new(
                crate::batch::batch_columns(batches[0]).len(),
                |i: int| scan_field(batches, crate::batch::batch_columns(batches[0])[i]),
            )
        },
    }
}

/// The number of rows of a scan, as far as it can be represented.
pub open spec fn scan_size(batches: Seq<ScanBatch>) -> u64 {
    crate::scan::clamped(crate::scan::row_total(scan_rows(batches)))
}

/// Some batch holds lists of one element, with nulls among them, in the column with a name.
pub open spec fn some_nulls_lost(batches: Seq<ScanBatch>, name: Seq<char>) -> bool {
    exists|i: int| 0 <= i < batches.len() && crate::batch::loses_nulls(#[trigger] batches[i], name)
}

/// Cells of the column with a name in a batch: one for each row, and, unless nulls were lost with
/// lists, at least as many nulls as are counted.
pub open spec fn counts_nulls_in<T>(
    batch: ScanBatch,
    name: Seq<char>,
    cells: Seq<Option<T>>,
) -> bool {
    &&& cells.len() == crate::batch::batch_rows(batch)
    &&& !crate::batch::loses_nulls(batch, name) ==> crate::batch::nulls_are_cells(
        batch,
        name,
        cells,
    )
}

/// Cells of the column with a name in each batch that could be read.
pub open spec fn counts_nulls<T>(
    batches: Seq<ScanBatch>,
    name: Seq<char>,
    chunks: Seq<Option<Seq<Option<T>>>>,
) -> bool {
    &&& chunks.len() == batches.len()
    &&& forall|k: int|
        0 <= k < chunks.len() && #[trigger] chunks[k] is Some ==> counts_nulls_in(
            batches[k],
            name,
            chunks[k]->0,
        )
}

/// A number of distinct values of the column with a name is no more than the rows of the scan. Neither
/// is it together with the nulls of the column, if none were lost with lists, and the rows can be
/// counted.
pub open spec fn within_rows(batches: Seq<ScanBatch>, name: Seq<char>, distinct_count: u64) -> bool {
    &&& distinct_count <= scan_size(batches)
    &&& !some_nulls_lost(batches, name) && crate::scan::row_total(scan_rows(batches)) <= u64::MAX
        ==> distinct_count + crate::scan::null_total(scan_nulls(batches, name))
        <= crate::scan::row_total(scan_rows(batches))
}

/// The distinct values in the cells of a column are within the rows of the scan.
proof fn lemma_within_rows<T>(
    batches: Seq<ScanBatch>,
    name: Seq<char>,
    chunks: Seq<Option<Seq<Option<T>>>>,
)
    requires
        counts_nulls(batches, name, chunks),
    ensures
        crate::scan::distinct_total(chunks) is Some ==> within_rows(
            batches,
            name,
            crate::scan::distinct_total(chunks)->0,
        ),
{
    if crate::scan::all_read(chunks) {
        let rows = scan_rows(batches);
        let nulls = scan_nulls(batches, name);
        assert(crate::scan::fills(chunks, rows));
        crate::scan::rows_bound_values(chunks, rows);
        if !some_nulls_lost(batches, name) && crate::scan::row_total(rows) <= u64::MAX {
            assert forall|i: int| 0 <= i < rows.len() implies (#[trigger] nulls[i]) is Some
                && nulls[i]->0 <= crate::scan::null_cells(chunks[i]->0) by {
                assert(chunks[i] is Some);
                assert(!crate::batch::loses_nulls(batches[i], name));
            }
            crate::scan_laws::nulls_and_distinct_values_fit_the_rows(chunks, nulls, rows);
            crate::scan_laws::nulls_are_among_the_cells(chunks, nulls, rows);
        }
    }
}

/// Reads the cells of the column with a name in each batch, as strings.
fn read_strings(batches: &[ScanBatch], column_name: &str) -> (chunks: Vec<
    Option<Vec<Option<String>>>,
>)
    ensures
        chunks.deep_view() == scan_strings(batches@, column_name@),
        counts_nulls(batches@, column_name@, chunks.deep_view()),
{
    let ghost all = scan_strings(batches@, column_name@);
    let mut chunks: Vec<Option<Vec<Option<String>>>> = Vec::new();
    for i in 0..batches.len()
        invariant
            all == scan_strings(batches@, column_name@),
            chunks.deep_view() == all.take(i as int),
            forall|k: int|
                0 <= k < i && #[trigger] all[k] is Some ==> counts_nulls_in(
                    batches@[k],
                    column_name@,
                    all[k]->0,
                ),
    {
        let ghost before = chunks.deep_view();
        let cells = column_strings(&batches[i], column_name);
        chunks.push(cells);
        assert(chunks.deep_view() =~= before.push(cells.deep_view()));
        assert(all.take(i + 1) =~= all.take(i as int).push(all[i as int]));
    }
    assert(all.take(all.len() as int) =~= all);
    chunks
}

/// Reads the cells of the column with a name in each batch, cast to strings.
fn read_text(batches: &[ScanBatch], column_name: &str) -> (chunks: Vec<
    Option<Vec<Option<String>>>,
>)
    ensures
        chunks.deep_view() == scan_text(batches@, column_name@),
        counts_nulls(batches@, column_name@, chunks.deep_view()),
{
    let ghost all = scan_text(batches@, column_name@);
    let mut chunks: Vec<Option<Vec<Option<String>>>> = Vec::new();
    for i in 0..batches.len()
        invariant
            all == scan_text(batches@, column_name@),
            chunks.deep_view() == all.take(i as int),
            forall|k: int|
                0 <= k < i && #[trigger] all[k] is Some ==> counts_nulls_in(
                    batches@[k],
                    column_name@,
                    all[k]->0,
                ),
    {
        let ghost before = chunks.deep_view();
        let cells = read_column_text(&batches[i], column_name);
        chunks.push(cells);
        assert(chunks.deep_view() =~= before.push(cells.deep_view()));
        assert(all.take(i + 1) =~= all.take(i as int).push(all[i as int]));
    }
    assert(all.take(all.len() as int) =~= all);
    chunks
}

/// Reads the cells of the column with a name in each batch, as integers.
fn read_integers(batches: &[ScanBatch], column_name: &str, storage: Int64Storage) -> (chunks: Vec<
    Option<Vec<Option<i64>>>,
>)
    ensures
        chunks.deep_view() == scan_integers(batches@, column_name@, storage),
        counts_nulls(batches@, column_name@, chunks.deep_view()),
{
    let ghost all = scan_integers(batches@, column_name@, storage);
    let mut chunks: Vec<Option<Vec<Option<i64>>>> = Vec::new();
    for i in 0..batches.len()
        invariant
            all == scan_integers(batches@, column_name@, storage),
            chunks.deep_view() == all.take(i as int),
            forall|k: int|
                0 <= k < i && #[trigger] all[k] is Some ==> counts_nulls_in(
                    batches@[k],
                    column_name@,
                    all[k]->0,
                ),
    {
        let ghost before = chunks.deep_view();
        let cells = match storage {
            Int64Storage::Int64 => column_integers(&batches[i], column_name),
            Int64Storage::TimestampMicrosecond => column_timestamps(&batches[i], column_name),
        };
        chunks.push(cells);
        assert(chunks.deep_view() =~= before.push(cells.deep_view()));
        assert(all.take(i + 1) =~= all.take(i as int).push(all[i as int]));
    }
    assert(all.take(all.len() as int) =~= all);
    chunks
}

/// Reads the cells of the column with a name in each batch, as booleans.
fn read_booleans(batches: &[ScanBatch], column_name: &str) -> (chunks: Vec<
    Option<Vec<Option<bool>>>,
>)
    ensures
        chunks.deep_view() == scan_booleans(batches@, column_name@),
        counts_nulls(batches@, column_name@, chunks.deep_view()),
{
    let ghost all = scan_booleans(batches@, column_name@);
    let mut chunks: Vec<Option<Vec<Option<bool>>>> = Vec::new();
    for i in 0..batches.len()
        invariant
            all == scan_booleans(batches@, column_name@),
            chunks.deep_view() == all.take(i as int),
            forall|k: int|
                0 <= k < i && #[trigger] all[k] is Some ==> counts_nulls_in(
                    batches@[k],
                    column_name@,
                    all[k]->0,
                ),
    {
        let ghost before = chunks.deep_view();
        let cells = column_booleans(&batches[i], column_name);
        chunks.push(cells);
        assert(chunks.deep_view() =~= before.push(cells.deep_view()));
        assert(all.take(i + 1) =~= all.take(i as int).push(all[i as int]));
    }
    assert(all.take(all.len() as int) =~= all);
    chunks
}

/// Counts the distinct strings of the column with a name. There is no count where a batch lacks the
/// column or does not hold strings in it.
pub fn distinct_utf8(batches: &[ScanBatch], column_name: &str) -> (result: Option<u64>)
    ensures
        result == crate::scan::distinct_total(scan_strings(batches@, column_name@)),
        result is Some ==> within_rows(batches@, column_name@, result->0),
{
    let chunks = read_strings(batches, column_name);
    proof {
        lemma_within_rows(batches@, column_name@, chunks.deep_view());
    }
    distinct_strings(&chunks)
}

/// Counts the distinct strings of the column with a name after a cast. There is no count where a
/// batch lacks the column, where there is no route for it, or where the cast fails.
pub fn distinct_cast_utf8(batches: &[ScanBatch], column_name: &str) -> (result: Option<u64>)
    ensures
        result == crate::scan::distinct_total(scan_text(batches@, column_name@)),
        result is Some ==> within_rows(batches@, column_name@, result->0),
{
    let chunks = read_text(batches, column_name);
    proof {
        lemma_within_rows(batches@, column_name@, chunks.deep_view());
    }
    distinct_strings(&chunks)
}

/// Counts the distinct integers of the column with a name. There is no count where a batch lacks
/// the column or holds another array in it.
pub fn distinct_int64(batches: &[ScanBatch], column_name: &str, storage: Int64Storage) -> (result: Option<u64>)
    ensures
        result == crate::scan::distinct_total(scan_integers(batches@, column_name@, storage)),
        result is Some ==> within_rows(batches@, column_name@, result->0),
{
    let chunks = read_integers(batches, column_name, storage);
    proof {
        lemma_within_rows(batches@, column_name@, chunks.deep_view());
    }
    distinct_integers(&chunks)
}

/// Counts the distinct booleans of the column with a name. There is no count where a batch lacks the
/// column or does not hold booleans in it.
pub fn distinct_bool(batches: &[ScanBatch], column_name: &str) -> (result: Option<u64>)
    ensures
        result == crate::scan::distinct_total(scan_booleans(batches@, column_name@)),
        result is Some ==> within_rows(batches@, column_name@, result->0),
{
    let chunks = read_booleans(batches, column_name);
    proof {
        lemma_within_rows(batches@, column_name@, chunks.deep_view());
    }
    distinct_booleans(&chunks)
}

/// Counts the distinct values of the column with a name, as the type of its field asks.
pub fn distinct_count(data_type: ColumnType, batches: &[ScanBatch], column_name: &str) -> (result:
    Option<u64>)
    ensures
        result == crate::scan::distinct_cells(scan_cells(batches@, column_name@, data_type)),
        result is Some ==> within_rows(batches@, column_name@, result->0),
{
    match data_type {
        ColumnType::Utf8 => distinct_utf8(batches, column_name),
        ColumnType::Dictionary(DictionaryValues::Utf8) => distinct_cast_utf8(batches, column_name),
        ColumnType::Int64 => distinct_int64(batches, column_name, Int64Storage::Int64),
        ColumnType::Boolean => distinct_bool(batches, column_name),
        ColumnType::Timestamp(TimestampUnit::Microsecond) => {
            distinct_int64(batches, column_name, Int64Storage::TimestampMicrosecond)
        },
        _ => None,
    }
}

/// Counts the distinct values that a column is reported with. JSON has none.
pub fn distinct_count_for_signature(
    signature: &ColumnSchemaSignature,
    data_type: ColumnType,
    batches: &[ScanBatch],
) -> (result: Option<u64>)
    ensures
        result == crate::scan::reported_distinct(
            signature@,
            scan_cells(batches@, signature@.name, data_type),
        ),
        result is Some ==> within_rows(batches@, signature@.name, result->0),
{
    if !reports_distinct(signature) {
        return None;
    }
    distinct_count(data_type, batches, signature.name.as_str())
}

/// Reads the rows of each batch.
fn read_rows(batches: &[ScanBatch]) -> (rows: Vec<usize>)
    ensures
        rows@ == scan_rows(batches@),
{
    let mut rows: Vec<usize> = Vec::new();
    for i in 0..batches.len()
        invariant
            rows@ == scan_rows(batches@).take(i as int),
    {
        rows.push(num_rows(&batches[i]));
        assert(rows@ =~= scan_rows(batches@).take(i + 1));
    }
    assert(rows@ =~= scan_rows(batches@));
    rows
}

/// Reads the nulls of the column with a name in each batch.
fn read_nulls(batches: &[ScanBatch], column_name: &str) -> (null_counts: Vec<Option<usize>>)
    ensures
        null_counts@ == scan_nulls(batches@, column_name@),
        crate::scan::null_total(null_counts@) <= crate::scan::row_total(scan_rows(batches@)),
{
    let mut null_counts: Vec<Option<usize>> = Vec::new();
    for i in 0..batches.len()
        invariant
            null_counts@ == scan_nulls(batches@, column_name@).take(i as int),
            crate::scan::null_total(null_counts@) <= crate::scan::row_total(
                scan_rows(batches@).take(i as int),
            ),
    {
        let ghost before = null_counts@;
        let count = column_null_count(&batches[i], column_name);
        null_counts.push(count);
        assert(null_counts@ =~= scan_nulls(batches@, column_name@).take(i + 1));
        assert(null_counts@.drop_last() =~= before);
        assert(scan_rows(batches@).take(i + 1).drop_last() =~= scan_rows(batches@).take(i as int));
    }
    assert(null_counts@ =~= scan_nulls(batches@, column_name@));
    assert(scan_rows(batches@).take(batches@.len() as int) =~= scan_rows(batches@));
    null_counts
}

/// A column is reported with no more nulls and no more distinct values than rows. Together they are no
/// more either, if no nulls were lost with lists of one element, and the rows can be counted.
pub open spec fn within_sample(
    batches: Seq<ScanBatch>,
    column: ColumnStatisticsObservationView,
) -> bool {
    &&& column.null_count is Some
    &&& column.null_count->0.value <= column.sample_count
    &&& column.approx_distinct_count is Some ==> {
        &&& column.approx_distinct_count->0.value <= column.sample_count
        &&& !some_nulls_lost(batches, column.column_name) && crate::scan::row_total(scan_rows(batches))
            <= u64::MAX ==> column.approx_distinct_count->0.value + column.null_count->0.value
            <= column.sample_count
    }
}

/// The observation of a scan: what its batches hold of the columns that the plan keeps statistics
/// of. Only the moment of the observation does not follow from the arguments.
pub fn collect_batch_statistics(plan: &BatchStatisticsPlan, batches: &[ScanBatch]) -> (result:
    Option<StatisticsObservation>)
    ensures
        match result {
            Some(observation) => {
                &&& crate::scan::scan_observation(
                    plan@,
                    scan_of(batches@),
                    observation@.observed_at,
                ) == Some(observation@)
                &&& crate::batch::is_utc_second(observation@.observed_at)
                &&& forall|i: int|
                    0 <= i < observation@.columns.len() ==> within_sample(
                        batches@,
                        #[trigger] observation@.columns[i],
                    )
            },
            None => forall|observed_at: Seq<char>| #[trigger]
                crate::scan::scan_observation(plan@, scan_of(batches@), observed_at) is None,
        },
{
    if batches.len() == 0 {
        return None;
    }
    let sample_count = count_rows(&read_rows(batches));
    let mut columns: Vec<ColumnStatisticsObservation> = Vec::new();
    let ghost fields = scan_of(batches@).fields;
    assert(crate::contracts::column_observations(columns@) =~= crate::scan::field_reports(
        plan@,
        sample_count,
        fields.take(0),
    ));
    let field_count: usize = num_fields(&batches[0]);
    for i in 0..field_count
        invariant
            batches@.len() > 0,
            field_count == crate::batch::batch_columns(batches@[0]).len(),
            sample_count == scan_size(batches@),
            fields == scan_of(batches@).fields,
            crate::contracts::column_observations(columns@) == crate::scan::field_reports(
                plan@,
                sample_count,
                fields.take(i as int),
            ),
            forall|k: int| 0 <= k < columns@.len() ==> within_sample(
                batches@,
                #[trigger] columns@[k]@,
            ),
    {
        let name = field_name(&batches[0], i);
        let data_type = field_type(&batches[0], i);
        assert(fields.take(i + 1).drop_last() =~= fields.take(i as int));
        let ghost field = fields.take(i + 1).last();
        assert(field == scan_field(batches@, crate::batch::batch_columns(batches@[0])[i as int]));
        let ghost before = crate::contracts::column_observations(columns@);
        if let Some(signature) = kept_signature(plan, name.as_str()) {
            let null_count = count_nulls(&read_nulls(batches, name.as_str()));
            let distinct_count = distinct_count_for_signature(signature, data_type, batches);
            let column = report_column(
                plan.precision,
                name,
                sample_count,
                null_count,
                distinct_count,
            );
            columns.push(column);
            assert(crate::contracts::column_observations(columns@) =~= before.push(column@));
        }
    }
    assert(fields.take(fields.len() as int) =~= fields);
    if columns.len() == 0 {
        return None;
    }
    observation_of(plan, columns, present_moment())
}

} // verus!
