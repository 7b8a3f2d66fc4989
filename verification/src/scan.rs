//! What the batches of a scan hold of each field, and the observation that follows from it.

use vstd::hash_set::StringHashSet;
use vstd::prelude::*;

use crate::contracts::{
    ColumnSchemaSignature, ColumnSchemaSignatureView, ColumnStatisticsObservation,
    ColumnStatisticsObservationView, StatisticPrecision, StatisticValue, StatisticsObservation,
    StatisticsObservationView,
};
use crate::plan::{column_signature, BatchStatisticsPlan, BatchStatisticsPlanView};
use crate::text::same_text;

use std::collections::HashSet;

verus! {

broadcast use vstd::std_specs::hash::group_hash_axioms;

/// The cells of a field, batch by batch, as far as distinct values are counted in them. A batch
/// that lacks the field, or in which it cannot be read as the kind of value, has `None`; a null
/// cell is `None`.
pub enum FieldCells {
    Strings(Seq<Option<Seq<Option<Seq<char>>>>>),
    Integers(Seq<Option<Seq<Option<i64>>>>),
    Booleans(Seq<Option<Seq<Option<bool>>>>),
    /// The field is of a type of which no distinct values are counted.
    NotCounted,
}

/// A field of a scan: the number of its nulls in each batch that has it, and its cells.
#[verifier::ext_equal]
pub struct FieldSample {
    pub name: Seq<char>,
    pub null_counts: Seq<Option<usize>>,
    pub cells: FieldCells,
}

/// A scan: the number of rows of each batch, and the fields of the first batch.
#[verifier::ext_equal]
pub struct ScanSample {
    pub rows: Seq<usize>,
    pub fields: Seq<FieldSample>,
}

/// A number as far as it can be represented.
pub open spec fn clamped(number: nat) -> u64 {
    if number <= u64::MAX {
        number as u64
    } else {
        u64::MAX
    }
}

/// The sum of the rows of batches.
pub open spec fn row_total(rows: Seq<usize>) -> nat
    decreases rows.len(),
{
    if rows.len() == 0 {
        0
    } else {
        row_total(rows.drop_last()) + rows.last() as nat
    }
}

/// The sum of the nulls of a field, over the batches that have it.
pub open spec fn null_total(null_counts: Seq<Option<usize>>) -> nat
    decreases null_counts.len(),
{
    if null_counts.len() == 0 {
        0
    } else {
        null_total(null_counts.drop_last()) + match null_counts.last() {
            Some(count) => count as nat,
            None => 0,
        }
    }
}

/// The values of cells, without the nulls.
pub open spec fn cell_values<T>(cells: Seq<Option<T>>) -> Set<T> {
    Set::new(|value: T| cells.contains(Some(value)))
}

/// The values in any of the batches, without the nulls.
pub open spec fn chunk_values<T>(chunks: Seq<Option<Seq<Option<T>>>>) -> Set<T> {
    Set::new(
        |value: T|
            exists|i: int|
                0 <= i < chunks.len() && #[trigger] chunks[i] is Some && chunks[i]->0.contains(
                    Some(value),
                ),
    )
}

/// Every batch could be read.
pub open spec fn all_read<T>(chunks: Seq<Option<Seq<Option<T>>>>) -> bool {
    forall|i: int| 0 <= i < chunks.len() ==> #[trigger] chunks[i] is Some
}

/// The number of distinct values, if every batch could be read.
pub open spec fn distinct_total<T>(chunks: Seq<Option<Seq<Option<T>>>>) -> Option<u64> {
    if all_read(chunks) {
        Some(clamped(chunk_values(chunks).len()))
    } else {
        None
    }
}

/// The number of distinct values of a field, where it is counted and every batch could be read.
pub open spec fn distinct_cells(cells: FieldCells) -> Option<u64> {
    match cells {
        FieldCells::Strings(chunks) => distinct_total(chunks),
        FieldCells::Integers(chunks) => distinct_total(chunks),
        FieldCells::Booleans(chunks) => distinct_total(chunks),
        FieldCells::NotCounted => None,
    }
}

/// The number of distinct values that a column is reported with. JSON has none.
pub open spec fn reported_distinct(
    signature: ColumnSchemaSignatureView,
    cells: FieldCells,
) -> Option<u64> {
    if signature.data_type == "Json"@ {
        None
    } else {
        distinct_cells(cells)
    }
}

/// What is reported of one column.
pub open spec fn reported_column(
    precision: StatisticPrecision,
    name: Seq<char>,
    sample_count: u64,
    null_count: u64,
    distinct_count: Option<u64>,
) -> ColumnStatisticsObservationView {
    ColumnStatisticsObservationView {
        column_name: name,
        sample_count,
        null_count: Some(StatisticValue { value: null_count, precision }),
        approx_distinct_count: match distinct_count {
            Some(value) => Some(StatisticValue { value, precision }),
            None => None,
        },
    }
}

/// What is reported of a field, if anything.
pub open spec fn field_report(
    plan: BatchStatisticsPlanView,
    sample_count: u64,
    field: FieldSample,
) -> Option<ColumnStatisticsObservationView> {
    if crate::plan::keeps_column(plan, field.name) {
        let signature = crate::plan::signature_named(
            plan.schema_signature.columns,
            field.name,
        ).unwrap();
        Some(
            reported_column(
                plan.precision,
                field.name,
                sample_count,
                clamped(null_total(field.null_counts)),
                reported_distinct(signature, field.cells),
            ),
        )
    } else {
        None
    }
}

/// What is reported of fields, in their order.
pub open spec fn field_reports(
    plan: BatchStatisticsPlanView,
    sample_count: u64,
    fields: Seq<FieldSample>,
) -> Seq<ColumnStatisticsObservationView>
    decreases fields.len(),
{
    if fields.len() == 0 {
        Seq::empty()
    } else {
        let before = field_reports(plan, sample_count, fields.drop_last());
        match field_report(plan, sample_count, fields.last()) {
            Some(column) => before.push(column),
            None => before,
        }
    }
}

/// The observation of a scan: none of a scan without batches, or without a column that the plan
/// keeps statistics of.
pub open spec fn scan_observation(
    plan: BatchStatisticsPlanView,
    scan: ScanSample,
    observed_at: Seq<char>,
) -> Option<StatisticsObservationView> {
    let columns = field_reports(plan, clamped(row_total(scan.rows)), scan.fields);
    if scan.rows.len() == 0 || columns.len() == 0 {
        None
    } else {
        Some(
            StatisticsObservationView {
                schema_name: plan.schema_name,
                table_name: plan.table_name,
                source_version: plan.source_version,
                schema_signature: plan.schema_signature,
                scope: plan.scope,
                observed_at,
                columns,
            },
        )
    }
}

/// One more cell adds its value, unless it is null.
proof fn lemma_next_cell<T>(cells: Seq<Option<T>>, place: int)
    requires
        0 <= place < cells.len(),
    ensures
        cell_values(cells.take(place + 1)) == match cells[place] {
            Some(value) => cell_values(cells.take(place)).insert(value),
            None => cell_values(cells.take(place)),
        },
{
    let before = cells.take(place);
    let after = cells.take(place + 1);
    assert(after =~= before.push(cells[place]));
    assert forall|value: T| after.contains(Some(value)) == (before.contains(Some(value))
        || cells[place] == Some(value)) by {
        if before.contains(Some(value)) {
            let i = before.index_of(Some(value));
            assert(after[i] == Some(value));
        }
        if cells[place] == Some(value) {
            assert(after[place] == Some(value));
        }
    }
    assert(cell_values(after) =~= match cells[place] {
        Some(value) => cell_values(before).insert(value),
        None => cell_values(before),
    });
}

/// One more batch adds its values.
pub proof fn next_batch_adds_its_values<T>(chunks: Seq<Option<Seq<Option<T>>>>, place: int)
    requires
        0 <= place < chunks.len(),
        chunks[place] is Some,
    ensures
        chunk_values(chunks.take(place + 1)) == chunk_values(chunks.take(place)).union(
            cell_values(chunks[place]->0),
        ),
{
    let before = chunks.take(place);
    let after = chunks.take(place + 1);
    assert forall|value: T| #[trigger]
        chunk_values(after).contains(value) == chunk_values(before).union(
            cell_values(chunks[place]->0),
        ).contains(value) by {
        if chunk_values(after).contains(value) {
            let i = choose|i: int|
                0 <= i < after.len() && #[trigger] after[i] is Some && after[i]->0.contains(
                    Some(value),
                );
            if i < place {
                assert(before[i] is Some);
            }
        }
        if chunk_values(before).contains(value) {
            let i = choose|i: int|
                0 <= i < before.len() && #[trigger] before[i] is Some && before[i]->0.contains(
                    Some(value),
                );
            assert(after[i] is Some);
        }
        if cell_values(chunks[place]->0).contains(value) {
            assert(after[place] is Some);
        }
    }
    assert(chunk_values(after) =~= chunk_values(before).union(cell_values(chunks[place]->0)));
}

/// The number of nulls among cells.
pub open spec fn null_cells<T>(cells: Seq<Option<T>>) -> nat
    decreases cells.len(),
{
    if cells.len() == 0 {
        0
    } else {
        null_cells(cells.drop_last()) + if cells.last() is None {
            1nat
        } else {
            0nat
        }
    }
}

/// The number of nulls among the cells of batches.
pub open spec fn null_chunks<T>(chunks: Seq<Option<Seq<Option<T>>>>) -> nat
    decreases chunks.len(),
{
    if chunks.len() == 0 {
        0
    } else {
        null_chunks(chunks.drop_last()) + match chunks.last() {
            Some(cells) => null_cells(cells),
            None => 0,
        }
    }
}

/// Every batch could be read, and has one cell for each row.
pub open spec fn fills<T>(chunks: Seq<Option<Seq<Option<T>>>>, rows: Seq<usize>) -> bool {
    &&& chunks.len() == rows.len()
    &&& forall|i: int|
        0 <= i < chunks.len() ==> #[trigger] chunks[i] is Some && chunks[i]->0.len() == rows[i]
}

/// The cells of a field fill the rows of the batches, and among them are at least as many nulls as are
/// counted.
pub open spec fn cells_fill<T>(
    chunks: Seq<Option<Seq<Option<T>>>>,
    null_counts: Seq<Option<usize>>,
    rows: Seq<usize>,
) -> bool {
    &&& fills(chunks, rows)
    &&& null_counts.len() == rows.len()
    &&& forall|i: int|
        0 <= i < rows.len() ==> (#[trigger] null_counts[i]) is Some && null_counts[i]->0
            <= null_cells(chunks[i]->0)
}

/// Cells hold no more distinct values than there are cells that are not null.
pub proof fn cells_bound_values<T>(cells: Seq<Option<T>>)
    ensures
        cell_values(cells).finite(),
        cell_values(cells).len() + null_cells(cells) <= cells.len(),
    decreases cells.len(),
{
    if cells.len() == 0 {
        assert(cell_values(cells) =~= Set::<T>::empty());
    } else {
        let last = cells.len() - 1;
        cells_bound_values(cells.drop_last());
        lemma_next_cell(cells, last);
        assert(cells.take(last + 1) =~= cells);
        assert(cells.take(last) =~= cells.drop_last());
    }
}

/// Batches hold no more distinct values than they have rows that are not null.
pub proof fn rows_bound_values<T>(chunks: Seq<Option<Seq<Option<T>>>>, rows: Seq<usize>)
    requires
        fills(chunks, rows),
    ensures
        chunk_values(chunks).finite(),
        chunk_values(chunks).len() + null_chunks(chunks) <= row_total(rows),
    decreases chunks.len(),
{
    if chunks.len() == 0 {
        assert(chunk_values(chunks) =~= Set::<T>::empty());
    } else {
        let last = chunks.len() - 1;
        let before = chunk_values(chunks.drop_last());
        let cells = chunks[last]->0;
        assert forall|i: int| 0 <= i < last implies #[trigger] chunks.drop_last()[i] is Some
            && chunks.drop_last()[i]->0.len() == rows.drop_last()[i] by {
            assert(chunks[i] is Some);
        }
        rows_bound_values(chunks.drop_last(), rows.drop_last());
        cells_bound_values(cells);
        next_batch_adds_its_values(chunks, last);
        assert(chunks.take(last + 1) =~= chunks);
        assert(chunks.take(last) =~= chunks.drop_last());
        vstd::set_lib::lemma_len_union(before, cell_values(cells));
    }
}

/// Adds the strings in cells to those that were seen before.
fn add_strings(values: &mut StringHashSet, cells: &Vec<Option<String>>)
    ensures
        final(values)@ == old(values)@.union(cell_values(cells.deep_view())),
{
    let ghost all = cells.deep_view();
    let ghost before = values@;
    assert(values@ =~= before.union(cell_values(all.take(0))));
    for i in 0..cells.len()
        invariant
            all == cells.deep_view(),
            values@ == before.union(cell_values(all.take(i as int))),
    {
        proof {
            lemma_next_cell(all, i as int);
        }
        if let Some(value) = &cells[i] {
            values.insert(value.clone());
        }
        assert(values@ =~= before.union(cell_values(all.take(i + 1))));
    }
    assert(all.take(all.len() as int) =~= all);
}

/// Counts the distinct strings in the cells of batches.
pub fn distinct_strings(chunks: &Vec<Option<Vec<Option<String>>>>) -> (result: Option<u64>)
    ensures
        result == distinct_total(chunks.deep_view()),
{
    let ghost all = chunks.deep_view();
    let mut values: StringHashSet = StringHashSet::new();
    assert(values@ =~= chunk_values(all.take(0)));
    for i in 0..chunks.len()
        invariant
            all == chunks.deep_view(),
            forall|k: int| 0 <= k < i ==> #[trigger] all[k] is Some,
            values@ == chunk_values(all.take(i as int)),
    {
        assert(all[i as int] == chunks@[i as int].deep_view());
        match &chunks[i] {
            None => {
                return None;
            },
            Some(cells) => {
                add_strings(&mut values, cells);
                proof {
                    next_batch_adds_its_values(all, i as int);
                }
            },
        }
    }
    assert(all.take(all.len() as int) =~= all);
    Some(values.len() as u64)
}

/// Adds the integers in cells to those that were seen before.
fn add_integers(values: &mut HashSet<i64>, cells: &Vec<Option<i64>>)
    ensures
        final(values)@ == old(values)@.union(cell_values(cells.deep_view())),
{
    let ghost all = cells.deep_view();
    let ghost before = values@;
    assert(values@ =~= before.union(cell_values(all.take(0))));
    for i in 0..cells.len()
        invariant
            all == cells.deep_view(),
            values@ == before.union(cell_values(all.take(i as int))),
    {
        proof {
            lemma_next_cell(all, i as int);
        }
        if let Some(value) = cells[i] {
            values.insert(value);
        }
        assert(values@ =~= before.union(cell_values(all.take(i + 1))));
    }
    assert(all.take(all.len() as int) =~= all);
}

/// Counts the distinct integers in the cells of batches.
pub fn distinct_integers(chunks: &Vec<Option<Vec<Option<i64>>>>) -> (result: Option<u64>)
    ensures
        result == distinct_total(chunks.deep_view()),
{
    let ghost all = chunks.deep_view();
    let mut values: HashSet<i64> = HashSet::new();
    assert(values@ =~= chunk_values(all.take(0)));
    for i in 0..chunks.len()
        invariant
            all == chunks.deep_view(),
            forall|k: int| 0 <= k < i ==> #[trigger] all[k] is Some,
            values@ == chunk_values(all.take(i as int)),
    {
        assert(all[i as int] == chunks@[i as int].deep_view());
        match &chunks[i] {
            None => {
                return None;
            },
            Some(cells) => {
                add_integers(&mut values, cells);
                proof {
                    next_batch_adds_its_values(all, i as int);
                }
            },
        }
    }
    assert(all.take(all.len() as int) =~= all);
    Some(values.len() as u64)
}

/// Adds the booleans in cells to those that were seen before.
fn add_booleans(values: &mut HashSet<bool>, cells: &Vec<Option<bool>>)
    ensures
        final(values)@ == old(values)@.union(cell_values(cells.deep_view())),
{
    let ghost all = cells.deep_view();
    let ghost before = values@;
    assert(values@ =~= before.union(cell_values(all.take(0))));
    for i in 0..cells.len()
        invariant
            all == cells.deep_view(),
            values@ == before.union(cell_values(all.take(i as int))),
    {
        proof {
            lemma_next_cell(all, i as int);
        }
        if let Some(value) = cells[i] {
            values.insert(value);
        }
        assert(values@ =~= before.union(cell_values(all.take(i + 1))));
    }
    assert(all.take(all.len() as int) =~= all);
}

/// Counts the distinct booleans in the cells of batches.
pub fn distinct_booleans(chunks: &Vec<Option<Vec<Option<bool>>>>) -> (result: Option<u64>)
    ensures
        result == distinct_total(chunks.deep_view()),
{
    let ghost all = chunks.deep_view();
    let mut values: HashSet<bool> = HashSet::new();
    assert(values@ =~= chunk_values(all.take(0)));
    for i in 0..chunks.len()
        invariant
            all == chunks.deep_view(),
            forall|k: int| 0 <= k < i ==> #[trigger] all[k] is Some,
            values@ == chunk_values(all.take(i as int)),
    {
        assert(all[i as int] == chunks@[i as int].deep_view());
        match &chunks[i] {
            None => {
                return None;
            },
            Some(cells) => {
                add_booleans(&mut values, cells);
                proof {
                    next_batch_adds_its_values(all, i as int);
                }
            },
        }
    }
    assert(all.take(all.len() as int) =~= all);
    Some(values.len() as u64)
}

/// Adds up the rows of batches.
pub fn count_rows(rows: &Vec<usize>) -> (result: u64)
    ensures
        result == clamped(row_total(rows@)),
{
    let mut total: u64 = 0;
    for i in 0..rows.len()
        invariant
            total == clamped(row_total(rows@.take(i as int))),
    {
        assert(rows@.take(i + 1).drop_last() =~= rows@.take(i as int));
        total = total.saturating_add(rows[i] as u64);
    }
    assert(rows@.take(rows@.len() as int) =~= rows@);
    total
}

/// Adds up the nulls of a field, over the batches that have it.
pub fn count_nulls(null_counts: &Vec<Option<usize>>) -> (result: u64)
    ensures
        result == clamped(null_total(null_counts@)),
{
    let mut total: u64 = 0;
    for i in 0..null_counts.len()
        invariant
            total == clamped(null_total(null_counts@.take(i as int))),
    {
        assert(null_counts@.take(i + 1).drop_last() =~= null_counts@.take(i as int));
        if let Some(count) = null_counts[i] {
            total = total.saturating_add(count as u64);
        }
    }
    assert(null_counts@.take(null_counts@.len() as int) =~= null_counts@);
    total
}

/// Whether distinct values are reported of a column. They are not of JSON.
pub fn reports_distinct(signature: &ColumnSchemaSignature) -> (result: bool)
    ensures
        result == (signature@.data_type != "Json"@),
{
    !same_text(signature.data_type.as_str(), "Json")
}

/// Reports a column.
pub fn report_column(
    precision: StatisticPrecision,
    name: String,
    sample_count: u64,
    null_count: u64,
    distinct_count: Option<u64>,
) -> (column: ColumnStatisticsObservation)
    ensures
        column@ == reported_column(precision, name@, sample_count, null_count, distinct_count),
{
    ColumnStatisticsObservation {
        column_name: name,
        sample_count,
        null_count: Some(StatisticValue { value: null_count, precision }),
        approx_distinct_count: match distinct_count {
            Some(value) => Some(StatisticValue { value, precision }),
            None => None,
        },
    }
}

/// What the plan says of a column that statistics are kept of.
pub fn kept_signature<'a>(plan: &'a BatchStatisticsPlan, name: &str) -> (result: Option<
    &'a ColumnSchemaSignature,
>)
    ensures
        match result {
            Some(signature) => {
                &&& crate::plan::keeps_column(plan@, name@)
                &&& crate::plan::signature_named(plan@.schema_signature.columns, name@) == Some(
                    signature@,
                )
                &&& signature@.name == name@
            },
            None => !crate::plan::keeps_column(plan@, name@),
        },
{
    match column_signature(plan, name) {
        Some(signature) => if signature.is_virtual || signature.is_required_filter {
            None
        } else {
            Some(signature)
        },
        None => None,
    }
}

/// The observation that columns make up, if there are any.
pub fn observation_of(
    plan: &BatchStatisticsPlan,
    columns: Vec<ColumnStatisticsObservation>,
    observed_at: String,
) -> (result: Option<StatisticsObservation>)
    ensures
        match result {
            Some(observation) => {
                &&& columns@.len() > 0
                &&& observation@ == (StatisticsObservationView {
                    schema_name: plan@.schema_name,
                    table_name: plan@.table_name,
                    source_version: plan@.source_version,
                    schema_signature: plan@.schema_signature,
                    scope: plan@.scope,
                    observed_at: observed_at@,
                    columns: crate::contracts::column_observations(columns@),
                })
            },
            None => columns@.len() == 0,
        },
{
    if columns.len() == 0 {
        return None;
    }
    Some(
        StatisticsObservation {
            schema_name: plan.schema_name.clone(),
            table_name: plan.table_name.clone(),
            source_version: plan.source_version.clone(),
            schema_signature: plan.schema_signature.clone(),
            scope: plan.scope.clone(),
            observed_at,
            columns,
        },
    )
}

} // verus!
