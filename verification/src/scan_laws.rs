//! What holds of the observation of a scan, whatever is scanned.

use vstd::prelude::*;

use crate::batch::{ColumnType, DictionaryValues, ScanBatch, TimestampUnit};
use crate::collect::Int64Storage;
use crate::contracts::{
    ColumnSchemaSignatureView, StatisticsObservationScopeView, StatisticsProfileView,
};
use crate::plan::BatchStatisticsPlanView;
use crate::scan::{FieldCells, FieldSample, ScanSample};

verus! {

/// The fields that a plan keeps statistics of are reported, each as it is, in their order; the
/// others are not.
pub proof fn kept_fields_are_reported(
    plan: BatchStatisticsPlanView,
    sample_count: u64,
    fields: Seq<FieldSample>,
)
    ensures
        crate::scan::field_reports(plan, sample_count, fields) == fields.filter(
            |field: FieldSample| crate::plan::keeps_column(plan, field.name),
        ).map_values(
            |field: FieldSample| crate::scan::field_report(plan, sample_count, field).unwrap(),
        ),
    decreases fields.len(),
{
    reveal(Seq::filter);
    let keeps = |field: FieldSample| crate::plan::keeps_column(plan, field.name);
    let report = |field: FieldSample|
        crate::scan::field_report(plan, sample_count, field).unwrap();
    if fields.len() > 0 {
        kept_fields_are_reported(plan, sample_count, fields.drop_last());
        let before = fields.drop_last().filter(keeps);
        if keeps(fields.last()) {
            assert(fields.filter(keeps) =~= before.push(fields.last()));
            assert(before.push(fields.last()).map_values(report) =~= before.map_values(report).push(
                report(fields.last()),
            ));
        } else {
            assert(fields.filter(keeps) =~= before);
        }
    }
    assert(crate::scan::field_reports(plan, sample_count, fields) =~= fields.filter(
        keeps,
    ).map_values(report));
}

/// Each reported column is one that the plan keeps statistics of: neither virtual nor a required
/// filter. It has the number of rows and the precision of the scan, and a number of nulls.
pub proof fn only_kept_columns_are_reported(
    plan: BatchStatisticsPlanView,
    sample_count: u64,
    fields: Seq<FieldSample>,
    place: int,
)
    requires
        0 <= place < crate::scan::field_reports(plan, sample_count, fields).len(),
    ensures
        ({
            let column = crate::scan::field_reports(plan, sample_count, fields)[place];
            &&& crate::plan::keeps_column(plan, column.column_name)
            &&& column.sample_count == sample_count
            &&& column.null_count is Some
            &&& column.null_count->0.precision == plan.precision
            &&& column.approx_distinct_count is Some ==> column.approx_distinct_count->0.precision
                == plan.precision
        }),
    decreases fields.len(),
{
    if fields.len() > 0 {
        let before = crate::scan::field_reports(plan, sample_count, fields.drop_last());
        if place < before.len() {
            only_kept_columns_are_reported(plan, sample_count, fields.drop_last(), place);
        }
    }
}

/// Columns of JSON are reported without distinct values.
pub proof fn json_has_no_distinct_values(
    signature: ColumnSchemaSignatureView,
    cells: FieldCells,
)
    requires
        signature.data_type == "Json"@,
    ensures
        crate::scan::reported_distinct(signature, cells) is None,
{
}

/// The strings of the column with a name in each batch, be they an array or a dictionary.
pub open spec fn scan_words(batches: Seq<ScanBatch>, name: Seq<char>) -> Seq<
    Option<Seq<Option<Seq<char>>>>,
> {
    Seq::new(batches.len(), |i: int| crate::batch::text_named(batches[i], name))
}

/// Dictionaries of strings are counted by the strings that their keys stand for: as a scan is that
/// holds the same strings without dictionaries.
pub proof fn dictionaries_are_counted_by_their_strings(
    batches: Seq<ScanBatch>,
    plain: Seq<ScanBatch>,
    name: Seq<char>,
)
    requires
        crate::scan::all_read(scan_words(batches, name)),
        forall|i: int|
            0 <= i < batches.len() ==> crate::batch::addressable(
                (#[trigger] scan_words(batches, name)[i])->0,
            ),
        crate::collect::scan_strings(plain, name) == scan_words(batches, name),
    ensures
        crate::scan::distinct_cells(
            crate::collect::scan_cells(
                batches,
                name,
                ColumnType::Dictionary(DictionaryValues::Utf8),
            ),
        ) == crate::scan::distinct_cells(
            crate::collect::scan_cells(plain, name, ColumnType::Utf8),
        ),
        crate::scan::distinct_cells(
            crate::collect::scan_cells(plain, name, ColumnType::Utf8),
        ) is Some,
{
    let words = scan_words(batches, name);
    assert forall|i: int| 0 <= i < batches.len() implies crate::collect::scan_text(
        batches,
        name,
    )[i] == words[i] by {
        assert(words[i] is Some);
    }
    assert(crate::collect::scan_text(batches, name) =~= words);
}

/// A scan without batches, or without a field that the plan keeps statistics of, has no
/// observation; every other has one.
pub proof fn when_a_scan_has_an_observation(
    plan: BatchStatisticsPlanView,
    scan: ScanSample,
    observed_at: Seq<char>,
)
    ensures
        crate::scan::scan_observation(plan, scan, observed_at) is Some <==> scan.rows.len() > 0
            && exists|i: int|
            0 <= i < scan.fields.len() && crate::plan::keeps_column(
                plan,
                (#[trigger] scan.fields[i]).name,
            ),
{
    lemma_some_field_is_reported(
        plan,
        crate::scan::clamped(crate::scan::row_total(scan.rows)),
        scan.fields,
    );
}

/// Something is reported of fields exactly where one of them is kept.
proof fn lemma_some_field_is_reported(
    plan: BatchStatisticsPlanView,
    sample_count: u64,
    fields: Seq<FieldSample>,
)
    ensures
        crate::scan::field_reports(plan, sample_count, fields).len() > 0 <==> exists|i: int|
            0 <= i < fields.len() && crate::plan::keeps_column(plan, (#[trigger] fields[i]).name),
    decreases fields.len(),
{
    if fields.len() > 0 {
        let before = fields.drop_last();
        lemma_some_field_is_reported(plan, sample_count, before);
        if crate::scan::field_reports(plan, sample_count, before).len() > 0 {
            let i = choose|i: int|
                0 <= i < before.len() && crate::plan::keeps_column(
                    plan,
                    (#[trigger] before[i]).name,
                );
            assert(crate::plan::keeps_column(plan, fields[i].name));
        }
        if crate::plan::keeps_column(plan, fields.last().name) {
            assert(crate::plan::keeps_column(plan, fields[fields.len() - 1].name));
        }
        if exists|i: int|
            0 <= i < fields.len() && crate::plan::keeps_column(plan, (#[trigger] fields[i]).name) {
            let i = choose|i: int|
                0 <= i < fields.len() && crate::plan::keeps_column(
                    plan,
                    (#[trigger] fields[i]).name,
                );
            if i < before.len() {
                assert(crate::plan::keeps_column(plan, before[i].name));
            }
        }
    }
}

/// The observation of a plan of a whole table is one that is merged into a profile.
pub proof fn observations_of_whole_tables_are_merged(
    plan: BatchStatisticsPlanView,
    scan: ScanSample,
    observed_at: Seq<char>,
    profile: StatisticsProfileView,
)
    requires
        plan.scope == StatisticsObservationScopeView::TableGlobal,
        crate::scan::scan_observation(plan, scan, observed_at) is Some,
    ensures
        ({
            let observation = crate::scan::scan_observation(plan, scan, observed_at)->0;
            let merged = crate::merge::merged_profile(profile, observation);
            &&& merged.sources.contains_key(plan.schema_name)
            &&& merged.sources[plan.schema_name].tables.contains_key(plan.table_name)
            &&& merged.sources[plan.schema_name].tables[plan.table_name].schema_signature
                == plan.schema_signature
        }),
{
}

/// The nulls of a field are no more than the null cells that it was read with.
pub proof fn nulls_are_among_the_cells<T>(
    chunks: Seq<Option<Seq<Option<T>>>>,
    null_counts: Seq<Option<usize>>,
    rows: Seq<usize>,
)
    requires
        crate::scan::cells_fill(chunks, null_counts, rows),
    ensures
        crate::scan::null_total(null_counts) <= crate::scan::null_chunks(chunks),
    decreases rows.len(),
{
    if rows.len() > 0 {
        let last = rows.len() - 1;
        assert(null_counts[last] is Some);
        assert(chunks[last] is Some);
        assert forall|i: int| 0 <= i < last implies #[trigger] chunks.drop_last()[i] is Some
            && chunks.drop_last()[i]->0.len() == rows.drop_last()[i] by {
            assert(chunks[i] is Some);
        }
        assert forall|i: int| 0 <= i < last implies (#[trigger] null_counts.drop_last()[i]) is Some
            && null_counts.drop_last()[i]->0 <= crate::scan::null_cells(
            chunks.drop_last()[i]->0,
        ) by {
            assert(null_counts[i] is Some);
        }
        nulls_are_among_the_cells(chunks.drop_last(), null_counts.drop_last(), rows.drop_last());
    }
}

/// The nulls and the distinct values of a field together are no more than the rows of the scan.
pub proof fn nulls_and_distinct_values_fit_the_rows<T>(
    chunks: Seq<Option<Seq<Option<T>>>>,
    null_counts: Seq<Option<usize>>,
    rows: Seq<usize>,
)
    requires
        crate::scan::cells_fill(chunks, null_counts, rows),
        crate::scan::row_total(rows) <= u64::MAX,
    ensures
        crate::scan::distinct_total(chunks) is Some,
        crate::scan::distinct_total(chunks)->0 + crate::scan::clamped(
            crate::scan::null_total(null_counts),
        ) <= crate::scan::clamped(crate::scan::row_total(rows)),
{
    nulls_are_among_the_cells(chunks, null_counts, rows);
    crate::scan::rows_bound_values(chunks, rows);
}

/// In which order batches come does not change the number of their distinct values.
pub proof fn distinct_values_do_not_depend_on_order<T>(
    first: Seq<Option<Seq<Option<T>>>>,
    second: Seq<Option<Seq<Option<T>>>>,
)
    requires
        first.to_multiset() == second.to_multiset(),
    ensures
        crate::scan::distinct_total(first) == crate::scan::distinct_total(second),
{
    first.to_multiset_ensures();
    second.to_multiset_ensures();
    assert forall|chunk: Option<Seq<Option<T>>>| first.contains(chunk) == second.contains(chunk) by {
        assert(first.contains(chunk) <==> first.to_multiset().count(chunk) > 0);
        assert(second.contains(chunk) <==> second.to_multiset().count(chunk) > 0);
    }
    lemma_among_batches(first, second);
    lemma_among_batches(second, first);
    assert(crate::scan::chunk_values(first) =~= crate::scan::chunk_values(second));
}

/// Batches that are all among others hold no value that those do not hold, and can be read where
/// those can.
proof fn lemma_among_batches<T>(
    some: Seq<Option<Seq<Option<T>>>>,
    others: Seq<Option<Seq<Option<T>>>>,
)
    requires
        forall|chunk: Option<Seq<Option<T>>>| #[trigger]
            some.contains(chunk) ==> others.contains(chunk),
    ensures
        crate::scan::all_read(others) ==> crate::scan::all_read(some),
        crate::scan::chunk_values(some).subset_of(crate::scan::chunk_values(others)),
{
    if crate::scan::all_read(others) {
        assert forall|i: int| 0 <= i < some.len() implies #[trigger] some[i] is Some by {
            assert(some.contains(some[i]));
            assert(others[others.index_of(some[i])] is Some);
        }
    }
    assert forall|value: T| #[trigger]
        crate::scan::chunk_values(some).contains(value) implies crate::scan::chunk_values(
        others,
    ).contains(value) by {
        let i = choose|i: int|
            0 <= i < some.len() && #[trigger] some[i] is Some && some[i]->0.contains(Some(value));
        assert(some.contains(some[i]));
        assert(others[others.index_of(some[i])] is Some);
    }
}

/// What is counted in batches, added up.
spec fn added_up(batches: Seq<ScanBatch>, count: spec_fn(ScanBatch) -> nat) -> nat
    decreases batches.len(),
{
    if batches.len() == 0 {
        0
    } else {
        added_up(batches.drop_last(), count) + count(batches.last())
    }
}

/// A batch counts the same wherever it stands.
proof fn lemma_taken_out(batches: Seq<ScanBatch>, count: spec_fn(ScanBatch) -> nat, place: int)
    requires
        0 <= place < batches.len(),
    ensures
        added_up(batches, count) == added_up(batches.remove(place), count) + count(batches[place]),
    decreases batches.len(),
{
    if place == batches.len() - 1 {
        assert(batches.remove(place) =~= batches.drop_last());
    } else {
        lemma_taken_out(batches.drop_last(), count, place);
        assert(batches.remove(place).drop_last() =~= batches.drop_last().remove(place));
        assert(batches.remove(place).last() == batches.last());
    }
}

/// What is counted in batches adds up to the same in any order.
proof fn lemma_added_up_in_any_order(
    first: Seq<ScanBatch>,
    second: Seq<ScanBatch>,
    count: spec_fn(ScanBatch) -> nat,
)
    requires
        first.to_multiset() == second.to_multiset(),
    ensures
        added_up(first, count) == added_up(second, count),
    decreases first.len(),
{
    first.to_multiset_ensures();
    second.to_multiset_ensures();
    if first.len() > 0 {
        let last = first.last();
        assert(first.contains(last)) by {
            assert(first[first.len() - 1] == last);
        }
        assert(second.to_multiset().count(last) > 0);
        assert(second.contains(last));
        let place = second.index_of(last);
        assert(first.remove(first.len() - 1) =~= first.drop_last());
        assert(first.drop_last().to_multiset() =~= second.remove(place).to_multiset());
        lemma_added_up_in_any_order(first.drop_last(), second.remove(place), count);
        lemma_taken_out(second, count, place);
    }
}

/// The rows and the nulls of a scan are those of its batches, added up.
proof fn lemma_totals_are_added_up(batches: Seq<ScanBatch>, name: Seq<char>)
    ensures
        crate::scan::row_total(crate::collect::scan_rows(batches)) == added_up(
            batches,
            |batch: ScanBatch| crate::batch::batch_rows(batch) as nat,
        ),
        crate::scan::null_total(crate::collect::scan_nulls(batches, name)) == added_up(
            batches,
            |batch: ScanBatch| nulls_in(batch, name),
        ),
    decreases batches.len(),
{
    if batches.len() > 0 {
        lemma_totals_are_added_up(batches.drop_last(), name);
        assert(crate::collect::scan_rows(batches).drop_last() =~= crate::collect::scan_rows(
            batches.drop_last(),
        ));
        assert(crate::collect::scan_nulls(batches, name).drop_last() =~= crate::collect::scan_nulls(
            batches.drop_last(),
            name,
        ));
    }
}

/// The nulls of the column with a name, if a batch has it.
spec fn nulls_in(batch: ScanBatch, name: Seq<char>) -> nat {
    match crate::batch::null_count_named(batch, name) {
        Some(count) => count as nat,
        None => 0,
    }
}

/// What is read of each batch.
spec fn read_each<T>(
    batches: Seq<ScanBatch>,
    read: spec_fn(ScanBatch) -> Option<Seq<Option<T>>>,
) -> Seq<Option<Seq<Option<T>>>> {
    Seq::new(batches.len(), |i: int| read(batches[i]))
}

/// Two runs of batches, each read in the same way, count the same distinct values if each batch of one
/// is among those of the other.
proof fn lemma_read_in_any_order<T>(
    first: Seq<ScanBatch>,
    second: Seq<ScanBatch>,
    read: spec_fn(ScanBatch) -> Option<Seq<Option<T>>>,
)
    requires
        first.to_multiset() == second.to_multiset(),
    ensures
        crate::scan::distinct_total(read_each(first, read))
            == crate::scan::distinct_total(read_each(second, read)),
{
    lemma_read_among(first, second, read);
    lemma_read_among(second, first, read);
    let one = read_each(first, read);
    let other = read_each(second, read);
    lemma_among_batches(one, other);
    lemma_among_batches(other, one);
    assert(crate::scan::chunk_values(one) =~= crate::scan::chunk_values(other));
}

/// What is read of batches is among what is read of the same batches in another order.
proof fn lemma_read_among<T>(
    first: Seq<ScanBatch>,
    second: Seq<ScanBatch>,
    read: spec_fn(ScanBatch) -> Option<Seq<Option<T>>>,
)
    requires
        first.to_multiset() == second.to_multiset(),
    ensures
        forall|chunk: Option<Seq<Option<T>>>| #[trigger]
            read_each(first, read).contains(chunk) ==> read_each(second, read).contains(chunk),
{
    let one = read_each(first, read);
    let other = read_each(second, read);
    first.to_multiset_ensures();
    second.to_multiset_ensures();
    assert forall|chunk: Option<Seq<Option<T>>>| #[trigger] one.contains(chunk) implies other.contains(
        chunk,
    ) by {
        let batch = first[one.index_of(chunk)];
        assert(first.contains(batch));
        assert(first.to_multiset().count(batch) > 0);
        assert(second.contains(batch));
        assert(other[second.index_of(batch)] == chunk);
    }
}

/// The cells of a column hold the same distinct values in any order of the batches.
proof fn lemma_cells_in_any_order(
    first: Seq<ScanBatch>,
    second: Seq<ScanBatch>,
    name: Seq<char>,
    data_type: ColumnType,
)
    requires
        first.to_multiset() == second.to_multiset(),
    ensures
        crate::scan::distinct_cells(crate::collect::scan_cells(first, name, data_type))
            == crate::scan::distinct_cells(crate::collect::scan_cells(second, name, data_type)),
{
    let strings = |batch: ScanBatch| crate::batch::strings_named(batch, name);
    let text = |batch: ScanBatch| crate::batch::cast_named(batch, name);
    let integers = |batch: ScanBatch| crate::batch::integers_named(batch, name);
    let timestamps = |batch: ScanBatch| crate::batch::timestamps_named(batch, name);
    let booleans = |batch: ScanBatch| crate::batch::booleans_named(batch, name);
    lemma_read_in_any_order(first, second, strings);
    lemma_read_in_any_order(first, second, text);
    lemma_read_in_any_order(first, second, integers);
    lemma_read_in_any_order(first, second, timestamps);
    lemma_read_in_any_order(first, second, booleans);
    assert forall|batches: Seq<ScanBatch>| #[trigger] crate::collect::scan_cells(
        batches,
        name,
        data_type,
    ) == match data_type {
        ColumnType::Utf8 => FieldCells::Strings(read_each(batches, strings)),
        ColumnType::Dictionary(DictionaryValues::Utf8) => FieldCells::Strings(read_each(batches, text)),
        ColumnType::Int64 => FieldCells::Integers(read_each(batches, integers)),
        ColumnType::Boolean => FieldCells::Booleans(read_each(batches, booleans)),
        ColumnType::Timestamp(TimestampUnit::Microsecond) => FieldCells::Integers(read_each(batches, timestamps)),
        _ => FieldCells::NotCounted,
    } by {
        assert(crate::collect::scan_strings(batches, name) =~= read_each(batches, strings));
        assert(crate::collect::scan_text(batches, name) =~= read_each(batches, text));
        assert(crate::collect::scan_integers(batches, name, Int64Storage::Int64) =~= read_each(
            batches,
            integers,
        ));
        assert(crate::collect::scan_integers(batches, name, Int64Storage::TimestampMicrosecond)
            =~= read_each(batches, timestamps));
        assert(crate::collect::scan_booleans(batches, name) =~= read_each(batches, booleans));
    }
}

/// Fields of which the same is reported one by one make up the same report.
proof fn lemma_same_reports(
    plan: BatchStatisticsPlanView,
    sample_count: u64,
    first: Seq<FieldSample>,
    second: Seq<FieldSample>,
)
    requires
        first.len() == second.len(),
        forall|i: int|
            0 <= i < first.len() ==> crate::scan::field_report(
                plan,
                sample_count,
                #[trigger] first[i],
            ) == crate::scan::field_report(plan, sample_count, second[i]),
    ensures
        crate::scan::field_reports(plan, sample_count, first) == crate::scan::field_reports(
            plan,
            sample_count,
            second,
        ),
    decreases first.len(),
{
    if first.len() > 0 {
        assert(first[first.len() - 1] == first.last());
        assert forall|i: int| 0 <= i < first.drop_last().len() implies crate::scan::field_report(
            plan,
            sample_count,
            #[trigger] first.drop_last()[i],
        ) == crate::scan::field_report(plan, sample_count, second.drop_last()[i]) by {
            assert(first[i] == first.drop_last()[i]);
        }
        lemma_same_reports(plan, sample_count, first.drop_last(), second.drop_last());
    }
}

/// Two batches have the same fields, in the same order.
pub open spec fn same_fields(first: ScanBatch, second: ScanBatch) -> bool {
    &&& crate::batch::batch_columns(first).len() == crate::batch::batch_columns(second).len()
    &&& forall|i: int|
        0 <= i < crate::batch::batch_columns(first).len() ==> {
            &&& (#[trigger] crate::batch::batch_columns(first)[i]).name
                == crate::batch::batch_columns(second)[i].name
            &&& crate::batch::batch_columns(first)[i].data_type
                == crate::batch::batch_columns(second)[i].data_type
        }
}

/// In which order batches of one schema come does not change the observation of a scan, but for the
/// moment at which it is made.
pub proof fn observations_do_not_depend_on_order(
    plan: BatchStatisticsPlanView,
    first: Seq<ScanBatch>,
    second: Seq<ScanBatch>,
    observed_at: Seq<char>,
)
    requires
        first.to_multiset() == second.to_multiset(),
        forall|i: int, j: int|
            0 <= i < first.len() && 0 <= j < first.len() ==> same_fields(
                #[trigger] first[i],
                #[trigger] first[j],
            ),
    ensures
        crate::scan::scan_observation(plan, crate::collect::scan_of(first), observed_at)
            == crate::scan::scan_observation(plan, crate::collect::scan_of(second), observed_at),
{
    first.to_multiset_ensures();
    second.to_multiset_ensures();
    assert(first.len() == second.len());
    if first.len() > 0 {
        assert(second.contains(second[0]));
        assert(second.to_multiset().count(second[0]) > 0);
        assert(first.contains(second[0]));
        let place = first.index_of(second[0]);
        assert(same_fields(first[0], first[place]));
        let one = crate::collect::scan_of(first);
        let other = crate::collect::scan_of(second);
        lemma_totals_are_added_up(first, Seq::empty());
        lemma_totals_are_added_up(second, Seq::empty());
        lemma_added_up_in_any_order(
            first,
            second,
            |batch: ScanBatch| crate::batch::batch_rows(batch) as nat,
        );
        let sample_count = crate::scan::clamped(crate::scan::row_total(one.rows));
        assert(sample_count == crate::scan::clamped(crate::scan::row_total(other.rows)));
        assert forall|i: int| 0 <= i < one.fields.len() implies crate::scan::field_report(
            plan,
            sample_count,
            #[trigger] one.fields[i],
        ) == crate::scan::field_report(plan, sample_count, other.fields[i]) by {
            let column = crate::batch::batch_columns(first[0])[i];
            assert(column.name == crate::batch::batch_columns(second[0])[i].name);
            lemma_totals_are_added_up(first, column.name);
            lemma_totals_are_added_up(second, column.name);
            lemma_added_up_in_any_order(
                first,
                second,
                |batch: ScanBatch| nulls_in(batch, column.name),
            );
            lemma_cells_in_any_order(first, second, column.name, column.data_type);
        }
        lemma_same_reports(plan, sample_count, one.fields, other.fields);
    }
}

/// The rows of two runs of batches add up, and so do the nulls of a field.
pub proof fn totals_add_up(
    first_rows: Seq<usize>,
    second_rows: Seq<usize>,
    first_nulls: Seq<Option<usize>>,
    second_nulls: Seq<Option<usize>>,
)
    ensures
        crate::scan::row_total(first_rows + second_rows) == crate::scan::row_total(first_rows)
            + crate::scan::row_total(second_rows),
        crate::scan::null_total(first_nulls + second_nulls) == crate::scan::null_total(first_nulls)
            + crate::scan::null_total(second_nulls),
    decreases second_rows.len() + second_nulls.len(),
{
    if second_rows.len() > 0 {
        totals_add_up(first_rows, second_rows.drop_last(), first_nulls, second_nulls);
        assert((first_rows + second_rows).drop_last() =~= first_rows + second_rows.drop_last());
    } else {
        assert(first_rows + second_rows =~= first_rows);
        if second_nulls.len() > 0 {
            totals_add_up(first_rows, second_rows, first_nulls, second_nulls.drop_last());
            assert((first_nulls + second_nulls).drop_last() =~= first_nulls
                + second_nulls.drop_last());
        } else {
            assert(first_nulls + second_nulls =~= first_nulls);
        }
    }
}

} // verus!
