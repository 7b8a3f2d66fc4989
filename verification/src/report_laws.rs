//! What the observation of a scan says, column by column, of what its batches hold.

use vstd::prelude::*;

use crate::batch::{ArrayCells, BatchColumn, ColumnType, DictionaryValues, ScanBatch, TimestampUnit};
use crate::contracts::{
    ColumnSchemaSignatureView, ColumnStatisticsObservationView, StatisticValue,
    StatisticsObservationScopeView, StatisticsObservationView, TableSchemaSignatureView,
};
use crate::plan::BatchStatisticsPlanView;
use crate::scan::{FieldCells, FieldSample};

verus! {

/// The plan of a table has the names, the version and the signature that it was made with. It speaks
/// of the whole table, and of a sample. Another scope changes nothing else, and the last one counts.
pub proof fn plans_are_of_a_table_and_a_scope(
    schema_name: Seq<char>,
    table_name: Seq<char>,
    source_version: Option<Seq<char>>,
    schema_signature: TableSchemaSignatureView,
    plan: BatchStatisticsPlanView,
    scope: StatisticsObservationScopeView,
    other: StatisticsObservationScopeView,
)
    ensures
        ({
            let made = crate::plan::plan_of_table(
                schema_name,
                table_name,
                source_version,
                schema_signature,
            );
            &&& made.schema_name == schema_name
            &&& made.table_name == table_name
            &&& made.source_version == source_version
            &&& made.schema_signature == schema_signature
            &&& made.scope is TableGlobal
            &&& made.precision is ObservedSample
        }),
        ({
            let changed = crate::plan::rescoped(plan, scope);
            &&& changed.scope == scope
            &&& changed.schema_name == plan.schema_name
            &&& changed.table_name == plan.table_name
            &&& changed.source_version == plan.source_version
            &&& changed.schema_signature == plan.schema_signature
            &&& changed.precision == plan.precision
            &&& crate::plan::rescoped(changed, other) == crate::plan::rescoped(plan, other)
            &&& crate::plan::rescoped(plan, plan.scope) == plan
        }),
{
}

/// The signature in a place is the first with a name.
pub open spec fn first_with_name(
    signatures: Seq<ColumnSchemaSignatureView>,
    place: int,
    name: Seq<char>,
) -> bool {
    &&& 0 <= place < signatures.len()
    &&& signatures[place].name == name
    &&& forall|k: int| 0 <= k < place ==> (#[trigger] signatures[k]).name != name
}

/// The first signature with a name is neither that of a virtual column nor that of a required filter.
pub open spec fn wanted(signatures: Seq<ColumnSchemaSignatureView>, name: Seq<char>) -> bool {
    exists|place: int| #[trigger]
        first_with_name(signatures, place, name) && !signatures[place].is_virtual
            && !signatures[place].is_required_filter
}

/// A signature is found by a name where it is the first with the name, and none is found where none
/// has it.
pub proof fn the_first_signature_is_found(
    signatures: Seq<ColumnSchemaSignatureView>,
    name: Seq<char>,
    place: int,
)
    ensures
        first_with_name(signatures, place, name) ==> crate::plan::signature_named(signatures, name)
            == Some(signatures[place]),
        crate::plan::signature_named(signatures, name) is None <==> forall|k: int|
            0 <= k < signatures.len() ==> (#[trigger] signatures[k]).name != name,
    decreases signatures.len(),
{
    if signatures.len() > 0 {
        let rest = signatures.drop_first();
        the_first_signature_is_found(rest, name, place - 1);
        if first_with_name(signatures, place, name) && place > 0 {
            assert(signatures[0].name != name);
            assert forall|k: int| 0 <= k < place - 1 implies (#[trigger] rest[k]).name != name by {
                assert(signatures[k + 1].name != name);
            }
            assert(rest[place - 1] == signatures[place]);
        }
        if signatures[0].name != name {
            if forall|k: int| 0 <= k < rest.len() ==> (#[trigger] rest[k]).name != name {
                assert forall|k: int| 0 <= k < signatures.len() implies (
                #[trigger] signatures[k]).name != name by {
                    if k > 0 {
                        assert(rest[k - 1] == signatures[k]);
                    }
                }
            }
            if forall|k: int| 0 <= k < signatures.len() ==> (#[trigger] signatures[k]).name
                != name {
                assert forall|k: int| 0 <= k < rest.len() implies (#[trigger] rest[k]).name
                    != name by {
                    assert(signatures[k + 1].name != name);
                }
            }
        }
    }
}

/// Where some signature has a name, one is the first.
proof fn lemma_some_is_first(
    signatures: Seq<ColumnSchemaSignatureView>,
    name: Seq<char>,
) -> (place: int)
    requires
        crate::plan::signature_named(signatures, name) is Some,
    ensures
        first_with_name(signatures, place, name),
    decreases signatures.len(),
{
    if signatures[0].name == name {
        0
    } else {
        let rest = signatures.drop_first();
        let place = lemma_some_is_first(rest, name);
        assert forall|k: int| 0 <= k < place + 1 implies (#[trigger] signatures[k]).name != name by {
            if k > 0 {
                assert(rest[k - 1] == signatures[k]);
            }
        }
        assert(signatures[place + 1] == rest[place]);
        place + 1
    }
}

/// Statistics are kept of a column exactly where its first signature has neither flag, whatever else
/// the signature says.
pub proof fn columns_are_kept_by_their_flags(plan: BatchStatisticsPlanView, name: Seq<char>)
    ensures
        crate::plan::keeps_column(plan, name) <==> wanted(plan.schema_signature.columns, name),
{
    let signatures = plan.schema_signature.columns;
    if crate::plan::signature_named(signatures, name) is Some {
        let place = lemma_some_is_first(signatures, name);
        the_first_signature_is_found(signatures, name, place);
        if wanted(signatures, name) {
            let other = choose|other: int| #[trigger]
                first_with_name(signatures, other, name) && !signatures[other].is_virtual
                    && !signatures[other].is_required_filter;
            the_first_signature_is_found(signatures, name, other);
        }
    } else {
        the_first_signature_is_found(signatures, name, 0);
    }
}

/// A column of a batch is found by a name where it is the first with the name, and none is found
/// where none has it.
pub proof fn the_first_column_is_found(columns: Seq<BatchColumn>, name: Seq<char>, place: int)
    ensures
        0 <= place < columns.len() && columns[place].name == name && (forall|k: int|
            0 <= k < place ==> (#[trigger] columns[k]).name != name) ==> crate::batch::column_named(
            columns,
            name,
        ) == Some(columns[place]),
        (forall|k: int| 0 <= k < columns.len() ==> (#[trigger] columns[k]).name != name)
            ==> crate::batch::column_named(columns, name) is None,
    decreases columns.len(),
{
    if columns.len() > 0 {
        let rest = columns.drop_first();
        the_first_column_is_found(rest, name, place - 1);
        if 0 < place < columns.len() && (forall|k: int|
            0 <= k < place ==> (#[trigger] columns[k]).name != name) {
            assert(columns[0].name != name);
            assert forall|k: int| 0 <= k < place - 1 implies (#[trigger] rest[k]).name != name by {
                assert(columns[k + 1].name != name);
            }
            assert(rest[place - 1] == columns[place]);
        }
        if forall|k: int| 0 <= k < columns.len() ==> (#[trigger] columns[k]).name != name {
            assert forall|k: int| 0 <= k < rest.len() implies (#[trigger] rest[k]).name != name by {
                assert(columns[k + 1].name != name);
            }
            assert(columns[0].name != name);
        }
    }
}

/// What is read of a column by its name, for each kind of array separately: all its cells where the
/// first column with the name is such an array, and nothing where it is another or is missing. Nulls
/// are counted in whatever array it is.
pub proof fn columns_are_read_by_their_arrays(batch: ScanBatch, name: Seq<char>)
    ensures
        ({
            let column = crate::batch::column_named(crate::batch::batch_columns(batch), name);
            &&& crate::batch::null_count_named(batch, name) is Some <==> column is Some
            &&& column is Some ==> crate::batch::null_count_named(batch, name)->0
                == column->0.null_count
            &&& crate::batch::strings_named(batch, name) is Some <==> column is Some
                && column->0.cells is Utf8
            &&& crate::batch::integers_named(batch, name) is Some <==> column is Some
                && column->0.cells is Int64
            &&& crate::batch::timestamps_named(batch, name) is Some <==> column is Some
                && column->0.cells is TimestampMicrosecond
            &&& crate::batch::booleans_named(batch, name) is Some <==> column is Some
                && column->0.cells is Boolean
            &&& crate::batch::text_named(batch, name) is Some <==> column is Some && (
            column->0.cells is Utf8 || column->0.cells is DictionaryUtf8)
            &&& column matches Some(column) ==> match column.cells {
                ArrayCells::Utf8(cells) => crate::batch::strings_named(batch, name)->0 == cells
                    && crate::batch::text_named(batch, name)->0 == cells,
                ArrayCells::DictionaryUtf8(cells) => crate::batch::text_named(batch, name)->0
                    == cells,
                ArrayCells::Int64(cells) => crate::batch::integers_named(batch, name)->0 == cells,
                ArrayCells::TimestampMicrosecond(cells) => crate::batch::timestamps_named(
                    batch,
                    name,
                )->0 == cells,
                ArrayCells::Boolean(cells) => crate::batch::booleans_named(batch, name)->0 == cells,
                ArrayCells::Other => true,
            }
        }),
{
}

/// Null cells are counted one by one: a null one adds one, and another adds nothing.
pub proof fn null_cells_are_counted_one_by_one<T>(cells: Seq<Option<T>>, cell: Option<T>)
    ensures
        crate::scan::null_cells(Seq::<Option<T>>::empty()) == 0,
        crate::scan::null_cells(cells.push(cell)) == crate::scan::null_cells(cells) + if cell is None {
            1int
        } else {
            0
        },
{
    assert(cells.push(cell).drop_last() =~= cells);
}

/// A number as far as 64 bits hold it.
pub open spec fn as_counted(number: int) -> int {
    if number <= u64::MAX {
        number
    } else {
        u64::MAX as int
    }
}

/// Rows are counted one batch after the other. `sums` are the sums on the way.
pub proof fn rows_are_summed(rows: Seq<usize>, sums: Seq<int>)
    requires
        sums.len() == rows.len() + 1,
        sums[0] == 0,
        forall|i: int| 0 <= i < rows.len() ==> sums[i + 1] == sums[i] + #[trigger] rows[i],
    ensures
        crate::scan::row_total(rows) == sums.last(),
        crate::scan::clamped(crate::scan::row_total(rows)) == as_counted(sums.last()),
    decreases rows.len(),
{
    if rows.len() > 0 {
        let last = rows.len() - 1;
        assert forall|i: int| 0 <= i < last implies sums.drop_last()[i + 1] == sums.drop_last()[i]
            + #[trigger] rows.drop_last()[i] by {
            assert(rows[i] == rows.drop_last()[i]);
        }
        rows_are_summed(rows.drop_last(), sums.drop_last());
        assert(sums[last + 1] == sums[last] + rows[last]);
    }
}

/// Nulls are counted one batch after the other, and a batch without the column adds none. `sums` are
/// the sums on the way.
pub proof fn nulls_are_summed(null_counts: Seq<Option<usize>>, sums: Seq<int>)
    requires
        sums.len() == null_counts.len() + 1,
        sums[0] == 0,
        forall|i: int|
            0 <= i < null_counts.len() ==> sums[i + 1] == sums[i] + match #[trigger] null_counts[i] {
                Some(count) => count as int,
                None => 0,
            },
    ensures
        crate::scan::null_total(null_counts) == sums.last(),
        crate::scan::clamped(crate::scan::null_total(null_counts)) == as_counted(sums.last()),
    decreases null_counts.len(),
{
    if null_counts.len() > 0 {
        let last = null_counts.len() - 1;
        assert forall|i: int| 0 <= i < last implies sums.drop_last()[i + 1] == sums.drop_last()[i]
            + match #[trigger] null_counts.drop_last()[i] {
            Some(count) => count as int,
            None => 0,
        } by {
            assert(null_counts[i] == null_counts.drop_last()[i]);
        }
        nulls_are_summed(null_counts.drop_last(), sums.drop_last());
        assert(sums[last + 1] == sums[last] + match null_counts[last] {
            Some(count) => count as int,
            None => 0,
        });
    }
}

/// A value stands in some cell of some batch.
pub open spec fn occurs<T>(chunks: Seq<Option<Seq<Option<T>>>>, value: T) -> bool {
    exists|i: int, row: int|
        0 <= i < chunks.len() && chunks[i] is Some && 0 <= row < chunks[i]->0.len()
            && #[trigger] chunks[i]->0[row] == Some(value)
}

/// A list holds every value that occurs, no other, and none twice.
pub open spec fn lists_values<T>(chunks: Seq<Option<Seq<Option<T>>>>, listing: Seq<T>) -> bool {
    &&& listing.no_duplicates()
    &&& forall|value: T| #[trigger] listing.contains(value) <==> occurs(chunks, value)
}

/// There is a number of distinct values where every batch could be read, and only there. It is the
/// length of a list of the values that occur, without the nulls.
pub proof fn distinct_values_are_listed<T>(
    chunks: Seq<Option<Seq<Option<T>>>>,
    listing: Seq<T>,
)
    requires
        lists_values(chunks, listing),
    ensures
        crate::scan::distinct_total(chunks) is None <==> exists|i: int|
            0 <= i < chunks.len() && #[trigger] chunks[i] is None,
        crate::scan::distinct_total(chunks) is Some ==> crate::scan::distinct_total(chunks)->0
            == as_counted(listing.len() as int),
{
    let values = crate::scan::chunk_values(chunks);
    assert forall|value: T| values.contains(value) <==> listing.contains(value) by {
        if values.contains(value) {
            let i = choose|i: int|
                0 <= i < chunks.len() && #[trigger] chunks[i] is Some && chunks[i]->0.contains(
                    Some(value),
                );
            let row = chunks[i]->0.index_of(Some(value));
            assert(chunks[i]->0[row] == Some(value));
        }
        if occurs(chunks, value) {
            let (i, row) = choose|i: int, row: int|
                0 <= i < chunks.len() && chunks[i] is Some && 0 <= row < chunks[i]->0.len()
                    && #[trigger] chunks[i]->0[row] == Some(value);
            assert(chunks[i] is Some && chunks[i]->0.contains(Some(value)));
        }
    }
    listing.unique_seq_to_set();
    assert(values =~= listing.to_set());
}

/// Of booleans there are as many distinct values as occur: one for `true`, if it does, and one for
/// `false`, if it does.
pub proof fn booleans_are_counted(chunks: Seq<Option<Seq<Option<bool>>>>)
    requires
        forall|i: int| 0 <= i < chunks.len() ==> #[trigger] chunks[i] is Some,
    ensures
        crate::scan::distinct_total(chunks) is Some,
        crate::scan::distinct_total(chunks)->0 == (if occurs(chunks, true) {
            1int
        } else {
            0
        }) + (if occurs(chunks, false) {
            1int
        } else {
            0
        }),
{
    let listing = if occurs(chunks, true) {
        if occurs(chunks, false) {
            seq![true, false]
        } else {
            seq![true]
        }
    } else if occurs(chunks, false) {
        seq![false]
    } else {
        Seq::empty()
    };
    assert forall|value: bool| #[trigger] listing.contains(value) <==> occurs(chunks, value) by {
        if occurs(chunks, true) {
            assert(listing[0] == true);
            if occurs(chunks, false) {
                assert(listing[1] == false);
            }
        } else if occurs(chunks, false) {
            assert(listing[0] == false);
        }
    }
    distinct_values_are_listed(chunks, listing);
}

/// The names of the fields of a batch.
pub open spec fn field_names(batch: ScanBatch) -> Seq<Seq<char>> {
    crate::batch::batch_columns(batch).map_values(|column: BatchColumn| column.name)
}

/// The names of columns that are wanted.
pub open spec fn wanted_names(
    signatures: Seq<ColumnSchemaSignatureView>,
    names: Seq<Seq<char>>,
) -> Seq<Seq<char>> {
    names.filter(|name: Seq<char>| wanted(signatures, name))
}

/// The names of the fields of a scan.
spec fn sample_names(fields: Seq<FieldSample>) -> Seq<Seq<char>> {
    fields.map_values(|field: FieldSample| field.name)
}

/// One wanted name more, or one that is not wanted.
proof fn lemma_next_name(signatures: Seq<ColumnSchemaSignatureView>, names: Seq<Seq<char>>)
    requires
        names.len() > 0,
    ensures
        wanted_names(signatures, names) == if wanted(signatures, names.last()) {
            wanted_names(signatures, names.drop_last()).push(names.last())
        } else {
            wanted_names(signatures, names.drop_last())
        },
{
    reveal(Seq::filter);
}

/// What is reported of fields stands in the order of the wanted names, each under its name, and what
/// is reported of one field stands behind what is reported of those before it.
proof fn lemma_reports_in_order(
    plan: BatchStatisticsPlanView,
    sample_count: u64,
    fields: Seq<FieldSample>,
    place: int,
)
    ensures
        ({
            let signatures = plan.schema_signature.columns;
            let names = sample_names(fields);
            let reports = crate::scan::field_reports(plan, sample_count, fields);
            &&& reports.map_values(|column: ColumnStatisticsObservationView| column.column_name)
                == wanted_names(signatures, names)
            &&& 0 <= place < fields.len() && wanted(signatures, fields[place].name) ==> {
                let index = wanted_names(signatures, names.take(place)).len() as int;
                &&& index < reports.len()
                &&& crate::scan::field_report(plan, sample_count, fields[place]) == Some(
                    reports[index],
                )
            }
        }),
    decreases fields.len(),
{
    let signatures = plan.schema_signature.columns;
    let names = sample_names(fields);
    let reports = crate::scan::field_reports(plan, sample_count, fields);
    let name_of = |column: ColumnStatisticsObservationView| column.column_name;
    if fields.len() == 0 {
        reveal(Seq::filter);
        assert(reports.map_values(name_of) =~= wanted_names(signatures, names));
    } else {
        let before = fields.drop_last();
        let earlier = crate::scan::field_reports(plan, sample_count, before);
        assert(names.drop_last() =~= sample_names(before));
        assert(names.last() == fields.last().name);
        lemma_next_name(signatures, names);
        columns_are_kept_by_their_flags(plan, fields.last().name);
        lemma_reports_in_order(plan, sample_count, before, place);
        assert(earlier.map_values(name_of).len() == earlier.len());
        if wanted(signatures, fields.last().name) {
            let report = crate::scan::field_report(plan, sample_count, fields.last())->0;
            assert(reports == earlier.push(report));
            assert(reports.map_values(name_of) =~= earlier.map_values(name_of).push(
                fields.last().name,
            ));
        } else {
            assert(reports == earlier);
        }
        if 0 <= place < fields.len() {
            if place < before.len() {
                assert(names.take(place) =~= sample_names(before).take(place));
            } else {
                assert(names.take(place) =~= sample_names(before));
            }
        }
    }
}

/// The observation of a scan of batches at a moment, if there is one.
pub open spec fn observed_scan(
    plan: BatchStatisticsPlanView,
    batches: Seq<ScanBatch>,
    observed_at: Seq<char>,
) -> Option<StatisticsObservationView> {
    crate::scan::scan_observation(plan, crate::collect::scan_of(batches), observed_at)
}

/// What an observation is of, and when there is one. It has the names, the version, the signature and
/// the scope of the plan, and the moment at which it was made. It reports the fields of the first
/// batch, in their order, whose first signature has neither flag, and there is none without such a
/// field.
pub proof fn observations_report_the_wanted_fields(
    plan: BatchStatisticsPlanView,
    batches: Seq<ScanBatch>,
    observed_at: Seq<char>,
)
    ensures
        ({
            let observation = observed_scan(plan, batches, observed_at);
            let signatures = plan.schema_signature.columns;
            &&& observation is Some <==> batches.len() > 0 && wanted_names(
                signatures,
                field_names(batches[0]),
            ).len() > 0
            &&& observation is Some ==> {
                &&& observation->0.schema_name == plan.schema_name
                &&& observation->0.table_name == plan.table_name
                &&& observation->0.source_version == plan.source_version
                &&& observation->0.schema_signature == plan.schema_signature
                &&& observation->0.scope == plan.scope
                &&& observation->0.observed_at == observed_at
                &&& observation->0.columns.map_values(
                    |column: ColumnStatisticsObservationView| column.column_name,
                ) == wanted_names(signatures, field_names(batches[0]))
            }
        }),
{
    if batches.len() > 0 {
        let scan = crate::collect::scan_of(batches);
        let sample_count = crate::scan::clamped(crate::scan::row_total(scan.rows));
        assert(sample_names(scan.fields) =~= field_names(batches[0]));
        lemma_reports_in_order(plan, sample_count, scan.fields, 0);
        let reports = crate::scan::field_reports(plan, sample_count, scan.fields);
        assert(reports.map_values(
            |column: ColumnStatisticsObservationView| column.column_name,
        ).len() == reports.len());
    }
}

/// No column is reported whose first signature has a flag, or that has no signature.
pub proof fn unwanted_columns_are_not_reported(
    plan: BatchStatisticsPlanView,
    batches: Seq<ScanBatch>,
    observed_at: Seq<char>,
    index: int,
)
    requires
        observed_scan(plan, batches, observed_at) is Some,
        0 <= index < observed_scan(plan, batches, observed_at)->0.columns.len(),
    ensures
        wanted(
            plan.schema_signature.columns,
            observed_scan(plan, batches, observed_at)->0.columns[index].column_name,
        ),
        forall|place: int| #[trigger]
            first_with_name(
                plan.schema_signature.columns,
                place,
                observed_scan(plan, batches, observed_at)->0.columns[index].column_name,
            ) ==> !plan.schema_signature.columns[place].is_virtual
                && !plan.schema_signature.columns[place].is_required_filter,
{
    let signatures = plan.schema_signature.columns;
    let columns = observed_scan(plan, batches, observed_at)->0.columns;
    let names = field_names(batches[0]);
    observations_report_the_wanted_fields(plan, batches, observed_at);
    let reported = columns.map_values(
        |column: ColumnStatisticsObservationView| column.column_name,
    );
    assert(reported[index] == columns[index].column_name);
    names.lemma_filter_contains_rev(
        |name: Seq<char>| wanted(signatures, name),
        columns[index].column_name,
    );
    assert forall|place: int| #[trigger]
        first_with_name(signatures, place, columns[index].column_name) implies !signatures[place].is_virtual
        && !signatures[place].is_required_filter by {
        let other = choose|other: int| #[trigger]
            first_with_name(signatures, other, columns[index].column_name)
                && !signatures[other].is_virtual && !signatures[other].is_required_filter;
        the_first_signature_is_found(signatures, columns[index].column_name, place);
        the_first_signature_is_found(signatures, columns[index].column_name, other);
    }
}

/// What an observation reports of a wanted field of the first batch. It stands behind what is reported
/// of the wanted fields before it.
pub open spec fn report_of(
    plan: BatchStatisticsPlanView,
    batches: Seq<ScanBatch>,
    observed_at: Seq<char>,
    field: int,
) -> ColumnStatisticsObservationView {
    observed_scan(plan, batches, observed_at)->0.columns[wanted_names(
        plan.schema_signature.columns,
        field_names(batches[0]).take(field),
    ).len() as int]
}

/// A field of the first batch that is wanted, with the place of its first signature.
pub open spec fn wanted_field(
    plan: BatchStatisticsPlanView,
    batches: Seq<ScanBatch>,
    field: int,
    place: int,
) -> bool {
    &&& batches.len() > 0
    &&& 0 <= field < crate::batch::batch_columns(batches[0]).len()
    &&& first_with_name(plan.schema_signature.columns, place, field_names(batches[0])[field])
    &&& !plan.schema_signature.columns[place].is_virtual
    &&& !plan.schema_signature.columns[place].is_required_filter
}

/// What is reported of a wanted field, over the spec functions of a scan.
proof fn lemma_report_of(
    plan: BatchStatisticsPlanView,
    batches: Seq<ScanBatch>,
    observed_at: Seq<char>,
    field: int,
    place: int,
)
    requires
        wanted_field(plan, batches, field, place),
    ensures
        ({
            let scan = crate::collect::scan_of(batches);
            let sample_count = crate::scan::clamped(crate::scan::row_total(scan.rows));
            &&& observed_scan(plan, batches, observed_at) is Some
            &&& wanted_names(
                plan.schema_signature.columns,
                field_names(batches[0]).take(field),
            ).len() < observed_scan(plan, batches, observed_at)->0.columns.len()
            &&& crate::plan::signature_named(
                plan.schema_signature.columns,
                field_names(batches[0])[field],
            ) == Some(plan.schema_signature.columns[place])
            &&& scan.fields[field].name == field_names(batches[0])[field]
            &&& crate::scan::field_report(plan, sample_count, scan.fields[field]) == Some(
                report_of(plan, batches, observed_at, field),
            )
        }),
{
    let signatures = plan.schema_signature.columns;
    let name = field_names(batches[0])[field];
    let scan = crate::collect::scan_of(batches);
    let sample_count = crate::scan::clamped(crate::scan::row_total(scan.rows));
    assert(wanted(signatures, name));
    the_first_signature_is_found(signatures, name, place);
    assert(sample_names(scan.fields) =~= field_names(batches[0]));
    lemma_reports_in_order(plan, sample_count, scan.fields, field);
}

/// Every wanted field is reported, whatever its type, with its name, all rows of the scan, and the
/// nulls that the batches count in the column with its name. A batch without the column adds none.
/// `row_sums` and `null_sums` are the sums on the way.
pub proof fn wanted_fields_report_rows_and_nulls(
    plan: BatchStatisticsPlanView,
    batches: Seq<ScanBatch>,
    observed_at: Seq<char>,
    field: int,
    place: int,
    row_sums: Seq<int>,
    null_sums: Seq<int>,
)
    requires
        wanted_field(plan, batches, field, place),
        row_sums.len() == batches.len() + 1,
        row_sums[0] == 0,
        forall|i: int|
            0 <= i < batches.len() ==> row_sums[i + 1] == row_sums[i] + crate::batch::batch_rows(
                #[trigger] batches[i],
            ),
        null_sums.len() == batches.len() + 1,
        null_sums[0] == 0,
        forall|i: int|
            0 <= i < batches.len() ==> null_sums[i + 1] == null_sums[i]
                + match crate::batch::column_named(
                crate::batch::batch_columns(#[trigger] batches[i]),
                crate::batch::batch_columns(batches[0])[field].name,
            ) {
                Some(column) => column.null_count as int,
                None => 0,
            },
    ensures
        observed_scan(plan, batches, observed_at) is Some,
        ({
            let report = report_of(plan, batches, observed_at, field);
            &&& report.column_name == crate::batch::batch_columns(batches[0])[field].name
            &&& report.sample_count == as_counted(row_sums.last())
            &&& report.null_count is Some
            &&& report.null_count->0.value == as_counted(null_sums.last())
            &&& report.null_count->0.precision == plan.precision
        }),
{
    let scan = crate::collect::scan_of(batches);
    let name = crate::batch::batch_columns(batches[0])[field].name;
    lemma_report_of(plan, batches, observed_at, field, place);
    assert forall|i: int| 0 <= i < scan.rows.len() implies row_sums[i + 1] == row_sums[i]
        + #[trigger] scan.rows[i] by {
        assert(scan.rows[i] == crate::batch::batch_rows(batches[i]));
    }
    rows_are_summed(scan.rows, row_sums);
    let nulls = scan.fields[field].null_counts;
    assert forall|i: int| 0 <= i < nulls.len() implies null_sums[i + 1] == null_sums[i]
        + match #[trigger] nulls[i] {
        Some(count) => count as int,
        None => 0,
    } by {
        assert(nulls[i] == crate::batch::null_count_named(batches[i], name));
    }
    nulls_are_summed(nulls, null_sums);
}

/// What each batch holds in the column with a name, read in one way.
pub open spec fn in_each<T>(
    batches: Seq<ScanBatch>,
    read: spec_fn(ScanBatch) -> Option<Seq<Option<T>>>,
) -> Seq<Option<Seq<Option<T>>>> {
    batches.map_values(read)
}

/// A wanted field of strings, integers, timestamps in microseconds or booleans, that is not JSON, is
/// reported with the number of distinct values in the column with its name, if every batch holds the
/// column as the type of the field says. That is the length of a list of the values that occur, for
/// each type separately.
pub proof fn wanted_fields_report_distinct_values(
    plan: BatchStatisticsPlanView,
    batches: Seq<ScanBatch>,
    observed_at: Seq<char>,
    field: int,
    place: int,
    texts: Seq<Seq<char>>,
    integers: Seq<i64>,
)
    requires
        wanted_field(plan, batches, field, place),
        plan.schema_signature.columns[place].data_type != "Json"@,
    ensures
        ({
            let column = crate::batch::batch_columns(batches[0])[field];
            let name = column.name;
            let count = report_of(plan, batches, observed_at, field).approx_distinct_count;
            let as_strings = in_each(
                batches,
                |batch: ScanBatch| crate::batch::strings_named(batch, name),
            );
            let as_text = in_each(
                batches,
                |batch: ScanBatch| crate::batch::cast_named(batch, name),
            );
            let as_integers = in_each(
                batches,
                |batch: ScanBatch| crate::batch::integers_named(batch, name),
            );
            let as_timestamps = in_each(
                batches,
                |batch: ScanBatch| crate::batch::timestamps_named(batch, name),
            );
            let as_booleans = in_each(
                batches,
                |batch: ScanBatch| crate::batch::booleans_named(batch, name),
            );
            &&& column.data_type == ColumnType::Utf8 && lists_values(as_strings, texts)
                ==> reports_length(as_strings, texts.len() as int, plan, count)
            &&& column.data_type == ColumnType::Dictionary(DictionaryValues::Utf8) && lists_values(
                as_text,
                texts,
            ) ==> reports_length(as_text, texts.len() as int, plan, count)
            &&& column.data_type == ColumnType::Int64 && lists_values(as_integers, integers)
                ==> reports_length(as_integers, integers.len() as int, plan, count)
            &&& column.data_type == ColumnType::Timestamp(TimestampUnit::Microsecond)
                && lists_values(as_timestamps, integers) ==> reports_length(
                as_timestamps,
                integers.len() as int,
                plan,
                count,
            )
            &&& column.data_type == ColumnType::Boolean ==> reports_length(
                as_booleans,
                (if occurs(as_booleans, true) {
                    1int
                } else {
                    0
                }) + (if occurs(as_booleans, false) {
                    1int
                } else {
                    0
                }),
                plan,
                count,
            )
        }),
{
    let column = crate::batch::batch_columns(batches[0])[field];
    let name = column.name;
    lemma_report_of(plan, batches, observed_at, field, place);
    let as_strings = in_each(batches, |batch: ScanBatch| crate::batch::strings_named(batch, name));
    let as_text = in_each(batches, |batch: ScanBatch| crate::batch::cast_named(batch, name));
    let as_integers = in_each(
        batches,
        |batch: ScanBatch| crate::batch::integers_named(batch, name),
    );
    let as_timestamps = in_each(
        batches,
        |batch: ScanBatch| crate::batch::timestamps_named(batch, name),
    );
    let as_booleans = in_each(
        batches,
        |batch: ScanBatch| crate::batch::booleans_named(batch, name),
    );
    let cells = crate::collect::scan_of(batches).fields[field].cells;
    if column.data_type == ColumnType::Utf8 {
        assert(crate::collect::scan_strings(batches, name) =~= as_strings);
        assert(cells == FieldCells::Strings(as_strings));
        if lists_values(as_strings, texts) {
            distinct_values_are_listed(as_strings, texts);
        }
    }
    if column.data_type == ColumnType::Dictionary(DictionaryValues::Utf8) {
        assert(crate::collect::scan_text(batches, name) =~= as_text);
        assert(cells == FieldCells::Strings(as_text));
        if lists_values(as_text, texts) {
            distinct_values_are_listed(as_text, texts);
        }
    }
    if column.data_type == ColumnType::Int64 {
        assert(crate::collect::scan_integers(
            batches,
            name,
            crate::collect::Int64Storage::Int64,
        ) =~= as_integers);
        assert(cells == FieldCells::Integers(as_integers));
        if lists_values(as_integers, integers) {
            distinct_values_are_listed(as_integers, integers);
        }
    }
    if column.data_type == ColumnType::Timestamp(TimestampUnit::Microsecond) {
        assert(crate::collect::scan_integers(
            batches,
            name,
            crate::collect::Int64Storage::TimestampMicrosecond,
        ) =~= as_timestamps);
        assert(cells == FieldCells::Integers(as_timestamps));
        if lists_values(as_timestamps, integers) {
            distinct_values_are_listed(as_timestamps, integers);
        }
    }
    if column.data_type == ColumnType::Boolean {
        assert(crate::collect::scan_booleans(batches, name) =~= as_booleans);
        assert(cells == FieldCells::Booleans(as_booleans));
        if forall|i: int| 0 <= i < as_booleans.len() ==> #[trigger] as_booleans[i] is Some {
            booleans_are_counted(as_booleans);
        }
    }
}

/// A count is reported with a length where every batch could be read, and not at all elsewhere.
pub open spec fn reports_length<T>(
    chunks: Seq<Option<Seq<Option<T>>>>,
    length: int,
    plan: BatchStatisticsPlanView,
    count: Option<StatisticValue<u64>>,
) -> bool {
    if exists|i: int| 0 <= i < chunks.len() && #[trigger] chunks[i] is None {
        count is None
    } else {
        &&& count is Some
        &&& count->0.value == as_counted(length)
        &&& count->0.precision == plan.precision
    }
}

/// A wanted field of JSON, or of a type of which no values are counted, is reported without a number
/// of distinct values.
pub proof fn other_fields_report_no_distinct_values(
    plan: BatchStatisticsPlanView,
    batches: Seq<ScanBatch>,
    observed_at: Seq<char>,
    field: int,
    place: int,
)
    requires
        wanted_field(plan, batches, field, place),
        plan.schema_signature.columns[place].data_type == "Json"@ || match crate::batch::batch_columns(
            batches[0],
        )[field].data_type {
            ColumnType::Utf8 => false,
            ColumnType::Dictionary(DictionaryValues::Utf8) => false,
            ColumnType::Int64 => false,
            ColumnType::Boolean => false,
            ColumnType::Timestamp(TimestampUnit::Microsecond) => false,
            _ => true,
        },
    ensures
        report_of(plan, batches, observed_at, field).approx_distinct_count is None,
{
    lemma_report_of(plan, batches, observed_at, field, place);
}

} // verus!
