//! Merging what a scan observed into a profile.

use vstd::prelude::*;

use crate::contracts::{
    ColumnStatistics, ColumnStatisticsObservationView, ColumnStatisticsView, SourceStatistics,
    SourceStatisticsView, StatisticValue, StatisticsObservation, StatisticsObservationView,
    StatisticsProfile, StatisticsProfileView, TableStatistics, TableStatisticsView,
};
use crate::name_map::NameMap;
use crate::text::text_at_most;

verus! {

/// The sum of two counts, as far as it can be represented.
pub open spec fn saturating_sum(left: u64, right: u64) -> u64 {
    if left + right <= u64::MAX {
        (left + right) as u64
    } else {
        u64::MAX
    }
}

/// What two counts of different rows say together.
pub open spec fn merged_additive(
    left: Option<StatisticValue<u64>>,
    right: Option<StatisticValue<u64>>,
) -> Option<StatisticValue<u64>> {
    match (left, right) {
        (Some(left), Some(right)) => Some(
            StatisticValue {
                value: saturating_sum(left.value, right.value),
                precision: left.precision.weaker_of(right.precision),
            },
        ),
        (Some(value), None) => Some(value),
        (None, right) => right,
    }
}

/// What two lower bounds of one number say together.
pub open spec fn merged_max(
    left: Option<StatisticValue<u64>>,
    right: Option<StatisticValue<u64>>,
) -> Option<StatisticValue<u64>> {
    match (left, right) {
        (Some(left), Some(right)) => Some(
            StatisticValue {
                value: if left.value <= right.value {
                    right.value
                } else {
                    left.value
                },
                precision: left.precision.weaker_of(right.precision),
            },
        ),
        (Some(value), None) => Some(value),
        (None, right) => right,
    }
}

/// The later of two moments, where there are two.
pub open spec fn latest(left: Option<Seq<char>>, right: Option<Seq<char>>) -> Option<Seq<char>> {
    match (left, right) {
        (Some(left), Some(right)) => Some(crate::text::text_max(left, right)),
        (Some(moment), None) => Some(moment),
        (None, right) => right,
    }
}

/// What is known of a column after another observation of it.
pub open spec fn merged_column(
    existing: ColumnStatisticsView,
    observed: ColumnStatisticsView,
) -> ColumnStatisticsView {
    ColumnStatisticsView {
        column_name: existing.column_name,
        sample_count: saturating_sum(existing.sample_count, observed.sample_count),
        null_count: merged_additive(existing.null_count, observed.null_count),
        approx_distinct_count: merged_max(
            existing.approx_distinct_count,
            observed.approx_distinct_count,
        ),
        observed_at: latest(existing.observed_at, observed.observed_at),
    }
}

/// What is known of a column after its first observation.
pub open spec fn first_column(
    column: ColumnStatisticsObservationView,
    observed_at: Seq<char>,
) -> ColumnStatisticsView {
    ColumnStatisticsView {
        column_name: column.column_name,
        sample_count: column.sample_count,
        null_count: column.null_count,
        approx_distinct_count: column.approx_distinct_count,
        observed_at: Some(observed_at),
    }
}

/// What is known of the columns of a table after one of them was observed.
pub open spec fn with_column(
    columns: Map<Seq<char>, ColumnStatisticsView>,
    column: ColumnStatisticsObservationView,
    observed_at: Seq<char>,
) -> Map<Seq<char>, ColumnStatisticsView> {
    let observed = first_column(column, observed_at);
    columns.insert(
        column.column_name,
        if columns.contains_key(column.column_name) {
            merged_column(columns[column.column_name], observed)
        } else {
            observed
        },
    )
}

/// What is known of the columns of a table after some of them were observed, one by one.
pub open spec fn with_columns(
    columns: Map<Seq<char>, ColumnStatisticsView>,
    observed: Seq<ColumnStatisticsObservationView>,
    observed_at: Seq<char>,
) -> Map<Seq<char>, ColumnStatisticsView>
    decreases observed.len(),
{
    if observed.len() == 0 {
        columns
    } else {
        with_column(
            with_columns(columns, observed.drop_last(), observed_at),
            observed.last(),
            observed_at,
        )
    }
}

/// What is known of the columns of a table that an observation can be merged with: nothing, where
/// the table has another signature or is not known.
pub open spec fn mergeable_columns(
    table: Option<TableStatisticsView>,
    observation: StatisticsObservationView,
) -> Map<Seq<char>, ColumnStatisticsView> {
    match table {
        Some(table) if table.schema_signature == observation.schema_signature => table.columns,
        _ => Map::empty(),
    }
}

/// What is known of a table after an observation of it.
pub open spec fn merged_table(
    table: Option<TableStatisticsView>,
    observation: StatisticsObservationView,
) -> TableStatisticsView {
    let columns = with_columns(
        mergeable_columns(table, observation),
        observation.columns,
        observation.observed_at,
    );
    match table {
        Some(table) if table.schema_signature == observation.schema_signature => {
            TableStatisticsView {
                source_version: observation.source_version,
                columns,
                ..table
            }
        },
        _ => TableStatisticsView {
            schema_name: observation.schema_name,
            table_name: observation.table_name,
            source_version: observation.source_version,
            schema_signature: observation.schema_signature,
            columns,
        },
    }
}

/// What a map holds under a name.
pub open spec fn entry_of<V>(map: Map<Seq<char>, V>, name: Seq<char>) -> Option<V> {
    if map.contains_key(name) {
        Some(map[name])
    } else {
        None
    }
}

/// What is known of a source after an observation of one of its tables.
pub open spec fn merged_source(
    source: Option<SourceStatisticsView>,
    observation: StatisticsObservationView,
) -> SourceStatisticsView {
    let (schema_name, tables) = match source {
        Some(source) => (source.schema_name, source.tables),
        None => (observation.schema_name, Map::empty()),
    };
    SourceStatisticsView {
        schema_name,
        source_version: observation.source_version,
        tables: tables.insert(
            observation.table_name,
            merged_table(entry_of(tables, observation.table_name), observation),
        ),
    }
}

/// A profile after an observation. One that does not speak of a whole table changes nothing.
pub open spec fn merged_profile(
    profile: StatisticsProfileView,
    observation: StatisticsObservationView,
) -> StatisticsProfileView {
    if observation.scope is TableGlobal {
        StatisticsProfileView {
            version: profile.version,
            sources: profile.sources.insert(
                observation.schema_name,
                merged_source(entry_of(profile.sources, observation.schema_name), observation),
            ),
        }
    } else {
        profile
    }
}

/// A profile after observations, one by one.
pub open spec fn merged_profiles(
    profile: StatisticsProfileView,
    observed: Seq<StatisticsObservationView>,
) -> StatisticsProfileView
    decreases observed.len(),
{
    if observed.len() == 0 {
        profile
    } else {
        merged_profile(merged_profiles(profile, observed.drop_last()), observed.last())
    }
}

/// Merges two counts of different rows.
pub fn merge_additive(
    left: Option<StatisticValue<u64>>,
    right: Option<StatisticValue<u64>>,
) -> (result: Option<StatisticValue<u64>>)
    ensures
        result == merged_additive(left, right),
{
    match (left, right) {
        (Some(left), Some(right)) => Some(
            StatisticValue {
                value: left.value.saturating_add(right.value),
                precision: left.precision.weaker(right.precision),
            },
        ),
        (Some(value), None) | (None, Some(value)) => Some(value),
        (None, None) => None,
    }
}

/// Merges two lower bounds of one number.
pub fn merge_max(
    left: Option<StatisticValue<u64>>,
    right: Option<StatisticValue<u64>>,
) -> (result: Option<StatisticValue<u64>>)
    ensures
        result == merged_max(left, right),
{
    match (left, right) {
        (Some(left), Some(right)) => Some(
            StatisticValue {
                value: if left.value <= right.value {
                    right.value
                } else {
                    left.value
                },
                precision: left.precision.weaker(right.precision),
            },
        ),
        (Some(value), None) | (None, Some(value)) => Some(value),
        (None, None) => None,
    }
}

/// The later of two moments, where there are two.
pub fn latest_observed_at(left: Option<String>, right: Option<String>) -> (result: Option<String>)
    ensures
        result.deep_view() == latest(left.deep_view(), right.deep_view()),
{
    match (left, right) {
        (Some(left), Some(right)) => if text_at_most(left.as_str(), right.as_str()) {
            Some(right)
        } else {
            Some(left)
        },
        (Some(value), None) | (None, Some(value)) => Some(value),
        (None, None) => None,
    }
}

/// Merges another observation of a column into what is known of it.
pub fn merge_column(existing: &mut ColumnStatistics, observed: &ColumnStatistics)
    ensures
        final(existing)@ == merged_column(old(existing)@, observed@),
{
    existing.sample_count = existing.sample_count.saturating_add(observed.sample_count);
    existing.null_count = merge_additive(existing.null_count, observed.null_count);
    existing.approx_distinct_count = merge_max(
        existing.approx_distinct_count,
        observed.approx_distinct_count,
    );
    existing.observed_at = latest_observed_at(
        existing.observed_at.clone(),
        observed.observed_at.clone(),
    );
}

/// Merges the columns of an observation into what is known of the columns of its table.
fn merge_columns(columns: &mut NameMap<ColumnStatistics>, observation: &StatisticsObservation)
    ensures
        final(columns)@ == with_columns(
            old(columns)@,
            observation@.columns,
            observation@.observed_at,
        ),
{
    let ghost all = observation@.columns;
    assert(all.take(0) =~= Seq::empty());
    for i in 0..observation.columns.len()
        invariant
            all == observation@.columns,
            columns@ == with_columns(old(columns)@, all.take(i as int), observation@.observed_at),
    {
        let column = &observation.columns[i];
        let observed = ColumnStatistics {
            column_name: column.column_name.clone(),
            sample_count: column.sample_count,
            null_count: column.null_count,
            approx_distinct_count: column.approx_distinct_count,
            observed_at: Some(observation.observed_at.clone()),
        };
        proof {
            assert(all.take(i + 1).drop_last() =~= all.take(i as int));
            assert(all.take(i + 1).last() == column@);
            assert(observed@ == first_column(column@, observation@.observed_at));
        }
        match columns.get_mut(column.column_name.as_str()) {
            Some(existing) => {
                merge_column(existing, &observed);
            },
            None => {
                columns.insert(column.column_name.clone(), observed);
            },
        }
    }
    assert(all.take(all.len() as int) =~= all);
}

/// Merges an observation into what is known of its table.
fn merge_table(tables: &mut NameMap<TableStatistics>, observation: &StatisticsObservation)
    ensures
        final(tables)@ == old(tables)@.insert(
            observation@.table_name,
            merged_table(entry_of(old(tables)@, observation@.table_name), observation@),
        ),
{
    let table_name = observation.table_name.as_str();
    let replace_table = match tables.get(table_name) {
        Some(table) => !table.schema_signature.same_as(&observation.schema_signature),
        None => true,
    };
    if replace_table {
        tables.insert(
            observation.table_name.clone(),
            TableStatistics {
                schema_name: observation.schema_name.clone(),
                table_name: observation.table_name.clone(),
                source_version: observation.source_version.clone(),
                schema_signature: observation.schema_signature.clone(),
                columns: NameMap::new(),
            },
        );
    }
    let ghost before = tables@;
    let table_stats = tables.get_mut(table_name).expect("table inserted above");
    table_stats.source_version = observation.source_version.clone();
    merge_columns(&mut table_stats.columns, observation);
    assert(table_stats@ == merged_table(
        entry_of(old(tables)@, observation@.table_name),
        observation@,
    ));
    assert(before.insert(observation@.table_name, table_stats@) =~= old(tables)@.insert(
        observation@.table_name,
        table_stats@,
    ));
}

/// Merges an observation into a profile. One that does not speak of a whole table changes nothing.
pub fn merge_observation(profile: &mut StatisticsProfile, observation: &StatisticsObservation)
    ensures
        final(profile)@ == merged_profile(old(profile)@, observation@),
{
    if !observation.scope.is_table_global() {
        return;
    }
    let schema_name = observation.schema_name.as_str();
    if !profile.sources.contains_key(schema_name) {
        profile.sources.insert(
            observation.schema_name.clone(),
            SourceStatistics {
                schema_name: observation.schema_name.clone(),
                source_version: observation.source_version.clone(),
                tables: NameMap::new(),
            },
        );
    }
    let ghost before = profile.sources@;
    let source_stats = profile.sources.get_mut(schema_name).expect("source inserted above");
    source_stats.source_version = observation.source_version.clone();
    merge_table(&mut source_stats.tables, observation);
    assert(before.insert(observation@.schema_name, source_stats@)
        =~= old(profile).sources@.insert(observation@.schema_name, source_stats@));
}

} // verus!
