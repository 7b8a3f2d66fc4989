//! What holds of merging, whatever is merged.

use vstd::prelude::*;

use crate::contracts::{
    ColumnStatisticsObservationView, ColumnStatisticsView, SourceStatisticsView,
    StatisticPrecision, StatisticValue, StatisticsObservationView, StatisticsProfileView,
    TableStatisticsView, PROFILE_VERSION,
};

verus! {

/// Of precisions the weakest remains, in whatever order and however often they are compared.
pub proof fn weaker_is_a_minimum(
    first: StatisticPrecision,
    second: StatisticPrecision,
    third: StatisticPrecision,
)
    ensures
        first.weaker_of(first) == first,
        first.weaker_of(second) == second.weaker_of(first),
        first.weaker_of(second).weaker_of(third) == first.weaker_of(second.weaker_of(third)),
        first.weaker_of(second).strength() <= first.strength(),
        first.weaker_of(second).strength() <= second.strength(),
{
}

/// Counts can be merged in any order and grouping, and a missing count changes nothing.
pub proof fn additive_merge_is_order_free(
    first: Option<StatisticValue<u64>>,
    second: Option<StatisticValue<u64>>,
    third: Option<StatisticValue<u64>>,
)
    ensures
        crate::merge::merged_additive(first, None) == first,
        crate::merge::merged_additive(first, second) == crate::merge::merged_additive(
            second,
            first,
        ),
        crate::merge::merged_additive(crate::merge::merged_additive(first, second), third)
            == crate::merge::merged_additive(
            first,
            crate::merge::merged_additive(second, third),
        ),
{
}

/// Lower bounds can be merged in any order and grouping and any number of times, and a missing bound
/// changes nothing.
pub proof fn max_merge_is_order_free(
    first: Option<StatisticValue<u64>>,
    second: Option<StatisticValue<u64>>,
    third: Option<StatisticValue<u64>>,
)
    ensures
        crate::merge::merged_max(first, None) == first,
        crate::merge::merged_max(first, first) == first,
        crate::merge::merged_max(first, second) == crate::merge::merged_max(second, first),
        crate::merge::merged_max(crate::merge::merged_max(first, second), third)
            == crate::merge::merged_max(first, crate::merge::merged_max(second, third)),
{
}

/// The latest moment is the same in any order and grouping and any number of times, and a missing
/// moment changes nothing.
pub proof fn latest_is_order_free(
    first: Option<Seq<char>>,
    second: Option<Seq<char>>,
    third: Option<Seq<char>>,
)
    ensures
        crate::merge::latest(first, None) == first,
        crate::merge::latest(first, first) == first,
        crate::merge::latest(first, second) == crate::merge::latest(second, first),
        crate::merge::latest(crate::merge::latest(first, second), third) == crate::merge::latest(
            first,
            crate::merge::latest(second, third),
        ),
{
    if let (Some(a), Some(b)) = (first, second) {
        crate::text::text_le_total(a, b);
        if crate::text::text_le(a, b) && crate::text::text_le(b, a) {
            crate::text::text_le_antisymmetric(a, b);
        }
        if let Some(c) = third {
            crate::text::text_le_total(b, c);
            crate::text::text_le_total(a, c);
            if crate::text::text_le(a, b) && crate::text::text_le(b, c) {
                crate::text::text_le_transitive(a, b, c);
            }
            if !crate::text::text_le(a, b) && !crate::text::text_le(b, c)
                && crate::text::text_le(a, c) {
                crate::text::text_le_transitive(a, c, b);
            }
        }
    }
}

/// Observations of one column can be merged in any order and grouping.
pub proof fn column_merge_is_order_free(
    first: ColumnStatisticsView,
    second: ColumnStatisticsView,
    third: ColumnStatisticsView,
)
    ensures
        first.column_name == second.column_name ==> crate::merge::merged_column(first, second)
            == crate::merge::merged_column(second, first),
        crate::merge::merged_column(crate::merge::merged_column(first, second), third)
            == crate::merge::merged_column(first, crate::merge::merged_column(second, third)),
        crate::merge::merged_column(crate::merge::merged_column(first, second), third)
            == crate::merge::merged_column(crate::merge::merged_column(first, third), second),
{
    additive_merge_is_order_free(first.null_count, second.null_count, third.null_count);
    additive_merge_is_order_free(first.null_count, third.null_count, second.null_count);
    additive_merge_is_order_free(second.null_count, third.null_count, first.null_count);
    max_merge_is_order_free(
        first.approx_distinct_count,
        second.approx_distinct_count,
        third.approx_distinct_count,
    );
    max_merge_is_order_free(
        first.approx_distinct_count,
        third.approx_distinct_count,
        second.approx_distinct_count,
    );
    max_merge_is_order_free(
        second.approx_distinct_count,
        third.approx_distinct_count,
        first.approx_distinct_count,
    );
    latest_is_order_free(first.observed_at, second.observed_at, third.observed_at);
    latest_is_order_free(first.observed_at, third.observed_at, second.observed_at);
    latest_is_order_free(second.observed_at, third.observed_at, first.observed_at);
}

/// What is known of a column only grows: samples, nulls and the bound on distinct values do not
/// shrink, the moment does not go back, and no statistic is lost.
pub proof fn column_merge_only_grows(existing: ColumnStatisticsView, observed: ColumnStatisticsView)
    ensures
        ({
            let merged = crate::merge::merged_column(existing, observed);
            &&& merged.column_name == existing.column_name
            &&& existing.sample_count <= merged.sample_count
            &&& existing.null_count is Some ==> merged.null_count is Some
                && existing.null_count->0.value <= merged.null_count->0.value
            &&& existing.approx_distinct_count is Some ==> merged.approx_distinct_count is Some
                && existing.approx_distinct_count->0.value <= merged.approx_distinct_count->0.value
            &&& existing.observed_at is Some ==> merged.observed_at is Some
                && crate::text::text_le(existing.observed_at->0, merged.observed_at->0)
        }),
{
    if let Some(moment) = existing.observed_at {
        crate::text::text_le_reflexive(moment);
    }
}

/// Two columns of observations can be merged in any order.
proof fn lemma_column_then_column(
    columns: Map<Seq<char>, ColumnStatisticsView>,
    first: ColumnStatisticsObservationView,
    first_at: Seq<char>,
    second: ColumnStatisticsObservationView,
    second_at: Seq<char>,
)
    ensures
        crate::merge::with_column(
            crate::merge::with_column(columns, first, first_at),
            second,
            second_at,
        ) == crate::merge::with_column(
            crate::merge::with_column(columns, second, second_at),
            first,
            first_at,
        ),
{
    let a = crate::merge::first_column(first, first_at);
    let b = crate::merge::first_column(second, second_at);
    if first.column_name == second.column_name {
        if columns.contains_key(first.column_name) {
            column_merge_is_order_free(columns[first.column_name], a, b);
        } else {
            column_merge_is_order_free(a, b, b);
        }
    }
    assert(crate::merge::with_column(
        crate::merge::with_column(columns, first, first_at),
        second,
        second_at,
    ) =~= crate::merge::with_column(
        crate::merge::with_column(columns, second, second_at),
        first,
        first_at,
    ));
}

/// A column and columns of observations can be merged in any order.
proof fn lemma_columns_then_column(
    columns: Map<Seq<char>, ColumnStatisticsView>,
    first: Seq<ColumnStatisticsObservationView>,
    first_at: Seq<char>,
    second: ColumnStatisticsObservationView,
    second_at: Seq<char>,
)
    ensures
        crate::merge::with_column(
            crate::merge::with_columns(columns, first, first_at),
            second,
            second_at,
        ) == crate::merge::with_columns(
            crate::merge::with_column(columns, second, second_at),
            first,
            first_at,
        ),
    decreases first.len(),
{
    if first.len() > 0 {
        lemma_columns_then_column(columns, first.drop_last(), first_at, second, second_at);
        lemma_column_then_column(
            crate::merge::with_columns(columns, first.drop_last(), first_at),
            first.last(),
            first_at,
            second,
            second_at,
        );
    }
}

/// The columns of two observations can be merged in any order.
pub proof fn columns_merge_in_any_order(
    columns: Map<Seq<char>, ColumnStatisticsView>,
    first: Seq<ColumnStatisticsObservationView>,
    first_at: Seq<char>,
    second: Seq<ColumnStatisticsObservationView>,
    second_at: Seq<char>,
)
    ensures
        crate::merge::with_columns(
            crate::merge::with_columns(columns, first, first_at),
            second,
            second_at,
        ) == crate::merge::with_columns(
            crate::merge::with_columns(columns, second, second_at),
            first,
            first_at,
        ),
    decreases second.len(),
{
    if second.len() > 0 {
        columns_merge_in_any_order(columns, first, first_at, second.drop_last(), second_at);
        lemma_columns_then_column(
            crate::merge::with_columns(columns, second.drop_last(), second_at),
            first,
            first_at,
            second.last(),
            second_at,
        );
    }
}

/// Two observations agree where both speak of one source or of one table.
pub open spec fn agree(
    first: StatisticsObservationView,
    second: StatisticsObservationView,
) -> bool {
    first.schema_name == second.schema_name ==> {
        &&& first.source_version == second.source_version
        &&& first.table_name == second.table_name ==> first.schema_signature
            == second.schema_signature
    }
}

/// Observations that agree can be merged into a profile in any order.
pub proof fn agreeing_observations_merge_in_any_order(
    profile: StatisticsProfileView,
    first: StatisticsObservationView,
    second: StatisticsObservationView,
)
    requires
        agree(first, second),
    ensures
        crate::merge::merged_profile(crate::merge::merged_profile(profile, first), second)
            == crate::merge::merged_profile(crate::merge::merged_profile(profile, second), first),
{
    let one = crate::merge::merged_profile(crate::merge::merged_profile(profile, first), second);
    let other = crate::merge::merged_profile(crate::merge::merged_profile(profile, second), first);
    if first.scope is TableGlobal && second.scope is TableGlobal && first.schema_name
        == second.schema_name {
        let name = first.schema_name;
        let known = crate::merge::entry_of(profile.sources, name);
        let tables = match known {
            Some(source) => source.tables,
            None => Map::empty(),
        };
        if first.table_name == second.table_name {
            let table = crate::merge::entry_of(tables, first.table_name);
            columns_merge_in_any_order(
                crate::merge::mergeable_columns(table, first),
                first.columns,
                first.observed_at,
                second.columns,
                second.observed_at,
            );
        }
        assert(one.sources[name].tables =~= other.sources[name].tables);
    }
    assert(one.sources =~= other.sources);
}

/// An observation that does not speak of a whole table changes nothing.
pub proof fn filtered_observations_change_nothing(
    profile: StatisticsProfileView,
    observation: StatisticsObservationView,
)
    requires
        !(observation.scope is TableGlobal),
    ensures
        crate::merge::merged_profile(profile, observation) == profile,
{
}

/// Observations none of which speaks of a whole table change nothing.
pub proof fn filtered_runs_change_nothing(
    profile: StatisticsProfileView,
    observed: Seq<StatisticsObservationView>,
)
    requires
        !crate::store::has_table_global(observed),
    ensures
        crate::merge::merged_profiles(profile, observed) == profile,
    decreases observed.len(),
{
    if observed.len() > 0 {
        assert(!(observed[observed.len() - 1].scope is TableGlobal));
        assert forall|i: int| 0 <= i < observed.drop_last().len() implies !((
        #[trigger] observed.drop_last()[i]).scope is TableGlobal) by {
            assert(!(observed[i].scope is TableGlobal));
        }
        filtered_runs_change_nothing(profile, observed.drop_last());
    }
}

/// The observations that speak of a whole table.
pub open spec fn of_whole_tables(
    observed: Seq<StatisticsObservationView>,
) -> Seq<StatisticsObservationView> {
    observed.filter(|observation: StatisticsObservationView| observation.scope is TableGlobal)
}

/// Observations that do not speak of a whole table have no effect among others: neither on whether a
/// profile changes nor on what it becomes.
pub proof fn filtered_observations_among_others_change_nothing(
    profile: StatisticsProfileView,
    observed: Seq<StatisticsObservationView>,
)
    ensures
        crate::merge::merged_profiles(profile, observed) == crate::merge::merged_profiles(
            profile,
            of_whole_tables(observed),
        ),
        crate::store::has_table_global(observed) == crate::store::has_table_global(
            of_whole_tables(observed),
        ),
        crate::store::has_table_global(observed) == (of_whole_tables(observed).len() > 0),
    decreases observed.len(),
{
    reveal(Seq::filter);
    if observed.len() > 0 {
        let before = observed.drop_last();
        let whole = of_whole_tables(before);
        filtered_observations_among_others_change_nothing(profile, before);
        if crate::store::has_table_global(before) {
            let i = choose|i: int|
                0 <= i < before.len() && (#[trigger] before[i]).scope is TableGlobal;
            assert(observed[i].scope is TableGlobal);
        }
        if observed.last().scope is TableGlobal {
            assert(of_whole_tables(observed) =~= whole.push(observed.last()));
            assert(whole.push(observed.last()).drop_last() =~= whole);
            assert(observed[observed.len() - 1].scope is TableGlobal);
            assert(of_whole_tables(observed)[whole.len() as int].scope is TableGlobal);
        } else {
            assert(of_whole_tables(observed) =~= whole);
            if crate::store::has_table_global(observed) {
                let i = choose|i: int|
                    0 <= i < observed.len() && (#[trigger] observed[i]).scope is TableGlobal;
                assert(before[i].scope is TableGlobal);
            }
        }
    }
}

/// Observations can be merged in portions.
pub proof fn merging_in_portions(
    profile: StatisticsProfileView,
    first: Seq<StatisticsObservationView>,
    second: Seq<StatisticsObservationView>,
)
    ensures
        crate::merge::merged_profiles(profile, first + second) == crate::merge::merged_profiles(
            crate::merge::merged_profiles(profile, first),
            second,
        ),
    decreases second.len(),
{
    if second.len() == 0 {
        assert(first + second =~= first);
    } else {
        merging_in_portions(profile, first, second.drop_last());
        assert((first + second).drop_last() =~= first + second.drop_last());
    }
}

/// Merging leaves the version of a profile, the other sources, and the other tables of the source
/// as they were.
pub proof fn merging_touches_one_table(
    profile: StatisticsProfileView,
    observation: StatisticsObservationView,
    schema_name: Seq<char>,
    table_name: Seq<char>,
)
    requires
        schema_name != observation.schema_name || table_name != observation.table_name,
    ensures
        ({
            let merged = crate::merge::merged_profile(profile, observation);
            &&& merged.version == profile.version
            &&& schema_name != observation.schema_name ==> crate::merge::entry_of(
                merged.sources,
                schema_name,
            ) == crate::merge::entry_of(profile.sources, schema_name)
            &&& profile.sources.contains_key(schema_name) ==> {
                &&& merged.sources.contains_key(schema_name)
                &&& merged.sources[schema_name].schema_name
                    == profile.sources[schema_name].schema_name
                &&& crate::merge::entry_of(merged.sources[schema_name].tables, table_name)
                    == crate::merge::entry_of(profile.sources[schema_name].tables, table_name)
            }
        }),
{
}

/// After an observation of a whole table the profile holds the table with the observed signature
/// and version.
pub proof fn merging_records_the_table(
    profile: StatisticsProfileView,
    observation: StatisticsObservationView,
)
    requires
        observation.scope is TableGlobal,
    ensures
        ({
            let merged = crate::merge::merged_profile(profile, observation);
            &&& merged.sources.contains_key(observation.schema_name)
            &&& merged.sources[observation.schema_name].source_version
                == observation.source_version
            &&& merged.sources[observation.schema_name].tables.contains_key(
                observation.table_name,
            )
            &&& merged.sources[observation.schema_name].tables[observation.table_name].schema_signature
                == observation.schema_signature
            &&& merged.sources[observation.schema_name].tables[observation.table_name].source_version
                == observation.source_version
        }),
{
}

/// Where the signature of a table changes, nothing that was known of the table remains.
pub proof fn another_signature_replaces_the_table(
    table: TableStatisticsView,
    observation: StatisticsObservationView,
)
    requires
        table.schema_signature != observation.schema_signature,
    ensures
        crate::merge::merged_table(Some(table), observation) == crate::merge::merged_table(
            None,
            observation,
        ),
{
}

/// The names of observed columns are all different.
pub open spec fn names_differ(observed: Seq<ColumnStatisticsObservationView>) -> bool {
    forall|i: int, j: int|
        0 <= i < j < observed.len() ==> (#[trigger] observed[i]).column_name != (
        #[trigger] observed[j]).column_name
}

/// A column that was not observed stays as it was.
pub proof fn unobserved_columns_stay(
    columns: Map<Seq<char>, ColumnStatisticsView>,
    observed: Seq<ColumnStatisticsObservationView>,
    observed_at: Seq<char>,
    name: Seq<char>,
)
    requires
        forall|i: int| 0 <= i < observed.len() ==> (#[trigger] observed[i]).column_name != name,
    ensures
        crate::merge::entry_of(
            crate::merge::with_columns(columns, observed, observed_at),
            name,
        ) == crate::merge::entry_of(columns, name),
    decreases observed.len(),
{
    if observed.len() > 0 {
        assert(observed[observed.len() - 1].column_name != name);
        assert forall|i: int| 0 <= i < observed.drop_last().len() implies (
        #[trigger] observed.drop_last()[i]).column_name != name by {
            assert(observed[i].column_name != name);
        }
        unobserved_columns_stay(columns, observed.drop_last(), observed_at, name);
    }
}

/// A column that was observed once is merged once with what was known of it.
pub proof fn observed_columns_merge_once(
    columns: Map<Seq<char>, ColumnStatisticsView>,
    observed: Seq<ColumnStatisticsObservationView>,
    observed_at: Seq<char>,
    place: int,
)
    requires
        names_differ(observed),
        0 <= place < observed.len(),
    ensures
        crate::merge::entry_of(
            crate::merge::with_columns(columns, observed, observed_at),
            observed[place].column_name,
        ) == Some(
            match crate::merge::entry_of(columns, observed[place].column_name) {
                Some(existing) => crate::merge::merged_column(
                    existing,
                    crate::merge::first_column(observed[place], observed_at),
                ),
                None => crate::merge::first_column(observed[place], observed_at),
            },
        ),
    decreases observed.len(),
{
    let before = observed.drop_last();
    let name = observed[place].column_name;
    assert(names_differ(before)) by {
        assert forall|i: int, j: int| 0 <= i < j < before.len() implies (
        #[trigger] before[i]).column_name != (#[trigger] before[j]).column_name by {
            assert(observed[i].column_name != observed[j].column_name);
        }
    }
    if place == observed.len() - 1 {
        assert forall|i: int| 0 <= i < before.len() implies (#[trigger] before[i]).column_name
            != name by {
            assert(observed[i].column_name != observed[place].column_name);
        }
        unobserved_columns_stay(columns, before, observed_at, name);
    } else {
        assert(observed[place].column_name != observed[observed.len() - 1].column_name);
        assert(before[place] == observed[place]);
        observed_columns_merge_once(columns, before, observed_at, place);
    }
}

/// Every part of a profile stands under its own name.
pub open spec fn keyed_by_name(profile: StatisticsProfileView) -> bool {
    forall|schema_name: Seq<char>| #[trigger]
        profile.sources.contains_key(schema_name) ==> source_keyed_by_name(
            profile.sources[schema_name],
            schema_name,
        )
}

/// A source has its name, and every part of it stands under its own.
pub open spec fn source_keyed_by_name(source: SourceStatisticsView, name: Seq<char>) -> bool {
    &&& source.schema_name == name
    &&& forall|table_name: Seq<char>| #[trigger]
        source.tables.contains_key(table_name) ==> table_keyed_by_name(
            source.tables[table_name],
            name,
            table_name,
        )
}

/// A table has its names, and every column of it stands under its own.
pub open spec fn table_keyed_by_name(
    table: TableStatisticsView,
    schema_name: Seq<char>,
    table_name: Seq<char>,
) -> bool {
    &&& table.schema_name == schema_name
    &&& table.table_name == table_name
    &&& columns_keyed_by_name(table.columns)
}

/// Every column stands under its own name.
pub open spec fn columns_keyed_by_name(columns: Map<Seq<char>, ColumnStatisticsView>) -> bool {
    forall|name: Seq<char>| #[trigger]
        columns.contains_key(name) ==> columns[name].column_name == name
}

/// Merged columns stand under their own names.
proof fn lemma_columns_keep_names(
    columns: Map<Seq<char>, ColumnStatisticsView>,
    observed: Seq<ColumnStatisticsObservationView>,
    observed_at: Seq<char>,
)
    requires
        columns_keyed_by_name(columns),
    ensures
        columns_keyed_by_name(crate::merge::with_columns(columns, observed, observed_at)),
    decreases observed.len(),
{
    if observed.len() > 0 {
        lemma_columns_keep_names(columns, observed.drop_last(), observed_at);
    }
}

/// An empty profile has no part under a wrong name, and merging puts none there.
pub proof fn merging_keeps_names(
    profile: StatisticsProfileView,
    observation: StatisticsObservationView,
)
    requires
        keyed_by_name(profile),
    ensures
        keyed_by_name(crate::contracts::empty_profile()),
        keyed_by_name(crate::merge::merged_profile(profile, observation)),
{
    if observation.scope is TableGlobal {
        let name = observation.schema_name;
        let known = crate::merge::entry_of(profile.sources, name);
        let tables = match known {
            Some(source) => source.tables,
            None => Map::empty(),
        };
        let table = crate::merge::entry_of(tables, observation.table_name);
        if known is Some {
            assert(source_keyed_by_name(profile.sources[name], name));
        }
        assert(table is Some ==> table_keyed_by_name(table->0, name, observation.table_name));
        assert(columns_keyed_by_name(crate::merge::mergeable_columns(table, observation)));
        lemma_columns_keep_names(
            crate::merge::mergeable_columns(table, observation),
            observation.columns,
            observation.observed_at,
        );
        assert(source_keyed_by_name(crate::merge::merged_source(known, observation), name));
    }
}

/// However many observations are merged, every part of a profile stands under its own name.
pub proof fn runs_keep_names(
    profile: StatisticsProfileView,
    observed: Seq<StatisticsObservationView>,
)
    requires
        keyed_by_name(profile),
    ensures
        keyed_by_name(crate::merge::merged_profiles(profile, observed)),
    decreases observed.len(),
{
    if observed.len() > 0 {
        runs_keep_names(profile, observed.drop_last());
        merging_keeps_names(
            crate::merge::merged_profiles(profile, observed.drop_last()),
            observed.last(),
        );
    }
}

/// The version of a profile survives merging.
proof fn lemma_version_stays(
    profile: StatisticsProfileView,
    observed: Seq<StatisticsObservationView>,
)
    ensures
        crate::merge::merged_profiles(profile, observed).version == profile.version,
    decreases observed.len(),
{
    if observed.len() > 0 {
        lemma_version_stays(profile, observed.drop_last());
    }
}

/// What merging gives to be kept is read back as it is, and so is what was read back before.
pub proof fn kept_profiles_are_read_back(
    stored: Option<StatisticsProfileView>,
    observed: Seq<StatisticsObservationView>,
)
    ensures
        ({
            let merged = crate::merge::merged_profiles(crate::store::loaded(stored), observed);
            crate::store::loaded(Some(merged)) == merged
        }),
        crate::store::loaded(Some(crate::store::loaded(stored))) == crate::store::loaded(stored),
{
    lemma_version_stays(crate::store::loaded(stored), observed);
}

/// Keeping a profile between two runs and reading it back gives what one run gives.
pub proof fn keeping_between_runs_changes_nothing(
    stored: Option<StatisticsProfileView>,
    first: Seq<StatisticsObservationView>,
    second: Seq<StatisticsObservationView>,
)
    ensures
        ({
            let kept = crate::merge::merged_profiles(crate::store::loaded(stored), first);
            crate::merge::merged_profiles(crate::store::loaded(Some(kept)), second)
                == crate::merge::merged_profiles(crate::store::loaded(stored), first + second)
        }),
{
    kept_profiles_are_read_back(stored, first);
    merging_in_portions(crate::store::loaded(stored), first, second);
}

/// A profile of another version is read back as one of which nothing was observed, as is none at
/// all.
pub proof fn other_versions_count_for_nothing(profile: StatisticsProfileView)
    requires
        profile.version != PROFILE_VERSION,
    ensures
        crate::store::loaded(Some(profile)) == crate::contracts::empty_profile(),
        crate::store::loaded(None) == crate::contracts::empty_profile(),
{
}

} // verus!
