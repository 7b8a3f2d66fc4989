//! What merging makes of a profile, entry by entry and over runs.

use vstd::prelude::*;

use crate::contracts::{
    ColumnStatisticsObservationView, ColumnStatisticsView, StatisticPrecision, StatisticValue,
    StatisticsObservationView, StatisticsProfileView, TableStatisticsView,
};

verus! {

/// Of two precisions the result is exact where both are, and nowhere else.
pub proof fn only_two_exact_precisions_are_exact(
    first: StatisticPrecision,
    second: StatisticPrecision,
)
    ensures
        first.weaker_of(second) == StatisticPrecision::Exact <==> first == StatisticPrecision::Exact
            && second == StatisticPrecision::Exact,
        StatisticPrecision::Exact.strength() > StatisticPrecision::ObservedSample.strength(),
{
}

/// Two counts make their sum, as far as it can be represented, and it is exact where both are. One
/// count stays as it is.
pub open spec fn counted_together(
    first: Option<StatisticValue<u64>>,
    second: Option<StatisticValue<u64>>,
    both: Option<StatisticValue<u64>>,
) -> bool {
    match (first, second) {
        (Some(first), Some(second)) => {
            &&& both is Some
            &&& first.value + second.value <= u64::MAX ==> both->0.value == first.value
                + second.value
            &&& first.value + second.value > u64::MAX ==> both->0.value == u64::MAX
            &&& both->0.precision == StatisticPrecision::Exact <==> first.precision
                == StatisticPrecision::Exact && second.precision == StatisticPrecision::Exact
        },
        (Some(_), None) => both == first,
        (None, _) => both == second,
    }
}

/// Two lower bounds make the larger of them, and it is exact where both are. One bound stays as it
/// is.
pub open spec fn bounded_together(
    first: Option<StatisticValue<u64>>,
    second: Option<StatisticValue<u64>>,
    both: Option<StatisticValue<u64>>,
) -> bool {
    match (first, second) {
        (Some(first), Some(second)) => {
            &&& both is Some
            &&& both->0.value >= first.value && both->0.value >= second.value
            &&& both->0.value == first.value || both->0.value == second.value
            &&& both->0.precision == StatisticPrecision::Exact <==> first.precision
                == StatisticPrecision::Exact && second.precision == StatisticPrecision::Exact
        },
        (Some(_), None) => both == first,
        (None, _) => both == second,
    }
}

/// Two moments make the one that the other does not come after. One moment stays as it is.
pub open spec fn dated_together(
    first: Option<Seq<char>>,
    second: Option<Seq<char>>,
    both: Option<Seq<char>>,
) -> bool {
    match (first, second) {
        (Some(first), Some(second)) => {
            &&& both is Some
            &&& both->0 == first || both->0 == second
            &&& crate::text::text_le(first, both->0)
            &&& crate::text::text_le(second, both->0)
        },
        (Some(_), None) => both == first,
        (None, _) => both == second,
    }
}

/// What merging two counts, two bounds or two moments gives, and that nothing else is meant by it.
pub proof fn statistics_are_merged_by_their_meaning(
    first: Option<StatisticValue<u64>>,
    second: Option<StatisticValue<u64>>,
    both: Option<StatisticValue<u64>>,
    early: Option<Seq<char>>,
    late: Option<Seq<char>>,
    moment: Option<Seq<char>>,
)
    ensures
        counted_together(first, second, both) <==> both == crate::merge::merged_additive(
            first,
            second,
        ),
        bounded_together(first, second, both) <==> both == crate::merge::merged_max(first, second),
        dated_together(early, late, moment) <==> moment == crate::merge::latest(early, late),
{
    if let (Some(a), Some(b)) = (early, late) {
        crate::text::text_le_reflexive(a);
        crate::text::text_le_reflexive(b);
        crate::text::text_le_total(a, b);
        if crate::text::text_le(a, b) && crate::text::text_le(b, a) {
            crate::text::text_le_antisymmetric(a, b);
        }
    }
}

/// What is known of a column before and after it was seen in an observation.
pub open spec fn seen_once_more(
    before: Option<ColumnStatisticsView>,
    seen: ColumnStatisticsObservationView,
    observed_at: Seq<char>,
    after: Option<ColumnStatisticsView>,
) -> bool {
    match (before, after) {
        (Some(before), Some(after)) => {
            &&& after.column_name == before.column_name
            &&& before.sample_count + seen.sample_count <= u64::MAX ==> after.sample_count
                == before.sample_count + seen.sample_count
            &&& before.sample_count + seen.sample_count > u64::MAX ==> after.sample_count
                == u64::MAX
            &&& counted_together(before.null_count, seen.null_count, after.null_count)
            &&& bounded_together(
                before.approx_distinct_count,
                seen.approx_distinct_count,
                after.approx_distinct_count,
            )
            &&& dated_together(before.observed_at, Some(observed_at), after.observed_at)
        },
        (None, Some(after)) => {
            &&& after.column_name == seen.column_name
            &&& after.sample_count == seen.sample_count
            &&& after.null_count == seen.null_count
            &&& after.approx_distinct_count == seen.approx_distinct_count
            &&& after.observed_at == Some(observed_at)
        },
        (_, None) => false,
    }
}

/// Merging what was seen of a column into what is known of it is what `seen_once_more` says.
proof fn lemma_seen_once_more(
    columns: Map<Seq<char>, ColumnStatisticsView>,
    seen: ColumnStatisticsObservationView,
    observed_at: Seq<char>,
    after: Option<ColumnStatisticsView>,
)
    ensures
        ({
            let name = seen.column_name;
            let before = if columns.contains_key(name) {
                Some(columns[name])
            } else {
                None
            };
            let merged = crate::merge::with_column(columns, seen, observed_at);
            &&& merged.contains_key(name)
            &&& seen_once_more(before, seen, observed_at, after) <==> after == Some(merged[name])
            &&& forall|other: Seq<char>|
                other != name ==> (#[trigger] merged.contains_key(other) == columns.contains_key(
                    other,
                ) && (columns.contains_key(other) ==> merged[other] == columns[other]))
        }),
{
    let name = seen.column_name;
    if columns.contains_key(name) && after is Some {
        let before = columns[name];
        statistics_are_merged_by_their_meaning(
            before.null_count,
            seen.null_count,
            after->0.null_count,
            before.observed_at,
            Some(observed_at),
            after->0.observed_at,
        );
        statistics_are_merged_by_their_meaning(
            before.approx_distinct_count,
            seen.approx_distinct_count,
            after->0.approx_distinct_count,
            before.observed_at,
            Some(observed_at),
            after->0.observed_at,
        );
    }
}

/// How what is known under a name develops over the columns of an observation: where a column has the
/// name, it is seen once more; where it has another, nothing changes.
pub open spec fn develops(
    history: Seq<Option<ColumnStatisticsView>>,
    seen: Seq<ColumnStatisticsObservationView>,
    observed_at: Seq<char>,
    name: Seq<char>,
) -> bool {
    &&& history.len() == seen.len() + 1
    &&& forall|k: int|
        0 <= k < seen.len() ==> if (#[trigger] seen[k]).column_name == name {
            seen_once_more(history[k], seen[k], observed_at, history[k + 1])
        } else {
            history[k + 1] == history[k]
        }
}

/// What columns hold under a name at the end is the end of its history.
proof fn lemma_history_ends(
    columns: Map<Seq<char>, ColumnStatisticsView>,
    seen: Seq<ColumnStatisticsObservationView>,
    observed_at: Seq<char>,
    name: Seq<char>,
    history: Seq<Option<ColumnStatisticsView>>,
)
    requires
        develops(history, seen, observed_at, name),
        history[0] == if columns.contains_key(name) {
            Some(columns[name])
        } else {
            None
        },
    ensures
        ({
            let merged = crate::merge::with_columns(columns, seen, observed_at);
            history.last() == if merged.contains_key(name) {
                Some(merged[name])
            } else {
                None
            }
        }),
    decreases seen.len(),
{
    if seen.len() > 0 {
        let before = seen.drop_last();
        let shorter = history.drop_last();
        assert forall|k: int| 0 <= k < before.len() implies if (#[trigger] before[k]).column_name
            == name {
            seen_once_more(shorter[k], before[k], observed_at, shorter[k + 1])
        } else {
            shorter[k + 1] == shorter[k]
        } by {
            assert(seen[k] == before[k]);
        }
        lemma_history_ends(columns, before, observed_at, name, shorter);
        let last = seen.len() - 1;
        assert(seen[last] == seen.last());
        lemma_seen_once_more(
            crate::merge::with_columns(columns, before, observed_at),
            seen.last(),
            observed_at,
            history.last(),
        );
    }
}

/// What a profile knows of a table, and can go on with: the table with the observed signature,
/// whatever its version.
pub open spec fn knows_table(
    profile: StatisticsProfileView,
    observation: StatisticsObservationView,
) -> bool {
    &&& profile.sources.contains_key(observation.schema_name)
    &&& profile.sources[observation.schema_name].tables.contains_key(observation.table_name)
    &&& profile.sources[observation.schema_name].tables[observation.table_name].schema_signature
        == observation.schema_signature
}

/// The table that a profile holds under the names of an observation.
pub open spec fn table_in(
    profile: StatisticsProfileView,
    observation: StatisticsObservationView,
) -> TableStatisticsView {
    profile.sources[observation.schema_name].tables[observation.table_name]
}

/// Under every name, what the profile holds of the observed table is what develops from what it knew
/// of the table, one observed column after the other. It knew of it where it held the table with the
/// observed signature, and only there.
pub proof fn columns_develop_from_what_was_known(
    profile: StatisticsProfileView,
    observation: StatisticsObservationView,
    name: Seq<char>,
    history: Seq<Option<ColumnStatisticsView>>,
)
    requires
        observation.scope is TableGlobal,
        develops(history, observation.columns, observation.observed_at, name),
        history[0] == if knows_table(profile, observation) && table_in(
            profile,
            observation,
        ).columns.contains_key(name) {
            Some(table_in(profile, observation).columns[name])
        } else {
            None
        },
    ensures
        ({
            let columns = table_in(
                crate::merge::merged_profile(profile, observation),
                observation,
            ).columns;
            history.last() == if columns.contains_key(name) {
                Some(columns[name])
            } else {
                None
            }
        }),
{
    let known = if knows_table(profile, observation) {
        table_in(profile, observation).columns
    } else {
        Map::empty()
    };
    lemma_history_ends(known, observation.columns, observation.observed_at, name, history);
}

/// Where the profile holds the table with the observed signature, whatever the versions are, every
/// column that was known remains. One that is not observed stays as it was. One that is observed once
/// is seen once more, so that its samples are those known and those observed.
pub proof fn known_columns_remain(
    profile: StatisticsProfileView,
    observation: StatisticsObservationView,
    name: Seq<char>,
)
    requires
        observation.scope is TableGlobal,
        knows_table(profile, observation),
        table_in(profile, observation).columns.contains_key(name),
    ensures
        ({
            let known = table_in(profile, observation).columns[name];
            let merged = table_in(
                crate::merge::merged_profile(profile, observation),
                observation,
            ).columns;
            &&& merged.contains_key(name)
            &&& known.sample_count <= merged[name].sample_count
            &&& (forall|i: int|
                0 <= i < observation.columns.len() ==> (
                #[trigger] observation.columns[i]).column_name != name) ==> merged[name] == known
            &&& forall|place: int|
                0 <= place < observation.columns.len() && (
                #[trigger] observation.columns[place]).column_name == name && (forall|i: int|
                    0 <= i < observation.columns.len() && i != place ==> (
                    #[trigger] observation.columns[i]).column_name != name) ==> seen_once_more(
                    Some(known),
                    observation.columns[place],
                    observation.observed_at,
                    Some(merged[name]),
                )
        }),
{
    let columns = table_in(profile, observation).columns;
    let known = columns[name];
    let seen = observation.columns;
    let at = observation.observed_at;
    lemma_samples_do_not_shrink(columns, seen, at, name);
    if forall|i: int| 0 <= i < seen.len() ==> (#[trigger] seen[i]).column_name != name {
        let history = Seq::new((seen.len() + 1) as nat, |k: int| Some(known));
        lemma_history_ends(columns, seen, at, name, history);
    }
    assert forall|place: int|
        0 <= place < seen.len() && (#[trigger] seen[place]).column_name == name && (forall|i: int|
            0 <= i < seen.len() && i != place ==> (#[trigger] seen[i]).column_name
                != name) implies seen_once_more(
        Some(known),
        seen[place],
        at,
        Some(table_in(crate::merge::merged_profile(profile, observation), observation).columns[name]),
    ) by {
        let step = Some(crate::merge::with_column(columns, seen[place], at)[name]);
        lemma_seen_once_more(columns, seen[place], at, step);
        let history = Seq::new(
            (seen.len() + 1) as nat,
            |k: int|
                if k <= place {
                    Some(known)
                } else {
                    step
                },
        );
        lemma_history_ends(columns, seen, at, name, history);
    }
}

/// A column that is known stays known, with no fewer samples.
proof fn lemma_samples_do_not_shrink(
    columns: Map<Seq<char>, ColumnStatisticsView>,
    seen: Seq<ColumnStatisticsObservationView>,
    observed_at: Seq<char>,
    name: Seq<char>,
)
    requires
        columns.contains_key(name),
    ensures
        crate::merge::with_columns(columns, seen, observed_at).contains_key(name),
        columns[name].sample_count <= crate::merge::with_columns(
            columns,
            seen,
            observed_at,
        )[name].sample_count,
    decreases seen.len(),
{
    if seen.len() > 0 {
        lemma_samples_do_not_shrink(columns, seen.drop_last(), observed_at, name);
    }
}

/// All that an observation of a whole table does to a profile but for the columns of the table: it
/// leaves the version, the other sources, and the other tables of the source. The source and the
/// table are there afterwards, with the observed version, and the table with the observed signature.
/// Both keep their names where they were known, and have the observed ones where not.
pub proof fn merging_changes_one_entry(
    profile: StatisticsProfileView,
    observation: StatisticsObservationView,
)
    requires
        observation.scope is TableGlobal,
    ensures
        ({
            let merged = crate::merge::merged_profile(profile, observation);
            let schema = observation.schema_name;
            let source = merged.sources[schema];
            let table = table_in(merged, observation);
            &&& merged.version == profile.version
            &&& merged.sources.dom() == profile.sources.dom().insert(schema)
            &&& forall|other: Seq<char>|
                other != schema && #[trigger] profile.sources.contains_key(other)
                    ==> merged.sources[other] == profile.sources[other]
            &&& source.source_version == observation.source_version
            &&& profile.sources.contains_key(schema) ==> {
                &&& source.schema_name == profile.sources[schema].schema_name
                &&& source.tables.dom() == profile.sources[schema].tables.dom().insert(
                    observation.table_name,
                )
                &&& forall|other: Seq<char>|
                    other != observation.table_name
                        && #[trigger] profile.sources[schema].tables.contains_key(other)
                        ==> source.tables[other] == profile.sources[schema].tables[other]
            }
            &&& !profile.sources.contains_key(schema) ==> {
                &&& source.schema_name == schema
                &&& source.tables.dom() == Set::<Seq<char>>::empty().insert(observation.table_name)
            }
            &&& table.source_version == observation.source_version
            &&& table.schema_signature == observation.schema_signature
            &&& knows_table(profile, observation) ==> table.schema_name == table_in(
                profile,
                observation,
            ).schema_name && table.table_name == table_in(profile, observation).table_name
            &&& !knows_table(profile, observation) ==> table.schema_name == schema
                && table.table_name == observation.table_name
        }),
{
    let merged = crate::merge::merged_profile(profile, observation);
    let schema = observation.schema_name;
    assert(merged.sources.dom() =~= profile.sources.dom().insert(schema));
    if profile.sources.contains_key(schema) {
        assert(merged.sources[schema].tables.dom() =~= profile.sources[schema].tables.dom().insert(
            observation.table_name,
        ));
    } else {
        assert(merged.sources[schema].tables.dom() =~= Set::<Seq<char>>::empty().insert(
            observation.table_name,
        ));
    }
}

/// The columns of a table after an observation are those that were known and those that were
/// observed, and no others.
pub proof fn no_other_columns_appear(
    profile: StatisticsProfileView,
    observation: StatisticsObservationView,
    name: Seq<char>,
)
    requires
        observation.scope is TableGlobal,
    ensures
        table_in(
            crate::merge::merged_profile(profile, observation),
            observation,
        ).columns.contains_key(name) <==> (knows_table(profile, observation) && table_in(
            profile,
            observation,
        ).columns.contains_key(name)) || exists|i: int|
            0 <= i < observation.columns.len() && (#[trigger] observation.columns[i]).column_name
                == name,
{
    let known = if knows_table(profile, observation) {
        table_in(profile, observation).columns
    } else {
        Map::empty()
    };
    lemma_columns_known_or_seen(known, observation.columns, observation.observed_at, name);
}

/// Columns are known or seen.
proof fn lemma_columns_known_or_seen(
    columns: Map<Seq<char>, ColumnStatisticsView>,
    seen: Seq<ColumnStatisticsObservationView>,
    observed_at: Seq<char>,
    name: Seq<char>,
)
    ensures
        crate::merge::with_columns(columns, seen, observed_at).contains_key(name) <==> (
        columns.contains_key(name) || exists|i: int|
            0 <= i < seen.len() && (#[trigger] seen[i]).column_name == name),
    decreases seen.len(),
{
    if seen.len() > 0 {
        let before = seen.drop_last();
        lemma_columns_known_or_seen(columns, before, observed_at, name);
        if seen.last().column_name == name {
            assert(seen[seen.len() - 1].column_name == name);
        }
        if exists|i: int| 0 <= i < before.len() && (#[trigger] before[i]).column_name == name {
            let i = choose|i: int|
                0 <= i < before.len() && (#[trigger] before[i]).column_name == name;
            assert(seen[i].column_name == name);
        }
        if exists|i: int| 0 <= i < seen.len() && (#[trigger] seen[i]).column_name == name {
            let i = choose|i: int| 0 <= i < seen.len() && (#[trigger] seen[i]).column_name == name;
            if i < before.len() {
                assert(before[i].column_name == name);
            }
        }
    }
}

/// In a run each observation is merged once, in its turn: none leaves the profile as it is, one is
/// merged by itself, and one more is merged into what the others made.
pub proof fn each_observation_is_merged_once(
    profile: StatisticsProfileView,
    observed: Seq<StatisticsObservationView>,
    observation: StatisticsObservationView,
)
    ensures
        crate::merge::merged_profiles(profile, Seq::empty()) == profile,
        crate::merge::merged_profiles(profile, seq![observation]) == crate::merge::merged_profile(
            profile,
            observation,
        ),
        crate::merge::merged_profiles(profile, observed.push(observation))
            == crate::merge::merged_profile(
            crate::merge::merged_profiles(profile, observed),
            observation,
        ),
{
    assert(seq![observation].drop_last() =~= Seq::empty());
    assert(observed.push(observation).drop_last() =~= observed);
    assert(crate::merge::merged_profiles(profile, Seq::empty()) == profile);
}

/// Every observation of a run speaks of one table, with one signature, and names one column once.
pub open spec fn repeats(
    observed: Seq<StatisticsObservationView>,
    places: Seq<int>,
    schema_name: Seq<char>,
    table_name: Seq<char>,
    name: Seq<char>,
) -> bool {
    &&& places.len() == observed.len()
    &&& forall|i: int|
        0 <= i < observed.len() ==> {
            &&& (#[trigger] observed[i]).scope is TableGlobal
            &&& observed[i].schema_name == schema_name
            &&& observed[i].table_name == table_name
            &&& observed[i].schema_signature == observed[0].schema_signature
            &&& 0 <= places[i] < observed[i].columns.len()
            &&& observed[i].columns[places[i]].column_name == name
            &&& forall|j: int|
                0 <= j < observed[i].columns.len() && j != places[i] ==> (
                #[trigger] observed[i].columns[j]).column_name != name
        }
}

/// Over a run on one table with one signature, the samples of a column are those that were known of
/// it and those of each observation, each taken once, as far as the sum can be represented. `sums`
/// are the sums on the way.
pub proof fn samples_add_up_over_a_run(
    profile: StatisticsProfileView,
    observed: Seq<StatisticsObservationView>,
    places: Seq<int>,
    sums: Seq<int>,
    schema_name: Seq<char>,
    table_name: Seq<char>,
    name: Seq<char>,
)
    requires
        observed.len() > 0,
        repeats(observed, places, schema_name, table_name, name),
        sums.len() == observed.len() + 1,
        sums[0] == if knows_table(profile, observed[0]) && table_in(
            profile,
            observed[0],
        ).columns.contains_key(name) {
            table_in(profile, observed[0]).columns[name].sample_count as int
        } else {
            0
        },
        forall|i: int|
            0 <= i < observed.len() ==> sums[i + 1] == sums[i] + (
            #[trigger] observed[i]).columns[places[i]].sample_count,
    ensures
        ({
            let merged = crate::merge::merged_profiles(profile, observed);
            &&& knows_table(merged, observed[0])
            &&& table_in(merged, observed[0]).columns.contains_key(name)
            &&& table_in(merged, observed[0]).columns[name].sample_count == if sums.last()
                <= u64::MAX {
                sums.last()
            } else {
                u64::MAX as int
            }
        }),
    decreases observed.len(),
{
    let before = observed.drop_last();
    let last = observed.len() - 1;
    let observation = observed[last];
    let place = places[last];
    each_observation_is_merged_once(profile, before, observation);
    assert(observed =~= before.push(observation));
    let halfway = crate::merge::merged_profiles(profile, before);
    merging_changes_one_entry(halfway, observation);
    no_other_columns_appear(halfway, observation, name);
    assert(observation.columns[place].column_name == name);
    lemma_sums_grow(observed, places, sums);
    if before.len() > 0 {
        assert(repeats(before, places.drop_last(), schema_name, table_name, name)) by {
            assert forall|i: int| 0 <= i < before.len() implies {
                &&& (#[trigger] before[i]).scope is TableGlobal
                &&& before[i].schema_name == schema_name
                &&& before[i].table_name == table_name
                &&& before[i].schema_signature == before[0].schema_signature
                &&& 0 <= places.drop_last()[i] < before[i].columns.len()
                &&& before[i].columns[places.drop_last()[i]].column_name == name
                &&& forall|j: int|
                    0 <= j < before[i].columns.len() && j != places.drop_last()[i] ==> (
                    #[trigger] before[i].columns[j]).column_name != name
            } by {
                assert(before[i] == observed[i]);
            }
        }
        assert forall|i: int| 0 <= i < before.len() implies sums.drop_last()[i + 1]
            == sums.drop_last()[i] + (
        #[trigger] before[i]).columns[places.drop_last()[i]].sample_count by {
            assert(before[i] == observed[i]);
        }
        samples_add_up_over_a_run(
            profile,
            before,
            places.drop_last(),
            sums.drop_last(),
            schema_name,
            table_name,
            name,
        );
        assert(knows_table(halfway, observation));
        known_columns_remain(halfway, observation, name);
    } else {
        assert(before =~= Seq::empty());
        if knows_table(profile, observation) && table_in(
            profile,
            observation,
        ).columns.contains_key(name) {
            known_columns_remain(profile, observation, name);
        } else {
            let known = if knows_table(profile, observation) {
                table_in(profile, observation).columns
            } else {
                Map::empty()
            };
            let step = Some(
                crate::merge::with_column(
                    known,
                    observation.columns[place],
                    observation.observed_at,
                )[name],
            );
            lemma_seen_once_more(known, observation.columns[place], observation.observed_at, step);
            let history = Seq::new(
                (observation.columns.len() + 1) as nat,
                |k: int|
                    if k <= place {
                        None
                    } else {
                        step
                    },
            );
            columns_develop_from_what_was_known(profile, observation, name, history);
        }
    }
}

/// Sums of samples are not negative.
proof fn lemma_sums_grow(
    observed: Seq<StatisticsObservationView>,
    places: Seq<int>,
    sums: Seq<int>,
)
    requires
        sums.len() == observed.len() + 1,
        places.len() == observed.len(),
        sums[0] >= 0,
        forall|i: int|
            0 <= i < observed.len() ==> sums[i + 1] == sums[i] + (
            #[trigger] observed[i]).columns[places[i]].sample_count,
    ensures
        forall|i: int| 0 <= i < sums.len() ==> #[trigger] sums[i] >= 0,
    decreases observed.len(),
{
    if observed.len() > 0 {
        let last = observed.len() - 1;
        assert forall|i: int| 0 <= i < last implies sums.drop_last()[i + 1] == sums.drop_last()[i]
            + (#[trigger] observed.drop_last()[i]).columns[places.drop_last()[i]].sample_count by {
            assert(observed[i] == observed.drop_last()[i]);
        }
        lemma_sums_grow(observed.drop_last(), places.drop_last(), sums.drop_last());
        assert(sums[last] == sums.drop_last()[last]);
        assert(sums[last + 1] == sums[last] + observed[last].columns[places[last]].sample_count);
        assert forall|i: int| 0 <= i < sums.len() implies #[trigger] sums[i] >= 0 by {
            if i < last + 1 {
                assert(sums[i] == sums.drop_last()[i]);
            }
        }
    }
}

/// A profile is read back as it is where it is of the first version. Otherwise, and where there is
/// none, a profile of that version is read back that knows of no source.
pub proof fn only_the_first_version_is_read_back(stored: Option<StatisticsProfileView>)
    ensures
        crate::store::loaded(stored).version == 1,
        stored is Some && stored->0.version == 1 ==> crate::store::loaded(stored) == stored->0,
        stored is None || stored->0.version != 1 ==> forall|name: Seq<char>|
            !(#[trigger] crate::store::loaded(stored).sources.contains_key(name)),
{
}

/// There is no observation of a whole table where each is of another scope, and only there.
pub proof fn no_whole_table_among_other_scopes(observed: Seq<StatisticsObservationView>)
    ensures
        !crate::store::has_table_global(observed) <==> forall|i: int|
            0 <= i < observed.len() ==> !((#[trigger] observed[i]).scope is TableGlobal),
{
}

/// A profile is to be kept where some observation speaks of a whole table, and only there. One
/// observation more is merged into the profile that the others made, if it speaks of a whole table,
/// or into what is read back where they made none.
pub proof fn profiles_are_kept_one_observation_at_a_time(
    stored: Option<StatisticsProfileView>,
    observed: Seq<StatisticsObservationView>,
    observation: StatisticsObservationView,
)
    ensures
        crate::store::kept(stored, observed) is Some <==> exists|i: int|
            0 <= i < observed.len() && (#[trigger] observed[i]).scope is TableGlobal,
        crate::store::kept(stored, Seq::empty()) is None,
        !(observation.scope is TableGlobal) ==> crate::store::kept(
            stored,
            observed.push(observation),
        ) == crate::store::kept(stored, observed),
        observation.scope is TableGlobal ==> crate::store::kept(stored, observed.push(observation))
            == Some(
            crate::merge::merged_profile(
                match crate::store::kept(stored, observed) {
                    Some(profile) => profile,
                    None => crate::store::loaded(stored),
                },
                observation,
            ),
        ),
{
    let more = observed.push(observation);
    each_observation_is_merged_once(crate::store::loaded(stored), observed, observation);
    assert(more[observed.len() as int] == observation);
    if crate::store::has_table_global(observed) {
        let i = choose|i: int|
            0 <= i < observed.len() && (#[trigger] observed[i]).scope is TableGlobal;
        assert(more[i].scope is TableGlobal);
    } else {
        crate::merge_laws::filtered_runs_change_nothing(crate::store::loaded(stored), observed);
        if crate::store::has_table_global(more) {
            let i = choose|i: int|
                0 <= i < more.len() && (#[trigger] more[i]).scope is TableGlobal;
            if i < observed.len() {
                assert(observed[i].scope is TableGlobal);
            }
        }
    }
    if !(observation.scope is TableGlobal) {
        crate::merge_laws::filtered_observations_change_nothing(
            crate::merge::merged_profiles(crate::store::loaded(stored), observed),
            observation,
        );
    }
}

} // verus!
