//! The views of the types that are exchanged leave nothing out.

use vstd::prelude::*;

use crate::contracts::{
    ColumnSchemaSignature, ColumnStatistics, ColumnStatisticsObservation, SourceStatistics,
    StatisticsObservation, StatisticsObservationScope, StatisticsObservationScopeView,
    StatisticsProfile, TableSchemaSignature, TableStatistics,
};
use crate::plan::BatchStatisticsPlan;

verus! {

/// The view of a string that may be missing.
pub open spec fn viewed(string: Option<String>) -> Option<Seq<char>> {
    match string {
        Some(string) => Some(string@),
        None => None,
    }
}

/// Two column signatures say the same where all their parts do.
pub open spec fn same_column(first: ColumnSchemaSignature, second: ColumnSchemaSignature) -> bool {
    &&& first.name@ == second.name@
    &&& first.data_type@ == second.data_type@
    &&& first.nullable == second.nullable
    &&& first.is_virtual == second.is_virtual
    &&& first.is_required_filter == second.is_required_filter
}

/// The view of a column signature has all its parts, so that two have the same view exactly where
/// they say the same.
pub proof fn column_signatures_are_viewed_whole(
    first: ColumnSchemaSignature,
    second: ColumnSchemaSignature,
)
    ensures
        first@.name == first.name@,
        first@.data_type == first.data_type@,
        first@.nullable == first.nullable,
        first@.is_virtual == first.is_virtual,
        first@.is_required_filter == first.is_required_filter,
        first@ == second@ <==> same_column(first, second),
{
}

/// Two table signatures have the same view exactly where they have the same columns and the same
/// required filters, one by one.
pub proof fn table_signatures_are_viewed_whole(
    first: TableSchemaSignature,
    second: TableSchemaSignature,
)
    ensures
        first@.columns.len() == first.columns@.len(),
        forall|i: int|
            0 <= i < first.columns@.len() ==> #[trigger] first@.columns[i] == first.columns@[i]@,
        first@.required_filters.len() == first.required_filters@.len(),
        forall|i: int|
            0 <= i < first.required_filters@.len() ==> #[trigger] first@.required_filters[i]
                == first.required_filters@[i]@,
        first@ == second@ <==> {
            &&& first.columns@.len() == second.columns@.len()
            &&& forall|i: int|
                0 <= i < first.columns@.len() ==> same_column(
                    #[trigger] first.columns@[i],
                    second.columns@[i],
                )
            &&& first.required_filters@.len() == second.required_filters@.len()
            &&& forall|i: int|
                0 <= i < first.required_filters@.len() ==> (#[trigger] first.required_filters@[i])@
                    == second.required_filters@[i]@
        },
{
    let same = {
        &&& first.columns@.len() == second.columns@.len()
        &&& forall|i: int|
            0 <= i < first.columns@.len() ==> same_column(
                #[trigger] first.columns@[i],
                second.columns@[i],
            )
        &&& first.required_filters@.len() == second.required_filters@.len()
        &&& forall|i: int|
            0 <= i < first.required_filters@.len() ==> (#[trigger] first.required_filters@[i])@
                == second.required_filters@[i]@
    };
    if same {
        assert forall|i: int| 0 <= i < first.columns@.len() implies #[trigger] first@.columns[i]
            == second@.columns[i] by {
            column_signatures_are_viewed_whole(first.columns@[i], second.columns@[i]);
        }
        assert(first@.columns =~= second@.columns);
        assert forall|i: int|
            0 <= i < first.required_filters@.len() implies #[trigger] first@.required_filters[i]
            == second@.required_filters[i] by {
            assert(first.required_filters@[i]@ == second.required_filters@[i]@);
        }
        assert(first@.required_filters =~= second@.required_filters);
    }
    if first@ == second@ {
        assert(first@.columns.len() == second@.columns.len());
        assert(first@.required_filters.len() == second@.required_filters.len());
        assert forall|i: int| 0 <= i < first.columns@.len() implies same_column(
            #[trigger] first.columns@[i],
            second.columns@[i],
        ) by {
            assert(first@.columns[i] == second@.columns[i]);
            column_signatures_are_viewed_whole(first.columns@[i], second.columns@[i]);
        }
        assert forall|i: int|
            0 <= i < first.required_filters@.len() implies (#[trigger] first.required_filters@[i])@
            == second.required_filters@[i]@ by {
            assert(first@.required_filters[i] == second@.required_filters[i]);
        }
    }
}

/// The view of a scope is that of a whole table where the scope is, and has its filters otherwise.
pub proof fn scopes_are_viewed_whole(scope: StatisticsObservationScope)
    ensures
        scope@ is TableGlobal <==> scope is TableGlobal,
        scope matches StatisticsObservationScope::Filtered { filter_columns } ==> scope@
            == (StatisticsObservationScopeView::Filtered {
            filter_columns: filter_columns@.map_values(|name: String| name@),
        }),
{
}

/// The view of an observation has all its parts, and each of its columns.
pub proof fn observations_are_viewed_whole(
    observation: StatisticsObservation,
    column: ColumnStatisticsObservation,
    observed: Seq<StatisticsObservation>,
)
    ensures
        observation@.schema_name == observation.schema_name@,
        observation@.table_name == observation.table_name@,
        observation@.source_version == viewed(observation.source_version),
        observation@.schema_signature == observation.schema_signature@,
        observation@.scope == observation.scope@,
        observation@.observed_at == observation.observed_at@,
        observation@.columns.len() == observation.columns@.len(),
        forall|i: int|
            0 <= i < observation.columns@.len() ==> #[trigger] observation@.columns[i]
                == observation.columns@[i]@,
        column@.column_name == column.column_name@,
        column@.sample_count == column.sample_count,
        column@.null_count == column.null_count,
        column@.approx_distinct_count == column.approx_distinct_count,
        crate::contracts::observations(observed).len() == observed.len(),
        forall|i: int|
            0 <= i < observed.len() ==> #[trigger] crate::contracts::observations(observed)[i]
                == observed[i]@,
{
}

/// The view of a profile has all its parts, and so have those of its sources, tables and columns.
pub proof fn profiles_are_viewed_whole(
    profile: StatisticsProfile,
    source: SourceStatistics,
    table: TableStatistics,
    column: ColumnStatistics,
    stored: Option<StatisticsProfile>,
)
    ensures
        profile@.version == profile.version,
        profile@.sources == profile.sources@,
        source@.schema_name == source.schema_name@,
        source@.source_version == viewed(source.source_version),
        source@.tables == source.tables@,
        table@.schema_name == table.schema_name@,
        table@.table_name == table.table_name@,
        table@.source_version == viewed(table.source_version),
        table@.schema_signature == table.schema_signature@,
        table@.columns == table.columns@,
        column@.column_name == column.column_name@,
        column@.sample_count == column.sample_count,
        column@.null_count == column.null_count,
        column@.approx_distinct_count == column.approx_distinct_count,
        column@.observed_at == viewed(column.observed_at),
        crate::store::stored_view(stored) is Some <==> stored is Some,
        stored is Some ==> crate::store::stored_view(stored)->0 == stored->0@,
        crate::contracts::empty_profile().version == 1,
        forall|name: Seq<char>| !(
        #[trigger] crate::contracts::empty_profile().sources.contains_key(name)),
{
}

/// The view of a plan has all its parts.
pub proof fn plans_are_viewed_whole(plan: BatchStatisticsPlan)
    ensures
        plan@.schema_name == plan.schema_name@,
        plan@.table_name == plan.table_name@,
        plan@.source_version == viewed(plan.source_version),
        plan@.schema_signature == plan.schema_signature@,
        plan@.scope == plan.scope@,
        plan@.precision == plan.precision,
{
}

/// Names are ascending where each comes before all that stand behind it: where two first differ, the
/// earlier has the smaller character.
pub proof fn names_ascend_by_their_first_difference(
    names: Seq<Seq<char>>,
    i: int,
    j: int,
    place: int,
)
    requires
        crate::name_map::ascending(names),
        0 <= i < j < names.len(),
        0 <= place < names[i].len(),
        place < names[j].len(),
        forall|k: int| 0 <= k < place ==> #[trigger] names[i][k] == names[j][k],
        names[i][place] != names[j][place],
    ensures
        names[i][place] < names[j][place],
        names[i] != names[j],
{
    crate::text::the_first_difference_decides(names[i], names[j], place);
    assert(crate::text::text_lt(names[i], names[j]));
}

} // verus!
