//! What a scan keeps statistics of.

use vstd::prelude::*;

use crate::contracts::{
    ColumnSchemaSignature, ColumnSchemaSignatureView, StatisticPrecision,
    StatisticsObservationScope, StatisticsObservationScopeView, TableSchemaSignature,
    TableSchemaSignatureView,
};
use crate::text::same_text;

verus! {

/// What is known of a scan before it runs, and is needed to turn its batches into an observation.
#[derive(Debug, Clone)]
pub struct BatchStatisticsPlan {
    pub schema_name: String,
    pub table_name: String,
    pub source_version: Option<String>,
    pub schema_signature: TableSchemaSignature,
    pub scope: StatisticsObservationScope,
    pub precision: StatisticPrecision,
}

#[verifier::ext_equal]
pub struct BatchStatisticsPlanView {
    pub schema_name: Seq<char>,
    pub table_name: Seq<char>,
    pub source_version: Option<Seq<char>>,
    pub schema_signature: TableSchemaSignatureView,
    pub scope: StatisticsObservationScopeView,
    pub precision: StatisticPrecision,
}

impl View for BatchStatisticsPlan {
    type V = BatchStatisticsPlanView;

    open spec fn view(&self) -> BatchStatisticsPlanView {
        BatchStatisticsPlanView {
            schema_name: self.schema_name@,
            table_name: self.table_name@,
            source_version: self.source_version.deep_view(),
            schema_signature: self.schema_signature@,
            scope: self.scope@,
            precision: self.precision,
        }
    }
}

/// The plan of a scan of a whole table, of which a sample is seen.
pub open spec fn plan_of_table(
    schema_name: Seq<char>,
    table_name: Seq<char>,
    source_version: Option<Seq<char>>,
    schema_signature: TableSchemaSignatureView,
) -> BatchStatisticsPlanView {
    BatchStatisticsPlanView {
        schema_name,
        table_name,
        source_version,
        schema_signature,
        scope: StatisticsObservationScopeView::TableGlobal,
        precision: StatisticPrecision::ObservedSample,
    }
}

/// The same plan for other rows.
pub open spec fn rescoped(
    plan: BatchStatisticsPlanView,
    scope: StatisticsObservationScopeView,
) -> BatchStatisticsPlanView {
    BatchStatisticsPlanView { scope, ..plan }
}

impl BatchStatisticsPlan {
    /// The plan of a scan of a whole table, of which a sample is seen.
    pub fn table_global(
        schema_name: &str,
        table_name: &str,
        source_version: Option<String>,
        schema_signature: TableSchemaSignature,
    ) -> (plan: BatchStatisticsPlan)
        ensures
            plan@ == plan_of_table(
                schema_name@,
                table_name@,
                source_version.deep_view(),
                schema_signature@,
            ),
    {
        BatchStatisticsPlan {
            schema_name: schema_name.to_string(),
            table_name: table_name.to_string(),
            source_version,
            schema_signature,
            scope: StatisticsObservationScope::TableGlobal,
            precision: StatisticPrecision::ObservedSample,
        }
    }

    /// The same plan for other rows.
    pub fn with_scope(self, scope: StatisticsObservationScope) -> (plan: BatchStatisticsPlan)
        ensures
            plan@ == rescoped(self@, scope@),
    {
        BatchStatisticsPlan {
            schema_name: self.schema_name,
            table_name: self.table_name,
            source_version: self.source_version,
            schema_signature: self.schema_signature,
            scope,
            precision: self.precision,
        }
    }
}

/// The first signature with a name.
pub open spec fn signature_named(
    columns: Seq<ColumnSchemaSignatureView>,
    name: Seq<char>,
) -> Option<ColumnSchemaSignatureView>
    decreases columns.len(),
{
    if columns.len() == 0 {
        None
    } else if columns[0].name == name {
        Some(columns[0])
    } else {
        signature_named(columns.drop_first(), name)
    }
}

/// Statistics are kept of the columns that have a signature and are neither virtual nor required
/// filters.
pub open spec fn keeps_column(plan: BatchStatisticsPlanView, name: Seq<char>) -> bool {
    match signature_named(plan.schema_signature.columns, name) {
        Some(signature) => !signature.is_virtual && !signature.is_required_filter,
        None => false,
    }
}

/// What the plan says of a column, by its name.
pub fn column_signature<'a>(plan: &'a BatchStatisticsPlan, column_name: &str) -> (result: Option<
    &'a ColumnSchemaSignature,
>)
    ensures
        match result {
            Some(signature) => {
                &&& signature_named(plan@.schema_signature.columns, column_name@) == Some(
                    signature@,
                )
                &&& signature@.name == column_name@
            },
            None => signature_named(plan@.schema_signature.columns, column_name@) is None,
        },
{
    let ghost columns = plan@.schema_signature.columns;
    assert(columns.skip(0) =~= columns);
    for i in 0..plan.schema_signature.columns.len()
        invariant
            columns == plan@.schema_signature.columns,
            signature_named(columns, column_name@) == signature_named(
                columns.skip(i as int),
                column_name@,
            ),
    {
        let column = &plan.schema_signature.columns[i];
        assert(columns.skip(i as int)[0] == column@);
        if same_text(column.name.as_str(), column_name) {
            return Some(column);
        }
        assert(columns.skip(i as int).drop_first() =~= columns.skip(i + 1));
    }
    None
}

} // verus!
