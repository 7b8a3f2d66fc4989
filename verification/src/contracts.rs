//! The statistics that are exchanged: what a scan observed, and the profile that observations are
//! merged into.

use vstd::prelude::*;

use crate::name_map::NameMap;
use crate::text::same_text;

verus! {

/// The only version of a profile that is read back.
pub const PROFILE_VERSION: u32 = 1;

/// How far a statistic can be relied on.
#[derive(Debug, Clone, Copy, PartialEq, Eq, Structural)]
pub enum StatisticPrecision {
    /// The statistic holds of the whole table.
    Exact,
    /// The statistic holds of the rows that were seen.
    ObservedSample,
}

impl StatisticPrecision {
    /// A higher number stands for a precision that promises more.
    pub open spec fn strength(self) -> int {
        match self {
            StatisticPrecision::Exact => 1,
            StatisticPrecision::ObservedSample => 0,
        }
    }

    /// Of two precisions the one that promises less.
    pub open spec fn weaker_of(self, other: StatisticPrecision) -> StatisticPrecision {
        if self.strength() <= other.strength() {
            self
        } else {
            other
        }
    }

    /// Of two precisions the one that promises less.
    pub fn weaker(self, other: StatisticPrecision) -> (result: StatisticPrecision)
        ensures
            result == self.weaker_of(other),
    {
        match (self, other) {
            (StatisticPrecision::Exact, StatisticPrecision::Exact) => StatisticPrecision::Exact,
            _ => StatisticPrecision::ObservedSample,
        }
    }
}

/// A statistic and how far it can be relied on.
#[derive(Debug, Clone, Copy, PartialEq, Eq)]
pub struct StatisticValue<T> {
    pub value: T,
    pub precision: StatisticPrecision,
}

/// What is known of one column of a table.
#[derive(Debug, PartialEq, Eq)]
pub struct ColumnSchemaSignature {
    pub name: String,
    pub data_type: String,
    pub nullable: bool,
    pub is_virtual: bool,
    pub is_required_filter: bool,
}

pub struct ColumnSchemaSignatureView {
    pub name: Seq<char>,
    pub data_type: Seq<char>,
    pub nullable: bool,
    pub is_virtual: bool,
    pub is_required_filter: bool,
}

impl View for ColumnSchemaSignature {
    type V = ColumnSchemaSignatureView;

    open spec fn view(&self) -> ColumnSchemaSignatureView {
        ColumnSchemaSignatureView {
            name: self.name@,
            data_type: self.data_type@,
            nullable: self.nullable,
            is_virtual: self.is_virtual,
            is_required_filter: self.is_required_filter,
        }
    }
}

impl Clone for ColumnSchemaSignature {
    fn clone(&self) -> (copy: Self)
        ensures
            copy@ == self@,
    {
        ColumnSchemaSignature {
            name: self.name.clone(),
            data_type: self.data_type.clone(),
            nullable: self.nullable,
            is_virtual: self.is_virtual,
            is_required_filter: self.is_required_filter,
        }
    }
}

impl ColumnSchemaSignature {
    /// Whether two signatures say the same of a column.
    pub fn same_as(&self, other: &ColumnSchemaSignature) -> (result: bool)
        ensures
            result == (self@ == other@),
    {
        same_text(self.name.as_str(), other.name.as_str())
            && same_text(self.data_type.as_str(), other.data_type.as_str())
            && self.nullable == other.nullable && self.is_virtual == other.is_virtual
            && self.is_required_filter == other.is_required_filter
    }
}

/// The columns of a table and the filters that a scan of it must have.
#[derive(Debug, PartialEq, Eq)]
pub struct TableSchemaSignature {
    pub columns: Vec<ColumnSchemaSignature>,
    pub required_filters: Vec<String>,
}

#[verifier::ext_equal]
pub struct TableSchemaSignatureView {
    pub columns: Seq<ColumnSchemaSignatureView>,
    pub required_filters: Seq<Seq<char>>,
}

/// The texts of strings, one by one.
pub open spec fn texts(strings: Seq<String>) -> Seq<Seq<char>> {
    strings.map_values(|string: String| string@)
}

/// The views of column signatures, one by one.
pub open spec fn column_signatures(
    columns: Seq<ColumnSchemaSignature>,
) -> Seq<ColumnSchemaSignatureView> {
    columns.map_values(|column: ColumnSchemaSignature| column@)
}

impl View for TableSchemaSignature {
    type V = TableSchemaSignatureView;

    open spec fn view(&self) -> TableSchemaSignatureView {
        TableSchemaSignatureView {
            columns: column_signatures(self.columns@),
            required_filters: texts(self.required_filters@),
        }
    }
}

impl Clone for TableSchemaSignature {
    fn clone(&self) -> (copy: Self)
        ensures
            copy@ == self@,
    {
        let copy = TableSchemaSignature {
            columns: self.columns.clone(),
            required_filters: self.required_filters.clone(),
        };
        assert(copy@ =~= self@);
        copy
    }
}

/// Whether two lists of strings hold the same strings in the same order.
fn same_texts(left: &Vec<String>, right: &Vec<String>) -> (result: bool)
    ensures
        result == (texts(left@) == texts(right@)),
{
    if left.len() != right.len() {
        assert(texts(left@).len() != texts(right@).len());
        return false;
    }
    for i in 0..left.len()
        invariant
            left@.len() == right@.len(),
            forall|j: int| 0 <= j < i ==> #[trigger] texts(left@)[j] == texts(right@)[j],
    {
        if !same_text(left[i].as_str(), right[i].as_str()) {
            assert(texts(left@)[i as int] != texts(right@)[i as int]);
            return false;
        }
    }
    assert(texts(left@) =~= texts(right@));
    true
}

impl TableSchemaSignature {
    /// Whether two signatures say the same of a table.
    pub fn same_as(&self, other: &TableSchemaSignature) -> (result: bool)
        ensures
            result == (self@ == other@),
    {
        if self.columns.len() != other.columns.len() {
            assert(self@.columns.len() != other@.columns.len());
            return false;
        }
        for i in 0..self.columns.len()
            invariant
                self.columns@.len() == other.columns@.len(),
                forall|j: int| 0 <= j < i ==> #[trigger] self@.columns[j] == other@.columns[j],
        {
            if !self.columns[i].same_as(&other.columns[i]) {
                assert(self@.columns[i as int] != other@.columns[i as int]);
                return false;
            }
        }
        assert(self@.columns =~= other@.columns);
        same_texts(&self.required_filters, &other.required_filters)
    }
}

/// The rows of a table that an observation speaks of.
#[derive(Debug, PartialEq, Eq)]
pub enum StatisticsObservationScope {
    /// A scan without filters.
    TableGlobal,
    /// A scan that was restricted on some columns.
    Filtered { filter_columns: Vec<String> },
}

pub enum StatisticsObservationScopeView {
    TableGlobal,
    Filtered { filter_columns: Seq<Seq<char>> },
}

impl View for StatisticsObservationScope {
    type V = StatisticsObservationScopeView;

    open spec fn view(&self) -> StatisticsObservationScopeView {
        match self {
            StatisticsObservationScope::TableGlobal => StatisticsObservationScopeView::TableGlobal,
            StatisticsObservationScope::Filtered { filter_columns } => {
                StatisticsObservationScopeView::Filtered { filter_columns: texts(filter_columns@) }
            },
        }
    }
}

impl Clone for StatisticsObservationScope {
    fn clone(&self) -> (copy: Self)
        ensures
            copy@ == self@,
    {
        match self {
            StatisticsObservationScope::TableGlobal => StatisticsObservationScope::TableGlobal,
            StatisticsObservationScope::Filtered { filter_columns } => {
                let copied: Vec<String> = filter_columns.clone();
                assert(texts(copied@) =~= texts(filter_columns@));
                StatisticsObservationScope::Filtered { filter_columns: copied }
            },
        }
    }
}

impl StatisticsObservationScope {
    /// Whether the observation speaks of the table without filters.
    pub fn is_table_global(&self) -> (result: bool)
        ensures
            result == (self@ == StatisticsObservationScopeView::TableGlobal),
    {
        match self {
            StatisticsObservationScope::TableGlobal => true,
            _ => false,
        }
    }
}

/// What a scan observed of one column.
#[derive(Debug, PartialEq, Eq)]
pub struct ColumnStatisticsObservation {
    pub column_name: String,
    pub sample_count: u64,
    pub null_count: Option<StatisticValue<u64>>,
    pub approx_distinct_count: Option<StatisticValue<u64>>,
}

pub struct ColumnStatisticsObservationView {
    pub column_name: Seq<char>,
    pub sample_count: u64,
    pub null_count: Option<StatisticValue<u64>>,
    pub approx_distinct_count: Option<StatisticValue<u64>>,
}

impl View for ColumnStatisticsObservation {
    type V = ColumnStatisticsObservationView;

    open spec fn view(&self) -> ColumnStatisticsObservationView {
        ColumnStatisticsObservationView {
            column_name: self.column_name@,
            sample_count: self.sample_count,
            null_count: self.null_count,
            approx_distinct_count: self.approx_distinct_count,
        }
    }
}

/// The views of column observations, one by one.
pub open spec fn column_observations(
    columns: Seq<ColumnStatisticsObservation>,
) -> Seq<ColumnStatisticsObservationView> {
    columns.map_values(|column: ColumnStatisticsObservation| column@)
}

/// What one scan observed of a table.
#[derive(Debug, PartialEq, Eq)]
pub struct StatisticsObservation {
    pub schema_name: String,
    pub table_name: String,
    pub source_version: Option<String>,
    pub schema_signature: TableSchemaSignature,
    pub scope: StatisticsObservationScope,
    pub observed_at: String,
    pub columns: Vec<ColumnStatisticsObservation>,
}

#[verifier::ext_equal]
pub struct StatisticsObservationView {
    pub schema_name: Seq<char>,
    pub table_name: Seq<char>,
    pub source_version: Option<Seq<char>>,
    pub schema_signature: TableSchemaSignatureView,
    pub scope: StatisticsObservationScopeView,
    pub observed_at: Seq<char>,
    pub columns: Seq<ColumnStatisticsObservationView>,
}

impl View for StatisticsObservation {
    type V = StatisticsObservationView;

    open spec fn view(&self) -> StatisticsObservationView {
        StatisticsObservationView {
            schema_name: self.schema_name@,
            table_name: self.table_name@,
            source_version: self.source_version.deep_view(),
            schema_signature: self.schema_signature@,
            scope: self.scope@,
            observed_at: self.observed_at@,
            columns: column_observations(self.columns@),
        }
    }
}

/// The views of observations, one by one.
pub open spec fn observations(
    observed: Seq<StatisticsObservation>,
) -> Seq<StatisticsObservationView> {
    observed.map_values(|observation: StatisticsObservation| observation@)
}

/// What is known of one column.
#[derive(Debug)]
pub struct ColumnStatistics {
    pub column_name: String,
    pub sample_count: u64,
    pub null_count: Option<StatisticValue<u64>>,
    pub approx_distinct_count: Option<StatisticValue<u64>>,
    pub observed_at: Option<String>,
}

pub struct ColumnStatisticsView {
    pub column_name: Seq<char>,
    pub sample_count: u64,
    pub null_count: Option<StatisticValue<u64>>,
    pub approx_distinct_count: Option<StatisticValue<u64>>,
    pub observed_at: Option<Seq<char>>,
}

impl View for ColumnStatistics {
    type V = ColumnStatisticsView;

    open spec fn view(&self) -> ColumnStatisticsView {
        ColumnStatisticsView {
            column_name: self.column_name@,
            sample_count: self.sample_count,
            null_count: self.null_count,
            approx_distinct_count: self.approx_distinct_count,
            observed_at: self.observed_at.deep_view(),
        }
    }
}

/// What is known of one table, by column.
#[derive(Debug)]
pub struct TableStatistics {
    pub schema_name: String,
    pub table_name: String,
    pub source_version: Option<String>,
    pub schema_signature: TableSchemaSignature,
    pub columns: NameMap<ColumnStatistics>,
}

#[verifier::ext_equal]
pub struct TableStatisticsView {
    pub schema_name: Seq<char>,
    pub table_name: Seq<char>,
    pub source_version: Option<Seq<char>>,
    pub schema_signature: TableSchemaSignatureView,
    pub columns: Map<Seq<char>, ColumnStatisticsView>,
}

impl View for TableStatistics {
    type V = TableStatisticsView;

    open spec fn view(&self) -> TableStatisticsView {
        TableStatisticsView {
            schema_name: self.schema_name@,
            table_name: self.table_name@,
            source_version: self.source_version.deep_view(),
            schema_signature: self.schema_signature@,
            columns: self.columns@,
        }
    }
}

/// What is known of one source, by table.
#[derive(Debug)]
pub struct SourceStatistics {
    pub schema_name: String,
    pub source_version: Option<String>,
    pub tables: NameMap<TableStatistics>,
}

#[verifier::ext_equal]
pub struct SourceStatisticsView {
    pub schema_name: Seq<char>,
    pub source_version: Option<Seq<char>>,
    pub tables: Map<Seq<char>, TableStatisticsView>,
}

impl View for SourceStatistics {
    type V = SourceStatisticsView;

    open spec fn view(&self) -> SourceStatisticsView {
        SourceStatisticsView {
            schema_name: self.schema_name@,
            source_version: self.source_version.deep_view(),
            tables: self.tables@,
        }
    }
}

/// What is known of the sources of a workspace.
#[derive(Debug)]
pub struct StatisticsProfile {
    pub version: u32,
    pub sources: NameMap<SourceStatistics>,
}

#[verifier::ext_equal]
pub struct StatisticsProfileView {
    pub version: u32,
    pub sources: Map<Seq<char>, SourceStatisticsView>,
}

impl View for StatisticsProfile {
    type V = StatisticsProfileView;

    open spec fn view(&self) -> StatisticsProfileView {
        StatisticsProfileView { version: self.version, sources: self.sources@ }
    }
}

/// The profile of a workspace of which nothing was observed yet.
pub open spec fn empty_profile() -> StatisticsProfileView {
    StatisticsProfileView {
        version: PROFILE_VERSION,
        sources: Map::<Seq<char>, SourceStatisticsView>::empty(),
    }
}

impl StatisticsProfile {
    /// The profile of a workspace of which nothing was observed yet.
    pub fn empty() -> (profile: StatisticsProfile)
        ensures
            profile@ == empty_profile(),
    {
        StatisticsProfile { version: PROFILE_VERSION, sources: NameMap::new() }
    }
}

} // verus!
