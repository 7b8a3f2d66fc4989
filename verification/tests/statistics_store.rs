//! Merging observations into the profile of a workspace, and reading it back.

use coral_statistics::contracts::{
    ColumnSchemaSignature, ColumnStatistics, ColumnStatisticsObservation, StatisticPrecision,
    StatisticValue, StatisticsObservation, StatisticsObservationScope, StatisticsProfile,
    TableSchemaSignature, TableStatistics,
};
use coral_statistics::store::{any_table_global, StatisticsStore};

/// A workspace: a store, and what was kept of its profile.
struct Workspace {
    store: StatisticsStore<&'static str>,
    stored: Option<StatisticsProfile>,
}

impl Workspace {
    fn new() -> Workspace {
        Workspace { store: StatisticsStore::new("config"), stored: None }
    }

    fn merge_observations(&mut self, observations: &[StatisticsObservation]) {
        let changes = any_table_global(observations);
        let stored = if changes { self.stored.take() } else { None };
        let kept = self.store.merge_observations(stored, observations);
        assert_eq!(kept.is_some(), changes);
        if changes {
            self.stored = kept;
        }
    }

    fn load_profile(self) -> StatisticsProfile {
        self.store.load_profile(self.stored)
    }
}

fn signature(nullable: bool) -> TableSchemaSignature {
    TableSchemaSignature {
        columns: vec![ColumnSchemaSignature {
            name: "name".to_string(),
            data_type: "Utf8".to_string(),
            nullable,
            is_virtual: false,
            is_required_filter: false,
        }],
        required_filters: Vec::new(),
    }
}

fn sampled(value: u64) -> Option<StatisticValue<u64>> {
    Some(StatisticValue { value, precision: StatisticPrecision::ObservedSample })
}

fn observation(scope: StatisticsObservationScope) -> StatisticsObservation {
    StatisticsObservation {
        schema_name: "local".to_string(),
        table_name: "events".to_string(),
        source_version: Some("0.1.0".to_string()),
        schema_signature: signature(true),
        scope,
        observed_at: "2026-05-06T00:00:00Z".to_string(),
        columns: vec![ColumnStatisticsObservation {
            column_name: "name".to_string(),
            sample_count: 3,
            null_count: sampled(1),
            approx_distinct_count: sampled(2),
        }],
    }
}

fn event_table(profile: &StatisticsProfile) -> &TableStatistics {
    profile
        .sources
        .get("local")
        .expect("local source")
        .tables
        .get("events")
        .expect("events table")
}

fn name_column(profile: &StatisticsProfile) -> &ColumnStatistics {
    event_table(profile).columns.get("name").expect("name column")
}

#[test]
fn missing_profile_loads_as_empty() {
    let workspace = Workspace::new();
    let profile = workspace.load_profile();

    assert_eq!(profile.version, 1);
    assert!(profile.sources.is_empty());
}

#[test]
fn profile_save_load_round_trips() {
    let mut workspace = Workspace::new();
    workspace.merge_observations(&[observation(StatisticsObservationScope::TableGlobal)]);

    let profile = workspace.load_profile();

    assert_eq!(name_column(&profile).sample_count, 3);
}

#[test]
fn non_table_global_observations_are_ignored() {
    let mut workspace = Workspace::new();
    workspace.merge_observations(&[observation(StatisticsObservationScope::Filtered {
        filter_columns: vec!["status".to_string()],
    })]);

    let profile = workspace.load_profile();

    assert!(profile.sources.is_empty());
}

#[test]
fn matching_table_global_observations_merge_counts() {
    let mut workspace = Workspace::new();
    let observation = observation(StatisticsObservationScope::TableGlobal);
    workspace.merge_observations(std::slice::from_ref(&observation));
    workspace.merge_observations(&[observation]);

    let profile = workspace.load_profile();
    let column = name_column(&profile);

    assert_eq!(column.sample_count, 6);
    assert_eq!(column.null_count.as_ref().unwrap().value, 2);
    assert_eq!(column.approx_distinct_count.as_ref().unwrap().value, 2);
}

#[test]
fn schema_signature_mismatch_replaces_old_table_stats() {
    let mut workspace = Workspace::new();
    let mut first = observation(StatisticsObservationScope::TableGlobal);
    first.schema_signature = signature(false);
    workspace.merge_observations(&[first]);
    workspace.merge_observations(&[observation(StatisticsObservationScope::TableGlobal)]);

    let profile = workspace.load_profile();
    let table = event_table(&profile);
    let column = table.columns.get("name").expect("name column");

    assert_eq!(column.sample_count, 3);
    assert_eq!(table.schema_signature, signature(true));
}

#[test]
fn nothing_is_kept_without_a_table_global_observation() {
    let store = StatisticsStore::new(());
    let filtered = observation(StatisticsObservationScope::Filtered { filter_columns: Vec::new() });

    assert!(!any_table_global(std::slice::from_ref(&filtered)));
    assert!(!any_table_global(&[]));
    assert!(store.merge_observations(None, &[filtered]).is_none());
    assert!(store.merge_observations(Some(StatisticsProfile::empty()), &[]).is_none());
}

#[test]
fn filtered_observations_among_others_are_skipped() {
    let store = StatisticsStore::new(());
    let mut filtered =
        observation(StatisticsObservationScope::Filtered { filter_columns: Vec::new() });
    filtered.table_name = "other".to_string();
    let whole = observation(StatisticsObservationScope::TableGlobal);

    let profile = store.merge_observations(None, &[filtered, whole]).expect("profile");
    let alone = observation(StatisticsObservationScope::TableGlobal);
    let without = store.merge_observations(None, &[alone]).expect("profile");

    assert_eq!(name_column(&profile).sample_count, 3);
    assert_eq!(name_column(&without).sample_count, 3);
    assert_eq!(profile.sources.get("local").unwrap().tables.len(), 1);
    assert_eq!(without.sources.get("local").unwrap().tables.len(), 1);
    assert!(!profile.sources.get("local").unwrap().tables.contains_key("other"));
}

#[test]
fn profiles_of_other_versions_load_as_empty() {
    let store = StatisticsStore::new(());
    let whole = observation(StatisticsObservationScope::TableGlobal);
    let mut profile = store.merge_observations(None, &[whole]).expect("profile");
    profile.version = 2;

    let loaded = store.load_profile(Some(profile));

    assert_eq!(loaded.version, 1);
    assert!(loaded.sources.is_empty());

    let mut old = StatisticsProfile::empty();
    old.version = 0;
    assert_eq!(store.load_unlocked(Some(old)).version, 1);
}

#[test]
fn merging_into_another_version_starts_anew() {
    let store = StatisticsStore::new(());
    let whole = observation(StatisticsObservationScope::TableGlobal);
    let mut old = store.merge_observations(None, std::slice::from_ref(&whole)).expect("profile");
    old.version = 7;

    let profile = store.merge_observations(Some(old), &[whole]).expect("profile");

    assert_eq!(profile.version, 1);
    assert_eq!(name_column(&profile).sample_count, 3);
}

#[test]
fn the_latest_source_version_is_kept() {
    let mut workspace = Workspace::new();
    let first = observation(StatisticsObservationScope::TableGlobal);
    let mut second = observation(StatisticsObservationScope::TableGlobal);
    second.source_version = None;
    second.observed_at = "2026-05-05T23:59:59Z".to_string();
    workspace.merge_observations(&[first, second]);

    let profile = workspace.load_profile();

    assert_eq!(profile.sources.get("local").unwrap().source_version, None);
    assert_eq!(event_table(&profile).source_version, None);
    assert_eq!(name_column(&profile).sample_count, 6);
    assert_eq!(name_column(&profile).observed_at.as_deref(), Some("2026-05-06T00:00:00Z"));
}

#[test]
fn other_tables_and_sources_stay() {
    let mut workspace = Workspace::new();
    let first = observation(StatisticsObservationScope::TableGlobal);
    let mut table = observation(StatisticsObservationScope::TableGlobal);
    table.table_name = "users".to_string();
    let mut source = observation(StatisticsObservationScope::TableGlobal);
    source.schema_name = "remote".to_string();
    workspace.merge_observations(&[first, table, source]);

    let profile = workspace.load_profile();

    assert_eq!(profile.sources.len(), 2);
    assert_eq!(profile.sources.get("local").unwrap().tables.len(), 2);
    assert_eq!(profile.sources.get("remote").unwrap().tables.len(), 1);
    assert_eq!(name_column(&profile).sample_count, 3);
    let remote = profile.sources.get("remote").unwrap();
    assert_eq!(remote.schema_name, "remote");
    assert_eq!(remote.tables.get("events").unwrap().schema_name, "remote");
    assert_eq!(remote.tables.get("events").unwrap().table_name, "events");
}

#[test]
fn observations_merge_in_any_order() {
    let mut early = observation(StatisticsObservationScope::TableGlobal);
    early.columns[0].sample_count = 10;
    early.columns[0].null_count = None;
    early.columns[0].approx_distinct_count = sampled(9);
    let late = observation(StatisticsObservationScope::TableGlobal);
    let store = StatisticsStore::new(());

    let one = store.merge_observations(None, &[
        observation(StatisticsObservationScope::TableGlobal),
        observation(StatisticsObservationScope::TableGlobal),
    ]);
    assert_eq!(name_column(&one.unwrap()).sample_count, 6);

    let early_first = store.merge_observations(None, std::slice::from_ref(&early));
    let early_first =
        store.merge_observations(early_first, std::slice::from_ref(&late)).expect("profile");
    let late_first = store.merge_observations(None, &[late, early]).expect("profile");

    for profile in [&early_first, &late_first] {
        let column = name_column(profile);
        assert_eq!(column.sample_count, 13);
        assert_eq!(column.null_count, sampled(1));
        assert_eq!(column.approx_distinct_count, sampled(9));
    }
}

#[test]
fn a_column_observed_twice_in_one_observation_is_merged_twice() {
    let mut twice = observation(StatisticsObservationScope::TableGlobal);
    twice.columns.push(ColumnStatisticsObservation {
        column_name: "name".to_string(),
        sample_count: 4,
        null_count: sampled(0),
        approx_distinct_count: None,
    });
    let profile = StatisticsStore::new(()).merge_observations(None, &[twice]).expect("profile");

    assert_eq!(name_column(&profile).sample_count, 7);
    assert_eq!(name_column(&profile).null_count, sampled(1));
    assert_eq!(name_column(&profile).approx_distinct_count, sampled(2));
}

#[test]
fn the_layout_stays_with_the_store() {
    let store = StatisticsStore::new("layout");
    assert_eq!(store.layout, "layout");
}

#[test]
fn every_part_of_a_profile_stands_under_its_own_name() {
    let mut workspace = Workspace::new();
    let mut second = observation(StatisticsObservationScope::TableGlobal);
    second.table_name = "users".to_string();
    second.columns[0].column_name = "id".to_string();
    workspace.merge_observations(&[observation(StatisticsObservationScope::TableGlobal), second]);

    let profile = workspace.load_profile();

    for place in 0..profile.sources.len() {
        let (schema_name, source) = profile.sources.entry(place);
        assert_eq!(&source.schema_name, schema_name);
        for place in 0..source.tables.len() {
            let (table_name, table) = source.tables.entry(place);
            assert_eq!(&table.schema_name, schema_name);
            assert_eq!(&table.table_name, table_name);
            for place in 0..table.columns.len() {
                let (column_name, column) = table.columns.entry(place);
                assert_eq!(&column.column_name, column_name);
            }
        }
    }
}

#[test]
fn merging_in_one_run_or_two_gives_the_same() {
    let observed = || {
        let mut second = observation(StatisticsObservationScope::TableGlobal);
        second.columns[0].sample_count = 8;
        second.observed_at = "2026-05-07T00:00:00Z".to_string();
        [observation(StatisticsObservationScope::TableGlobal), second]
    };
    let mut one_run = Workspace::new();
    one_run.merge_observations(&observed());
    let mut two_runs = Workspace::new();
    for single in observed() {
        two_runs.merge_observations(&[single]);
    }

    let one = one_run.load_profile();
    let two = two_runs.load_profile();

    for column in [name_column(&one), name_column(&two)] {
        assert_eq!(column.sample_count, 11);
        assert_eq!(column.null_count, sampled(2));
        assert_eq!(column.observed_at.as_deref(), Some("2026-05-07T00:00:00Z"));
    }
}
