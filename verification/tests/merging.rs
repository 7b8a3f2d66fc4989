//! Merging single statistics.

use coral_statistics::contracts::{
    ColumnStatistics, StatisticPrecision, StatisticValue, StatisticsObservation,
    StatisticsObservationScope, StatisticsProfile, TableSchemaSignature,
};
use coral_statistics::merge::{
    latest_observed_at, merge_additive, merge_column, merge_max, merge_observation,
};
use coral_statistics::name_map::NameMap;
use coral_statistics::text::{same_text, text_at_most};

fn exact(value: u64) -> Option<StatisticValue<u64>> {
    Some(StatisticValue { value, precision: StatisticPrecision::Exact })
}

fn sampled(value: u64) -> Option<StatisticValue<u64>> {
    Some(StatisticValue { value, precision: StatisticPrecision::ObservedSample })
}

#[test]
fn the_weaker_precision_remains() {
    let (exact, sample) = (StatisticPrecision::Exact, StatisticPrecision::ObservedSample);
    assert_eq!(exact.weaker(exact), exact);
    assert_eq!(exact.weaker(sample), sample);
    assert_eq!(sample.weaker(exact), sample);
    assert_eq!(sample.weaker(sample), sample);
}

#[test]
fn counts_add_up() {
    assert_eq!(merge_additive(exact(2), exact(3)), exact(5));
    assert_eq!(merge_additive(exact(2), sampled(3)), sampled(5));
    assert_eq!(merge_additive(sampled(2), None), sampled(2));
    assert_eq!(merge_additive(None, exact(3)), exact(3));
    assert_eq!(merge_additive(None, None), None);
}

#[test]
fn counts_saturate() {
    assert_eq!(merge_additive(exact(u64::MAX), exact(1)), exact(u64::MAX));
    assert_eq!(merge_additive(exact(u64::MAX - 1), exact(1)), exact(u64::MAX));
}

#[test]
fn the_larger_bound_remains() {
    assert_eq!(merge_max(exact(2), sampled(3)), sampled(3));
    assert_eq!(merge_max(exact(4), exact(3)), exact(4));
    assert_eq!(merge_max(exact(4), exact(4)), exact(4));
    assert_eq!(merge_max(None, sampled(3)), sampled(3));
    assert_eq!(merge_max(exact(2), None), exact(2));
    assert_eq!(merge_max(None, None), None);
}

#[test]
fn the_later_moment_remains() {
    let early = || Some("2026-05-06T00:00:00Z".to_string());
    let late = || Some("2026-05-06T00:00:01Z".to_string());
    assert_eq!(latest_observed_at(early(), late()), late());
    assert_eq!(latest_observed_at(late(), early()), late());
    assert_eq!(latest_observed_at(late(), late()), late());
    assert_eq!(latest_observed_at(early(), None), early());
    assert_eq!(latest_observed_at(None, late()), late());
    assert_eq!(latest_observed_at(None, None), None);
}

#[test]
fn columns_merge_field_by_field() {
    let mut existing = ColumnStatistics {
        column_name: "id".to_string(),
        sample_count: u64::MAX - 2,
        null_count: exact(1),
        approx_distinct_count: None,
        observed_at: None,
    };
    let observed = ColumnStatistics {
        column_name: "id".to_string(),
        sample_count: 5,
        null_count: sampled(2),
        approx_distinct_count: sampled(4),
        observed_at: Some("2026-01-01T00:00:00Z".to_string()),
    };
    merge_column(&mut existing, &observed);

    assert_eq!(existing.column_name, "id");
    assert_eq!(existing.sample_count, u64::MAX);
    assert_eq!(existing.null_count, sampled(3));
    assert_eq!(existing.approx_distinct_count, sampled(4));
    assert_eq!(existing.observed_at.as_deref(), Some("2026-01-01T00:00:00Z"));
}

#[test]
fn an_observation_without_columns_records_the_table() {
    let mut profile = StatisticsProfile::empty();
    let observation = StatisticsObservation {
        schema_name: "local".to_string(),
        table_name: "empty".to_string(),
        source_version: None,
        schema_signature: TableSchemaSignature { columns: Vec::new(), required_filters: Vec::new() },
        scope: StatisticsObservationScope::TableGlobal,
        observed_at: "2026-01-01T00:00:00Z".to_string(),
        columns: Vec::new(),
    };
    merge_observation(&mut profile, &observation);

    let table = profile.sources.get("local").unwrap().tables.get("empty").unwrap();
    assert!(table.columns.is_empty());
    assert_eq!(table.schema_name, "local");
    assert_eq!(table.table_name, "empty");
}

#[test]
fn strings_are_ordered_as_the_standard_library_orders_them() {
    let strings = ["", "a", "ab", "b", "B", "Z", "z", "\u{e9}", "\u{ffff}", "\u{10000}", "aa"];
    for left in strings {
        for right in strings {
            assert_eq!(text_at_most(left, right), left <= right);
            assert_eq!(same_text(left, right), left == right);
        }
    }
}

#[test]
fn names_are_kept_once_and_in_order() {
    let mut map: NameMap<ColumnStatistics> = NameMap::new();
    assert!(map.is_empty());
    let names = ["delta", "alpha", "charlie", "bravo", "alpha"];
    for (count, name) in names.iter().enumerate() {
        map.insert(
            name.to_string(),
            ColumnStatistics {
                column_name: name.to_string(),
                sample_count: count as u64,
                null_count: None,
                approx_distinct_count: None,
                observed_at: None,
            },
        );
    }
    assert!(!map.is_empty());
    assert_eq!(map.len(), 4);
    let in_order: Vec<String> = (0..map.len()).map(|place| map.entry(place).0.clone()).collect();
    assert_eq!(in_order, ["alpha", "bravo", "charlie", "delta"]);
    assert_eq!(map.get("alpha").unwrap().sample_count, 4);
    assert_eq!(map.entry(3).1.sample_count, 0);
    assert!(map.get("echo").is_none());
    assert!(map.contains_key("bravo"));
    assert!(!map.contains_key(""));
    map.get_mut("bravo").unwrap().sample_count = 9;
    assert_eq!(map.get("bravo").unwrap().sample_count, 9);
    assert!(map.get_mut("zulu").is_none());
}
