//! The observation of cells that were read before.

use coral_statistics::contracts::{
    ColumnSchemaSignature, StatisticPrecision, StatisticValue, StatisticsObservationScope,
    TableSchemaSignature,
};
use coral_statistics::plan::BatchStatisticsPlan;
use coral_statistics::scan::{
    count_nulls, count_rows, distinct_booleans, distinct_integers, distinct_strings,
    kept_signature, observation_of, report_column, reports_distinct,
};

fn column(name: &str, data_type: &str) -> ColumnSchemaSignature {
    ColumnSchemaSignature {
        name: name.to_string(),
        data_type: data_type.to_string(),
        nullable: true,
        is_virtual: false,
        is_required_filter: false,
    }
}

fn plan() -> BatchStatisticsPlan {
    let mut hidden = column("hidden", "Utf8");
    hidden.is_virtual = true;
    BatchStatisticsPlan::table_global(
        "local",
        "events",
        Some("0.1.0".to_string()),
        TableSchemaSignature {
            columns: vec![column("id", "Int64"), column("payload", "Json"), hidden],
            required_filters: Vec::new(),
        },
    )
}

fn texts(cells: &[Option<&str>]) -> Vec<Option<String>> {
    cells.iter().map(|cell| cell.map(str::to_string)).collect()
}

fn sampled(value: u64) -> Option<StatisticValue<u64>> {
    Some(StatisticValue { value, precision: StatisticPrecision::ObservedSample })
}

#[test]
fn distinct_values_are_counted_over_batches() {
    let chunks = vec![Some(texts(&[Some("a"), None, Some("b")])), Some(texts(&[Some("b")]))];
    assert_eq!(distinct_strings(&chunks), Some(2));
    assert_eq!(distinct_integers(&vec![Some(vec![Some(-1), None]), Some(vec![Some(1)])]), Some(2));
    assert_eq!(distinct_booleans(&vec![Some(vec![Some(true), Some(false)])]), Some(2));
    assert_eq!(distinct_booleans(&vec![Some(vec![None])]), Some(0));
    assert_eq!(distinct_integers(&vec![]), Some(0));
}

#[test]
fn an_unread_batch_leaves_no_count() {
    assert_eq!(distinct_strings(&vec![Some(texts(&[Some("a")])), None]), None);
    assert_eq!(distinct_integers(&vec![None, Some(vec![Some(1)])]), None);
    assert_eq!(distinct_booleans(&vec![None]), None);
}

#[test]
fn the_order_of_batches_does_not_matter() {
    let first = || Some(texts(&[Some("a"), Some("b")]));
    let second = || Some(texts(&[Some("b"), Some("c"), None]));
    let third = || Some(texts(&[Some("d")]));
    assert_eq!(distinct_strings(&vec![first(), second(), third()]), Some(4));
    assert_eq!(distinct_strings(&vec![third(), first(), second()]), Some(4));
    assert_eq!(distinct_strings(&vec![second(), third(), first()]), Some(4));
}

#[test]
fn rows_and_nulls_add_up() {
    assert_eq!(count_rows(&vec![]), 0);
    assert_eq!(count_rows(&vec![3, 0, 4]), 7);
    assert_eq!(count_rows(&vec![usize::MAX, 1]), u64::MAX);
    assert_eq!(count_nulls(&vec![Some(2), None, Some(5)]), 7);
    assert_eq!(count_nulls(&vec![Some(usize::MAX), Some(usize::MAX)]), u64::MAX);
}

#[test]
fn columns_make_up_an_observation() {
    let moment = || "2026-05-06T00:00:00Z".to_string();
    let column = report_column(
        plan().precision,
        "id".to_string(),
        count_rows(&vec![2, 3]),
        count_nulls(&vec![Some(0), Some(1)]),
        distinct_integers(&vec![
            Some(vec![Some(1), Some(2)]),
            Some(vec![Some(2), None, Some(3)]),
        ]),
    );

    let observation = observation_of(&plan(), vec![column], moment()).expect("observation");

    assert_eq!(observation.schema_name, "local");
    assert_eq!(observation.table_name, "events");
    assert_eq!(observation.source_version.as_deref(), Some("0.1.0"));
    assert_eq!(observation.observed_at, "2026-05-06T00:00:00Z");
    assert_eq!(observation.scope, StatisticsObservationScope::TableGlobal);
    assert_eq!(observation.columns.len(), 1);
    assert_eq!(observation.columns[0].column_name, "id");
    assert_eq!(observation.columns[0].sample_count, 5);
    assert_eq!(observation.columns[0].null_count, sampled(1));
    assert_eq!(observation.columns[0].approx_distinct_count, sampled(3));
    assert!(observation_of(&plan(), Vec::new(), moment()).is_none());
}

#[test]
fn reports_follow_the_signature() {
    let plan = plan();
    assert!(kept_signature(&plan, "id").is_some());
    assert!(kept_signature(&plan, "hidden").is_none());
    assert!(kept_signature(&plan, "unknown").is_none());
    assert!(reports_distinct(kept_signature(&plan, "id").unwrap()));
    assert!(!reports_distinct(kept_signature(&plan, "payload").unwrap()));
    let report = report_column(StatisticPrecision::Exact, "id".to_string(), 4, 1, None);
    assert_eq!(report.sample_count, 4);
    assert_eq!(report.null_count.unwrap().value, 1);
    assert_eq!(report.null_count.unwrap().precision, StatisticPrecision::Exact);
    assert!(report.approx_distinct_count.is_none());
}
