//! Collecting statistics from record batches.

use std::sync::Arc;

use coral_statistics::array::{
    find_route, is_dated_alike, is_writable, CastRoute, DAY, FIRST_SECOND, LAST_SECOND,
};
use coral_statistics::batch::{ColumnType, DictionaryValues, ScanBatch, TimestampUnit};
use coral_statistics::collect::{
    collect_batch_statistics, distinct_bool, distinct_cast_utf8, distinct_count,
    distinct_count_for_signature, distinct_int64, distinct_utf8, Int64Storage,
};
use coral_statistics::contracts::{
    ColumnSchemaSignature, StatisticPrecision, StatisticsObservation, StatisticsObservationScope,
    TableSchemaSignature,
};
use coral_statistics::plan::{column_signature, BatchStatisticsPlan};
use coral_statistics::sink::{
    drain_locked, observe_locked, RuntimeStatisticsContext, StatisticsObservationSink,
};
use datafusion::arrow::array::{
    Array, ArrayRef, BooleanArray, Decimal128Array, DictionaryArray, FixedSizeListArray,
    Float64Array, Int32Array, Int64Array, LargeStringArray, ListArray, NullArray, PrimitiveArray,
    RecordBatch, RunArray, StringArray, StringViewArray, TimestampMicrosecondArray,
    TimestampSecondArray, UnionArray,
};
use datafusion::arrow::buffer::{NullBuffer, OffsetBuffer};
use datafusion::arrow::datatypes::{
    DataType, Field, Int32Type, Schema, TimestampSecondType, UnionFields,
};

fn column(name: &str, data_type: &str) -> ColumnSchemaSignature {
    ColumnSchemaSignature {
        name: name.to_string(),
        data_type: data_type.to_string(),
        nullable: true,
        is_virtual: false,
        is_required_filter: false,
    }
}

fn signature() -> TableSchemaSignature {
    let mut id = column("id", "Int64");
    id.nullable = false;
    let mut filter = column("filter", "Utf8");
    filter.is_virtual = true;
    filter.is_required_filter = true;
    TableSchemaSignature {
        columns: vec![
            id,
            column("name", "Utf8"),
            column("score", "Float64"),
            column("payload", "Json"),
            filter,
        ],
        required_filters: vec!["filter".to_string()],
    }
}

/// A batch of nullable columns.
fn batch(columns: Vec<(&str, ArrayRef)>) -> ScanBatch {
    let fields: Vec<Field> = columns
        .iter()
        .map(|(name, array)| Field::new(*name, array.data_type().clone(), true))
        .collect();
    let arrays = columns.into_iter().map(|(_, array)| array).collect();
    ScanBatch {
        record_batch: RecordBatch::try_new(Arc::new(Schema::new(fields)), arrays).expect("batch"),
    }
}

fn strings(cells: Vec<Option<&str>>) -> ArrayRef {
    Arc::new(StringArray::from(cells))
}

fn integers(cells: Vec<Option<i64>>) -> ArrayRef {
    Arc::new(Int64Array::from(cells))
}

fn plan_of(columns: Vec<ColumnSchemaSignature>) -> BatchStatisticsPlan {
    let signature = TableSchemaSignature { columns, required_filters: Vec::new() };
    BatchStatisticsPlan::table_global("local", "events", None, signature)
}

fn distinct_of(observation: &StatisticsObservation, name: &str) -> Option<u64> {
    let column = observation.columns.iter().find(|column| column.column_name == name);
    column.expect("column").approx_distinct_count.map(|value| value.value)
}

fn nulls_of(observation: &StatisticsObservation, name: &str) -> u64 {
    let column = observation.columns.iter().find(|column| column.column_name == name);
    column.expect("column").null_count.expect("nulls").value
}

#[test]
fn collects_null_and_distinct_counts_for_supported_types() {
    let schema = Arc::new(Schema::new(vec![
        Field::new("id", DataType::Int64, false),
        Field::new("name", DataType::Utf8, true),
        Field::new("score", DataType::Float64, true),
        Field::new("payload", DataType::Utf8, true),
        Field::new("filter", DataType::Utf8, true),
    ]));
    let record_batch = RecordBatch::try_new(
        schema,
        vec![
            Arc::new(Int64Array::from(vec![1, 2, 3, 3])),
            Arc::new(StringArray::from(vec![
                Some("alpha"),
                Some("beta"),
                None,
                Some("alpha"),
            ])),
            Arc::new(Float64Array::from(vec![
                Some(1.0),
                Some(2.0),
                None,
                Some(2.0),
            ])),
            Arc::new(StringArray::from(vec![
                Some(r#"{"kind":"alpha"}"#),
                Some(r#"{"kind":"beta"}"#),
                None,
                Some(r#"{"kind":"alpha"}"#),
            ])),
            Arc::new(StringArray::from(vec![
                Some("x"),
                Some("x"),
                Some("x"),
                Some("x"),
            ])),
        ],
    )
    .expect("batch");
    let plan =
        BatchStatisticsPlan::table_global("local", "events", Some("0.1.0".into()), signature());

    let observation =
        collect_batch_statistics(&plan, &[ScanBatch { record_batch }]).expect("observation");

    assert_eq!(observation.scope, StatisticsObservationScope::TableGlobal);
    assert_eq!(observation.columns.len(), 4);
    let by_name = observation
        .columns
        .iter()
        .map(|column| (column.column_name.as_str(), column))
        .collect::<std::collections::HashMap<_, _>>();
    let id = by_name.get("id").expect("id stats");
    let name = by_name.get("name").expect("name stats");
    let score = by_name.get("score").expect("score stats");
    let payload = by_name.get("payload").expect("payload stats");
    assert_eq!(id.approx_distinct_count.as_ref().unwrap().value, 3);
    assert_eq!(name.null_count.as_ref().unwrap().value, 1);
    assert_eq!(name.approx_distinct_count.as_ref().unwrap().value, 2);
    assert!(score.approx_distinct_count.is_none());
    assert_eq!(payload.null_count.as_ref().unwrap().value, 1);
    assert!(payload.approx_distinct_count.is_none());
    assert!(!by_name.contains_key("filter"));
}

#[test]
fn the_plan_and_the_moment_go_into_the_observation() {
    let plan =
        BatchStatisticsPlan::table_global("local", "events", Some("0.1.0".into()), signature())
            .with_scope(StatisticsObservationScope::Filtered {
                filter_columns: vec!["status".to_string()],
            });
    let batches = [batch(vec![("id", integers(vec![Some(1), None]))])];

    let observation = collect_batch_statistics(&plan, &batches).expect("observation");

    assert_eq!(observation.schema_name, "local");
    assert_eq!(observation.table_name, "events");
    assert_eq!(observation.source_version.as_deref(), Some("0.1.0"));
    assert_eq!(observation.schema_signature, signature());
    assert_eq!(
        observation.scope,
        StatisticsObservationScope::Filtered { filter_columns: vec!["status".to_string()] }
    );
    assert_eq!(observation.columns[0].sample_count, 2);
    assert_eq!(
        observation.columns[0].null_count.unwrap().precision,
        StatisticPrecision::ObservedSample
    );
    let moment = observation.observed_at;
    assert_eq!(moment.len(), 20);
    assert!(moment.ends_with('Z'));
    assert_eq!(&moment[10..11], "T");
    assert!(moment.as_str() > "2024-01-01T00:00:00Z");
}

#[test]
fn a_scan_without_batches_or_kept_columns_has_no_observation() {
    let plan = BatchStatisticsPlan::table_global("local", "events", None, signature());

    assert!(collect_batch_statistics(&plan, &[]).is_none());
    let filtered = [batch(vec![("filter", strings(vec![Some("x")]))])];
    assert!(collect_batch_statistics(&plan, &filtered).is_none());
    let unknown = [batch(vec![("unknown", strings(vec![Some("x")]))])];
    assert!(collect_batch_statistics(&plan, &unknown).is_none());
}

#[test]
fn counts_run_over_all_batches() {
    let plan = BatchStatisticsPlan::table_global("local", "events", None, signature());
    let batches = [
        batch(vec![
            ("id", integers(vec![Some(1), Some(2)])),
            ("name", strings(vec![Some("a"), None])),
        ]),
        batch(vec![
            ("id", integers(vec![Some(2), Some(3), None])),
            ("name", strings(vec![Some("b"), Some("a"), None])),
        ]),
    ];

    let observation = collect_batch_statistics(&plan, &batches).expect("observation");

    assert_eq!(observation.columns[0].sample_count, 5);
    assert_eq!(observation.columns[1].sample_count, 5);
    assert_eq!(distinct_of(&observation, "id"), Some(3));
    assert_eq!(distinct_of(&observation, "name"), Some(2));
    assert_eq!(nulls_of(&observation, "id"), 1);
    assert_eq!(nulls_of(&observation, "name"), 2);
}

#[test]
fn a_batch_without_the_column_leaves_no_distinct_count() {
    let plan = BatchStatisticsPlan::table_global("local", "events", None, signature());
    let batches = [
        batch(vec![
            ("id", integers(vec![Some(1), Some(2)])),
            ("name", strings(vec![Some("a"), None])),
        ]),
        batch(vec![("id", integers(vec![Some(5)])), ("extra", strings(vec![None]))]),
    ];

    let observation = collect_batch_statistics(&plan, &batches).expect("observation");

    assert_eq!(observation.columns.len(), 2);
    assert_eq!(distinct_of(&observation, "id"), Some(3));
    assert_eq!(distinct_of(&observation, "name"), None);
    assert_eq!(nulls_of(&observation, "name"), 1);
    assert_eq!(observation.columns[1].sample_count, 3);
}

#[test]
fn a_batch_with_another_type_leaves_no_distinct_count() {
    let batches = [
        batch(vec![("name", strings(vec![Some("a")]))]),
        batch(vec![("name", integers(vec![Some(1)]))]),
    ];

    assert_eq!(distinct_utf8(&batches, "name"), None);
    assert_eq!(distinct_int64(&batches, "name", Int64Storage::Int64), None);
    assert_eq!(distinct_bool(&batches, "name"), None);
    assert_eq!(distinct_cast_utf8(&batches, "name"), Some(2));
    assert_eq!(distinct_cast_utf8(&batches, "other"), None);
}

#[test]
fn dictionaries_of_strings_are_counted_by_their_strings() {
    let dictionary: DictionaryArray<Int32Type> =
        vec![Some("a"), None, Some("b"), Some("a")].into_iter().collect();
    let batches = [
        batch(vec![("kind", Arc::new(dictionary))]),
        batch(vec![("kind", strings(vec![Some("b"), Some("c")]))]),
    ];
    let plan = plan_of(vec![column("kind", "Utf8")]);

    let observation = collect_batch_statistics(&plan, &batches).expect("observation");

    assert_eq!(distinct_of(&observation, "kind"), Some(3));
    assert_eq!(nulls_of(&observation, "kind"), 1);
    assert_eq!(observation.columns[0].sample_count, 6);
    let kind = ColumnType::Dictionary(DictionaryValues::Utf8);
    assert_eq!(distinct_count(kind, &batches, "kind"), Some(3));
    assert_eq!(distinct_count(ColumnType::Utf8, &batches, "kind"), None);
    let plain = [
        batch(vec![("kind", strings(vec![Some("a"), None, Some("b"), Some("a")]))]),
        batch(vec![("kind", strings(vec![Some("b"), Some("c")]))]),
    ];
    assert_eq!(distinct_count(ColumnType::Utf8, &plain, "kind"), Some(3));
}

#[test]
fn a_null_behind_a_key_is_no_string() {
    let keys = Int32Array::from(vec![Some(0), Some(1), None, Some(0)]);
    let values: ArrayRef = strings(vec![Some("a"), None]);
    let dictionary = DictionaryArray::<Int32Type>::try_new(keys, values).expect("dictionary");
    let batches = [batch(vec![("kind", Arc::new(dictionary))])];
    let plan = plan_of(vec![column("kind", "Utf8")]);

    let observation = collect_batch_statistics(&plan, &batches).expect("observation");

    assert_eq!(distinct_of(&observation, "kind"), Some(1));
    assert_eq!(nulls_of(&observation, "kind"), 1);
}

#[test]
fn dictionaries_of_other_values_are_not_counted() {
    let keys = Int32Array::from(vec![Some(0), Some(1)]);
    let values: ArrayRef = integers(vec![Some(5), Some(6)]);
    let dictionary = DictionaryArray::<Int32Type>::try_new(keys, values).expect("dictionary");
    let batches = [batch(vec![("kind", Arc::new(dictionary))])];
    let plan = plan_of(vec![column("kind", "Int64")]);

    let observation = collect_batch_statistics(&plan, &batches).expect("observation");

    assert_eq!(distinct_of(&observation, "kind"), None);
    assert_eq!(
        distinct_count(ColumnType::Dictionary(DictionaryValues::Other), &batches, "kind"),
        None
    );
}

#[test]
fn booleans_and_timestamps_are_counted() {
    let flags: ArrayRef = Arc::new(BooleanArray::from(vec![Some(true), None, Some(true)]));
    let moments: ArrayRef = Arc::new(
        TimestampMicrosecondArray::from(vec![Some(7), Some(8), Some(7)]).with_timezone("UTC"),
    );
    let seconds: ArrayRef = Arc::new(TimestampSecondArray::from(vec![Some(7), Some(8), None]));
    let nothing: ArrayRef = Arc::new(NullArray::new(3));
    let batches = [batch(vec![
        ("flag", flags),
        ("moment", moments),
        ("second", seconds),
        ("nothing", nothing),
    ])];
    let plan = plan_of(vec![
        column("flag", "Boolean"),
        column("moment", "Timestamp"),
        column("second", "Timestamp"),
        column("nothing", "Null"),
    ]);

    let observation = collect_batch_statistics(&plan, &batches).expect("observation");

    assert_eq!(distinct_of(&observation, "flag"), Some(1));
    assert_eq!(nulls_of(&observation, "flag"), 1);
    assert_eq!(distinct_of(&observation, "moment"), Some(2));
    assert_eq!(distinct_of(&observation, "second"), None);
    assert_eq!(nulls_of(&observation, "second"), 1);
    assert_eq!(distinct_of(&observation, "nothing"), None);
    assert_eq!(nulls_of(&observation, "nothing"), 0);
    let micros = ColumnType::Timestamp(TimestampUnit::Microsecond);
    assert_eq!(distinct_count(micros, &batches, "moment"), Some(2));
    assert_eq!(distinct_int64(&batches, "moment", Int64Storage::Int64), None);
    let nanos = ColumnType::Timestamp(TimestampUnit::Nanosecond);
    assert_eq!(distinct_count(nanos, &batches, "moment"), None);
}

#[test]
fn json_is_not_counted() {
    let batches = [batch(vec![("payload", strings(vec![Some("{}"), Some("[]")]))])];

    let json = column("payload", "Json");
    assert_eq!(distinct_count_for_signature(&json, ColumnType::Utf8, &batches), None);
    let text = column("payload", "Utf8");
    assert_eq!(distinct_count_for_signature(&text, ColumnType::Utf8, &batches), Some(2));
}

#[test]
fn of_columns_with_one_name_the_first_is_read() {
    let batches = [batch(vec![
        ("id", integers(vec![Some(1), Some(1)])),
        ("id", integers(vec![Some(1), Some(2)])),
    ])];
    let plan = plan_of(vec![column("id", "Int64")]);

    let observation = collect_batch_statistics(&plan, &batches).expect("observation");

    assert_eq!(observation.columns.len(), 2);
    assert_eq!(observation.columns[0].approx_distinct_count.unwrap().value, 1);
    assert_eq!(observation.columns[1].approx_distinct_count.unwrap().value, 1);
}

#[test]
fn virtual_columns_and_required_filters_are_each_left_out() {
    let mut virtual_column = column("a", "Int64");
    virtual_column.is_virtual = true;
    let mut filter = column("b", "Int64");
    filter.is_required_filter = true;
    let plan = plan_of(vec![virtual_column, filter, column("c", "Int64")]);
    let batches = [batch(vec![
        ("a", integers(vec![Some(1)])),
        ("b", integers(vec![Some(1)])),
        ("c", integers(vec![Some(1)])),
    ])];

    let observation = collect_batch_statistics(&plan, &batches).expect("observation");

    assert_eq!(observation.columns.len(), 1);
    assert_eq!(observation.columns[0].column_name, "c");
}

#[test]
fn the_first_signature_with_a_name_is_found() {
    let plan = plan_of(vec![column("id", "Int64"), column("id", "Utf8"), column("name", "Utf8")]);

    assert_eq!(column_signature(&plan, "id").unwrap().data_type, "Int64");
    assert_eq!(column_signature(&plan, "name").unwrap().name, "name");
    assert!(column_signature(&plan, "nam").is_none());
    assert_eq!(plan.precision, StatisticPrecision::ObservedSample);
    assert_eq!(plan.scope, StatisticsObservationScope::TableGlobal);
}

#[test]
fn a_sink_hands_out_what_it_was_given_once() {
    let plan = plan_of(vec![column("id", "Int64")]);
    let observe = |id: i64| {
        let batches = [batch(vec![("id", integers(vec![Some(id); id as usize]))])];
        collect_batch_statistics(&plan, &batches).expect("observation")
    };
    let mut context = RuntimeStatisticsContext::new(StatisticsObservationSink::default());
    context.sink.observe(observe(1));
    assert!(observe_locked(Some(&mut context.sink), observe(2)));
    assert!(!observe_locked(None, observe(3)));

    let drained = context.sink.drain();

    assert_eq!(drained.len(), 2);
    assert_eq!(drained[0].columns[0].sample_count, 1);
    assert_eq!(drained[1].columns[0].sample_count, 2);
    assert!(context.sink.drain().is_empty());
    context.sink.observe(observe(4));
    assert_eq!(drain_locked(Some(&mut context.sink)).len(), 1);
    assert!(drain_locked(Some(&mut context.sink)).is_empty());
    assert!(drain_locked(None).is_empty());
}

#[test]
fn a_context_of_its_own_has_observed_nothing() {
    let mut context = RuntimeStatisticsContext::default();
    assert!(context.sink.drain().is_empty());
}

/// How many distinct strings an array reads as.
fn cast_count(array: ArrayRef) -> Option<u64> {
    distinct_cast_utf8(&[batch(vec![("column", array)])], "column")
}

/// A union of three rows, each of the member with an id.
fn union_with(ids: [i8; 3], members: Vec<ArrayRef>) -> ArrayRef {
    let fields: Vec<Field> = members
        .iter()
        .enumerate()
        .map(|(place, array)| Field::new(place.to_string(), array.data_type().clone(), true))
        .collect();
    let fields = UnionFields::try_new([0, 1, 2], fields).expect("fields");
    Arc::new(UnionArray::try_new(fields, ids.to_vec().into(), None, members).expect("union"))
}

#[test]
fn other_arrays_are_counted_as_text() {
    assert_eq!(cast_count(strings(vec![Some("a"), Some("b"), None])), Some(2));
    assert_eq!(cast_count(integers(vec![Some(1), Some(2), Some(1), None])), Some(2));
    assert_eq!(cast_count(Arc::new(Float64Array::from(vec![1.5, 1.5, 2.0]))), Some(2));
    assert_eq!(cast_count(Arc::new(BooleanArray::from(vec![true, false, true]))), Some(2));
    assert_eq!(cast_count(Arc::new(LargeStringArray::from(vec!["a", "b", "c"]))), Some(3));
    assert_eq!(cast_count(Arc::new(StringViewArray::from(vec!["a", "b", "a"]))), Some(2));
    assert_eq!(cast_count(Arc::new(NullArray::new(3))), Some(0));
    let lists = ListArray::from_iter_primitive::<Int32Type, _, _>(vec![
        Some(vec![Some(1), Some(2)]),
        Some(vec![Some(1), Some(2)]),
        None,
        Some(vec![]),
    ]);
    assert_eq!(cast_count(Arc::new(lists)), Some(2));
}

#[test]
fn arrays_of_one_layer_are_counted_as_text() {
    let keys = Int32Array::from(vec![Some(0), Some(1), None, Some(0)]);
    let numbers = DictionaryArray::<Int32Type>::try_new(keys, integers(vec![Some(5), Some(6)]));
    assert_eq!(cast_count(Arc::new(numbers.expect("dictionary"))), Some(2));
    let ends = Int32Array::from(vec![2, 5, 6]);
    let runs = RunArray::try_new(&ends, &StringArray::from(vec!["a", "b", "a"])).expect("runs");
    assert_eq!(cast_count(Arc::new(runs.slice(1, 4))), Some(2));
    let members = vec![
        integers(vec![Some(7), Some(7), Some(7)]),
        strings(vec![Some("x"), Some("y"), Some("z")]),
        strings(vec![Some("u"), Some("v"), Some("w")]),
    ];
    assert_eq!(cast_count(union_with([0, 1, 2], members)), Some(1));
}

#[test]
fn arrays_of_more_layers_are_counted_as_text() {
    let words: DictionaryArray<Int32Type> = vec![Some("a"), Some("b")].into_iter().collect();
    let ends = Int32Array::from(vec![2, 5]);
    let runs = RunArray::try_new(&ends, &words).expect("runs");
    assert_eq!(cast_count(Arc::new(runs)), Some(2));
    let keys = Int32Array::from(vec![Some(1), Some(1), None]);
    let outer = DictionaryArray::<Int32Type>::try_new(keys, Arc::new(words)).expect("dictionary");
    assert_eq!(cast_count(Arc::new(outer)), Some(1));
}

#[test]
fn of_a_union_one_member_is_counted() {
    let views: ArrayRef = Arc::new(StringViewArray::from(vec!["p", "q", "r"]));
    let large: ArrayRef = Arc::new(LargeStringArray::from(vec!["s", "t", "u"]));
    let small = strings(vec![Some("v"), Some("w"), Some("x")]);
    let numbers = integers(vec![Some(7), Some(8), Some(9)]);
    let flags: ArrayRef = Arc::new(BooleanArray::from(vec![true, true, true]));
    let count = |ids: [i8; 3], members: [&ArrayRef; 3]| {
        cast_count(union_with(ids, members.map(Arc::clone).to_vec()))
    };
    assert_eq!(count([0, 0, 1], [&views, &small, &numbers]), Some(1));
    assert_eq!(count([0, 0, 1], [&views, &large, &numbers]), Some(2));
    assert_eq!(count([0, 0, 1], [&large, &views, &numbers]), Some(2));
    assert_eq!(count([0, 1, 1], [&numbers, &flags, &flags]), Some(1));
    let lists: ArrayRef = Arc::new(ListArray::from_iter_primitive::<Int32Type, _, _>(vec![
        Some(vec![Some(1)]),
        Some(vec![Some(2)]),
        None,
    ]));
    assert_eq!(count([0, 0, 1], [&lists, &small, &numbers]), Some(1));
    assert_eq!(count([0, 0, 1], [&lists, &numbers, &flags]), None);
}

#[test]
fn runs_of_lists_are_not_counted() {
    let lists = ListArray::from_iter_primitive::<Int32Type, _, _>(vec![
        Some(vec![Some(1)]),
        Some(vec![Some(2)]),
    ]);
    let runs = RunArray::try_new(&Int32Array::from(vec![2, 5]), &lists).expect("runs");
    assert_eq!(cast_count(Arc::new(runs)), None);
}

#[test]
fn timestamps_in_a_time_zone_are_counted_where_they_have_a_date() {
    let zoned = |moments: Vec<Option<i64>>| -> ArrayRef {
        Arc::new(TimestampSecondArray::from(moments).with_timezone("+01:00"))
    };
    assert_eq!(cast_count(zoned(vec![Some(0), Some(7), Some(0), None])), Some(2));
    assert_eq!(cast_count(zoned(vec![Some(0), Some(LAST_SECOND)])), None);
    assert_eq!(cast_count(zoned(vec![Some(0), Some(FIRST_SECOND)])), None);
    assert_eq!(cast_count(zoned(vec![Some(0), Some(i64::MAX)])), None);
    assert_eq!(cast_count(zoned(vec![Some(LAST_SECOND - DAY)])), Some(1));
    let item = Arc::new(Field::new("item", zoned(Vec::new()).data_type().clone(), true));
    let lists = |moments: Vec<Option<i64>>| -> ArrayRef {
        let offsets = OffsetBuffer::from_lengths([1, 1]);
        Arc::new(ListArray::try_new(item.clone(), offsets, zoned(moments), None).expect("lists"))
    };
    assert_eq!(cast_count(lists(vec![Some(0), Some(7)])), Some(2));
    assert_eq!(cast_count(lists(vec![Some(0), Some(LAST_SECOND)])), None);
    let hidden = PrimitiveArray::<TimestampSecondType>::new(
        vec![0, LAST_SECOND].into(),
        Some(NullBuffer::from(vec![true, false])),
    );
    assert_eq!(cast_count(Arc::new(hidden.with_timezone("+01:00"))), Some(1));
}

#[test]
fn which_timestamps_have_a_date() {
    for (unit, second) in [
        (TimestampUnit::Second, 1),
        (TimestampUnit::Millisecond, 1_000),
        (TimestampUnit::Microsecond, 1_000_000),
    ] {
        assert!(is_dated_alike(unit, 0));
        assert!(is_dated_alike(unit, (FIRST_SECOND + DAY) * second));
        assert!(!is_dated_alike(unit, (FIRST_SECOND + DAY) * second - 1));
        assert!(!is_dated_alike(unit, FIRST_SECOND * second));
        assert!(is_dated_alike(unit, FIRST_SECOND * second - 1));
        assert!(is_dated_alike(unit, (LAST_SECOND + 1 - DAY) * second - 1));
        assert!(!is_dated_alike(unit, (LAST_SECOND + 1 - DAY) * second));
        assert!(!is_dated_alike(unit, (LAST_SECOND + 1) * second - 1));
        assert!(is_dated_alike(unit, (LAST_SECOND + 1) * second));
    }
    assert!(is_dated_alike(TimestampUnit::Nanosecond, i64::MAX));
    assert!(is_dated_alike(TimestampUnit::Nanosecond, i64::MIN));
}

#[test]
fn decimals_are_counted_where_they_have_the_digits() {
    let decimals = |precision: u8, scale: i8| -> ArrayRef {
        let numbers = Decimal128Array::from(vec![123456, 123456, 7]);
        Arc::new(numbers.with_data_type(DataType::Decimal128(precision, scale)))
    };
    assert_eq!(cast_count(decimals(10, 2)), Some(2));
    assert_eq!(cast_count(decimals(10, -2)), Some(2));
    assert_eq!(cast_count(decimals(6, 6)), Some(2));
    assert_eq!(cast_count(decimals(1, 5)), None);
}

#[test]
fn routes_follow_from_what_an_array_is_made_of() {
    let route = |array: ArrayRef| find_route(&array.to_data());
    let views: ArrayRef = Arc::new(StringViewArray::from(vec!["a"]));
    let words: DictionaryArray<Int32Type> = vec![Some("a")].into_iter().collect();
    let keys = || Int32Array::from(vec![Some(0)]);
    let over = |values: ArrayRef| -> ArrayRef {
        Arc::new(DictionaryArray::<Int32Type>::try_new(keys(), values).expect("dictionary"))
    };
    assert_eq!(route(strings(vec![Some("a")])), Some(CastRoute::Direct));
    assert_eq!(route(Arc::new(LargeStringArray::from(vec!["a"]))), Some(CastRoute::Direct));
    assert_eq!(route(views.clone()), Some(CastRoute::ThroughLarge));
    assert_eq!(route(integers(vec![Some(1)])), Some(CastRoute::ThroughLarge));
    assert_eq!(route(Arc::new(words)), Some(CastRoute::Direct));
    assert_eq!(route(over(views.clone())), Some(CastRoute::ThroughValues));
    assert_eq!(route(over(over(integers(vec![Some(1)])))), Some(CastRoute::ThroughLarge));
    let numbers = integers(vec![Some(7), Some(8), Some(9)]);
    let views: ArrayRef = Arc::new(StringViewArray::from(vec!["a", "b", "c"]));
    let union = union_with([0, 1, 2], vec![numbers.clone(), views, numbers]);
    assert_eq!(route(union), Some(CastRoute::ThroughViews));
    assert!(is_writable(&integers(vec![Some(1)]).to_data()));
}

#[test]
fn lists_of_one_size_are_counted_by_their_one_element() {
    let item = || Arc::new(Field::new("item", DataType::Int64, true));
    let lists = |size: i32| -> ArrayRef {
        let numbers = integers(vec![Some(1), Some(2), Some(1), None]);
        Arc::new(FixedSizeListArray::try_new(item(), size, numbers, None).expect("lists"))
    };
    assert_eq!(cast_count(lists(1)), Some(2));
    assert_eq!(cast_count(lists(2)), None);
}

#[test]
fn observations_do_not_depend_on_the_order_of_batches() {
    let batches = || {
        vec![
            batch(vec![("id", integers(vec![Some(1), None]))]),
            batch(vec![("id", integers(vec![Some(2), Some(1), None]))]),
            batch(vec![("id", integers(vec![Some(3)]))]),
        ]
    };
    let plan = plan_of(vec![column("id", "Int64")]);
    let mut reversed = batches();
    reversed.reverse();

    let first = collect_batch_statistics(&plan, &batches()).expect("observation");
    let second = collect_batch_statistics(&plan, &reversed).expect("observation");

    assert_eq!(first.columns, second.columns);
    assert_eq!(distinct_of(&first, "id"), Some(3));
    assert_eq!(nulls_of(&first, "id"), 2);
}

#[test]
fn nulls_are_not_distinct_values() {
    let dictionary: DictionaryArray<Int32Type> =
        vec![Some("a"), None, Some("b"), None].into_iter().collect();
    let batches = [
        batch(vec![
            ("id", integers(vec![Some(1), None, Some(2), None])),
            ("kind", Arc::new(dictionary)),
        ]),
        batch(vec![("id", integers(vec![None])), ("kind", integers(vec![None]))]),
    ];
    let plan = plan_of(vec![column("id", "Int64"), column("kind", "Utf8")]);

    let observation = collect_batch_statistics(&plan, &batches).expect("observation");

    for name in ["id", "kind"] {
        assert_eq!(distinct_of(&observation, name), Some(2));
        assert_eq!(nulls_of(&observation, name), 3);
    }
    assert_eq!(observation.columns[0].sample_count, 5);
}

#[test]
fn nulls_among_lists_of_one_element_are_lost_in_a_cast() {
    let kinds: DictionaryArray<Int32Type> = vec![Some("a")].into_iter().collect();
    let item = Arc::new(Field::new("item", DataType::Int64, true));
    let lists = FixedSizeListArray::try_new(
        item,
        1,
        integers(vec![Some(1), Some(2)]),
        Some(NullBuffer::from(vec![true, false])),
    );
    let batches = [
        batch(vec![("kind", Arc::new(kinds))]),
        batch(vec![("kind", Arc::new(lists.expect("lists")))]),
    ];
    let plan = plan_of(vec![column("kind", "Utf8")]);

    let observation = collect_batch_statistics(&plan, &batches).expect("observation");

    assert_eq!(distinct_of(&observation, "kind"), Some(3));
    assert_eq!(nulls_of(&observation, "kind"), 1);
    assert_eq!(observation.columns[0].sample_count, 3);
}
