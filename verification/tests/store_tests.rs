use store_clients::cache::interpret_fetched;
use store_clients::cache::CacheCore;
use store_clients::cache::WriteCommand;
use store_clients::doc_store::keep_decoded;
use store_clients::doc_store::normalize_filter;
use store_clients::doc_store::Query;
use store_clients::value::StoreValue;
use store_clients::StoreError;

fn text(s: &str) -> StoreValue {
    StoreValue::Text(s.to_string())
}

fn object(entries: Vec<(&str, StoreValue)>) -> StoreValue {
    StoreValue::Object(entries.into_iter().map(|(k, v)| (k.to_string(), v)).collect())
}

/// The store side of a find, as the query engine would match: a record
/// matches when it is map-like and holds every queried field with an equal
/// value.
fn store_matches(record: &StoreValue, query: &Query) -> bool {
    let entries = match record {
        StoreValue::Object(entries) => entries,
        _ => return false,
    };
    query.fields.iter().all(|(k, v)| {
        entries.iter().any(|(rk, rv)| rk == k && rv == v)
    })
}

/// A payload type with two required text fields, and the decode step the
/// driver would run for it: both fields must be present and textual.
#[derive(Debug, PartialEq, Eq)]
struct Entity {
    id: String,
    cat: String,
}

fn decode_entity(record: &StoreValue) -> Option<Entity> {
    let entries = match record {
        StoreValue::Object(entries) => entries,
        _ => return None,
    };
    let field = |name: &str| {
        entries.iter().find_map(|(k, v)| match v {
            StoreValue::Text(t) if k == name => Some(t.clone()),
            _ => None,
        })
    };
    Some(Entity { id: field("id")?, cat: field("cat")? })
}

fn run_find(records: &[StoreValue], filter: StoreValue) -> Result<Vec<Entity>, StoreError> {
    let query = normalize_filter(filter)?;
    let fetched: Vec<Option<Entity>> = records
        .iter()
        .filter(|r| store_matches(r, &query))
        .map(decode_entity)
        .collect();
    Ok(keep_decoded(fetched))
}

#[test]
fn find_keeps_only_matching_record() {
    let records = vec![
        object(vec![("id", text("1")), ("cat", text("19"))]),
        object(vec![("id", text("2")), ("cat", text("20"))]),
    ];
    let found = run_find(&records, object(vec![("cat", text("19"))])).unwrap();
    assert_eq!(found.len(), 1);
    assert_eq!(found[0].id, "1");
}

#[test]
fn find_drops_undecodable_record_without_error() {
    let records = vec![object(vec![("id", text("1"))])];
    let found = run_find(&records, object(vec![])).unwrap();
    assert!(found.is_empty());
}

#[test]
fn keep_decoded_preserves_store_order() {
    let fetched = vec![Some(10u64), None, Some(20u64), None, Some(30u64)];
    assert_eq!(keep_decoded(fetched), vec![10, 20, 30]);
}

#[test]
fn keep_decoded_of_nothing_is_empty() {
    let fetched: Vec<Option<u64>> = Vec::new();
    assert!(keep_decoded(fetched).is_empty());
}

#[test]
fn scalar_filter_is_a_caller_error() {
    assert_eq!(normalize_filter(StoreValue::Int(3)).unwrap_err(), StoreError::FilterEncoding);
    assert_eq!(normalize_filter(text("x")).unwrap_err(), StoreError::FilterEncoding);
    assert_eq!(
        normalize_filter(StoreValue::Array(vec![StoreValue::Null])).unwrap_err(),
        StoreError::FilterEncoding
    );
}

#[test]
fn empty_filter_is_map_like() {
    let query = normalize_filter(object(vec![])).unwrap();
    assert!(query.fields.is_empty());
}

#[test]
fn normalized_query_keeps_the_fields() {
    let query = normalize_filter(object(vec![("cat", text("19"))])).unwrap();
    assert_eq!(query.fields.len(), 1);
    assert_eq!(query.fields[0].0, "cat");
    assert_eq!(query.fields[0].1, text("19"));
}

#[test]
fn put_with_default_expiry_issues_expiring_set() {
    let core = CacheCore::new(Some(60));
    let cmd = core.plan_put("k".to_string(), &text("v"));
    match cmd {
        WriteCommand::Expiring { key, expiry_seconds, .. } => {
            assert_eq!(key, "k");
            assert_eq!(expiry_seconds, 60);
        }
        WriteCommand::Plain { .. } => panic!("expected an expiring set"),
    }
}

#[test]
fn put_without_expiry_issues_plain_set() {
    let core = CacheCore::new(None);
    let cmd = core.plan_put("k".to_string(), &StoreValue::Bool(true));
    match cmd {
        WriteCommand::Plain { key, .. } => assert_eq!(key, "k"),
        WriteCommand::Expiring { .. } => panic!("expected a plain set"),
    }
}

#[test]
fn get_of_missing_key_is_not_found() {
    assert_eq!(interpret_fetched(None).unwrap_err(), StoreError::NotFound);
}

#[test]
fn put_payload_reads_back_the_same_value() {
    let value = object(vec![
        ("arr", StoreValue::Array(vec![StoreValue::Int(1), StoreValue::Null])),
        ("b", StoreValue::Bool(true)),
        ("n", StoreValue::Int(-5)),
        ("nested", object(vec![("x", text("y"))])),
        ("s", text("h\u{e9}llo \" escape\n")),
    ]);
    let expected = object(vec![
        ("arr", StoreValue::Array(vec![StoreValue::Int(1), StoreValue::Null])),
        ("b", StoreValue::Bool(true)),
        ("n", StoreValue::Int(-5)),
        ("nested", object(vec![("x", text("y"))])),
        ("s", text("h\u{e9}llo \" escape\n")),
    ]);
    let cmd = CacheCore::new(None).plan_put("k".to_string(), &value);
    let payload = match cmd {
        WriteCommand::Plain { payload, .. } => payload,
        WriteCommand::Expiring { .. } => panic!("no expiry was configured"),
    };
    assert_eq!(interpret_fetched(Some(payload)).unwrap(), expected);
}

#[test]
fn extreme_integers_read_back_exactly() {
    let value = StoreValue::Array(vec![
        StoreValue::Int(i64::MAX),
        StoreValue::Int(i64::MIN),
        StoreValue::Int(0),
    ]);
    let expected = StoreValue::Array(vec![
        StoreValue::Int(i64::MAX),
        StoreValue::Int(i64::MIN),
        StoreValue::Int(0),
    ]);
    let cmd = CacheCore::new(Some(1)).plan_put("k".to_string(), &value);
    let payload = match cmd {
        WriteCommand::Expiring { payload, .. } => payload,
        WriteCommand::Plain { .. } => panic!("an expiry was configured"),
    };
    assert_eq!(interpret_fetched(Some(payload)).unwrap(), expected);
}

#[test]
fn payload_text_is_the_compact_encoding() {
    let cmd = CacheCore::new(None).plan_put(
        "k".to_string(),
        &object(vec![("a", StoreValue::Int(1)), ("b", text("x"))]),
    );
    match cmd {
        WriteCommand::Plain { payload, .. } => {
            assert_eq!(payload, "{\"a\":1,\"b\":\"x\"}");
        }
        WriteCommand::Expiring { .. } => panic!("no expiry was configured"),
    }
}

#[test]
fn find_ignores_filter_entry_order() {
    let records = vec![
        object(vec![("id", text("1")), ("cat", text("19"))]),
        object(vec![("id", text("2")), ("cat", text("20"))]),
    ];
    let forward = run_find(&records, object(vec![("cat", text("19")), ("id", text("1"))]));
    let backward = run_find(&records, object(vec![("id", text("1")), ("cat", text("19"))]));
    assert_eq!(forward.unwrap(), backward.unwrap());
}

fn nested_arrays(depth: usize) -> StoreValue {
    let mut value = StoreValue::Null;
    for _ in 0..depth {
        value = StoreValue::Array(vec![value]);
    }
    value
}

fn payload_of(cmd: WriteCommand) -> String {
    match cmd {
        WriteCommand::Plain { payload, .. } => payload,
        WriteCommand::Expiring { .. } => panic!("no expiry was configured"),
    }
}

#[test]
fn deepest_decodable_value_reads_back() {
    let cmd = CacheCore::new(None).plan_put("k".to_string(), &nested_arrays(127));
    assert_eq!(
        interpret_fetched(Some(payload_of(cmd))).unwrap(),
        nested_arrays(127)
    );
}

#[test]
fn value_past_the_decoder_nesting_limit_is_a_decode_error() {
    let cmd = CacheCore::new(None).plan_put("k".to_string(), &nested_arrays(128));
    assert_eq!(
        interpret_fetched(Some(payload_of(cmd))).unwrap_err(),
        StoreError::Decode
    );
}

#[test]
fn repeated_key_keeps_its_last_entry() {
    let value = object(vec![("a", StoreValue::Int(1)), ("a", StoreValue::Int(2))]);
    let cmd = CacheCore::new(None).plan_put("k".to_string(), &value);
    let payload = match cmd {
        WriteCommand::Plain { payload, .. } => payload,
        WriteCommand::Expiring { .. } => panic!("no expiry was configured"),
    };
    assert_eq!(
        interpret_fetched(Some(payload)).unwrap(),
        object(vec![("a", StoreValue::Int(2))])
    );
}

#[test]
fn malformed_text_is_a_decode_error() {
    assert_eq!(
        interpret_fetched(Some("not a structural text".to_string())).unwrap_err(),
        StoreError::Decode
    );
}

#[test]
fn fractional_number_is_a_decode_error() {
    assert_eq!(interpret_fetched(Some("1.5".to_string())).unwrap_err(), StoreError::Decode);
}

#[test]
fn scalar_texts_read_back_as_scalars() {
    assert_eq!(interpret_fetched(Some("42".to_string())).unwrap(), StoreValue::Int(42));
    assert_eq!(interpret_fetched(Some("null".to_string())).unwrap(), StoreValue::Null);
    assert_eq!(interpret_fetched(Some("\"v\"".to_string())).unwrap(), text("v"));
}
