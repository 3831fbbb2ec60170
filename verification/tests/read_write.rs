use inference_cache::cache::{default_write, CacheOptions};
use inference_cache::errors::CacheError;
use inference_cache::keys::ModelProviderRequest;
use inference_cache::reader::{build_lookup_query, interpret_lookup_response};
use inference_cache::request::{
    ContentBlock, FunctionType, ModelInferenceRequest, ModelInferenceRequestJsonMode,
};
use inference_cache::rows::serialize_cache_row;
use inference_cache::store::{CacheTable, StoredRow};
use inference_cache::writer::prepare_cache_write;

fn empty_request(stream: bool) -> ModelInferenceRequest {
    ModelInferenceRequest {
        messages: vec![],
        system: None,
        tool_config: None,
        temperature: None,
        top_p: None,
        presence_penalty: None,
        frequency_penalty: None,
        max_tokens: None,
        seed: None,
        stream,
        json_mode: ModelInferenceRequestJsonMode::Off,
        function_type: FunctionType::Chat,
        output_schema: None,
    }
}

fn stored(row: &inference_cache::rows::ModelInferenceCacheRow, timestamp: u64) -> StoredRow {
    StoredRow {
        short_cache_key: row.short_cache_key,
        long_cache_key: row.long_cache_key.clone(),
        output: row.output.clone(),
        raw_request: row.raw_request.clone(),
        raw_response: row.raw_response.clone(),
        timestamp,
    }
}

#[test]
fn cache_options_defaults() {
    let opts = CacheOptions::default();
    assert!(!opts.read);
    assert!(opts.write);
    assert!(opts.max_age_s.is_none());
    assert!(default_write());
}

#[test]
fn lookup_query_forms() {
    let r = empty_request(false);
    let key = ModelProviderRequest { request: &r, model_name: "m", provider_name: "p" }
        .get_cache_key()
        .unwrap();
    let bounded = build_lookup_query(&key, Some(300));
    assert_eq!(
        bounded.sql,
        "SELECT output, raw_request, raw_response FROM ModelInferenceCache WHERE short_cache_key = {short_cache_key:UInt64} AND long_cache_key = {long_cache_key:String} AND timestamp > subtractSeconds(now(), {lookback_s:UInt32}) ORDER BY timestamp DESC LIMIT 1 FORMAT JSONEachRow"
    );
    assert_eq!(bounded.lookback_s.as_deref(), Some("300"));
    assert_eq!(bounded.short_cache_key, key.get_short_key().unwrap().to_string());
    assert_eq!(bounded.long_cache_key, key.get_long_key());
    let unbounded = build_lookup_query(&key, None);
    assert_eq!(
        unbounded.sql,
        "SELECT output, raw_request, raw_response FROM ModelInferenceCache WHERE short_cache_key = {short_cache_key:UInt64} AND long_cache_key = {long_cache_key:String} ORDER BY timestamp DESC LIMIT 1 FORMAT JSONEachRow"
    );
    assert!(unbounded.lookback_s.is_none());
}

#[test]
fn write_then_read_round_trip() {
    let r = empty_request(false);
    let request = ModelProviderRequest { request: &r, model_name: "m", provider_name: "p" };
    let output = vec![ContentBlock::Text { text: "Tokyo".to_string() }];
    let row = prepare_cache_write(&request, &output, "raw req", "raw resp").unwrap();
    let mut table = CacheTable::new();
    table.insert(stored(&row, 1000));
    let hit = table
        .lookup(row.short_cache_key, &row.long_cache_key, 2000, None)
        .expect("a bound-free lookup must return the written row");
    assert_eq!(hit.raw_request, "raw req");
    assert_eq!(hit.raw_response, "raw resp");
    assert_eq!(hit.output.len(), 1);
    match &hit.output[0] {
        ContentBlock::Text { text } => assert_eq!(text, "Tokyo"),
        other => panic!("unexpected block: {other:?}"),
    }
}

#[test]
fn freshness_boundary() {
    let r = empty_request(false);
    let request = ModelProviderRequest { request: &r, model_name: "m", provider_name: "p" };
    let output = vec![ContentBlock::Text { text: "x".to_string() }];
    let row = prepare_cache_write(&request, &output, "q", "a").unwrap();
    let mut table = CacheTable::new();
    table.insert(stored(&row, 100));
    // now - T == S: still fresh.
    assert!(table.lookup(row.short_cache_key, &row.long_cache_key, 160, Some(60)).is_some());
    // now - T == S + 1: excluded.
    assert!(table.lookup(row.short_cache_key, &row.long_cache_key, 161, Some(60)).is_none());
    // No bound: age is ignored entirely.
    assert!(table.lookup(row.short_cache_key, &row.long_cache_key, 1_000_000, None).is_some());
}

#[test]
fn most_recent_row_wins() {
    let r = empty_request(false);
    let request = ModelProviderRequest { request: &r, model_name: "m", provider_name: "p" };
    let first = prepare_cache_write(
        &request,
        &vec![ContentBlock::Text { text: "old".to_string() }],
        "q",
        "old answer",
    )
    .unwrap();
    let second = prepare_cache_write(
        &request,
        &vec![ContentBlock::Text { text: "new".to_string() }],
        "q",
        "new answer",
    )
    .unwrap();
    // Both rows carry the same keys: same request, same fingerprint.
    assert_eq!(first.short_cache_key, second.short_cache_key);
    assert_eq!(first.long_cache_key, second.long_cache_key);
    let mut table = CacheTable::new();
    table.insert(stored(&first, 10));
    table.insert(stored(&second, 20));
    let hit = table.lookup(first.short_cache_key, &first.long_cache_key, 30, None).unwrap();
    assert_eq!(hit.raw_response, "new answer");
}

#[test]
fn lookup_misses_on_other_keys() {
    let r = empty_request(false);
    let request = ModelProviderRequest { request: &r, model_name: "m", provider_name: "p" };
    let row = prepare_cache_write(
        &request,
        &vec![ContentBlock::Text { text: "x".to_string() }],
        "q",
        "a",
    )
    .unwrap();
    let mut table = CacheTable::new();
    table.insert(stored(&row, 10));
    // Same narrow key but a different wide key is not a hit: the wide
    // key verifies the match.
    let other_long = "f".repeat(64);
    assert!(table.lookup(row.short_cache_key, &other_long, 20, None).is_none());
    assert!(table.lookup(row.short_cache_key.wrapping_add(1), &row.long_cache_key, 20, None).is_none());
}

#[test]
fn interpret_empty_response_is_miss() {
    let result = interpret_lookup_response("", "p").unwrap();
    assert!(result.is_none());
}

#[test]
fn interpret_row_response_reconstructs_response() {
    let raw = "{\"output\":\"[{\\\"type\\\":\\\"text\\\",\\\"text\\\":\\\"Tokyo\\\"}]\",\"raw_request\":\"rq\",\"raw_response\":\"rs\"}\n";
    let response = interpret_lookup_response(raw, "openai").unwrap().unwrap();
    assert!(response.cached);
    assert_eq!(response.model_provider_name, "openai");
    assert_eq!(response.raw_request, "rq");
    assert_eq!(response.raw_response, "rs");
    assert_eq!(response.output.len(), 1);
    match &response.output[0] {
        ContentBlock::Text { text } => assert_eq!(text, "Tokyo"),
        other => panic!("unexpected block: {other:?}"),
    }
}

#[test]
fn interpret_malformed_response_is_cache_error() {
    match interpret_lookup_response("not a row", "p") {
        Err(CacheError::Cache { .. }) => {},
        other => panic!("expected a cache error, got {other:?}"),
    }
    // A well-formed row whose output column does not hold a block list
    // is corruption too.
    let raw = "{\"output\":\"oops\",\"raw_request\":\"rq\",\"raw_response\":\"rs\"}";
    match interpret_lookup_response(raw, "p") {
        Err(CacheError::Cache { .. }) => {},
        other => panic!("expected a cache error, got {other:?}"),
    }
}

#[test]
fn insert_text_matches_lookup_expectations() {
    // The writer's insert text and the reader's row grammar agree on
    // the nested output encoding.
    let r = empty_request(false);
    let request = ModelProviderRequest { request: &r, model_name: "m", provider_name: "p" };
    let output = vec![ContentBlock::Text { text: "x\"y".to_string() }];
    let row = prepare_cache_write(&request, &output, "rq", "rs").unwrap();
    let text = serialize_cache_row(&row);
    let parsed: serde_json::Value = serde_json::from_str(&text).unwrap();
    assert_eq!(parsed["short_cache_key"].as_u64().unwrap(), row.short_cache_key);
    assert_eq!(parsed["long_cache_key"].as_str().unwrap(), row.long_cache_key);
    let inner: serde_json::Value =
        serde_json::from_str(parsed["output"].as_str().unwrap()).unwrap();
    assert_eq!(inner[0]["type"].as_str().unwrap(), "text");
    assert_eq!(inner[0]["text"].as_str().unwrap(), "x\"y");
}

#[test]
fn end_to_end_write_then_lookup_request() {
    let r = empty_request(false);
    let request = ModelProviderRequest { request: &r, model_name: "m", provider_name: "p" };
    let mut table = CacheTable::new();
    table.write_request(
        &request,
        &vec![ContentBlock::Text { text: "Tokyo".to_string() }],
        "rq",
        "rs",
        50,
    );
    let hit = table.lookup_request(&request, 60, Some(30)).expect("fresh row must be found");
    assert!(hit.cached);
    assert_eq!(hit.model_provider_name, "p");
    assert_eq!(hit.raw_request, "rq");
    assert_eq!(hit.raw_response, "rs");
    // The same row has aged out under a tighter bound...
    assert!(table.lookup_request(&request, 100, Some(30)).is_none());
    // ...and a different request never sees it.
    let other = empty_request(true);
    let other_request = ModelProviderRequest { request: &other, model_name: "m", provider_name: "p" };
    assert!(table.lookup_request(&other_request, 60, None).is_none());
}
