use inference_cache::json_text::{escape_into, parse_json_string, push_json_string};
use inference_cache::numeric::{i32_to_decimal, u64_to_decimal};
use inference_cache::request::{
    serialize_blocks, serialize_request, ContentBlock, FunctionType, ModelInferenceRequest,
    ModelInferenceRequestJsonMode, RequestMessage, Role,
};
use inference_cache::rows::{parse_blocks, serialize_cache_row, ModelInferenceCacheRow};

#[test]
fn decimal_formatting() {
    assert_eq!(u64_to_decimal(0), "0");
    assert_eq!(u64_to_decimal(7), "7");
    assert_eq!(u64_to_decimal(1234567890), "1234567890");
    assert_eq!(u64_to_decimal(u64::MAX), "18446744073709551615");
    assert_eq!(i32_to_decimal(-42), "-42");
    assert_eq!(i32_to_decimal(0), "0");
    assert_eq!(i32_to_decimal(i32::MIN), "-2147483648");
}

#[test]
fn json_string_escape_round_trip() {
    let original = "line\none \"quoted\" back\\slash\ttab ünïcode \u{1}";
    let mut encoded = String::new();
    push_json_string(original, &mut encoded);
    let (decoded, end) = parse_json_string(&encoded, 0).unwrap();
    assert_eq!(decoded, original);
    assert_eq!(end, encoded.chars().count());
}

#[test]
fn escape_exact_form() {
    let mut out = String::new();
    escape_into("a\"b\\c\nd", &mut out);
    assert_eq!(out, "a\\\"b\\\\c\\u000ad");
}

#[test]
fn parser_accepts_store_escapes() {
    let (decoded, _) = parse_json_string("\"a\\nb\\t\\/\\u0041\"", 0).unwrap();
    assert_eq!(decoded, "a\nb\t/A");
}

#[test]
fn parser_rejects_high_unicode_escape() {
    assert!(parse_json_string("\"\\u1234\"", 0).is_none());
    assert!(parse_json_string("\"unterminated", 0).is_none());
}

#[test]
fn serialize_request_exact_form() {
    let r = ModelInferenceRequest {
        messages: vec![],
        system: None,
        tool_config: None,
        temperature: None,
        top_p: None,
        presence_penalty: None,
        frequency_penalty: None,
        max_tokens: None,
        seed: None,
        stream: false,
        json_mode: ModelInferenceRequestJsonMode::Off,
        function_type: FunctionType::Chat,
        output_schema: None,
    };
    assert_eq!(
        serialize_request(&r),
        "{\"messages\":[],\"system\":null,\"tool_config\":null,\"temperature\":null,\"top_p\":null,\"presence_penalty\":null,\"frequency_penalty\":null,\"max_tokens\":null,\"seed\":null,\"stream\":false,\"json_mode\":\"off\",\"function_type\":\"chat\",\"output_schema\":null}"
    );
}

#[test]
fn serialize_request_full_fields() {
    let r = ModelInferenceRequest {
        messages: vec![RequestMessage {
            role: Role::User,
            content: vec![ContentBlock::Text { text: "hi".to_string() }],
        }],
        system: Some("be brief".to_string()),
        tool_config: Some("{\"tools\":[]}".to_string()),
        temperature: Some(7),
        top_p: Some(9),
        presence_penalty: Some(-1),
        frequency_penalty: Some(2),
        max_tokens: Some(100),
        seed: Some(42),
        stream: true,
        json_mode: ModelInferenceRequestJsonMode::Strict,
        function_type: FunctionType::Json,
        output_schema: Some("{\"type\":\"object\"}".to_string()),
    };
    assert_eq!(
        serialize_request(&r),
        "{\"messages\":[{\"role\":\"user\",\"content\":[{\"type\":\"text\",\"text\":\"hi\"}]}],\"system\":\"be brief\",\"tool_config\":\"{\\\"tools\\\":[]}\",\"temperature\":7,\"top_p\":9,\"presence_penalty\":-1,\"frequency_penalty\":2,\"max_tokens\":100,\"seed\":42,\"stream\":true,\"json_mode\":\"strict\",\"function_type\":\"json\",\"output_schema\":\"{\\\"type\\\":\\\"object\\\"}\"}"
    );
}

#[test]
fn blocks_round_trip_all_kinds() {
    let blocks = vec![
        ContentBlock::Text { text: "To\"kyo\n".to_string() },
        ContentBlock::ToolCall {
            id: "c1".to_string(),
            name: "look_up".to_string(),
            arguments: "{\"city\":\"Tokyo\"}".to_string(),
        },
        ContentBlock::ToolResult {
            id: "c1".to_string(),
            name: "look_up".to_string(),
            result: "35.7°N".to_string(),
        },
    ];
    let mut text = String::new();
    serialize_blocks(&blocks, &mut text);
    let parsed = parse_blocks(&text).unwrap();
    assert_eq!(parsed.len(), 3);
    match &parsed[0] {
        ContentBlock::Text { text } => assert_eq!(text, "To\"kyo\n"),
        other => panic!("unexpected block: {other:?}"),
    }
    match &parsed[1] {
        ContentBlock::ToolCall { id, name, arguments } => {
            assert_eq!(id, "c1");
            assert_eq!(name, "look_up");
            assert_eq!(arguments, "{\"city\":\"Tokyo\"}");
        },
        other => panic!("unexpected block: {other:?}"),
    }
    match &parsed[2] {
        ContentBlock::ToolResult { id, name, result } => {
            assert_eq!(id, "c1");
            assert_eq!(name, "look_up");
            assert_eq!(result, "35.7°N");
        },
        other => panic!("unexpected block: {other:?}"),
    }
}

#[test]
fn empty_block_list_round_trip() {
    let blocks: Vec<ContentBlock> = vec![];
    let mut text = String::new();
    serialize_blocks(&blocks, &mut text);
    assert_eq!(text, "[]");
    assert_eq!(parse_blocks(&text).unwrap().len(), 0);
}

#[test]
fn parse_blocks_rejects_malformed_lists() {
    assert!(parse_blocks("").is_none());
    assert!(parse_blocks("[").is_none());
    assert!(parse_blocks("[]x").is_none());
    assert!(parse_blocks("[{\"type\":\"text\"}]").is_none());
    assert!(parse_blocks("not json at all").is_none());
}

#[test]
fn serialize_cache_row_exact_form() {
    let row = ModelInferenceCacheRow {
        short_cache_key: 99,
        long_cache_key: "ab".to_string(),
        output: vec![ContentBlock::Text { text: "x".to_string() }],
        raw_request: "rq".to_string(),
        raw_response: "rs".to_string(),
    };
    assert_eq!(
        serialize_cache_row(&row),
        "{\"short_cache_key\":99,\"long_cache_key\":\"ab\",\"output\":\"[{\\\"type\\\":\\\"text\\\",\\\"text\\\":\\\"x\\\"}]\",\"raw_request\":\"rq\",\"raw_response\":\"rs\"}"
    );
}
