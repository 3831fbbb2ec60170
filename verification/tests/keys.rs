use inference_cache::keys::{CacheKey, ModelProviderRequest};
use inference_cache::request::{
    FunctionType, ModelInferenceRequest, ModelInferenceRequestJsonMode,
};

fn empty_request(stream: bool) -> ModelInferenceRequest {
    ModelInferenceRequest {
        messages: vec![],
        system: None,
        tool_config: None,
        temperature: None,
        top_p: None,
        presence_penalty: None,
        frequency_penalty: None,
        max_tokens: None,
        seed: None,
        stream,
        json_mode: ModelInferenceRequestJsonMode::Off,
        function_type: FunctionType::Chat,
        output_schema: None,
    }
}

/// This test ensures that if we make a small change to the ModelInferenceRequest,
/// the cache key will change.
#[test]
fn test_get_cache_key() {
    let model_inference_request = empty_request(false);
    let model_provider_request = ModelProviderRequest {
        request: &model_inference_request,
        model_name: "test_model",
        provider_name: "test_provider",
    };
    let cache_key = model_provider_request.get_cache_key().unwrap();
    let streaming_model_inference_request = empty_request(true);
    let model_provider_request = ModelProviderRequest {
        request: &streaming_model_inference_request,
        model_name: "test_model",
        provider_name: "test_provider",
    };
    let streaming_cache_key = model_provider_request.get_cache_key().unwrap();
    assert_ne!(cache_key, streaming_cache_key);
}

#[test]
fn identical_requests_give_identical_keys() {
    let a = empty_request(false);
    let b = empty_request(false);
    let ka = ModelProviderRequest { request: &a, model_name: "m", provider_name: "p" }
        .get_cache_key()
        .unwrap();
    let kb = ModelProviderRequest { request: &b, model_name: "m", provider_name: "p" }
        .get_cache_key()
        .unwrap();
    assert_eq!(ka, kb);
    assert_eq!(ka.get_long_key(), kb.get_long_key());
    assert_eq!(ka.get_short_key().unwrap(), kb.get_short_key().unwrap());
}

#[test]
fn prefix_freedom_of_model_and_provider_names() {
    let r = empty_request(false);
    let k1 = ModelProviderRequest { request: &r, model_name: "a", provider_name: "bc" }
        .get_cache_key()
        .unwrap();
    let k2 = ModelProviderRequest { request: &r, model_name: "ab", provider_name: "c" }
        .get_cache_key()
        .unwrap();
    assert_ne!(k1, k2);
    assert_ne!(k1.get_long_key(), k2.get_long_key());
}

#[test]
fn narrow_key_is_little_endian_of_wide_key_prefix() {
    let mut digest = [0u8; 32];
    for (i, b) in digest.iter_mut().enumerate() {
        *b = i as u8;
    }
    let key = CacheKey::from_digest(digest);
    let short = key.get_short_key().unwrap();
    let long = key.get_long_key();
    // Deriving either form again gives the same values.
    assert_eq!(short, key.get_short_key().unwrap());
    assert_eq!(long, key.get_long_key());
    // The wide key decodes back to the digest bytes...
    let decoded = hex::decode(&long).unwrap();
    assert_eq!(decoded, digest.to_vec());
    // ...and the narrow key is the little-endian reading of the first
    // 8 of them.
    let mut head = [0u8; 8];
    head.copy_from_slice(&decoded[..8]);
    assert_eq!(short, u64::from_le_bytes(head));
    assert_eq!(short, 0x0706050403020100u64);
}

#[test]
fn wide_key_exact_value() {
    let mut digest = [0u8; 32];
    for (i, b) in digest.iter_mut().enumerate() {
        *b = i as u8;
    }
    let key = CacheKey::from_digest(digest);
    assert_eq!(
        key.get_long_key(),
        "000102030405060708090a0b0c0d0e0f101112131415161718191a1b1c1d1e1f"
    );
}

#[test]
fn fingerprint_matches_hash_of_framed_input() {
    let r = empty_request(false);
    let serialized = inference_cache::request::serialize_request(&r);
    let mut input: Vec<u8> = Vec::new();
    input.extend_from_slice("test_model".as_bytes());
    input.push(0);
    input.extend_from_slice("test_provider".as_bytes());
    input.push(0);
    input.extend_from_slice(serialized.as_bytes());
    let expected = blake3::hash(&input);
    let key = ModelProviderRequest {
        request: &r,
        model_name: "test_model",
        provider_name: "test_provider",
    }
    .get_cache_key()
    .unwrap();
    assert_eq!(key.get_long_key(), hex::encode(expected.as_bytes()));
}
