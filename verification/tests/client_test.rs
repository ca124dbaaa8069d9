use goose_services::{
    embedding_request, encode_image_base64, image_request, speech_request, transcription_form,
    vision_request, configured_endpoint, data_url, decode_generated_image, image_data_url, image_from_bytes,
    prepare, read_image_item, request_failure_message, sniff_image_mime, transcription_text,
    vision_text, AuthMethod, Config, DeclaredProvider, ImageItem, ImagePayload,
    OpenAiCompatEndpoint, ProviderEngine, ServiceCall, ServiceError, ServiceKind, StringMap,
};

fn endpoint(base_url: &str, api_key: &str) -> OpenAiCompatEndpoint {
    OpenAiCompatEndpoint {
        api_key: api_key.to_string(),
        base_url: base_url.to_string(),
        headers: None,
    }
}

#[test]
fn prepare_plans_an_unauthenticated_request() {
    let call = ServiceCall::ImageGeneration;
    let plan = prepare(
        &endpoint("https://api.vcorp.ai/v1/chat/completions", ""),
        call.versioned_path(),
        call.versionless_path(),
        None::<()>,
        call.timeout_secs(),
    )
    .unwrap();
    assert_eq!(plan.host, "https://api.vcorp.ai");
    assert_eq!(plan.path, "v1/images/generations");
    assert!(plan.query_params.is_empty());
    assert!(matches!(plan.auth, AuthMethod::NoAuth));
    assert!(plan.headers.is_none());
    assert!(plan.tls.is_none());
    assert_eq!(plan.timeout_secs, 120);
}

#[test]
fn prepare_uses_the_api_key_as_bearer_token_and_keeps_headers() {
    let mut target = endpoint("https://api.openai.com/v1", "sk-test");
    let mut headers = StringMap::new();
    headers.insert("OpenAI-Project".to_string(), "p".to_string());
    target.headers = Some(headers);
    let plan = prepare(&target, "v1/embeddings", "embeddings", Some("tls-profile"), 60).unwrap();
    assert_eq!(plan.tls, Some("tls-profile"));
    match plan.auth {
        AuthMethod::BearerToken(token) => assert_eq!(token, "sk-test"),
        AuthMethod::NoAuth => panic!("expected a bearer token"),
    }
    assert_eq!(plan.host, "https://api.openai.com");
    assert_eq!(plan.path, "v1/embeddings");
    assert_eq!(plan.headers.unwrap().get("OpenAI-Project"), Some("p".to_string()));
}

#[test]
fn prepare_rejects_a_malformed_base_url() {
    let error = prepare(&endpoint("api.example.com", ""), "v1/x", "x", None::<()>, 60).unwrap_err();
    assert_eq!(error, ServiceError::InvalidBaseUrl("api.example.com".to_string()));
}

#[test]
fn service_calls_use_openai_paths_and_timeouts() {
    let expected = [
        (ServiceCall::Transcription, "v1/audio/transcriptions", "audio/transcriptions", 60),
        (ServiceCall::Speech, "v1/audio/speech", "audio/speech", 120),
        (ServiceCall::Embeddings, "v1/embeddings", "embeddings", 60),
        (ServiceCall::ImageGeneration, "v1/images/generations", "images/generations", 120),
        (ServiceCall::VisionChat, "v1/chat/completions", "chat/completions", 60),
    ];
    for (call, versioned, versionless, timeout) in expected {
        assert_eq!(call.versioned_path(), versioned);
        assert_eq!(call.versionless_path(), versionless);
        assert_eq!(call.timeout_secs(), timeout);
    }
}

#[test]
fn unconfigured_service_reports_its_label() {
    let config = Config::new();
    let error = configured_endpoint(&config, ServiceKind::Stt).unwrap_err();
    assert_eq!(error, ServiceError::NotConfigured(ServiceKind::Stt));
    assert_eq!(error.message(), "STT service provider and model are not configured");
    let vision = ServiceError::NotConfigured(ServiceKind::Vision);
    assert_eq!(vision.message(), "Vision service provider and model are not configured");
    let tts = ServiceError::NotConfigured(ServiceKind::Tts);
    assert_eq!(tts.message(), "TTS service provider and model are not configured");
    let embedding = ServiceError::NotConfigured(ServiceKind::Embedding);
    assert_eq!(embedding.message(), "Embedding service provider and model are not configured");
    let image = ServiceError::NotConfigured(ServiceKind::Image);
    assert_eq!(image.message(), "Image service provider and model are not configured");
}

#[test]
fn configured_service_resolves_its_provider() {
    let mut config = Config::new();
    config.set_param("GOOSE_SERVICE_VISION_PROVIDER", " vcorp ");
    config.set_param("GOOSE_SERVICE_VISION_MODEL", "google/gemini");
    config.set_secret("VCORP_API_KEY", "v-key");
    config.add_provider(DeclaredProvider {
        name: "vcorp".to_string(),
        engine: ProviderEngine::OpenAI,
        base_url: "https://api.vcorp.ai/v1/chat/completions".to_string(),
        env_vars: None,
        api_key_env: "VCORP_API_KEY".to_string(),
        requires_auth: true,
        headers: None,
    });
    let (target, model) = configured_endpoint(&config, ServiceKind::Vision).unwrap();
    assert_eq!(model, "google/gemini");
    assert_eq!(target.base_url, "https://api.vcorp.ai");
    assert_eq!(target.api_key, "v-key");
}

#[test]
fn failure_message_quotes_short_replies_whole() {
    assert_eq!(
        request_failure_message("404 Not Found", "no such model"),
        "service request failed (404 Not Found): no such model"
    );
    let exact = "b".repeat(512);
    assert_eq!(
        request_failure_message("500", &exact),
        format!("service request failed (500): {exact}")
    );
}

#[test]
fn failure_message_cuts_long_replies() {
    let body = "é".repeat(600);
    let message = request_failure_message("500 Internal Server Error", &body);
    let expected = format!("service request failed (500 Internal Server Error): {}…", "é".repeat(512));
    assert_eq!(message, expected);
}

#[test]
fn image_types_are_sniffed_from_leading_bytes() {
    assert_eq!(sniff_image_mime(b"\x89PNG\r\n\x1a\nrest"), "image/png");
    assert_eq!(sniff_image_mime(&[0xff, 0xd8, 0xff, 0xe0]), "image/jpeg");
    assert_eq!(sniff_image_mime(b"GIF89a"), "image/gif");
    assert_eq!(sniff_image_mime(b"RIFF\x00\x00\x00\x00WEBPVP8 "), "image/webp");
    assert_eq!(sniff_image_mime(b"RIFF\x00\x00\x00\x00WAVE"), "image/png");
    assert_eq!(sniff_image_mime(b"hi"), "image/png");
    assert_eq!(sniff_image_mime(b""), "image/png");
}

#[test]
fn base64_images_are_decoded_and_typed() {
    let image = decode_generated_image("aGk=").unwrap();
    assert_eq!(image.bytes, b"hi");
    assert_eq!(image.mime_type, "image/png");
    let gif = decode_generated_image("R0lGODlh").unwrap();
    assert_eq!(gif.bytes, b"GIF89a");
    assert_eq!(gif.mime_type, "image/gif");
}

#[test]
fn invalid_base64_is_reported_with_the_decoder_reason() {
    let error = decode_generated_image("@@@@").unwrap_err();
    match &error {
        ServiceError::InvalidBase64(reason) => assert!(!reason.is_empty()),
        other => panic!("unexpected error {other:?}"),
    }
    assert!(error.message().starts_with("image response was not valid base64: "));
}

#[test]
fn image_items_prefer_inline_data() {
    let inline = read_image_item(Some(ImageItem {
        b64_json: Some("aGk=".to_string()),
        url: Some("https://img.example/a.png".to_string()),
    }))
    .unwrap();
    match inline {
        ImagePayload::Inline(image) => assert_eq!(image.bytes, b"hi"),
        ImagePayload::Download(_) => panic!("expected inline data"),
    }
    let remote = read_image_item(Some(ImageItem {
        b64_json: None,
        url: Some("https://img.example/a.png".to_string()),
    }))
    .unwrap();
    match remote {
        ImagePayload::Download(url) => assert_eq!(url, "https://img.example/a.png"),
        ImagePayload::Inline(_) => panic!("expected a download"),
    }
}

#[test]
fn image_items_without_data_are_errors() {
    let missing = read_image_item(None).unwrap_err();
    assert_eq!(missing, ServiceError::MissingImageData);
    assert_eq!(missing.message(), "image response did not include data");
    let empty = read_image_item(Some(ImageItem { b64_json: None, url: None })).unwrap_err();
    assert_eq!(empty, ServiceError::MissingImagePayload);
    assert_eq!(empty.message(), "image response did not include b64_json or url");
}

#[test]
fn downloaded_images_are_typed_by_their_bytes() {
    let image = image_from_bytes(vec![0xff, 0xd8, 0xff, 0x00]);
    assert_eq!(image.mime_type, "image/jpeg");
    assert_eq!(image.bytes, vec![0xff, 0xd8, 0xff, 0x00]);
}

#[test]
fn vision_images_travel_as_data_urls() {
    assert_eq!(image_data_url("image/png", b"png"), "data:image/png;base64,cG5n");
    assert_eq!(image_data_url("image/jpeg", b""), "data:image/jpeg;base64,");
    assert_eq!(data_url("image/gif", "R0lG"), "data:image/gif;base64,R0lG");
}

#[test]
fn transcription_needs_text() {
    assert_eq!(transcription_text(Some("hello".to_string())).unwrap(), "hello");
    let error = transcription_text(None).unwrap_err();
    assert_eq!(error.message(), "transcription response did not include text");
}

#[test]
fn vision_answers_are_trimmed_and_must_not_be_blank() {
    assert_eq!(vision_text(Some("  a red square \n")).unwrap(), "a red square");
    let blank = vision_text(Some(" \t ")).unwrap_err();
    assert_eq!(blank, ServiceError::MissingVisionText);
    assert_eq!(blank.message(), "vision response did not include text");
    assert_eq!(vision_text(None).unwrap_err(), ServiceError::MissingVisionText);
}

#[test]
fn embedding_error_message() {
    assert_eq!(
        ServiceError::MissingEmbedding.message(),
        "embedding response did not include a vector"
    );
}

#[test]
fn request_bodies_carry_the_call_fields() {
    let form = transcription_form("whisper-1", "wav", "audio/wav");
    assert_eq!(form.file_name, "audio.wav");
    assert_eq!(form.mime_type, "audio/wav");
    assert_eq!(form.model, "whisper-1");
    let speech = speech_request("tts-1", "hello", "alloy");
    assert_eq!((speech.model.as_str(), speech.input.as_str(), speech.voice.as_str()), ("tts-1", "hello", "alloy"));
    let embedding = embedding_request("text-embedding-3-small", "hello");
    assert_eq!(embedding.model, "text-embedding-3-small");
    assert_eq!(embedding.input, "hello");
    let image = image_request("gpt-image-1", "a square", Some("1024x1024"));
    assert_eq!(image.n, 1);
    assert_eq!(image.prompt, "a square");
    assert_eq!(image.size, Some("1024x1024".to_string()));
    assert_eq!(image_request("m", "p", None).size, None);
    let vision = vision_request("gpt-4o", b"png", "image/png", "what is this?");
    assert_eq!(vision.model, "gpt-4o");
    assert_eq!(vision.question, "what is this?");
    assert_eq!(vision.image_url, "data:image/png;base64,cG5n");
}

#[test]
fn images_are_encoded_as_standard_base64() {
    assert_eq!(encode_image_base64(b"hi"), "aGk=");
    assert_eq!(encode_image_base64(b"h"), "aA==");
    assert_eq!(encode_image_base64(&[0xfb, 0xff]), "+/8=");
    assert_eq!(encode_image_base64(b""), "");
}

fn with_header(name: &str, value: &str) -> OpenAiCompatEndpoint {
    let mut target = endpoint("https://api.openai.com/v1", "");
    let mut headers = StringMap::new();
    headers.insert("X-Ok".to_string(), "fine".to_string());
    headers.insert(name.to_string(), value.to_string());
    target.headers = Some(headers);
    target
}

#[test]
fn prepare_refuses_header_names_that_http_refuses() {
    for name in ["Bad Header", "", "X:Colon", "Ünïcode"] {
        let error = prepare(&with_header(name, "v"), "v1/x", "x", None::<()>, 60).unwrap_err();
        assert_eq!(error, ServiceError::InvalidHeaderName(name.to_string()));
        assert_eq!(error.message(), "invalid HTTP header name");
    }
}

#[test]
fn prepare_refuses_header_values_that_http_refuses() {
    for value in ["line\nbreak", "nul\u{0}", "del\u{7f}"] {
        let error = prepare(&with_header("X-Team", value), "v1/x", "x", None::<()>, 60).unwrap_err();
        assert_eq!(error, ServiceError::InvalidHeaderValue("X-Team".to_string()));
        assert_eq!(error.message(), "failed to parse header value");
    }
}

#[test]
fn prepare_accepts_tabs_and_non_ascii_header_values() {
    let plan = prepare(&with_header("X-Team", "caf\u{e9}\tbar"), "v1/x", "x", None::<()>, 60).unwrap();
    assert_eq!(plan.headers.unwrap().get("X-Team"), Some("caf\u{e9}\tbar".to_string()));
}
