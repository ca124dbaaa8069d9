use goose_services::{
    accept_image, configured_media_tools, configured_selection, image_extension,
    inline_embedding, is_remote_source, mime_for_path, model_key, non_empty_param, provider_key,
    sniff_image_mime, speech_voice, Config, MediaTool, ServiceError, ServiceKind, StringMap,
};

const ALL_KINDS: [ServiceKind; 8] = [
    ServiceKind::Chat,
    ServiceKind::Vision,
    ServiceKind::Stt,
    ServiceKind::Realtime,
    ServiceKind::Tts,
    ServiceKind::Embedding,
    ServiceKind::Image,
    ServiceKind::Video,
];

#[test]
fn service_kinds_have_upper_case_names() {
    let names: Vec<&str> = ALL_KINDS.iter().map(|k| k.as_str()).collect();
    assert_eq!(
        names,
        vec!["CHAT", "VISION", "STT", "REALTIME", "TTS", "EMBEDDING", "IMAGE", "VIDEO"]
    );
}

#[test]
fn only_media_services_are_wired() {
    let wired: Vec<ServiceKind> = ALL_KINDS.iter().copied().filter(|k| k.wired()).collect();
    assert_eq!(
        wired,
        vec![
            ServiceKind::Vision,
            ServiceKind::Stt,
            ServiceKind::Tts,
            ServiceKind::Embedding,
            ServiceKind::Image
        ]
    );
}

#[test]
fn configuration_keys_follow_the_service_name() {
    assert_eq!(provider_key(ServiceKind::Image), "GOOSE_SERVICE_IMAGE_PROVIDER");
    assert_eq!(model_key(ServiceKind::Stt), "GOOSE_SERVICE_STT_MODEL");
}

#[test]
fn configuration_keys_never_collide() {
    let mut keys = Vec::new();
    for kind in ALL_KINDS {
        keys.push(provider_key(kind));
        keys.push(model_key(kind));
    }
    let mut unique = keys.clone();
    unique.sort();
    unique.dedup();
    assert_eq!(unique.len(), keys.len());
}

#[test]
fn blank_parameters_count_as_unset() {
    let mut config = Config::new();
    config.set_param("GOOSE_SERVICE_TTS_PROVIDER", "  openai ");
    config.set_param("GOOSE_SERVICE_TTS_MODEL", "   ");
    assert_eq!(non_empty_param(&config, "GOOSE_SERVICE_TTS_PROVIDER"), Some("openai".to_string()));
    assert_eq!(non_empty_param(&config, "GOOSE_SERVICE_TTS_MODEL"), None);
    assert_eq!(non_empty_param(&config, "MISSING"), None);
    assert_eq!(configured_selection(&config, ServiceKind::Tts), None);
    config.set_param("GOOSE_SERVICE_TTS_MODEL", "tts-1");
    assert_eq!(
        configured_selection(&config, ServiceKind::Tts),
        Some(("openai".to_string(), "tts-1".to_string()))
    );
}

#[test]
fn media_tools_follow_the_configured_services_in_order() {
    let mut config = Config::new();
    for kind in [ServiceKind::Image, ServiceKind::Vision, ServiceKind::Stt, ServiceKind::Embedding] {
        config.set_param(&provider_key(kind), "openai");
        config.set_param(&model_key(kind), "m");
    }
    assert_eq!(
        configured_media_tools(&config),
        vec!["describe_image", "embed_text", "generate_image"]
    );
    config.set_param(&provider_key(ServiceKind::Tts), "openai");
    config.set_param(&model_key(ServiceKind::Tts), "tts-1");
    assert_eq!(
        configured_media_tools(&config),
        vec!["describe_image", "text_to_speech", "embed_text", "generate_image"]
    );
}

#[test]
fn tool_names_select_their_tools() {
    for tool in [
        MediaTool::DescribeImage,
        MediaTool::TextToSpeech,
        MediaTool::EmbedText,
        MediaTool::GenerateImage,
    ] {
        assert_eq!(MediaTool::from_name(tool.name()), Ok(tool));
        assert!(tool.service().wired());
    }
    assert_eq!(MediaTool::DescribeImage.service(), ServiceKind::Vision);
    assert_eq!(MediaTool::TextToSpeech.service(), ServiceKind::Tts);
    assert_eq!(MediaTool::EmbedText.service(), ServiceKind::Embedding);
    assert_eq!(MediaTool::GenerateImage.service(), ServiceKind::Image);
}

#[test]
fn unknown_tools_are_named_in_the_error() {
    let error = MediaTool::from_name("paint").unwrap_err();
    assert_eq!(error, ServiceError::UnknownTool("paint".to_string()));
    assert_eq!(error.message(), "Unknown tool: paint");
}

#[test]
fn image_paths_are_typed_by_extension() {
    assert_eq!(mime_for_path("photo.JPG"), "image/jpeg");
    assert_eq!(mime_for_path("dir/photo.jpeg"), "image/jpeg");
    assert_eq!(mime_for_path("anim.Gif"), "image/gif");
    assert_eq!(mime_for_path("/tmp/pic.webp"), "image/webp");
    assert_eq!(mime_for_path("pic.png"), "image/png");
    assert_eq!(mime_for_path("README"), "image/png");
    assert_eq!(mime_for_path(""), "image/png");
}

#[test]
fn image_path_extensions_follow_file_name_rules() {
    assert_eq!(mime_for_path(".gif"), "image/png");
    assert_eq!(mime_for_path("dir/pic.gif/"), "image/gif");
    assert_eq!(mime_for_path("dir/pic.gif/."), "image/gif");
    assert_eq!(mime_for_path("pics.gif/.."), "image/png");
    assert_eq!(mime_for_path("archive.tar.JPG"), "image/jpeg");
    assert_eq!(mime_for_path("file."), "image/png");
    assert_eq!(mime_for_path("x.jpgx"), "image/png");
}

#[test]
fn web_sources_are_recognized() {
    assert!(is_remote_source("http://img.example/a.jpg"));
    assert!(is_remote_source("https://img.example/a.jpg"));
    assert!(!is_remote_source("HTTP://img.example/a.jpg"));
    assert!(!is_remote_source("./https.png"));
}

#[test]
fn loaded_images_get_their_type_and_size_limit() {
    let (bytes, mime) = accept_image("shot.jpg", b"data".to_vec()).unwrap();
    assert_eq!(bytes, b"data");
    assert_eq!(mime, "image/jpeg");
    let (_, mime) = accept_image("https://img.example/shot.jpg", b"data".to_vec()).unwrap();
    assert_eq!(mime, "image/png");
    let limit = 20 * 1024 * 1024;
    assert!(accept_image("big.png", vec![0; limit]).is_ok());
    let error = accept_image("big.png", vec![0; limit + 1]).unwrap_err();
    assert_eq!(error, ServiceError::ImageTooLarge);
    assert_eq!(error.message(), "image exceeds the 20MB limit");
}

#[test]
fn generated_images_are_saved_with_matching_extensions() {
    assert_eq!(image_extension("image/jpeg"), "jpg");
    assert_eq!(image_extension("image/webp"), "webp");
    assert_eq!(image_extension("image/gif"), "gif");
    assert_eq!(image_extension("image/png"), "png");
    assert_eq!(image_extension("application/octet-stream"), "png");
}

#[test]
fn saved_images_keep_their_type_when_loaded_again() {
    let samples: [&[u8]; 5] = [
        b"\x89PNG\r\n\x1a\n",
        &[0xff, 0xd8, 0xff],
        b"GIF87a",
        b"RIFF\x01\x02\x03\x04WEBP",
        b"other",
    ];
    for bytes in samples {
        let mime = sniff_image_mime(bytes);
        let file = format!("image-1.{}", image_extension(mime));
        assert_eq!(mime_for_path(&file), mime);
    }
}

#[test]
fn speech_uses_alloy_unless_a_voice_is_asked_for() {
    assert_eq!(speech_voice(None), "alloy");
    assert_eq!(speech_voice(Some("nova")), "nova");
}

#[test]
fn small_embeddings_are_returned_inline() {
    assert!(inline_embedding(0));
    assert!(inline_embedding(64));
    assert!(!inline_embedding(65));
}

#[test]
fn string_map_reads_back_what_was_written() {
    let mut map = StringMap::new();
    assert!(map.is_empty());
    map.insert("a".to_string(), "1".to_string());
    map.insert("b".to_string(), "2".to_string());
    map.insert("a".to_string(), "3".to_string());
    assert_eq!(map.get("a"), Some("3".to_string()));
    assert_eq!(map.get("b"), Some("2".to_string()));
    assert_eq!(map.get("c"), None);
    assert_eq!(map.pairs().len(), 2);
    assert!(!map.is_empty());
    let copy = map.duplicate();
    assert_eq!(copy.get("a"), Some("3".to_string()));
}

#[test]
fn config_reads_back_parameters_secrets_and_environment() {
    let mut config = Config::new();
    config.set_param("K", "v1");
    config.set_param("K", "v2");
    config.set_secret("S", "secret");
    config.set_env("E", "env");
    assert_eq!(config.get_param("K"), Some("v2".to_string()));
    assert_eq!(config.get_param("S"), None);
    assert_eq!(config.get_secret("S"), Some("secret".to_string()));
    assert_eq!(config.env_var("E"), Some("env".to_string()));
    assert_eq!(config.env_var("K"), None);
}
