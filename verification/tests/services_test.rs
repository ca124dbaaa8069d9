use goose_services::{
    configured_media_tools, configured_selection, request_target, resolve_endpoint,
    strip_openai_endpoint_suffix, Config, ServiceKind,
};

#[test]
fn strips_chat_completions_suffix_used_by_gateways() {
    assert_eq!(
        strip_openai_endpoint_suffix("https://api.vcorp.ai/v1/chat/completions"),
        "https://api.vcorp.ai"
    );
    assert_eq!(
        strip_openai_endpoint_suffix("https://api.openai.com/v1"),
        "https://api.openai.com/v1"
    );
    assert_eq!(
        strip_openai_endpoint_suffix("https://api.openai.com"),
        "https://api.openai.com"
    );
}

#[test]
fn vcorp_chat_url_targets_the_versioned_service_path() {
    let (host, query, request_path) = request_target(
        "https://api.vcorp.ai/v1/chat/completions",
        "v1/images/generations",
        "images/generations",
    )
    .unwrap();
    assert_eq!(host, "https://api.vcorp.ai");
    assert!(query.is_empty());
    assert_eq!(request_path, "v1/images/generations");
}

#[test]
fn unconfigured_services_expose_no_media_tools() {
    let config = Config::new();
    assert!(configured_media_tools(&config).is_empty());
    assert!(configured_selection(&config, ServiceKind::Vision).is_none());
}

#[test]
fn configured_service_exposes_only_that_tool() {
    let mut config = Config::new();
    config.set_param("GOOSE_SERVICE_IMAGE_PROVIDER", "vcorp");
    config.set_param("GOOSE_SERVICE_IMAGE_MODEL", "google/imagen");

    assert_eq!(
        configured_selection(&config, ServiceKind::Image),
        Some(("vcorp".to_string(), "google/imagen".to_string()))
    );
    assert_eq!(configured_media_tools(&config), vec!["generate_image"]);
}

#[test]
fn unknown_provider_is_rejected() {
    let config = Config::new();
    let error = resolve_endpoint(&config, "not-a-real-provider").unwrap_err();
    assert!(error.message().contains("not supported"));
}
