use goose_services::{
    expand_env_vars, normalize_openrouter_base_url, parse_custom_headers, parse_openai_base_url, request_target,
    resolve_endpoint, strip_openai_endpoint_suffix, Config, DeclaredProvider, ProviderEngine,
    ServiceError, StringMap,
};

fn pairs(list: &[(&str, &str)]) -> Vec<(String, String)> {
    list.iter().map(|(k, v)| (k.to_string(), v.to_string())).collect()
}

fn declared(name: &str, engine: ProviderEngine, base_url: &str, key_env: &str, requires_auth: bool) -> DeclaredProvider {
    DeclaredProvider {
        name: name.to_string(),
        engine,
        base_url: base_url.to_string(),
        env_vars: None,
        api_key_env: key_env.to_string(),
        requires_auth,
        headers: None,
    }
}

#[test]
fn strip_trims_white_space_and_trailing_slashes() {
    assert_eq!(
        strip_openai_endpoint_suffix("  https://x.ai/v1/chat/completions/  "),
        "https://x.ai"
    );
    assert_eq!(strip_openai_endpoint_suffix("https://x.ai///"), "https://x.ai");
    assert_eq!(strip_openai_endpoint_suffix("\thttps://x.ai\n"), "https://x.ai");
    assert_eq!(strip_openai_endpoint_suffix(""), "");
}

#[test]
fn strip_removes_every_known_suffix() {
    for suffix in [
        "/v1/chat/completions",
        "/chat/completions",
        "/v1/responses",
        "/responses",
        "/v1/audio/transcriptions",
        "/audio/transcriptions",
        "/v1/audio/speech",
        "/audio/speech",
        "/v1/embeddings",
        "/embeddings",
        "/v1/images/generations",
        "/images/generations",
    ] {
        let url = format!("https://gw.example/openai{suffix}");
        assert_eq!(strip_openai_endpoint_suffix(&url), "https://gw.example/openai");
    }
}

#[test]
fn strip_keeps_a_suffix_that_would_leave_nothing() {
    assert_eq!(strip_openai_endpoint_suffix("/v1/chat/completions"), "/v1");
    assert_eq!(strip_openai_endpoint_suffix("/chat/completions"), "/chat/completions");
    assert_eq!(strip_openai_endpoint_suffix("https://x.ai//chat/completions"), "https://x.ai");
}

#[test]
fn strip_takes_the_first_listed_suffix_only_once() {
    assert_eq!(
        strip_openai_endpoint_suffix("https://a/v1/chat/completions/chat/completions"),
        "https://a/v1/chat/completions"
    );
}

#[test]
fn openrouter_base_urls_gain_the_api_path() {
    assert_eq!(
        normalize_openrouter_base_url("https://openrouter.ai"),
        "https://openrouter.ai/api/v1"
    );
    assert_eq!(
        normalize_openrouter_base_url("https://openrouter.ai//"),
        "https://openrouter.ai/api/v1"
    );
    assert_eq!(
        normalize_openrouter_base_url("https://openrouter.ai/api"),
        "https://openrouter.ai/api/v1"
    );
    assert_eq!(
        normalize_openrouter_base_url("https://openrouter.ai/api/v1"),
        "https://openrouter.ai/api/v1"
    );
}

#[test]
fn openrouter_normalization_is_idempotent() {
    for url in [
        "https://openrouter.ai",
        "https://openrouter.ai/",
        "https://openrouter.ai/api",
        "https://openrouter.ai/api/v2",
        "",
    ] {
        let once = normalize_openrouter_base_url(url);
        assert_eq!(normalize_openrouter_base_url(&once), once);
        assert!(once.contains("/api"));
    }
}

#[test]
fn base_urls_split_into_host_and_version() {
    assert_eq!(
        parse_openai_base_url("https://api.openai.com/v1").unwrap(),
        ("https://api.openai.com".to_string(), vec![], true)
    );
    assert_eq!(
        parse_openai_base_url("https://api.openai.com").unwrap(),
        ("https://api.openai.com".to_string(), vec![], true)
    );
    assert_eq!(
        parse_openai_base_url("https://generativelanguage.googleapis.com/v1beta/openai").unwrap(),
        (
            "https://generativelanguage.googleapis.com/v1beta/openai".to_string(),
            vec![],
            false
        )
    );
    assert_eq!(
        parse_openai_base_url("https://api.groq.com/openai/").unwrap(),
        ("https://api.groq.com/openai".to_string(), vec![], true)
    );
    assert_eq!(
        parse_openai_base_url("http://localhost:11434").unwrap(),
        ("http://localhost:11434".to_string(), vec![], true)
    );
}

#[test]
fn base_url_query_parameters_are_kept() {
    assert_eq!(
        parse_openai_base_url("https://x.azure.com/openai/deployments/d?api-version=2024-01-01&&flag#top")
            .unwrap(),
        (
            "https://x.azure.com/openai/deployments/d".to_string(),
            pairs(&[("api-version", "2024-01-01"), ("flag", "")]),
            true
        )
    );
    assert_eq!(
        parse_openai_base_url("https://x.io?a=b=c").unwrap(),
        ("https://x.io".to_string(), pairs(&[("a", "b=c")]), true)
    );
}

#[test]
fn malformed_base_urls_are_rejected() {
    for url in ["localhost", "https://", "://x", "https:/x", "https:///path"] {
        let error = parse_openai_base_url(url).unwrap_err();
        assert_eq!(error, ServiceError::InvalidBaseUrl(url.to_string()));
        assert_eq!(error.message(), format!("invalid base URL: {url}"));
    }
}

#[test]
fn request_target_chooses_the_path_by_version() {
    let (host, query, path) =
        request_target("https://api.openai.com/v1", "v1/embeddings", "embeddings").unwrap();
    assert_eq!(host, "https://api.openai.com");
    assert!(query.is_empty());
    assert_eq!(path, "v1/embeddings");
    let (host, _, path) = request_target(
        "https://generativelanguage.googleapis.com/v1beta/openai/chat/completions",
        "v1/chat/completions",
        "chat/completions",
    )
    .unwrap();
    assert_eq!(host, "https://generativelanguage.googleapis.com/v1beta/openai");
    assert_eq!(path, "chat/completions");
    assert!(request_target("not a url", "a", "b").is_err());
}

#[test]
fn custom_headers_are_parsed_in_order() {
    let headers = parse_custom_headers(" X-One = 1, X-Two=2,bad,,X-One=3 ");
    assert_eq!(headers.get("X-One"), Some("3".to_string()));
    assert_eq!(headers.get("X-Two"), Some("2".to_string()));
    assert_eq!(headers.get("bad"), None);
    assert_eq!(headers.pairs().len(), 2);
    assert!(parse_custom_headers("").is_empty());
    assert!(parse_custom_headers("no-equals-sign").is_empty());
}

#[test]
fn openai_uses_the_public_api_by_default() {
    let config = Config::new();
    let endpoint = resolve_endpoint(&config, "openai").unwrap();
    assert_eq!(endpoint.api_key, "");
    assert_eq!(endpoint.base_url, "https://api.openai.com");
    assert!(endpoint.headers.is_none());
}

#[test]
fn openai_host_comes_from_the_environment_first() {
    let mut config = Config::new();
    config.set_env("OPENAI_HOST", "https://env.example/v1/chat/completions");
    config.set_param("OPENAI_BASE_URL", "https://param.example");
    config.set_secret("OPENAI_API_KEY", "sk-1");
    let endpoint = resolve_endpoint(&config, "openai").unwrap();
    assert_eq!(endpoint.base_url, "https://env.example");
    assert_eq!(endpoint.api_key, "sk-1");
}

#[test]
fn openai_base_url_parameter_is_trimmed_and_blank_means_default() {
    let mut config = Config::new();
    config.set_param("OPENAI_BASE_URL", "  https://param.example/v1  ");
    config.set_param("OPENAI_HOST", "https://ignored.example");
    assert_eq!(resolve_endpoint(&config, "openai").unwrap().base_url, "https://param.example/v1");
    config.set_param("OPENAI_BASE_URL", "   ");
    assert_eq!(resolve_endpoint(&config, "openai").unwrap().base_url, "https://api.openai.com");
}

#[test]
fn openai_host_parameter_is_the_last_choice() {
    let mut config = Config::new();
    config.set_param("OPENAI_HOST", "https://host.example/");
    assert_eq!(resolve_endpoint(&config, "openai").unwrap().base_url, "https://host.example");
}

#[test]
fn openai_headers_combine_custom_organization_and_project() {
    let mut config = Config::new();
    config.set_secret("OPENAI_CUSTOM_HEADERS", "X-Team=red,OpenAI-Project=old");
    config.set_param("OPENAI_ORGANIZATION", "org-1");
    config.set_param("OPENAI_PROJECT", "proj-1");
    let headers = resolve_endpoint(&config, "openai").unwrap().headers.unwrap();
    assert_eq!(headers.get("X-Team"), Some("red".to_string()));
    assert_eq!(headers.get("OpenAI-Organization"), Some("org-1".to_string()));
    assert_eq!(headers.get("OpenAI-Project"), Some("proj-1".to_string()));
    assert_eq!(headers.pairs().len(), 3);
}

#[test]
fn builtin_providers_have_their_default_hosts() {
    let mut config = Config::new();
    config.set_secret("OPENROUTER_API_KEY", "or-key");
    config.set_secret("GROQ_API_KEY", "groq-key");
    let openrouter = resolve_endpoint(&config, "openrouter").unwrap();
    assert_eq!(openrouter.base_url, "https://openrouter.ai/api/v1");
    assert_eq!(openrouter.api_key, "or-key");
    let groq = resolve_endpoint(&config, "groq").unwrap();
    assert_eq!(groq.base_url, "https://api.groq.com/openai");
    assert_eq!(groq.api_key, "groq-key");
    let ollama = resolve_endpoint(&config, "ollama").unwrap();
    assert_eq!(ollama.base_url, "http://localhost:11434");
    assert_eq!(ollama.api_key, "");
}

#[test]
fn openrouter_host_parameter_is_normalized() {
    let mut config = Config::new();
    config.set_param("OPENROUTER_HOST", "https://proxy.example/");
    assert_eq!(
        resolve_endpoint(&config, "openrouter").unwrap().base_url,
        "https://proxy.example/api/v1"
    );
}

#[test]
fn hosted_gemini_needs_an_api_key() {
    let mut config = Config::new();
    let error = resolve_endpoint(&config, "google").unwrap_err();
    assert_eq!(error, ServiceError::MissingGoogleApiKey);
    assert_eq!(
        error.message(),
        "GOOGLE_API_KEY required for the hosted Gemini OpenAI-compatible endpoint"
    );
    config.set_secret("GOOGLE_API_KEY", "g-key");
    let endpoint = resolve_endpoint(&config, "google").unwrap();
    assert_eq!(endpoint.base_url, "https://generativelanguage.googleapis.com/v1beta/openai");
    assert_eq!(endpoint.api_key, "g-key");
}

#[test]
fn custom_gemini_host_needs_no_api_key() {
    let mut config = Config::new();
    config.set_param("GOOGLE_HOST", "https://gemini.local/v1/chat/completions");
    let endpoint = resolve_endpoint(&config, "google").unwrap();
    assert_eq!(endpoint.base_url, "https://gemini.local");
    assert_eq!(endpoint.api_key, "");
}

#[test]
fn unsupported_provider_message_names_the_provider() {
    let config = Config::new();
    let error = resolve_endpoint(&config, "acme").unwrap_err();
    assert_eq!(error, ServiceError::UnsupportedProvider("acme".to_string()));
    assert_eq!(
        error.message(),
        "Provider 'acme' is not supported for OpenAI-compatible services. Use a provider with an OpenAI-compatible chat completions endpoint."
    );
}

#[test]
fn declared_provider_resolves_with_its_secret() {
    let mut config = Config::new();
    let mut headers = StringMap::new();
    headers.insert("X-Gateway".to_string(), "vcorp".to_string());
    let mut vcorp = declared(
        "vcorp",
        ProviderEngine::OpenAI,
        "https://api.vcorp.ai/v1/chat/completions",
        "VCORP_API_KEY",
        true,
    );
    vcorp.headers = Some(headers);
    config.add_provider(vcorp);
    let error = resolve_endpoint(&config, "vcorp").unwrap_err();
    assert_eq!(
        error.message(),
        "API key 'VCORP_API_KEY' required for provider 'vcorp' but not configured"
    );
    config.set_secret("VCORP_API_KEY", "v-key");
    let endpoint = resolve_endpoint(&config, "vcorp").unwrap();
    assert_eq!(endpoint.base_url, "https://api.vcorp.ai");
    assert_eq!(endpoint.api_key, "v-key");
    assert_eq!(endpoint.headers.unwrap().get("X-Gateway"), Some("vcorp".to_string()));
}

#[test]
fn declared_provider_without_required_auth_tolerates_a_missing_key() {
    let mut config = Config::new();
    config.add_provider(declared("local", ProviderEngine::Ollama, "http://box:8080/", "LOCAL_KEY", false));
    config.add_provider(declared("keyless", ProviderEngine::OpenAI, "http://k", "", true));
    let endpoint = resolve_endpoint(&config, "local").unwrap();
    assert_eq!(endpoint.api_key, "");
    assert_eq!(endpoint.base_url, "http://box:8080");
    assert_eq!(resolve_endpoint(&config, "keyless").unwrap().api_key, "");
}

#[test]
fn anthropic_engine_providers_are_refused() {
    let mut config = Config::new();
    config.add_provider(declared("bedrock-gw", ProviderEngine::Anthropic, "https://a", "", false));
    let error = resolve_endpoint(&config, "bedrock-gw").unwrap_err();
    assert_eq!(
        error.message(),
        "Provider 'bedrock-gw' uses the Anthropic engine, which does not speak the OpenAI-compatible API these services call"
    );
}

#[test]
fn declared_provider_takes_precedence_over_builtin() {
    let mut config = Config::new();
    config.add_provider(declared("openai", ProviderEngine::OpenAI, "https://mirror.example/v1/responses", "", false));
    config.add_provider(declared("openai", ProviderEngine::OpenAI, "https://second.example", "", false));
    assert_eq!(
        resolve_endpoint(&config, "openai").unwrap().base_url,
        "https://mirror.example"
    );
}

#[test]
fn resolved_base_urls_never_end_with_a_slash() {
    let mut config = Config::new();
    config.set_param("GROQ_HOST", "https://groq.example///");
    config.set_param("OLLAMA_HOST", "http://ollama:1/v1/embeddings/");
    for name in ["openai", "openrouter", "groq", "ollama"] {
        let endpoint = resolve_endpoint(&config, name).unwrap();
        assert!(!endpoint.base_url.ends_with('/'), "{name}: {}", endpoint.base_url);
    }
}

#[test]
fn hosts_are_prefixes_of_their_urls() {
    for url in [
        "https://api.openai.com/v1",
        "https://api.groq.com/openai/",
        "https://x.io/a/b/v1?x=1#f",
        "http://localhost:11434",
        "https://generativelanguage.googleapis.com/v1beta/openai",
    ] {
        let (host, _, _) = parse_openai_base_url(url).unwrap();
        assert!(url.starts_with(&host), "{url} -> {host}");
    }
}

fn vars(list: &[(&str, &str)]) -> StringMap {
    let mut map = StringMap::new();
    for (k, v) in list {
        map.insert(k.to_string(), v.to_string());
    }
    map
}

#[test]
fn environment_variables_are_expanded_in_base_urls() {
    let values = vars(&[("HOST", "gw.example"), ("VER", "v1")]);
    assert_eq!(
        expand_env_vars("https://${HOST}/${VER}/chat/completions", &values).unwrap(),
        "https://gw.example/v1/chat/completions"
    );
    assert_eq!(expand_env_vars("https://plain.example", &values).unwrap(), "https://plain.example");
    assert_eq!(expand_env_vars("$HOST and ${HOST", &values).unwrap(), "$HOST and ${HOST");
    assert_eq!(expand_env_vars("", &values).unwrap(), "");
    assert_eq!(expand_env_vars("https://${MISSING}/x", &values).unwrap_err(), "MISSING");
}

#[test]
fn declared_base_url_variables_are_expanded() {
    let mut config = Config::new();
    let mut vcorp = declared("vcorp", ProviderEngine::OpenAI, "${VCORP_BASE_URL}", "", false);
    vcorp.env_vars = Some(vars(&[("VCORP_BASE_URL", "https://api.vcorp.ai/v1/chat/completions")]));
    config.add_provider(vcorp);
    assert_eq!(resolve_endpoint(&config, "vcorp").unwrap().base_url, "https://api.vcorp.ai");
}

#[test]
fn declared_base_url_with_an_unset_variable_is_refused() {
    let mut config = Config::new();
    let mut gateway = declared("gw", ProviderEngine::OpenAI, "https://${GW_HOST}", "GW_KEY", true);
    gateway.env_vars = Some(StringMap::new());
    config.add_provider(gateway);
    let error = resolve_endpoint(&config, "gw").unwrap_err();
    assert_eq!(
        error,
        ServiceError::UnresolvedVariable { name: "GW_HOST".to_string(), provider: "gw".to_string() }
    );
    assert_eq!(
        error.message(),
        "environment variable 'GW_HOST' required by provider 'gw' is not set"
    );
}
