//! The kinds of service that can be configured, and the configuration keys that select them.

use vstd::prelude::*;
use crate::config::{Config, ConfigView};
use crate::text::{concat3, trim, trim_text};

verus! {

#[derive(Debug, Clone, Copy, PartialEq, Eq, Structural)]
pub enum ServiceKind {
    Chat,
    Vision,
    Stt,
    Realtime,
    Tts,
    Embedding,
    Image,
    Video,
}

/// The upper-case name of a service kind, as it appears in configuration keys.
pub open spec fn kind_name(kind: ServiceKind) -> Seq<char> {
    match kind {
        ServiceKind::Chat => "CHAT"@,
        ServiceKind::Vision => "VISION"@,
        ServiceKind::Stt => "STT"@,
        ServiceKind::Realtime => "REALTIME"@,
        ServiceKind::Tts => "TTS"@,
        ServiceKind::Embedding => "EMBEDDING"@,
        ServiceKind::Image => "IMAGE"@,
        ServiceKind::Video => "VIDEO"@,
    }
}

/// The services that the agent can call.
pub open spec fn is_wired(kind: ServiceKind) -> bool {
    match kind {
        ServiceKind::Vision | ServiceKind::Stt | ServiceKind::Tts | ServiceKind::Embedding
        | ServiceKind::Image => true,
        _ => false,
    }
}

pub open spec fn spec_provider_key(kind: ServiceKind) -> Seq<char> {
    "GOOSE_SERVICE_"@ + kind_name(kind) + "_PROVIDER"@
}

pub open spec fn spec_model_key(kind: ServiceKind) -> Seq<char> {
    "GOOSE_SERVICE_"@ + kind_name(kind) + "_MODEL"@
}

impl ServiceKind {
    pub fn as_str(self) -> (name: &'static str)
        ensures
            name@ == kind_name(self),
    {
        match self {
            ServiceKind::Chat => "CHAT",
            ServiceKind::Vision => "VISION",
            ServiceKind::Stt => "STT",
            ServiceKind::Realtime => "REALTIME",
            ServiceKind::Tts => "TTS",
            ServiceKind::Embedding => "EMBEDDING",
            ServiceKind::Image => "IMAGE",
            ServiceKind::Video => "VIDEO",
        }
    }

    /// Services the agent can call. Chat uses the existing default provider,
    /// and realtime voice and video only store configuration.
    pub fn wired(self) -> (r: bool)
        ensures
            r == is_wired(self),
    {
        match self {
            ServiceKind::Vision | ServiceKind::Stt | ServiceKind::Tts | ServiceKind::Embedding
            | ServiceKind::Image => true,
            _ => false,
        }
    }
}

/// The configuration key that names the provider of a service.
pub fn provider_key(kind: ServiceKind) -> (key: String)
    ensures
        key@ == spec_provider_key(kind),
{
    concat3("GOOSE_SERVICE_", kind.as_str(), "_PROVIDER")
}

/// The configuration key that names the model of a service.
pub fn model_key(kind: ServiceKind) -> (key: String)
    ensures
        key@ == spec_model_key(kind),
{
    concat3("GOOSE_SERVICE_", kind.as_str(), "_MODEL")
}

/// A configured value, trimmed, when anything is left of it.
pub open spec fn spec_non_empty(value: Option<Seq<char>>) -> Option<Seq<char>> {
    match value {
        Some(v) => if trim(v).len() > 0 {
            Some(trim(v))
        } else {
            None
        },
        None => None,
    }
}

/// The provider and model configured for a service, when both are set and not blank.
pub open spec fn spec_configured_selection(c: ConfigView, kind: ServiceKind) -> Option<
    (Seq<char>, Seq<char>),
> {
    match (
        spec_non_empty(c.params.get(spec_provider_key(kind))),
        spec_non_empty(c.params.get(spec_model_key(kind))),
    ) {
        (Some(provider), Some(model)) => Some((provider, model)),
        _ => None,
    }
}

/// The name of a media tool, listed when its service is configured.
pub open spec fn tool_if_configured(c: ConfigView, kind: ServiceKind, name: Seq<char>) -> Seq<
    Seq<char>,
> {
    if spec_configured_selection(c, kind) is Some {
        seq![name]
    } else {
        Seq::empty()
    }
}

/// The media tools offered, in a fixed order: one for each configured media service.
pub open spec fn spec_media_tools(c: ConfigView) -> Seq<Seq<char>> {
    tool_if_configured(c, ServiceKind::Vision, "describe_image"@) + tool_if_configured(
        c,
        ServiceKind::Tts,
        "text_to_speech"@,
    ) + tool_if_configured(c, ServiceKind::Embedding, "embed_text"@) + tool_if_configured(
        c,
        ServiceKind::Image,
        "generate_image"@,
    )
}

/// The value of a parameter, trimmed, when it is set and not blank.
pub fn non_empty_param(config: &Config, key: &str) -> (r: Option<String>)
    ensures
        match r {
            Some(v) => spec_non_empty(config@.params.get(key@)) == Some(v@),
            None => spec_non_empty(config@.params.get(key@)) is None,
        },
{
    match config.get_param(key) {
        Some(value) => {
            let trimmed = trim_text(value.as_str());
            if trimmed.as_str().is_empty() {
                None
            } else {
                Some(trimmed)
            }
        },
        None => None,
    }
}

/// The provider and model configured for a service.
pub fn configured_selection(config: &Config, kind: ServiceKind) -> (r: Option<(String, String)>)
    ensures
        match r {
            Some((p, m)) => spec_configured_selection(config@, kind) == Some((p@, m@)),
            None => spec_configured_selection(config@, kind) is None,
        },
{
    let provider = match non_empty_param(config, provider_key(kind).as_str()) {
        Some(p) => p,
        None => return None,
    };
    let model = match non_empty_param(config, model_key(kind).as_str()) {
        Some(m) => m,
        None => return None,
    };
    Some((provider, model))
}

/// The media tools that the configured services make available.
pub fn configured_media_tools(config: &Config) -> (tools: Vec<&'static str>)
    ensures
        tools@.map_values(|t: &str| t@) == spec_media_tools(config@),
{
    let mut tools: Vec<&'static str> = Vec::new();
    let ghost mut expected: Seq<Seq<char>> = Seq::empty();
    if configured_selection(config, ServiceKind::Vision).is_some() {
        tools.push("describe_image");
    }
    proof {
        expected = tool_if_configured(config@, ServiceKind::Vision, "describe_image"@);
        assert(tools@.map_values(|t: &str| t@) =~= expected);
    }
    if configured_selection(config, ServiceKind::Tts).is_some() {
        tools.push("text_to_speech");
    }
    proof {
        expected = expected + tool_if_configured(config@, ServiceKind::Tts, "text_to_speech"@);
        assert(tools@.map_values(|t: &str| t@) =~= expected);
    }
    if configured_selection(config, ServiceKind::Embedding).is_some() {
        tools.push("embed_text");
    }
    proof {
        expected = expected + tool_if_configured(config@, ServiceKind::Embedding, "embed_text"@);
        assert(tools@.map_values(|t: &str| t@) =~= expected);
    }
    if configured_selection(config, ServiceKind::Image).is_some() {
        tools.push("generate_image");
    }
    proof {
        expected = expected + tool_if_configured(config@, ServiceKind::Image, "generate_image"@);
        assert(tools@.map_values(|t: &str| t@) =~= expected);
    }
    tools
}

} // verus!
