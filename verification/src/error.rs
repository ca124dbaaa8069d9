//! The errors that the service logic reports, and their messages.

use vstd::prelude::*;
use vstd::string::*;
use crate::services::ServiceKind;
use crate::text::{concat2, concat3};

verus! {

/// Why a service call could not be prepared or its reply could not be used.
#[derive(Debug, PartialEq, Eq)]
pub enum ServiceError {
    /// The base URL could not be split into a host and a path.
    InvalidBaseUrl(String),
    /// The provider is neither declared nor one of the built-in OpenAI-compatible providers.
    UnsupportedProvider(String),
    /// The declared provider speaks the Anthropic API.
    AnthropicEngine(String),
    /// The declared provider needs an API key that is not configured.
    MissingApiKey { key: String, provider: String },
    /// The declared provider's base URL refers to a variable that has no value.
    UnresolvedVariable { name: String, provider: String },
    /// The hosted Gemini endpoint needs `GOOGLE_API_KEY`.
    MissingGoogleApiKey,
    /// An endpoint header has a name that HTTP does not accept; the name is kept.
    InvalidHeaderName(String),
    /// An endpoint header has a value that HTTP does not accept; the header's name is kept.
    InvalidHeaderValue(String),
    /// No provider and model are configured for the service.
    NotConfigured(ServiceKind),
    MissingTranscriptionText,
    MissingVisionText,
    MissingEmbedding,
    MissingImageData,
    MissingImagePayload,
    /// The image reply held text that is not base64; the decoder's explanation is kept.
    InvalidBase64(String),
    ImageTooLarge,
    UnknownTool(String),
}

/// A `ServiceError` with its texts taken as character sequences.
pub enum ErrorView {
    InvalidBaseUrl(Seq<char>),
    UnsupportedProvider(Seq<char>),
    AnthropicEngine(Seq<char>),
    MissingApiKey(Seq<char>, Seq<char>),
    UnresolvedVariable(Seq<char>, Seq<char>),
    MissingGoogleApiKey,
    InvalidHeaderName(Seq<char>),
    InvalidHeaderValue(Seq<char>),
    NotConfigured(ServiceKind),
    MissingTranscriptionText,
    MissingVisionText,
    MissingEmbedding,
    MissingImageData,
    MissingImagePayload,
    InvalidBase64(Seq<char>),
    ImageTooLarge,
    UnknownTool(Seq<char>),
}

impl View for ServiceError {
    type V = ErrorView;

    open spec fn view(&self) -> ErrorView {
        match self {
            ServiceError::InvalidBaseUrl(u) => ErrorView::InvalidBaseUrl(u@),
            ServiceError::UnsupportedProvider(p) => ErrorView::UnsupportedProvider(p@),
            ServiceError::AnthropicEngine(p) => ErrorView::AnthropicEngine(p@),
            ServiceError::MissingApiKey { key, provider } => ErrorView::MissingApiKey(
                key@,
                provider@,
            ),
            ServiceError::UnresolvedVariable { name, provider } => ErrorView::UnresolvedVariable(
                name@,
                provider@,
            ),
            ServiceError::MissingGoogleApiKey => ErrorView::MissingGoogleApiKey,
            ServiceError::InvalidHeaderName(n) => ErrorView::InvalidHeaderName(n@),
            ServiceError::InvalidHeaderValue(n) => ErrorView::InvalidHeaderValue(n@),
            ServiceError::NotConfigured(k) => ErrorView::NotConfigured(*k),
            ServiceError::MissingTranscriptionText => ErrorView::MissingTranscriptionText,
            ServiceError::MissingVisionText => ErrorView::MissingVisionText,
            ServiceError::MissingEmbedding => ErrorView::MissingEmbedding,
            ServiceError::MissingImageData => ErrorView::MissingImageData,
            ServiceError::MissingImagePayload => ErrorView::MissingImagePayload,
            ServiceError::InvalidBase64(d) => ErrorView::InvalidBase64(d@),
            ServiceError::ImageTooLarge => ErrorView::ImageTooLarge,
            ServiceError::UnknownTool(n) => ErrorView::UnknownTool(n@),
        }
    }
}

/// How a service is named in messages.
pub open spec fn service_label(kind: ServiceKind) -> Seq<char> {
    match kind {
        ServiceKind::Chat => "Chat"@,
        ServiceKind::Vision => "Vision"@,
        ServiceKind::Stt => "STT"@,
        ServiceKind::Realtime => "Realtime"@,
        ServiceKind::Tts => "TTS"@,
        ServiceKind::Embedding => "Embedding"@,
        ServiceKind::Image => "Image"@,
        ServiceKind::Video => "Video"@,
    }
}

/// The text that reports an error.
pub open spec fn error_text(e: ErrorView) -> Seq<char> {
    match e {
        ErrorView::InvalidBaseUrl(u) => "invalid base URL: "@ + u,
        ErrorView::UnsupportedProvider(p) => "Provider '"@ + p
            + "' is not supported for OpenAI-compatible services. Use a provider with an OpenAI-compatible chat completions endpoint."@,
        ErrorView::AnthropicEngine(p) => "Provider '"@ + p
            + "' uses the Anthropic engine, which does not speak the OpenAI-compatible API these services call"@,
        ErrorView::MissingApiKey(k, p) => "API key '"@ + k + "' required for provider '"@ + p
            + "' but not configured"@,
        ErrorView::UnresolvedVariable(n, p) => "environment variable '"@ + n
            + "' required by provider '"@ + p + "' is not set"@,
        ErrorView::MissingGoogleApiKey =>
            "GOOGLE_API_KEY required for the hosted Gemini OpenAI-compatible endpoint"@,
        ErrorView::InvalidHeaderName(_) => "invalid HTTP header name"@,
        ErrorView::InvalidHeaderValue(_) => "failed to parse header value"@,
        ErrorView::NotConfigured(k) => service_label(k)
            + " service provider and model are not configured"@,
        ErrorView::MissingTranscriptionText => "transcription response did not include text"@,
        ErrorView::MissingVisionText => "vision response did not include text"@,
        ErrorView::MissingEmbedding => "embedding response did not include a vector"@,
        ErrorView::MissingImageData => "image response did not include data"@,
        ErrorView::MissingImagePayload => "image response did not include b64_json or url"@,
        ErrorView::InvalidBase64(d) => "image response was not valid base64: "@ + d,
        ErrorView::ImageTooLarge => "image exceeds the 20MB limit"@,
        ErrorView::UnknownTool(n) => "Unknown tool: "@ + n,
    }
}

/// How a service is named in messages.
pub fn label(kind: ServiceKind) -> (r: &'static str)
    ensures
        r@ == service_label(kind),
{
    match kind {
        ServiceKind::Chat => "Chat",
        ServiceKind::Vision => "Vision",
        ServiceKind::Stt => "STT",
        ServiceKind::Realtime => "Realtime",
        ServiceKind::Tts => "TTS",
        ServiceKind::Embedding => "Embedding",
        ServiceKind::Image => "Image",
        ServiceKind::Video => "Video",
    }
}

impl ServiceError {
    /// The text that reports this error.
    pub fn message(&self) -> (r: String)
        ensures
            r@ == error_text(self@),
    {
        match self {
            ServiceError::InvalidBaseUrl(u) => concat2("invalid base URL: ", u.as_str()),
            ServiceError::UnsupportedProvider(p) => concat3(
                "Provider '",
                p.as_str(),
                "' is not supported for OpenAI-compatible services. Use a provider with an OpenAI-compatible chat completions endpoint.",
            ),
            ServiceError::AnthropicEngine(p) => concat3(
                "Provider '",
                p.as_str(),
                "' uses the Anthropic engine, which does not speak the OpenAI-compatible API these services call",
            ),
            ServiceError::MissingApiKey { key, provider } => {
                let mut r = concat3("API key '", key.as_str(), "' required for provider '");
                r.append(provider.as_str());
                r.append("' but not configured");
                r
            },
            ServiceError::UnresolvedVariable { name, provider } => {
                let mut r = concat3("environment variable '", name.as_str(), "' required by provider '");
                r.append(provider.as_str());
                r.append("' is not set");
                r
            },
            ServiceError::MissingGoogleApiKey => String::from_str(
                "GOOGLE_API_KEY required for the hosted Gemini OpenAI-compatible endpoint",
            ),
            ServiceError::InvalidHeaderName(_) => String::from_str("invalid HTTP header name"),
            ServiceError::InvalidHeaderValue(_) => String::from_str("failed to parse header value"),
            ServiceError::NotConfigured(k) => concat2(
                label(*k),
                " service provider and model are not configured",
            ),
            ServiceError::MissingTranscriptionText => String::from_str(
                "transcription response did not include text",
            ),
            ServiceError::MissingVisionText => String::from_str(
                "vision response did not include text",
            ),
            ServiceError::MissingEmbedding => String::from_str(
                "embedding response did not include a vector",
            ),
            ServiceError::MissingImageData => String::from_str(
                "image response did not include data",
            ),
            ServiceError::MissingImagePayload => String::from_str(
                "image response did not include b64_json or url",
            ),
            ServiceError::InvalidBase64(d) => concat2(
                "image response was not valid base64: ",
                d.as_str(),
            ),
            ServiceError::ImageTooLarge => String::from_str("image exceeds the 20MB limit"),
            ServiceError::UnknownTool(n) => concat2("Unknown tool: ", n.as_str()),
        }
    }
}

} // verus!
