//! The decision logic of goose's OpenAI-compatible media services, with its contracts:
//! which provider and model a service is configured to use, where its requests go, how the
//! requests authenticate, and how the replies are read.

pub mod text;
pub mod services;
pub mod error;
pub mod endpoint;
pub mod table;
pub mod config;
pub mod client;
pub mod media;
pub mod laws;

pub use client::{
    configured_endpoint, data_url, decode_generated_image, embedding_request,
    encode_image_base64, image_data_url, image_from_bytes, image_request, prepare,
    read_image_item, request_failure_message, sniff_image_mime, speech_request,
    transcription_form, transcription_text, vision_request, vision_text, AuthMethod,
    EmbeddingRequest, GeneratedImage, ImageItem, ImagePayload, ImageRequest, RequestPlan,
    ServiceCall, SpeechRequest, TranscriptionForm, VisionRequest,
};
pub use config::{Config, DeclaredProvider, ProviderEngine};
pub use endpoint::{
    expand_env_vars, normalize_openrouter_base_url, parse_custom_headers, parse_openai_base_url, request_target,
    resolve_endpoint, strip_openai_endpoint_suffix, OpenAiCompatEndpoint,
};
pub use error::ServiceError;
pub use media::{
    accept_image, image_extension, inline_embedding, is_remote_source, mime_for_path,
    speech_voice, MediaTool,
};
pub use services::{
    configured_media_tools, configured_selection, model_key, non_empty_param, provider_key,
    ServiceKind,
};
pub use table::StringMap;
