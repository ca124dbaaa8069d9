//! The parts of a service call that decide rather than transport: which host, path and
//! credentials a request uses, and how the replies are read.

use base64::Engine;
use vstd::prelude::*;
use vstd::string::*;
use crate::config::Config;
use crate::endpoint::{
    pair_views, request_target, resolve_endpoint, spec_parse_openai_base_url,
    spec_resolve_endpoint, spec_strip_endpoint_suffix, EndpointView, OpenAiCompatEndpoint,
};
use crate::error::{ErrorView, ServiceError};
use crate::services::{configured_selection, spec_configured_selection, ServiceKind};
use crate::table::{keys_distinct, lemma_pairs_map_domain, lemma_pairs_map_value, pairs_map, StringMap};
use crate::text::{chars_of, concat2, concat3, substring, trim, trim_text};

verus! {

broadcast use vstd::string::group_string_axioms;

/// An image that a service produced.
#[derive(Debug)]
pub struct GeneratedImage {
    pub bytes: Vec<u8>,
    pub mime_type: String,
}

/// How a request authenticates.
#[derive(Debug)]
pub enum AuthMethod {
    NoAuth,
    BearerToken(String),
}

/// Everything needed to send one request to a service. `T` is the TLS configuration
/// that the HTTP client is built with; the plan carries it as it was given.
#[derive(Debug)]
pub struct RequestPlan<T> {
    pub host: String,
    pub query_params: Vec<(String, String)>,
    pub path: String,
    pub auth: AuthMethod,
    pub headers: Option<StringMap>,
    pub tls: Option<T>,
    pub timeout_secs: u64,
}

/// Seconds allowed for services that answer with text.
pub const TEXT_TIMEOUT_SECS: u64 = 60;

/// Seconds allowed for services that answer with audio or images.
pub const MEDIA_TIMEOUT_SECS: u64 = 120;

/// Characters of an error reply that a failure message quotes.
pub const MAX_ERROR_PREVIEW: usize = 512;

/// The OpenAI-compatible operations that the services perform.
#[derive(Clone, Copy, Debug, PartialEq, Eq, Structural)]
pub enum ServiceCall {
    Transcription,
    Speech,
    Embeddings,
    ImageGeneration,
    VisionChat,
}

pub open spec fn spec_versioned_path(call: ServiceCall) -> Seq<char> {
    match call {
        ServiceCall::Transcription => "v1/audio/transcriptions"@,
        ServiceCall::Speech => "v1/audio/speech"@,
        ServiceCall::Embeddings => "v1/embeddings"@,
        ServiceCall::ImageGeneration => "v1/images/generations"@,
        ServiceCall::VisionChat => "v1/chat/completions"@,
    }
}

pub open spec fn spec_versionless_path(call: ServiceCall) -> Seq<char> {
    match call {
        ServiceCall::Transcription => "audio/transcriptions"@,
        ServiceCall::Speech => "audio/speech"@,
        ServiceCall::Embeddings => "embeddings"@,
        ServiceCall::ImageGeneration => "images/generations"@,
        ServiceCall::VisionChat => "chat/completions"@,
    }
}

pub open spec fn spec_timeout_secs(call: ServiceCall) -> u64 {
    match call {
        ServiceCall::Speech | ServiceCall::ImageGeneration => MEDIA_TIMEOUT_SECS,
        _ => TEXT_TIMEOUT_SECS,
    }
}

impl ServiceCall {
    /// The request path when the base URL carries no version.
    pub fn versioned_path(self) -> (p: &'static str)
        ensures
            p@ == spec_versioned_path(self),
    {
        match self {
            ServiceCall::Transcription => "v1/audio/transcriptions",
            ServiceCall::Speech => "v1/audio/speech",
            ServiceCall::Embeddings => "v1/embeddings",
            ServiceCall::ImageGeneration => "v1/images/generations",
            ServiceCall::VisionChat => "v1/chat/completions",
        }
    }

    /// The request path when the base URL already names a version.
    pub fn versionless_path(self) -> (p: &'static str)
        ensures
            p@ == spec_versionless_path(self),
    {
        match self {
            ServiceCall::Transcription => "audio/transcriptions",
            ServiceCall::Speech => "audio/speech",
            ServiceCall::Embeddings => "embeddings",
            ServiceCall::ImageGeneration => "images/generations",
            ServiceCall::VisionChat => "chat/completions",
        }
    }

    /// How long the request may take: text services get one minute, media services two.
    pub fn timeout_secs(self) -> (t: u64)
        ensures
            t == spec_timeout_secs(self),
    {
        match self {
            ServiceCall::Speech | ServiceCall::ImageGeneration => MEDIA_TIMEOUT_SECS,
            _ => TEXT_TIMEOUT_SECS,
        }
    }
}

/// The token characters of RFC 7230 that an HTTP header name may hold.
pub open spec fn is_token_char(c: char) -> bool {
    ||| 'a' <= c <= 'z'
    ||| 'A' <= c <= 'Z'
    ||| '0' <= c <= '9'
    ||| c == '!' || c == '#' || c == '$' || c == '%' || c == '&' || c == '\''
    ||| c == '*' || c == '+' || c == '-' || c == '.' || c == '^' || c == '_'
    ||| c == '`' || c == '|' || c == '~'
}

/// A header name that HTTP accepts: 1 to 65535 token characters.
pub open spec fn valid_header_name(name: Seq<char>) -> bool {
    0 < name.len() <= 65535 && forall|i: int| 0 <= i < name.len() ==> is_token_char(#[trigger] name[i])
}

/// A header value that HTTP accepts: no control character other than tab, and no DEL.
pub open spec fn valid_header_value(value: Seq<char>) -> bool {
    forall|i: int|
        0 <= i < value.len() ==> #[trigger] value[i] == '\t' || (32 <= value[i] as u32
            && value[i] as u32 != 127)
}

/// Whether every header of a map has a name and a value that HTTP accepts.
pub open spec fn headers_valid(headers: Map<Seq<char>, Seq<char>>) -> bool {
    forall|k: Seq<char>|
        #[trigger] headers.dom().contains(k) ==> valid_header_name(k) && valid_header_value(
            headers[k],
        )
}

/// Whether an endpoint has a header that HTTP refuses.
pub open spec fn headers_refused(headers: Option<StringMap>) -> bool {
    match headers {
        Some(h) => !headers_valid(h@),
        None => false,
    }
}

/// The error names a refused header: one whose name is refused, or whose name is accepted
/// and whose value is refused.
pub open spec fn refusal_reported(headers: Option<StringMap>, e: ServiceError) -> bool {
    match (headers, e) {
        (Some(h), ServiceError::InvalidHeaderName(k)) => h@.dom().contains(k@) && !valid_header_name(
            k@,
        ),
        (Some(h), ServiceError::InvalidHeaderValue(k)) => h@.dom().contains(k@) && valid_header_name(
            k@,
        ) && !valid_header_value(h@[k@]),
        _ => false,
    }
}

/// Calls `HeaderName::from_bytes` (the `http` crate's, as `reqwest::header` exports it).
/// Claimed: it accepts exactly names of 1 to 65535 RFC 7230 token characters (its table
/// maps every other byte, and every byte of a non-ASCII character, to 0).
#[verifier::external_body]
fn header_name_accepted(name: &str) -> (ok: bool)
    ensures
        ok == valid_header_name(name@),
{
    reqwest::header::HeaderName::from_bytes(name.as_bytes()).is_ok()
}

/// Calls `HeaderValue::from_str` (the `http` crate's, as `reqwest::header` exports it).
/// Claimed: it accepts exactly the texts whose bytes are all tab or at least 32 and not 127;
/// the bytes of a non-ASCII character are all at least 128.
#[verifier::external_body]
fn header_value_accepted(value: &str) -> (ok: bool)
    ensures
        ok == valid_header_value(value@),
{
    reqwest::header::HeaderValue::from_str(value).is_ok()
}

/// Checks each header of an endpoint as the HTTP client would take it, name then value;
/// the first refused one is reported.
fn check_headers(headers: &StringMap) -> (r: Result<(), ServiceError>)
    ensures
        r is Ok <==> headers_valid(headers@),
        r matches Err(ServiceError::InvalidHeaderName(k)) ==> headers@.dom().contains(k@)
            && !valid_header_name(k@),
        r matches Err(ServiceError::InvalidHeaderValue(k)) ==> headers@.dom().contains(k@)
            && valid_header_name(k@) && !valid_header_value(headers@[k@]),
        r is Err ==> (r matches Err(ServiceError::InvalidHeaderName(_)) || r matches Err(
            ServiceError::InvalidHeaderValue(_),
        )),
{
    let pairs = headers.pairs();
    let mut i: usize = 0;
    while i < pairs.len()
        invariant
            i <= pairs@.len(),
            pairs_map(pairs@) == headers@,
            keys_distinct(pairs@),
            forall|j: int|
                0 <= j < i ==> valid_header_name(#[trigger] pairs@[j].0@) && valid_header_value(
                    pairs@[j].1@,
                ),
        decreases pairs@.len() - i,
    {
        let name = &pairs[i].0;
        let value = &pairs[i].1;
        proof {
            lemma_pairs_map_value(pairs@, i as int);
        }
        if !header_name_accepted(name.as_str()) {
            return Err(ServiceError::InvalidHeaderName(name.clone()));
        }
        if !header_value_accepted(value.as_str()) {
            return Err(ServiceError::InvalidHeaderValue(name.clone()));
        }
        i = i + 1;
    }
    proof {
        assert forall|k: Seq<char>| #[trigger] headers@.dom().contains(k) implies valid_header_name(
            k,
        ) && valid_header_value(headers@[k]) by {
            lemma_pairs_map_domain(pairs@, k);
            let j = choose|j: int| 0 <= j < pairs@.len() && pairs@[j].0@ == k;
            lemma_pairs_map_value(pairs@, j);
            assert(valid_header_name(pairs@[j].0@));
        }
    }
    Ok(())
}

/// The request plan for an endpoint: the target of `request_target`, a bearer token when
/// the endpoint has an API key, the endpoint's extra headers, and the TLS configuration and
/// timeout that the client is built with.
pub fn prepare<T>(
    endpoint: &OpenAiCompatEndpoint,
    versioned: &str,
    versionless: &str,
    tls: Option<T>,
    timeout_secs: u64,
) -> (r: Result<RequestPlan<T>, ServiceError>)
    ensures
        match spec_parse_openai_base_url(spec_strip_endpoint_suffix(endpoint.base_url@)) {
            Some((host, params, with_version)) => if headers_refused(endpoint.headers) {
                r matches Err(e) && refusal_reported(endpoint.headers, e)
            } else {
                r matches Ok(plan) && plan.host@ == host && pair_views(plan.query_params@)
                    == params && plan.path@ == (if with_version {
                    versioned@
                } else {
                    versionless@
                }) && plan.tls == tls && plan.timeout_secs == timeout_secs && (if endpoint.api_key@.len()
                    == 0 {
                    plan.auth is NoAuth
                } else {
                    plan.auth matches AuthMethod::BearerToken(token) && token@ == endpoint.api_key@
                }) && (match (plan.headers, endpoint.headers) {
                    (Some(p), Some(e)) => p@ == e@,
                    (None, None) => true,
                    _ => false,
                })
            },
            None => r matches Err(e) && e@ == ErrorView::InvalidBaseUrl(
                spec_strip_endpoint_suffix(endpoint.base_url@),
            ),
        },
{
    let (host, query_params, path) = match request_target(
        endpoint.base_url.as_str(),
        versioned,
        versionless,
    ) {
        Ok(target) => target,
        Err(e) => {
            return Err(e);
        },
    };
    let auth = if endpoint.api_key.as_str().is_empty() {
        AuthMethod::NoAuth
    } else {
        AuthMethod::BearerToken(endpoint.api_key.clone())
    };
    let headers = match &endpoint.headers {
        Some(h) => {
            match check_headers(h) {
                Ok(()) => {},
                Err(e) => {
                    return Err(e);
                },
            }
            Some(h.duplicate())
        },
        None => None,
    };
    Ok(RequestPlan { host, query_params, path, auth, headers, tls, timeout_secs })
}

/// The endpoint and model of a configured service.
pub open spec fn spec_configured_endpoint(c: crate::config::ConfigView, kind: ServiceKind) -> Result<
    (EndpointView, Seq<char>),
    ErrorView,
> {
    match spec_configured_selection(c, kind) {
        None => Err(ErrorView::NotConfigured(kind)),
        Some((provider, model)) => match spec_resolve_endpoint(c, provider) {
            Ok(e) => Ok((e, model)),
            Err(e) => Err(e),
        },
    }
}

/// The endpoint and model that a service is configured to use.
pub fn configured_endpoint(config: &Config, kind: ServiceKind) -> (r: Result<
    (OpenAiCompatEndpoint, String),
    ServiceError,
>)
    ensures
        match spec_configured_endpoint(config@, kind) {
            Ok((e, model)) => r matches Ok((endpoint, m)) && endpoint@ == e && m@ == model,
            Err(e) => r matches Err(error) && error@ == e,
        },
{
    let (provider, model) = match configured_selection(config, kind) {
        Some(selection) => selection,
        None => {
            return Err(ServiceError::NotConfigured(kind));
        },
    };
    match resolve_endpoint(config, provider.as_str()) {
        Ok(endpoint) => Ok((endpoint, model)),
        Err(e) => Err(e),
    }
}

/// At most the first `MAX_ERROR_PREVIEW` characters of an error reply, with `…` after a cut.
pub open spec fn error_preview(body: Seq<char>) -> Seq<char> {
    if body.len() > MAX_ERROR_PREVIEW {
        body.take(MAX_ERROR_PREVIEW as int) + "…"@
    } else {
        body
    }
}

/// The message for a request that the service refused: its status and the start of its reply.
pub open spec fn spec_failure_message(status: Seq<char>, body: Seq<char>) -> Seq<char> {
    "service request failed ("@ + status + "): "@ + error_preview(body)
}

pub fn request_failure_message(status: &str, body: &str) -> (m: String)
    ensures
        m@ == spec_failure_message(status@, body@),
{
    let v = chars_of(body);
    let preview = if v.len() > MAX_ERROR_PREVIEW {
        let head = substring(body, 0, MAX_ERROR_PREVIEW);
        concat2(head.as_str(), "…")
    } else {
        String::from_str(body)
    };
    let mut m = concat3("service request failed (", status, "): ");
    m.append(preview.as_str());
    m
}

pub open spec fn starts_with_bytes(b: Seq<u8>, prefix: Seq<u8>) -> bool {
    prefix.len() <= b.len() && b.subrange(0, prefix.len() as int) == prefix
}

/// The image type that a file's leading bytes announce; PNG when they announce none.
pub open spec fn spec_sniff_image_mime(b: Seq<u8>) -> Seq<char> {
    if starts_with_bytes(b, seq![0x89u8, 0x50u8, 0x4eu8, 0x47u8, 0x0du8, 0x0au8, 0x1au8, 0x0au8]) {
        "image/png"@
    } else if starts_with_bytes(b, seq![0xffu8, 0xd8u8, 0xffu8]) {
        "image/jpeg"@
    } else if starts_with_bytes(b, seq![0x47u8, 0x49u8, 0x46u8, 0x38u8]) {
        "image/gif"@
    } else if b.len() >= 12 && b.subrange(0, 4) == seq![0x52u8, 0x49u8, 0x46u8, 0x46u8]
        && b.subrange(8, 12) == seq![0x57u8, 0x45u8, 0x42u8, 0x50u8] {
        "image/webp"@
    } else {
        "image/png"@
    }
}

pub fn sniff_image_mime(bytes: &[u8]) -> (mime: &'static str)
    ensures
        mime@ == spec_sniff_image_mime(bytes@),
{
    let b = bytes;
    let n = b.len();
    if n >= 8 && b[0] == 0x89 && b[1] == 0x50 && b[2] == 0x4e && b[3] == 0x47 && b[4] == 0x0d
        && b[5] == 0x0a && b[6] == 0x1a && b[7] == 0x0a {
        assert(b@.subrange(0, 8) =~= seq![
            0x89u8,
            0x50u8,
            0x4eu8,
            0x47u8,
            0x0du8,
            0x0au8,
            0x1au8,
            0x0au8,
        ]);
        return "image/png";
    }
    assert(!starts_with_bytes(
        b@,
        seq![0x89u8, 0x50u8, 0x4eu8, 0x47u8, 0x0du8, 0x0au8, 0x1au8, 0x0au8],
    )) by {
        if n >= 8 {
            let p = seq![0x89u8, 0x50u8, 0x4eu8, 0x47u8, 0x0du8, 0x0au8, 0x1au8, 0x0au8];
            if b@.subrange(0, 8) == p {
                assert(b@.subrange(0, 8)[0] == p[0] && b@.subrange(0, 8)[1] == p[1]
                    && b@.subrange(0, 8)[2] == p[2] && b@.subrange(0, 8)[3] == p[3]
                    && b@.subrange(0, 8)[4] == p[4] && b@.subrange(0, 8)[5] == p[5]
                    && b@.subrange(0, 8)[6] == p[6] && b@.subrange(0, 8)[7] == p[7]);
            }
        }
    }
    if n >= 3 && b[0] == 0xff && b[1] == 0xd8 && b[2] == 0xff {
        assert(b@.subrange(0, 3) =~= seq![0xffu8, 0xd8u8, 0xffu8]);
        return "image/jpeg";
    }
    assert(!starts_with_bytes(b@, seq![0xffu8, 0xd8u8, 0xffu8])) by {
        if n >= 3 {
            let p = seq![0xffu8, 0xd8u8, 0xffu8];
            if b@.subrange(0, 3) == p {
                assert(b@.subrange(0, 3)[0] == p[0] && b@.subrange(0, 3)[1] == p[1]
                    && b@.subrange(0, 3)[2] == p[2]);
            }
        }
    }
    if n >= 4 && b[0] == 0x47 && b[1] == 0x49 && b[2] == 0x46 && b[3] == 0x38 {
        assert(b@.subrange(0, 4) =~= seq![0x47u8, 0x49u8, 0x46u8, 0x38u8]);
        return "image/gif";
    }
    assert(!starts_with_bytes(b@, seq![0x47u8, 0x49u8, 0x46u8, 0x38u8])) by {
        if n >= 4 {
            let p = seq![0x47u8, 0x49u8, 0x46u8, 0x38u8];
            if b@.subrange(0, 4) == p {
                assert(b@.subrange(0, 4)[0] == p[0] && b@.subrange(0, 4)[1] == p[1]
                    && b@.subrange(0, 4)[2] == p[2] && b@.subrange(0, 4)[3] == p[3]);
            }
        }
    }
    if n >= 12 && b[0] == 0x52 && b[1] == 0x49 && b[2] == 0x46 && b[3] == 0x46 && b[8] == 0x57
        && b[9] == 0x45 && b[10] == 0x42 && b[11] == 0x50 {
        assert(b@.subrange(0, 4) =~= seq![0x52u8, 0x49u8, 0x46u8, 0x46u8]);
        assert(b@.subrange(8, 12) =~= seq![0x57u8, 0x45u8, 0x42u8, 0x50u8]);
        return "image/webp";
    }
    assert(!(b@.len() >= 12 && b@.subrange(0, 4) == seq![0x52u8, 0x49u8, 0x46u8, 0x46u8]
        && b@.subrange(8, 12) == seq![0x57u8, 0x45u8, 0x42u8, 0x50u8])) by {
        if n >= 12 {
            let p = seq![0x52u8, 0x49u8, 0x46u8, 0x46u8];
            let q = seq![0x57u8, 0x45u8, 0x42u8, 0x50u8];
            if b@.subrange(0, 4) == p && b@.subrange(8, 12) == q {
                assert(b@.subrange(0, 4)[0] == p[0] && b@.subrange(0, 4)[1] == p[1]
                    && b@.subrange(0, 4)[2] == p[2] && b@.subrange(0, 4)[3] == p[3]);
                assert(b@.subrange(8, 12)[0] == q[0] && b@.subrange(8, 12)[1] == q[1]
                    && b@.subrange(8, 12)[2] == q[2] && b@.subrange(8, 12)[3] == q[3]);
            }
        }
    }
    "image/png"
}

/// An image made of `bytes`, typed by what its leading bytes announce.
pub fn image_from_bytes(bytes: Vec<u8>) -> (image: GeneratedImage)
    ensures
        image.bytes@ == bytes@,
        image.mime_type@ == spec_sniff_image_mime(bytes@),
{
    let mime_type = String::from_str(sniff_image_mime(bytes.as_slice()));
    GeneratedImage { bytes, mime_type }
}

#[verifier::external_type_specification]
#[verifier::external_body]
pub struct ExDecodeError(base64::DecodeError);

/// The symbol for a six-bit value in the standard base64 alphabet of RFC 4648:
/// `A`-`Z`, `a`-`z`, `0`-`9`, `+`, `/`.
pub open spec fn base64_symbol(v: int) -> char {
    if v < 26 {
        (65 + v) as char
    } else if v < 52 {
        (97 + v - 26) as char
    } else if v < 62 {
        (48 + v - 52) as char
    } else if v == 62 {
        '+'
    } else {
        '/'
    }
}

/// Standard base64 (RFC 4648, section 4): each group of three bytes becomes four symbols of
/// six bits each; a final group of one or two bytes is padded with `=` to four symbols.
pub open spec fn base64_encode_spec(b: Seq<u8>) -> Seq<char>
    decreases b.len(),
{
    if b.len() == 0 {
        Seq::empty()
    } else {
        let x = b[0] as int;
        let y = if b.len() > 1 { b[1] as int } else { 0 };
        let z = if b.len() > 2 { b[2] as int } else { 0 };
        if b.len() == 1 {
            seq![base64_symbol(x / 4), base64_symbol((x % 4) * 16), '=', '=']
        } else if b.len() == 2 {
            seq![
                base64_symbol(x / 4),
                base64_symbol((x % 4) * 16 + y / 16),
                base64_symbol((y % 16) * 4),
                '=',
            ]
        } else {
            seq![
                base64_symbol(x / 4),
                base64_symbol((x % 4) * 16 + y / 16),
                base64_symbol((y % 16) * 4 + z / 64),
                base64_symbol(z % 64),
            ] + base64_encode_spec(b.subrange(3, b.len() as int))
        }
    }
}

proof fn lemma_symbol_code(v: int)
    requires
        0 <= v < 64,
    ensures
        v < 26 ==> base64_symbol(v) as u32 == 65 + v,
        26 <= v < 52 ==> base64_symbol(v) as u32 == 71 + v,
        52 <= v < 62 ==> base64_symbol(v) as u32 == v - 4,
        v == 62 ==> base64_symbol(v) as u32 == 43,
        v == 63 ==> base64_symbol(v) as u32 == 47,
        base64_symbol(v) != '=',
{
}

/// Distinct six-bit values have distinct symbols, and none of them is the pad `=`.
pub proof fn lemma_symbol_injective(i: int, j: int)
    requires
        0 <= i < 64,
        0 <= j < 64,
        base64_symbol(i) == base64_symbol(j),
    ensures
        i == j,
{
    lemma_symbol_code(i);
    lemma_symbol_code(j);
}

pub proof fn lemma_encode_shape(b: Seq<u8>)
    ensures
        b.len() == 0 <==> base64_encode_spec(b).len() == 0,
        b.len() > 0 ==> base64_encode_spec(b).len() >= 4,
        b.len() == 1 ==> base64_encode_spec(b)[2] == '=',
        b.len() >= 2 ==> base64_encode_spec(b)[2] != '=',
        b.len() == 2 ==> base64_encode_spec(b)[3] == '=',
        b.len() >= 3 ==> base64_encode_spec(b)[3] != '=',
    decreases b.len(),
{
    if b.len() > 0 {
        let x = b[0] as int;
        let y = if b.len() > 1 { b[1] as int } else { 0 };
        let z = if b.len() > 2 { b[2] as int } else { 0 };
        lemma_symbol_code((y % 16) * 4);
        lemma_symbol_code((x % 4) * 16 + y / 16);
        lemma_symbol_code((y % 16) * 4 + z / 64);
        lemma_symbol_code(z % 64);
        if b.len() >= 3 {
            lemma_encode_shape(b.subrange(3, b.len() as int));
        }
    }
}

/// Different byte sequences have different standard base64 encodings.
pub proof fn lemma_encode_injective(a: Seq<u8>, b: Seq<u8>)
    requires
        base64_encode_spec(a) == base64_encode_spec(b),
    ensures
        a == b,
    decreases a.len(),
{
    let e = base64_encode_spec(a);
    lemma_encode_shape(a);
    lemma_encode_shape(b);
    if a.len() == 0 {
        assert(a =~= b);
    } else {
        let x = a[0] as int;
        let y = if a.len() > 1 { a[1] as int } else { 0 };
        let z = if a.len() > 2 { a[2] as int } else { 0 };
        let u = b[0] as int;
        let v = if b.len() > 1 { b[1] as int } else { 0 };
        let w = if b.len() > 2 { b[2] as int } else { 0 };
        assert(a.len() == 1 <==> b.len() == 1);
        assert(a.len() == 2 <==> b.len() == 2);
        assert(e[0] == base64_symbol(x / 4));
        assert(e[1] == base64_symbol((x % 4) * 16 + y / 16));
        assert(e[0] == base64_symbol(u / 4));
        assert(e[1] == base64_symbol((u % 4) * 16 + v / 16));
        lemma_symbol_injective(x / 4, u / 4);
        lemma_symbol_injective((x % 4) * 16 + y / 16, (u % 4) * 16 + v / 16);
        assert(x == u);
        if a.len() >= 2 {
            if a.len() == 2 {
                assert(e[2] == base64_symbol((y % 16) * 4));
                assert(e[2] == base64_symbol((v % 16) * 4));
                lemma_symbol_injective((y % 16) * 4, (v % 16) * 4);
                assert(a =~= b);
            } else {
                assert(e[2] == base64_symbol((y % 16) * 4 + z / 64));
                assert(e[2] == base64_symbol((v % 16) * 4 + w / 64));
                assert(e[3] == base64_symbol(z % 64));
                assert(e[3] == base64_symbol(w % 64));
                lemma_symbol_injective((y % 16) * 4 + z / 64, (v % 16) * 4 + w / 64);
                lemma_symbol_injective(z % 64, w % 64);
                assert(y == v);
                assert(z == w);
                let ra = a.subrange(3, a.len() as int);
                let rb = b.subrange(3, b.len() as int);
                assert(base64_encode_spec(ra) =~= e.subrange(4, e.len() as int));
                assert(base64_encode_spec(rb) =~= e.subrange(4, e.len() as int));
                lemma_encode_injective(ra, rb);
                assert(a =~= seq![a[0], a[1], a[2]] + ra);
                assert(b =~= seq![b[0], b[1], b[2]] + rb);
                assert(a =~= b);
            }
        } else {
            assert(a =~= b);
        }
    }
}

/// Whether `text` is the standard base64 encoding of some bytes.
pub open spec fn is_base64_encoding(text: Seq<char>) -> bool {
    exists|b: Seq<u8>| base64_encode_spec(b) == text
}

/// Calls `base64::Engine::decode` on the `STANDARD` engine (standard alphabet, canonical
/// padding required, trailing bits refused). Claimed: the call succeeds exactly on texts that
/// are the standard encoding of some bytes, and then returns bytes that encode to the text.
#[verifier::external_body]
fn decode_base64(text: &str) -> (r: Result<Vec<u8>, base64::DecodeError>)
    ensures
        match r {
            Ok(bytes) => base64_encode_spec(bytes@) == text@,
            Err(_) => !is_base64_encoding(text@),
        },
{
    base64::engine::general_purpose::STANDARD.decode(text)
}

/// Calls `ToString::to_string` on a `base64::DecodeError` (its `Display` text, such as
/// `Invalid padding`). Nothing is claimed of the text: the error is an opaque declared type,
/// and which of its variants a bad text yields depends on the decoder's order of checks.
#[verifier::external_body]
fn decode_error_text(error: &base64::DecodeError) -> String {
    error.to_string()
}

/// Calls `base64::Engine::encode` on the `STANDARD` engine. Claimed: the result is the
/// standard base64 encoding of the bytes. The length bound keeps the encoder's output size
/// within `usize`, where it would otherwise panic.
#[verifier::external_body]
fn encode_base64(bytes: &[u8]) -> (r: String)
    requires
        bytes@.len() <= usize::MAX / 4 * 3,
    ensures
        r@ == base64_encode_spec(bytes@),
{
    base64::engine::general_purpose::STANDARD.encode(bytes)
}

/// The standard base64 text of some bytes, as generated images are returned to the agent.
pub fn encode_image_base64(bytes: &[u8]) -> (r: String)
    requires
        bytes@.len() <= usize::MAX / 4 * 3,
    ensures
        r@ == base64_encode_spec(bytes@),
{
    encode_base64(bytes)
}

/// What decoding a `b64_json` reply gives: an image whose bytes the text encodes, typed by
/// those bytes, when the text is base64; an `InvalidBase64` error otherwise.
pub open spec fn decoded_image_ok(encoded: Seq<char>, r: Result<GeneratedImage, ServiceError>) -> bool {
    if is_base64_encoding(encoded) {
        r matches Ok(image) && base64_encode_spec(image.bytes@) == encoded && image.mime_type@
            == spec_sniff_image_mime(image.bytes@)
    } else {
        r matches Err(ServiceError::InvalidBase64(_))
    }
}

/// The image that a base64 `b64_json` reply holds.
pub fn decode_generated_image(encoded: &str) -> (r: Result<GeneratedImage, ServiceError>)
    ensures
        decoded_image_ok(encoded@, r),
{
    match decode_base64(encoded) {
        Ok(bytes) => Ok(image_from_bytes(bytes)),
        Err(error) => Err(ServiceError::InvalidBase64(decode_error_text(&error))),
    }
}

/// What an image reply's first data item holds.
pub struct ImageItem {
    pub b64_json: Option<String>,
    pub url: Option<String>,
}

/// Where the generated image comes from.
#[derive(Debug)]
pub enum ImagePayload {
    /// The reply held the image itself.
    Inline(GeneratedImage),
    /// The image is to be downloaded from this URL.
    Download(String),
}

/// Reads the first data item of an image reply: inline base64 is preferred to a URL.
pub fn read_image_item(item: Option<ImageItem>) -> (r: Result<ImagePayload, ServiceError>)
    ensures
        match item {
            None => r matches Err(ServiceError::MissingImageData),
            Some(ImageItem { b64_json: Some(encoded), url: _ }) => if is_base64_encoding(
                encoded@,
            ) {
                r matches Ok(ImagePayload::Inline(image)) && base64_encode_spec(image.bytes@)
                    == encoded@ && image.mime_type@ == spec_sniff_image_mime(image.bytes@)
            } else {
                r matches Err(ServiceError::InvalidBase64(_))
            },
            Some(ImageItem { b64_json: None, url: Some(u) }) => r matches Ok(
                ImagePayload::Download(d),
            ) && d@ == u@,
            Some(ImageItem { b64_json: None, url: None }) => r matches Err(
                ServiceError::MissingImagePayload,
            ),
        },
{
    match item {
        None => Err(ServiceError::MissingImageData),
        Some(ImageItem { b64_json: Some(encoded), url: _ }) => match decode_generated_image(
            encoded.as_str(),
        ) {
            Ok(image) => Ok(ImagePayload::Inline(image)),
            Err(e) => Err(e),
        },
        Some(ImageItem { b64_json: None, url: Some(u) }) => Ok(ImagePayload::Download(u)),
        Some(ImageItem { b64_json: None, url: None }) => Err(ServiceError::MissingImagePayload),
    }
}

pub open spec fn spec_data_url(mime_type: Seq<char>, encoded: Seq<char>) -> Seq<char> {
    "data:"@ + mime_type + ";base64,"@ + encoded
}

/// A `data:` URL for base64 text of the given type.
pub fn data_url(mime_type: &str, encoded: &str) -> (url: String)
    ensures
        url@ == spec_data_url(mime_type@, encoded@),
{
    let mut url = concat3("data:", mime_type, ";base64,");
    url.append(encoded);
    url
}

/// The `data:` URL that carries an image in a vision request.
pub fn image_data_url(mime_type: &str, image: &[u8]) -> (url: String)
    requires
        image@.len() <= usize::MAX / 4 * 3,
    ensures
        url@ == spec_data_url(mime_type@, base64_encode_spec(image@)),
{
    let encoded = encode_base64(image);
    data_url(mime_type, encoded.as_str())
}

/// The text of a transcription reply.
pub fn transcription_text(text: Option<String>) -> (r: Result<String, ServiceError>)
    ensures
        match text {
            Some(t) => r matches Ok(s) && s@ == t@,
            None => r matches Err(ServiceError::MissingTranscriptionText),
        },
{
    match text {
        Some(t) => Ok(t),
        None => Err(ServiceError::MissingTranscriptionText),
    }
}

/// The answer of a vision reply, trimmed; a blank or missing answer is an error.
pub fn vision_text(content: Option<&str>) -> (r: Result<String, ServiceError>)
    ensures
        match content {
            Some(c) => if trim(c@).len() > 0 {
                r matches Ok(s) && s@ == trim(c@)
            } else {
                r matches Err(ServiceError::MissingVisionText)
            },
            None => r matches Err(ServiceError::MissingVisionText),
        },
{
    match content {
        Some(c) => {
            let t = trim_text(c);
            if t.as_str().is_empty() {
                Err(ServiceError::MissingVisionText)
            } else {
                Ok(t)
            }
        },
        None => Err(ServiceError::MissingVisionText),
    }
}

/// The multipart form of a transcription request: the audio file's name and type, and the model.
pub struct TranscriptionForm {
    pub file_name: String,
    pub mime_type: String,
    pub model: String,
}

/// The form for transcribing audio whose file extension and type are given; the file is
/// named `audio.{extension}`.
pub fn transcription_form(model: &str, extension: &str, mime_type: &str) -> (f: TranscriptionForm)
    ensures
        f.file_name@ == "audio."@ + extension@,
        f.mime_type@ == mime_type@,
        f.model@ == model@,
{
    TranscriptionForm {
        file_name: concat2("audio.", extension),
        mime_type: String::from_str(mime_type),
        model: String::from_str(model),
    }
}

/// The JSON fields of a speech request.
pub struct SpeechRequest {
    pub model: String,
    pub input: String,
    pub voice: String,
}

pub fn speech_request(model: &str, text: &str, voice: &str) -> (r: SpeechRequest)
    ensures
        r.model@ == model@,
        r.input@ == text@,
        r.voice@ == voice@,
{
    SpeechRequest {
        model: String::from_str(model),
        input: String::from_str(text),
        voice: String::from_str(voice),
    }
}

/// The JSON fields of an embeddings request.
pub struct EmbeddingRequest {
    pub model: String,
    pub input: String,
}

pub fn embedding_request(model: &str, input: &str) -> (r: EmbeddingRequest)
    ensures
        r.model@ == model@,
        r.input@ == input@,
{
    EmbeddingRequest { model: String::from_str(model), input: String::from_str(input) }
}

/// The JSON fields of an image generation request: one image, of the given size if any.
pub struct ImageRequest {
    pub model: String,
    pub prompt: String,
    pub n: u32,
    pub size: Option<String>,
}

pub fn image_request(model: &str, prompt: &str, size: Option<&str>) -> (r: ImageRequest)
    ensures
        r.model@ == model@,
        r.prompt@ == prompt@,
        r.n == 1,
        match size {
            Some(s) => r.size matches Some(t) && t@ == s@,
            None => r.size is None,
        },
{
    let size = match size {
        Some(s) => Some(String::from_str(s)),
        None => None,
    };
    ImageRequest { model: String::from_str(model), prompt: String::from_str(prompt), n: 1, size }
}

/// The fields of a vision chat request: one user message holding the question as text and
/// the image as a `data:` URL.
pub struct VisionRequest {
    pub model: String,
    pub question: String,
    pub image_url: String,
}

pub fn vision_request(model: &str, image: &[u8], mime_type: &str, question: &str) -> (r:
    VisionRequest)
    requires
        image@.len() <= usize::MAX / 4 * 3,
    ensures
        r.model@ == model@,
        r.question@ == question@,
        r.image_url@ == spec_data_url(mime_type@, base64_encode_spec(image@)),
{
    VisionRequest {
        model: String::from_str(model),
        question: String::from_str(question),
        image_url: image_data_url(mime_type, image),
    }
}

} // verus!
