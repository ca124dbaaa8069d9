//! Properties that relate the library's functions across inputs and calls.

use vstd::prelude::*;
use crate::client::{base64_encode_spec, lemma_encode_injective, spec_sniff_image_mime};
use crate::config::{find_provider, ConfigView};
use crate::endpoint::{
    endpoint_suffixes, spec_custom_headers, spec_parse_openai_base_url,
    spec_normalize_openrouter_base_url, spec_resolve_endpoint, spec_strip_endpoint_suffix,
    strip_known_suffix, EndpointView,
};
use crate::error::ErrorView;
use crate::media::{
    ascii_lower_code, final_component, last_index_of, lemma_last_index_bounds, lowercase_equals,
    spec_image_extension, spec_mime_for_extension, spec_path_extension, tool_name, tool_named,
    tool_service, MediaTool,
};
use crate::services::{
    is_wired, kind_name, spec_configured_selection, spec_media_tools, spec_model_key,
    spec_provider_key, tool_if_configured, ServiceKind,
};
use crate::text::{
    contains, drop_back, drop_front, ends_with, in_class, is_white_space, lemma_drop_back_prefix,
    occurs_at, trim, trim_end_slashes, CharClass,
};

verus! {

/// Normalizing an OpenRouter base URL twice gives the same URL as normalizing it once, and
/// the normalized URL always names an `/api` path.
pub proof fn law_openrouter_normalization_is_idempotent(base_url: Seq<char>)
    ensures
        spec_normalize_openrouter_base_url(spec_normalize_openrouter_base_url(base_url))
            == spec_normalize_openrouter_base_url(base_url),
        contains(spec_normalize_openrouter_base_url(base_url), "/api"@),
{
    reveal_strlit("/api");
    reveal_strlit("/api/v1");
    reveal_strlit("/v1");
    let api = "/api"@;
    let r = spec_normalize_openrouter_base_url(base_url);
    if !contains(base_url, api) {
        let t = trim_end_slashes(base_url);
        assert(r.subrange(t.len() as int, (t.len() + 4) as int) =~= api);
        assert(occurs_at(r, api, t.len() as int));
        assert(r.subrange(r.len() - 4, r.len() as int)[0] != api[0]);
        assert(!ends_with(r, api));
    } else if ends_with(base_url, api) {
        let i = choose|i: int| occurs_at(base_url, api, i);
        assert(r.subrange(i, i + 4) =~= base_url.subrange(i, i + 4));
        assert(occurs_at(r, api, i));
        assert(r.subrange(r.len() - 4, r.len() as int)[1] != api[1]);
        assert(!ends_with(r, api));
    }
}

/// The root that `strip_openai_endpoint_suffix` returns never ends with a slash.
pub proof fn law_stripped_root_has_no_trailing_slash(raw: Seq<char>)
    ensures
        spec_strip_endpoint_suffix(raw).len() > 0 ==> spec_strip_endpoint_suffix(raw).last()
            != '/',
{
    lemma_drop_back_prefix(trim(raw), CharClass::Slash);
    lemma_strip_result_is_slash_free(trim_end_slashes(trim(raw)), 0);
}

proof fn lemma_strip_result_is_slash_free(t: Seq<char>, i: int)
    requires
        t.len() > 0 ==> t.last() != '/',
    ensures
        strip_known_suffix(t, i).len() > 0 ==> strip_known_suffix(t, i).last() != '/',
    decreases endpoint_suffixes().len() - i,
{
    if 0 <= i < endpoint_suffixes().len() {
        let suffix = endpoint_suffixes()[i];
        let prefix = t.subrange(0, t.len() - suffix.len());
        if ends_with(t, suffix) && trim_end_slashes(prefix).len() > 0 {
            lemma_drop_back_prefix(prefix, CharClass::Slash);
        } else {
            lemma_strip_result_is_slash_free(t, i + 1);
        }
    }
}

proof fn lemma_suffix_shape(i: int)
    requires
        0 <= i < endpoint_suffixes().len(),
    ensures
        endpoint_suffixes()[i].len() > 0,
        endpoint_suffixes()[i].last() != '/',
        !is_white_space(endpoint_suffixes()[i].last()),
{
    reveal_strlit("/v1/chat/completions");
    reveal_strlit("/chat/completions");
    reveal_strlit("/v1/responses");
    reveal_strlit("/responses");
    reveal_strlit("/v1/audio/transcriptions");
    reveal_strlit("/audio/transcriptions");
    reveal_strlit("/v1/audio/speech");
    reveal_strlit("/audio/speech");
    reveal_strlit("/v1/embeddings");
    reveal_strlit("/embeddings");
    reveal_strlit("/v1/images/generations");
    reveal_strlit("/images/generations");
}

/// A string that starts and ends with something other than white space and whose last
/// character is not a slash is its own trimmed, slash-free form.
proof fn lemma_clean_text(x: Seq<char>)
    requires
        x.len() > 0,
        !is_white_space(x[0]),
        !is_white_space(x.last()),
        x.last() != '/',
    ensures
        trim_end_slashes(trim(x)) == x,
{
    assert(drop_front(x, CharClass::Whitespace) == x);
    assert(drop_back(x, CharClass::Whitespace) == x);
    assert(drop_back(x, CharClass::Slash) == x);
}

proof fn lemma_no_suffix_matches(x: Seq<char>, i: int)
    requires
        0 <= i,
        forall|j: int|
            i <= j < endpoint_suffixes().len() ==> !ends_with(x, #[trigger] endpoint_suffixes()[j]),
    ensures
        strip_known_suffix(x, i) == x,
    decreases endpoint_suffixes().len() - i,
{
    if i < endpoint_suffixes().len() {
        lemma_no_suffix_matches(x, i + 1);
    }
}

proof fn lemma_skip_earlier_suffixes(u: Seq<char>, j: int, i: int)
    requires
        0 <= j <= i < endpoint_suffixes().len(),
        forall|k: int| 0 <= k < i ==> !ends_with(u, #[trigger] endpoint_suffixes()[k]),
    ensures
        strip_known_suffix(u, j) == strip_known_suffix(u, i),
    decreases i - j,
{
    if j < i {
        lemma_skip_earlier_suffixes(u, j + 1, i);
    }
}

/// An API root that names none of the known endpoint paths comes back unchanged, such as
/// `https://api.openai.com/v1`.
pub proof fn law_api_root_is_kept(root: Seq<char>)
    requires
        root.len() > 0,
        !is_white_space(root[0]),
        !is_white_space(root.last()),
        root.last() != '/',
        forall|j: int|
            0 <= j < endpoint_suffixes().len() ==> !ends_with(root, #[trigger] endpoint_suffixes()[j]),
    ensures
        spec_strip_endpoint_suffix(root) == root,
{
    lemma_clean_text(root);
    lemma_no_suffix_matches(root, 0);
}

/// A root followed by a known endpoint path gives back the root, such as
/// `https://api.vcorp.ai/v1/chat/completions` giving `https://api.vcorp.ai`, provided no
/// path earlier in the list also ends the URL.
pub proof fn law_known_suffix_is_removed(root: Seq<char>, i: int)
    requires
        0 <= i < endpoint_suffixes().len(),
        root.len() > 0,
        !is_white_space(root[0]),
        root.last() != '/',
        forall|j: int|
            0 <= j < i ==> !ends_with(root + endpoint_suffixes()[i], #[trigger] endpoint_suffixes()[j]),
    ensures
        spec_strip_endpoint_suffix(root + endpoint_suffixes()[i]) == root,
{
    let suffix = endpoint_suffixes()[i];
    let u = root + suffix;
    lemma_suffix_shape(i);
    assert(u[0] == root[0]);
    assert(u.last() == suffix.last());
    lemma_clean_text(u);
    lemma_skip_earlier_suffixes(u, 0, i);
    assert(u.subrange(u.len() - suffix.len(), u.len() as int) =~= suffix);
    assert(u.subrange(0, u.len() - suffix.len()) =~= root);
    assert(drop_back(root, CharClass::Slash) == root);
}

/// Every endpoint that `resolve_endpoint` gives has a base URL without a trailing slash.
pub proof fn law_resolved_base_url_has_no_trailing_slash(c: ConfigView, name: Seq<char>)
    ensures
        spec_resolve_endpoint(c, name) matches Ok(e) ==> (e.base_url.len() > 0
            ==> e.base_url.last() != '/'),
{
    if let Ok(e) = spec_resolve_endpoint(c, name) {
        match find_provider(c.providers, name) {
            Some(p) => {
                let url = match p.env_vars {
                    Some(vars) => match crate::endpoint::spec_expand_env_vars(p.base_url, vars) {
                        Ok(u) => u,
                        Err(_) => p.base_url,
                    },
                    None => p.base_url,
                };
                law_stripped_root_has_no_trailing_slash(url);
            },
            None => {
                if name == "openai"@ {
                    law_stripped_root_has_no_trailing_slash(crate::endpoint::openai_base_url(c));
                } else if name == "openrouter"@ {
                    law_stripped_root_has_no_trailing_slash(
                        spec_normalize_openrouter_base_url(
                            crate::endpoint::value_or(
                                c.params,
                                "OPENROUTER_HOST"@,
                                "https://openrouter.ai/api/v1"@,
                            ),
                        ),
                    );
                } else if name == "groq"@ {
                    law_stripped_root_has_no_trailing_slash(
                        crate::endpoint::value_or(
                            c.params,
                            "GROQ_HOST"@,
                            "https://api.groq.com/openai"@,
                        ),
                    );
                } else if name == "ollama"@ {
                    law_stripped_root_has_no_trailing_slash(
                        crate::endpoint::value_or(
                            c.params,
                            "OLLAMA_HOST"@,
                            "http://localhost:11434"@,
                        ),
                    );
                } else {
                    law_stripped_root_has_no_trailing_slash(
                        crate::endpoint::value_or(
                            c.params,
                            "GOOGLE_HOST"@,
                            "https://generativelanguage.googleapis.com/v1beta/openai"@,
                        ),
                    );
                }
            },
        }
    }
}

/// A provider is reported as unsupported exactly when no provider file declares it and it
/// is none of the built-in providers.
pub proof fn law_unsupported_provider(c: ConfigView, name: Seq<char>)
    ensures
        (spec_resolve_endpoint(c, name) == Err::<crate::endpoint::EndpointView, ErrorView>(
            ErrorView::UnsupportedProvider(name),
        )) <==> (find_provider(c.providers, name) is None && name != "openai"@ && name
            != "openrouter"@ && name != "groq"@ && name != "ollama"@ && name != "google"@),
{
}

/// A parameter reads back as last written; other parameters are untouched.
pub proof fn law_param_read_after_write(
    c: ConfigView,
    key: Seq<char>,
    value: Seq<char>,
    other: Seq<char>,
)
    ensures
        c.params.insert(key, value).get(key) == Some(value),
        other != key ==> c.params.insert(key, value).get(other) == c.params.get(other),
{
}

proof fn lemma_kind_names_distinct(a: ServiceKind, b: ServiceKind)
    ensures
        a != b ==> kind_name(a) != kind_name(b),
        kind_name(a).len() >= 3,
{
    reveal_strlit("CHAT");
    reveal_strlit("VISION");
    reveal_strlit("STT");
    reveal_strlit("REALTIME");
    reveal_strlit("TTS");
    reveal_strlit("EMBEDDING");
    reveal_strlit("IMAGE");
    reveal_strlit("VIDEO");
    if a != b {
        assert(kind_name(a).len() != kind_name(b).len() || kind_name(a)[0] != kind_name(b)[0]);
    }
}

/// No two service configuration keys coincide: each kind has its own provider key and
/// model key, and no provider key is a model key.
pub proof fn law_service_keys_are_distinct(a: ServiceKind, b: ServiceKind)
    ensures
        a != b ==> spec_provider_key(a) != spec_provider_key(b),
        a != b ==> spec_model_key(a) != spec_model_key(b),
        spec_provider_key(a) != spec_model_key(b),
{
    reveal_strlit("GOOSE_SERVICE_");
    reveal_strlit("_PROVIDER");
    reveal_strlit("_MODEL");
    lemma_kind_names_distinct(a, b);
    lemma_kind_names_distinct(b, a);
    let pa = spec_provider_key(a);
    let pb = spec_provider_key(b);
    let ma = spec_model_key(a);
    let mb = spec_model_key(b);
    if a != b && pa == pb {
        assert(pa.subrange(14, (14 + kind_name(a).len()) as int) =~= kind_name(a));
        assert(pb.subrange(14, (14 + kind_name(b).len()) as int) =~= kind_name(b));
    }
    if a != b && ma == mb {
        assert(ma.subrange(14, (14 + kind_name(a).len()) as int) =~= kind_name(a));
        assert(mb.subrange(14, (14 + kind_name(b).len()) as int) =~= kind_name(b));
    }
    assert(pa.last() == 'R');
    assert(mb.last() == 'L');
}

/// Each media tool's name selects that tool, its service is one the agent can call, and the
/// tool is offered exactly when its service is configured.
pub proof fn law_media_tool_offered_iff_configured(c: ConfigView, tool: MediaTool)
    ensures
        tool_named(tool_name(tool)) == Some(tool),
        is_wired(tool_service(tool)),
        spec_media_tools(c).contains(tool_name(tool)) <==> spec_configured_selection(
            c,
            tool_service(tool),
        ) is Some,
{
    reveal_strlit("describe_image");
    reveal_strlit("text_to_speech");
    reveal_strlit("embed_text");
    reveal_strlit("generate_image");
    let names = seq!["describe_image"@, "text_to_speech"@, "embed_text"@, "generate_image"@];
    assert(forall|i: int, j: int|
        0 <= i < 4 && 0 <= j < 4 && i != j ==> names[i].len() != names[j].len() || names[i][0]
            != names[j][0]);
    let tools = spec_media_tools(c);
    let v = tool_if_configured(c, ServiceKind::Vision, "describe_image"@);
    let t = tool_if_configured(c, ServiceKind::Tts, "text_to_speech"@);
    let e = tool_if_configured(c, ServiceKind::Embedding, "embed_text"@);
    let g = tool_if_configured(c, ServiceKind::Image, "generate_image"@);
    assert(tools == v + t + e + g);
    let n = tool_name(tool);
    if spec_configured_selection(c, tool_service(tool)) is Some {
        let idx = match tool {
            MediaTool::DescribeImage => 0int,
            MediaTool::TextToSpeech => v.len() as int,
            MediaTool::EmbedText => (v.len() + t.len()) as int,
            MediaTool::GenerateImage => (v.len() + t.len() + e.len()) as int,
        };
        assert(tools[idx] == n);
    }
    if tools.contains(n) {
        let i = choose|i: int| 0 <= i < tools.len() && tools[i] == n;
        if i < v.len() {
            assert(tools[i] == v[i]);
        } else if i < v.len() + t.len() {
            assert(tools[i] == t[i - v.len()]);
        } else if i < v.len() + t.len() + e.len() {
            assert(tools[i] == e[i - v.len() - t.len()]);
        } else {
            assert(tools[i] == g[i - v.len() - t.len() - e.len()]);
        }
    }
}

/// A generated image is saved under an extension that types it again as the same kind of
/// image when it is later loaded from that file.
pub proof fn law_saved_image_keeps_its_type(bytes: Seq<u8>)
    ensures
        spec_mime_for_extension(Some(spec_image_extension(spec_sniff_image_mime(bytes))))
            == spec_sniff_image_mime(bytes),
{
    reveal_strlit("image/png");
    reveal_strlit("image/jpeg");
    reveal_strlit("image/gif");
    reveal_strlit("image/webp");
    reveal_strlit("png");
    reveal_strlit("jpg");
    reveal_strlit("jpeg");
    reveal_strlit("gif");
    reveal_strlit("webp");
    let m = spec_sniff_image_mime(bytes);
    let ext = spec_image_extension(m);
    assert(ascii_lower_code('p') == 'p' as u32);
    assert(ascii_lower_code('n') == 'n' as u32);
    assert(ascii_lower_code('g') == 'g' as u32);
    assert(ascii_lower_code('j') == 'j' as u32);
    assert(ascii_lower_code('i') == 'i' as u32);
    assert(ascii_lower_code('f') == 'f' as u32);
    assert(ascii_lower_code('w') == 'w' as u32);
    assert(ascii_lower_code('e') == 'e' as u32);
    assert(ascii_lower_code('b') == 'b' as u32);
    if m == "image/png"@ {
        assert(m[6] != "image/jpeg"@[6]);
        assert(m.len() != "image/webp"@.len());
        assert(m[6] != "image/gif"@[6]);
        assert(ext == "png"@);
        assert(!lowercase_equals(ext, "jpg"@)) by {
            assert(ascii_lower_code(ext[0]) != "jpg"@[0] as u32);
        }
        assert(!lowercase_equals(ext, "gif"@)) by {
            assert(ascii_lower_code(ext[0]) != "gif"@[0] as u32);
        }
    } else if m == "image/jpeg"@ {
        assert(ext == "jpg"@);
        assert(lowercase_equals(ext, "jpg"@));
    } else if m == "image/gif"@ {
        assert(m.len() != "image/jpeg"@.len());
        assert(m.len() != "image/webp"@.len());
        assert(ext == "gif"@);
        assert(!lowercase_equals(ext, "jpg"@)) by {
            assert(ascii_lower_code(ext[0]) != "jpg"@[0] as u32);
        }
        assert(lowercase_equals(ext, "gif"@));
    } else {
        assert(m == "image/webp"@);
        assert(m[6] != "image/jpeg"@[6]);
        assert(ext == "webp"@);
        assert(!lowercase_equals(ext, "jpeg"@)) by {
            assert(ascii_lower_code(ext[0]) != "jpeg"@[0] as u32);
        }
        assert(lowercase_equals(ext, "webp"@));
    }
}

/// The host that requests go to is always the start of the configured URL: splitting a
/// base URL never adds text to it.
pub proof fn law_host_is_a_prefix_of_the_url(url: Seq<char>)
    ensures
        spec_parse_openai_base_url(url) matches Some((host, _, _)) ==> host.len() <= url.len()
            && url.subrange(0, host.len() as int) == host,
{
    if let Some((host, _, _)) = spec_parse_openai_base_url(url) {
        let colon = crate::text::find_char(url, ':', 0);
        let start = colon + 3;
        crate::text::lemma_find_char_bounds(url, ':', 0);
        crate::text::lemma_find_char_bounds(url, '#', start);
        crate::text::lemma_find_char_bounds(url, '?', start);
        crate::text::lemma_find_char_bounds(url, '/', start);
        let hash = crate::text::find_char(url, '#', start);
        let question = crate::text::find_char(url, '?', start);
        let end = crate::endpoint::min(question, hash);
        let path_start = crate::endpoint::min(crate::text::find_char(url, '/', start), end);
        lemma_drop_back_prefix(url.subrange(path_start, end), CharClass::Slash);
        assert(url.subrange(0, host.len() as int) =~= host);
    }
}

/// Different bytes have different base64 texts, so a `b64_json` reply decodes to exactly one
/// image.
pub proof fn law_base64_encoding_is_injective(a: Seq<u8>, b: Seq<u8>)
    ensures
        base64_encode_spec(a) == base64_encode_spec(b) ==> a == b,
{
    if base64_encode_spec(a) == base64_encode_spec(b) {
        lemma_encode_injective(a, b);
    }
}

/// A configured URL that the endpoint logic takes as it is: no white space at either end, no
/// trailing slash, and no known endpoint path at its end.
pub open spec fn is_api_root(u: Seq<char>) -> bool {
    &&& u.len() > 0
    &&& !is_white_space(u[0])
    &&& !is_white_space(u.last())
    &&& u.last() != '/'
    &&& forall|j: int|
        0 <= j < endpoint_suffixes().len() ==> !ends_with(u, #[trigger] endpoint_suffixes()[j])
}

proof fn lemma_builtin_names_distinct()
    ensures
        "openai"@ != "openrouter"@,
        "openai"@ != "groq"@,
        "openai"@ != "ollama"@,
        "openai"@ != "google"@,
        "openrouter"@ != "groq"@,
        "openrouter"@ != "ollama"@,
        "openrouter"@ != "google"@,
        "groq"@ != "ollama"@,
        "groq"@ != "google"@,
        "ollama"@ != "google"@,
{
    reveal_strlit("openai");
    reveal_strlit("openrouter");
    reveal_strlit("groq");
    reveal_strlit("ollama");
    reveal_strlit("google");
    assert("openai"@.len() != "openrouter"@.len() && "openai"@.len() != "groq"@.len());
    assert("openrouter"@.len() != "groq"@.len() && "openrouter"@.len() != "ollama"@.len());
    assert("openrouter"@.len() != "google"@.len() && "groq"@.len() != "ollama"@.len());
    assert("groq"@.len() != "google"@.len());
    assert("openai"@[1] != "ollama"@[1]);
    assert("openai"@[0] != "google"@[0]);
    assert("ollama"@[0] != "google"@[0]);
}

/// A URL whose last character is neither `s` nor `h` ends with none of the known endpoint
/// paths, which all end with one of those letters.
proof fn lemma_no_suffix_by_last_char(u: Seq<char>)
    requires
        u.len() > 0,
        u.last() != 's',
        u.last() != 'h',
    ensures
        forall|j: int|
            0 <= j < endpoint_suffixes().len() ==> !ends_with(u, #[trigger] endpoint_suffixes()[j]),
{
    reveal_strlit("/v1/chat/completions");
    reveal_strlit("/chat/completions");
    reveal_strlit("/v1/responses");
    reveal_strlit("/responses");
    reveal_strlit("/v1/audio/transcriptions");
    reveal_strlit("/audio/transcriptions");
    reveal_strlit("/v1/audio/speech");
    reveal_strlit("/audio/speech");
    reveal_strlit("/v1/embeddings");
    reveal_strlit("/embeddings");
    reveal_strlit("/v1/images/generations");
    reveal_strlit("/images/generations");
    assert forall|j: int| 0 <= j < endpoint_suffixes().len() implies !ends_with(
        u,
        #[trigger] endpoint_suffixes()[j],
    ) by {
        let s = endpoint_suffixes()[j];
        assert(s.last() == 's' || s.last() == 'h');
        if ends_with(u, s) {
            assert(u.subrange(u.len() - s.len(), u.len() as int)[s.len() - 1] == u.last());
        }
    }
}

/// The built-in `ollama` provider sends its requests to the `OLLAMA_HOST` parameter when that
/// names an API root, and to `http://localhost:11434` exactly when the parameter is unset; it
/// uses no API key and no extra headers.
pub proof fn law_ollama_endpoint_follows_host(c: ConfigView) -> (e: EndpointView)
    requires
        find_provider(c.providers, "ollama"@) is None,
    ensures
        spec_resolve_endpoint(c, "ollama"@) == Ok::<EndpointView, ErrorView>(e),
        e.api_key.len() == 0,
        e.headers is None,
        c.params.get("OLLAMA_HOST"@) is None ==> e.base_url == "http://localhost:11434"@,
        c.params.get("OLLAMA_HOST"@) matches Some(u) ==> (is_api_root(u) ==> e.base_url == u),
{
    lemma_builtin_names_distinct();
    reveal_strlit("http://localhost:11434");
    let d = "http://localhost:11434"@;
    lemma_no_suffix_by_last_char(d);
    law_api_root_is_kept(d);
    if let Some(u) = c.params.get("OLLAMA_HOST"@) {
        if is_api_root(u) {
            law_api_root_is_kept(u);
        }
    }
    spec_resolve_endpoint(c, "ollama"@)->Ok_0
}

/// The built-in `groq` provider sends its requests to the `GROQ_HOST` parameter when that
/// names an API root, and to `https://api.groq.com/openai` exactly when the parameter is
/// unset; its key is the `GROQ_API_KEY` secret, empty when there is none.
pub proof fn law_groq_endpoint_follows_host(c: ConfigView) -> (e: EndpointView)
    requires
        find_provider(c.providers, "groq"@) is None,
    ensures
        spec_resolve_endpoint(c, "groq"@) == Ok::<EndpointView, ErrorView>(e),
        e.headers is None,
        c.secrets.get("GROQ_API_KEY"@) matches Some(k) ==> e.api_key == k,
        c.secrets.get("GROQ_API_KEY"@) is None ==> e.api_key.len() == 0,
        c.params.get("GROQ_HOST"@) is None ==> e.base_url == "https://api.groq.com/openai"@,
        c.params.get("GROQ_HOST"@) matches Some(u) ==> (is_api_root(u) ==> e.base_url == u),
{
    lemma_builtin_names_distinct();
    reveal_strlit("https://api.groq.com/openai");
    let d = "https://api.groq.com/openai"@;
    lemma_no_suffix_by_last_char(d);
    law_api_root_is_kept(d);
    if let Some(u) = c.params.get("GROQ_HOST"@) {
        if is_api_root(u) {
            law_api_root_is_kept(u);
        }
    }
    spec_resolve_endpoint(c, "groq"@)->Ok_0
}

/// The built-in `google` provider needs the `GOOGLE_API_KEY` secret only for its public
/// host: with a `GOOGLE_HOST` parameter it always resolves, to that host when it names an
/// API root; without one it resolves, to the public host, exactly when the key is set.
pub proof fn law_google_endpoint_follows_host(c: ConfigView)
    requires
        find_provider(c.providers, "google"@) is None,
    ensures
        c.params.get("GOOGLE_HOST"@) matches Some(u) ==> (spec_resolve_endpoint(c, "google"@) matches Ok(
            e,
        ) && (is_api_root(u) ==> e.base_url == u)),
        c.params.get("GOOGLE_HOST"@) is None ==> match c.secrets.get("GOOGLE_API_KEY"@) {
            Some(k) => spec_resolve_endpoint(c, "google"@) matches Ok(e) && e.api_key == k
                && e.base_url == "https://generativelanguage.googleapis.com/v1beta/openai"@,
            None => spec_resolve_endpoint(c, "google"@) == Err::<EndpointView, ErrorView>(
                ErrorView::MissingGoogleApiKey,
            ),
        },
{
    lemma_builtin_names_distinct();
    reveal_strlit("https://generativelanguage.googleapis.com/v1beta/openai");
    let d = "https://generativelanguage.googleapis.com/v1beta/openai"@;
    lemma_no_suffix_by_last_char(d);
    law_api_root_is_kept(d);
    if let Some(u) = c.params.get("GOOGLE_HOST"@) {
        if is_api_root(u) {
            law_api_root_is_kept(u);
        }
    }
}

/// The custom headers that the `OPENAI_CUSTOM_HEADERS` secret configures, none without it.
pub open spec fn openai_custom_headers(c: ConfigView) -> Map<Seq<char>, Seq<char>> {
    match c.secrets.get("OPENAI_CUSTOM_HEADERS"@) {
        Some(s) => spec_custom_headers(s),
        None => Map::empty(),
    }
}

/// For the built-in `openai` provider, the `OPENAI_ORGANIZATION` and `OPENAI_PROJECT`
/// parameters each become a header, whether or not custom headers are configured; the
/// custom headers are kept under every other name; and the endpoint carries no headers
/// exactly when none of the three is configured.
pub proof fn law_openai_headers(c: ConfigView) -> (e: EndpointView)
    requires
        find_provider(c.providers, "openai"@) is None,
    ensures
        spec_resolve_endpoint(c, "openai"@) == Ok::<EndpointView, ErrorView>(e),
        c.params.get("OPENAI_ORGANIZATION"@) matches Some(org) ==> (e.headers matches Some(h)
            && h.dom().contains("OpenAI-Organization"@) && h["OpenAI-Organization"@] == org),
        c.params.get("OPENAI_PROJECT"@) matches Some(project) ==> (e.headers matches Some(h)
            && h.dom().contains("OpenAI-Project"@) && h["OpenAI-Project"@] == project),
        forall|k: Seq<char>|
            #![trigger openai_custom_headers(c).dom().contains(k)]
            openai_custom_headers(c).dom().contains(k) && k != "OpenAI-Organization"@ && k
                != "OpenAI-Project"@ ==> (e.headers matches Some(h) && h.dom().contains(k)
                && h[k] == openai_custom_headers(c)[k]),
        e.headers matches Some(h) ==> forall|k: Seq<char>|
            #![trigger h.dom().contains(k)]
            h.dom().contains(k) ==> openai_custom_headers(c).dom().contains(k) || k
                == "OpenAI-Organization"@ || k == "OpenAI-Project"@,
        e.headers is None <==> (openai_custom_headers(c).dom().is_empty() && c.params.get(
            "OPENAI_ORGANIZATION"@,
        ) is None && c.params.get("OPENAI_PROJECT"@) is None),
{
    reveal_strlit("OpenAI-Organization");
    reveal_strlit("OpenAI-Project");
    assert("OpenAI-Organization"@.len() != "OpenAI-Project"@.len());
    let e = spec_resolve_endpoint(c, "openai"@)->Ok_0;
    let custom = openai_custom_headers(c);
    let headers = crate::endpoint::openai_headers(c);
    let org_key = "OpenAI-Organization"@;
    let project_key = "OpenAI-Project"@;
    let quiet = custom.dom().is_empty() && c.params.get("OPENAI_ORGANIZATION"@) is None
        && c.params.get("OPENAI_PROJECT"@) is None;
    if quiet {
        assert(headers =~= Map::<Seq<char>, Seq<char>>::empty());
    } else {
        assert(headers != Map::<Seq<char>, Seq<char>>::empty()) by {
            if let Some(project) = c.params.get("OPENAI_PROJECT"@) {
                assert(headers.dom().contains(project_key));
            } else if let Some(org) = c.params.get("OPENAI_ORGANIZATION"@) {
                assert(headers.dom().contains(org_key));
            } else {
                let k = custom.dom().choose();
                assert(custom.dom().contains(k));
                assert(headers.dom().contains(k));
            }
        }
    }
    e
}

/// Normalizing an OpenRouter URL only ever adds text at its end: the URL without its
/// trailing slashes is kept in front. A URL that names no `/api` path gets exactly
/// `/api/v1` after it, and one that already names `/api/v1` further in is kept whole.
pub proof fn law_openrouter_normalization_keeps_the_url(base_url: Seq<char>)
    ensures
        ({
            let r = spec_normalize_openrouter_base_url(base_url);
            let t = trim_end_slashes(base_url);
            &&& t.len() <= base_url.len()
            &&& base_url.subrange(0, t.len() as int) == t
            &&& (forall|k: int| t.len() <= k < base_url.len() ==> base_url[k] == '/')
            &&& (t.len() > 0 ==> t.last() != '/')
            &&& t.len() <= r.len()
            &&& r.subrange(0, t.len() as int) == t
            &&& (!contains(base_url, "/api"@) ==> r.subrange(t.len() as int, r.len() as int)
                == "/api/v1"@ && r.len() == t.len() + 7)
            &&& (contains(base_url, "/api"@) && !ends_with(base_url, "/api"@) ==> r == base_url)
        }),
{
    reveal_strlit("/api");
    reveal_strlit("/api/v1");
    reveal_strlit("/v1");
    let r = spec_normalize_openrouter_base_url(base_url);
    let t = trim_end_slashes(base_url);
    lemma_drop_back_prefix(base_url, CharClass::Slash);
    assert forall|k: int| t.len() <= k < base_url.len() implies base_url[k] == '/' by {
        assert(in_class(CharClass::Slash, base_url[k]));
    }
    if !contains(base_url, "/api"@) {
        assert(r.subrange(0, t.len() as int) =~= t);
        assert(r.subrange(t.len() as int, r.len() as int) =~= "/api/v1"@);
    } else if ends_with(base_url, "/api"@) {
        assert(base_url.subrange(base_url.len() - 4, base_url.len() as int)[3] == base_url.last());
        assert(t == base_url);
        assert(r.subrange(0, t.len() as int) =~= base_url);
    } else {
        assert(r.subrange(0, t.len() as int) =~= base_url.subrange(0, t.len() as int));
    }
}

/// `upper` is an ASCII capital letter and `lower` the same letter in lower case.
pub open spec fn is_ascii_case_pair(upper: char, lower: char) -> bool {
    'A' <= upper <= 'Z' && lower as u32 == upper as u32 + 32
}

/// `a` and `b` spell the same text up to the case of ASCII letters, such as `JPEG`, `Jpeg`
/// and `jpeg`.
pub open spec fn same_ignoring_ascii_case(a: Seq<char>, b: Seq<char>) -> bool {
    &&& a.len() == b.len()
    &&& forall|i: int|
        #![trigger a[i], b[i]]
        0 <= i < a.len() ==> a[i] == b[i] || is_ascii_case_pair(a[i], b[i])
            || is_ascii_case_pair(b[i], a[i])
}

proof fn lemma_recased_lowercase_equals(a: Seq<char>, b: Seq<char>, lower: Seq<char>)
    requires
        same_ignoring_ascii_case(a, b),
    ensures
        lowercase_equals(a, lower) <==> lowercase_equals(b, lower),
{
    assert forall|i: int| 0 <= i < a.len() implies ascii_lower_code(a[i]) == ascii_lower_code(
        b[i],
    ) by {
        assert(a[i] == b[i] || is_ascii_case_pair(a[i], b[i]) || is_ascii_case_pair(b[i], a[i]));
    }
    if lowercase_equals(a, lower) {
        assert forall|i: int| 0 <= i < b.len() implies #[trigger] ascii_lower_code(b[i])
            == lower[i] as u32 by {
            assert(ascii_lower_code(a[i]) == lower[i] as u32);
        }
    }
    if lowercase_equals(b, lower) {
        assert forall|i: int| 0 <= i < a.len() implies #[trigger] ascii_lower_code(a[i])
            == lower[i] as u32 by {
            assert(ascii_lower_code(b[i]) == lower[i] as u32);
        }
    }
}

/// Re-casing the letters of an extension never changes the image type it names.
pub proof fn law_extension_type_ignores_case(a: Seq<char>, b: Seq<char>)
    requires
        same_ignoring_ascii_case(a, b),
    ensures
        spec_mime_for_extension(Some(a)) == spec_mime_for_extension(Some(b)),
{
    lemma_recased_lowercase_equals(a, b, "jpg"@);
    lemma_recased_lowercase_equals(a, b, "jpeg"@);
    lemma_recased_lowercase_equals(a, b, "gif"@);
    lemma_recased_lowercase_equals(a, b, "webp"@);
}

/// Any letter case of `jpg` and `jpeg` names JPEG, of `gif` GIF, and of `webp` WebP.
pub proof fn law_known_extensions_in_any_case(e: Seq<char>)
    ensures
        same_ignoring_ascii_case(e, "jpg"@) ==> spec_mime_for_extension(Some(e)) == "image/jpeg"@,
        same_ignoring_ascii_case(e, "jpeg"@) ==> spec_mime_for_extension(Some(e))
            == "image/jpeg"@,
        same_ignoring_ascii_case(e, "gif"@) ==> spec_mime_for_extension(Some(e)) == "image/gif"@,
        same_ignoring_ascii_case(e, "webp"@) ==> spec_mime_for_extension(Some(e))
            == "image/webp"@,
{
    reveal_strlit("jpg");
    reveal_strlit("jpeg");
    reveal_strlit("gif");
    reveal_strlit("webp");
    let names = seq!["jpg"@, "jpeg"@, "gif"@, "webp"@];
    assert forall|n: int| 0 <= n < 4 implies #[trigger] lowercase_equals(names[n], names[n]) by {
        assert forall|i: int| 0 <= i < names[n].len() implies #[trigger] ascii_lower_code(
            names[n][i],
        ) == names[n][i] as u32 by {
            assert('a' <= names[n][i] <= 'z');
        }
    }
    assert(lowercase_equals(names[0], names[0]));
    assert(lowercase_equals(names[1], names[1]));
    assert(lowercase_equals(names[2], names[2]));
    assert(lowercase_equals(names[3], names[3]));
    if same_ignoring_ascii_case(e, "jpg"@) {
        law_extension_type_ignores_case(e, "jpg"@);
        lemma_recased_lowercase_equals(e, "jpg"@, "jpg"@);
    }
    if same_ignoring_ascii_case(e, "jpeg"@) {
        lemma_recased_lowercase_equals(e, "jpeg"@, "jpeg"@);
    }
    if same_ignoring_ascii_case(e, "gif"@) {
        lemma_recased_lowercase_equals(e, "gif"@, "gif"@);
        lemma_recased_lowercase_equals(e, "gif"@, "jpg"@);
        assert(!lowercase_equals("gif"@, "jpg"@)) by {
            assert(ascii_lower_code("gif"@[0]) != "jpg"@[0] as u32);
        }
    }
    if same_ignoring_ascii_case(e, "webp"@) {
        lemma_recased_lowercase_equals(e, "webp"@, "webp"@);
        lemma_recased_lowercase_equals(e, "webp"@, "jpeg"@);
        assert(!lowercase_equals("webp"@, "jpeg"@)) by {
            assert(ascii_lower_code("webp"@[0]) != "jpeg"@[0] as u32);
        }
    }
}

/// Two paths whose extensions differ only in letter case are typed alike.
pub proof fn law_path_type_ignores_extension_case(p: Seq<char>, q: Seq<char>)
    requires
        spec_path_extension(p) matches Some(a) && spec_path_extension(q) matches Some(b)
            && same_ignoring_ascii_case(a, b),
    ensures
        spec_mime_for_extension(spec_path_extension(p)) == spec_mime_for_extension(
            spec_path_extension(q),
        ),
{
    law_extension_type_ignores_case(spec_path_extension(p)->0, spec_path_extension(q)->0);
}

proof fn lemma_last_index_skips(s: Seq<char>, c: char, i: int, j: int)
    requires
        0 <= i <= j <= s.len(),
        forall|k: int| i <= k < j ==> s[k] != c,
    ensures
        last_index_of(s, c, j) == last_index_of(s, c, i),
    decreases j - i,
{
    if i < j {
        lemma_last_index_skips(s, c, i, j - 1);
    }
}

/// A file name `stem.ext`, whose stem is not empty and whose extension holds no `.`, has
/// the extension `ext`, so that `IMG_0042.JPEG` and `IMG_0042.jpeg` are both JPEG images.
pub proof fn law_extension_of_file_name(stem: Seq<char>, ext: Seq<char>)
    requires
        stem.len() > 0,
        ext.len() > 0,
        forall|k: int| 0 <= k < stem.len() ==> stem[k] != '/',
        forall|k: int| 0 <= k < ext.len() ==> ext[k] != '/' && ext[k] != '.',
    ensures
        spec_path_extension(stem + seq!['.'] + ext) == Some(ext),
        forall|other: Seq<char>|
            #![trigger same_ignoring_ascii_case(ext, other)]
            same_ignoring_ascii_case(ext, other) ==> spec_path_extension(stem + seq!['.'] + other)
                == Some(other) && spec_mime_for_extension(
                spec_path_extension(stem + seq!['.'] + other),
            ) == spec_mime_for_extension(spec_path_extension(stem + seq!['.'] + ext)),
{
    lemma_file_name_extension(stem, ext);
    assert forall|other: Seq<char>| same_ignoring_ascii_case(ext, other) implies spec_path_extension(
        stem + seq!['.'] + other,
    ) == Some(other) && spec_mime_for_extension(spec_path_extension(stem + seq!['.'] + other))
        == spec_mime_for_extension(spec_path_extension(stem + seq!['.'] + ext)) by {
        assert forall|k: int| 0 <= k < other.len() implies other[k] != '/' && other[k] != '.' by {
            assert(ext[k] == other[k] || is_ascii_case_pair(ext[k], other[k])
                || is_ascii_case_pair(other[k], ext[k]));
        }
        lemma_file_name_extension(stem, other);
        law_extension_type_ignores_case(ext, other);
    }
}

proof fn lemma_file_name_extension(stem: Seq<char>, ext: Seq<char>)
    requires
        stem.len() > 0,
        ext.len() > 0,
        forall|k: int| 0 <= k < stem.len() ==> stem[k] != '/',
        forall|k: int| 0 <= k < ext.len() ==> ext[k] != '/' && ext[k] != '.',
    ensures
        spec_path_extension(stem + seq!['.'] + ext) == Some(ext),
{
    let p = stem + seq!['.'] + ext;
    let dot = stem.len() as int;
    assert(p[dot] == '.');
    assert(p.last() == ext.last());
    assert(drop_back(p, CharClass::Slash) == p);
    assert forall|k: int| 0 <= k < p.len() implies p[k] != '/' by {
        if k < dot {
            assert(p[k] == stem[k]);
        } else if k > dot {
            assert(p[k] == ext[k - dot - 1]);
        }
    }
    lemma_last_index_skips(p, '/', 0, p.len() as int);
    assert(p.subrange(0, p.len() as int) =~= p);
    assert(p != seq!['.']);
    assert(final_component(p) == Some(p));
    assert(p != seq!['.', '.']);
    assert forall|k: int| dot + 1 <= k < p.len() implies p[k] != '.' by {
        assert(p[k] == ext[k - dot - 1]);
    }
    lemma_last_index_skips(p, '.', dot + 1, p.len() as int);
    assert(last_index_of(p, '.', dot + 1) == dot);
    assert(p.subrange(dot + 1, p.len() as int) =~= ext);
}

/// A file that starts with the PNG, JPEG, GIF or WebP signature is typed as that kind of
/// image, whatever follows the signature; WebP files of every kind (`VP8 `, `VP8L`, `VP8X`)
/// share the `RIFF....WEBP` header.
pub proof fn law_signatures_are_recognized(b: Seq<u8>)
    ensures
        b.len() >= 8 && b[0] == 0x89 && b[1] == 0x50 && b[2] == 0x4e && b[3] == 0x47 && b[4]
            == 0x0d && b[5] == 0x0a && b[6] == 0x1a && b[7] == 0x0a ==> spec_sniff_image_mime(b)
            == "image/png"@,
        b.len() >= 3 && b[0] == 0xff && b[1] == 0xd8 && b[2] == 0xff ==> spec_sniff_image_mime(b)
            == "image/jpeg"@,
        b.len() >= 4 && b[0] == 0x47 && b[1] == 0x49 && b[2] == 0x46 && b[3] == 0x38
            ==> spec_sniff_image_mime(b) == "image/gif"@,
        b.len() >= 12 && b[0] == 0x52 && b[1] == 0x49 && b[2] == 0x46 && b[3] == 0x46 && b[8]
            == 0x57 && b[9] == 0x45 && b[10] == 0x42 && b[11] == 0x50 ==> spec_sniff_image_mime(b)
            == "image/webp"@,
{
    if b.len() >= 8 {
        assert(b.subrange(0, 8)[0] == b[0]);
    }
    if b.len() >= 3 {
        assert(b.subrange(0, 3)[0] == b[0]);
    }
    if b.len() >= 4 {
        assert(b.subrange(0, 4)[0] == b[0]);
    }
    if b.len() >= 8 && b[0] == 0x89 && b[1] == 0x50 && b[2] == 0x4e && b[3] == 0x47 && b[4]
        == 0x0d && b[5] == 0x0a && b[6] == 0x1a && b[7] == 0x0a {
        assert(b.subrange(0, 8) =~= seq![
            0x89u8,
            0x50u8,
            0x4eu8,
            0x47u8,
            0x0du8,
            0x0au8,
            0x1au8,
            0x0au8,
        ]);
    }
    if b.len() >= 3 && b[0] == 0xff && b[1] == 0xd8 && b[2] == 0xff {
        assert(b.subrange(0, 3) =~= seq![0xffu8, 0xd8u8, 0xffu8]);
    }
    if b.len() >= 4 && b[0] == 0x47 && b[1] == 0x49 && b[2] == 0x46 && b[3] == 0x38 {
        assert(b.subrange(0, 4) =~= seq![0x47u8, 0x49u8, 0x46u8, 0x38u8]);
    }
    if b.len() >= 12 && b[0] == 0x52 && b[1] == 0x49 && b[2] == 0x46 && b[3] == 0x46 && b[8]
        == 0x57 && b[9] == 0x45 && b[10] == 0x42 && b[11] == 0x50 {
        assert(b.subrange(0, 4) =~= seq![0x52u8, 0x49u8, 0x46u8, 0x46u8]);
        assert(b.subrange(8, 12) =~= seq![0x57u8, 0x45u8, 0x42u8, 0x50u8]);
    }
}

/// The type of a file is decided by its first twelve bytes: two files that agree on them
/// are typed alike, whatever comes after.
pub proof fn law_sniffing_reads_twelve_bytes(a: Seq<u8>, b: Seq<u8>)
    requires
        a.len() >= 12,
        b.len() >= 12,
        forall|i: int| 0 <= i < 12 ==> a[i] == b[i],
    ensures
        spec_sniff_image_mime(a) == spec_sniff_image_mime(b),
{
    assert(a.subrange(0, 8) =~= b.subrange(0, 8));
    assert(a.subrange(0, 3) =~= b.subrange(0, 3));
    assert(a.subrange(0, 4) =~= b.subrange(0, 4));
    assert(a.subrange(8, 12) =~= b.subrange(8, 12));
}

} // verus!
