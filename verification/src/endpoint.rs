//! Where the OpenAI-compatible services send their requests.

use vstd::prelude::*;
use crate::config::{find_provider, Config, ConfigView, ProviderEngine};
use crate::error::{ErrorView, ServiceError};
use crate::table::StringMap;
use crate::text::{
    chars_of, concat2, contains, contains_exec, ends_with, ends_with_range, find_char,
    find_char_exec, find_char_in, lemma_find_char_bounds, skip_back, skip_front, substring, trim,
    trim_end_slashes, CharClass, same_text, trim_text,
};
use vstd::string::*;

verus! {

/// The endpoint paths that gateways store as part of a base URL, in the order they are tried.
pub open spec fn endpoint_suffixes() -> Seq<Seq<char>> {
    seq![
        "/v1/chat/completions"@,
        "/chat/completions"@,
        "/v1/responses"@,
        "/responses"@,
        "/v1/audio/transcriptions"@,
        "/audio/transcriptions"@,
        "/v1/audio/speech"@,
        "/audio/speech"@,
        "/v1/embeddings"@,
        "/embeddings"@,
        "/v1/images/generations"@,
        "/images/generations"@,
    ]
}

/// Removes the first known suffix, from position `i` of the list on, that `t` ends with and
/// that leaves a non-empty root once trailing slashes are dropped; `t` itself when none does.
pub open spec fn strip_known_suffix(t: Seq<char>, i: int) -> Seq<char>
    decreases endpoint_suffixes().len() - i,
{
    if i < 0 || i >= endpoint_suffixes().len() {
        t
    } else {
        let suffix = endpoint_suffixes()[i];
        let root = trim_end_slashes(t.subrange(0, t.len() - suffix.len()));
        if ends_with(t, suffix) && root.len() > 0 {
            root
        } else {
            strip_known_suffix(t, i + 1)
        }
    }
}

/// The API root of a configured base URL: white space and trailing slashes removed, then
/// the first known endpoint suffix that leaves a non-empty root.
pub open spec fn spec_strip_endpoint_suffix(raw: Seq<char>) -> Seq<char> {
    strip_known_suffix(trim_end_slashes(trim(raw)), 0)
}

fn endpoint_suffix(i: usize) -> (s: &'static str)
    requires
        i < endpoint_suffixes().len(),
    ensures
        s@ == endpoint_suffixes()[i as int],
{
    match i {
        0 => "/v1/chat/completions",
        1 => "/chat/completions",
        2 => "/v1/responses",
        3 => "/responses",
        4 => "/v1/audio/transcriptions",
        5 => "/audio/transcriptions",
        6 => "/v1/audio/speech",
        7 => "/audio/speech",
        8 => "/v1/embeddings",
        9 => "/embeddings",
        10 => "/v1/images/generations",
        _ => "/images/generations",
    }
}

/// Gateways such as vcorp store the chat completions URL as `base_url`.
/// Service calls need the API root, so a known endpoint suffix is removed first.
pub fn strip_openai_endpoint_suffix(raw: &str) -> (root: String)
    ensures
        root@ == spec_strip_endpoint_suffix(raw@),
{
    let v = chars_of(raw);
    let n = v.len();
    let a = skip_front(&v, 0, n, CharClass::Whitespace);
    let b = skip_back(&v, a, n, CharClass::Whitespace);
    let c = skip_back(&v, a, b, CharClass::Slash);
    let ghost t = v@.subrange(a as int, c as int);
    proof {
        assert(v@.subrange(0, n as int) =~= v@);
        assert(trim(raw@) == v@.subrange(a as int, b as int));
        assert(trim_end_slashes(trim(raw@)) == t);
    }
    let mut i: usize = 0;
    while i < 12
        invariant
            i <= 12,
            a <= c <= v@.len(),
            t == v@.subrange(a as int, c as int),
            endpoint_suffixes().len() == 12,
            strip_known_suffix(t, i as int) == strip_known_suffix(t, 0),
            spec_strip_endpoint_suffix(raw@) == strip_known_suffix(t, 0),
            v@ == raw@,
        decreases 12 - i,
    {
        let suffix = chars_of(endpoint_suffix(i));
        if ends_with_range(&v, a, c, &suffix) {
            let e = c - suffix.len();
            let p = skip_back(&v, a, e, CharClass::Slash);
            proof {
                assert(t.subrange(0, t.len() - suffix@.len()) =~= v@.subrange(a as int, e as int));
            }
            if p > a {
                return substring(raw, a, p);
            }
        }
        i = i + 1;
    }
    substring(raw, a, c)
}

/// The OpenRouter API base: `/api/v1` is added when the URL names no `/api` path, and
/// `/v1` when it ends at `/api`.
pub open spec fn spec_normalize_openrouter_base_url(base_url: Seq<char>) -> Seq<char> {
    if !contains(base_url, "/api"@) {
        trim_end_slashes(base_url) + "/api/v1"@
    } else if ends_with(base_url, "/api"@) {
        base_url + "/v1"@
    } else {
        base_url
    }
}

pub fn normalize_openrouter_base_url(base_url: &str) -> (r: String)
    ensures
        r@ == spec_normalize_openrouter_base_url(base_url@),
{
    let v = chars_of(base_url);
    let n = v.len();
    let api = chars_of("/api");
    proof {
        assert(v@.subrange(0, n as int) =~= v@);
    }
    if !contains_exec(&v, &api) {
        let c = skip_back(&v, 0, n, CharClass::Slash);
        let root = substring(base_url, 0, c);
        concat2(root.as_str(), "/api/v1")
    } else if ends_with_range(&v, 0, n, &api) {
        concat2(base_url, "/v1")
    } else {
        String::from_str(base_url)
    }
}

/// The pairs of a list, each taken as character sequences.
pub open spec fn pair_views(s: Seq<(String, String)>) -> Seq<(Seq<char>, Seq<char>)> {
    s.map_values(|p: (String, String)| (p.0@, p.1@))
}

/// One `name=value` piece of a query; a piece without `=` has an empty value.
pub open spec fn query_pair(piece: Seq<char>) -> (Seq<char>, Seq<char>) {
    let e = find_char(piece, '=', 0);
    (
        piece.subrange(0, e),
        if e < piece.len() {
            piece.subrange(e + 1, piece.len() as int)
        } else {
            Seq::empty()
        },
    )
}

/// The `&`-separated pieces of a query string, empty pieces skipped.
pub open spec fn query_pairs(query: Seq<char>) -> Seq<(Seq<char>, Seq<char>)>
    decreases query.len(),
{
    if query.len() == 0 {
        Seq::empty()
    } else {
        let k = find_char(query, '&', 0);
        proof {
            lemma_find_char_bounds(query, '&', 0);
        }
        let rest = if k < query.len() {
            query_pairs(query.subrange(k + 1, query.len() as int))
        } else {
            Seq::empty()
        };
        if k == 0 {
            rest
        } else {
            seq![query_pair(query.subrange(0, k))] + rest
        }
    }
}

/// Whether a path holds a version segment such as `/v1` or `/v1beta`.
pub open spec fn has_version_segment(path: Seq<char>) -> bool {
    exists|i: int|
        0 <= i && i + 2 < path.len() && path[i] == '/' && path[i + 1] == 'v' && '0' <= #[trigger] path[i
            + 2] <= '9'
}

pub open spec fn min(a: int, b: int) -> int {
    if a <= b {
        a
    } else {
        b
    }
}

/// How a base URL splits into the host that requests go to, its query parameters, and
/// whether service paths need the `v1/` version prefix.
///
/// The URL must read `scheme://authority...` with a non-empty scheme and authority. The path
/// after the authority, without trailing slashes, stays in the host; a final `/v1` moves from
/// the host into the service path instead. A path that already names a version (such as
/// `/v1beta/openai`) takes the unversioned service path, any other path the versioned one.
pub open spec fn spec_parse_openai_base_url(url: Seq<char>) -> Option<
    (Seq<char>, Seq<(Seq<char>, Seq<char>)>, bool),
> {
    let colon = find_char(url, ':', 0);
    let start = colon + 3;
    if colon == 0 || start > url.len() || url[colon + 1] != '/' || url[colon + 2] != '/' {
        None
    } else {
        let hash = find_char(url, '#', start);
        let question = find_char(url, '?', start);
        let end = min(question, hash);
        let path_start = min(find_char(url, '/', start), end);
        if path_start == start {
            None
        } else {
            let path = trim_end_slashes(url.subrange(path_start, end));
            let params = if question < hash {
                query_pairs(url.subrange(question + 1, hash))
            } else {
                Seq::empty()
            };
            if path.len() == 0 {
                Some((url.subrange(0, path_start), params, true))
            } else if ends_with(path, "/v1"@) {
                Some((url.subrange(0, path_start + path.len() - 3), params, true))
            } else {
                Some(
                    (
                        url.subrange(0, path_start + path.len()),
                        params,
                        !has_version_segment(path),
                    ),
                )
            }
        }
    }
}

/// The query parameters held in `url[lo..hi]`.
fn parse_query(url: &str, v: &Vec<char>, lo: usize, hi: usize) -> (r: Vec<(String, String)>)
    requires
        v@ == url@,
        lo <= hi <= v@.len(),
    ensures
        pair_views(r@) == query_pairs(v@.subrange(lo as int, hi as int)),
{
    let mut r: Vec<(String, String)> = Vec::new();
    let mut pos = lo;
    let mut done = lo == hi;
    proof {
        assert(pair_views(r@) =~= Seq::empty());
    }
    while !done
        invariant
            v@ == url@,
            lo <= pos <= hi <= v@.len(),
            done ==> pair_views(r@) == query_pairs(v@.subrange(lo as int, hi as int)),
            !done ==> pair_views(r@) + query_pairs(v@.subrange(pos as int, hi as int))
                == query_pairs(v@.subrange(lo as int, hi as int)),
            !done ==> pos < hi,
        decreases hi - pos,
    {
        let ghost s = v@.subrange(pos as int, hi as int);
        let ghost before = pair_views(r@);
        let k = find_char_in(v, '&', pos, hi);
        let ghost rest = if k < hi {
            query_pairs(v@.subrange(k + 1, hi as int))
        } else {
            Seq::empty()
        };
        proof {
            if k < hi {
                assert(s.subrange(k - pos + 1, s.len() as int) =~= v@.subrange(k + 1, hi as int));
            }
            assert(s.subrange(0, k - pos) =~= v@.subrange(pos as int, k as int));
        }
        if k > pos {
            let e = find_char_in(v, '=', pos, k);
            let name = substring(url, pos, e);
            let value = if e < k {
                substring(url, e + 1, k)
            } else {
                String::new()
            };
            proof {
                let piece = v@.subrange(pos as int, k as int);
                assert(piece.subrange(0, e - pos) =~= v@.subrange(pos as int, e as int));
                if e < k {
                    assert(piece.subrange(e - pos + 1, piece.len() as int) =~= v@.subrange(
                        e + 1,
                        k as int,
                    ));
                }
                assert(value@ == query_pair(piece).1);
            }
            r.push((name, value));
            proof {
                assert(pair_views(r@) =~= before.push(query_pair(v@.subrange(pos as int, k as int))));
            }
        }
        proof {
            if k > pos {
                assert(before + query_pairs(s) =~= pair_views(r@) + rest);
            } else {
                assert(pair_views(r@) =~= before);
            }
        }
        if k < hi {
            pos = k + 1;
            if pos == hi {
                done = true;
                proof {
                    assert(rest =~= Seq::empty());
                    assert(pair_views(r@) + rest =~= pair_views(r@));
                }
            }
        } else {
            pos = hi;
            done = true;
            proof {
                assert(pair_views(r@) + rest =~= pair_views(r@));
            }
        }
    }
    r
}

/// Whether `v[lo..hi]` holds a version segment.
fn has_version_segment_exec(v: &Vec<char>, lo: usize, hi: usize) -> (b: bool)
    requires
        lo <= hi <= v@.len(),
    ensures
        b == has_version_segment(v@.subrange(lo as int, hi as int)),
{
    let ghost p = v@.subrange(lo as int, hi as int);
    let mut i = lo;
    while hi - i > 2
        invariant
            lo <= i <= hi <= v@.len(),
            p == v@.subrange(lo as int, hi as int),
            forall|j: int|
                0 <= j < i - lo ==> !(j + 2 < p.len() && p[j] == '/' && p[j + 1] == 'v' && '0'
                    <= #[trigger] p[j + 2] <= '9'),
        decreases hi - i,
    {
        if v[i] == '/' && v[i + 1] == 'v' && '0' <= v[i + 2] && v[i + 2] <= '9' {
            assert(p[i - lo] == '/' && p[i - lo + 1] == 'v' && '0' <= p[i - lo + 2] <= '9');
            return true;
        }
        i = i + 1;
    }
    false
}

/// Splits a base URL into host, query parameters and whether service paths take `v1/`.
pub fn parse_openai_base_url(url: &str) -> (r: Result<(String, Vec<(String, String)>, bool), ServiceError>)
    ensures
        match spec_parse_openai_base_url(url@) {
            Some((host, params, versioned)) => r matches Ok((h, q, b)) && h@ == host && pair_views(q@)
                == params && b == versioned,
            None => r matches Err(e) && e@ == crate::error::ErrorView::InvalidBaseUrl(url@),
        },
{
    let v = chars_of(url);
    let n = v.len();
    let colon = find_char_exec(&v, ':', 0);
    if colon == 0 || colon >= n || n - colon < 3 || v[colon + 1] != '/' || v[colon + 2] != '/' {
        return Err(ServiceError::InvalidBaseUrl(String::from_str(url)));
    }
    let start = colon + 3;
    let hash = find_char_exec(&v, '#', start);
    let question = find_char_exec(&v, '?', start);
    let end = if question <= hash {
        question
    } else {
        hash
    };
    let slash = find_char_exec(&v, '/', start);
    let path_start = if slash <= end {
        slash
    } else {
        end
    };
    if path_start == start {
        return Err(ServiceError::InvalidBaseUrl(String::from_str(url)));
    }
    let path_end = skip_back(&v, path_start, end, CharClass::Slash);
    let ghost path = v@.subrange(path_start as int, path_end as int);
    let params = if question < hash {
        parse_query(url, &v, question + 1, hash)
    } else {
        let empty: Vec<(String, String)> = Vec::new();
        assert(pair_views(empty@) =~= Seq::empty());
        empty
    };
    if path_end == path_start {
        Ok((substring(url, 0, path_start), params, true))
    } else {
        let v1 = chars_of("/v1");
        if ends_with_range(&v, path_start, path_end, &v1) {
            Ok((substring(url, 0, path_end - 3), params, true))
        } else {
            let versioned = !has_version_segment_exec(&v, path_start, path_end);
            Ok((substring(url, 0, path_end), params, versioned))
        }
    }
}

/// The host, query parameters and request path for one service call: the base URL is
/// stripped of endpoint paths, split, and the versioned or unversioned path is chosen.
pub fn request_target(base_url: &str, versioned: &str, versionless: &str) -> (r: Result<
    (String, Vec<(String, String)>, String),
    ServiceError,
>)
    ensures
        match spec_parse_openai_base_url(spec_strip_endpoint_suffix(base_url@)) {
            Some((host, params, with_version)) => r matches Ok((h, q, p)) && h@ == host
                && pair_views(q@) == params && p@ == (if with_version {
                versioned@
            } else {
                versionless@
            }),
            None => r matches Err(e) && e@ == crate::error::ErrorView::InvalidBaseUrl(
                spec_strip_endpoint_suffix(base_url@),
            ),
        },
{
    let stripped = strip_openai_endpoint_suffix(base_url);
    match parse_openai_base_url(stripped.as_str()) {
        Ok((host, query_params, has_v1)) => {
            let path = if has_v1 {
                versioned
            } else {
                versionless
            };
            Ok((host, query_params, String::from_str(path)))
        },
        Err(e) => Err(e),
    }
}

/// One `name=value` piece of a custom-header list, both sides trimmed; a piece without `=`
/// names no header.
pub open spec fn header_entry(piece: Seq<char>) -> Option<(Seq<char>, Seq<char>)> {
    let e = find_char(piece, '=', 0);
    if e < piece.len() {
        Some((trim(piece.subrange(0, e)), trim(piece.subrange(e + 1, piece.len() as int))))
    } else {
        None
    }
}

/// The headers named by the `,`-separated pieces of a custom-header list, in order.
pub open spec fn header_entries(s: Seq<char>) -> Seq<(Seq<char>, Seq<char>)>
    decreases s.len(),
{
    if s.len() == 0 {
        Seq::empty()
    } else {
        let k = find_char(s, ',', 0);
        proof {
            lemma_find_char_bounds(s, ',', 0);
        }
        let rest = if k < s.len() {
            header_entries(s.subrange(k + 1, s.len() as int))
        } else {
            Seq::empty()
        };
        match header_entry(s.subrange(0, k)) {
            Some(entry) => seq![entry] + rest,
            None => rest,
        }
    }
}

/// The map that a list of entries builds when each is inserted in turn; a later entry
/// replaces an earlier one with the same name.
pub open spec fn map_of_entries(l: Seq<(Seq<char>, Seq<char>)>) -> Map<Seq<char>, Seq<char>>
    decreases l.len(),
{
    if l.len() == 0 {
        Map::empty()
    } else {
        map_of_entries(l.drop_last()).insert(l.last().0, l.last().1)
    }
}

/// The headers of an `OPENAI_CUSTOM_HEADERS` value such as `X-One=1,X-Two=2`.
pub open spec fn spec_custom_headers(s: Seq<char>) -> Map<Seq<char>, Seq<char>> {
    map_of_entries(header_entries(s))
}

/// The trimmed text of `v[lo..hi]`.
fn trimmed_range(text: &str, v: &Vec<char>, lo: usize, hi: usize) -> (r: String)
    requires
        v@ == text@,
        lo <= hi <= v@.len(),
    ensures
        r@ == trim(v@.subrange(lo as int, hi as int)),
{
    let a = skip_front(v, lo, hi, CharClass::Whitespace);
    let b = skip_back(v, a, hi, CharClass::Whitespace);
    substring(text, a, b)
}

/// Parses a custom-header list: `,`-separated `name=value` pieces, both sides trimmed,
/// pieces without `=` skipped, a later piece replacing an earlier one of the same name.
pub fn parse_custom_headers(s: &str) -> (headers: StringMap)
    ensures
        headers@ == spec_custom_headers(s@),
{
    let v = chars_of(s);
    let n = v.len();
    let mut headers = StringMap::new();
    let ghost mut seen: Seq<(Seq<char>, Seq<char>)> = Seq::empty();
    let mut pos: usize = 0;
    let mut done = n == 0;
    proof {
        assert(v@.subrange(0, n as int) =~= v@);
    }
    while !done
        invariant
            v@ == s@,
            n == v@.len(),
            pos <= n,
            headers@ == map_of_entries(seen),
            done ==> seen == header_entries(s@),
            !done ==> seen + header_entries(v@.subrange(pos as int, n as int)) == header_entries(
                s@,
            ),
            !done ==> pos < n,
        decreases n - pos,
    {
        let ghost rem = v@.subrange(pos as int, n as int);
        let ghost before = seen;
        let k = find_char_in(&v, ',', pos, n);
        let ghost rest = if k < n {
            header_entries(v@.subrange(k + 1, n as int))
        } else {
            Seq::empty()
        };
        let ghost piece = v@.subrange(pos as int, k as int);
        proof {
            if k < n {
                assert(rem.subrange(k - pos + 1, rem.len() as int) =~= v@.subrange(
                    k + 1,
                    n as int,
                ));
            }
            assert(rem.subrange(0, k - pos) =~= piece);
        }
        let e = find_char_in(&v, '=', pos, k);
        if e < k {
            let name = trimmed_range(s, &v, pos, e);
            let value = trimmed_range(s, &v, e + 1, k);
            proof {
                assert(piece.subrange(0, e - pos) =~= v@.subrange(pos as int, e as int));
                assert(piece.subrange(e - pos + 1, piece.len() as int) =~= v@.subrange(
                    e + 1,
                    k as int,
                ));
                seen = seen.push((name@, value@));
                assert(seen.drop_last() =~= before);
                assert(before + header_entries(rem) =~= seen + rest);
            }
            headers.insert(name, value);
        } else {
            proof {
                assert(before + header_entries(rem) =~= seen + rest);
            }
        }
        if k < n {
            pos = k + 1;
            if pos == n {
                done = true;
                proof {
                    assert(seen + rest =~= seen);
                }
            }
        } else {
            pos = n;
            done = true;
            proof {
                assert(seen + rest =~= seen);
            }
        }
    }
    headers
}

/// Where requests to an OpenAI-compatible provider go.
#[derive(Debug)]
pub struct OpenAiCompatEndpoint {
    pub api_key: String,
    pub base_url: String,
    pub headers: Option<StringMap>,
}

pub struct EndpointView {
    pub api_key: Seq<char>,
    pub base_url: Seq<char>,
    pub headers: Option<Map<Seq<char>, Seq<char>>>,
}

impl View for OpenAiCompatEndpoint {
    type V = EndpointView;

    open spec fn view(&self) -> EndpointView {
        EndpointView {
            api_key: self.api_key@,
            base_url: self.base_url@,
            headers: match self.headers {
                Some(h) => Some(h@),
                None => None,
            },
        }
    }
}

/// The value under `key`, or `default` when there is none.
pub open spec fn value_or(m: Map<Seq<char>, Seq<char>>, key: Seq<char>, default: Seq<char>) -> Seq<
    char,
> {
    match m.get(key) {
        Some(v) => v,
        None => default,
    }
}

/// The base URL of the built-in `openai` provider: the `OPENAI_HOST` environment variable,
/// else the trimmed `OPENAI_BASE_URL` parameter (the public API when it is blank), else the
/// `OPENAI_HOST` parameter, else the public API.
pub open spec fn openai_base_url(c: ConfigView) -> Seq<char> {
    match c.environment.get("OPENAI_HOST"@) {
        Some(host) => host,
        None => match c.params.get("OPENAI_BASE_URL"@) {
            Some(url) => if trim(url).len() == 0 {
                "https://api.openai.com"@
            } else {
                trim(url)
            },
            None => value_or(c.params, "OPENAI_HOST"@, "https://api.openai.com"@),
        },
    }
}

/// The headers of the built-in `openai` provider: the custom-header secret, then the
/// organization and project parameters.
pub open spec fn openai_headers(c: ConfigView) -> Map<Seq<char>, Seq<char>> {
    let custom = match c.secrets.get("OPENAI_CUSTOM_HEADERS"@) {
        Some(s) => spec_custom_headers(s),
        None => Map::empty(),
    };
    let with_org = match c.params.get("OPENAI_ORGANIZATION"@) {
        Some(org) => custom.insert("OpenAI-Organization"@, org),
        None => custom,
    };
    match c.params.get("OPENAI_PROJECT"@) {
        Some(project) => with_org.insert("OpenAI-Project"@, project),
        None => with_org,
    }
}

/// An endpoint without extra headers.
pub open spec fn plain_endpoint(api_key: Seq<char>, base_url: Seq<char>) -> EndpointView {
    EndpointView { api_key, base_url: spec_strip_endpoint_suffix(base_url), headers: None }
}

/// The endpoint of a provider that no provider file declares.
pub open spec fn builtin_endpoint(c: ConfigView, name: Seq<char>) -> Result<EndpointView, ErrorView> {
    if name == "openai"@ {
        let headers = openai_headers(c);
        Ok(
            EndpointView {
                api_key: value_or(c.secrets, "OPENAI_API_KEY"@, Seq::empty()),
                base_url: spec_strip_endpoint_suffix(openai_base_url(c)),
                headers: if headers == Map::<Seq<char>, Seq<char>>::empty() {
                    None
                } else {
                    Some(headers)
                },
            },
        )
    } else if name == "openrouter"@ {
        Ok(
            plain_endpoint(
                value_or(c.secrets, "OPENROUTER_API_KEY"@, Seq::empty()),
                spec_normalize_openrouter_base_url(
                    value_or(c.params, "OPENROUTER_HOST"@, "https://openrouter.ai/api/v1"@),
                ),
            ),
        )
    } else if name == "groq"@ {
        Ok(
            plain_endpoint(
                value_or(c.secrets, "GROQ_API_KEY"@, Seq::empty()),
                value_or(c.params, "GROQ_HOST"@, "https://api.groq.com/openai"@),
            ),
        )
    } else if name == "ollama"@ {
        Ok(
            plain_endpoint(
                Seq::empty(),
                value_or(c.params, "OLLAMA_HOST"@, "http://localhost:11434"@),
            ),
        )
    } else if name == "google"@ {
        let base_url = value_or(
            c.params,
            "GOOGLE_HOST"@,
            "https://generativelanguage.googleapis.com/v1beta/openai"@,
        );
        if c.params.dom().contains("GOOGLE_HOST"@) {
            Ok(plain_endpoint(value_or(c.secrets, "GOOGLE_API_KEY"@, Seq::empty()), base_url))
        } else {
            match c.secrets.get("GOOGLE_API_KEY"@) {
                Some(key) => Ok(plain_endpoint(key, base_url)),
                None => Err(ErrorView::MissingGoogleApiKey),
            }
        }
    } else {
        Err(ErrorView::UnsupportedProvider(name))
    }
}

/// `t` from position `i` on, with each `${NAME}` replaced by the value of `NAME`; a `${`
/// without a closing `}` is kept as it is. The error names a variable without a value.
pub open spec fn expand_from(t: Seq<char>, i: int, vars: Map<Seq<char>, Seq<char>>) -> Result<
    Seq<char>,
    Seq<char>,
>
    decreases t.len() - i,
{
    if i < 0 || i >= t.len() {
        Ok(Seq::empty())
    } else if i + 1 < t.len() && t[i] == '$' && t[i + 1] == '{' {
        let close = find_char(t, '}', i + 2);
        proof {
            lemma_find_char_bounds(t, '}', i + 2);
        }
        if close >= t.len() {
            Ok(t.subrange(i, t.len() as int))
        } else {
            let name = t.subrange(i + 2, close);
            if vars.dom().contains(name) {
                match expand_from(t, close + 1, vars) {
                    Ok(rest) => Ok(vars[name] + rest),
                    Err(missing) => Err(missing),
                }
            } else {
                Err(name)
            }
        }
    } else {
        match expand_from(t, i + 1, vars) {
            Ok(rest) => Ok(seq![t[i]] + rest),
            Err(missing) => Err(missing),
        }
    }
}

/// A base URL with each `${NAME}` replaced by the value of `NAME`.
pub open spec fn spec_expand_env_vars(template: Seq<char>, vars: Map<Seq<char>, Seq<char>>) -> Result<
    Seq<char>,
    Seq<char>,
> {
    expand_from(template, 0, vars)
}

/// Replaces each `${NAME}` in `template` with the value of `NAME` in `vars`. A variable
/// without a value is reported by name; a `${` without a closing `}` is kept as it is.
pub fn expand_env_vars(template: &str, vars: &StringMap) -> (r: Result<String, String>)
    ensures
        match spec_expand_env_vars(template@, vars@) {
            Ok(url) => r matches Ok(u) && u@ == url,
            Err(name) => r matches Err(n) && n@ == name,
        },
{
    let v = chars_of(template);
    let n = v.len();
    let mut out = String::new();
    let mut i: usize = 0;
    while i < n
        invariant
            v@ == template@,
            n == v@.len(),
            i <= n,
            spec_expand_env_vars(template@, vars@) == match expand_from(v@, i as int, vars@) {
                Ok(rest) => Ok(out@ + rest),
                Err(missing) => Err::<Seq<char>, Seq<char>>(missing),
            },
        decreases n - i,
    {
        let ghost before = out@;
        if i + 1 < n && v[i] == '$' && v[i + 1] == '{' {
            let close = find_char_exec(&v, '}', i + 2);
            if close >= n {
                let tail = substring(template, i, n);
                out.append(tail.as_str());
                proof {
                    assert(expand_from(v@, n as int, vars@) == Ok::<Seq<char>, Seq<char>>(Seq::empty()));
                    assert(out@ + Seq::<char>::empty() =~= out@);
                }
                i = n;
            } else {
                let name = substring(template, i + 2, close);
                match vars.get(name.as_str()) {
                    Some(value) => {
                        out.append(value.as_str());
                        proof {
                            match expand_from(v@, close + 1, vars@) {
                                Ok(rest) => {
                                    assert(before + (value@ + rest) =~= out@ + rest);
                                },
                                Err(_) => {},
                            }
                        }
                        i = close + 1;
                    },
                    None => {
                        return Err(name);
                    },
                }
            }
        } else {
            let c = substring(template, i, i + 1);
            out.append(c.as_str());
            proof {
                assert(c@ =~= seq![v@[i as int]]);
                match expand_from(v@, i + 1, vars@) {
                    Ok(rest) => {
                        assert(before + (seq![v@[i as int]] + rest) =~= out@ + rest);
                    },
                    Err(_) => {},
                }
            }
            i = i + 1;
        }
    }
    proof {
        assert(out@ + Seq::<char>::empty() =~= out@);
    }
    Ok(out)
}

/// The endpoint that the services use for a provider. A provider file that declares the
/// name takes precedence over the built-in providers.
pub open spec fn spec_resolve_endpoint(c: ConfigView, name: Seq<char>) -> Result<
    EndpointView,
    ErrorView,
> {
    match find_provider(c.providers, name) {
        Some(p) => if p.engine == ProviderEngine::Anthropic {
            Err(ErrorView::AnthropicEngine(name))
        } else {
            let base_url = match p.env_vars {
                Some(vars) => spec_expand_env_vars(p.base_url, vars),
                None => Ok(p.base_url),
            };
            match base_url {
                Err(missing) => Err(ErrorView::UnresolvedVariable(missing, name)),
                Ok(url) => if p.api_key_env.len() > 0 && p.requires_auth
                    && !c.secrets.dom().contains(p.api_key_env) {
                    Err(ErrorView::MissingApiKey(p.api_key_env, name))
                } else {
                    Ok(
                        EndpointView {
                            api_key: if p.api_key_env.len() == 0 {
                                Seq::empty()
                            } else {
                                value_or(c.secrets, p.api_key_env, Seq::empty())
                            },
                            base_url: spec_strip_endpoint_suffix(url),
                            headers: p.headers,
                        },
                    )
                },
            }
        },
        None => builtin_endpoint(c, name),
    }
}

fn secret_or_empty(config: &Config, key: &str) -> (r: String)
    ensures
        r@ == value_or(config@.secrets, key@, Seq::empty()),
{
    match config.get_secret(key) {
        Some(v) => v,
        None => String::new(),
    }
}

fn param_or(config: &Config, key: &str, default: &str) -> (r: String)
    ensures
        r@ == value_or(config@.params, key@, default@),
{
    match config.get_param(key) {
        Some(v) => v,
        None => String::from_str(default),
    }
}

fn plain(api_key: String, base_url: &str) -> (e: OpenAiCompatEndpoint)
    ensures
        e@ == plain_endpoint(api_key@, base_url@),
{
    OpenAiCompatEndpoint {
        api_key,
        base_url: strip_openai_endpoint_suffix(base_url),
        headers: None,
    }
}

fn openai_endpoint(config: &Config) -> (e: OpenAiCompatEndpoint)
    ensures
        Ok::<EndpointView, ErrorView>(e@) == builtin_endpoint(config@, "openai"@),
{
    let api_key = secret_or_empty(config, "OPENAI_API_KEY");
    let base_url = match config.env_var("OPENAI_HOST") {
        Some(host) => host,
        None => match config.get_param("OPENAI_BASE_URL") {
            Some(url) => {
                let trimmed = trim_text(url.as_str());
                if trimmed.as_str().is_empty() {
                    String::from_str("https://api.openai.com")
                } else {
                    trimmed
                }
            },
            None => param_or(config, "OPENAI_HOST", "https://api.openai.com"),
        },
    };
    let mut headers = match config.get_secret("OPENAI_CUSTOM_HEADERS") {
        Some(custom) => parse_custom_headers(custom.as_str()),
        None => StringMap::new(),
    };
    if let Some(org) = config.get_param("OPENAI_ORGANIZATION") {
        headers.insert(String::from_str("OpenAI-Organization"), org);
    }
    if let Some(project) = config.get_param("OPENAI_PROJECT") {
        headers.insert(String::from_str("OpenAI-Project"), project);
    }
    let headers = if headers.is_empty() {
        None
    } else {
        Some(headers)
    };
    OpenAiCompatEndpoint {
        api_key,
        base_url: strip_openai_endpoint_suffix(base_url.as_str()),
        headers,
    }
}

/// The endpoint that the services use for a provider: a provider file's declaration first,
/// then the built-in `openai`, `openrouter`, `groq`, `ollama` and `google` providers.
pub fn resolve_endpoint(config: &Config, provider_name: &str) -> (r: Result<
    OpenAiCompatEndpoint,
    ServiceError,
>)
    ensures
        match spec_resolve_endpoint(config@, provider_name@) {
            Ok(e) => r matches Ok(endpoint) && endpoint@ == e,
            Err(e) => r matches Err(error) && error@ == e,
        },
{
    if let Some(declared) = config.declared_provider(provider_name) {
        if declared.engine == ProviderEngine::Anthropic {
            return Err(ServiceError::AnthropicEngine(String::from_str(provider_name)));
        }
        let base_url = match &declared.env_vars {
            Some(vars) => match expand_env_vars(declared.base_url.as_str(), vars) {
                Ok(url) => url,
                Err(name) => {
                    return Err(
                        ServiceError::UnresolvedVariable {
                            name,
                            provider: String::from_str(provider_name),
                        },
                    );
                },
            },
            None => declared.base_url.clone(),
        };
        let api_key = if declared.api_key_env.as_str().is_empty() {
            String::new()
        } else if declared.requires_auth {
            match config.get_secret(declared.api_key_env.as_str()) {
                Some(key) => key,
                None => {
                    return Err(
                        ServiceError::MissingApiKey {
                            key: declared.api_key_env.clone(),
                            provider: String::from_str(provider_name),
                        },
                    );
                },
            }
        } else {
            secret_or_empty(config, declared.api_key_env.as_str())
        };
        let headers = match &declared.headers {
            Some(h) => Some(h.duplicate()),
            None => None,
        };
        return Ok(
            OpenAiCompatEndpoint {
                api_key,
                base_url: strip_openai_endpoint_suffix(base_url.as_str()),
                headers,
            },
        );
    }
    if same_text(provider_name, "openai") {
        Ok(openai_endpoint(config))
    } else if same_text(provider_name, "openrouter") {
        let api_key = secret_or_empty(config, "OPENROUTER_API_KEY");
        let host = param_or(config, "OPENROUTER_HOST", "https://openrouter.ai/api/v1");
        let base_url = normalize_openrouter_base_url(host.as_str());
        Ok(plain(api_key, base_url.as_str()))
    } else if same_text(provider_name, "groq") {
        let api_key = secret_or_empty(config, "GROQ_API_KEY");
        let base_url = param_or(config, "GROQ_HOST", "https://api.groq.com/openai");
        Ok(plain(api_key, base_url.as_str()))
    } else if same_text(provider_name, "ollama") {
        let base_url = param_or(config, "OLLAMA_HOST", "http://localhost:11434");
        Ok(plain(String::new(), base_url.as_str()))
    } else if same_text(provider_name, "google") {
        let has_custom_host = config.get_param("GOOGLE_HOST").is_some();
        let api_key = if has_custom_host {
            secret_or_empty(config, "GOOGLE_API_KEY")
        } else {
            match config.get_secret("GOOGLE_API_KEY") {
                Some(key) => key,
                None => {
                    return Err(ServiceError::MissingGoogleApiKey);
                },
            }
        };
        let base_url = param_or(
            config,
            "GOOGLE_HOST",
            "https://generativelanguage.googleapis.com/v1beta/openai",
        );
        Ok(plain(api_key, base_url.as_str()))
    } else {
        Err(ServiceError::UnsupportedProvider(String::from_str(provider_name)))
    }
}

} // verus!
