//! The rules of the media tools: which tool a name selects, how images are typed and
//! limited, and how tool results are stored.

use vstd::prelude::*;
use vstd::string::*;
use crate::error::ServiceError;
use crate::services::ServiceKind;
use crate::text::{
    chars_of, drop_back, lemma_drop_back_prefix, same_text, skip_back, starts_with, CharClass,
};

verus! {

broadcast use vstd::string::group_string_axioms;

/// Largest image, in bytes, that `describe_image` sends.
pub const MAX_IMAGE_BYTES: usize = 20971520;

/// Largest embedding, in dimensions, that is returned inline rather than saved to a file.
pub const INLINE_EMBEDDING_LIMIT: usize = 64;

/// The tools that the media extension offers.
#[derive(Clone, Copy, Debug, PartialEq, Eq, Structural)]
pub enum MediaTool {
    DescribeImage,
    TextToSpeech,
    EmbedText,
    GenerateImage,
}

pub open spec fn tool_name(tool: MediaTool) -> Seq<char> {
    match tool {
        MediaTool::DescribeImage => "describe_image"@,
        MediaTool::TextToSpeech => "text_to_speech"@,
        MediaTool::EmbedText => "embed_text"@,
        MediaTool::GenerateImage => "generate_image"@,
    }
}

pub open spec fn tool_service(tool: MediaTool) -> ServiceKind {
    match tool {
        MediaTool::DescribeImage => ServiceKind::Vision,
        MediaTool::TextToSpeech => ServiceKind::Tts,
        MediaTool::EmbedText => ServiceKind::Embedding,
        MediaTool::GenerateImage => ServiceKind::Image,
    }
}

/// The tool that a name selects.
pub open spec fn tool_named(name: Seq<char>) -> Option<MediaTool> {
    if name == "describe_image"@ {
        Some(MediaTool::DescribeImage)
    } else if name == "text_to_speech"@ {
        Some(MediaTool::TextToSpeech)
    } else if name == "embed_text"@ {
        Some(MediaTool::EmbedText)
    } else if name == "generate_image"@ {
        Some(MediaTool::GenerateImage)
    } else {
        None
    }
}

impl MediaTool {
    pub fn name(self) -> (n: &'static str)
        ensures
            n@ == tool_name(self),
    {
        match self {
            MediaTool::DescribeImage => "describe_image",
            MediaTool::TextToSpeech => "text_to_speech",
            MediaTool::EmbedText => "embed_text",
            MediaTool::GenerateImage => "generate_image",
        }
    }

    /// The service that carries out the tool.
    pub fn service(self) -> (k: ServiceKind)
        ensures
            k == tool_service(self),
    {
        match self {
            MediaTool::DescribeImage => ServiceKind::Vision,
            MediaTool::TextToSpeech => ServiceKind::Tts,
            MediaTool::EmbedText => ServiceKind::Embedding,
            MediaTool::GenerateImage => ServiceKind::Image,
        }
    }

    /// The tool that a call names; any other name is an unknown tool.
    pub fn from_name(name: &str) -> (r: Result<MediaTool, ServiceError>)
        ensures
            match tool_named(name@) {
                Some(t) => r == Ok::<MediaTool, ServiceError>(t),
                None => r matches Err(ServiceError::UnknownTool(n)) && n@ == name@,
            },
    {
        if same_text(name, "describe_image") {
            Ok(MediaTool::DescribeImage)
        } else if same_text(name, "text_to_speech") {
            Ok(MediaTool::TextToSpeech)
        } else if same_text(name, "embed_text") {
            Ok(MediaTool::EmbedText)
        } else if same_text(name, "generate_image") {
            Ok(MediaTool::GenerateImage)
        } else {
            Err(ServiceError::UnknownTool(String::from_str(name)))
        }
    }
}

/// The last position before `j` where `s` holds `c`, or -1.
pub open spec fn last_index_of(s: Seq<char>, c: char, j: int) -> int
    decreases j,
{
    if j <= 0 {
        -1
    } else if s[j - 1] == c {
        j - 1
    } else {
        last_index_of(s, c, j - 1)
    }
}

pub proof fn lemma_last_index_bounds(s: Seq<char>, c: char, j: int)
    requires
        0 <= j <= s.len(),
    ensures
        -1 <= last_index_of(s, c, j) < j,
        last_index_of(s, c, j) >= 0 ==> s[last_index_of(s, c, j)] == c,
        forall|k: int| last_index_of(s, c, j) < k < j ==> s[k] != c,
    decreases j,
{
    if j > 0 && s[j - 1] != c {
        lemma_last_index_bounds(s, c, j - 1);
    }
}

/// The final component of a `/`-separated path, as `Path::file_name` reads it: separators
/// at the end are ignored, and so are `.` components after the first.
pub open spec fn final_component(s: Seq<char>) -> Option<Seq<char>>
    decreases s.len(),
{
    let t = drop_back(s, CharClass::Slash);
    if t.len() == 0 {
        None
    } else {
        let k = last_index_of(t, '/', t.len() as int);
        let seg = t.subrange(k + 1, t.len() as int);
        if seg == seq!['.'] {
            proof {
                lemma_drop_back_prefix(s, CharClass::Slash);
                lemma_last_index_bounds(t, '/', t.len() as int);
            }
            final_component(t.subrange(0, k + 1))
        } else {
            Some(seg)
        }
    }
}

/// What `Path::extension` gives: the text after the last `.` of the file name, unless the
/// name has no `.` other than a leading one, or the path ends in `..`.
pub open spec fn spec_path_extension(path: Seq<char>) -> Option<Seq<char>> {
    match final_component(path) {
        None => None,
        Some(name) => if name == seq!['.', '.'] {
            None
        } else {
            let d = last_index_of(name, '.', name.len() as int);
            if d <= 0 {
                None
            } else {
                Some(name.subrange(d + 1, name.len() as int))
            }
        },
    }
}

/// The character code of `c` after `to_ascii_lowercase`.
pub open spec fn ascii_lower_code(c: char) -> u32 {
    if 'A' <= c <= 'Z' {
        (c as u32 + 32) as u32
    } else {
        c as u32
    }
}

/// Whether the ASCII lower-case form of `s` is `lower`.
pub open spec fn lowercase_equals(s: Seq<char>, lower: Seq<char>) -> bool {
    s.len() == lower.len() && forall|i: int| 0 <= i < s.len() ==> #[trigger] ascii_lower_code(s[i]) == lower[i] as u32
}

/// The image type that a file extension names, in any letter case; PNG by default.
pub open spec fn spec_mime_for_extension(ext: Option<Seq<char>>) -> Seq<char> {
    match ext {
        Some(e) => if lowercase_equals(e, "jpg"@) || lowercase_equals(e, "jpeg"@) {
            "image/jpeg"@
        } else if lowercase_equals(e, "gif"@) {
            "image/gif"@
        } else if lowercase_equals(e, "webp"@) {
            "image/webp"@
        } else {
            "image/png"@
        },
        None => "image/png"@,
    }
}

/// The last position before `j` in `v` that holds `c`, plus one; 0 when there is none.
fn after_last(v: &Vec<char>, c: char, j: usize) -> (r: usize)
    requires
        j <= v@.len(),
    ensures
        r as int - 1 == last_index_of(v@.subrange(0, j as int), c, j as int),
        r <= j,
{
    let ghost t = v@.subrange(0, j as int);
    let mut i = j;
    while i > 0 && v[i - 1] != c
        invariant
            i <= j <= v@.len(),
            t == v@.subrange(0, j as int),
            last_index_of(t, c, i as int) == last_index_of(t, c, j as int),
        decreases i,
    {
        assert(t[i - 1] == v@[i - 1]);
        i = i - 1;
    }
    if i > 0 {
        assert(t[i - 1] == v@[i - 1]);
    }
    i
}

/// Where the final component of the path `v` lies.
fn final_component_range(v: &Vec<char>) -> (r: Option<(usize, usize)>)
    ensures
        match final_component(v@) {
            Some(seg) => r matches Some((a, b)) && a <= b <= v@.len() && v@.subrange(
                a as int,
                b as int,
            ) == seg,
            None => r is None,
        },
{
    let mut end = v.len();
    assert(v@.subrange(0, end as int) =~= v@);
    loop
        invariant
            end <= v@.len(),
            final_component(v@.subrange(0, end as int)) == final_component(v@),
        decreases end,
    {
        let ghost s = v@.subrange(0, end as int);
        let t_end = skip_back(v, 0, end, CharClass::Slash);
        let ghost t = v@.subrange(0, t_end as int);
        if t_end == 0 {
            return None;
        }
        let start = after_last(v, '/', t_end);
        proof {
            lemma_last_index_bounds(t, '/', t.len() as int);
            assert(t.subrange(start as int, t.len() as int) =~= v@.subrange(
                start as int,
                t_end as int,
            ));
        }
        if t_end - start == 1 && v[start] == '.' {
            proof {
                assert(t.subrange(start as int, t.len() as int) =~= seq!['.']);
                assert(t.subrange(0, start as int) =~= v@.subrange(0, start as int));
            }
            end = start;
        } else {
            proof {
                if t.subrange(start as int, t.len() as int) == seq!['.'] {
                    assert(t.subrange(start as int, t.len() as int)[0] == v@[start as int]);
                }
            }
            return Some((start, t_end));
        }
    }
}

/// Whether `v[a..b]` is, in ASCII lower case, the text `lower`.
fn lowercase_equals_exec(v: &Vec<char>, a: usize, b: usize, lower: &str) -> (r: bool)
    requires
        a <= b <= v@.len(),
    ensures
        r == lowercase_equals(v@.subrange(a as int, b as int), lower@),
{
    let ghost s = v@.subrange(a as int, b as int);
    let w = chars_of(lower);
    if b - a != w.len() {
        return false;
    }
    let mut i: usize = 0;
    while i < w.len()
        invariant
            s == v@.subrange(a as int, b as int),
            w@ == lower@,
            b - a == w@.len(),
            a <= b <= v@.len(),
            i <= w@.len(),
            forall|k: int| 0 <= k < i ==> #[trigger] ascii_lower_code(s[k]) == w@[k] as u32,
        decreases w@.len() - i,
    {
        let c = v[a + i];
        let code = if 'A' <= c && c <= 'Z' {
            c as u32 + 32
        } else {
            c as u32
        };
        assert(s[i as int] == c);
        assert(ascii_lower_code(s[i as int]) == code);
        if code != w[i] as u32 {
            assert(ascii_lower_code(s[i as int]) != lower@[i as int] as u32);
            return false;
        }
        i = i + 1;
    }
    true
}

/// The image type that a file extension names, in any letter case; PNG by default.
fn mime_for_extension(v: &Vec<char>, a: usize, b: usize) -> (mime: &'static str)
    requires
        a <= b <= v@.len(),
    ensures
        mime@ == spec_mime_for_extension(Some(v@.subrange(a as int, b as int))),
{
    if lowercase_equals_exec(v, a, b, "jpg") || lowercase_equals_exec(v, a, b, "jpeg") {
        "image/jpeg"
    } else if lowercase_equals_exec(v, a, b, "gif") {
        "image/gif"
    } else if lowercase_equals_exec(v, a, b, "webp") {
        "image/webp"
    } else {
        "image/png"
    }
}

/// The image type that a local path names by its extension.
pub fn mime_for_path(path: &str) -> (mime: &'static str)
    ensures
        mime@ == spec_mime_for_extension(spec_path_extension(path@)),
{
    let v = chars_of(path);
    match final_component_range(&v) {
        None => "image/png",
        Some((a, b)) => {
            let ghost name = v@.subrange(a as int, b as int);
            if b - a == 2 && v[a] == '.' && v[a + 1] == '.' {
                assert(name =~= seq!['.', '.']);
                return "image/png";
            }
            assert(name != seq!['.', '.']) by {
                if name == seq!['.', '.'] {
                    assert(name[0] == v@[a as int] && name[1] == v@[a + 1]);
                }
            }
            let d = after_last(&v, '.', b);
            // the last dot of the name lies after its start exactly when `d > a + 1`
            proof {
                lemma_last_index_bounds(v@.subrange(0, b as int), '.', b as int);
                lemma_last_index_bounds(name, '.', name.len() as int);
                lemma_last_index_of_suffix(v@.subrange(0, b as int), a as int, '.');
                assert(v@.subrange(0, b as int).subrange(a as int, b as int) =~= name);
            }
            if d <= a || d - a <= 1 {
                "image/png"
            } else {
                proof {
                    assert(name.subrange(d - a, name.len() as int) =~= v@.subrange(
                        d as int,
                        b as int,
                    ));
                }
                mime_for_extension(&v, d, b)
            }
        },
    }
}

/// Within the suffix `s[a..]`, the last occurrence of `c` is that of `s`, shifted by `a`,
/// or -1 when it lies before `a`.
pub proof fn lemma_last_index_of_suffix(s: Seq<char>, a: int, c: char)
    requires
        0 <= a <= s.len(),
    ensures
        ({
            let whole = last_index_of(s, c, s.len() as int);
            let part = last_index_of(s.subrange(a, s.len() as int), c, s.len() - a);
            if whole >= a {
                part == whole - a
            } else {
                part == -1
            }
        }),
{
    let t = s.subrange(a, s.len() as int);
    lemma_last_index_bounds(s, c, s.len() as int);
    lemma_last_index_bounds(t, c, t.len() as int);
    let whole = last_index_of(s, c, s.len() as int);
    let part = last_index_of(t, c, t.len() as int);
    if part >= 0 {
        assert(t[part] == s[part + a]);
        if whole > part + a {
            assert(t[whole - a] == s[whole]);
        }
    }
    if whole >= a {
        assert(t[whole - a] == s[whole]);
    }
}

/// Whether an image source is a web address rather than a local path.
pub fn is_remote_source(source: &str) -> (r: bool)
    ensures
        r == (starts_with(source@, "http://"@) || starts_with(source@, "https://"@)),
{
    let v = chars_of(source);
    let http = chars_of("http://");
    let https = chars_of("https://");
    let r = prefix_at_start(&v, &http) || prefix_at_start(&v, &https);
    r
}

fn prefix_at_start(v: &Vec<char>, p: &Vec<char>) -> (r: bool)
    ensures
        r == starts_with(v@, p@),
{
    if p.len() > v.len() {
        return false;
    }
    let mut i: usize = 0;
    while i < p.len()
        invariant
            p@.len() <= v@.len(),
            i <= p@.len(),
            forall|k: int| 0 <= k < i ==> v@[k] == p@[k],
        decreases p@.len() - i,
    {
        if v[i] != p[i] {
            assert(v@.subrange(0, p@.len() as int)[i as int] != p@[i as int]);
            return false;
        }
        i = i + 1;
    }
    assert(v@.subrange(0, p@.len() as int) =~= p@);
    true
}

/// The type of a loaded image: a web image is taken as PNG, a file is typed by its extension.
pub open spec fn spec_source_mime(source: Seq<char>) -> Seq<char> {
    if starts_with(source, "http://"@) || starts_with(source, "https://"@) {
        "image/png"@
    } else {
        spec_mime_for_extension(spec_path_extension(source))
    }
}

/// A loaded image with its type, or an error when it exceeds `MAX_IMAGE_BYTES`.
pub fn accept_image(source: &str, bytes: Vec<u8>) -> (r: Result<(Vec<u8>, String), ServiceError>)
    ensures
        bytes@.len() > MAX_IMAGE_BYTES ==> r matches Err(ServiceError::ImageTooLarge),
        bytes@.len() <= MAX_IMAGE_BYTES ==> (r matches Ok((b, m)) && b@ == bytes@ && m@
            == spec_source_mime(source@)),
{
    if bytes.len() > MAX_IMAGE_BYTES {
        return Err(ServiceError::ImageTooLarge);
    }
    let mime = if is_remote_source(source) {
        String::from_str("image/png")
    } else {
        String::from_str(mime_for_path(source))
    };
    Ok((bytes, mime))
}

/// The file extension under which a generated image of the given type is saved.
pub open spec fn spec_image_extension(mime_type: Seq<char>) -> Seq<char> {
    if mime_type == "image/jpeg"@ {
        "jpg"@
    } else if mime_type == "image/webp"@ {
        "webp"@
    } else if mime_type == "image/gif"@ {
        "gif"@
    } else {
        "png"@
    }
}

pub fn image_extension(mime_type: &str) -> (ext: &'static str)
    ensures
        ext@ == spec_image_extension(mime_type@),
{
    if same_text(mime_type, "image/jpeg") {
        "jpg"
    } else if same_text(mime_type, "image/webp") {
        "webp"
    } else if same_text(mime_type, "image/gif") {
        "gif"
    } else {
        "png"
    }
}

/// The voice that speech uses: the requested one, else `alloy`.
pub fn speech_voice<'a>(voice: Option<&'a str>) -> (v: &'a str)
    ensures
        match voice {
            Some(requested) => v@ == requested@,
            None => v@ == "alloy"@,
        },
{
    match voice {
        Some(requested) => requested,
        None => "alloy",
    }
}

/// Whether an embedding is small enough to return inline rather than save to a file.
pub fn inline_embedding(dimensions: usize) -> (r: bool)
    ensures
        r == (dimensions <= INLINE_EMBEDDING_LIMIT),
{
    dimensions <= INLINE_EMBEDDING_LIMIT
}

} // verus!
