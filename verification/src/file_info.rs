//! What the bot learns of a download from its response: the file's name, size and kind.
use vstd::prelude::*;
use crate::foreign::{
    decode_utf8_ok, get_mime_extensions_str, lowercase, mime_extensions, percent_decode_bytes,
    percent_decode_str, to_lowercase,
};
use crate::text::{
    contains_char, ends_with_str, lemma_split_once_absent, lemma_split_once_join,
    lemma_split_once_shorter, opt_string_view, opt_view, split_once, split_once_str, trim_end,
    trim_start, starts_with_str, strip_prefix_all, strip_prefix_all_str, trim_quotes,
    trim_quotes_str, trim_ws, trim_ws_str,
};
use vstd::string::StringExecFns;
use vstd::utf8::{
    decode_utf8, encode_scalar, encode_utf8, encode_utf8_decode_utf8, encode_utf8_valid_utf8,
    has_width_1_encoding, has_width_2_encoding, is_ascii_chars, is_ascii_chars_encode_utf8, has_width_3_encoding, last_continuation_byte,
    leading_byte_width_1, leading_byte_width_2, leading_byte_width_3, leading_byte_width_4,
    second_last_continuation_byte, third_last_continuation_byte, valid_utf8,
};

verus! {

broadcast use vstd::string::group_string_axioms;

/// The largest file the bot uploads: 2 GiB.
pub const MAX_FILE_SIZE_BYTES: usize = 2 * 1024 * 1024 * 1024;

/// What the bot reads of an HTTP response.
pub struct ResponseInfo {
    /// The `Content-Length`, when the response gives one.
    pub content_length: Option<u64>,
    /// The `Content-Disposition` header, when present and made of visible ASCII.
    pub content_disposition: Option<String>,
    /// The `Content-Type` header, when present and made of visible ASCII.
    pub content_type: Option<String>,
    /// The last segment of the path of the final URL, when the URL has a path.
    pub last_path_segment: Option<String>,
}

/// The file that is about to be uploaded.
pub struct FileInfo {
    pub name: String,
    pub size: usize,
    pub is_video: bool,
}

// ---------------------------------------------------------------------------
// Specifications
// ---------------------------------------------------------------------------

/// `filename=`
pub open spec fn filename_key() -> Seq<char> {
    seq!['f', 'i', 'l', 'e', 'n', 'a', 'm', 'e', '=']
}

/// `file.bin`, the name used when neither the headers nor the URL give one.
pub open spec fn default_filename() -> Seq<char> {
    seq!['f', 'i', 'l', 'e', '.', 'b', 'i', 'n']
}

/// `video/mp4`
pub open spec fn mp4_mime() -> Seq<char> {
    seq!['v', 'i', 'd', 'e', 'o', '/', 'm', 'p', '4']
}

/// `.mp4`
pub open spec fn mp4_suffix() -> Seq<char> {
    seq!['.', 'm', 'p', '4']
}

/// The first `;`-separated part of a `Content-Disposition` value that, trimmed of white
/// space, starts with `filename=`; that part, trimmed.
pub open spec fn filename_param(value: Seq<char>) -> Option<Seq<char>>
    decreases value.len(),
{
    let (head, rest) = split_once(value, ';');
    let part = trim_ws(head);
    if filename_key().is_prefix_of(part) {
        Some(part)
    } else {
        match rest {
            Some(r) => {
                proof {
                    lemma_split_once_shorter(value, ';');
                }
                filename_param(r)
            },
            None => None,
        }
    }
}

/// The still percent-encoded file name of a `Content-Disposition` value: the `filename=`
/// parameter without its key and without the quotes around it.
pub open spec fn header_filename_raw(value: Seq<char>) -> Option<Seq<char>> {
    match filename_param(value) {
        Some(p) => Some(trim_quotes(strip_prefix_all(p, filename_key()))),
        None => None,
    }
}

/// A text percent-decoded over its UTF-8 bytes; `None` when the decoded bytes are not UTF-8.
pub open spec fn percent_decode_text(s: Seq<char>) -> Option<Seq<char>> {
    let b = percent_decode_bytes(encode_utf8(s));
    if valid_utf8(b) {
        Some(decode_utf8(b))
    } else {
        None
    }
}

/// The file name that the `Content-Disposition` header gives.
pub open spec fn spec_filename_from_header(header: Option<Seq<char>>) -> Option<Seq<char>> {
    match header {
        Some(value) => match header_filename_raw(value) {
            Some(raw) => percent_decode_text(raw),
            None => None,
        },
        None => None,
    }
}

/// `name.ext`, where `ext` is the first extension known for the content type.
pub open spec fn spec_add_extension(content_type: Option<Seq<char>>, name: Seq<char>) -> Option<
    Seq<char>,
> {
    match content_type {
        Some(ct) => match mime_extensions(ct) {
            Some(exts) => if exts.len() > 0 {
                Some(name + seq!['.'] + exts[0])
            } else {
                None
            },
            None => None,
        },
        None => None,
    }
}

/// The file name that the URL gives: its last path segment, given the content type's
/// extension when it has no `.`, then percent-decoded when that gives UTF-8.
pub open spec fn spec_filename_from_url(
    segment: Option<Seq<char>>,
    content_type: Option<Seq<char>>,
) -> Option<Seq<char>> {
    match segment {
        Some(name) => {
            let candidate = if name.contains('.') {
                Some(name)
            } else {
                spec_add_extension(content_type, name)
            };
            match candidate {
                Some(c) => match percent_decode_text(c) {
                    Some(decoded) => Some(decoded),
                    None => Some(c),
                },
                None => None,
            }
        },
        None => None,
    }
}

/// The file name: from the header if it gives one, else from the URL, else `file.bin`.
pub open spec fn spec_filename(
    disposition: Option<Seq<char>>,
    segment: Option<Seq<char>>,
    content_type: Option<Seq<char>>,
) -> Seq<char> {
    match spec_filename_from_header(disposition) {
        Some(n) => n,
        None => match spec_filename_from_url(segment, content_type) {
            Some(n) => n,
            None => default_filename(),
        },
    }
}

/// Whether the file is an MP4 video: its content type starts with `video/mp4`, or its
/// name, in lower case, ends with `.mp4`.
pub open spec fn spec_is_video(content_type: Option<Seq<char>>, name: Seq<char>) -> bool {
    spec_is_video_lowercase(content_type, lowercase(name))
}

/// Whether the file is an MP4 video, given its name in lower case.
pub open spec fn spec_is_video_lowercase(
    content_type: Option<Seq<char>>,
    lowercase_name: Seq<char>,
) -> bool {
    (content_type matches Some(ct) && mp4_mime().is_prefix_of(ct)) || mp4_suffix().is_suffix_of(
        lowercase_name,
    )
}

/// The sizes the bot uploads: more than nothing, and at most 2 GiB.
pub open spec fn size_is_acceptable(size: usize) -> bool {
    0 < size <= MAX_FILE_SIZE_BYTES
}

// ---------------------------------------------------------------------------
// Executable functions
// ---------------------------------------------------------------------------

/// The file size check before an upload: a file must not be empty and must not be
/// larger than 2 GiB.
pub fn validate_file_size(size: usize) -> (r: Result<(), &'static str>)
    ensures
        r is Ok <==> size_is_acceptable(size),
        size == 0 ==> r == Err::<(), &str>("⚠️ File is empty"),
        size > MAX_FILE_SIZE_BYTES ==> r == Err::<(), &str>("⚠️ File is too large"),
{
    if size == 0 {
        return Err("⚠️ File is empty");
    }
    if size > MAX_FILE_SIZE_BYTES {
        return Err("⚠️ File is too large");
    }
    Ok(())
}

/// A text percent-decoded, when the result is UTF-8.
pub fn percent_decode_utf8(s: &str) -> (r: Option<String>)
    ensures
        opt_string_view(r) == percent_decode_text(s@),
{
    decode_utf8_ok(percent_decode_str(s))
}

/// The `filename=` part of a `Content-Disposition` value, trimmed; see `filename_param`.
fn find_filename_param(value: &str) -> (r: Option<&str>)
    ensures
        opt_view(r) == filename_param(value@),
    decreases value@.len(),
{
    let key = "filename=";
    proof {
        reveal_strlit("filename=");
    }
    assert(key@ =~= filename_key());
    let (head, rest) = split_once_str(value, ';');
    let part = trim_ws_str(head);
    if starts_with_str(part, key) {
        Some(part)
    } else {
        match rest {
            Some(r) => {
                proof {
                    lemma_split_once_shorter(value@, ';');
                }
                find_filename_param(r)
            },
            None => None,
        }
    }
}

/// The file name that a `Content-Disposition` header value gives, percent-decoded.
pub fn extract_filename_from_header(content_disposition: Option<&str>) -> (r: Option<String>)
    ensures
        opt_string_view(r) == spec_filename_from_header(opt_view(content_disposition)),
{
    let value = match content_disposition {
        Some(v) => v,
        None => return None,
    };
    let part = match find_filename_param(value) {
        Some(p) => p,
        None => return None,
    };
    let key = "filename=";
    proof {
        reveal_strlit("filename=");
    }
    assert(key@ =~= filename_key());
    let name = trim_quotes_str(strip_prefix_all_str(part, key));
    percent_decode_utf8(name)
}

/// `name.ext`, where `ext` is the first of the given extensions; `None` without one.
pub fn name_with_extension(name: &str, extensions: Option<Vec<String>>) -> (r: Option<String>)
    ensures
        opt_string_view(r) == match extensions {
            Some(exts) => if exts.len() > 0 {
                Some(name@ + seq!['.'] + exts[0]@)
            } else {
                None
            },
            None => None,
        },
{
    let exts = match extensions {
        Some(exts) => exts,
        None => return None,
    };
    if exts.len() == 0 {
        return None;
    }
    let ext = &exts[0];
    let mut full = String::from_str(name);
    let dot = ".";
    proof {
        reveal_strlit(".");
    }
    full.append(dot);
    full.append(ext.as_str());
    Some(full)
}

/// The name with the first extension known for the content type appended after a `.`.
pub fn add_extension_from_content_type(content_type: Option<&str>, name: &str) -> (r: Option<
    String,
>)
    ensures
        opt_string_view(r) == spec_add_extension(opt_view(content_type), name@),
{
    match content_type {
        Some(ct) => {
            let exts = get_mime_extensions_str(ct);
            assert(exts is Some && exts.unwrap().len() > 0 ==> exts.unwrap().deep_view()[0]
                == exts.unwrap()@[0]@);
            name_with_extension(name, exts)
        },
        None => None,
    }
}

/// The file name that the URL gives; see `spec_filename_from_url`.
pub fn extract_filename_from_url(segment: Option<&str>, content_type: Option<&str>) -> (r: Option<
    String,
>)
    ensures
        opt_string_view(r) == spec_filename_from_url(opt_view(segment), opt_view(content_type)),
{
    let name = match segment {
        Some(name) => name,
        None => return None,
    };
    let candidate = if contains_char(name, '.') {
        String::from_str(name)
    } else {
        match add_extension_from_content_type(content_type, name) {
            Some(c) => c,
            None => return None,
        }
    };
    match percent_decode_utf8(candidate.as_str()) {
        Some(decoded) => Some(decoded),
        None => Some(candidate),
    }
}

/// The file name of a response: from its `Content-Disposition` header, else from its
/// URL, else `file.bin`.
pub fn extract_filename(response: &ResponseInfo) -> (r: String)
    ensures
        r@ == spec_filename(
            opt_string_view(response.content_disposition),
            opt_string_view(response.last_path_segment),
            opt_string_view(response.content_type),
        ),
{
    let disposition = as_opt_str(&response.content_disposition);
    if let Some(name) = extract_filename_from_header(disposition) {
        return name;
    }
    let segment = as_opt_str(&response.last_path_segment);
    let content_type = as_opt_str(&response.content_type);
    if let Some(name) = extract_filename_from_url(segment, content_type) {
        return name;
    }
    let default = "file.bin";
    proof {
        reveal_strlit("file.bin");
    }
    assert(default@ =~= default_filename());
    String::from_str(default)
}

/// Whether the file is an MP4 video; see `spec_is_video`.
pub fn is_video_file(content_type: Option<&str>, name: &str) -> (r: bool)
    ensures
        r == spec_is_video(opt_view(content_type), name@),
{
    let lower = to_lowercase(name);
    is_video_lowercase(content_type, lower.as_str())
}

/// Whether the file is an MP4 video, given its name in lower case: its content type
/// starts with `video/mp4`, or the name ends with `.mp4`.
pub fn is_video_lowercase(content_type: Option<&str>, lowercase_name: &str) -> (r: bool)
    ensures
        r == spec_is_video_lowercase(opt_view(content_type), lowercase_name@),
{
    let mime = "video/mp4";
    let suffix = ".mp4";
    proof {
        reveal_strlit("video/mp4");
        reveal_strlit(".mp4");
    }
    assert(mime@ =~= mp4_mime());
    assert(suffix@ =~= mp4_suffix());
    let is_mp4_mime = match content_type {
        Some(ct) => starts_with_str(ct, mime),
        None => false,
    };
    is_mp4_mime || ends_with_str(lowercase_name, suffix)
}

/// Name, size and kind of the file that a response carries. A missing length counts as 0.
pub fn extract_file_info(response: &ResponseInfo) -> (info: FileInfo)
    ensures
        info.name@ == spec_filename(
            opt_string_view(response.content_disposition),
            opt_string_view(response.last_path_segment),
            opt_string_view(response.content_type),
        ),
        info.size == (match response.content_length {
            Some(n) => n,
            None => 0,
        }) as usize,
        info.is_video == spec_is_video(opt_string_view(response.content_type), info.name@),
{
    let length: u64 = match response.content_length {
        Some(n) => n,
        None => 0,
    };
    let size = length as usize;
    let name = extract_filename(response);
    let is_video = is_video_file(as_opt_str(&response.content_type), name.as_str());
    FileInfo { name, size, is_video }
}

/// A borrowed view of an optional string.
pub fn as_opt_str(s: &Option<String>) -> (r: Option<&str>)
    ensures
        opt_view(r) == opt_string_view(*s),
{
    match s {
        Some(t) => Some(t.as_str()),
        None => None,
    }
}

// ---------------------------------------------------------------------------
// Laws
// ---------------------------------------------------------------------------

/// No byte of the UTF-8 encoding of a character other than `%` is the byte of `%`.
proof fn lemma_encode_scalar_no_percent(c: char)
    requires
        c != '%',
    ensures
        !encode_scalar(c as u32).contains(0x25u8),
{
    let v = c as u32;
    assert(v != 0x25);
    let e = encode_scalar(v);
    if has_width_1_encoding(v) {
        assert(v <= 0x7f && v != 0x25 ==> (v & 0x7F) as u8 != 0x25u8) by (bit_vector);
        assert(e[0] == leading_byte_width_1(v));
    } else {
        assert(((0xC0u8 | ((v >> 6) & 0x1F) as u8) as u8) != 0x25u8) by (bit_vector);
        assert(((0xE0u8 | ((v >> 12) & 0x0F) as u8) as u8) != 0x25u8) by (bit_vector);
        assert(((0xF0u8 | ((v >> 18) & 0x7) as u8) as u8) != 0x25u8) by (bit_vector);
        assert(((0x80u8 | (v & 0x3F) as u8) as u8) != 0x25u8) by (bit_vector);
        assert(((0x80u8 | ((v >> 6) & 0x3F) as u8) as u8) != 0x25u8) by (bit_vector);
        assert(((0x80u8 | ((v >> 12) & 0x3F) as u8) as u8) != 0x25u8) by (bit_vector);
        assert(leading_byte_width_2(v) != 0x25u8);
        assert(leading_byte_width_3(v) != 0x25u8);
        assert(leading_byte_width_4(v) != 0x25u8);
        assert(last_continuation_byte(v) != 0x25u8);
        assert(second_last_continuation_byte(v) != 0x25u8);
        assert(third_last_continuation_byte(v) != 0x25u8);
    }
    assert forall|i: int| 0 <= i < e.len() implies e[i] != 0x25u8 by {
        if has_width_1_encoding(v) {
        } else if has_width_2_encoding(v) {
        } else if has_width_3_encoding(v) {
        } else {
        }
    }
}

/// A text without `%` has no `%` byte in its UTF-8 encoding.
proof fn lemma_encode_no_percent(s: Seq<char>)
    requires
        !s.contains('%'),
    ensures
        !encode_utf8(s).contains(0x25u8),
    decreases s.len(),
{
    if s.len() > 0 {
        assert(s[0] != '%') by {
            if s[0] == '%' {
                assert(s.contains('%'));
            }
        }
        assert(!s.drop_first().contains('%')) by {
            if s.drop_first().contains('%') {
                let j = choose|j: int| 0 <= j < s.drop_first().len() && s.drop_first()[j] == '%';
                assert(s[j + 1] == '%');
            }
        }
        lemma_encode_scalar_no_percent(s[0]);
        lemma_encode_no_percent(s.drop_first());
        let head = encode_scalar(s[0] as u32);
        let tail = encode_utf8(s.drop_first());
        assert(encode_utf8(s) == head + tail);
        if (head + tail).contains(0x25u8) {
            let j = choose|j: int| 0 <= j < (head + tail).len() && (head + tail)[j] == 0x25u8;
            if j < head.len() {
                assert(head[j] == 0x25u8);
            } else {
                assert(tail[j - head.len()] == 0x25u8);
            }
        }
    }
}

/// Percent-decoding leaves bytes without `%` as they are.
proof fn lemma_percent_decode_plain(b: Seq<u8>)
    requires
        !b.contains(0x25u8),
    ensures
        percent_decode_bytes(b) == b,
    decreases b.len(),
{
    if b.len() > 0 {
        assert(b[0] != 0x25u8) by {
            if b[0] == 0x25u8 {
                assert(b.contains(0x25u8));
            }
        }
        assert(!b.skip(1).contains(0x25u8)) by {
            if b.skip(1).contains(0x25u8) {
                let j = choose|j: int| 0 <= j < b.skip(1).len() && b.skip(1)[j] == 0x25u8;
                assert(b[j + 1] == 0x25u8);
            }
        }
        lemma_percent_decode_plain(b.skip(1));
        assert(seq![b[0]] + b.skip(1) =~= b);
    }
}

/// Percent-decoding a text without `%` gives the text back.
pub proof fn lemma_decode_without_percent(s: Seq<char>)
    requires
        !s.contains('%'),
    ensures
        percent_decode_text(s) == Some(s),
{
    lemma_encode_no_percent(s);
    lemma_percent_decode_plain(encode_utf8(s));
    encode_utf8_valid_utf8(s);
    encode_utf8_decode_utf8(s);
}

/// A file name in the `Content-Disposition` header without `%` is used as written.
pub proof fn lemma_plain_header_filename(value: Seq<char>, name: Seq<char>)
    requires
        header_filename_raw(value) == Some(name),
        !name.contains('%'),
    ensures
        spec_filename_from_header(Some(value)) == Some(name),
{
    lemma_decode_without_percent(name);
}

/// A last path segment with a `.` and without `%` is the file name as it stands,
/// whatever the content type.
pub proof fn lemma_plain_url_filename(segment: Seq<char>, content_type: Option<Seq<char>>)
    requires
        segment.contains('.'),
        !segment.contains('%'),
    ensures
        spec_filename_from_url(Some(segment), content_type) == Some(segment),
{
    lemma_decode_without_percent(segment);
}

/// A name from the URL is never lost to a failed decoding: when the candidate name's
/// percent-decoding is not UTF-8, the candidate is used undecoded.
pub proof fn lemma_url_filename_falls_back(segment: Seq<char>, content_type: Option<Seq<char>>)
    requires
        segment.contains('.'),
        percent_decode_text(segment) is None,
    ensures
        spec_filename_from_url(Some(segment), content_type) == Some(segment),
{
}

/// The sources of the file name come in order: the header, then the URL, then `file.bin`.
pub proof fn lemma_filename_sources_in_order(
    disposition: Option<Seq<char>>,
    segment: Option<Seq<char>>,
    content_type: Option<Seq<char>>,
)
    ensures
        spec_filename_from_header(disposition) matches Some(n) ==> spec_filename(
            disposition,
            segment,
            content_type,
        ) == n,
        spec_filename_from_header(disposition) is None ==> (spec_filename_from_url(
            segment,
            content_type,
        ) matches Some(n) ==> spec_filename(disposition, segment, content_type) == n),
        spec_filename_from_header(disposition) is None && spec_filename_from_url(
            segment,
            content_type,
        ) is None ==> spec_filename(disposition, segment, content_type) == default_filename(),
{
}


// ---------------------------------------------------------------------------
// Laws on what the file name is
// ---------------------------------------------------------------------------

/// `c` does not occur in `a + b` when it occurs in neither.
proof fn lemma_concat_lacks(a: Seq<char>, b: Seq<char>, c: char)
    requires
        !a.contains(c),
        !b.contains(c),
    ensures
        !(a + b).contains(c),
{
    if (a + b).contains(c) {
        let j = choose|j: int| 0 <= j < (a + b).len() && (a + b)[j] == c;
        if j < a.len() {
            assert(a[j] == c);
        } else {
            assert(b[j - a.len()] == c);
        }
    }
}

/// A sequence whose characters all differ from `c` does not hold `c`.
proof fn lemma_lacks(s: Seq<char>, c: char)
    requires
        forall|j: int| 0 <= j < s.len() ==> s[j] != c,
    ensures
        !s.contains(c),
{
}

/// `attachment; filename="<name>"`: the usual `Content-Disposition` of a download.
pub open spec fn attachment_with_name(name: Seq<char>) -> Seq<char> {
    seq!['a', 't', 't', 'a', 'c', 'h', 'm', 'e', 'n', 't', ';', ' '] + filename_key() + seq!['"']
        + name + seq!['"']
}

/// The file name of `attachment; filename="N"` is `N` exactly, spaces and all, for
/// every non-empty `N` without `"`, `;` and `%`.
pub proof fn lemma_quoted_header_name(name: Seq<char>)
    requires
        name.len() > 0,
        !name.contains('"'),
        !name.contains(';'),
        !name.contains('%'),
    ensures
        spec_filename_from_header(Some(attachment_with_name(name))) == Some(name),
{
    let att = seq!['a', 't', 't', 'a', 'c', 'h', 'm', 'e', 'n', 't'];
    let quoted = seq!['"'] + name + seq!['"'];
    let part = filename_key() + quoted;
    let rest = seq![' '] + part;
    let value = attachment_with_name(name);
    assert(value =~= att + seq![';'] + rest);
    lemma_lacks(att, ';');
    lemma_split_once_join(att, ';', rest);
    // "attachment" trims to itself and does not start with `filename=`.
    assert(trim_start(att, false) == att);
    assert(trim_end(att, false) == att);
    assert(!filename_key().is_prefix_of(att)) by {
        assert(att[0] != filename_key()[0]);
    }
    // The rest holds no `;`.
    lemma_lacks(filename_key(), ';');
    lemma_lacks(seq!['"'], ';');
    lemma_lacks(seq![' '], ';');
    lemma_concat_lacks(seq!['"'], name, ';');
    lemma_concat_lacks(seq!['"'] + name, seq!['"'], ';');
    lemma_concat_lacks(filename_key(), quoted, ';');
    lemma_concat_lacks(seq![' '], part, ';');
    lemma_split_once_absent(rest, ';');
    assert(split_once(value, ';') == (att, Some(rest)));
    // Trimmed, the rest is the `filename=` part.
    assert(rest.skip(1) =~= part);
    assert(trim_start(part, false) == part);
    assert(trim_start(rest, false) == part);
    assert(trim_end(part, false) == part) by {
        assert(part.last() == '"');
    }
    assert(trim_ws(rest) == part);
    assert(filename_key().is_prefix_of(part)) by {
        assert(part.subrange(0, filename_key().len() as int) =~= filename_key());
    }
    assert(filename_param(rest) == Some(part));
    assert(filename_param(value) == Some(part));
    // The key goes, then the quotes.
    assert(part.skip(filename_key().len() as int) =~= quoted);
    assert(!filename_key().is_prefix_of(quoted)) by {
        assert(quoted[0] != filename_key()[0]);
    }
    assert(strip_prefix_all(quoted, filename_key()) == quoted);
    assert(strip_prefix_all(part, filename_key()) == quoted);
    assert(name[0] != '"') by {
        if name[0] == '"' {
            assert(name.contains('"'));
        }
    }
    assert(name.last() != '"') by {
        if name.last() == '"' {
            assert(name[name.len() - 1] == '"');
            assert(name.contains('"'));
        }
    }
    assert(quoted.skip(1) =~= name + seq!['"']);
    assert(trim_start(name + seq!['"'], true) == name + seq!['"']) by {
        assert((name + seq!['"'])[0] == name[0]);
    }
    assert(trim_start(quoted, true) == name + seq!['"']);
    assert((name + seq!['"']).drop_last() =~= name);
    assert(trim_end(name, true) == name);
    assert(trim_end(name + seq!['"'], true) == name);
    assert(trim_quotes(quoted) == name);
    assert(header_filename_raw(value) == Some(name));
    lemma_decode_without_percent(name);
}

/// Whatever the content type, a name that ends with `.mp4` in lower case is a video.
pub proof fn lemma_mp4_name_is_video(content_type: Option<Seq<char>>, name: Seq<char>)
    requires
        mp4_suffix().is_suffix_of(lowercase(name)),
    ensures
        spec_is_video(content_type, name),
        spec_is_video_lowercase(content_type, lowercase(name)),
{
}

/// Whatever the name, a content type that starts with `video/mp4` makes a video.
pub proof fn lemma_mp4_type_is_video(ct: Seq<char>, name: Seq<char>)
    requires
        mp4_mime().is_prefix_of(ct),
    ensures
        spec_is_video(Some(ct), name),
        spec_is_video_lowercase(Some(ct), name),
{
}

/// A file is a video only for one of those two reasons.
pub proof fn lemma_video_needs_type_or_name(content_type: Option<Seq<char>>, name: Seq<char>)
    requires
        spec_is_video(content_type, name),
    ensures
        (content_type matches Some(ct) && mp4_mime().is_prefix_of(ct)) || mp4_suffix().is_suffix_of(
            lowercase(name),
        ),
{
}

/// A last path segment without `.`, given the first extension `e` known for the content
/// type, gives the name `segment.e`, percent-decoded as a whole when that is UTF-8.
pub proof fn lemma_url_name_with_extension(
    segment: Seq<char>,
    ct: Seq<char>,
    exts: Seq<Seq<char>>,
)
    requires
        !segment.contains('.'),
        mime_extensions(ct) == Some(exts),
        exts.len() > 0,
    ensures
        spec_filename_from_url(Some(segment), Some(ct)) == Some(
            match percent_decode_text(segment + seq!['.'] + exts[0]) {
                Some(decoded) => decoded,
                None => segment + seq!['.'] + exts[0],
            },
        ),
        !segment.contains('%') && !exts[0].contains('%') ==> spec_filename_from_url(
            Some(segment),
            Some(ct),
        ) == Some(segment + seq!['.'] + exts[0]),
{
    if !segment.contains('%') && !exts[0].contains('%') {
        lemma_lacks(seq!['.'], '%');
        lemma_concat_lacks(segment, seq!['.'], '%');
        lemma_concat_lacks(segment + seq!['.'], exts[0], '%');
        lemma_decode_without_percent(segment + seq!['.'] + exts[0]);
    }
}



/// UTF-8 encodes a concatenation part by part.
proof fn lemma_encode_concat(a: Seq<char>, b: Seq<char>)
    ensures
        encode_utf8(a + b) == encode_utf8(a) + encode_utf8(b),
    decreases a.len(),
{
    if a.len() > 0 {
        assert((a + b).drop_first() =~= a.drop_first() + b);
        lemma_encode_concat(a.drop_first(), b);
        assert(encode_utf8(a + b) =~= encode_utf8(a) + encode_utf8(b));
    } else {
        assert(a + b =~= b);
        assert(encode_utf8(a) =~= Seq::<u8>::empty());
        assert(encode_utf8(a) + encode_utf8(b) =~= encode_utf8(b));
    }
}

/// Percent-decoding passes over leading bytes without `%`.
proof fn lemma_percent_decode_plain_prefix(a: Seq<u8>, r: Seq<u8>)
    requires
        !a.contains(0x25u8),
    ensures
        percent_decode_bytes(a + r) == a + percent_decode_bytes(r),
    decreases a.len(),
{
    if a.len() > 0 {
        assert(a[0] != 0x25u8) by {
            if a[0] == 0x25u8 {
                assert(a.contains(0x25u8));
            }
        }
        assert(!a.skip(1).contains(0x25u8)) by {
            if a.skip(1).contains(0x25u8) {
                let j = choose|j: int| 0 <= j < a.skip(1).len() && a.skip(1)[j] == 0x25u8;
                assert(a[j + 1] == 0x25u8);
            }
        }
        assert((a + r).skip(1) =~= a.skip(1) + r);
        lemma_percent_decode_plain_prefix(a.skip(1), r);
        assert(percent_decode_bytes(a + r) =~= a + percent_decode_bytes(r));
    } else {
        assert(a + r =~= r);
        assert(a + percent_decode_bytes(r) =~= percent_decode_bytes(r));
    }
}

/// `%20` percent-decodes to a space, the rest of a text without `%` staying as it is.
pub proof fn lemma_percent_space(a: Seq<char>, b: Seq<char>)
    requires
        !a.contains('%'),
        !b.contains('%'),
    ensures
        percent_decode_text(a + seq!['%', '2', '0'] + b) == Some(a + seq![' '] + b),
{
    let esc = seq!['%', '2', '0'];
    let enc_esc = seq![0x25u8, 0x32u8, 0x30u8];
    assert(encode_utf8(esc) =~= enc_esc) by {
        assert(is_ascii_chars(esc));
        is_ascii_chars_encode_utf8(esc);
        assert(esc[0] as u8 == 0x25u8);
        assert(esc[1] as u8 == 0x32u8);
        assert(esc[2] as u8 == 0x30u8);
    }
    let space = seq![' '];
    assert(encode_utf8(space) =~= seq![0x20u8]) by {
        assert(is_ascii_chars(space));
        is_ascii_chars_encode_utf8(space);
        assert(space[0] as u8 == 0x20u8);
    }
    lemma_encode_concat(a, esc);
    lemma_encode_concat(a + esc, b);
    lemma_encode_concat(a, space);
    lemma_encode_concat(a + space, b);
    lemma_encode_no_percent(a);
    lemma_encode_no_percent(b);
    let ea = encode_utf8(a);
    let eb = encode_utf8(b);
    assert(encode_utf8(a + esc + b) == ea + enc_esc + eb);
    assert(ea + enc_esc + eb =~= ea + (enc_esc + eb));
    lemma_percent_decode_plain_prefix(ea, enc_esc + eb);
    assert((enc_esc + eb).skip(3) =~= eb);
    lemma_percent_decode_plain(eb);
    assert(percent_decode_bytes(enc_esc + eb) =~= seq![0x20u8] + eb);
    assert(percent_decode_bytes(encode_utf8(a + esc + b)) =~= ea + seq![0x20u8] + eb);
    assert(encode_utf8(a + space + b) =~= ea + seq![0x20u8] + eb);
    encode_utf8_valid_utf8(a + space + b);
    encode_utf8_decode_utf8(a + space + b);
}


/// A last path segment `a%20b` without `.` gets the extension and is decoded: the name is
/// `a b.e`, for `a`, `b` and the extension `e` without `%`.
pub proof fn lemma_url_name_space_decoded(
    a: Seq<char>,
    b: Seq<char>,
    ct: Seq<char>,
    exts: Seq<Seq<char>>,
)
    requires
        !a.contains('.'),
        !b.contains('.'),
        !a.contains('%'),
        !b.contains('%'),
        mime_extensions(ct) == Some(exts),
        exts.len() > 0,
        !exts[0].contains('%'),
    ensures
        spec_filename_from_url(Some(a + seq!['%', '2', '0'] + b), Some(ct)) == Some(
            a + seq![' '] + b + seq!['.'] + exts[0],
        ),
{
    let esc = seq!['%', '2', '0'];
    let segment = a + esc + b;
    lemma_lacks(esc, '.');
    lemma_concat_lacks(a, esc, '.');
    lemma_concat_lacks(a + esc, b, '.');
    lemma_url_name_with_extension(segment, ct, exts);
    let tail = b + seq!['.'] + exts[0];
    lemma_lacks(seq!['.'], '%');
    lemma_concat_lacks(b, seq!['.'], '%');
    lemma_concat_lacks(b + seq!['.'], exts[0], '%');
    assert(segment + seq!['.'] + exts[0] =~= a + esc + tail);
    lemma_percent_space(a, tail);
    assert(a + seq![' '] + tail =~= a + seq![' '] + b + seq!['.'] + exts[0]);
}

} // verus!
