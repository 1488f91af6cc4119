//! Acquisition of the bytes of a source, and their hash.
//!
//! A source is read whole, or range by range. Every response is held against what
//! was asked for and what is known of the source before its bytes count.
//! [`HashSession`] decides what to ask for next and what to make of an answer; who
//! drives it sends the requests and reads the bodies.

use reqwest::header::{HeaderName, HeaderValue};
use reqwest::Url;
use sha2::{Digest, Sha256};
use vstd::prelude::*;

use super::identity::{parse_url, parsed_url};
use crate::contracts::{PreparedHeader, PreparedHttp, PreparedRangeMode, PreparedSource};
use crate::text::{
    chars_of, decimal, find_char, first_position, first_positions_come_first, hex, is_ascii_space,
    parse_u64, parse_u64_chars, part_of, same_text, spec_decimal, spec_hex, spec_is_white_space,
    spec_parse_u64, spec_starts_with, spec_to_ascii_lowercase, spec_trim, spec_words, starts_with,
    text_of, to_ascii_lowercase, trim, trim_end, trim_start, unbroken_runs_join_the_word,
    word_texts, words, words_from, written_numbers_are_read_back,
};

verus! {

/// Most bytes that a source may have.
pub const MAX_SOURCE_BYTES: u64 = 67_108_864;

/// How often one range is asked for.
pub const HASH_REQUEST_RETRIES: usize = 2;

/// How often a track is resolved anew before it is given up.
pub const MAX_ACQUISITION_CYCLES: usize = 3;

/// How many redirects a request may follow.
pub const MAX_REDIRECTS: usize = 5;

/// Why a redirect is not followed, after `previous` requests of the same chain:
/// there were too many, or its host is not `allowed`. None where it is followed.
pub fn redirect_error(previous: usize, allowed: bool) -> (r: Option<&'static str>)
    ensures
        r is None <==> previous < MAX_REDIRECTS && allowed,
        r matches Some(message) ==> message@ == if previous >= MAX_REDIRECTS {
            "too many redirects"@
        } else {
            "redirect host is not allowlisted"@
        },
{
    if previous >= MAX_REDIRECTS {
        Some("too many redirects")
    } else if allowed {
        None
    } else {
        Some("redirect host is not allowlisted")
    }
}

/// Why the bytes of a source could not be acquired.
#[derive(Clone, Copy, Debug, PartialEq, Eq, Structural)]
pub enum AcquisitionError {
    /// The source has no bytes.
    EmptySource,
    /// The source is longer than the limit.
    SourceTooLarge,
    /// A segmented source has no single body to hash.
    HlsContentHashUnsupported,
    /// Ranges of no bytes were asked for.
    InvalidRangeChunkSize,
    /// A request header cannot be sent.
    InvalidHeader,
    /// A whole body cannot be checked without its length.
    SourceLengthUnknown,
    /// The deadline passed.
    HashTimeout,
    /// The request could not be sent.
    SourceRequestFailed,
    /// The body could not be read.
    SourceBodyFailed,
    /// The prepared URL is none.
    InvalidPreparedUrl,
    /// The URL, or the one it was redirected to, is not secure.
    SourceUrlNotHttps,
    /// The server answered 401.
    Http401,
    /// The server answered 403.
    Http403,
    /// The server answered 404.
    Http404,
    /// The server answered 410.
    Http410,
    /// The server answered 429.
    Http429,
    /// The server answered with an error of its own.
    Http5xx,
    /// The server answered with another status.
    HttpError,
    /// The whole body is no media.
    FullBodyMediaTypeInvalid,
    /// The bytes are not as many as announced.
    SourceLengthMismatch,
    /// The bytes are more than announced or allowed.
    SourceLengthExceeded,
    /// The whole body came without its length.
    RangeFullBodyLengthMissing,
    /// The whole body is empty or longer than the limit.
    RangeFullBodyLengthInvalid,
    /// The whole body is not as long as announced.
    RangeFullBodyLengthMismatch,
    /// The whole body, sent in place of a range, is no media.
    RangeFullBodyMediaTypeInvalid,
    /// The range came without saying which it is.
    RangeMissingContentRange,
    /// What the response says of its range cannot be read.
    RangeInvalidContentRange,
    /// The range is not the one that was asked for.
    RangeContentRangeMismatch,
    /// The body is not as long as its range.
    RangeBodyLengthMismatch,
    /// A range before the last is shorter than asked for.
    RangeShortNonfinal,
}

impl AcquisitionError {
    /// The code of the error in reports.
    pub open spec fn spec_code(self) -> Seq<char> {
        match self {
            AcquisitionError::EmptySource => "empty_source"@,
            AcquisitionError::SourceTooLarge => "source_too_large"@,
            AcquisitionError::HlsContentHashUnsupported => "hls_content_hash_unsupported"@,
            AcquisitionError::InvalidRangeChunkSize => "invalid_range_chunk_size"@,
            AcquisitionError::InvalidHeader => "invalid_header"@,
            AcquisitionError::SourceLengthUnknown => "source_length_unknown"@,
            AcquisitionError::HashTimeout => "hash_timeout"@,
            AcquisitionError::SourceRequestFailed => "source_request_failed"@,
            AcquisitionError::SourceBodyFailed => "source_body_failed"@,
            AcquisitionError::InvalidPreparedUrl => "invalid_prepared_url"@,
            AcquisitionError::SourceUrlNotHttps => "source_url_not_https"@,
            AcquisitionError::Http401 => "http_401"@,
            AcquisitionError::Http403 => "http_403"@,
            AcquisitionError::Http404 => "http_404"@,
            AcquisitionError::Http410 => "http_410"@,
            AcquisitionError::Http429 => "http_429"@,
            AcquisitionError::Http5xx => "http_5xx"@,
            AcquisitionError::HttpError => "http_error"@,
            AcquisitionError::FullBodyMediaTypeInvalid => "full_body_media_type_invalid"@,
            AcquisitionError::SourceLengthMismatch => "source_length_mismatch"@,
            AcquisitionError::SourceLengthExceeded => "source_length_exceeded"@,
            AcquisitionError::RangeFullBodyLengthMissing => "range_full_body_length_missing"@,
            AcquisitionError::RangeFullBodyLengthInvalid => "range_full_body_length_invalid"@,
            AcquisitionError::RangeFullBodyLengthMismatch => "range_full_body_length_mismatch"@,
            AcquisitionError::RangeFullBodyMediaTypeInvalid => "range_full_body_media_type_invalid"@,
            AcquisitionError::RangeMissingContentRange => "range_missing_content_range"@,
            AcquisitionError::RangeInvalidContentRange => "range_invalid_content_range"@,
            AcquisitionError::RangeContentRangeMismatch => "range_content_range_mismatch"@,
            AcquisitionError::RangeBodyLengthMismatch => "range_body_length_mismatch"@,
            AcquisitionError::RangeShortNonfinal => "range_short_nonfinal"@,
        }
    }

    /// The code of the error in reports.
    pub fn code(self) -> (r: &'static str)
        ensures
            r@ == self.spec_code(),
    {
        match self {
            AcquisitionError::EmptySource => "empty_source",
            AcquisitionError::SourceTooLarge => "source_too_large",
            AcquisitionError::HlsContentHashUnsupported => "hls_content_hash_unsupported",
            AcquisitionError::InvalidRangeChunkSize => "invalid_range_chunk_size",
            AcquisitionError::InvalidHeader => "invalid_header",
            AcquisitionError::SourceLengthUnknown => "source_length_unknown",
            AcquisitionError::HashTimeout => "hash_timeout",
            AcquisitionError::SourceRequestFailed => "source_request_failed",
            AcquisitionError::SourceBodyFailed => "source_body_failed",
            AcquisitionError::InvalidPreparedUrl => "invalid_prepared_url",
            AcquisitionError::SourceUrlNotHttps => "source_url_not_https",
            AcquisitionError::Http401 => "http_401",
            AcquisitionError::Http403 => "http_403",
            AcquisitionError::Http404 => "http_404",
            AcquisitionError::Http410 => "http_410",
            AcquisitionError::Http429 => "http_429",
            AcquisitionError::Http5xx => "http_5xx",
            AcquisitionError::HttpError => "http_error",
            AcquisitionError::FullBodyMediaTypeInvalid => "full_body_media_type_invalid",
            AcquisitionError::SourceLengthMismatch => "source_length_mismatch",
            AcquisitionError::SourceLengthExceeded => "source_length_exceeded",
            AcquisitionError::RangeFullBodyLengthMissing => "range_full_body_length_missing",
            AcquisitionError::RangeFullBodyLengthInvalid => "range_full_body_length_invalid",
            AcquisitionError::RangeFullBodyLengthMismatch => "range_full_body_length_mismatch",
            AcquisitionError::RangeFullBodyMediaTypeInvalid => "range_full_body_media_type_invalid",
            AcquisitionError::RangeMissingContentRange => "range_missing_content_range",
            AcquisitionError::RangeInvalidContentRange => "range_invalid_content_range",
            AcquisitionError::RangeContentRangeMismatch => "range_content_range_mismatch",
            AcquisitionError::RangeBodyLengthMismatch => "range_body_length_mismatch",
            AcquisitionError::RangeShortNonfinal => "range_short_nonfinal",
        }
    }
}

/// Whether a fresh resolution of the track may help against an error.
pub open spec fn spec_retryable(code: Seq<char>) -> bool {
    ||| code == "http_401"@
    ||| code == "http_403"@
    ||| code == "http_410"@
    ||| code == "source_request_failed"@
    ||| code == "source_body_failed"@
    ||| code == "source_length_mismatch"@
    ||| code == "range_requires_206"@
    ||| code == "range_missing_content_range"@
    ||| code == "range_invalid_content_range"@
    ||| code == "range_content_range_mismatch"@
    ||| code == "range_body_length_mismatch"@
    ||| code == "range_short_nonfinal"@
    ||| code == "range_full_body_length_missing"@
    ||| code == "range_full_body_length_invalid"@
    ||| code == "range_full_body_length_mismatch"@
    ||| code == "hash_timeout"@
}

/// Whether a fresh resolution of the track may help against an error.
pub fn retryable_acquisition_code(code: &str) -> (r: bool)
    ensures
        r == spec_retryable(code@),
{
    same_text(code, "http_401")
        || same_text(code, "http_403")
        || same_text(code, "http_410")
        || same_text(code, "source_request_failed")
        || same_text(code, "source_body_failed")
        || same_text(code, "source_length_mismatch")
        || same_text(code, "range_requires_206")
        || same_text(code, "range_missing_content_range")
        || same_text(code, "range_invalid_content_range")
        || same_text(code, "range_content_range_mismatch")
        || same_text(code, "range_body_length_mismatch")
        || same_text(code, "range_short_nonfinal")
        || same_text(code, "range_full_body_length_missing")
        || same_text(code, "range_full_body_length_invalid")
        || same_text(code, "range_full_body_length_mismatch")
        || same_text(code, "hash_timeout")
}

/// The error that an unexpected status stands for.
pub open spec fn spec_http_error(status: u16) -> AcquisitionError {
    if status == 401 {
        AcquisitionError::Http401
    } else if status == 403 {
        AcquisitionError::Http403
    } else if status == 410 {
        AcquisitionError::Http410
    } else if status == 404 {
        AcquisitionError::Http404
    } else if status == 429 {
        AcquisitionError::Http429
    } else if 500 <= status <= 599 {
        AcquisitionError::Http5xx
    } else {
        AcquisitionError::HttpError
    }
}

/// The error that an unexpected status stands for.
pub fn http_error(status: u16) -> (r: AcquisitionError)
    ensures
        r == spec_http_error(status),
{
    match status {
        401 => AcquisitionError::Http401,
        403 => AcquisitionError::Http403,
        410 => AcquisitionError::Http410,
        404 => AcquisitionError::Http404,
        429 => AcquisitionError::Http429,
        code => if 500 <= code && code <= 599 {
            AcquisitionError::Http5xx
        } else {
            AcquisitionError::HttpError
        },
    }
}

/// The code of the error that an unexpected status stands for.
pub fn http_error_code(status: u16) -> (r: &'static str)
    ensures
        r@ == spec_http_error(status).spec_code(),
{
    http_error(status).code()
}

/// The two texts around the first `ch` of a text.
pub open spec fn split_once(text: Seq<char>, ch: char) -> Option<(Seq<char>, Seq<char>)> {
    match first_position(text, ch, 0) {
        Some(at) => Some((text.take(at), text.skip(at + 1))),
        None => None,
    }
}

/// First byte, last byte and total length that a `Content-Range` text tells, such
/// as `bytes 0-3/10`. None where it is not of that form, or the last byte stands
/// before the first or does not lie in the total.
pub open spec fn content_range_of(text: Seq<char>) -> Option<(u64, u64, u64)> {
    let words = spec_words(spec_trim(text));
    if words.len() != 2 || words[0] != "bytes"@ {
        None
    } else {
        match split_once(words[1], '/') {
            None => None,
            Some((range, total)) => match split_once(range, '-') {
                None => None,
                Some((start, end)) => match (
                    spec_parse_u64(start),
                    spec_parse_u64(end),
                    spec_parse_u64(total),
                ) {
                    (Some(start), Some(end), Some(total)) => if start <= end < total {
                        Some((start, end, total))
                    } else {
                        None
                    },
                    _ => None,
                },
            },
        }
    }
}

/// Reads a `Content-Range` text.
pub fn parse_content_range(value: &str) -> (r: Result<(u64, u64, u64), &'static str>)
    ensures
        match r {
            Ok(range) => content_range_of(value@) == Some(range),
            Err(code) => content_range_of(value@) is None && code@
                == AcquisitionError::RangeInvalidContentRange.spec_code(),
        },
{
    match read_content_range(value) {
        Some(range) => Ok(range),
        None => Err(AcquisitionError::RangeInvalidContentRange.code()),
    }
}

fn read_content_range(value: &str) -> (r: Option<(u64, u64, u64)>)
    ensures
        r == content_range_of(value@),
{
    let chars = chars_of(value);
    let trimmed = trim(chars.as_slice());
    let parts = words(trimmed.as_slice());
    let ghost texts = word_texts(parts@);
    assert(texts.len() == parts@.len());
    if parts.len() != 2 {
        return None;
    }
    assert(texts[0] == parts@[0]@ && texts[1] == parts@[1]@);
    let unit = text_of(parts[0].as_slice());
    if !same_text(unit.as_str(), "bytes") {
        return None;
    }
    let word = &parts[1];
    let slash: usize = match find_char(word.as_slice(), '/') {
        Some(at) => at,
        None => {
            return None;
        },
    };
    let range = part_of(word.as_slice(), 0, slash);
    let total_text = part_of(word.as_slice(), slash + 1, word.len());
    assert(range@ =~= word@.take(slash as int));
    assert(total_text@ =~= word@.skip(slash + 1));
    let dash: usize = match find_char(range.as_slice(), '-') {
        Some(at) => at,
        None => {
            return None;
        },
    };
    let start_text = part_of(range.as_slice(), 0, dash);
    let end_text = part_of(range.as_slice(), dash + 1, range.len());
    assert(start_text@ =~= range@.take(dash as int));
    assert(end_text@ =~= range@.skip(dash + 1));
    match (
        parse_u64_chars(start_text.as_slice()),
        parse_u64_chars(end_text.as_slice()),
        parse_u64_chars(total_text.as_slice()),
    ) {
        (Some(start), Some(end), Some(total)) => if start > end || total == 0 || end >= total {
            None
        } else {
            Some((start, end, total))
        },
        _ => None,
    }
}

/// The media type that a `Content-Type` text tells: what stands before the first
/// semicolon, trimmed and in lower case.
pub open spec fn media_type_of(text: Seq<char>) -> Seq<char> {
    let named = match first_position(text, ';', 0) {
        Some(at) => text.take(at),
        None => text,
    };
    spec_to_ascii_lowercase(spec_trim(named))
}

/// Whether a `Content-Type` text tells audio, video or plain bytes.
pub open spec fn spec_is_media(content_type: Option<Seq<char>>) -> bool {
    match content_type {
        Some(text) => {
            let media = media_type_of(text);
            ||| spec_starts_with(media, "audio/"@)
            ||| spec_starts_with(media, "video/"@)
            ||| media == "application/octet-stream"@
            ||| media == "application/mp4"@
            ||| media == "application/ogg"@
        },
        None => false,
    }
}

/// The text of an optional string.
pub open spec fn text_or_none(string: Option<String>) -> Option<Seq<char>> {
    match string {
        Some(string) => Some(string@),
        None => None,
    }
}

/// Whether a `Content-Type` header tells audio, video or plain bytes. A header
/// that is missing, or is no text, does not.
pub fn full_body_media_type(content_type: &Option<String>) -> (r: bool)
    ensures
        r == spec_is_media(text_or_none(*content_type)),
{
    let value: &String = match content_type {
        Some(value) => value,
        None => {
            return false;
        },
    };
    let chars = chars_of(value.as_str());
    let end: usize = match find_char(chars.as_slice(), ';') {
        Some(at) => at,
        None => chars.len(),
    };
    let named = part_of(chars.as_slice(), 0, end);
    assert(named@ =~= chars@.take(end as int));
    assert(chars@.take(chars@.len() as int) =~= chars@);
    let trimmed = trim(named.as_slice());
    let plain = text_of(trimmed.as_slice());
    let media = to_ascii_lowercase(plain.as_str());
    starts_with(media.as_str(), "audio/") || starts_with(media.as_str(), "video/") || same_text(
        media.as_str(),
        "application/octet-stream",
    ) || same_text(media.as_str(), "application/mp4") || same_text(
        media.as_str(),
        "application/ogg",
    )
}

/// The length that a `Content-Length` header tells. None where it is missing or no
/// number.
pub fn full_body_length(content_length: &Option<String>) -> (r: Option<u64>)
    ensures
        r == match text_or_none(*content_length) {
            Some(text) => spec_parse_u64(text),
            None => None,
        },
{
    match content_length {
        Some(value) => parse_u64(value.as_str()),
        None => None,
    }
}

/// The SHA-256 digest of bytes.
pub uninterp spec fn sha256(bytes: Seq<u8>) -> Seq<u8>;

/// Calls `Sha256::digest`, whose 32 bytes rest on the bytes alone.
#[verifier::external_body]
fn sha256_digest(bytes: &[u8]) -> (r: Vec<u8>)
    ensures
        r@ == sha256(bytes@),
        r@.len() == 32,
{
    Sha256::digest(bytes).to_vec()
}

/// The SHA-256 digest of bytes, as hexadecimal digits.
pub fn sha256_hex(bytes: &[u8]) -> (r: String)
    ensures
        r@ == spec_hex(sha256(bytes@)),
{
    let digest = sha256_digest(bytes);
    hex(digest.as_slice())
}

/// The serialization of a URL to whose query a pair was appended; none where the
/// text is no absolute URL.
pub uninterp spec fn url_with_pair(
    text: Seq<char>,
    name: Seq<char>,
    value: Seq<char>,
) -> Option<Seq<char>>;

/// Calls `Url::parse`, `query_pairs_mut` and `append_pair`, and serializes the
/// URL; the result rests on the texts alone, and there is one just where the text
/// can be parsed. A serialization of four gigabytes would overflow, so longer
/// texts than could stay below that are left out.
#[verifier::external_body]
fn append_query_pair(text: &str, name: &str, value: &str) -> (r: Option<String>)
    requires
        text@.len() <= 0x800_0000,
        name@.len() + value@.len() <= 0x1000,
    ensures
        text_or_none(r) == url_with_pair(text@, name@, value@),
        r is Some <==> parsed_url(text@) is Ok,
{
    let mut url = Url::parse(text).ok()?;
    url.query_pairs_mut().append_pair(name, value);
    Some(url.as_str().to_owned())
}

/// Whether a character may stand in the name of a header.
pub open spec fn is_header_name_char(ch: char) -> bool {
    ||| 'a' <= ch <= 'z'
    ||| 'A' <= ch <= 'Z'
    ||| '0' <= ch <= '9'
    ||| ch == '!' || ch == '#' || ch == '$' || ch == '%' || ch == '&' || ch == '\''
    ||| ch == '*' || ch == '+' || ch == '-' || ch == '.' || ch == '^' || ch == '_'
    ||| ch == '`' || ch == '|' || ch == '~'
}

/// Whether a text is the name of a header.
pub open spec fn is_header_name(text: Seq<char>) -> bool {
    &&& 1 <= text.len() <= 65535
    &&& forall|i: int| 0 <= i < text.len() ==> is_header_name_char(#[trigger] text[i])
}

/// Whether a text can be sent as the value of a header: no control character but
/// the tab.
pub open spec fn is_header_value(text: Seq<char>) -> bool {
    forall|i: int|
        0 <= i < text.len() ==> (#[trigger] text[i]) == '\t' || (text[i] as u32 >= 32
            && text[i] as u32 != 127)
}

/// Calls `HeaderName::from_bytes`: it takes names of 1 to 65535 token characters,
/// and makes them lower case.
#[verifier::external_body]
fn header_name(text: &str) -> (r: Option<String>)
    ensures
        text_or_none(r) == if is_header_name(text@) {
            Some(spec_to_ascii_lowercase(text@))
        } else {
            None
        },
{
    HeaderName::from_bytes(text.as_bytes()).ok().map(|name| name.as_str().to_owned())
}

/// Calls `HeaderValue::from_str`: it takes every text without control characters
/// other than the tab.
#[verifier::external_body]
fn header_value_is_sendable(text: &str) -> (r: bool)
    ensures
        r == is_header_value(text@),
{
    HeaderValue::from_str(text).is_ok()
}

/// Whether a header can be sent.
pub open spec fn is_sendable(header: PreparedHeader) -> bool {
    is_header_name(header.name@) && is_header_value(header.value@)
}

/// The headers to send: names in lower case, with their values. An error where one
/// of them cannot be sent.
pub fn request_headers(headers: &Vec<PreparedHeader>) -> (r: Result<
    Vec<PreparedHeader>,
    AcquisitionError,
>)
    ensures
        match r {
            Ok(sent) => {
                &&& sent@.len() == headers@.len()
                &&& forall|i: int|
                    0 <= i < headers@.len() ==> is_sendable(#[trigger] headers@[i]) && sent@[i].name@
                        == spec_to_ascii_lowercase(headers@[i].name@) && sent@[i].value@
                        == headers@[i].value@
            },
            Err(error) => error == AcquisitionError::InvalidHeader && exists|i: int|
                0 <= i < headers@.len() && !is_sendable(#[trigger] headers@[i]),
        },
{
    let mut sent: Vec<PreparedHeader> = Vec::new();
    let mut i: usize = 0;
    while i < headers.len()
        invariant
            i <= headers@.len(),
            sent@.len() == i,
            forall|k: int|
                0 <= k < i ==> is_sendable(#[trigger] headers@[k]) && sent@[k].name@
                    == spec_to_ascii_lowercase(headers@[k].name@) && sent@[k].value@
                    == headers@[k].value@,
        decreases headers@.len() - i,
    {
        let header = &headers[i];
        let name: String = match header_name(header.name.as_str()) {
            Some(name) => name,
            None => {
                assert(!is_sendable(headers@[i as int]));
                return Err(AcquisitionError::InvalidHeader);
            },
        };
        if !header_value_is_sendable(header.value.as_str()) {
            assert(!is_sendable(headers@[i as int]));
            return Err(AcquisitionError::InvalidHeader);
        }
        sent.push(PreparedHeader { name, value: header.value.clone() });
        i += 1;
    }
    Ok(sent)
}

/// The digest of a source.
#[derive(Clone, Debug, PartialEq, Eq)]
pub struct SourceDigestReport {
    pub mode: String,
    pub sha256: String,
    pub bytes: u64,
}

/// How an acquisition ended.
#[derive(Clone, Debug, PartialEq, Eq)]
pub struct AcquisitionOutcome {
    pub ok: bool,
    pub requests: usize,
    pub digest: Option<SourceDigestReport>,
    pub error: Option<AcquisitionError>,
}

impl AcquisitionOutcome {
    /// The end of an acquisition that failed.
    pub open spec fn spec_failed(requests: usize, error: AcquisitionError) -> AcquisitionOutcome {
        AcquisitionOutcome { ok: false, requests, digest: None, error: Some(error) }
    }

    /// Whether the acquisition succeeded with these bytes.
    pub open spec fn succeeded(&self, requests: usize, content: Seq<u8>) -> bool {
        &&& self.ok
        &&& self.requests == requests
        &&& self.error is None
        &&& self.digest matches Some(digest) && digest.mode@ == "http-content"@
            && digest.sha256@ == spec_hex(sha256(content)) && digest.bytes == content.len()
    }

    fn failed(requests: usize, error: AcquisitionError) -> (r: Self)
        ensures
            r == AcquisitionOutcome::spec_failed(requests, error),
    {
        AcquisitionOutcome { ok: false, requests, digest: None, error: Some(error) }
    }

    fn of_content(requests: usize, content: &Vec<u8>) -> (r: Self)
        requires
            content@.len() <= MAX_SOURCE_BYTES,
        ensures
            r.succeeded(requests, content@),
    {
        AcquisitionOutcome {
            ok: true,
            requests,
            digest: Some(
                SourceDigestReport {
                    mode: "http-content".to_owned(),
                    sha256: sha256_hex(content.as_slice()),
                    bytes: content.len() as u64,
                },
            ),
            error: None,
        }
    }
}

/// What a response says before its body.
#[derive(Clone, Debug)]
pub struct ResponseHead {
    /// Scheme of the URL that answered, after redirects.
    pub url_scheme: String,
    pub status: u16,
    /// Length of the body, if the transport knows it.
    pub body_length: Option<u64>,
    /// The `Content-Length` header, if it is text.
    pub content_length: Option<String>,
    /// The `Content-Type` header, if it is text.
    pub content_type: Option<String>,
    pub content_range: HeaderText,
}

/// A header that may be missing or no text.
#[derive(Clone, Debug)]
pub enum HeaderText {
    Missing,
    Opaque,
    Text(String),
}

/// Which body is read.
#[derive(Clone, Copy, Debug, PartialEq, Eq, Structural)]
pub enum BodyKind {
    /// The whole source, of known length.
    Whole { expected: u64 },
    /// The whole source, in place of the range that was asked for.
    WholeForRange { length: u64 },
    /// A range of the source.
    Part { start: u64, end: u64, total: u64 },
}

/// What the head of a response leads to.
#[derive(Clone, Copy, Debug, PartialEq, Eq, Structural)]
pub enum HeadVerdict {
    /// The source cannot be had at this URL.
    Stop(AcquisitionError),
    /// The response does not count; the range may be asked for again.
    Retry(AcquisitionError),
    /// The body is to be read.
    Read(BodyKind),
}

/// What a head says of the range that was asked for.
pub open spec fn judge_part(
    offset: u64,
    requested: u64,
    total_length: Option<u64>,
    head: ResponseHead,
) -> HeadVerdict {
    match head.content_range {
        HeaderText::Missing => HeadVerdict::Retry(AcquisitionError::RangeMissingContentRange),
        HeaderText::Opaque => HeadVerdict::Retry(AcquisitionError::RangeInvalidContentRange),
        HeaderText::Text(text) => match content_range_of(text@) {
            None => HeadVerdict::Retry(AcquisitionError::RangeInvalidContentRange),
            Some((start, end, total)) => if start != offset || (total_length is Some
                && total_length->0 != total) || total > MAX_SOURCE_BYTES {
                HeadVerdict::Retry(AcquisitionError::RangeContentRangeMismatch)
            } else if head.body_length is Some && (head.body_length->0 > requested
                || head.body_length->0 > MAX_SOURCE_BYTES) {
                HeadVerdict::Retry(AcquisitionError::SourceLengthExceeded)
            } else {
                HeadVerdict::Read(BodyKind::Part { start, end, total })
            },
        },
    }
}

/// What a head says of a whole body that came in place of a range.
pub open spec fn judge_whole_for_range(
    total_length: Option<u64>,
    head: ResponseHead,
) -> HeadVerdict {
    let announced = match text_or_none(head.content_length) {
        Some(text) => spec_parse_u64(text),
        None => None,
    };
    match announced {
        None => HeadVerdict::Retry(AcquisitionError::RangeFullBodyLengthMissing),
        Some(length) => if length == 0 || length > MAX_SOURCE_BYTES {
            HeadVerdict::Retry(AcquisitionError::RangeFullBodyLengthInvalid)
        } else if total_length is Some && total_length->0 != length {
            HeadVerdict::Retry(AcquisitionError::RangeFullBodyLengthMismatch)
        } else if !spec_is_media(text_or_none(head.content_type)) {
            HeadVerdict::Retry(AcquisitionError::RangeFullBodyMediaTypeInvalid)
        } else {
            HeadVerdict::Read(BodyKind::WholeForRange { length })
        },
    }
}

/// What a head says of the whole body that was asked for.
pub open spec fn judge_whole(expected: u64, head: ResponseHead) -> HeadVerdict {
    if head.status != 200 {
        HeadVerdict::Retry(spec_http_error(head.status))
    } else if !spec_is_media(text_or_none(head.content_type)) {
        HeadVerdict::Retry(AcquisitionError::FullBodyMediaTypeInvalid)
    } else if head.body_length is Some && head.body_length->0 != expected {
        HeadVerdict::Retry(AcquisitionError::SourceLengthMismatch)
    } else {
        HeadVerdict::Read(BodyKind::Whole { expected })
    }
}

/// What the head of a response leads to. A signed URL that was refused is not made
/// valid by asking again.
pub open spec fn judge_head(
    ranged: bool,
    offset: u64,
    requested: u64,
    total_length: Option<u64>,
    head: ResponseHead,
) -> HeadVerdict {
    if head.url_scheme@ != "https"@ {
        HeadVerdict::Retry(AcquisitionError::SourceUrlNotHttps)
    } else if head.status == 401 || head.status == 403 || head.status == 410 {
        HeadVerdict::Stop(spec_http_error(head.status))
    } else if !ranged {
        match total_length {
            Some(expected) => judge_whole(expected, head),
            None => if head.status != 200 {
                HeadVerdict::Retry(spec_http_error(head.status))
            } else {
                HeadVerdict::Retry(AcquisitionError::SourceLengthUnknown)
            },
        }
    } else if head.status == 200 {
        judge_whole_for_range(total_length, head)
    } else if head.status != 206 {
        HeadVerdict::Retry(spec_http_error(head.status))
    } else {
        judge_part(offset, requested, total_length, head)
    }
}

fn verdict_on_part(
    offset: u64,
    requested: u64,
    total_length: Option<u64>,
    head: &ResponseHead,
) -> (r: HeadVerdict)
    ensures
        r == judge_part(offset, requested, total_length, *head),
{
    let text: &String = match &head.content_range {
        HeaderText::Missing => {
            return HeadVerdict::Retry(AcquisitionError::RangeMissingContentRange);
        },
        HeaderText::Opaque => {
            return HeadVerdict::Retry(AcquisitionError::RangeInvalidContentRange);
        },
        HeaderText::Text(text) => text,
    };
    let (start, end, total): (u64, u64, u64) = match read_content_range(text.as_str()) {
        Some(range) => range,
        None => {
            return HeadVerdict::Retry(AcquisitionError::RangeInvalidContentRange);
        },
    };
    let other_total: bool = match total_length {
        Some(expected) => expected != total,
        None => false,
    };
    if start != offset || other_total || total > MAX_SOURCE_BYTES {
        return HeadVerdict::Retry(AcquisitionError::RangeContentRangeMismatch);
    }
    let too_long: bool = match head.body_length {
        Some(length) => length > requested || length > MAX_SOURCE_BYTES,
        None => false,
    };
    if too_long {
        return HeadVerdict::Retry(AcquisitionError::SourceLengthExceeded);
    }
    HeadVerdict::Read(BodyKind::Part { start, end, total })
}

fn verdict_on_whole_for_range(total_length: Option<u64>, head: &ResponseHead) -> (r: HeadVerdict)
    ensures
        r == judge_whole_for_range(total_length, *head),
{
    let length: u64 = match full_body_length(&head.content_length) {
        Some(length) => length,
        None => {
            return HeadVerdict::Retry(AcquisitionError::RangeFullBodyLengthMissing);
        },
    };
    if length == 0 || length > MAX_SOURCE_BYTES {
        return HeadVerdict::Retry(AcquisitionError::RangeFullBodyLengthInvalid);
    }
    let other_length: bool = match total_length {
        Some(expected) => expected != length,
        None => false,
    };
    if other_length {
        return HeadVerdict::Retry(AcquisitionError::RangeFullBodyLengthMismatch);
    }
    if !full_body_media_type(&head.content_type) {
        return HeadVerdict::Retry(AcquisitionError::RangeFullBodyMediaTypeInvalid);
    }
    HeadVerdict::Read(BodyKind::WholeForRange { length })
}

/// Judges the head of a response.
pub fn verdict_on_head(
    ranged: bool,
    offset: u64,
    requested: u64,
    total_length: Option<u64>,
    head: &ResponseHead,
) -> (r: HeadVerdict)
    ensures
        r == judge_head(ranged, offset, requested, total_length, *head),
{
    if !same_text(head.url_scheme.as_str(), "https") {
        return HeadVerdict::Retry(AcquisitionError::SourceUrlNotHttps);
    }
    if head.status == 401 || head.status == 403 || head.status == 410 {
        return HeadVerdict::Stop(http_error(head.status));
    }
    if !ranged {
        if head.status != 200 {
            return HeadVerdict::Retry(http_error(head.status));
        }
        let expected: u64 = match total_length {
            Some(expected) => expected,
            None => {
                return HeadVerdict::Retry(AcquisitionError::SourceLengthUnknown);
            },
        };
        if !full_body_media_type(&head.content_type) {
            return HeadVerdict::Retry(AcquisitionError::FullBodyMediaTypeInvalid);
        }
        let other_length: bool = match head.body_length {
            Some(length) => length != expected,
            None => false,
        };
        if other_length {
            return HeadVerdict::Retry(AcquisitionError::SourceLengthMismatch);
        }
        return HeadVerdict::Read(BodyKind::Whole { expected });
    }
    if head.status == 200 {
        return verdict_on_whole_for_range(total_length, head);
    }
    if head.status != 206 {
        return HeadVerdict::Retry(http_error(head.status));
    }
    verdict_on_part(offset, requested, total_length, head)
}

/// Why a body does not count; none where it does.
pub open spec fn body_error(kind: BodyKind, requested: u64, length: int) -> Option<
    AcquisitionError,
> {
    match kind {
        BodyKind::Whole { expected } => if length == expected && length > 0 {
            None
        } else {
            Some(AcquisitionError::SourceLengthMismatch)
        },
        BodyKind::WholeForRange { length: announced } => if length == announced && length > 0 {
            None
        } else {
            Some(AcquisitionError::RangeFullBodyLengthMismatch)
        },
        BodyKind::Part { start, end, total } => {
            let is_last = end + 1 == total;
            if length == end - start + 1 && length <= requested && (is_last || length
                == requested) {
                None
            } else if length > MAX_SOURCE_BYTES {
                Some(AcquisitionError::SourceLengthExceeded)
            } else if !is_last && length < requested {
                Some(AcquisitionError::RangeShortNonfinal)
            } else {
                Some(AcquisitionError::RangeBodyLengthMismatch)
            }
        },
    }
}

/// Judges the length of a body.
pub fn verdict_on_body(kind: BodyKind, requested: u64, length: u64) -> (r: Option<
    AcquisitionError,
>)
    requires
        kind matches BodyKind::Part { start, end, total } ==> start <= end < total,
    ensures
        r == body_error(kind, requested, length as int),
{
    match kind {
        BodyKind::Whole { expected } => if length == expected && length > 0 {
            None
        } else {
            Some(AcquisitionError::SourceLengthMismatch)
        },
        BodyKind::WholeForRange { length: announced } => if length == announced && length > 0 {
            None
        } else {
            Some(AcquisitionError::RangeFullBodyLengthMismatch)
        },
        BodyKind::Part { start, end, total } => {
            let is_last: bool = end + 1 == total;
            if length > 0 && length - 1 == end - start && length <= requested && (is_last || length
                == requested) {
                None
            } else if length > MAX_SOURCE_BYTES {
                Some(AcquisitionError::SourceLengthExceeded)
            } else if !is_last && length < requested {
                Some(AcquisitionError::RangeShortNonfinal)
            } else {
                Some(AcquisitionError::RangeBodyLengthMismatch)
            }
        },
    }
}

/// Bytes of a body that may not grow beyond a limit.
#[derive(Clone, Debug)]
pub struct BoundedBody {
    pub bytes: Vec<u8>,
    pub limit: u64,
}

impl BoundedBody {
    pub fn new(limit: u64) -> (r: Self)
        ensures
            r.bytes@.len() == 0,
            r.limit == limit,
    {
        BoundedBody { bytes: Vec::new(), limit }
    }

    /// Appends a chunk of the body. Where it would grow beyond the limit, it stays
    /// as it is and the answer is false.
    pub fn push(&mut self, chunk: &[u8]) -> (r: bool)
        requires
            old(self).bytes@.len() <= old(self).limit,
        ensures
            r == (old(self).bytes@.len() + chunk@.len() <= old(self).limit),
            final(self).limit == old(self).limit,
            final(self).bytes@ == if r {
                old(self).bytes@ + chunk@
            } else {
                old(self).bytes@
            },
            final(self).bytes@.len() <= final(self).limit,
    {
        let room: u64 = self.limit - self.bytes.len() as u64;
        if chunk.len() as u64 > room {
            return false;
        }
        let ghost before = self.bytes@;
        let mut i: usize = 0;
        while i < chunk.len()
            invariant
                i <= chunk@.len(),
                self.bytes@ == before + chunk@.take(i as int),
                self.limit == old(self).limit,
            decreases chunk@.len() - i,
        {
            self.bytes.push(chunk[i]);
            i += 1;
        }
        assert(chunk@.take(i as int) =~= chunk@);
        true
    }
}

/// Why a body could not be read.
#[derive(Clone, Copy, Debug, PartialEq, Eq, Structural)]
pub enum BodyError {
    TimedOut,
    Failed,
    TooLong,
}

impl BodyError {
    /// The error that an unread body stands for.
    pub open spec fn spec_error(self) -> AcquisitionError {
        match self {
            BodyError::TimedOut => AcquisitionError::HashTimeout,
            BodyError::Failed => AcquisitionError::SourceBodyFailed,
            BodyError::TooLong => AcquisitionError::SourceLengthExceeded,
        }
    }

    fn error(self) -> (r: AcquisitionError)
        ensures
            r == self.spec_error(),
    {
        match self {
            BodyError::TimedOut => AcquisitionError::HashTimeout,
            BodyError::Failed => AcquisitionError::SourceBodyFailed,
            BodyError::TooLong => AcquisitionError::SourceLengthExceeded,
        }
    }
}

/// What the session waits for.
#[derive(Clone, Copy, Debug, PartialEq, Eq, Structural)]
pub enum Awaiting {
    Nothing,
    Response,
    Body(BodyKind),
}

/// What is to be done next.
#[derive(Clone, Debug)]
pub enum HashStep {
    /// Ask the session again.
    Continue,
    /// Send a request.
    Send { url: String, range_header: Option<String> },
    /// Read the body, up to the limit.
    Read { limit: u64 },
    /// The acquisition ended.
    Done(AcquisitionOutcome),
}

/// How many bytes the next request asks for.
pub open spec fn bytes_to_request(offset: u64, total_length: Option<u64>, chunk_size: u64) -> int {
    let room = MAX_SOURCE_BYTES - offset;
    let remaining = match total_length {
        Some(total) => total - offset,
        None => room,
    };
    let wanted = if remaining <= chunk_size {
        remaining
    } else {
        chunk_size as int
    };
    if wanted <= room {
        wanted
    } else {
        room
    }
}

/// Whether nothing of the source is left to be asked for.
pub open spec fn is_complete(offset: u64, total_length: Option<u64>) -> bool {
    offset >= MAX_SOURCE_BYTES || (total_length is Some && offset >= total_length->0)
}

/// The bytes of a request, as `first-last`.
pub open spec fn range_text(offset: u64, requested: int) -> Seq<char> {
    spec_decimal(offset as nat) + "-"@ + spec_decimal((offset + requested - 1) as nat)
}

/// The acquisition of one source.
#[derive(Clone, Debug)]
pub struct HashSession {
    pub stream_url: String,
    pub ranged: bool,
    pub range_mode: PreparedRangeMode,
    pub chunk_size: u64,
    /// Bytes acquired so far.
    pub offset: u64,
    pub total_length: Option<u64>,
    pub requests: usize,
    /// How often the current range may still be asked for; none without one.
    pub attempts_left: usize,
    /// Bytes of the current range.
    pub requested: u64,
    pub content: Vec<u8>,
    pub awaiting: Awaiting,
}

impl HashSession {
    /// Whether a range is being asked for.
    pub open spec fn in_range(&self) -> bool {
        self.attempts_left > 0 || self.awaiting != Awaiting::Nothing
    }

    /// Whether the session is in a state that its operations lead to.
    pub open spec fn wf(&self) -> bool {
        &&& self.stream_url@.len() <= 0x800_0000
        &&& self.offset == self.content@.len()
        &&& self.offset <= MAX_SOURCE_BYTES
        &&& self.chunk_size > 0
        &&& self.total_length matches Some(total) ==> 0 < total <= MAX_SOURCE_BYTES && self.offset
            <= total
        &&& self.total_length is None ==> self.ranged && self.offset == 0
        &&& !self.ranged ==> self.offset == 0 && self.chunk_size == self.total_length->0
        &&& self.attempts_left < HASH_REQUEST_RETRIES
        &&& self.in_range() ==> {
            &&& !is_complete(self.offset, self.total_length)
            &&& self.requested == bytes_to_request(
                self.offset,
                self.total_length,
                self.chunk_size,
            )
            &&& self.requests <= 2 * self.offset + 2 - self.attempts_left
        }
        &&& !self.in_range() ==> self.requests <= 2 * self.offset
        &&& self.awaiting matches Awaiting::Body(kind) ==> match kind {
            BodyKind::Whole { expected } => !self.ranged && self.total_length == Some(expected),
            BodyKind::WholeForRange { length } => self.ranged && 0 < length <= MAX_SOURCE_BYTES
                && (self.total_length is Some ==> self.total_length->0 == length),
            BodyKind::Part { start, end, total } => self.ranged && start == self.offset && start
                <= end < total <= MAX_SOURCE_BYTES && (self.total_length is Some
                ==> self.total_length->0 == total),
        }
    }

    /// Why a source cannot be acquired at all; none where it can be tried.
    pub open spec fn start_error(source: PreparedHttp) -> Option<AcquisitionError> {
        if source.content_length == Some(0u64) {
            Some(AcquisitionError::EmptySource)
        } else if source.content_length is Some && source.content_length->0 > MAX_SOURCE_BYTES {
            Some(AcquisitionError::SourceTooLarge)
        } else if source.range_chunk_size == Some(0u64) {
            Some(AcquisitionError::InvalidRangeChunkSize)
        } else if exists|i: int|
            0 <= i < source.headers@.len() && !is_sendable(#[trigger] source.headers@[i]) {
            Some(AcquisitionError::InvalidHeader)
        } else if source.range_chunk_size is None && source.content_length is None {
            Some(AcquisitionError::SourceLengthUnknown)
        } else {
            None
        }
    }

    /// Whether the session stands at the start of a source.
    pub open spec fn is_start_of(&self, source: PreparedHttp) -> bool {
        &&& self.stream_url@ == source.stream_url@
        &&& self.ranged == (source.range_chunk_size is Some)
        &&& self.range_mode == source.range_mode
        &&& self.chunk_size == match source.range_chunk_size {
            Some(size) => size,
            None => source.content_length->0,
        }
        &&& self.offset == 0
        &&& self.total_length == source.content_length
        &&& self.requests == 0
        &&& !self.in_range()
    }

    /// Starts the acquisition of a source, with the headers to send.
    pub fn start(source: &PreparedSource) -> (r: Result<
        (HashSession, Vec<PreparedHeader>),
        AcquisitionOutcome,
    >)
        requires
            source matches PreparedSource::Http(http) ==> http.stream_url@.len() <= 0x800_0000,
        ensures
            match *source {
                PreparedSource::Hls => r == Err::<
                    (HashSession, Vec<PreparedHeader>),
                    AcquisitionOutcome,
                >(
                    AcquisitionOutcome::spec_failed(
                        0,
                        AcquisitionError::HlsContentHashUnsupported,
                    ),
                ),
                PreparedSource::Http(http) => match r {
                    Ok((session, headers)) => HashSession::start_error(http) is None
                        && session.is_start_of(http) && session.wf() && headers@.len()
                        == http.headers@.len() && forall|i: int|
                        0 <= i < headers@.len() ==> (#[trigger] headers@[i]).name@
                            == spec_to_ascii_lowercase(http.headers@[i].name@) && headers@[i].value@
                            == http.headers@[i].value@,
                    Err(outcome) => HashSession::start_error(http) is Some && outcome
                        == AcquisitionOutcome::spec_failed(0, HashSession::start_error(http)->0),
                },
            },
    {
        let http: &PreparedHttp = match source {
            PreparedSource::Http(http) => http,
            PreparedSource::Hls => {
                return Err(
                    AcquisitionOutcome::failed(0, AcquisitionError::HlsContentHashUnsupported),
                );
            },
        };
        if let Some(length) = http.content_length {
            if length == 0 {
                return Err(AcquisitionOutcome::failed(0, AcquisitionError::EmptySource));
            }
            if length > MAX_SOURCE_BYTES {
                return Err(AcquisitionOutcome::failed(0, AcquisitionError::SourceTooLarge));
            }
        }
        if let Some(size) = http.range_chunk_size {
            if size == 0 {
                return Err(AcquisitionOutcome::failed(0, AcquisitionError::InvalidRangeChunkSize));
            }
        }
        let headers: Vec<PreparedHeader> = match request_headers(&http.headers) {
            Ok(headers) => headers,
            Err(error) => {
                return Err(AcquisitionOutcome::failed(0, error));
            },
        };
        let chunk_size: u64 = match http.range_chunk_size {
            Some(size) => size,
            None => match http.content_length {
                Some(length) => length,
                None => {
                    return Err(
                        AcquisitionOutcome::failed(0, AcquisitionError::SourceLengthUnknown),
                    );
                },
            },
        };
        let session = HashSession {
            stream_url: http.stream_url.clone(),
            ranged: http.range_chunk_size.is_some(),
            range_mode: http.range_mode,
            chunk_size,
            offset: 0,
            total_length: http.content_length,
            requests: 0,
            attempts_left: 0,
            requested: 0,
            content: Vec::new(),
            awaiting: Awaiting::Nothing,
        };
        Ok((session, headers))
    }

    /// The session after one more request was decided on.
    pub open spec fn after_request(&self, next: HashSession) -> bool {
        &&& next.stream_url == self.stream_url
        &&& next.ranged == self.ranged
        &&& next.range_mode == self.range_mode
        &&& next.chunk_size == self.chunk_size
        &&& next.offset == self.offset
        &&& next.total_length == self.total_length
        &&& next.content == self.content
        &&& next.requests == self.requests + 1
        &&& next.attempts_left == if self.attempts_left == 0 {
            HASH_REQUEST_RETRIES - 1
        } else {
            self.attempts_left - 1
        }
        &&& next.requested == bytes_to_request(self.offset, self.total_length, self.chunk_size)
    }

    /// Decides on the next request. Without one the source is complete, or the
    /// deadline has passed, or the URL cannot be asked.
    pub fn next(&mut self, deadline_passed: bool) -> (r: HashStep)
        requires
            old(self).wf(),
            old(self).awaiting == Awaiting::Nothing,
        ensures
            deadline_passed ==> r == HashStep::Done(
                AcquisitionOutcome::spec_failed(old(self).requests, AcquisitionError::HashTimeout),
            ) && *final(self) == *old(self),
            !deadline_passed && is_complete(old(self).offset, old(self).total_length) ==> (r matches
                HashStep::Done(outcome) && outcome.succeeded(
                old(self).requests,
                old(self).content@,
            )) && *final(self) == *old(self),
            !deadline_passed && !is_complete(old(self).offset, old(self).total_length) ==> {
                &&& old(self).after_request(*final(self))
                &&& match parsed_url(old(self).stream_url@) {
                    Err(_) => r == HashStep::Done(
                        AcquisitionOutcome::spec_failed(
                            final(self).requests,
                            AcquisitionError::InvalidPreparedUrl,
                        ),
                    ),
                    Ok(url) => if url.scheme != "https"@ {
                        r == HashStep::Done(
                            AcquisitionOutcome::spec_failed(
                                final(self).requests,
                                AcquisitionError::SourceUrlNotHttps,
                            ),
                        )
                    } else {
                        &&& final(self).wf()
                        &&& final(self).awaiting == Awaiting::Response
                        &&& final(self).sends(r)
                    },
                }
            },
    {
        if deadline_passed {
            return HashStep::Done(
                AcquisitionOutcome::failed(self.requests, AcquisitionError::HashTimeout),
            );
        }
        let complete: bool = self.offset >= MAX_SOURCE_BYTES || match self.total_length {
            Some(total) => self.offset >= total,
            None => false,
        };
        if complete {
            return HashStep::Done(AcquisitionOutcome::of_content(self.requests, &self.content));
        }
        if self.attempts_left == 0 {
            self.attempts_left = HASH_REQUEST_RETRIES;
        }
        self.attempts_left = self.attempts_left - 1;
        self.requests = self.requests + 1;
        let room: u64 = MAX_SOURCE_BYTES - self.offset;
        let remaining: u64 = match self.total_length {
            Some(total) => total - self.offset,
            None => room,
        };
        let wanted: u64 = if remaining <= self.chunk_size {
            remaining
        } else {
            self.chunk_size
        };
        self.requested = if wanted <= room {
            wanted
        } else {
            room
        };
        let url = match parse_url(self.stream_url.as_str()) {
            Ok(url) => url,
            Err(_) => {
                return HashStep::Done(
                    AcquisitionOutcome::failed(self.requests, AcquisitionError::InvalidPreparedUrl),
                );
            },
        };
        if !same_text(url.scheme.as_str(), "https") {
            return HashStep::Done(
                AcquisitionOutcome::failed(self.requests, AcquisitionError::SourceUrlNotHttps),
            );
        }
        let first = decimal(self.offset);
        let last = decimal(self.offset + self.requested - 1);
        let range: String = first.concat("-").concat(last.as_str());
        proof {
            crate::text::lemma_decimal_is_short(self.offset);
            crate::text::lemma_decimal_is_short((self.offset + self.requested - 1) as u64);
            reveal_strlit("-");
            reveal_strlit("range");
        }
        self.awaiting = Awaiting::Response;
        if !self.ranged {
            return HashStep::Send { url: self.stream_url.clone(), range_header: None };
        }
        match self.range_mode {
            PreparedRangeMode::Header => HashStep::Send {
                url: self.stream_url.clone(),
                range_header: Some("bytes=".to_owned().concat(range.as_str())),
            },
            PreparedRangeMode::QueryParam => match append_query_pair(
                self.stream_url.as_str(),
                "range",
                range.as_str(),
            ) {
                Some(url) => HashStep::Send { url, range_header: None },
                None => HashStep::Send { url: self.stream_url.clone(), range_header: None },
            },
        }
    }

    /// Whether a step sends the request for the current range.
    pub open spec fn sends(&self, step: HashStep) -> bool {
        let range = range_text(self.offset, self.requested as int);
        match step {
            HashStep::Send { url, range_header } => if !self.ranged {
                url@ == self.stream_url@ && range_header is None
            } else {
                match self.range_mode {
                    PreparedRangeMode::Header => url@ == self.stream_url@ && text_or_none(
                        range_header,
                    ) == Some("bytes="@ + range),
                    PreparedRangeMode::QueryParam => Some(url@) == url_with_pair(
                        self.stream_url@,
                        "range"@,
                        range,
                    ) && range_header is None,
                }
            },
            _ => false,
        }
    }

    /// The session with nothing awaited, otherwise as it is.
    pub open spec fn idle(&self) -> HashSession {
        HashSession { awaiting: Awaiting::Nothing, ..*self }
    }

    /// What follows when an answer does not count: another attempt, or the end
    /// after the last one.
    pub open spec fn after_failure(&self, error: AcquisitionError) -> HashStep {
        if self.attempts_left == 0 {
            HashStep::Done(AcquisitionOutcome::spec_failed(self.requests, error))
        } else {
            HashStep::Continue
        }
    }

    fn retry(&mut self, error: AcquisitionError) -> (r: HashStep)
        requires
            old(self).wf(),
            old(self).in_range(),
        ensures
            *final(self) == old(self).idle(),
            r == old(self).after_failure(error),
            r is Continue ==> final(self).wf(),
    {
        self.awaiting = Awaiting::Nothing;
        if self.attempts_left == 0 {
            HashStep::Done(AcquisitionOutcome::failed(self.requests, error))
        } else {
            HashStep::Continue
        }
    }

    /// A request that brought no response: the deadline passed, or it could not be
    /// sent.
    pub fn on_no_response(&mut self, deadline_passed: bool) -> (r: HashStep)
        requires
            old(self).wf(),
            old(self).awaiting == Awaiting::Response,
        ensures
            *final(self) == old(self).idle(),
            r == if deadline_passed {
                HashStep::Done(
                    AcquisitionOutcome::spec_failed(
                        old(self).requests,
                        AcquisitionError::HashTimeout,
                    ),
                )
            } else {
                old(self).after_failure(AcquisitionError::SourceRequestFailed)
            },
            r is Continue ==> final(self).wf(),
    {
        if deadline_passed {
            self.awaiting = Awaiting::Nothing;
            return HashStep::Done(
                AcquisitionOutcome::failed(self.requests, AcquisitionError::HashTimeout),
            );
        }
        self.retry(AcquisitionError::SourceRequestFailed)
    }

    /// The head of a response.
    pub fn on_response(&mut self, head: &ResponseHead) -> (r: HashStep)
        requires
            old(self).wf(),
            old(self).awaiting == Awaiting::Response,
        ensures
            match judge_head(
                old(self).ranged,
                old(self).offset,
                old(self).requested,
                old(self).total_length,
                *head,
            ) {
                HeadVerdict::Stop(error) => *final(self) == old(self).idle() && r == HashStep::Done(
                    AcquisitionOutcome::spec_failed(old(self).requests, error),
                ),
                HeadVerdict::Retry(error) => *final(self) == old(self).idle() && r == old(
                    self,
                ).after_failure(error),
                HeadVerdict::Read(kind) => *final(self) == (HashSession {
                    awaiting: Awaiting::Body(kind),
                    ..*old(self)
                }) && r == HashStep::Read {
                    limit: match kind {
                        BodyKind::Whole { expected } => expected,
                        BodyKind::WholeForRange { length } => length,
                        BodyKind::Part { .. } => old(self).requested,
                    },
                },
            },
            r is Continue || r is Read ==> final(self).wf(),
    {
        match verdict_on_head(self.ranged, self.offset, self.requested, self.total_length, head) {
            HeadVerdict::Stop(error) => {
                self.awaiting = Awaiting::Nothing;
                HashStep::Done(AcquisitionOutcome::failed(self.requests, error))
            },
            HeadVerdict::Retry(error) => self.retry(error),
            HeadVerdict::Read(kind) => {
                self.awaiting = Awaiting::Body(kind);
                let limit: u64 = match kind {
                    BodyKind::Whole { expected } => expected,
                    BodyKind::WholeForRange { length } => length,
                    BodyKind::Part { .. } => self.requested,
                };
                HashStep::Read { limit }
            },
        }
    }

    /// The body of a response, or why it could not be read.
    ///
    /// A whole body that came in place of a range stands for the source by itself:
    /// it is never appended to ranges that came before it.
    pub fn on_body(&mut self, body: Result<Vec<u8>, BodyError>) -> (r: HashStep)
        requires
            old(self).wf(),
            old(self).awaiting is Body,
            body matches Ok(bytes) ==> bytes@.len() <= u64::MAX,
        ensures
            match body {
                Err(error) => *final(self) == old(self).idle() && r == old(self).after_failure(
                    error.spec_error(),
                ),
                Ok(bytes) => match body_error(
                    old(self).awaiting->Body_0,
                    old(self).requested,
                    bytes@.len() as int,
                ) {
                    Some(error) => *final(self) == old(self).idle() && r == old(
                        self,
                    ).after_failure(error),
                    None => match old(self).awaiting->Body_0 {
                        BodyKind::Whole { .. } | BodyKind::WholeForRange { .. } => r matches
                            HashStep::Done(outcome) && outcome.succeeded(
                            old(self).requests,
                            bytes@,
                        ),
                        BodyKind::Part { total, .. } => {
                            &&& r is Continue
                            &&& final(self).content@ == old(self).content@ + bytes@
                            &&& final(self).offset == old(self).offset + bytes@.len()
                            &&& final(self).total_length == Some(total)
                            &&& *final(self) == (HashSession {
                                content: final(self).content,
                                offset: final(self).offset,
                                total_length: Some(total),
                                attempts_left: 0,
                                ..old(self).idle()
                            })
                        },
                    },
                },
            },
            r is Continue ==> final(self).wf(),
    {
        let kind: BodyKind = match self.awaiting {
            Awaiting::Body(kind) => kind,
            _ => BodyKind::Whole { expected: 0 },
        };
        let bytes: Vec<u8> = match body {
            Ok(bytes) => bytes,
            Err(error) => {
                return self.retry(error.error());
            },
        };
        let length: u64 = bytes.len() as u64;
        if let Some(error) = verdict_on_body(kind, self.requested, length) {
            return self.retry(error);
        }
        match kind {
            BodyKind::Part { total, .. } => {
                append_bytes(&mut self.content, &bytes);
                self.offset = self.offset + length;
                self.total_length = Some(total);
                self.attempts_left = 0;
                self.awaiting = Awaiting::Nothing;
                HashStep::Continue
            },
            _ => {
                self.awaiting = Awaiting::Nothing;
                HashStep::Done(AcquisitionOutcome::of_content(self.requests, &bytes))
            },
        }
    }
}

fn append_bytes(content: &mut Vec<u8>, bytes: &Vec<u8>)
    ensures
        final(content)@ == old(content)@ + bytes@,
{
    let ghost before = content@;
    let mut i: usize = 0;
    while i < bytes.len()
        invariant
            i <= bytes@.len(),
            content@ == before + bytes@.take(i as int),
        decreases bytes@.len() - i,
    {
        content.push(bytes[i]);
        i += 1;
    }
    assert(bytes@.take(i as int) =~= bytes@);
}

/// A complete acquisition holds as many bytes as the source was announced to have.
pub proof fn complete_content_has_the_announced_length(session: HashSession)
    requires
        session.wf(),
        is_complete(session.offset, session.total_length),
    ensures
        session.total_length == Some(session.offset),
        session.content@.len() == session.offset,
{
}

/// An acquisition asks at most twice for each byte that it holds, and twice more.
pub proof fn requests_are_bounded(session: HashSession)
    requires
        session.wf(),
    ensures
        session.requests <= 2 * session.content@.len() + 2 <= 2 * MAX_SOURCE_BYTES + 2,
{
}

/// A URL that was refused as unauthorized, forbidden or gone is not asked again,
/// and the error is one against which a fresh resolution may help.
pub proof fn refused_urls_are_not_asked_again(
    ranged: bool,
    offset: u64,
    requested: u64,
    total_length: Option<u64>,
    head: ResponseHead,
)
    requires
        head.url_scheme@ == "https"@,
        head.status == 401 || head.status == 403 || head.status == 410,
    ensures
        judge_head(ranged, offset, requested, total_length, head) == HeadVerdict::Stop(
            spec_http_error(head.status),
        ),
        spec_retryable(spec_http_error(head.status).spec_code()),
{
}

/// A range counts only where it stands right behind the bytes acquired before it,
/// is as long as it says, and is as long as was asked for unless it is the last.
pub proof fn accepted_ranges_are_contiguous(
    offset: u64,
    requested: u64,
    total_length: Option<u64>,
    head: ResponseHead,
    kind: BodyKind,
    length: int,
)
    requires
        judge_part(offset, requested, total_length, head) == HeadVerdict::Read(kind),
        body_error(kind, requested, length) is None,
    ensures
        kind matches BodyKind::Part { start, end, total } && start == offset && offset + length
            == end + 1 && offset + length <= total <= MAX_SOURCE_BYTES && (offset + length == total
            || length == requested) && (total_length is Some ==> total_length->0 == total),
{
}

/// Each error is reported under a code of its own.
pub proof fn errors_have_their_codes()
    ensures
        AcquisitionError::EmptySource.spec_code() == "empty_source"@,
        AcquisitionError::SourceTooLarge.spec_code() == "source_too_large"@,
        AcquisitionError::HlsContentHashUnsupported.spec_code() == "hls_content_hash_unsupported"@,
        AcquisitionError::InvalidRangeChunkSize.spec_code() == "invalid_range_chunk_size"@,
        AcquisitionError::InvalidHeader.spec_code() == "invalid_header"@,
        AcquisitionError::SourceLengthUnknown.spec_code() == "source_length_unknown"@,
        AcquisitionError::HashTimeout.spec_code() == "hash_timeout"@,
        AcquisitionError::SourceRequestFailed.spec_code() == "source_request_failed"@,
        AcquisitionError::SourceBodyFailed.spec_code() == "source_body_failed"@,
        AcquisitionError::InvalidPreparedUrl.spec_code() == "invalid_prepared_url"@,
        AcquisitionError::SourceUrlNotHttps.spec_code() == "source_url_not_https"@,
        AcquisitionError::Http401.spec_code() == "http_401"@,
        AcquisitionError::Http403.spec_code() == "http_403"@,
        AcquisitionError::Http404.spec_code() == "http_404"@,
        AcquisitionError::Http410.spec_code() == "http_410"@,
        AcquisitionError::Http429.spec_code() == "http_429"@,
        AcquisitionError::Http5xx.spec_code() == "http_5xx"@,
        AcquisitionError::HttpError.spec_code() == "http_error"@,
        AcquisitionError::FullBodyMediaTypeInvalid.spec_code() == "full_body_media_type_invalid"@,
        AcquisitionError::SourceLengthMismatch.spec_code() == "source_length_mismatch"@,
        AcquisitionError::SourceLengthExceeded.spec_code() == "source_length_exceeded"@,
        AcquisitionError::RangeFullBodyLengthMissing.spec_code() == "range_full_body_length_missing"@,
        AcquisitionError::RangeFullBodyLengthInvalid.spec_code() == "range_full_body_length_invalid"@,
        AcquisitionError::RangeFullBodyLengthMismatch.spec_code() == "range_full_body_length_mismatch"@,
        AcquisitionError::RangeFullBodyMediaTypeInvalid.spec_code() == "range_full_body_media_type_invalid"@,
        AcquisitionError::RangeMissingContentRange.spec_code() == "range_missing_content_range"@,
        AcquisitionError::RangeInvalidContentRange.spec_code() == "range_invalid_content_range"@,
        AcquisitionError::RangeContentRangeMismatch.spec_code() == "range_content_range_mismatch"@,
        AcquisitionError::RangeBodyLengthMismatch.spec_code() == "range_body_length_mismatch"@,
        AcquisitionError::RangeShortNonfinal.spec_code() == "range_short_nonfinal"@,
{
}

/// Another cycle is worth it after a refusal that a fresh address may lift, a broken
/// transfer, or a range or length that did not fit what was announced; every other error
/// is final.
pub proof fn only_passing_errors_are_tried_again(error: AcquisitionError)
    ensures
        spec_retryable(error.spec_code()) == match error {
            AcquisitionError::EmptySource => false,
            AcquisitionError::SourceTooLarge => false,
            AcquisitionError::HlsContentHashUnsupported => false,
            AcquisitionError::InvalidRangeChunkSize => false,
            AcquisitionError::InvalidHeader => false,
            AcquisitionError::SourceLengthUnknown => false,
            AcquisitionError::HashTimeout => true,
            AcquisitionError::SourceRequestFailed => true,
            AcquisitionError::SourceBodyFailed => true,
            AcquisitionError::InvalidPreparedUrl => false,
            AcquisitionError::SourceUrlNotHttps => false,
            AcquisitionError::Http401 => true,
            AcquisitionError::Http403 => true,
            AcquisitionError::Http404 => false,
            AcquisitionError::Http410 => true,
            AcquisitionError::Http429 => false,
            AcquisitionError::Http5xx => false,
            AcquisitionError::HttpError => false,
            AcquisitionError::FullBodyMediaTypeInvalid => false,
            AcquisitionError::SourceLengthMismatch => true,
            AcquisitionError::SourceLengthExceeded => false,
            AcquisitionError::RangeFullBodyLengthMissing => true,
            AcquisitionError::RangeFullBodyLengthInvalid => true,
            AcquisitionError::RangeFullBodyLengthMismatch => true,
            AcquisitionError::RangeFullBodyMediaTypeInvalid => false,
            AcquisitionError::RangeMissingContentRange => true,
            AcquisitionError::RangeInvalidContentRange => true,
            AcquisitionError::RangeContentRangeMismatch => true,
            AcquisitionError::RangeBodyLengthMismatch => true,
            AcquisitionError::RangeShortNonfinal => true,
        },
{
    reveal_strlit("empty_source");
    assert("empty_source"@.len() == 12);
    reveal_strlit("full_body_media_type_invalid");
    assert("full_body_media_type_invalid"@.len() == 28);
    reveal_strlit("hash_timeout");
    assert("hash_timeout"@.len() == 12);
    reveal_strlit("hls_content_hash_unsupported");
    assert("hls_content_hash_unsupported"@.len() == 28);
    reveal_strlit("http_401");
    assert("http_401"@.len() == 8);
    reveal_strlit("http_403");
    assert("http_403"@.len() == 8);
    reveal_strlit("http_404");
    assert("http_404"@.len() == 8);
    reveal_strlit("http_410");
    assert("http_410"@.len() == 8);
    reveal_strlit("http_429");
    assert("http_429"@.len() == 8);
    reveal_strlit("http_5xx");
    assert("http_5xx"@.len() == 8);
    reveal_strlit("http_error");
    assert("http_error"@.len() == 10);
    reveal_strlit("invalid_header");
    assert("invalid_header"@.len() == 14);
    reveal_strlit("invalid_prepared_url");
    assert("invalid_prepared_url"@.len() == 20);
    reveal_strlit("invalid_range_chunk_size");
    assert("invalid_range_chunk_size"@.len() == 24);
    reveal_strlit("range_body_length_mismatch");
    assert("range_body_length_mismatch"@.len() == 26);
    reveal_strlit("range_content_range_mismatch");
    assert("range_content_range_mismatch"@.len() == 28);
    reveal_strlit("range_full_body_length_invalid");
    assert("range_full_body_length_invalid"@.len() == 30);
    reveal_strlit("range_full_body_length_mismatch");
    assert("range_full_body_length_mismatch"@.len() == 31);
    reveal_strlit("range_full_body_length_missing");
    assert("range_full_body_length_missing"@.len() == 30);
    reveal_strlit("range_full_body_media_type_invalid");
    assert("range_full_body_media_type_invalid"@.len() == 34);
    reveal_strlit("range_invalid_content_range");
    assert("range_invalid_content_range"@.len() == 27);
    reveal_strlit("range_missing_content_range");
    assert("range_missing_content_range"@.len() == 27);
    reveal_strlit("range_requires_206");
    assert("range_requires_206"@.len() == 18);
    reveal_strlit("range_short_nonfinal");
    assert("range_short_nonfinal"@.len() == 20);
    reveal_strlit("source_body_failed");
    assert("source_body_failed"@.len() == 18);
    reveal_strlit("source_length_exceeded");
    assert("source_length_exceeded"@.len() == 22);
    reveal_strlit("source_length_mismatch");
    assert("source_length_mismatch"@.len() == 22);
    reveal_strlit("source_length_unknown");
    assert("source_length_unknown"@.len() == 21);
    reveal_strlit("source_request_failed");
    assert("source_request_failed"@.len() == 21);
    reveal_strlit("source_too_large");
    assert("source_too_large"@.len() == 16);
    reveal_strlit("source_url_not_https");
    assert("source_url_not_https"@.len() == 20);
    assert("empty_source"@[0] != "hash_timeout"@[0]);
    assert("hls_content_hash_unsupported"@[0] != "range_content_range_mismatch"@[0]);
    assert("source_length_unknown"@[7] != "source_request_failed"@[7]);
    assert("invalid_prepared_url"@[0] != "range_short_nonfinal"@[0]);
    assert("source_url_not_https"@[0] != "range_short_nonfinal"@[0]);
    assert("http_404"@[7] != "http_401"@[7]);
    assert("http_404"@[7] != "http_403"@[7]);
    assert("http_404"@[6] != "http_410"@[6]);
    assert("http_429"@[6] != "http_401"@[6]);
    assert("http_429"@[6] != "http_403"@[6]);
    assert("http_429"@[6] != "http_410"@[6]);
    assert("http_5xx"@[5] != "http_401"@[5]);
    assert("http_5xx"@[5] != "http_403"@[5]);
    assert("http_5xx"@[5] != "http_410"@[5]);
    assert("full_body_media_type_invalid"@[0] != "range_content_range_mismatch"@[0]);
    assert("source_length_exceeded"@[14] != "source_length_mismatch"@[14]);
}

/// A status has the error of its number, one from 500 to 599 that of its class, and any
/// other the general one.
pub proof fn statuses_have_their_errors(status: u16)
    ensures
        spec_http_error(401) == AcquisitionError::Http401,
        spec_http_error(403) == AcquisitionError::Http403,
        spec_http_error(404) == AcquisitionError::Http404,
        spec_http_error(410) == AcquisitionError::Http410,
        spec_http_error(429) == AcquisitionError::Http429,
        500 <= status <= 599 ==> spec_http_error(status) == AcquisitionError::Http5xx,
        status < 500 && status != 401 && status != 403 && status != 404 && status != 410 && status
            != 429 || status > 599 ==> spec_http_error(status) == AcquisitionError::HttpError,
{
}

/// A text is split at the first occurrence of a character: what comes before has none of
/// it, and both parts around it are the text again.
pub proof fn texts_are_split_at_the_first_occurrence(text: Seq<char>, ch: char)
    ensures
        match split_once(text, ch) {
            Some((before, after)) => before.push(ch) + after == text && !before.contains(ch),
            None => !text.contains(ch),
        },
{
    first_positions_come_first(text, ch, 0);
    if let Some(at) = first_position(text, ch, 0) {
        let before = text.take(at);
        let after = text.skip(at + 1);
        assert(before.push(ch) + after =~= text);
        if before.contains(ch) {
            let k = choose|k: int| 0 <= k < before.len() && before[k] == ch;
            assert(text[k] == ch);
        }
    } else if text.contains(ch) {
        let k = choose|k: int| 0 <= k < text.len() && text[k] == ch;
        assert(text[k] != ch);
    }
}

/// A range that was read has its ends in order and lies within its total.
pub proof fn ranges_lie_within_their_total(text: Seq<char>)
    ensures
        content_range_of(text) matches Some((start, end, total)) ==> start <= end && end < total,
{
}

/// A media type is judged without its parameters and without regard to case; audio, video
/// and three types of applications are media, and a response without a type is not.
pub proof fn media_types_are_judged_without_parameters(text: Seq<char>, parameters: Seq<char>)
    requires
        !text.contains(';'),
    ensures
        media_type_of(text.push(';') + parameters) == media_type_of(text),
        spec_is_media(Some(text.push(';') + parameters)) == spec_is_media(Some(text)),
        !spec_is_media(None),
        spec_is_media(Some(text)) <==> {
            let media = media_type_of(text);
            ||| spec_starts_with(media, "audio/"@)
            ||| spec_starts_with(media, "video/"@)
            ||| media == "application/octet-stream"@
            ||| media == "application/mp4"@
            ||| media == "application/ogg"@
        },
{
    let whole = text.push(';') + parameters;
    first_positions_come_first(text, ';', 0);
    first_positions_come_first(whole, ';', 0);
    assert(first_position(text, ';', 0) is None) by {
        if let Some(at) = first_position(text, ';', 0) {
            assert(text[at] == ';');
        }
    }
    assert(whole[text.len() as int] == ';');
    match first_position(whole, ';', 0) {
        Some(at) => {
            if at < text.len() {
                assert(text[at] == ';');
            }
            assert(whole.take(at) =~= text);
        },
        None => {},
    }
}

/// No header name holds a control character, a space, a separator or anything beyond
/// ASCII, and no header value a control character other than a tab.
pub proof fn headers_hold_no_control_characters(header: PreparedHeader, i: int)
    requires
        is_sendable(header),
    ensures
        0 < header.name@.len() <= 65535,
        0 <= i < header.name@.len() ==> {
            let ch = header.name@[i];
            &&& 0x20 < ch as u32 && (ch as u32) < 0x7F
            &&& ch != '(' && ch != ')' && ch != '<' && ch != '>' && ch != '@'
            &&& ch != ',' && ch != ';' && ch != ':' && ch != '\\' && ch != '"'
            &&& ch != '/' && ch != '[' && ch != ']' && ch != '?' && ch != '='
            &&& ch != '{' && ch != '}'
        },
        0 <= i < header.value@.len() ==> {
            let ch = header.value@[i];
            ch == '\t' || 0x20 <= ch as u32 && ch as u32 != 0x7F
        },
{
}

/// A part is read only where its range starts at the offset, its total agrees with what is
/// known and is at most 64 MiB, and its body is no longer than what was asked for; each
/// other head is told apart by its error.
pub proof fn parts_are_read_where_they_fit(
    offset: u64,
    requested: u64,
    total_length: Option<u64>,
    head: ResponseHead,
)
    ensures
        ({
            let verdict = judge_part(offset, requested, total_length, head);
            let range = match head.content_range {
                HeaderText::Text(text) => content_range_of(text@),
                _ => None,
            };
            let fits = range is Some && (range->0).0 == offset && (total_length is Some
                ==> total_length->0 == (range->0).2) && (range->0).2 <= 67_108_864;
            let long = head.body_length is Some && (head.body_length->0 > requested
                || head.body_length->0 > 67_108_864);
            &&& head.content_range is Missing <==> verdict == HeadVerdict::Retry(
                AcquisitionError::RangeMissingContentRange,
            )
            &&& !(head.content_range is Missing) && range is None <==> verdict
                == HeadVerdict::Retry(AcquisitionError::RangeInvalidContentRange)
            &&& range is Some && !fits <==> verdict == HeadVerdict::Retry(
                AcquisitionError::RangeContentRangeMismatch,
            )
            &&& fits && long <==> verdict == HeadVerdict::Retry(
                AcquisitionError::SourceLengthExceeded,
            )
            &&& fits && !long ==> verdict == HeadVerdict::Read(
                BodyKind::Part { start: (range->0).0, end: (range->0).1, total: (range->0).2 },
            )
        }),
{
}

/// A whole body in answer to a range is read only where its announced length is positive,
/// at most 64 MiB and the one that is known, and it is media.
pub proof fn whole_answers_to_ranges_are_read_where_they_fit(
    total_length: Option<u64>,
    head: ResponseHead,
)
    ensures
        ({
            let verdict = judge_whole_for_range(total_length, head);
            let announced = match head.content_length {
                Some(text) => spec_parse_u64(text@),
                None => None,
            };
            let media = head.content_type matches Some(text) && spec_is_media(Some(text@));
            let known = total_length is Some && announced is Some && total_length->0
                != announced->0;
            let sized = announced is Some && 0 < announced->0 <= 67_108_864;
            &&& announced is None <==> verdict == HeadVerdict::Retry(
                AcquisitionError::RangeFullBodyLengthMissing,
            )
            &&& announced is Some && !sized <==> verdict == HeadVerdict::Retry(
                AcquisitionError::RangeFullBodyLengthInvalid,
            )
            &&& sized && known <==> verdict == HeadVerdict::Retry(
                AcquisitionError::RangeFullBodyLengthMismatch,
            )
            &&& sized && !known && !media <==> verdict == HeadVerdict::Retry(
                AcquisitionError::RangeFullBodyMediaTypeInvalid,
            )
            &&& sized && !known && media ==> verdict == HeadVerdict::Read(
                BodyKind::WholeForRange { length: announced->0 },
            )
        }),
{
}

/// Only a secure address is read from, and a refusal ends the session at once. Without
/// ranges a body is read with status 200, as media, with the length that is known, and with
/// ranges from status 206 as a part or from 200 as a whole.
pub proof fn heads_are_judged_by_status_and_kind(
    ranged: bool,
    offset: u64,
    requested: u64,
    total_length: Option<u64>,
    head: ResponseHead,
)
    ensures
        ({
            let verdict = judge_head(ranged, offset, requested, total_length, head);
            let secure = head.url_scheme@ == "https"@;
            let refused = head.status == 401 || head.status == 403 || head.status == 410;
            let media = head.content_type matches Some(text) && spec_is_media(Some(text@));
            &&& !secure ==> verdict == HeadVerdict::Retry(AcquisitionError::SourceUrlNotHttps)
            &&& secure && refused ==> verdict == HeadVerdict::Stop(spec_http_error(head.status))
            &&& verdict is Stop ==> secure && refused
            &&& secure && !refused && !ranged && head.status != 200 ==> verdict
                == HeadVerdict::Retry(spec_http_error(head.status))
            &&& secure && !ranged && head.status == 200 && total_length is None ==> verdict
                == HeadVerdict::Retry(AcquisitionError::SourceLengthUnknown)
            &&& secure && !ranged && head.status == 200 && total_length is Some && !media
                ==> verdict == HeadVerdict::Retry(AcquisitionError::FullBodyMediaTypeInvalid)
            &&& secure && !ranged && head.status == 200 && total_length is Some && media ==> {
                let other = head.body_length is Some && head.body_length->0 != total_length->0;
                &&& other ==> verdict == HeadVerdict::Retry(AcquisitionError::SourceLengthMismatch)
                &&& !other ==> verdict == HeadVerdict::Read(
                    BodyKind::Whole { expected: total_length->0 },
                )
            }
            &&& secure && !refused && ranged && head.status != 200 && head.status != 206
                ==> verdict == HeadVerdict::Retry(spec_http_error(head.status))
            &&& secure && ranged && head.status == 200 ==> verdict == judge_whole_for_range(
                total_length,
                head,
            )
            &&& secure && ranged && head.status == 206 ==> verdict == judge_part(
                offset,
                requested,
                total_length,
                head,
            )
        }),
{
}

/// A body has the length that was announced, and at least one byte; a part ends with its
/// range and, unless it is the last, is as long as what was asked for.
pub proof fn bodies_have_the_announced_length(
    expected: u64,
    start: u64,
    end: u64,
    total: u64,
    requested: u64,
    length: nat,
)
    requires
        start <= end,
        end < total,
    ensures
        body_error(BodyKind::Whole { expected }, requested, length as int) is None <==> length
            == expected && length > 0,
        body_error(BodyKind::Whole { expected }, requested, length as int) is Some ==> body_error(
            BodyKind::Whole { expected },
            requested,
            length as int,
        ) == Some(AcquisitionError::SourceLengthMismatch),
        body_error(BodyKind::WholeForRange { length: expected }, requested, length as int) is None
            <==> length == expected && length > 0,
        body_error(BodyKind::WholeForRange { length: expected }, requested, length as int)
            is Some ==> body_error(
            BodyKind::WholeForRange { length: expected },
            requested,
            length as int,
        ) == Some(AcquisitionError::RangeFullBodyLengthMismatch),
        ({
            let error = body_error(BodyKind::Part { start, end, total }, requested, length as int);
            let last = end + 1 == total;
            let fits = start + length == end + 1 && length <= requested && (last || length
                == requested);
            &&& error is None <==> fits
            &&& !fits && length > 67_108_864 ==> error == Some(
                AcquisitionError::SourceLengthExceeded,
            )
            &&& !fits && length <= 67_108_864 && !last && length < requested ==> error == Some(
                AcquisitionError::RangeShortNonfinal,
            )
            &&& !fits && length <= 67_108_864 && (last || length >= requested) ==> error == Some(
                AcquisitionError::RangeBodyLengthMismatch,
            )
        }),
{
}

/// What is asked for is the most that the chunk, the rest of the source and the 64 MiB
/// leave.
pub proof fn requests_ask_for_the_most_allowed(
    offset: u64,
    total_length: Option<u64>,
    chunk_size: u64,
    other: int,
)
    requires
        offset <= 67_108_864,
    ensures
        ({
            let asked = bytes_to_request(offset, total_length, chunk_size);
            &&& asked <= chunk_size
            &&& offset + asked <= 67_108_864
            &&& total_length matches Some(total) ==> offset + asked <= total
            &&& other <= chunk_size && offset + other <= 67_108_864 && (total_length is None
                || offset + other <= total_length->0) ==> other <= asked
            &&& is_complete(offset, total_length) <==> offset >= 67_108_864 || total_length is Some
                && offset >= total_length->0
        }),
{
}

/// A failed attempt ends the session with its error where no other is left, and goes on
/// otherwise; a session that failed has no digest and says how many requests it took.
pub proof fn failures_end_with_the_last_attempt(session: HashSession, error: AcquisitionError)
    ensures
        session.attempts_left > 0 ==> session.after_failure(error) == HashStep::Continue,
        session.attempts_left == 0 ==> {
            &&& session.after_failure(error) matches HashStep::Done(outcome)
            &&& !outcome.ok
            &&& outcome.requests == session.requests
            &&& outcome.digest is None
            &&& outcome.error == Some(error)
        },
{
}

/// A body that could not be read is told as a timeout, a failure or a length exceeded.
pub proof fn body_faults_have_their_errors()
    ensures
        BodyError::TimedOut.spec_error() == AcquisitionError::HashTimeout,
        BodyError::Failed.spec_error() == AcquisitionError::SourceBodyFailed,
        BodyError::TooLong.spec_error() == AcquisitionError::SourceLengthExceeded,
{
}

/// A source is refused for the first of these: it is empty, larger than 64 MiB, asked for
/// in chunks of nothing, has a header that cannot be sent, or neither ranges nor a length.
pub proof fn sources_are_refused_for_the_first_fault(source: PreparedHttp)
    ensures
        ({
            let error = HashSession::start_error(source);
            let length = source.content_length;
            let empty = length == Some(0u64);
            let large = length is Some && length->0 > 67_108_864;
            let chunkless = source.range_chunk_size == Some(0u64);
            let sendable = forall|i: int|
                0 <= i < source.headers@.len() ==> is_sendable(#[trigger] source.headers@[i]);
            let endless = source.range_chunk_size is None && length is None;
            &&& error == Some(AcquisitionError::EmptySource) <==> empty
            &&& error == Some(AcquisitionError::SourceTooLarge) <==> large
            &&& error == Some(AcquisitionError::InvalidRangeChunkSize) <==> !empty && !large
                && chunkless
            &&& error == Some(AcquisitionError::InvalidHeader) <==> !empty && !large && !chunkless
                && !sendable
            &&& error == Some(AcquisitionError::SourceLengthUnknown) <==> !chunkless && sendable
                && endless
            &&& error is None <==> !empty && !large && !chunkless && sendable && !endless
        }),
{
}

/// A ranged request names the bytes from the offset on, as many as are asked for, in a
/// header or in the address; any other names none.
pub proof fn ranged_requests_name_their_bytes(session: HashSession, step: HashStep)
    requires
        session.sends(step),
        session.requested > 0,
    ensures
        step matches HashStep::Send { url, range_header } && {
            let bytes = spec_decimal(session.offset as nat) + "-"@ + spec_decimal(
                (session.offset + session.requested - 1) as nat,
            );
            &&& !session.ranged ==> url@ == session.stream_url@ && range_header is None
            &&& session.ranged && session.range_mode == PreparedRangeMode::Header ==> url@
                == session.stream_url@ && range_header is Some && range_header->0@ == "bytes="@
                + bytes
            &&& session.ranged && session.range_mode == PreparedRangeMode::QueryParam
                ==> range_header is None && url_with_pair(session.stream_url@, "range"@, bytes)
                == Some(url@)
        },
{
}

/// A request counts once, leaves one more attempt after the first of a range and none after
/// the second, and changes nothing that was read.
pub proof fn requests_count_their_attempts(session: HashSession, next: HashSession)
    requires
        session.after_request(next),
    ensures
        next.requests == session.requests + 1,
        session.attempts_left == 0 ==> next.attempts_left == 1,
        session.attempts_left > 0 ==> next.attempts_left + 1 == session.attempts_left,
        next.offset == session.offset && next.content == session.content,
        next.total_length == session.total_length && next.chunk_size == session.chunk_size,
        next.stream_url == session.stream_url && next.ranged == session.ranged,
{
}

/// A success tells the requests it took and the digest of the whole content, with its
/// length; a session starts at the first byte with the length and chunk of its source.
pub proof fn successes_tell_the_whole_content(
    outcome: AcquisitionOutcome,
    requests: usize,
    content: Seq<u8>,
    session: HashSession,
    source: PreparedHttp,
)
    ensures
        outcome.succeeded(requests, content) ==> {
            &&& outcome.ok && outcome.error is None && outcome.requests == requests
            &&& outcome.digest matches Some(digest)
            &&& digest.bytes == content.len()
            &&& digest.sha256@ == spec_hex(sha256(content))
            &&& digest.mode@ == "http-content"@
        },
        session.is_start_of(source) ==> {
            &&& session.offset == 0 && session.requests == 0
            &&& session.total_length == source.content_length
            &&& source.range_chunk_size matches Some(size) ==> session.ranged
                && session.chunk_size == size
            &&& source.range_chunk_size is None ==> !session.ranged
            &&& source.range_chunk_size is None && source.content_length is Some ==> Some(
                session.chunk_size,
            ) == source.content_length
        },
{
}

/// A range is tried twice, a source in three cycles, and five redirects are followed.
pub proof fn tries_are_limited()
    ensures
        HASH_REQUEST_RETRIES == 2,
        MAX_ACQUISITION_CYCLES == 3,
        MAX_REDIRECTS == 5,
{
}

/// A range in the form in which servers tell it is read back: where its ends are in order
/// and within the total, `bytes`, a space, the ends joined by a dash, a slash and the total
/// give just those numbers.
pub proof fn told_ranges_are_read_back(start: u64, end: u64, total: u64)
    requires
        start <= end < total,
    ensures
        content_range_of(
            "bytes "@ + spec_decimal(start as nat) + "-"@ + spec_decimal(end as nat) + "/"@
                + spec_decimal(total as nat),
        ) == Some((start, end, total)),
{
    let s = spec_decimal(start as nat);
    let e = spec_decimal(end as nat);
    let t = spec_decimal(total as nat);
    let range = s + "-"@ + e;
    let word = range + "/"@ + t;
    let text = "bytes "@ + s + "-"@ + e + "/"@ + t;
    reveal_strlit("bytes ");
    reveal_strlit("bytes");
    reveal_strlit("-");
    reveal_strlit("/");
    assert("bytes "@.len() == 6);
    assert("bytes"@.len() == 5);
    assert("-"@.len() == 1);
    assert("/"@.len() == 1);
    assert("-"@[0] == '-');
    assert("/"@[0] == '/');
    lemma_digits(start as nat);
    lemma_digits(end as nat);
    lemma_digits(total as nat);
    assert(text =~= "bytes "@ + word);
    assert forall|k: int| 0 <= k < word.len() implies !is_ascii_space(#[trigger] word[k])
        && !spec_is_white_space(word[k]) by {
        lemma_word_characters(s, e, t, k);
    }
    // Nothing is trimmed.
    assert(text[0] == "bytes "@[0]);
    assert("bytes "@[0] == 'b');
    assert(trim_start(text) == text);
    assert(text.last() == word[word.len() - 1]);
    assert(trim_end(text) == text);
    // The words are the unit and the numbers.
    assert forall|k: int| 0 <= k < 5 implies !is_ascii_space(#[trigger] text[k]) by {
        assert(text[k] == "bytes "@[k]);
        assert("bytes "@[0] == 'b' && "bytes "@[1] == 'y' && "bytes "@[2] == 't' && "bytes "@[3]
            == 'e' && "bytes "@[4] == 's');
    }
    unbroken_runs_join_the_word(text, 0, 5, Seq::empty());
    let unit = Seq::<char>::empty() + text.subrange(0, 5);
    assert(unit =~= "bytes"@) by {
        assert("bytes "@[0] == 'b' && "bytes "@[1] == 'y' && "bytes "@[2] == 't' && "bytes "@[3]
            == 'e' && "bytes "@[4] == 's');
        assert("bytes"@[0] == 'b' && "bytes"@[1] == 'y' && "bytes"@[2] == 't' && "bytes"@[3]
            == 'e' && "bytes"@[4] == 's');
    }
    assert(text[5] == "bytes "@[5]);
    assert("bytes "@[5] == ' ');
    assert(is_ascii_space(text[5]));
    assert(words_from(text, 5, unit) == seq![unit] + words_from(text, 6, Seq::empty()));
    assert forall|k: int| 6 <= k < text.len() implies !is_ascii_space(#[trigger] text[k]) by {
        assert(text[k] == word[k - 6]);
    }
    unbroken_runs_join_the_word(text, 6, text.len() as int, Seq::empty());
    let numbers = Seq::<char>::empty() + text.subrange(6, text.len() as int);
    assert(numbers =~= word);
    assert(words_from(text, text.len() as int, word) == seq![word]);
    let words = spec_words(text);
    assert(words =~= seq![unit, word]);
    // The slash and the dash part them.
    lemma_split_at(range, '/', t);
    assert(range.push('/') + t =~= word);
    lemma_split_at(s, '-', e);
    assert(s.push('-') + e =~= range);
    written_numbers_are_read_back(start);
    written_numbers_are_read_back(end);
    written_numbers_are_read_back(total);
}

proof fn lemma_digits(value: nat)
    ensures
        spec_decimal(value).len() > 0,
        forall|k: int|
            0 <= k < spec_decimal(value).len() ==> '0' <= #[trigger] spec_decimal(value)[k] <= '9',
    decreases value,
{
    if value >= 10 {
        lemma_digits(value / 10);
    }
}

proof fn lemma_word_characters(s: Seq<char>, e: Seq<char>, t: Seq<char>, k: int)
    requires
        forall|i: int| 0 <= i < s.len() ==> '0' <= #[trigger] s[i] <= '9',
        forall|i: int| 0 <= i < e.len() ==> '0' <= #[trigger] e[i] <= '9',
        forall|i: int| 0 <= i < t.len() ==> '0' <= #[trigger] t[i] <= '9',
        0 <= k < (s + "-"@ + e + "/"@ + t).len(),
    ensures
        ({
            let ch = (s + "-"@ + e + "/"@ + t)[k];
            '0' <= ch <= '9' || ch == '-' || ch == '/'
        }),
{
    reveal_strlit("-");
    reveal_strlit("/");
    assert("-"@.len() == 1);
    assert("/"@.len() == 1);
    assert("-"@[0] == '-');
    assert("/"@[0] == '/');
    let word = s + "-"@ + e + "/"@ + t;
    if k < s.len() {
        assert(word[k] == s[k]);
    } else if k == s.len() {
        assert(word[k] == "-"@[0]);
    } else if k < s.len() + 1 + e.len() {
        assert(word[k] == e[k - s.len() - 1]);
    } else if k == s.len() + 1 + e.len() {
        assert(word[k] == "/"@[0]);
    } else {
        assert(word[k] == t[k - s.len() - e.len() - 2]);
    }
}

proof fn lemma_split_at(before: Seq<char>, ch: char, after: Seq<char>)
    requires
        forall|k: int| 0 <= k < before.len() ==> #[trigger] before[k] != ch,
    ensures
        split_once(before.push(ch) + after, ch) == Some((before, after)),
{
    let text = before.push(ch) + after;
    first_positions_come_first(text, ch, 0);
    assert(text[before.len() as int] == ch);
    match first_position(text, ch, 0) {
        Some(at) => {
            if at < before.len() {
                assert(text[at] == before[at]);
            }
            assert(at == before.len());
            assert(text.take(at) =~= before);
            assert(text.skip(at + 1) =~= after);
        },
        None => {},
    }
}

/// A session is in a range while an attempt is left for it or an answer is awaited.
pub proof fn sessions_are_in_a_range_until_it_ends(session: HashSession)
    ensures
        session.attempts_left > 0 ==> session.in_range(),
        session.awaiting != Awaiting::Nothing ==> session.in_range(),
        session.attempts_left == 0 && session.awaiting == Awaiting::Nothing ==> !session.in_range(),
        session.idle().awaiting == Awaiting::Nothing,
        session.idle().offset == session.offset && session.idle().content == session.content,
{
}

} // verus!
