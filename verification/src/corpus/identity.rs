//! Identity of a resolved track.

use reqwest::Url;
use vstd::prelude::*;

use crate::contracts::TrackRequest;
use crate::text::{
    chars_of, ends_with, list_contains, same_text, spec_ends_with, spec_to_ascii_lowercase, texts,
    to_ascii_lowercase,
};

verus! {

/// Whether `char::is_alphanumeric` holds of a character.
pub uninterp spec fn alphanumeric(ch: char) -> bool;

/// The characters that `char::to_lowercase` gives for a character.
pub uninterp spec fn lowercase(ch: char) -> Seq<char>;

/// Calls `char::is_alphanumeric`, whose answer rests on the character alone.
#[verifier::external_body]
fn is_alphanumeric(ch: char) -> (r: bool)
    ensures
        r == alphanumeric(ch),
{
    ch.is_alphanumeric()
}

/// Calls `char::to_lowercase`, whose characters rest on the character alone.
#[verifier::external_body]
fn lowercase_of(ch: char) -> (r: Vec<char>)
    ensures
        r@ == lowercase(ch),
{
    ch.to_lowercase().collect()
}

/// A character in its plain width: the full-width forms of the printable ASCII
/// characters become those, and the ideographic space becomes a space.
pub open spec fn plain_width(ch: char) -> char {
    if 0xFF01 <= ch as u32 <= 0xFF5E {
        ((ch as u32 - 0xFEE0) as u8) as char
    } else if ch as u32 == 0x3000 {
        ' '
    } else {
        ch
    }
}

fn to_plain_width(ch: char) -> (r: char)
    ensures
        r == plain_width(ch),
{
    let code: u32 = ch as u32;
    if 0xFF01 <= code && code <= 0xFF5E {
        ((code - 0xFEE0) as u8) as char
    } else if code == 0x3000 {
        ' '
    } else {
        ch
    }
}

/// The tokens of the characters from `i` on, where `token` was read before them:
/// the runs of alphanumeric characters, in lower case.
pub open spec fn tokens_from(chars: Seq<char>, i: int, token: Seq<char>) -> Seq<Seq<char>>
    decreases chars.len() - i,
{
    if i < 0 || i >= chars.len() {
        if token.len() > 0 {
            seq![token]
        } else {
            Seq::empty()
        }
    } else {
        let ch = plain_width(chars[i]);
        if alphanumeric(ch) {
            tokens_from(chars, i + 1, token + lowercase(ch))
        } else if token.len() > 0 {
            seq![token] + tokens_from(chars, i + 1, Seq::empty())
        } else {
            tokens_from(chars, i + 1, token)
        }
    }
}

/// The normalized identity tokens of a text.
pub open spec fn identity_tokens(text: Seq<char>) -> Seq<Seq<char>> {
    tokens_from(text, 0, Seq::empty())
}

/// Splits a text into its alphanumeric runs, in plain width and lower case.
pub fn normalized_identity_tokens(value: &str) -> (r: Vec<String>)
    ensures
        texts(r@) == identity_tokens(value@),
{
    let chars = chars_of(value);
    let mut tokens: Vec<String> = Vec::new();
    let mut token: String = String::new();
    let mut i: usize = 0;
    while i < chars.len()
        invariant
            chars@ == value@,
            i <= chars@.len(),
            identity_tokens(value@) == texts(tokens@) + tokens_from(value@, i as int, token@),
        decreases chars@.len() - i,
    {
        let ch: char = to_plain_width(chars[i]);
        if is_alphanumeric(ch) {
            let lower = lowercase_of(ch);
            let ghost start = token@;
            let mut k: usize = 0;
            while k < lower.len()
                invariant
                    k <= lower@.len(),
                    token@ == start + lower@.take(k as int),
                decreases lower@.len() - k,
            {
                token.push(lower[k]);
                k += 1;
            }
            assert(lower@.take(k as int) =~= lower@);
        } else if !token.as_str().is_empty() {
            let ghost before = tokens@;
            let ghost done = token@;
            tokens.push(token);
            token = String::new();
            proof {
                assert(texts(tokens@) =~= texts(before).push(done));
                assert(texts(before) + (seq![done] + tokens_from(value@, i + 1, Seq::empty()))
                    =~= texts(before).push(done) + tokens_from(value@, i + 1, Seq::empty()));
            }
        }
        i += 1;
    }
    if !token.as_str().is_empty() {
        let ghost before = tokens@;
        let ghost done = token@;
        tokens.push(token);
        proof {
            assert(texts(tokens@) =~= texts(before).push(done));
            assert(texts(before) + seq![done] =~= texts(before).push(done));
        }
    } else {
        assert(texts(tokens@) + Seq::<Seq<char>>::empty() =~= texts(tokens@));
    }
    tokens
}

/// The parts of an absolute URL.
#[derive(Clone, Debug, PartialEq, Eq)]
pub struct UrlParts {
    /// The scheme, in lower case.
    pub scheme: String,
    /// The host, if the URL has one.
    pub host: Option<String>,
    /// The segments of the path, if it has any.
    pub segments: Option<Vec<String>>,
    /// The decoded name and value pairs of the query, in order.
    pub query: Vec<(String, String)>,
}

/// The texts of the parts of an absolute URL.
pub struct UrlText {
    pub scheme: Seq<char>,
    pub host: Option<Seq<char>>,
    pub segments: Option<Seq<Seq<char>>>,
    pub query: Seq<(Seq<char>, Seq<char>)>,
}

impl View for UrlParts {
    type V = UrlText;

    open spec fn view(&self) -> UrlText {
        UrlText {
            scheme: self.scheme@,
            host: match self.host {
                Some(host) => Some(host@),
                None => None,
            },
            segments: match self.segments {
                Some(segments) => Some(texts(segments@)),
                None => None,
            },
            query: self.query@.map_values(|pair: (String, String)| (pair.0@, pair.1@)),
        }
    }
}

/// What `Url::parse` makes of a text: the parts of the URL, or the text of the error
/// where it is no absolute URL.
pub uninterp spec fn parsed_url(text: Seq<char>) -> Result<UrlText, Seq<char>>;

/// Calls `Url::parse` and copies the scheme, host, path segments and query pairs
/// of the URL, or the text of the error; all of them rest on the text alone.
#[verifier::external_body]
pub(crate) fn parse_url(text: &str) -> (r: Result<UrlParts, String>)
    ensures
        match r {
            Ok(parts) => parsed_url(text@) == Ok::<UrlText, Seq<char>>(parts@),
            Err(reason) => parsed_url(text@) == Err::<UrlText, Seq<char>>(reason@),
        },
{
    let url = Url::parse(text).map_err(|error| error.to_string())?;
    Ok(UrlParts {
        scheme: url.scheme().to_owned(),
        host: url.host_str().map(str::to_owned),
        segments: url.path_segments().map(|parts| parts.map(str::to_owned).collect()),
        query: url.query_pairs().map(|(name, value)| (name.into_owned(), value.into_owned())).collect(),
    })
}

/// The first text of a list, from `i` on, that is not empty, and the list behind
/// it.
pub open spec fn first_told(list: Seq<Seq<char>>, i: int) -> Option<(Seq<char>, int)>
    decreases list.len() - i,
{
    if i < 0 || i >= list.len() {
        None
    } else if list[i].len() > 0 {
        Some((list[i], i + 1))
    } else {
        first_told(list, i + 1)
    }
}

fn first_told_from(list: &Vec<String>, start: usize) -> (r: Option<usize>)
    requires
        start <= list@.len(),
    ensures
        match r {
            Some(at) => start <= at < list.len() && first_told(texts(list@), start as int) == Some(
                (list@[at as int]@, at + 1),
            ),
            None => first_told(texts(list@), start as int) is None,
        },
{
    let mut i: usize = start;
    while i < list.len()
        invariant
            start <= i <= list@.len(),
            first_told(texts(list@), start as int) == first_told(texts(list@), i as int),
        decreases list@.len() - i,
    {
        assert(texts(list@)[i as int] == list@[i as int]@);
        if !list[i].as_str().is_empty() {
            return Some(i);
        }
        i += 1;
    }
    None
}

/// The value of the first pair of a query, from `i` on, that has the name.
pub open spec fn first_query_value(
    query: Seq<(Seq<char>, Seq<char>)>,
    name: Seq<char>,
    i: int,
) -> Option<Seq<char>>
    decreases query.len() - i,
{
    if i < 0 || i >= query.len() {
        None
    } else if query[i].0 == name {
        Some(query[i].1)
    } else {
        first_query_value(query, name, i + 1)
    }
}

/// The video id that the path of a YouTube URL names, behind `shorts`, `live` or
/// `embed`.
pub open spec fn id_of_path(segments: Seq<Seq<char>>) -> Option<Seq<char>> {
    match first_told(segments, 0) {
        Some((kind, rest)) => if kind == "shorts"@ || kind == "live"@ || kind == "embed"@ {
            match first_told(segments, rest) {
                Some((id, _)) => Some(id),
                None => None,
            }
        } else {
            None
        },
        None => None,
    }
}

/// The video id of a YouTube URL: the first path segment of the short host, or
/// else the query's `v`, or else what the path names. Other hosts have none.
pub open spec fn video_id_of(url: UrlText) -> Option<Seq<char>> {
    match url.host {
        None => None,
        Some(host) => {
            let host = spec_to_ascii_lowercase(host);
            if host == "youtu.be"@ {
                match url.segments {
                    Some(segments) => match first_told(segments, 0) {
                        Some((id, _)) => Some(id),
                        None => None,
                    },
                    None => None,
                }
            } else if host != "youtube.com"@ && !spec_ends_with(host, ".youtube.com"@) {
                None
            } else {
                match first_query_value(url.query, "v"@, 0) {
                    Some(id) if id.len() > 0 => Some(id),
                    _ => match url.segments {
                        Some(segments) => id_of_path(segments),
                        None => None,
                    },
                }
            }
        },
    }
}

/// The text of an optional string.
pub open spec fn optional_text(string: Option<String>) -> Option<Seq<char>> {
    match string {
        Some(string) => Some(string@),
        None => None,
    }
}

fn query_value(query: &Vec<(String, String)>, name: &str) -> (r: Option<String>)
    ensures
        optional_text(r) == first_query_value(
            query@.map_values(|pair: (String, String)| (pair.0@, pair.1@)),
            name@,
            0,
        ),
{
    let ghost pairs = query@.map_values(|pair: (String, String)| (pair.0@, pair.1@));
    let mut i: usize = 0;
    while i < query.len()
        invariant
            pairs == query@.map_values(|pair: (String, String)| (pair.0@, pair.1@)),
            i <= query@.len(),
            first_query_value(pairs, name@, 0) == first_query_value(pairs, name@, i as int),
        decreases query@.len() - i,
    {
        assert(pairs[i as int] == (query@[i as int].0@, query@[i as int].1@));
        if same_text(query[i].0.as_str(), name) {
            return Some(query[i].1.clone());
        }
        i += 1;
    }
    None
}

/// The video id of a YouTube URL that was parsed.
pub fn video_id_of_parts(url: &UrlParts) -> (r: Option<String>)
    ensures
        optional_text(r) == video_id_of(url@),
{
    let host: String = match &url.host {
        Some(host) => to_ascii_lowercase(host.as_str()),
        None => {
            return None;
        },
    };
    if same_text(host.as_str(), "youtu.be") {
        return match &url.segments {
            Some(segments) => match first_told_from(segments, 0) {
                Some(at) => Some(segments[at].clone()),
                None => None,
            },
            None => None,
        };
    }
    if !same_text(host.as_str(), "youtube.com") && !ends_with(host.as_str(), ".youtube.com") {
        return None;
    }
    if let Some(id) = query_value(&url.query, "v") {
        if !id.as_str().is_empty() {
            return Some(id);
        }
    }
    match &url.segments {
        Some(segments) => match first_told_from(segments, 0) {
            Some(at) => {
                let kind = segments[at].as_str();
                if same_text(kind, "shorts") || same_text(kind, "live") || same_text(
                    kind,
                    "embed",
                ) {
                    match first_told_from(segments, at + 1) {
                        Some(id) => Some(segments[id].clone()),
                        None => None,
                    }
                } else {
                    None
                }
            },
            None => None,
        },
        None => None,
    }
}

/// The video id of the YouTube URL that a text holds.
pub open spec fn video_id_of_text(text: Seq<char>) -> Option<Seq<char>> {
    match parsed_url(text) {
        Ok(url) => video_id_of(url),
        Err(_) => None,
    }
}

/// The video id of a YouTube URL.
pub fn youtube_video_id(url: &str) -> (r: Option<String>)
    ensures
        optional_text(r) == video_id_of_text(url@),
{
    match parse_url(url) {
        Ok(parts) => video_id_of_parts(&parts),
        Err(_) => None,
    }
}

/// A track that the corpus expects.
#[derive(Clone, Debug)]
pub struct TrackFixture {
    pub id: String,
    pub title: String,
    pub genre: String,
    pub url: String,
    pub expected_video_id: String,
    pub expected_title_tokens: Vec<String>,
}

/// The first token of a text, from `i` on, that is not among those known.
pub open spec fn first_unknown_token(
    tokens: Seq<Seq<char>>,
    known: Seq<Seq<char>>,
    i: int,
) -> Option<Seq<char>>
    decreases tokens.len() - i,
{
    if i < 0 || i >= tokens.len() {
        None
    } else if !known.contains(tokens[i]) {
        Some(tokens[i])
    } else {
        first_unknown_token(tokens, known, i + 1)
    }
}

/// The first token of the expected texts, from text `i` on, that is not among
/// those known.
pub open spec fn first_missing_token(
    expected: Seq<Seq<char>>,
    known: Seq<Seq<char>>,
    i: int,
) -> Option<Seq<char>>
    decreases expected.len() - i,
{
    if i < 0 || i >= expected.len() {
        None
    } else if first_unknown_token(identity_tokens(expected[i]), known, 0) is Some {
        first_unknown_token(identity_tokens(expected[i]), known, 0)
    } else {
        first_missing_token(expected, known, i + 1)
    }
}

fn unknown_token(tokens: &Vec<String>, known: &Vec<String>) -> (r: Option<usize>)
    ensures
        match r {
            Some(at) => at < tokens@.len() && first_unknown_token(
                texts(tokens@),
                texts(known@),
                0,
            ) == Some(tokens@[at as int]@),
            None => first_unknown_token(texts(tokens@), texts(known@), 0) is None,
        },
{
    let mut i: usize = 0;
    while i < tokens.len()
        invariant
            i <= tokens@.len(),
            first_unknown_token(texts(tokens@), texts(known@), 0) == first_unknown_token(
                texts(tokens@),
                texts(known@),
                i as int,
            ),
        decreases tokens@.len() - i,
    {
        assert(texts(tokens@)[i as int] == tokens@[i as int]@);
        if !list_contains(known, tokens[i].as_str()) {
            return Some(i);
        }
        i += 1;
    }
    None
}

fn missing_token(expected: &Vec<String>, known: &Vec<String>) -> (r: Option<String>)
    ensures
        optional_text(r) == first_missing_token(texts(expected@), texts(known@), 0),
{
    let mut i: usize = 0;
    while i < expected.len()
        invariant
            i <= expected@.len(),
            first_missing_token(texts(expected@), texts(known@), 0) == first_missing_token(
                texts(expected@),
                texts(known@),
                i as int,
            ),
        decreases expected@.len() - i,
    {
        assert(texts(expected@)[i as int] == expected@[i as int]@);
        let tokens = normalized_identity_tokens(expected[i].as_str());
        if let Some(at) = unknown_token(&tokens, known) {
            return Some(tokens[at].clone());
        }
        i += 1;
    }
    None
}

/// Why a resolved track is not the expected one; none where it is.
///
/// A token that the title lacks counts first, then an id that differs in the
/// canonical URL or in the canonical key.
pub open spec fn identity_error(
    expected_title_tokens: Seq<Seq<char>>,
    expected_video_id: Seq<char>,
    title: Seq<char>,
    url_video_id: Option<Seq<char>>,
    canonical_key: Seq<char>,
) -> Option<Seq<char>> {
    match first_missing_token(expected_title_tokens, identity_tokens(title), 0) {
        Some(missing) => if missing == "extended"@ || missing == "mix"@ {
            Some("identity_title_missing_extended_mix"@)
        } else {
            Some("identity_title_token_mismatch"@)
        },
        None => if url_video_id != Some(expected_video_id) || canonical_key != "youtube:video:"@
            + expected_video_id {
            Some("identity_video_id_mismatch"@)
        } else {
            None
        },
    }
}

/// Checks that a resolved track is the expected one.
pub fn validate_fixture_identity(
    fixture: &TrackFixture,
    request: &TrackRequest,
) -> (r: Result<(), &'static str>)
    ensures
        match r {
            Ok(()) => identity_error(
                texts(fixture.expected_title_tokens@),
                fixture.expected_video_id@,
                request.metadata.title@,
                video_id_of_text(request.canonical_url@),
                request.canonical_key@,
            ) is None,
            Err(code) => identity_error(
                texts(fixture.expected_title_tokens@),
                fixture.expected_video_id@,
                request.metadata.title@,
                video_id_of_text(request.canonical_url@),
                request.canonical_key@,
            ) == Some(code@),
        },
{
    let url_id = youtube_video_id(request.canonical_url.as_str());
    match_identity(fixture, request.metadata.title.as_str(), &url_id, request.canonical_key.as_str())
}

/// Checks the title, the id in the canonical URL and the canonical key of a
/// resolved track against the expected ones.
pub fn match_identity(
    fixture: &TrackFixture,
    title: &str,
    url_video_id: &Option<String>,
    canonical_key: &str,
) -> (r: Result<(), &'static str>)
    ensures
        match r {
            Ok(()) => identity_error(
                texts(fixture.expected_title_tokens@),
                fixture.expected_video_id@,
                title@,
                optional_text(*url_video_id),
                canonical_key@,
            ) is None,
            Err(code) => identity_error(
                texts(fixture.expected_title_tokens@),
                fixture.expected_video_id@,
                title@,
                optional_text(*url_video_id),
                canonical_key@,
            ) == Some(code@),
        },
{
    let known = normalized_identity_tokens(title);
    if let Some(missing) = missing_token(&fixture.expected_title_tokens, &known) {
        return Err(
            if same_text(missing.as_str(), "extended") || same_text(missing.as_str(), "mix") {
                "identity_title_missing_extended_mix"
            } else {
                "identity_title_token_mismatch"
            },
        );
    }
    let expected = fixture.expected_video_id.as_str();
    let url_matches: bool = match url_video_id {
        Some(id) => same_text(id.as_str(), expected),
        None => false,
    };
    let key = "youtube:video:".to_owned().concat(expected);
    if !url_matches || !same_text(canonical_key, key.as_str()) {
        return Err("identity_video_id_mismatch");
    }
    Ok(())
}

/// A character that is safe in a file name, or an underscore.
pub open spec fn safe_char(ch: char) -> char {
    if ('a' <= ch <= 'z') || ('A' <= ch <= 'Z') || ('0' <= ch <= '9') || ch == '-' || ch == '_' {
        ch
    } else {
        '_'
    }
}

/// A text in which every character that is not safe in a file name is replaced by
/// an underscore.
pub fn safe_component(value: &str) -> (r: String)
    ensures
        r@ == value@.map_values(|ch: char| safe_char(ch)),
{
    let chars = chars_of(value);
    let mut safe: String = String::new();
    let mut i: usize = 0;
    while i < chars.len()
        invariant
            chars@ == value@,
            i <= chars@.len(),
            safe@ == value@.take(i as int).map_values(|ch: char| safe_char(ch)),
        decreases chars@.len() - i,
    {
        let ch: char = chars[i];
        let kept: bool = ('a' <= ch && ch <= 'z') || ('A' <= ch && ch <= 'Z') || ('0' <= ch && ch
            <= '9') || ch == '-' || ch == '_';
        safe.push(if kept { ch } else { '_' });
        i += 1;
    }
    assert(value@.take(i as int) =~= value@);
    safe
}

/// Full-width signs, letters and digits become the plain ones of ASCII, the wide space a
/// plain one, and every other character stays.
pub proof fn wide_characters_become_plain(ch: char)
    ensures
        0xFF01 <= ch as u32 <= 0xFF5E ==> plain_width(ch) as u32 + 0xFEE0 == ch as u32,
        ch as u32 == 0x3000 ==> plain_width(ch) == ' ',
        (ch as u32) < 0x3000 || 0x3000 < ch as u32 && (ch as u32) < 0xFF01 || 0xFF5E < ch as u32
            ==> plain_width(ch) == ch,
{
}

proof fn lemma_tokens_of_suffix(text: Seq<char>, other: Seq<char>, i: int, token: Seq<char>)
    requires
        0 <= i <= text.len(),
    ensures
        tokens_from(other + text, other.len() + i, token) == tokens_from(text, i, token),
    decreases text.len() - i,
{
    let whole = other + text;
    if i < text.len() {
        assert(whole[other.len() + i] == text[i]);
        let ch = plain_width(text[i]);
        if alphanumeric(ch) {
            lemma_tokens_of_suffix(text, other, i + 1, token + lowercase(ch));
        } else {
            lemma_tokens_of_suffix(text, other, i + 1, Seq::empty());
            lemma_tokens_of_suffix(text, other, i + 1, token);
        }
    }
}

proof fn lemma_tokens_around(
    left: Seq<char>,
    separator: char,
    right: Seq<char>,
    i: int,
    token: Seq<char>,
)
    requires
        0 <= i <= left.len(),
        !alphanumeric(plain_width(separator)),
    ensures
        tokens_from(left.push(separator) + right, i, token) == tokens_from(left, i, token)
            + identity_tokens(right),
    decreases left.len() - i,
{
    let whole = left.push(separator) + right;
    if i < left.len() {
        assert(whole[i] == left[i]);
        let ch = plain_width(left[i]);
        if alphanumeric(ch) {
            lemma_tokens_around(left, separator, right, i + 1, token + lowercase(ch));
        } else if token.len() > 0 {
            lemma_tokens_around(left, separator, right, i + 1, Seq::empty());
            assert(seq![token] + (tokens_from(left, i + 1, Seq::empty()) + identity_tokens(right))
                =~= (seq![token] + tokens_from(left, i + 1, Seq::empty())) + identity_tokens(
                right,
            ));
        } else {
            lemma_tokens_around(left, separator, right, i + 1, token);
        }
    } else {
        assert(whole[i] == separator);
        lemma_tokens_of_suffix(right, left.push(separator), 0, Seq::empty());
        assert(tokens_from(whole, i + 1, Seq::empty()) == identity_tokens(right));
        if token.len() > 0 {
            assert(tokens_from(left, i, token) == seq![token]);
        } else {
            assert(token =~= Seq::<char>::empty());
            assert(tokens_from(left, i, token) + identity_tokens(right) =~= identity_tokens(
                right,
            ));
        }
    }
}

/// A character that is no letter or digit parts a text: its tokens are those before it and
/// then those after it.
pub proof fn separators_part_tokens(left: Seq<char>, separator: char, right: Seq<char>)
    requires
        !alphanumeric(plain_width(separator)),
    ensures
        identity_tokens(left.push(separator) + right) == identity_tokens(left) + identity_tokens(
            right,
        ),
{
    lemma_tokens_around(left, separator, right, 0, Seq::empty());
}

/// A letter or digit joins the token before it in small letters, and no token is empty.
pub proof fn letters_and_digits_join_tokens(chars: Seq<char>, i: int, token: Seq<char>)
    requires
        0 <= i <= chars.len(),
    ensures
        i == chars.len() && token.len() > 0 ==> tokens_from(chars, i, token) == seq![token],
        i == chars.len() && token.len() == 0 ==> tokens_from(chars, i, token).len() == 0,
        i < chars.len() && alphanumeric(plain_width(chars[i])) ==> tokens_from(chars, i, token)
            == tokens_from(chars, i + 1, token + lowercase(plain_width(chars[i]))),
        forall|k: int|
            0 <= k < tokens_from(chars, i, token).len() ==> (#[trigger] tokens_from(
                chars,
                i,
                token,
            )[k]).len() > 0,
    decreases chars.len() - i,
{
    let tokens = tokens_from(chars, i, token);
    if i == chars.len() {
        if token.len() > 0 {
            assert(tokens == seq![token]);
            assert(tokens[0] == token);
        }
    } else {
        let ch = plain_width(chars[i]);
        if alphanumeric(ch) {
            let longer = tokens_from(chars, i + 1, token + lowercase(ch));
            letters_and_digits_join_tokens(chars, i + 1, token + lowercase(ch));
            assert(tokens == longer);
            assert forall|k: int| 0 <= k < tokens.len() implies (#[trigger] tokens[k]).len()
                > 0 by {
                assert(longer[k].len() > 0);
            }
        } else if token.len() > 0 {
            let rest = tokens_from(chars, i + 1, Seq::empty());
            letters_and_digits_join_tokens(chars, i + 1, Seq::empty());
            assert(tokens == seq![token] + rest);
            assert forall|k: int| 0 <= k < tokens.len() implies (#[trigger] tokens[k]).len()
                > 0 by {
                if k > 0 {
                    assert(tokens[k] == rest[k - 1]);
                }
            }
        } else {
            let same = tokens_from(chars, i + 1, token);
            letters_and_digits_join_tokens(chars, i + 1, token);
            assert(tokens == same);
            assert forall|k: int| 0 <= k < tokens.len() implies (#[trigger] tokens[k]).len()
                > 0 by {
                assert(same[k].len() > 0);
            }
        }
    }
}

/// The first segment that tells anything is the first that is not empty.
pub proof fn empty_segments_are_passed_over(list: Seq<Seq<char>>, from: int)
    requires
        0 <= from <= list.len(),
    ensures
        match first_told(list, from) {
            Some((told, next)) => {
                &&& from < next <= list.len()
                &&& told == list[next - 1]
                &&& told.len() > 0
                &&& forall|k: int| from <= k < next - 1 ==> (#[trigger] list[k]).len() == 0
            },
            None => forall|k: int| from <= k < list.len() ==> (#[trigger] list[k]).len() == 0,
        },
    decreases list.len() - from,
{
    if from < list.len() {
        empty_segments_are_passed_over(list, from + 1);
    }
}

/// The value of a query is that of the first pair with its name.
pub proof fn first_query_pairs_count(
    query: Seq<(Seq<char>, Seq<char>)>,
    name: Seq<char>,
    from: int,
)
    requires
        0 <= from <= query.len(),
    ensures
        forall|i: int|
            {
                &&& from <= i < query.len()
                &&& (#[trigger] query[i]).0 == name
                &&& forall|k: int| from <= k < i ==> (#[trigger] query[k]).0 != name
            } ==> first_query_value(query, name, from) == Some(query[i].1),
        (forall|k: int| from <= k < query.len() ==> (#[trigger] query[k]).0 != name)
            ==> first_query_value(query, name, from) is None,
    decreases query.len() - from,
{
    if from < query.len() {
        first_query_pairs_count(query, name, from + 1);
    }
}

/// A video is named by the address of its host: on `youtu.be` by the first segment, on
/// YouTube by the query `v` or, failing it, by the segment after `shorts`, `live` or
/// `embed`; no other host names one, and capitals in the host do not matter.
pub proof fn videos_are_named_by_their_host(url: UrlText)
    ensures
        url.host is None ==> video_id_of(url) is None,
        url.host matches Some(host) ==> {
            let short = spec_to_ascii_lowercase(host) == "youtu.be"@;
            let long = spec_to_ascii_lowercase(host) == "youtube.com"@ || spec_ends_with(
                spec_to_ascii_lowercase(host),
                ".youtube.com"@,
            );
            let value = first_query_value(url.query, "v"@, 0);
            let queried = value is Some && value->0.len() > 0;
            &&& !short && !long ==> video_id_of(url) is None
            &&& url.segments is None && short ==> video_id_of(url) is None
            &&& !short && long && queried ==> video_id_of(url) == value
            &&& url.segments is None && !short && long && !queried ==> video_id_of(url) is None
            &&& url.segments matches Some(segments) ==> {
                let first = first_told(segments, 0);
                let kind = first is Some && ((first->0).0 == "shorts"@ || (first->0).0 == "live"@
                    || (first->0).0 == "embed"@);
                let next = first_told(segments, (first->0).1);
                &&& short && first is Some ==> video_id_of(url) == Some((first->0).0)
                &&& short && first is None ==> video_id_of(url) is None
                &&& !short && long && !queried && !kind ==> video_id_of(url) is None
                &&& !short && long && !queried && kind && next is Some ==> video_id_of(url)
                    == Some((next->0).0)
                &&& !short && long && !queried && kind && next is None ==> video_id_of(url)
                    is None
            }
        },
{
    if let Some(host) = url.host {
        let lower = spec_to_ascii_lowercase(host);
        reveal_strlit("youtu.be");
        reveal_strlit("youtube.com");
        reveal_strlit(".youtube.com");
        assert("youtu.be"@.len() == 8);
        assert("youtube.com"@.len() == 11);
        assert(".youtube.com"@.len() == 12);
    }
}

/// A title has every expected token just where no token is missing; the one that is told
/// as missing was expected and is not among the known ones.
pub proof fn missing_tokens_are_expected_and_unknown(
    expected: Seq<Seq<char>>,
    known: Seq<Seq<char>>,
    from: int,
)
    requires
        0 <= from <= expected.len(),
    ensures
        match first_missing_token(expected, known, from) {
            Some(missing) => !known.contains(missing) && exists|k: int|
                from <= k < expected.len() && identity_tokens(
                    #[trigger] expected[k],
                ).contains(missing),
            None => forall|k: int, l: int|
                from <= k < expected.len() && 0 <= l < identity_tokens(expected[k]).len()
                    ==> known.contains(#[trigger] identity_tokens(expected[k])[l]),
        },
    decreases expected.len() - from,
{
    if from < expected.len() {
        lemma_unknown_token(identity_tokens(expected[from]), known, 0);
        missing_tokens_are_expected_and_unknown(expected, known, from + 1);
        let here = first_unknown_token(identity_tokens(expected[from]), known, 0);
        if here is Some {
            assert(identity_tokens(expected[from]).contains(here->0));
        } else {
            if let Some(missing) = first_missing_token(expected, known, from + 1) {
                let k = choose|k: int|
                    from + 1 <= k < expected.len() && identity_tokens(
                        #[trigger] expected[k],
                    ).contains(missing);
                assert(identity_tokens(expected[k]).contains(missing));
            }
        }
    }
}

proof fn lemma_unknown_token(tokens: Seq<Seq<char>>, known: Seq<Seq<char>>, from: int)
    requires
        0 <= from <= tokens.len(),
    ensures
        match first_unknown_token(tokens, known, from) {
            Some(unknown) => !known.contains(unknown) && tokens.contains(unknown),
            None => forall|l: int|
                from <= l < tokens.len() ==> known.contains(#[trigger] tokens[l]),
        },
    decreases tokens.len() - from,
{
    if from < tokens.len() {
        lemma_unknown_token(tokens, known, from + 1);
        assert(tokens.contains(tokens[from]));
    }
}

/// A track is the expected one only where its title has every token and both its address
/// and its key name the expected video; a missing extended mix is told apart from other
/// missing tokens, and those come before a wrong video.
pub proof fn identities_need_title_and_video(
    tokens: Seq<Seq<char>>,
    video: Seq<char>,
    title: Seq<char>,
    url_video: Option<Seq<char>>,
    key: Seq<char>,
)
    ensures
        ({
            let error = identity_error(tokens, video, title, url_video, key);
            let missing = first_missing_token(tokens, identity_tokens(title), 0);
            let named = url_video == Some(video) && key == "youtube:video:"@ + video;
            &&& missing is None && named ==> error is None
            &&& missing is None && !named ==> error == Some("identity_video_id_mismatch"@)
            &&& missing == Some("extended"@) || missing == Some("mix"@) ==> error == Some(
                "identity_title_missing_extended_mix"@,
            )
            &&& missing is Some && missing != Some("extended"@) && missing != Some("mix"@)
                ==> error == Some("identity_title_token_mismatch"@)
        }),
{
}

/// Letters and digits of ASCII, dashes and underscores are safe as they are, and every
/// other character becomes an underscore.
pub proof fn unsafe_characters_become_underscores(ch: char)
    ensures
        'a' <= ch <= 'z' || 'A' <= ch <= 'Z' || '0' <= ch <= '9' ==> safe_char(ch) == ch,
        safe_char('-') == '-',
        safe_char('_') == '_',
        ch == '/' || ch == '\\' || ch == '.' || ch == ' ' || ch == ':' ==> safe_char(ch) == '_',
        ch as u32 >= 0x80 ==> safe_char(ch) == '_',
        (ch as u32) < 0x2D || ch as u32 == 0x2E || ch as u32 == 0x2F ==> safe_char(ch) == '_',
        0x3A <= ch as u32 <= 0x40 || 0x5B <= ch as u32 <= 0x5E || ch as u32 == 0x60 || 0x7B
            <= ch as u32 ==> safe_char(ch) == '_',
{
}

} // verus!
