//! The manifest of the corpus, and the options of its evaluation.

use vstd::prelude::*;

use super::gate::Thresholds;
use super::identity::{
    identity_tokens, normalized_identity_tokens, optional_text, parse_url, parsed_url, video_id_of,
    video_id_of_parts, TrackFixture,
};
use crate::text::{same_text, texts};

verus! {

/// A pair of tracks, and the transition that is expected between them.
#[derive(Clone, Debug)]
pub struct PairFixture {
    pub outgoing: String,
    pub incoming: String,
    pub expected_transition_kind: String,
}

/// The corpus: its tracks, the pairs to be rendered and the thresholds.
#[derive(Clone, Debug)]
pub struct CorpusManifest {
    pub schema_version: u32,
    pub tracks: Vec<TrackFixture>,
    pub pairs: Vec<PairFixture>,
    pub thresholds: Thresholds,
}

/// Why a manifest is refused.
#[derive(Clone, Debug, PartialEq, Eq)]
pub enum ManifestError {
    UnsupportedSchema,
    TooFewTracks,
    IncompleteTrack,
    UnsearchableToken,
    /// The URL of a track could not be parsed; why.
    InvalidUrl(String),
    InsecureUrl,
    UrlIdMismatch,
    UnknownPairTrack,
    UnexpectedKind,
    IncompletePairs,
    ForeignThresholds,
}

/// What an error of a manifest tells.
pub enum ManifestFault {
    UnsupportedSchema,
    TooFewTracks,
    IncompleteTrack,
    UnsearchableToken,
    InvalidUrl(Seq<char>),
    InsecureUrl,
    UrlIdMismatch,
    UnknownPairTrack,
    UnexpectedKind,
    IncompletePairs,
    ForeignThresholds,
}

impl View for ManifestError {
    type V = ManifestFault;

    open spec fn view(&self) -> ManifestFault {
        match *self {
            ManifestError::UnsupportedSchema => ManifestFault::UnsupportedSchema,
            ManifestError::TooFewTracks => ManifestFault::TooFewTracks,
            ManifestError::IncompleteTrack => ManifestFault::IncompleteTrack,
            ManifestError::UnsearchableToken => ManifestFault::UnsearchableToken,
            ManifestError::InvalidUrl(reason) => ManifestFault::InvalidUrl(reason@),
            ManifestError::InsecureUrl => ManifestFault::InsecureUrl,
            ManifestError::UrlIdMismatch => ManifestFault::UrlIdMismatch,
            ManifestError::UnknownPairTrack => ManifestFault::UnknownPairTrack,
            ManifestError::UnexpectedKind => ManifestFault::UnexpectedKind,
            ManifestError::IncompletePairs => ManifestFault::IncompletePairs,
            ManifestError::ForeignThresholds => ManifestFault::ForeignThresholds,
        }
    }
}

impl ManifestFault {
    /// The message of the error; for a URL that could not be parsed, that of the
    /// parser.
    pub open spec fn message(self) -> Seq<char> {
        match self {
            ManifestFault::UnsupportedSchema => "unsupported corpus manifest schema"@,
            ManifestFault::TooFewTracks =>
                "corpus must contain the reported track plus three comparisons"@,
            ManifestFault::IncompleteTrack =>
                "track ids, titles, genres, expected video ids, and title tokens must be non-empty and unique"@,
            ManifestFault::UnsearchableToken =>
                "expected title tokens must contain searchable text"@,
            ManifestFault::InvalidUrl(reason) => reason,
            ManifestFault::InsecureUrl => "corpus track URLs must be absolute HTTPS URLs"@,
            ManifestFault::UrlIdMismatch => "corpus URL and expected YouTube video id differ"@,
            ManifestFault::UnknownPairTrack => "pair references an unknown track id"@,
            ManifestFault::UnexpectedKind => "real corpus pairs must require BeatMatched"@,
            ManifestFault::IncompletePairs =>
                "corpus must cover every self-pair and at least two cross-pairs"@,
            ManifestFault::ForeignThresholds =>
                "corpus thresholds differ from the agreed release gate"@,
        }
    }
}

impl ManifestError {
    /// The message of the error.
    pub fn message(&self) -> (r: String)
        ensures
            r@ == self@.message(),
    {
        let text: &'static str = match self {
            ManifestError::UnsupportedSchema => "unsupported corpus manifest schema",
            ManifestError::TooFewTracks => "corpus must contain the reported track plus three comparisons",
            ManifestError::IncompleteTrack => "track ids, titles, genres, expected video ids, and title tokens must be non-empty and unique",
            ManifestError::UnsearchableToken => "expected title tokens must contain searchable text",
            ManifestError::InvalidUrl(reason) => {
                return reason.clone();
            },
            ManifestError::InsecureUrl => "corpus track URLs must be absolute HTTPS URLs",
            ManifestError::UrlIdMismatch => "corpus URL and expected YouTube video id differ",
            ManifestError::UnknownPairTrack => "pair references an unknown track id",
            ManifestError::UnexpectedKind => "real corpus pairs must require BeatMatched",
            ManifestError::IncompletePairs => "corpus must cover every self-pair and at least two cross-pairs",
            ManifestError::ForeignThresholds => "corpus thresholds differ from the agreed release gate",
        };
        text.to_owned()
    }
}

/// Whether one of the first `n` tracks has the id.
pub open spec fn has_track(tracks: Seq<TrackFixture>, n: int, id: Seq<char>) -> bool {
    exists|i: int| 0 <= i < n && (#[trigger] tracks[i]).id@ == id
}

/// What is wrong with the URL of a track.
pub open spec fn url_error(url: Seq<char>, expected_video_id: Seq<char>) -> Option<ManifestFault> {
    match parsed_url(url) {
        Err(reason) => Some(ManifestFault::InvalidUrl(reason)),
        Ok(parts) => if parts.scheme != "https"@ || parts.host is None {
            Some(ManifestFault::InsecureUrl)
        } else if video_id_of(parts) != Some(expected_video_id) {
            Some(ManifestFault::UrlIdMismatch)
        } else {
            None
        },
    }
}

/// What is wrong with track `i`: something of it is missing or its id occurred
/// before, or it has a token without searchable text, or its URL is none of the
/// expected video.
pub open spec fn track_error(tracks: Seq<TrackFixture>, i: int) -> Option<ManifestFault> {
    let track = tracks[i];
    if track.id@.len() == 0 || track.title@.len() == 0 || track.genre@.len() == 0
        || track.expected_video_id@.len() == 0 || track.expected_title_tokens@.len() == 0
        || has_track(tracks, i, track.id@) {
        Some(ManifestFault::IncompleteTrack)
    } else if exists|k: int|
        0 <= k < track.expected_title_tokens@.len() && identity_tokens(
            (#[trigger] track.expected_title_tokens@[k])@,
        ).len() == 0 {
        Some(ManifestFault::UnsearchableToken)
    } else {
        url_error(track.url@, track.expected_video_id@)
    }
}

/// The first error of a track, from `i` on.
pub open spec fn first_track_error(tracks: Seq<TrackFixture>, i: int) -> Option<ManifestFault>
    decreases tracks.len() - i,
{
    if i < 0 || i >= tracks.len() {
        None
    } else if track_error(tracks, i) is Some {
        track_error(tracks, i)
    } else {
        first_track_error(tracks, i + 1)
    }
}

/// What is wrong with a pair.
pub open spec fn pair_error(tracks: Seq<TrackFixture>, pair: PairFixture) -> Option<
    ManifestFault,
> {
    let n = tracks.len() as int;
    if !has_track(tracks, n, pair.outgoing@) || !has_track(tracks, n, pair.incoming@) {
        Some(ManifestFault::UnknownPairTrack)
    } else if pair.expected_transition_kind@ != "BeatMatched"@ {
        Some(ManifestFault::UnexpectedKind)
    } else {
        None
    }
}

/// The first error of a pair, from `i` on.
pub open spec fn first_pair_error(
    tracks: Seq<TrackFixture>,
    pairs: Seq<PairFixture>,
    i: int,
) -> Option<ManifestFault>
    decreases pairs.len() - i,
{
    if i < 0 || i >= pairs.len() {
        None
    } else if pair_error(tracks, pairs[i]) is Some {
        pair_error(tracks, pairs[i])
    } else {
        first_pair_error(tracks, pairs, i + 1)
    }
}

/// Whether a pair joins a track with itself.
pub open spec fn is_self_pair(pair: PairFixture) -> bool {
    pair.outgoing@ == pair.incoming@
}

/// Whether some pair joins the track with itself.
pub open spec fn has_self_pair(pairs: Seq<PairFixture>, id: Seq<char>) -> bool {
    exists|i: int|
        0 <= i < pairs.len() && is_self_pair(#[trigger] pairs[i]) && pairs[i].outgoing@ == id
}

/// How many of the first `n` pairs join two tracks.
pub open spec fn cross_pairs(pairs: Seq<PairFixture>, n: int) -> nat
    decreases n,
{
    if n <= 0 {
        0
    } else {
        cross_pairs(pairs, n - 1) + if is_self_pair(pairs[n - 1]) {
            0nat
        } else {
            1nat
        }
    }
}

/// Whether every track is joined with itself, and two pairs join two tracks.
pub open spec fn pairs_complete(tracks: Seq<TrackFixture>, pairs: Seq<PairFixture>) -> bool {
    &&& forall|i: int| 0 <= i < tracks.len() ==> has_self_pair(pairs, (#[trigger] tracks[i]).id@)
    &&& cross_pairs(pairs, pairs.len() as int) >= 2
}

/// Why a manifest is refused; none where it is not.
pub open spec fn manifest_error(manifest: CorpusManifest) -> Option<ManifestFault> {
    if manifest.schema_version != 1 {
        Some(ManifestFault::UnsupportedSchema)
    } else if manifest.tracks@.len() < 4 {
        Some(ManifestFault::TooFewTracks)
    } else if first_track_error(manifest.tracks@, 0) is Some {
        first_track_error(manifest.tracks@, 0)
    } else if first_pair_error(manifest.tracks@, manifest.pairs@, 0) is Some {
        first_pair_error(manifest.tracks@, manifest.pairs@, 0)
    } else if !pairs_complete(manifest.tracks@, manifest.pairs@) {
        Some(ManifestFault::IncompletePairs)
    } else if !manifest.thresholds.agreed() {
        Some(ManifestFault::ForeignThresholds)
    } else {
        None
    }
}

/// What an error tells, if there is one.
pub open spec fn fault_of(error: Option<ManifestError>) -> Option<ManifestFault> {
    match error {
        Some(error) => Some(error@),
        None => None,
    }
}

fn find_track(tracks: &Vec<TrackFixture>, n: usize, id: &str) -> (r: bool)
    requires
        n <= tracks@.len(),
    ensures
        r == has_track(tracks@, n as int, id@),
{
    let mut i: usize = 0;
    while i < n
        invariant
            i <= n <= tracks@.len(),
            forall|k: int| 0 <= k < i ==> (#[trigger] tracks@[k]).id@ != id@,
        decreases n - i,
    {
        if same_text(tracks[i].id.as_str(), id) {
            return true;
        }
        i += 1;
    }
    false
}

fn has_unsearchable_token(tokens: &Vec<String>) -> (r: bool)
    ensures
        r == exists|k: int|
            0 <= k < tokens@.len() && identity_tokens((#[trigger] tokens@[k])@).len() == 0,
{
    let mut i: usize = 0;
    while i < tokens.len()
        invariant
            i <= tokens@.len(),
            forall|k: int|
                0 <= k < i ==> identity_tokens((#[trigger] tokens@[k])@).len() > 0,
        decreases tokens@.len() - i,
    {
        let words = normalized_identity_tokens(tokens[i].as_str());
        assert(texts(words@).len() == words@.len());
        if words.len() == 0 {
            return true;
        }
        i += 1;
    }
    false
}

fn check_url(url: &str, expected_video_id: &str) -> (r: Option<ManifestError>)
    ensures
        fault_of(r) == url_error(url@, expected_video_id@),
{
    let parts = match parse_url(url) {
        Ok(parts) => parts,
        Err(reason) => {
            return Some(ManifestError::InvalidUrl(reason));
        },
    };
    if !same_text(parts.scheme.as_str(), "https") || parts.host.is_none() {
        return Some(ManifestError::InsecureUrl);
    }
    let matches_id: bool = match video_id_of_parts(&parts) {
        Some(id) => same_text(id.as_str(), expected_video_id),
        None => false,
    };
    if !matches_id {
        return Some(ManifestError::UrlIdMismatch);
    }
    None
}

fn check_track(tracks: &Vec<TrackFixture>, i: usize) -> (r: Option<ManifestError>)
    requires
        i < tracks@.len(),
    ensures
        fault_of(r) == track_error(tracks@, i as int),
{
    let track = &tracks[i];
    if track.id.as_str().is_empty() || track.title.as_str().is_empty()
        || track.genre.as_str().is_empty() || track.expected_video_id.as_str().is_empty()
        || track.expected_title_tokens.len() == 0 || find_track(tracks, i, track.id.as_str()) {
        return Some(ManifestError::IncompleteTrack);
    }
    if has_unsearchable_token(&track.expected_title_tokens) {
        return Some(ManifestError::UnsearchableToken);
    }
    check_url(track.url.as_str(), track.expected_video_id.as_str())
}

fn find_self_pair(pairs: &Vec<PairFixture>, id: &str) -> (r: bool)
    ensures
        r == has_self_pair(pairs@, id@),
{
    let mut i: usize = 0;
    while i < pairs.len()
        invariant
            i <= pairs@.len(),
            forall|k: int|
                0 <= k < i ==> !(is_self_pair(#[trigger] pairs@[k]) && pairs@[k].outgoing@ == id@),
        decreases pairs@.len() - i,
    {
        if same_text(pairs[i].outgoing.as_str(), pairs[i].incoming.as_str()) && same_text(
            pairs[i].outgoing.as_str(),
            id,
        ) {
            return true;
        }
        i += 1;
    }
    false
}

/// Checks a manifest.
pub fn validate_manifest(manifest: &CorpusManifest) -> (r: Result<(), ManifestError>)
    ensures
        match r {
            Ok(_) => manifest_error(*manifest) is None,
            Err(error) => manifest_error(*manifest) == Some(error@),
        },
{
    let tracks = &manifest.tracks;
    let pairs = &manifest.pairs;
    if manifest.schema_version != 1 {
        return Err(ManifestError::UnsupportedSchema);
    }
    if tracks.len() < 4 {
        return Err(ManifestError::TooFewTracks);
    }
    let mut i: usize = 0;
    while i < tracks.len()
        invariant
            i <= tracks@.len(),
            *tracks == manifest.tracks,
            manifest.schema_version == 1,
            manifest.tracks@.len() >= 4,
            first_track_error(tracks@, 0) == first_track_error(tracks@, i as int),
        decreases tracks@.len() - i,
    {
        if let Some(error) = check_track(tracks, i) {
            return Err(error);
        }
        i += 1;
    }
    let mut j: usize = 0;
    let mut crossing: usize = 0;
    while j < pairs.len()
        invariant
            j <= pairs@.len(),
            *tracks == manifest.tracks,
            *pairs == manifest.pairs,
            manifest.schema_version == 1,
            manifest.tracks@.len() >= 4,
            first_track_error(tracks@, 0) is None,
            first_pair_error(tracks@, pairs@, 0) == first_pair_error(tracks@, pairs@, j as int),
            crossing == cross_pairs(pairs@, j as int),
            crossing <= j,
        decreases pairs@.len() - j,
    {
        let pair = &pairs[j];
        if !find_track(tracks, tracks.len(), pair.outgoing.as_str()) || !find_track(
            tracks,
            tracks.len(),
            pair.incoming.as_str(),
        ) {
            return Err(ManifestError::UnknownPairTrack);
        }
        if !same_text(pair.expected_transition_kind.as_str(), "BeatMatched") {
            return Err(ManifestError::UnexpectedKind);
        }
        if !same_text(pair.outgoing.as_str(), pair.incoming.as_str()) {
            crossing += 1;
        }
        j += 1;
    }
    let mut k: usize = 0;
    while k < tracks.len()
        invariant
            k <= tracks@.len(),
            *tracks == manifest.tracks,
            *pairs == manifest.pairs,
            manifest.schema_version == 1,
            manifest.tracks@.len() >= 4,
            first_track_error(tracks@, 0) is None,
            first_pair_error(tracks@, pairs@, 0) is None,
            forall|m: int| 0 <= m < k ==> has_self_pair(pairs@, (#[trigger] tracks@[m]).id@),
        decreases tracks@.len() - k,
    {
        if !find_self_pair(pairs, tracks[k].id.as_str()) {
            assert(!has_self_pair(pairs@, tracks@[k as int].id@));
            return Err(ManifestError::IncompletePairs);
        }
        k += 1;
    }
    if crossing < 2 {
        return Err(ManifestError::IncompletePairs);
    }
    if !manifest.thresholds.are_agreed() {
        return Err(ManifestError::ForeignThresholds);
    }
    Ok(())
}

/// The options of the evaluation. A path that was not given is none.
#[derive(Clone, Debug, PartialEq, Eq)]
pub struct Options {
    pub allow_network: bool,
    pub manifest: Option<String>,
    pub report: Option<String>,
    pub keep_artifacts: bool,
}

/// What the options tell.
pub struct OptionsText {
    pub allow_network: bool,
    pub manifest: Option<Seq<char>>,
    pub report: Option<Seq<char>>,
    pub keep_artifacts: bool,
}

impl OptionsText {
    /// The options without arguments.
    pub open spec fn bare() -> OptionsText {
        OptionsText { allow_network: false, manifest: None, report: None, keep_artifacts: false }
    }
}

impl View for Options {
    type V = OptionsText;

    open spec fn view(&self) -> OptionsText {
        OptionsText {
            allow_network: self.allow_network,
            manifest: optional_text(self.manifest),
            report: optional_text(self.report),
            keep_artifacts: self.keep_artifacts,
        }
    }
}

/// What the arguments from `i` on make of the options before them: the options, or
/// the message that refuses them.
pub open spec fn options_from(args: Seq<Seq<char>>, i: int, options: OptionsText) -> Result<
    OptionsText,
    Seq<char>,
>
    decreases args.len() - i,
{
    if i < 0 || i >= args.len() {
        Ok(options)
    } else if args[i] == "--allow-network"@ {
        options_from(args, i + 1, OptionsText { allow_network: true, ..options })
    } else if args[i] == "--manifest"@ {
        if i + 1 < args.len() {
            options_from(args, i + 2, OptionsText { manifest: Some(args[i + 1]), ..options })
        } else {
            Err("--manifest requires a path"@)
        }
    } else if args[i] == "--report"@ {
        if i + 1 < args.len() {
            options_from(args, i + 2, OptionsText { report: Some(args[i + 1]), ..options })
        } else {
            Err("--report requires a path"@)
        }
    } else if args[i] == "--keep-artifacts"@ {
        options_from(args, i + 1, OptionsText { keep_artifacts: true, ..options })
    } else if args[i] == "--help"@ || args[i] == "-h"@ {
        Err(
            "usage: automix_corpus --allow-network [--manifest PATH] [--report PATH] [--keep-artifacts]"@,
        )
    } else {
        Err("unknown option: "@ + args[i])
    }
}

/// Whether `result` is what arguments make of the options.
pub open spec fn is_options_parse(
    result: Result<Options, String>,
    parsed: Result<OptionsText, Seq<char>>,
) -> bool {
    match (result, parsed) {
        (Ok(options), Ok(text)) => options@ == text,
        (Err(message), Err(text)) => message@ == text,
        _ => false,
    }
}

impl Options {
    /// Why the evaluation may not use the network, which takes both the option and
    /// an opt-in of `1` from the environment.
    pub fn network_error(&self, opt_in: Option<&str>) -> (r: Option<&'static str>)
        ensures
            r is None <==> (self.allow_network && opt_in is Some && opt_in->0@ == "1"@),
            r matches Some(message) ==> message@
                == "network execution requires --allow-network and WOTOHA_AUTOMIX_CORPUS_ALLOW_NETWORK=1"@,
    {
        let opted: bool = match opt_in {
            Some(value) => same_text(value, "1"),
            None => false,
        };
        if self.allow_network && opted {
            None
        } else {
            Some(
                "network execution requires --allow-network and WOTOHA_AUTOMIX_CORPUS_ALLOW_NETWORK=1",
            )
        }
    }

    /// Reads the options from arguments.
    pub fn parse(args: Vec<String>) -> (r: Result<Self, String>)
        ensures
            is_options_parse(
                r,
                options_from(texts(args@), 0, OptionsText::bare()),
            ),
    {
        let ghost all = texts(args@);
        let mut options = Options {
            allow_network: false,
            manifest: None,
            report: None,
            keep_artifacts: false,
        };
        let mut i: usize = 0;
        while i < args.len()
            invariant
                all == texts(args@),
                i <= args@.len(),
                options_from(all, 0, OptionsText::bare()) == options_from(all, i as int, options@),
            decreases args@.len() - i,
        {
            let argument = args[i].as_str();
            assert(all[i as int] == argument@);
            let next: Option<String> = if i + 1 < args.len() {
                Some(args[i + 1].clone())
            } else {
                None
            };
            assert(i + 1 < args@.len() ==> all[i + 1] == args@[i + 1]@);
            if same_text(argument, "--allow-network") {
                options.allow_network = true;
                i += 1;
            } else if same_text(argument, "--manifest") {
                match next {
                    Some(path) => {
                        options.manifest = Some(path);
                        i += 2;
                    },
                    None => {
                        return Err("--manifest requires a path".to_owned());
                    },
                }
            } else if same_text(argument, "--report") {
                match next {
                    Some(path) => {
                        options.report = Some(path);
                        i += 2;
                    },
                    None => {
                        return Err("--report requires a path".to_owned());
                    },
                }
            } else if same_text(argument, "--keep-artifacts") {
                options.keep_artifacts = true;
                i += 1;
            } else if same_text(argument, "--help") || same_text(argument, "-h") {
                return Err(
                    "usage: automix_corpus --allow-network [--manifest PATH] [--report PATH] [--keep-artifacts]".to_owned(),
                );
            } else {
                return Err("unknown option: ".to_owned().concat(argument));
            }
        }
        Ok(options)
    }
}

/// In an accepted manifest no two tracks have one id, and every track is joined
/// with itself.
pub proof fn accepted_manifest_covers_its_tracks(manifest: CorpusManifest, i: int, j: int)
    requires
        manifest_error(manifest) is None,
        0 <= i < manifest.tracks@.len(),
        0 <= j < manifest.tracks@.len(),
    ensures
        i != j ==> manifest.tracks@[i].id@ != manifest.tracks@[j].id@,
        has_self_pair(manifest.pairs@, manifest.tracks@[i].id@),
        cross_pairs(manifest.pairs@, manifest.pairs@.len() as int) >= 2,
        manifest.thresholds.agreed(),
{
    lemma_no_track_error(manifest.tracks@, 0, i);
    lemma_no_track_error(manifest.tracks@, 0, j);
    if i < j {
        assert(!has_track(manifest.tracks@, j, manifest.tracks@[j].id@));
    } else if j < i {
        assert(!has_track(manifest.tracks@, i, manifest.tracks@[i].id@));
    }
}

proof fn lemma_no_track_error(tracks: Seq<TrackFixture>, from: int, i: int)
    requires
        0 <= from <= i < tracks.len(),
        first_track_error(tracks, from) is None,
    ensures
        track_error(tracks, i) is None,
    decreases i - from,
{
    if from < i {
        lemma_no_track_error(tracks, from + 1, i);
    }
}

/// A manifest is refused for the first of these: another schema than 1, fewer than four
/// tracks, a track or a pair that has an error, pairs that do not cover every track with
/// itself and two others, thresholds that are not the agreed ones.
pub proof fn manifests_are_refused_for_the_first_fault(manifest: CorpusManifest)
    ensures
        ({
            let error = manifest_error(manifest);
            let tracks = manifest.tracks@;
            let pairs = manifest.pairs@;
            let track = first_track_error(tracks, 0);
            let pair = first_pair_error(tracks, pairs, 0);
            let covered = forall|i: int|
                0 <= i < tracks.len() ==> has_self_pair(pairs, (#[trigger] tracks[i]).id@);
            let crossed = cross_pairs(pairs, pairs.len() as int) >= 2;
            &&& manifest.schema_version != 1 ==> error == Some(ManifestFault::UnsupportedSchema)
            &&& manifest.schema_version == 1 && tracks.len() < 4 ==> error == Some(
                ManifestFault::TooFewTracks,
            )
            &&& manifest.schema_version == 1 && tracks.len() >= 4 ==> {
                &&& track is Some ==> error == track
                &&& track is None && pair is Some ==> error == pair
                &&& track is None && pair is None && !(covered && crossed) ==> error == Some(
                    ManifestFault::IncompletePairs,
                )
                &&& track is None && pair is None && covered && crossed ==> (error is None
                    <==> manifest.thresholds.agreed())
                &&& track is None && pair is None && covered && crossed
                    && !manifest.thresholds.agreed() ==> error == Some(
                    ManifestFault::ForeignThresholds,
                )
            }
        }),
{
}

/// A track is refused where an id, a title, a genre, a video or a token is missing or its
/// id was there before, then where a token has nothing to search for, then for its address:
/// one that cannot be read, is not secure or has no host, or names another video.
pub proof fn tracks_are_refused_for_the_first_fault(tracks: Seq<TrackFixture>, i: int)
    requires
        0 <= i < tracks.len(),
    ensures
        ({
            let error = track_error(tracks, i);
            let track = tracks[i];
            let complete = track.id@.len() > 0 && track.title@.len() > 0 && track.genre@.len() > 0
                && track.expected_video_id@.len() > 0 && track.expected_title_tokens@.len() > 0;
            let repeated = exists|k: int| 0 <= k < i && (#[trigger] tracks[k]).id@ == track.id@;
            let searchable = forall|k: int|
                0 <= k < track.expected_title_tokens@.len() ==> identity_tokens(
                    (#[trigger] track.expected_title_tokens@[k])@,
                ).len() > 0;
            let parts = parsed_url(track.url@);
            &&& !complete || repeated ==> error == Some(ManifestFault::IncompleteTrack)
            &&& complete && !repeated && !searchable ==> error == Some(
                ManifestFault::UnsearchableToken,
            )
            &&& complete && !repeated && searchable ==> {
                &&& parts matches Err(reason) ==> error == Some(ManifestFault::InvalidUrl(reason))
                &&& parts matches Ok(url) ==> {
                    let secure = url.scheme == "https"@ && url.host is Some;
                    let named = video_id_of(url) == Some(track.expected_video_id@);
                    &&& !secure ==> error == Some(ManifestFault::InsecureUrl)
                    &&& secure && !named ==> error == Some(ManifestFault::UrlIdMismatch)
                    &&& secure && named ==> error is None
                }
            }
        }),
{
}

/// A pair is refused where it names a track that is not there, then where it does not
/// expect to be beat-matched.
pub proof fn pairs_are_refused_for_the_first_fault(tracks: Seq<TrackFixture>, pair: PairFixture)
    ensures
        ({
            let error = pair_error(tracks, pair);
            let known = (exists|i: int|
                0 <= i < tracks.len() && (#[trigger] tracks[i]).id@ == pair.outgoing@) && (
            exists|i: int|
                0 <= i < tracks.len() && (#[trigger] tracks[i]).id@ == pair.incoming@);
            &&& !known ==> error == Some(ManifestFault::UnknownPairTrack)
            &&& known && pair.expected_transition_kind@ != "BeatMatched"@ ==> error == Some(
                ManifestFault::UnexpectedKind,
            )
            &&& known && pair.expected_transition_kind@ == "BeatMatched"@ ==> error is None
        }),
{
}

/// The fault told is that of the first track or pair that has one, and there is none just
/// where none has.
pub proof fn first_faults_are_told(tracks: Seq<TrackFixture>, pairs: Seq<PairFixture>, from: int)
    requires
        0 <= from,
    ensures
        first_track_error(tracks, from) is None <==> forall|k: int|
            from <= k < tracks.len() ==> #[trigger] track_error(tracks, k) is None,
        first_pair_error(tracks, pairs, from) is None <==> forall|k: int|
            from <= k < pairs.len() ==> pair_error(tracks, #[trigger] pairs[k]) is None,
        from < tracks.len() && track_error(tracks, from) is Some ==> first_track_error(
            tracks,
            from,
        ) == track_error(tracks, from),
        from < tracks.len() && track_error(tracks, from) is None ==> first_track_error(
            tracks,
            from,
        ) == first_track_error(tracks, from + 1),
        from < pairs.len() && pair_error(tracks, pairs[from]) is Some ==> first_pair_error(
            tracks,
            pairs,
            from,
        ) == pair_error(tracks, pairs[from]),
    decreases tracks.len() + pairs.len() - from,
{
    if from < tracks.len() || from < pairs.len() {
        first_faults_are_told(tracks, pairs, from + 1);
    }
}

/// Each pair of two different tracks is counted once.
pub proof fn cross_pairs_are_counted(pairs: Seq<PairFixture>, n: int)
    requires
        0 <= n < pairs.len(),
    ensures
        cross_pairs(pairs, 0) == 0,
        pairs[n].outgoing@ == pairs[n].incoming@ ==> cross_pairs(pairs, n + 1) == cross_pairs(
            pairs,
            n,
        ),
        pairs[n].outgoing@ != pairs[n].incoming@ ==> cross_pairs(pairs, n + 1) == cross_pairs(
            pairs,
            n,
        ) + 1,
{
}

/// Each option takes effect on its own field and on no other: `--allow-network` and
/// `--keep-artifacts` switch theirs on, `--manifest` and `--report` take what follows them,
/// which must be there, and anything else ends the reading with its message.
pub proof fn options_take_effect_one_by_one(args: Seq<Seq<char>>, i: int, options: OptionsText)
    requires
        0 <= i < args.len(),
    ensures
        ({
            let parsed = options_from(args, i, options);
            let known = args[i] == "--allow-network"@ || args[i] == "--manifest"@ || args[i]
                == "--report"@ || args[i] == "--keep-artifacts"@;
            let help = args[i] == "--help"@ || args[i] == "-h"@;
            &&& options_from(args, args.len() as int, options) == Ok::<OptionsText, Seq<char>>(
                options,
            )
            &&& args[i] == "--allow-network"@ ==> parsed == options_from(
                args,
                i + 1,
                OptionsText {
                    allow_network: true,
                    manifest: options.manifest,
                    report: options.report,
                    keep_artifacts: options.keep_artifacts,
                },
            )
            &&& args[i] == "--keep-artifacts"@ ==> parsed == options_from(
                args,
                i + 1,
                OptionsText {
                    allow_network: options.allow_network,
                    manifest: options.manifest,
                    report: options.report,
                    keep_artifacts: true,
                },
            )
            &&& args[i] == "--manifest"@ && i + 1 < args.len() ==> parsed == options_from(
                args,
                i + 2,
                OptionsText {
                    allow_network: options.allow_network,
                    manifest: Some(args[i + 1]),
                    report: options.report,
                    keep_artifacts: options.keep_artifacts,
                },
            )
            &&& args[i] == "--report"@ && i + 1 < args.len() ==> parsed == options_from(
                args,
                i + 2,
                OptionsText {
                    allow_network: options.allow_network,
                    manifest: options.manifest,
                    report: Some(args[i + 1]),
                    keep_artifacts: options.keep_artifacts,
                },
            )
            &&& args[i] == "--manifest"@ && i + 1 == args.len() ==> parsed == Err::<
                OptionsText,
                Seq<char>,
            >("--manifest requires a path"@)
            &&& args[i] == "--report"@ && i + 1 == args.len() ==> parsed == Err::<
                OptionsText,
                Seq<char>,
            >("--report requires a path"@)
            &&& help ==> parsed is Err
            &&& !known && !help ==> parsed == Err::<OptionsText, Seq<char>>(
                "unknown option: "@ + args[i],
            )
            &&& !OptionsText::bare().allow_network && !OptionsText::bare().keep_artifacts
            &&& OptionsText::bare().manifest is None && OptionsText::bare().report is None
        }),
{
    reveal_strlit("--allow-network");
    reveal_strlit("--manifest");
    reveal_strlit("--report");
    reveal_strlit("--keep-artifacts");
    reveal_strlit("--help");
    reveal_strlit("-h");
    assert("--allow-network"@.len() == 15);
    assert("--manifest"@.len() == 10);
    assert("--report"@.len() == 8);
    assert("--keep-artifacts"@.len() == 16);
    assert("--help"@.len() == 6);
    assert("-h"@.len() == 2);
}

/// A track is there just where one of the first has its id, and is joined with itself just
/// where a pair names it on both sides.
pub proof fn tracks_and_pairs_are_found_by_id(
    tracks: Seq<TrackFixture>,
    pairs: Seq<PairFixture>,
    n: int,
    id: Seq<char>,
)
    ensures
        has_track(tracks, n, id) <==> exists|i: int| 0 <= i < n && (#[trigger] tracks[i]).id@ == id,
        has_self_pair(pairs, id) <==> exists|i: int|
            0 <= i < pairs.len() && (#[trigger] pairs[i]).outgoing@ == id && pairs[i].incoming@
                == id,
{
}

/// Reading the options tells just what was parsed, or just the message of the error.
pub proof fn options_are_told_as_parsed(
    result: Result<Options, String>,
    parsed: Result<OptionsText, Seq<char>>,
)
    requires
        is_options_parse(result, parsed),
    ensures
        result is Ok <==> parsed is Ok,
        result matches Ok(options) ==> options.allow_network == parsed->Ok_0.allow_network
            && options.keep_artifacts == parsed->Ok_0.keep_artifacts,
        result matches Err(message) ==> message@ == parsed->Err_0,
{
}

} // verus!
