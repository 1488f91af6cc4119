//! Rendered previews: their container, and the windows in which they are measured.

use vstd::prelude::*;

use crate::automix::plan::TransitionPlan;
use crate::automix::track::TrackAnalysis;
use crate::time::{spec_min, Duration, MAX_NANOS};

verus! {

/// Milliseconds of a loudness window.
pub const RMS_WINDOW_MS: u32 = 500;

/// Milliseconds between loudness windows.
pub const RMS_HOP_MS: u32 = 250;

/// Milliseconds between silence windows.
pub const SILENCE_HOP_MS: u32 = 10;

/// Why a file is not a preview that can be measured.
#[derive(Clone, Copy, Debug, PartialEq, Eq, Structural)]
pub enum WavError {
    NotRiffWave,
    ChunkOverflow,
    TruncatedChunk,
    MissingFormat,
    MissingData,
    TruncatedFormat,
    NotPcm16,
    InvalidFrameLayout,
}

impl WavError {
    /// The message of the error.
    pub open spec fn spec_message(self) -> Seq<char> {
        match self {
            WavError::NotRiffWave => "preview is not a RIFF/WAVE file"@,
            WavError::ChunkOverflow => "WAV chunk overflow"@,
            WavError::TruncatedChunk => "truncated WAV chunk"@,
            WavError::MissingFormat => "WAV format chunk is missing"@,
            WavError::MissingData => "WAV data chunk is missing"@,
            WavError::TruncatedFormat => "WAV format chunk is truncated"@,
            WavError::NotPcm16 => "only non-empty PCM16 WAV previews are supported"@,
            WavError::InvalidFrameLayout => "WAV PCM frame layout is invalid"@,
        }
    }

    /// The message of the error.
    pub fn message(self) -> (r: &'static str)
        ensures
            r@ == self.spec_message(),
    {
        match self {
            WavError::NotRiffWave => "preview is not a RIFF/WAVE file",
            WavError::ChunkOverflow => "WAV chunk overflow",
            WavError::TruncatedChunk => "truncated WAV chunk",
            WavError::MissingFormat => "WAV format chunk is missing",
            WavError::MissingData => "WAV data chunk is missing",
            WavError::TruncatedFormat => "WAV format chunk is truncated",
            WavError::NotPcm16 => "only non-empty PCM16 WAV previews are supported",
            WavError::InvalidFrameLayout => "WAV PCM frame layout is invalid",
        }
    }
}

/// Audio of 16-bit samples, interleaved by channel.
#[derive(Clone, Debug, PartialEq, Eq)]
pub struct WavPcm {
    pub sample_rate: u32,
    pub channels: u16,
    pub samples: Vec<i16>,
}

impl WavPcm {
    /// Whether the audio has whole frames, at least one.
    pub open spec fn wf(&self) -> bool {
        &&& self.sample_rate > 0
        &&& self.channels > 0
        &&& self.samples@.len() > 0
        &&& self.samples@.len() % (self.channels as nat) == 0
    }

    /// How many frames the audio has.
    pub fn frames(&self) -> (r: usize)
        requires
            self.channels > 0,
        ensures
            r == self.samples@.len() / (self.channels as nat),
    {
        self.samples.len() / self.channels as usize
    }
}

/// The 16-bit number at a position, low byte first.
pub open spec fn le16(bytes: Seq<u8>, at: int) -> int {
    bytes[at] + 256 * bytes[at + 1]
}

/// The 32-bit number at a position, low byte first.
pub open spec fn le32(bytes: Seq<u8>, at: int) -> int {
    bytes[at] + 256 * bytes[at + 1] + 65_536 * bytes[at + 2] + 16_777_216 * bytes[at + 3]
}

fn read_le16(bytes: &[u8], at: usize) -> (r: u16)
    requires
        at + 2 <= bytes@.len(),
    ensures
        r == le16(bytes@, at as int),
{
    bytes[at] as u16 + 256 * bytes[at + 1] as u16
}

fn read_le32(bytes: &[u8], at: usize) -> (r: u32)
    requires
        at + 4 <= bytes@.len(),
    ensures
        r == le32(bytes@, at as int),
{
    bytes[at] as u32 + 256 * bytes[at + 1] as u32 + 65_536 * bytes[at + 2] as u32 + 16_777_216
        * bytes[at + 3] as u32
}

/// Whether four bytes stand at a position.
pub open spec fn is_tag(bytes: Seq<u8>, at: int, a: u8, b: u8, c: u8, d: u8) -> bool {
    bytes[at] == a && bytes[at + 1] == b && bytes[at + 2] == c && bytes[at + 3] == d
}

fn has_tag(bytes: &[u8], at: usize, a: u8, b: u8, c: u8, d: u8) -> (r: bool)
    requires
        at + 4 <= bytes@.len(),
    ensures
        r == is_tag(bytes@, at as int, a, b, c, d),
{
    bytes[at] == a && bytes[at + 1] == b && bytes[at + 2] == c && bytes[at + 3] == d
}

/// Whether a chunk tells the format.
pub open spec fn is_format(bytes: Seq<u8>, at: int) -> bool {
    is_tag(bytes, at, 0x66, 0x6D, 0x74, 0x20)
}

/// Whether a chunk holds the samples.
pub open spec fn is_data(bytes: Seq<u8>, at: int) -> bool {
    is_tag(bytes, at, 0x64, 0x61, 0x74, 0x61)
}

/// Where the last format chunk and the last data chunk stand, read from `cursor`
/// on, where `format` and `data` stood before it. Chunks begin at even distances.
pub open spec fn chunks_from(
    wav: Seq<u8>,
    cursor: int,
    format: Option<(int, int)>,
    data: Option<(int, int)>,
) -> Result<(Option<(int, int)>, Option<(int, int)>), WavError>
    decreases wav.len() + 1 - cursor,
{
    if cursor < 0 || cursor + 8 > wav.len() {
        Ok((format, data))
    } else {
        let length = le32(wav, cursor + 4);
        let start = cursor + 8;
        let end = start + length;
        if end > usize::MAX {
            Err(WavError::ChunkOverflow)
        } else if end > wav.len() {
            Err(WavError::TruncatedChunk)
        } else {
            chunks_from(
                wav,
                end + length % 2,
                if is_format(wav, cursor) {
                    Some((start, end))
                } else {
                    format
                },
                if !is_format(wav, cursor) && is_data(wav, cursor) {
                    Some((start, end))
                } else {
                    data
                },
            )
        }
    }
}

/// The signed 16-bit number at a position.
pub open spec fn sample_at(bytes: Seq<u8>, at: int) -> int {
    if le16(bytes, at) < 32_768 {
        le16(bytes, at)
    } else {
        le16(bytes, at) - 65_536
    }
}

/// What is wrong with the format and data chunks; none where nothing is.
pub open spec fn layout_error(wav: Seq<u8>, format: (int, int), data: (int, int)) -> Option<
    WavError,
> {
    let length = data.1 - data.0;
    if format.1 - format.0 < 16 {
        Some(WavError::TruncatedFormat)
    } else if le16(wav, format.0) != 1 || le16(wav, format.0 + 2) == 0 || le32(wav, format.0 + 4)
        == 0 || le16(wav, format.0 + 14) != 16 || length % 2 != 0 {
        Some(WavError::NotPcm16)
    } else if length == 0 || (length / 2) % le16(wav, format.0 + 2) != 0 {
        Some(WavError::InvalidFrameLayout)
    } else {
        None
    }
}

/// Whether `result` is what a file holds: the audio of its data chunk in the form
/// that its format chunk tells, or the first error on the way.
pub open spec fn is_decoding(result: Result<WavPcm, WavError>, wav: Seq<u8>) -> bool {
    if wav.len() < 12 || !is_tag(wav, 0, 0x52, 0x49, 0x46, 0x46) || !is_tag(
        wav,
        8,
        0x57,
        0x41,
        0x56,
        0x45,
    ) {
        result == Err::<WavPcm, WavError>(WavError::NotRiffWave)
    } else {
        match chunks_from(wav, 12, None, None) {
            Err(error) => result == Err::<WavPcm, WavError>(error),
            Ok((None, _)) => result == Err::<WavPcm, WavError>(WavError::MissingFormat),
            Ok((Some(_), None)) => result == Err::<WavPcm, WavError>(WavError::MissingData),
            Ok((Some(format), Some(data))) => match layout_error(wav, format, data) {
                Some(error) => result == Err::<WavPcm, WavError>(error),
                None => result matches Ok(pcm) && pcm.sample_rate == le32(wav, format.0 + 4)
                    && pcm.channels == le16(wav, format.0 + 2) && pcm.samples@.len() == (data.1
                    - data.0) / 2 && (forall|i: int|
                    0 <= i < pcm.samples@.len() ==> #[trigger] pcm.samples@[i] == sample_at(
                        wav,
                        data.0 + 2 * i,
                    )) && pcm.wf(),
            },
        }
    }
}

/// The pair of positions of a chunk, as integers.
pub open spec fn span(positions: Option<(usize, usize)>) -> Option<(int, int)> {
    match positions {
        Some((start, end)) => Some((start as int, end as int)),
        None => None,
    }
}

/// Whether the positions of a chunk lie in the file.
pub open spec fn span_fits(positions: Option<(usize, usize)>, length: nat) -> bool {
    positions matches Some((start, end)) ==> start <= end <= length
}

/// Decodes a file of 16-bit PCM audio.
pub fn decode_pcm16_wav(wav: &[u8]) -> (r: Result<WavPcm, WavError>)
    ensures
        is_decoding(r, wav@),
{
    if wav.len() < 12 || !has_tag(wav, 0, 0x52, 0x49, 0x46, 0x46) || !has_tag(
        wav,
        8,
        0x57,
        0x41,
        0x56,
        0x45,
    ) {
        return Err(WavError::NotRiffWave);
    }
    let mut cursor: usize = 12;
    let mut format: Option<(usize, usize)> = None;
    let mut data: Option<(usize, usize)> = None;
    while cursor <= wav.len() && wav.len() - cursor >= 8
        invariant
            12 <= wav@.len(),
            is_tag(wav@, 0, 0x52, 0x49, 0x46, 0x46),
            is_tag(wav@, 8, 0x57, 0x41, 0x56, 0x45),
            span_fits(format, wav@.len()),
            span_fits(data, wav@.len()),
            chunks_from(wav@, 12, None, None) == chunks_from(
                wav@,
                cursor as int,
                span(format),
                span(data),
            ),
        decreases wav@.len() + 2 - cursor,
    {
        let length: u32 = read_le32(wav, cursor + 4);
        let start: usize = cursor + 8;
        let end: usize = match start.checked_add(length as usize) {
            Some(end) => end,
            None => {
                return Err(WavError::ChunkOverflow);
            },
        };
        if end > wav.len() {
            return Err(WavError::TruncatedChunk);
        }
        if has_tag(wav, cursor, 0x66, 0x6D, 0x74, 0x20) {
            format = Some((start, end));
        } else if has_tag(wav, cursor, 0x64, 0x61, 0x74, 0x61) {
            data = Some((start, end));
        }
        let padding: usize = (length % 2) as usize;
        match end.checked_add(padding) {
            Some(next) => {
                cursor = next;
            },
            None => {
                // The padding would stand beyond what can be addressed, and with it
                // every further chunk.
                proof {
                    assert(chunks_from(wav@, end + length % 2, span(format), span(data)) == Ok::<
                        (Option<(int, int)>, Option<(int, int)>),
                        WavError,
                    >((span(format), span(data))));
                }
                return decode_chunks(wav, format, data);
            },
        }
    }
    decode_chunks(wav, format, data)
}

fn decode_chunks(
    wav: &[u8],
    format: Option<(usize, usize)>,
    data: Option<(usize, usize)>,
) -> (r: Result<WavPcm, WavError>)
    requires
        12 <= wav@.len(),
        is_tag(wav@, 0, 0x52, 0x49, 0x46, 0x46),
        is_tag(wav@, 8, 0x57, 0x41, 0x56, 0x45),
        span_fits(format, wav@.len()),
        span_fits(data, wav@.len()),
        chunks_from(wav@, 12, None, None) == Ok::<
            (Option<(int, int)>, Option<(int, int)>),
            WavError,
        >((span(format), span(data))),
    ensures
        is_decoding(r, wav@),
{
    let (format_start, format_end): (usize, usize) = match format {
        Some(positions) => positions,
        None => {
            return Err(WavError::MissingFormat);
        },
    };
    let (data_start, data_end): (usize, usize) = match data {
        Some(positions) => positions,
        None => {
            return Err(WavError::MissingData);
        },
    };
    if format_end - format_start < 16 {
        return Err(WavError::TruncatedFormat);
    }
    let encoding: u16 = read_le16(wav, format_start);
    let channels: u16 = read_le16(wav, format_start + 2);
    let sample_rate: u32 = read_le32(wav, format_start + 4);
    let bits: u16 = read_le16(wav, format_start + 14);
    let length: usize = data_end - data_start;
    if encoding != 1 || channels == 0 || sample_rate == 0 || bits != 16 || length % 2 != 0 {
        return Err(WavError::NotPcm16);
    }
    let count: usize = length / 2;
    if count == 0 || count % channels as usize != 0 {
        return Err(WavError::InvalidFrameLayout);
    }
    let mut samples: Vec<i16> = Vec::new();
    let mut i: usize = 0;
    while i < count
        invariant
            i <= count,
            count == length / 2,
            length == data_end - data_start,
            data_end <= wav@.len(),
            samples@.len() == i,
            forall|k: int|
                0 <= k < i ==> #[trigger] samples@[k] == sample_at(wav@, data_start + 2 * k),
        decreases count - i,
    {
        let value: u16 = read_le16(wav, data_start + 2 * i);
        let sample: i16 = if value < 32_768 {
            value as i16
        } else {
            (value as i32 - 65_536) as i16
        };
        samples.push(sample);
        i += 1;
    }
    Ok(WavPcm { sample_rate, channels, samples })
}

/// How many frames some milliseconds take, rounded down.
pub fn frames_for_ms(sample_rate: u32, milliseconds: u32) -> (r: usize)
    ensures
        r == ((sample_rate * milliseconds) / 1000) as usize,
{
    proof {
        assert(sample_rate * milliseconds <= 0xFFFF_FFFF * 0xFFFF_FFFF) by (nonlinear_arith)
            requires
                sample_rate <= 0xFFFF_FFFF,
                milliseconds <= 0xFFFF_FFFF,
        ;
        assert(sample_rate * milliseconds >= 0) by (nonlinear_arith);
    }
    ((sample_rate as u64 * milliseconds as u64) / 1000) as usize
}

/// How many windows of a length fit into some frames, one every `hop` frames.
pub open spec fn window_count(frames: int, window: int, hop: int) -> int {
    if frames < window {
        0
    } else {
        (frames - window) / hop + 1
    }
}

/// The first frames of the windows of a length, one every `hop` frames.
pub fn window_starts(frames: usize, window: usize, hop: usize) -> (r: Vec<usize>)
    requires
        hop > 0,
    ensures
        r@.len() == window_count(frames as int, window as int, hop as int),
        forall|k: int|
            0 <= k < r@.len() ==> #[trigger] r@[k] == k * hop && r@[k] + window <= frames,
{
    let mut starts: Vec<usize> = Vec::new();
    if frames < window {
        return starts;
    }
    let last: usize = frames - window;
    let mut start: usize = 0;
    let mut open: bool = true;
    assert(0 * hop == 0) by (nonlinear_arith);
    while open && start <= last
        invariant
            hop > 0,
            last == frames - window,
            frames >= window,
            forall|k: int|
                0 <= k < starts@.len() ==> #[trigger] starts@[k] == k * hop && starts@[k] <= last,
            open ==> start == starts@.len() * hop,
            !open ==> starts@.len() * hop > last,
            starts@.len() > 0 ==> (starts@.len() - 1) * hop <= last,
        decreases
            last + 1 - (if open {
                crate::time::spec_min(start as int, last + 1)
            } else {
                last + 1
            }),
    {
        let ghost n = starts@.len() as int;
        starts.push(start);
        proof {
            assert((n + 1) * hop == n * hop + hop) by (nonlinear_arith);
        }
        match start.checked_add(hop) {
            Some(next) => {
                start = next;
            },
            None => {
                open = false;
            },
        }
    }
    proof {
        let n = starts@.len() as int;
        let h = hop as int;
        let l = last as int;
        assert(n > 0) by {
            if n == 0 {
                assert(0 * h == 0) by (nonlinear_arith);
            }
        }
        assert(n * h > l);
        vstd::arithmetic::div_mod::lemma_fundamental_div_mod(l, h);
        let q = l / h;
        assert(q == n - 1) by (nonlinear_arith)
            requires
                h > 0,
                n * h > l,
                (n - 1) * h <= l,
                l == h * q + l % h,
                0 <= l % h < h,
        ;
    }
    starts
}

/// The length of the run of flags that ends before position `n`.
pub open spec fn run_before(flags: Seq<bool>, n: int) -> nat
    decreases n,
{
    if n <= 0 || !flags[n - 1] {
        0
    } else {
        run_before(flags, n - 1) + 1
    }
}

/// The length of the longest run of flags among the first `n`.
pub open spec fn longest_run_of(flags: Seq<bool>, n: int) -> nat
    decreases n,
{
    if n <= 0 {
        0
    } else if run_before(flags, n) > longest_run_of(flags, n - 1) {
        run_before(flags, n)
    } else {
        longest_run_of(flags, n - 1)
    }
}

/// How many of the first `n` flags are set.
pub open spec fn count_set(flags: Seq<bool>, n: int) -> nat
    decreases n,
{
    if n <= 0 {
        0
    } else {
        count_set(flags, n - 1) + if flags[n - 1] {
            1nat
        } else {
            0nat
        }
    }
}

/// How many flags are set, and the length of their longest run.
pub fn count_and_longest_run(flags: &[bool]) -> (r: (usize, usize))
    ensures
        r.0 == count_set(flags@, flags@.len() as int),
        r.1 == longest_run_of(flags@, flags@.len() as int),
        r.1 <= flags@.len(),
        r.1 == 0 <==> r.0 == 0,
{
    let mut count: usize = 0;
    let mut run: usize = 0;
    let mut longest: usize = 0;
    let mut i: usize = 0;
    while i < flags.len()
        invariant
            i <= flags@.len(),
            count == count_set(flags@, i as int),
            count <= i,
            run == run_before(flags@, i as int),
            run <= i,
            longest == longest_run_of(flags@, i as int),
            longest <= i,
            run <= longest,
            longest == 0 <==> count == 0,
        decreases flags@.len() - i,
    {
        if flags[i] {
            count += 1;
            run += 1;
            if run > longest {
                longest = run;
            }
        } else {
            run = 0;
        }
        i += 1;
    }
    (count, longest)
}

/// Every run of set flags is no longer than the longest one.
pub proof fn longest_run_bounds_every_run(flags: Seq<bool>, n: int, from: int, to: int)
    requires
        0 <= from <= to <= n,
        forall|i: int| from <= i < to ==> #[trigger] flags[i],
    ensures
        to - from <= longest_run_of(flags, n),
    decreases n,
{
    lemma_run_before(flags, from, to);
    if to < n {
        longest_run_bounds_every_run(flags, n - 1, from, to);
    }
}

proof fn lemma_run_before(flags: Seq<bool>, from: int, to: int)
    requires
        0 <= from <= to,
        forall|i: int| from <= i < to ==> #[trigger] flags[i],
    ensures
        run_before(flags, to) >= to - from,
    decreases to - from,
{
    if from < to {
        lemma_run_before(flags, from, to - 1);
    }
}

/// Windows that were silent.
#[derive(Clone, Copy, Debug, PartialEq, Eq, Structural)]
pub struct SilenceReport {
    pub window_ms: u32,
    /// Bits of the loudness below which a window is silent.
    pub threshold_dbfs: u32,
    pub windows_detected: usize,
    pub longest_run_ms: u32,
}

/// Reports the windows that were silent, in the order of time. The longest silence
/// lasts one window, and one hop for each further window of the run.
pub fn silence_report(
    silent: &[bool],
    window_ms: u32,
    threshold_dbfs: u32,
) -> (r: SilenceReport)
    requires
        longest_run_of(silent@, silent@.len() as int) > 0 ==> window_ms + (longest_run_of(
            silent@,
            silent@.len() as int,
        ) - 1) * SILENCE_HOP_MS <= u32::MAX,
    ensures
        r.window_ms == window_ms,
        r.threshold_dbfs == threshold_dbfs,
        r.windows_detected == count_set(silent@, silent@.len() as int),
        r.longest_run_ms == if longest_run_of(silent@, silent@.len() as int) == 0 {
            0
        } else {
            window_ms + (longest_run_of(silent@, silent@.len() as int) - 1) * SILENCE_HOP_MS
        },
{
    let (detected, longest): (usize, usize) = count_and_longest_run(silent);
    let longest_run_ms: u32 = if longest == 0 {
        0
    } else {
        window_ms + (longest as u32 - 1) * SILENCE_HOP_MS
    };
    SilenceReport { window_ms, threshold_dbfs, windows_detected: detected, longest_run_ms }
}

/// How many of the first `n` beats lie between two positions, both included.
pub open spec fn beats_within(beats: Seq<Duration>, start: int, end: int, n: int) -> nat
    decreases n,
{
    if n <= 0 {
        0
    } else {
        beats_within(beats, start, end, n - 1) + if start <= beats[n - 1]@ <= end {
            1nat
        } else {
            0nat
        }
    }
}

fn count_beats_within(beats: &[Duration], start: Duration, end: Duration) -> (r: usize)
    ensures
        r == beats_within(beats@, start@, end@, beats@.len() as int),
{
    let mut count: usize = 0;
    let mut i: usize = 0;
    while i < beats.len()
        invariant
            i <= beats@.len(),
            count <= i,
            count == beats_within(beats@, start@, end@, i as int),
        decreases beats@.len() - i,
    {
        if start.within(beats[i]) && beats[i].within(end) {
            count += 1;
        }
        i += 1;
    }
    count
}

/// How many beats of a track lie in a region that starts at one position and is so
/// long.
pub open spec fn beats_in(track: TrackAnalysis, start: int, length: int) -> nat {
    beats_within(
        track.beat_markers@,
        start,
        spec_min(start + length, MAX_NANOS as int),
        track.beat_markers@.len() as int,
    )
}

/// How many beats the overlap of a plan is expected to have: as many as both tracks
/// have in it, where it consumes so much of the incoming track. None where a track
/// has no tempo or no beats; none are expected of an overlap without length.
pub fn expected_overlap_beats(
    outgoing: &TrackAnalysis,
    incoming: &TrackAnalysis,
    plan: &TransitionPlan,
    incoming_source: Duration,
) -> (r: Option<usize>)
    ensures
        r == if plan.duration@ == 0 {
            Some(0usize)
        } else if outgoing.bpm is None || incoming.bpm is None || outgoing.beat_markers@.len() == 0
            || incoming.beat_markers@.len() == 0 {
            None
        } else {
            Some(
                spec_min(
                    beats_in(*outgoing, plan.outgoing_start@, plan.duration@) as int,
                    beats_in(*incoming, plan.incoming_start@, incoming_source@) as int,
                ) as usize,
            )
        },
{
    if plan.duration.is_zero() {
        return Some(0);
    }
    if outgoing.bpm.is_none() || incoming.bpm.is_none() || outgoing.beat_markers.len() == 0
        || incoming.beat_markers.len() == 0 {
        return None;
    }
    let outgoing_beats: usize = count_beats_within(
        outgoing.beat_markers.as_slice(),
        plan.outgoing_start,
        plan.outgoing_start.saturating_add(plan.duration),
    );
    let incoming_beats: usize = count_beats_within(
        incoming.beat_markers.as_slice(),
        plan.incoming_start,
        plan.incoming_start.saturating_add(incoming_source),
    );
    if outgoing_beats <= incoming_beats {
        Some(outgoing_beats)
    } else {
        Some(incoming_beats)
    }
}

/// Numbers are read from their lowest byte up, and a sample of 16 bits with its sign.
pub proof fn numbers_are_read_from_the_lowest_byte(bytes: Seq<u8>, at: int)
    ensures
        le16(bytes, at) % 256 == bytes[at],
        le16(bytes, at) / 256 == bytes[at + 1],
        le32(bytes, at) % 65_536 == le16(bytes, at),
        le32(bytes, at) / 65_536 == le16(bytes, at + 2),
        -32_768 <= sample_at(bytes, at) <= 32_767,
        (sample_at(bytes, at) - le16(bytes, at)) % 65_536 == 0,
        sample_at(bytes, at) < 0 <==> bytes[at + 1] >= 128,
{
}

/// A format chunk is tagged with `fmt` and a space, a data chunk with `data`, and no chunk
/// with both.
pub proof fn chunks_are_told_by_their_tags(bytes: Seq<u8>, at: int)
    ensures
        is_format(bytes, at) <==> bytes[at] == 'f' as u8 && bytes[at + 1] == 'm' as u8 && bytes[at
            + 2] == 't' as u8 && bytes[at + 3] == ' ' as u8,
        is_data(bytes, at) <==> bytes[at] == 'd' as u8 && bytes[at + 1] == 'a' as u8 && bytes[at
            + 2] == 't' as u8 && bytes[at + 3] == 'a' as u8,
        !(is_format(bytes, at) && is_data(bytes, at)),
{
}

/// Chunks follow one another, each after the even end of the one before it; the last format
/// and the last data chunk count, others are passed over, and one that goes beyond the
/// bytes is an error.
pub proof fn chunks_follow_one_another(
    wav: Seq<u8>,
    cursor: int,
    format: Option<(int, int)>,
    data: Option<(int, int)>,
)
    requires
        0 <= cursor,
    ensures
        ({
            let chunks = chunks_from(wav, cursor, format, data);
            let start = cursor + 8;
            let end = start + le32(wav, cursor + 4);
            let next = if (end - start) % 2 == 0 {
                end
            } else {
                end + 1
            };
            let inside = start <= wav.len() && end <= wav.len() && end <= usize::MAX;
            &&& start > wav.len() ==> chunks == Ok::<
                (Option<(int, int)>, Option<(int, int)>),
                WavError,
            >((format, data))
            &&& start <= wav.len() && end > usize::MAX ==> chunks == Err::<
                (Option<(int, int)>, Option<(int, int)>),
                WavError,
            >(WavError::ChunkOverflow)
            &&& start <= wav.len() && end <= usize::MAX && end > wav.len() ==> chunks == Err::<
                (Option<(int, int)>, Option<(int, int)>),
                WavError,
            >(WavError::TruncatedChunk)
            &&& inside && is_format(wav, cursor) ==> chunks == chunks_from(
                wav,
                next,
                Some((start, end)),
                data,
            )
            &&& inside && is_data(wav, cursor) ==> chunks == chunks_from(
                wav,
                next,
                format,
                Some((start, end)),
            )
            &&& inside && !is_format(wav, cursor) && !is_data(wav, cursor) ==> chunks
                == chunks_from(wav, next, format, data)
        }),
{
}

/// The layout holds just where the format has its 16 bytes, tells plain samples of 16 bits
/// with channels and a rate, and the data is whole frames and at least one; each fault is
/// told by its error.
pub proof fn layouts_are_whole_frames_of_plain_samples(
    wav: Seq<u8>,
    format: (int, int),
    data: (int, int),
)
    requires
        data.0 <= data.1,
    ensures
        ({
            let error = layout_error(wav, format, data);
            let at = format.0;
            let told = format.1 - at >= 16;
            let plain = le16(wav, at) == 1 && le16(wav, at + 14) == 16;
            let channels = le16(wav, at + 2);
            let length = data.1 - data.0;
            let pcm = plain && channels > 0 && le32(wav, at + 4) > 0 && length % 2 == 0;
            &&& !told <==> error == Some(WavError::TruncatedFormat)
            &&& told && !pcm <==> error == Some(WavError::NotPcm16)
            &&& told && pcm && (length == 0 || (length / 2) % channels != 0) <==> error == Some(
                WavError::InvalidFrameLayout,
            )
            &&& error is None <==> told && pcm && length > 0 && (length / 2) % channels == 0
        }),
{
}

/// As many windows are taken as fit: the last one ends within the frames, and one more
/// would not.
pub proof fn windows_are_taken_as_long_as_they_fit(frames: int, window: int, hop: int)
    requires
        0 <= frames,
        0 < window,
        0 < hop,
    ensures
        ({
            let count = window_count(frames, window, hop);
            &&& frames < window ==> count == 0
            &&& frames >= window ==> {
                &&& count >= 1
                &&& (count - 1) * hop + window <= frames
                &&& count * hop + window > frames
            }
        }),
{
    if frames >= window {
        let left = frames - window;
        let count = window_count(frames, window, hop);
        vstd::arithmetic::div_mod::lemma_fundamental_div_mod(left, hop);
        vstd::arithmetic::div_mod::lemma_mod_bound(left, hop);
        assert(hop * (left / hop) == (count - 1) * hop) by (nonlinear_arith)
            requires
                count - 1 == left / hop,
        ;
        assert(count * hop == (count - 1) * hop + hop) by (nonlinear_arith);
        assert(left / hop >= 0) by (nonlinear_arith)
            requires
                left >= 0,
                hop > 0,
        ;
    }
}

/// The longest run is there: so many flags in a row are set.
pub proof fn longest_runs_are_reached(flags: Seq<bool>, n: int)
    requires
        0 <= n <= flags.len(),
    ensures
        exists|to: int|
            0 <= to <= n && #[trigger] run_before(flags, to) == longest_run_of(flags, n),
        forall|i: int| n - run_before(flags, n) <= i < n ==> #[trigger] flags[i],
        run_before(flags, n) <= n,
    decreases n,
{
    if n > 0 {
        longest_runs_are_reached(flags, n - 1);
        if run_before(flags, n) > longest_run_of(flags, n - 1) {
            assert(run_before(flags, n) == longest_run_of(flags, n));
        } else {
            let to = choose|to: int|
                0 <= to <= n - 1 && #[trigger] run_before(flags, to) == longest_run_of(
                    flags,
                    n - 1,
                );
            assert(run_before(flags, to) == longest_run_of(flags, n));
        }
    } else {
        assert(run_before(flags, 0) == longest_run_of(flags, 0));
    }
}

/// Each set flag is counted once, and each beat from the start of a span to its end, both
/// included.
pub proof fn flags_and_beats_are_counted(
    flags: Seq<bool>,
    beats: Seq<Duration>,
    start: int,
    end: int,
    n: int,
)
    requires
        0 <= n,
    ensures
        count_set(flags, 0) == 0,
        beats_within(beats, start, end, 0) == 0,
        n < flags.len() && flags[n] ==> count_set(flags, n + 1) == count_set(flags, n) + 1,
        n < flags.len() && !flags[n] ==> count_set(flags, n + 1) == count_set(flags, n),
        n < beats.len() && start <= beats[n]@ <= end ==> beats_within(beats, start, end, n + 1)
            == beats_within(beats, start, end, n) + 1,
        n < beats.len() && !(start <= beats[n]@ <= end) ==> beats_within(
            beats,
            start,
            end,
            n + 1,
        ) == beats_within(beats, start, end, n),
{
}

/// Each error has its message.
pub proof fn errors_have_their_messages()
    ensures
        WavError::NotRiffWave.spec_message() == "preview is not a RIFF/WAVE file"@,
        WavError::ChunkOverflow.spec_message() == "WAV chunk overflow"@,
        WavError::TruncatedChunk.spec_message() == "truncated WAV chunk"@,
        WavError::MissingFormat.spec_message() == "WAV format chunk is missing"@,
        WavError::MissingData.spec_message() == "WAV data chunk is missing"@,
        WavError::TruncatedFormat.spec_message() == "WAV format chunk is truncated"@,
        WavError::NotPcm16.spec_message() == "only non-empty PCM16 WAV previews are supported"@,
        WavError::InvalidFrameLayout.spec_message() == "WAV PCM frame layout is invalid"@,
{
}

/// Bytes are decoded only where they begin as a RIFF file of WAVE and have a format and
/// data; the rate and the channels are those of the format, and each sample is the two
/// bytes in its place.
pub proof fn decoded_samples_stand_in_their_place(
    result: Result<WavPcm, WavError>,
    wav: Seq<u8>,
    i: int,
)
    requires
        is_decoding(result, wav),
    ensures
        wav.len() < 12 ==> result == Err::<WavPcm, WavError>(WavError::NotRiffWave),
        result matches Ok(pcm) ==> {
            &&& wav.len() >= 12
            &&& wav[0] == 'R' as u8 && wav[1] == 'I' as u8 && wav[2] == 'F' as u8 && wav[3]
                == 'F' as u8
            &&& wav[8] == 'W' as u8 && wav[9] == 'A' as u8 && wav[10] == 'V' as u8 && wav[11]
                == 'E' as u8
            &&& pcm.sample_rate > 0 && pcm.channels > 0 && pcm.samples@.len() > 0
            &&& chunks_from(wav, 12, None, None) matches Ok((Some(format), Some(data)))
            &&& layout_error(wav, format, data) is None
            &&& pcm.sample_rate == le32(wav, format.0 + 4)
            &&& pcm.channels == le16(wav, format.0 + 2)
            &&& 0 <= i < pcm.samples@.len() ==> pcm.samples@[i] == sample_at(wav, data.0 + 2 * i)
        },
        chunks_from(wav, 12, None, None) matches Ok((None, _)) ==> result is Err,
        chunks_from(wav, 12, None, None) matches Ok((_, None)) ==> result is Err,
{
}

/// The beats of an overlap are those from its start to its end.
pub proof fn overlap_beats_lie_between_its_ends(track: TrackAnalysis, start: int, length: int)
    requires
        start + length <= MAX_NANOS,
    ensures
        beats_in(track, start, length) == beats_within(
            track.beat_markers@,
            start,
            start + length,
            track.beat_markers@.len() as int,
        ),
        RMS_WINDOW_MS == 500 && RMS_HOP_MS == 250 && SILENCE_HOP_MS == 10,
{
}

} // verus!
