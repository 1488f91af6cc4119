//! Options of the track probe, and its output.

use vstd::prelude::*;

use crate::automix::track::AutoMixConfig;
use crate::contracts::TrackRequest;
use crate::corpus::identity::optional_text;
use crate::text::{decimal_wide, same_text, spec_decimal, spec_starts_with, starts_with, texts};
use crate::time::{Duration, NANOS_PER_MILLI};

verus! {

/// The options of the track probe.
#[derive(Clone, Debug, PartialEq, Eq)]
pub struct ProbeOptions {
    pub warmup: bool,
    pub automix_plan: bool,
    pub automix_preview: Option<String>,
    pub urls: Vec<String>,
}

/// What the options tell.
pub struct ProbeOptionsText {
    pub warmup: bool,
    pub automix_plan: bool,
    pub automix_preview: Option<Seq<char>>,
    pub urls: Seq<Seq<char>>,
}

impl ProbeOptionsText {
    /// The options without arguments.
    pub open spec fn bare() -> ProbeOptionsText {
        ProbeOptionsText {
            warmup: false,
            automix_plan: false,
            automix_preview: None,
            urls: Seq::empty(),
        }
    }
}

impl View for ProbeOptions {
    type V = ProbeOptionsText;

    open spec fn view(&self) -> ProbeOptionsText {
        ProbeOptionsText {
            warmup: self.warmup,
            automix_plan: self.automix_plan,
            automix_preview: optional_text(self.automix_preview),
            urls: texts(self.urls@),
        }
    }
}

/// What the arguments from `i` on make of the options before them: the options, or
/// the message that refuses them. What is no option is a URL.
pub open spec fn probe_options_from(
    args: Seq<Seq<char>>,
    i: int,
    options: ProbeOptionsText,
) -> Result<ProbeOptionsText, Seq<char>>
    decreases args.len() - i,
{
    if i < 0 || i >= args.len() {
        Ok(options)
    } else if args[i] == "--warmup"@ {
        probe_options_from(args, i + 1, ProbeOptionsText { warmup: true, ..options })
    } else if args[i] == "--automix-plan"@ {
        probe_options_from(args, i + 1, ProbeOptionsText { automix_plan: true, ..options })
    } else if args[i] == "--automix-preview"@ {
        if i + 1 < args.len() {
            probe_options_from(
                args,
                i + 2,
                ProbeOptionsText { automix_preview: Some(args[i + 1]), ..options },
            )
        } else {
            Err("--automix-preview requires a file path"@)
        }
    } else if spec_starts_with(args[i], "--"@) {
        Err("unknown option: "@ + args[i])
    } else {
        probe_options_from(
            args,
            i + 1,
            ProbeOptionsText { urls: options.urls.push(args[i]), ..options },
        )
    }
}

/// Whether `result` is what arguments make of the options.
pub open spec fn is_probe_parse(
    result: Result<ProbeOptions, String>,
    parsed: Result<ProbeOptionsText, Seq<char>>,
) -> bool {
    match (result, parsed) {
        (Ok(options), Ok(text)) => options@ == text,
        (Err(message), Err(text)) => message@ == text,
        _ => false,
    }
}

impl ProbeOptions {
    /// Reads the options from arguments.
    pub fn parse(args: Vec<String>) -> (r: Result<Self, String>)
        ensures
            is_probe_parse(
                r,
                probe_options_from(texts(args@), 0, ProbeOptionsText::bare()),
            ),
    {
        let ghost all = texts(args@);
        let mut options = ProbeOptions {
            warmup: false,
            automix_plan: false,
            automix_preview: None,
            urls: Vec::new(),
        };
        assert(options@.urls =~= Seq::<Seq<char>>::empty());
        let mut i: usize = 0;
        while i < args.len()
            invariant
                all == texts(args@),
                i <= args@.len(),
                probe_options_from(all, 0, ProbeOptionsText::bare()) == probe_options_from(all, i as int, options@),
            decreases args@.len() - i,
        {
            let argument = args[i].as_str();
            assert(all[i as int] == argument@);
            if same_text(argument, "--warmup") {
                options.warmup = true;
                i += 1;
            } else if same_text(argument, "--automix-plan") {
                options.automix_plan = true;
                i += 1;
            } else if same_text(argument, "--automix-preview") {
                if i + 1 >= args.len() {
                    return Err("--automix-preview requires a file path".to_owned());
                }
                assert(all[i + 1] == args@[i + 1]@);
                options.automix_preview = Some(args[i + 1].clone());
                i += 2;
            } else if starts_with(argument, "--") {
                return Err("unknown option: ".to_owned().concat(argument));
            } else {
                let ghost before = options.urls@;
                options.urls.push(args[i].clone());
                assert(texts(options.urls@) =~= texts(before).push(argument@));
                i += 1;
            }
        }
        Ok(options)
    }

    /// Whether transitions are to be planned: on request, or for a preview.
    pub fn automix_requested(&self) -> (r: bool)
        ensures
            r == (self.automix_plan || self.automix_preview is Some),
    {
        self.automix_plan || self.automix_preview.is_some()
    }

    /// Why the probe cannot run with these options.
    pub fn usage_error(&self) -> (r: Option<&'static str>)
        ensures
            match r {
                Some(message) => if self.urls@.len() == 0 {
                    message@
                        == "usage: cargo run -p wotoha-app --bin track_probe -- [--warmup] [--automix-plan] [--automix-preview <file.wav>] <url>..."@
                } else if self.urls@.len() < 2 {
                    &&& self.automix_plan || self.automix_preview is Some
                    &&& message@ == "AutoMix probing requires at least two URLs"@
                } else {
                    &&& self.automix_preview is Some && self.urls@.len() != 2
                    &&& message@ == "--automix-preview requires exactly two URLs"@
                },
                None => {
                    &&& self.urls@.len() > 0
                    &&& self.automix_plan || self.automix_preview is Some ==> self.urls@.len() >= 2
                    &&& self.automix_preview is Some ==> self.urls@.len() == 2
                },
            },
    {
        if self.urls.len() == 0 {
            return Some(
                "usage: cargo run -p wotoha-app --bin track_probe -- [--warmup] [--automix-plan] [--automix-preview <file.wav>] <url>...",
            );
        }
        if self.automix_requested() && self.urls.len() < 2 {
            return Some("AutoMix probing requires at least two URLs");
        }
        if self.automix_preview.is_some() && self.urls.len() != 2 {
            return Some("--automix-preview requires exactly two URLs");
        }
        None
    }
}

/// Writes whole milliseconds, or a dash where there is no span.
pub fn format_optional_duration_ms(value: Option<Duration>) -> (r: String)
    ensures
        r@ == match value {
            Some(span) => spec_decimal((span@ / NANOS_PER_MILLI as int) as nat),
            None => "-"@,
        },
{
    match value {
        Some(span) => decimal_wide(span.as_millis()),
        None => "-".to_owned(),
    }
}

/// How far a track of the probe came.
#[derive(Clone, Copy, Debug, PartialEq, Eq, Structural)]
pub struct ProbedTrack {
    pub resolved: bool,
    pub analyzed: bool,
}

/// Why no preview can be rendered; none where both tracks are resolved and
/// analyzed. A track that was not resolved counts before an analysis that is
/// missing, and the outgoing track before the incoming one.
pub fn preview_error(tracks: &[ProbedTrack]) -> (r: Option<&'static str>)
    ensures
        r is None <==> tracks@.len() == 2 && forall|i: int|
            0 <= i < tracks@.len() ==> (#[trigger] tracks@[i]).resolved && tracks@[i].analyzed,
        r matches Some(message) ==> message@ == if tracks@.len() != 2 {
            "preview requires exactly two prepared tracks"@
        } else if !tracks@[0].resolved {
            "preview outgoing track was not resolved"@
        } else if !tracks@[1].resolved {
            "preview incoming track was not resolved"@
        } else if !tracks@[0].analyzed {
            "preview outgoing analysis is unavailable"@
        } else {
            "preview incoming analysis is unavailable"@
        },
{
    if tracks.len() != 2 {
        return Some("preview requires exactly two prepared tracks");
    }
    let outgoing = tracks[0];
    let incoming = tracks[1];
    if !outgoing.resolved {
        Some("preview outgoing track was not resolved")
    } else if !incoming.resolved {
        Some("preview incoming track was not resolved")
    } else if !outgoing.analyzed {
        Some("preview outgoing analysis is unavailable")
    } else if !incoming.analyzed {
        Some("preview incoming analysis is unavailable")
    } else {
        None
    }
}

/// Why no transition can be planned between two tracks; none where both are
/// analyzed.
pub fn plan_error(outgoing: ProbedTrack, incoming: ProbedTrack) -> (r: Option<&'static str>)
    ensures
        r is None <==> outgoing.analyzed && incoming.analyzed,
        r matches Some(code) ==> code@ == if !outgoing.analyzed {
            "missing_outgoing_analysis"@
        } else {
            "missing_incoming_analysis"@
        },
{
    if !outgoing.analyzed {
        Some("missing_outgoing_analysis")
    } else if !incoming.analyzed {
        Some("missing_incoming_analysis")
    } else {
        None
    }
}

/// The canonical key of a track, or a dash where it was not resolved.
pub fn track_key(request: &Option<TrackRequest>) -> (r: String)
    ensures
        r@ == match *request {
            Some(track) => track.canonical_key@,
            None => "-"@,
        },
{
    match request {
        Some(track) => track.canonical_key.clone(),
        None => "-".to_owned(),
    }
}

/// The settings that transitions are probed with: a crossfade of eight seconds, a
/// tempo that is adjusted by at most 0.06, and a beat confidence of 0.7.
pub fn automix_probe_config() -> (r: AutoMixConfig)
    ensures
        r.enabled,
        r.crossfade@ == 8_000_000_000,
        r.max_tempo_adjustment == 0x3D75_C28F,
        r.min_beat_confidence == 0x3F33_3333,
{
    AutoMixConfig {
        enabled: true,
        crossfade: Duration::from_secs(8),
        max_tempo_adjustment: 0x3D75_C28F,
        min_beat_confidence: 0x3F33_3333,
    }
}

/// Each option takes effect on its own field and on no other: `--warmup` and
/// `--automix-plan` switch theirs on, `--automix-preview` takes what follows it, which must
/// be there, and whatever does not begin with two dashes is an address, in order.
pub proof fn options_take_effect_one_by_one(
    args: Seq<Seq<char>>,
    i: int,
    options: ProbeOptionsText,
)
    requires
        0 <= i < args.len(),
    ensures
        ({
            let parsed = probe_options_from(args, i, options);
            let on = |next: ProbeOptionsText| probe_options_from(args, i + 1, next);
            let known = args[i] == "--warmup"@ || args[i] == "--automix-plan"@ || args[i]
                == "--automix-preview"@;
            &&& probe_options_from(args, args.len() as int, options)
                == Ok::<ProbeOptionsText, Seq<char>>(options)
            &&& args[i] == "--warmup"@ ==> parsed == on(
                ProbeOptionsText {
                    warmup: true,
                    automix_plan: options.automix_plan,
                    automix_preview: options.automix_preview,
                    urls: options.urls,
                },
            )
            &&& args[i] == "--automix-plan"@ ==> parsed == on(
                ProbeOptionsText {
                    warmup: options.warmup,
                    automix_plan: true,
                    automix_preview: options.automix_preview,
                    urls: options.urls,
                },
            )
            &&& args[i] == "--automix-preview"@ && i + 1 == args.len() ==> parsed == Err::<
                ProbeOptionsText,
                Seq<char>,
            >("--automix-preview requires a file path"@)
            &&& args[i] == "--automix-preview"@ && i + 1 < args.len() ==> parsed
                == probe_options_from(
                args,
                i + 2,
                ProbeOptionsText {
                    warmup: options.warmup,
                    automix_plan: options.automix_plan,
                    automix_preview: Some(args[i + 1]),
                    urls: options.urls,
                },
            )
            &&& !known && spec_starts_with(args[i], "--"@) ==> parsed == Err::<
                ProbeOptionsText,
                Seq<char>,
            >("unknown option: "@ + args[i])
            &&& !known && !spec_starts_with(args[i], "--"@) ==> parsed == on(
                ProbeOptionsText {
                    warmup: options.warmup,
                    automix_plan: options.automix_plan,
                    automix_preview: options.automix_preview,
                    urls: options.urls.push(args[i]),
                },
            )
            &&& !ProbeOptionsText::bare().warmup && !ProbeOptionsText::bare().automix_plan
            &&& ProbeOptionsText::bare().automix_preview is None && ProbeOptionsText::bare().urls.len()
                == 0
        }),
{
    reveal_strlit("--warmup");
    reveal_strlit("--automix-plan");
    reveal_strlit("--automix-preview");
    assert("--warmup"@.len() == 8);
    assert("--automix-plan"@.len() == 14);
    assert("--automix-preview"@.len() == 17);
}

/// Reading the options tells just what was parsed, or just the message of the error.
pub proof fn options_are_told_as_parsed(
    result: Result<ProbeOptions, String>,
    parsed: Result<ProbeOptionsText, Seq<char>>,
)
    requires
        is_probe_parse(result, parsed),
    ensures
        result is Ok <==> parsed is Ok,
        result matches Ok(options) ==> options.warmup == parsed->Ok_0.warmup
            && options.automix_plan == parsed->Ok_0.automix_plan && texts(options.urls@)
            == parsed->Ok_0.urls,
        result matches Err(message) ==> message@ == parsed->Err_0,
{
}

} // verus!
