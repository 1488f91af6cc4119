use std::sync::{Arc, Mutex};

use wotoha::automix::kinds::TransitionKind;
use wotoha::automix::plan::{EqTransition, EqTransitionRole};
use wotoha::automix::track::AutoMixConfig;
use wotoha::contracts::{
    ChannelKey, FrameScheduledTransitionSupport, GuildKey, PlaybackService, PreparedHttp,
    PreparedRangeMode, PreparedSource, QueuePreview, RuntimeTrackHandle, TrackMetadata, TrackRequest, TrackStartOptions, UserKey, VoiceActionAccess,
    VoicePeerSnapshot, VoiceUpdateDecision,
};
use wotoha::control::{
    component_outcome, ComponentAction, ComponentOutcome, ComponentStep, ControlService,
    PlaybackCommand,
};
use wotoha::discord::{
    button_response, guild_voice_snapshot, matches_expected_commands, play_admission,
    play_source_url, queue_embed, requested_by, ButtonCommand, ButtonIds, ButtonStep,
    CommandOptionShape, CommandShape, CommandValue, ComponentResponse, DiscordControlPlane,
    NicknameChange, PlayAdmission, PlayerButton, ReplyMessage, VoiceUpdateAction,
};
use wotoha::logging::SanitizingWriter;
use wotoha::playback::{ConfiguredPlayback, PlaybackLimits, QueueFull};
use wotoha::probe::{
    automix_probe_config, format_optional_duration_ms, plan_error, preview_error, track_key,
    ProbeOptions, ProbedTrack,
};
use wotoha::time::Duration;

const GUILD: GuildKey = GuildKey(1);
const CHANNEL: ChannelKey = ChannelKey(10);
const OTHER_CHANNEL: ChannelKey = ChannelKey(11);

#[derive(Clone, Default)]
struct MockPlayback {
    state: Arc<Mutex<MockState>>,
}

#[derive(Default)]
struct MockState {
    preview: Option<QueuePreview>,
    loop_result: Option<bool>,
    skip: Option<bool>,
    shuffle: bool,
    automix_enabled: bool,
    decision: Option<VoiceUpdateDecision>,
    bot_channels: Vec<Option<ChannelKey>>,
}

impl PlaybackService for MockPlayback {
    fn queue_preview(&self, _guild_id: GuildKey, _limit: usize) -> Option<QueuePreview> {
        self.state.lock().expect("mock state").preview.clone()
    }

    fn has_current_track(&self, _guild_id: GuildKey) -> bool {
        self.state
            .lock()
            .expect("mock state")
            .preview
            .as_ref()
            .is_some_and(|preview| preview.current.is_some())
    }

    fn automix_enabled(&self, _guild_id: GuildKey) -> bool {
        self.state.lock().expect("mock state").automix_enabled
    }

    fn bootstrap_voice_state(
        &self,
        _guild_id: GuildKey,
        _bot_channel: ChannelKey,
        _peers: Vec<VoicePeerSnapshot>,
    ) {
    }

    fn update_bot_voice_channel(&self, _guild_id: GuildKey, new_channel: Option<ChannelKey>) {
        self.state
            .lock()
            .expect("mock state")
            .bot_channels
            .push(new_channel);
    }

    fn clear_voice_state(&self, _guild_id: GuildKey) {}

    fn apply_peer_voice_state(
        &self,
        _guild_id: GuildKey,
        _user_id: UserKey,
        _old_channel: Option<ChannelKey>,
        _new_channel: Option<ChannelKey>,
    ) -> VoiceUpdateDecision {
        self.state
            .lock()
            .expect("mock state")
            .decision
            .unwrap_or(VoiceUpdateDecision::Ignore)
    }

    fn voice_action_access(
        &self,
        _guild_id: GuildKey,
        actor_channel: Option<ChannelKey>,
    ) -> VoiceActionAccess {
        actor_channel.map_or(VoiceActionAccess::UserNotInVoice, |channel_id| {
            if channel_id == CHANNEL {
                VoiceActionAccess::SameChannel { channel_id }
            } else {
                VoiceActionAccess::DifferentChannel {
                    active_channel: CHANNEL,
                    actor_channel: channel_id,
                }
            }
        })
    }
}

/// Answers a user as the bot does: the playback is asked where the step says so.
fn outcome_of(
    service: &ControlService<MockPlayback>,
    actor_channel: Option<ChannelKey>,
    action: ComponentAction,
) -> ComponentOutcome {
    match service.handle_component(GUILD, actor_channel, action) {
        ComponentStep::Answer(outcome) => outcome,
        ComponentStep::Ask(command) => {
            let state = service.playback.state.lock().expect("mock state");
            let reply = match command {
                PlaybackCommand::Skip => state.skip,
                PlaybackCommand::ToggleLoop => state.loop_result,
                PlaybackCommand::Shuffle => Some(state.shuffle),
                PlaybackCommand::ToggleAutoMix => None,
            };
            component_outcome(command, reply)
        }
    }
}

#[test]
fn component_rejects_user_outside_active_voice_channel() {
    let playback = MockPlayback::default();
    let service = ControlService::new(playback);

    let outcome = outcome_of(&service, Some(OTHER_CHANNEL), ComponentAction::Skip);

    assert!(matches!(outcome, ComponentOutcome::VoiceChannelRequired));
}

#[test]
fn component_skip_reports_loop_state() {
    let playback = MockPlayback::default();
    playback.state.lock().expect("mock state").skip = Some(true);
    let service = ControlService::new(playback);

    let outcome = outcome_of(&service, Some(CHANNEL), ComponentAction::Skip);

    assert!(matches!(
        outcome,
        ComponentOutcome::Skip { was_looping: true }
    ));
}

#[test]
fn component_queue_distinguishes_empty_and_present_queue() {
    let playback = MockPlayback::default();
    let service = ControlService::new(playback.clone());

    let empty = outcome_of(
        &service,
        Some(CHANNEL),
        ComponentAction::Queue { limit: 10 },
    );
    assert!(matches!(empty, ComponentOutcome::QueueEmpty));

    playback.state.lock().expect("mock state").preview = Some(QueuePreview {
        current: Some(track("https://example.com/one")),
        upcoming: Vec::new(),
        total_queued: 0,
    });

    let present = outcome_of(
        &service,
        Some(CHANNEL),
        ComponentAction::Queue { limit: 10 },
    );
    assert!(matches!(present, ComponentOutcome::QueuePreview(_)));
}

#[test]
fn component_shuffle_reports_empty_queue() {
    let playback = MockPlayback::default();
    let service = ControlService::new(playback);

    let outcome = outcome_of(&service, Some(CHANNEL), ComponentAction::Shuffle);

    assert!(matches!(outcome, ComponentOutcome::NothingToShuffle));
}

#[test]
fn component_blocks_loop_while_automix_is_enabled() {
    let playback = MockPlayback::default();
    {
        let mut state = playback.state.lock().expect("mock state");
        state.automix_enabled = true;
        state.loop_result = Some(true);
    }
    let service = ControlService::new(playback);

    let outcome = outcome_of(&service, Some(CHANNEL), ComponentAction::Loop);

    assert!(matches!(outcome, ComponentOutcome::LoopBlockedByAutoMix));
}

fn track(source_url: &str) -> TrackRequest {
    TrackRequest {
        provider_id: "test".to_owned(),
        canonical_key: source_url.to_owned(),
        canonical_url: source_url.to_owned(),
        prepared: PreparedSource::Http(PreparedHttp {
            stream_url: source_url.to_owned(),
            headers: Vec::new(),
            content_length: None,
            range_chunk_size: None,
            range_mode: PreparedRangeMode::Header,
        }),
        metadata: TrackMetadata {
            title: "title".to_owned(),
            author: "author".to_owned(),
            uri: source_url.to_owned(),
            thumbnail_url: None,
            duration: None,
        },
    }
}

#[test]
fn users_without_a_voice_channel_are_told_so() {
    let service = ControlService::new(MockPlayback::default());
    for action in [
        ComponentAction::Skip,
        ComponentAction::Loop,
        ComponentAction::Shuffle,
        ComponentAction::AutoMix,
        ComponentAction::Queue { limit: 1 },
    ] {
        assert_eq!(
            outcome_of(&service, None, action),
            ComponentOutcome::VoiceChannelRequired
        );
    }
    assert_eq!(
        outcome_of(&service, Some(CHANNEL), ComponentAction::AutoMix),
        ComponentOutcome::NoTrackPlaying
    );
}

fn limits(max_queue_len: usize, max_pending_enqueues: usize) -> PlaybackLimits {
    PlaybackLimits {
        max_queue_len,
        max_pending_enqueues,
    }
}

#[test]
fn configured_playback_rejects_queue_limit_before_inner_enqueue() {
    let mut playback = ConfiguredPlayback::new(limits(1, 1));

    let result = playback.reserve_enqueue(GuildKey::new(1), 1);

    assert!(matches!(result, Err(QueueFull { .. })));
    assert!(playback.pending_by_guild.is_empty());
}

#[test]
fn pending_reservation_releases_counter_on_drop() {
    let mut playback = ConfiguredPlayback::new(limits(8, 1));
    let guild_id = GuildKey::new(2);
    let reservation = playback.reserve_enqueue(guild_id, 0).unwrap();

    assert!(matches!(
        playback.reserve_enqueue(guild_id, 0),
        Err(QueueFull { .. })
    ));

    playback.release(reservation);

    playback.reserve_enqueue(guild_id, 0).unwrap();
}

#[test]
fn waiting_and_pending_tracks_share_the_queue() {
    let mut playback = ConfiguredPlayback::new(limits(3, 5));
    let first = playback.reserve_enqueue(GUILD, 1).unwrap();
    playback.reserve_enqueue(GUILD, 1).unwrap();
    let refused = playback.reserve_enqueue(GUILD, 1).unwrap_err();
    assert_eq!(
        refused.message(),
        "queue is full for this guild (configured limits: max_queue_len=3, max_pending_enqueues=5)"
    );
    assert!(playback.reserve_enqueue(GuildKey::new(2), 1).is_ok());
    playback.release(first);
    assert_eq!(playback.pending_by_guild.get(&GUILD.get()), Some(&1));
    assert!(playback.reserve_enqueue(GUILD, 1).is_ok());
}

struct MinimalTrackHandle;

impl RuntimeTrackHandle for MinimalTrackHandle {
    fn stop(&self) {}

    fn set_volume(&self, _volume: u32) {}
}

#[test]
fn equalizer_contract_defaults_are_backwards_compatible() {
    let options = TrackStartOptions::default();
    assert!(!options.equalizer_enabled);
    assert_eq!(options.equalizer_transition, None);
    assert_eq!(f32::from_bits(options.initial_gain), 1.0);
    assert_eq!(options.source_start, Duration::zero());

    let handle = MinimalTrackHandle;
    let transition = EqTransition {
        id: 42,
        source_start: Duration::from_secs(3),
        duration: Duration::from_secs(4),
        role: EqTransitionRole::Incoming,
        harmonic_compatibility: None,
    };
    assert!(!handle.schedule_equalizer_transition(transition));
    handle.cancel_equalizer_transition(transition.id);
    assert!(!handle.arm_shared_output_frame());
    assert_eq!(
        handle.frame_scheduled_transition_support(),
        FrameScheduledTransitionSupport::Unsupported
    );
}

#[test]
fn buttons_lead_to_commands_and_responses() {
    let playback = MockPlayback::default();
    let plane = DiscordControlPlane::new(playback.clone());
    let ids = ButtonIds {
        skip: "skip".to_owned(),
        looping: "loop".to_owned(),
        shuffle: "shuffle".to_owned(),
        queue: "queue".to_owned(),
    };
    assert_eq!(ids.button("loop"), Some(PlayerButton::Loop));
    assert_eq!(ids.button("other"), None);
    assert_eq!(plane.handle_component(None, ids.button("skip")), ButtonStep::Ignore);
    assert_eq!(
        plane.handle_component(Some(GUILD), ids.button("other")),
        ButtonStep::Ignore
    );
    assert_eq!(
        plane.handle_component(Some(GUILD), ids.button("skip")),
        ButtonStep::Respond(ComponentResponse::Reply {
            message: ReplyMessage::NoTrackPlaying,
            is_error: true
        })
    );
    playback.state.lock().expect("mock state").preview = Some(QueuePreview {
        current: Some(track("https://example.com/one")),
        upcoming: Vec::new(),
        total_queued: 0,
    });
    assert_eq!(
        plane.handle_component(Some(GUILD), ids.button("skip")),
        ButtonStep::Ask(ButtonCommand::Skip)
    );
    assert!(matches!(
        plane.handle_component(Some(GUILD), ids.button("queue")),
        ButtonStep::Respond(ComponentResponse::ShowQueue(_))
    ));
    assert_eq!(
        button_response(ButtonCommand::Skip, Some(true)),
        ComponentResponse::Defer(NicknameChange::Clear)
    );
    assert_eq!(
        button_response(ButtonCommand::ToggleLoop, Some(true)),
        ComponentResponse::Defer(NicknameChange::Looping)
    );
    assert_eq!(
        button_response(ButtonCommand::Shuffle, Some(false)),
        ComponentResponse::Reply {
            message: ReplyMessage::NothingToShuffle,
            is_error: true
        }
    );
}

#[test]
fn the_play_command_needs_a_guild_an_allowed_url_and_a_channel() {
    assert_eq!(
        play_admission(false, true, Some(CHANNEL)),
        PlayAdmission::Ignore
    );
    assert_eq!(
        play_admission(true, false, Some(CHANNEL)),
        PlayAdmission::Refuse(ReplyMessage::AllowedUrlOnly)
    );
    assert_eq!(
        play_admission(true, true, None),
        PlayAdmission::Refuse(ReplyMessage::JoinVoiceFirst)
    );
    assert_eq!(
        play_admission(true, true, Some(CHANNEL)),
        PlayAdmission::Proceed(CHANNEL)
    );
}

#[test]
fn voice_updates_reach_the_playback() {
    let playback = MockPlayback::default();
    let mut plane = DiscordControlPlane::new(playback.clone());
    let (bot, user) = (UserKey::new(1), UserKey::new(2));
    assert_eq!(
        plane.voice_state_update(None, bot, user, None, None),
        VoiceUpdateAction::Ignore
    );
    assert_eq!(
        plane.voice_state_update(Some(GUILD), bot, bot, None, Some(CHANNEL)),
        VoiceUpdateAction::UpdateBotChannel
    );
    assert_eq!(
        playback.state.lock().expect("mock state").bot_channels,
        vec![Some(CHANNEL)]
    );
    playback.state.lock().expect("mock state").decision =
        Some(VoiceUpdateDecision::DisconnectAlone);
    assert_eq!(
        plane.voice_state_update(Some(GUILD), bot, user, Some(CHANNEL), None),
        VoiceUpdateAction::Disconnect
    );
    assert!(plane.begin_boot());
    assert!(!plane.begin_boot());
    assert_eq!(
        guild_voice_snapshot(&[(bot, Some(CHANNEL)), (user, Some(CHANNEL)), (user, None)], bot),
        vec![VoicePeerSnapshot {
            user_id: user,
            channel_id: CHANNEL
        }]
    );
}

#[test]
fn queues_are_shown_as_links() {
    let text = queue_embed(&QueuePreview {
        current: Some(track("https://example.com/one")),
        upcoming: vec![track("https://example.com/two"), track("https://example.com/three")],
        total_queued: 5,
    });
    assert_eq!(
        text.now_playing.as_deref(),
        Some("[title](https://example.com/one)")
    );
    assert_eq!(
        text.next_up.as_deref(),
        Some(
            "1. [title](https://example.com/two)\n2. [title](https://example.com/three)\n\n...and 3 more songs"
        )
    );
    assert_eq!(requested_by("someone"), "Requested by someone");
}

#[test]
fn registered_commands_are_compared() {
    let play = CommandShape {
        name: "play".to_owned(),
        description: "Plays".to_owned(),
        options: vec![CommandOptionShape {
            name: "url".to_owned(),
            takes_text: true,
        }],
    };
    assert!(matches_expected_commands(&[play.clone()], "play", "Plays", "url"));
    assert!(!matches_expected_commands(
        &[play.clone(), play.clone()],
        "play",
        "Plays",
        "url"
    ));
    let mut other = play;
    other.options[0].takes_text = false;
    assert!(!matches_expected_commands(&[other], "play", "Plays", "url"));
}

#[test]
fn log_lines_do_not_depend_on_how_they_are_written() {
    let mut whole = SanitizingWriter::new();
    whole.extend(b"first\nsecond\nthird");
    assert_eq!(whole.flush_complete_line(), Some(b"first".to_vec()));
    assert_eq!(whole.buffered, b"second\nthird");
    assert_eq!(whole.flush_complete_line(), Some(b"second".to_vec()));
    assert_eq!(whole.flush_complete_line(), None);
    let mut parts = SanitizingWriter::new();
    let mut found = Vec::new();
    for byte in b"first\nsecond\nthird" {
        parts.extend(&[*byte]);
        found.extend(parts.flush_complete_line());
    }
    assert_eq!(found, vec![b"first".to_vec(), b"second".to_vec()]);
    assert_eq!(whole.flush_buffered_tail(), Some(b"third".to_vec()));
    assert_eq!(parts.flush_buffered_tail(), Some(b"third".to_vec()));
    assert_eq!(parts.flush_buffered_tail(), None);
}

#[test]
fn parses_automix_plan_option() {
    let options = ProbeOptions::parse(vec![
        "--warmup".to_owned(),
        "--automix-plan".to_owned(),
        "one".to_owned(),
        "two".to_owned(),
    ])
    .unwrap();

    assert!(options.warmup);
    assert!(options.automix_plan);
    assert_eq!(options.automix_preview, None);
    assert_eq!(options.urls, ["one", "two"]);
}

#[test]
fn parses_automix_preview_option() {
    let options = ProbeOptions::parse(vec![
        "--automix-preview".to_owned(),
        "preview.wav".to_owned(),
        "one".to_owned(),
        "two".to_owned(),
    ])
    .unwrap();

    assert!(!options.automix_plan);
    assert_eq!(options.automix_preview, Some("preview.wav".to_owned()));
    assert_eq!(options.urls, ["one", "two"]);
}

#[test]
fn probe_options_are_refused_with_a_reason() {
    assert_eq!(
        ProbeOptions::parse(vec!["--automix-preview".to_owned()]),
        Err("--automix-preview requires a file path".to_owned())
    );
    assert_eq!(
        ProbeOptions::parse(vec!["--other".to_owned()]),
        Err("unknown option: --other".to_owned())
    );
    let mut options = ProbeOptions::parse(vec!["--automix-plan".to_owned()]).unwrap();
    assert!(options.usage_error().unwrap().starts_with("usage: "));
    options.urls.push("one".to_owned());
    assert_eq!(
        options.usage_error(),
        Some("AutoMix probing requires at least two URLs")
    );
    options.urls.push("two".to_owned());
    assert_eq!(options.usage_error(), None);
    options.automix_preview = Some("preview.wav".to_owned());
    options.urls.push("three".to_owned());
    assert_eq!(
        options.usage_error(),
        Some("--automix-preview requires exactly two URLs")
    );
}

#[test]
fn previews_and_plans_need_both_tracks() {
    let probed = |resolved: bool, analyzed: bool| ProbedTrack { resolved, analyzed };
    let ready = probed(true, true);
    assert_eq!(preview_error(&[ready, ready]), None);
    assert_eq!(
        preview_error(&[ready]),
        Some("preview requires exactly two prepared tracks")
    );
    assert_eq!(
        preview_error(&[probed(false, false), probed(false, false)]),
        Some("preview outgoing track was not resolved")
    );
    assert_eq!(
        preview_error(&[probed(true, false), probed(false, false)]),
        Some("preview incoming track was not resolved")
    );
    assert_eq!(
        preview_error(&[probed(true, false), probed(true, false)]),
        Some("preview outgoing analysis is unavailable")
    );
    assert_eq!(
        preview_error(&[ready, probed(true, false)]),
        Some("preview incoming analysis is unavailable")
    );
    assert_eq!(plan_error(ready, ready), None);
    assert_eq!(
        plan_error(probed(true, false), ready),
        Some("missing_outgoing_analysis")
    );
    assert_eq!(
        plan_error(ready, probed(true, false)),
        Some("missing_incoming_analysis")
    );
    assert_eq!(track_key(&None), "-");
    assert_eq!(track_key(&Some(track("key"))), "key");
    assert_eq!(format_optional_duration_ms(None), "-");
    assert_eq!(
        format_optional_duration_ms(Some(Duration::from_nanos(1_999_999))),
        "1"
    );
    assert_eq!(
        automix_probe_config(),
        AutoMixConfig {
            enabled: true,
            crossfade: Duration::from_secs(8),
            max_tempo_adjustment: 0.06_f32.to_bits(),
            min_beat_confidence: 0.7_f32.to_bits(),
        }
    );
    assert_ne!(TransitionKind::Crossfade, TransitionKind::Gapless);
}

#[test]
fn the_url_is_the_trimmed_text_of_its_option() {
    let option = |name: &str, text: Option<&str>| CommandValue {
        name: name.to_owned(),
        text: text.map(str::to_owned),
    };
    let options = vec![
        option("other", Some("x")),
        option("url", Some("  https://example.invalid/a \n")),
        option("url", Some("later")),
    ];
    assert_eq!(play_source_url(&options, "url"), "https://example.invalid/a");
    assert_eq!(play_source_url(&options, "missing"), "");
    let opaque = vec![option("url", None), option("url", Some("later"))];
    assert_eq!(play_source_url(&opaque, "url"), "");
}
