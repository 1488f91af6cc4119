//! Vocabulary that the parts of the bot share: keys, voice decisions, playback
//! events and prepared tracks.

use vstd::prelude::*;

use crate::automix::plan::{EqTransition, TempoEnvelope};
use crate::scalar;
use crate::time::Duration;

verus! {

/// Key of a guild.
#[derive(Clone, Copy, Debug, PartialEq, Eq, Hash, PartialOrd, Ord, Structural)]
pub struct GuildKey(pub u64);

impl GuildKey {
    pub fn new(value: u64) -> (r: Self)
        ensures
            r == GuildKey(value),
    {
        GuildKey(value)
    }

    pub fn get(self) -> (r: u64)
        ensures
            r == self.0,
    {
        self.0
    }
}

impl From<u64> for GuildKey {
    fn from(value: u64) -> (r: GuildKey) {
        GuildKey(value)
    }
}

impl vstd::std_specs::convert::FromSpecImpl<u64> for GuildKey {
    open spec fn obeys_from_spec() -> bool {
        true
    }

    open spec fn from_spec(value: u64) -> GuildKey {
        GuildKey(value)
    }
}

/// Key of a voice channel.
#[derive(Clone, Copy, Debug, PartialEq, Eq, Hash, PartialOrd, Ord, Structural)]
pub struct ChannelKey(pub u64);

impl ChannelKey {
    pub fn new(value: u64) -> (r: Self)
        ensures
            r == ChannelKey(value),
    {
        ChannelKey(value)
    }

    pub fn get(self) -> (r: u64)
        ensures
            r == self.0,
    {
        self.0
    }
}

impl From<u64> for ChannelKey {
    fn from(value: u64) -> (r: ChannelKey) {
        ChannelKey(value)
    }
}

impl vstd::std_specs::convert::FromSpecImpl<u64> for ChannelKey {
    open spec fn obeys_from_spec() -> bool {
        true
    }

    open spec fn from_spec(value: u64) -> ChannelKey {
        ChannelKey(value)
    }
}

/// Key of a user.
#[derive(Clone, Copy, Debug, PartialEq, Eq, Hash, PartialOrd, Ord, Structural)]
pub struct UserKey(pub u64);

impl UserKey {
    pub fn new(value: u64) -> (r: Self)
        ensures
            r == UserKey(value),
    {
        UserKey(value)
    }

    pub fn get(self) -> (r: u64)
        ensures
            r == self.0,
    {
        self.0
    }
}

impl From<u64> for UserKey {
    fn from(value: u64) -> (r: UserKey) {
        UserKey(value)
    }
}

impl vstd::std_specs::convert::FromSpecImpl<u64> for UserKey {
    open spec fn obeys_from_spec() -> bool {
        true
    }

    open spec fn from_spec(value: u64) -> UserKey {
        UserKey(value)
    }
}

/// Identity of one playback of a track.
#[derive(Clone, Copy, Debug, PartialEq, Eq, Hash, PartialOrd, Ord, Structural)]
pub struct PlaybackId(pub u64);

impl PlaybackId {
    pub fn new(value: u64) -> (r: Self)
        ensures
            r == PlaybackId(value),
    {
        PlaybackId(value)
    }

    pub fn get(self) -> (r: u64)
        ensures
            r == self.0,
    {
        self.0
    }
}

impl From<u64> for PlaybackId {
    fn from(value: u64) -> (r: PlaybackId) {
        PlaybackId(value)
    }
}

impl vstd::std_specs::convert::FromSpecImpl<u64> for PlaybackId {
    open spec fn obeys_from_spec() -> bool {
        true
    }

    open spec fn from_spec(value: u64) -> PlaybackId {
        PlaybackId(value)
    }
}

/// A header that a resolver prepared.
#[derive(Clone, Debug, PartialEq, Eq)]
pub struct PreparedHeader {
    pub name: String,
    pub value: String,
}

/// How a range is asked for.
#[derive(Clone, Copy, Debug, PartialEq, Eq, Structural)]
pub enum PreparedRangeMode {
    Header,
    QueryParam,
}

/// A source of one body.
#[derive(Clone, Debug, PartialEq, Eq)]
pub struct PreparedHttp {
    pub stream_url: String,
    pub headers: Vec<PreparedHeader>,
    pub content_length: Option<u64>,
    pub range_chunk_size: Option<u64>,
    pub range_mode: PreparedRangeMode,
}

/// A source that a resolver prepared: one body, or a playlist of segments.
#[derive(Clone, Debug, PartialEq, Eq)]
pub enum PreparedSource {
    Http(PreparedHttp),
    Hls,
}

/// What a provider tells of a track.
#[derive(Clone, Debug, PartialEq, Eq)]
pub struct TrackMetadata {
    pub title: String,
    pub author: String,
    pub uri: String,
    pub thumbnail_url: Option<String>,
    pub duration: Option<Duration>,
}

/// A track that was resolved.
#[derive(Clone, Debug, PartialEq, Eq)]
pub struct TrackRequest {
    pub provider_id: String,
    pub canonical_key: String,
    pub canonical_url: String,
    pub prepared: PreparedSource,
    pub metadata: TrackMetadata,
}

/// What became of a request to play a track.
#[derive(Clone, Debug, PartialEq, Eq)]
pub struct EnqueueOutcome {
    pub now_playing: bool,
    pub request: TrackRequest,
}

/// The head of a queue.
#[derive(Clone, Debug, PartialEq, Eq)]
pub struct QueuePreview {
    pub current: Option<TrackRequest>,
    pub upcoming: Vec<TrackRequest>,
    pub total_queued: usize,
}

impl QueuePreview {
    /// Whether nothing plays and nothing waits.
    pub open spec fn is_idle(&self) -> bool {
        self.current is None && self.total_queued == 0
    }

    /// Whether nothing plays and nothing waits.
    pub fn nothing_queued(&self) -> (r: bool)
        ensures
            r == self.is_idle(),
    {
        self.current.is_none() && self.total_queued == 0
    }
}

/// A user in a voice channel.
#[derive(Clone, Copy, Debug, PartialEq, Eq, Structural)]
pub struct VoicePeerSnapshot {
    pub user_id: UserKey,
    pub channel_id: ChannelKey,
}

/// What a change in a voice channel means for the bot.
#[derive(Clone, Copy, Debug, PartialEq, Eq, Structural)]
pub enum VoiceUpdateDecision {
    Ignore,
    StayConnected,
    DisconnectAlone,
}

/// Whether a user may act on the playback of a guild.
#[derive(Clone, Copy, Debug, PartialEq, Eq, Structural)]
pub enum VoiceActionAccess {
    NoActiveChannel,
    UserNotInVoice,
    SameChannel { channel_id: ChannelKey },
    DifferentChannel { active_channel: ChannelKey, actor_channel: ChannelKey },
}

/// Why a track ended.
#[derive(Clone, Copy, Debug, PartialEq, Eq, Structural)]
pub enum TrackEndReason {
    Completed,
    Stopped,
}

/// The clock that a runtime can use for a prepared transition between two decks. A
/// runtime must opt in before a transition counts as scheduled on a shared output
/// frame.
#[derive(Clone, Copy, Debug, PartialEq, Eq, Structural)]
pub enum FrameScheduledTransitionSupport {
    Unsupported,
    /// An event delayed by the position of a track starts the prepared deck on the
    /// next mixer tick after a compensated trigger.
    TrackPositionDelayedEvent,
    /// A barrier that the runtime owns.
    SharedOutputFrame,
}

/// Why an armed transition failed.
#[derive(Clone, Copy, Debug, PartialEq, Eq, Structural)]
pub enum TransitionArmFailureKind {
    DeadlineMissed,
    ActionFailed,
    StartedLate,
    Underflow,
    IdentityMismatch,
}

/// What a runtime observed.
#[derive(Clone, Debug, PartialEq, Eq)]
pub enum PlaybackRuntimeEvent {
    TrackStarted { guild_id: GuildKey, session_id: u64, playback_id: PlaybackId },
    TrackEnded {
        guild_id: GuildKey,
        session_id: u64,
        playback_id: PlaybackId,
        reason: TrackEndReason,
    },
    TransitionDue { guild_id: GuildKey, session_id: u64, playback_id: PlaybackId },
    TransitionPrefetchDue { guild_id: GuildKey, session_id: u64, playback_id: PlaybackId },
    /// The prepared deck started on its target frame.
    TransitionStarted {
        guild_id: GuildKey,
        session_id: u64,
        outgoing_playback_id: PlaybackId,
        incoming_playback_id: PlaybackId,
        generation: u64,
        target_position: Duration,
        target_frame: u64,
        actual_frame: u64,
    },
    TransitionArmFailed {
        guild_id: GuildKey,
        session_id: u64,
        outgoing_playback_id: PlaybackId,
        incoming_playback_id: PlaybackId,
        generation: u64,
        target_position: Duration,
        target_frame: u64,
        actual_frame: Option<u64>,
        skew_ms: Option<u64>,
        underflow: bool,
        failure_kind: TransitionArmFailureKind,
        reason: String,
    },
    TrackErrored {
        guild_id: GuildKey,
        session_id: u64,
        playback_id: PlaybackId,
        message: String,
    },
    VoiceDisconnected { guild_id: GuildKey, reason: String },
}

pub type TransitionRuntimeEvent = PlaybackRuntimeEvent;

#[derive(Clone, Debug, PartialEq, Eq)]
pub struct VoiceGatewayStateUpdate {
    pub guild_id: GuildKey,
    pub user_id: UserKey,
    pub channel_id: Option<ChannelKey>,
    pub session_id: String,
}

#[derive(Clone, Debug, PartialEq, Eq)]
pub struct VoiceGatewayServerUpdate {
    pub guild_id: GuildKey,
    pub endpoint: Option<String>,
    pub token: String,
}

#[derive(Clone, Debug, PartialEq, Eq)]
pub enum VoiceGatewayEvent {
    StateUpdate(VoiceGatewayStateUpdate),
    ServerUpdate(VoiceGatewayServerUpdate),
}

/// What became of an attempt to arm a transition.
#[derive(Clone, Copy, Debug, PartialEq, Eq, Structural)]
pub enum TransitionArmResult {
    Armed { target_frame: u64 },
    Unsupported,
    NotReady,
    IdentityMismatch,
    DeadlineMissed,
    Underflow,
}

pub type ArmResult = TransitionArmResult;

/// Stable identity of a prepared deck. A playback id alone is not sufficient.
#[derive(Clone, Copy, Debug, PartialEq, Eq, Hash, Structural)]
pub struct PreparedDeckToken {
    pub guild_id: GuildKey,
    pub session_id: u64,
    pub playback_id: PlaybackId,
    pub generation: u64,
    pub token: u64,
}

/// What arming a transition takes.
#[derive(Clone, Copy, Debug, PartialEq, Eq, Structural)]
pub struct ArmRequest {
    pub outgoing: PreparedDeckToken,
    pub incoming: PreparedDeckToken,
    pub target_position: Duration,
}

/// What is needed to go on after a restart.
#[derive(Clone, Debug, PartialEq, Eq)]
pub struct PlaybackRestartSnapshot {
    pub current_source_url: String,
    pub queued_source_urls: Vec<String>,
    pub position: Duration,
    pub looping: bool,
    pub automix_enabled: bool,
}

/// The parts of a playback service that answer at once.
pub trait PlaybackService: Sized {
    fn queue_preview(&self, guild_id: GuildKey, limit: usize) -> Option<QueuePreview>;

    fn has_current_track(&self, guild_id: GuildKey) -> bool;

    /// Whether transitions are mixed; not, unless the service says so.
    fn automix_enabled(&self, guild_id: GuildKey) -> (r: bool)
        default_ensures
            !r,
    {
        false
    }

    fn bootstrap_voice_state(
        &self,
        guild_id: GuildKey,
        bot_channel: ChannelKey,
        peers: Vec<VoicePeerSnapshot>,
    );

    fn update_bot_voice_channel(&self, guild_id: GuildKey, new_channel: Option<ChannelKey>);

    fn clear_voice_state(&self, guild_id: GuildKey);

    fn apply_peer_voice_state(
        &self,
        guild_id: GuildKey,
        user_id: UserKey,
        old_channel: Option<ChannelKey>,
        new_channel: Option<ChannelKey>,
    ) -> VoiceUpdateDecision;

    fn voice_action_access(
        &self,
        guild_id: GuildKey,
        actor_channel: Option<ChannelKey>,
    ) -> VoiceActionAccess;
}

/// The parts of a track that plays that answer at once; volumes are bits.
pub trait RuntimeTrackHandle {
    fn stop(&self);

    fn set_volume(&self, volume: u32);

    /// Whether this handle can take part in a transition that is coordinated by
    /// frames with another handle of the same runtime; not, unless it says so.
    fn frame_scheduled_transition_support(&self) -> (r: FrameScheduledTransitionSupport)
        default_ensures
            r == FrameScheduledTransitionSupport::Unsupported,
    {
        FrameScheduledTransitionSupport::Unsupported
    }

    /// Whether the handle alone can be armed for an output frame.
    fn arm_shared_output_frame(&self) -> (r: bool)
        default_ensures
            !r,
    {
        false
    }

    fn pause(&self) {
    }

    fn resume(&self) {
    }

    /// Schedules an equalizer on the timeline of the source, where the runtime can.
    fn schedule_equalizer_transition(&self, transition: EqTransition) -> (r: bool)
        default_ensures
            !r,
    {
        false
    }

    fn cancel_equalizer_transition(&self, id: u64) {
    }
}

/// How a track is started; the gain is bits.
#[derive(Clone, Debug)]
pub struct TrackStartOptions {
    pub initial_gain: u32,
    pub prefetch_after: Option<Duration>,
    pub transition_after: Option<Duration>,
    pub source_start: Duration,
    pub tempo_envelope: Option<TempoEnvelope>,
    pub equalizer_enabled: bool,
    pub equalizer_transition: Option<EqTransition>,
}

impl Default for TrackStartOptions {
    fn default() -> (r: Self)
        ensures
            r.initial_gain == scalar::ONE_BITS,
            r.prefetch_after is None,
            r.transition_after is None,
            r.source_start@ == 0,
            r.tempo_envelope is None,
            !r.equalizer_enabled,
            r.equalizer_transition is None,
    {
        TrackStartOptions {
            initial_gain: scalar::ONE_BITS,
            prefetch_after: None,
            transition_after: None,
            source_start: Duration::zero(),
            tempo_envelope: None,
            equalizer_enabled: false,
            equalizer_transition: None,
        }
    }
}

/// A preview is idle just where nothing plays and nothing is queued.
pub proof fn idle_previews_have_nothing_at_all(preview: QueuePreview)
    ensures
        preview.current is Some ==> !preview.is_idle(),
        preview.total_queued > 0 ==> !preview.is_idle(),
        preview.current is None && preview.total_queued == 0 ==> preview.is_idle(),
{
}

} // verus!
