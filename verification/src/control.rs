//! Control of the playback of a guild by its users.

use vstd::prelude::*;

use crate::contracts::{
    ChannelKey, GuildKey, PlaybackService, QueuePreview, UserKey, VoiceActionAccess,
    VoicePeerSnapshot, VoiceUpdateDecision,
};

verus! {

/// What a user asks for.
#[derive(Clone, Copy, Debug, PartialEq, Eq, Structural)]
pub enum ComponentAction {
    Skip,
    Loop,
    Shuffle,
    AutoMix,
    Queue { limit: usize },
}

/// What the user is told.
#[derive(Clone, Debug, PartialEq, Eq)]
pub enum ComponentOutcome {
    Skip { was_looping: bool },
    Loop { enabled: bool },
    LoopBlockedByAutoMix,
    Shuffle,
    NothingToShuffle,
    AutoMix { enabled: bool },
    QueuePreview(Box<QueuePreview>),
    QueueEmpty,
    NoTrackPlaying,
    VoiceChannelRequired,
}

/// What the playback is asked to do.
#[derive(Clone, Copy, Debug, PartialEq, Eq, Structural)]
pub enum PlaybackCommand {
    Skip,
    ToggleLoop,
    Shuffle,
    ToggleAutoMix,
}

/// What follows an action of a user.
#[derive(Clone, Debug, PartialEq, Eq)]
pub enum ComponentStep {
    /// The user is told at once.
    Answer(ComponentOutcome),
    /// The playback is asked, and its reply tells the outcome.
    Ask(PlaybackCommand),
}

/// What follows an action: nothing without a voice channel shared with the bot, and
/// no loop while transitions are automatic.
pub open spec fn step_of(
    access: VoiceActionAccess,
    action: ComponentAction,
    automix_enabled: bool,
    preview: Option<QueuePreview>,
) -> ComponentStep {
    if access !is SameChannel {
        ComponentStep::Answer(ComponentOutcome::VoiceChannelRequired)
    } else {
        match action {
            ComponentAction::Skip => ComponentStep::Ask(PlaybackCommand::Skip),
            ComponentAction::Loop => if automix_enabled {
                ComponentStep::Answer(ComponentOutcome::LoopBlockedByAutoMix)
            } else {
                ComponentStep::Ask(PlaybackCommand::ToggleLoop)
            },
            ComponentAction::Shuffle => ComponentStep::Ask(PlaybackCommand::Shuffle),
            ComponentAction::AutoMix => ComponentStep::Ask(PlaybackCommand::ToggleAutoMix),
            ComponentAction::Queue { .. } => match preview {
                Some(preview) => if preview.is_idle() {
                    ComponentStep::Answer(ComponentOutcome::QueueEmpty)
                } else {
                    ComponentStep::Answer(ComponentOutcome::QueuePreview(Box::new(preview)))
                },
                None => ComponentStep::Answer(ComponentOutcome::QueueEmpty),
            },
        }
    }
}

/// Decides what follows an action.
pub fn component_step(
    access: VoiceActionAccess,
    action: ComponentAction,
    automix_enabled: bool,
    preview: Option<QueuePreview>,
) -> (r: ComponentStep)
    ensures
        r == step_of(access, action, automix_enabled, preview),
        access !is SameChannel ==> r == ComponentStep::Answer(
            ComponentOutcome::VoiceChannelRequired,
        ),
        access is SameChannel && action == ComponentAction::Skip ==> r == ComponentStep::Ask(
            PlaybackCommand::Skip,
        ),
        access is SameChannel && action == ComponentAction::Shuffle ==> r == ComponentStep::Ask(
            PlaybackCommand::Shuffle,
        ),
        access is SameChannel && action == ComponentAction::AutoMix ==> r == ComponentStep::Ask(
            PlaybackCommand::ToggleAutoMix,
        ),
        access is SameChannel && action == ComponentAction::Loop && automix_enabled ==> r
            == ComponentStep::Answer(ComponentOutcome::LoopBlockedByAutoMix),
        access is SameChannel && action == ComponentAction::Loop && !automix_enabled ==> r
            == ComponentStep::Ask(PlaybackCommand::ToggleLoop),
        access is SameChannel && action is Queue && preview is None ==> r
            == ComponentStep::Answer(ComponentOutcome::QueueEmpty),
{
    if !matches!(access, VoiceActionAccess::SameChannel { .. }) {
        return ComponentStep::Answer(ComponentOutcome::VoiceChannelRequired);
    }
    match action {
        ComponentAction::Skip => ComponentStep::Ask(PlaybackCommand::Skip),
        ComponentAction::Loop => if automix_enabled {
            ComponentStep::Answer(ComponentOutcome::LoopBlockedByAutoMix)
        } else {
            ComponentStep::Ask(PlaybackCommand::ToggleLoop)
        },
        ComponentAction::Shuffle => ComponentStep::Ask(PlaybackCommand::Shuffle),
        ComponentAction::AutoMix => ComponentStep::Ask(PlaybackCommand::ToggleAutoMix),
        ComponentAction::Queue { .. } => match preview {
            Some(preview) => if preview.nothing_queued() {
                ComponentStep::Answer(ComponentOutcome::QueueEmpty)
            } else {
                ComponentStep::Answer(ComponentOutcome::QueuePreview(Box::new(preview)))
            },
            None => ComponentStep::Answer(ComponentOutcome::QueueEmpty),
        },
    }
}

/// The outcome of a command. The reply is what the command answered, and none where
/// there was nothing to act on.
pub open spec fn outcome_of(command: PlaybackCommand, reply: Option<bool>) -> ComponentOutcome {
    match command {
        PlaybackCommand::Skip => match reply {
            Some(was_looping) => ComponentOutcome::Skip { was_looping },
            None => ComponentOutcome::NoTrackPlaying,
        },
        PlaybackCommand::ToggleLoop => match reply {
            Some(enabled) => ComponentOutcome::Loop { enabled },
            None => ComponentOutcome::NoTrackPlaying,
        },
        PlaybackCommand::Shuffle => if reply == Some(true) {
            ComponentOutcome::Shuffle
        } else {
            ComponentOutcome::NothingToShuffle
        },
        PlaybackCommand::ToggleAutoMix => match reply {
            Some(enabled) => ComponentOutcome::AutoMix { enabled },
            None => ComponentOutcome::NoTrackPlaying,
        },
    }
}

/// Tells the outcome of a command.
pub fn component_outcome(command: PlaybackCommand, reply: Option<bool>) -> (r: ComponentOutcome)
    ensures
        r == outcome_of(command, reply),
{
    match command {
        PlaybackCommand::Skip => match reply {
            Some(was_looping) => ComponentOutcome::Skip { was_looping },
            None => ComponentOutcome::NoTrackPlaying,
        },
        PlaybackCommand::ToggleLoop => match reply {
            Some(enabled) => ComponentOutcome::Loop { enabled },
            None => ComponentOutcome::NoTrackPlaying,
        },
        PlaybackCommand::Shuffle => match reply {
            Some(true) => ComponentOutcome::Shuffle,
            _ => ComponentOutcome::NothingToShuffle,
        },
        PlaybackCommand::ToggleAutoMix => match reply {
            Some(enabled) => ComponentOutcome::AutoMix { enabled },
            None => ComponentOutcome::NoTrackPlaying,
        },
    }
}

/// Control over a playback service.
#[derive(Clone)]
pub struct ControlService<P: PlaybackService> {
    pub playback: P,
}

impl<P: PlaybackService> ControlService<P> {
    pub fn new(playback: P) -> (r: Self)
        ensures
            r.playback == playback,
    {
        ControlService { playback }
    }

    pub fn voice_action_access(
        &self,
        guild_id: GuildKey,
        actor_channel: Option<ChannelKey>,
    ) -> (r: VoiceActionAccess)
        ensures
            call_ensures(P::voice_action_access, (&self.playback, guild_id, actor_channel), r),
    {
        self.playback.voice_action_access(guild_id, actor_channel)
    }

    /// Decides what follows an action of a user. The playback is asked for nothing
    /// that the decision does not need.
    pub fn handle_component(
        &self,
        guild_id: GuildKey,
        actor_channel: Option<ChannelKey>,
        action: ComponentAction,
    ) -> (r: ComponentStep)
        ensures
            exists|access: VoiceActionAccess, automix_enabled: bool, preview: Option<QueuePreview>|
                call_ensures(
                    P::voice_action_access,
                    (&self.playback, guild_id, actor_channel),
                    access,
                ) && (action == ComponentAction::Loop && access is SameChannel ==> call_ensures(
                    P::automix_enabled,
                    (&self.playback, guild_id),
                    automix_enabled,
                )) && (action is Queue && access is SameChannel ==> call_ensures(
                    P::queue_preview,
                    (&self.playback, guild_id, action->limit),
                    preview,
                )) && r == #[trigger] step_of(access, action, automix_enabled, preview),
    {
        let access = self.voice_action_access(guild_id, actor_channel);
        let shared: bool = matches!(access, VoiceActionAccess::SameChannel { .. });
        let mut automix_enabled: bool = false;
        let mut preview: Option<QueuePreview> = None;
        if shared {
            match action {
                ComponentAction::Loop => {
                    automix_enabled = self.playback.automix_enabled(guild_id);
                },
                ComponentAction::Queue { limit } => {
                    preview = self.playback.queue_preview(guild_id, limit);
                },
                _ => {},
            }
        }
        component_step(access, action, automix_enabled, preview)
    }

    pub fn has_current_track(&self, guild_id: GuildKey) -> (r: bool)
        ensures
            call_ensures(P::has_current_track, (&self.playback, guild_id), r),
    {
        self.playback.has_current_track(guild_id)
    }

    pub fn automix_enabled(&self, guild_id: GuildKey) -> (r: bool)
        ensures
            call_ensures(P::automix_enabled, (&self.playback, guild_id), r),
    {
        self.playback.automix_enabled(guild_id)
    }

    pub fn bootstrap_voice_state(
        &self,
        guild_id: GuildKey,
        bot_channel: ChannelKey,
        peers: Vec<VoicePeerSnapshot>,
    ) -> (r: ())
        ensures
            call_ensures(
                P::bootstrap_voice_state,
                (&self.playback, guild_id, bot_channel, peers),
                r,
            ),
    {
        self.playback.bootstrap_voice_state(guild_id, bot_channel, peers)
    }

    pub fn update_bot_voice_channel(
        &self,
        guild_id: GuildKey,
        new_channel: Option<ChannelKey>,
    ) -> (r: ())
        ensures
            call_ensures(P::update_bot_voice_channel, (&self.playback, guild_id, new_channel), r),
    {
        self.playback.update_bot_voice_channel(guild_id, new_channel)
    }

    pub fn clear_voice_state(&self, guild_id: GuildKey) -> (r: ())
        ensures
            call_ensures(P::clear_voice_state, (&self.playback, guild_id), r),
    {
        self.playback.clear_voice_state(guild_id)
    }

    pub fn apply_peer_voice_state(
        &self,
        guild_id: GuildKey,
        user_id: UserKey,
        old_channel: Option<ChannelKey>,
        new_channel: Option<ChannelKey>,
    ) -> (r: VoiceUpdateDecision)
        ensures
            call_ensures(
                P::apply_peer_voice_state,
                (&self.playback, guild_id, user_id, old_channel, new_channel),
                r,
            ),
    {
        self.playback.apply_peer_voice_state(guild_id, user_id, old_channel, new_channel)
    }
}

/// No action of a user outside the bot's voice channel reaches the playback.
pub proof fn outsiders_do_not_reach_the_playback(
    access: VoiceActionAccess,
    action: ComponentAction,
    automix_enabled: bool,
    preview: Option<QueuePreview>,
)
    requires
        access !is SameChannel,
    ensures
        step_of(access, action, automix_enabled, preview) == ComponentStep::Answer(
            ComponentOutcome::VoiceChannelRequired,
        ),
{
}

/// Each action of a user in the bot's channel leads to its own command and to no
/// other: only a skip skips, only a loop loops, and that only while transitions are
/// not automatic. A look at the queue asks for no command.
pub proof fn every_action_has_its_own_command(
    access: VoiceActionAccess,
    action: ComponentAction,
    automix_enabled: bool,
    preview: Option<QueuePreview>,
)
    ensures
        ({
            let step = step_of(access, action, automix_enabled, preview);
            &&& step == ComponentStep::Ask(PlaybackCommand::Skip) <==> access is SameChannel
                && action == ComponentAction::Skip
            &&& step == ComponentStep::Ask(PlaybackCommand::ToggleLoop) <==> access is SameChannel
                && action == ComponentAction::Loop && !automix_enabled
            &&& step == ComponentStep::Ask(PlaybackCommand::Shuffle) <==> access is SameChannel
                && action == ComponentAction::Shuffle
            &&& step == ComponentStep::Ask(PlaybackCommand::ToggleAutoMix) <==> access
                is SameChannel && action == ComponentAction::AutoMix
            &&& step == ComponentStep::Answer(ComponentOutcome::LoopBlockedByAutoMix) <==> access
                is SameChannel && action == ComponentAction::Loop && automix_enabled
            &&& step == ComponentStep::Answer(ComponentOutcome::VoiceChannelRequired) <==> access
                !is SameChannel
        }),
{
}

/// A user in the bot's channel is shown the queue as it is, and told that it is empty
/// just where nothing plays and nothing waits.
pub proof fn queues_are_shown_as_they_are(
    access: VoiceActionAccess,
    limit: usize,
    automix_enabled: bool,
    preview: Option<QueuePreview>,
)
    requires
        access is SameChannel,
    ensures
        ({
            let step = step_of(access, ComponentAction::Queue { limit }, automix_enabled, preview);
            let empty = preview is None || (preview->0.current is None
                && preview->0.total_queued == 0);
            &&& step == ComponentStep::Answer(ComponentOutcome::QueueEmpty) <==> empty
            &&& !empty ==> step == ComponentStep::Answer(
                ComponentOutcome::QueuePreview(Box::new(preview->0)),
            )
        }),
{
}

/// What a user is told speaks of the command that was asked for: a reply is handed on
/// as it is, and without one there was nothing to act on.
pub proof fn outcomes_speak_of_their_command(command: PlaybackCommand, reply: Option<bool>)
    ensures
        ({
            let outcome = outcome_of(command, reply);
            &&& outcome is Skip <==> command == PlaybackCommand::Skip && reply is Some
            &&& outcome is Loop <==> command == PlaybackCommand::ToggleLoop && reply is Some
            &&& outcome is AutoMix <==> command == PlaybackCommand::ToggleAutoMix && reply is Some
            &&& outcome is Shuffle <==> command == PlaybackCommand::Shuffle && reply == Some(true)
            &&& outcome is NothingToShuffle <==> command == PlaybackCommand::Shuffle && reply
                != Some(true)
            &&& outcome is NoTrackPlaying <==> command != PlaybackCommand::Shuffle && reply is None
            &&& outcome matches ComponentOutcome::Skip { was_looping } ==> reply == Some(
                was_looping,
            )
            &&& outcome is Loop ==> reply == Some(outcome->Loop_enabled)
            &&& outcome is AutoMix ==> reply == Some(outcome->AutoMix_enabled)
        }),
{
}

} // verus!
