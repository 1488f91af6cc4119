//! What the bot says and does on Discord.

use vstd::prelude::*;

use crate::contracts::{
    ChannelKey, GuildKey, PlaybackService, QueuePreview, TrackRequest, UserKey, VoicePeerSnapshot,
    VoiceUpdateDecision,
};
use crate::text::{chars_of, decimal, same_text, spec_decimal, spec_trim, text_of, trim};

verus! {

/// How many tracks of a queue are shown.
pub const QUEUE_PREVIEW_LIMIT: usize = 10;

/// Messages that users see.
#[derive(Clone, Copy, Debug, PartialEq, Eq, Structural)]
pub enum ReplyMessage {
    AllowedUrlOnly,
    JoinVoiceFirst,
    NoTrackPlaying,
    NothingToShuffle,
    QueueEmpty,
    Shuffled,
}

/// The buttons of the player.
#[derive(Clone, Copy, Debug, PartialEq, Eq, Structural)]
pub enum PlayerButton {
    Skip,
    Loop,
    Shuffle,
    Queue,
}

/// The custom ids of the buttons.
#[derive(Clone, Debug)]
pub struct ButtonIds {
    pub skip: String,
    pub looping: String,
    pub shuffle: String,
    pub queue: String,
}

/// The button that has the custom id; the first one in order.
pub open spec fn button_with_id(ids: ButtonIds, custom_id: Seq<char>) -> Option<PlayerButton> {
    if custom_id == ids.skip@ {
        Some(PlayerButton::Skip)
    } else if custom_id == ids.looping@ {
        Some(PlayerButton::Loop)
    } else if custom_id == ids.shuffle@ {
        Some(PlayerButton::Shuffle)
    } else if custom_id == ids.queue@ {
        Some(PlayerButton::Queue)
    } else {
        None
    }
}

impl ButtonIds {
    /// The button that was pressed, if the custom id is that of one.
    pub fn button(&self, custom_id: &str) -> (r: Option<PlayerButton>)
        ensures
            r == button_with_id(*self, custom_id@),
    {
        if same_text(custom_id, self.skip.as_str()) {
            Some(PlayerButton::Skip)
        } else if same_text(custom_id, self.looping.as_str()) {
            Some(PlayerButton::Loop)
        } else if same_text(custom_id, self.shuffle.as_str()) {
            Some(PlayerButton::Shuffle)
        } else if same_text(custom_id, self.queue.as_str()) {
            Some(PlayerButton::Queue)
        } else {
            None
        }
    }
}

/// What happens to the nickname of the bot.
#[derive(Clone, Copy, Debug, PartialEq, Eq, Structural)]
pub enum NicknameChange {
    Keep,
    Clear,
    Looping,
}

/// How the bot responds to a button.
#[derive(Clone, Debug, PartialEq, Eq)]
pub enum ComponentResponse {
    /// A message for the user alone; an error or not.
    Reply { message: ReplyMessage, is_error: bool },
    /// The queue, for the user alone.
    ShowQueue(QueuePreview),
    /// No message, and perhaps another nickname.
    Defer(NicknameChange),
}

/// Whether a skip may go on: only with a current track.
pub fn skip_admission(has_current_track: bool) -> (r: Option<ComponentResponse>)
    ensures
        r == if has_current_track {
            None
        } else {
            Some(
                ComponentResponse::Reply { message: ReplyMessage::NoTrackPlaying, is_error: true },
            )
        },
{
    if has_current_track {
        None
    } else {
        Some(ComponentResponse::Reply { message: ReplyMessage::NoTrackPlaying, is_error: true })
    }
}

/// The response to a skip. A track that was looping gives the nickname back.
pub fn skip_response(was_looping: Option<bool>) -> (r: ComponentResponse)
    ensures
        r == ComponentResponse::Defer(
            if was_looping == Some(true) {
                NicknameChange::Clear
            } else {
                NicknameChange::Keep
            },
        ),
{
    match was_looping {
        Some(true) => ComponentResponse::Defer(NicknameChange::Clear),
        _ => ComponentResponse::Defer(NicknameChange::Keep),
    }
}

/// The response to a change of the loop.
pub fn loop_response(looping: Option<bool>) -> (r: ComponentResponse)
    ensures
        r == match looping {
            None => ComponentResponse::Reply {
                message: ReplyMessage::NoTrackPlaying,
                is_error: true,
            },
            Some(true) => ComponentResponse::Defer(NicknameChange::Looping),
            Some(false) => ComponentResponse::Defer(NicknameChange::Clear),
        },
{
    match looping {
        None => ComponentResponse::Reply { message: ReplyMessage::NoTrackPlaying, is_error: true },
        Some(true) => ComponentResponse::Defer(NicknameChange::Looping),
        Some(false) => ComponentResponse::Defer(NicknameChange::Clear),
    }
}

/// The response to a shuffle.
pub fn shuffle_response(shuffled: bool) -> (r: ComponentResponse)
    ensures
        r == if shuffled {
            ComponentResponse::Reply { message: ReplyMessage::Shuffled, is_error: false }
        } else {
            ComponentResponse::Reply { message: ReplyMessage::NothingToShuffle, is_error: true }
        },
{
    if shuffled {
        ComponentResponse::Reply { message: ReplyMessage::Shuffled, is_error: false }
    } else {
        ComponentResponse::Reply { message: ReplyMessage::NothingToShuffle, is_error: true }
    }
}

/// The response to a request for the queue.
pub fn queue_response(preview: Option<QueuePreview>) -> (r: ComponentResponse)
    ensures
        r == match preview {
            Some(preview) => if preview.is_idle() {
                ComponentResponse::Reply { message: ReplyMessage::QueueEmpty, is_error: true }
            } else {
                ComponentResponse::ShowQueue(preview)
            },
            None => ComponentResponse::Reply { message: ReplyMessage::QueueEmpty, is_error: true },
        },
{
    match preview {
        Some(preview) => if preview.nothing_queued() {
            ComponentResponse::Reply { message: ReplyMessage::QueueEmpty, is_error: true }
        } else {
            ComponentResponse::ShowQueue(preview)
        },
        None => ComponentResponse::Reply { message: ReplyMessage::QueueEmpty, is_error: true },
    }
}

/// What the playback is asked to do for a button.
#[derive(Clone, Copy, Debug, PartialEq, Eq, Structural)]
pub enum ButtonCommand {
    Skip,
    ToggleLoop,
    Shuffle,
}

/// What follows the press of a button.
#[derive(Clone, Debug, PartialEq, Eq)]
pub enum ButtonStep {
    /// Nothing.
    Ignore,
    /// The response is known at once.
    Respond(ComponentResponse),
    /// The playback is asked, and its reply tells the response.
    Ask(ButtonCommand),
}

/// What follows the press of a button. Outside a guild, and for an unknown button,
/// nothing does.
pub open spec fn button_step_of(
    in_guild: bool,
    button: Option<PlayerButton>,
    has_current_track: bool,
    preview: Option<QueuePreview>,
) -> ButtonStep {
    if !in_guild {
        ButtonStep::Ignore
    } else {
        match button {
            None => ButtonStep::Ignore,
            Some(PlayerButton::Skip) => if has_current_track {
                ButtonStep::Ask(ButtonCommand::Skip)
            } else {
                ButtonStep::Respond(
                    ComponentResponse::Reply {
                        message: ReplyMessage::NoTrackPlaying,
                        is_error: true,
                    },
                )
            },
            Some(PlayerButton::Loop) => ButtonStep::Ask(ButtonCommand::ToggleLoop),
            Some(PlayerButton::Shuffle) => ButtonStep::Ask(ButtonCommand::Shuffle),
            Some(PlayerButton::Queue) => ButtonStep::Respond(
                match preview {
                    Some(preview) => if preview.is_idle() {
                        ComponentResponse::Reply {
                            message: ReplyMessage::QueueEmpty,
                            is_error: true,
                        }
                    } else {
                        ComponentResponse::ShowQueue(preview)
                    },
                    None => ComponentResponse::Reply {
                        message: ReplyMessage::QueueEmpty,
                        is_error: true,
                    },
                },
            ),
        }
    }
}

/// Decides what follows the press of a button.
pub fn button_step(
    in_guild: bool,
    button: Option<PlayerButton>,
    has_current_track: bool,
    preview: Option<QueuePreview>,
) -> (r: ButtonStep)
    ensures
        r == button_step_of(in_guild, button, has_current_track, preview),
{
    if !in_guild {
        return ButtonStep::Ignore;
    }
    match button {
        None => ButtonStep::Ignore,
        Some(PlayerButton::Skip) => match skip_admission(has_current_track) {
            Some(response) => ButtonStep::Respond(response),
            None => ButtonStep::Ask(ButtonCommand::Skip),
        },
        Some(PlayerButton::Loop) => ButtonStep::Ask(ButtonCommand::ToggleLoop),
        Some(PlayerButton::Shuffle) => ButtonStep::Ask(ButtonCommand::Shuffle),
        Some(PlayerButton::Queue) => ButtonStep::Respond(queue_response(preview)),
    }
}

/// The response to what a command answered.
pub open spec fn response_of(command: ButtonCommand, reply: Option<bool>) -> ComponentResponse {
    match command {
        ButtonCommand::Skip => ComponentResponse::Defer(
            if reply == Some(true) {
                NicknameChange::Clear
            } else {
                NicknameChange::Keep
            },
        ),
        ButtonCommand::ToggleLoop => match reply {
            None => ComponentResponse::Reply {
                message: ReplyMessage::NoTrackPlaying,
                is_error: true,
            },
            Some(true) => ComponentResponse::Defer(NicknameChange::Looping),
            Some(false) => ComponentResponse::Defer(NicknameChange::Clear),
        },
        ButtonCommand::Shuffle => if reply == Some(true) {
            ComponentResponse::Reply { message: ReplyMessage::Shuffled, is_error: false }
        } else {
            ComponentResponse::Reply { message: ReplyMessage::NothingToShuffle, is_error: true }
        },
    }
}

/// Tells the response to what a command answered.
pub fn button_response(command: ButtonCommand, reply: Option<bool>) -> (r: ComponentResponse)
    ensures
        r == response_of(command, reply),
{
    match command {
        ButtonCommand::Skip => skip_response(reply),
        ButtonCommand::ToggleLoop => loop_response(reply),
        ButtonCommand::Shuffle => shuffle_response(
            match reply {
                Some(true) => true,
                _ => false,
            },
        ),
    }
}

/// An option that a user gave with a command; the value may be no text.
#[derive(Clone, Debug, PartialEq, Eq)]
pub struct CommandValue {
    pub name: String,
    pub text: Option<String>,
}

/// The text of the first option, from an index on, that has the name; an empty one
/// where there is none or its value is no text.
pub open spec fn value_of(options: Seq<CommandValue>, name: Seq<char>, from: int) -> Seq<char>
    decreases options.len() - from,
{
    if from >= options.len() {
        Seq::empty()
    } else if options[from].name@ == name {
        match options[from].text {
            Some(text) => text@,
            None => Seq::empty(),
        }
    } else {
        value_of(options, name, from + 1)
    }
}

/// The URL that a user asks for: the text of the option with the name, without the
/// white space around it.
pub fn play_source_url(options: &Vec<CommandValue>, name: &str) -> (r: String)
    ensures
        r@ == spec_trim(value_of(options@, name@, 0)),
{
    let mut value: String = String::new();
    let mut i: usize = 0;
    while i < options.len()
        invariant_except_break
            value@.len() == 0,
        invariant
            i <= options@.len(),
            value_of(options@, name@, 0) == value_of(options@, name@, i as int),
        ensures
            value@ == value_of(options@, name@, 0),
        decreases options@.len() - i,
    {
        if same_text(options[i].name.as_str(), name) {
            if let Some(text) = &options[i].text {
                value = text.clone();
            }
            break;
        }
        i += 1;
    }
    text_of(trim(chars_of(value.as_str()).as_slice()).as_slice())
}

/// What follows the play command.
#[derive(Clone, Copy, Debug, PartialEq, Eq, Structural)]
pub enum PlayAdmission {
    /// Nothing: the command was not given in a guild.
    Ignore,
    /// The user is told why nothing plays.
    Refuse(ReplyMessage),
    /// The bot answers later, and joins the channel if it has not.
    Proceed(ChannelKey),
}

/// Decides what follows the play command: the URL must be allowed and the user must
/// be in a voice channel.
pub fn play_admission(
    in_guild: bool,
    url_allowed: bool,
    user_channel: Option<ChannelKey>,
) -> (r: PlayAdmission)
    ensures
        r == if !in_guild {
            PlayAdmission::Ignore
        } else if !url_allowed {
            PlayAdmission::Refuse(ReplyMessage::AllowedUrlOnly)
        } else {
            match user_channel {
                None => PlayAdmission::Refuse(ReplyMessage::JoinVoiceFirst),
                Some(channel) => PlayAdmission::Proceed(channel),
            }
        },
{
    if !in_guild {
        return PlayAdmission::Ignore;
    }
    if !url_allowed {
        return PlayAdmission::Refuse(ReplyMessage::AllowedUrlOnly);
    }
    match user_channel {
        None => PlayAdmission::Refuse(ReplyMessage::JoinVoiceFirst),
        Some(channel) => PlayAdmission::Proceed(channel),
    }
}

/// What follows a change in a voice channel.
#[derive(Clone, Copy, Debug, PartialEq, Eq, Structural)]
pub enum VoiceUpdateAction {
    Ignore,
    /// The channel of the bot itself changed.
    UpdateBotChannel,
    /// The bot is alone: it leaves and gives its nickname back.
    Disconnect,
}

/// A control plane over a playback service.
#[derive(Clone)]
pub struct DiscordControlPlane<P: PlaybackService> {
    pub playback: P,
    /// Whether the tasks of the first start are done.
    pub boot_tasks_done: bool,
}

impl<P: PlaybackService> DiscordControlPlane<P> {
    pub fn new(playback: P) -> (r: Self)
        ensures
            r.playback == playback,
            !r.boot_tasks_done,
    {
        DiscordControlPlane { playback, boot_tasks_done: false }
    }

    /// Whether the tasks of the first start are to be done now: only once, however
    /// often the gateway says that it is ready.
    pub fn begin_boot(&mut self) -> (r: bool)
        ensures
            r == !old(self).boot_tasks_done,
            final(self).boot_tasks_done,
            final(self).playback == old(self).playback,
    {
        let first: bool = !self.boot_tasks_done;
        self.boot_tasks_done = true;
        first
    }

    /// Tells the playback of a change in a voice channel, and decides what follows.
    pub fn voice_state_update(
        &self,
        guild_id: Option<GuildKey>,
        bot_user: UserKey,
        user: UserKey,
        old_channel: Option<ChannelKey>,
        new_channel: Option<ChannelKey>,
    ) -> (r: VoiceUpdateAction)
        ensures
            guild_id is None ==> r == VoiceUpdateAction::Ignore,
            guild_id is Some && user == bot_user ==> r == VoiceUpdateAction::UpdateBotChannel
                && call_ensures(
                P::update_bot_voice_channel,
                (&self.playback, guild_id->0, new_channel),
                (),
            ),
            guild_id is Some && user != bot_user ==> exists|
                decision: VoiceUpdateDecision,
            |
                #[trigger]
                call_ensures(
                    P::apply_peer_voice_state,
                    (&self.playback, guild_id->0, user, old_channel, new_channel),
                    decision,
                ) && r == action_of(decision),
    {
        let guild: GuildKey = match guild_id {
            Some(guild) => guild,
            None => {
                return VoiceUpdateAction::Ignore;
            },
        };
        if user == bot_user {
            self.playback.update_bot_voice_channel(guild, new_channel);
            return VoiceUpdateAction::UpdateBotChannel;
        }
        let decision = self.playback.apply_peer_voice_state(guild, user, old_channel, new_channel);
        voice_update_action(decision)
    }

    /// Decides what follows the press of a button. The playback is asked for
    /// nothing that the decision does not need.
    pub fn handle_component(
        &self,
        guild_id: Option<GuildKey>,
        button: Option<PlayerButton>,
    ) -> (r: ButtonStep)
        ensures
            exists|has_current_track: bool, preview: Option<QueuePreview>|
                (guild_id is Some && button == Some(PlayerButton::Skip) ==> call_ensures(
                    P::has_current_track,
                    (&self.playback, guild_id->0),
                    has_current_track,
                )) && (guild_id is Some && button == Some(PlayerButton::Queue) ==> call_ensures(
                    P::queue_preview,
                    (&self.playback, guild_id->0, QUEUE_PREVIEW_LIMIT),
                    preview,
                )) && r == #[trigger] button_step_of(
                    guild_id is Some,
                    button,
                    has_current_track,
                    preview,
                ),
    {
        let mut has_current_track: bool = false;
        let mut preview: Option<QueuePreview> = None;
        if let Some(guild) = guild_id {
            match button {
                Some(PlayerButton::Skip) => {
                    has_current_track = self.playback.has_current_track(guild);
                },
                Some(PlayerButton::Queue) => {
                    preview = self.playback.queue_preview(guild, QUEUE_PREVIEW_LIMIT);
                },
                _ => {},
            }
        }
        button_step(guild_id.is_some(), button, has_current_track, preview)
    }
}

/// What follows the decision on a change in a voice channel.
pub open spec fn action_of(decision: VoiceUpdateDecision) -> VoiceUpdateAction {
    if decision == VoiceUpdateDecision::DisconnectAlone {
        VoiceUpdateAction::Disconnect
    } else {
        VoiceUpdateAction::Ignore
    }
}

/// What follows the decision on a change in a voice channel.
pub fn voice_update_action(decision: VoiceUpdateDecision) -> (r: VoiceUpdateAction)
    ensures
        r == action_of(decision),
{
    match decision {
        VoiceUpdateDecision::DisconnectAlone => VoiceUpdateAction::Disconnect,
        _ => VoiceUpdateAction::Ignore,
    }
}

/// The users of a guild and the voice channels they are in, without the bot and
/// without those who are in none.
pub open spec fn peers_of(states: Seq<(UserKey, Option<ChannelKey>)>, bot: UserKey, n: int) -> Seq<
    VoicePeerSnapshot,
>
    decreases n,
{
    if n <= 0 {
        Seq::empty()
    } else {
        let (user, channel) = states[n - 1];
        match channel {
            Some(channel_id) if user != bot => peers_of(states, bot, n - 1).push(
                VoicePeerSnapshot { user_id: user, channel_id },
            ),
            _ => peers_of(states, bot, n - 1),
        }
    }
}

/// The users in voice channels, without the bot.
pub fn guild_voice_snapshot(
    states: &[(UserKey, Option<ChannelKey>)],
    bot: UserKey,
) -> (r: Vec<VoicePeerSnapshot>)
    ensures
        r@ == peers_of(states@, bot, states@.len() as int),
{
    let mut peers: Vec<VoicePeerSnapshot> = Vec::new();
    let mut i: usize = 0;
    while i < states.len()
        invariant
            i <= states@.len(),
            peers@ == peers_of(states@, bot, i as int),
        decreases states@.len() - i,
    {
        let (user, channel): (UserKey, Option<ChannelKey>) = states[i];
        if let Some(channel_id) = channel {
            if user != bot {
                peers.push(VoicePeerSnapshot { user_id: user, channel_id });
            }
        }
        i += 1;
    }
    peers
}

/// An option of a command.
#[derive(Clone, Debug)]
pub struct CommandOptionShape {
    pub name: String,
    pub takes_text: bool,
}

/// A command that is registered.
#[derive(Clone, Debug)]
pub struct CommandShape {
    pub name: String,
    pub description: String,
    pub options: Vec<CommandOptionShape>,
}

/// Whether the play command, and no other, is registered as it should be.
pub fn matches_expected_commands(
    commands: &[CommandShape],
    name: &str,
    description: &str,
    url_option: &str,
) -> (r: bool)
    ensures
        r == (commands@.len() == 1 && commands@[0].name@ == name@ && commands@[0].description@
            == description@ && commands@[0].options@.len() == 1 && commands@[0].options@[0].name@
            == url_option@ && commands@[0].options@[0].takes_text),
{
    if commands.len() != 1 {
        return false;
    }
    let play = &commands[0];
    same_text(play.name.as_str(), name) && same_text(play.description.as_str(), description)
        && play.options.len() == 1 && same_text(play.options[0].name.as_str(), url_option)
        && play.options[0].takes_text
}

/// A track as a link.
pub open spec fn track_link(track: TrackRequest) -> Seq<char> {
    "["@ + track.metadata.title@ + "]("@ + track.metadata.uri@ + ")"@
}

fn link_to(track: &TrackRequest) -> (r: String)
    ensures
        r@ == track_link(*track),
{
    "[".to_owned().concat(track.metadata.title.as_str()).concat("](").concat(
        track.metadata.uri.as_str(),
    ).concat(")")
}

/// The first `n` tracks as a numbered list of links.
pub open spec fn numbered_links(tracks: Seq<TrackRequest>, n: int) -> Seq<char>
    decreases n,
{
    if n <= 0 {
        Seq::empty()
    } else {
        numbered_links(tracks, n - 1) + spec_decimal(n as nat) + ". "@ + track_link(tracks[n - 1])
            + "\n"@
    }
}

/// The list of the tracks that come next, and how many more there are.
pub open spec fn upcoming_text(preview: QueuePreview) -> Seq<char> {
    let shown = preview.upcoming@.len() as int;
    let lines = numbered_links(preview.upcoming@, shown);
    if preview.total_queued > shown {
        lines + "\n...and "@ + spec_decimal((preview.total_queued - shown) as nat)
            + " more songs"@
    } else {
        lines
    }
}

/// The texts of the queue: what plays now, and what comes next.
#[derive(Clone, Debug, PartialEq, Eq)]
pub struct QueueText {
    pub now_playing: Option<String>,
    pub next_up: Option<String>,
}

/// Writes the texts of the queue.
pub fn queue_embed(preview: &QueuePreview) -> (r: QueueText)
    ensures
        match preview.current {
            Some(track) => r.now_playing matches Some(text) && text@ == track_link(track),
            None => r.now_playing is None,
        },
        if preview.upcoming@.len() == 0 {
            r.next_up is None
        } else {
            r.next_up matches Some(text) && text@ == upcoming_text(*preview)
        },
{
    let now_playing: Option<String> = match &preview.current {
        Some(track) => Some(link_to(track)),
        None => None,
    };
    if preview.upcoming.len() == 0 {
        return QueueText { now_playing, next_up: None };
    }
    let mut lines: String = String::new();
    let mut i: usize = 0;
    while i < preview.upcoming.len()
        invariant
            i <= preview.upcoming@.len(),
            lines@ == numbered_links(preview.upcoming@, i as int),
        decreases preview.upcoming@.len() - i,
    {
        let number = decimal((i + 1) as u64);
        let link = link_to(&preview.upcoming[i]);
        lines = lines.concat(number.as_str()).concat(". ").concat(link.as_str()).concat("\n");
        i += 1;
    }
    if preview.total_queued > preview.upcoming.len() {
        let more = decimal((preview.total_queued - preview.upcoming.len()) as u64);
        lines = lines.concat("\n...and ").concat(more.as_str()).concat(" more songs");
    }
    QueueText { now_playing, next_up: Some(lines) }
}

/// Who asked for a track.
pub fn requested_by(name: &str) -> (r: String)
    ensures
        r@ == "Requested by "@ + name@,
{
    "Requested by ".to_owned().concat(name)
}

/// Each button is found by its own identifier, whatever the others are as long as they
/// differ, and no other text finds one.
pub proof fn buttons_are_found_by_their_own_id(ids: ButtonIds, custom_id: Seq<char>)
    requires
        ids.skip@ != ids.looping@ && ids.skip@ != ids.shuffle@ && ids.skip@ != ids.queue@,
        ids.looping@ != ids.shuffle@ && ids.looping@ != ids.queue@,
        ids.shuffle@ != ids.queue@,
    ensures
        button_with_id(ids, ids.skip@) == Some(PlayerButton::Skip),
        button_with_id(ids, ids.looping@) == Some(PlayerButton::Loop),
        button_with_id(ids, ids.shuffle@) == Some(PlayerButton::Shuffle),
        button_with_id(ids, ids.queue@) == Some(PlayerButton::Queue),
        custom_id != ids.skip@ && custom_id != ids.looping@ && custom_id != ids.shuffle@
            && custom_id != ids.queue@ ==> button_with_id(ids, custom_id) is None,
{
}

/// Outside a guild, or with no button, nothing happens. In one the button to skip asks to
/// skip where something plays, the one to loop to loop, the one to shuffle to shuffle, and
/// the one for the queue shows it unless it is idle.
pub proof fn each_button_asks_for_its_own(
    in_guild: bool,
    playing: bool,
    preview: Option<QueuePreview>,
    button: Option<PlayerButton>,
)
    ensures
        ({
            let step = |button: PlayerButton|
                button_step_of(in_guild, Some(button), playing, preview);
            let error = |message: ReplyMessage|
                ButtonStep::Respond(ComponentResponse::Reply { message, is_error: true });
            &&& button_step_of(false, button, playing, preview) == ButtonStep::Ignore
            &&& button_step_of(in_guild, None, playing, preview) == ButtonStep::Ignore
            &&& in_guild ==> {
                &&& playing ==> step(PlayerButton::Skip) == ButtonStep::Ask(ButtonCommand::Skip)
                &&& !playing ==> step(PlayerButton::Skip) == error(ReplyMessage::NoTrackPlaying)
                &&& step(PlayerButton::Loop) == ButtonStep::Ask(ButtonCommand::ToggleLoop)
                &&& step(PlayerButton::Shuffle) == ButtonStep::Ask(ButtonCommand::Shuffle)
                &&& preview is None ==> step(PlayerButton::Queue) == error(
                    ReplyMessage::QueueEmpty,
                )
                &&& preview matches Some(shown) ==> {
                    let idle = shown.current is None && shown.total_queued == 0;
                    &&& idle ==> step(PlayerButton::Queue) == error(ReplyMessage::QueueEmpty)
                    &&& !idle ==> step(PlayerButton::Queue) == ButtonStep::Respond(
                        ComponentResponse::ShowQueue(shown),
                    )
                }
            }
        }),
{
}

/// A skip clears the nickname only where it was looping, a loop sets or clears it by
/// whether it is on, and a shuffle says whether there was anything to shuffle. Without
/// anything playing a loop is an error.
pub proof fn responses_tell_what_came_of_it(reply: Option<bool>)
    ensures
        response_of(ButtonCommand::Skip, Some(true)) == ComponentResponse::Defer(
            NicknameChange::Clear,
        ),
        reply != Some(true) ==> response_of(ButtonCommand::Skip, reply)
            == ComponentResponse::Defer(NicknameChange::Keep),
        response_of(ButtonCommand::ToggleLoop, Some(true)) == ComponentResponse::Defer(
            NicknameChange::Looping,
        ),
        response_of(ButtonCommand::ToggleLoop, Some(false)) == ComponentResponse::Defer(
            NicknameChange::Clear,
        ),
        response_of(ButtonCommand::ToggleLoop, None) == (ComponentResponse::Reply {
            message: ReplyMessage::NoTrackPlaying,
            is_error: true,
        }),
        response_of(ButtonCommand::Shuffle, Some(true)) == (ComponentResponse::Reply {
            message: ReplyMessage::Shuffled,
            is_error: false,
        }),
        reply != Some(true) ==> response_of(ButtonCommand::Shuffle, reply) == (
        ComponentResponse::Reply { message: ReplyMessage::NothingToShuffle, is_error: true }),
{
}

/// The value of an option is the text of the first one with its name, and empty where that
/// has no text or no option has the name.
pub proof fn values_come_from_the_first_of_the_name(
    options: Seq<CommandValue>,
    name: Seq<char>,
    from: int,
)
    requires
        0 <= from <= options.len(),
    ensures
        forall|i: int|
            {
                &&& from <= i < options.len()
                &&& (#[trigger] options[i]).name@ == name
                &&& forall|k: int| from <= k < i ==> (#[trigger] options[k]).name@ != name
            } ==> value_of(options, name, from) == match options[i].text {
                Some(text) => text@,
                None => Seq::<char>::empty(),
            },
        (forall|k: int| from <= k < options.len() ==> (#[trigger] options[k]).name@ != name)
            ==> value_of(options, name, from).len() == 0,
    decreases options.len() - from,
{
    if from < options.len() {
        values_come_from_the_first_of_the_name(options, name, from + 1);
    }
}

/// The voice channel is left just where the bot has been left alone.
pub proof fn only_loneliness_disconnects()
    ensures
        action_of(VoiceUpdateDecision::DisconnectAlone) == VoiceUpdateAction::Disconnect,
        action_of(VoiceUpdateDecision::StayConnected) == VoiceUpdateAction::Ignore,
        action_of(VoiceUpdateDecision::Ignore) == VoiceUpdateAction::Ignore,
{
}

/// The peers are those in a channel that are not the bot, each with that channel.
pub proof fn peers_are_the_others_in_channels(
    states: Seq<(UserKey, Option<ChannelKey>)>,
    bot: UserKey,
    n: int,
    peer: VoicePeerSnapshot,
)
    requires
        0 <= n <= states.len(),
    ensures
        peers_of(states, bot, n).contains(peer) <==> peer.user_id != bot && exists|k: int|
            0 <= k < n && #[trigger] states[k] == (peer.user_id, Some(peer.channel_id)),
        peers_of(states, bot, n).len() <= n,
    decreases n,
{
    if n > 0 {
        peers_are_the_others_in_channels(states, bot, n - 1, peer);
        let rest = peers_of(states, bot, n - 1);
        let all = peers_of(states, bot, n);
        if all.contains(peer) {
            let i = choose|i: int| 0 <= i < all.len() && all[i] == peer;
            if i < rest.len() {
                assert(rest[i] == peer);
            } else {
                assert(states[n - 1] == (peer.user_id, Some(peer.channel_id)));
            }
        }
        if peer.user_id != bot && exists|k: int|
            0 <= k < n && #[trigger] states[k] == (peer.user_id, Some(peer.channel_id)) {
            let k = choose|k: int|
                0 <= k < n && #[trigger] states[k] == (peer.user_id, Some(peer.channel_id));
            if k < n - 1 {
                assert(rest.contains(peer));
                let i = choose|i: int| 0 <= i < rest.len() && rest[i] == peer;
                assert(all[i] == peer);
            } else {
                assert(all[all.len() - 1] == peer);
            }
        }
    }
}

/// The text of what comes next numbers the shown tracks from one on, a line each, and
/// tells how many more there are just where some are not shown.
pub proof fn upcoming_text_numbers_the_tracks(preview: QueuePreview)
    ensures
        ({
            let shown = preview.upcoming@.len() as int;
            let lines = numbered_links(preview.upcoming@, shown);
            let last = preview.upcoming@[shown - 1];
            &&& shown == 0 ==> lines.len() == 0
            &&& shown > 0 ==> lines == numbered_links(preview.upcoming@, shown - 1) + spec_decimal(
                shown as nat,
            ) + ". ["@ + last.metadata.title@ + "]("@ + last.metadata.uri@ + ")\n"@
            &&& preview.total_queued <= shown ==> upcoming_text(preview) == lines
            &&& preview.total_queued > shown ==> upcoming_text(preview) == lines + "\n...and "@
                + spec_decimal((preview.total_queued - shown) as nat) + " more songs"@
        }),
{
    let shown = preview.upcoming@.len() as int;
    if shown > 0 {
        let last = preview.upcoming@[shown - 1];
        reveal_strlit(". ");
        reveal_strlit("[");
        reveal_strlit(". [");
        reveal_strlit(")");
        reveal_strlit("\n");
        reveal_strlit(")\n");
        assert(numbered_links(preview.upcoming@, shown) =~= numbered_links(
            preview.upcoming@,
            shown - 1,
        ) + spec_decimal(shown as nat) + ". ["@ + last.metadata.title@ + "]("@
            + last.metadata.uri@ + ")\n"@);
    }
}

/// A preview shows at most ten tracks.
pub proof fn previews_are_limited()
    ensures
        QUEUE_PREVIEW_LIMIT == 10,
{
}

} // verus!
