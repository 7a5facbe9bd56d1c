//! The bot as a state machine.
//!
//! The bot itself neither receives nor sends anything. Its host hands it
//! what happened as an [`Event`]; [`step`] answers with what to do next as
//! an [`Action`]. Handling one message takes at most two steps: the first
//! either finishes or asks the host for something, the second finishes
//! with what the host found. Nothing is kept from one message to the next.

use crate::command::{
    command_of, is_command, lemma_commands_exclusive, parse_command, Command, CommandView,
};
use crate::config::{Config, ConfigView};
use crate::handlers::{
    clima, clima_failure, clima_failure_reply, clima_reply, greeting_asset, hello, hello_fallback,
    hello_fallback_reply, hello_reply, help, help_reply, pong, pong_reply, prueba, prueba_reply,
};
use crate::reply::{OutboundReply, OutboundReplyView};
use crate::weather::{
    fetch_failed, weather_of, weather_url, weather_url_of, Fetched, FetchedView, Weather,
};
use vstd::prelude::*;
use vstd::string::StringExecFns;

verus! {

/// A message as it comes in.
#[derive(Debug, Clone, PartialEq, Eq)]
pub struct InboundMessage {
    /// The text of the message.
    pub content: String,
    /// The display name of who wrote it.
    pub author: String,
    /// The identifier of the channel it was written in.
    pub channel: u64,
}

pub struct InboundMessageView {
    pub content: Seq<char>,
    pub author: Seq<char>,
    pub channel: u64,
}

impl View for InboundMessage {
    type V = InboundMessageView;

    open spec fn view(&self) -> InboundMessageView {
        InboundMessageView { content: self.content@, author: self.author@, channel: self.channel }
    }
}

/// Where the handling of a message stands.
#[derive(Debug, Clone, PartialEq, Eq)]
pub enum State {
    /// Nothing is going on.
    Idle,
    /// `!prueba` from `author` waits for its channel.
    AwaitingChannel { author: String },
    /// `!hello` waits for its picture.
    AwaitingAsset,
    /// `!clima` waits for the weather.
    AwaitingWeather,
}

pub enum StateView {
    Idle,
    AwaitingChannel { author: Seq<char> },
    AwaitingAsset,
    AwaitingWeather,
}

impl View for State {
    type V = StateView;

    open spec fn view(&self) -> StateView {
        match self {
            State::Idle => StateView::Idle,
            State::AwaitingChannel { author } => StateView::AwaitingChannel { author: author@ },
            State::AwaitingAsset => StateView::AwaitingAsset,
            State::AwaitingWeather => StateView::AwaitingWeather,
        }
    }
}

/// What the host reports.
#[derive(Debug, PartialEq, Eq)]
pub enum Event {
    /// A message arrived.
    Message(InboundMessage),
    /// The channel was looked up: the identifier to mention it by, or
    /// `None` where the lookup failed.
    ChannelResolved { channel: Option<u64> },
    /// The picture of the greeting was read, or could not be.
    AssetLoaded { loaded: bool },
    /// The request to the weather service ended.
    WeatherFetched(Fetched),
}

pub enum EventView {
    Message(InboundMessageView),
    ChannelResolved { channel: Option<u64> },
    AssetLoaded { loaded: bool },
    WeatherFetched(FetchedView),
}

impl View for Event {
    type V = EventView;

    open spec fn view(&self) -> EventView {
        match self {
            Event::Message(message) => EventView::Message(message@),
            Event::ChannelResolved { channel } => EventView::ChannelResolved { channel: *channel },
            Event::AssetLoaded { loaded } => EventView::AssetLoaded { loaded: *loaded },
            Event::WeatherFetched(fetched) => EventView::WeatherFetched(fetched@),
        }
    }
}

/// What the host is to do.
#[derive(Debug, Clone, PartialEq, Eq)]
pub enum Action {
    /// Nothing; the message is dealt with.
    Nothing,
    /// Send this; the message is dealt with.
    Send(OutboundReply),
    /// Look up this channel and report it.
    ResolveChannel { channel: u64 },
    /// Read the file at `path` and report whether that worked.
    LoadAsset { path: String },
    /// Ask the weather service at `url` and report its answer.
    FetchWeather { url: String },
}

pub enum ActionView {
    Nothing,
    Send(OutboundReplyView),
    ResolveChannel { channel: u64 },
    LoadAsset { path: Seq<char> },
    FetchWeather { url: Seq<char> },
}

impl View for Action {
    type V = ActionView;

    open spec fn view(&self) -> ActionView {
        match self {
            Action::Nothing => ActionView::Nothing,
            Action::Send(reply) => ActionView::Send(reply@),
            Action::ResolveChannel { channel } => ActionView::ResolveChannel { channel: *channel },
            Action::LoadAsset { path } => ActionView::LoadAsset { path: path@ },
            Action::FetchWeather { url } => ActionView::FetchWeather { url: url@ },
        }
    }
}

/// What a message leads to when nothing is going on: each command to its
/// own handler, anything else to nothing.
pub open spec fn on_message(config: ConfigView, message: InboundMessageView) -> (
    StateView,
    ActionView,
) {
    match command_of(message.content) {
        None => (StateView::Idle, ActionView::Nothing),
        Some(CommandView::Ping) => (StateView::Idle, ActionView::Send(pong_reply())),
        Some(CommandView::Prueba) => (
            StateView::AwaitingChannel { author: message.author },
            ActionView::ResolveChannel { channel: message.channel },
        ),
        Some(CommandView::Hello) => (
            StateView::AwaitingAsset,
            ActionView::LoadAsset { path: greeting_asset() },
        ),
        Some(CommandView::Help) => (StateView::Idle, ActionView::Send(help_reply())),
        Some(CommandView::Clima { city }) => (
            StateView::AwaitingWeather,
            ActionView::FetchWeather { url: weather_url_of(city, config.api_weather) },
        ),
    }
}

/// The transition function. A report that the state does not wait for
/// ends the handling without a reply, and so does a channel that could not
/// be looked up.
pub open spec fn step_of(config: ConfigView, state: StateView, event: EventView, now: i64) -> (
    StateView,
    ActionView,
) {
    match (state, event) {
        (StateView::Idle, EventView::Message(message)) => on_message(config, message),
        (
            StateView::AwaitingChannel { author },
            EventView::ChannelResolved { channel: Some(channel) },
        ) => (StateView::Idle, ActionView::Send(prueba_reply(author, channel))),
        (StateView::AwaitingAsset, EventView::AssetLoaded { loaded }) => (
            StateView::Idle,
            ActionView::Send(
                if loaded {
                    hello_reply(now)
                } else {
                    hello_fallback_reply()
                },
            ),
        ),
        (StateView::AwaitingWeather, EventView::WeatherFetched(fetched)) => (
            StateView::Idle,
            ActionView::Send(
                match weather_of(fetched) {
                    Ok(weather) => clima_reply(weather, now),
                    Err(_) => clima_failure_reply(),
                },
            ),
        ),
        _ => (StateView::Idle, ActionView::Nothing),
    }
}

/// Whether an action ends the handling of a message.
pub open spec fn is_final(action: ActionView) -> bool {
    action is Nothing || action is Send
}

/// Decides what to do about a message when nothing is going on.
pub fn accept_message(config: &Config, message: &InboundMessage) -> (r: (State, Action))
    ensures
        (r.0@, r.1@) == on_message(config@, message@),
        !is_command(message@.content) ==> r.0@ is Idle && r.1@ is Nothing,
{
    proof {
        lemma_commands_exclusive(message@.content);
    }
    match parse_command(message.content.as_str()) {
        None => (State::Idle, Action::Nothing),
        Some(Command::Ping) => (State::Idle, Action::Send(pong())),
        Some(Command::Prueba) => (
            State::AwaitingChannel { author: message.author.clone() },
            Action::ResolveChannel { channel: message.channel },
        ),
        Some(Command::Hello) => (
            State::AwaitingAsset,
            Action::LoadAsset { path: String::from_str("./ferris_eyes.png") },
        ),
        Some(Command::Help) => (State::Idle, Action::Send(help())),
        Some(Command::Clima { city }) => (
            State::AwaitingWeather,
            Action::FetchWeather { url: weather_url(city.as_str(), config.api_weather.as_str()) },
        ),
    }
}

/// Takes one step: from where the handling stands and what the host
/// reports, at the time `now`, to where it stands next and what the host
/// is to do.
pub fn step(config: &Config, state: State, event: Event, now: i64) -> (r: (State, Action))
    ensures
        (r.0@, r.1@) == step_of(config@, state@, event@, now),
        is_final(r.1@) <==> r.0@ is Idle,
        state@ !is Idle ==> r.0@ is Idle,
        event@ matches EventView::Message(message) && !is_command(message.content) ==> r.1@
            is Nothing,
{
    match (state, event) {
        (State::Idle, Event::Message(message)) => accept_message(config, &message),
        (State::AwaitingChannel { author }, Event::ChannelResolved { channel: Some(channel) }) => (
            State::Idle,
            Action::Send(prueba(author.as_str(), channel)),
        ),
        (State::AwaitingAsset, Event::AssetLoaded { loaded }) => {
            let reply = if loaded {
                hello(now)
            } else {
                hello_fallback()
            };
            (State::Idle, Action::Send(reply))
        },
        (State::AwaitingWeather, Event::WeatherFetched(fetched)) => {
            let reply = match Weather::from_fetched(fetched) {
                Ok(weather) => clima(&weather, now),
                Err(_) => clima_failure(),
            };
            (State::Idle, Action::Send(reply))
        },
        _ => (State::Idle, Action::Nothing),
    }
}

/// A message that is no command leads to nothing, in every state: no
/// reply, no request, and the handling is over.
pub proof fn lemma_no_command_no_action(
    config: ConfigView,
    state: StateView,
    message: InboundMessageView,
    now: i64,
)
    requires
        !is_command(message.content),
    ensures
        step_of(config, state, EventView::Message(message), now) == (
            StateView::Idle,
            ActionView::Nothing,
        ),
{
    lemma_commands_exclusive(message.content);
}

/// `!ping` is answered at once with the one text `Pong!`, whoever wrote
/// it, wherever, and whatever the configuration and the time.
pub proof fn lemma_ping_gets_pong(config: ConfigView, message: InboundMessageView, now: i64)
    requires
        message.content == "!ping"@,
    ensures
        step_of(config, StateView::Idle, EventView::Message(message), now) == (
            StateView::Idle,
            ActionView::Send(OutboundReplyView::Text("Pong!"@)),
        ),
{
}

/// A weather request that failed is answered with the fixed apology, as
/// plain text and without an embed: so it is when no answer came, when
/// the answer was not a success, when its body was no report, when the
/// report described nothing, and when its humidity was above 100.
pub proof fn lemma_failed_fetch_apologises(config: ConfigView, fetched: FetchedView, now: i64)
    requires
        fetch_failed(fetched),
    ensures
        step_of(config, StateView::AwaitingWeather, EventView::WeatherFetched(fetched), now) == (
            StateView::Idle,
            ActionView::Send(OutboundReplyView::Text("⚠️ No se pudo obtener el clima."@)),
        ),
{
}

/// Handling a message takes at most two steps and sends at most one
/// reply: whatever the first step leads to and whatever the host then
/// reports, the second step ends the handling, and only a step that ends
/// the handling sends anything.
pub proof fn lemma_handling_is_short(
    config: ConfigView,
    message: InboundMessageView,
    report: EventView,
    now: i64,
    later: i64,
)
    ensures
        ({
            let first = step_of(config, StateView::Idle, EventView::Message(message), now);
            let second = step_of(config, first.0, report, later);
            &&& is_final(first.1) <==> first.0 is Idle
            &&& !is_final(first.1) ==> second.0 is Idle && is_final(second.1)
        }),
{
}

} // verus!
