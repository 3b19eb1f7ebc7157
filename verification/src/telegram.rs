//! The bot's chat control: its run state and notification level, the
//! commands it answers, and which notifications go out.

use vstd::prelude::*;
use vstd::string::StringExecFns;
use crate::text::{str_eq};

verus! {

/// How much the bot tells the chat.
#[derive(PartialEq, Eq, Structural, Clone, Copy, Debug)]
pub enum NotificationLevel {
    /// Send all messages.
    All,
    /// Only important updates and errors.
    Important,
    /// Only critical errors and trade executions.
    Critical,
    /// No messages (the level the chat calls `none`).
    Silent,
}

/// The bot's run state and notification level.
#[derive(PartialEq, Eq, Structural, Clone, Copy, Debug)]
pub struct BotState {
    pub is_running: bool,
    pub notification_level: NotificationLevel,
}

/// The state a bot starts in: stopped, telling important things.
pub open spec fn default_state() -> BotState {
    BotState { is_running: false, notification_level: NotificationLevel::Important }
}

impl BotState {
    /// A stopped bot at the `Important` level.
    pub fn new() -> (s: Self)
        ensures
            s == default_state(),
    {
        Self::default()
    }

    /// Stops the bot, telling whether it was running.
    pub fn stop(&mut self) -> (was_running: bool)
        ensures
            was_running == old(self).is_running,
            *final(self) == (BotState { is_running: false, ..*old(self) }),
    {
        let was_running = self.is_running;
        self.is_running = false;
        was_running
    }
}

impl Default for BotState {
    fn default() -> (s: Self)
        ensures
            s == default_state(),
    {
        BotState { is_running: false, notification_level: NotificationLevel::Important }
    }
}

/// A message of level `msg_level` goes out at the current level
/// `current_level`: never at `Silent`, only critical ones at `Critical`,
/// critical and important ones at `Important`, all at `All`.
pub open spec fn sufficient(msg_level: NotificationLevel, current_level: NotificationLevel) -> bool {
    match current_level {
        NotificationLevel::Silent => false,
        NotificationLevel::Critical => msg_level == NotificationLevel::Critical,
        NotificationLevel::Important => msg_level == NotificationLevel::Critical || msg_level
            == NotificationLevel::Important,
        NotificationLevel::All => true,
    }
}

/// Whether a message of level `msg_level` goes out at level `current_level`.
pub fn level_is_sufficient(msg_level: NotificationLevel, current_level: NotificationLevel) -> (r: bool)
    ensures
        r == sufficient(msg_level, current_level),
{
    match current_level {
        NotificationLevel::Silent => false,
        NotificationLevel::Critical => msg_level == NotificationLevel::Critical,
        NotificationLevel::Important => msg_level == NotificationLevel::Critical || msg_level
            == NotificationLevel::Important,
        NotificationLevel::All => true,
    }
}

/// How much a level lets through: `Silent` < `Critical` < `Important` < `All`.
pub open spec fn openness(l: NotificationLevel) -> int {
    match l {
        NotificationLevel::Silent => 0,
        NotificationLevel::Critical => 1,
        NotificationLevel::Important => 2,
        NotificationLevel::All => 3,
    }
}

/// Law: `Silent` silences everything, `All` lets everything through, a
/// critical message goes out at every level but `Silent`, and a message that
/// goes out at some level goes out at every more open level.
pub proof fn law_notification_levels(m: NotificationLevel, c: NotificationLevel, d: NotificationLevel)
    ensures
        !sufficient(m, NotificationLevel::Silent),
        sufficient(m, NotificationLevel::All),
        c != NotificationLevel::Silent ==> sufficient(NotificationLevel::Critical, c),
        sufficient(m, c) && openness(c) <= openness(d) ==> sufficient(m, d),
{
}

/// The notification text as sent: preformatted HTML.
pub open spec fn notification_text(message: Seq<char>) -> Seq<char> {
    "<pre>"@ + message + "</pre>"@
}

/// The text to send for a notification of level `level` when the chat is at
/// `current_level`; nothing when the level is not sufficient.
pub fn notification_to_send(level: NotificationLevel, current_level: NotificationLevel, message: &str) -> (r: Option<String>)
    ensures
        match r {
            Some(t) => sufficient(level, current_level) && t@ == notification_text(message@),
            None => !sufficient(level, current_level),
        },
{
    if level_is_sufficient(level, current_level) {
        let mut t = <String as StringExecFns>::from_str("<pre>");
        t.append(message);
        t.append("</pre>");
        Some(t)
    } else {
        None
    }
}

/// The chat commands the bot understands.
#[derive(Clone, Debug)]
pub enum Command {
    /// Show the list of commands.
    Help,
    /// Echo a username.
    Username(String),
    /// Start the trading bot.
    StartBot,
    /// Stop the trading bot.
    StopBot,
    /// Tell whether the bot runs.
    Status,
    /// Set the notification level (all, important, critical or none).
    Notify(String),
    /// Ask for a status update.
    Update,
}

/// The reply to a command.
#[derive(Clone, Debug)]
pub enum Reply<S> {
    /// The list of commands with their descriptions.
    Descriptions,
    /// A text message.
    Text(S),
}

/// The reply to a command, the state after it, and whether the trading bot
/// is to be launched.
pub struct CommandOutcome {
    pub state: BotState,
    pub reply: Reply<String>,
    pub launch: bool,
}

/// The characters of a reply.
pub open spec fn reply_view(r: Reply<String>) -> Reply<Seq<char>> {
    match r {
        Reply::Descriptions => Reply::Descriptions,
        Reply::Text(s) => Reply::Text(s@),
    }
}

/// What `str::to_lowercase` gives for `s`.
pub uninterp spec fn lowercase(s: Seq<char>) -> Seq<char>;

/// The ASCII lowercase of `c`: `A` to `Z` become `a` to `z`, all else stays.
pub open spec fn ascii_lower(c: char) -> char {
    let u = c as u32;
    if 65 <= u <= 90 {
        (u + 32) as char
    } else {
        c
    }
}

/// Every character of `s` is ASCII.
pub open spec fn all_ascii(s: Seq<char>) -> bool {
    forall|i: int| 0 <= i < s.len() ==> (#[trigger] s[i] as u32) < 128
}

/// `str::to_lowercase`: the lowercase form of `s` by Unicode's rules, as a
/// new string. Its result is named `lowercase`; what is stated of it is that
/// an all-ASCII string has `A` to `Z` mapped to `a` to `z` and everything else
/// left as it is. For other strings the Unicode mapping is not written out.
#[verifier::external_body]
fn to_lowercase(s: &str) -> (r: String)
    ensures
        r@ == lowercase(s@),
        all_ascii(s@) ==> r@ == s@.map_values(|c: char| ascii_lower(c)),
{
    s.to_lowercase()
}

/// The level that a (lowercase) level name stands for.
pub open spec fn level_named(name: Seq<char>) -> Option<NotificationLevel> {
    if name == "all"@ {
        Some(NotificationLevel::All)
    } else if name == "important"@ {
        Some(NotificationLevel::Important)
    } else if name == "critical"@ {
        Some(NotificationLevel::Critical)
    } else if name == "none"@ {
        Some(NotificationLevel::Silent)
    } else {
        None
    }
}

/// The level that a lowercase level name stands for: `all`, `important`,
/// `critical` or `none`.
pub fn parse_notification_level(name: &str) -> (r: Option<NotificationLevel>)
    ensures
        r == level_named(name@),
{
    if str_eq(name, "all") {
        Some(NotificationLevel::All)
    } else if str_eq(name, "important") {
        Some(NotificationLevel::Important)
    } else if str_eq(name, "critical") {
        Some(NotificationLevel::Critical)
    } else if str_eq(name, "none") {
        Some(NotificationLevel::Silent)
    } else {
        None
    }
}

/// A level's name as the chat is told it.
pub open spec fn level_name(l: NotificationLevel) -> Seq<char> {
    match l {
        NotificationLevel::All => "All"@,
        NotificationLevel::Important => "Important"@,
        NotificationLevel::Critical => "Critical"@,
        NotificationLevel::Silent => "None"@,
    }
}

/// A level's name as the chat is told it: `All`, `Important`, `Critical` or `None`.
pub fn level_label(l: NotificationLevel) -> (r: &'static str)
    ensures
        r@ == level_name(l),
{
    match l {
        NotificationLevel::All => "All",
        NotificationLevel::Important => "Important",
        NotificationLevel::Critical => "Critical",
        NotificationLevel::Silent => "None",
    }
}

/// The text of a reply.
pub open spec fn text(s: Seq<char>) -> Reply<Seq<char>> {
    Reply::Text(s)
}

/// What a command does: the state after it, the reply, and whether the
/// trading bot is launched.
pub open spec fn command_outcome(s: BotState, cmd: Command) -> (BotState, Reply<Seq<char>>, bool) {
    match cmd {
        Command::Help => (s, Reply::Descriptions, false),
        Command::Username(u) => (s, text("Your username is @"@ + u@ + "."@), false),
        Command::StartBot => if s.is_running {
            (s, text("Kraken bot is already running."@), false)
        } else {
            (BotState { is_running: true, ..s }, text("Starting the Kraken bot..."@), true)
        },
        Command::StopBot => (
            BotState { is_running: false, ..s },
            if s.is_running {
                text("Stopping the Kraken bot..."@)
            } else {
                text("Kraken bot is not running."@)
            },
            false,
        ),
        Command::Status => (
            s,
            if s.is_running {
                text("Kraken bot is currently running."@)
            } else {
                text("Kraken bot is currently stopped."@)
            },
            false,
        ),
        Command::Notify(level) => match level_named(lowercase(level@)) {
            Some(l) => (
                BotState { notification_level: l, ..s },
                text("Notification level set to "@ + level_name(l)),
                false,
            ),
            None => (s, text("Invalid level. Use: all, important, critical, or none"@), false),
        },
        Command::Update => (s, text("Requesting status update..."@), false),
    }
}

/// Answers a chat command.
pub fn handle_command(state: BotState, cmd: Command) -> (r: CommandOutcome)
    ensures
        (r.state, reply_view(r.reply), r.launch) == command_outcome(state, cmd),
        cmd matches Command::Notify(l) ==> (all_ascii(l@) ==> lowercase(l@) == l@.map_values(
            |c: char| ascii_lower(c),
        )),
{
    match cmd {
        Command::Help => CommandOutcome { state, reply: Reply::Descriptions, launch: false },
        Command::Username(u) => {
            let mut t = <String as StringExecFns>::from_str("Your username is @");
            t.append(u.as_str());
            t.append(".");
            CommandOutcome { state, reply: Reply::Text(t), launch: false }
        },
        Command::StartBot => {
            if state.is_running {
                CommandOutcome {
                    state,
                    reply: Reply::Text(<String as StringExecFns>::from_str("Kraken bot is already running.")),
                    launch: false,
                }
            } else {
                CommandOutcome {
                    state: BotState { is_running: true, ..state },
                    reply: Reply::Text(<String as StringExecFns>::from_str("Starting the Kraken bot...")),
                    launch: true,
                }
            }
        },
        Command::StopBot => {
            let mut s = state;
            let was_running = s.stop();
            let t = if was_running {
                <String as StringExecFns>::from_str("Stopping the Kraken bot...")
            } else {
                <String as StringExecFns>::from_str("Kraken bot is not running.")
            };
            CommandOutcome { state: s, reply: Reply::Text(t), launch: false }
        },
        Command::Status => {
            let t = if state.is_running {
                <String as StringExecFns>::from_str("Kraken bot is currently running.")
            } else {
                <String as StringExecFns>::from_str("Kraken bot is currently stopped.")
            };
            CommandOutcome { state, reply: Reply::Text(t), launch: false }
        },
        Command::Notify(level) => {
            let lowered = to_lowercase(level.as_str());
            match parse_notification_level(lowered.as_str()) {
                Some(l) => {
                    let mut t = <String as StringExecFns>::from_str("Notification level set to ");
                    t.append(level_label(l));
                    CommandOutcome {
                        state: BotState { notification_level: l, ..state },
                        reply: Reply::Text(t),
                        launch: false,
                    }
                },
                None => CommandOutcome {
                    state,
                    reply: Reply::Text(
                        <String as StringExecFns>::from_str("Invalid level. Use: all, important, critical, or none"),
                    ),
                    launch: false,
                },
            }
        },
        Command::Update => CommandOutcome {
            state,
            reply: Reply::Text(<String as StringExecFns>::from_str("Requesting status update...")),
            launch: false,
        },
    }
}

/// What went wrong, for the chat's error messages.
#[derive(PartialEq, Eq, Structural, Clone, Copy, Debug)]
pub enum Failure {
    /// Starting the bot from the chat failed.
    Start,
    /// The trading bot could not be initialized.
    Initialize,
    /// A strategy run failed.
    Strategy,
}

/// The chat message for a failure with the error's description.
pub open spec fn failure_text(kind: Failure, detail: Seq<char>) -> Seq<char> {
    match kind {
        Failure::Start => "Failed to start bot: "@ + detail,
        Failure::Initialize => "Failed to initialize bot: "@ + detail,
        Failure::Strategy => "Strategy execution failed: "@ + detail,
    }
}

/// The chat message for a failure with the error's description.
pub fn failure_message(kind: Failure, detail: &str) -> (r: String)
    ensures
        r@ == failure_text(kind, detail@),
{
    let mut t = match kind {
        Failure::Start => <String as StringExecFns>::from_str("Failed to start bot: "),
        Failure::Initialize => <String as StringExecFns>::from_str("Failed to initialize bot: "),
        Failure::Strategy => <String as StringExecFns>::from_str("Strategy execution failed: "),
    };
    t.append(detail);
    t
}

/// Law: after `StopBot` the bot is stopped, and `Status` says so.
pub proof fn law_stop_then_status(s: BotState, stop: Command, status: Command)
    requires
        stop is StopBot,
        status is Status,
    ensures
        !command_outcome(s, stop).0.is_running,
        command_outcome(command_outcome(s, stop).0, status).1 == text(
            "Kraken bot is currently stopped."@,
        ),
        command_outcome(command_outcome(s, stop).0, status).0 == command_outcome(s, stop).0,
{
}

/// Law: `StartBot` launches the bot only when it is stopped, and a second
/// `StartBot` finds it running and launches nothing.
pub proof fn law_start_is_idempotent(s: BotState, start: Command)
    requires
        start is StartBot,
    ensures
        command_outcome(s, start).2 == !s.is_running,
        command_outcome(s, start).0.is_running,
        !command_outcome(command_outcome(s, start).0, start).2,
        command_outcome(command_outcome(s, start).0, start).0 == command_outcome(s, start).0,
        command_outcome(command_outcome(s, start).0, start).1 == text(
            "Kraken bot is already running."@,
        ),
{
}

/// Law: only `StartBot`, `StopBot` and a valid `Notify` change the state;
/// `StartBot` and `StopBot` leave the level alone, `Notify` leaves the run
/// state alone.
pub proof fn law_commands_change_only_their_part(s: BotState, cmd: Command)
    ensures
        command_outcome(s, cmd).0.notification_level != s.notification_level ==> cmd is Notify,
        command_outcome(s, cmd).0.is_running != s.is_running ==> (cmd is StartBot || cmd is StopBot),
        command_outcome(s, cmd).2 ==> cmd is StartBot,
{
}

/// What the running bot does at each check of its run flag.
#[derive(PartialEq, Eq, Structural, Clone, Copy, Debug)]
pub enum Supervision {
    /// Run the strategy again.
    Run,
    /// Shut down, telling the chat that the bot has been stopped.
    Stop,
}

/// The running bot keeps running while the flag is set, and stops otherwise.
pub fn supervise(state: BotState) -> (r: Supervision)
    ensures
        r == (if state.is_running {
            Supervision::Run
        } else {
            Supervision::Stop
        }),
{
    if state.is_running {
        Supervision::Run
    } else {
        Supervision::Stop
    }
}

/// The chat message for a step of the running bot's life.
#[derive(PartialEq, Eq, Structural, Clone, Copy, Debug)]
pub enum LifeEvent {
    /// The trading bot came up.
    Initialized,
    /// The trading bot shut down after a stop.
    Stopped,
}

/// The chat's text for a step of the running bot's life.
pub open spec fn life_text(e: LifeEvent) -> Seq<char> {
    match e {
        LifeEvent::Initialized => "Kraken trading bot has initialized and is now running."@,
        LifeEvent::Stopped => "Kraken trading bot has been stopped."@,
    }
}

/// The chat's text for a step of the running bot's life.
pub fn life_message(e: LifeEvent) -> (r: &'static str)
    ensures
        r@ == life_text(e),
{
    match e {
        LifeEvent::Initialized => "Kraken trading bot has initialized and is now running.",
        LifeEvent::Stopped => "Kraken trading bot has been stopped.",
    }
}

} // verus!
