use kraken_bot::positions::{BalanceEvent, BalanceStep, BalanceWait};
use kraken_bot::telegram::{
    failure_message, handle_command, level_is_sufficient, life_message, notification_to_send,
    parse_notification_level, supervise, BotState, Command, Failure, LifeEvent, NotificationLevel,
    Reply, Supervision,
};
use kraken_bot::trade::{classify_order_response, OrderOutcome, OrderResponse, OrderWait};

fn text(r: &Reply<String>) -> &str {
    match r {
        Reply::Text(t) => t.as_str(),
        Reply::Descriptions => "<descriptions>",
    }
}

#[test]
fn new_state_is_stopped_and_important() {
    let s = BotState::new();
    assert!(!s.is_running);
    assert_eq!(s.notification_level, NotificationLevel::Important);
    assert_eq!(BotState::default(), s);
}

#[test]
fn levels() {
    for m in [NotificationLevel::All, NotificationLevel::Important, NotificationLevel::Critical, NotificationLevel::Silent] {
        assert!(!level_is_sufficient(m, NotificationLevel::Silent));
        assert!(level_is_sufficient(m, NotificationLevel::All));
    }
    assert!(level_is_sufficient(NotificationLevel::Critical, NotificationLevel::Critical));
    assert!(!level_is_sufficient(NotificationLevel::Important, NotificationLevel::Critical));
    assert!(level_is_sufficient(NotificationLevel::Important, NotificationLevel::Important));
    assert!(level_is_sufficient(NotificationLevel::Critical, NotificationLevel::Important));
    assert!(!level_is_sufficient(NotificationLevel::All, NotificationLevel::Important));
}

#[test]
fn notifications_are_wrapped_or_dropped() {
    assert_eq!(notification_to_send(NotificationLevel::Important, NotificationLevel::Important, "hi"), Some("<pre>hi</pre>".to_string()));
    assert_eq!(notification_to_send(NotificationLevel::Important, NotificationLevel::Critical, "hi"), None);
}

#[test]
fn start_stop_status() {
    let s = BotState::new();
    let o = handle_command(s, Command::Status);
    assert_eq!(text(&o.reply), "Kraken bot is currently stopped.");
    let o = handle_command(s, Command::StartBot);
    assert!(o.launch);
    assert!(o.state.is_running);
    assert_eq!(text(&o.reply), "Starting the Kraken bot...");
    let again = handle_command(o.state, Command::StartBot);
    assert!(!again.launch);
    assert_eq!(text(&again.reply), "Kraken bot is already running.");
    let st = handle_command(o.state, Command::Status);
    assert_eq!(text(&st.reply), "Kraken bot is currently running.");
    let stop = handle_command(o.state, Command::StopBot);
    assert!(!stop.state.is_running);
    assert_eq!(text(&stop.reply), "Stopping the Kraken bot...");
    let stop2 = handle_command(stop.state, Command::StopBot);
    assert_eq!(text(&stop2.reply), "Kraken bot is not running.");
    let st = handle_command(stop.state, Command::Status);
    assert_eq!(text(&st.reply), "Kraken bot is currently stopped.");
}

#[test]
fn other_commands() {
    let s = BotState::new();
    assert!(matches!(handle_command(s, Command::Help).reply, Reply::Descriptions));
    let o = handle_command(s, Command::Username("alice".to_string()));
    assert_eq!(text(&o.reply), "Your username is @alice.");
    let o = handle_command(s, Command::Update);
    assert_eq!(text(&o.reply), "Requesting status update...");
    assert_eq!(o.state, s);
}

#[test]
fn notify_levels() {
    let s = BotState::new();
    let o = handle_command(s, Command::Notify("ALL".to_string()));
    assert_eq!(o.state.notification_level, NotificationLevel::All);
    assert_eq!(text(&o.reply), "Notification level set to All");
    let o = handle_command(s, Command::Notify("none".to_string()));
    assert_eq!(o.state.notification_level, NotificationLevel::Silent);
    assert_eq!(text(&o.reply), "Notification level set to None");
    let o = handle_command(s, Command::Notify("Critical".to_string()));
    assert_eq!(o.state.notification_level, NotificationLevel::Critical);
    let o = handle_command(s, Command::Notify("loud".to_string()));
    assert_eq!(o.state, s);
    assert_eq!(text(&o.reply), "Invalid level. Use: all, important, critical, or none");
    assert_eq!(parse_notification_level("important"), Some(NotificationLevel::Important));
    assert_eq!(parse_notification_level("Important"), None);
}

#[test]
fn failure_messages() {
    assert_eq!(failure_message(Failure::Start, "x"), "Failed to start bot: x");
    assert_eq!(failure_message(Failure::Initialize, "y"), "Failed to initialize bot: y");
    assert_eq!(failure_message(Failure::Strategy, "z"), "Strategy execution failed: z");
}

#[test]
fn stop_from_state() {
    let mut s = BotState { is_running: true, notification_level: NotificationLevel::All };
    assert!(s.stop());
    assert!(!s.is_running);
    assert_eq!(s.notification_level, NotificationLevel::All);
    assert!(!s.stop());
}

#[test]
fn order_responses() {
    assert_eq!(classify_order_response("{\"channel\":\"heartbeat\"}", 3, "BTC/USD"), OrderResponse::Heartbeat);
    assert_eq!(classify_order_response("{\"req_id\": 3, \"success\": true}", 3, "BTC/USD"), OrderResponse::Accepted);
    assert_eq!(classify_order_response("{\"req_id\": 3, \"error\": \"x\", \"success\": false}", 3, "BTC/USD"), OrderResponse::Rejected);
    assert_eq!(classify_order_response("{\"req_id\": 4, \"success\": true}", 3, "BTC/USD"), OrderResponse::Unrelated);
    assert_eq!(classify_order_response("add_order BTC/USD accepted", 3, "BTC/USD"), OrderResponse::Accepted);
    assert_eq!(classify_order_response("add_order ETH/USD accepted", 3, "BTC/USD"), OrderResponse::Unrelated);
    assert_eq!(classify_order_response("{\"req_id\": 12, \"status\": 1}", 12, "BTC/USD"), OrderResponse::Related);
    assert_eq!(classify_order_response("{\"req_id\": 123}", 12, "BTC/USD"), OrderResponse::Related);
}

#[test]
fn order_wait_ends_after_ten_attempts() {
    let mut w = OrderWait::new();
    for _ in 0..9 {
        assert!(w.is_open());
        assert_eq!(w.observe(Some(OrderResponse::Heartbeat)), None);
    }
    assert_eq!(w.observe(None), Some(OrderOutcome::NoConfirmation));
    assert!(!w.is_open());
    let mut w = OrderWait::new();
    assert_eq!(w.observe(Some(OrderResponse::Unrelated)), None);
    assert_eq!(w.observe(Some(OrderResponse::Accepted)), Some(OrderOutcome::Accepted));
    let mut w = OrderWait::new();
    assert_eq!(w.observe(Some(OrderResponse::Rejected)), Some(OrderOutcome::Rejected));
}

#[test]
fn balance_wait() {
    let mut w = BalanceWait::new();
    assert_eq!(w.observe(BalanceEvent::Message { is_balance: false }), BalanceStep::KeepWaiting);
    assert_eq!(w.observe(BalanceEvent::Message { is_balance: true }), BalanceStep::Apply);
    assert!(!w.gave_up());
    let mut w = BalanceWait::new();
    for _ in 0..9 {
        assert_eq!(w.observe(BalanceEvent::TimedOut), BalanceStep::KeepWaiting);
    }
    assert_eq!(w.observe(BalanceEvent::ReceiveError), BalanceStep::Stop);
    assert!(w.gave_up());
    assert!(!w.is_open());
    let mut w = BalanceWait::new();
    assert_eq!(w.observe(BalanceEvent::StreamEnded), BalanceStep::Stop);
    assert!(!w.gave_up());
}

#[test]
fn balance_message_on_the_last_attempt_is_no_failure() {
    let mut w = BalanceWait::new();
    for _ in 0..9 {
        assert_eq!(w.observe(BalanceEvent::TimedOut), BalanceStep::KeepWaiting);
    }
    assert_eq!(w.observe(BalanceEvent::Message { is_balance: true }), BalanceStep::Apply);
    assert!(!w.gave_up());
    assert!(w.is_open());
}

#[test]
fn heartbeats_do_not_keep_the_balance_wait_open() {
    let mut w = BalanceWait::new();
    for _ in 0..9 {
        assert_eq!(w.observe(BalanceEvent::Message { is_balance: false }), BalanceStep::KeepWaiting);
    }
    assert_eq!(w.observe(BalanceEvent::Message { is_balance: false }), BalanceStep::Stop);
    assert!(w.gave_up());
    assert!(!w.is_open());
}

#[test]
fn supervision_and_life_messages() {
    let running = BotState { is_running: true, notification_level: NotificationLevel::All };
    assert_eq!(supervise(running), Supervision::Run);
    assert_eq!(supervise(BotState::new()), Supervision::Stop);
    assert_eq!(life_message(LifeEvent::Initialized), "Kraken trading bot has initialized and is now running.");
    assert_eq!(life_message(LifeEvent::Stopped), "Kraken trading bot has been stopped.");
}

#[test]
fn notify_levels_any_case() {
    let s = BotState::new();
    let o = handle_command(s, Command::Notify("CRITICAL".to_string()));
    assert_eq!(o.state.notification_level, NotificationLevel::Critical);
    let o = handle_command(s, Command::Notify("ImPoRtAnT".to_string()));
    assert_eq!(o.state.notification_level, NotificationLevel::Important);
}
