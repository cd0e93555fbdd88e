use scheduler::bot::{
    list_reply, notify_text, unsubscribe, BotCommand, BotErrors, BotResponse, HELP_TEXT, NO_SUBSCRIPTIONS_TEXT,
    SUBSCRIPTIONS_TEXT,
};
use scheduler::messages::{Exchanges, Messages};

#[test]
fn parses_chat_commands() {
    assert_eq!(
        BotCommand::parse("/start abc-123"),
        Some(BotCommand::Start { id: Some("abc-123".to_string()) })
    );
    assert_eq!(BotCommand::parse("/start abc extra"), Some(BotCommand::Start { id: Some("abc".to_string()) }));
    assert_eq!(BotCommand::parse("/start"), Some(BotCommand::Start { id: None }));
    assert_eq!(BotCommand::parse("/start "), Some(BotCommand::Start { id: Some(String::new()) }));
    assert_eq!(BotCommand::parse("/help"), Some(BotCommand::Help));
    assert_eq!(BotCommand::parse("/list now"), Some(BotCommand::List));
    assert_eq!(BotCommand::parse("hello"), None);
    assert_eq!(BotCommand::parse(""), None);
    assert_eq!(BotCommand::parse(" /start x"), None);
}

#[test]
fn commands_send_scheduler_messages() {
    let chat = "77".to_string();
    assert_eq!(
        BotCommand::Start { id: Some("abc".to_string()) }.message(&chat),
        Some((Exchanges::Scheduler, Messages::Activate { id: "abc".to_string(), chat_id: "77".to_string() }))
    );
    assert_eq!(
        BotCommand::List.message(&chat),
        Some((Exchanges::Scheduler, Messages::List { chat_id: "77".to_string() }))
    );
    assert_eq!(BotCommand::Help.message(&chat), None);
    assert_eq!(BotCommand::Start { id: None }.message(&chat), None);
}

#[test]
fn replies_to_commands() {
    let ok = BotCommand::Start { id: Some("abc".to_string()) }.response(true).unwrap();
    assert_eq!(ok.text(), "Subscribed to notifications for script id = abc successfully");
    let failed = BotCommand::Start { id: Some("abc".to_string()) }.response(false).unwrap_err();
    assert_eq!(failed, BotErrors::Start);
    assert_eq!(failed.text(), "Server error while handling the start command");
    let missing = BotCommand::Start { id: None }.response(false).unwrap();
    assert_eq!(missing.text(), "Could not subscribe. check if the ID of the script was passed");
    assert_eq!(BotCommand::Help.response(true).unwrap().text(), HELP_TEXT);
    assert_eq!(
        HELP_TEXT,
        "/start <id> - Subscribe to notifications of a script.\n/list - Show a list of the currently active subscriptions."
    );
    assert_eq!(BotCommand::List.response(true).unwrap(), BotResponse::List);
    assert_eq!(BotResponse::List.text(), "Checking for active notifications...");
    assert_eq!(BotCommand::List.response(false).unwrap_err().text(), "Server error while handling the list command");
    assert_eq!(BotErrors::Help.text(), "Server error while handling the help command");
}

#[test]
fn unsubscribe_needs_a_uuid() {
    let id = "550e8400-e29b-41d4-a716-446655440000".to_string();
    assert_eq!(unsubscribe(&id), Some((Exchanges::Scheduler, Messages::Delete { id: id.clone() })));
    assert_eq!(unsubscribe(&"not-a-uuid".to_string()), None);
    assert_eq!(unsubscribe(&String::new()), None);
}

#[test]
fn notification_and_listing_texts() {
    assert_eq!(
        notify_text(&"abc".to_string(), &"http://x".to_string()),
        "Script executed successfully.\nurl: http://x.\nid: abc\n"
    );
    let (text, buttons) = list_reply(&Vec::new());
    assert_eq!(text, NO_SUBSCRIPTIONS_TEXT);
    assert!(buttons.is_empty());
    let records = vec![("http://x".to_string(), "a".to_string()), ("http://y".to_string(), "b".to_string())];
    let (text, buttons) = list_reply(&records);
    assert_eq!(text, SUBSCRIPTIONS_TEXT);
    assert_eq!(
        buttons,
        vec![
            ("http://x - a".to_string(), "a".to_string()),
            ("http://y - b".to_string(), "b".to_string()),
        ]
    );
}
