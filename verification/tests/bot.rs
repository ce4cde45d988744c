use url_uploader::bot::{
    handle_message, handle_upload, link_action, upload_action, is_cancel_callback, is_command_for_this_bot, is_private_chat,
    is_supported_chat, mention_matches, process_command, CANCEL_CALLBACK, should_ignore_start_in_group, ChatKind, MessageAction,
};
use url_uploader::command::parse_command;

fn reply_text(a: MessageAction) -> String {
    match a {
        MessageAction::Reply(t) => t,
        _ => panic!("expected a reply"),
    }
}

fn upload_url(a: MessageAction) -> String {
    match a {
        MessageAction::Upload(u) => u.as_str().to_string(),
        _ => panic!("expected an upload"),
    }
}

#[test]
fn supported_chats() {
    assert!(is_supported_chat(ChatKind::User));
    assert!(is_supported_chat(ChatKind::Group));
    assert!(!is_supported_chat(ChatKind::Channel));
    assert!(is_private_chat(ChatKind::User));
    assert!(!is_private_chat(ChatKind::Group));
}

#[test]
fn start_in_group_needs_bot_name() {
    let c = parse_command("/start").unwrap();
    assert!(should_ignore_start_in_group(ChatKind::Group, &c));
    assert!(!should_ignore_start_in_group(ChatKind::User, &c));
    let c = parse_command("/start@bot").unwrap();
    assert!(!should_ignore_start_in_group(ChatKind::Group, &c));
}

#[test]
fn bot_name_is_compared_without_letter_case() {
    let c = parse_command("/upload@MyBot x").unwrap();
    assert!(is_command_for_this_bot(&c, Some("mybot")));
    assert!(!is_command_for_this_bot(&c, Some("otherbot")));
    assert!(!is_command_for_this_bot(&c, None));
    let c = parse_command("/upload x").unwrap();
    assert!(is_command_for_this_bot(&c, None));
    let c = parse_command("/upload@ x").unwrap();
    assert!(is_command_for_this_bot(&c, None));
}

#[test]
fn private_link_is_uploaded() {
    let a = handle_message(ChatKind::User, "https://example.com/a.zip", Some("bot"));
    assert_eq!(upload_url(a), "https://example.com/a.zip");
}

#[test]
fn group_link_without_command_is_ignored() {
    let a = handle_message(ChatKind::Group, "https://example.com/a.zip", Some("bot"));
    assert!(matches!(a, MessageAction::Ignore));
}

#[test]
fn channel_is_ignored() {
    assert!(matches!(handle_message(ChatKind::Channel, "/start", None), MessageAction::Ignore));
}

#[test]
fn plain_text_is_ignored() {
    assert!(matches!(handle_message(ChatKind::User, "hello", None), MessageAction::Ignore));
}

#[test]
fn start_is_answered() {
    assert!(matches!(handle_message(ChatKind::User, "/start", None), MessageAction::ReplyStart));
    assert!(matches!(handle_message(ChatKind::Group, "/start", None), MessageAction::Ignore));
    assert!(matches!(handle_message(ChatKind::Group, "/start@Bot", Some("bot")), MessageAction::ReplyStart));
    assert!(matches!(handle_message(ChatKind::Group, "/start@other", Some("bot")), MessageAction::Ignore));
}

#[test]
fn upload_command_in_group() {
    let a = handle_message(ChatKind::Group, "/upload https://example.com/f.bin", Some("bot"));
    assert_eq!(upload_url(a), "https://example.com/f.bin");
}

#[test]
fn upload_without_link_asks_for_one() {
    let a = handle_message(ChatKind::User, "/upload", None);
    assert_eq!(reply_text(a), "Please specify a URL");
}

#[test]
fn upload_with_bad_link_reports_the_error() {
    let a = handle_message(ChatKind::User, "/upload not a url", None);
    let expected = format!("Invalid URL: {}", reqwest::Url::parse("not a url").unwrap_err());
    assert_eq!(reply_text(a), expected);
    assert_eq!(expected, "Invalid URL: relative URL without a base");
}

#[test]
fn unknown_command_is_ignored() {
    assert!(matches!(handle_message(ChatKind::User, "/help", None), MessageAction::Ignore));
}

#[test]
fn process_and_upload_directly() {
    let c = parse_command("/upload https://example.com/").unwrap();
    assert_eq!(upload_url(handle_upload(c)), "https://example.com/");
    let c = parse_command("/upload@other https://example.com/").unwrap();
    assert!(matches!(process_command(ChatKind::User, c, Some("bot")), MessageAction::Ignore));
}

#[test]
fn cancel_callback_data() {
    assert!(is_cancel_callback(b"cancel"));
    assert!(!is_cancel_callback(b"cancel2"));
    assert!(!is_cancel_callback(b"Cancel"));
    assert!(!is_cancel_callback(b""));
}

#[test]
fn parsed_argument_decides_the_upload() {
    let url = reqwest::Url::parse("https://example.com/x").unwrap();
    assert_eq!(upload_url(upload_action(Ok(url.clone()))), "https://example.com/x");
    assert_eq!(reply_text(upload_action(Err("bad".to_string()))), "Invalid URL: bad");
    assert_eq!(upload_url(link_action(Ok(url))), "https://example.com/x");
    assert!(matches!(link_action(Err("bad".to_string())), MessageAction::Ignore));
}

#[test]
fn cancel_button_data_is_recognised() {
    assert!(is_cancel_callback(CANCEL_CALLBACK.as_bytes()));
}

#[test]
fn mentions_compare_lowercase_texts() {
    assert!(mention_matches("mybot", "mybot"));
    assert!(!mention_matches("MyBot", "mybot"));
}
