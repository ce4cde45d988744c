use url_uploader::command::{parse_command, split_command_and_arg, split_command_and_bot_mention};

#[test]
fn plain_command_has_only_a_name() {
    let c = parse_command("/start").unwrap();
    assert_eq!(c.name, "start");
    assert_eq!(c.arg, None);
    assert_eq!(c.via, None);
}

#[test]
fn command_with_bot_and_argument() {
    let c = parse_command("/upload@MyUploaderBot https://example.com/a.zip").unwrap();
    assert_eq!(c.name, "upload");
    assert_eq!(c.via.as_deref(), Some("MyUploaderBot"));
    assert_eq!(c.arg.as_deref(), Some("https://example.com/a.zip"));
}

#[test]
fn argument_keeps_later_spaces_and_at_signs() {
    let c = parse_command("/upload a b@c").unwrap();
    assert_eq!(c.name, "upload");
    assert_eq!(c.via, None);
    assert_eq!(c.arg.as_deref(), Some("a b@c"));
}

#[test]
fn bot_name_keeps_later_at_signs() {
    let c = parse_command("/x@a@b").unwrap();
    assert_eq!(c.name, "x");
    assert_eq!(c.via.as_deref(), Some("a@b"));
}

#[test]
fn empty_parts_are_kept() {
    let c = parse_command("/").unwrap();
    assert_eq!(c.name, "");
    assert_eq!(c.arg, None);
    let c = parse_command("/upload ").unwrap();
    assert_eq!(c.arg.as_deref(), Some(""));
    let c = parse_command("/upload@ x").unwrap();
    assert_eq!(c.via.as_deref(), Some(""));
}

#[test]
fn text_without_slash_is_no_command() {
    assert!(parse_command("start").is_none());
    assert!(parse_command("").is_none());
    assert!(parse_command(" /start").is_none());
    assert!(parse_command("https://example.com").is_none());
}

#[test]
fn non_ascii_text_is_split_by_characters() {
    let c = parse_command("/загрузить@бот ссылка").unwrap();
    assert_eq!(c.name, "загрузить");
    assert_eq!(c.via.as_deref(), Some("бот"));
    assert_eq!(c.arg.as_deref(), Some("ссылка"));
}

#[test]
fn split_at_first_space() {
    assert_eq!(split_command_and_arg("a b c"), ("a", Some("b c")));
    assert_eq!(split_command_and_arg("abc"), ("abc", None));
    assert_eq!(split_command_and_arg(""), ("", None));
}

#[test]
fn split_at_first_at_sign() {
    assert_eq!(split_command_and_bot_mention("a@b@c"), Some(("a", Some("b@c"))));
    assert_eq!(split_command_and_bot_mention("abc"), Some(("abc", None)));
    assert_eq!(split_command_and_bot_mention(""), Some(("", None)));
}

#[test]
fn command_text_round_trip() {
    for (name, via, arg) in [
        ("upload", Some("bot"), Some("x y")),
        ("start", None, None),
        ("a", None, Some("@ @")),
        ("b", Some("c"), None),
    ] {
        let mut text = format!("/{}", name);
        if let Some(v) = via {
            text.push('@');
            text.push_str(v);
        }
        if let Some(a) = arg {
            text.push(' ');
            text.push_str(a);
        }
        let c = parse_command(&text).unwrap();
        assert_eq!(c.name, name);
        assert_eq!(c.via.as_deref(), via);
        assert_eq!(c.arg.as_deref(), arg);
    }
}
