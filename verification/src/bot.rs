//! The bot's decisions: what to do with a message from a chat, a command, a link, and a
//! button press.
use vstd::prelude::*;
use crate::command::{
    command_text, lemma_parse_command_text, parse_command, spec_parse_command, Command, CommandView,
};
use crate::foreign::{lowercase, parse_url, to_lowercase, url_parse_result};
use crate::text::{opt_view, str_equal};
use reqwest::Url;
use vstd::string::StringExecFns;

verus! {

broadcast use vstd::string::group_string_axioms;

// ---------------------------------------------------------------------------
// Chats and commands
// ---------------------------------------------------------------------------

/// The kind of chat a message comes from.
#[derive(PartialEq, Eq, Structural, Clone, Copy, Debug)]
pub enum ChatKind {
    /// A private chat with a user.
    User,
    /// A group.
    Group,
    /// A channel.
    Channel,
}

/// `start`
pub open spec fn start_name() -> Seq<char> {
    seq!['s', 't', 'a', 'r', 't']
}

/// `upload`
pub open spec fn upload_name() -> Seq<char> {
    seq!['u', 'p', 'l', 'o', 'a', 'd']
}

/// `Please specify a URL`
pub open spec fn missing_url_text() -> Seq<char> {
    seq![
        'P', 'l', 'e', 'a', 's', 'e', ' ', 's', 'p', 'e', 'c', 'i', 'f', 'y', ' ', 'a', ' ',
        'U', 'R', 'L',
    ]
}

/// `Invalid URL: `
pub open spec fn invalid_url_prefix() -> Seq<char> {
    seq!['I', 'n', 'v', 'a', 'l', 'i', 'd', ' ', 'U', 'R', 'L', ':', ' ']
}

/// The bot answers in private chats and groups only.
pub fn is_supported_chat(chat: ChatKind) -> (r: bool)
    ensures
        r == (chat == ChatKind::User || chat == ChatKind::Group),
{
    match chat {
        ChatKind::User | ChatKind::Group => true,
        ChatKind::Channel => false,
    }
}

/// Whether the chat is a private chat with a user.
pub fn is_private_chat(chat: ChatKind) -> (r: bool)
    ensures
        r == (chat == ChatKind::User),
{
    match chat {
        ChatKind::User => true,
        _ => false,
    }
}

/// In a group, `/start` without a bot name is meant for some other bot.
pub open spec fn spec_ignore_start_in_group(chat: ChatKind, command: CommandView) -> bool {
    chat == ChatKind::Group && command.name == start_name() && command.via is None
}

/// Whether `/start` is to be ignored: in a group, when it names no bot.
pub fn should_ignore_start_in_group(chat: ChatKind, command: &Command) -> (r: bool)
    ensures
        r == spec_ignore_start_in_group(chat, command@),
{
    let start = "start";
    proof {
        reveal_strlit("start");
    }
    assert(start@ =~= start_name());
    let is_group = match chat {
        ChatKind::Group => true,
        _ => false,
    };
    is_group && str_equal(command.name.as_str(), start) && command.via.is_none()
}

/// A command is for this bot when it names no bot, or names this bot's user name in
/// any letter case (a bot without a user name counts as named by the empty text).
pub open spec fn spec_for_this_bot(command: CommandView, my_username: Option<Seq<char>>) -> bool {
    match command.via {
        Some(via) => lowercase(via) == lowercase(
            match my_username {
                Some(u) => u,
                None => Seq::empty(),
            },
        ),
        None => true,
    }
}

/// Whether a command is meant for this bot, whose user name is `my_username`.
pub fn is_command_for_this_bot(command: &Command, my_username: Option<&str>) -> (r: bool)
    ensures
        r == spec_for_this_bot(command@, opt_view(my_username)),
{
    match &command.via {
        Some(via) => {
            let empty = "";
            proof {
                reveal_strlit("");
            }
            assert(empty@ =~= Seq::<char>::empty());
            let mine = match my_username {
                Some(u) => to_lowercase(u),
                None => to_lowercase(empty),
            };
            let theirs = to_lowercase(via.as_str());
            mention_matches(theirs.as_str(), mine.as_str())
        },
        None => true,
    }
}

/// Whether a bot name in a command, in lower case, is this bot's user name in lower case.
pub fn mention_matches(mention_lowercase: &str, username_lowercase: &str) -> (r: bool)
    ensures
        r == (mention_lowercase@ == username_lowercase@),
{
    str_equal(mention_lowercase, username_lowercase)
}

// ---------------------------------------------------------------------------
// Messages
// ---------------------------------------------------------------------------

/// What the bot does with a message.
pub enum MessageAction {
    /// Nothing.
    Ignore,
    /// Answer with the welcome message.
    ReplyStart,
    /// Answer with this text.
    Reply(String),
    /// Download the file at this URL and upload it to the chat.
    Upload(Url),
}

/// A `MessageAction` with its text as a sequence of characters.
pub enum ActionView {
    Ignore,
    ReplyStart,
    Reply(Seq<char>),
    Upload(Url),
}

impl View for MessageAction {
    type V = ActionView;

    open spec fn view(&self) -> ActionView {
        match self {
            MessageAction::Ignore => ActionView::Ignore,
            MessageAction::ReplyStart => ActionView::ReplyStart,
            MessageAction::Reply(t) => ActionView::Reply(t@),
            MessageAction::Upload(u) => ActionView::Upload(*u),
        }
    }
}

/// `/upload`: its argument must be a URL.
pub open spec fn spec_handle_upload(command: CommandView) -> ActionView {
    match command.arg {
        Some(arg) => match url_parse_result(arg) {
            Ok(url) => ActionView::Upload(url),
            Err(e) => ActionView::Reply(invalid_url_prefix() + e),
        },
        None => ActionView::Reply(missing_url_text()),
    }
}

/// A command: ignored when meant for another bot or when it is `/start` in a group
/// without a bot name; `/start` is answered with the welcome message, `/upload` uploads,
/// anything else is ignored.
pub open spec fn spec_process_command(
    chat: ChatKind,
    command: CommandView,
    my_username: Option<Seq<char>>,
) -> ActionView {
    if !spec_for_this_bot(command, my_username) {
        ActionView::Ignore
    } else if spec_ignore_start_in_group(chat, command) {
        ActionView::Ignore
    } else if command.name == start_name() {
        ActionView::ReplyStart
    } else if command.name == upload_name() {
        spec_handle_upload(command)
    } else {
        ActionView::Ignore
    }
}

/// A message: channels are ignored; a command is processed; in a private chat, a text
/// that is a URL is uploaded; anything else is ignored.
pub open spec fn spec_handle_message(
    chat: ChatKind,
    text: Seq<char>,
    my_username: Option<Seq<char>>,
) -> ActionView {
    if !(chat == ChatKind::User || chat == ChatKind::Group) {
        ActionView::Ignore
    } else {
        match spec_parse_command(text) {
            Some(command) => spec_process_command(chat, command, my_username),
            None => if chat == ChatKind::User {
                match url_parse_result(text) {
                    Ok(url) => ActionView::Upload(url),
                    Err(_) => ActionView::Ignore,
                }
            } else {
                ActionView::Ignore
            },
        }
    }
}

/// What `/upload` leads to once its argument has been parsed: the upload of the URL, or
/// the parse error's message after `Invalid URL: `.
pub fn upload_action(parsed: Result<Url, String>) -> (r: MessageAction)
    ensures
        r@ == match parsed {
            Ok(url) => ActionView::Upload(url),
            Err(e) => ActionView::Reply(invalid_url_prefix() + e@),
        },
{
    match parsed {
        Ok(url) => MessageAction::Upload(url),
        Err(err) => {
            let prefix = "Invalid URL: ";
            proof {
                reveal_strlit("Invalid URL: ");
            }
            assert(prefix@ =~= invalid_url_prefix());
            let mut text = String::from_str(prefix);
            text.append(err.as_str());
            MessageAction::Reply(text)
        },
    }
}

/// What to do with `/upload`: without an argument, ask for a URL; otherwise parse it.
pub fn handle_upload(command: Command) -> (r: MessageAction)
    ensures
        r@ == spec_handle_upload(command@),
{
    match command.arg {
        Some(arg) => upload_action(parse_url(arg.as_str())),
        None => {
            let text = "Please specify a URL";
            proof {
                reveal_strlit("Please specify a URL");
            }
            assert(text@ =~= missing_url_text());
            MessageAction::Reply(String::from_str(text))
        },
    }
}

/// What to do with a command sent to a bot whose user name is `my_username`.
pub fn process_command(chat: ChatKind, command: Command, my_username: Option<&str>) -> (r:
    MessageAction)
    ensures
        r@ == spec_process_command(chat, command@, opt_view(my_username)),
{
    if !is_command_for_this_bot(&command, my_username) {
        return MessageAction::Ignore;
    }
    if should_ignore_start_in_group(chat, &command) {
        return MessageAction::Ignore;
    }
    let start = "start";
    let upload = "upload";
    proof {
        reveal_strlit("start");
        reveal_strlit("upload");
    }
    assert(start@ =~= start_name());
    assert(upload@ =~= upload_name());
    if str_equal(command.name.as_str(), start) {
        MessageAction::ReplyStart
    } else if str_equal(command.name.as_str(), upload) {
        handle_upload(command)
    } else {
        MessageAction::Ignore
    }
}

/// What to do with a message of `text` in a chat of kind `chat`, for a bot whose user
/// name is `my_username`.
pub fn handle_message(chat: ChatKind, text: &str, my_username: Option<&str>) -> (r: MessageAction)
    ensures
        r@ == spec_handle_message(chat, text@, opt_view(my_username)),
{
    if !is_supported_chat(chat) {
        return MessageAction::Ignore;
    }
    if let Some(command) = parse_command(text) {
        return process_command(chat, command, my_username);
    }
    if is_private_chat(chat) {
        return link_action(parse_url(text));
    }
    MessageAction::Ignore
}

/// What a private message that is not a command leads to once parsed as a URL: the
/// upload of the URL, or nothing when it is no URL.
pub fn link_action(parsed: Result<Url, String>) -> (r: MessageAction)
    ensures
        r@ == match parsed {
            Ok(url) => ActionView::Upload(url),
            Err(_) => ActionView::Ignore,
        },
{
    match parsed {
        Ok(url) => MessageAction::Upload(url),
        Err(_) => MessageAction::Ignore,
    }
}

/// The data of the cancel button, which `is_cancel_callback` recognises.
pub const CANCEL_CALLBACK: &'static str = "cancel";

/// Whether a button press asks to cancel: its data is `cancel`.
pub fn is_cancel_callback(data: &[u8]) -> (r: bool)
    ensures
        r == (data@ == seq![0x63u8, 0x61u8, 0x6eu8, 0x63u8, 0x65u8, 0x6cu8]),
{
    let expected: [u8; 6] = [0x63, 0x61, 0x6e, 0x63, 0x65, 0x6c];
    if data.len() != 6 {
        return false;
    }
    let mut i: usize = 0;
    while i < 6
        invariant
            i <= 6,
            data@.len() == 6,
            expected@ == seq![0x63u8, 0x61u8, 0x6eu8, 0x63u8, 0x65u8, 0x6cu8],
            forall|j: int| 0 <= j < i ==> data@[j] == expected@[j],
        decreases 6 - i,
    {
        if data[i] != expected[i] {
            return false;
        }
        i = i + 1;
    }
    assert(data@ =~= expected@);
    true
}

// ---------------------------------------------------------------------------
// Laws
// ---------------------------------------------------------------------------

/// A name without spaces and `@` can be written in a command text.
proof fn lemma_plain_name(name: Seq<char>)
    requires
        forall|j: int| 0 <= j < name.len() ==> name[j] != ' ' && name[j] != '@',
    ensures
        !name.contains(' '),
        !name.contains('@'),
{
}

/// Messages in channels are ignored.
pub proof fn lemma_channel_messages_ignored(text: Seq<char>, my_username: Option<Seq<char>>)
    ensures
        spec_handle_message(ChatKind::Channel, text, my_username) is Ignore,
{
}

/// In a group, only commands are acted on: a text that does not start with `/` is
/// ignored, even a link.
pub proof fn lemma_group_needs_command(text: Seq<char>, my_username: Option<Seq<char>>)
    requires
        !(text.len() > 0 && text[0] == '/'),
    ensures
        spec_handle_message(ChatKind::Group, text, my_username) is Ignore,
{
}

/// In a private chat, a link that is not a command is uploaded.
pub proof fn lemma_private_link_is_uploaded(
    text: Seq<char>,
    my_username: Option<Seq<char>>,
    url: Url,
)
    requires
        !(text.len() > 0 && text[0] == '/'),
        url_parse_result(text) == Ok::<Url, Seq<char>>(url),
    ensures
        spec_handle_message(ChatKind::User, text, my_username) == ActionView::Upload(url),
{
}

/// `/upload <link>` uploads the link, in a private chat and in a group alike.
pub proof fn lemma_upload_command_uploads(
    chat: ChatKind,
    link: Seq<char>,
    my_username: Option<Seq<char>>,
    url: Url,
)
    requires
        chat == ChatKind::User || chat == ChatKind::Group,
        url_parse_result(link) == Ok::<Url, Seq<char>>(url),
    ensures
        spec_handle_message(chat, command_text(upload_name(), None, Some(link)), my_username)
            == ActionView::Upload(url),
{
    lemma_plain_name(upload_name());
    lemma_parse_command_text(upload_name(), None, Some(link));
    assert(upload_name() != start_name()) by {
        assert(upload_name()[0] != start_name()[0]);
    }
}

/// `/upload` without a link is answered with a request for one.
pub proof fn lemma_upload_without_link(chat: ChatKind, my_username: Option<Seq<char>>)
    requires
        chat == ChatKind::User || chat == ChatKind::Group,
    ensures
        spec_handle_message(chat, command_text(upload_name(), None, None), my_username)
            == ActionView::Reply(missing_url_text()),
{
    lemma_plain_name(upload_name());
    lemma_parse_command_text(upload_name(), None, None);
    assert(upload_name() != start_name()) by {
        assert(upload_name()[0] != start_name()[0]);
    }
}

/// In a group, `/start` that names no bot is ignored; in a private chat it is answered
/// with the welcome message.
pub proof fn lemma_start_needs_name_in_group(arg: Option<Seq<char>>, my_username: Option<Seq<char>>)
    ensures
        spec_handle_message(ChatKind::Group, command_text(start_name(), None, arg), my_username) is Ignore,
        spec_handle_message(ChatKind::User, command_text(start_name(), None, arg), my_username) is ReplyStart,
{
    lemma_plain_name(start_name());
    lemma_parse_command_text(start_name(), None, arg);
}

/// A command that names another bot (one whose name differs from this bot's in more
/// than letter case) is ignored.
pub proof fn lemma_other_bot_ignored(
    chat: ChatKind,
    text: Seq<char>,
    my_username: Option<Seq<char>>,
)
    requires
        spec_parse_command(text) matches Some(c) && !spec_for_this_bot(c, my_username),
    ensures
        spec_handle_message(chat, text, my_username) is Ignore,
{
}


/// A command names this bot exactly when the name it gives and the bot's user name are
/// equal in lower case; a command that names no bot is for every bot.
pub proof fn lemma_mention_case_insensitive(command: CommandView, via: Seq<char>, username: Seq<char>)
    ensures
        spec_for_this_bot(CommandView { via: Some(via), ..command }, Some(username)) <==> lowercase(
            via,
        ) == lowercase(username),
        spec_for_this_bot(CommandView { via: Some(username), ..command }, Some(username)),
        spec_for_this_bot(CommandView { via: None, ..command }, Some(username)),
{
}

/// `/upload@<this bot> <link>` uploads the link, in a private chat and in a group alike,
/// whatever the letter case of the bot's user name.
pub proof fn lemma_addressed_upload_uploads(
    chat: ChatKind,
    username: Seq<char>,
    link: Seq<char>,
    url: Url,
)
    requires
        chat == ChatKind::User || chat == ChatKind::Group,
        !username.contains(' '),
        url_parse_result(link) == Ok::<Url, Seq<char>>(url),
    ensures
        spec_handle_message(
            chat,
            command_text(upload_name(), Some(username), Some(link)),
            Some(username),
        ) == ActionView::Upload(url),
{
    lemma_plain_name(upload_name());
    lemma_parse_command_text(upload_name(), Some(username), Some(link));
    assert(upload_name() != start_name()) by {
        assert(upload_name()[0] != start_name()[0]);
    }
}

} // verus!
