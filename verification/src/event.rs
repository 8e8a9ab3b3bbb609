//! The bot framework's event vocabulary, as far as the adapter produces or
//! reads it: events, messages, content items, chats, senders and commands.
use std::time::Duration;

use vstd::prelude::*;

verus! {

/// What an event is about.
#[derive(Clone, Debug, PartialEq, Eq)]
pub enum EventType {
    Message,
    Command,
    MessageEdit,
    MessageDelete,
    MessageSent,
    PluginLoaded,
    PluginUnloaded,
    Other(String),
}

/// A command invocation: the command's name and the text after it.
#[derive(Clone, Debug, PartialEq, Eq)]
pub struct Command {
    pub cmd: String,
    pub args: String,
}

/// Markup that a piece of text is written in.
#[derive(Clone, Copy, Debug, PartialEq, Eq, Structural)]
pub enum TextFormat {
    Markdown,
    MarkdownV2,
    Html,
}

/// Where a file comes from.
#[derive(Clone, Debug, PartialEq, Eq)]
pub enum FileSource {
    Id(String),
    Path(String),
    Url(String),
}

/// Where an image comes from.
#[derive(Clone, Debug, PartialEq, Eq)]
pub enum ImageSource {
    Id(String),
    Url(String),
    Path(String),
    Base64(String),
}

/// One piece of a message's content.
#[derive(Clone, Debug, PartialEq, Eq)]
pub enum ContentItem {
    Text { text: String, format: Option<TextFormat> },
    File { source: FileSource, file_name: Option<String>, file_id: Option<String> },
    Image { source: ImageSource, file_id: Option<String>, caption: Option<String> },
    Other { kind: String, data: String },
}

/// The kind of a chat.
#[derive(Clone, Copy, Debug, PartialEq, Eq)]
pub enum ChatType {
    Private,
    Group,
    Channel,
}

/// A chat that a message belongs to; `extra` holds platform-specific pairs.
#[derive(Clone, Debug, PartialEq, Eq)]
pub struct Chat {
    pub id: String,
    pub kind: Option<ChatType>,
    pub title: Option<String>,
    pub username: Option<String>,
    pub extra: Vec<(String, String)>,
}

/// The author of a message; `extra` holds platform-specific pairs.
#[derive(Clone, Debug, PartialEq, Eq)]
pub struct Sender {
    pub id: String,
    pub username: Option<String>,
    pub display_name: Option<String>,
    pub first_name: Option<String>,
    pub last_name: Option<String>,
    pub is_bot: bool,
    pub language: Option<String>,
    pub extra: Vec<(String, String)>,
}

/// A message, incoming or outgoing.
///
/// `to` is the chat an outgoing message goes to, `local_id` the id that the
/// plugin which sent it gave it, and `delete_after` how long the sent message
/// lives before it is deleted again.
#[derive(Clone, Debug, PartialEq, Eq)]
pub struct Message {
    pub id: Option<String>,
    pub local_id: Option<String>,
    pub reply_to: Option<String>,
    pub content: Vec<ContentItem>,
    pub sender: Option<Sender>,
    pub chat: Chat,
    pub at: Vec<String>,
    pub is_admin: bool,
    pub to: Option<String>,
    pub delete_after: Option<Duration>,
}

/// An event that flows between the adapter and the framework's plugins.
#[derive(Clone, Debug, PartialEq, Eq)]
pub struct Event {
    pub event_type: EventType,
    pub source: String,
    pub data: String,
    pub command: Option<Command>,
    pub message: Option<Message>,
    pub reply_plugin: Option<String>,
    pub target_plugin: Option<String>,
    pub receiver: Option<String>,
}

/// Who may see a command in the command menu.
#[derive(Clone, Copy, Debug, PartialEq, Eq)]
pub enum CommandVisibility {
    Public,
    Admin,
    Hidden,
}

/// A command that a plugin registers.
#[derive(Clone, Debug, PartialEq, Eq)]
pub struct CommandSpec {
    pub name: String,
    pub aliases: Vec<String>,
    pub description: String,
    pub visibility: CommandVisibility,
}

impl Event {
    /// The event that reports a message as sent: `message_id` is its id on
    /// the platform, `local_id` the id its sender gave it.
    pub fn message_sent(source: &str, message_id: String, local_id: Option<String>) -> (r: Event)
        ensures
            r.event_type == EventType::MessageSent,
            r.source@ == source@,
            r.data@.len() == 0,
            r.command is None,
            r.message matches Some(m) && {
                &&& m.id matches Some(id) && id@ == message_id@
                &&& m.local_id == local_id
                &&& m.reply_to is None
                &&& m.content@.len() == 0
                &&& m.sender is None
                &&& m.chat.id@.len() == 0
                &&& m.chat.kind is None
                &&& m.chat.title is None
                &&& m.chat.username is None
                &&& m.chat.extra@.len() == 0
                &&& m.at@.len() == 0
                &&& !m.is_admin
                &&& m.to is None
                &&& m.delete_after is None
            },
            r.reply_plugin is None,
            r.target_plugin is None,
            r.receiver is None,
    {
        let chat = Chat {
            id: String::new(),
            kind: None,
            title: None,
            username: None,
            extra: Vec::new(),
        };
        let message = Message {
            id: Some(message_id),
            local_id,
            reply_to: None,
            content: Vec::new(),
            sender: None,
            chat,
            at: Vec::new(),
            is_admin: false,
            to: None,
            delete_after: None,
        };
        Event {
            event_type: EventType::MessageSent,
            source: source.to_owned(),
            data: String::new(),
            command: None,
            message: Some(message),
            reply_plugin: None,
            target_plugin: None,
            receiver: None,
        }
    }
}

impl ContentItem {
    /// A plain text item.
    pub fn text(text: &str) -> (r: ContentItem)
        ensures
            r matches ContentItem::Text { text: t, format: None } && t@ == text@,
    {
        ContentItem::Text { text: text.to_owned(), format: None }
    }
}

} // verus!
