//! The parts of an incoming Telegram update that the adapter reads, as plain
//! values.
use vstd::prelude::*;

verus! {

/// A Telegram user.
#[derive(Clone, Debug, PartialEq, Eq)]
pub struct User {
    pub id: u64,
    pub is_bot: bool,
    pub first_name: String,
    pub last_name: Option<String>,
    pub username: Option<String>,
    pub language_code: Option<String>,
    pub is_premium: bool,
}

/// The kind of a Telegram chat.
#[derive(Clone, Copy, Debug, PartialEq, Eq)]
pub enum ChatKind {
    Private,
    Group,
    Supergroup,
    Channel,
}

/// A Telegram chat.
#[derive(Clone, Debug, PartialEq, Eq)]
pub struct TgChat {
    pub id: i64,
    pub kind: ChatKind,
    pub title: Option<String>,
    pub username: Option<String>,
}

/// A file attached to a message (document, audio, video or animation).
#[derive(Clone, Debug, PartialEq, Eq)]
pub struct FileMeta {
    pub file_id: String,
    pub file_name: Option<String>,
}

/// One of the sizes in which a photo is available.
#[derive(Clone, Debug, PartialEq, Eq)]
pub struct PhotoSize {
    pub file_id: String,
    pub width: u32,
    pub height: u32,
}

/// What a message entity marks.
#[derive(Clone, Copy, Debug, PartialEq, Eq)]
pub enum EntityKind {
    Mention,
    TextMention { user_id: u64 },
    BotCommand,
    Other,
}

/// A marked span of a message's text: its kind, the text it covers, and the
/// position (in characters) just after it.
#[derive(Clone, Debug, PartialEq, Eq)]
pub struct Entity {
    pub kind: EntityKind,
    pub text: String,
    pub end: usize,
}

/// A Telegram message.
#[derive(Clone, Debug, PartialEq, Eq)]
pub struct TgMessage {
    pub id: i32,
    pub from: Option<User>,
    pub chat: TgChat,
    pub text: Option<String>,
    pub caption: Option<String>,
    pub entities: Option<Vec<Entity>>,
    pub caption_entities: Option<Vec<Entity>>,
    pub document: Option<FileMeta>,
    pub photo: Option<Vec<PhotoSize>>,
    pub audio: Option<FileMeta>,
    pub video: Option<FileMeta>,
    pub animation: Option<FileMeta>,
    pub voice_file_id: Option<String>,
    pub reply_to: Option<i32>,
}

/// The kinds of update that carry no message.
#[derive(Clone, Copy, Debug, PartialEq, Eq)]
pub enum OtherUpdateKind {
    BusinessConnection,
    DeletedBusinessMessages,
    MessageReaction,
    MessageReactionCount,
    InlineQuery,
    ChosenInlineResult,
    CallbackQuery,
    ShippingQuery,
    PreCheckoutQuery,
    PurchasedPaidMedia,
    Poll,
    PollAnswer,
    MyChatMember,
    ChatMember,
    ChatJoinRequest,
    ChatBoost,
    RemovedChatBoost,
    Error,
}

/// What an update carries: a message of one of six kinds, or another kind of
/// update together with its JSON serialization.
#[derive(Clone, Debug, PartialEq, Eq)]
pub enum UpdateKind {
    Message(TgMessage),
    EditedMessage(TgMessage),
    ChannelPost(TgMessage),
    EditedChannelPost(TgMessage),
    BusinessMessage(TgMessage),
    EditedBusinessMessage(TgMessage),
    Other { kind: OtherUpdateKind, data: String },
}

/// An incoming Telegram update.
#[derive(Clone, Debug, PartialEq, Eq)]
pub struct Update {
    pub kind: UpdateKind,
}

} // verus!
