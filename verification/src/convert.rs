//! Conversion of incoming Telegram updates into framework events.
use vstd::prelude::*;

use crate::config::is_admin_spec;
use crate::decimal::{i32_to_decimal, i64_to_decimal, int_decimal, nat_decimal, u64_to_decimal};
use crate::event::{
    Chat, ChatType, Command, ContentItem, Event, EventType, FileSource, ImageSource, Message,
    Sender,
};
use crate::external::push_char;
use crate::state::AdapterState;
use crate::telegram::{
    ChatKind, Entity, EntityKind, FileMeta, OtherUpdateKind, PhotoSize, TgChat, TgMessage,
    Update, UpdateKind, User,
};
use crate::text::{find_char, opt_view, clone_opt, trim_start, trim_start_seq};

verus! {

broadcast use vstd::seq_lib::group_seq_properties;

// ---------------------------------------------------------------------------
// The model of the conversion
// ---------------------------------------------------------------------------

/// Where an attachment of an incoming message comes from.
pub enum Attachment {
    File(FileMeta),
    Photo(PhotoSize),
    Voice(String),
}

/// The pixel count of a photo size.
pub open spec fn photo_area(p: PhotoSize) -> int {
    p.width as int * p.height as int
}

/// Whether every photo size's pixel count fits in a `u32`, the type in
/// which the sizes are compared.
pub open spec fn photo_areas_fit(photos: Seq<PhotoSize>) -> bool {
    forall|i: int| 0 <= i < photos.len() ==> #[trigger] photo_area(photos[i]) <= u32::MAX
}

/// Whether the photo sizes of `msg`, if any, can be compared.
pub open spec fn message_photos_fit(msg: TgMessage) -> bool {
    match msg.photo {
        Some(p) => photo_areas_fit(p@),
        None => true,
    }
}

/// Whether the photo sizes of the message in `update`, if any, can be compared.
pub open spec fn update_photos_fit(update: Update) -> bool {
    match update.kind {
        UpdateKind::Message(m) => message_photos_fit(m),
        UpdateKind::EditedMessage(m) => message_photos_fit(m),
        UpdateKind::ChannelPost(m) => message_photos_fit(m),
        UpdateKind::EditedChannelPost(m) => message_photos_fit(m),
        UpdateKind::BusinessMessage(m) => message_photos_fit(m),
        UpdateKind::EditedBusinessMessage(m) => message_photos_fit(m),
        UpdateKind::Other { .. } => true,
    }
}

/// The largest photo size; of several equally large ones, the last.
pub open spec fn largest_photo(photos: Seq<PhotoSize>) -> Option<PhotoSize>
    decreases photos.len(),
{
    if photos.len() == 0 {
        None
    } else {
        match largest_photo(photos.drop_last()) {
            Some(p) => if photo_area(photos.last()) >= photo_area(p) {
                Some(photos.last())
            } else {
                Some(p)
            },
            None => Some(photos.last()),
        }
    }
}

/// An optional file as a sequence of zero or one attachment.
pub open spec fn file_attachment(f: Option<FileMeta>) -> Seq<Attachment> {
    match f {
        Some(f) => seq![Attachment::File(f)],
        None => Seq::empty(),
    }
}

/// The largest of optional photo sizes, as a sequence of zero or one attachment.
pub open spec fn photo_attachment(photos: Option<Vec<PhotoSize>>) -> Seq<Attachment> {
    match photos {
        Some(ps) => match largest_photo(ps@) {
            Some(p) => seq![Attachment::Photo(p)],
            None => Seq::empty(),
        },
        None => Seq::empty(),
    }
}

/// The attachments of a message, in the order in which they become content:
/// document, largest photo, audio, video, animation, voice.
pub open spec fn attachments_of(msg: TgMessage) -> Seq<Attachment> {
    let photo = photo_attachment(msg.photo);
    let voice = match msg.voice_file_id {
        Some(v) => seq![Attachment::Voice(v)],
        None => Seq::empty(),
    };
    file_attachment(msg.document) + photo + file_attachment(msg.audio) + file_attachment(
        msg.video,
    ) + file_attachment(msg.animation) + voice
}

/// Whether `item` is the content item made from attachment `a`; images take
/// the message's caption.
pub open spec fn attachment_item(item: ContentItem, a: Attachment, caption: Option<String>) -> bool {
    match a {
        Attachment::File(f) => item matches ContentItem::File {
            source: FileSource::Id(s),
            file_name,
            file_id: Some(id),
        } && s@ == f.file_id@ && opt_view(file_name) == opt_view(f.file_name) && id@
            == f.file_id@,
        Attachment::Photo(p) => item matches ContentItem::Image {
            source: ImageSource::Id(s),
            file_id: Some(id),
            caption: c,
        } && s@ == p.file_id@ && id@ == p.file_id@ && opt_view(c) == opt_view(caption),
        Attachment::Voice(v) => item matches ContentItem::File {
            source: FileSource::Id(s),
            file_name: Some(n),
            file_id: Some(id),
        } && s@ == v@ && n@ == "voice.ogg"@ && id@ == v@,
    }
}

/// Whether `items` are exactly the content items made from `atts`.
pub open spec fn attachment_items(
    items: Seq<ContentItem>,
    atts: Seq<Attachment>,
    caption: Option<String>,
) -> bool {
    &&& items.len() == atts.len()
    &&& forall|i: int| 0 <= i < items.len() ==> #[trigger] attachment_item(items[i], atts[i], caption)
}

/// The text of a message: its text, else its caption, else nothing.
pub open spec fn message_text(msg: TgMessage) -> Seq<char> {
    match msg.text {
        Some(t) => t@,
        None => match msg.caption {
            Some(c) => c@,
            None => Seq::empty(),
        },
    }
}

/// The entities of a message: those of its text, else those of its caption.
pub open spec fn message_entities(msg: TgMessage) -> Seq<Entity> {
    match msg.entities {
        Some(e) => e@,
        None => match msg.caption_entities {
            Some(e) => e@,
            None => Seq::empty(),
        },
    }
}

/// Whether `content` is the content of `msg`: its text (if not empty) as a
/// plain text item, then its attachments.
pub open spec fn content_of(content: Seq<ContentItem>, msg: TgMessage) -> bool {
    let text = message_text(msg);
    if text.len() == 0 {
        attachment_items(content, attachments_of(msg), msg.caption)
    } else {
        &&& content.len() >= 1
        &&& content[0] matches ContentItem::Text { text: t, format: None } && t@ == text
        &&& attachment_items(content.drop_first(), attachments_of(msg), msg.caption)
    }
}

/// What an entity adds to the list of mentioned users: the mention's text,
/// or the id of the user that a text mention links to.
pub open spec fn mention_of(e: Entity) -> Option<Seq<char>> {
    match e.kind {
        EntityKind::Mention => Some(e.text@),
        EntityKind::TextMention { user_id } => Some(nat_decimal(user_id as nat)),
        _ => None,
    }
}

/// The users mentioned by `entities`, in order.
pub open spec fn mentions(entities: Seq<Entity>) -> Seq<Seq<char>> {
    entities.filter_map(|e: Entity| mention_of(e))
}

/// The first bot-command entity.
pub open spec fn first_command_entity(entities: Seq<Entity>) -> Option<Entity>
    decreases entities.len(),
{
    if entities.len() == 0 {
        None
    } else {
        match first_command_entity(entities.drop_last()) {
            Some(e) => Some(e),
            None => if entities.last().kind is BotCommand {
                Some(entities.last())
            } else {
                None
            },
        }
    }
}

/// A command entity's text without its leading `/`.
pub open spec fn strip_slash(raw: Seq<char>) -> Seq<char> {
    if raw.len() > 0 && raw[0] == '/' {
        raw.drop_first()
    } else {
        raw
    }
}

/// The command name of a command entity's text: without the leading `/`,
/// and cut at the first `@` (which names the bot).
pub open spec fn command_name(raw: Seq<char>) -> Seq<char> {
    let stripped = strip_slash(raw);
    match stripped.index_of_first('@') {
        Some(i) => stripped.take(i),
        None => stripped,
    }
}

/// The arguments of a command: the text after the entity, without leading
/// white space.
pub open spec fn command_args(text: Seq<char>, end: int) -> Seq<char> {
    if end < text.len() {
        trim_start_seq(text.subrange(end, text.len() as int))
    } else {
        Seq::empty()
    }
}

/// The command that a message invokes: its first bot-command entity's name
/// and arguments.
pub open spec fn message_command(msg: TgMessage) -> Option<(Seq<char>, Seq<char>)> {
    match first_command_entity(message_entities(msg)) {
        Some(e) => Some((command_name(e.text@), command_args(message_text(msg), e.end as int))),
        None => None,
    }
}

/// A command's name and arguments.
pub open spec fn command_view(c: Option<Command>) -> Option<(Seq<char>, Seq<char>)> {
    match c {
        Some(c) => Some((c.cmd@, c.args@)),
        None => None,
    }
}

/// The characters of each string pair.
pub open spec fn pairs_view(v: Seq<(String, String)>) -> Seq<(Seq<char>, Seq<char>)> {
    v.map_values(|p: (String, String)| (p.0@, p.1@))
}

/// A user's full name: first name, and the last name after a space.
pub open spec fn full_name(u: User) -> Seq<char> {
    match u.last_name {
        Some(l) => u.first_name@ + seq![' '] + l@,
        None => u.first_name@,
    }
}

/// Whether `s` describes the user `u`.
pub open spec fn sender_of(s: Sender, u: User) -> bool {
    &&& s.id@ == nat_decimal(u.id as nat)
    &&& opt_view(s.username) == opt_view(u.username)
    &&& opt_view(s.display_name) == if full_name(u).len() > 0 {
        Some(full_name(u))
    } else {
        None
    }
    &&& opt_view(s.first_name) == Some(u.first_name@)
    &&& opt_view(s.last_name) == opt_view(u.last_name)
    &&& s.is_bot == u.is_bot
    &&& opt_view(s.language) == opt_view(u.language_code)
    &&& pairs_view(s.extra@) == if u.is_premium {
        seq![("is_premium"@, "true"@)]
    } else {
        Seq::empty()
    }
}

/// The framework's kind of a Telegram chat kind.
pub open spec fn chat_type_of(k: ChatKind) -> ChatType {
    match k {
        ChatKind::Private => ChatType::Private,
        ChatKind::Group => ChatType::Group,
        ChatKind::Supergroup => ChatType::Group,
        ChatKind::Channel => ChatType::Channel,
    }
}

/// Telegram's own name of a chat kind.
pub open spec fn raw_kind_name(k: ChatKind) -> Seq<char> {
    match k {
        ChatKind::Private => "private"@,
        ChatKind::Group => "group"@,
        ChatKind::Supergroup => "supergroup"@,
        ChatKind::Channel => "channel"@,
    }
}

/// Whether `c` describes the Telegram chat `tc`.
pub open spec fn chat_of(c: Chat, tc: TgChat) -> bool {
    &&& c.id@ == int_decimal(tc.id as int)
    &&& c.kind == Some(chat_type_of(tc.kind))
    &&& opt_view(c.title) == opt_view(tc.title)
    &&& opt_view(c.username) == opt_view(tc.username)
    &&& pairs_view(c.extra@) == seq![("raw_kind"@, raw_kind_name(tc.kind))]
}

/// Whether the author of `msg` is a configured admin in `state`.
pub open spec fn author_is_admin<B>(state: AdapterState<B>, msg: TgMessage) -> bool {
    match msg.from {
        Some(u) => state.current_config() matches Some(c) && is_admin_spec(
            c.admins@,
            nat_decimal(u.id as nat),
        ),
        None => false,
    }
}

/// Whether `m` is the framework message made from `msg`.
pub open spec fn message_of(m: Message, msg: TgMessage, is_admin: bool) -> bool {
    &&& opt_view(m.id) == Some(int_decimal(msg.id as int))
    &&& m.local_id is None
    &&& opt_view(m.reply_to) == match msg.reply_to {
        Some(r) => Some(int_decimal(r as int)),
        None => None,
    }
    &&& content_of(m.content@, msg)
    &&& match (m.sender, msg.from) {
        (Some(s), Some(u)) => sender_of(s, u),
        (None, None) => true,
        _ => false,
    }
    &&& chat_of(m.chat, msg.chat)
    &&& m.at@.map_values(|s: String| s@) == mentions(message_entities(msg))
    &&& m.is_admin == is_admin
    &&& m.to is None
    &&& m.delete_after is None
}

/// Whether `ev` is the event made from a message update of kind `kind_name`:
/// a command event when the message invokes a command, else a message event.
pub open spec fn message_event(kind_name: Seq<char>, msg: TgMessage, is_admin: bool, ev: Event) -> bool {
    &&& ev.event_type == if message_command(msg) is Some {
        EventType::Command
    } else {
        EventType::Message
    }
    &&& ev.source@ == "tg-adapter"@
    &&& ev.data@ == kind_name
    &&& command_view(ev.command) == message_command(msg)
    &&& ev.message matches Some(m) && message_of(m, msg, is_admin)
    &&& opt_view(ev.reply_plugin) == Some("TGAdapter"@)
    &&& ev.target_plugin is None
    &&& ev.receiver is None
}

/// The name of an update kind that carries no message.
pub open spec fn other_kind_name(k: OtherUpdateKind) -> Seq<char> {
    match k {
        OtherUpdateKind::BusinessConnection => "BusinessConnection"@,
        OtherUpdateKind::DeletedBusinessMessages => "DeletedBusinessMessages"@,
        OtherUpdateKind::MessageReaction => "MessageReaction"@,
        OtherUpdateKind::MessageReactionCount => "MessageReactionCount"@,
        OtherUpdateKind::InlineQuery => "InlineQuery"@,
        OtherUpdateKind::ChosenInlineResult => "ChosenInlineResult"@,
        OtherUpdateKind::CallbackQuery => "CallbackQuery"@,
        OtherUpdateKind::ShippingQuery => "ShippingQuery"@,
        OtherUpdateKind::PreCheckoutQuery => "PreCheckoutQuery"@,
        OtherUpdateKind::PurchasedPaidMedia => "PurchasedPaidMedia"@,
        OtherUpdateKind::Poll => "Poll"@,
        OtherUpdateKind::PollAnswer => "PollAnswer"@,
        OtherUpdateKind::MyChatMember => "MyChatMember"@,
        OtherUpdateKind::ChatMember => "ChatMember"@,
        OtherUpdateKind::ChatJoinRequest => "ChatJoinRequest"@,
        OtherUpdateKind::ChatBoost => "ChatBoost"@,
        OtherUpdateKind::RemovedChatBoost => "RemovedChatBoost"@,
        OtherUpdateKind::Error => "Error"@,
    }
}

/// Whether `ev` is the event made from an update of kind `k` that carries no
/// message, with the update serialized as `data`.
pub open spec fn other_event(k: OtherUpdateKind, data: Seq<char>, ev: Event) -> bool {
    &&& ev.event_type matches EventType::Other(n) && n@ == other_kind_name(k)
    &&& ev.source@ == "tg-adapter"@
    &&& ev.data@ == data
    &&& ev.command is None
    &&& ev.message is None
    &&& opt_view(ev.reply_plugin) == Some("TGAdapter"@)
    &&& ev.target_plugin is None
    &&& ev.receiver is None
}

/// Whether `ev` is the event made from `update`.
pub open spec fn update_event<B>(update: Update, state: AdapterState<B>, ev: Event) -> bool {
    match update.kind {
        UpdateKind::Message(m) => message_event("Message"@, m, author_is_admin(state, m), ev),
        UpdateKind::EditedMessage(m) => message_event(
            "EditedMessage"@,
            m,
            author_is_admin(state, m),
            ev,
        ),
        UpdateKind::ChannelPost(m) => message_event(
            "ChannelPost"@,
            m,
            author_is_admin(state, m),
            ev,
        ),
        UpdateKind::EditedChannelPost(m) => message_event(
            "EditedChannelPost"@,
            m,
            author_is_admin(state, m),
            ev,
        ),
        UpdateKind::BusinessMessage(m) => message_event(
            "BusinessMessage"@,
            m,
            author_is_admin(state, m),
            ev,
        ),
        UpdateKind::EditedBusinessMessage(m) => message_event(
            "EditedBusinessMessage"@,
            m,
            author_is_admin(state, m),
            ev,
        ),
        UpdateKind::Other { kind, data } => other_event(kind, data@, ev),
    }
}

// ---------------------------------------------------------------------------
// The conversion
// ---------------------------------------------------------------------------

fn other_kind_label(k: OtherUpdateKind) -> (r: &'static str)
    ensures
        r@ == other_kind_name(k),
{
    match k {
        OtherUpdateKind::BusinessConnection => "BusinessConnection",
        OtherUpdateKind::DeletedBusinessMessages => "DeletedBusinessMessages",
        OtherUpdateKind::MessageReaction => "MessageReaction",
        OtherUpdateKind::MessageReactionCount => "MessageReactionCount",
        OtherUpdateKind::InlineQuery => "InlineQuery",
        OtherUpdateKind::ChosenInlineResult => "ChosenInlineResult",
        OtherUpdateKind::CallbackQuery => "CallbackQuery",
        OtherUpdateKind::ShippingQuery => "ShippingQuery",
        OtherUpdateKind::PreCheckoutQuery => "PreCheckoutQuery",
        OtherUpdateKind::PurchasedPaidMedia => "PurchasedPaidMedia",
        OtherUpdateKind::Poll => "Poll",
        OtherUpdateKind::PollAnswer => "PollAnswer",
        OtherUpdateKind::MyChatMember => "MyChatMember",
        OtherUpdateKind::ChatMember => "ChatMember",
        OtherUpdateKind::ChatJoinRequest => "ChatJoinRequest",
        OtherUpdateKind::ChatBoost => "ChatBoost",
        OtherUpdateKind::RemovedChatBoost => "RemovedChatBoost",
        OtherUpdateKind::Error => "Error",
    }
}

/// Converts an update into the event that the framework receives; the
/// authors' admin status comes from the configuration in `state`.
pub fn convert_update<B>(update: &Update, state: &AdapterState<B>) -> (r: Option<Event>)
    requires
        update_photos_fit(*update),
    ensures
        r matches Some(ev) && update_event(*update, *state, ev),
{
    match &update.kind {
        UpdateKind::Message(msg) => Some(convert_message("Message", msg, state)),
        UpdateKind::EditedMessage(msg) => Some(convert_message("EditedMessage", msg, state)),
        UpdateKind::ChannelPost(msg) => Some(convert_message("ChannelPost", msg, state)),
        UpdateKind::EditedChannelPost(msg) => Some(
            convert_message("EditedChannelPost", msg, state),
        ),
        UpdateKind::BusinessMessage(msg) => Some(convert_message("BusinessMessage", msg, state)),
        UpdateKind::EditedBusinessMessage(msg) => Some(
            convert_message("EditedBusinessMessage", msg, state),
        ),
        UpdateKind::Other { kind, data } => Some(
            Event {
                event_type: EventType::Other(other_kind_label(*kind).to_owned()),
                source: "tg-adapter".to_owned(),
                data: data.clone(),
                command: None,
                message: None,
                reply_plugin: Some("TGAdapter".to_owned()),
                target_plugin: None,
                receiver: None,
            },
        ),
    }
}

/// Of the photo sizes, the position of the largest; of several equally
/// large ones, the last.
fn largest_photo_index(photos: &Vec<PhotoSize>) -> (r: Option<usize>)
    requires
        photo_areas_fit(photos@),
    ensures
        match r {
            Some(k) => k < photos@.len() && largest_photo(photos@) == Some(photos@[k as int]),
            None => largest_photo(photos@) is None,
        },
{
    let mut best: Option<usize> = None;
    let mut i: usize = 0;
    while i < photos.len()
        invariant
            i <= photos@.len(),
            photo_areas_fit(photos@),
            match best {
                Some(k) => k < i && largest_photo(photos@.take(i as int)) == Some(
                    photos@[k as int],
                ),
                None => i == 0 && largest_photo(photos@.take(i as int)) is None,
            },
        decreases photos@.len() - i,
    {
        let ghost t = photos@.take(i + 1);
        assert(t.drop_last() =~= photos@.take(i as int));
        assert(t.last() == photos@[i as int]);
        assert(photo_area(photos@[i as int]) <= u32::MAX);
        let area = photos[i].width * photos[i].height;
        match best {
            Some(k) => {
                assert(photo_area(photos@[k as int]) <= u32::MAX);
                let best_area = photos[k].width * photos[k].height;
                if area >= best_area {
                    best = Some(i);
                }
            },
            None => {
                best = Some(i);
            },
        }
        i = i + 1;
    }
    assert(photos@.take(photos@.len() as int) =~= photos@);
    best
}

fn file_item(f: &FileMeta) -> (r: ContentItem)
    ensures
        forall|c: Option<String>| #[trigger] attachment_item(r, Attachment::File(*f), c),
{
    ContentItem::File {
        source: FileSource::Id(f.file_id.clone()),
        file_name: clone_opt(&f.file_name),
        file_id: Some(f.file_id.clone()),
    }
}

proof fn lemma_attachment_items_push(
    items: Seq<ContentItem>,
    atts: Seq<Attachment>,
    caption: Option<String>,
    item: ContentItem,
    a: Attachment,
)
    requires
        attachment_items(items, atts, caption),
        attachment_item(item, a, caption),
    ensures
        attachment_items(items.push(item), atts.push(a), caption),
{
    assert forall|i: int| 0 <= i < items.len() + 1 implies #[trigger] attachment_item(
        items.push(item)[i],
        atts.push(a)[i],
        caption,
    ) by {
        if i < items.len() {
            assert(attachment_item(items[i], atts[i], caption));
        }
    }
}

/// The attachments of a message as content items: document, largest photo
/// (with the message's caption), audio, video, animation and voice.
pub fn convert_attachments(msg: &TgMessage) -> (r: Vec<ContentItem>)
    requires
        message_photos_fit(*msg),
    ensures
        attachment_items(r@, attachments_of(*msg), msg.caption),
{
    let ghost cap = msg.caption;
    let mut items: Vec<ContentItem> = Vec::new();
    let ghost mut atts: Seq<Attachment> = Seq::empty();

    if let Some(document) = &msg.document {
        let item = file_item(document);
        proof {
            lemma_attachment_items_push(items@, atts, cap, item, Attachment::File(*document));
            atts = atts.push(Attachment::File(*document));
        }
        items.push(item);
    }
    let ghost p0 = atts;

    if let Some(photos) = &msg.photo {
        if let Some(k) = largest_photo_index(photos) {
            let photo = &photos[k];
            let item = ContentItem::Image {
                source: ImageSource::Id(photo.file_id.clone()),
                file_id: Some(photo.file_id.clone()),
                caption: clone_opt(&msg.caption),
            };
            proof {
                lemma_attachment_items_push(items@, atts, cap, item, Attachment::Photo(*photo));
                atts = atts.push(Attachment::Photo(*photo));
            }
            items.push(item);
        }
    }
    let ghost p1 = atts;

    if let Some(audio) = &msg.audio {
        let item = file_item(audio);
        proof {
            lemma_attachment_items_push(items@, atts, cap, item, Attachment::File(*audio));
            atts = atts.push(Attachment::File(*audio));
        }
        items.push(item);
    }
    let ghost p2 = atts;

    if let Some(video) = &msg.video {
        let item = file_item(video);
        proof {
            lemma_attachment_items_push(items@, atts, cap, item, Attachment::File(*video));
            atts = atts.push(Attachment::File(*video));
        }
        items.push(item);
    }
    let ghost p3 = atts;

    if let Some(animation) = &msg.animation {
        let item = file_item(animation);
        proof {
            lemma_attachment_items_push(items@, atts, cap, item, Attachment::File(*animation));
            atts = atts.push(Attachment::File(*animation));
        }
        items.push(item);
    }
    let ghost p4 = atts;

    if let Some(voice) = &msg.voice_file_id {
        let item = ContentItem::File {
            source: FileSource::Id(voice.clone()),
            file_name: Some("voice.ogg".to_owned()),
            file_id: Some(voice.clone()),
        };
        proof {
            lemma_attachment_items_push(items@, atts, cap, item, Attachment::Voice(*voice));
            atts = atts.push(Attachment::Voice(*voice));
        }
        items.push(item);
    }
    proof {
        let photo_part = photo_attachment(msg.photo);
        assert(p0 =~= file_attachment(msg.document));
        assert(p1 =~= p0 + photo_part);
        assert(p2 =~= p1 + file_attachment(msg.audio));
        assert(p3 =~= p2 + file_attachment(msg.video));
        assert(p4 =~= p3 + file_attachment(msg.animation));
        assert(atts =~= attachments_of(*msg));
    }
    items
}

/// A user's full name, as Telegram's `User::full_name` forms it.
fn full_name_of(u: &User) -> (r: String)
    ensures
        r@ == full_name(*u),
{
    match &u.last_name {
        Some(last) => {
            let mut s = u.first_name.clone();
            push_char(&mut s, ' ');
            s.append(last.as_str());
            s
        },
        None => u.first_name.clone(),
    }
}

fn sender_from(u: &User) -> (s: Sender)
    ensures
        sender_of(s, *u),
{
    let mut extra: Vec<(String, String)> = Vec::new();
    if u.is_premium {
        extra.push(("is_premium".to_owned(), "true".to_owned()));
    }
    assert(pairs_view(extra@) =~= if u.is_premium {
        seq![("is_premium"@, "true"@)]
    } else {
        Seq::empty()
    });
    let full = full_name_of(u);
    let display_name = if full.as_str().unicode_len() > 0 {
        Some(full)
    } else {
        None
    };
    Sender {
        id: u64_to_decimal(u.id),
        username: clone_opt(&u.username),
        display_name,
        first_name: Some(u.first_name.clone()),
        last_name: clone_opt(&u.last_name),
        is_bot: u.is_bot,
        language: clone_opt(&u.language_code),
        extra,
    }
}

fn chat_from(c: &TgChat) -> (r: Chat)
    ensures
        chat_of(r, *c),
{
    let (kind, raw_kind) = match c.kind {
        ChatKind::Private => (ChatType::Private, "private"),
        ChatKind::Group => (ChatType::Group, "group"),
        ChatKind::Supergroup => (ChatType::Group, "supergroup"),
        ChatKind::Channel => (ChatType::Channel, "channel"),
    };
    let mut extra: Vec<(String, String)> = Vec::new();
    extra.push(("raw_kind".to_owned(), raw_kind.to_owned()));
    assert(pairs_view(extra@) =~= seq![("raw_kind"@, raw_kind_name(c.kind))]);
    Chat {
        id: i64_to_decimal(c.id),
        kind: Some(kind),
        title: clone_opt(&c.title),
        username: clone_opt(&c.username),
        extra,
    }
}

/// The command that a bot-command entity of `text` invokes.
fn command_from_entity(e: &Entity, text: &str) -> (r: Command)
    ensures
        r.cmd@ == command_name(e.text@),
        r.args@ == command_args(text@, e.end as int),
{
    let raw = e.text.as_str();
    let n = raw.unicode_len();
    let stripped: &str = if n > 0 && raw.get_char(0) == '/' {
        raw.substring_char(1, n)
    } else {
        raw
    };
    assert(stripped@ == strip_slash(raw@)) by {
        if n > 0 && raw@[0] == '/' {
            assert(raw@.subrange(1, n as int) =~= raw@.drop_first());
        }
    }
    let cmd: &str = match find_char(stripped, '@') {
        Some(i) => {
            proof {
                stripped@.index_of_first_ensures('@');
            }
            stripped.substring_char(0, i)
        },
        None => stripped,
    };
    assert(cmd@ =~= command_name(e.text@));
    let tlen = text.unicode_len();
    let args: String = if e.end < tlen {
        trim_start(text.substring_char(e.end, tlen)).to_owned()
    } else {
        String::new()
    };
    Command { cmd: cmd.to_owned(), args }
}

/// Converts a message update of kind `kind_name` into a command event, when
/// the message invokes a command, or else a message event.
pub fn convert_message<B>(kind_name: &str, msg: &TgMessage, state: &AdapterState<B>) -> (r: Event)
    requires
        message_photos_fit(*msg),
    ensures
        message_event(kind_name@, *msg, author_is_admin(*state, *msg), r),
{
    let no_text = String::new();
    let text: &str = match &msg.text {
        Some(t) => t.as_str(),
        None => match &msg.caption {
            Some(c) => c.as_str(),
            None => no_text.as_str(),
        },
    };
    assert(text@ == message_text(*msg));

    let mut content: Vec<ContentItem> = Vec::new();
    if text.unicode_len() > 0 {
        content.push(ContentItem::text(text));
    }
    let mut attachments = convert_attachments(msg);
    let ghost att_items = attachments@;
    content.append(&mut attachments);
    proof {
        if text@.len() > 0 {
            assert(content@.drop_first() =~= att_items);
        } else {
            assert(content@ =~= att_items);
        }
    }

    let from: Option<String> = match &msg.from {
        Some(u) => Some(u64_to_decimal(u.id)),
        None => None,
    };
    let sender: Option<Sender> = match &msg.from {
        Some(u) => Some(sender_from(u)),
        None => None,
    };
    let chat = chat_from(&msg.chat);

    let no_entities: Vec<Entity> = Vec::new();
    let entities: &Vec<Entity> = match &msg.entities {
        Some(e) => e,
        None => match &msg.caption_entities {
            Some(e) => e,
            None => &no_entities,
        },
    };
    assert(entities@ =~= message_entities(*msg));

    let ghost mention_f = |e: Entity| mention_of(e);
    let mut at: Vec<String> = Vec::new();
    let mut command: Option<Command> = None;
    let mut i: usize = 0;
    while i < entities.len()
        invariant
            i <= entities@.len(),
            mention_f == (|e: Entity| mention_of(e)),
            at@.map_values(|s: String| s@) == entities@.take(i as int).filter_map(mention_f),
            command_view(command) == match first_command_entity(entities@.take(i as int)) {
                Some(e) => Some((command_name(e.text@), command_args(text@, e.end as int))),
                None => None,
            },
        decreases entities@.len() - i,
    {
        let e = &entities[i];
        let ghost prev_at = at@;
        proof {
            entities@.lemma_filter_map_take_succ(mention_f, i as int);
            assert(entities@.take(i + 1).drop_last() =~= entities@.take(i as int));
        }
        match e.kind {
            EntityKind::Mention => {
                at.push(e.text.clone());
            },
            EntityKind::TextMention { user_id } => {
                at.push(u64_to_decimal(user_id));
            },
            EntityKind::BotCommand => {
                if command.is_none() {
                    command = Some(command_from_entity(e, text));
                }
            },
            EntityKind::Other => {},
        }
        proof {
            if mention_f(*e) is Some {
                assert(at@ == prev_at.push(at@.last()));
                prev_at.lemma_push_map_commute(|s: String| s@, at@.last());
            } else {
                assert(at@ == prev_at);
            }
        }
        assert(at@.map_values(|s: String| s@) =~= entities@.take(i + 1).filter_map(mention_f));
        i = i + 1;
    }
    assert(entities@.take(entities@.len() as int) =~= entities@);

    let is_admin = match &from {
        Some(f) => state.is_configured_admin(Some(f.as_str())),
        None => state.is_configured_admin(None),
    };
    let event_msg = Message {
        id: Some(i32_to_decimal(msg.id)),
        local_id: None,
        reply_to: match msg.reply_to {
            Some(r) => Some(i32_to_decimal(r)),
            None => None,
        },
        content,
        sender,
        chat,
        at,
        is_admin,
        to: None,
        delete_after: None,
    };
    let event_type = if command.is_some() {
        EventType::Command
    } else {
        EventType::Message
    };
    Event {
        event_type,
        source: "tg-adapter".to_owned(),
        data: kind_name.to_owned(),
        command,
        message: Some(event_msg),
        reply_plugin: Some("TGAdapter".to_owned()),
        target_plugin: None,
        receiver: None,
    }
}

/// The message that an update carries, if any.
pub open spec fn update_message(update: Update) -> Option<TgMessage> {
    match update.kind {
        UpdateKind::Message(m) => Some(m),
        UpdateKind::EditedMessage(m) => Some(m),
        UpdateKind::ChannelPost(m) => Some(m),
        UpdateKind::EditedChannelPost(m) => Some(m),
        UpdateKind::BusinessMessage(m) => Some(m),
        UpdateKind::EditedBusinessMessage(m) => Some(m),
        UpdateKind::Other { .. } => None,
    }
}

/// The chat of a converted message is the Telegram chat: same id, and a
/// channel stays a channel, a private chat stays private, and groups and
/// supergroups both become groups (the Telegram kind kept in `raw_kind`).
pub proof fn law_chat_kind_follows_telegram<B>(update: Update, state: AdapterState<B>, ev: Event)
    requires
        update_event(update, state, ev),
        update_message(update) is Some,
    ensures
        ({
            let tc = update_message(update).unwrap().chat;
            ev.message matches Some(m) && {
                &&& m.chat.id@ == int_decimal(tc.id as int)
                &&& (m.chat.kind == Some(ChatType::Channel)) == (tc.kind == ChatKind::Channel)
                &&& (m.chat.kind == Some(ChatType::Private)) == (tc.kind == ChatKind::Private)
                &&& (m.chat.kind == Some(ChatType::Group)) == (tc.kind == ChatKind::Group
                    || tc.kind == ChatKind::Supergroup)
                &&& m.chat.extra@.len() == 1
                &&& m.chat.extra@[0].0@ == "raw_kind"@
            }
        }),
{
    match update.kind {
        UpdateKind::Message(msg) => lemma_message_chat(msg, ev),
        UpdateKind::EditedMessage(msg) => lemma_message_chat(msg, ev),
        UpdateKind::ChannelPost(msg) => lemma_message_chat(msg, ev),
        UpdateKind::EditedChannelPost(msg) => lemma_message_chat(msg, ev),
        UpdateKind::BusinessMessage(msg) => lemma_message_chat(msg, ev),
        UpdateKind::EditedBusinessMessage(msg) => lemma_message_chat(msg, ev),
        UpdateKind::Other { .. } => {},
    }
}

proof fn lemma_message_chat(msg: TgMessage, ev: Event)
    requires
        exists|name: Seq<char>, a: bool| message_event(name, msg, a, ev),
    ensures
        ({
            let tc = msg.chat;
            ev.message matches Some(m) && {
                &&& m.chat.id@ == int_decimal(tc.id as int)
                &&& (m.chat.kind == Some(ChatType::Channel)) == (tc.kind == ChatKind::Channel)
                &&& (m.chat.kind == Some(ChatType::Private)) == (tc.kind == ChatKind::Private)
                &&& (m.chat.kind == Some(ChatType::Group)) == (tc.kind == ChatKind::Group
                    || tc.kind == ChatKind::Supergroup)
                &&& m.chat.extra@.len() == 1
                &&& m.chat.extra@[0].0@ == "raw_kind"@
            }
        }),
{
    let (name, a) = choose|name: Seq<char>, a: bool| message_event(name, msg, a, ev);
    let m = ev.message.unwrap();
    assert(message_of(m, msg, a));
    assert(chat_of(m.chat, msg.chat));
    let pv = pairs_view(m.chat.extra@);
    assert(pv.len() == 1);
    assert(pv[0] == (m.chat.extra@[0].0@, m.chat.extra@[0].1@));
}

} // verus!
