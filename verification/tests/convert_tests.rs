use tg_adapter::config::{AdminId, Config};
use tg_adapter::convert::{convert_attachments, convert_update};
use tg_adapter::event::{ChatType, Command, ContentItem, EventType, FileSource, ImageSource};
use tg_adapter::state::AdapterState;
use tg_adapter::telegram::{
    ChatKind, Entity, EntityKind, FileMeta, OtherUpdateKind, PhotoSize, TgChat, TgMessage, Update,
    UpdateKind, User,
};

fn user(id: u64, last: Option<&str>, premium: bool) -> User {
    User {
        id,
        is_bot: false,
        first_name: "Ann".to_string(),
        last_name: last.map(str::to_string),
        username: Some("ann".to_string()),
        language_code: Some("en".to_string()),
        is_premium: premium,
    }
}

fn message(text: Option<&str>) -> TgMessage {
    TgMessage {
        id: 17,
        from: Some(user(42, Some("Lee"), true)),
        chat: TgChat { id: -1001, kind: ChatKind::Supergroup, title: Some("Room".to_string()), username: None },
        text: text.map(str::to_string),
        caption: None,
        entities: None,
        caption_entities: None,
        document: None,
        photo: None,
        audio: None,
        video: None,
        animation: None,
        voice_file_id: None,
        reply_to: None,
    }
}

fn admin_state() -> AdapterState<()> {
    let mut state = AdapterState::new();
    state.set_config(Config { bot_token: "t".to_string(), api_url: None, admins: vec![AdminId::Integer(42)] });
    state
}

#[test]
fn command_message_becomes_command_event() {
    let mut msg = message(Some("/start@my_bot   hello world "));
    msg.entities = Some(vec![
        Entity { kind: EntityKind::BotCommand, text: "/start@my_bot".to_string(), end: 13 },
        Entity { kind: EntityKind::BotCommand, text: "/other".to_string(), end: 20 },
    ]);
    msg.reply_to = Some(5);
    let update = Update { kind: UpdateKind::Message(msg) };
    let ev = convert_update(&update, &admin_state()).unwrap();
    assert_eq!(ev.event_type, EventType::Command);
    assert_eq!(ev.command, Some(Command { cmd: "start".to_string(), args: "hello world ".to_string() }));
    assert_eq!(ev.source, "tg-adapter");
    assert_eq!(ev.data, "Message");
    assert_eq!(ev.reply_plugin.as_deref(), Some("TGAdapter"));
    assert_eq!(ev.target_plugin, None);
    let m = ev.message.unwrap();
    assert_eq!(m.id.as_deref(), Some("17"));
    assert_eq!(m.reply_to.as_deref(), Some("5"));
    assert!(m.is_admin);
    assert_eq!(m.content, vec![ContentItem::Text { text: "/start@my_bot   hello world ".to_string(), format: None }]);
    assert_eq!(m.chat.id, "-1001");
    assert_eq!(m.chat.kind, Some(ChatType::Group));
    assert_eq!(m.chat.extra, vec![("raw_kind".to_string(), "supergroup".to_string())]);
    let s = m.sender.unwrap();
    assert_eq!(s.id, "42");
    assert_eq!(s.display_name.as_deref(), Some("Ann Lee"));
    assert_eq!(s.extra, vec![("is_premium".to_string(), "true".to_string())]);
}

#[test]
fn command_without_arguments_or_slash() {
    let mut msg = message(Some("/help"));
    msg.entities = Some(vec![Entity { kind: EntityKind::BotCommand, text: "/help".to_string(), end: 5 }]);
    let ev = convert_update(&Update { kind: UpdateKind::EditedMessage(msg) }, &AdapterState::<()>::new()).unwrap();
    assert_eq!(ev.command, Some(Command { cmd: "help".to_string(), args: String::new() }));
    assert_eq!(ev.data, "EditedMessage");
    assert!(!ev.message.unwrap().is_admin);
}

#[test]
fn mentions_are_collected_in_order() {
    let mut msg = message(Some("hi @bob and Carl"));
    msg.from = Some(user(9, None, false));
    msg.entities = Some(vec![
        Entity { kind: EntityKind::Mention, text: "@bob".to_string(), end: 7 },
        Entity { kind: EntityKind::Other, text: "and".to_string(), end: 11 },
        Entity { kind: EntityKind::TextMention { user_id: 555 }, text: "Carl".to_string(), end: 16 },
    ]);
    let ev = convert_update(&Update { kind: UpdateKind::ChannelPost(msg) }, &admin_state()).unwrap();
    assert_eq!(ev.event_type, EventType::Message);
    assert_eq!(ev.command, None);
    let m = ev.message.unwrap();
    assert_eq!(m.at, vec!["@bob".to_string(), "555".to_string()]);
    assert!(!m.is_admin);
    let s = m.sender.unwrap();
    assert_eq!(s.display_name.as_deref(), Some("Ann"));
    assert!(s.extra.is_empty());
}

#[test]
fn attachments_follow_the_caption_text() {
    let mut msg = message(None);
    msg.caption = Some("look".to_string());
    msg.document = Some(FileMeta { file_id: "doc".to_string(), file_name: Some("a.pdf".to_string()) });
    msg.photo = Some(vec![
        PhotoSize { file_id: "small".to_string(), width: 10, height: 10 },
        PhotoSize { file_id: "big1".to_string(), width: 20, height: 30 },
        PhotoSize { file_id: "big2".to_string(), width: 30, height: 20 },
        PhotoSize { file_id: "mid".to_string(), width: 15, height: 15 },
    ]);
    msg.voice_file_id = Some("v".to_string());
    let ev = convert_update(&Update { kind: UpdateKind::BusinessMessage(msg) }, &admin_state()).unwrap();
    let m = ev.message.unwrap();
    assert_eq!(
        m.content,
        vec![
            ContentItem::Text { text: "look".to_string(), format: None },
            ContentItem::File { source: FileSource::Id("doc".to_string()), file_name: Some("a.pdf".to_string()), file_id: Some("doc".to_string()) },
            ContentItem::Image { source: ImageSource::Id("big2".to_string()), file_id: Some("big2".to_string()), caption: Some("look".to_string()) },
            ContentItem::File { source: FileSource::Id("v".to_string()), file_name: Some("voice.ogg".to_string()), file_id: Some("v".to_string()) },
        ]
    );
}

#[test]
fn attachment_order_is_document_photo_audio_video_animation_voice() {
    let mut msg = message(Some("x"));
    msg.voice_file_id = Some("5".to_string());
    msg.animation = Some(FileMeta { file_id: "4".to_string(), file_name: None });
    msg.video = Some(FileMeta { file_id: "3".to_string(), file_name: None });
    msg.audio = Some(FileMeta { file_id: "2".to_string(), file_name: Some("s.mp3".to_string()) });
    msg.photo = Some(vec![]);
    msg.document = Some(FileMeta { file_id: "1".to_string(), file_name: None });
    let items = convert_attachments(&msg);
    let ids: Vec<_> = items
        .iter()
        .map(|i| match i {
            ContentItem::File { file_id, .. } => file_id.clone().unwrap(),
            _ => panic!("unexpected item"),
        })
        .collect();
    assert_eq!(ids, vec!["1", "2", "3", "4", "5"]);
}

#[test]
fn other_updates_carry_their_serialization() {
    let update = Update { kind: UpdateKind::Other { kind: OtherUpdateKind::CallbackQuery, data: "{\"id\":\"1\"}".to_string() } };
    let ev = convert_update(&update, &admin_state()).unwrap();
    assert_eq!(ev.event_type, EventType::Other("CallbackQuery".to_string()));
    assert_eq!(ev.data, "{\"id\":\"1\"}");
    assert_eq!(ev.message, None);
    assert_eq!(ev.command, None);
    assert_eq!(ev.source, "tg-adapter");
    assert_eq!(ev.reply_plugin.as_deref(), Some("TGAdapter"));
}

#[test]
fn private_chat_and_empty_text() {
    let mut msg = message(Some(""));
    msg.chat = TgChat { id: 42, kind: ChatKind::Private, title: None, username: Some("ann".to_string()) };
    msg.from = None;
    let ev = convert_update(&Update { kind: UpdateKind::EditedBusinessMessage(msg) }, &admin_state()).unwrap();
    let m = ev.message.unwrap();
    assert!(m.content.is_empty());
    assert_eq!(m.sender, None);
    assert!(!m.is_admin);
    assert_eq!(m.chat.kind, Some(ChatType::Private));
    assert_eq!(m.chat.username.as_deref(), Some("ann"));
    assert_eq!(m.chat.extra, vec![("raw_kind".to_string(), "private".to_string())]);
}
