use std::time::Duration;

use tg_adapter::event::{Chat, ContentItem, Event, EventType, FileSource, ImageSource, Message, TextFormat};
use tg_adapter::outgoing::{
    delete_message_item, edit_message_item, emit_message_sent_if_needed, input_file_from_image,
    input_file_from_source, reply_parameters, send_event, send_message_items, FormattedPayload,
    InputFile, InputSource, OutgoingAction, PrepareError, ReplyParameters, SendError, SendStep,
    TargetError, merge_captions, non_empty,
};
use tg_adapter::state::AdapterState;

fn chat() -> Chat {
    Chat { id: String::new(), kind: None, title: None, username: None, extra: vec![] }
}

fn outgoing(content: Vec<ContentItem>) -> Message {
    Message {
        id: Some("local-1".to_string()),
        local_id: None,
        reply_to: Some("99".to_string()),
        content,
        sender: None,
        chat: chat(),
        at: vec![],
        is_admin: false,
        to: Some("-100".to_string()),
        delete_after: Some(Duration::from_secs(3)),
    }
}

fn text(t: &str, f: Option<TextFormat>) -> ContentItem {
    ContentItem::Text { text: t.to_string(), format: f }
}

fn file(id: &str) -> ContentItem {
    ContentItem::File { source: FileSource::Id(id.to_string()), file_name: None, file_id: None }
}

fn event(t: EventType, msg: Option<Message>) -> Event {
    Event {
        event_type: t,
        source: "echo".to_string(),
        data: String::new(),
        command: None,
        message: msg,
        reply_plugin: None,
        target_plugin: None,
        receiver: None,
    }
}

fn ready_state() -> AdapterState<()> {
    let mut s = AdapterState::new();
    s.set_telegram_bot(());
    s
}

#[test]
fn text_only_message_is_one_text_request() {
    let plan = send_message_items(outgoing(vec![text("a", Some(TextFormat::Html)), text("", None), text("b", Some(TextFormat::Html))]));
    assert_eq!(plan.steps, vec![SendStep::Text(FormattedPayload { text: "ab".to_string(), format: Some(TextFormat::Html) })]);
    assert_eq!(plan.reply, Some(ReplyParameters { message_id: 99 }));
    assert_eq!(plan.delete_after, Some(Duration::from_secs(3)));
    assert_eq!(plan.local_id.as_deref(), Some("local-1"));
}

#[test]
fn empty_message_sends_nothing() {
    let plan = send_message_items(outgoing(vec![text("", None), ContentItem::Other { kind: "sticker".to_string(), data: String::new() }]));
    assert!(plan.steps.is_empty());
}

#[test]
fn text_goes_with_the_first_upload() {
    let plan = send_message_items(outgoing(vec![
        ContentItem::Image { source: ImageSource::Id("img".to_string()), file_id: None, caption: Some("own".to_string()) },
        text("hi", Some(TextFormat::Markdown)),
        file("f1"),
    ]));
    assert_eq!(
        plan.steps,
        vec![
            SendStep::Image {
                input: Ok(InputFile { source: InputSource::FileId("img".to_string()), file_name: None }),
                caption: Some(FormattedPayload { text: "hi\nown".to_string(), format: None }),
            },
            SendStep::File {
                input: Ok(InputFile { source: InputSource::FileId("f1".to_string()), file_name: None }),
                caption: None,
            },
        ]
    );
}

#[test]
fn many_files_go_in_groups_of_ten() {
    let files: Vec<ContentItem> = (0..21).map(|i| file(&format!("f{i}"))).collect();
    let mut content = vec![text("cap", None)];
    content.extend(files);
    let plan = send_message_items(outgoing(content));
    assert_eq!(plan.steps.len(), 3);
    match &plan.steps[0] {
        SendStep::MediaGroup { documents: Ok(docs) } => {
            assert_eq!(docs.len(), 10);
            assert_eq!(docs[0].input.source, InputSource::FileId("f0".to_string()));
            assert_eq!(docs[9].caption, Some(FormattedPayload { text: "cap".to_string(), format: None }));
            assert!(docs[..9].iter().all(|d| d.caption.is_none()));
        }
        other => panic!("unexpected step {other:?}"),
    }
    match &plan.steps[1] {
        SendStep::MediaGroup { documents: Ok(docs) } => {
            assert_eq!(docs.len(), 10);
            assert_eq!(docs[0].input.source, InputSource::FileId("f10".to_string()));
            assert!(docs.iter().all(|d| d.caption.is_none()));
        }
        other => panic!("unexpected step {other:?}"),
    }
    assert_eq!(
        plan.steps[2],
        SendStep::File { input: Ok(InputFile { source: InputSource::FileId("f20".to_string()), file_name: None }), caption: None }
    );
}

#[test]
fn group_with_bad_file_fails_as_a_whole() {
    let plan = send_message_items(outgoing(vec![
        file("a"),
        ContentItem::File { source: FileSource::Url("::bad".to_string()), file_name: None, file_id: None },
        ContentItem::File { source: FileSource::Url("also bad".to_string()), file_name: None, file_id: None },
    ]));
    assert_eq!(plan.steps, vec![SendStep::MediaGroup { documents: Err(PrepareError::InvalidFileUrl("::bad".to_string())) }]);
}

#[test]
fn single_file_keeps_text_caption() {
    let plan = send_message_items(outgoing(vec![file("only"), text("t", None)]));
    assert_eq!(
        plan.steps,
        vec![SendStep::File {
            input: Ok(InputFile { source: InputSource::FileId("only".to_string()), file_name: None }),
            caption: Some(FormattedPayload { text: "t".to_string(), format: None }),
        }]
    );
}

#[test]
fn file_inputs_prefer_file_ids_and_parse_urls() {
    assert_eq!(
        input_file_from_source(FileSource::Url("HTTP://Example.COM".to_string()), Some("n.txt".to_string()), Some(String::new())),
        Ok(InputFile { source: InputSource::Url("http://example.com/".to_string()), file_name: Some("n.txt".to_string()) })
    );
    assert_eq!(
        input_file_from_source(FileSource::Path("/tmp/x".to_string()), Some(String::new()), Some("id9".to_string())),
        Ok(InputFile { source: InputSource::FileId("id9".to_string()), file_name: None })
    );
    assert_eq!(
        input_file_from_source(FileSource::Path("/tmp/x".to_string()), None, None),
        Ok(InputFile { source: InputSource::Path("/tmp/x".to_string()), file_name: None })
    );
    assert_eq!(
        input_file_from_source(FileSource::Url("nope".to_string()), None, None),
        Err(PrepareError::InvalidFileUrl("nope".to_string()))
    );
}

#[test]
fn image_inputs_decode_base64_and_check_urls() {
    assert_eq!(
        input_file_from_image(ImageSource::Base64(" aGk= ".to_string()), None),
        Ok(InputFile { source: InputSource::Memory(b"hi".to_vec()), file_name: None })
    );
    assert_eq!(
        input_file_from_image(ImageSource::Base64("data:text/plain,aGk=".to_string()), None),
        Err(PrepareError::InvalidImageData)
    );
    assert_eq!(input_file_from_image(ImageSource::Base64("***".to_string()), None), Err(PrepareError::InvalidImageData));
    assert_eq!(
        input_file_from_image(ImageSource::Url("bad url".to_string()), None),
        Err(PrepareError::InvalidImageUrl("bad url".to_string()))
    );
    assert_eq!(
        input_file_from_image(ImageSource::Url("bad url".to_string()), Some("fid".to_string())),
        Ok(InputFile { source: InputSource::FileId("fid".to_string()), file_name: None })
    );
}

#[test]
fn captions_merge_rules() {
    let p = |t: &str, f| Some(FormattedPayload { text: t.to_string(), format: f });
    assert_eq!(merge_captions(p("same", Some(TextFormat::Html)), Some("same".to_string())), p("same", Some(TextFormat::Html)));
    assert_eq!(merge_captions(p("a", Some(TextFormat::Html)), Some(String::new())), p("a", Some(TextFormat::Html)));
    assert_eq!(merge_captions(None, Some("b".to_string())), p("b", None));
    assert_eq!(merge_captions(None, Some(String::new())), None);
    assert_eq!(non_empty(Some(String::new())), None);
    assert_eq!(non_empty(Some("x".to_string())), Some("x".to_string()));
}

#[test]
fn reply_targets_need_native_ids() {
    assert_eq!(reply_parameters(Some("12")), Some(ReplyParameters { message_id: 12 }));
    assert_eq!(reply_parameters(Some("local-3")), None);
    assert_eq!(reply_parameters(None), None);
}

#[test]
fn outgoing_events_are_checked_before_sending() {
    let state = ready_state();
    assert_eq!(send_event(event(EventType::Message, None), &state), Ok(None));
    let mut no_to = outgoing(vec![text("x", None)]);
    no_to.to = None;
    assert_eq!(send_event(event(EventType::Message, Some(no_to)), &state), Err(SendError::MissingChatId));
    let mut bad_to = outgoing(vec![text("x", None)]);
    bad_to.to = Some("chat".to_string());
    assert_eq!(send_event(event(EventType::Message, Some(bad_to)), &state), Err(SendError::InvalidChatId("chat".to_string())));
    let not_ready: AdapterState<()> = AdapterState::new();
    assert_eq!(send_event(event(EventType::Message, Some(outgoing(vec![]))), &not_ready), Err(SendError::BotNotInitialized));

    let job = send_event(event(EventType::Message, Some(outgoing(vec![text("x", None)]))), &state).unwrap().unwrap();
    assert_eq!(job.chat_id, -100);
    assert_eq!(job.origin, "echo");
    assert!(matches!(job.action, OutgoingAction::Send(_)));

    let job = send_event(event(EventType::Command, Some(outgoing(vec![]))), &state).unwrap().unwrap();
    assert_eq!(job.action, OutgoingAction::Ignore(EventType::Command));
}

#[test]
fn edits_and_deletes_need_native_ids() {
    let mut msg = outgoing(vec![text("new", Some(TextFormat::MarkdownV2)), file("ignored")]);
    msg.id = Some("123".to_string());
    assert_eq!(
        edit_message_item(&msg).map(|p| (p.message_id, p.payload)),
        Ok((123, FormattedPayload { text: "new".to_string(), format: Some(TextFormat::MarkdownV2) }))
    );
    assert_eq!(delete_message_item(&msg), Ok(123));
    let mut no_text = outgoing(vec![file("f")]);
    no_text.id = Some("5".to_string());
    assert_eq!(edit_message_item(&no_text), Err(TargetError::NoTextContent));
    let local = outgoing(vec![text("x", None)]);
    assert_eq!(edit_message_item(&local), Err(TargetError::NonNativeMessageId("local-1".to_string())));
    assert_eq!(delete_message_item(&local), Err(TargetError::NonNativeMessageId("local-1".to_string())));
    let mut none = outgoing(vec![]);
    none.id = None;
    assert_eq!(delete_message_item(&none), Err(TargetError::MissingMessageId));
    assert_eq!(edit_message_item(&none), Err(TargetError::MissingMessageId));

    let state = ready_state();
    let job = send_event(event(EventType::MessageDelete, Some(msg)), &state).unwrap().unwrap();
    assert_eq!(job.action, OutgoingAction::Delete(Ok(123)));
}

#[test]
fn sent_message_is_reported_to_its_origin() {
    assert_eq!(emit_message_sent_if_needed("echo", -100, None, Some(5)), None);
    assert_eq!(emit_message_sent_if_needed("echo", -100, Some("l1"), None), None);
    let ev = emit_message_sent_if_needed("echo", -100, Some("l1"), Some(5)).unwrap();
    assert_eq!(ev.event_type, EventType::MessageSent);
    assert_eq!(ev.source, "TGAdapter");
    assert_eq!(ev.receiver.as_deref(), Some("echo"));
    let m = ev.message.unwrap();
    assert_eq!(m.id.as_deref(), Some("5"));
    assert_eq!(m.local_id.as_deref(), Some("l1"));
    assert_eq!(m.to.as_deref(), Some("-100"));
}
