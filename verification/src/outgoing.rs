//! Outgoing events: how the text of a message is gathered into one
//! formatted payload, how captions are merged, how files and images are
//! prepared for upload, which requests send a message, and what an outgoing
//! event asks of Telegram (send, edit, delete) or why it is refused.
use std::time::Duration;

use vstd::prelude::*;

use crate::decimal::{
    i32_to_decimal, i64_to_decimal, int_decimal, parse_i32, parse_i32_spec, parse_i64,
    parse_i64_spec,
};
use crate::event::{ContentItem, Event, EventType, FileSource, ImageSource, Message, TextFormat};
use crate::external::{
    base64_standard_decode, decode_base64_standard, parse_url, push_char, url_parse,
};
use crate::state::AdapterState;
use crate::text::{contains_str, find_char, has_substring, opt_view, str_eq, trim, trim_seq};

verus! {

broadcast use vstd::seq_lib::group_seq_properties;

// ---------------------------------------------------------------------------
// Gathering text
// ---------------------------------------------------------------------------

/// What an [`OutgoingText`] has gathered: the text so far, the first format
/// seen while all text was formatted, whether plain text was seen, and
/// whether two formats (or a format and plain text) were mixed.
pub struct TextState {
    pub text: Seq<char>,
    pub format: Option<TextFormat>,
    pub has_plain: bool,
    pub mixed: bool,
}

/// The state before any text is gathered.
pub open spec fn empty_text_state() -> TextState {
    TextState { text: Seq::empty(), format: None, has_plain: false, mixed: false }
}

/// The state after gathering `text` in `format`; empty text changes nothing.
pub open spec fn push_spec(st: TextState, text: Seq<char>, format: Option<TextFormat>) -> TextState {
    if text.len() == 0 {
        st
    } else {
        match format {
            Some(f) => if !st.has_plain {
                match st.format {
                    Some(e) => TextState {
                        text: st.text + text,
                        format: st.format,
                        has_plain: st.has_plain,
                        mixed: st.mixed || e != f,
                    },
                    None => TextState {
                        text: st.text + text,
                        format: Some(f),
                        has_plain: st.has_plain,
                        mixed: st.mixed,
                    },
                }
            } else {
                TextState {
                    text: st.text + text,
                    format: st.format,
                    has_plain: st.has_plain,
                    mixed: true,
                }
            },
            None => TextState {
                text: st.text + text,
                format: st.format,
                has_plain: true,
                mixed: st.mixed || st.format is Some,
            },
        }
    }
}

/// The format that the gathered text is sent in: the single format of all
/// of it, or none when formats were mixed or plain text was seen.
pub open spec fn payload_format(st: TextState) -> Option<TextFormat> {
    if !st.mixed && !st.has_plain {
        st.format
    } else {
        None
    }
}

/// The state after gathering each of `pieces` in turn.
pub open spec fn gather(pieces: Seq<(Seq<char>, Option<TextFormat>)>) -> TextState
    decreases pieces.len(),
{
    if pieces.len() == 0 {
        empty_text_state()
    } else {
        push_spec(gather(pieces.drop_last()), pieces.last().0, pieces.last().1)
    }
}

/// The texts of `pieces`, one after another.
pub open spec fn concat_texts(pieces: Seq<(Seq<char>, Option<TextFormat>)>) -> Seq<char>
    decreases pieces.len(),
{
    if pieces.len() == 0 {
        Seq::empty()
    } else {
        concat_texts(pieces.drop_last()) + pieces.last().0
    }
}

/// The formats of the pieces whose text is not empty, in order.
pub open spec fn nonempty_formats(pieces: Seq<(Seq<char>, Option<TextFormat>)>) -> Seq<
    Option<TextFormat>,
>
    decreases pieces.len(),
{
    if pieces.len() == 0 {
        Seq::empty()
    } else {
        let fs = nonempty_formats(pieces.drop_last());
        if pieces.last().0.len() > 0 {
            fs.push(pieces.last().1)
        } else {
            fs
        }
    }
}

/// The format shared by every non-empty piece, if there is one such piece
/// and they all have the same format; `None` otherwise.
pub open spec fn uniform_format(pieces: Seq<(Seq<char>, Option<TextFormat>)>) -> Option<
    TextFormat,
> {
    let fs = nonempty_formats(pieces);
    if fs.len() > 0 && forall|i: int| 0 <= i < fs.len() ==> #[trigger] fs[i] == fs[0] {
        fs[0]
    } else {
        None
    }
}

/// Text gathered from the text items of an outgoing message.
pub struct OutgoingText {
    text: String,
    format: Option<TextFormat>,
    has_plain: bool,
    mixed_formats: bool,
}

impl View for OutgoingText {
    type V = TextState;

    closed spec fn view(&self) -> TextState {
        TextState {
            text: self.text@,
            format: self.format,
            has_plain: self.has_plain,
            mixed: self.mixed_formats,
        }
    }
}

/// Text with the format it is to be sent in.
#[derive(Clone, Debug, PartialEq, Eq)]
pub struct FormattedPayload {
    pub text: String,
    pub format: Option<TextFormat>,
}

/// The text and format of an optional payload.
pub open spec fn payload_view(p: Option<FormattedPayload>) -> Option<(Seq<char>, Option<TextFormat>)> {
    match p {
        Some(p) => Some((p.text@, p.format)),
        None => None,
    }
}

/// What [`OutgoingText::into_payload`] gives for a state: nothing when no
/// text was gathered, else the text in its payload format.
pub open spec fn payload_of(st: TextState) -> Option<(Seq<char>, Option<TextFormat>)> {
    if st.text.len() == 0 {
        None
    } else {
        Some((st.text, payload_format(st)))
    }
}

impl OutgoingText {
    /// Nothing gathered yet.
    pub fn new() -> (r: OutgoingText)
        ensures
            r@ == empty_text_state(),
    {
        OutgoingText { text: String::new(), format: None, has_plain: false, mixed_formats: false }
    }

    /// Gathers one text item.
    pub fn push_text(&mut self, text: String, format: Option<TextFormat>)
        ensures
            final(self)@ == push_spec(old(self)@, text@, format),
    {
        self.push(text, format);
    }

    /// Gathers `text` in `format`: the text is appended, and the format is
    /// kept while all text shares it; empty text is ignored.
    pub fn push(&mut self, text: String, format: Option<TextFormat>)
        ensures
            final(self)@ == push_spec(old(self)@, text@, format),
    {
        if text.as_str().unicode_len() == 0 {
            return;
        }
        match format {
            Some(f) => {
                if !self.has_plain {
                    match self.format {
                        Some(existing) => {
                            self.mixed_formats = self.mixed_formats || existing != f;
                        },
                        None => {
                            self.format = Some(f);
                        },
                    }
                } else {
                    self.mixed_formats = true;
                }
            },
            None => {
                if self.format.is_some() {
                    self.mixed_formats = true;
                }
                self.has_plain = true;
            },
        }
        self.text.append(text.as_str());
    }

    /// The gathered text as one payload, or `None` when there is none.
    pub fn into_payload(self) -> (r: Option<FormattedPayload>)
        ensures
            payload_view(r) == payload_of(self@),
    {
        if self.text.as_str().unicode_len() == 0 {
            None
        } else {
            let format = if !self.mixed_formats && !self.has_plain {
                self.format
            } else {
                None
            };
            Some(FormattedPayload { text: self.text, format })
        }
    }
}

proof fn lemma_gather_invariant(pieces: Seq<(Seq<char>, Option<TextFormat>)>)
    ensures
        ({
            let st = gather(pieces);
            let fs = nonempty_formats(pieces);
            &&& st.text == concat_texts(pieces)
            &&& st.has_plain == fs.contains(None)
            &&& fs.len() == 0 ==> st.format is None && !st.mixed
            &&& (!st.has_plain && fs.len() > 0) ==> st.format == fs[0]
            &&& (!st.mixed && !st.has_plain) ==> forall|i: int|
                0 <= i < fs.len() ==> #[trigger] fs[i] == fs[0]
            &&& st.mixed ==> exists|i: int, j: int|
                0 <= i < fs.len() && 0 <= j < fs.len() && #[trigger] fs[i] != #[trigger] fs[j]
            &&& st.format matches Some(e) ==> fs.contains(Some(e))
        }),
    decreases pieces.len(),
{
    if pieces.len() > 0 {
        let p = pieces.drop_last();
        let x = pieces.last();
        lemma_gather_invariant(p);
        let st = gather(p);
        let fs = nonempty_formats(p);
        let st2 = gather(pieces);
        let fs2 = nonempty_formats(pieces);
        if x.0.len() == 0 {
            assert(st2 == st);
            assert(fs2 == fs);
            assert(st2.text =~= concat_texts(pieces));
        } else {
            assert(fs2 == fs.push(x.1));
            assert(st2.text =~= concat_texts(pieces));
            assert(fs2[fs.len() as int] == x.1);
            assert forall|i: int| 0 <= i < fs.len() implies #[trigger] fs2[i] == fs[i] by {}
            match x.1 {
                Some(f) => {
                    if !st.has_plain {
                        assert(!fs.contains(None));
                        match st.format {
                            Some(e) => {
                                assert(fs.len() > 0);
                                if st2.mixed {
                                    if !st.mixed {
                                        assert(fs2[0] != fs2[fs.len() as int]);
                                    } else {
                                        let (i, j) = choose|i: int, j: int|
                                            0 <= i < fs.len() && 0 <= j < fs.len() && #[trigger] fs[i]
                                                != #[trigger] fs[j];
                                        assert(fs2[i] != fs2[j]);
                                    }
                                }
                                assert(!fs2.contains(None)) by {
                                    if fs2.contains(None) {
                                        let k = choose|k: int| 0 <= k < fs2.len() && fs2[k] == None::<TextFormat>;
                                        if k < fs.len() {
                                            assert(fs[k] == None::<TextFormat>);
                                        }
                                    }
                                }
                                let ke = choose|k: int| 0 <= k < fs.len() && fs[k] == Some(e);
                                assert(fs2[ke] == Some(e));
                            },
                            None => {
                                if fs.len() > 0 {
                                    assert(fs.contains(fs[0]));
                                    assert(fs[0] is Some);
                                }
                                assert(fs.len() == 0);
                                assert(fs2[0] == Some(f));
                                assert(!fs2.contains(None)) by {
                                    if fs2.contains(None) {
                                        let k = choose|k: int| 0 <= k < fs2.len() && fs2[k] == None::<TextFormat>;
                                    }
                                }
                            },
                        }
                    } else {
                        let k = choose|k: int| 0 <= k < fs.len() && fs[k] == None::<TextFormat>;
                        assert(fs2[k] != fs2[fs.len() as int]);
                        assert(fs2.contains(None)) by {
                            assert(fs2[k] == None::<TextFormat>);
                        }
                        if let Some(e) = st.format {
                            let ke = choose|k: int| 0 <= k < fs.len() && fs[k] == Some(e);
                            assert(fs2[ke] == Some(e));
                        }
                    }
                },
                None => {
                    assert(fs2.contains(None)) by {
                        assert(fs2[fs.len() as int] == None::<TextFormat>);
                    }
                    if st2.mixed {
                        if st.mixed {
                            let (i, j) = choose|i: int, j: int|
                                0 <= i < fs.len() && 0 <= j < fs.len() && #[trigger] fs[i]
                                    != #[trigger] fs[j];
                            assert(fs2[i] != fs2[j]);
                        } else {
                            let e = st.format.unwrap();
                            let ke = choose|k: int| 0 <= k < fs.len() && fs[k] == Some(e);
                            assert(fs2[ke] != fs2[fs.len() as int]);
                        }
                    }
                    if let Some(e) = st.format {
                        let ke = choose|k: int| 0 <= k < fs.len() && fs[k] == Some(e);
                        assert(fs2[ke] == Some(e));
                    }
                },
            }
        }
    }
}

/// Gathering text items one after another yields all their texts, in order,
/// in the one format that every non-empty item shares; where the non-empty
/// items disagree, or some have no format, the payload has no format.
pub proof fn law_gathered_text_format(pieces: Seq<(Seq<char>, Option<TextFormat>)>)
    ensures
        gather(pieces).text == concat_texts(pieces),
        payload_format(gather(pieces)) == uniform_format(pieces),
{
    lemma_gather_invariant(pieces);
    let st = gather(pieces);
    let fs = nonempty_formats(pieces);
    if fs.len() > 0 && st.has_plain && !st.mixed {
        let k = choose|k: int| 0 <= k < fs.len() && fs[k] == None::<TextFormat>;
        if forall|i: int| 0 <= i < fs.len() ==> #[trigger] fs[i] == fs[0] {
            assert(fs[k] == fs[0]);
        }
    }
    if st.mixed && fs.len() > 0 {
        let (i, j) = choose|i: int, j: int|
            0 <= i < fs.len() && 0 <= j < fs.len() && #[trigger] fs[i] != #[trigger] fs[j];
        if forall|i: int| 0 <= i < fs.len() ==> #[trigger] fs[i] == fs[0] {
            assert(fs[i] == fs[0]);
            assert(fs[j] == fs[0]);
        }
    }
    if st.has_plain && st.mixed && fs.len() > 0 {
        let k = choose|k: int| 0 <= k < fs.len() && fs[k] == None::<TextFormat>;
        if forall|i: int| 0 <= i < fs.len() ==> #[trigger] fs[i] == fs[0] {
            assert(fs[k] == fs[0]);
        }
    }
}

// ---------------------------------------------------------------------------
// Captions
// ---------------------------------------------------------------------------

/// The caption of an image that also carries the message's text: the text
/// alone when the image's caption is the same (or empty), both on two lines
/// (without format) when they differ.
pub open spec fn merge_spec(
    first: Option<(Seq<char>, Option<TextFormat>)>,
    second: Option<Seq<char>>,
) -> Option<(Seq<char>, Option<TextFormat>)> {
    let second = match second {
        Some(s) => if s.len() > 0 {
            Some(s)
        } else {
            None
        },
        None => None,
    };
    match (first, second) {
        (Some(f), Some(s)) => if f.0 == s {
            Some(f)
        } else {
            Some((f.0 + seq!['\n'] + s, None))
        },
        (Some(f), None) => Some(f),
        (None, Some(s)) => Some((s, None)),
        (None, None) => None,
    }
}

/// Merges the message's text with an image's own caption.
pub fn merge_captions(first: Option<FormattedPayload>, second: Option<String>) -> (r: Option<
    FormattedPayload,
>)
    ensures
        payload_view(r) == merge_spec(payload_view(first), opt_view(second)),
{
    let second = non_empty(second);
    match (first, second) {
        (Some(first), Some(second)) => {
            if str_eq(first.text.as_str(), second.as_str()) {
                Some(first)
            } else {
                let mut text = first.text;
                push_char(&mut text, '\n');
                text.append(second.as_str());
                Some(FormattedPayload { text, format: None })
            }
        },
        (Some(first), None) => Some(first),
        (None, Some(second)) => Some(FormattedPayload { text: second, format: None }),
        (None, None) => None,
    }
}

/// `value` unless it is empty.
pub fn non_empty(value: Option<String>) -> (r: Option<String>)
    ensures
        opt_view(r) == match opt_view(value) {
            Some(s) => if s.len() > 0 {
                Some(s)
            } else {
                None
            },
            None => None,
        },
{
    match value {
        Some(v) => if v.as_str().unicode_len() > 0 {
            Some(v)
        } else {
            None
        },
        None => None,
    }
}

/// The message that an outgoing message replies to.
#[derive(Clone, Copy, Debug, PartialEq, Eq)]
pub struct ReplyParameters {
    pub message_id: i32,
}

/// The reply target for `reply_to`, when it is a native Telegram message id.
pub fn reply_parameters(reply_to: Option<&str>) -> (r: Option<ReplyParameters>)
    ensures
        match reply_to {
            Some(s) => match parse_i32_spec(s@) {
                Some(id) => r == Some(ReplyParameters { message_id: id }),
                None => r is None,
            },
            None => r is None,
        },
{
    match reply_to {
        Some(s) => match parse_i32(s) {
            Some(id) => Some(ReplyParameters { message_id: id }),
            None => None,
        },
        None => None,
    }
}

// ---------------------------------------------------------------------------
// Preparing files and images
// ---------------------------------------------------------------------------

/// Why a file or image cannot be prepared for upload.
#[derive(Clone, Debug, PartialEq, Eq)]
pub enum PrepareError {
    InvalidFileUrl(String),
    InvalidImageUrl(String),
    InvalidImageData,
}

/// Where the content of an upload comes from: a file already on Telegram's
/// servers, a local path, a URL (in its parsed, serialized form) or bytes.
#[derive(Clone, Debug, PartialEq, Eq)]
pub enum InputSource {
    FileId(String),
    Path(String),
    Url(String),
    Memory(Vec<u8>),
}

/// An upload: its source and the file name to give it.
#[derive(Clone, Debug, PartialEq, Eq)]
pub struct InputFile {
    pub source: InputSource,
    pub file_name: Option<String>,
}

/// The characters (or bytes) of an upload's source.
pub enum SourceView {
    FileId(Seq<char>),
    Path(Seq<char>),
    Url(Seq<char>),
    Memory(Seq<u8>),
}

/// The characters of a preparation error.
pub enum ErrorView {
    InvalidFileUrl(Seq<char>),
    InvalidImageUrl(Seq<char>),
    InvalidImageData,
}

/// The outcome of preparing an upload.
pub enum PreparedView {
    Ready(SourceView, Option<Seq<char>>),
    Failed(ErrorView),
}

/// The characters (or bytes) of an upload's source.
pub open spec fn source_view(s: InputSource) -> SourceView {
    match s {
        InputSource::FileId(id) => SourceView::FileId(id@),
        InputSource::Path(p) => SourceView::Path(p@),
        InputSource::Url(u) => SourceView::Url(u@),
        InputSource::Memory(b) => SourceView::Memory(b@),
    }
}

/// The characters of a preparation error.
pub open spec fn error_view(e: PrepareError) -> ErrorView {
    match e {
        PrepareError::InvalidFileUrl(u) => ErrorView::InvalidFileUrl(u@),
        PrepareError::InvalidImageUrl(u) => ErrorView::InvalidImageUrl(u@),
        PrepareError::InvalidImageData => ErrorView::InvalidImageData,
    }
}

/// A prepared upload.
pub open spec fn input_view(f: InputFile) -> PreparedView {
    PreparedView::Ready(source_view(f.source), opt_view(f.file_name))
}

/// The outcome of a preparation.
pub open spec fn prepared_view(r: Result<InputFile, PrepareError>) -> PreparedView {
    match r {
        Ok(f) => input_view(f),
        Err(e) => PreparedView::Failed(error_view(e)),
    }
}

/// An optional text, unless it is empty.
pub open spec fn nonempty_text(o: Option<Seq<char>>) -> Option<Seq<char>> {
    match o {
        Some(s) => if s.len() > 0 {
            Some(s)
        } else {
            None
        },
        None => None,
    }
}

/// How a file item is uploaded: by its Telegram file id when it has one,
/// else from its source (a URL must parse); with its file name, if any.
pub open spec fn file_input_spec(
    source: FileSource,
    file_name: Option<String>,
    file_id: Option<String>,
) -> PreparedView {
    let name = nonempty_text(opt_view(file_name));
    match nonempty_text(opt_view(file_id)) {
        Some(id) => PreparedView::Ready(SourceView::FileId(id), name),
        None => match source {
            FileSource::Id(id) => PreparedView::Ready(SourceView::FileId(id@), name),
            FileSource::Path(p) => PreparedView::Ready(SourceView::Path(p@), name),
            FileSource::Url(u) => match url_parse(u@) {
                Some(parsed) => PreparedView::Ready(SourceView::Url(parsed), name),
                None => PreparedView::Failed(ErrorView::InvalidFileUrl(u@)),
            },
        },
    }
}

/// The part of image data that holds the base64 text: what follows the
/// first comma when the part before it mentions `base64` (a data URL),
/// else all of it.
pub open spec fn base64_payload(data: Seq<char>) -> Seq<char> {
    match data.index_of_first(',') {
        Some(i) => if has_substring(data.take(i), "base64"@) {
            data.skip(i + 1)
        } else {
            data
        },
        None => data,
    }
}

/// The bytes of base64 image data (plain or a data URL), if it decodes.
pub open spec fn decode_image_spec(data: Seq<char>) -> Option<Seq<u8>> {
    base64_standard_decode(trim_seq(base64_payload(data)))
}

/// How an image item is uploaded: by its Telegram file id when it has one,
/// else from its source (a URL must parse, base64 data must decode).
pub open spec fn image_input_spec(source: ImageSource, file_id: Option<String>) -> PreparedView {
    match nonempty_text(opt_view(file_id)) {
        Some(id) => PreparedView::Ready(SourceView::FileId(id), None),
        None => match source {
            ImageSource::Id(id) => PreparedView::Ready(SourceView::FileId(id@), None),
            ImageSource::Url(u) => match url_parse(u@) {
                Some(parsed) => PreparedView::Ready(SourceView::Url(parsed), None),
                None => PreparedView::Failed(ErrorView::InvalidImageUrl(u@)),
            },
            ImageSource::Path(p) => PreparedView::Ready(SourceView::Path(p@), None),
            ImageSource::Base64(data) => match decode_image_spec(data@) {
                Some(bytes) => PreparedView::Ready(SourceView::Memory(bytes), None),
                None => PreparedView::Failed(ErrorView::InvalidImageData),
            },
        },
    }
}

/// Prepares a file item for upload.
pub fn input_file_from_source(
    source: FileSource,
    file_name: Option<String>,
    file_id: Option<String>,
) -> (r: Result<InputFile, PrepareError>)
    ensures
        prepared_view(r) == file_input_spec(source, file_name, file_id),
{
    let input = match non_empty(file_id) {
        Some(id) => InputSource::FileId(id),
        None => match source {
            FileSource::Id(id) => InputSource::FileId(id),
            FileSource::Path(path) => InputSource::Path(path),
            FileSource::Url(url) => match parse_url(url.as_str()) {
                Some(parsed) => InputSource::Url(parsed),
                None => {
                    return Err(PrepareError::InvalidFileUrl(url));
                },
            },
        },
    };
    Ok(InputFile { source: input, file_name: non_empty(file_name) })
}

/// Prepares an image item for upload.
pub fn input_file_from_image(source: ImageSource, file_id: Option<String>) -> (r: Result<
    InputFile,
    PrepareError,
>)
    ensures
        prepared_view(r) == image_input_spec(source, file_id),
{
    if let Some(id) = non_empty(file_id) {
        return Ok(InputFile { source: InputSource::FileId(id), file_name: None });
    }
    match source {
        ImageSource::Id(id) => Ok(InputFile { source: InputSource::FileId(id), file_name: None }),
        ImageSource::Url(url) => match parse_url(url.as_str()) {
            Some(parsed) => Ok(InputFile { source: InputSource::Url(parsed), file_name: None }),
            None => Err(PrepareError::InvalidImageUrl(url)),
        },
        ImageSource::Path(path) => Ok(InputFile { source: InputSource::Path(path), file_name: None }),
        ImageSource::Base64(data) => match decode_base64_image(data.as_str()) {
            Ok(bytes) => Ok(InputFile { source: InputSource::Memory(bytes), file_name: None }),
            Err(e) => Err(e),
        },
    }
}

/// Decodes base64 image data, plain or as a data URL
/// (`data:image/png;base64,...`).
pub fn decode_base64_image(data: &str) -> (r: Result<Vec<u8>, PrepareError>)
    ensures
        match r {
            Ok(bytes) => decode_image_spec(data@) == Some(bytes@),
            Err(e) => decode_image_spec(data@) is None && e == PrepareError::InvalidImageData,
        },
{
    let n = data.unicode_len();
    let encoded: &str = match find_char(data, ',') {
        Some(i) => {
            proof {
                data@.index_of_first_ensures(',');
            }
            let prefix = data.substring_char(0, i);
            assert(prefix@ =~= data@.take(i as int));
            if contains_str(prefix, "base64") {
                let rest = data.substring_char(i + 1, n);
                assert(rest@ =~= data@.skip(i + 1));
                rest
            } else {
                data
            }
        },
        None => data,
    };
    assert(encoded@ == base64_payload(data@));
    let trimmed = trim(encoded);
    match decode_base64_standard(trimmed) {
        Some(bytes) => Ok(bytes),
        None => Err(PrepareError::InvalidImageData),
    }
}

// ---------------------------------------------------------------------------
// Planning the sending of a message
// ---------------------------------------------------------------------------

/// A document of a media group, with the caption it carries.
#[derive(Clone, Debug, PartialEq, Eq)]
pub struct MediaDocument {
    pub input: InputFile,
    pub caption: Option<FormattedPayload>,
}

/// One request to Telegram when sending a message: a text message, a
/// document, a photo, or a group of documents. An upload that could not be
/// prepared is carried as its error; the request is then not made.
#[derive(Debug, PartialEq, Eq)]
pub enum SendStep {
    Text(FormattedPayload),
    File { input: Result<InputFile, PrepareError>, caption: Option<FormattedPayload> },
    Image { input: Result<InputFile, PrepareError>, caption: Option<FormattedPayload> },
    MediaGroup { documents: Result<Vec<MediaDocument>, PrepareError> },
}

/// How a message is sent: its requests in order, the message it replies
/// to, how long what is sent lives, and the sender's own id for it.
#[derive(Debug, PartialEq, Eq)]
pub struct MessagePlan {
    pub steps: Vec<SendStep>,
    pub reply: Option<ReplyParameters>,
    pub delete_after: Option<Duration>,
    pub local_id: Option<String>,
}

/// Text and format.
pub type PayloadView = (Seq<char>, Option<TextFormat>);

/// A document of a media group: its source, file name and caption.
pub type DocView = (SourceView, Option<Seq<char>>, Option<PayloadView>);

/// The content of a send request.
pub enum StepView {
    Text(PayloadView),
    File(PreparedView, Option<PayloadView>),
    Image(PreparedView, Option<PayloadView>),
    Group(Result<Seq<DocView>, ErrorView>),
}

/// A group document's source, file name and caption.
pub open spec fn doc_view(d: MediaDocument) -> DocView {
    (source_view(d.input.source), opt_view(d.input.file_name), payload_view(d.caption))
}

/// The content of a send request.
pub open spec fn step_view(s: SendStep) -> StepView {
    match s {
        SendStep::Text(p) => StepView::Text((p.text@, p.format)),
        SendStep::File { input, caption } => StepView::File(
            prepared_view(input),
            payload_view(caption),
        ),
        SendStep::Image { input, caption } => StepView::Image(
            prepared_view(input),
            payload_view(caption),
        ),
        SendStep::MediaGroup { documents } => StepView::Group(
            match documents {
                Ok(d) => Ok(d@.map_values(|m: MediaDocument| doc_view(m))),
                Err(e) => Err(error_view(e)),
            },
        ),
    }
}

/// The contents of send requests, in order.
pub open spec fn steps_view(steps: Seq<SendStep>) -> Seq<StepView> {
    steps.map_values(|s: SendStep| step_view(s))
}

/// The text and format of a text item.
pub open spec fn text_piece(item: ContentItem) -> Option<PayloadView> {
    match item {
        ContentItem::Text { text, format } => Some((text@, format)),
        _ => None,
    }
}

/// Whether an item is uploaded (a file or an image).
pub open spec fn is_attachment(item: ContentItem) -> bool {
    item is File || item is Image
}

/// The text items of a message's content, in order.
pub open spec fn message_pieces(content: Seq<ContentItem>) -> Seq<PayloadView> {
    content.filter_map(|item: ContentItem| text_piece(item))
}

/// The uploaded items of a message's content, in order.
pub open spec fn message_attachments(content: Seq<ContentItem>) -> Seq<ContentItem> {
    content.filter(|item: ContentItem| is_attachment(item))
}

/// The text of a message's content as one payload.
pub open spec fn message_caption(content: Seq<ContentItem>) -> Option<PayloadView> {
    payload_of(gather(message_pieces(content)))
}

/// How a file item is prepared.
pub open spec fn file_item_input(item: ContentItem) -> PreparedView {
    match item {
        ContentItem::File { source, file_name, file_id } => file_input_spec(
            source,
            file_name,
            file_id,
        ),
        _ => PreparedView::Failed(ErrorView::InvalidImageData),
    }
}

/// The request that sends one uploaded item on its own: a file with the
/// given caption, or an image with the caption merged into its own.
pub open spec fn item_step(item: ContentItem, caption: Option<PayloadView>) -> StepView {
    match item {
        ContentItem::Image { source, file_id, caption: own } => StepView::Image(
            image_input_spec(source, file_id),
            merge_spec(caption, opt_view(own)),
        ),
        _ => StepView::File(file_item_input(item), caption),
    }
}

/// The requests that send uploaded items one by one; the message's text
/// goes with the first of them.
pub open spec fn item_steps(atts: Seq<ContentItem>, caption: Option<PayloadView>) -> Seq<StepView> {
    Seq::new(
        atts.len(),
        |i: int|
            item_step(
                atts[i],
                if i == 0 {
                    caption
                } else {
                    None
                },
            ),
    )
}

/// The largest number of documents in one media group.
pub open spec fn group_size() -> int {
    10
}

/// How many media groups `n` files take.
pub open spec fn chunk_count(n: int) -> int {
    (n + group_size() - 1) / group_size()
}

/// The files of the `k`-th media group: ten at a time, the rest in the last.
pub open spec fn chunk(files: Seq<ContentItem>, k: int) -> Seq<ContentItem> {
    let start = k * group_size();
    let end = if start + group_size() <= files.len() {
        start + group_size()
    } else {
        files.len() as int
    };
    files.subrange(start, end)
}

/// Media groups split the files without loss or reordering: every file
/// lands, at its place, in exactly the group its position names; every
/// group holds one to ten files.
pub proof fn law_media_groups_partition(files: Seq<ContentItem>)
    ensures
        forall|k: int|
            0 <= k < chunk_count(files.len() as int) ==> 1 <= #[trigger] chunk(files, k).len()
                <= group_size(),
        forall|i: int|
            0 <= i < files.len() ==> #[trigger] chunk(files, i / group_size())[i % group_size()]
                == files[i],
        chunk_count(files.len() as int) * group_size() >= files.len(),
        files.len() > 0 ==> (chunk_count(files.len() as int) - 1) * group_size() < files.len(),
{
    let n = files.len() as int;
    assert forall|k: int| 0 <= k < chunk_count(n) implies 1 <= #[trigger] chunk(files, k).len()
        <= group_size() by {
        assert(k * 10 < n) by (nonlinear_arith)
            requires
                0 <= k < (n + 9) / 10,
                n >= 0,
        ;
    }
    assert forall|i: int| 0 <= i < n implies #[trigger] chunk(files, i / group_size())[i
        % group_size()] == files[i] by {
        assert((i / 10) * 10 + i % 10 == i) by (nonlinear_arith);
        assert(0 <= i % 10 < 10) by (nonlinear_arith);
    }
    assert(((n + 9) / 10) * 10 >= n) by (nonlinear_arith)
        requires
            n >= 0,
    ;
    if n > 0 {
        assert((((n + 9) / 10) - 1) * 10 < n) by (nonlinear_arith)
            requires
                n > 0,
        ;
    }
}

/// Whether a file item cannot be prepared.
pub open spec fn file_failed(item: ContentItem) -> bool {
    file_item_input(item) is Failed
}

/// The error of a file item that cannot be prepared.
pub open spec fn failure_of(item: ContentItem) -> ErrorView {
    match file_item_input(item) {
        PreparedView::Failed(e) => e,
        PreparedView::Ready(..) => ErrorView::InvalidImageData,
    }
}

/// A prepared file item as a group document with the given caption.
pub open spec fn doc_spec(item: ContentItem, caption: Option<PayloadView>) -> DocView {
    match file_item_input(item) {
        PreparedView::Ready(src, name) => (src, name, caption),
        PreparedView::Failed(_) => (SourceView::Path(Seq::empty()), None, caption),
    }
}

/// The position of the first file item that cannot be prepared.
pub open spec fn first_failure(files: Seq<ContentItem>) -> int {
    choose|i: int|
        0 <= i < files.len() && #[trigger] file_failed(files[i]) && forall|j: int|
            0 <= j < i ==> !#[trigger] file_failed(files[j])
}

/// The documents of a media group, the caption on the last; or the error of
/// the first file that cannot be prepared.
pub open spec fn group_docs_spec(files: Seq<ContentItem>, caption: Option<PayloadView>) -> Result<
    Seq<DocView>,
    ErrorView,
> {
    if exists|i: int| 0 <= i < files.len() && #[trigger] file_failed(files[i]) {
        Err(failure_of(files[first_failure(files)]))
    } else {
        Ok(
            Seq::new(
                files.len(),
                |i: int|
                    doc_spec(
                        files[i],
                        if i == files.len() - 1 {
                            caption
                        } else {
                            None
                        },
                    ),
            ),
        )
    }
}

/// The request for one media group; a group of one file is sent as a
/// plain file.
pub open spec fn chunk_step(files: Seq<ContentItem>, caption: Option<PayloadView>) -> StepView {
    if files.len() == 1 {
        StepView::File(file_item_input(files[0]), caption)
    } else {
        StepView::Group(group_docs_spec(files, caption))
    }
}

/// The requests that send files as media groups of up to ten; the
/// message's text goes with the first group.
pub open spec fn group_steps(files: Seq<ContentItem>, caption: Option<PayloadView>) -> Seq<
    StepView,
> {
    Seq::new(
        chunk_count(files.len() as int) as nat,
        |k: int| chunk_step(chunk(files, k), group_caption(k, caption)),
    )
}

/// The caption of the `k`-th media group: the message's text on the first.
pub open spec fn group_caption(k: int, caption: Option<PayloadView>) -> Option<PayloadView> {
    if k == 0 {
        caption
    } else {
        None
    }
}

/// Whether all items are files.
pub open spec fn all_files(items: Seq<ContentItem>) -> bool {
    forall|i: int| 0 <= i < items.len() ==> #[trigger] items[i] is File
}

/// The requests that send a message's content: its text alone when nothing
/// is uploaded; media groups when several files (and nothing else) are;
/// else each upload on its own, the text going with the first.
pub open spec fn plan_steps(content: Seq<ContentItem>) -> Seq<StepView> {
    let atts = message_attachments(content);
    let caption = message_caption(content);
    if atts.len() == 0 {
        match caption {
            Some(p) => seq![StepView::Text(p)],
            None => Seq::empty(),
        }
    } else if atts.len() > 1 && all_files(atts) {
        group_steps(atts, caption)
    } else {
        item_steps(atts, caption)
    }
}

/// Sends one group of files: a single file on its own, several as a media
/// group whose last document carries the caption.
pub fn send_file_media_group(files: Vec<ContentItem>, caption: Option<FormattedPayload>) -> (r:
    SendStep)
    requires
        files@.len() >= 1,
        all_files(files@),
    ensures
        step_view(r) == chunk_step(files@, payload_view(caption)),
{
    let ghost orig = files@;
    let ghost cap = payload_view(caption);
    let mut rest = files;
    let n = rest.len();
    if n == 1 {
        let item = rest.remove(0);
        match item {
            ContentItem::File { source, file_name, file_id } => {
                return SendStep::File {
                    input: input_file_from_source(source, file_name, file_id),
                    caption,
                };
            },
            _ => {
                proof {
                    assert(orig[0] is File);
                }
                return SendStep::File { input: Err(PrepareError::InvalidImageData), caption };
            },
        }
    }
    let mut documents: Vec<MediaDocument> = Vec::new();
    let mut pending = caption;
    let mut idx: usize = 0;
    while idx < n
        invariant
            n == orig.len(),
            n >= 2,
            idx <= n - 1,
            all_files(orig),
            orig == files@,
            cap == payload_view(caption),
            rest@ == orig.skip(idx as int),
            documents@.len() == idx,
            forall|j: int| 0 <= j < idx ==> !#[trigger] file_failed(orig[j]),
            forall|j: int|
                0 <= j < idx ==> #[trigger] doc_view(documents@[j]) == doc_spec(orig[j], None),
            payload_view(pending) == cap,
        decreases n - idx,
    {
        assert(rest@[0] == orig[idx as int]);
        let item = rest.remove(0);
        assert(rest@ =~= orig.skip(idx + 1));
        let (source, file_name, file_id) = match item {
            ContentItem::File { source, file_name, file_id } => (source, file_name, file_id),
            _ => {
                proof {
                    assert(orig[idx as int] is File);
                }
                return SendStep::MediaGroup { documents: Err(PrepareError::InvalidImageData) };
            },
        };
        let input = match input_file_from_source(source, file_name, file_id) {
            Ok(input) => input,
            Err(e) => {
                proof {
                    let i = idx as int;
                    assert(file_failed(orig[i]));
                    assert(exists|i: int| 0 <= i < orig.len() && #[trigger] file_failed(orig[i]));
                    let c = first_failure(orig);
                    assert(0 <= c < orig.len() && file_failed(orig[c]) && forall|j: int|
                        0 <= j < c ==> !#[trigger] file_failed(orig[j]));
                    if c < i {
                        assert(!file_failed(orig[c]));
                    }
                    if c > i {
                        assert(!file_failed(orig[i]));
                    }
                    assert(c == i);
                    assert(failure_of(orig[i]) == error_view(e));
                }
                return SendStep::MediaGroup { documents: Err(e) };
            },
        };
        assert(doc_spec(orig[idx as int], None) == (
            source_view(input.source),
            opt_view(input.file_name),
            None::<PayloadView>,
        ));
        if idx == n - 1 {
            let ghost before = documents@;
            let last = pending.take();
            assert(doc_spec(orig[idx as int], cap) == (
                source_view(input.source),
                opt_view(input.file_name),
                cap,
            ));
            documents.push(MediaDocument { input, caption: last });
            proof {
                let docs = documents@.map_values(|m: MediaDocument| doc_view(m));
                assert(!(exists|i: int| 0 <= i < orig.len() && #[trigger] file_failed(orig[i])))
                    by {
                    if exists|i: int| 0 <= i < orig.len() && #[trigger] file_failed(orig[i]) {
                        let i = choose|i: int| 0 <= i < orig.len() && #[trigger] file_failed(orig[i]);
                        if i < idx {
                            assert(!file_failed(orig[i]));
                        }
                    }
                }
                assert forall|j: int| 0 <= j < n implies #[trigger] docs[j] == doc_spec(
                    orig[j],
                    if j == orig.len() - 1 {
                        cap
                    } else {
                        None
                    },
                ) by {
                    if j < idx {
                        assert(documents@[j] == before[j]);
                    }
                }
                assert(docs =~= Seq::new(
                    orig.len(),
                    |i: int|
                        doc_spec(
                            orig[i],
                            if i == orig.len() - 1 {
                                cap
                            } else {
                                None
                            },
                        ),
                ));
            }
            return SendStep::MediaGroup { documents: Ok(documents) };
        }
        documents.push(MediaDocument { input, caption: None });
        idx = idx + 1;
    }
    proof {
        assert(false);
    }
    SendStep::MediaGroup { documents: Ok(documents) }
}

/// Whether `steps` are the requests for the first media groups of `files`.
pub open spec fn groups_sent(
    steps: Seq<SendStep>,
    files: Seq<ContentItem>,
    caption: Option<PayloadView>,
) -> bool {
    forall|c: int|
        0 <= c < steps.len() ==> #[trigger] step_view(steps[c]) == chunk_step(
            chunk(files, c),
            group_caption(c, caption),
        )
}

proof fn lemma_groups_sent_push(
    steps: Seq<SendStep>,
    step: SendStep,
    files: Seq<ContentItem>,
    caption: Option<PayloadView>,
)
    requires
        groups_sent(steps, files, caption),
        step_view(step) == chunk_step(
            chunk(files, steps.len() as int),
            group_caption(steps.len() as int, caption),
        ),
    ensures
        groups_sent(steps.push(step), files, caption),
{
    assert forall|c: int| 0 <= c < steps.len() + 1 implies #[trigger] step_view(
        steps.push(step)[c],
    ) == chunk_step(chunk(files, c), group_caption(c, caption)) by {
        if c < steps.len() {
            assert(steps.push(step)[c] == steps[c]);
        }
    }
}

proof fn lemma_chunk_is(files: Seq<ContentItem>, k: int, part: Seq<ContentItem>)
    requires
        all_files(files),
        0 <= k,
        1 <= part.len() <= 10,
        10 * k + part.len() <= files.len(),
        part == files.subrange(10 * k, 10 * k + part.len()),
        part.len() == 10 || 10 * k + part.len() == files.len(),
    ensures
        chunk(files, k) == part,
        all_files(part),
        part.len() >= 1,
{
    assert(chunk(files, k) =~= part);
    assert forall|j: int| 0 <= j < part.len() implies #[trigger] part[j] is File by {
        assert(part[j] == files[10 * k + j]);
    }
}

proof fn lemma_groups_complete(
    steps: Seq<SendStep>,
    files: Seq<ContentItem>,
    caption: Option<PayloadView>,
    rest: int,
)
    requires
        groups_sent(steps, files, caption),
        0 <= rest < 10,
        rest == 0 ==> files.len() == 10 * steps.len(),
        rest > 0 ==> files.len() == 10 * (steps.len() - 1) + rest,
    ensures
        steps_view(steps) == group_steps(files, caption),
{
    assert(steps.len() == chunk_count(files.len() as int));
    assert(steps_view(steps) =~= group_steps(files, caption));
}

/// Sends files as media groups of up to ten, the message's text going with
/// the first group.
pub fn send_file_media_groups(files: Vec<ContentItem>, caption: Option<FormattedPayload>) -> (r:
    Vec<SendStep>)
    requires
        all_files(files@),
    ensures
        steps_view(r@) == group_steps(files@, payload_view(caption)),
{
    let ghost orig = files@;
    let ghost cap = payload_view(caption);
    let n = files.len();
    let mut rest = files;
    let mut pending = caption;
    let mut steps: Vec<SendStep> = Vec::new();
    let mut chunk_files: Vec<ContentItem> = Vec::new();
    let mut i: usize = 0;
    while i < n
        invariant
            n == orig.len(),
            orig == files@,
            cap == payload_view(caption),
            all_files(orig),
            i <= n,
            rest@ == orig.skip(i as int),
            i == 10 * steps@.len() + chunk_files@.len(),
            chunk_files@.len() < 10,
            chunk_files@ == orig.subrange(10 * (steps@.len() as int), i as int),
            groups_sent(steps@, orig, cap),
            payload_view(pending) == group_caption(steps@.len() as int, cap),
        decreases n - i,
    {
        assert(rest@[0] == orig[i as int]);
        let item = rest.remove(0);
        assert(rest@ =~= orig.skip(i + 1));
        chunk_files.push(item);
        assert(chunk_files@ =~= orig.subrange(10 * (steps@.len() as int), i + 1));
        if chunk_files.len() == 10 {
            let chunk_caption = pending.take();
            let full = chunk_files;
            chunk_files = Vec::new();
            proof {
                lemma_chunk_is(orig, steps@.len() as int, full@);
            }
            let step = send_file_media_group(full, chunk_caption);
            proof {
                lemma_groups_sent_push(steps@, step, orig, cap);
            }
            steps.push(step);
        }
        i = i + 1;
    }
    let ghost r = chunk_files@.len() as int;
    if chunk_files.len() > 0 {
        proof {
            lemma_chunk_is(orig, steps@.len() as int, chunk_files@);
        }
        let step = send_file_media_group(chunk_files, pending);
        proof {
            lemma_groups_sent_push(steps@, step, orig, cap);
        }
        steps.push(step);
    }
    proof {
        lemma_groups_complete(steps@, orig, cap, r);
    }
    steps
}

proof fn lemma_attachments_are_uploads(content: Seq<ContentItem>, k: int)
    requires
        0 <= k < message_attachments(content).len(),
    ensures
        is_attachment(message_attachments(content)[k]),
{
    content.filter_lemma(|item: ContentItem| is_attachment(item));
}

/// The reply target of an outgoing message: its `reply_to`, when that is
/// a native Telegram message id.
pub open spec fn reply_spec(reply_to: Option<Seq<char>>) -> Option<ReplyParameters> {
    match reply_to {
        Some(s) => match parse_i32_spec(s) {
            Some(id) => Some(ReplyParameters { message_id: id }),
            None => None,
        },
        None => None,
    }
}

/// How an outgoing message is sent: its text gathered into one payload,
/// then sent alone, with the first upload, or with the first media group.
pub fn send_message_items(msg: Message) -> (r: MessagePlan)
    ensures
        message_plan_of(r, msg),
{
    let ghost content0 = msg.content@;
    let Message { id, reply_to, content, delete_after, .. } = msg;
    let reply = match &reply_to {
        Some(r) => reply_parameters(Some(r.as_str())),
        None => reply_parameters(None),
    };

    let ghost piece_f = |item: ContentItem| text_piece(item);
    let ghost att_f = |item: ContentItem| is_attachment(item);
    let n = content.len();
    let mut rest = content;
    let mut text = OutgoingText::new();
    let mut attachments: Vec<ContentItem> = Vec::new();
    let mut i: usize = 0;
    while i < n
        invariant
            n == content0.len(),
            i <= n,
            piece_f == (|item: ContentItem| text_piece(item)),
            att_f == (|item: ContentItem| is_attachment(item)),
            rest@ == content0.skip(i as int),
            text@ == gather(content0.take(i as int).filter_map(piece_f)),
            attachments@ == content0.take(i as int).filter(att_f),
        decreases n - i,
    {
        assert(rest@[0] == content0[i as int]);
        let item = rest.remove(0);
        assert(rest@ =~= content0.skip(i + 1));
        proof {
            content0.lemma_filter_map_take_succ(piece_f, i as int);
            content0.lemma_take_succ_push(i as int);
            content0.take(i as int).lemma_filter_push(item, att_f);
        }
        let ghost pieces = content0.take(i as int).filter_map(piece_f);
        match item {
            ContentItem::Text { text: item_text, format } => {
                text.push_text(item_text, format);
                assert(pieces.push((item_text@, format)).drop_last() =~= pieces);
            },
            ContentItem::File { .. } => {
                attachments.push(item);
            },
            ContentItem::Image { .. } => {
                attachments.push(item);
            },
            ContentItem::Other { .. } => {},
        }
        i = i + 1;
    }
    assert(content0.take(n as int) =~= content0);
    let caption = text.into_payload();
    let ghost cap = payload_view(caption);
    let ghost atts = attachments@;
    assert(cap == message_caption(content0));
    assert(atts == message_attachments(content0));

    let mut steps: Vec<SendStep> = Vec::new();
    let m = attachments.len();
    if m == 0 {
        if let Some(payload) = caption {
            steps.push(SendStep::Text(payload));
        }
        assert(steps_view(steps@) =~= plan_steps(content0));
    } else {
        let mut only_files = true;
        let mut j: usize = 0;
        while j < m
            invariant
                m == attachments@.len(),
                j <= m,
                only_files == (forall|t: int| 0 <= t < j ==> #[trigger] attachments@[t] is File),
            decreases m - j,
        {
            if !matches!(attachments[j], ContentItem::File { .. }) {
                only_files = false;
            }
            j = j + 1;
        }
        if m > 1 && only_files {
            steps = send_file_media_groups(attachments, caption);
        } else {
            let mut pending = caption;
            let mut rest_atts = attachments;
            let mut k: usize = 0;
            while k < m
                invariant
                    m == atts.len(),
                    atts == message_attachments(content0),
                    k <= m,
                    rest_atts@ == atts.skip(k as int),
                    steps@.len() == k,
                    forall|t: int|
                        0 <= t < k ==> #[trigger] step_view(steps@[t]) == item_step(
                            atts[t],
                            if t == 0 {
                                cap
                            } else {
                                None
                            },
                        ),
                    payload_view(pending) == if k == 0 {
                        cap
                    } else {
                        None
                    },
                decreases m - k,
            {
                assert(rest_atts@[0] == atts[k as int]);
                let item = rest_atts.remove(0);
                assert(rest_atts@ =~= atts.skip(k + 1));
                let first = pending.take();
                let ghost before = steps@;
                match item {
                    ContentItem::File { source, file_name, file_id } => {
                        let input = input_file_from_source(source, file_name, file_id);
                        steps.push(SendStep::File { input, caption: first });
                    },
                    ContentItem::Image { source, file_id, caption: own } => {
                        let merged = merge_captions(first, own);
                        let input = input_file_from_image(source, file_id);
                        steps.push(SendStep::Image { input, caption: merged });
                    },
                    _ => {
                        proof {
                            lemma_attachments_are_uploads(content0, k as int);
                            assert(false);
                        }
                        steps.push(SendStep::File { input: Err(PrepareError::InvalidImageData), caption: first });
                    },
                }
                assert forall|t: int| 0 <= t < k + 1 implies #[trigger] step_view(steps@[t])
                    == item_step(
                    atts[t],
                    if t == 0 {
                        cap
                    } else {
                        None
                    },
                ) by {
                    if t < k {
                        assert(steps@[t] == before[t]);
                    }
                }
                k = k + 1;
            }
            assert(steps_view(steps@) =~= item_steps(atts, cap));
        }
    }
    MessagePlan { steps, reply, delete_after, local_id: id }
}

/// Whether `plan` is how `msg` is sent.
pub open spec fn message_plan_of(plan: MessagePlan, msg: Message) -> bool {
    &&& steps_view(plan.steps@) == plan_steps(msg.content@)
    &&& plan.reply == reply_spec(opt_view(msg.reply_to))
    &&& plan.delete_after == msg.delete_after
    &&& opt_view(plan.local_id) == opt_view(msg.id)
}

// ---------------------------------------------------------------------------
// Reporting a sent message
// ---------------------------------------------------------------------------

/// The event that tells the sending plugin (`origin`) which Telegram message
/// its message became: only when the message had a local id and something
/// was sent, `message_id` being the first message sent.
pub fn emit_message_sent_if_needed(
    origin: &str,
    chat_id: i64,
    local_id: Option<&str>,
    message_id: Option<i32>,
) -> (r: Option<Event>)
    ensures
        (local_id is None || message_id is None) ==> r is None,
        (local_id is Some && message_id is Some) ==> (r matches Some(ev) && {
            &&& ev.event_type == EventType::MessageSent
            &&& ev.source@ == "TGAdapter"@
            &&& ev.data@.len() == 0
            &&& ev.command is None
            &&& ev.message matches Some(m) && {
                &&& m.id matches Some(i) && i@ == int_decimal(message_id.unwrap() as int)
                &&& opt_view(m.local_id) == Some(local_id.unwrap()@)
                &&& m.reply_to is None
                &&& m.content@.len() == 0
                &&& m.sender is None
                &&& m.chat.id@.len() == 0
                &&& m.chat.kind is None
                &&& m.chat.title is None
                &&& m.chat.username is None
                &&& m.chat.extra@.len() == 0
                &&& m.at@.len() == 0
                &&& !m.is_admin
                &&& opt_view(m.to) == Some(int_decimal(chat_id as int))
                &&& m.delete_after is None
            }
            &&& ev.reply_plugin is None
            &&& ev.target_plugin is None
            &&& opt_view(ev.receiver) == Some(origin@)
        }),
{
    let (local_id, message_id) = match (local_id, message_id) {
        (Some(l), Some(m)) => (l, m),
        _ => {
            return None;
        },
    };
    let mut event = Event::message_sent("TGAdapter", i32_to_decimal(message_id), Some(local_id.to_owned()));
    if let Some(msg) = event.message.as_mut() {
        msg.to = Some(i64_to_decimal(chat_id));
    }
    event.receiver = Some(origin.to_owned());
    Some(event)
}

// ---------------------------------------------------------------------------
// Editing and deleting
// ---------------------------------------------------------------------------

/// Why a message cannot be edited or deleted.
#[derive(Clone, Debug, PartialEq, Eq)]
pub enum TargetError {
    MissingMessageId,
    NonNativeMessageId(String),
    NoTextContent,
}

/// An edit: the native id of the message, and its new text.
#[derive(Clone, Debug, PartialEq, Eq)]
pub struct EditPlan {
    pub message_id: i32,
    pub payload: FormattedPayload,
}

/// The native Telegram id of the message that `id` names, or why there is none.
pub open spec fn target_spec(id: Option<Seq<char>>) -> Result<i32, Seq<char>> {
    match id {
        Some(s) => match parse_i32_spec(s) {
            Some(n) => Ok(n),
            None => Err(s),
        },
        None => Err(Seq::empty()),
    }
}

fn native_message_id(id: &Option<String>) -> (r: Result<i32, TargetError>)
    ensures
        match opt_view(*id) {
            Some(s) => match parse_i32_spec(s) {
                Some(n) => r == Ok::<i32, TargetError>(n),
                None => r matches Err(TargetError::NonNativeMessageId(t)) && t@ == s,
            },
            None => r == Err::<i32, TargetError>(TargetError::MissingMessageId),
        },
{
    match id {
        Some(s) => match parse_i32(s.as_str()) {
            Some(n) => Ok(n),
            None => Err(TargetError::NonNativeMessageId(s.clone())),
        },
        None => Err(TargetError::MissingMessageId),
    }
}

/// Whether `r` is the edit that `msg` asks for: the message named by its id
/// gets the message's text items gathered into one payload.
pub open spec fn edit_of(r: Result<EditPlan, TargetError>, msg: Message) -> bool {
    match opt_view(msg.id) {
        Some(s) => match parse_i32_spec(s) {
            Some(n) => match message_caption(msg.content@) {
                Some(p) => r matches Ok(plan) && plan.message_id == n && payload_view(
                    Some(plan.payload),
                ) == Some(p),
                None => r == Err::<EditPlan, TargetError>(TargetError::NoTextContent),
            },
            None => r matches Err(TargetError::NonNativeMessageId(t)) && t@ == s,
        },
        None => r == Err::<EditPlan, TargetError>(TargetError::MissingMessageId),
    }
}

/// The edit that an outgoing edit message asks for.
pub fn edit_message_item(msg: &Message) -> (r: Result<EditPlan, TargetError>)
    ensures
        edit_of(r, *msg),
{
    let message_id = match native_message_id(&msg.id) {
        Ok(n) => n,
        Err(e) => {
            return Err(e);
        },
    };
    let ghost content0 = msg.content@;
    let ghost piece_f = |item: ContentItem| text_piece(item);
    let mut text = OutgoingText::new();
    let mut i: usize = 0;
    while i < msg.content.len()
        invariant
            content0 == msg.content@,
            i <= content0.len(),
            piece_f == (|item: ContentItem| text_piece(item)),
            text@ == gather(content0.take(i as int).filter_map(piece_f)),
        decreases content0.len() - i,
    {
        proof {
            content0.lemma_filter_map_take_succ(piece_f, i as int);
        }
        let ghost pieces = content0.take(i as int).filter_map(piece_f);
        if let ContentItem::Text { text: item_text, format } = &msg.content[i] {
            text.push_text(item_text.clone(), *format);
            assert(pieces.push((item_text@, *format)).drop_last() =~= pieces);
        }
        i = i + 1;
    }
    assert(content0.take(content0.len() as int) =~= content0);
    match text.into_payload() {
        Some(payload) => Ok(EditPlan { message_id, payload }),
        None => Err(TargetError::NoTextContent),
    }
}

/// The native id of the message that an outgoing delete message names.
pub fn delete_message_item(msg: &Message) -> (r: Result<i32, TargetError>)
    ensures
        match opt_view(msg.id) {
            Some(s) => match parse_i32_spec(s) {
                Some(n) => r == Ok::<i32, TargetError>(n),
                None => r matches Err(TargetError::NonNativeMessageId(t)) && t@ == s,
            },
            None => r == Err::<i32, TargetError>(TargetError::MissingMessageId),
        },
{
    native_message_id(&msg.id)
}

// ---------------------------------------------------------------------------
// Dispatching an outgoing event
// ---------------------------------------------------------------------------

/// Why an outgoing event is refused.
#[derive(Clone, Debug, PartialEq, Eq)]
pub enum SendError {
    MissingChatId,
    InvalidChatId(String),
    BotNotInitialized,
}

/// What to do with an outgoing event.
#[derive(Debug, PartialEq, Eq)]
pub enum OutgoingAction {
    Send(MessagePlan),
    Edit(Result<EditPlan, TargetError>),
    Delete(Result<i32, TargetError>),
    Ignore(EventType),
}

/// Work for the sending task: the chat, the plugin the event came from, and
/// what to do.
#[derive(Debug, PartialEq, Eq)]
pub struct OutgoingJob {
    pub chat_id: i64,
    pub origin: String,
    pub action: OutgoingAction,
}

/// Whether `action` is what an event of type `t` with message `msg` asks for.
pub open spec fn action_of(action: OutgoingAction, t: EventType, msg: Message) -> bool {
    match t {
        EventType::Message => action matches OutgoingAction::Send(plan) && message_plan_of(
            plan,
            msg,
        ),
        EventType::MessageEdit => action matches OutgoingAction::Edit(r) && edit_of(r, msg),
        EventType::MessageDelete => action matches OutgoingAction::Delete(r) && match opt_view(
            msg.id,
        ) {
            Some(s) => match parse_i32_spec(s) {
                Some(n) => r == Ok::<i32, TargetError>(n),
                None => r matches Err(TargetError::NonNativeMessageId(u)) && u@ == s,
            },
            None => r == Err::<i32, TargetError>(TargetError::MissingMessageId),
        },
        _ => action == OutgoingAction::Ignore(t),
    }
}

/// What accepting an outgoing event gives: nothing to send without a
/// message; a refusal when the message names no chat, a chat that is not a
/// numeric id, or comes before the bot is set up; otherwise the job for its
/// chat, origin and type.
pub open spec fn send_event_spec<B>(
    event: Event,
    state: AdapterState<B>,
    r: Result<Option<OutgoingJob>, SendError>,
) -> bool {
    match event.message {
        None => r == Ok::<Option<OutgoingJob>, SendError>(None),
        Some(msg) => match opt_view(msg.to) {
            None => r == Err::<Option<OutgoingJob>, SendError>(SendError::MissingChatId),
            Some(to) => match parse_i64_spec(to) {
                None => r matches Err(SendError::InvalidChatId(t)) && t@ == to,
                Some(chat_id) => if state.current_bot() is None {
                    r == Err::<Option<OutgoingJob>, SendError>(SendError::BotNotInitialized)
                } else {
                    r matches Ok(Some(job)) && job.chat_id == chat_id && job.origin@
                        == event.source@ && action_of(job.action, event.event_type, msg)
                },
            },
        },
    }
}

/// Accepts an outgoing event: an event without a message is nothing to
/// send; one whose message names no chat, or a chat that is not a numeric
/// id, or that comes before the bot is set up, is refused; otherwise the
/// job for its chat and type.
pub fn send_event<B>(event: Event, state: &AdapterState<B>) -> (r: Result<
    Option<OutgoingJob>,
    SendError,
>)
    ensures
        send_event_spec(event, *state, r),
{
    let Event { event_type, source, message, .. } = event;
    let msg = match message {
        Some(msg) => msg,
        None => {
            return Ok(None);
        },
    };
    let chat_id = match &msg.to {
        Some(to) => match parse_i64(to.as_str()) {
            Some(id) => id,
            None => {
                return Err(SendError::InvalidChatId(to.clone()));
            },
        },
        None => {
            return Err(SendError::MissingChatId);
        },
    };
    if state.telegram_bot().is_none() {
        return Err(SendError::BotNotInitialized);
    }
    let action = match event_type {
        EventType::Message => OutgoingAction::Send(send_message_items(msg)),
        EventType::MessageEdit => OutgoingAction::Edit(edit_message_item(&msg)),
        EventType::MessageDelete => OutgoingAction::Delete(delete_message_item(&msg)),
        other => OutgoingAction::Ignore(other),
    };
    Ok(Some(OutgoingJob { chat_id, origin: source, action }))
}

// ---------------------------------------------------------------------------
// Laws
// ---------------------------------------------------------------------------

/// An accepted edit event is carried out as an edit, never as a send or a
/// delete: the edit targets the message's native id and replaces its text
/// with all of the message's text items, one after another.
pub proof fn law_edit_event_is_an_edit<B>(
    event: Event,
    state: AdapterState<B>,
    r: Result<Option<OutgoingJob>, SendError>,
)
    requires
        send_event_spec(event, state, r),
        event.event_type == EventType::MessageEdit,
    ensures
        r matches Ok(Some(job)) ==> ({
            &&& !(job.action is Send)
            &&& !(job.action is Delete)
            &&& !(job.action is Ignore)
            &&& job.action matches OutgoingAction::Edit(edit) && {
                let msg = event.message.unwrap();
                let text = concat_texts(message_pieces(msg.content@));
                match opt_view(msg.id) {
                    Some(s) => match parse_i32_spec(s) {
                        Some(n) => if text.len() > 0 {
                            edit matches Ok(plan) && plan.message_id == n && plan.payload.text@
                                == text
                        } else {
                            edit == Err::<EditPlan, TargetError>(TargetError::NoTextContent)
                        },
                        None => edit is Err,
                    },
                    None => edit is Err,
                }
            }
        }),
{
    if let Ok(Some(job)) = r {
        let msg = event.message.unwrap();
        law_gathered_text_format(message_pieces(msg.content@));
    }
}

/// The type of an accepted event alone decides what is done: a message is
/// sent, an edit edits, a delete deletes (the message's native id, when it
/// has one), and every other type is ignored as that type. A job is owed
/// exactly when the event has a message whose chat is a numeric id and the
/// bot is set up, and it goes to that chat.
pub proof fn law_event_type_picks_action<B>(
    event: Event,
    state: AdapterState<B>,
    r: Result<Option<OutgoingJob>, SendError>,
)
    requires
        send_event_spec(event, state, r),
    ensures
        (r is Ok && r->Ok_0 is Some) == (event.message is Some && opt_view(
            event.message.unwrap().to,
        ) is Some && parse_i64_spec(opt_view(event.message.unwrap().to).unwrap()) is Some
            && state.current_bot() is Some),
        r matches Ok(Some(job)) ==> ({
            let t = event.event_type;
            let msg = event.message.unwrap();
            &&& Some(job.chat_id) == parse_i64_spec(opt_view(msg.to).unwrap())
            &&& job.origin@ == event.source@
            &&& (job.action is Send) == (t == EventType::Message)
            &&& (job.action is Edit) == (t == EventType::MessageEdit)
            &&& (job.action is Delete) == (t == EventType::MessageDelete)
            &&& (job.action is Ignore) == (t != EventType::Message && t != EventType::MessageEdit
                && t != EventType::MessageDelete)
            &&& job.action is Ignore ==> job.action == OutgoingAction::Ignore(t)
            &&& (t == EventType::MessageDelete && opt_view(msg.id) is Some && parse_i32_spec(
                opt_view(msg.id).unwrap(),
            ) is Some) ==> job.action == OutgoingAction::Delete(
                Ok(parse_i32_spec(opt_view(msg.id).unwrap()).unwrap()),
            )
        }),
{
}

/// An image that has no Telegram file id of its own and comes from a local
/// path is uploaded from that same path, under no file name; one that has a
/// file id is sent by that id. Without a file id, an image named by id is
/// sent by that id, one given by URL becomes a URL upload or is refused as
/// that URL, and base64 data becomes an upload from memory or is refused as
/// invalid data; a prepared image never carries a file name.
pub proof fn law_image_from_path_is_uploaded(
    source: ImageSource,
    file_id: Option<String>,
    r: Result<InputFile, PrepareError>,
)
    requires
        prepared_view(r) == image_input_spec(source, file_id),
    ensures
        r matches Ok(f) ==> f.file_name is None,
        (source matches ImageSource::Id(i) && (file_id is None || file_id.unwrap()@.len() == 0))
            ==> (r matches Ok(f) && f.source matches InputSource::FileId(q) && q@
            == source->Id_0@),
        (source matches ImageSource::Url(u) && (file_id is None || file_id.unwrap()@.len()
            == 0)) ==> ((r matches Ok(f) && f.source is Url) || (r matches Err(
            PrepareError::InvalidImageUrl(e),
        ) && e@ == source->Url_0@)),
        (source matches ImageSource::Base64(d) && (file_id is None || file_id.unwrap()@.len()
            == 0)) ==> ((r matches Ok(f) && f.source is Memory) || (r matches Err(
            PrepareError::InvalidImageData,
        ))),
        (source matches ImageSource::Path(p) && (file_id is None || file_id.unwrap()@.len()
            == 0)) ==> (r matches Ok(f) && f.source matches InputSource::Path(q) && q@
            == source->Path_0@ && f.file_name is None),
        (file_id is Some && file_id.unwrap()@.len() > 0) ==> (r matches Ok(f)
            && f.source matches InputSource::FileId(q) && q@ == file_id.unwrap()@),
{
}

/// The caption of each image that a message sends: without any text in the
/// message, the image's own caption (if not empty); for the first upload,
/// the message's text, followed on a new line by the image's own caption
/// when that differs; for later uploads, the image's own caption alone.
pub proof fn law_image_captions(msg: Message, plan: MessagePlan, k: int)
    requires
        message_plan_of(plan, msg),
        0 <= k < message_attachments(msg.content@).len(),
        message_attachments(msg.content@)[k] is Image,
    ensures
        ({
            let own = match message_attachments(msg.content@)[k] {
                ContentItem::Image { caption, .. } => opt_view(caption),
                _ => None,
            };
            let own_text = match own {
                Some(c) => if c.len() > 0 {
                    Some(c)
                } else {
                    None
                },
                None => None,
            };
            let text = concat_texts(message_pieces(msg.content@));
            &&& plan.steps@.len() == message_attachments(msg.content@).len()
            &&& plan.steps@[k] matches SendStep::Image { caption: c, .. } && {
                if k == 0 && text.len() > 0 {
                    match own_text {
                        Some(o) => if o == text {
                            c matches Some(p) && p.text@ == text
                        } else {
                            c matches Some(p) && p.text@ == text + seq!['\n'] + o && p.format
                                is None
                        },
                        None => c matches Some(p) && p.text@ == text,
                    }
                } else {
                    match own_text {
                        Some(o) => c matches Some(p) && p.text@ == o && p.format is None,
                        None => c is None,
                    }
                }
            }
        }),
{
    let content = msg.content@;
    let atts = message_attachments(content);
    law_gathered_text_format(message_pieces(content));
    assert(!all_files(atts)) by {
        assert(!(atts[k] is File));
    }
    let steps = plan_steps(content);
    assert(steps == item_steps(atts, message_caption(content)));
    assert(steps_view(plan.steps@).len() == steps.len());
    assert(step_view(plan.steps@[k]) == steps[k]);
}

} // verus!
