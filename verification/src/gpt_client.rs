//! The completion service's side: how a request to it is put together, what
//! is made of its answer, and what is kept of the conversation.
//!
//! The service is given the whole conversation with every request.  A
//! conversation starts from the base rules, and grows by the user's message
//! and the service's answer each time an answer arrives.

use crate::text::{chars_of, joined, occurs_here, push_chars};
use base64::engine::general_purpose::STANDARD;
use base64::Engine;
use dashmap::DashMap;
use vstd::prelude::*;

verus! {

/// What is added to the address of the service for completions.
pub const CHAT_PATH: &'static str = "/chat/completions";

/// What is added to the address of the service for drawings.
pub const IMAGES_PATH: &'static str = "/images/generations";

/// The ending by which a picture is taken to be a PNG.
pub const PNG_SUFFIX: &'static str = ".png";

/// What the service is missing when it answers without a drawing.
pub const NO_IMAGE_DATA: &'static str = "no image data found in response";

/// What opens the error of a drawing that cannot be decoded.
pub const DECODE_IMAGE: &'static str = "decode image ";

/// Which model answers a request: the fast one or the smart one.
#[derive(Debug, Clone, Copy, PartialEq, Eq, Structural)]
pub enum ModelMode {
    Fast,
    Smart,
}

/// One part of a message that has several.
#[derive(Debug, Clone, PartialEq, Eq)]
pub enum Content {
    Text { text: String },
    ImageUrl { url: String },
}

/// What a message says: plain text, or several parts.
#[derive(Debug, Clone, PartialEq, Eq)]
pub enum Value {
    Plain(String),
    Complex(Vec<Content>),
}

/// One message of a conversation, by who said it.
#[derive(Debug, Clone, PartialEq, Eq)]
pub enum ChatMessage {
    User(Value),
    System(Value),
    Assistant(Value),
}

/// A part of a message as the contracts see it.
pub enum Part {
    Text { text: Seq<char> },
    ImageUrl { url: Seq<char> },
}

/// What a message says, as the contracts see it.
pub enum Said {
    Plain(Seq<char>),
    Complex(Seq<Part>),
}

/// A message of a conversation as the contracts see it.
pub enum Turn {
    User(Said),
    System(Said),
    Assistant(Said),
}

impl View for Content {
    type V = Part;

    open spec fn view(&self) -> Part {
        match *self {
            Content::Text { text } => Part::Text { text: text@ },
            Content::ImageUrl { url } => Part::ImageUrl { url: url@ },
        }
    }
}

impl View for Value {
    type V = Said;

    open spec fn view(&self) -> Said {
        match *self {
            Value::Plain(text) => Said::Plain(text@),
            Value::Complex(parts) => Said::Complex(Seq::new(parts@.len(), |i: int| parts@[i]@)),
        }
    }
}

impl View for ChatMessage {
    type V = Turn;

    open spec fn view(&self) -> Turn {
        match *self {
            ChatMessage::User(value) => Turn::User(value@),
            ChatMessage::System(value) => Turn::System(value@),
            ChatMessage::Assistant(value) => Turn::Assistant(value@),
        }
    }
}

/// The messages of a conversation, each as the contracts see it.
pub open spec fn turns_of(messages: Seq<ChatMessage>) -> Seq<Turn> {
    Seq::new(messages.len(), |i: int| messages[i]@)
}

/// The text of a picture's format, as it stands in a data URL.
pub open spec fn format_of(image_url: Seq<char>) -> Seq<char> {
    if PNG_SUFFIX@.is_suffix_of(image_url) {
        "png"@
    } else {
        "jpeg"@
    }
}

/// The data URL of a picture of the given format, whose bytes are `encoded`
/// in Base64.
pub open spec fn data_url_of(format: Seq<char>, encoded: Seq<char>) -> Seq<char> {
    "data:image/"@ + format + ";base64,"@ + encoded
}

/// What the conversation is told about a drawing that was made.
pub open spec fn drawing_caption(prompt: Seq<char>) -> Seq<char> {
    "По запросу '"@ + prompt + "' ты нарисовал:"@
}

/// The Base64 form of `bytes`, in the standard alphabet and with padding.
pub uninterp spec fn base64_of(bytes: Seq<u8>) -> Seq<char>;

/// The bytes that `text` stands for in Base64, in the standard alphabet and
/// with padding, or `None` where it is no such text.
pub uninterp spec fn base64_decoded(text: Seq<char>) -> Option<Seq<u8>>;

/// Calls `encode` of the standard engine of `base64`.  It panics where the
/// length of the result would not fit in a `usize`, which the precondition
/// rules out.  Nothing is proved of this function; its contract names the
/// result.
#[verifier::external_body]
fn base64_encode(bytes: &[u8]) -> (out: String)
    requires
        bytes@.len() / 3 * 4 + 4 <= usize::MAX,
    ensures
        out@ == base64_of(bytes@),
{
    STANDARD.encode(bytes)
}

/// What `base64` finds wrong with a text that it cannot decode.
#[verifier::external_type_specification]
#[verifier::external_body]
pub struct ExDecodeError(base64::DecodeError);

/// Calls `decode` of the standard engine of `base64` on the bytes of `text`.
/// Nothing is proved of this function; its contract names the result.
#[verifier::external_body]
fn base64_decode(text: &str) -> (out: Result<Vec<u8>, base64::DecodeError>)
    ensures
        match out {
            Ok(bytes) => base64_decoded(text@) == Some(bytes@),
            Err(_) => base64_decoded(text@) is None,
        },
{
    STANDARD.decode(text.as_bytes())
}

/// The concurrent map of `dashmap`.  What it holds can change under any
/// shared reference to it, so the contracts say nothing of its contents.
#[verifier::external_type_specification]
#[verifier::external_body]
#[verifier::reject_recursive_types(K)]
#[verifier::reject_recursive_types(V)]
#[verifier::reject_recursive_types(S)]
pub struct ExDashMap<K, V, S>(DashMap<K, V, S>);

/// The conversations that the service is given, one for each user.  Many
/// requests may read and extend them at the same time.
pub struct Conversations {
    messages: DashMap<i64, Vec<ChatMessage>>,
    base: Vec<ChatMessage>,
}

/// Calls `DashMap::new`, which makes an empty map.
#[verifier::external_body]
fn empty_map() -> (map: DashMap<i64, Vec<ChatMessage>>) {
    DashMap::new()
}

/// Calls `DashMap::get` and copies what it finds.  Another request may
/// change the entry at any time, so nothing is promised of the result.
#[verifier::external_body]
fn stored_copy(map: &DashMap<i64, Vec<ChatMessage>>, user_id: i64) -> (found: Option<
    Vec<ChatMessage>,
>) {
    match map.get(&user_id) {
        Some(history) => Some(history.clone()),
        None => None,
    }
}

/// Calls `DashMap::entry` and holds the entry while it is changed: a
/// conversation that exists is extended by `extend_history`, one that does
/// not is started by `started_history`.
#[verifier::external_body]
fn update_entry(
    map: &DashMap<i64, Vec<ChatMessage>>,
    user_id: i64,
    base: &Vec<ChatMessage>,
    added: &Vec<ChatMessage>,
) {
    map.entry(user_id).and_modify(|history| extend_history(history, added)).or_insert_with(
        || started_history(base, added),
    );
}

impl Conversations {
    /// The rules that every conversation starts from.
    pub closed spec fn base(&self) -> Seq<Turn> {
        turns_of(self.base@)
    }

    /// No conversations yet, and `rules` for each of them to start from.
    pub fn new(rules: String) -> (all: Conversations)
        ensures
            all.base() == if rules@.len() == 0 {
                Seq::<Turn>::empty()
            } else {
                seq![Turn::System(Said::Plain(rules@))]
            },
    {
        Conversations { messages: empty_map(), base: base_rules(rules) }
    }

    /// The conversation that goes out with a request of the user: what is
    /// stored for the user at this moment, or the base rules, and then
    /// `message`.
    pub fn outgoing(&self, user_id: i64, message: ChatMessage) -> (messages: Vec<ChatMessage>)
        ensures
            messages@.len() > 0,
            turns_of(messages@).last() == message@,
    {
        let stored = stored_copy(&self.messages, user_id);
        let base = started_history(&self.base, &Vec::new());
        request_messages(stored, base, message)
    }

    /// Adds `added` to the conversation of the user, which starts from the
    /// base rules if there is none yet.
    pub fn record(&self, user_id: i64, added: &Vec<ChatMessage>) {
        update_entry(&self.messages, user_id, &self.base, added);
    }
}

/// A copy of a part.
fn copy_content(part: &Content) -> (copy: Content)
    ensures
        copy@ == part@,
{
    match part {
        Content::Text { text } => Content::Text { text: text.clone() },
        Content::ImageUrl { url } => Content::ImageUrl { url: url.clone() },
    }
}

/// A copy of what a message says.
fn copy_value(value: &Value) -> (copy: Value)
    ensures
        copy@ == value@,
{
    match value {
        Value::Plain(text) => Value::Plain(text.clone()),
        Value::Complex(parts) => {
            let mut copies: Vec<Content> = Vec::new();
            let mut i: usize = 0;
            while i < parts.len()
                invariant
                    i <= parts.len(),
                    copies.len() == i,
                    forall|j: int| 0 <= j < i ==> copies@[j]@ == parts@[j]@,
                decreases parts.len() - i,
            {
                copies.push(copy_content(&parts[i]));
                i += 1;
            }
            let copy = Value::Complex(copies);
            assert(copy@->Complex_0 =~= value@->Complex_0);
            copy
        },
    }
}

/// A copy of a message.
pub fn copy_message(message: &ChatMessage) -> (copy: ChatMessage)
    ensures
        copy@ == message@,
{
    match message {
        ChatMessage::User(value) => ChatMessage::User(copy_value(value)),
        ChatMessage::System(value) => ChatMessage::System(copy_value(value)),
        ChatMessage::Assistant(value) => ChatMessage::Assistant(copy_value(value)),
    }
}

/// Adds `added` to the end of `history`.
pub fn extend_history(history: &mut Vec<ChatMessage>, added: &Vec<ChatMessage>)
    ensures
        turns_of(final(history)@) == turns_of(old(history)@) + turns_of(added@),
{
    let mut i: usize = 0;
    while i < added.len()
        invariant
            i <= added.len(),
            turns_of(history@) == turns_of(old(history)@) + turns_of(added@.take(i as int)),
        decreases added.len() - i,
    {
        let ghost before = history@;
        history.push(copy_message(&added[i]));
        assert(turns_of(history@) =~= turns_of(before).push(added@[i as int]@));
        assert(turns_of(added@.take(i + 1)) =~= turns_of(added@.take(i as int)).push(
            added@[i as int]@,
        ));
        i += 1;
    }
    assert(added@.take(added.len() as int) == added@);
}

/// The conversation that starts from `base` and goes on with `added`.
pub fn started_history(base: &Vec<ChatMessage>, added: &Vec<ChatMessage>) -> (history: Vec<
    ChatMessage,
>)
    ensures
        turns_of(history@) == turns_of(base@) + turns_of(added@),
{
    let mut history: Vec<ChatMessage> = Vec::new();
    extend_history(&mut history, base);
    extend_history(&mut history, added);
    assert(turns_of(Seq::<ChatMessage>::empty()) =~= Seq::<Turn>::empty());
    history
}

/// The rules that every conversation starts from: one message of the system
/// that says `rules`, or nothing where `rules` is empty.
pub fn base_rules(rules: String) -> (base: Vec<ChatMessage>)
    ensures
        turns_of(base@) == if rules@.len() == 0 {
            Seq::<Turn>::empty()
        } else {
            seq![Turn::System(Said::Plain(rules@))]
        },
{
    let mut base: Vec<ChatMessage> = Vec::new();
    if !rules.as_str().is_empty() {
        base.push(ChatMessage::System(Value::Plain(rules)));
    }
    assert(turns_of(base@) =~= if rules@.len() == 0 {
        Seq::<Turn>::empty()
    } else {
        seq![Turn::System(Said::Plain(rules@))]
    });
    base
}

/// The address for completions of the service at `api_url`.
pub fn chat_url(api_url: &str) -> (url: String)
    ensures
        url@ == api_url@ + CHAT_PATH@,
{
    joined(api_url, CHAT_PATH)
}

/// The address for drawings of the service at `api_url`.
pub fn images_url(api_url: &str) -> (url: String)
    ensures
        url@ == api_url@ + IMAGES_PATH@,
{
    joined(api_url, IMAGES_PATH)
}

/// The model that answers in `mode`.
pub fn model_for<'a>(mode: ModelMode, model: &'a str, smart_model: &'a str) -> (chosen: &'a str)
    ensures
        chosen == match mode {
            ModelMode::Fast => model,
            ModelMode::Smart => smart_model,
        },
{
    match mode {
        ModelMode::Fast => model,
        ModelMode::Smart => smart_model,
    }
}

/// The conversation that goes out with a request: what is stored for the
/// user, or the base rules where nothing is, and then the user's message.
pub fn request_messages(
    stored: Option<Vec<ChatMessage>>,
    base: Vec<ChatMessage>,
    message: ChatMessage,
) -> (messages: Vec<ChatMessage>)
    ensures
        turns_of(messages@) == turns_of(
            match stored {
                Some(history) => history@,
                None => base@,
            },
        ).push(message@),
{
    let mut messages = match stored {
        Some(history) => history,
        None => base,
    };
    let ghost before = messages@;
    messages.push(message);
    assert(turns_of(messages@) =~= turns_of(before).push(message@));
    messages
}

/// The answer of the service: its first choice, if it made any.
pub fn first_choice(choices: Vec<String>) -> (answer: Option<String>)
    ensures
        answer == if choices@.len() > 0 {
            Some(choices@[0])
        } else {
            None::<String>
        },
{
    let mut choices = choices;
    if choices.len() == 0 {
        None
    } else {
        Some(choices.swap_remove(0))
    }
}

/// Adds an exchange to a conversation: the user's message, then the answer
/// as a message of the assistant.
pub fn record_exchange(history: &mut Vec<ChatMessage>, message: ChatMessage, answer: String)
    ensures
        turns_of(final(history)@) == turns_of(old(history)@).push(message@).push(
            Turn::Assistant(Said::Plain(answer@)),
        ),
{
    history.push(message);
    history.push(ChatMessage::Assistant(Value::Plain(answer)));
    assert(turns_of(history@) =~= turns_of(old(history)@).push(message@).push(
        Turn::Assistant(Said::Plain(answer@)),
    ));
}

/// Whether `s` ends with `suffix`.
fn ends_with(s: &Vec<char>, suffix: &Vec<char>) -> (found: bool)
    ensures
        found == suffix@.is_suffix_of(s@),
{
    if suffix.len() > s.len() {
        return false;
    }
    let at = s.len() - suffix.len();
    let found = occurs_here(s, suffix, at);
    proof {
        let end = s@.subrange(s@.len() - suffix@.len(), s@.len() as int);
        if found {
            assert forall|j: int| 0 <= j < suffix@.len() implies suffix@[j] == end[j] by {
                assert(s@[at + j] == suffix@[j]);
            }
            assert(suffix@ =~= end);
        }
        if suffix@.is_suffix_of(s@) {
            assert forall|j: int| 0 <= j < suffix@.len() implies #[trigger] s@[at + j]
                == suffix@[j] by {
                assert(end[j] == s@[at + j]);
            }
        }
    }
    found
}

/// The format of the picture at `image_url`: PNG where the address ends so,
/// else JPEG.
pub fn image_format(image_url: &str) -> (format: &'static str)
    ensures
        format@ == format_of(image_url@),
{
    if ends_with(&chars_of(image_url), &chars_of(PNG_SUFFIX)) {
        "png"
    } else {
        "jpeg"
    }
}

/// The data URL of a picture of the given format, whose bytes are `encoded`
/// in Base64.
pub fn data_url(format: &str, encoded: &str) -> (url: String)
    ensures
        url@ == data_url_of(format@, encoded@),
{
    let mut url = joined("data:image/", format);
    push_chars(&mut url, &chars_of(";base64,"));
    push_chars(&mut url, &chars_of(encoded));
    url
}

/// What is asked about a picture: the question, then the picture itself as
/// a data URL.
pub fn image_value(text: String, image_url: &str, image: &[u8]) -> (value: Value)
    requires
        image@.len() / 3 * 4 + 4 <= usize::MAX,
    ensures
        value@ == Said::Complex(
            seq![
                Part::Text { text: text@ },
                Part::ImageUrl {
                    url: data_url_of(format_of(image_url@), base64_of(image@)),
                },
            ],
        ),
{
    let encoded = base64_encode(image);
    let url = data_url(image_format(image_url), encoded.as_str());
    let mut parts: Vec<Content> = Vec::new();
    parts.push(Content::Text { text });
    parts.push(Content::ImageUrl { url });
    let value = Value::Complex(parts);
    assert(value@->Complex_0 =~= seq![
        Part::Text { text: text@ },
        Part::ImageUrl { url: data_url_of(format_of(image_url@), base64_of(image@)) },
    ]);
    value
}

/// The drawing in an answer of the service: the last that it sent, in
/// Base64, or an error where it sent none.
pub fn last_drawing(data: Vec<String>) -> (drawing: Result<String, String>)
    ensures
        match drawing {
            Ok(encoded) => data@.len() > 0 && encoded == data@.last(),
            Err(e) => data@.len() == 0 && e@ == NO_IMAGE_DATA@,
        },
{
    let mut data = data;
    match data.pop() {
        Some(encoded) => Ok(encoded),
        None => Err(NO_IMAGE_DATA.to_owned()),
    }
}

/// What the conversation keeps of a drawing: a message of the user that
/// says what was asked for and shows the drawing as a data URL.
pub fn drawing_note(prompt: &str, encoded: &str) -> (note: ChatMessage)
    ensures
        note@ == Turn::User(
            Said::Complex(
                seq![
                    Part::Text { text: drawing_caption(prompt@) },
                    Part::ImageUrl { url: data_url_of("png"@, encoded@) },
                ],
            ),
        ),
{
    let mut text = joined("По запросу '", prompt);
    push_chars(&mut text, &chars_of("' ты нарисовал:"));
    let url = data_url("png", encoded);
    let mut parts: Vec<Content> = Vec::new();
    parts.push(Content::Text { text });
    parts.push(Content::ImageUrl { url });
    let value = Value::Complex(parts);
    assert(value@->Complex_0 =~= seq![
        Part::Text { text: drawing_caption(prompt@) },
        Part::ImageUrl { url: data_url_of("png"@, encoded@) },
    ]);
    ChatMessage::User(value)
}

/// The bytes of a drawing that came in Base64, or an error that names the
/// text where it cannot be decoded.
pub fn decode_drawing(encoded: &str) -> (image: Result<Vec<u8>, String>)
    ensures
        match image {
            Ok(bytes) => base64_decoded(encoded@) == Some(bytes@),
            Err(e) => base64_decoded(encoded@) is None && e@ == DECODE_IMAGE@ + encoded@,
        },
{
    match base64_decode(encoded) {
        Ok(bytes) => Ok(bytes),
        Err(_) => Err(joined(DECODE_IMAGE, encoded)),
    }
}

} // verus!
