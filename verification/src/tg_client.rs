//! The chat platform's side: the messages it hands in, and the escaping of
//! text that goes back to it.

use crate::text::{chars_of, joined, push_chars, str_eq};
use vstd::prelude::*;

verus! {

/// The kind of a chat between the bot and one person.
pub const PRIVATE_CHAT: &'static str = "private";

/// The most that one message to the platform may hold.
pub const MAX_MSG_SIZE: usize = 4096;

#[derive(Debug, PartialEq, Eq)]
pub struct Update {
    pub update_id: i64,
    pub message: Option<Message>,
}

#[derive(Debug, Clone, PartialEq, Eq)]
pub struct PhotoSize {
    pub file_id: String,
    pub file_size: usize,
}

#[derive(Debug, PartialEq, Eq)]
pub struct Message {
    pub message_id: i32,
    pub from: User,
    pub chat: Chat,
    /// When the message was sent, in seconds since the Unix epoch.
    pub date: i64,
    pub text: Option<String>,
    pub caption: Option<String>,
    pub photo: Option<Vec<PhotoSize>>,
    pub reply_to_message: Option<Box<Message>>,
}

#[derive(Debug, Clone, PartialEq, Eq)]
pub struct User {
    pub id: i64,
    pub is_bot: bool,
    pub first_name: String,
    pub last_name: Option<String>,
    pub username: Option<String>,
    pub language_code: Option<String>,
}

#[derive(Debug, Clone, PartialEq, Eq)]
pub struct Chat {
    pub id: i64,
    pub first_name: Option<String>,
    pub last_name: Option<String>,
    pub username: Option<String>,
    pub chat_type: String,
}

/// A photo as the contracts see it.
pub struct Photo {
    pub file_id: Seq<char>,
    pub file_size: nat,
}

/// A message as the contracts see it: who sent it and where, what it says
/// and shows, and whether it answers a message of a bot.
pub struct InboundMessage {
    pub sender_id: i64,
    pub sender_name: Seq<char>,
    pub chat_id: i64,
    pub private: bool,
    pub text: Option<Seq<char>>,
    pub caption: Option<Seq<char>>,
    pub photos: Option<Seq<Photo>>,
    /// Whether the message that this one replies to, if it replies to one,
    /// came from a bot.
    pub reply_to_bot: Option<bool>,
    pub date: i64,
}

/// The text that an optional string holds.
pub open spec fn optional_text(s: Option<String>) -> Option<Seq<char>> {
    match s {
        Some(t) => Some(t@),
        None => None,
    }
}

impl View for PhotoSize {
    type V = Photo;

    open spec fn view(&self) -> Photo {
        Photo { file_id: self.file_id@, file_size: self.file_size as nat }
    }
}

/// The photos of a list, each as the contracts see it.
pub open spec fn photos_of(photos: Seq<PhotoSize>) -> Seq<Photo> {
    Seq::new(photos.len(), |i: int| photos[i]@)
}

impl View for Message {
    type V = InboundMessage;

    open spec fn view(&self) -> InboundMessage {
        InboundMessage {
            sender_id: self.from.id,
            sender_name: self.from.first_name@,
            chat_id: self.chat.id,
            private: self.chat.private(),
            text: optional_text(self.text),
            caption: optional_text(self.caption),
            photos: match self.photo {
                Some(photos) => Some(photos_of(photos@)),
                None => None,
            },
            reply_to_bot: match self.reply_to_message {
                Some(parent) => Some(parent.from.is_bot),
                None => None,
            },
            date: self.date,
        }
    }
}

impl Chat {
    /// The chat is between the bot and one person.
    pub open spec fn private(&self) -> bool {
        self.chat_type@ == PRIVATE_CHAT@
    }

    pub fn is_private(&self) -> (private: bool)
        ensures
            private == self.private(),
    {
        str_eq(self.chat_type.as_str(), PRIVATE_CHAT)
    }
}

/// A symbol that the platform's markup reserves and that stands alone.
pub open spec fn is_unary_symbol(c: char) -> bool {
    c == '_' || c == '[' || c == ']' || c == '(' || c == ')' || c == '~' || c == '>' || c == '#'
        || c == '+' || c == '-' || c == '=' || c == '|' || c == '\\' || c == '{' || c == '}' || c
        == '.' || c == '!'
}

/// A symbol that the platform's markup reads in pairs.
pub open spec fn is_pair_symbol(c: char) -> bool {
    c == '*'
}

/// The character at `i` has no equal neighbour on either side.
pub open spec fn stands_alone(s: Seq<char>, i: int) -> bool {
    &&& !(0 < i && s[i - 1] == s[i])
    &&& !(i + 1 < s.len() && s[i + 1] == s[i])
}

/// The character at `i` gets a backslash in front of it: every unary symbol
/// does, and a pair symbol that has no twin beside it.
pub open spec fn needs_backslash(s: Seq<char>, i: int) -> bool {
    is_unary_symbol(s[i]) || (is_pair_symbol(s[i]) && stands_alone(s, i))
}

/// What the character at `i` turns into.
pub open spec fn escaped_char(s: Seq<char>, i: int) -> Seq<char> {
    if needs_backslash(s, i) {
        seq!['\\', s[i]]
    } else {
        seq![s[i]]
    }
}

/// The escaped form of the first `n` characters of `s`, each judged by its
/// neighbours in the whole of `s`.
pub open spec fn escaped_prefix(s: Seq<char>, n: int) -> Seq<char>
    decreases n,
{
    if n <= 0 {
        Seq::empty()
    } else {
        escaped_prefix(s, n - 1) + escaped_char(s, n - 1)
    }
}

/// The escaped form of `s`.
pub open spec fn escaped(s: Seq<char>) -> Seq<char> {
    escaped_prefix(s, s.len() as int)
}

/// The escaped form of a shorter prefix begins that of a longer one.
pub proof fn lemma_escaped_prefix_grows(s: Seq<char>, n: int, m: int)
    requires
        0 <= n <= m,
    ensures
        escaped_prefix(s, n).is_prefix_of(escaped_prefix(s, m)),
    decreases m - n,
{
    if n < m {
        lemma_escaped_prefix_grows(s, n, m - 1);
        let a = escaped_prefix(s, n);
        let b = escaped_prefix(s, m - 1);
        let c = escaped_prefix(s, m);
        assert(c == b + escaped_char(s, m - 1));
        assert(a =~= b.subrange(0, a.len() as int));
        assert(a =~= c.subrange(0, a.len() as int));
    } else {
        assert(escaped_prefix(s, n) =~= escaped_prefix(s, m).subrange(
            0,
            escaped_prefix(s, n).len() as int,
        ));
    }
}

/// Every character of `s` stands in the escaped form, in its order, after
/// the escaped form of what precedes it.  A unary symbol always has a
/// backslash in front of it there, and so has a pair symbol without a twin
/// beside it; no other character has one added.
pub proof fn lemma_escaped_layout(s: Seq<char>, i: int)
    requires
        0 <= i < s.len(),
    ensures
        ({
            let at = escaped_prefix(s, i).len() as int;
            let out = escaped(s);
            if needs_backslash(s, i) {
                at + 1 < out.len() && out[at] == '\\' && out[at + 1] == s[i]
            } else {
                at < out.len() && out[at] == s[i]
            }
        }),
        is_unary_symbol(s[i]) ==> needs_backslash(s, i),
        is_pair_symbol(s[i]) && stands_alone(s, i) ==> needs_backslash(s, i),
{
    let whole = escaped(s);
    let upto = escaped_prefix(s, i + 1);
    let before = escaped_prefix(s, i);
    lemma_escaped_prefix_grows(s, i + 1, s.len() as int);
    assert(upto == before + escaped_char(s, i));
    assert(upto =~= whole.subrange(0, upto.len() as int));
    let at = before.len() as int;
    assert(whole[at] == upto[at]);
    if needs_backslash(s, i) {
        assert(whole[at + 1] == upto[at + 1]);
    }
}

/// Whether `c` is reserved by the markup and stands alone.
fn unary_symbol(c: char) -> (is: bool)
    ensures
        is == is_unary_symbol(c),
{
    c == '_' || c == '[' || c == ']' || c == '(' || c == ')' || c == '~' || c == '>' || c == '#'
        || c == '+' || c == '-' || c == '=' || c == '|' || c == '\\' || c == '{' || c == '}' || c
        == '.' || c == '!'
}

/// Whether the markup reads `c` in pairs.
fn pair_symbol(c: char) -> (is: bool)
    ensures
        is == is_pair_symbol(c),
{
    c == '*'
}

/// Makes `text` safe for the platform's markup: a backslash goes in front of
/// every unary symbol, and in front of a pair symbol that has no twin
/// directly before or after it.
pub fn escape_text(text: &str) -> (out: String)
    ensures
        out@ == escaped(text@),
{
    let chars = chars_of(text);
    let mut out = String::new();
    let mut i: usize = 0;
    while i < chars.len()
        invariant
            chars@ == text@,
            i <= chars.len(),
            out@ == escaped_prefix(text@, i as int),
        decreases chars.len() - i,
    {
        let ch = chars[i];
        let twin_before = i > 0 && chars[i - 1] == ch;
        let twin_after = i + 1 < chars.len() && chars[i + 1] == ch;
        if unary_symbol(ch) || (pair_symbol(ch) && !twin_before && !twin_after) {
            out.push('\\');
        }
        out.push(ch);
        assert(out@ =~= escaped_prefix(text@, i as int) + escaped_char(text@, i as int));
        i += 1;
    }
    out
}

/// Where the platform's methods are called for a bot, before its token.
pub const API_ROOT: &'static str = "https://api.telegram.org/bot";

/// Where the platform's files are fetched for a bot, before its token.
pub const FILE_ROOT: &'static str = "https://api.telegram.org/file/bot";

/// What is wrong when the platform knows no file by an id.
pub const BAD_FILE_ID: &'static str = "Bad file id";

/// The least and the most that is waited before a call to the platform is
/// tried again, in seconds, and how often it is tried again.
pub const RETRY_MIN_SECS: u64 = 2;

pub const RETRY_MAX_SECS: u64 = 10;

pub const MAX_RETRIES: u32 = 3;

/// The addresses of the platform's methods for one bot.
#[derive(Debug, Clone, PartialEq, Eq)]
pub struct Endpoints {
    pub send_message_url: String,
    pub send_image_url: String,
    pub send_voice_url: String,
    pub left_url: String,
    pub get_file_url: String,
    pub download_file_url: String,
}

/// A call to the platform that it can reject.
#[derive(Debug, Clone, Copy, PartialEq, Eq, Structural)]
pub enum Call {
    SendText,
    SendImage,
    SendVoice,
    LeaveChat,
}

/// The address of the method `method` for the bot with `token`.
pub open spec fn method_url(token: Seq<char>, method: Seq<char>) -> Seq<char> {
    API_ROOT@ + token + method
}

/// What opens the error of a rejected call.
pub open spec fn rejection_opening(call: Call) -> Seq<char> {
    match call {
        Call::SendText => "Telegram send error. Error: "@,
        Call::SendImage => "Telegram send error. Error: "@,
        Call::SendVoice => "Telegram send voice error. Error: "@,
        Call::LeaveChat => "Telegram leave chat error. Error: "@,
    }
}

/// The error of a rejected call: its opening, what the platform answered,
/// and a full stop except after a rejected text.
pub open spec fn rejection_of(call: Call, answer: Seq<char>) -> Seq<char> {
    if call is SendText {
        rejection_opening(call) + answer
    } else {
        rejection_opening(call) + answer + "."@
    }
}

/// The address of one method.
fn method_address(token: &str, method: &str) -> (url: String)
    ensures
        url@ == method_url(token@, method@),
{
    let mut url = joined(API_ROOT, token);
    push_chars(&mut url, &chars_of(method));
    url
}

/// The addresses of the platform's methods for the bot with `token`.
pub fn endpoints(token: &str) -> (all: Endpoints)
    ensures
        all.send_message_url@ == method_url(token@, "/sendMessage"@),
        all.send_image_url@ == method_url(token@, "/sendPhoto"@),
        all.send_voice_url@ == method_url(token@, "/sendVoice"@),
        all.left_url@ == method_url(token@, "/leaveChat"@),
        all.get_file_url@ == method_url(token@, "/getFile"@),
        all.download_file_url@ == FILE_ROOT@ + token@,
{
    Endpoints {
        send_message_url: method_address(token, "/sendMessage"),
        send_image_url: method_address(token, "/sendPhoto"),
        send_voice_url: method_address(token, "/sendVoice"),
        left_url: method_address(token, "/leaveChat"),
        get_file_url: method_address(token, "/getFile"),
        download_file_url: joined(FILE_ROOT, token),
    }
}

/// The address from which the file at `file_path` is fetched.
pub fn file_url(base_url: &str, file_path: &str) -> (url: String)
    ensures
        url@ == base_url@ + "/"@ + file_path@,
{
    let mut url = joined(base_url, "/");
    push_chars(&mut url, &chars_of(file_path));
    url
}

/// The path of a file in the platform's answer: the answer must be marked
/// as good and hold a path.
pub fn file_path_of(ok: bool, result: Option<String>) -> (path: Result<String, String>)
    ensures
        match path {
            Ok(p) => ok && result == Some(p),
            Err(e) => !(ok && result is Some) && e@ == BAD_FILE_ID@,
        },
{
    match result {
        Some(p) => if ok {
            Ok(p)
        } else {
            Err(BAD_FILE_ID.to_owned())
        },
        None => Err(BAD_FILE_ID.to_owned()),
    }
}

/// The error of a call that the platform rejected with `answer`.
pub fn rejection(call: Call, answer: &str) -> (error: String)
    ensures
        error@ == rejection_of(call, answer@),
{
    let opening = match call {
        Call::SendText => "Telegram send error. Error: ",
        Call::SendImage => "Telegram send error. Error: ",
        Call::SendVoice => "Telegram send voice error. Error: ",
        Call::LeaveChat => "Telegram leave chat error. Error: ",
    };
    let mut error = joined(opening, answer);
    match call {
        Call::SendText => {},
        _ => {
            error.push('.');
            proof {
                reveal_strlit(".");
                assert("."@ =~= seq!['.']);
            }
        },
    }
    error
}

/// The error of a voice message that the platform took but did not mark as
/// good: what it says is wrong, or nothing where it says nothing.
pub fn voice_refusal(error: Option<String>) -> (text: String)
    ensures
        text@ == "Tg response error: "@ + (match error {
            Some(e) => e@,
            None => Seq::<char>::empty(),
        }),
{
    let detail = match error {
        Some(e) => e,
        None => String::new(),
    };
    joined("Tg response error: ", detail.as_str())
}

} // verus!
