//! The router: what, if anything, is to be done about an inbound message.
//!
//! A message with a picture asks what the picture shows.  A text with a link
//! in it gets, at most, a stock phrase.  Any other text is answered only in
//! a chat that is on the allow list, and there only if the chat is private,
//! the text begins with one of the bot's names, or the message replies to a
//! bot; it then asks either for a drawing or for a completion.

use crate::gpt_client::ModelMode;
use crate::matcher::{fold, folded, mappings, occurs_in};
pub use crate::matcher::{contains_case_insensitive, eq_case_insensitive};
use crate::text::{
    chars_of, contains, find, first_occurrence, lemma_first_occurrence, lowercase, occurs_at,
    lowercase_text, push_chars, replace, replace_all, starts_with, str_eq, string_of, tail,
};
use crate::tg_client::{Chat, InboundMessage, Message, Photo, PhotoSize, Update, photos_of};
use dyn_fmt::AsStrFormatExt;
use vstd::prelude::*;

verus! {

/// The word that asks for a drawing.
pub const DRAW_COMMAND: &'static str = "нарисуй";

/// The word that asks for the smart model.
pub const THINK_COMMAND: &'static str = "подумай";

/// What marks a text as holding a link.
pub const LINK_MARKER: &'static str = "https://";

/// The question that goes with a picture that has no caption.
pub const DEFAULT_CAPTION: &'static str = "Что на картинке?";

/// The heartbeat interval of a configuration that sets none, in seconds.
pub const DEFAULT_MESSAGE_DELAY: u64 = 20;

/// What is wrong with an update that holds no message.
pub const MESSAGE_MISSING: &'static str = "Message field is missing";

/// A message older than this many seconds is no longer answered.
pub const MAX_AGE: i64 = 600;

/// A configuration as the contracts see it.
pub struct AllowListConfig {
    /// Names to replace in a sender's display name, each with its
    /// replacement, in the order in which they are applied.  In the view of
    /// a configuration no name stands twice.
    pub name_map: Seq<(Seq<char>, Seq<char>)>,
    /// The template of the preamble that opens a prompt in a group chat.
    pub preamble: Seq<char>,
    /// The stock phrases for texts with links.
    pub dummy_answers: Seq<Seq<char>>,
    /// The chats in which the bot answers.
    pub allow_chats: Seq<i64>,
    /// The names by which the bot is addressed.
    pub names: Seq<Seq<char>>,
    /// The heartbeat interval, in seconds.
    pub message_delay: u64,
}

/// What the bot is set up with; it does not change while the bot runs.
#[derive(Debug, Clone)]
pub struct Config {
    name_map: Vec<(String, String)>,
    preamble: String,
    dummy_answers: Vec<&'static str>,
    tg_bot_allow_chats: Vec<i64>,
    tg_bot_names: Vec<&'static str>,
    /// The heartbeat interval, in seconds.
    pub message_delay: u64,
}

/// The texts of a list of strings.
pub open spec fn texts_of(list: Seq<&'static str>) -> Seq<Seq<char>> {
    Seq::new(list.len(), |i: int| list[i]@)
}

/// The texts of a list of pairs of strings.
pub open spec fn pairs_of(list: Seq<(String, String)>) -> Seq<(Seq<char>, Seq<char>)> {
    Seq::new(list.len(), |i: int| (list[i].0@, list[i].1@))
}

/// The place of `name` among the names of `table`, from `from` on.
pub open spec fn name_place(table: Seq<(Seq<char>, Seq<char>)>, name: Seq<char>, from: int) -> Option<
    int,
>
    decreases table.len() - from,
{
    if from < 0 || from >= table.len() {
        None
    } else if table[from].0 == name {
        Some(from)
    } else {
        name_place(table, name, from + 1)
    }
}

/// `table` with `to` as the replacement of `name`: in the place where the
/// name stands already, or else at the end.
pub open spec fn with_entry(
    table: Seq<(Seq<char>, Seq<char>)>,
    name: Seq<char>,
    to: Seq<char>,
) -> Seq<(Seq<char>, Seq<char>)> {
    match name_place(table, name, 0) {
        Some(at) => table.update(at, (name, to)),
        None => table.push((name, to)),
    }
}

/// The table that the first `n` of `pairs` make: every name once, in the
/// order in which the names first come, each with its last replacement.
pub open spec fn as_table(pairs: Seq<(Seq<char>, Seq<char>)>, n: int) -> Seq<
    (Seq<char>, Seq<char>),
>
    decreases n,
{
    if n <= 0 {
        Seq::empty()
    } else {
        with_entry(as_table(pairs, n - 1), pairs[n - 1].0, pairs[n - 1].1)
    }
}

/// No name stands twice in `table`.
pub open spec fn names_differ(table: Seq<(Seq<char>, Seq<char>)>) -> bool {
    forall|i: int, j: int| 0 <= i < j < table.len() ==> (#[trigger] table[i]).0 != (
    #[trigger] table[j]).0
}

/// `name_place` finds the first place of the name from `from` on, and none
/// exactly if the name stands nowhere from there on.
pub proof fn lemma_name_place(table: Seq<(Seq<char>, Seq<char>)>, name: Seq<char>, from: int)
    requires
        0 <= from,
    ensures
        match name_place(table, name, from) {
            Some(at) => from <= at < table.len() && table[at].0 == name,
            None => forall|k: int| from <= k < table.len() ==> (#[trigger] table[k]).0 != name,
        },
    decreases table.len() - from,
{
    if from < table.len() && table[from].0 != name {
        lemma_name_place(table, name, from + 1);
    }
}

/// A table in which no name stands twice stays one when an entry is set.
pub proof fn lemma_with_entry_differs(
    table: Seq<(Seq<char>, Seq<char>)>,
    name: Seq<char>,
    to: Seq<char>,
)
    requires
        names_differ(table),
    ensures
        names_differ(with_entry(table, name, to)),
{
    lemma_name_place(table, name, 0);
    let next = with_entry(table, name, to);
    assert forall|i: int, j: int| 0 <= i < j < next.len() implies (#[trigger] next[i]).0 != (
    #[trigger] next[j]).0 by {
        match name_place(table, name, 0) {
            Some(at) => {
                if i != at && j != at {
                    assert(table[i].0 != table[j].0);
                } else if i == at {
                    assert(table[at].0 != table[j].0);
                } else {
                    assert(table[i].0 != table[at].0);
                }
            },
            None => {
                if j < table.len() {
                    assert(table[i].0 != table[j].0);
                } else {
                    assert(table[i].0 != name);
                }
            },
        }
    }
}

/// In the table that pairs make no name stands twice.
pub proof fn lemma_as_table_differs(pairs: Seq<(Seq<char>, Seq<char>)>, n: int)
    ensures
        names_differ(as_table(pairs, n)),
    decreases n,
{
    if n > 0 {
        lemma_as_table_differs(pairs, n - 1);
        lemma_with_entry_differs(as_table(pairs, n - 1), pairs[n - 1].0, pairs[n - 1].1);
    }
}

impl View for Config {
    type V = AllowListConfig;

    closed spec fn view(&self) -> AllowListConfig {
        AllowListConfig {
            name_map: pairs_of(self.name_map@),
            preamble: self.preamble@,
            dummy_answers: texts_of(self.dummy_answers@),
            allow_chats: self.tg_bot_allow_chats@,
            names: texts_of(self.tg_bot_names@),
            message_delay: self.message_delay,
        }
    }
}

/// The place of `name` among the names of `table`.
fn place_in(table: &Vec<(String, String)>, name: &String) -> (place: Option<usize>)
    ensures
        match place {
            Some(at) => name_place(pairs_of(table@), name@, 0) == Some(at as int),
            None => name_place(pairs_of(table@), name@, 0) is None,
        },
{
    let ghost all = pairs_of(table@);
    let mut at: usize = 0;
    while at < table.len()
        invariant
            at <= table.len(),
            all == pairs_of(table@),
            name_place(all, name@, 0) == name_place(all, name@, at as int),
        decreases table.len() - at,
    {
        if str_eq(table[at].0.as_str(), name.as_str()) {
            return Some(at);
        }
        at += 1;
    }
    None
}

/// The table that `pairs` make: every name once, with its last replacement.
fn table_of(pairs: Vec<(String, String)>) -> (table: Vec<(String, String)>)
    ensures
        pairs_of(table@) == as_table(pairs_of(pairs@), pairs.len() as int),
        names_differ(pairs_of(table@)),
{
    let ghost given = pairs_of(pairs@);
    let mut table: Vec<(String, String)> = Vec::new();
    let mut i: usize = 0;
    assert(pairs_of(table@) =~= as_table(given, 0));
    while i < pairs.len()
        invariant
            i <= pairs.len(),
            given == pairs_of(pairs@),
            pairs_of(table@) == as_table(given, i as int),
        decreases pairs.len() - i,
    {
        let name = pairs[i].0.clone();
        let to = pairs[i].1.clone();
        let ghost before = pairs_of(table@);
        proof {
            lemma_name_place(before, name@, 0);
        }
        match place_in(&table, &name) {
            Some(at) => {
                table[at] = (name, to);
                assert(pairs_of(table@) =~= before.update(at as int, (name@, to@)));
            },
            None => {
                table.push((name, to));
                assert(pairs_of(table@) =~= before.push((name@, to@)));
            },
        }
        assert(given[i as int] == (pairs@[i as int].0@, pairs@[i as int].1@));
        i += 1;
    }
    proof {
        lemma_as_table_differs(given, pairs.len() as int);
    }
    table
}

impl Config {
    /// No name stands twice in the name map.
    pub open spec fn wf(&self) -> bool {
        names_differ(self@.name_map)
    }

    /// A configuration with the default heartbeat interval.  Of a name that
    /// `name_map` gives more than once, the last replacement counts, in the
    /// place where the name first stands.
    pub fn new(
        name_map: Vec<(String, String)>,
        preamble: String,
        dummy_answers: Vec<&'static str>,
        tg_bot_allow_chats: Vec<i64>,
        tg_bot_names: Vec<&'static str>,
    ) -> (config: Config)
        ensures
            config.wf(),
            config@ == (AllowListConfig {
                name_map: as_table(pairs_of(name_map@), name_map.len() as int),
                preamble: preamble@,
                dummy_answers: texts_of(dummy_answers@),
                allow_chats: tg_bot_allow_chats@,
                names: texts_of(tg_bot_names@),
                message_delay: DEFAULT_MESSAGE_DELAY,
            }),
    {
        Config {
            name_map: table_of(name_map),
            preamble,
            dummy_answers,
            tg_bot_allow_chats,
            tg_bot_names,
            message_delay: DEFAULT_MESSAGE_DELAY,
        }
    }

    /// The stock phrases for texts with links.
    pub fn dummy_answers(&self) -> (answers: &Vec<&'static str>)
        ensures
            texts_of(answers@) == self@.dummy_answers,
    {
        &self.dummy_answers
    }
}

/// An update that cannot be handled, with the reason.
#[derive(Debug, Clone, Copy, PartialEq, Eq)]
pub struct RequestError {
    pub msg: &'static str,
}

/// A text as `Debug` prints it: between double quotes, with the characters
/// escaped that a string literal would need escaped.
pub uninterp spec fn debug_form(s: Seq<char>) -> Seq<char>;

/// Formats `s` with `{:?}`, which for a string is the `Debug` form of `str`.
/// Nothing is proved of this function; its contract names the result.
#[verifier::external_body]
fn debug_text(s: &str) -> (out: String)
    ensures
        out@ == debug_form(s@),
{
    format!("{:?}", s)
}

impl RequestError {
    pub fn new(msg: &'static str) -> (error: RequestError)
        ensures
            error.msg == msg,
    {
        RequestError { msg }
    }

    /// The error as it is shown: its reason in the `Debug` form.
    pub fn to_text(&self) -> (out: String)
        ensures
            out@ == debug_form(self.msg@),
    {
        debug_text(self.msg)
    }
}

/// A message sent at `date` is too old at the time `now_secs` seconds and
/// `now_nanos` nanoseconds: more than `MAX_AGE` seconds have passed.
pub open spec fn too_old(date: i64, now_secs: i64, now_nanos: u32) -> bool {
    date + MAX_AGE < now_secs || (date + MAX_AGE == now_secs && now_nanos > 0)
}

/// What the router decides about a message.
#[derive(Debug, Clone, PartialEq, Eq)]
pub enum RouteDecision {
    /// The message gets no answer.
    Ignore,
    /// The message gets a stock phrase, or nothing.
    DummyReaction,
    /// A drawing of `prompt` is asked for.
    ImageGenerationRequest { prompt: String },
    /// The question `caption` is asked about the picture `file_id`.
    ImageUnderstandingRequest { caption: String, file_id: String },
    /// A completion of `prompt` is asked for.
    TextCompletionRequest { prompt: String, mode: ModelMode },
}

/// A decision as the contracts see it.
pub enum Route {
    Ignore,
    DummyReaction,
    ImageGeneration { prompt: Seq<char> },
    ImageUnderstanding { caption: Seq<char>, file_id: Seq<char> },
    TextCompletion { prompt: Seq<char>, mode: ModelMode },
}

impl View for RouteDecision {
    type V = Route;

    open spec fn view(&self) -> Route {
        match *self {
            RouteDecision::Ignore => Route::Ignore,
            RouteDecision::DummyReaction => Route::DummyReaction,
            RouteDecision::ImageGenerationRequest { prompt } => Route::ImageGeneration {
                prompt: prompt@,
            },
            RouteDecision::ImageUnderstandingRequest {
                caption,
                file_id,
            } => Route::ImageUnderstanding { caption: caption@, file_id: file_id@ },
            RouteDecision::TextCompletionRequest { prompt, mode } => Route::TextCompletion {
                prompt: prompt@,
                mode,
            },
        }
    }
}

/// The index of the first of `names`, from `from` on, that `text` begins
/// with.
pub open spec fn trigger_from(names: Seq<Seq<char>>, text: Seq<char>, from: int) -> Option<int>
    decreases names.len() - from,
{
    if from < 0 || from >= names.len() {
        None
    } else if names[from].is_prefix_of(text) {
        Some(from)
    } else {
        trigger_from(names, text, from + 1)
    }
}

/// The first of `names` that `text` begins with.
pub open spec fn trigger_name(names: Seq<Seq<char>>, text: Seq<char>) -> Option<Seq<char>> {
    match trigger_from(names, text, 0) {
        Some(i) => Some(names[i]),
        None => None,
    }
}

/// Whether a message is answered at all: the chat is on the allow list, and
/// it is private, or the bot was called by name, or the message replies to
/// a bot.
pub open spec fn answer_allowed(
    allow_chats: Seq<i64>,
    chat_id: i64,
    private: bool,
    named: bool,
    reply_to_bot: Option<bool>,
) -> bool {
    allow_chats.contains(chat_id) && (private || named || reply_to_bot == Some(true))
}

/// Whether the message is answered at all, its text or caption being `text`.
pub open spec fn is_answered(m: InboundMessage, c: AllowListConfig, text: Seq<char>) -> bool {
    answer_allowed(c.allow_chats, m.chat_id, m.private, trigger_name(c.names, text) is Some, m.reply_to_bot)
}

/// `text` without the name that it was addressed by: every occurrence of the
/// name is taken out.
pub open spec fn without_name(names: Seq<Seq<char>>, text: Seq<char>) -> Seq<char> {
    match trigger_name(names, text) {
        Some(name) => replace_all(text, name, Seq::empty()),
        None => text,
    }
}

/// `name` after the first `n` replacements of `map`, applied in order.
pub open spec fn remapped(name: Seq<char>, map: Seq<(Seq<char>, Seq<char>)>, n: int) -> Seq<char>
    decreases n,
{
    if n <= 0 {
        name
    } else {
        replace_all(remapped(name, map, n - 1), map[n - 1].0, map[n - 1].1)
    }
}

/// The preamble that `template` gives for a sender called `name`: what
/// `dyn_fmt` makes of the template with `name` as its one argument.
pub uninterp spec fn preamble_for(template: Seq<char>, name: Seq<char>) -> Seq<char>;

/// How many characters of a lowercase form the first `n` of `mapped` take
/// up: the lengths of these lowercase mappings, added up.
pub open spec fn lowered_width(mapped: Seq<Seq<char>>, n: int) -> int
    decreases n,
{
    if n <= 0 {
        0
    } else {
        lowered_width(mapped, n - 1) + mapped[n - 1].len()
    }
}

/// The number of characters, from `from` on, that it takes for their
/// lowercase mappings to take up `end` characters or more; the number of all
/// of them where they never do.
pub open spec fn place_after(mapped: Seq<Seq<char>>, end: int, from: int) -> int
    decreases mapped.len() - from,
{
    if from >= mapped.len() || lowered_width(mapped, from) >= end {
        from
    } else {
        place_after(mapped, end, from + 1)
    }
}

/// What is to be drawn, if a text asks for a drawing, given the text, its
/// lowercase form `low` and the lowercase mapping of each of its characters.
/// It asks for one if `low` holds `DRAW_COMMAND`, and what is to be drawn is
/// the text's own ending after the first such place: the text from the
/// first character on that stands, in `low`, at or after the end of the
/// command, each character of the text taking up in `low` as many places as
/// its lowercase mapping is long.
pub open spec fn draw_prompt_with(
    text: Seq<char>,
    low: Seq<char>,
    mapped: Seq<Seq<char>>,
) -> Option<Seq<char>> {
    match first_occurrence(low, DRAW_COMMAND@) {
        Some(at) => {
            let place = place_after(mapped, at + DRAW_COMMAND@.len(), 0);
            Some(
                text.skip(
                    if place <= text.len() {
                        place
                    } else {
                        text.len() as int
                    },
                ),
            )
        },
        None => None,
    }
}

/// What is to be drawn, if `text` asks for a drawing: the text that follows
/// the first `DRAW_COMMAND` of its lowercase form, taken from `text` itself.
pub open spec fn draw_prompt(text: Seq<char>) -> Option<Seq<char>> {
    draw_prompt_with(text, lowercase_text(text), folded(text))
}

/// The model for a prompt: the smart one in a private chat where the prompt
/// holds `THINK_COMMAND` up to case, else the fast one.
pub open spec fn mode_for(private: bool, prompt: Seq<char>) -> ModelMode {
    if private && occurs_in(prompt, THINK_COMMAND@) {
        ModelMode::Smart
    } else {
        ModelMode::Fast
    }
}

/// The request for a completion of `text`: in a private chat the prompt is
/// the text as it is, in any other chat `preamble`, then the text; the model
/// is the one for the prompt.
pub open spec fn completion_route(private: bool, preamble: Seq<char>, text: Seq<char>) -> Route {
    let prompt = if private {
        text
    } else {
        preamble + text
    };
    Route::TextCompletion { prompt, mode: mode_for(private, prompt) }
}

/// The preamble for the sender of a message: what the template gives for
/// the sender's display name after the replacements of the name map.
pub open spec fn sender_preamble(m: InboundMessage, c: AllowListConfig) -> Seq<char> {
    preamble_for(c.preamble, remapped(m.sender_name, c.name_map, c.name_map.len() as int))
}

/// The index of the largest of the first `n` photos, the last of them where
/// several are equally large.
pub open spec fn largest_photo(photos: Seq<Photo>, n: int) -> int
    decreases n,
{
    if n <= 1 {
        0
    } else {
        let best = largest_photo(photos, n - 1);
        if photos[n - 1].file_size >= photos[best].file_size {
            n - 1
        } else {
            best
        }
    }
}

/// The decision about a text that is answered.
pub open spec fn answer_to(m: InboundMessage, c: AllowListConfig, text: Seq<char>) -> Route {
    let stripped = without_name(c.names, text);
    match draw_prompt(stripped) {
        Some(prompt) => Route::ImageGeneration { prompt },
        None => completion_route(m.private, sender_preamble(m, c), stripped),
    }
}

/// The decision about a message.
pub open spec fn route_of(m: InboundMessage, c: AllowListConfig) -> Route {
    match m.photos {
        Some(photos) => {
            let caption = match m.caption {
                Some(caption) => caption,
                None => DEFAULT_CAPTION@,
            };
            if is_answered(m, c, caption) && photos.len() > 0 {
                Route::ImageUnderstanding {
                    caption,
                    file_id: photos[largest_photo(photos, photos.len() as int)].file_id,
                }
            } else {
                Route::Ignore
            }
        },
        None => match m.text {
            Some(text) => {
                if contains(text, LINK_MARKER@) {
                    Route::DummyReaction
                } else if is_answered(m, c, text) {
                    answer_to(m, c, text)
                } else {
                    Route::Ignore
                }
            },
            None => Route::Ignore,
        },
    }
}

/// `trigger_from` finds a name exactly if `text` begins with one of the
/// names from `from` on, and then the first of them.
pub proof fn lemma_trigger_from(names: Seq<Seq<char>>, text: Seq<char>, from: int)
    requires
        0 <= from,
    ensures
        match trigger_from(names, text, from) {
            Some(i) => {
                &&& from <= i < names.len()
                &&& names[i].is_prefix_of(text)
                &&& forall|j: int| from <= j < i ==> !(#[trigger] names[j]).is_prefix_of(text)
            },
            None => forall|j: int|
                from <= j < names.len() ==> !(#[trigger] names[j]).is_prefix_of(text),
        },
    decreases names.len() - from,
{
    if from < names.len() && !names[from].is_prefix_of(text) {
        lemma_trigger_from(names, text, from + 1);
    }
}

/// The bot counts as called by name exactly if the text begins with one of
/// its names.
pub proof fn lemma_trigger_name(names: Seq<Seq<char>>, text: Seq<char>)
    ensures
        trigger_name(names, text) is Some <==> exists|i: int|
            0 <= i < names.len() && (#[trigger] names[i]).is_prefix_of(text),
        trigger_name(names, text) matches Some(name) ==> name.is_prefix_of(text),
{
    lemma_trigger_from(names, text, 0);
}

/// The photo that `largest_photo` picks is one of the first `n`, none of
/// them is larger, and none after it is as large.
pub proof fn lemma_largest_photo(photos: Seq<Photo>, n: int)
    requires
        1 <= n <= photos.len(),
    ensures
        ({
            let best = largest_photo(photos, n);
            &&& 0 <= best < n
            &&& forall|j: int| 0 <= j < n ==> (#[trigger] photos[j]).file_size
                <= photos[best].file_size
            &&& forall|j: int| best < j < n ==> (#[trigger] photos[j]).file_size
                < photos[best].file_size
        }),
    decreases n,
{
    if n > 1 {
        lemma_largest_photo(photos, n - 1);
    }
}

/// The message is a text with a link in it, and shows no picture.
pub open spec fn is_link_text(m: InboundMessage) -> bool {
    &&& m.photos is None
    &&& m.text is Some
    &&& contains(m.text->0, LINK_MARKER@)
}

/// The message has nothing to answer: neither text nor picture.
pub open spec fn is_empty_message(m: InboundMessage) -> bool {
    match m.photos {
        Some(photos) => photos.len() == 0,
        None => m.text is None,
    }
}

/// In a chat that is not on the allow list, a message is ignored whatever
/// it holds, unless it is a text with a link in it and without a picture:
/// such a text gets the stock reaction in every chat.
pub proof fn lemma_unlisted_chat_is_ignored(m: InboundMessage, c: AllowListConfig)
    requires
        !c.allow_chats.contains(m.chat_id),
        !is_link_text(m),
    ensures
        route_of(m, c) is Ignore,
{
}

/// A message in a private chat is answered exactly if the chat is on the
/// allow list: no name and no reply is asked of it.  So a message in a
/// listed private chat is ignored only if it has nothing to answer: neither
/// text nor picture.
pub proof fn lemma_private_chat_passes(m: InboundMessage, c: AllowListConfig, text: Seq<char>)
    requires
        m.private,
    ensures
        is_answered(m, c, text) == c.allow_chats.contains(m.chat_id),
        c.allow_chats.contains(m.chat_id) && route_of(m, c) is Ignore ==> is_empty_message(m),
{
}

/// Whether a message sent at `date` is too old to be answered at the time
/// given, all in seconds since the Unix epoch, the time with its nanoseconds
/// beside it.
pub fn is_too_old(date: i64, now_secs: i64, now_nanos: u32) -> (old: bool)
    ensures
        old == too_old(date, now_secs, now_nanos),
{
    let deadline: i128 = date as i128 + MAX_AGE as i128;
    let now: i128 = now_secs as i128;
    deadline < now || (deadline == now && now_nanos > 0)
}

/// Picks the message out of an update.  An update without a message is an
/// error.  A message that is too old at the time given is passed over: the
/// result is `Ok(None)`.
pub fn screen_update(update: Option<Update>, now_secs: i64, now_nanos: u32) -> (screened: Result<
    Option<Message>,
    RequestError,
>)
    ensures
        match screened {
            Ok(Some(message)) => update matches Some(u) && u.message == Some(message) && !too_old(
                message.date,
                now_secs,
                now_nanos,
            ),
            Ok(None) => update matches Some(u) && u.message is Some && too_old(
                u.message->0.date,
                now_secs,
                now_nanos,
            ),
            Err(error) => error.msg == MESSAGE_MISSING && !(update matches Some(u)
                && u.message is Some),
        },
{
    let message = match update {
        Some(update) => update.message,
        None => None,
    };
    match message {
        None => Err(RequestError::new(MESSAGE_MISSING)),
        Some(message) => {
            if is_too_old(message.date, now_secs, now_nanos) {
                Ok(None)
            } else {
                Ok(Some(message))
            }
        },
    }
}

/// Calls `format` of `dyn_fmt` on the template with `name` as the only
/// argument: each `{}` of the template stands for the next argument, of
/// which there is one.  Nothing is proved of this function; its contract
/// names the result.
#[verifier::external_body]
fn format_preamble(template: &str, name: &str) -> (out: String)
    ensures
        out@ == preamble_for(template@, name@),
{
    template.format(&[name])
}

/// Whether a message gets an answer at all: the chat is on the allow list,
/// and it is private, or the bot was called by name, or the message replies
/// to one that a bot sent.
pub fn should_answer(
    reply_to_message: Option<&Message>,
    chat: &Chat,
    used_name: Option<&str>,
    tg_bot_allow_chats: &[i64],
) -> (answer: bool)
    ensures
        answer == answer_allowed(
            tg_bot_allow_chats@,
            chat.id,
            chat.private(),
            used_name is Some,
            match reply_to_message {
                Some(parent) => Some(parent.from.is_bot),
                None => None,
            },
        ),
{
    let mut listed = false;
    let mut i: usize = 0;
    while i < tg_bot_allow_chats.len()
        invariant
            i <= tg_bot_allow_chats.len(),
            listed == exists|j: int| 0 <= j < i && tg_bot_allow_chats@[j] == chat.id,
        decreases tg_bot_allow_chats.len() - i,
    {
        if tg_bot_allow_chats[i] == chat.id {
            listed = true;
        }
        i += 1;
    }
    assert(listed == tg_bot_allow_chats@.contains(chat.id));
    let replies_to_bot = match reply_to_message {
        Some(parent) => parent.from.is_bot,
        None => false,
    };
    listed && (chat.is_private() || used_name.is_some() || replies_to_bot)
}

/// The first of `names` that `text` begins with.
fn find_used_name(names: &Vec<&'static str>, text: &Vec<char>) -> (used: Option<&'static str>)
    ensures
        match used {
            Some(name) => trigger_name(texts_of(names@), text@) == Some(name@),
            None => trigger_name(texts_of(names@), text@) is None,
        },
{
    let ghost all = texts_of(names@);
    let mut i: usize = 0;
    while i < names.len()
        invariant
            i <= names.len(),
            all == texts_of(names@),
            trigger_from(all, text@, 0) == trigger_from(all, text@, i as int),
        decreases names.len() - i,
    {
        let name: &'static str = names[i];
        if starts_with(text, &chars_of(name)) {
            return Some(name);
        }
        i += 1;
    }
    None
}

/// The message that `message` replies to, if it replies to one.
fn parent_of(message: &Message) -> (parent: Option<&Message>)
    ensures
        match parent {
            Some(p) => message.reply_to_message is Some && *message.reply_to_message->0 == *p,
            None => message.reply_to_message is None,
        },
{
    match &message.reply_to_message {
        Some(parent) => Some(&**parent),
        None => None,
    }
}

/// The sender's display name after the replacements of `map`, applied in
/// order.
fn remap_name(name: &str, map: &Vec<(String, String)>) -> (out: Vec<char>)
    ensures
        out@ == remapped(name@, pairs_of(map@), map.len() as int),
{
    let ghost pairs = pairs_of(map@);
    let mut out = chars_of(name);
    let mut i: usize = 0;
    while i < map.len()
        invariant
            i <= map.len(),
            pairs == pairs_of(map@),
            out@ == remapped(name@, pairs, i as int),
        decreases map.len() - i,
    {
        let from = chars_of(map[i].0.as_str());
        let to = chars_of(map[i].1.as_str());
        out = replace(&out, &from, &to);
        i += 1;
    }
    out
}

/// The number of characters that it takes for their lowercase mappings to
/// take up `end` characters or more.
fn place_of(mapped: &Vec<Vec<char>>, end: usize) -> (place: usize)
    ensures
        place == place_after(mappings(mapped@), end as int, 0),
        place <= mapped.len(),
{
    let ghost all = mappings(mapped@);
    let mut n: usize = 0;
    let mut width: usize = 0;
    loop
        invariant
            all == mappings(mapped@),
            n <= mapped.len(),
            width == lowered_width(all, n as int),
            place_after(all, end as int, 0) == place_after(all, end as int, n as int),
        decreases mapped.len() - n,
    {
        if n >= mapped.len() || width >= end {
            return n;
        }
        let step = mapped[n].len();
        assert(all[n as int] == mapped@[n as int]@);
        assert(lowered_width(all, n + 1) == width + step);
        if step >= end - width {
            assert(place_after(all, end as int, n as int) == place_after(all, end as int, n + 1));
            assert(place_after(all, end as int, n + 1) == n + 1);
            return n + 1;
        }
        width += step;
        n += 1;
    }
}

/// What is to be drawn, if `text` asks for a drawing, given its lowercase
/// form and the lowercase mapping of each of its characters.
pub fn draw_prompt_in(text: &Vec<char>, low: &Vec<char>, mapped: &Vec<Vec<char>>) -> (prompt:
    Option<String>)
    ensures
        match prompt {
            Some(p) => draw_prompt_with(text@, low@, mappings(mapped@)) == Some(p@),
            None => draw_prompt_with(text@, low@, mappings(mapped@)) is None,
        },
{
    let command = chars_of(DRAW_COMMAND);
    match find(low, &command) {
        None => None,
        Some(at) => {
            proof {
                lemma_first_occurrence(low@, command@);
                assert(occurs_at(low@, command@, at as int));
                assert(low@.len() == low.len());
            }
            let place = place_of(mapped, at + command.len());
            let from = if place <= text.len() {
                place
            } else {
                text.len()
            };
            Some(string_of(&tail(text, from)))
        },
    }
}

/// What is to be drawn, if `text` asks for a drawing.
fn draw_request(text: &Vec<char>) -> (prompt: Option<String>)
    ensures
        match prompt {
            Some(p) => draw_prompt(text@) == Some(p@),
            None => draw_prompt(text@) is None,
        },
{
    let low = chars_of(lowercase(string_of(text).as_str()).as_str());
    draw_prompt_in(text, &low, &fold(text))
}

/// The request for a completion of `stripped`: in a private chat the prompt
/// is the text as it is, in any other chat `preamble`, then the text.
pub fn completion_request(private: bool, preamble: String, stripped: &Vec<char>) -> (decision:
    RouteDecision)
    ensures
        decision@ == completion_route(private, preamble@, stripped@),
{
    let prompt = if private {
        string_of(stripped)
    } else {
        let mut prompt = preamble;
        push_chars(&mut prompt, stripped);
        prompt
    };
    let mode = if private && contains_case_insensitive(prompt.as_str(), THINK_COMMAND) {
        ModelMode::Smart
    } else {
        ModelMode::Fast
    };
    RouteDecision::TextCompletionRequest { prompt, mode }
}

/// The decision about a text that is answered.
fn route_answer(message: &Message, config: &Config, text: Vec<char>, used: Option<&str>) -> (decision:
    RouteDecision)
    requires
        match used {
            Some(name) => trigger_name(config@.names, text@) == Some(name@),
            None => trigger_name(config@.names, text@) is None,
        },
    ensures
        decision@ == answer_to(message@, config@, text@),
{
    let stripped = match used {
        Some(name) => replace(&text, &chars_of(name), &Vec::new()),
        None => text,
    };
    if let Some(prompt) = draw_request(&stripped) {
        return RouteDecision::ImageGenerationRequest { prompt };
    }
    let private = message.chat.is_private();
    let preamble = if private {
        String::new()
    } else {
        let name = remap_name(message.from.first_name.as_str(), &config.name_map);
        format_preamble(config.preamble.as_str(), string_of(&name).as_str())
    };
    completion_request(private, preamble, &stripped)
}

/// The largest of `photos`, the last of them where several are equally
/// large.
fn pick_photo(photos: &Vec<PhotoSize>) -> (at: usize)
    requires
        photos.len() > 0,
    ensures
        at == largest_photo(photos_of(photos@), photos.len() as int),
        at < photos.len(),
{
    let ghost all = photos_of(photos@);
    let mut best: usize = 0;
    let mut i: usize = 1;
    while i < photos.len()
        invariant
            1 <= i <= photos.len(),
            best < i,
            all == photos_of(photos@),
            best == largest_photo(all, i as int),
        decreases photos.len() - i,
    {
        if photos[i].file_size >= photos[best].file_size {
            best = i;
        }
        i += 1;
    }
    best
}

/// Decides what is to be done about `message`.
pub fn route(message: &Message, config: &Config) -> (decision: RouteDecision)
    ensures
        decision@ == route_of(message@, config@),
{
    let parent = parent_of(message);
    match &message.photo {
        Some(photos) => {
            let caption = match &message.caption {
                Some(caption) => caption.clone(),
                None => DEFAULT_CAPTION.to_owned(),
            };
            let used = find_used_name(&config.tg_bot_names, &chars_of(caption.as_str()));
            if should_answer(parent, &message.chat, used, config.tg_bot_allow_chats.as_slice())
                && photos.len() > 0 {
                let at = pick_photo(photos);
                assert(photos_of(photos@)[at as int] == photos@[at as int]@);
                RouteDecision::ImageUnderstandingRequest {
                    caption,
                    file_id: photos[at].file_id.clone(),
                }
            } else {
                RouteDecision::Ignore
            }
        },
        None => match &message.text {
            Some(text) => {
                let chars = chars_of(text.as_str());
                let marker = chars_of(LINK_MARKER);
                proof {
                    lemma_first_occurrence(chars@, marker@);
                }
                if find(&chars, &marker).is_some() {
                    return RouteDecision::DummyReaction;
                }
                let used = find_used_name(&config.tg_bot_names, &chars);
                if should_answer(
                    parent,
                    &message.chat,
                    used,
                    config.tg_bot_allow_chats.as_slice(),
                ) {
                    route_answer(message, config, chars, used)
                } else {
                    RouteDecision::Ignore
                }
            },
            None => RouteDecision::Ignore,
        },
    }
}

} // verus!
