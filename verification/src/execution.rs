//! Carrying out a routing decision, one step at a time.
//!
//! A step names what the caller is to do next: ask the completion service,
//! resolve a file, send a text or an image, or finish.  When the caller has
//! done it, it hands the outcome to `advance` and gets the next step back.
//! The library never waits and never sends; it only says what comes next.
//!
//! A failure is either one of the completion service or one of the chat
//! platform.  A failure of the service is held while the user is told about
//! it, and is what the execution finishes with, unless telling the user
//! failed too: then that later failure is.  A failure of the platform always
//! reaches the caller: no execution ends well after one.  After a completion
//! or a drawing, a failure is, in a private chat, also echoed to the user;
//! in any other chat a failure of the service is dropped there.

use crate::gpt_client::ModelMode;
use crate::message_processor::{Config, Route, RouteDecision};
use crate::text::{chars_of, push_chars};
use crate::tg_client::Message;
use vstd::prelude::*;

verus! {

/// The markup in which answers are sent.
pub const MARKDOWN: &'static str = "MarkdownV2";

/// What the user is told when a drawing cannot be made.
pub const CANNOT_DRAW: &'static str = "Сейчас я такое не могу нарисовать";

/// What the user is told when a picture cannot be described.
pub const ASK_AGAIN: &'static str = "Прости, я задумался. Можешь повторить?";

/// What opens and closes an error that is echoed to the user.
pub const FENCE: &'static str = "```";

/// A text with a link in it gets a stock phrase when a number drawn from 0
/// to 99 is below this.
pub const DUMMY_CHANCE: u32 = 30;

/// For whom a decision is carried out.
#[derive(Debug, Clone, Copy, PartialEq, Eq, Structural)]
pub struct Session {
    /// The chat that every answer goes to.
    pub chat_id: i64,
    /// The user whose conversation the completion service continues.
    pub user_id: i64,
    /// Whether the chat is private: a private chat has a completion service
    /// of its own, and is told of failures.
    pub private: bool,
}

impl Session {
    /// The session of a message: its chat, and its sender as the user.
    pub fn of(message: &Message) -> (session: Session)
        ensures
            session.chat_id == message@.chat_id,
            session.user_id == message@.sender_id,
            session.private == message@.private,
    {
        Session {
            chat_id: message.chat.id,
            user_id: message.from.id,
            private: message.chat.is_private(),
        }
    }
}

/// Why a decision could not be carried out, with what the failing side said.
#[derive(Debug, Clone, PartialEq, Eq)]
pub enum Failure {
    /// The completion service did not answer as asked.
    RemoteCall(String),
    /// The chat platform did not take a message, or did not hand out a file.
    Delivery(String),
}

/// A failure as the contracts see it.
pub enum Fault {
    RemoteCall(Seq<char>),
    Delivery(Seq<char>),
}

impl Fault {
    /// What the failing side said.
    pub open spec fn message(self) -> Seq<char> {
        match self {
            Fault::RemoteCall(text) => text,
            Fault::Delivery(text) => text,
        }
    }
}

impl View for Failure {
    type V = Fault;

    open spec fn view(&self) -> Fault {
        match *self {
            Failure::RemoteCall(text) => Fault::RemoteCall(text@),
            Failure::Delivery(text) => Fault::Delivery(text@),
        }
    }
}

impl Failure {
    /// What the failing side said.
    pub fn message(&self) -> (text: &String)
        ensures
            text@ == self@.message(),
    {
        match self {
            Failure::RemoteCall(text) => text,
            Failure::Delivery(text) => text,
        }
    }
}

/// What the caller is to do next.
#[derive(Debug, PartialEq, Eq)]
pub enum Step {
    /// Nothing more: the execution ends with `result`.
    Finish { result: Result<(), Failure> },
    /// Draw a number from 0 to 99 and hand it to `dummy_wanted`; if that
    /// says so, pick a place among the stock phrases at random; hand both to
    /// `stock_phrase` and report the phrase.
    Roll,
    /// Ask the platform where the file is, then call `after_resolve`.
    ResolveFile { file_id: String, caption: String },
    /// Ask the completion service about the picture, then call
    /// `after_description`.
    Describe { caption: String, image_url: String },
    /// Ask the completion service to complete the prompt, then call
    /// `after_completion`.
    Complete { prompt: String, mode: ModelMode },
    /// Ask the completion service for a drawing, then call `after_drawing`.
    Draw { prompt: String },
    /// Send the text to the chat, then call `after_text_sent` with `held`
    /// and `escalate` as they stand here.
    SendText { text: String, parse_mode: Option<&'static str>, held: Option<Failure>, escalate: bool },
    /// Send the image to the chat, then call `after_image_sent`.
    SendImage { image: Vec<u8> },
}

/// The outcome of an execution as the contracts see it.
pub open spec fn result_view(result: Result<(), Failure>) -> Result<(), Fault> {
    match result {
        Ok(()) => Ok(()),
        Err(e) => Err(e@),
    }
}

/// A failure that is held, as the contracts see it.
pub open spec fn held_view(held: Option<Failure>) -> Option<Fault> {
    match held {
        Some(e) => Some(e@),
        None => None,
    }
}

/// An optional string slice as the contracts see it.
pub open spec fn mode_view(parse_mode: Option<&'static str>) -> Option<Seq<char>> {
    match parse_mode {
        Some(m) => Some(m@),
        None => None,
    }
}

/// A step as the contracts see it.
pub enum Plan {
    Finish { result: Result<(), Fault> },
    Roll,
    ResolveFile { file_id: Seq<char>, caption: Seq<char> },
    Describe { caption: Seq<char>, image_url: Seq<char> },
    Complete { prompt: Seq<char>, mode: ModelMode },
    Draw { prompt: Seq<char> },
    SendText {
        text: Seq<char>,
        parse_mode: Option<Seq<char>>,
        held: Option<Fault>,
        escalate: bool,
    },
    SendImage { image: Seq<u8> },
}

impl View for Step {
    type V = Plan;

    open spec fn view(&self) -> Plan {
        match *self {
            Step::Finish { result } => Plan::Finish { result: result_view(result) },
            Step::Roll => Plan::Roll,
            Step::ResolveFile { file_id, caption } => Plan::ResolveFile {
                file_id: file_id@,
                caption: caption@,
            },
            Step::Describe { caption, image_url } => Plan::Describe {
                caption: caption@,
                image_url: image_url@,
            },
            Step::Complete { prompt, mode } => Plan::Complete { prompt: prompt@, mode },
            Step::Draw { prompt } => Plan::Draw { prompt: prompt@ },
            Step::SendText { text, parse_mode, held, escalate } => Plan::SendText {
                text: text@,
                parse_mode: mode_view(parse_mode),
                held: held_view(held),
                escalate,
            },
            Step::SendImage { image } => Plan::SendImage { image: image@ },
        }
    }
}

/// What came of a step, as the caller reports it.  What a failing side said
/// comes as a text.
#[derive(Debug, PartialEq, Eq)]
pub enum Outcome {
    /// After `Roll`: the stock phrase that was picked, if one was.
    Rolled { phrase: Option<String> },
    /// After `ResolveFile`: where the file is.
    Resolved { url: Result<String, String> },
    /// After `Describe`: what the picture shows.
    Described { answer: Result<String, String> },
    /// After `Complete`: the completion.
    Completed { answer: Result<String, String> },
    /// After `Draw`: the drawing.
    Drawn { image: Result<Vec<u8>, String> },
    /// After `SendText`: whether the platform took the text.
    TextSent { sent: Result<(), String> },
    /// After `SendImage`: whether the platform took the image.
    ImageSent { sent: Result<(), String> },
}

/// An outcome as the contracts see it.
pub enum Report {
    Rolled { phrase: Option<Seq<char>> },
    Resolved { url: Result<Seq<char>, Seq<char>> },
    Described { answer: Result<Seq<char>, Seq<char>> },
    Completed { answer: Result<Seq<char>, Seq<char>> },
    Drawn { image: Result<Seq<u8>, Seq<char>> },
    TextSent { sent: Result<(), Seq<char>> },
    ImageSent { sent: Result<(), Seq<char>> },
}

/// A text or what a failing side said, as the contracts see it.
pub open spec fn text_result(result: Result<String, String>) -> Result<Seq<char>, Seq<char>> {
    match result {
        Ok(text) => Ok(text@),
        Err(e) => Err(e@),
    }
}

/// Whether something was sent, as the contracts see it.
pub open spec fn unit_result(result: Result<(), String>) -> Result<(), Seq<char>> {
    match result {
        Ok(()) => Ok(()),
        Err(e) => Err(e@),
    }
}

impl View for Outcome {
    type V = Report;

    open spec fn view(&self) -> Report {
        match *self {
            Outcome::Rolled { phrase } => Report::Rolled {
                phrase: match phrase {
                    Some(a) => Some(a@),
                    None => None,
                },
            },
            Outcome::Resolved { url } => Report::Resolved { url: text_result(url) },
            Outcome::Described { answer } => Report::Described { answer: text_result(answer) },
            Outcome::Completed { answer } => Report::Completed { answer: text_result(answer) },
            Outcome::Drawn { image } => Report::Drawn {
                image: match image {
                    Ok(bytes) => Ok(bytes@),
                    Err(e) => Err(e@),
                },
            },
            Outcome::TextSent { sent } => Report::TextSent { sent: unit_result(sent) },
            Outcome::ImageSent { sent } => Report::ImageSent { sent: unit_result(sent) },
        }
    }
}

/// The step that a decision begins with.
pub open spec fn first_plan(route: Route) -> Plan {
    match route {
        Route::Ignore => Plan::Finish { result: Ok(()) },
        Route::DummyReaction => Plan::Roll,
        Route::ImageGeneration { prompt } => Plan::Draw { prompt },
        Route::ImageUnderstanding { caption, file_id } => Plan::ResolveFile { file_id, caption },
        Route::TextCompletion { prompt, mode } => Plan::Complete { prompt, mode },
    }
}

/// An error as it is echoed to the user: between two fences, each on a line
/// of its own.
pub open spec fn echoed(error: Seq<char>) -> Seq<char> {
    FENCE@ + seq!['\n'] + error + seq!['\n'] + FENCE@
}

/// What becomes of a failure after a completion or a drawing.  In a private
/// chat what the failing side said is echoed to the user, and the failure
/// then ends the execution.  In any other chat a failure of the platform
/// ends the execution at once, and a failure of the service is dropped.
pub open spec fn failure_plan(private: bool, failure: Fault) -> Plan {
    if private {
        Plan::SendText {
            text: echoed(failure.message()),
            parse_mode: Some(MARKDOWN@),
            held: Some(failure),
            escalate: false,
        }
    } else {
        match failure {
            Fault::Delivery(_) => Plan::Finish { result: Err(failure) },
            Fault::RemoteCall(_) => Plan::Finish { result: Ok(()) },
        }
    }
}

/// The step after a text was sent, or could not be sent.
pub open spec fn text_sent_plan(
    private: bool,
    held: Option<Fault>,
    escalate: bool,
    sent: Result<(), Fault>,
) -> Plan {
    let error = match sent {
        Err(e) => Some(e),
        Ok(()) => held,
    };
    match error {
        None => Plan::Finish { result: Ok(()) },
        Some(e) => if escalate {
            failure_plan(private, e)
        } else {
            Plan::Finish { result: Err(e) }
        },
    }
}

/// A text that goes out as an answer, with no failure held.
pub open spec fn answer_plan(text: Seq<char>, escalate: bool) -> Plan {
    Plan::SendText { text, parse_mode: Some(MARKDOWN@), held: None, escalate }
}

/// The step after `Roll`: the phrase that was picked is sent, and where none
/// was picked the execution ends.
pub open spec fn rolled_plan(answer: Option<Seq<char>>) -> Plan {
    match answer {
        Some(a) => answer_plan(a, false),
        None => Plan::Finish { result: Ok(()) },
    }
}

/// The step after `ResolveFile`: the picture is described, or the failure
/// of the platform ends the execution.
pub open spec fn resolved_plan(caption: Seq<char>, url: Result<Seq<char>, Seq<char>>) -> Plan {
    match url {
        Ok(url) => Plan::Describe { caption, image_url: url },
        Err(e) => Plan::Finish { result: Err(Fault::Delivery(e)) },
    }
}

/// The step after `Describe`: the description is sent, or the user is asked
/// to try again and the failure of the service is held.
pub open spec fn described_plan(answer: Result<Seq<char>, Seq<char>>) -> Plan {
    match answer {
        Ok(answer) => answer_plan(answer, false),
        Err(e) => Plan::SendText {
            text: ASK_AGAIN@,
            parse_mode: Some(MARKDOWN@),
            held: Some(Fault::RemoteCall(e)),
            escalate: false,
        },
    }
}

/// The step after `Complete`: the answer is sent, or the failure of the
/// service is dealt with as `failure_plan` says.
pub open spec fn completed_plan(private: bool, answer: Result<Seq<char>, Seq<char>>) -> Plan {
    match answer {
        Ok(answer) => answer_plan(answer, true),
        Err(e) => failure_plan(private, Fault::RemoteCall(e)),
    }
}

/// The step after `Draw`: the drawing is sent, or the user is told that it
/// cannot be made and the failure of the service is held.
pub open spec fn drawn_plan(image: Result<Seq<u8>, Seq<char>>) -> Plan {
    match image {
        Ok(image) => Plan::SendImage { image },
        Err(e) => Plan::SendText {
            text: CANNOT_DRAW@,
            parse_mode: None,
            held: Some(Fault::RemoteCall(e)),
            escalate: true,
        },
    }
}

/// The step after `SendImage`: the execution ends, or the failure of the
/// platform is dealt with as `failure_plan` says.
pub open spec fn image_sent_plan(private: bool, sent: Result<(), Seq<char>>) -> Plan {
    match sent {
        Ok(()) => Plan::Finish { result: Ok(()) },
        Err(e) => failure_plan(private, Fault::Delivery(e)),
    }
}

/// A failure to send, as one of the platform.
pub open spec fn sending_fault(sent: Result<(), Seq<char>>) -> Result<(), Fault> {
    match sent {
        Ok(()) => Ok(()),
        Err(e) => Err(Fault::Delivery(e)),
    }
}

/// The report is of the step: it says what came of what the step asked for.
pub open spec fn fits(plan: Plan, report: Report) -> bool {
    match plan {
        Plan::Finish { .. } => false,
        Plan::Roll => report is Rolled,
        Plan::ResolveFile { .. } => report is Resolved,
        Plan::Describe { .. } => report is Described,
        Plan::Complete { .. } => report is Completed,
        Plan::Draw { .. } => report is Drawn,
        Plan::SendText { .. } => report is TextSent,
        Plan::SendImage { .. } => report is ImageSent,
    }
}

/// The step that follows `plan` on `report`.  A report that is not of the
/// step changes nothing.
pub open spec fn next_plan(private: bool, plan: Plan, report: Report) -> Plan {
    if !fits(plan, report) {
        plan
    } else {
        match plan {
            Plan::Finish { .. } => plan,
            Plan::Roll => rolled_plan(report->phrase),
            Plan::ResolveFile { file_id, caption } => resolved_plan(caption, report->url),
            Plan::Describe { .. } => described_plan(report->Described_answer),
            Plan::Complete { .. } => completed_plan(private, report->Completed_answer),
            Plan::Draw { .. } => drawn_plan(report->image),
            Plan::SendText { text, parse_mode, held, escalate } => text_sent_plan(
                private,
                held,
                escalate,
                sending_fault(report->TextSent_sent),
            ),
            Plan::SendImage { .. } => image_sent_plan(private, report->ImageSent_sent),
        }
    }
}

/// A bound on the calls that are still to be made.
pub open spec fn calls_left(plan: Plan) -> nat {
    match plan {
        Plan::Finish { .. } => 0,
        Plan::SendText { escalate, .. } => if escalate {
            2
        } else {
            1
        },
        Plan::Roll => 2,
        Plan::Describe { .. } => 2,
        Plan::SendImage { .. } => 2,
        Plan::ResolveFile { .. } => 3,
        Plan::Complete { .. } => 3,
        Plan::Draw { .. } => 3,
    }
}

/// The step holds a failure: it ends the execution with one, or sends a
/// text while one is held.
pub open spec fn carries_failure(plan: Plan) -> bool {
    match plan {
        Plan::Finish { result } => result is Err,
        Plan::SendText { held, .. } => held is Some,
        _ => false,
    }
}

/// The report says that the service or the platform failed.
pub open spec fn reports_failure(report: Report) -> bool {
    match report {
        Report::Rolled { .. } => false,
        Report::Resolved { url } => url is Err,
        Report::Described { answer } => answer is Err,
        Report::Completed { answer } => answer is Err,
        Report::Drawn { image } => image is Err,
        Report::TextSent { sent } => sent is Err,
        Report::ImageSent { sent } => sent is Err,
    }
}

/// An execution comes to an end: every report that is of the step at hand
/// brings the bound on the calls still to be made down, and no decision
/// begins with more than three.
pub proof fn lemma_execution_ends(private: bool, plan: Plan, report: Report)
    requires
        fits(plan, report),
    ensures
        calls_left(next_plan(private, plan, report)) < calls_left(plan),
        calls_left(plan) <= 3,
{
}

/// The step after a run of reports, from the step `first` on.
pub open spec fn plan_after(private: bool, first: Plan, reports: Seq<Report>) -> Plan
    decreases reports.len(),
{
    if reports.len() == 0 {
        first
    } else {
        next_plan(private, plan_after(private, first, reports.drop_last()), reports.last())
    }
}

/// In a private chat a failure is taken up and kept: the step after a
/// report of a failure holds a failure, and so does the step after a step
/// that holds one.  A step that holds a failure cannot end the execution
/// well.
pub proof fn lemma_private_failure_is_kept(plan: Plan, report: Report)
    requires
        carries_failure(plan) || (fits(plan, report) && reports_failure(report)),
    ensures
        carries_failure(next_plan(true, plan, report)),
        next_plan(true, plan, report) matches Plan::Finish { result } ==> result is Err,
{
}

/// In a private chat no failure is lost: once a step holds a failure, every
/// later step does, whatever is reported, so the execution ends with a
/// failure if it ends.
pub proof fn lemma_private_failure_stays(first: Plan, reports: Seq<Report>, more: Seq<Report>)
    requires
        carries_failure(plan_after(true, first, reports)),
    ensures
        carries_failure(plan_after(true, first, reports + more)),
        plan_after(true, first, reports + more) matches Plan::Finish { result } ==> result is Err,
    decreases more.len(),
{
    if more.len() == 0 {
        assert(reports + more == reports);
    } else {
        lemma_private_failure_stays(first, reports, more.drop_last());
        assert((reports + more).drop_last() == reports + more.drop_last());
        assert((reports + more).last() == more.last());
        lemma_private_failure_is_kept(
            plan_after(true, first, reports + more.drop_last()),
            more.last(),
        );
    }
}

/// The step holds a failure of the platform: it ends the execution with
/// one, or sends a text while one is held.
pub open spec fn carries_delivery_failure(plan: Plan) -> bool {
    match plan {
        Plan::Finish { result } => result is Err && result->Err_0 is Delivery,
        Plan::SendText { held, .. } => held is Some && held->0 is Delivery,
        _ => false,
    }
}

/// The report says that the platform failed: it did not take a text or an
/// image, or did not say where a file is.
pub open spec fn reports_delivery_failure(report: Report) -> bool {
    match report {
        Report::Resolved { url } => url is Err,
        Report::TextSent { sent } => sent is Err,
        Report::ImageSent { sent } => sent is Err,
        _ => false,
    }
}

/// In every chat a failure of the platform is taken up and kept: the step
/// after a report of one holds one, and so does the step after a step that
/// holds one.  A step that holds one cannot end the execution well.
pub proof fn lemma_delivery_failure_is_kept(private: bool, plan: Plan, report: Report)
    requires
        carries_delivery_failure(plan) || (fits(plan, report) && reports_delivery_failure(
            report,
        )),
    ensures
        carries_delivery_failure(next_plan(private, plan, report)),
        next_plan(private, plan, report) matches Plan::Finish { result } ==> result is Err,
        !private && !carries_delivery_failure(plan) ==> next_plan(private, plan, report)
            is Finish,
{
}

/// A failure of the platform is never swallowed: once a step holds one,
/// every later step does, whatever is reported and in whatever chat, so the
/// execution ends with a failure of the platform if it ends.
pub proof fn lemma_delivery_failure_stays(
    private: bool,
    first: Plan,
    reports: Seq<Report>,
    more: Seq<Report>,
)
    requires
        carries_delivery_failure(plan_after(private, first, reports)),
    ensures
        carries_delivery_failure(plan_after(private, first, reports + more)),
        plan_after(private, first, reports + more) matches Plan::Finish { result } ==> result
            is Err,
    decreases more.len(),
{
    if more.len() == 0 {
        assert(reports + more == reports);
    } else {
        lemma_delivery_failure_stays(private, first, reports, more.drop_last());
        assert((reports + more).drop_last() == reports + more.drop_last());
        assert((reports + more).last() == more.last());
        lemma_delivery_failure_is_kept(
            private,
            plan_after(private, first, reports + more.drop_last()),
            more.last(),
        );
    }
}

/// In a chat that is not private, a failure of the service after a
/// completion or a drawing is dropped once the user has been told what
/// there is to tell: the execution ends well unless the platform fails too.
pub proof fn lemma_group_service_failure_is_dropped(plan: Plan, report: Report)
    requires
        fits(plan, report),
        !reports_delivery_failure(report),
        !carries_delivery_failure(plan),
        plan is Complete || plan is SendImage || (plan is SendText && plan->escalate),
    ensures
        next_plan(false, plan, report) matches Plan::Finish { result } ==> result is Ok,
{
}

/// The first step of carrying out `decision`.
pub fn first_step(decision: RouteDecision) -> (step: Step)
    ensures
        step@ == first_plan(decision@),
{
    match decision {
        RouteDecision::Ignore => Step::Finish { result: Ok(()) },
        RouteDecision::DummyReaction => Step::Roll,
        RouteDecision::ImageGenerationRequest { prompt } => Step::Draw { prompt },
        RouteDecision::ImageUnderstandingRequest { caption, file_id } => Step::ResolveFile {
            file_id,
            caption,
        },
        RouteDecision::TextCompletionRequest { prompt, mode } => Step::Complete { prompt, mode },
    }
}

/// Whether the number drawn for a text with a link calls for a stock phrase.
pub fn dummy_wanted(roll: u32) -> (wanted: bool)
    ensures
        wanted == (roll < DUMMY_CHANCE),
{
    roll < DUMMY_CHANCE
}

/// The stock phrase for a text with a link: the one at the place `pick` of
/// the configured phrases, if the number drawn calls for one and there is
/// such a place.
pub open spec fn stock_phrase_of(answers: Seq<Seq<char>>, roll: u32, pick: Option<usize>) -> Option<
    Seq<char>,
> {
    if roll < DUMMY_CHANCE && pick is Some && pick->0 < answers.len() {
        Some(answers[pick->0 as int])
    } else {
        None
    }
}

/// The stock phrase for a text with a link, given the number drawn from 0 to
/// 99 and the place picked among the configured phrases: a phrase goes out
/// only where the number calls for one, and it is one of those configured.
pub fn stock_phrase(config: &Config, roll: u32, pick: Option<usize>) -> (phrase: Option<
    &'static str,
>)
    ensures
        match phrase {
            Some(p) => stock_phrase_of(config@.dummy_answers, roll, pick) == Some(p@),
            None => stock_phrase_of(config@.dummy_answers, roll, pick) is None,
        },
{
    let answers = config.dummy_answers();
    match pick {
        Some(place) => {
            if dummy_wanted(roll) && place < answers.len() {
                let phrase: &'static str = answers[place];
                assert(crate::message_processor::texts_of(answers@)[place as int] == phrase@);
                Some(phrase)
            } else {
                None
            }
        },
        None => None,
    }
}

/// The step after `Roll`: the phrase that was picked is sent, and where none
/// was picked the execution ends.
pub fn after_dummy(answer: Option<&str>) -> (step: Step)
    ensures
        step@ == rolled_plan(
            match answer {
                Some(a) => Some(a@),
                None => None,
            },
        ),
{
    match answer {
        Some(a) => Step::SendText {
            text: a.to_owned(),
            parse_mode: Some(MARKDOWN),
            held: None,
            escalate: false,
        },
        None => Step::Finish { result: Ok(()) },
    }
}

/// The step after `ResolveFile`: the picture is described, or the error
/// ends the execution.
pub fn after_resolve(caption: String, resolved: Result<String, String>) -> (step: Step)
    ensures
        step@ == resolved_plan(caption@, text_result(resolved)),
{
    match resolved {
        Ok(image_url) => Step::Describe { caption, image_url },
        Err(e) => Step::Finish { result: Err(Failure::Delivery(e)) },
    }
}

/// The step after `Describe`: the description is sent, or the user is asked
/// to try again and the error is held.
pub fn after_description(described: Result<String, String>) -> (step: Step)
    ensures
        step@ == described_plan(text_result(described)),
{
    match described {
        Ok(text) => Step::SendText { text, parse_mode: Some(MARKDOWN), held: None, escalate: false },
        Err(e) => Step::SendText {
            text: ASK_AGAIN.to_owned(),
            parse_mode: Some(MARKDOWN),
            held: Some(Failure::RemoteCall(e)),
            escalate: false,
        },
    }
}

/// What becomes of a failure after a completion or a drawing.
fn failure_step(private: bool, failure: Failure) -> (step: Step)
    ensures
        step@ == failure_plan(private, failure@),
{
    if private {
        let mut text = FENCE.to_owned();
        text.push('\n');
        push_chars(&mut text, &chars_of(failure.message().as_str()));
        text.push('\n');
        push_chars(&mut text, &chars_of(FENCE));
        assert(text@ =~= echoed(failure@.message()));
        Step::SendText { text, parse_mode: Some(MARKDOWN), held: Some(failure), escalate: false }
    } else {
        match failure {
            Failure::Delivery(text) => Step::Finish { result: Err(Failure::Delivery(text)) },
            Failure::RemoteCall(_) => Step::Finish { result: Ok(()) },
        }
    }
}

/// The step after `Complete`: the answer is sent, or the error is dealt
/// with as `failure_plan` says.
pub fn after_completion(private: bool, completed: Result<String, String>) -> (step: Step)
    ensures
        step@ == completed_plan(private, text_result(completed)),
{
    match completed {
        Ok(text) => Step::SendText { text, parse_mode: Some(MARKDOWN), held: None, escalate: true },
        Err(e) => failure_step(private, Failure::RemoteCall(e)),
    }
}

/// The step after `Draw`: the drawing is sent, or the user is told that it
/// cannot be made and the error is held.
pub fn after_drawing(drawn: Result<Vec<u8>, String>) -> (step: Step)
    ensures
        step@ == drawn_plan(
            match drawn {
                Ok(image) => Ok(image@),
                Err(e) => Err(e@),
            },
        ),
{
    match drawn {
        Ok(image) => Step::SendImage { image },
        Err(e) => Step::SendText {
            text: CANNOT_DRAW.to_owned(),
            parse_mode: None,
            held: Some(Failure::RemoteCall(e)),
            escalate: true,
        },
    }
}

/// The step after `SendImage`: the execution ends, or the error is dealt
/// with as `failure_plan` says.
pub fn after_image_sent(private: bool, sent: Result<(), String>) -> (step: Step)
    ensures
        step@ == image_sent_plan(private, unit_result(sent)),
{
    match sent {
        Ok(()) => Step::Finish { result: Ok(()) },
        Err(e) => failure_step(private, Failure::Delivery(e)),
    }
}

/// The step after `SendText`.  The failure at hand is the one of the
/// sending, or else the one that was held.  Without a failure the execution
/// ends well; with one it ends with it, or, where the step said to escalate,
/// the failure is dealt with as `failure_plan` says.
pub fn after_text_sent(
    private: bool,
    held: Option<Failure>,
    escalate: bool,
    sent: Result<(), String>,
) -> (step: Step)
    ensures
        step@ == text_sent_plan(
            private,
            held_view(held),
            escalate,
            sending_fault(unit_result(sent)),
        ),
{
    let error = match sent {
        Err(e) => Some(Failure::Delivery(e)),
        Ok(()) => held,
    };
    match error {
        None => Step::Finish { result: Ok(()) },
        Some(e) => if escalate {
            failure_step(private, e)
        } else {
            Step::Finish { result: Err(e) }
        },
    }
}

/// The step that follows `step` on `outcome`, in a chat that is private or
/// not.  An outcome that is not of the step changes nothing.
pub fn advance(private: bool, step: Step, outcome: Outcome) -> (next: Step)
    ensures
        next@ == next_plan(private, step@, outcome@),
{
    match step {
        Step::Finish { result } => Step::Finish { result },
        Step::Roll => match outcome {
            Outcome::Rolled { phrase } => match phrase {
                Some(a) => after_dummy(Some(a.as_str())),
                None => after_dummy(None),
            },
            _ => Step::Roll,
        },
        Step::ResolveFile { file_id, caption } => match outcome {
            Outcome::Resolved { url } => after_resolve(caption, url),
            _ => Step::ResolveFile { file_id, caption },
        },
        Step::Describe { caption, image_url } => match outcome {
            Outcome::Described { answer } => after_description(answer),
            _ => Step::Describe { caption, image_url },
        },
        Step::Complete { prompt, mode } => match outcome {
            Outcome::Completed { answer } => after_completion(private, answer),
            _ => Step::Complete { prompt, mode },
        },
        Step::Draw { prompt } => match outcome {
            Outcome::Drawn { image } => after_drawing(image),
            _ => Step::Draw { prompt },
        },
        Step::SendText { text, parse_mode, held, escalate } => match outcome {
            Outcome::TextSent { sent } => after_text_sent(private, held, escalate, sent),
            _ => Step::SendText { text, parse_mode, held, escalate },
        },
        Step::SendImage { image } => match outcome {
            Outcome::ImageSent { sent } => after_image_sent(private, sent),
            _ => Step::SendImage { image },
        },
    }
}

} // verus!
