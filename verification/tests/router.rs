use tg_gpt_bot::delivery::{pending, prepare, Delivery};
use tg_gpt_bot::execution::{
    advance, after_completion, after_description, after_drawing, after_dummy, after_image_sent,
    after_resolve, after_text_sent, dummy_wanted, first_step, stock_phrase, Failure, Outcome,
    Session, Step, ASK_AGAIN, CANNOT_DRAW,
};
use tg_gpt_bot::gpt_client::ModelMode;
use tg_gpt_bot::message_processor::{
    completion_request, draw_prompt_in, route, should_answer, Config, RouteDecision,
};
use tg_gpt_bot::tg_client::{
    escape_text, Chat, Message, PhotoSize, User, MAX_MSG_SIZE, PRIVATE_CHAT,
};

use rand::rngs::mock::StepRng;
use rand::seq::SliceRandom;
use rand::Rng;

fn user(name: &str, is_bot: bool) -> User {
    User {
        id: 1,
        is_bot,
        first_name: name.to_string(),
        last_name: None,
        username: None,
        language_code: None,
    }
}

fn chat(id: i64, chat_type: &str) -> Chat {
    Chat {
        id,
        first_name: None,
        last_name: None,
        username: None,
        chat_type: chat_type.to_string(),
    }
}

fn build_private_message() -> Option<Box<Message>> {
    Some(Box::new(Message {
        message_id: 0,
        from: User {
            id: 0,
            is_bot: false,
            first_name: "Sam".to_string(),
            last_name: None,
            username: None,
            language_code: None,
        },
        chat: Chat {
            id: 0,
            first_name: None,
            last_name: None,
            username: None,
            chat_type: PRIVATE_CHAT.to_string(),
        },
        date: Default::default(),
        text: Some("Hello".to_string()),
        caption: None,
        photo: None,
        reply_to_message: None,
    }))
}

fn build_public_message() -> Option<Box<Message>> {
    Some(Box::new(Message {
        message_id: 0,
        from: User {
            id: 0,
            is_bot: false,
            first_name: "Sam".to_string(),
            last_name: None,
            username: None,
            language_code: None,
        },
        chat: Chat {
            id: 0,
            first_name: None,
            last_name: None,
            username: None,
            chat_type: "PUBLIC".to_string(),
        },
        date: Default::default(),
        text: Some("simple bot Hello".to_string()),
        caption: None,
        photo: None,
        reply_to_message: None,
    }))
}

fn build_test_config() -> Config {
    Config::new(
        vec![("Sam".to_string(), "Bob".to_string())],
        "Call me {}. ".to_string(),
        vec![
            "Dummy answer",
            "Another dummy answer",
            "Yet another dummy answer",
        ],
        vec![0],
        vec!["simple bot"],
    )
}

fn create_config() -> Config {
    Config::new(
        Vec::new(),
        "preamble".to_string(),
        vec![
            "Dummy answer",
            "Another dummy answer",
            "Yet another dummy answer",
        ],
        vec![123],
        vec!["bot_name"],
    )
}

fn create_public_message(text: Option<String>, photo: Option<Vec<PhotoSize>>) -> Message {
    Message {
        message_id: 1,
        from: user("Yury", false),
        chat: chat(123, "public"),
        date: 1_700_000_000,
        text,
        caption: None,
        photo,
        reply_to_message: None,
    }
}

fn create_private_message(text: Option<String>, photo: Option<Vec<PhotoSize>>) -> Message {
    Message {
        message_id: 1,
        from: user("Yury", false),
        chat: chat(123, PRIVATE_CHAT),
        date: 1_700_000_000,
        text,
        caption: None,
        photo,
        reply_to_message: None,
    }
}

fn service(text: &str) -> Failure {
    Failure::RemoteCall(text.to_string())
}

fn platform(text: &str) -> Failure {
    Failure::Delivery(text.to_string())
}

fn markdown_answer(text: &str, escalate: bool) -> Step {
    Step::SendText {
        text: text.to_string(),
        parse_mode: Some("MarkdownV2"),
        held: None,
        escalate,
    }
}

#[test]
fn test_should_answer() {
    let reply_to_message = build_private_message();
    let chat = Chat {
        id: 123,
        first_name: None,
        last_name: None,
        username: None,
        chat_type: "private".to_string(),
    };
    let used_name = Some("Hello");
    let tg_bot_allow_chats = vec![123];
    assert!(should_answer(
        reply_to_message.as_deref(),
        &chat,
        used_name,
        &tg_bot_allow_chats
    ));
}

#[test]
fn test_should_answer_negative() {
    let reply_to_message = build_private_message();
    let chat = Chat {
        id: 123,
        first_name: None,
        last_name: None,
        username: None,
        chat_type: "private".to_string(),
    };
    let used_name = Some("Hello");
    let tg_bot_allow_chats = vec![124];
    assert!(!should_answer(
        reply_to_message.as_deref(),
        &chat,
        used_name,
        &tg_bot_allow_chats
    ));
}

/// What the handler asked of the platform or of the service.
#[derive(Debug, PartialEq)]
enum Asked {
    Roll,
    FileUrl(String),
    ImageCompletion(i64, String, String),
    Completion(i64, String, ModelMode),
    Image(i64, String),
    SendMessage(i64, String, Option<&'static str>),
    SendImage(i64, Vec<u8>),
}

/// Handles a message as the handler does: routes it, then carries the
/// decision out step by step, asking `answer` in place of the platform and
/// the service.  Hands back all that was asked, and how it ended.
fn handle(
    message: &Message,
    config: &Config,
    answer: &dyn Fn(&Asked) -> Outcome,
) -> (Vec<Asked>, Result<(), Failure>) {
    let session = Session::of(message);
    let mut asked = Vec::new();
    let mut step = first_step(route(message, config));
    loop {
        let ask = match &step {
            Step::Finish { result } => return (asked, result.clone()),
            Step::Roll => Asked::Roll,
            Step::ResolveFile { file_id, .. } => Asked::FileUrl(file_id.clone()),
            Step::Describe { caption, image_url } => {
                Asked::ImageCompletion(session.user_id, caption.clone(), image_url.clone())
            }
            Step::Complete { prompt, mode } => {
                Asked::Completion(session.user_id, prompt.clone(), *mode)
            }
            Step::Draw { prompt } => Asked::Image(session.user_id, prompt.clone()),
            Step::SendText { text, parse_mode, .. } => {
                Asked::SendMessage(session.chat_id, text.clone(), *parse_mode)
            }
            Step::SendImage { image } => Asked::SendImage(session.chat_id, image.clone()),
        };
        let outcome = answer(&ask);
        asked.push(ask);
        assert!(asked.len() <= 3);
        step = advance(session.private, step, outcome);
    }
}

/// A platform that takes everything, beside a service that answers `text`.
fn answering(text: &'static str) -> impl Fn(&Asked) -> Outcome {
    move |ask| match ask {
        Asked::Roll => Outcome::Rolled { phrase: None },
        Asked::FileUrl(_) => Outcome::Resolved { url: Ok("url".to_string()) },
        Asked::ImageCompletion(..) => Outcome::Described { answer: Ok(text.to_string()) },
        Asked::Completion(..) => Outcome::Completed { answer: Ok(text.to_string()) },
        Asked::Image(..) => Outcome::Drawn { image: Ok(text.as_bytes().to_vec()) },
        Asked::SendMessage(..) => Outcome::TextSent { sent: Ok(()) },
        Asked::SendImage(..) => Outcome::ImageSent { sent: Ok(()) },
    }
}

#[test]
fn test_process_message() {
    let message = build_public_message().unwrap();
    let (asked, result) = handle(&message, &build_test_config(), &answering("How are you?"));
    assert_eq!(Session::of(&message).chat_id, 0);
    assert_eq!(
        asked,
        vec![
            Asked::Completion(0, "Call me Bob.  Hello".to_string(), ModelMode::Fast),
            Asked::SendMessage(0, "How are you?".to_string(), Some("MarkdownV2")),
        ]
    );
    assert!(result.is_ok());
}

#[test]
fn test_process_message_with_photo() {
    let message = create_private_message(
        None,
        Some(vec![PhotoSize {
            file_id: "file_id".to_string(),
            file_size: 1,
        }]),
    );
    let (asked, result) = handle(&message, &create_config(), &answering("Red image"));
    assert_eq!(Session::of(&message).chat_id, 123);
    assert_eq!(
        asked,
        vec![
            Asked::FileUrl("file_id".to_string()),
            Asked::ImageCompletion(1, "Что на картинке?".to_string(), "url".to_string()),
            Asked::SendMessage(123, "Red image".to_string(), Some("MarkdownV2")),
        ]
    );
    assert!(result.is_ok());
}

#[test]
fn test_process_message_with_url() {
    let config = create_config();
    let message = create_public_message(Some("https://example.com".to_string()), None);
    let roll = |ask: &Asked| match ask {
        Asked::Roll => {
            let mut rng = StepRng::new(1000000000, 100000000);
            let number: u32 = rng.gen_range(0..100);
            let pick = if dummy_wanted(number) {
                let places: Vec<usize> = (0..config.dummy_answers().len()).collect();
                places.choose(&mut rng).copied()
            } else {
                None
            };
            Outcome::Rolled {
                phrase: stock_phrase(&config, number, pick).map(str::to_owned),
            }
        }
        _ => Outcome::TextSent { sent: Ok(()) },
    };
    let (asked, result) = handle(&message, &config, &roll);
    assert_eq!(Session::of(&message).chat_id, 123);
    assert_eq!(
        asked,
        vec![
            Asked::Roll,
            Asked::SendMessage(123, "Another dummy answer".to_string(), Some("MarkdownV2")),
        ]
    );
    assert!(result.is_ok());
}

#[test]
fn test_process_message_with_bot_name() {
    let message = create_public_message(Some("bot_name Hello".to_string()), None);
    let (asked, result) = handle(&message, &create_config(), &answering("Hello Sir"));
    assert_eq!(
        Session::of(&message),
        Session { chat_id: 123, user_id: 1, private: false }
    );
    assert_eq!(
        asked,
        vec![
            Asked::Completion(1, "preamble Hello".to_string(), ModelMode::Fast),
            Asked::SendMessage(123, "Hello Sir".to_string(), Some("MarkdownV2")),
        ]
    );
    assert!(result.is_ok());
    // What the platform is then given of the answer.
    assert_eq!(escape_text("Hello Sir"), "Hello Sir");
    let (safe, delivery) = prepare("Hello Sir", MAX_MSG_SIZE);
    assert_eq!(delivery, Delivery::Whole);
    assert_eq!(pending(&safe, delivery), Some("Hello Sir"));
}

#[test]
fn test_process_message_with_draw_command() {
    let message = create_private_message(Some("нарисуй cat".to_string()), None);
    let (asked, result) = handle(&message, &create_config(), &answering("url"));
    assert_eq!(Session::of(&message).chat_id, 123);
    assert_eq!(
        asked,
        vec![
            Asked::Image(1, " cat".to_string()),
            Asked::SendImage(123, b"url".to_vec()),
        ]
    );
    assert!(result.is_ok());
}

#[test]
fn test_process_message_without_bot_name_or_draw_command() {
    let message = create_public_message(Some("bot_name Hello".to_string()), None);
    let (asked, result) = handle(&message, &create_config(), &answering("Hello Sir"));
    assert_eq!(Session::of(&message).chat_id, 123);
    assert_eq!(
        asked,
        vec![
            Asked::Completion(1, "preamble Hello".to_string(), ModelMode::Fast),
            Asked::SendMessage(123, "Hello Sir".to_string(), Some("MarkdownV2")),
        ]
    );
    assert!(result.is_ok());
}

#[test]
fn rejected_answer_in_a_group_chat_reaches_the_caller() {
    let message = create_public_message(Some("bot_name Hello".to_string()), None);
    let rejecting = |ask: &Asked| match ask {
        Asked::SendMessage(..) => Outcome::TextSent { sent: Err("rejected".to_string()) },
        Asked::SendImage(..) => Outcome::ImageSent { sent: Err("rejected".to_string()) },
        other => answering("Hello Sir")(other),
    };
    let (asked, result) = handle(&message, &create_config(), &rejecting);
    assert_eq!(
        asked,
        vec![
            Asked::Completion(1, "preamble Hello".to_string(), ModelMode::Fast),
            Asked::SendMessage(123, "Hello Sir".to_string(), Some("MarkdownV2")),
        ]
    );
    assert_eq!(result, Err(platform("rejected")));

    let message = create_public_message(Some("bot_name нарисуй дом".to_string()), None);
    let (asked, result) = handle(&message, &create_config(), &rejecting);
    assert_eq!(
        asked,
        vec![
            Asked::Image(1, " дом".to_string()),
            Asked::SendImage(123, b"Hello Sir".to_vec()),
        ]
    );
    assert_eq!(result, Err(platform("rejected")));
}

#[test]
fn failed_service_in_a_group_chat_is_dropped_unless_the_platform_fails_too() {
    let message = create_public_message(Some("bot_name Hello".to_string()), None);
    let failing = |ask: &Asked| match ask {
        Asked::Completion(..) => Outcome::Completed { answer: Err("boom".to_string()) },
        Asked::Image(..) => Outcome::Drawn { image: Err("boom".to_string()) },
        other => answering("")(other),
    };
    let (asked, result) = handle(&message, &create_config(), &failing);
    assert_eq!(
        asked,
        vec![Asked::Completion(1, "preamble Hello".to_string(), ModelMode::Fast)]
    );
    assert_eq!(result, Ok(()));

    let message = create_public_message(Some("bot_name нарисуй дом".to_string()), None);
    let (asked, result) = handle(&message, &create_config(), &failing);
    assert_eq!(
        asked,
        vec![
            Asked::Image(1, " дом".to_string()),
            Asked::SendMessage(123, CANNOT_DRAW.to_string(), None),
        ]
    );
    assert_eq!(result, Ok(()));

    let both = |ask: &Asked| match ask {
        Asked::SendMessage(..) => Outcome::TextSent { sent: Err("rejected".to_string()) },
        other => failing(other),
    };
    let (_, result) = handle(&message, &create_config(), &both);
    assert_eq!(result, Err(platform("rejected")));
}

#[test]
fn failed_drawing_is_answered_with_an_apology() {
    let step = after_drawing(Err("no credit".to_string()));
    assert_eq!(
        step,
        Step::SendText {
            text: CANNOT_DRAW.to_string(),
            parse_mode: None,
            held: Some(service("no credit")),
            escalate: true,
        }
    );
    assert_eq!(CANNOT_DRAW, "Сейчас я такое не могу нарисовать");
    // In a group chat the error is dropped once the apology is out.
    let end = after_text_sent(false, Some(service("no credit")), true, Ok(()));
    assert_eq!(end, Step::Finish { result: Ok(()) });
    // In a private chat it is echoed and then ends the execution.
    let echo = after_text_sent(true, Some(service("no credit")), true, Ok(()));
    assert_eq!(
        echo,
        Step::SendText {
            text: "```\nno credit\n```".to_string(),
            parse_mode: Some("MarkdownV2"),
            held: Some(service("no credit")),
            escalate: false,
        }
    );
    let end = after_text_sent(true, Some(service("no credit")), false, Ok(()));
    assert_eq!(
        end,
        Step::Finish {
            result: Err(service("no credit"))
        }
    );
    assert_eq!(service("no credit").message(), "no credit");
}

#[test]
fn failed_completion_is_echoed_only_in_private() {
    assert_eq!(
        after_completion(false, Err("boom".to_string())),
        Step::Finish { result: Ok(()) }
    );
    assert_eq!(
        after_completion(true, Err("boom".to_string())),
        Step::SendText {
            text: "```\nboom\n```".to_string(),
            parse_mode: Some("MarkdownV2"),
            held: Some(service("boom")),
            escalate: false,
        }
    );
}

#[test]
fn failed_sending_replaces_the_held_error() {
    let end = after_text_sent(true, Some(service("first")), false, Err("second".to_string()));
    assert_eq!(
        end,
        Step::Finish {
            result: Err(platform("second"))
        }
    );
    let echo = after_text_sent(true, None, true, Err("send failed".to_string()));
    assert_eq!(
        echo,
        Step::SendText {
            text: "```\nsend failed\n```".to_string(),
            parse_mode: Some("MarkdownV2"),
            held: Some(platform("send failed")),
            escalate: false,
        }
    );
    assert_eq!(
        after_image_sent(false, Err("send failed".to_string())),
        Step::Finish { result: Err(platform("send failed")) }
    );
    assert_eq!(
        after_text_sent(false, None, true, Err("send failed".to_string())),
        Step::Finish { result: Err(platform("send failed")) }
    );
}

#[test]
fn failed_description_asks_to_try_again() {
    let step = after_description(Err("timeout".to_string()));
    assert_eq!(
        step,
        Step::SendText {
            text: ASK_AGAIN.to_string(),
            parse_mode: Some("MarkdownV2"),
            held: Some(service("timeout")),
            escalate: false,
        }
    );
    assert_eq!(ASK_AGAIN, "Прости, я задумался. Можешь повторить?");
    assert_eq!(
        after_resolve("c".to_string(), Err("no file".to_string())),
        Step::Finish {
            result: Err(platform("no file"))
        }
    );
}

#[test]
fn dummy_reaction_comes_for_rolls_below_thirty() {
    assert!(dummy_wanted(0));
    assert!(dummy_wanted(29));
    assert!(!dummy_wanted(30));
    assert!(!dummy_wanted(99));
    assert_eq!(after_dummy(None), Step::Finish { result: Ok(()) });
}

#[test]
fn unlisted_chat_is_ignored() {
    let config = create_config();
    let mut message = create_private_message(Some("bot_name Hello".to_string()), None);
    message.chat.id = 124;
    assert_eq!(route(&message, &config), RouteDecision::Ignore);
    let mut message = create_private_message(
        None,
        Some(vec![PhotoSize {
            file_id: "f".to_string(),
            file_size: 1,
        }]),
    );
    message.chat.id = 124;
    assert_eq!(route(&message, &config), RouteDecision::Ignore);
    assert_eq!(first_step(RouteDecision::Ignore), Step::Finish { result: Ok(()) });
}

#[test]
fn link_gets_the_stock_reaction_even_in_an_unlisted_chat() {
    let config = create_config();
    let mut message = create_public_message(Some("see https://example.com".to_string()), None);
    message.chat.id = 124;
    assert_eq!(route(&message, &config), RouteDecision::DummyReaction);
}

#[test]
fn group_chat_needs_a_name_or_a_reply_to_a_bot() {
    let config = create_config();
    let message = create_public_message(Some("Hello".to_string()), None);
    assert_eq!(route(&message, &config), RouteDecision::Ignore);

    let mut message = create_public_message(Some("Hello".to_string()), None);
    let mut parent = create_public_message(Some("I am a bot".to_string()), None);
    parent.from = user("bot", true);
    message.reply_to_message = Some(Box::new(parent));
    assert_eq!(
        route(&message, &config),
        RouteDecision::TextCompletionRequest {
            prompt: "preambleHello".to_string(),
            mode: ModelMode::Fast,
        }
    );

    let mut message = create_public_message(Some("Hello".to_string()), None);
    message.reply_to_message = Some(Box::new(create_public_message(None, None)));
    assert_eq!(route(&message, &config), RouteDecision::Ignore);
}

#[test]
fn name_must_open_the_text_and_is_taken_out_everywhere() {
    let config = create_config();
    let message = create_public_message(Some("Hello bot_name".to_string()), None);
    assert_eq!(route(&message, &config), RouteDecision::Ignore);
    let message = create_public_message(Some("bot_name, are you bot_name?".to_string()), None);
    assert_eq!(
        route(&message, &config),
        RouteDecision::TextCompletionRequest {
            prompt: "preamble, are you ?".to_string(),
            mode: ModelMode::Fast,
        }
    );
}

#[test]
fn private_chat_gets_no_preamble_and_may_ask_for_the_smart_model() {
    let config = create_config();
    let message = create_private_message(Some("Hello".to_string()), None);
    assert_eq!(
        route(&message, &config),
        RouteDecision::TextCompletionRequest {
            prompt: "Hello".to_string(),
            mode: ModelMode::Fast,
        }
    );
    let message = create_private_message(Some("Подумай, что это".to_string()), None);
    assert_eq!(
        route(&message, &config),
        RouteDecision::TextCompletionRequest {
            prompt: "Подумай, что это".to_string(),
            mode: ModelMode::Smart,
        }
    );
    let message = create_public_message(Some("bot_name подумай".to_string()), None);
    assert_eq!(
        route(&message, &config),
        RouteDecision::TextCompletionRequest {
            prompt: "preamble подумай".to_string(),
            mode: ModelMode::Fast,
        }
    );
}

#[test]
fn private_message_without_text_or_picture_is_ignored() {
    let config = create_config();
    let message = create_private_message(None, None);
    assert_eq!(route(&message, &config), RouteDecision::Ignore);
    let message = create_private_message(Some("Hello".to_string()), Some(Vec::new()));
    assert_eq!(route(&message, &config), RouteDecision::Ignore);
}

#[test]
fn draw_command_is_found_in_any_case_and_keeps_the_case_of_what_follows() {
    let config = create_config();
    let message = create_private_message(Some("Ну НАРИСУЙ Кота".to_string()), None);
    assert_eq!(
        route(&message, &config),
        RouteDecision::ImageGenerationRequest {
            prompt: " Кота".to_string(),
        }
    );
    let message = create_public_message(Some("bot_name нарисуй дом".to_string()), None);
    assert_eq!(
        route(&message, &config),
        RouteDecision::ImageGenerationRequest {
            prompt: " дом".to_string(),
        }
    );
    let message = create_private_message(Some("нарисуй".to_string()), None);
    assert_eq!(
        route(&message, &config),
        RouteDecision::ImageGenerationRequest {
            prompt: "".to_string(),
        }
    );
}

#[test]
fn draw_command_after_a_character_that_grows_in_lowercase() {
    let config = create_config();
    // U+0130 lowers to two code points, so places in the text and in its
    // lowercase form no longer correspond.
    let message = create_private_message(Some("İ нарисуй Кота".to_string()), None);
    assert_eq!(
        route(&message, &config),
        RouteDecision::ImageGenerationRequest {
            prompt: " Кота".to_string(),
        }
    );
    let message = create_private_message(Some("İİ НАРИСУЙ İ".to_string()), None);
    assert_eq!(
        route(&message, &config),
        RouteDecision::ImageGenerationRequest {
            prompt: " İ".to_string(),
        }
    );
    // The Kelvin sign lowers to one shorter character: places correspond.
    let message = create_private_message(Some("\u{212A} нарисуй Кота".to_string()), None);
    assert_eq!(
        route(&message, &config),
        RouteDecision::ImageGenerationRequest {
            prompt: " Кота".to_string(),
        }
    );
}

#[test]
fn largest_photo_is_described_and_the_last_wins_a_tie() {
    let config = create_config();
    let photo = |id: &str, size: usize| PhotoSize {
        file_id: id.to_string(),
        file_size: size,
    };
    let mut message = create_private_message(
        Some("ignored".to_string()),
        Some(vec![photo("a", 10), photo("b", 30), photo("c", 20), photo("d", 30)]),
    );
    message.caption = Some("Кто это?".to_string());
    assert_eq!(
        route(&message, &config),
        RouteDecision::ImageUnderstandingRequest {
            caption: "Кто это?".to_string(),
            file_id: "d".to_string(),
        }
    );
}

#[test]
fn picture_in_a_group_chat_needs_a_name_in_the_caption() {
    let config = create_config();
    let photos = vec![PhotoSize {
        file_id: "f".to_string(),
        file_size: 1,
    }];
    let message = create_public_message(None, Some(photos.clone()));
    assert_eq!(route(&message, &config), RouteDecision::Ignore);
    let mut message = create_public_message(None, Some(photos));
    message.caption = Some("bot_name что тут?".to_string());
    assert_eq!(
        route(&message, &config),
        RouteDecision::ImageUnderstandingRequest {
            caption: "bot_name что тут?".to_string(),
            file_id: "f".to_string(),
        }
    );
}

#[test]
fn sender_name_is_remapped_in_order() {
    let config = Config::new(
        vec![
            ("Sam".to_string(), "Bob".to_string()),
            ("Bob".to_string(), "Robert".to_string()),
        ],
        "{}: ".to_string(),
        Vec::new(),
        vec![0],
        vec!["bot"],
    );
    let mut message = build_public_message().unwrap();
    message.text = Some("bot hi".to_string());
    assert_eq!(
        route(&message, &config),
        RouteDecision::TextCompletionRequest {
            prompt: "Robert:  hi".to_string(),
            mode: ModelMode::Fast,
        }
    );
}

#[test]
fn preamble_template_without_a_slot_is_taken_as_it_is() {
    let message = create_public_message(Some("bot_name x".to_string()), None);
    assert_eq!(
        route(&message, &create_config()),
        RouteDecision::TextCompletionRequest {
            prompt: "preamble x".to_string(),
            mode: ModelMode::Fast,
        }
    );
}

fn all_goes_well(step: &Step) -> Outcome {
    match step {
        Step::Roll => Outcome::Rolled { phrase: Some("Dummy answer".to_string()) },
        Step::ResolveFile { .. } => Outcome::Resolved { url: Ok("url".to_string()) },
        Step::Describe { .. } => Outcome::Described { answer: Ok("Red image".to_string()) },
        Step::Complete { .. } => Outcome::Completed { answer: Ok("Hello Sir".to_string()) },
        Step::Draw { .. } => Outcome::Drawn { image: Ok(vec![1, 2, 3]) },
        Step::SendText { .. } => Outcome::TextSent { sent: Ok(()) },
        Step::SendImage { .. } => Outcome::ImageSent { sent: Ok(()) },
        Step::Finish { .. } => Outcome::TextSent { sent: Ok(()) },
    }
}

#[test]
fn steps_follow_each_other_to_the_end() {
    let draw = RouteDecision::ImageGenerationRequest { prompt: " cat".to_string() };
    let mut step = first_step(draw);
    let mut seen = vec![format!("{:?}", step)];
    while !matches!(step, Step::Finish { .. }) {
        let outcome = all_goes_well(&step);
        step = advance(true, step, outcome);
        seen.push(format!("{:?}", step));
    }
    assert_eq!(
        seen,
        vec![
            "Draw { prompt: \" cat\" }",
            "SendImage { image: [1, 2, 3] }",
            "Finish { result: Ok(()) }",
        ]
    );
    assert_eq!(first_step(RouteDecision::Ignore), Step::Finish { result: Ok(()) });

    let describe = RouteDecision::ImageUnderstandingRequest {
        caption: "c".to_string(),
        file_id: "f".to_string(),
    };
    let mut step = first_step(describe);
    let mut calls = 0;
    while !matches!(step, Step::Finish { .. }) {
        let outcome = all_goes_well(&step);
        step = advance(false, step, outcome);
        calls += 1;
    }
    assert_eq!(calls, 3);
    assert_eq!(step, Step::Finish { result: Ok(()) });
}

#[test]
fn failed_drawing_in_private_ends_with_the_failure_after_two_texts() {
    let draw = RouteDecision::ImageGenerationRequest { prompt: " cat".to_string() };
    let step = first_step(draw);
    let step = advance(true, step, Outcome::Drawn { image: Err("no credit".to_string()) });
    assert_eq!(
        step,
        Step::SendText {
            text: CANNOT_DRAW.to_string(),
            parse_mode: None,
            held: Some(service("no credit")),
            escalate: true,
        }
    );
    let step = advance(true, step, Outcome::TextSent { sent: Ok(()) });
    assert_eq!(
        step,
        Step::SendText {
            text: "```\nno credit\n```".to_string(),
            parse_mode: Some("MarkdownV2"),
            held: Some(service("no credit")),
            escalate: false,
        }
    );
    let step = advance(true, step, Outcome::TextSent { sent: Ok(()) });
    assert_eq!(step, Step::Finish { result: Err(service("no credit")) });
    // Nothing follows the end.
    let step = advance(true, step, Outcome::TextSent { sent: Ok(()) });
    assert_eq!(step, Step::Finish { result: Err(service("no credit")) });
}

#[test]
fn outcome_of_another_step_changes_nothing() {
    let step = Step::Complete { prompt: "p".to_string(), mode: ModelMode::Fast };
    let step = advance(true, step, Outcome::TextSent { sent: Err("x".to_string()) });
    assert_eq!(step, Step::Complete { prompt: "p".to_string(), mode: ModelMode::Fast });
    let step = advance(true, step, Outcome::Drawn { image: Ok(Vec::new()) });
    assert_eq!(step, Step::Complete { prompt: "p".to_string(), mode: ModelMode::Fast });
    let step = advance(true, Step::Roll, Outcome::Completed { answer: Ok("a".to_string()) });
    assert_eq!(step, Step::Roll);
    let step = advance(false, Step::Roll, Outcome::Rolled { phrase: None });
    assert_eq!(step, Step::Finish { result: Ok(()) });
    let step = advance(
        false,
        Step::Roll,
        Outcome::Rolled { phrase: Some("Dummy answer".to_string()) },
    );
    assert_eq!(step, markdown_answer("Dummy answer", false));
    let image = Step::SendImage { image: vec![1] };
    let step = advance(false, image, Outcome::TextSent { sent: Ok(()) });
    assert_eq!(step, Step::SendImage { image: vec![1] });
    let step = advance(false, step, Outcome::ImageSent { sent: Err("x".to_string()) });
    assert_eq!(step, Step::Finish { result: Err(platform("x")) });
}

fn letters(s: &str) -> Vec<char> {
    s.chars().collect()
}

fn each_as_it_is(s: &str) -> Vec<Vec<char>> {
    s.chars().map(|c| vec![c]).collect()
}

#[test]
fn draw_prompt_is_the_ending_of_the_text_itself() {
    // Lowercasing that keeps every character in its place.
    assert_eq!(
        draw_prompt_in(
            &letters("Ну НАРИСУЙ Кота"),
            &letters("ну нарисуй кота"),
            &each_as_it_is("ну нарисуй кота"),
        ),
        Some(" Кота".to_string())
    );
    // No command in the lowercase form: nothing is to be drawn.
    assert_eq!(
        draw_prompt_in(&letters("Hello"), &letters("hello"), &each_as_it_is("hello")),
        None
    );
    // The first character takes up two places of the lowercase form.
    let mut mapped = vec![vec!['i', '\u{307}']];
    mapped.extend(each_as_it_is(" нарисуй кота"));
    assert_eq!(
        draw_prompt_in(
            &letters("İ нарисуй Кота"),
            &letters("i\u{307} нарисуй кота"),
            &mapped,
        ),
        Some(" Кота".to_string())
    );
    // The first of two commands counts, and nothing may follow it.
    assert_eq!(
        draw_prompt_in(
            &letters("нарисуй нарисуй"),
            &letters("нарисуй нарисуй"),
            &each_as_it_is("нарисуй нарисуй"),
        ),
        Some(" нарисуй".to_string())
    );
    assert_eq!(
        draw_prompt_in(&letters("нарисуй"), &letters("нарисуй"), &each_as_it_is("нарисуй")),
        Some(String::new())
    );
    // Mappings that never reach the end of the command leave nothing.
    assert_eq!(
        draw_prompt_in(&letters("ab"), &letters("xнарисуйy"), &each_as_it_is("ab")),
        Some(String::new())
    );
}

#[test]
fn completion_request_puts_the_preamble_first_except_in_private() {
    assert_eq!(
        completion_request(false, "preamble".to_string(), &letters(" Hello")),
        RouteDecision::TextCompletionRequest {
            prompt: "preamble Hello".to_string(),
            mode: ModelMode::Fast,
        }
    );
    assert_eq!(
        completion_request(true, "preamble".to_string(), &letters(" Hello")),
        RouteDecision::TextCompletionRequest {
            prompt: " Hello".to_string(),
            mode: ModelMode::Fast,
        }
    );
    assert_eq!(
        completion_request(true, String::new(), &letters("ПОДУМАЙ ещё")),
        RouteDecision::TextCompletionRequest {
            prompt: "ПОДУМАЙ ещё".to_string(),
            mode: ModelMode::Smart,
        }
    );
    assert_eq!(
        completion_request(false, "подумай".to_string(), &letters(" подумай")),
        RouteDecision::TextCompletionRequest {
            prompt: "подумай подумай".to_string(),
            mode: ModelMode::Fast,
        }
    );
}

#[test]
fn stock_phrase_is_one_of_those_configured() {
    let config = create_config();
    assert_eq!(stock_phrase(&config, 0, Some(0)), Some("Dummy answer"));
    assert_eq!(stock_phrase(&config, 29, Some(2)), Some("Yet another dummy answer"));
    assert_eq!(stock_phrase(&config, 29, Some(3)), None);
    assert_eq!(stock_phrase(&config, 29, None), None);
    assert_eq!(stock_phrase(&config, 30, Some(0)), None);
    let bare = Config::new(Vec::new(), String::new(), Vec::new(), Vec::new(), Vec::new());
    assert_eq!(stock_phrase(&bare, 0, Some(0)), None);
}

#[test]
fn name_that_is_mapped_twice_keeps_its_place_and_its_last_replacement() {
    let config = Config::new(
        vec![
            ("Sam".to_string(), "Bob".to_string()),
            ("Bob".to_string(), "Robert".to_string()),
            ("Sam".to_string(), "Bobby".to_string()),
        ],
        "{}: ".to_string(),
        Vec::new(),
        vec![0],
        vec!["bot"],
    );
    let mut message = build_public_message().unwrap();
    message.text = Some("bot hi".to_string());
    // Sam becomes Bobby first; Bob, then replaced in Bobby, gives Robertby.
    assert_eq!(
        route(&message, &config),
        RouteDecision::TextCompletionRequest {
            prompt: "Robertby:  hi".to_string(),
            mode: ModelMode::Fast,
        }
    );
}
