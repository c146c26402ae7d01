use ax_gpt::open_api_models::{Gpt3Role, Message, OpenAiChoice, OpenAiMessage, OpenAiRequestBody, OpenAiResponse};
use ax_gpt::text::join_with;

fn msg(role: Gpt3Role, text: &str) -> Message {
    Message { role, content: text.to_string() }
}

#[test]
fn request_with_system_prompt_leads_with_it() {
    let history = vec![msg(Gpt3Role::User, "hi"), msg(Gpt3Role::Assistant, "hello")];
    let body = OpenAiRequestBody::for_conversation("gpt-4".to_string(), &"be brief".to_string(), &history, true);
    assert_eq!(body.model, "gpt-4");
    assert!(body.stream);
    assert_eq!(
        body.messages,
        vec![msg(Gpt3Role::System, "be brief"), msg(Gpt3Role::User, "hi"), msg(Gpt3Role::Assistant, "hello")]
    );
    assert_eq!(history.len(), 2);
}

#[test]
fn request_without_system_prompt_is_history() {
    let history = vec![msg(Gpt3Role::User, "hi")];
    let body = OpenAiRequestBody::for_conversation("m".to_string(), &String::new(), &history, false);
    assert!(!body.stream);
    assert_eq!(body.messages, history);
}

#[test]
fn message_clone_is_equal() {
    let m = msg(Gpt3Role::User, "x");
    assert_eq!(m.clone(), m);
}

#[test]
fn response_first_content() {
    let r = OpenAiResponse {
        id: "1".to_string(),
        object: "chat.completion".to_string(),
        created: 3,
        model: "m".to_string(),
        usage: serde_json::Value::Null,
        choices: vec![
            OpenAiChoice {
                message: OpenAiMessage { role: Gpt3Role::Assistant, content: "first".to_string() },
                finish_reason: "stop".to_string(),
                index: 0,
            },
            OpenAiChoice {
                message: OpenAiMessage { role: Gpt3Role::Assistant, content: "second".to_string() },
                finish_reason: "stop".to_string(),
                index: 1,
            },
        ],
    };
    assert_eq!(r.first_content(), "first");
    assert_eq!(r.reply_message(), msg(Gpt3Role::Assistant, "first"));
}

#[test]
fn join_words_with_space() {
    let parts = vec!["how".to_string(), "to".to_string(), "open".to_string()];
    assert_eq!(join_with(&parts, " "), "how to open");
}

#[test]
fn join_tokens_without_separator() {
    let parts = vec!["Hel".to_string(), "lo".to_string(), "\n".to_string()];
    assert_eq!(join_with(&parts, ""), "Hello\n");
}

#[test]
fn join_single_and_empty() {
    assert_eq!(join_with(&vec!["one".to_string()], ", "), "one");
    assert_eq!(join_with(&vec![], ", "), "");
}
