use vstd::prelude::*;

verus! {

/// `serde_json::Value`: an arbitrary JSON document, carried through unread.
#[verifier::external_type_specification]
#[verifier::external_body]
pub struct ExJsonValue(serde_json::Value);

/// Who wrote a message of a conversation.
#[derive(Debug, Clone, Copy, PartialEq, Eq, Structural)]
pub enum Gpt3Role {
    User,
    Assistant,
    System,
}

/// One message of a conversation.
#[derive(Debug, PartialEq, Eq)]
pub struct Message {
    pub role: Gpt3Role,
    pub content: String,
}

impl Clone for Message {
    fn clone(&self) -> (copy: Self)
        ensures
            copy == *self,
    {
        Message { role: self.role, content: self.content.clone() }
    }
}

/// The body of a chat-completion request.
#[derive(Debug)]
pub struct OpenAiRequestBody {
    pub model: String,
    pub messages: Vec<Message>,
    pub stream: bool,
}

/// A complete (non-streamed) chat-completion reply.
#[derive(Debug)]
pub struct OpenAiResponse {
    pub id: String,
    pub object: String,
    pub created: u64,
    pub model: String,
    pub usage: serde_json::Value,
    pub choices: Vec<OpenAiChoice>,
}

/// One alternative of a complete reply.
#[derive(Debug)]
pub struct OpenAiChoice {
    pub message: OpenAiMessage,
    pub finish_reason: String,
    pub index: u64,
}

/// The message of one alternative of a complete reply.
#[derive(Debug)]
pub struct OpenAiMessage {
    pub role: Gpt3Role,
    pub content: String,
}

/// One chunk of a streamed reply.
#[derive(Debug)]
pub struct SseChunk {
    pub id: String,
    pub object: String,
    pub created: u64,
    pub model: String,
    pub choices: Vec<Choice>,
}

/// One alternative of a streamed chunk.
#[derive(Debug)]
pub struct Choice {
    pub delta: Delta,
    pub index: u64,
    pub finish_reason: Option<String>,
}

/// The text a streamed chunk adds to its alternative.
#[derive(Debug)]
pub struct Delta {
    pub content: Option<String>,
}

impl OpenAiRequestBody {
    /// The request that continues the conversation `history` with `model`,
    /// led by `system_prompt` when it is not empty.
    pub fn for_conversation(model: String, system_prompt: &String, history: &Vec<Message>, stream: bool) -> (body: OpenAiRequestBody)
        ensures
            body.model == model,
            body.stream == stream,
            system_prompt@.len() == 0 ==> body.messages@ == history@,
            system_prompt@.len() > 0 ==> body.messages@ == seq![Message { role: Gpt3Role::System, content: *system_prompt }] + history@,
    {
        let mut messages = history.clone();
        proof {
            assert(messages@ =~= history@);
        }
        if !system_prompt.as_str().is_empty() {
            messages.insert(0, Message { role: Gpt3Role::System, content: system_prompt.clone() });
            proof {
                assert(messages@ =~= seq![Message { role: Gpt3Role::System, content: *system_prompt }] + history@);
            }
        }
        OpenAiRequestBody { model, messages, stream }
    }
}

impl OpenAiResponse {
    /// The text of the first alternative of the reply.
    pub fn first_content(&self) -> (content: String)
        requires
            self.choices@.len() > 0,
        ensures
            content@ == self.choices@[0].message.content@,
    {
        self.choices[0].message.content.clone()
    }

    /// The first alternative of the reply, as an assistant message to keep
    /// in the conversation.
    pub fn reply_message(&self) -> (message: Message)
        requires
            self.choices@.len() > 0,
        ensures
            message.role == Gpt3Role::Assistant,
            message.content@ == self.choices@[0].message.content@,
    {
        Message { role: Gpt3Role::Assistant, content: self.first_content() }
    }
}

} // verus!
