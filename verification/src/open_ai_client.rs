use vstd::prelude::*;

use crate::open_api_models::SseChunk;
use crate::text::format_decimal;

verus! {

/// Where chat-completion requests are sent.
pub const CHAT_COMPLETIONS_URL: &'static str = "https://api.openai.com/v1/chat/completions";

/// A client of the chat-completion service, holding the key it signs in with.
pub struct Client {
    api_key: String,
}

impl Client {
    /// The key the client signs in with.
    pub closed spec fn api_key_text(&self) -> Seq<char> {
        self.api_key@
    }

    /// A client that signs in with `api_key`.
    pub fn new(api_key: String) -> (client: Client)
        ensures
            client.api_key_text() == api_key@,
    {
        Client { api_key }
    }

    /// The value of the `Authorization` header of each request.
    pub fn authorization(&self) -> (header: String)
        ensures
            header@ == "Bearer "@ + self.api_key_text(),
    {
        String::from_str("Bearer ").concat(self.api_key.as_str())
    }
}

/// What the stream of server-sent events of a streamed reply delivered next.
pub enum StreamEvent {
    /// A comment line.
    Comment,
    /// An event whose data is this chunk.
    Chunk(SseChunk),
    /// The stream failed; `status` is the HTTP status when the server
    /// answered with an unexpected one, `description` says what went wrong.
    Failure { status: Option<u16>, description: String },
}

/// What to do with the event that a streamed reply delivered.
pub enum StreamStep {
    /// Nothing; wait for the next event.
    Skip,
    /// Hand this piece of text on, then wait for the next event.
    Emit(String),
    /// Hand this piece of text on, then end the stream.
    Finish(String),
    /// Report this message, then end the stream.
    Abort(String),
}

/// The reason of a chunk tells that the reply is complete.
pub open spec fn is_stop(reason: Option<String>) -> bool {
    reason matches Some(r) && r@ == "stop"@
}

/// The text that a chunk adds: its content, or nothing when it has none.
pub open spec fn chunk_text(content: Option<String>) -> Seq<char> {
    match content {
        Some(c) => c@,
        None => ""@,
    }
}

/// The step that an event of a streamed reply leads to.
pub open spec fn stream_step_spec(event: StreamEvent, step: StreamStep) -> bool {
    match event {
        StreamEvent::Comment => step matches StreamStep::Skip,
        StreamEvent::Chunk(chunk) => {
            let first = chunk.choices@[0];
            if is_stop(first.finish_reason) {
                step matches StreamStep::Finish(t) && t@ == "\n"@
            } else {
                step matches StreamStep::Emit(t) && t@ == chunk_text(first.delta.content)
            }
        },
        StreamEvent::Failure { status, description } => if status == Some(401u16) {
            step matches StreamStep::Abort(m) && m@ == "Unautherized OpenAI API key: "@ + "401"@
        } else {
            step matches StreamStep::Abort(m) && m@ == "Unexpected server error: "@ + description@
        },
    }
}

/// The text that an event hands on (only chunks hand text on).
pub open spec fn event_text(event: StreamEvent) -> Seq<char> {
    match event {
        StreamEvent::Chunk(chunk) => if is_stop(chunk.choices@[0].finish_reason) {
            "\n"@
        } else {
            chunk_text(chunk.choices@[0].delta.content)
        },
        _ => Seq::empty(),
    }
}

/// The event ends the stream: a chunk that completes the reply, or a failure.
pub open spec fn event_ends(event: StreamEvent) -> bool {
    match event {
        StreamEvent::Chunk(chunk) => is_stop(chunk.choices@[0].finish_reason),
        StreamEvent::Failure { .. } => true,
        StreamEvent::Comment => false,
    }
}

/// The pieces of text that a streamed reply hands on, given the events the
/// server delivered in order: each chunk's text, up to and including the
/// event that ends the stream.
pub open spec fn stream_texts(events: Seq<StreamEvent>) -> Seq<Seq<char>>
    decreases events.len(),
{
    if events.len() == 0 {
        Seq::empty()
    } else {
        let e = events[0];
        let rest = if event_ends(e) {
            Seq::<Seq<char>>::empty()
        } else {
            stream_texts(events.drop_first())
        };
        if e is Chunk {
            seq![event_text(e)] + rest
        } else {
            rest
        }
    }
}

/// The step chosen for an event is what `stream_texts` takes from it: a
/// comment is skipped, a chunk hands on its text and goes on unless it ends
/// the stream, and a failure ends the stream without text.
pub proof fn lemma_step_follows_texts(event: StreamEvent, step: StreamStep)
    requires
        stream_step_spec(event, step),
    ensures
        step is Skip <==> event is Comment,
        step matches StreamStep::Emit(t) ==> event is Chunk && t@ == event_text(event) && !event_ends(event),
        step matches StreamStep::Finish(t) ==> event is Chunk && t@ == event_text(event) && event_ends(event),
        step is Abort <==> event is Failure,
{
}

/// Comments never change what a streamed reply hands on: inserting one
/// anywhere in the events leaves the pieces of text as they were.
pub proof fn lemma_comments_ignored(before: Seq<StreamEvent>, after: Seq<StreamEvent>)
    ensures
        stream_texts(before + seq![StreamEvent::Comment] + after) == stream_texts(before + after),
    decreases before.len(),
{
    let with = before + seq![StreamEvent::Comment] + after;
    let without = before + after;
    if before.len() == 0 {
        assert(with.drop_first() =~= after);
        assert(without =~= after);
    } else {
        assert(with[0] == before[0]);
        assert(without[0] == before[0]);
        assert(with.drop_first() =~= before.drop_first() + seq![StreamEvent::Comment] + after);
        assert(without.drop_first() =~= before.drop_first() + after);
        lemma_comments_ignored(before.drop_first(), after);
    }
}

/// The texts one event adds to a reply: its text if it is a chunk.
pub open spec fn texts_of(event: StreamEvent) -> Seq<Seq<char>> {
    if event is Chunk {
        seq![event_text(event)]
    } else {
        Seq::empty()
    }
}

/// While no event so far has ended the stream, the next event adds its own
/// text to what the reply handed on.
pub proof fn lemma_texts_push(events: Seq<StreamEvent>, event: StreamEvent)
    requires
        forall|i: int| 0 <= i < events.len() ==> !event_ends(#[trigger] events[i]),
    ensures
        stream_texts(events.push(event)) == stream_texts(events) + texts_of(event),
    decreases events.len(),
{
    if events.len() == 0 {
        assert(events.push(event).drop_first() =~= Seq::<StreamEvent>::empty());
        assert(events.push(event)[0] == event);
        assert(stream_texts(Seq::<StreamEvent>::empty()) == Seq::<Seq<char>>::empty());
        assert(stream_texts(events) == Seq::<Seq<char>>::empty());
        assert(stream_texts(events.push(event)) =~= texts_of(event));
    } else {
        let rest = events.drop_first();
        assert(events.push(event).drop_first() =~= rest.push(event));
        assert(!event_ends(events[0]));
        assert forall|i: int| 0 <= i < rest.len() implies !event_ends(#[trigger] rest[i]) by {
            assert(rest[i] == events[i + 1]);
        }
        lemma_texts_push(rest, event);
        assert(stream_texts(events.push(event)) =~= stream_texts(events) + texts_of(event));
    }
}

/// Reads a streamed reply event by event, keeping (as ghost state) the
/// events seen so far, so that what it hands on is `stream_texts` of them.
pub struct ReplyReader {
    ended: bool,
    seen: Ghost<Seq<StreamEvent>>,
}

impl ReplyReader {
    /// The events handed to the reader so far.
    pub closed spec fn events(&self) -> Seq<StreamEvent> {
        self.seen@
    }

    /// The reply has ended.
    pub closed spec fn ended(&self) -> bool {
        self.ended
    }

    /// The reader is consistent: it has ended exactly when an event ended the
    /// stream, which can only be the last one.
    pub closed spec fn well_formed(&self) -> bool {
        &&& forall|i: int| 0 <= i < self.seen@.len() - 1 ==> !event_ends(#[trigger] self.seen@[i])
        &&& self.ended == (self.seen@.len() > 0 && event_ends(self.seen@.last()))
    }

    /// A reader that has seen no event.
    pub fn new() -> (reader: ReplyReader)
        ensures
            reader.well_formed(),
            reader.events() == Seq::<StreamEvent>::empty(),
            !reader.ended(),
    {
        ReplyReader { ended: false, seen: Ghost(Seq::empty()) }
    }

    /// Whether the reply has ended.
    pub fn is_ended(&self) -> (ended: bool)
        ensures
            ended == self.ended(),
    {
        self.ended
    }

    /// Takes the next event of a reply that has not ended: the step it leads
    /// to, where the text it hands on (`Emit` or `Finish`) is exactly what
    /// this event adds to `stream_texts` of all events so far.
    pub fn feed(&mut self, event: StreamEvent) -> (step: StreamStep)
        requires
            old(self).well_formed(),
            !old(self).ended(),
            event matches StreamEvent::Chunk(chunk) ==> chunk.choices@.len() > 0,
        ensures
            final(self).well_formed(),
            final(self).events() == old(self).events().push(event),
            final(self).ended() == event_ends(event),
            stream_step_spec(event, step),
            stream_texts(final(self).events()) == stream_texts(old(self).events()) + match step {
                StreamStep::Emit(t) => seq![t@],
                StreamStep::Finish(t) => seq![t@],
                _ => Seq::empty(),
            },
    {
        let ghost before = self.seen@;
        let ghost e = event;
        proof {
            assert forall|i: int| 0 <= i < before.len() implies !event_ends(#[trigger] before[i]) by {
                if i == before.len() - 1 {
                    assert(before[i] == before.last());
                }
            }
            lemma_texts_push(before, e);
        }
        let step = next_stream_step(event);
        proof {
            lemma_step_follows_texts(e, step);
        }
        self.ended = match &step {
            StreamStep::Finish(_) => true,
            StreamStep::Abort(_) => true,
            _ => false,
        };
        self.seen = Ghost(before.push(e));
        proof {
            assert(self.seen@.drop_last() =~= before);
            assert forall|i: int| 0 <= i < self.seen@.len() - 1 implies !event_ends(#[trigger] self.seen@[i]) by {
                assert(self.seen@[i] == before[i]);
            }
        }
        step
    }
}

/// Decides what an event of a streamed reply leads to: comments are skipped,
/// the text of each chunk is handed on until a chunk says the reply is
/// complete, which ends it with a line break, and a failure ends it with a
/// message (a refused key has a message of its own).
pub fn next_stream_step(event: StreamEvent) -> (step: StreamStep)
    requires
        event matches StreamEvent::Chunk(chunk) ==> chunk.choices@.len() > 0,
    ensures
        stream_step_spec(event, step),
{
    match event {
        StreamEvent::Comment => StreamStep::Skip,
        StreamEvent::Chunk(chunk) => {
            let first = &chunk.choices[0];
            let stop = String::from_str("stop");
            let stops = match &first.finish_reason {
                Some(reason) => *reason == stop,
                None => false,
            };
            if stops {
                StreamStep::Finish(String::from_str("\n"))
            } else {
                match &first.delta.content {
                    Some(content) => StreamStep::Emit(content.clone()),
                    None => StreamStep::Emit(String::from_str("")),
                }
            }
        },
        StreamEvent::Failure { status, description } => {
            if status == Some(401u16) {
                let code = format_decimal(401);
                proof {
                    reveal_with_fuel(crate::text::decimal_digits, 3);
                    reveal_strlit("401");
                    assert(code@ =~= "401"@);
                }
                StreamStep::Abort(String::from_str("Unautherized OpenAI API key: ").concat(code.as_str()))
            } else {
                StreamStep::Abort(String::from_str("Unexpected server error: ").concat(description.as_str()))
            }
        },
    }
}

} // verus!
