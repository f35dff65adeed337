//! What the chat command answers, given what the language model gave back.
use vstd::prelude::*;
use crate::text::concat;

verus! {

/// What a chat request to the model gave back: a whole completion, a stream of
/// chunks, or a failure with its text.
pub enum LlmReply<C> {
    Completion(C),
    Stream,
    Failed(String),
}

/// The error for a streamed reply.
pub open spec fn streaming_error() -> Seq<char> {
    "Streaming responses are not yet supported."@
}

/// The answer to a chat request: the completion itself; an error for a
/// streamed reply, which is not supported; the failure text behind
/// `LLM chat request failed: ` otherwise.
pub fn chat_reply<C>(reply: LlmReply<C>) -> (r: Result<C, String>)
    ensures
        match reply {
            LlmReply::Completion(c) => r == Ok::<C, String>(c),
            LlmReply::Stream => r matches Err(e) && e@ == streaming_error(),
            LlmReply::Failed(f) => r matches Err(e) && e@ == "LLM chat request failed: "@ + f@,
        },
{
    match reply {
        LlmReply::Completion(c) => Ok(c),
        LlmReply::Stream => Err("Streaming responses are not yet supported.".to_owned()),
        LlmReply::Failed(f) => Err(concat("LLM chat request failed: ", f.as_str())),
    }
}

} // verus!
