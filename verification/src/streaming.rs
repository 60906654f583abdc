//! Turning the model's token stream into chat events, and saving the full
//! answer once the stream ends.

use vstd::prelude::*;
use crate::text::{chars_of, push_all, string_of};

verus! {

/// Wraps model token streams into chat events.
pub struct StreamOrchestrator;

/// What has been streamed so far: the answer accumulated and whether the
/// end was already signalled.
pub struct StreamState {
    pub full_response: String,
    pub done_emitted: bool,
}

/// What the model's stream yielded next.
pub enum StreamInput {
    /// A piece of the answer.
    Token(String),
    /// The stream reported a failure.
    Failure,
    /// The stream is over.
    End,
}

/// What to do with it.
pub enum StreamAction {
    /// Forward the piece to the client.
    EmitToken(String),
    /// Forward the failure to the client.
    EmitFailure,
    /// Save the answer, when there is one, then signal the end.
    Finish { persist: Option<String> },
    /// Nothing more is sent.
    Stop,
}

impl StreamOrchestrator {
    /// The stream's state before anything was received.
    pub fn start() -> (r: StreamState)
        ensures
            r.full_response@ == Seq::<char>::empty(),
            !r.done_emitted,
    {
        StreamState { full_response: String::new(), done_emitted: false }
    }

    /// One step of the stream: once the end has been signalled nothing is
    /// sent; a piece is appended to the answer and forwarded; a failure is
    /// forwarded; the end saves a non-empty answer and is signalled once.
    pub fn step(state: StreamState, input: StreamInput) -> (r: (StreamState, StreamAction))
        ensures
            state.done_emitted ==> r.1 is Stop && r.0.done_emitted && r.0.full_response@ == state.full_response@,
            !state.done_emitted ==> match input {
                StreamInput::Token(t) => r.1 matches StreamAction::EmitToken(x) && x@ == t@
                    && r.0.full_response@ == state.full_response@ + t@ && !r.0.done_emitted,
                StreamInput::Failure => r.1 is EmitFailure && r.0.full_response@ == state.full_response@
                    && !r.0.done_emitted,
                StreamInput::End => r.0.done_emitted && r.0.full_response@ == Seq::<char>::empty()
                    && match r.1 {
                    StreamAction::Finish { persist } => if state.full_response@.len() > 0 {
                        persist matches Some(p) && p@ == state.full_response@
                    } else {
                        persist is None
                    },
                    _ => false,
                },
            },
    {
        if state.done_emitted {
            return (state, StreamAction::Stop);
        }
        match input {
            StreamInput::Token(t) => {
                let mut v = chars_of(state.full_response.as_str());
                let tc = chars_of(t.as_str());
                push_all(&mut v, &tc);
                (StreamState { full_response: string_of(&v), done_emitted: false }, StreamAction::EmitToken(t))
            },
            StreamInput::Failure => (state, StreamAction::EmitFailure),
            StreamInput::End => {
                let persist = if state.full_response.as_str().is_empty() {
                    None
                } else {
                    Some(state.full_response)
                };
                (StreamState { full_response: String::new(), done_emitted: true }, StreamAction::Finish { persist })
            },
        }
    }
}

} // verus!
