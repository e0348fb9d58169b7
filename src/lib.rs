//! Typed clients for two large-language-model HTTP APIs, with a verified
//! engine that turns a streamed response body into an ordered sequence of
//! typed events.
use vstd::prelude::*;

pub mod framing;
pub mod gemini;
pub mod json;
pub mod ollama;
pub mod stream;

pub use gemini::{
    Candidate, Content, GenerateContentResponse, InlineData, Part, PromptFeedback, SafetyRating,
    SafetySetting, StreamGenerateContentResponse, UsageMetadata,
};
pub use ollama::{GenerateResponse, ListModelsResponse, ModelDetails, ModelInfo};
pub use stream::{ParsedEvent, StreamPump};

verus! {

} // verus!
