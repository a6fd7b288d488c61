//! The Responses API of ChatGPT/Codex: where it is and what it takes.

use vstd::prelude::*;

use crate::provider::stream::Extras;
use crate::text::{opt_view, trim_end_matches, without_end};

verus! {

/// Which Responses surface a model is served through.
#[derive(Clone, Copy, Debug, PartialEq, Eq, Structural)]
pub enum ResponsesSurface {
    /// The `/codex/responses` endpoint that OAuth opens.
    ChatGpt,
}

impl ResponsesSurface {
    /// The address of the endpoint that streams a response.
    pub open spec fn responses_url_of(self, base_url: Seq<char>) -> Seq<char> {
        without_end(base_url, '/') + "/codex/responses"@
    }

    /// The address of the endpoint that compacts a conversation.
    pub open spec fn compact_url_of(self, base_url: Seq<char>) -> Seq<char> {
        without_end(base_url, '/') + "/codex/responses/compact"@
    }

    /// The address of the endpoint that streams a response.
    pub fn responses_url(self, base_url: &str) -> (url: String)
        ensures
            url@ == self.responses_url_of(base_url@),
    {
        let mut url = trim_end_matches(base_url, '/');
        url.append("/codex/responses");
        url
    }

    /// The address of the endpoint that compacts a conversation.
    pub fn compact_url(self, base_url: &str) -> (url: String)
        ensures
            url@ == self.compact_url_of(base_url@),
    {
        let mut url = trim_end_matches(base_url, '/');
        url.append("/codex/responses/compact");
        url
    }

    /// Whether the endpoint is asked to store a response: it refuses to.
    pub fn store_value(self) -> (b: bool)
        ensures
            !b,
    {
        false
    }
}

/// How the Responses API is called.
#[derive(Debug, PartialEq, Eq)]
pub struct ResponsesConfig {
    /// The surface that decides on the endpoint and on details of the body.
    pub surface: ResponsesSurface,
    /// The address of the surface, without the path of an endpoint.
    pub base_url: String,
    /// The bearer credential of the `Authorization` header.
    pub api_key: String,
    /// The name of the model without that of its provider.
    pub model_id: String,
    /// The `chatgpt-account-id` header.
    pub account_id: Option<String>,
    /// Whether `reasoning.effort` is accepted.
    pub supports_reasoning_effort: bool,
    /// Whether `reasoning.summary` is accepted.
    pub supports_reasoning_summary: bool,
    /// Whether `text.verbosity` is accepted.
    pub supports_verbosity: bool,
    /// Whether messages of the assistant carry a `phase`.
    pub supports_phase: bool,
    /// Whether reasoning comes back encrypted, to be sent again.
    pub supports_encrypted_reasoning: bool,
    /// Whether a WebSocket is tried before plain requests.
    pub supports_websocket: bool,
    /// Whether there is an endpoint that compacts a conversation.
    pub supports_compaction: bool,
    /// Whether `prompt_cache_key` is accepted.
    pub supports_prompt_cache_key: bool,
}

/// How the Responses API is called, as mathematics.
pub struct ConfigView {
    pub surface: ResponsesSurface,
    pub base_url: Seq<char>,
    pub api_key: Seq<char>,
    pub model_id: Seq<char>,
    pub account_id: Option<Seq<char>>,
    pub supports_reasoning_effort: bool,
    pub supports_reasoning_summary: bool,
    pub supports_verbosity: bool,
    pub supports_phase: bool,
    pub supports_encrypted_reasoning: bool,
    pub supports_websocket: bool,
    pub supports_compaction: bool,
    pub supports_prompt_cache_key: bool,
}

impl View for ResponsesConfig {
    type V = ConfigView;

    open spec fn view(&self) -> ConfigView {
        ConfigView {
            surface: self.surface,
            base_url: self.base_url@,
            api_key: self.api_key@,
            model_id: self.model_id@,
            account_id: opt_view(self.account_id),
            supports_reasoning_effort: self.supports_reasoning_effort,
            supports_reasoning_summary: self.supports_reasoning_summary,
            supports_verbosity: self.supports_verbosity,
            supports_phase: self.supports_phase,
            supports_encrypted_reasoning: self.supports_encrypted_reasoning,
            supports_websocket: self.supports_websocket,
            supports_compaction: self.supports_compaction,
            supports_prompt_cache_key: self.supports_prompt_cache_key,
        }
    }
}

impl ConfigView {
    /// What is taken from a response: a phase only where messages carry one,
    /// and reasoning only where it was asked for.
    pub open spec fn extras(self) -> Extras {
        Extras { phase: self.supports_phase, reasoning: self.supports_encrypted_reasoning }
    }
}

impl ResponsesConfig {
    /// What is taken from a response.
    pub fn extras(&self) -> (extras: Extras)
        ensures
            extras == self@.extras(),
    {
        Extras { phase: self.supports_phase, reasoning: self.supports_encrypted_reasoning }
    }
}

} // verus!
