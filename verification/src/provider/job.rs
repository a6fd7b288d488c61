//! Prompts, and the jobs that they become.

use vstd::prelude::*;

use crate::proto::{OriginatorView, PromptOriginator};
use crate::provider::auth::{
    after_refresh, backend_of, opt_auth, opt_config, refresh_wanted, resolve_responses_backend,
    AuthView, OpenAiAuth, CHATGPT_PROVIDER_NAME,
};
use crate::provider::context::{item_views, tool_views, ContextItem, ItemView, ToolDefinition, ToolView};
use crate::provider::finish::opt_model;
use crate::provider::models::{ModelId, ModelIdView};
use crate::provider::request::{
    opt_previous, ModelParams, PayloadView, PreviousResponse, PreviousView, PromptPayload,
    ToolChoice,
};
use crate::provider::responses::{ConfigView, ResponsesConfig};
use crate::text::opt_view;

verus! {

/// A prompt of a session.
#[derive(Debug)]
pub struct SessionPrompt {
    pub session_prompt_id: String,
    pub session_id: String,
    pub system_prompt: String,
    pub context_items: Vec<ContextItem>,
    pub tools: Vec<ToolDefinition>,
    /// Where the tools stand, where they are not given in full.
    pub tools_ref: Option<String>,
    pub model: Option<ModelId>,
    pub model_params: ModelParams,
    pub tool_choice: ToolChoice,
    pub originator: PromptOriginator,
    pub share_user_cache_key: bool,
    /// The response that the prompt can go on from.
    pub previous_response: Option<PreviousResponse>,
}

/// A prompt of a session, as mathematics.
pub struct PromptView {
    pub session_prompt_id: Seq<char>,
    pub session_id: Seq<char>,
    pub system_prompt: Seq<char>,
    pub context_items: Seq<ItemView>,
    pub tools: Seq<ToolView>,
    pub tools_ref: Option<Seq<char>>,
    pub model: Option<ModelIdView>,
    pub model_params: ModelParams,
    pub tool_choice: ToolChoice,
    pub originator: OriginatorView,
    pub share_user_cache_key: bool,
    pub previous_response: Option<PreviousView>,
}

impl View for SessionPrompt {
    type V = PromptView;

    open spec fn view(&self) -> PromptView {
        PromptView {
            session_prompt_id: self.session_prompt_id@,
            session_id: self.session_id@,
            system_prompt: self.system_prompt@,
            context_items: item_views(self.context_items@),
            tools: tool_views(self.tools@),
            tools_ref: opt_view(self.tools_ref),
            model: opt_model(self.model),
            model_params: self.model_params,
            tool_choice: self.tool_choice,
            originator: self.originator@,
            share_user_cache_key: self.share_user_cache_key,
            previous_response: opt_previous(self.previous_response),
        }
    }
}

impl PromptView {
    /// The prompt with its tools as they are given.
    pub open spec fn materialized(self) -> PromptView {
        PromptView { tools_ref: None, ..self }
    }

    /// What is asked for the prompt; it goes on from an earlier response where
    /// that is wanted.
    pub open spec fn payload(self, chained: bool) -> PayloadView {
        PayloadView {
            system_prompt: self.system_prompt,
            context_items: self.context_items,
            tools: self.tools,
            params: self.model_params,
            tool_choice: self.tool_choice,
            previous_response: if chained {
                self.previous_response
            } else {
                None
            },
            originator: self.originator,
            share_user_cache_key: self.share_user_cache_key,
            session_id: self.session_id,
        }
    }
}

impl SessionPrompt {
    /// The prompt with its tools as they are given.
    pub fn materialize_prompt(self) -> (prompt: SessionPrompt)
        ensures
            prompt@ == self@.materialized(),
    {
        let mut prompt = self;
        prompt.tools_ref = None;
        prompt
    }

    /// What is asked for the prompt.
    pub fn payload(&self, chained: bool) -> (payload: PromptPayload)
        ensures
            payload@ == self@.payload(chained),
    {
        let previous_response: Option<PreviousResponse> = if chained {
            match &self.previous_response {
                Some(previous) => Some(previous.copy()),
                None => None,
            }
        } else {
            None
        };
        PromptPayload {
            system_prompt: self.system_prompt.as_str(),
            context_items: &self.context_items,
            tools: &self.tools,
            params: self.model_params,
            tool_choice: self.tool_choice,
            previous_response,
            originator: &self.originator,
            share_user_cache_key: self.share_user_cache_key,
            session_id: self.session_id.as_str(),
        }
    }
}

/// A prompt with the backend that it goes to.
#[derive(Debug)]
pub struct PromptJob {
    /// The logged event that it came with.
    pub log_id: Option<u64>,
    pub prompt: SessionPrompt,
    pub backend: ResponsesConfig,
}

/// A prompt with the backend that it goes to, as mathematics.
pub struct JobView {
    pub log_id: Option<u64>,
    pub prompt: PromptView,
    pub backend: ConfigView,
}

impl View for PromptJob {
    type V = JobView;

    open spec fn view(&self) -> JobView {
        JobView { log_id: self.log_id, prompt: self.prompt@, backend: self.backend@ }
    }
}

/// The views of a list of jobs.
pub open spec fn job_views(jobs: Seq<PromptJob>) -> Seq<JobView> {
    jobs.map_values(|j: PromptJob| j@)
}

/// The credentials at hand when a prompt comes in, and what a refresh of them
/// gives or would give.
#[derive(Debug)]
pub struct Credentials {
    pub auth: OpenAiAuth,
    pub now_ms: u64,
    pub refreshed: Option<OpenAiAuth>,
}

/// The credentials at hand, as mathematics.
pub struct CredentialsView {
    pub auth: AuthView,
    pub now_ms: u64,
    pub refreshed: Option<AuthView>,
}

impl View for Credentials {
    type V = CredentialsView;

    open spec fn view(&self) -> CredentialsView {
        CredentialsView {
            auth: self.auth@,
            now_ms: self.now_ms,
            refreshed: opt_auth(self.refreshed),
        }
    }
}

/// The backend that a model goes to.
pub open spec fn resolved(model: Option<ModelIdView>, credentials: CredentialsView) -> Option<
    ConfigView,
> {
    match model {
        Some(model) => if model.provider == CHATGPT_PROVIDER_NAME@ {
            backend_of(
                model.model,
                after_refresh(
                    credentials.auth,
                    refresh_wanted(credentials.auth, credentials.now_ms),
                    credentials.refreshed,
                ),
            )
        } else {
            None
        },
        None => None,
    }
}

/// The backend that a model goes to.
pub fn resolve_backend(model: &Option<ModelId>, credentials: Credentials) -> (config: Option<
    ResponsesConfig,
>)
    ensures
        opt_config(config) == resolved(opt_model(*model), credentials@),
{
    match model {
        Some(model) => {
            let mut auth = credentials.auth;
            resolve_responses_backend(
                model,
                &mut auth,
                credentials.now_ms,
                credentials.refreshed,
            )
        },
        None => None,
    }
}

} // verus!
