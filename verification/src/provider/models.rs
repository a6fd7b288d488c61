//! The models that the provider publishes.

use vstd::prelude::*;

use crate::number::{number_of, parse_number};
use crate::text::{
    after_prefix, contains, holds, same_text, split_at_char, split_once_char, starts_with,
    strip_prefix, trim, trim_of,
};

verus! {

/// The number of tokens that a model reads at once.
pub const CONTEXT_WINDOW: u64 = 258400;

/// A model of a provider.
#[derive(Debug, PartialEq, Eq)]
pub struct ModelId {
    pub provider: String,
    pub model: String,
}

/// A model of a provider, as mathematics.
pub struct ModelIdView {
    pub provider: Seq<char>,
    pub model: Seq<char>,
}

impl View for ModelId {
    type V = ModelIdView;

    open spec fn view(&self) -> ModelIdView {
        ModelIdView { provider: self.provider@, model: self.model@ }
    }
}

impl ModelIdView {
    /// The name of the model with that of its provider before it.
    pub open spec fn text(self) -> Seq<char> {
        self.provider + "/"@ + self.model
    }
}

impl ModelId {
    /// A copy of the name.
    pub fn copy(&self) -> (id: ModelId)
        ensures
            id@ == self@,
    {
        ModelId { provider: self.provider.clone(), model: self.model.clone() }
    }

    /// The name of the model with that of its provider before it.
    pub fn text(&self) -> (text: String)
        ensures
            text@ == self@.text(),
    {
        let mut text = self.provider.clone();
        text.append("/");
        text.append(self.model.as_str());
        text
    }
}

/// How much a model thinks before it answers.
#[derive(Clone, Copy, Debug, PartialEq, Eq, Structural)]
pub enum Effort {
    Off,
    Minimal,
    Low,
    Medium,
    High,
    XHigh,
}

/// How much a model writes.
#[derive(Clone, Copy, Debug, PartialEq, Eq, Structural)]
pub enum Verbosity {
    Low,
    Medium,
    High,
}

/// How a model tells what it thought.
#[derive(Clone, Copy, Debug, PartialEq, Eq, Structural)]
pub enum ThinkingSummary {
    Off,
    Auto,
    Concise,
    Detailed,
}

/// What is published of a model.
#[derive(Debug, PartialEq, Eq)]
pub struct ProviderModelInfo {
    pub id: ModelId,
    pub display_name: Option<String>,
    pub default_affinity: i32,
    pub context_window: u64,
    pub efforts: Vec<Effort>,
    pub verbosities: Vec<Verbosity>,
    pub thinking_summaries: Vec<ThinkingSummary>,
    pub supports_compaction: bool,
}

/// What is published of a model, as mathematics.
pub struct ModelInfoView {
    pub id: ModelIdView,
    pub display_name: Option<Seq<char>>,
    pub default_affinity: i32,
    pub context_window: u64,
    pub efforts: Seq<Effort>,
    pub verbosities: Seq<Verbosity>,
    pub thinking_summaries: Seq<ThinkingSummary>,
    pub supports_compaction: bool,
}

impl View for ProviderModelInfo {
    type V = ModelInfoView;

    open spec fn view(&self) -> ModelInfoView {
        ModelInfoView {
            id: self.id@,
            display_name: crate::text::opt_view(self.display_name),
            default_affinity: self.default_affinity,
            context_window: self.context_window,
            efforts: self.efforts@,
            verbosities: self.verbosities@,
            thinking_summaries: self.thinking_summaries@,
            supports_compaction: self.supports_compaction,
        }
    }
}

/// The views of a list of models.
pub open spec fn model_views(models: Seq<ProviderModelInfo>) -> Seq<ModelInfoView> {
    models.map_values(|m: ProviderModelInfo| m@)
}

/// How much a model is preferred over others.
pub open spec fn affinity_of(model: Seq<char>) -> i32 {
    if model == "gpt-5.5"@ {
        400
    } else if model == "gpt-5.4"@ {
        300
    } else if model == "gpt-5.3-codex"@ {
        200
    } else if model == "gpt-5.4-mini"@ {
        100
    } else {
        0
    }
}

/// How much a model is preferred over others.
pub fn default_affinity_for_model(model: &str) -> (affinity: i32)
    ensures
        affinity == affinity_of(model@),
{
    if same_text(model, "gpt-5.5") {
        400
    } else if same_text(model, "gpt-5.4") {
        300
    } else if same_text(model, "gpt-5.3-codex") {
        200
    } else if same_text(model, "gpt-5.4-mini") {
        100
    } else {
        0
    }
}

/// Whether a model takes the highest effort.
pub open spec fn has_xhigh(model: Seq<char>) -> bool {
    &&& !holds(model, "mini"@)
    &&& !holds(model, "nano"@)
    &&& {
        ||| "gpt-5.5"@.is_prefix_of(model)
        ||| "gpt-5.4"@.is_prefix_of(model)
        ||| "gpt-5.3-codex"@.is_prefix_of(model)
        ||| "gpt-5.2"@.is_prefix_of(model)
        ||| "gpt-5.1-codex-max"@.is_prefix_of(model)
    }
}

/// Whether a model takes the highest effort.
pub fn supports_xhigh(model: &str) -> (b: bool)
    ensures
        b == has_xhigh(model@),
{
    if contains(model, "mini") || contains(model, "nano") {
        return false;
    }
    starts_with(model, "gpt-5.5") || starts_with(model, "gpt-5.4") || starts_with(
        model,
        "gpt-5.3-codex",
    ) || starts_with(model, "gpt-5.2") || starts_with(model, "gpt-5.1-codex-max")
}

/// The efforts that a model takes.
pub open spec fn efforts_of(model: Seq<char>) -> Seq<Effort> {
    let all = seq![Effort::Off, Effort::Minimal, Effort::Low, Effort::Medium, Effort::High];
    if has_xhigh(model) {
        all.push(Effort::XHigh)
    } else {
        all
    }
}

/// The efforts that a model takes.
pub fn efforts_for_model(model: &str) -> (efforts: Vec<Effort>)
    ensures
        efforts@ == efforts_of(model@),
{
    let mut efforts: Vec<Effort> = vec![
        Effort::Off,
        Effort::Minimal,
        Effort::Low,
        Effort::Medium,
        Effort::High,
    ];
    if supports_xhigh(model) {
        efforts.push(Effort::XHigh);
    }
    assert(efforts@ =~= efforts_of(model@));
    efforts
}

/// The verbosities that a model takes.
pub open spec fn verbosities_of(model: Seq<char>) -> Seq<Verbosity> {
    if "gpt-5"@.is_prefix_of(model) {
        seq![Verbosity::Low, Verbosity::Medium, Verbosity::High]
    } else {
        seq![Verbosity::Medium]
    }
}

/// The verbosities that a model takes.
pub fn verbosities_for_model(model: &str) -> (verbosities: Vec<Verbosity>)
    ensures
        verbosities@ == verbosities_of(model@),
{
    let verbosities: Vec<Verbosity> = if starts_with(model, "gpt-5") {
        vec![Verbosity::Low, Verbosity::Medium, Verbosity::High]
    } else {
        vec![Verbosity::Medium]
    };
    assert(verbosities@ =~= verbosities_of(model@));
    verbosities
}

/// What is published of a model.
pub open spec fn info_of(provider: Seq<char>, model: Seq<char>) -> ModelInfoView {
    ModelInfoView {
        id: ModelIdView { provider, model },
        display_name: None,
        default_affinity: affinity_of(model),
        context_window: CONTEXT_WINDOW,
        efforts: efforts_of(model),
        verbosities: verbosities_of(model),
        thinking_summaries: seq![
            ThinkingSummary::Off,
            ThinkingSummary::Auto,
            ThinkingSummary::Concise,
            ThinkingSummary::Detailed,
        ],
        supports_compaction: true,
    }
}

/// What is published of a model.
pub fn model_info(provider: &str, model: &str) -> (info: ProviderModelInfo)
    ensures
        info@ == info_of(provider@, model@),
{
    let thinking_summaries: Vec<ThinkingSummary> = vec![
        ThinkingSummary::Off,
        ThinkingSummary::Auto,
        ThinkingSummary::Concise,
        ThinkingSummary::Detailed,
    ];
    let info = ProviderModelInfo {
        id: ModelId { provider: provider.to_owned(), model: model.to_owned() },
        display_name: None,
        default_affinity: default_affinity_for_model(model),
        context_window: CONTEXT_WINDOW,
        efforts: efforts_for_model(model),
        verbosities: verbosities_for_model(model),
        thinking_summaries,
        supports_compaction: true,
    };
    assert(info@.thinking_summaries =~= info_of(provider@, model@).thinking_summaries);
    info
}

/// What is published of the models of a provider.
pub open spec fn infos_of(provider: Seq<char>, models: Seq<Seq<char>>) -> Seq<ModelInfoView> {
    models.map_values(|model: Seq<char>| info_of(provider, model))
}

/// What is published of the models of a provider.
pub fn models_for_provider(provider: &str, models: &Vec<String>) -> (infos: Vec<ProviderModelInfo>)
    ensures
        model_views(infos@) == infos_of(provider@, crate::text::views(models@)),
{
    let ghost all = infos_of(provider@, crate::text::views(models@));
    let mut infos: Vec<ProviderModelInfo> = Vec::new();
    let mut i: usize = 0;
    assert(model_views(infos@) =~= all.take(0));
    while i < models.len()
        invariant
            i <= models@.len(),
            all == infos_of(provider@, crate::text::views(models@)),
            model_views(infos@) == all.take(i as int),
        decreases models.len() - i,
    {
        let ghost before = infos@;
        let info = model_info(provider, models[i].as_str());
        infos.push(info);
        assert(model_views(infos@) =~= model_views(before).push(info@));
        i += 1;
        assert(model_views(infos@) =~= all.take(i as int));
    }
    assert(all.take(i as int) =~= all);
    infos
}

/// Whether a model marks the phase of a message: every model of the fifth
/// generation from its fourth minor version on, and the codex ones of the third.
pub open spec fn marks_phase(model_id: Seq<char>) -> bool {
    match after_prefix(trim_of(model_id), "gpt-5."@) {
        Some(rest) => {
            let (minor, suffix) = match split_at_char(rest, '-') {
                Some((minor, suffix)) => (minor, suffix),
                None => (rest, seq![]),
            };
            match number_of(minor, u32::MAX as u64) {
                Some(n) => n >= 4 || (n == 3 && "codex"@.is_prefix_of(suffix)),
                None => false,
            }
        },
        None => false,
    }
}

/// Whether a model marks the phase of a message.
pub fn is_known_chatgpt_phase_capable_model_id(model_id: &str) -> (b: bool)
    ensures
        b == marks_phase(model_id@),
{
    let trimmed = trim(model_id);
    let rest = match strip_prefix(trimmed.as_str(), "gpt-5.") {
        Some(rest) => rest,
        None => {
            return false;
        },
    };
    let (minor, suffix) = match split_once_char(rest.as_str(), '-') {
        Some((minor, suffix)) => (minor, suffix),
        None => {
            let suffix = String::new();
            assert(suffix@ =~= seq![]);
            (rest, suffix)
        },
    };
    match parse_number(minor.as_str(), 4294967295u64) {
        Some(n) => n >= 4 || (n == 3 && starts_with(suffix.as_str(), "codex")),
        None => false,
    }
}

} // verus!
