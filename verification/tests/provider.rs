//! The provider: its models, its backends, and how prompts are taken and
//! answered.

use tau_extensions::proto::PromptOriginator;
use tau_extensions::provider::ack::AckTracker;
use tau_extensions::provider::auth::{
    check_login_state, models_for_auth, parse_provider_cli, resolve_responses_backend,
    status_text, token_is_due, CliCommand, OpenAiAuth, CHATGPT_BASE_URL, CHATGPT_PROVIDER_NAME,
};
use tau_extensions::provider::cancel::{CancellationState, SleepOutcome, SleepStep};
use tau_extensions::provider::context::{ContextItem, ContextRole};
use tau_extensions::provider::finish::{backend_descriptor, StopReason};
use tau_extensions::provider::job::{Credentials, SessionPrompt};
use tau_extensions::provider::models::{
    is_known_chatgpt_phase_capable_model_id, Effort, ModelId, ProviderModelInfo, ThinkingSummary,
    Verbosity,
};
use tau_extensions::provider::request::{ModelParams, ToolChoice, Transport};
use tau_extensions::provider::responses::{ResponsesConfig, ResponsesSurface};
use tau_extensions::provider::run::{
    prompt_concurrency_limit, run, run_inner_with_prompt_executor, ProviderFrame, ProviderInput,
    ProviderOutput, ProviderState,
};
use tau_extensions::provider::stream::LlmError;
use tau_extensions::provider::turn::PromptEvent;

const NOW_MS: u64 = 1_700_000_000_000;

fn chatgpt_auth() -> OpenAiAuth {
    OpenAiAuth {
        access_token: "access".to_owned(),
        refresh_token: "refresh".to_owned(),
        expires_at_ms: u64::MAX,
        account_id: Some("account".to_owned()),
    }
}

fn credentials(auth: OpenAiAuth) -> Credentials {
    Credentials { auth, now_ms: NOW_MS, refreshed: None }
}

fn model_ids(models: &[ProviderModelInfo]) -> Vec<String> {
    models.iter().map(|model| model.id.text()).collect()
}

fn model_id(provider: &str, model: &str) -> ModelId {
    ModelId { provider: provider.to_owned(), model: model.to_owned() }
}

fn prompt() -> SessionPrompt {
    SessionPrompt {
        session_prompt_id: "sp-1".to_owned(),
        session_id: "s1".to_owned(),
        system_prompt: String::new(),
        context_items: vec![ContextItem::Message {
            role: ContextRole::User,
            content: vec!["hello".to_owned()],
            phase: None,
        }],
        tools: Vec::new(),
        tools_ref: None,
        model: Some(model_id(CHATGPT_PROVIDER_NAME, "gpt-5.5")),
        model_params: ModelParams {
            effort: Effort::Medium,
            verbosity: Verbosity::Medium,
            thinking_summary: ThinkingSummary::Off,
            service_tier: None,
        },
        tool_choice: ToolChoice::Auto,
        originator: PromptOriginator::User,
        share_user_cache_key: false,
        previous_response: None,
    }
}

fn named_prompt(id: &str) -> SessionPrompt {
    SessionPrompt { session_prompt_id: id.to_owned(), ..prompt() }
}

fn logged(log_id: u64, frame: ProviderFrame, auth: OpenAiAuth) -> ProviderInput {
    ProviderInput::Frame { log_id: Some(log_id), frame, credentials: credentials(auth) }
}

fn plain(frame: ProviderFrame) -> ProviderInput {
    ProviderInput::Frame { log_id: None, frame, credentials: credentials(chatgpt_auth()) }
}

fn backend(model: &str) -> Option<ResponsesConfig> {
    let mut auth = chatgpt_auth();
    resolve_responses_backend(&model_id(CHATGPT_PROVIDER_NAME, model), &mut auth, NOW_MS, None)
}

#[test]
fn no_auth_publishes_no_models() {
    let models = models_for_auth(&OpenAiAuth::default());

    assert!(models.is_empty());
}

#[test]
fn chatgpt_oauth_publishes_chatgpt_models() {
    let models = models_for_auth(&chatgpt_auth());

    assert_eq!(
        model_ids(&models),
        vec![
            "chatgpt/gpt-5.5",
            "chatgpt/gpt-5.4",
            "chatgpt/gpt-5.4-mini",
            "chatgpt/gpt-5.3-codex"
        ]
    );
    assert!(models.iter().all(|model| model.supports_compaction));
}

#[test]
fn resolves_chatgpt_to_codex_responses_backend() {
    let config = backend("gpt-5.4").expect("chatgpt backend");

    assert_eq!(config.surface, ResponsesSurface::ChatGpt);
    assert_eq!(config.base_url, CHATGPT_BASE_URL);
    assert_eq!(config.api_key, "access");
    assert_eq!(config.account_id.as_deref(), Some("account"));
    assert!(config.supports_websocket);
    assert!(config.supports_compaction);
    assert!(config.supports_phase);
    assert!(config.supports_encrypted_reasoning);
}

#[test]
fn chatgpt_phase_metadata_is_model_specific() {
    let old = backend("gpt-5.2-codex").expect("old codex backend");
    let new = backend("gpt-5.3-codex").expect("new codex backend");

    assert!(!old.supports_phase);
    assert!(new.supports_phase);
}

#[test]
fn phase_needs_a_known_model() {
    assert!(is_known_chatgpt_phase_capable_model_id(" gpt-5.4 "));
    assert!(is_known_chatgpt_phase_capable_model_id("gpt-5.10-mini"));
    assert!(is_known_chatgpt_phase_capable_model_id("gpt-5.3-codex-max"));
    assert!(!is_known_chatgpt_phase_capable_model_id("gpt-5.3"));
    assert!(!is_known_chatgpt_phase_capable_model_id("gpt-5.x"));
    assert!(!is_known_chatgpt_phase_capable_model_id("gpt-5."));
    assert!(!is_known_chatgpt_phase_capable_model_id("gpt-5.4294967296"));
    assert!(!is_known_chatgpt_phase_capable_model_id("gpt-4.9"));
}

#[test]
fn xhigh_metadata_is_model_specific() {
    let models = models_for_auth(&chatgpt_auth());
    let ids_with_xhigh = models
        .iter()
        .filter(|model| model.efforts.contains(&Effort::XHigh))
        .map(|model| model.id.text())
        .collect::<Vec<_>>();

    assert_eq!(
        ids_with_xhigh,
        vec![
            "chatgpt/gpt-5.5",
            "chatgpt/gpt-5.4",
            "chatgpt/gpt-5.3-codex"
        ]
    );
}

#[test]
fn verbosity_metadata_is_published_for_chatgpt_models() {
    let models = models_for_auth(&chatgpt_auth());
    let gpt = models
        .iter()
        .find(|model| model.id.text() == "chatgpt/gpt-5.5")
        .expect("gpt-5.5 model");

    assert_eq!(
        gpt.verbosities,
        vec![Verbosity::Low, Verbosity::Medium, Verbosity::High]
    );
    assert_eq!(gpt.default_affinity, 400);
    assert_eq!(gpt.context_window, 258400);
}

#[test]
fn ack_tracker_waits_for_contiguous_completed_log_events() {
    let mut tracker = AckTracker::new();
    tracker.register(7);
    tracker.register(8);

    tracker.complete(8);
    assert_eq!(tracker.next_ack(), None);

    tracker.complete(7);
    assert_eq!(tracker.next_ack(), Some(8));
    assert_eq!(tracker.next_ack(), None);
}

#[test]
fn old_events_are_not_acknowledged_again() {
    let mut tracker = AckTracker::new();
    tracker.register(5);
    tracker.complete(5);
    assert_eq!(tracker.next_ack(), Some(5));
    tracker.register(3);
    tracker.complete(3);
    assert_eq!(tracker.next_ack(), None);
    tracker.complete(6);
    assert_eq!(tracker.next_ack(), Some(6));
}

fn started(out: &[ProviderOutput]) -> Vec<String> {
    out.iter()
        .filter_map(|o| match o {
            ProviderOutput::Start(job) => Some(job.prompt.session_prompt_id.clone()),
            _ => None,
        })
        .collect()
}

fn acks(out: &[ProviderOutput]) -> Vec<u64> {
    out.iter()
        .filter_map(|o| match o {
            ProviderOutput::Ack(id) => Some(*id),
            _ => None,
        })
        .collect()
}

fn finished(out: &[ProviderOutput]) -> Vec<(String, String)> {
    out.iter()
        .filter_map(|o| match o {
            ProviderOutput::Event(PromptEvent::Finished(f)) => {
                let text = match &f.output_items[0] {
                    ContextItem::Message { content, .. } => content[0].clone(),
                    other => panic!("unexpected item {other:?}"),
                };
                Some((f.session_prompt_id.clone(), text))
            }
            _ => None,
        })
        .collect()
}

#[test]
fn prompt_workers_start_concurrently() {
    let (state, out) = run_inner_with_prompt_executor(
        &chatgpt_auth(),
        2,
        vec![
            logged(7, ProviderFrame::Prompt(named_prompt("sp-par-1")), chatgpt_auth()),
            logged(8, ProviderFrame::Prompt(named_prompt("sp-par-2")), chatgpt_auth()),
            ProviderInput::Closed,
            ProviderInput::PromptDone(Some(8)),
            ProviderInput::PromptDone(Some(7)),
        ],
    );
    assert_eq!(started(&out), vec!["sp-par-1", "sp-par-2"]);
    assert_eq!(acks(&out), vec![8], "both prompt workers should overlap");
    assert!(state.is_done());
}

#[test]
fn run_announces_provider_models_before_ready() {
    let (state, out) = run(&chatgpt_auth(), &None, vec![ProviderInput::Closed]);

    assert!(matches!(out[0], ProviderOutput::Hello), "first should be provider hello");
    assert!(out.iter().any(|o| matches!(o, ProviderOutput::Subscribe)));
    assert!(
        out.iter().any(|o| matches!(
            o,
            ProviderOutput::Models(models)
                if model_ids(models).starts_with(&["chatgpt/gpt-5.5".to_owned()])
        )),
        "startup should announce provider models"
    );
    assert!(matches!(out.last(), Some(ProviderOutput::Ready)), "last should be ready");
    assert!(state.is_done());
}

#[test]
fn direct_prompt_request_with_missing_backend_is_acknowledged_and_closed() {
    let (state, out) = run(
        &OpenAiAuth::default(),
        &None,
        vec![
            logged(7, ProviderFrame::Prompt(prompt()), OpenAiAuth::default()),
            plain(ProviderFrame::Disconnect),
        ],
    );
    let submitted = out.iter().position(|o| {
        matches!(o, ProviderOutput::Event(PromptEvent::Submitted { session_prompt_id, .. })
            if session_prompt_id == "sp-1")
    });
    let done = out.iter().position(|o| {
        matches!(o, ProviderOutput::Event(PromptEvent::Finished(f))
            if f.session_prompt_id == "sp-1" && f.stop_reason == StopReason::EndTurn)
    });
    let ack = out.iter().position(|o| matches!(o, ProviderOutput::Ack(7)));

    let submitted = submitted.expect("prompt submitted event");
    let done = done.expect("missing-backend response finished event");
    let ack = ack.expect("ack for prompt LogEvent");
    assert!(submitted < done, "submission should precede finish");
    assert!(done < ack, "ack should follow prompt handling");
    assert_eq!(
        finished(&out)[0].1,
        "cannot resolve provider backend for: chatgpt/gpt-5.5"
    );
    assert!(state.is_done());
}

#[test]
fn a_prompt_without_a_model_says_so() {
    let mut bare = prompt();
    bare.model = None;
    let (_, out) = run(&chatgpt_auth(), &None, vec![plain(ProviderFrame::Prompt(bare))]);
    assert_eq!(finished(&out)[0].1, "no model specified");
}

#[test]
fn models_of_others_have_no_backend() {
    let mut foreign = prompt();
    foreign.model = Some(model_id("openai", "gpt-5.5"));
    let (_, out) = run(&chatgpt_auth(), &None, vec![plain(ProviderFrame::Prompt(foreign))]);
    assert_eq!(
        finished(&out)[0].1,
        "cannot resolve provider backend for: openai/gpt-5.5"
    );
}

#[test]
fn prompts_over_the_limit_wait_in_order() {
    let (_, out) = run_inner_with_prompt_executor(
        &chatgpt_auth(),
        1,
        vec![
            plain(ProviderFrame::Prompt(named_prompt("a"))),
            plain(ProviderFrame::Prompt(named_prompt("b"))),
            plain(ProviderFrame::Prompt(named_prompt("c"))),
            ProviderInput::PromptDone(None),
        ],
    );
    assert_eq!(started(&out), vec!["a", "b"]);
}

#[test]
fn a_waiting_prompt_that_is_cancelled_is_answered_at_once() {
    let (_, out) = run_inner_with_prompt_executor(
        &chatgpt_auth(),
        1,
        vec![
            logged(1, ProviderFrame::Prompt(named_prompt("a")), chatgpt_auth()),
            logged(2, ProviderFrame::Prompt(named_prompt("b")), chatgpt_auth()),
            plain(ProviderFrame::Cancel(Some("b".to_owned()))),
            ProviderInput::PromptDone(Some(1)),
        ],
    );
    assert_eq!(started(&out), vec!["a"]);
    assert_eq!(
        finished(&out),
        vec![("b".to_owned(), "(cancelled by harness)".to_owned())]
    );
    assert_eq!(acks(&out), vec![2]);
}

#[test]
fn a_prompt_that_is_cancelled_before_it_comes_never_starts() {
    let (_, out) = run(
        &chatgpt_auth(),
        &None,
        vec![
            plain(ProviderFrame::Cancel(Some("a".to_owned()))),
            logged(4, ProviderFrame::Prompt(named_prompt("a")), chatgpt_auth()),
        ],
    );
    assert!(started(&out).is_empty());
    assert_eq!(finished(&out).len(), 1);
    assert_eq!(acks(&out), vec![4]);
}

#[test]
fn compaction_is_acknowledged_once_it_is_done() {
    let (_, out) = run(
        &chatgpt_auth(),
        &None,
        vec![
            logged(3, ProviderFrame::Compaction(prompt()), chatgpt_auth()),
            ProviderInput::CompactionDone,
        ],
    );
    let compact = out.iter().position(|o| matches!(o, ProviderOutput::Compact(_)));
    let ack = out.iter().position(|o| matches!(o, ProviderOutput::Ack(3)));
    assert!(compact.expect("compaction") < ack.expect("ack"));
}

#[test]
fn prewarm_needs_a_websocket() {
    let (mut state, out) = run(
        &chatgpt_auth(),
        &None,
        vec![plain(ProviderFrame::Prewarm(prompt()))],
    );
    assert!(out.iter().any(|o| matches!(o, ProviderOutput::Prewarm(_))));
    state.step(ProviderInput::PrewarmDone {
        session_id: "s1".to_owned(),
        error: Some(LlmError::HttpStatus(500, "oops".to_owned())),
    });
    assert!(!state.ws_is_disabled("s1"));
    state.step(ProviderInput::PrewarmDone {
        session_id: "s1".to_owned(),
        error: Some(LlmError::HttpStatus(426, "upgrade".to_owned())),
    });
    assert!(state.ws_is_disabled("s1"));
    let out = state.step(plain(ProviderFrame::Prewarm(prompt())));
    assert!(out.is_empty());
}

#[test]
fn frames_during_a_wait_are_kept_or_acted_on() {
    let mut state = ProviderState::new(1);
    let other = ProviderFrame::Cancel(Some("other".to_owned()));
    let own = ProviderFrame::Cancel(Some("own".to_owned()));
    assert_eq!(state.on_frame_while_waiting(false, &other, "own"), (false, false));
    assert_eq!(state.on_frame_while_waiting(true, &own, "own"), (true, false));
    assert!(!state.cancellation().is_canceled("own"));
    assert_eq!(state.on_frame_while_waiting(false, &own, "own"), (true, true));
    assert!(state.cancellation().is_canceled("own"));
    assert!(state.cancellation().is_canceled("other"));
    assert_eq!(
        state.on_frame_while_waiting(false, &ProviderFrame::Cancel(None), "own"),
        (true, true)
    );
    assert_eq!(
        state.on_frame_while_waiting(false, &ProviderFrame::Other, "own"),
        (true, false)
    );
    assert_eq!(
        state.on_frame_while_waiting(false, &ProviderFrame::Disconnect, "own"),
        (true, true)
    );
    assert!(state.cancellation().is_canceled("anything"));
}

#[test]
fn waits_are_cut_short() {
    let mut state = CancellationState::new();
    let since = state.generation();
    assert_eq!(state.sleep_step("a", since, 100, 40), SleepStep::WaitFor(60));
    assert_eq!(
        state.sleep_step("a", since, 100, 101),
        SleepStep::End(SleepOutcome::Elapsed)
    );
    state.cancel("b");
    assert_eq!(state.sleep_step("a", since, 100, 40), SleepStep::WaitFor(60));
    state.cancel_retry_sleeps();
    assert_eq!(
        state.sleep_step("a", since, 100, 40),
        SleepStep::End(SleepOutcome::Aborted)
    );
    assert!(state.take_canceled("b"));
    assert!(!state.take_canceled("b"));
    state.shutdown();
    assert!(state.take_canceled("c"));
}

#[test]
fn the_limit_is_read_from_a_setting() {
    assert_eq!(prompt_concurrency_limit(&None), 4);
    assert_eq!(prompt_concurrency_limit(&Some("7".to_owned())), 7);
    assert_eq!(prompt_concurrency_limit(&Some("+7".to_owned())), 7);
    assert_eq!(prompt_concurrency_limit(&Some("0".to_owned())), 4);
    assert_eq!(prompt_concurrency_limit(&Some("-1".to_owned())), 4);
    assert_eq!(prompt_concurrency_limit(&Some("many".to_owned())), 4);
    assert_eq!(
        prompt_concurrency_limit(&Some("99999999999999999999999".to_owned())),
        4
    );
}

#[test]
fn tokens_are_refreshed_at_half_of_their_life_or_near_their_end() {
    assert!(!token_is_due(Some(1_000_000), 3_000_000, 1_999_999));
    assert!(token_is_due(Some(1_000_000), 3_000_000, 2_000_000));
    assert!(!token_is_due(None, 3_000_000, 2_699_999));
    assert!(token_is_due(None, 3_000_000, 2_700_000));
    assert!(token_is_due(None, u64::MAX, u64::MAX - 1));
}

#[test]
fn a_due_token_is_replaced_by_what_the_refresh_gave() {
    // {"iat":1699999000}
    let mut auth = OpenAiAuth {
        access_token: "h.eyJpYXQiOjE2OTk5OTkwMDB9.s".to_owned(),
        refresh_token: "refresh".to_owned(),
        expires_at_ms: NOW_MS + 900_000,
        account_id: None,
    };
    let model = model_id(CHATGPT_PROVIDER_NAME, "gpt-5.5");
    let config = resolve_responses_backend(&model, &mut auth, NOW_MS, Some(chatgpt_auth()))
        .expect("backend");
    assert_eq!(config.api_key, "access");
    assert_eq!(auth.access_token, "access");

    // {"iat":1699999500}
    let mut fresh = OpenAiAuth {
        access_token: "h.eyJpYXQiOjE2OTk5OTk1MDB9.s".to_owned(),
        refresh_token: "refresh".to_owned(),
        expires_at_ms: NOW_MS + 900_000,
        account_id: None,
    };
    let config = resolve_responses_backend(&model, &mut fresh, NOW_MS, Some(chatgpt_auth()))
        .expect("backend");
    assert_eq!(config.api_key, "h.eyJpYXQiOjE2OTk5OTk1MDB9.s");
    assert_eq!(config.account_id, None);
}

#[test]
fn the_setup_command_knows_its_subcommands() {
    let parse = |word: &str| parse_provider_cli(&vec![word.to_owned()]);
    assert_eq!(parse_provider_cli(&vec![]), Ok(CliCommand::Help));
    assert_eq!(parse("login"), Ok(CliCommand::Login));
    assert_eq!(parse("remove"), Ok(CliCommand::Logout));
    assert_eq!(parse("list"), Ok(CliCommand::Status));
    assert_eq!(parse("-h"), Ok(CliCommand::Help));
    assert_eq!(
        parse("dance"),
        Err("unknown chatgpt provider subcommand: dance".to_owned())
    );
    assert_eq!(status_text(&OpenAiAuth::default(), NOW_MS), "chatgpt: not configured");
    assert_eq!(status_text(&chatgpt_auth(), NOW_MS), "chatgpt: logged in");
    let expired = OpenAiAuth { expires_at_ms: NOW_MS, ..chatgpt_auth() };
    assert_eq!(status_text(&expired, NOW_MS), "chatgpt: expired");
    assert_eq!(check_login_state("x", "x"), Ok(()));
    assert!(check_login_state("x", "y").unwrap_err().starts_with("state mismatch"));
}

#[test]
fn an_answer_names_its_backend() {
    let config = backend("gpt-5.4").expect("chatgpt backend");

    let described = backend_descriptor(&config, Transport::Websocket, true);

    assert_eq!(described.base_url, CHATGPT_BASE_URL);
    assert_eq!(described.transport, Transport::Websocket);
    assert!(described.stale_chain_fallback);
}
