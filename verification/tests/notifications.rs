//! Notifications: which configured actions run, and when.

use tau_extensions::notifications::hooks::{
    plain_fault, template_fault, ExtConfig, HookConfig, IdleHookConfig, Osc1337Config, Output, SOUND_VAR_NAME, TEXT_VAR_NAME,
    VALUE_AGENT_END, VALUE_AGENT_START,
};
use tau_extensions::notifications::run::{
    run, run_with_idle, run_with_idle_and_summary_timeout, Message, RunResult, TimedMessage,
};
use tau_extensions::notifications::state::{ContextRole, Incoming, ResponseItem};
use tau_extensions::json::{get, JsonValue};
use tau_extensions::notifications::outline::may_not_end;
use tau_extensions::notifications::template::{
    context_json, fill_in, Place, TemplateContext,
};
use tau_extensions::proto::PromptOriginator;

const MILLI: u128 = 1_000_000;
const SECOND: u128 = 1_000_000_000;

fn place() -> Place {
    Place { host: "box".to_owned(), cwd: "/home/user/project".to_owned() }
}

fn osc(key: &str, value: &str) -> HookConfig {
    HookConfig {
        bell: false,
        command: None,
        osc1337: Some(Osc1337Config { key: key.to_owned(), value: value.to_owned() }),
    }
}

fn bell() -> HookConfig {
    HookConfig { bell: true, command: None, osc1337: None }
}

fn idle(delay_seconds: Option<u64>, agent_summary: bool, hook: HookConfig) -> IdleHookConfig {
    IdleHookConfig { hook, delay_seconds, agent_summary }
}

fn empty() -> ExtConfig {
    ExtConfig::default()
}

fn default_idle_payload_template() -> String {
    r#"{"title":"Agent idle: {{host}}:{{cwd_basename}}","body":"Waiting for user input"}"#
        .to_owned()
}

fn idle_osc_config(delay_seconds: u64, agent_summary: bool) -> IdleHookConfig {
    let value = if agent_summary {
        r#"{"summary":"{{turn.agent_summary}}"}"#.to_owned()
    } else {
        default_idle_payload_template()
    };
    idle(Some(delay_seconds), agent_summary, osc(TEXT_VAR_NAME, &value))
}

fn default_notifications_config() -> ExtConfig {
    ExtConfig {
        agent_start: vec![osc(SOUND_VAR_NAME, VALUE_AGENT_START)],
        agent_end: vec![osc(SOUND_VAR_NAME, VALUE_AGENT_END)],
        agent_idle: vec![idle(None, false, osc(TEXT_VAR_NAME, &default_idle_payload_template()))],
        agent_idle_all: vec![],
    }
}

fn immediate_idle_agent_summary_config() -> ExtConfig {
    ExtConfig {
        agent_end: vec![osc(SOUND_VAR_NAME, VALUE_AGENT_END)],
        agent_idle: vec![idle_osc_config(0, true)],
        ..empty()
    }
}

fn all_idle_config(delay_seconds: u64, agent_summary: bool, value: &str) -> ExtConfig {
    ExtConfig {
        agent_idle_all: vec![idle(Some(delay_seconds), agent_summary, osc(TEXT_VAR_NAME, value))],
        ..empty()
    }
}

fn at(at: u128, message: Message) -> TimedMessage {
    TimedMessage { at, message }
}

fn configure(config: ExtConfig) -> Message {
    Message::Configure { config: Ok(config) }
}

fn deliver(event: Incoming) -> Message {
    Message::Deliver { replay: false, event }
}

fn replayed(event: Incoming) -> Message {
    Message::Deliver { replay: true, event }
}

fn prompt_for(agent_id: &str, text: &str, originator: PromptOriginator) -> Incoming {
    Incoming::AgentPromptSubmitted {
        agent_id: agent_id.to_owned(),
        text: text.to_owned(),
        originator,
        internal: false,
        display_name: None,
    }
}

fn prompt(text: &str, originator: PromptOriginator) -> Incoming {
    prompt_for("main", text, originator)
}

fn finished_for(
    agent_id: &str,
    agent_prompt_id: &str,
    text: &str,
    originator: PromptOriginator,
) -> Incoming {
    Incoming::ProviderResponseFinished {
        agent_id: agent_id.to_owned(),
        agent_prompt_id: agent_prompt_id.to_owned(),
        originator,
        requests_tools: false,
        items: vec![ResponseItem::Message {
            role: ContextRole::Assistant,
            content: vec![text.to_owned()],
        }],
    }
}

fn finished(agent_prompt_id: &str, text: &str, originator: PromptOriginator) -> Incoming {
    finished_for("main", agent_prompt_id, text, originator)
}

fn tool_call_finished(agent_prompt_id: &str, originator: PromptOriginator) -> Incoming {
    Incoming::ProviderResponseFinished {
        agent_id: "main".to_owned(),
        agent_prompt_id: agent_prompt_id.to_owned(),
        originator,
        requests_tools: true,
        items: vec![ResponseItem::Other],
    }
}

fn background_placeholder(call_id: &str) -> Incoming {
    Incoming::ToolResult {
        call_id: call_id.to_owned(),
        originator: PromptOriginator::User,
        background: true,
    }
}

fn background_result(call_id: &str) -> Incoming {
    Incoming::ToolBackgroundResult {
        call_id: call_id.to_owned(),
        originator: PromptOriginator::User,
    }
}

fn agent_state(agent_id: &str, running: bool) -> Incoming {
    Incoming::AgentState { agent_id: agent_id.to_owned(), running }
}

fn side(query_id: &str) -> PromptOriginator {
    PromptOriginator::Extension {
        name: "core-subagents".to_owned(),
        query_id: query_id.to_owned(),
    }
}

/// Messages that come one after the other without delay.
fn now(messages: Vec<Message>) -> Vec<TimedMessage> {
    messages.into_iter().map(|m| at(0, m)).collect()
}

fn variable(result: &RunResult, i: usize) -> (String, String) {
    match &result.outputs[i].output {
        Output::SetUserVar { name, value } => (name.clone(), value.clone()),
        other => panic!("expected a user variable, got {other:?}"),
    }
}

fn values(result: &RunResult) -> Vec<String> {
    result
        .outputs
        .iter()
        .filter_map(|o| match &o.output {
            Output::SetUserVar { value, .. } => Some(value.clone()),
            _ => None,
        })
        .collect()
}

#[test]
fn empty_config_emits_no_notifications() {
    let result = run_with_idle(
        now(vec![
            configure(empty()),
            deliver(prompt("hello", PromptOriginator::User)),
            deliver(finished("sp-0", "done", PromptOriginator::User)),
            Message::Disconnect,
        ]),
        &place(),
        MILLI,
    );
    assert!(result.error.is_none());
    assert!(result.outputs.is_empty());
}

#[test]
fn emits_start_and_end_user_var_in_order() {
    let result = run_with_idle(
        now(vec![
            configure(default_notifications_config()),
            deliver(prompt("hello", PromptOriginator::User)),
            deliver(finished("sp-0", "done", PromptOriginator::User)),
            Message::Disconnect,
        ]),
        &place(),
        3600 * SECOND,
    );
    assert!(result.error.is_none());
    let (name, value) = variable(&result, 0);
    assert_eq!(name, SOUND_VAR_NAME);
    assert_eq!(value, VALUE_AGENT_START);
    let (name, value) = variable(&result, 1);
    assert_eq!(name, SOUND_VAR_NAME);
    assert_eq!(value, VALUE_AGENT_END);
}

#[test]
fn replay_marked_frames_emit_no_notifications() {
    let result = run_with_idle(
        now(vec![
            configure(default_notifications_config()),
            replayed(prompt("hello", PromptOriginator::User)),
            replayed(finished("sp-0", "done", PromptOriginator::User)),
            Message::Disconnect,
        ]),
        &place(),
        MILLI,
    );
    assert!(result.error.is_none());
    assert!(
        result.outputs.is_empty(),
        "replayed history must not trigger notifications",
    );
}

#[test]
fn bell_mode_emits_only_completion_bell() {
    let result = run_with_idle(
        now(vec![
            configure(ExtConfig { agent_end: vec![bell()], ..empty() }),
            deliver(prompt("hello", PromptOriginator::User)),
            deliver(finished("sp-0", "done", PromptOriginator::User)),
            Message::EndOfStream,
        ]),
        &place(),
        MILLI,
    );
    assert!(result.error.is_none());
    assert!(matches!(result.outputs[0].output, Output::TermBell));
    assert_eq!(result.outputs.len(), 1, "bell mode emitted unexpected events");
}

#[test]
fn agent_start_hook_renders_multiple_configured_actions() {
    let result = run_with_idle(
        now(vec![
            configure(ExtConfig {
                agent_start: vec![
                    bell(),
                    osc("agent-{{agent.id}}", "{{hook}}:{{agent.name}}"),
                ],
                ..empty()
            }),
            deliver(Incoming::AgentPromptSubmitted {
                agent_id: "main".to_owned(),
                text: "hello".to_owned(),
                originator: PromptOriginator::User,
                internal: false,
                display_name: Some("Friendly main".to_owned()),
            }),
            Message::Disconnect,
        ]),
        &place(),
        3600 * SECOND,
    );
    assert!(result.error.is_none());
    assert!(matches!(result.outputs[0].output, Output::TermBell));
    let (name, value) = variable(&result, 1);
    assert_eq!(name, "agent-main");
    assert_eq!(value, "agent_start:Friendly main");
}

#[test]
fn agent_start_hook_uses_display_name_set_with_id_fallback_for_blank_prompt_name() {
    let result = run_with_idle(
        now(vec![
            configure(ExtConfig {
                agent_start: vec![osc("agent", "{{agent.name}}")],
                ..empty()
            }),
            deliver(Incoming::AgentDisplayNameSet {
                agent_id: "main".to_owned(),
                display_name: "Renamed main".to_owned(),
            }),
            deliver(Incoming::AgentPromptSubmitted {
                agent_id: "main".to_owned(),
                text: "hello".to_owned(),
                originator: PromptOriginator::User,
                internal: false,
                display_name: Some("   ".to_owned()),
            }),
            Message::Disconnect,
        ]),
        &place(),
        3600 * SECOND,
    );
    assert!(result.error.is_none());
    let (_, value) = variable(&result, 0);
    assert_eq!(value, "Renamed main");
}

#[test]
fn mid_turn_finish_with_tool_calls_does_not_emit_end_sound() {
    let result = run_with_idle(
        now(vec![
            configure(default_notifications_config()),
            deliver(prompt("hello", PromptOriginator::User)),
            deliver(tool_call_finished("sp-0", PromptOriginator::User)),
            Message::Disconnect,
        ]),
        &place(),
        3600 * SECOND,
    );
    assert!(result.error.is_none());
    let (_, value) = variable(&result, 0);
    assert_eq!(value, VALUE_AGENT_START);
    assert_eq!(result.outputs.len(), 1, "no further events expected after mid-turn finish");
}

#[test]
fn final_response_waits_for_background_tools_before_end_sound() {
    let result = run_with_idle(
        now(vec![
            configure(default_notifications_config()),
            deliver(prompt("run slow thing", PromptOriginator::User)),
            deliver(background_placeholder("call-bg")),
            deliver(finished("sp-0", "done", PromptOriginator::User)),
            deliver(background_result("call-bg")),
            Message::Disconnect,
        ]),
        &place(),
        3600 * SECOND,
    );
    assert!(result.error.is_none());
    assert_eq!(values(&result), vec![VALUE_AGENT_START, VALUE_AGENT_END]);
    assert_eq!(result.outputs.len(), 2);
}

#[test]
fn new_prompt_does_not_forget_previous_background_tool() {
    let mut messages = vec![configure(default_notifications_config())];
    for (text, spid) in [("run slow thing", "sp-0"), ("next prompt", "sp-1")] {
        messages.push(deliver(prompt(text, PromptOriginator::User)));
        if spid == "sp-0" {
            messages.push(deliver(background_placeholder("call-bg")));
        }
        messages.push(deliver(finished(spid, "done", PromptOriginator::User)));
    }
    messages.push(Message::Disconnect);
    let result = run_with_idle(now(messages), &place(), 3600 * SECOND);
    assert!(result.error.is_none());
    assert_eq!(
        values(&result),
        vec![VALUE_AGENT_START, VALUE_AGENT_START],
        "end sound must wait until the old background tool completes",
    );
}

#[test]
fn final_response_without_background_completion_does_not_emit_end_sound() {
    let result = run_with_idle(
        now(vec![
            configure(default_notifications_config()),
            deliver(prompt("run slow thing", PromptOriginator::User)),
            deliver(background_placeholder("call-bg")),
            deliver(finished("sp-0", "done", PromptOriginator::User)),
            Message::Disconnect,
        ]),
        &place(),
        3600 * SECOND,
    );
    assert!(result.error.is_none());
    let (_, value) = variable(&result, 0);
    assert_eq!(value, VALUE_AGENT_START);
    assert_eq!(result.outputs.len(), 1);
}

#[test]
fn idle_timeout_defaults_to_static_notification() {
    let result = run_with_idle_and_summary_timeout(
        now(vec![
            configure(default_notifications_config()),
            deliver(finished("sp-0", "done", PromptOriginator::User)),
            Message::EndOfStream,
        ]),
        &place(),
        50 * MILLI,
        50 * MILLI,
    );
    assert!(result.error.is_none());
    let (name, value) = variable(&result, 0);
    assert_eq!(name, SOUND_VAR_NAME);
    assert_eq!(value, VALUE_AGENT_END);
    let (name, value) = variable(&result, 1);
    assert_eq!(name, TEXT_VAR_NAME);
    let payload: serde_json::Value =
        serde_json::from_str(&value).expect("fallback payload is JSON");
    assert!(payload["title"]
        .as_str()
        .expect("title is a string")
        .starts_with("Agent idle: "));
    assert_eq!(payload["body"], "Waiting for user input");
    assert_eq!(payload["title"], "Agent idle: box:project");
    assert_eq!(result.outputs[1].at, 50 * MILLI);
}

#[test]
fn agent_idle_snake_case_fires_for_individual_agent_idle() {
    let result = run_with_idle(
        now(vec![
            configure(ExtConfig { agent_idle: vec![idle_osc_config(0, false)], ..empty() }),
            deliver(finished("sp-0", "done", PromptOriginator::User)),
            Message::EndOfStream,
        ]),
        &place(),
        MILLI,
    );
    assert!(result.error.is_none());
    let (name, _) = variable(&result, 0);
    assert_eq!(name, TEXT_VAR_NAME);
}

fn two_busy_agents(config: ExtConfig) -> Vec<Message> {
    vec![
        configure(config),
        deliver(agent_state("main", false)),
        deliver(agent_state("other", false)),
        deliver(prompt_for("main", "work 1", PromptOriginator::User)),
        deliver(agent_state("main", true)),
        deliver(prompt_for("other", "work 2", PromptOriginator::User)),
        deliver(agent_state("other", true)),
        deliver(finished_for("main", "sp-main", "main done", PromptOriginator::User)),
        deliver(agent_state("main", false)),
    ]
}

#[test]
fn agent_idle_all_fires_when_every_tracked_agent_is_idle() {
    let mut messages = two_busy_agents(all_idle_config(0, false, "{{hook}}:{{agent.id}}"));
    messages.push(deliver(finished_for(
        "other",
        "sp-other",
        "other done",
        PromptOriginator::User,
    )));
    messages.push(deliver(agent_state("other", false)));
    messages.push(Message::EndOfStream);
    let result = run_with_idle(now(messages), &place(), MILLI);
    assert!(result.error.is_none());
    let (_, value) = variable(&result, 0);
    assert_eq!(value, "agent_idle_all:other");
    assert_eq!(result.outputs.len(), 1);
}

#[test]
fn agent_idle_all_does_not_fire_while_another_agent_is_busy() {
    let mut messages = two_busy_agents(all_idle_config(0, false, "all idle"));
    messages.push(Message::Disconnect);
    let result = run_with_idle(now(messages), &place(), MILLI);
    assert!(result.error.is_none());
    assert!(result.outputs.is_empty());
}

#[test]
fn agent_idle_all_timer_clears_when_any_agent_starts_running() {
    let result = run_with_idle(
        now(vec![
            configure(all_idle_config(1, false, "{{hook}}:{{agent.id}}")),
            deliver(agent_state("main", false)),
            deliver(agent_state("main", true)),
            deliver(finished_for("main", "sp-main", "done", PromptOriginator::User)),
            deliver(agent_state("main", false)),
            deliver(agent_state("other", false)),
            deliver(agent_state("other", true)),
            Message::EndOfStream,
        ]),
        &place(),
        MILLI,
    );
    assert!(result.error.is_none());
    assert!(result.outputs.is_empty());
}

#[test]
fn agent_idle_all_timer_survives_provider_prompt_without_agent_state() {
    let result = run_with_idle(
        now(vec![
            configure(all_idle_config(0, false, "{{hook}}:{{agent.id}}")),
            deliver(agent_state("main", false)),
            deliver(agent_state("main", true)),
            deliver(finished_for("main", "sp-main", "done", PromptOriginator::User)),
            deliver(agent_state("main", false)),
            deliver(Incoming::ProviderPromptSubmitted { originator: PromptOriginator::User }),
            Message::EndOfStream,
        ]),
        &place(),
        MILLI,
    );
    assert!(result.error.is_none());
    let (_, value) = variable(&result, 0);
    assert_eq!(value, "agent_idle_all:main");
}

/// The request for a summary among the outputs.
fn summary_query(result: &RunResult) -> (u128, String) {
    for timed in &result.outputs {
        if let Output::StartAgentRequest { query_id, .. } = &timed.output {
            return (timed.at, query_id.clone());
        }
    }
    panic!("expected a request for a summary, got {:?}", result.outputs)
}

#[test]
fn agent_idle_all_summary_side_prompt_does_not_cancel_pending_notification() {
    let start = || {
        now(vec![
            configure(all_idle_config(0, true, "{{hook}}:{{turn.agent_summary}}")),
            deliver(agent_state("main", false)),
            deliver(agent_state("main", true)),
            deliver(finished_for("main", "sp-main", "done", PromptOriginator::User)),
            deliver(agent_state("main", false)),
        ])
    };
    let first = run_with_idle_and_summary_timeout(start(), &place(), MILLI, 5 * SECOND);
    let (asked_at, query_id) = summary_query(&first);

    let later = asked_at + MILLI;
    let mut messages = start();
    messages.push(at(
        later,
        deliver(Incoming::StartAgentAccepted {
            query_id: query_id.clone(),
            agent_id: "summary".to_owned(),
        }),
    ));
    messages.push(at(later, deliver(agent_state("summary", false))));
    messages.push(at(later, deliver(agent_state("summary", true))));
    messages.push(at(
        later,
        deliver(prompt_for(
            "main",
            "summary side prompt",
            PromptOriginator::Extension {
                name: "std-notifications".to_owned(),
                query_id: query_id.clone(),
            },
        )),
    ));
    messages.push(at(
        later,
        deliver(Incoming::StartAgentResult {
            query_id,
            text: "all done".to_owned(),
            error: None,
        }),
    ));
    messages.push(at(later, Message::Disconnect));
    let result = run_with_idle_and_summary_timeout(messages, &place(), MILLI, 5 * SECOND);
    assert!(result.error.is_none());
    assert!(matches!(result.outputs[0].output, Output::StartAgentRequest { .. }));
    let (_, value) = variable(&result, 1);
    assert_eq!(value, "agent_idle_all:all done");
}

#[test]
fn agent_idle_all_fires_when_last_busy_agent_becomes_idle() {
    let result = run_with_idle(
        now(vec![
            configure(all_idle_config(0, false, "{{hook}}:{{agent.id}}")),
            deliver(agent_state("main", false)),
            deliver(agent_state("other", false)),
            deliver(agent_state("main", false)),
            deliver(agent_state("other", true)),
            deliver(agent_state("other", false)),
            Message::EndOfStream,
        ]),
        &place(),
        MILLI,
    );
    assert!(result.error.is_none());
    let (_, value) = variable(&result, 0);
    assert_eq!(value, "agent_idle_all:other");
}

#[test]
fn idle_timeout_requests_summary_when_enabled_then_falls_back() {
    let result = run_with_idle_and_summary_timeout(
        now(vec![
            configure(immediate_idle_agent_summary_config()),
            deliver(finished("sp-0", "done", PromptOriginator::User)),
            Message::EndOfStream,
        ]),
        &place(),
        50 * MILLI,
        50 * MILLI,
    );
    assert!(result.error.is_none());
    let (name, value) = variable(&result, 0);
    assert_eq!(name, SOUND_VAR_NAME);
    assert_eq!(value, VALUE_AGENT_END);
    match &result.outputs[1].output {
        Output::StartAgentRequest { query_id, instruction } => {
            assert!(!query_id.is_empty(), "extension must mint a non-empty query_id");
            assert!(instruction.contains("summarize") || instruction.contains("Summarize"));
        }
        other => panic!("expected a request for a summary, got {other:?}"),
    }
    let (name, value) = variable(&result, 2);
    assert_eq!(name, TEXT_VAR_NAME);
    let payload: serde_json::Value =
        serde_json::from_str(&value).expect("fallback payload is JSON");
    assert_eq!(payload["summary"], "");
    assert_eq!(result.outputs[2].at - result.outputs[1].at, 50 * MILLI);
}

fn summary_start() -> Vec<TimedMessage> {
    now(vec![
        configure(immediate_idle_agent_summary_config()),
        deliver(finished("sp-0", "done", PromptOriginator::User)),
    ])
}

#[test]
fn summary_result_populates_notification_template() {
    let first =
        run_with_idle_and_summary_timeout(summary_start(), &place(), 50 * MILLI, 5 * SECOND);
    let (asked_at, query_id) = summary_query(&first);
    let mut messages = summary_start();
    messages.push(at(
        asked_at + MILLI,
        deliver(Incoming::StartAgentResult {
            query_id,
            text: "  refactoring the harness state, awaiting next prompt  ".to_owned(),
            error: None,
        }),
    ));
    messages.push(at(asked_at + MILLI, Message::Disconnect));
    let result = run_with_idle_and_summary_timeout(messages, &place(), 50 * MILLI, 5 * SECOND);
    assert!(result.error.is_none());
    let (_, value) = variable(&result, 2);
    let payload: serde_json::Value = serde_json::from_str(&value).expect("payload is JSON");
    assert_eq!(
        payload["summary"], "refactoring the harness state, awaiting next prompt",
        "summary template variable should be trimmed",
    );
}

#[test]
fn prompt_draft_extends_idle_deadline() {
    let mut messages = now(vec![
        configure(default_notifications_config()),
        deliver(finished("sp-0", "done", PromptOriginator::User)),
    ]);
    for i in 0..5u128 {
        messages.push(at(i * 100 * MILLI, deliver(Incoming::UiPromptDraft)));
    }
    let result = run_with_idle_and_summary_timeout(messages, &place(), 200 * MILLI, 50 * MILLI);
    assert!(result.error.is_none());
    let (name, _) = variable(&result, 1);
    assert_eq!(name, TEXT_VAR_NAME);
    // The user stopped typing 100 ms after the last draft.
    let elapsed = result.outputs[1].at - 500 * MILLI;
    assert!(
        30 * MILLI <= elapsed,
        "notification fired too soon; idle deadline wasn't reset",
    );
    assert_eq!(result.outputs[1].at, 600 * MILLI);
}

#[test]
fn prompt_draft_during_waiting_summary_does_not_cancel() {
    let first =
        run_with_idle_and_summary_timeout(summary_start(), &place(), 50 * MILLI, 5 * SECOND);
    let (asked_at, query_id) = summary_query(&first);
    let mut messages = summary_start();
    messages.push(at(asked_at + MILLI, deliver(Incoming::UiPromptDraft)));
    messages.push(at(
        asked_at + 2 * MILLI,
        deliver(Incoming::StartAgentResult {
            query_id,
            text: "the model's summary".to_owned(),
            error: None,
        }),
    ));
    messages.push(at(asked_at + 2 * MILLI, Message::Disconnect));
    let result = run_with_idle_and_summary_timeout(messages, &place(), 50 * MILLI, 5 * SECOND);
    assert!(result.error.is_none());
    let (_, value) = variable(&result, 2);
    let payload: serde_json::Value = serde_json::from_str(&value).expect("payload is JSON");
    assert_eq!(payload["summary"], "the model's summary");
}

#[test]
fn idle_command_runs_with_rendered_template_args() {
    let mut hook = idle_osc_config(0, false);
    hook.hook.command = Some(vec![
        "bash".to_owned(),
        "-c".to_owned(),
        "printf '%s|||%s' \"$1\" \"$2\"".to_owned(),
        "_marker".to_owned(),
        "{{agent.id}}".to_owned(),
        "{{turn.agent_response}}".to_owned(),
    ]);
    let config = ExtConfig {
        agent_end: vec![osc(SOUND_VAR_NAME, VALUE_AGENT_END)],
        agent_idle: vec![hook],
        ..empty()
    };
    let result = run_with_idle_and_summary_timeout(
        now(vec![
            configure(config),
            deliver(finished("sp-0", "done", PromptOriginator::User)),
            Message::EndOfStream,
        ]),
        &place(),
        50 * MILLI,
        50 * MILLI,
    );
    assert!(result.error.is_none());
    match &result.outputs[2].output {
        Output::RunCommand { argv } => {
            assert_eq!(argv[4], "main");
            assert_eq!(argv[5], "done");
            assert_eq!(argv[0], "bash");
        }
        other => panic!("expected a command, got {other:?}"),
    }
}

#[test]
fn invalid_hook_template_emits_config_error() {
    let result = run_with_idle(
        now(vec![
            configure(ExtConfig { agent_start: vec![osc("ok", "{{missing}}")], ..empty() }),
            Message::Disconnect,
        ]),
        &place(),
        3600 * SECOND,
    );
    assert!(result.error.is_none());
    match &result.outputs[0].output {
        Output::ConfigError(fault) => assert!(fault.message().contains("missing")),
        other => panic!("expected a configuration error, got {other:?}"),
    }
}

#[test]
fn unreadable_config_is_reported() {
    let result = run_with_idle(
        now(vec![
            Message::Configure { config: Err("unknown field `agent-idle`".to_owned()) },
            Message::Disconnect,
        ]),
        &place(),
        MILLI,
    );
    match &result.outputs[0].output {
        Output::ConfigError(fault) => assert!(fault.message().contains("agent-idle")),
        other => panic!("expected a configuration error, got {other:?}"),
    }
}

#[test]
fn config_reload_clears_pending_idle_hooks() {
    let result = run_with_idle(
        now(vec![
            configure(default_notifications_config()),
            deliver(finished("sp-0", "done", PromptOriginator::User)),
            configure(empty()),
            deliver(Incoming::UiPromptDraft),
            Message::Disconnect,
        ]),
        &place(),
        3600 * SECOND,
    );
    assert!(result.error.is_none());
    let (_, value) = variable(&result, 0);
    assert_eq!(value, VALUE_AGENT_END);
    assert_eq!(result.outputs.len(), 1);
}

#[test]
fn user_prompt_during_idle_window_cancels_text_notification() {
    let result = run_with_idle(
        now(vec![
            configure(default_notifications_config()),
            deliver(finished("sp-0", "done", PromptOriginator::User)),
            deliver(prompt("another question", PromptOriginator::User)),
            Message::EndOfStream,
        ]),
        &place(),
        3600 * SECOND,
    );
    assert!(result.error.is_none());
    assert_eq!(values(&result), vec![VALUE_AGENT_END, VALUE_AGENT_START]);
    assert_eq!(result.outputs.len(), 2);
}

#[test]
fn sub_agent_prompts_and_responses_are_ignored() {
    let result = run_with_idle(
        now(vec![
            configure(default_notifications_config()),
            deliver(prompt("delegate something", PromptOriginator::User)),
            deliver(tool_call_finished("sp-main", PromptOriginator::User)),
            deliver(Incoming::ProviderPromptSubmitted { originator: side("q1") }),
            deliver(prompt("side instruction", side("q1"))),
            deliver(finished("sp-side", "delegated answer", side("q1"))),
            deliver(finished("sp-main", "done", PromptOriginator::User)),
            Message::Disconnect,
        ]),
        &place(),
        3600 * SECOND,
    );
    assert!(result.error.is_none());
    assert_eq!(values(&result), vec![VALUE_AGENT_START, VALUE_AGENT_END]);
    assert_eq!(result.outputs.len(), 2, "side conversations must be silent");
}

#[test]
fn duplicate_agent_prompt_submitted_during_same_turn_emits_one_start_sound() {
    let result = run_with_idle(
        now(vec![
            configure(default_notifications_config()),
            deliver(prompt("hello", PromptOriginator::User)),
            deliver(prompt("internal replay", PromptOriginator::User)),
            deliver(finished("sp-0", "done", PromptOriginator::User)),
            Message::Disconnect,
        ]),
        &place(),
        3600 * SECOND,
    );
    assert!(result.error.is_none());
    assert_eq!(values(&result), vec![VALUE_AGENT_START, VALUE_AGENT_END]);
    assert_eq!(result.outputs.len(), 2);
}

fn context() -> TemplateContext {
    TemplateContext {
        hook: "agent_idle".to_owned(),
        agent_id: "main".to_owned(),
        agent_name: "Main".to_owned(),
        host: "box".to_owned(),
        cwd: "/home/user/project".to_owned(),
        cwd_basename: "project".to_owned(),
        user_prompt: "hello".to_owned(),
        agent_response: "done".to_owned(),
        agent_summary: String::new(),
    }
}

#[test]
fn templates_speak_of_the_context_by_name() {
    let filled = |template: &str| fill_in(template, &context()).expect(template);
    assert_eq!(filled("{{hook}} {{agent.id}} {{agent.name}}"), "agent_idle main Main");
    assert_eq!(filled("{{host}}:{{cwd}} {{cwd_basename}}"), "box:/home/user/project project");
    assert_eq!(filled("{{turn.user_prompt}}-{{turn.agent_response}}"), "hello-done");
    assert_eq!(filled("[{{turn.agent_summary}}]"), "[]");
    assert!(fill_in("{{missing}}", &context()).is_err());
    assert!(fill_in("{{", &context()).is_err());
    let data = context_json(&context());
    let agent = get(&data, "agent").expect("agent");
    assert_eq!(get(agent, "id"), Some(&JsonValue::Text("main".to_owned())));
    assert_eq!(get(&data, "hook"), Some(&JsonValue::Text("agent_idle".to_owned())));
}

#[test]
fn partials_are_filled_in_unless_one_stands_within_itself() {
    for (template, filled) in [
        (r#"{{#*inline "a"}}[{{host}}]{{/inline}}{{> a}}"#, "[box]"),
        (r#"{{#*inline "a"}}x{{/inline}}{{> a}}{{#if host}}y{{/if}}"#, "xy"),
        (r#"{{#*inline "a"}}x{{/inline}}{{#*inline "b"}}<{{> a}}>{{/inline}}{{> b}}"#, "<x>"),
        (r#"{{#*inline "b"}}<{{> a}}>{{/inline}}{{#*inline "a"}}x{{/inline}}{{> b}}"#, "<x>"),
        (r#"{{#*inline "a"}}{{> a}}{{/inline}}never brought in"#, "never brought in"),
        (r#"{{#*inline "a"}}{{!-- {{> a}} --}}x{{/inline}}{{> a}}"#, "x"),
        (r#"{{#*inline "a"}}\{{> a}}{{/inline}}{{> a}}"#, "{{> a}}"),
        (r#"{{#> none}}fallback{{/none}}"#, "fallback"),
    ] {
        assert!(!may_not_end(template), "{template}");
        assert_eq!(fill_in(template, &context()).as_deref(), Ok(filled), "{template}");
    }
    for template in [
        r#"{{#*inline "a"}}{{> a}}{{/inline}}{{> a}}"#,
        r#"{{#*inline "a"}}{{> b}}{{/inline}}{{#*inline "b"}}{{> a}}{{/inline}}{{> b}}"#,
        r#"{{#*inline "a"}}{{#if host}}{{> a}}{{/if}}{{/}}{{> a}}"#,
        r#"{{#*inline "a"}}{{!-- {{/inline}} --}}{{> a}}{{/inline}}{{> a}}"#,
        r#"{{#*inline "a"}}{{> (lookup this "host")}}{{/inline}}{{> a}}"#,
        r#"{{#*inline host}}{{> box}}{{/inline}}{{> box}}"#,
        r#"{{#*inline "a"}}{{#> none}}{{> a}}{{/none}}{{/inline}}{{> a}}"#,
        r#"{{#*inline "b"}}{{#*inline "a"}}{{> a}}{{/inline}}{{> a}}{{/inline}}{{> b}}"#,
    ] {
        assert!(may_not_end(template), "{template}");
        assert_eq!(
            fill_in(template, &context()).unwrap_err(),
            "a partial may not include itself",
            "{template}"
        );
    }
    assert!(!may_not_end("{{#*inline"));
}

#[test]
fn a_failure_at_run_time_is_handed_on_in_its_own_words() {
    // The prompt names a partial that is not there: the trial of the configuration
    // does not see it.
    let template = r#"{{#*inline "user prompt"}}ok{{/inline}}{{> (lookup turn "user_prompt")}}"#;
    let ctx = TemplateContext { user_prompt: "nobody".to_owned(), ..context() };
    let words = fill_in(template, &ctx).unwrap_err();
    let result = run_with_idle(
        now(vec![
            configure(ExtConfig { agent_end: vec![osc("key", template)], ..empty() }),
            deliver(prompt("nobody", PromptOriginator::User)),
            deliver(finished("sp-0", "done", PromptOriginator::User)),
            Message::Disconnect,
        ]),
        &place(),
        3600 * SECOND,
    );
    assert!(result.outputs.is_empty());
    assert_eq!(result.error, Some(words));
}

#[test]
fn faults_say_where_and_what() {
    assert_eq!(plain_fault("about".to_owned()).message(), "about");
    let fault = template_fault("agent_idle[0]", " command: ", "no such thing".to_owned());
    assert_eq!(fault.message(), "agent_idle[0] command: no such thing");
}

#[test]
fn idle_time_is_a_minute_unless_given() {
    let messages = || {
        now(vec![
            configure(default_notifications_config()),
            deliver(finished("sp-0", "done", PromptOriginator::User)),
        ])
    };
    let plain = run(messages(), &place());
    let given = run_with_idle(messages(), &place(), 60 * SECOND);
    assert_eq!(format!("{plain:?}"), format!("{given:?}"));
    assert_eq!(plain.outputs.len(), 2);
    assert_eq!(plain.outputs[1].at, 60 * SECOND);
}
