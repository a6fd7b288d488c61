//! Requests of the provider, the streams that answer them, and the way of a
//! prompt to its answer.

use tau_extensions::json::{get_text, JsonValue};
use tau_extensions::proto::PromptOriginator;
use tau_extensions::provider::base64::base64_url_safe_no_pad_decode;
use tau_extensions::provider::body::{
    build_request, build_ws_envelope, build_ws_prewarm_envelope, compact_request_text,
    prompt_cache_key, request_members, request_text, ws_chain_fingerprint,
};
use tau_extensions::provider::context::{
    ContextItem, ContextRole, MessagePhase, ToolDefinition, ToolFormat, ToolGrammarSyntax,
    ToolResultStatus, ToolType,
};
use tau_extensions::provider::debug::{debug_file_name, debug_request_json};
use tau_extensions::provider::finish::{
    compute_ws_pool_delta, finish_stream, ProviderBackend, StopReason, WsPoolStats,
};
use tau_extensions::provider::http::{
    compacted_items, is_stale_chain_error, plan_turn_request, read_line, read_pieces,
    responses_compact, responses_stream, responses_stream_once, HttpReply, Piece,
};
use tau_extensions::provider::input::{
    build_input_items, tool_call_item, tool_result_item, value_plain_text,
};
use tau_extensions::provider::models::{Effort, ThinkingSummary, Verbosity};
use tau_extensions::provider::request::{
    convert_tool_definition, encode_tool_name, ModelParams, PreviousResponse, PromptPayload,
    ServiceTier, ToolChoice, Transport,
};
use tau_extensions::provider::responses::{ResponsesConfig, ResponsesSurface};
use tau_extensions::provider::retry::{
    is_canceled_by_harness, llm_retry_schedule, retry_banner, retry_delay, should_disable_ws,
};
use tau_extensions::provider::stream::{Extras, LlmError, Slot, StreamState};
use tau_extensions::provider::turn::{
    compaction_state, handle_compaction_request, handle_prompt, request_for_transport, Failure,
    Happening, PromptEvent, PromptTurn, TurnKind, TurnStep, WsOutcome,
};
use tau_extensions::provider::ws::{
    build_ws_url, map_ws_connect_error, read_frame, ConnectError, WsConn, WsFrame, WsReply,
};
use tau_extensions::value::CborValue;

fn config() -> ResponsesConfig {
    ResponsesConfig {
        surface: ResponsesSurface::ChatGpt,
        base_url: "https://example.test/api/".to_owned(),
        api_key: "key".to_owned(),
        model_id: "gpt-5.5".to_owned(),
        account_id: Some("acc".to_owned()),
        supports_reasoning_effort: true,
        supports_reasoning_summary: true,
        supports_verbosity: true,
        supports_phase: true,
        supports_encrypted_reasoning: true,
        supports_websocket: true,
        supports_compaction: true,
        supports_prompt_cache_key: true,
    }
}

fn bare_config() -> ResponsesConfig {
    ResponsesConfig {
        account_id: None,
        supports_reasoning_effort: false,
        supports_reasoning_summary: false,
        supports_verbosity: false,
        supports_phase: false,
        supports_encrypted_reasoning: false,
        supports_websocket: false,
        supports_compaction: false,
        supports_prompt_cache_key: false,
        ..config()
    }
}

fn message(role: ContextRole, texts: &[&str]) -> ContextItem {
    ContextItem::Message {
        role,
        content: texts.iter().map(|t| t.to_string()).collect(),
        phase: None,
    }
}

fn params() -> ModelParams {
    ModelParams {
        effort: Effort::High,
        verbosity: Verbosity::Low,
        thinking_summary: ThinkingSummary::Auto,
        service_tier: Some(ServiceTier::Flex),
    }
}

fn payload<'a>(
    items: &'a Vec<ContextItem>,
    tools: &'a Vec<ToolDefinition>,
    previous: Option<PreviousResponse>,
) -> PromptPayload<'a> {
    PromptPayload {
        system_prompt: "be brief",
        context_items: items,
        tools,
        params: params(),
        tool_choice: ToolChoice::Auto,
        previous_response: previous,
        originator: &PromptOriginator::User,
        share_user_cache_key: false,
        session_id: "s1",
    }
}

fn previous(next_item_index: usize, transport: Option<Transport>) -> PreviousResponse {
    PreviousResponse { id: "resp_1".to_owned(), next_item_index, transport }
}

fn members(members: &[(String, JsonValue)]) -> Vec<&str> {
    members.iter().map(|(k, _)| k.as_str()).collect()
}

fn text(s: &str) -> JsonValue {
    JsonValue::Text(s.to_owned())
}

fn object(entries: Vec<(&str, JsonValue)>) -> JsonValue {
    JsonValue::Object(entries.into_iter().map(|(k, v)| (k.to_owned(), v)).collect())
}

fn event(kind: &str, rest: Vec<(&str, JsonValue)>) -> JsonValue {
    let mut entries = vec![("type", text(kind))];
    entries.extend(rest);
    object(entries)
}

#[test]
fn a_full_request_says_what_the_backend_takes() {
    let items = vec![
        message(ContextRole::User, &["hello"]),
        message(ContextRole::Assistant, &["one", "two"]),
    ];
    let tools = vec![ToolDefinition {
        name: "my.tool".to_owned(),
        model_visible_name: None,
        description: Some("does".to_owned()),
        tool_type: ToolType::Function,
        parameters: None,
        format: None,
    }];
    let body = request_members(build_request(&config(), &payload(&items, &tools, None)));
    assert_eq!(
        members(&body),
        vec![
            "model",
            "instructions",
            "input",
            "stream",
            "store",
            "tools",
            "tool_choice",
            "reasoning",
            "text",
            "include",
            "prompt_cache_key",
            "service_tier"
        ]
    );
    let written: serde_json::Value =
        serde_json::from_str(&request_text(&config(), &payload(&items, &tools, None)))
            .expect("the body is JSON");
    assert_eq!(written["model"], "gpt-5.5");
    assert_eq!(written["store"], false);
    assert_eq!(written["stream"], true);
    assert_eq!(written["reasoning"]["effort"], "high");
    assert_eq!(written["reasoning"]["summary"], "auto");
    assert_eq!(written["text"]["verbosity"], "low");
    assert_eq!(written["include"][0], "reasoning.encrypted_content");
    assert_eq!(written["service_tier"], "flex");
    assert_eq!(written["tool_choice"], "auto");
    assert_eq!(written["tools"][0]["name"], "my_tool");
    assert_eq!(written["tools"][0]["strict"], serde_json::Value::Null);
    assert_eq!(written["input"][0]["content"][0]["text"], "hello");
    assert_eq!(written["input"][1]["content"][0]["text"], "one\ntwo");
    assert_eq!(written["input"][1]["phase"], "final_answer");
}

#[test]
fn the_text_of_a_request_keeps_the_order_of_its_members() {
    let items = vec![message(ContextRole::User, &["hi"])];
    let tools = vec![];
    let written = request_text(&bare_config(), &payload(&items, &tools, None));
    assert_eq!(
        written,
        "{\"model\":\"gpt-5.5\",\"instructions\":\"be brief\",\"input\":[{\"content\":[{\"text\":\"hi\",\"type\":\"input_text\"}],\"role\":\"user\"}],\"stream\":true,\"store\":false,\"service_tier\":\"flex\"}"
    );
}

#[test]
fn a_chained_request_sends_only_what_is_new() {
    let items = vec![
        message(ContextRole::User, &["one"]),
        message(ContextRole::User, &["two"]),
    ];
    let tools = vec![];
    let body = build_request(&config(), &payload(&items, &tools, Some(previous(1, None))));
    assert_eq!(body.input.len(), 1);
    assert_eq!(body.previous_response_id.as_deref(), Some("resp_1"));
    let stale = build_request(&config(), &payload(&items, &tools, Some(previous(3, None))));
    assert_eq!(stale.input.len(), 2);
    assert_eq!(stale.previous_response_id, None);
}

#[test]
fn a_compaction_leaves_out_what_its_endpoint_refuses() {
    let items = vec![message(ContextRole::User, &["one"])];
    let tools = vec![];
    let written: serde_json::Value = serde_json::from_str(&compact_request_text(
        &config(),
        &payload(&items, &tools, Some(previous(0, None))),
    ))
    .expect("JSON");
    for key in [
        "stream",
        "store",
        "tool_choice",
        "prompt_cache_key",
        "service_tier",
        "include",
        "previous_response_id",
    ] {
        assert!(written.get(key).is_none(), "{key}");
    }
    assert_eq!(written["model"], "gpt-5.5");
}

#[test]
fn websocket_messages_carry_their_type() {
    let items = vec![message(ContextRole::User, &["one"])];
    let tools = vec![];
    let request = payload(&items, &tools, None);
    let turn = build_ws_envelope(&config(), &request);
    assert_eq!(members(&turn)[..3], ["type", "model", "instructions"]);
    assert!(!members(&turn).contains(&"stream"));
    let warm = build_ws_prewarm_envelope(&config(), &request);
    assert_eq!(members(&warm)[..3], ["type", "generate", "model"]);
    assert_eq!(warm[1].1, JsonValue::Bool(false));
}

#[test]
fn cache_keys_are_split_by_extension() {
    let user = PromptOriginator::User;
    let side = PromptOriginator::Extension { name: "x".to_owned(), query_id: "q".to_owned() };
    let own = prompt_cache_key("b", "s", &user, false);
    assert_eq!(own, prompt_cache_key("b", "s", &side, true));
    assert_ne!(own, prompt_cache_key("b", "s", &side, false));
    assert_ne!(own, prompt_cache_key("b", "t", &user, false));
}

#[test]
fn tool_names_are_cleaned() {
    assert_eq!(encode_tool_name("a.b/c-d_9\u{e9}"), "a_b_c-d_9_");
    assert_eq!(encode_tool_name("clean_name-1"), "clean_name-1");
}

#[test]
fn tools_say_how_they_are_called() {
    let custom = ToolDefinition {
        name: "apply_patch".to_owned(),
        model_visible_name: Some("patch!".to_owned()),
        description: None,
        tool_type: ToolType::Custom,
        parameters: None,
        format: Some(ToolFormat::Grammar {
            syntax: ToolGrammarSyntax::Lark,
            definition: "start: x".to_owned(),
        }),
    };
    assert_eq!(
        convert_tool_definition(&custom),
        object(vec![
            ("type", text("custom")),
            ("name", text("patch_")),
            (
                "format",
                object(vec![
                    ("type", text("grammar")),
                    ("syntax", text("lark")),
                    ("definition", text("start: x")),
                ])
            ),
        ])
    );
}

#[test]
fn calls_and_results_become_items() {
    let arguments = CborValue::Dict(vec![(
        CborValue::Text("a".to_owned()),
        CborValue::Integer(1),
    )]);
    let items = vec![
        ContextItem::ToolCall {
            call_id: "c1".to_owned(),
            name: "shell".to_owned(),
            tool_type: ToolType::Function,
            arguments,
        },
        ContextItem::ToolResult {
            call_id: "c1".to_owned(),
            tool_type: ToolType::Custom,
            status: ToolResultStatus::Error { message: "no".to_owned() },
            output: CborValue::Null,
        },
        message(ContextRole::System, &["hidden"]),
        message(ContextRole::User, &[]),
    ];
    let input = build_input_items(true, &items, 0);
    assert_eq!(
        input,
        vec![
            tool_call_item("c1", "shell", ToolType::Function, "{\"a\":1}"),
            tool_result_item("c1", ToolType::Custom, "ERROR: no"),
        ]
    );
    assert_eq!(get_text(&input[0], "id").as_deref(), Some("fc_c1"));
    assert_eq!(
        get_text(&tool_call_item("ctc_2", "p", ToolType::Custom, "x"), "id").as_deref(),
        Some("ctc_2")
    );
    assert_eq!(value_plain_text(&CborValue::Text("plain".to_owned())), "plain");
    assert_eq!(value_plain_text(&CborValue::Bool(true)), "true");
}

#[test]
fn base64_is_read_without_padding() {
    assert_eq!(base64_url_safe_no_pad_decode("aGVsbG8"), Some(b"hello".to_vec()));
    assert_eq!(base64_url_safe_no_pad_decode("-_-_"), Some(vec![0xfb, 0xff, 0xbf]));
    assert_eq!(base64_url_safe_no_pad_decode(""), Some(vec![]));
    assert_eq!(base64_url_safe_no_pad_decode("a"), None);
    assert_eq!(base64_url_safe_no_pad_decode("aGVsbG8="), None);
}

fn apply(state: &mut StreamState, event: JsonValue) -> (bool, bool) {
    let step = state.apply_event(&event).expect("no failure");
    (step.done, step.updated)
}

#[test]
fn text_comes_in_as_deltas() {
    let mut state = StreamState::new();
    let delta = |d: &str, i: i128| {
        event(
            "response.output_text.delta",
            vec![("delta", text(d)), ("output_index", JsonValue::Integer(i))],
        )
    };
    assert_eq!(apply(&mut state, delta("lo", 2)), (false, true));
    assert_eq!(apply(&mut state, delta("hel", 1)), (false, true));
    assert_eq!(state.text(), "hello");
    assert_eq!(
        apply(
            &mut state,
            event(
                "response.output_text.done",
                vec![("text", text("HEL")), ("output_index", JsonValue::Integer(1))],
            )
        ),
        (false, true)
    );
    assert_eq!(state.text(), "HELlo");
    assert_eq!(apply(&mut state, event("response.other", vec![])), (false, false));
}

#[test]
fn thinking_comes_in_parts() {
    let mut state = StreamState::new();
    let added = || event("response.reasoning_summary_part.added", vec![]);
    let delta = |d: &str| event("response.reasoning_summary_text.delta", vec![("delta", text(d))]);
    apply(&mut state, added());
    assert_eq!(state.thinking, None);
    apply(&mut state, delta("first"));
    apply(&mut state, added());
    apply(&mut state, added());
    apply(&mut state, delta("second"));
    assert_eq!(state.thinking.as_deref(), Some("first\n\nsecond"));
}

#[test]
fn phases_and_reasoning_are_taken_only_where_supported() {
    let items = |extras: Extras| {
        let mut state = StreamState::taking(extras);
        for (index, item) in [
            event("message", vec![("phase", text("commentary"))]),
            event("reasoning", vec![("encrypted_content", text("blob"))]),
        ]
        .into_iter()
        .enumerate()
        {
            let at = JsonValue::Integer(index as i128);
            apply(
                &mut state,
                event("response.output_item.done", vec![("item", item), ("output_index", at)]),
            );
        }
        let phases = state.slots.iter().any(|s| matches!(&s.1, Slot::Message { phase: Some(_), .. }));
        (phases, state.slots.len())
    };
    assert_eq!(items(Extras { phase: true, reasoning: true }), (true, 2));
    assert_eq!(items(Extras { phase: false, reasoning: true }), (false, 2));
    assert_eq!(items(Extras { phase: true, reasoning: false }), (true, 1));
    let mut plain = config();
    plain.supports_phase = false;
    plain.supports_encrypted_reasoning = false;
    assert_eq!(items(plain.extras()), (false, 1));
}

#[test]
fn calls_and_messages_come_in_as_items() {
    let mut state = StreamState::new();
    let index = ("output_index", JsonValue::Integer(1));
    apply(
        &mut state,
        event(
            "response.function_call_arguments.delta",
            vec![("delta", text("{\"x\":")), ("output_index", JsonValue::Integer(1))],
        ),
    );
    apply(
        &mut state,
        event(
            "response.function_call_arguments.delta",
            vec![("delta", text("1}")), ("output_index", JsonValue::Integer(1))],
        ),
    );
    apply(
        &mut state,
        event(
            "response.output_item.done",
            vec![
                (
                    "item",
                    event(
                        "function_call",
                        vec![
                            ("call_id", text("c9")),
                            ("name", text("shell")),
                            ("arguments", text("ignored")),
                        ],
                    ),
                ),
                index,
            ],
        ),
    );
    let reasoning = event(
        "reasoning",
        vec![("id", text("rs_1")), ("encrypted_content", text("blob"))],
    );
    apply(
        &mut state,
        event("response.output_item.done", vec![("item", reasoning.copy())]),
    );
    apply(
        &mut state,
        event(
            "response.output_item.done",
            vec![
                ("item", event("reasoning", vec![("id", text("rs_2"))])),
                ("output_index", JsonValue::Integer(7)),
            ],
        ),
    );
    let (done, updated) = apply(
        &mut state,
        event(
            "response.output_item.done",
            vec![
                (
                    "item",
                    event(
                        "message",
                        vec![
                            ("phase", text("commentary")),
                            (
                                "content",
                                JsonValue::Array(vec![
                                    event("output_text", vec![("text", text("hi "))]),
                                    event("image", vec![("text", text("no"))]),
                                    event("text", vec![("text", text("there"))]),
                                ]),
                            ),
                        ],
                    ),
                ),
                ("output_index", JsonValue::Integer(2)),
            ],
        ),
    );
    assert!(!done && updated);
    let (done, _) = apply(
        &mut state,
        event(
            "response.completed",
            vec![(
                "response",
                object(vec![
                    ("id", text("resp_9")),
                    (
                        "usage",
                        object(vec![
                            ("input_tokens", JsonValue::Integer(10)),
                            ("output_tokens", JsonValue::Integer(3)),
                            (
                                "input_tokens_details",
                                object(vec![("cached_tokens", JsonValue::Integer(4))]),
                            ),
                        ]),
                    ),
                ]),
            )],
        ),
    );
    assert!(done);
    assert_eq!(state.response_id.as_deref(), Some("resp_9"));
    assert_eq!(
        (state.input_tokens, state.cached_tokens, state.output_tokens),
        (Some(10), Some(4), Some(3))
    );

    let backend = ProviderBackend {
        base_url: "b".to_owned(),
        transport: Transport::HttpSse,
        stale_chain_fallback: false,
    };
    let finished = finish_stream("sp", &PromptOriginator::User, backend, &state, None);
    assert_eq!(finished.stop_reason, StopReason::ToolCalls);
    assert_eq!(finished.output_items.len(), 3);
    // The reasoning that was kept goes out again word for word.
    assert_eq!(build_input_items(true, &finished.output_items, 0)[0], reasoning);
    assert_eq!(
        finished.output_items[1],
        ContextItem::ToolCall {
            call_id: "c9".to_owned(),
            name: "shell".to_owned(),
            tool_type: ToolType::Function,
            arguments: CborValue::Dict(vec![(
                CborValue::Text("x".to_owned()),
                CborValue::Integer(1)
            )]),
        }
    );
    assert_eq!(
        finished.output_items[2],
        ContextItem::Message {
            role: ContextRole::Assistant,
            content: vec!["hi there".to_owned()],
            phase: Some(MessagePhase::Commentary),
        }
    );
}

#[test]
fn failures_are_told_with_their_reason() {
    let fail = |e: JsonValue| match StreamState::new().apply_event(&e) {
        Err(LlmError::HttpStatus(0, body)) => body,
        other => panic!("expected a failure, got {other:?}"),
    };
    assert_eq!(fail(event("response.incomplete", vec![])), "response incomplete: unknown reason");
    assert_eq!(
        fail(event(
            "response.incomplete",
            vec![(
                "response",
                object(vec![(
                    "incomplete_details",
                    object(vec![("reason", text("max_output_tokens"))])
                )])
            )]
        )),
        "response incomplete: max_output_tokens"
    );
    assert_eq!(
        fail(event(
            "response.failed",
            vec![(
                "response",
                object(vec![("error", object(vec![("code", text("server_error"))]))])
            )]
        )),
        "response failed: server_error"
    );
    assert_eq!(fail(event("response.failed", vec![])), "response failed: unknown error");
    assert_eq!(
        fail(event("error", vec![("message", text("slow")), ("code", text("rate_limit"))])),
        "stream error: slow (type=rate_limit)"
    );
    assert_eq!(fail(event("error", vec![])), "stream error: unknown error");
}

#[test]
fn lines_of_a_stream_are_read() {
    assert!(matches!(read_line(": comment"), Piece::Ignored));
    assert!(matches!(read_line("data: [DONE]"), Piece::End));
    assert!(matches!(read_line("data: {broken"), Piece::Ignored));
    match read_line("data: {\"type\":\"x\",\"n\":[1,-2,1.5,null,true]}") {
        Piece::Event(value) => assert_eq!(
            value,
            object(vec![
                (
                    "n",
                    JsonValue::Array(vec![
                        JsonValue::Integer(1),
                        JsonValue::Integer(-2),
                        JsonValue::Float("1.5".to_owned()),
                        JsonValue::Null,
                        JsonValue::Bool(true),
                    ])
                ),
                ("type", text("x")),
            ])
        ),
        other => panic!("expected an event, got {other:?}"),
    }
}

fn body(lines: &[&str]) -> HttpReply {
    HttpReply::Body { lines: lines.iter().map(|l| l.to_string()).collect(), broken: None }
}

const HELLO: &str = "data: {\"type\":\"response.output_text.delta\",\"delta\":\"hello\"}";
const DONE: &str = "data: {\"type\":\"response.completed\",\"response\":{\"id\":\"r2\"}}";

#[test]
fn a_turn_shows_what_comes_in() {
    let items = vec![message(ContextRole::User, &["one"])];
    let tools = vec![];
    let request = payload(&items, &tools, None);
    let run = responses_stream(&config(), &request, body(&[HELLO, DONE, HELLO]), body(&[]));
    let state = run.result.expect("a response");
    assert_eq!(state.text(), "hello");
    assert_eq!(state.response_id.as_deref(), Some("r2"));
    assert!(!state.stale_chain_fallback);
    assert_eq!(run.updates.len(), 1);
    assert_eq!(run.requests.len(), 1);
    assert_eq!(run.requests[0].url, "https://example.test/api/codex/responses");
    assert!(run.requests[0]
        .headers
        .contains(&("Authorization".to_owned(), "Bearer key".to_owned())));
    assert!(run.requests[0]
        .headers
        .contains(&("chatgpt-account-id".to_owned(), "acc".to_owned())));
    let planned = plan_turn_request(&bare_config(), &request);
    assert_eq!(planned.headers.len(), 4);
    let (_, reading) = responses_stream_once(&config(), &request, body(&[HELLO]));
    assert!(reading.end.is_none());
}

#[test]
fn a_refused_chain_is_asked_again_in_full() {
    let items = vec![
        message(ContextRole::User, &["one"]),
        message(ContextRole::User, &["two"]),
    ];
    let tools = vec![];
    let refused =
        || HttpReply::Failed(LlmError::HttpStatus(404, "previous_response_id unknown".to_owned()));
    let chained = payload(&items, &tools, Some(previous(1, None)));
    let run = responses_stream(&config(), &chained, refused(), body(&[HELLO, DONE]));
    assert!(run.result.expect("a response").stale_chain_fallback);
    assert_eq!(run.requests.len(), 2);
    assert!(run.requests[0].body.contains("resp_1"));
    assert!(!run.requests[1].body.contains("resp_1"));
    assert!(run.requests[1].body.contains("one"));

    let plain = payload(&items, &tools, None);
    let run = responses_stream(&config(), &plain, refused(), body(&[HELLO, DONE]));
    assert!(run.result.is_err());
    assert_eq!(run.requests.len(), 1);

    let unnamed = LlmError::HttpStatus(404, "response not found".to_owned());
    assert!(!is_stale_chain_error(&unnamed));
    let run = responses_stream(
        &config(),
        &chained,
        HttpReply::Failed(unnamed),
        body(&[HELLO, DONE]),
    );
    assert_eq!(
        run.result.err(),
        Some(LlmError::HttpStatus(404, "response not found".to_owned()))
    );
    assert_eq!(run.requests.len(), 1);
    assert!(is_stale_chain_error(&LlmError::HttpStatus(400, "previous_response".to_owned())));
    assert!(!is_stale_chain_error(&LlmError::HttpStatus(500, "previous_response".to_owned())));
    assert!(!is_stale_chain_error(&LlmError::Io("previous_response".to_owned())));
}

#[test]
fn a_stream_that_breaks_is_an_error() {
    let items = vec![];
    let tools = vec![];
    let request = payload(&items, &tools, None);
    let broken = HttpReply::Body {
        lines: vec![HELLO.to_owned()],
        broken: Some("reset".to_owned()),
    };
    let run = responses_stream(&config(), &request, broken, body(&[]));
    assert_eq!(run.result.err(), Some(LlmError::Io("reset".to_owned())));
    assert_eq!(run.updates.len(), 1);
    // A body that just ends is taken as it is.
    let run = responses_stream(&config(), &request, body(&[HELLO]), body(&[]));
    assert_eq!(run.result.expect("a response").text(), "hello");
    let reading = read_pieces(
        config().extras(),
        vec![Piece::End, Piece::Failed(LlmError::Io("late".to_owned()))],
    );
    assert!(matches!(reading.end, Some(Ok(()))));
}

#[test]
fn a_compaction_gives_its_items_as_json() {
    let items = vec![];
    let tools = vec![];
    let request = payload(&items, &tools, None);
    let (planned, result) = responses_compact(
        &config(),
        &request,
        Ok("{\"output\":[{\"b\":1,\"a\":2},\"x\"]}".to_owned()),
    );
    assert_eq!(planned.url, "https://example.test/api/codex/responses/compact");
    assert_eq!(result, Ok(vec!["{\"a\":2,\"b\":1}".to_owned(), "\"x\"".to_owned()]));
    assert_eq!(
        compacted_items(&object(vec![])),
        Err(LlmError::HttpStatus(0, "compaction response missing output".to_owned()))
    );
    let (_, result) = responses_compact(&config(), &request, Ok("nonsense".to_owned()));
    assert!(matches!(result, Err(LlmError::Json(_))));
    let (_, result) =
        responses_compact(&config(), &request, Err(LlmError::Http("down".to_owned())));
    assert_eq!(result, Err(LlmError::Http("down".to_owned())));
}

#[test]
fn websocket_addresses_follow_the_http_ones() {
    assert_eq!(
        build_ws_url("https://h/x//").as_deref(),
        Ok("wss://h/x/codex/responses")
    );
    assert_eq!(build_ws_url("http://h").as_deref(), Ok("ws://h/codex/responses"));
    assert_eq!(
        build_ws_url("ftp://h"),
        Err(LlmError::HttpStatus(0, "ws scheme unsupported in base_url: ftp://h".to_owned()))
    );
}

#[test]
fn websocket_errors_are_told() {
    assert_eq!(
        map_ws_connect_error(ConnectError::Http { status: 426, body: Some(b"no".to_vec()) }),
        LlmError::HttpStatus(426, "no".to_owned())
    );
    assert_eq!(
        map_ws_connect_error(ConnectError::Http { status: 500, body: Some(vec![0xff]) }),
        LlmError::HttpStatus(500, String::new())
    );
    assert_eq!(
        map_ws_connect_error(ConnectError::Transport("dns".to_owned())),
        LlmError::HttpStatus(0, "stream error: ws connect: dns".to_owned())
    );
    match read_frame(&WsFrame::Close(Some((1011, "ping timeout".to_owned())))) {
        Piece::Failed(LlmError::HttpStatus(0, body)) => assert_eq!(
            body,
            "stream error: ws closed mid-stream (code=1011 reason=ping timeout)"
        ),
        other => panic!("expected a failure, got {other:?}"),
    }
    assert!(matches!(read_frame(&WsFrame::Other), Piece::Ignored));
    match read_frame(&WsFrame::Close(None)) {
        Piece::Failed(LlmError::HttpStatus(0, body)) => {
            assert_eq!(body, "stream error: ws closed mid-stream (no close frame)")
        }
        other => panic!("expected a failure, got {other:?}"),
    }
}

fn frames(texts: &[&str]) -> WsReply {
    WsReply::Frames(texts.iter().map(|t| WsFrame::Text(t.to_string())).collect())
}

#[test]
fn a_warmed_up_turn_sends_the_rest() {
    let (url, headers, mut conn) = WsConn::connect(&config()).expect("an address");
    assert_eq!(url, "wss://example.test/api/codex/responses");
    assert_eq!(headers.len(), 3);
    let first = vec![message(ContextRole::User, &["one"])];
    let both = vec![
        message(ContextRole::User, &["one"]),
        message(ContextRole::User, &["two"]),
    ];
    let other = vec![message(ContextRole::User, &["else"])];
    let tools = vec![];
    let done = "{\"type\":\"response.completed\",\"response\":{\"id\":\"warm\"}}";
    let run = conn.run_prewarm(&config(), &payload(&first, &tools, None), &frames(&[done]));
    assert!(run.result.is_ok());
    assert!(run.sent.contains("\"generate\":false"));

    // Another conversation does not go on from it.
    let run = conn.run_turn(&config(), &payload(&other, &tools, None), &WsReply::NotSent);
    assert!(!run.sent.contains("warm"));
    assert_eq!(
        run.result.err(),
        Some(LlmError::HttpStatus(0, "stream error: ws writer task gone".to_owned()))
    );

    let run = conn.run_turn(&config(), &payload(&both, &tools, None), &frames(&[done]));
    assert!(run.result.is_ok());
    assert!(run.sent.contains("\"previous_response_id\":\"warm\""));
    assert!(run.sent.contains("two") && !run.sent.contains("one"));

    // The warmed up turn is used up.
    let run = conn.run_turn(&config(), &payload(&both, &tools, None), &frames(&[]));
    assert!(!run.sent.contains("warm"));
    assert_eq!(
        run.result.err(),
        Some(LlmError::HttpStatus(
            0,
            "stream error: ws closed mid-stream (stream ended)".to_owned()
        ))
    );
}

#[test]
fn fingerprints_ignore_the_conversation() {
    let first = vec![message(ContextRole::User, &["one"])];
    let other = vec![message(ContextRole::User, &["two"])];
    let tools = vec![];
    assert_eq!(
        ws_chain_fingerprint(&config(), &payload(&first, &tools, None)),
        ws_chain_fingerprint(&config(), &payload(&other, &tools, Some(previous(0, None))))
    );
    assert_ne!(
        ws_chain_fingerprint(&config(), &payload(&first, &tools, None)),
        ws_chain_fingerprint(&bare_config(), &payload(&first, &tools, None))
    );
}

#[test]
fn chains_do_not_cross_transports() {
    let items = vec![];
    let tools = vec![];
    let request = payload(&items, &tools, Some(previous(0, Some(Transport::Websocket))));
    assert!(request_for_transport(&request, Transport::Websocket).previous_response.is_some());
    assert!(request_for_transport(&request, Transport::HttpSse).previous_response.is_none());
    let open = payload(&items, &tools, Some(previous(0, None)));
    assert!(request_for_transport(&open, Transport::HttpSse).previous_response.is_some());
}

const SECOND: u128 = 1_000_000_000;

#[test]
fn waits_before_retries_follow_a_schedule() {
    let delays = llm_retry_schedule(8);
    let base = [10u128, 10, 20, 30, 50, 80, 80, 80];
    assert_eq!(delays.len(), 8);
    for (delay, secs) in delays.iter().zip(base) {
        assert!(secs * SECOND <= *delay && *delay <= (secs + 10) * SECOND, "{delay}");
    }
    assert!(llm_retry_schedule(0).is_empty());
    assert_eq!(retry_delay(&vec![5, 7], 1, Some(6)), Some(7));
    assert_eq!(retry_delay(&vec![5, 7], 1, Some(9)), Some(9));
    assert_eq!(retry_delay(&vec![5, 7], 2, Some(9)), None);
    assert_eq!(retry_delay(&vec![5, 7], 0, None), None);
    assert_eq!(
        retry_banner(12 * SECOND + 1, 1, 8, &LlmError::HttpStatus(503, "busy".to_owned())),
        "provider error \u{2014} retrying in 12s (attempt 1/8)\n\n> HTTP 503: busy"
    );
}

#[test]
fn some_errors_decide_about_transports_and_cancellation() {
    assert!(should_disable_ws(&LlmError::HttpStatus(426, String::new())));
    assert!(should_disable_ws(&LlmError::HttpStatus(
        0,
        "x websocket_connection_limit_reached y".to_owned()
    )));
    assert!(!should_disable_ws(&LlmError::Io("426".to_owned())));
    assert!(is_canceled_by_harness(&LlmError::HttpStatus(
        499,
        "cancelled by harness".to_owned()
    )));
    assert!(!is_canceled_by_harness(&LlmError::HttpStatus(499, "other".to_owned())));
}

fn failure(retry: bool) -> Failure {
    Failure {
        error: LlmError::HttpStatus(503, "busy".to_owned()),
        retry_after: if retry { Some(0) } else { None },
    }
}

fn answers(events: &[PromptEvent]) -> Vec<StopReason> {
    events
        .iter()
        .filter_map(|e| match e {
            PromptEvent::Finished(f) => Some(f.stop_reason),
            _ => None,
        })
        .collect()
}

#[test]
fn a_failing_websocket_gives_way_to_http() {
    let ws = |retry| Happening::Ws {
        updates: vec![],
        outcome: WsOutcome::Failed(failure(retry)),
        delta: None,
    };
    let woke = || Happening::Woke { aborted: false, ws_disabled: false, delta: None };
    let mut state = StreamState::new();
    state.set_message_text_at(0, "done");
    let (turn, events) = handle_prompt(
        "sp",
        &PromptOriginator::User,
        &config(),
        false,
        vec![1, 2, 3, 4],
        vec![
            ws(true),
            woke(),
            ws(true),
            woke(),
            ws(true),
            Happening::Http { updates: vec![], outcome: Ok(state), delta: None },
        ],
    );
    assert_eq!(turn.step(), TurnStep::Done);
    assert!(turn.ws_is_disabled());
    assert_eq!(answers(&events), vec![StopReason::EndTurn]);
    assert!(matches!(events[0], PromptEvent::Submitted { .. }));
    match events.last() {
        Some(PromptEvent::Finished(f)) => {
            let backend = f.backend.as_ref().expect("a backend");
            assert_eq!(backend.transport, Transport::HttpSse);
        }
        other => panic!("expected an answer, got {other:?}"),
    }
}

#[test]
fn a_prompt_that_keeps_failing_is_answered_with_its_error() {
    let http =
        || Happening::Http { updates: vec![], outcome: Err(failure(true)), delta: None };
    let woke = || Happening::Woke { aborted: false, ws_disabled: false, delta: None };
    let (turn, events) = handle_prompt(
        "sp",
        &PromptOriginator::User,
        &bare_config(),
        false,
        vec![1, 2],
        vec![http(), woke(), http(), woke(), http()],
    );
    assert_eq!(turn.step(), TurnStep::Done);
    assert_eq!(answers(&events), vec![StopReason::Error]);
    // Two banners between the word that the prompt is taken and the answer.
    assert_eq!(events.len(), 4);
}

#[test]
fn a_wait_that_is_aborted_ends_the_prompt() {
    let (turn, events) = handle_prompt(
        "sp",
        &PromptOriginator::User,
        &bare_config(),
        false,
        vec![1],
        vec![
            Happening::Http { updates: vec![], outcome: Err(failure(true)), delta: None },
            Happening::Woke { aborted: true, ws_disabled: false, delta: None },
        ],
    );
    assert_eq!(turn.step(), TurnStep::Done);
    assert_eq!(answers(&events), vec![StopReason::Error]);

    let (_, events) = handle_prompt(
        "sp",
        &PromptOriginator::User,
        &config(),
        false,
        vec![1],
        vec![Happening::Ws { updates: vec![], outcome: WsOutcome::Canceled, delta: None }],
    );
    match events.last() {
        Some(PromptEvent::Finished(f)) => assert_eq!(
            f.output_items,
            vec![message(ContextRole::Assistant, &["(cancelled by harness)"])]
        ),
        other => panic!("expected an answer, got {other:?}"),
    }
}

#[test]
fn a_compaction_is_answered_with_its_items() {
    let (turn, events) = handle_compaction_request(
        "sp",
        &PromptOriginator::User,
        &config(),
        vec![Happening::Http {
            updates: vec![],
            outcome: Ok(compaction_state(vec!["{\"k\":1}".to_owned()])),
            delta: None,
        }],
    );
    assert_eq!(turn.step(), TurnStep::Done);
    assert_eq!(answers(&events), vec![StopReason::Compaction]);
    match &events[0] {
        PromptEvent::Finished(f) => {
            assert_eq!(f.output_items.len(), 2);
            assert!(matches!(f.output_items[1], ContextItem::Compaction(CborValue::Dict(_))));
        }
        other => panic!("expected an answer, got {other:?}"),
    }
    let (_, events) =
        handle_compaction_request("sp", &PromptOriginator::User, &bare_config(), vec![]);
    match &events[0] {
        PromptEvent::Finished(f) => assert_eq!(
            f.output_items,
            vec![message(
                ContextRole::Assistant,
                &["LLM error: HTTP 0: provider does not support remote compaction"]
            )]
        ),
        other => panic!("expected an answer, got {other:?}"),
    }
}

#[test]
fn an_empty_response_is_told() {
    let backend = ProviderBackend {
        base_url: "b".to_owned(),
        transport: Transport::Websocket,
        stale_chain_fallback: false,
    };
    let finished =
        finish_stream("sp", &PromptOriginator::User, backend, &StreamState::new(), None);
    assert_eq!(
        finished.output_items,
        vec![message(ContextRole::Assistant, &["(provider returned an empty response)"])]
    );
    assert!(finished.usage.is_none());
}

#[test]
fn prompts_of_extensions_are_tried_less_often() {
    let side = PromptOriginator::Extension { name: "n".to_owned(), query_id: "q".to_owned() };
    let turn = PromptTurn::start(TurnKind::Prompt, "sp", &side, &config(), true);
    assert_eq!(turn.step(), TurnStep::TryHttp);
    let mut turn = turn;
    let mut tries = 0;
    while turn.step() != TurnStep::Done {
        match turn.step() {
            TurnStep::TryHttp => {
                tries += 1;
                turn.happen(Happening::Http {
                    updates: vec![],
                    outcome: Err(failure(true)),
                    delta: None,
                });
            }
            _ => {
                turn.happen(Happening::Woke { aborted: false, ws_disabled: false, delta: None });
            }
        }
    }
    assert_eq!(tries, 3);
}

#[test]
fn pool_counters_are_told_as_what_they_grew_by() {
    let before = WsPoolStats { upgrades: 5, silent_reconnects: 9, chain_strips_on_fresh: 0 };
    let after = WsPoolStats {
        upgrades: 7,
        silent_reconnects: 3,
        chain_strips_on_fresh: u64::MAX,
    };
    let delta = compute_ws_pool_delta(before, after);
    assert_eq!(
        (delta.upgrades, delta.silent_reconnects, delta.chain_strips_on_fresh),
        (2, 0, u32::MAX)
    );
}

#[test]
fn what_is_written_down_holds_no_credentials() {
    let items = vec![message(ContextRole::User, &["one"])];
    let tools = vec![];
    let request = payload(&items, &tools, Some(previous(0, Some(Transport::HttpSse))));
    let value = debug_request_json(&config(), &request, "sp", Transport::Websocket);
    assert_eq!(get_text(&value, "transport").as_deref(), Some("websocket"));
    assert!(!format!("{value:?}").contains("\"key\""));
    assert_eq!(
        debug_file_name(12, "sp", Transport::HttpSse, "request"),
        "12-sp-http-sse-request.json"
    );
}
