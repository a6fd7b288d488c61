//! The scripting extension.

use tau_extensions::json::JsonValue;
use tau_extensions::proto::PromptOriginator;
use tau_extensions::scripting::host::{HostState, NameChecks};
use tau_extensions::scripting::message::{
    enqueue_event, finish_init, finish_intercept, init_config_json, meta_json,
    normalize_init_output, parse_info_level, parse_intercept_action, send_config_error_ready,
    send_init_messages, InitIntercept, InitOutput, InterceptAction, NoticeLevel, ScriptOutput,
};
use tau_extensions::scripting::run::{
    handle_tool_value, on_shell_complete, plan_event, plan_intercept, plan_start, prepare_handler,
    read_initial_config, EventPlan, FirstMessage, Limits, LoopState, RuntimeInput, StartPlan,
    ToolStarted,
};
use tau_extensions::scripting::value::{dynamic_to_json, json_to_dynamic, ScriptValue};
use tau_extensions::value::CborValue;

fn text(s: &str) -> ScriptValue {
    ScriptValue::Text(s.to_owned())
}

fn json_text(s: &str) -> JsonValue {
    JsonValue::Text(s.to_owned())
}

fn object(entries: Vec<(&str, JsonValue)>) -> JsonValue {
    JsonValue::Object(entries.into_iter().map(|(k, v)| (k.to_owned(), v)).collect())
}

fn entries(list: Vec<(&str, ScriptValue)>) -> Vec<(String, ScriptValue)> {
    list.into_iter().map(|(k, v)| (k.to_owned(), v)).collect()
}

const GOOD: NameChecks = NameChecks { tool: true, model_visible: true, group: true };

fn functions(list: &[(&str, usize)]) -> Vec<(String, usize)> {
    list.iter().map(|(n, p)| (n.to_string(), *p)).collect()
}

fn started(tool: &str, arguments: CborValue) -> ToolStarted {
    ToolStarted {
        call_id: "c1".to_owned(),
        tool_name: tool.to_owned(),
        agent_id: "main".to_owned(),
        arguments,
        originator: PromptOriginator::User,
        originator_json: json_text("user"),
    }
}

#[test]
fn json_survives_a_script() {
    let value = object(vec![
        ("a", JsonValue::Array(vec![JsonValue::Integer(-3), JsonValue::Null])),
        ("b", JsonValue::Float("0.5".to_owned())),
        ("c", object(vec![("d", JsonValue::Bool(true))])),
    ]);
    let given = json_to_dynamic(&value).expect("a value");
    assert_eq!(dynamic_to_json(&given), Ok(value));
}

#[test]
fn large_numbers_are_given_as_texts() {
    let given = json_to_dynamic(&JsonValue::Integer(u64::MAX as i128)).expect("a value");
    assert!(matches!(given, ScriptValue::Text(t) if t == "18446744073709551615"));
    assert_eq!(
        json_to_dynamic(&JsonValue::Integer(i128::MAX)).err().as_deref(),
        Some("unsupported JSON number")
    );
}

#[test]
fn some_values_have_no_json_form() {
    let error = |v: ScriptValue| dynamic_to_json(&v).unwrap_err();
    assert_eq!(
        error(ScriptValue::Function("f".to_owned())),
        "unsupported Rhai value type `Fn`"
    );
    assert_eq!(
        error(ScriptValue::Array(vec![ScriptValue::Other("timestamp".to_owned())])),
        "unsupported Rhai value type `timestamp`"
    );
    assert_eq!(error(ScriptValue::Float("NaN".to_owned())), "float must be finite");
}

fn intercept(priority: i64, selectors: &[&str]) -> InitIntercept {
    InitIntercept { selectors: selectors.iter().map(|s| s.to_string()).collect(), priority }
}

#[test]
fn intercepts_of_one_priority_are_put_together() {
    let init = InitOutput {
        subscribe: vec![],
        intercept: vec![intercept(5, &["a"]), intercept(5, &["b", "c"])],
        ready_message: None,
    };
    let init = normalize_init_output(init).expect("one entry");
    assert_eq!(init.intercept.len(), 1);
    assert_eq!(init.intercept[0].selectors, vec!["a", "b", "c"]);
    let mixed = InitOutput {
        subscribe: vec![],
        intercept: vec![intercept(5, &["a"]), intercept(6, &["b"])],
        ready_message: None,
    };
    assert_eq!(
        normalize_init_output(mixed).err().as_deref(),
        Some("init intercept entries must all use the same priority")
    );
}

#[test]
fn init_may_ask_for_nothing() {
    let nothing = || Err("not read".to_owned());
    let init = finish_init(false, Err("not run".to_owned()), nothing()).expect("nothing asked");
    assert!(init.subscribe.is_empty());
    assert!(finish_init(true, Ok(ScriptValue::Unit), nothing()).is_ok());
    assert_eq!(
        finish_init(true, Err("boom".to_owned()), nothing()).err().as_deref(),
        Some("running init: boom")
    );
    assert_eq!(
        finish_init(true, Ok(text("x")), nothing()).err().as_deref(),
        Some("not read")
    );
}

#[test]
fn the_harness_is_told_in_order() {
    let mut host = HostState::new();
    host.set_init_active(true);
    host.stage_tool("t", &entries(vec![("group", text("g"))]), "handle", GOOD).expect("staged");
    host.set_init_active(false);
    let init = InitOutput {
        subscribe: vec!["x".to_owned()],
        intercept: vec![intercept(1, &["y"])],
        ready_message: None,
    };
    let out = send_init_messages(init, host.tool_register_events());
    assert_eq!(out.len(), 4);
    assert!(matches!(&out[0], ScriptOutput::Subscribe(s) if s == &vec!["x".to_owned()]));
    assert!(matches!(&out[1], ScriptOutput::Intercept { priority: 1, .. }));
    assert!(matches!(&out[2], ScriptOutput::Register(r)
        if r.tool.name == "t" && r.tool_group.as_deref() == Some("g")));
    assert!(matches!(&out[3], ScriptOutput::Ready(m) if m == "rhai ready"));
    let out = send_config_error_ready("bad".to_owned());
    assert!(matches!(&out[0], ScriptOutput::ConfigError(m) if m == "bad"));
    assert!(matches!(&out[1], ScriptOutput::Ready(m) if m == "rhai disabled: bad"));
}

#[test]
fn tools_are_registered_during_init_only() {
    let mut host = HostState::new();
    assert_eq!(
        host.stage_tool("t", &vec![], "h", GOOD),
        Err("register_tool is only available during init".to_owned())
    );
    assert_eq!(
        host.stage_tool_group("g", &vec![], true),
        Err("register_tool_group is only available during init".to_owned())
    );
    host.set_init_active(true);
    assert_eq!(
        host.ensure_not_init("tau_emit"),
        Err("tau_emit is not available during init".to_owned())
    );
    assert!(host.stage_tool_group("g", &vec![], true).is_ok());
    assert!(host.stage_tool_group("g", &entries(vec![("x", ScriptValue::Unit)]), true).is_err());
    assert_eq!(
        host.stage_tool_group("no good", &vec![], false),
        Err("invalid tool group name `no good`".to_owned())
    );
    let bad = |spec: Vec<(&str, ScriptValue)>, checks: NameChecks, host: &mut HostState| {
        host.stage_tool("t", &entries(spec), "h", checks).unwrap_err()
    };
    assert_eq!(
        bad(vec![], NameChecks { tool: false, ..GOOD }, &mut host),
        "invalid tool name `t`"
    );
    assert_eq!(
        bad(vec![("description", ScriptValue::Int(1))], GOOD, &mut host),
        "field `description` must be a string"
    );
    assert_eq!(
        bad(
            vec![("model_visible_name", text("v"))],
            NameChecks { model_visible: false, ..GOOD },
            &mut host
        ),
        "invalid model_visible_name `v`"
    );
    assert_eq!(
        bad(vec![("enabled_by_default", text("yes"))], GOOD, &mut host),
        "field `enabled_by_default` must be a bool"
    );
    assert_eq!(
        bad(
            vec![("group", text("v"))],
            NameChecks { group: false, ..GOOD },
            &mut host
        ),
        "invalid tool group name `v`"
    );
    host.stage_tool("t", &entries(vec![]), "first", GOOD).expect("staged");
    host.stage_tool("t", &entries(vec![]), "second", GOOD).expect("staged");
    assert_eq!(host.handler("t").as_deref(), Some("second"));
    assert_eq!(
        host.finish_tool_registration(&functions(&[("first", 2), ("second", 1)])),
        Err("tool handler `second` must name a function with 2 parameters".to_owned())
    );
    assert!(host
        .finish_tool_registration(&functions(&[("first", 2), ("second", 2)]))
        .is_ok());
}

fn spawn(host: &mut HostState, opts: Vec<(&str, ScriptValue)>) -> Result<i64, String> {
    host.shell_spawn("ls".to_owned(), &entries(opts)).map(|s| s.id)
}

#[test]
fn jobs_are_counted_and_bounded() {
    let mut host = HostState::new();
    assert_eq!(
        spawn(&mut host, vec![("timeout", ScriptValue::Int(-1))]),
        Err("shell_spawn timeout must be non-negative".to_owned())
    );
    assert_eq!(
        spawn(&mut host, vec![("timeout", text("1"))]),
        Err("field `timeout` must be an integer".to_owned())
    );
    assert_eq!(
        spawn(&mut host, vec![("on_complete", text("f"))]),
        Err("shell_spawn on_complete must be a function pointer".to_owned())
    );
    let first = host
        .shell_spawn("ls".to_owned(), &entries(vec![("cwd", text("/tmp"))]))
        .expect("a job");
    assert_eq!((first.id, first.timeout_secs, first.cwd.as_deref()), (1, 120, Some("/tmp")));
    for id in 2..=32 {
        assert_eq!(spawn(&mut host, vec![]), Ok(id));
    }
    assert_eq!(
        spawn(&mut host, vec![]),
        Err("too many pending shell jobs (limit 32)".to_owned())
    );
    assert!(host.take_job(5).is_some());
    assert!(host.take_job(5).is_none());
    assert_eq!(spawn(&mut host, vec![]), Ok(33));
}

#[test]
fn a_call_waits_for_its_job() {
    let mut host = HostState::new();
    let id = spawn(&mut host, vec![]).expect("a job");
    let call = started("t", CborValue::Null);
    assert!(handle_tool_value(&mut host, &call, Ok(ScriptValue::Job(id))).is_empty());
    let out = handle_tool_value(&mut host, &call, Ok(ScriptValue::Job(id)));
    assert!(matches!(&out[0], ScriptOutput::ToolError { message, .. }
        if message == "shell job 1 was already returned by a tool call"));
    let out = handle_tool_value(&mut host, &call, Ok(ScriptValue::Job(9)));
    assert!(matches!(&out[0], ScriptOutput::ToolError { message, .. }
        if message == "unknown shell job 9"));

    let result = object(vec![("exit", JsonValue::Integer(0))]);
    let out = on_shell_complete(&mut host, id, &result, Ok(ScriptValue::Unit));
    assert_eq!(out.len(), 1);
    match &out[0] {
        ScriptOutput::ToolResult { call, result } => {
            assert_eq!(call.call_id, "c1");
            assert_eq!(
                result,
                &CborValue::Dict(vec![(
                    CborValue::Text("exit".to_owned()),
                    CborValue::Integer(0)
                )])
            );
        }
        other => panic!("expected a result, got {other:?}"),
    }
    assert!(!host.has_pending_shell_jobs());
    assert!(on_shell_complete(&mut host, id, &result, Ok(ScriptValue::Unit)).is_empty());
}

#[test]
fn a_job_may_lead_to_the_next() {
    let mut host = HostState::new();
    let callback = || ("on_complete", ScriptValue::Function("done".to_owned()));
    let first = spawn(&mut host, vec![callback()]).expect("a job");
    let second = spawn(&mut host, vec![callback()]).expect("a job");
    let call = started("t", CborValue::Null);
    handle_tool_value(&mut host, &call, Ok(ScriptValue::Job(first)));
    let none = object(vec![]);
    assert!(on_shell_complete(&mut host, first, &none, Ok(ScriptValue::Job(second))).is_empty());
    let out = on_shell_complete(&mut host, second, &none, Ok(ScriptValue::Job(77)));
    assert!(matches!(&out[0], ScriptOutput::ToolError { message, .. }
        if message == "unknown chained shell job 77"));

    let third = spawn(&mut host, vec![callback()]).expect("a job");
    let out = on_shell_complete(&mut host, third, &none, Err("oops".to_owned()));
    assert!(matches!(&out[0], ScriptOutput::Notice { message, level: NoticeLevel::Warning }
        if message == "rhai shell callback failed: oops"));
}

#[test]
fn handlers_answer_calls() {
    let mut host = HostState::new();
    let call = started("t", CborValue::Integer(1 << 70));
    assert_eq!(
        prepare_handler(&call).err().as_deref(),
        Some("preparing tool arguments: CBOR integer is outside JSON integer range")
    );
    let call = started("t", CborValue::Bytes(vec![1]));
    assert_eq!(
        prepare_handler(&call).err().as_deref(),
        Some("preparing tool arguments: CBOR bytes are not JSON-compatible")
    );
    let call = started("t", CborValue::Tag(5, Box::new(CborValue::Bool(true))));
    let (args, _) = prepare_handler(&call).expect("arguments");
    assert!(matches!(args, ScriptValue::Bool(true)));
    let out = handle_tool_value(&mut host, &call, Ok(text("fine")));
    assert!(matches!(&out[0], ScriptOutput::ToolResult { result: CborValue::Text(t), .. }
        if t == "fine"));
    let out = handle_tool_value(&mut host, &call, Err("bad".to_owned()));
    assert!(matches!(&out[0], ScriptOutput::ToolError { message, .. }
        if message == "rhai tool handler failed: bad"));
    let out = handle_tool_value(&mut host, &call, Ok(ScriptValue::Other("char".to_owned())));
    assert!(matches!(&out[0], ScriptOutput::ToolError { message, .. }
        if message == "invalid tool result: unsupported Rhai value type `char`"));
}

#[test]
fn events_go_to_tools_or_to_the_script() {
    let mut host = HostState::new();
    host.set_init_active(true);
    host.stage_tool("t", &vec![], "handle", GOOD).expect("staged");
    host.set_init_active(false);
    let event = object(vec![("kind", json_text("x"))]);
    let both = functions(&[("on_event", 2)]);
    let own = Some("t".to_owned());
    assert!(matches!(plan_event(&host, &both, &own, &event, false, None),
        EventPlan::Tool(h) if h == "handle"));
    assert!(matches!(plan_event(&host, &both, &own, &event, true, None), EventPlan::Ignore));
    assert!(matches!(
        plan_event(&host, &both, &Some("other".to_owned()), &event, true, Some(3)),
        EventPlan::OnEvent(_, _)
    ));
    assert!(matches!(
        plan_event(&host, &functions(&[("on_event", 1)]), &None, &event, false, None),
        EventPlan::Ignore
    ));
    assert_eq!(
        meta_json(true, Some(u64::MAX)),
        object(vec![
            ("replay", JsonValue::Bool(true)),
            ("recorded_at", json_text("18446744073709551615")),
        ])
    );
    assert_eq!(
        init_config_json(&JsonValue::Null, &None),
        object(vec![("vars", JsonValue::Null), ("state_dir", JsonValue::Null)])
    );
}

#[test]
fn held_back_events_are_let_go() {
    let parse = |v: ScriptValue| parse_intercept_action(&v, &None);
    assert!(matches!(parse(ScriptValue::Unit), Ok(InterceptAction::Pass(None))));
    assert!(matches!(parse(text("drop")), Ok(InterceptAction::Drop)));
    assert_eq!(parse(text("x")).err().as_deref(), Some("unknown action string `x`"));
    assert_eq!(
        parse(ScriptValue::Int(1)).err().as_deref(),
        Some("result must be (), string, or map")
    );
    assert_eq!(
        parse(ScriptValue::Dict(vec![])).err().as_deref(),
        Some("result map needs string `kind`")
    );
    let map = |kind: &str| ScriptValue::Dict(entries(vec![("kind", text(kind))]));
    assert!(matches!(parse(map("pass")), Ok(InterceptAction::Pass(None))));
    assert!(matches!(parse(map("drop")), Ok(InterceptAction::Drop)));
    assert_eq!(parse(map("y")).err().as_deref(), Some("unknown action kind `y`"));
    let swap = ScriptValue::Dict(entries(vec![("kind", text("pass")), ("event", text("e"))]));
    assert!(matches!(parse_intercept_action(&swap, &None),
        Ok(InterceptAction::Pass(Some(JsonValue::Text(e)))) if e == "e"));
    assert_eq!(
        parse_intercept_action(&swap, &Some("no such event".to_owned())).err().as_deref(),
        Some("no such event")
    );

    let out = finish_intercept(Err("boom".to_owned()), &None);
    assert!(matches!(&out[0], ScriptOutput::Notice { message, .. }
        if message == "rhai on_intercept failed: boom"));
    assert!(matches!(&out[1], ScriptOutput::Reply(InterceptAction::Pass(None))));
    let out = finish_intercept(Ok(text("x")), &None);
    assert_eq!(out.len(), 2);
    let event = object(vec![]);
    assert!(plan_intercept(false, &functions(&[("on_intercept", 1)]), &event).is_err());
    assert!(plan_intercept(true, &functions(&[]), &event).is_err());
    assert!(plan_intercept(true, &functions(&[("on_intercept", 1)]), &event).is_ok());
}

#[test]
fn events_of_scripts_are_emitted_or_refused() {
    assert!(matches!(enqueue_event(&text("e"), &None),
        ScriptOutput::Emit(JsonValue::Text(e)) if e == "e"));
    assert!(matches!(enqueue_event(&text("e"), &Some("unknown".to_owned())),
        ScriptOutput::Notice { message, level: NoticeLevel::Warning }
            if message == "rhai invalid event: unknown"));
    assert_eq!(parse_info_level("critical"), NoticeLevel::Warning);
    assert_eq!(parse_info_level("debug"), NoticeLevel::Debug);
    assert_eq!(parse_info_level("trace"), NoticeLevel::Trace);
    assert_eq!(parse_info_level("whatever"), NoticeLevel::Info);
}

#[test]
fn the_loop_waits_for_jobs() {
    let mut state = LoopState::start(true);
    state.after(RuntimeInput::Deliver, false);
    state.after(RuntimeInput::ShellComplete, false);
    assert!(!state.done);
    state.after(RuntimeInput::ReaderClosed, true);
    assert!(!state.done);
    state.after(RuntimeInput::ShellComplete, true);
    assert!(!state.done);
    state.after(RuntimeInput::ShellComplete, false);
    assert!(state.done);
    let mut disabled = LoopState::start(false);
    disabled.after(RuntimeInput::ReaderClosed, true);
    assert!(disabled.done);
    let mut gone = LoopState::start(true);
    gone.after(RuntimeInput::Disconnect, true);
    assert!(gone.done);
}

#[test]
fn scripts_start_with_or_without_their_configuration() {
    assert_eq!(plan_start(&functions(&[("start", 0), ("start", 1)])), StartPlan::WithConfig);
    assert_eq!(plan_start(&functions(&[("start", 0)])), StartPlan::Bare);
    assert_eq!(plan_start(&functions(&[("start", 2)])), StartPlan::Nothing);
    let limits = Limits { max_operations: None, max_call_levels: None, max_expr_depth: None };
    assert_eq!(limits.expr_depth(), 64);
    assert_eq!(Limits { max_expr_depth: Some(0), ..limits }.expr_depth(), 0);
    assert_eq!(
        read_initial_config(&vec![FirstMessage::Other, FirstMessage::Configure]),
        Some(1)
    );
    assert_eq!(
        read_initial_config(&vec![FirstMessage::Disconnect, FirstMessage::Configure]),
        None
    );
}
