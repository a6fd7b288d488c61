//! Laws of what a request says.

use vstd::prelude::*;

use crate::json::{at, find_member, member, text_at, Json};
use crate::proto::OriginatorView;
use crate::provider::body::{
    body_members, body_of, cache_key_of, compact_body_of, ws_members, BodyView,
};
use crate::provider::context::{FormatView, ToolType, ToolView};
use crate::provider::input::inputs_of;
use crate::provider::models::{Effort, ThinkingSummary, Verbosity};
use crate::provider::request::{
    format_json, is_name_char, member_if, opt_member, text_member, tool_json, PayloadView,
    ServiceTier, ToolChoice,
};
use crate::provider::responses::ConfigView;

verus! {

/// What is found among members and others behind them.
pub proof fn lemma_found_in_two(
    a: Seq<(Seq<char>, Json)>,
    b: Seq<(Seq<char>, Json)>,
    key: Seq<char>,
)
    ensures
        find_member(a + b, key) == match find_member(a, key) {
            Some(value) => Some(value),
            None => find_member(b, key),
        },
    decreases a.len(),
{
    if a.len() == 0 {
        assert(a + b =~= b);
    } else {
        assert((a + b).drop_first() =~= a.drop_first() + b);
        lemma_found_in_two(a.drop_first(), b, key);
    }
}

/// What is found of one member or none.
proof fn lemma_found_in_one(key: Seq<char>, text: Option<Seq<char>>, b: bool, value: Json, k: Seq<char>)
    ensures
        find_member(opt_member(k, text), key) == match text {
            Some(text) if k == key => Some(Json::Text(text)),
            _ => None,
        },
        find_member(member_if(b, k, value), key) == if b && k == key {
            Some(value)
        } else {
            None
        },
        find_member(seq![(k, value)], key) == if k == key {
            Some(value)
        } else {
            None
        },
{
    let none = Seq::<(Seq<char>, Json)>::empty();
    assert(find_member(none, key) is None);
    assert(seq![(k, value)].drop_first() =~= none);
    if let Some(text) = text {
        assert(seq![text_member(k, text)].drop_first() =~= none);
    }
}

/// What tells the members of a request apart.
proof fn lemma_keys()
    ensures
        "model"@.len() == 5,
        "model"@[0] == 'm',
        "instructions"@.len() == 12,
        "instructions"@[0] == 'i',
        "input"@.len() == 5,
        "input"@[0] == 'i',
        "stream"@.len() == 6,
        "store"@.len() == 5,
        "store"@[0] == 's',
        "tools"@.len() == 5,
        "tools"@[0] == 't',
        "tool_choice"@.len() == 11,
        "reasoning"@.len() == 9,
        "text"@.len() == 4,
        "text"@[1] == 'e',
        "include"@.len() == 7,
        "prompt_cache_key"@.len() == 16,
        "service_tier"@.len() == 12,
        "service_tier"@[0] == 's',
        "previous_response_id"@.len() == 20,
        "type"@.len() == 4,
        "type"@[1] == 'y',
        "generate"@.len() == 8,
        "effort"@.len() == 6,
        "summary"@.len() == 7,
{
    reveal_strlit("model");
    reveal_strlit("instructions");
    reveal_strlit("input");
    reveal_strlit("stream");
    reveal_strlit("store");
    reveal_strlit("tools");
    reveal_strlit("tool_choice");
    reveal_strlit("reasoning");
    reveal_strlit("text");
    reveal_strlit("include");
    reveal_strlit("prompt_cache_key");
    reveal_strlit("service_tier");
    reveal_strlit("previous_response_id");
    reveal_strlit("type");
    reveal_strlit("generate");
    reveal_strlit("effort");
    reveal_strlit("summary");
}

/// What is found under a key of a body.
proof fn lemma_body_member(body: BodyView, key: Seq<char>)
    ensures
        find_member(body_members(body), key) == if key == "model"@ {
            Some(Json::Text(body.model))
        } else if key == "instructions"@ {
            opt_text(body.instructions)
        } else if key == "input"@ {
            Some(Json::Array(body.input))
        } else if key == "stream"@ {
            opt_bool(body.stream)
        } else if key == "store"@ {
            opt_bool(body.store)
        } else if key == "tools"@ {
            if body.tools.len() > 0 {
                Some(Json::Array(body.tools))
            } else {
                None
            }
        } else if key == "tool_choice"@ {
            opt_text(body.tool_choice)
        } else if key == "reasoning"@ {
            if body.effort is Some || body.summary is Some {
                Some(
                    Json::Object(
                        opt_member("effort"@, body.effort) + opt_member("summary"@, body.summary),
                    ),
                )
            } else {
                None
            }
        } else if key == "text"@ {
            if body.verbosity is Some {
                Some(Json::Object(opt_member("verbosity"@, body.verbosity)))
            } else {
                None
            }
        } else if key == "include"@ {
            if body.encrypted_reasoning {
                Some(Json::Array(seq![Json::Text("reasoning.encrypted_content"@)]))
            } else {
                None
            }
        } else if key == "prompt_cache_key"@ {
            opt_text(body.prompt_cache_key)
        } else if key == "service_tier"@ {
            opt_text(body.service_tier)
        } else if key == "previous_response_id"@ {
            opt_text(body.previous_response_id)
        } else {
            None
        },
{
    lemma_keys();
    let reasoning = Json::Object(
        opt_member("effort"@, body.effort) + opt_member("summary"@, body.summary),
    );
    let text = Json::Object(opt_member("verbosity"@, body.verbosity));
    let asked = Json::Array(seq![Json::Text("reasoning.encrypted_content"@)]);
    let p1 = seq![text_member("model"@, body.model)];
    let p2 = opt_member("instructions"@, body.instructions);
    let p3 = seq![("input"@, Json::Array(body.input))];
    let p4 = crate::provider::body::opt_flag("stream"@, body.stream);
    let p5 = crate::provider::body::opt_flag("store"@, body.store);
    let p6 = member_if(body.tools.len() > 0, "tools"@, Json::Array(body.tools));
    let p7 = opt_member("tool_choice"@, body.tool_choice);
    let p8 = member_if(body.effort is Some || body.summary is Some, "reasoning"@, reasoning);
    let p9 = member_if(body.verbosity is Some, "text"@, text);
    let p10 = member_if(body.encrypted_reasoning, "include"@, asked);
    let p11 = opt_member("prompt_cache_key"@, body.prompt_cache_key);
    let p12 = opt_member("service_tier"@, body.service_tier);
    let p13 = opt_member("previous_response_id"@, body.previous_response_id);
    let s2 = p1 + p2;
    let s3 = s2 + p3;
    let s4 = s3 + p4;
    let s5 = s4 + p5;
    let s6 = s5 + p6;
    let s7 = s6 + p7;
    let s8 = s7 + p8;
    let s9 = s8 + p9;
    let s10 = s9 + p10;
    let s11 = s10 + p11;
    let s12 = s11 + p12;
    assert(body_members(body) == s12 + p13);
    lemma_found_in_two(p1, p2, key);
    lemma_found_in_two(s2, p3, key);
    lemma_found_in_two(s3, p4, key);
    lemma_found_in_two(s4, p5, key);
    lemma_found_in_two(s5, p6, key);
    lemma_found_in_two(s6, p7, key);
    lemma_found_in_two(s7, p8, key);
    lemma_found_in_two(s8, p9, key);
    lemma_found_in_two(s9, p10, key);
    lemma_found_in_two(s10, p11, key);
    lemma_found_in_two(s11, p12, key);
    lemma_found_in_two(s12, p13, key);
    lemma_found_in_one(key, body.instructions, true, Json::Text(body.model), "model"@);
    lemma_found_in_one(key, body.instructions, true, Json::Null, "instructions"@);
    lemma_found_in_one(key, None, true, Json::Array(body.input), "input"@);
    lemma_found_in_one(key, None, true, Json::Bool(body.stream->0), "stream"@);
    lemma_found_in_one(key, None, true, Json::Bool(body.store->0), "store"@);
    lemma_found_in_one(key, None, body.tools.len() > 0, Json::Array(body.tools), "tools"@);
    lemma_found_in_one(key, body.tool_choice, true, Json::Null, "tool_choice"@);
    lemma_found_in_one(
        key,
        None,
        body.effort is Some || body.summary is Some,
        reasoning,
        "reasoning"@,
    );
    lemma_found_in_one(key, None, body.verbosity is Some, text, "text"@);
    lemma_found_in_one(key, None, body.encrypted_reasoning, asked, "include"@);
    lemma_found_in_one(key, body.prompt_cache_key, true, Json::Null, "prompt_cache_key"@);
    lemma_found_in_one(key, body.service_tier, true, Json::Null, "service_tier"@);
    lemma_found_in_one(key, body.previous_response_id, true, Json::Null, "previous_response_id"@);
}

/// A text as a member holds it.
pub open spec fn opt_text(text: Option<Seq<char>>) -> Option<Json> {
    match text {
        Some(text) => Some(Json::Text(text)),
        None => None,
    }
}

/// A truth value as a member holds it.
pub open spec fn opt_bool(flag: Option<bool>) -> Option<Json> {
    match flag {
        Some(flag) => Some(Json::Bool(flag)),
        None => None,
    }
}

/// The request for a prompt, as the backend reads it.
pub open spec fn sent_request(config: ConfigView, request: PayloadView) -> Json {
    Json::Object(body_members(body_of(config, request)))
}

/// The request that compacts a conversation, as the backend reads it.
pub open spec fn sent_compaction(config: ConfigView, request: PayloadView) -> Json {
    Json::Object(body_members(compact_body_of(config, request)))
}

/// A request names the model, says what the system prompt says, and asks for a
/// stream that is not stored.
pub proof fn law_request_names_its_model(config: ConfigView, request: PayloadView)
    ensures
        text_at(sent_request(config, request), "model"@) == Some(config.model_id),
        request.system_prompt.len() > 0 ==> text_at(
            sent_request(config, request),
            "instructions"@,
        ) == Some(request.system_prompt),
        request.system_prompt.len() == 0 ==> member(
            sent_request(config, request),
            "instructions"@,
        ) is None,
        at(sent_request(config, request), "stream"@) == Json::Bool(true),
        at(sent_request(config, request), "store"@) == Json::Bool(false),
{
    lemma_keys();
    let body = body_of(config, request);
    lemma_body_member(body, "model"@);
    lemma_body_member(body, "instructions"@);
    lemma_body_member(body, "stream"@);
    lemma_body_member(body, "store"@);
}

/// A request sends the whole conversation, and goes on from no response; where it
/// goes on from one, it names it and sends what that has not seen. A response that
/// has seen more than there is is not gone on from.
pub proof fn law_request_sends_what_is_not_seen(config: ConfigView, request: PayloadView)
    ensures
        ({
            let sent = sent_request(config, request);
            match request.previous_response {
                Some(previous) if previous.next_item_index <= request.context_items.len() => {
                    &&& text_at(sent, "previous_response_id"@) == Some(previous.id)
                    &&& at(sent, "input"@) == Json::Array(
                        inputs_of(
                            request.context_items.skip(previous.next_item_index as int),
                            config.supports_phase,
                        ),
                    )
                },
                _ => {
                    &&& member(sent, "previous_response_id"@) is None
                    &&& at(sent, "input"@) == Json::Array(
                        inputs_of(request.context_items, config.supports_phase),
                    )
                },
            }
        }),
{
    lemma_keys();
    let body = body_of(config, request);
    lemma_body_member(body, "input"@);
    lemma_body_member(body, "previous_response_id"@);
    assert(request.context_items.skip(0) =~= request.context_items);
}

/// A request offers each tool of the prompt, in order, and says whether the model
/// may call any.
pub proof fn law_request_offers_the_tools(config: ConfigView, request: PayloadView)
    ensures
        ({
            let sent = sent_request(config, request);
            &&& request.tools.len() == 0 ==> member(sent, "tools"@) is None
            &&& request.tools.len() > 0 ==> (at(sent, "tools"@) matches Json::Array(tools) && {
                &&& tools.len() == request.tools.len()
                &&& forall|k: int|
                    0 <= k < tools.len() ==> #[trigger] tools[k] == tool_json(request.tools[k])
            })
            &&& text_at(sent, "tool_choice"@) == match request.tool_choice {
                ToolChoice::Never => Some("none"@),
                ToolChoice::Auto if request.tools.len() > 0 => Some("auto"@),
                _ => None,
            }
        }),
{
    lemma_keys();
    let body = body_of(config, request);
    lemma_body_member(body, "tools"@);
    lemma_body_member(body, "tool_choice"@);
}

/// The words for how hard a model is to think.
pub open spec fn effort_words() -> Seq<(Effort, Option<Seq<char>>)> {
    seq![
        (Effort::Off, None),
        (Effort::Minimal, Some("minimal"@)),
        (Effort::Low, Some("low"@)),
        (Effort::Medium, Some("medium"@)),
        (Effort::High, Some("high"@)),
        (Effort::XHigh, Some("xhigh"@)),
    ]
}

/// A request asks for the effort, the summary, the verbosity and the tier of the
/// prompt, each where the backend takes it, and for nothing that it does not take.
pub proof fn law_request_asks_what_the_prompt_asks(
    config: ConfigView,
    request: PayloadView,
    effort: Option<Seq<char>>,
    summary: Option<Seq<char>>,
    verbosity: Option<Seq<char>>,
    tier: Option<Seq<char>>,
)
    requires
        effort_words().contains((request.params.effort, effort)),
        seq![
            (ThinkingSummary::Off, None),
            (ThinkingSummary::Auto, Some("auto"@)),
            (ThinkingSummary::Concise, Some("concise"@)),
            (ThinkingSummary::Detailed, Some("detailed"@)),
        ].contains((request.params.thinking_summary, summary)),
        seq![
            (Verbosity::Low, Some("low"@)),
            (Verbosity::Medium, Some("medium"@)),
            (Verbosity::High, Some("high"@)),
        ].contains((request.params.verbosity, verbosity)),
        seq![
            (None, None),
            (Some(ServiceTier::Fast), Some("fast"@)),
            (Some(ServiceTier::Flex), Some("flex"@)),
        ].contains((request.params.service_tier, tier)),
    ensures
        ({
            let sent = sent_request(config, request);
            &&& text_at(at(sent, "reasoning"@), "effort"@) == if config.supports_reasoning_effort {
                effort
            } else {
                None
            }
            &&& text_at(at(sent, "reasoning"@), "summary"@) == if config.supports_reasoning_summary {
                summary
            } else {
                None
            }
            &&& text_at(at(sent, "text"@), "verbosity"@) == if config.supports_verbosity {
                verbosity
            } else {
                None
            }
            &&& text_at(sent, "service_tier"@) == tier
            &&& config.supports_encrypted_reasoning == (at(sent, "include"@) == Json::Array(
                seq![Json::Text("reasoning.encrypted_content"@)],
            ))
        }),
{
    lemma_keys();
    let body = body_of(config, request);
    lemma_body_member(body, "reasoning"@);
    lemma_body_member(body, "text"@);
    lemma_body_member(body, "include"@);
    lemma_body_member(body, "service_tier"@);
    lemma_found_in_two(
        opt_member("effort"@, body.effort),
        opt_member("summary"@, body.summary),
        "effort"@,
    );
    lemma_found_in_two(
        opt_member("effort"@, body.effort),
        opt_member("summary"@, body.summary),
        "summary"@,
    );
    lemma_found_in_one("effort"@, body.effort, true, Json::Null, "effort"@);
    lemma_found_in_one("effort"@, body.summary, true, Json::Null, "summary"@);
    lemma_found_in_one("summary"@, body.effort, true, Json::Null, "effort"@);
    lemma_found_in_one("summary"@, body.summary, true, Json::Null, "summary"@);
    lemma_found_in_one("verbosity"@, body.verbosity, true, Json::Null, "verbosity"@);
}

/// A prompt is cached under a key of its own: by the address and the session, and
/// apart for every extension that does not share the user's.
pub proof fn law_cache_is_kept_apart(
    config: ConfigView,
    request: PayloadView,
    base_url: Seq<char>,
    session_id: Seq<char>,
    name: Seq<char>,
    originator: OriginatorView,
)
    requires
        originator matches OriginatorView::Extension { name: own, .. } && own == name,
    ensures
        config.supports_prompt_cache_key ==> text_at(
            sent_request(config, request),
            "prompt_cache_key"@,
        ) == Some(
            cache_key_of(
                config.base_url,
                request.session_id,
                request.originator,
                request.share_user_cache_key,
            ),
        ),
        !config.supports_prompt_cache_key ==> member(
            sent_request(config, request),
            "prompt_cache_key"@,
        ) is None,
        forall|share: bool| #[trigger]
            cache_key_of(base_url, session_id, OriginatorView::User, share) == base_url + "#"@
                + session_id,
        cache_key_of(base_url, session_id, originator, true) == cache_key_of(
            base_url,
            session_id,
            OriginatorView::User,
            true,
        ),
        cache_key_of(base_url, session_id, originator, false) == base_url + "#"@ + session_id
            + "#"@ + name,
{
    lemma_keys();
    lemma_body_member(body_of(config, request), "prompt_cache_key"@);
}

/// A compaction sends the whole conversation with the model, the instructions and
/// the tools of the prompt, and nothing that its endpoint does not take.
pub proof fn law_compaction_sends_the_whole_conversation(config: ConfigView, request: PayloadView)
    ensures
        ({
            let sent = sent_compaction(config, request);
            let turn = sent_request(config, request);
            &&& text_at(sent, "model"@) == Some(config.model_id)
            &&& at(sent, "instructions"@) == at(turn, "instructions"@)
            &&& at(sent, "tools"@) == at(turn, "tools"@)
            &&& at(sent, "reasoning"@) == at(turn, "reasoning"@)
            &&& at(sent, "text"@) == at(turn, "text"@)
            &&& at(sent, "input"@) == Json::Array(
                inputs_of(request.context_items, config.supports_phase),
            )
            &&& member(sent, "stream"@) is None
            &&& member(sent, "store"@) is None
            &&& member(sent, "tool_choice"@) is None
            &&& member(sent, "include"@) is None
            &&& member(sent, "prompt_cache_key"@) is None
            &&& member(sent, "service_tier"@) is None
            &&& member(sent, "previous_response_id"@) is None
        }),
{
    lemma_keys();
    let body = compact_body_of(config, request);
    let turn = body_of(config, request);
    lemma_body_member(body, "model"@);
    lemma_body_member(body, "instructions"@);
    lemma_body_member(turn, "instructions"@);
    lemma_body_member(body, "tools"@);
    lemma_body_member(turn, "tools"@);
    lemma_body_member(body, "reasoning"@);
    lemma_body_member(turn, "reasoning"@);
    lemma_body_member(body, "text"@);
    lemma_body_member(turn, "text"@);
    lemma_body_member(body, "input"@);
    lemma_body_member(body, "stream"@);
    lemma_body_member(body, "store"@);
    lemma_body_member(body, "tool_choice"@);
    lemma_body_member(body, "include"@);
    lemma_body_member(body, "prompt_cache_key"@);
    lemma_body_member(body, "service_tier"@);
    lemma_body_member(body, "previous_response_id"@);
    assert(request.context_items.skip(0) =~= request.context_items);
}

/// A WebSocket is sent what a plain request would be, but for the stream that it
/// is anyway: the type of the message comes before, and whether it is to generate
/// nothing.
pub proof fn law_ws_says_what_a_request_says(
    config: ConfigView,
    request: PayloadView,
    generate: Option<bool>,
    key: Seq<char>,
)
    ensures
        ({
            let sent = Json::Object(ws_members(generate, body_of(config, request)));
            &&& text_at(sent, "type"@) == Some("response.create"@)
            &&& member(sent, "generate"@) == opt_bool(generate)
            &&& member(sent, "stream"@) is None
            &&& key != "type"@ && key != "generate"@ && key != "stream"@ ==> member(sent, key)
                == member(sent_request(config, request), key)
        }),
{
    lemma_keys();
    let body = body_of(config, request);
    let still = BodyView { stream: None, ..body };
    let kind = seq![text_member("type"@, "response.create"@)];
    let flag = crate::provider::body::opt_flag("generate"@, generate);
    let keys = seq!["type"@, "generate"@, "stream"@, key];
    assert forall|i: int| 0 <= i < 4 implies find_member(
        ws_members(generate, body),
        #[trigger] keys[i],
    ) == match find_member(kind, keys[i]) {
        Some(value) => Some(value),
        None => match find_member(flag, keys[i]) {
            Some(value) => Some(value),
            None => find_member(body_members(still), keys[i]),
        },
    } by {
        lemma_found_in_two(kind, flag, keys[i]);
        lemma_found_in_two(kind + flag, body_members(still), keys[i]);
    }
    assert(keys[0] == "type"@ && keys[1] == "generate"@ && keys[2] == "stream"@ && keys[3] == key);
    lemma_found_in_one("type"@, None, true, Json::Text("response.create"@), "type"@);
    lemma_found_in_one("generate"@, None, true, Json::Text("response.create"@), "type"@);
    lemma_found_in_one("stream"@, None, true, Json::Text("response.create"@), "type"@);
    lemma_found_in_one(key, None, true, Json::Text("response.create"@), "type"@);
    lemma_found_in_one("generate"@, None, true, Json::Bool(generate->0), "generate"@);
    lemma_found_in_one("stream"@, None, true, Json::Bool(generate->0), "generate"@);
    lemma_found_in_one(key, None, true, Json::Bool(generate->0), "generate"@);
    lemma_body_member(still, "type"@);
    lemma_body_member(still, "generate"@);
    lemma_body_member(still, "stream"@);
    lemma_body_member(still, key);
    lemma_body_member(body, key);
}

/// A tool is offered under the name that the model sees, with what it says of
/// itself and how it is called.
pub proof fn law_tool_is_offered_as_it_is(tool: ToolView, name: Seq<char>)
    requires
        name == match tool.model_visible_name {
            Some(name) => name,
            None => tool.name,
        },
        forall|i: int| 0 <= i < name.len() ==> is_name_char(#[trigger] name[i]),
    ensures
        text_at(tool_json(tool), "name"@) == Some(name),
        text_at(tool_json(tool), "type"@) == Some(
            match tool.tool_type {
                ToolType::Function => "function"@,
                ToolType::Custom => "custom"@,
            },
        ),
        text_at(tool_json(tool), "description"@) == tool.description,
        tool.tool_type == ToolType::Function ==> member(tool_json(tool), "parameters"@)
            == tool.parameters,
        tool.tool_type == ToolType::Custom && tool.format == Some(FormatView::Text) ==> text_at(
            at(tool_json(tool), "format"@),
            "type"@,
        ) == Some("text"@),
        tool.tool_type == ToolType::Custom ==> (tool.format matches Some(
            FormatView::Grammar { definition, .. },
        ) ==> text_at(at(tool_json(tool), "format"@), "type"@) == Some("grammar"@) && text_at(
            at(tool_json(tool), "format"@),
            "definition"@,
        ) == Some(definition)),
{
    crate::provider::request::law_encoded_name_is_clean(name);
    reveal_strlit("type");
    reveal_strlit("name");
    reveal_strlit("strict");
    reveal_strlit("description");
    reveal_strlit("parameters");
    reveal_strlit("format");
    reveal_strlit("syntax");
    reveal_strlit("definition");
    assert("type"@.len() == 4 && "name"@.len() == 4 && "type"@[0] == 't' && "name"@[0] == 'n');
    assert("strict"@.len() == 6 && "format"@.len() == 6 && "strict"@[0] == 's' && "format"@[0]
        == 'f');
    assert("description"@.len() == 11 && "parameters"@.len() == 10);
    assert("syntax"@.len() == 6 && "definition"@.len() == 10);
    let members = tool_json(tool)->Object_0;
    let front = match tool.tool_type {
        ToolType::Function => 3int,
        ToolType::Custom => 2int,
    };
    crate::json::lemma_first_member(members, "type"@, 0);
    crate::json::lemma_first_member(members, "name"@, 1);
    let described: int = if tool.description is Some {
        1
    } else {
        0
    };
    if tool.description is Some {
        crate::json::lemma_first_member(members, "description"@, front);
    } else {
        crate::json::lemma_first_member(members, "description"@, members.len() as int);
    }
    match tool.tool_type {
        ToolType::Function => {
            crate::json::lemma_first_member(members, "parameters"@, front + described);
        },
        ToolType::Custom => {
            crate::json::lemma_first_member(members, "format"@, front + described);
            if let Some(format) = tool.format {
                let inner = format_json(format)->Object_0;
                crate::json::lemma_first_member(inner, "type"@, 0);
                if format is Grammar {
                    crate::json::lemma_first_member(inner, "definition"@, 2);
                }
            }
        },
    }
}

} // verus!
