//! Laws of the words that a provider is spoken to in, and of what it counts.

use vstd::prelude::*;

use crate::json::{at, text_at, unsigned_at, Json};
use crate::proto::OriginatorView;
use crate::provider::ack::AckView;
use crate::provider::context::{ContextRole, FormatView, ItemView, MessagePhase, ToolGrammarSyntax};
use crate::provider::debug::file_name_of;
use crate::provider::finish::canceled_of;
use crate::provider::models::{
    efforts_of, marks_phase, verbosities_of, Effort, ThinkingSummary, Verbosity,
};
use crate::provider::request::{
    effort_name, format_json, phase_name, summary_name, tier_name, verbosity_name, ServiceTier,
    Transport,
};
use crate::provider::retry::ws_budget_for;
use crate::provider::stream::{cached_in, phase_in, usage_in};
use crate::text::{
    decimal_of, is_space, lemma_position_unique, split_at_char, trim_end_of, trim_of, trim_start_of,
};
use crate::text_laws::law_decimal_reads_back;

verus! {

/// Every setting of a model goes by its own word.
pub proof fn law_settings_go_by_their_words()
    ensures
        effort_name(Effort::Off) is None,
        effort_name(Effort::Minimal) == Some("minimal"@),
        effort_name(Effort::Low) == Some("low"@),
        effort_name(Effort::Medium) == Some("medium"@),
        effort_name(Effort::High) == Some("high"@),
        effort_name(Effort::XHigh) == Some("xhigh"@),
        summary_name(ThinkingSummary::Off) is None,
        summary_name(ThinkingSummary::Auto) == Some("auto"@),
        summary_name(ThinkingSummary::Concise) == Some("concise"@),
        summary_name(ThinkingSummary::Detailed) == Some("detailed"@),
        verbosity_name(Verbosity::Low) == "low"@,
        verbosity_name(Verbosity::Medium) == "medium"@,
        verbosity_name(Verbosity::High) == "high"@,
        tier_name(None) is None,
        tier_name(Some(ServiceTier::Fast)) == Some("fast"@),
        tier_name(Some(ServiceTier::Flex)) == Some("flex"@),
{
}

/// The phase of a message is read by the word that it is written by.
pub proof fn law_phase_reads_back(item: Json, phase: MessagePhase)
    requires
        text_at(item, "type"@) == Some("message"@),
        text_at(item, "phase"@) == Some(phase_name(phase)),
    ensures
        phase_in(item) == Some(phase),
        phase_name(MessagePhase::Commentary) == "commentary"@,
        phase_name(MessagePhase::FinalAnswer) == "final_answer"@,
{
    reveal_strlit("commentary");
    reveal_strlit("final_answer");
    assert("commentary"@[0] == 'c' && "final_answer"@[0] == 'f');
}

/// A grammar that a tool is written in is sent word for word, in its syntax.
pub proof fn law_grammar_is_sent(definition: Seq<char>)
    ensures
        ({
            let lark = format_json(
                FormatView::Grammar { syntax: ToolGrammarSyntax::Lark, definition },
            );
            let regex = format_json(
                FormatView::Grammar { syntax: ToolGrammarSyntax::Regex, definition },
            );
            &&& text_at(lark, "type"@) == Some("grammar"@)
            &&& text_at(lark, "syntax"@) == Some("lark"@)
            &&& text_at(lark, "definition"@) == Some(definition)
            &&& text_at(regex, "syntax"@) == Some("regex"@)
            &&& text_at(regex, "definition"@) == Some(definition)
        }),
{
    reveal_strlit("type");
    reveal_strlit("syntax");
    reveal_strlit("definition");
    assert("type"@.len() == 4 && "syntax"@.len() == 6 && "definition"@.len() == 10);
    let lark = format_json(FormatView::Grammar { syntax: ToolGrammarSyntax::Lark, definition });
    let regex = format_json(FormatView::Grammar { syntax: ToolGrammarSyntax::Regex, definition });
    crate::json::lemma_first_member(lark->Object_0, "type"@, 0);
    crate::json::lemma_first_member(lark->Object_0, "syntax"@, 1);
    crate::json::lemma_first_member(lark->Object_0, "definition"@, 2);
    crate::json::lemma_first_member(regex->Object_0, "syntax"@, 1);
    crate::json::lemma_first_member(regex->Object_0, "definition"@, 2);
}

/// What a response took is read where the response tells it, else where the event
/// does.
pub proof fn law_usage_is_read(event: Json, key: Seq<char>, n: u64)
    ensures
        unsigned_at(at(at(event, "response"@), "usage"@), key) == Some(n) ==> usage_in(event, key)
            == Some(n),
        unsigned_at(at(at(event, "response"@), "usage"@), key) is None ==> usage_in(event, key)
            == unsigned_at(at(event, "usage"@), key),
        unsigned_at(
            at(at(at(event, "response"@), "usage"@), "input_tokens_details"@),
            "cached_tokens"@,
        ) == Some(n) ==> cached_in(event) == Some(n),
{
}

/// A prompt that was cancelled is answered to whom asked, with the word that it was.
pub proof fn law_cancelled_prompt_is_told(id: Seq<char>, originator: OriginatorView)
    ensures
        ({
            let answer = canceled_of(id, originator);
            &&& answer.session_prompt_id == id
            &&& answer.originator == originator
            &&& answer.output_items.len() == 1
            &&& answer.output_items[0] matches ItemView::Message { role, content, .. } && role
                == ContextRole::Assistant && content == seq!["(cancelled by harness)"@]
        }),
{
}

/// An event that came in is pending until it is done; then it alone is done.
pub proof fn law_done_events_are_counted(acks: AckView, id: u64, other: u64)
    requires
        acks.acked_up_to is None,
        other != id,
    ensures
        acks.registered(id).pending.contains(id),
        acks.registered(id).pending.contains(other) == acks.pending.contains(other),
        acks.registered(id).completed == acks.completed,
        !acks.with_done(id).pending.contains(id),
        acks.with_done(id).pending.contains(other) == acks.pending.contains(other),
        acks.with_done(id).completed.contains(id),
        acks.with_done(id).completed.contains(other) == acks.completed.contains(other),
{
}

/// Every model takes the efforts up to the high one, from none on; a small one takes
/// no higher.
pub proof fn law_efforts_go_up(model: Seq<char>)
    ensures
        efforts_of(model).len() == 5 || efforts_of(model).len() == 6,
        efforts_of(model)[0] == Effort::Off,
        efforts_of(model)[1] == Effort::Minimal,
        efforts_of(model)[2] == Effort::Low,
        efforts_of(model)[3] == Effort::Medium,
        efforts_of(model)[4] == Effort::High,
        efforts_of(model).len() == 6 ==> efforts_of(model)[5] == Effort::XHigh,
        crate::text::holds(model, "mini"@) ==> efforts_of(model).len() == 5,
        crate::text::holds(model, "nano"@) ==> efforts_of(model).len() == 5,
        !"gpt-5"@.is_prefix_of(model) ==> efforts_of(model).len() == 5,
        "gpt-5"@.is_prefix_of(model) ==> verbosities_of(model) == seq![
            Verbosity::Low,
            Verbosity::Medium,
            Verbosity::High,
        ],
        !"gpt-5"@.is_prefix_of(model) ==> verbosities_of(model) == seq![Verbosity::Medium],
        "gpt-5.5"@.is_prefix_of(model) && !crate::text::holds(model, "mini"@)
            && !crate::text::holds(model, "nano"@) ==> efforts_of(model).len() == 6,
        "gpt-5.4"@.is_prefix_of(model) && !crate::text::holds(model, "mini"@)
            && !crate::text::holds(model, "nano"@) ==> efforts_of(model).len() == 6,
{
    lemma_fifth("gpt-5.5"@, model);
    lemma_fifth("gpt-5.4"@, model);
    lemma_fifth("gpt-5.3-codex"@, model);
    lemma_fifth("gpt-5.2"@, model);
    lemma_fifth("gpt-5.1-codex-max"@, model);
    reveal_strlit("gpt-5");
    reveal_strlit("gpt-5.5");
    reveal_strlit("gpt-5.4");
    reveal_strlit("gpt-5.3-codex");
    reveal_strlit("gpt-5.2");
    reveal_strlit("gpt-5.1-codex-max");
    assert("gpt-5.5"@.take(5) =~= "gpt-5"@);
    assert("gpt-5.4"@.take(5) =~= "gpt-5"@);
    assert("gpt-5.3-codex"@.take(5) =~= "gpt-5"@);
    assert("gpt-5.2"@.take(5) =~= "gpt-5"@);
    assert("gpt-5.1-codex-max"@.take(5) =~= "gpt-5"@);
}

/// A model that starts with a longer name starts with the shorter one.
proof fn lemma_fifth(long: Seq<char>, model: Seq<char>)
    ensures
        long.is_prefix_of(model) && long.len() >= 5 && long.take(5) == "gpt-5"@
            ==> "gpt-5"@.is_prefix_of(model),
{
    reveal_strlit("gpt-5");
    if long.is_prefix_of(model) && long.len() >= 5 && long.take(5) == "gpt-5"@ {
        assert(long =~= model.subrange(0, long.len() as int));
        assert(model.subrange(0, 5) =~= long.take(5));
    }
}

/// A text without white space at its ends is left as it is.
proof fn lemma_nothing_to_trim(text: Seq<char>)
    requires
        text.len() > 0,
        !is_space(text[0]),
        !is_space(text.last()),
    ensures
        trim_of(text) == text,
{
    assert(trim_start_of(text) == text);
    assert(trim_end_of(text) == text);
}

/// Of the fifth generation the models mark the phase of a message from the fourth
/// minor version on, and not before.
pub proof fn law_later_models_mark_phases(minor: u32)
    ensures
        marks_phase("gpt-5."@ + decimal_of(minor as nat)) == (minor >= 4),
{
    reveal_strlit("gpt-5.");
    reveal_strlit("codex");
    assert("codex"@.len() == 5);
    let number = decimal_of(minor as nat);
    let model = "gpt-5."@ + number;
    law_decimal_reads_back(minor as nat);
    assert(crate::number::is_digit(number[0]));
    assert(crate::number::is_digit(number[number.len() - 1]));
    assert(model.last() == number[number.len() - 1]);
    assert(model[0] == 'g');
    lemma_nothing_to_trim(model);
    assert(model.subrange(0, 6) =~= "gpt-5."@);
    assert(model.skip(6) =~= number);
    assert forall|j: int| 0 <= j < number.len() implies number[j] != '-' by {
        assert(crate::number::is_digit(number[j]));
    }
    lemma_position_unique(number, '-', number.len() as int);
    assert(split_at_char(number, '-') is None);
    assert(crate::number::without_plus(number) == number);
}

/// A WebSocket may fail twice before a prompt goes over HTTP.
pub proof fn law_ws_may_fail_twice(originator: OriginatorView)
    ensures
        ws_budget_for(originator) == 2,
{
}

/// The name of a written request tells when, for which prompt, how and what.
pub proof fn law_file_name_tells_the_request(micros: u64, id: Seq<char>, what: Seq<char>)
    ensures
        file_name_of(micros, id, Transport::HttpSse, what) == decimal_of(micros as nat) + "-"@ + id
            + "-"@ + "http-sse"@ + "-"@ + what + ".json"@,
        file_name_of(micros, id, Transport::Websocket, what) == decimal_of(micros as nat) + "-"@
            + id + "-"@ + "websocket"@ + "-"@ + what + ".json"@,
{
}

} // verus!
