//! Laws of what the provider does with what it hears.

use vstd::prelude::*;

use crate::json::{member, Json};
use crate::json_text::written_json;
use crate::number::{number_of, without_plus};
use crate::provider::auth::{command_of, CliCommand};
use crate::provider::cancel::CancelView;
use crate::provider::context::{ContextRole, ItemView};
use crate::provider::finish::grown;
use crate::provider::http::compacted_of;
use crate::provider::job::{resolved, CredentialsView, JobView, PromptView};
use crate::provider::run::{
    ends_wait, is_kept, limit_of, waiting_state, FrameView, InputView, OutputView, ProviderView,
};
use crate::provider::stream::ErrorView;
use crate::provider::turn::PromptEventView;
use crate::provider::ws::{connect_error_of, ConnectError};
use crate::text::decimal_of;
use crate::text_laws::law_decimal_reads_back;

verus! {

/// Whether an output starts a prompt as it was asked for, over a backend.
pub open spec fn is_start_of(
    job: JobView,
    log_id: Option<u64>,
    prompt: PromptView,
    backend: crate::provider::responses::ConfigView,
) -> bool {
    &&& job.log_id == log_id
    &&& job.backend == backend
    &&& job.prompt.session_prompt_id == prompt.session_prompt_id
    &&& job.prompt.session_id == prompt.session_id
    &&& job.prompt.system_prompt == prompt.system_prompt
    &&& job.prompt.context_items == prompt.context_items
    &&& job.prompt.tools == prompt.tools
    &&& job.prompt.model == prompt.model
    &&& job.prompt.model_params == prompt.model_params
    &&& job.prompt.tool_choice == prompt.tool_choice
    &&& job.prompt.originator == prompt.originator
    &&& job.prompt.previous_response == prompt.previous_response
}

/// A prompt that comes in while there is room is started at once, as it was asked
/// for; while there is none it waits behind all others.
pub proof fn law_prompt_is_started_or_waits(
    state: ProviderView,
    log_id: Option<u64>,
    prompt: PromptView,
    credentials: CredentialsView,
)
    requires
        !state.done,
        !state.cancellation.is_canceled(prompt.session_prompt_id),
        resolved(prompt.model, credentials) is Some,
        state.active < state.limit ==> state.queue.len() == 0,
    ensures
        ({
            let input = InputView::Frame { log_id, frame: FrameView::Prompt(prompt), credentials };
            let step = state.heard(input);
            let backend = resolved(prompt.model, credentials)->Some_0;
            &&& state.active < state.limit ==> {
                &&& step.out.len() > 0
                &&& step.out[0] matches OutputView::Start(job) && is_start_of(
                    job,
                    log_id,
                    prompt,
                    backend,
                )
                &&& step.state.active == state.active + 1
                &&& step.state.queue.len() == 0
            }
            &&& state.active >= state.limit ==> {
                &&& step.state.active == state.active
                &&& step.state.queue.len() == state.queue.len() + 1
                &&& step.state.queue.drop_last() == state.queue
                &&& is_start_of(step.state.queue.last(), log_id, prompt, backend)
                &&& forall|i: int| 0 <= i < step.out.len() ==> !((#[trigger] step.out[i]) is Start)
            }
        }),
{
    let input = InputView::Frame { log_id, frame: FrameView::Prompt(prompt), credentials };
    let step = state.heard(input);
    if state.active >= state.limit {
        assert(step.state.queue.drop_last() =~= state.queue);
    }
}

/// A prompt for which there is no backend is answered, with the model that could not
/// be had.
pub proof fn law_prompt_without_backend_is_told(
    state: ProviderView,
    log_id: Option<u64>,
    prompt: PromptView,
    credentials: CredentialsView,
)
    requires
        !state.done,
        !state.cancellation.is_canceled(prompt.session_prompt_id),
        resolved(prompt.model, credentials) is None,
        state.active < state.limit ==> state.queue.len() == 0,
    ensures
        ({
            let input = InputView::Frame { log_id, frame: FrameView::Prompt(prompt), credentials };
            let step = state.heard(input);
            &&& step.state.active == state.active
            &&& step.state.queue == state.queue
            &&& step.out.len() >= 2
            &&& step.out[0] matches OutputView::Event(
                PromptEventView::Submitted { session_prompt_id, originator },
            ) && session_prompt_id == prompt.session_prompt_id && originator == prompt.originator
            &&& step.out[1] matches OutputView::Event(PromptEventView::Finished(answer)) && {
                &&& answer.session_prompt_id == prompt.session_prompt_id
                &&& answer.originator == prompt.originator
                &&& answer.output_items.len() == 1
                &&& answer.output_items[0] matches ItemView::Message { role, content, .. } && role
                    == ContextRole::Assistant && content == seq![
                    match prompt.model {
                        Some(model) => "cannot resolve provider backend for: "@ + (model.provider
                            + "/"@ + model.model),
                        None => "no model specified"@,
                    },
                ]
            }
        }),
{
}

/// A prompt that ends makes room for the one that waits longest.
pub proof fn law_ended_prompt_makes_room(state: ProviderView, log_id: Option<u64>)
    requires
        !state.done,
        state.active == state.limit,
        state.limit > 0,
        state.queue.len() > 0,
        !state.cancellation.is_canceled(state.queue[0].prompt.session_prompt_id),
    ensures
        ({
            let step = state.heard(InputView::PromptDone(log_id));
            &&& step.out.len() > 0
            &&& step.out[0] == OutputView::Start(state.queue[0])
            &&& step.state.queue == state.queue.drop_first()
            &&& step.state.active == state.active
        }),
{
    let after = ProviderView { active: (state.active - 1) as nat, ..state }.with_log_done(log_id);
    let rest = ProviderView { queue: after.queue.drop_first(), ..after }.told(
        state.queue[0].prompt.session_prompt_id,
    );
    let full = ProviderView { active: state.active, ..rest };
    assert(full.queue_started() == (crate::provider::run::ProviderStep {
        state: full,
        out: seq![],
    }));
}

/// A compaction, and a prompt that is to be warmed up, go out as they were asked for;
/// nothing is warmed up for a session without a WebSocket.
pub proof fn law_other_work_goes_out(
    state: ProviderView,
    log_id: Option<u64>,
    prompt: PromptView,
    credentials: CredentialsView,
)
    requires
        !state.done,
        !state.cancellation.is_canceled(prompt.session_prompt_id),
        resolved(prompt.model, credentials) is Some,
        state.active < state.limit ==> state.queue.len() == 0,
    ensures
        ({
            let backend = resolved(prompt.model, credentials)->Some_0;
            let compacted = state.heard(
                InputView::Frame { log_id, frame: FrameView::Compaction(prompt), credentials },
            );
            let warmed = state.heard(
                InputView::Frame { log_id, frame: FrameView::Prewarm(prompt), credentials },
            );
            &&& compacted.out.len() >= 2
            &&& compacted.out[1] matches OutputView::Compact(job) && is_start_of(
                job,
                log_id,
                prompt,
                backend,
            )
            &&& compacted.state.compacting == Some(log_id)
            &&& backend.supports_websocket && !state.ws_disabled.contains(prompt.session_id) ==> {
                &&& warmed.out.len() > 0
                &&& warmed.out[0] matches OutputView::Prewarm(job) && is_start_of(
                    job,
                    log_id,
                    prompt,
                    backend,
                )
            }
            &&& !backend.supports_websocket || state.ws_disabled.contains(prompt.session_id)
                ==> forall|i: int|
                0 <= i < warmed.out.len() ==> !((#[trigger] warmed.out[i]) is Prewarm)
        }),
{
}

/// A session whose WebSocket was given up is remembered, and no other is.
pub proof fn law_given_up_ws_is_remembered(
    state: ProviderView,
    session: Seq<char>,
    other: Seq<char>,
)
    requires
        !state.done,
        state.active < state.limit ==> state.queue.len() == 0,
    ensures
        ({
            let after = state.heard(InputView::WsDisabled(session)).state;
            &&& after.ws_disabled.contains(session)
            &&& other != session ==> (after.ws_disabled.contains(other)
                <==> state.ws_disabled.contains(other))
        }),
{
    let after = state.heard(InputView::WsDisabled(session)).state;
    if !state.ws_disabled.contains(session) {
        let list = state.ws_disabled.push(session);
        assert(list[state.ws_disabled.len() as int] == session);
        if state.ws_disabled.contains(other) {
            let j = choose|j: int| 0 <= j < state.ws_disabled.len() && state.ws_disabled[j] == other;
            assert(list[j] == other);
        }
        assert(after.ws_disabled == list);
    }
}

/// What comes in during a wait: to cancel the prompt that waits, or all waits, ends it
/// at once; to cancel another prompt is taken note of, and does not end it. What
/// was logged is left for later.
pub proof fn law_wait_is_ended_by_its_own_cancellation(
    state: CancelView,
    current: Seq<char>,
    other: Seq<char>,
    frame: FrameView,
)
    requires
        other != current,
    ensures
        ends_wait(false, FrameView::Cancel(Some(current)), current),
        ends_wait(false, FrameView::Cancel(None), current),
        ends_wait(false, FrameView::Disconnect, current),
        !ends_wait(false, FrameView::Cancel(Some(other)), current),
        !ends_wait(true, frame, current),
        frame is Prompt || frame is Compaction || frame is Prewarm ==> !ends_wait(
            false,
            frame,
            current,
        ) && waiting_state(state, false, frame) == state,
        waiting_state(state, false, FrameView::Cancel(Some(other))).canceled.contains(other),
        waiting_state(state, false, FrameView::Disconnect).shut_down,
        waiting_state(state, true, frame) == state,
        is_kept(true, frame, current),
        frame is Prompt || frame is Compaction ==> is_kept(false, frame, current),
        !is_kept(false, FrameView::Cancel(Some(other)), current),
{
}

/// As many prompts run at once as the setting says; four, where it says nothing or
/// no number.
pub proof fn law_setting_limits_prompts(n: usize)
    ensures
        n > 0 ==> limit_of(Some(decimal_of(n as nat))) == n,
        n == 0 ==> limit_of(Some(decimal_of(n as nat))) == 4,
        limit_of(None) == 4,
{
    let text = decimal_of(n as nat);
    law_decimal_reads_back(n as nat);
    assert(crate::number::is_digit(text[0]));
    assert(without_plus(text) == text);
    assert(number_of(text, usize::MAX as u64) == Some(n as u64));
}

/// A counter that grew has grown by the difference.
pub proof fn law_growth_is_the_difference(before: u64, more: u32)
    requires
        before + more <= u64::MAX,
    ensures
        grown(before, (before + more) as u64) == more,
        grown((before + more) as u64, before) == 0,
{
}

/// A compaction gives back every item of its output, in order, each as its JSON
/// text; one without output has failed.
pub proof fn law_compaction_gives_every_item(value: Json, items: Seq<Json>, i: int)
    requires
        member(value, "output"@) == Some(Json::Array(items)),
        0 <= i < items.len(),
    ensures
        compacted_of(value) matches Ok(texts) && texts.len() == items.len() && texts[i]
            == written_json(items[i]),
        compacted_of(Json::Null) is Err,
{
}

/// A connection that could not be opened is told with the status and the words of the
/// server, or with what went wrong on the way.
pub proof fn law_refused_connection_is_told(status: u16, body: Vec<u8>, text: String)
    ensures
        vstd::utf8::valid_utf8(body@) ==> connect_error_of(
            ConnectError::Http { status, body: Some(body) },
        ) == ErrorView::HttpStatus(status, vstd::utf8::decode_utf8(body@)),
        connect_error_of(ConnectError::Http { status, body: None }) == ErrorView::HttpStatus(
            status,
            seq![],
        ),
        connect_error_of(ConnectError::Transport(text)) matches ErrorView::HttpStatus(code, words)
            && code == 0 && text@.is_suffix_of(words),
{
    let words = "stream error: ws connect: "@ + text@;
    assert(words.subrange(words.len() - text@.len(), words.len() as int) =~= text@);
}

/// Every subcommand is known by its names; an unknown one is named in the error.
pub proof fn law_subcommands_are_known(rest: Seq<Seq<char>>, other: Seq<char>)
    ensures
        command_of(seq!["login"@] + rest) matches Ok(command) && command == CliCommand::Login,
        command_of(seq!["logout"@] + rest) matches Ok(command) && command == CliCommand::Logout,
        command_of(seq!["remove"@] + rest) matches Ok(command) && command == CliCommand::Logout,
        command_of(seq!["status"@] + rest) matches Ok(command) && command == CliCommand::Status,
        command_of(seq!["list"@] + rest) matches Ok(command) && command == CliCommand::Status,
        command_of(seq!["help"@] + rest) matches Ok(command) && command == CliCommand::Help,
        command_of(seq!["--help"@] + rest) matches Ok(command) && command == CliCommand::Help,
        command_of(seq!["-h"@] + rest) matches Ok(command) && command == CliCommand::Help,
        command_of(seq![]) matches Ok(command) && command == CliCommand::Help,
        command_of(seq![other] + rest) matches Err(message) ==> other.is_suffix_of(message),
{
    reveal_strlit("login");
    reveal_strlit("logout");
    reveal_strlit("remove");
    reveal_strlit("status");
    reveal_strlit("list");
    reveal_strlit("help");
    reveal_strlit("--help");
    reveal_strlit("-h");
    assert("login"@.len() == 5 && "logout"@.len() == 6 && "remove"@.len() == 6 && "status"@.len()
        == 6 && "list"@.len() == 4 && "help"@.len() == 4 && "--help"@.len() == 6 && "-h"@.len()
        == 2);
    assert("logout"@[0] == 'l' && "remove"@[0] == 'r' && "status"@[0] == 's' && "--help"@[0] == '-');
    assert("list"@[0] == 'l' && "help"@[0] == 'h');
    let message = "unknown chatgpt provider subcommand: "@ + other;
    assert(message.subrange(message.len() - other.len(), message.len() as int) =~= other);
}

} // verus!
