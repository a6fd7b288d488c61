//! Laws of credentials, of waits and tries, and of connections.

use vstd::prelude::*;

use crate::json::{lemma_first_member, member, text_at, unsigned_at, Json};
use crate::json_text::parsed_json;
use crate::proto::OriginatorView;
use crate::provider::auth::{
    backend_of, is_blank, is_due, issued_in, models_of, payload_of, status_of, AuthView,
};
use crate::provider::base64::{
    decoded, first_byte, is_base64, packed, second_byte, sextet_of, third_byte,
};
use crate::provider::cancel::{sleep_step_of, CancelView, SleepOutcome, SleepStep};
use crate::provider::debug::{request_json, sent_members};
use crate::provider::finish::{output_of, StopReason, WsPoolDelta};
use crate::provider::http::{PieceView, UpdateView};
use crate::provider::job::{resolved, CredentialsView, PromptView};
use crate::provider::models::{info_of, ModelIdView};
use crate::provider::request::{PayloadView, Transport};
use crate::provider::responses::ConfigView;
use crate::provider::retry::{
    banner_of, by_harness, disables_ws, fibonacci_secs, next_delay, retries_for,
};
use crate::provider::stream::{error_text, ErrorView, StreamView};
use crate::provider::turn::{
    started, with_shown, FailureView, PromptEventView, TurnKind, TurnStep, TurnView, WsOutcomeView,
};
use crate::provider::ws::{frame_pieces, ws_headers, ws_url_of, ConnView, WsFrame};
use crate::text::{after_prefix, decimal_of, lemma_position_unique, split_at_char};

verus! {

/// Credentials open the backend of the model that is asked for, with the token and
/// the account that they hold.
pub proof fn law_credentials_are_used_as_they_are(model: Seq<char>, auth: AuthView)
    requires
        !is_blank(auth.access_token),
    ensures
        backend_of(model, auth) matches Some(config) && {
            &&& config.base_url == "https://chatgpt.com/backend-api"@
            &&& config.api_key == auth.access_token
            &&& config.account_id == auth.account_id
            &&& config.model_id == model
        },
{
}

/// A prompt for a model of the provider goes to that model, with credentials that
/// were refreshed where that was called for, else with those at hand. One for the
/// model of another provider goes nowhere.
pub proof fn law_prompt_goes_to_its_model(
    provider: Seq<char>,
    model: Seq<char>,
    auth: AuthView,
    fresh: AuthView,
    now_ms: u64,
)
    requires
        !is_blank(auth.access_token),
        !is_blank(fresh.access_token),
    ensures
        ({
            let id = ModelIdView { provider, model };
            let held = CredentialsView { auth, now_ms, refreshed: None };
            let renewed = CredentialsView { auth, now_ms, refreshed: Some(fresh) };
            &&& provider == "chatgpt"@ ==> {
                &&& resolved(Some(id), held) matches Some(config) && {
                    &&& config.model_id == model
                    &&& config.api_key == auth.access_token
                    &&& config.account_id == auth.account_id
                }
                &&& resolved(Some(id), renewed) matches Some(config) && {
                    &&& config.model_id == model
                    &&& auth.expires_at_ms <= now_ms && !is_blank(auth.refresh_token)
                        ==> config.api_key == fresh.access_token && config.account_id
                        == fresh.account_id
                    &&& is_blank(auth.refresh_token) ==> config.api_key == auth.access_token
                }
            }
            &&& provider != "chatgpt"@ ==> resolved(Some(id), held) is None && resolved(
                Some(id),
                renewed,
            ) is None
        }),
{
}

/// A token is left alone in the first half of its life, as long as it has more than
/// five minutes; within five minutes of its end, and from half of its life on, it is
/// due.
pub proof fn law_token_is_refreshed_in_time(issued: u64, expires_at_ms: u64, now_ms: u64)
    requires
        issued <= expires_at_ms,
    ensures
        expires_at_ms <= now_ms + 300000 ==> is_due(Some(issued), expires_at_ms, now_ms) && is_due(
            None,
            expires_at_ms,
            now_ms,
        ),
        now_ms + 300000 < expires_at_ms ==> {
            &&& !is_due(None, expires_at_ms, now_ms)
            &&& (now_ms - issued) * 2 >= expires_at_ms - issued ==> is_due(
                Some(issued),
                expires_at_ms,
                now_ms,
            )
            &&& (now_ms - issued + 1) * 2 <= expires_at_ms - issued ==> !is_due(
                Some(issued),
                expires_at_ms,
                now_ms,
            )
        },
{
}

/// The payload of a token is its middle part.
pub proof fn law_payload_is_the_middle(head: Seq<char>, payload: Seq<char>, rest: Seq<char>)
    requires
        !head.contains('.'),
        !payload.contains('.'),
    ensures
        payload_of(head + "."@ + payload + "."@ + rest) == Some(payload),
        payload_of(head) is None,
{
    reveal_strlit(".");
    let jwt = head + "."@ + payload + "."@ + rest;
    let behind = payload + "."@ + rest;
    assert forall|j: int| 0 <= j < head.len() implies jwt[j] != '.' by {
        assert(head.contains(head[j]));
    }
    lemma_position_unique(jwt, '.', head.len() as int);
    assert(jwt.skip(head.len() as int + 1) =~= behind);
    assert forall|j: int| 0 <= j < payload.len() implies behind[j] != '.' by {
        assert(payload.contains(payload[j]));
    }
    lemma_position_unique(behind, '.', payload.len() as int);
    assert(behind.take(payload.len() as int) =~= payload);
    assert forall|j: int| 0 <= j < head.len() implies head[j] != '.' by {
        assert(head.contains(head[j]));
    }
    lemma_position_unique(head, '.', head.len() as int);
    assert(split_at_char(head, '.') is None);
}

/// The second in which a token was issued is told in milliseconds.
pub proof fn law_issue_time_is_in_milliseconds(claims: Json, secs: u64)
    requires
        unsigned_at(claims, "iat"@) == Some(secs),
        secs < 18446744073709551,
    ensures
        issued_in(claims) matches Some(ms) && ms == secs * 1000,
{
}

/// Bytes as six-bit numbers: four for each three bytes, and as many as it takes for
/// the bytes that are left.
pub open spec fn sextets(bytes: Seq<u8>) -> Seq<u8>
    decreases bytes.len(),
{
    if bytes.len() == 0 {
        seq![]
    } else if bytes.len() == 1 {
        seq![(bytes[0] / 4) as u8, ((bytes[0] % 4) * 16) as u8]
    } else if bytes.len() == 2 {
        seq![
            (bytes[0] / 4) as u8,
            ((bytes[0] % 4) * 16 + bytes[1] / 16) as u8,
            ((bytes[1] % 16) * 4) as u8,
        ]
    } else {
        seq![
            (bytes[0] / 4) as u8,
            ((bytes[0] % 4) * 16 + bytes[1] / 16) as u8,
            ((bytes[1] % 16) * 4 + bytes[2] / 64) as u8,
            (bytes[2] % 64) as u8,
        ] + sextets(bytes.skip(3))
    }
}

/// The first byte of three comes back.
proof fn lemma_first_byte(a: u8, b: u8)
    ensures
        first_byte((a / 4) as u8, ((a % 4) * 16 + b / 16) as u8) == a,
        first_byte((a / 4) as u8, ((a % 4) * 16) as u8) == a,
{
}

/// The second byte of three comes back.
proof fn lemma_second_byte(a: u8, b: u8, c: u8)
    ensures
        second_byte(((a % 4) * 16 + b / 16) as u8, ((b % 16) * 4 + c / 64) as u8) == b,
        second_byte(((a % 4) * 16 + b / 16) as u8, ((b % 16) * 4) as u8) == b,
{
}

/// The third byte of three comes back.
proof fn lemma_third_byte(b: u8, c: u8)
    ensures
        third_byte(((b % 16) * 4 + c / 64) as u8, (c % 64) as u8) == c,
{
}

/// Bytes that are written as six-bit numbers are read back as they were.
pub proof fn law_bytes_read_back(bytes: Seq<u8>)
    ensures
        packed(sextets(bytes)) == bytes,
    decreases bytes.len(),
{
    let s = sextets(bytes);
    if bytes.len() >= 3 {
        law_bytes_read_back(bytes.skip(3));
        lemma_first_byte(bytes[0], bytes[1]);
        lemma_second_byte(bytes[0], bytes[1], bytes[2]);
        lemma_third_byte(bytes[1], bytes[2]);
        assert(s.skip(4) =~= sextets(bytes.skip(3)));
        assert(packed(s) == seq![bytes[0], bytes[1], bytes[2]] + bytes.skip(3));
        assert(packed(s) =~= bytes);
    } else if bytes.len() == 2 {
        lemma_first_byte(bytes[0], bytes[1]);
        lemma_second_byte(bytes[0], bytes[1], 0);
        assert(packed(s) =~= bytes);
    } else if bytes.len() == 1 {
        lemma_first_byte(bytes[0], 0);
        assert(packed(s) =~= bytes);
    } else {
        assert(packed(s) =~= bytes);
    }
}

/// The letter for a six-bit number: capital letters, small ones, digits, and the two
/// signs that can stand in an address.
pub open spec fn letter(n: u8) -> char {
    if n < 26 {
        (n + 65) as u8 as char
    } else if n < 52 {
        (n - 26 + 97) as u8 as char
    } else if n < 62 {
        (n - 52 + 48) as u8 as char
    } else if n == 62 {
        '-'
    } else {
        '_'
    }
}

/// A text of letters is read as the bytes that it was written for.
pub proof fn law_text_reads_back(bytes: Seq<u8>)
    ensures
        decoded(sextets(bytes).map_values(|n: u8| letter(n))) == Some(bytes),
{
    let s = sextets(bytes);
    let text = s.map_values(|n: u8| letter(n));
    lemma_sextets(bytes);
    law_bytes_read_back(bytes);
    assert forall|i: int| 0 <= i < text.len() implies sextet_of(#[trigger] text[i]) == Some(s[i]) by {
        lemma_letter(s[i]);
    }
    assert(is_base64(text));
    assert(text.map_values(|c: char| sextet_of(c)->Some_0) =~= s);
}

/// A letter is read as the number that it stands for.
proof fn lemma_letter(n: u8)
    requires
        n < 64,
    ensures
        sextet_of(letter(n)) == Some(n),
{
}

/// Six-bit numbers have six bits, and none is alone in its group.
proof fn lemma_sextets(bytes: Seq<u8>)
    ensures
        sextets(bytes).len() % 4 != 1,
        forall|i: int| 0 <= i < sextets(bytes).len() ==> (#[trigger] sextets(bytes)[i]) < 64,
    decreases bytes.len(),
{
    if bytes.len() >= 3 {
        let rest = sextets(bytes.skip(3));
        lemma_sextets(bytes.skip(3));
        assert forall|i: int| 4 <= i < sextets(bytes).len() implies (#[trigger] sextets(bytes)[i])
            < 64 by {
            assert(sextets(bytes)[i] == rest[i - 4]);
        }
    }
}

/// The status tells whether there are credentials, and whether they still hold.
pub proof fn law_status_tells_what_holds(auth: AuthView, now_ms: u64)
    ensures
        is_blank(auth.access_token) && is_blank(auth.refresh_token) ==> status_of(auth, now_ms)
            == "chatgpt: not configured"@,
        !is_blank(auth.access_token) && now_ms < auth.expires_at_ms ==> status_of(auth, now_ms)
            == "chatgpt: logged in"@,
        !is_blank(auth.access_token) && auth.expires_at_ms <= now_ms ==> status_of(auth, now_ms)
            == "chatgpt: expired"@,
{
}

/// Every model is published under its own name, as one of the provider.
pub proof fn law_models_are_published(auth: AuthView, i: int)
    requires
        !is_blank(auth.access_token),
        0 <= i < models_of(auth).len(),
    ensures
        models_of(auth).len() == 4,
        models_of(auth)[0].id.model == "gpt-5.5"@,
        models_of(auth)[1].id.model == "gpt-5.4"@,
        models_of(auth)[2].id.model == "gpt-5.4-mini"@,
        models_of(auth)[3].id.model == "gpt-5.3-codex"@,
        models_of(auth)[i].id.provider == "chatgpt"@,
{
}

/// Of two models the later one is preferred, and a small one least.
pub proof fn law_later_models_are_preferred(provider: Seq<char>, other: Seq<char>)
    requires
        other != "gpt-5.5"@,
        other != "gpt-5.4"@,
        other != "gpt-5.3-codex"@,
        other != "gpt-5.4-mini"@,
    ensures
        info_of(provider, "gpt-5.5"@).default_affinity > info_of(
            provider,
            "gpt-5.4"@,
        ).default_affinity > info_of(provider, "gpt-5.3-codex"@).default_affinity > info_of(
            provider,
            "gpt-5.4-mini"@,
        ).default_affinity > info_of(provider, other).default_affinity,
{
    reveal_strlit("gpt-5.5");
    reveal_strlit("gpt-5.4");
    reveal_strlit("gpt-5.3-codex");
    reveal_strlit("gpt-5.4-mini");
    assert("gpt-5.5"@[6] == '5' && "gpt-5.4"@[6] == '4');
    assert("gpt-5.5"@.len() == 7 && "gpt-5.4"@.len() == 7);
    assert("gpt-5.3-codex"@.len() == 13 && "gpt-5.4-mini"@.len() == 12);
}

/// A try that failed is repeated where the failure asks for it and tries are left,
/// and not before the time that the failure and the schedule ask for.
pub proof fn law_retry_waits_long_enough(delays: Seq<u128>, attempt: int, asked: Option<u128>)
    requires
        0 <= attempt,
    ensures
        next_delay(delays, attempt, asked) is Some <==> asked is Some && attempt < delays.len(),
        next_delay(delays, attempt, asked) matches Some(wait) ==> {
            &&& wait >= delays[attempt]
            &&& wait >= asked->Some_0
            &&& wait == delays[attempt] || wait == asked->Some_0
        },
{
}

/// The prompt of a user is tried again more often than that of an extension.
pub proof fn law_users_are_tried_for_longer(originator: OriginatorView)
    ensures
        originator is User ==> retries_for(originator) == 8,
        originator is Extension ==> retries_for(originator) == 2,
{
}

/// Each wait is those of the two tries before it added up, until they are over a
/// minute; from there on they stay as they are.
pub proof fn law_waits_grow(min_secs: nat, retry: nat)
    ensures
        fibonacci_secs(min_secs, 0) == min_secs,
        fibonacci_secs(min_secs, 1) == min_secs,
        fibonacci_secs(min_secs, retry + 1) < 60 ==> fibonacci_secs(min_secs, retry + 2)
            == fibonacci_secs(min_secs, retry + 1) + fibonacci_secs(min_secs, retry),
        fibonacci_secs(min_secs, retry + 1) >= 60 ==> fibonacci_secs(min_secs, retry + 2)
            == fibonacci_secs(min_secs, retry + 1),
        fibonacci_secs(min_secs, retry) <= fibonacci_secs(min_secs, retry + 1),
        fibonacci_secs(min_secs, retry) >= min_secs,
    decreases retry,
{
    if retry > 0 {
        law_waits_grow(min_secs, (retry - 1) as nat);
    }
}

/// The user is told what went wrong, how long the wait is and which try comes next.
pub proof fn law_wait_is_told(wait: u128, attempt: nat, most: nat, error: ErrorView)
    ensures
        ({
            let told = banner_of(wait, attempt, most, error);
            &&& error_text(error).is_suffix_of(told)
            &&& exists|before: Seq<char>, behind: Seq<char>| #[trigger]
                joined(before, decimal_of((wait / 1000000000) as nat) + "s (attempt "@ + decimal_of(attempt) + "/"@
                + decimal_of(most) + ")"@, behind) == told
        }),
{
    let told = banner_of(wait, attempt, most, error);
    let n = error_text(error).len();
    assert(told.subrange(told.len() - n, told.len() as int) =~= error_text(error));
    let middle = decimal_of((wait / 1000000000) as nat) + "s (attempt "@ + decimal_of(attempt)
        + "/"@ + decimal_of(most) + ")"@;
    let before = "provider error \u{2014} retrying in "@;
    let behind = "\n\n> "@ + error_text(error);
    reveal_strlit(")");
    reveal_strlit("\n\n> ");
    reveal_strlit(")\n\n> ");
    assert(")\n\n> "@ =~= ")"@ + "\n\n> "@);
    assert(joined(before, middle, behind) =~= told);
}

/// Three texts as one.
pub open spec fn joined(a: Seq<char>, b: Seq<char>, c: Seq<char>) -> Seq<char> {
    a + b + c
}

/// A response ends its prompt: the answer is for that prompt and holds the output of
/// the response, and it names the transport that it came over.
pub proof fn law_response_is_the_answer(
    turn: TurnView,
    state: StreamView,
    delta: Option<WsPoolDelta>,
)
    ensures
        ({
            let http = turn.after_http(Ok(state), delta);
            let ws = turn.after_ws(WsOutcomeView::Done(state), delta);
            &&& http.turn.step is Done
            &&& ws.turn.step is Done
            &&& http.events.len() == 1
            &&& ws.events.len() == 1
            &&& http.events[0] matches PromptEventView::Finished(answer) && {
                &&& answer.session_prompt_id == turn.session_prompt_id
                &&& answer.originator == turn.originator
                &&& output_of(state).len() > 0 ==> answer.output_items == output_of(state)
                &&& answer.provider_response_id == state.response_id
                &&& answer.backend matches Some(told) && told.transport == Transport::HttpSse
                    && told.base_url == turn.base_url
            }
            &&& ws.events[0] matches PromptEventView::Finished(answer) && {
                &&& answer.session_prompt_id == turn.session_prompt_id
                &&& answer.originator == turn.originator
                &&& output_of(state).len() > 0 ==> answer.output_items == output_of(state)
                &&& answer.provider_response_id == state.response_id
                &&& answer.backend matches Some(told) && told.transport == Transport::Websocket
                    && told.base_url == turn.base_url
            }
        }),
{
}

/// A failure that is not to be tried again ends its prompt with an error, and one
/// that can be tried again makes it wait and try again.
pub proof fn law_failure_ends_or_waits(
    turn: TurnView,
    failure: FailureView,
    delta: Option<WsPoolDelta>,
)
    requires
        turn.is_sound(),
        turn.step is TryHttp,
        !by_harness(failure.error),
    ensures
        ({
            let after = turn.after_http(Err(failure), delta);
            let again = failure.retry_after is Some && turn.attempt < turn.delays.len();
            &&& after.events.len() == 1
            &&& again ==> {
                &&& after.turn.step is Sleep
                &&& after.turn.attempt == turn.attempt + 1
                &&& after.events[0] matches PromptEventView::Updated { session_prompt_id, text, .. }
                    && session_prompt_id == turn.session_prompt_id && error_text(
                    failure.error,
                ).is_suffix_of(text)
            }
            &&& !again ==> {
                &&& after.turn.step is Done
                &&& after.events[0] matches PromptEventView::Finished(answer)
                    && answer.session_prompt_id == turn.session_prompt_id && answer.originator
                    == turn.originator && answer.stop_reason == StopReason::Error
            }
        }),
{
    if failure.retry_after is Some && turn.attempt < turn.delays.len() {
        let wait = next_delay(turn.delays, turn.attempt as int, failure.retry_after)->Some_0;
        law_wait_is_told(wait, turn.attempt + 1, turn.delays.len(), failure.error);
    }
}

/// Everything of a response that comes in is shown as it comes, for the prompt that
/// it is of, before what comes of the try.
pub proof fn law_updates_are_shown(
    turn: TurnView,
    updates: Seq<UpdateView>,
    outcome: Result<StreamView, FailureView>,
    delta: Option<WsPoolDelta>,
    i: int,
)
    requires
        0 <= i < updates.len(),
    ensures
        with_shown(turn.shown(updates), turn.after_http(outcome, delta)).events[i] == (
        PromptEventView::Updated {
            session_prompt_id: turn.session_prompt_id,
            text: updates[i].text,
            thinking: updates[i].thinking,
            originator: turn.originator,
        }),
{
}

/// A prompt starts for whom it is, over a WebSocket where the backend and the session
/// have one.
pub proof fn law_prompt_starts_as_asked(
    id: Seq<char>,
    originator: OriginatorView,
    config: ConfigView,
    ws_disabled: bool,
    delays: Seq<u128>,
)
    ensures
        ({
            let turn = started(TurnKind::Prompt, id, originator, config, ws_disabled, delays);
            &&& turn.session_prompt_id == id
            &&& turn.originator == originator
            &&& turn.base_url == config.base_url
            &&& turn.delays == delays
            &&& turn.attempt == 0
            &&& (turn.step is TryWs) == (config.supports_websocket && !ws_disabled)
            &&& (turn.step is TryHttp) == !(config.supports_websocket && !ws_disabled)
        }),
{
}

/// After a wait a prompt is tried again, unless the wait was cut short: then it ends.
pub proof fn law_wait_leads_to_a_try(turn: TurnView, ws_disabled: bool, delta: Option<WsPoolDelta>)
    requires
        turn.is_sound(),
        turn.step is Sleep,
    ensures
        turn.after_wait(false, ws_disabled, delta).events.len() == 0,
        turn.after_wait(false, ws_disabled, delta).turn.step is TryWs || turn.after_wait(
            false,
            ws_disabled,
            delta,
        ).turn.step is TryHttp,
        ws_disabled ==> turn.after_wait(false, ws_disabled, delta).turn.step is TryHttp,
        turn.after_wait(true, ws_disabled, delta).turn.step is Done,
        turn.after_wait(true, ws_disabled, delta).events.len() == 1,
{
}

/// A prompt is sent whole: what is asked goes into the request as it is.
pub proof fn law_prompt_is_sent_whole(prompt: PromptView)
    ensures
        forall|chained: bool|
            {
                let request = #[trigger] prompt.payload(chained);
                &&& request.system_prompt == prompt.system_prompt
                &&& request.context_items == prompt.context_items
                &&& request.tools == prompt.tools
                &&& request.params == prompt.model_params
                &&& request.tool_choice == prompt.tool_choice
                &&& request.originator == prompt.originator
                &&& request.share_user_cache_key == prompt.share_user_cache_key
                &&& request.session_id == prompt.session_id
                &&& chained ==> request.previous_response == prompt.previous_response
                &&& !chained ==> request.previous_response is None
            },
{
}

/// A connection goes to the address of the backend, secure where that is, whether or
/// not the address ends with a slash.
pub proof fn law_connection_goes_to_the_backend(host: Seq<char>)
    requires
        host.len() > 0,
        host.last() != '/',
    ensures
        ws_url_of("https://"@ + host) == Ok::<Seq<char>, ErrorView>(
            "wss://"@ + host + "/codex/responses"@,
        ),
        ws_url_of("http://"@ + host) == Ok::<Seq<char>, ErrorView>(
            "ws://"@ + host + "/codex/responses"@,
        ),
        ws_url_of(("https://"@ + host).push('/')) == ws_url_of("https://"@ + host),
{
    reveal_strlit("https://");
    reveal_strlit("http://");
    let secure = "https://"@ + host;
    let plain = "http://"@ + host;
    assert(secure.push('/').drop_last() =~= secure);
    assert(secure.subrange(0, 8) =~= "https://"@);
    assert(secure.skip(8) =~= host);
    assert(plain.subrange(0, 7) =~= "http://"@);
    assert(plain.skip(7) =~= host);
    assert("https://"@[4] == 's' && "http://"@[4] == ':' && plain[4] == ':');
    if "https://"@.is_prefix_of(plain) {
        assert(plain[4] == "https://"@[4]);
    }
    assert(after_prefix(plain, "https://"@) is None);
}

/// A connection is opened with the credential and the account of the backend.
pub proof fn law_connection_carries_credentials(config: ConfigView)
    ensures
        ws_headers(config).contains(("Authorization"@, "Bearer "@ + config.api_key)),
        config.account_id matches Some(account) ==> ws_headers(config).contains(
            ("chatgpt-account-id"@, account),
        ),
{
    let headers = ws_headers(config);
    assert(headers[0] == ("Authorization"@, "Bearer "@ + config.api_key));
    if let Some(account) = config.account_id {
        assert(headers[2] == ("chatgpt-account-id"@, account));
    }
}

/// Every frame of a connection says one thing to a turn, in its place: one with text
/// carries the event that its JSON stands for.
pub proof fn law_frames_carry_events(frames: Seq<WsFrame>, i: int, text: String)
    requires
        0 <= i < frames.len(),
        frames[i] == WsFrame::Text(text),
    ensures
        frame_pieces(frames).len() == frames.len() + 1,
        parsed_json(text@) matches Ok(event) ==> frame_pieces(frames)[i] == PieceView::Event(event),
        parsed_json(text@) is Err ==> frame_pieces(frames)[i] is Ignored,
        frame_pieces(frames).last() is Failed,
{
}

/// A turn goes on from the one that was warmed up where that began the same
/// conversation, and is sent as it is otherwise; in neither case does it lose any of
/// its conversation.
pub proof fn law_warm_turn_keeps_the_conversation(
    conn: ConnView,
    config: ConfigView,
    request: PayloadView,
)
    ensures
        ({
            let sent = conn.chosen(config, request);
            &&& sent.context_items == request.context_items
            &&& sent.system_prompt == request.system_prompt
            &&& sent.tools == request.tools
            &&& sent.originator == request.originator
            &&& request.previous_response is Some ==> sent == request
            &&& sent != request ==> (sent.previous_response matches Some(previous) && (
            conn.prewarm_anchor matches Some(anchor) && previous.id == anchor.response_id
                && anchor.context_items.is_prefix_of(request.context_items)))
        }),
{
}

/// What was warmed up is used for one turn at most, and is what was answered to the
/// conversation that warmed it up.
pub proof fn law_warm_turn_is_used_once(
    conn: ConnView,
    config: ConfigView,
    request: PayloadView,
    state: StreamView,
    error: ErrorView,
    id: Seq<char>,
)
    requires
        state.response_id == Some(id),
    ensures
        conn.after_turn(Ok(state)).prewarm_anchor is None,
        conn.after_turn(Err(error)) == conn,
        conn.after_prewarm(config, request, Ok(state)).prewarm_anchor matches Some(anchor)
            && anchor.response_id == id && anchor.context_items == request.context_items,
        conn.after_prewarm(config, request, Err(error)) == conn,
{
}

/// A wait lasts until its deadline, unless its prompt is cancelled or all waits are
/// cut short.
pub proof fn law_wait_lasts_until_its_deadline(
    state: CancelView,
    id: Seq<char>,
    deadline: u128,
    now: u128,
)
    ensures
        ({
            let since = state.generation;
            let free = !state.canceled.contains(id) && !state.shut_down;
            &&& free && now < deadline ==> sleep_step_of(state, id, since, deadline, now)
                == SleepStep::WaitFor((deadline - now) as u128)
            &&& free && now > deadline ==> sleep_step_of(state, id, since, deadline, now)
                == SleepStep::End(SleepOutcome::Elapsed)
            &&& sleep_step_of(state.with_canceled(id), id, since, deadline, now) == SleepStep::End(
                SleepOutcome::Aborted,
            )
            &&& sleep_step_of(state.stopped(), id, since, deadline, now) == SleepStep::End(
                SleepOutcome::Aborted,
            )
            &&& since < u64::MAX ==> sleep_step_of(state.with_waits_cut(), id, since, deadline, now)
                == SleepStep::End(SleepOutcome::Aborted)
        }),
{
}

/// A failure over a WebSocket that says so, and only such a one, turns the WebSocket
/// off for its session at once.
pub proof fn law_refused_ws_is_turned_off(
    turn: TurnView,
    body: Seq<char>,
    wait: Option<u128>,
    delta: Option<WsPoolDelta>,
)
    ensures
        ({
            let failure = FailureView {
                error: ErrorView::HttpStatus(426, body),
                retry_after: wait,
            };
            let after = turn.after_ws(WsOutcomeView::Failed(failure), delta);
            &&& disables_ws(failure.error)
            &&& after.turn.step == TurnStep::TryHttp
            &&& after.turn.ws_disabled
            &&& after.turn.attempt == turn.attempt
            &&& after.events.len() == 0
        }),
{
}

/// What is written of a request for its reader tells the session, the model and the
/// body that was sent.
pub proof fn law_written_request_is_the_one_sent(
    config: ConfigView,
    request: PayloadView,
    session_prompt_id: Seq<char>,
    transport: Transport,
)
    ensures
        ({
            let written = request_json(config, request, session_prompt_id, transport);
            &&& text_at(written, "session_id"@) == Some(request.session_id)
            &&& text_at(written, "session_prompt_id"@) == Some(session_prompt_id)
            &&& text_at(written, "model"@) == Some(config.model_id)
            &&& member(written, "body"@) == Some(
                Json::Object(sent_members(config, request, transport)),
            )
        }),
{
    reveal_strlit("session_id");
    reveal_strlit("session_prompt_id");
    reveal_strlit("transport");
    reveal_strlit("backend");
    reveal_strlit("model");
    reveal_strlit("previous_response");
    reveal_strlit("context_item_count");
    reveal_strlit("tool_count");
    reveal_strlit("tool_choice");
    reveal_strlit("body");
    assert("session_id"@.len() == 10 && "session_prompt_id"@.len() == 17 && "model"@.len() == 5
        && "body"@.len() == 4 && "transport"@.len() == 9 && "backend"@.len() == 7);
    assert("previous_response"@.len() == 17 && "context_item_count"@.len() == 18
        && "tool_count"@.len() == 10 && "tool_choice"@.len() == 11);
    let members = request_json(config, request, session_prompt_id, transport)->Object_0;
    lemma_first_member(members, "session_id"@, 0);
    lemma_first_member(members, "session_prompt_id"@, 1);
    lemma_first_member(members, "model"@, 4);
    lemma_first_member(members, "body"@, 9);
}

} // verus!
