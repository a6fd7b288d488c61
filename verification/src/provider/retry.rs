//! When a request that failed is tried again.

use vstd::prelude::*;

use backon::BackoffBuilder;

use crate::proto::{OriginatorView, PromptOriginator};
use crate::provider::stream::{error_text, ErrorView, LlmError};
use crate::text::{contains, decimal, decimal_of, holds, same_text};

verus! {

/// How often a prompt of the user is tried again.
pub const LLM_MAX_RETRIES: usize = 8;

/// How often a prompt of an extension is tried again.
pub const LLM_MAX_RETRIES_EXTENSION: usize = 2;

/// How often a WebSocket may fail before a session falls back to HTTP.
pub const WS_RETRY_BUDGET_BEFORE_HTTP_FALLBACK: usize = 2;

/// The shortest wait before a prompt is tried again, in seconds.
pub const LLM_MIN_DELAY_SECS: u64 = 10;

/// The status of a prompt that the harness cancelled.
pub const CANCELED_BY_HARNESS_STATUS: u16 = 499;

/// The body that goes with that status.
pub const CANCELED_BY_HARNESS_BODY: &'static str = "cancelled by harness";

/// The number of nanoseconds in a second.
pub const NANOS_PER_SEC: u128 = 1000000000;

/// The longest time that a duration can hold, in nanoseconds.
pub const MAX_DURATION_NANOS: u128 = 18446744073709551615999999999;

/// How often a prompt is tried again.
pub open spec fn retries_for(originator: OriginatorView) -> usize {
    match originator {
        OriginatorView::User => LLM_MAX_RETRIES,
        OriginatorView::Extension { .. } => LLM_MAX_RETRIES_EXTENSION,
    }
}

/// How often a prompt is tried again.
pub fn max_retries_for(originator: &PromptOriginator) -> (n: usize)
    ensures
        n == retries_for(originator@),
{
    match originator {
        PromptOriginator::User => LLM_MAX_RETRIES,
        PromptOriginator::Extension { .. } => LLM_MAX_RETRIES_EXTENSION,
    }
}

/// How often a WebSocket may fail before a prompt falls back to HTTP.
pub open spec fn ws_budget_for(originator: OriginatorView) -> usize {
    if retries_for(originator) < WS_RETRY_BUDGET_BEFORE_HTTP_FALLBACK {
        retries_for(originator)
    } else {
        WS_RETRY_BUDGET_BEFORE_HTTP_FALLBACK
    }
}

/// How often a WebSocket may fail before a prompt falls back to HTTP.
pub fn ws_budget(originator: &PromptOriginator) -> (n: usize)
    ensures
        n == ws_budget_for(originator@),
{
    let retries = max_retries_for(originator);
    if retries < WS_RETRY_BUDGET_BEFORE_HTTP_FALLBACK {
        retries
    } else {
        WS_RETRY_BUDGET_BEFORE_HTTP_FALLBACK
    }
}

/// The wait before a retry, in seconds and without jitter: that of the two
/// before added up, until one is over a minute.
pub open spec fn fibonacci_secs(min_secs: nat, retry: nat) -> nat
    decreases retry,
{
    if retry < 2 {
        min_secs
    } else {
        let last = fibonacci_secs(min_secs, (retry - 1) as nat);
        if last < 60 {
            last + fibonacci_secs(min_secs, (retry - 2) as nat)
        } else {
            last
        }
    }
}

/// Whether waits are those of a schedule, each later by up to the shortest.
pub open spec fn is_schedule(delays: Seq<u128>, min_secs: nat, times: nat) -> bool {
    &&& delays.len() == times
    &&& forall|i: int|
        0 <= i < times ==> fibonacci_secs(min_secs, i as nat) * NANOS_PER_SEC
            <= #[trigger] delays[i] <= (fibonacci_secs(min_secs, i as nat) + min_secs)
            * NANOS_PER_SEC
}

/// The delays of `backon::FibonacciBuilder` with a minimum, a number of times
/// and jitter, in nanoseconds: each at least what the sequence says, and over it
/// by the minimum at most. Which one within that span the jitter picks is left
/// to chance.
#[verifier::external_body]
pub(crate) fn fibonacci_delays(min_secs: u64, times: usize) -> (delays: Vec<u128>)
    requires
        1 <= min_secs <= 16777216,
        times <= 64,
    ensures
        is_schedule(delays@, min_secs as nat, times as nat),
{
    backon::FibonacciBuilder::default()
        .with_min_delay(std::time::Duration::from_secs(min_secs))
        .with_max_times(times)
        .with_jitter()
        .build()
        .map(|delay| delay.as_nanos())
        .collect()
}

/// The waits before the retries of a prompt.
pub fn llm_retry_schedule(max_attempts: usize) -> (delays: Vec<u128>)
    requires
        max_attempts <= LLM_MAX_RETRIES,
    ensures
        is_schedule(delays@, LLM_MIN_DELAY_SECS as nat, max_attempts as nat),
{
    fibonacci_delays(LLM_MIN_DELAY_SECS, max_attempts)
}

/// The wait before the next try: what the error asks for, or what the schedule
/// says where that is longer. None where the error is not one to try again
/// after, or where the schedule is at its end.
pub open spec fn next_delay(delays: Seq<u128>, attempt: int, retry_after: Option<u128>) -> Option<u128> {
    match retry_after {
        Some(asked) => if 0 <= attempt < delays.len() {
            Some(
                if asked < delays[attempt] {
                    delays[attempt]
                } else {
                    asked
                },
            )
        } else {
            None
        },
        None => None,
    }
}

/// The wait before the next try.
pub fn retry_delay(delays: &Vec<u128>, attempt: usize, retry_after: Option<u128>) -> (delay: Option<
    u128,
>)
    ensures
        delay == next_delay(delays@, attempt as int, retry_after),
{
    match retry_after {
        Some(asked) => {
            if attempt < delays.len() {
                if asked < delays[attempt] {
                    Some(delays[attempt])
                } else {
                    Some(asked)
                }
            } else {
                None
            }
        },
        None => None,
    }
}

/// What the user is told before a prompt is tried again.
pub open spec fn banner_of(delay: u128, attempt: nat, max_attempts: nat, error: ErrorView) -> Seq<char> {
    "provider error \u{2014} retrying in "@ + decimal_of((delay / NANOS_PER_SEC) as nat)
        + "s (attempt "@ + decimal_of(attempt) + "/"@ + decimal_of(max_attempts) + ")\n\n> "@
        + error_text(error)
}

/// What the user is told before a prompt is tried again.
pub fn retry_banner(delay: u128, attempt: usize, max_attempts: usize, error: &LlmError) -> (banner:
    String)
    requires
        delay <= MAX_DURATION_NANOS,
    ensures
        banner@ == banner_of(delay, attempt as nat, max_attempts as nat, error@),
{
    let secs: u64 = (delay / NANOS_PER_SEC) as u64;
    let shown = decimal(secs);
    let number = decimal(attempt as u64);
    let all = decimal(max_attempts as u64);
    let what = error.text();
    let mut banner = "provider error \u{2014} retrying in ".to_owned();
    banner.append(shown.as_str());
    banner.append("s (attempt ");
    banner.append(number.as_str());
    banner.append("/");
    banner.append(all.as_str());
    banner.append(")\n\n> ");
    banner.append(what.as_str());
    banner
}

/// Whether an error says that the harness cancelled the prompt.
pub open spec fn by_harness(error: ErrorView) -> bool {
    match error {
        ErrorView::HttpStatus(code, body) => code == CANCELED_BY_HARNESS_STATUS && body
            == CANCELED_BY_HARNESS_BODY@,
        _ => false,
    }
}

/// Whether an error says that the harness cancelled the prompt.
pub fn is_canceled_by_harness(error: &LlmError) -> (b: bool)
    ensures
        b == by_harness(error@),
{
    match error {
        LlmError::HttpStatus(code, body) => *code == CANCELED_BY_HARNESS_STATUS && same_text(
            body.as_str(),
            CANCELED_BY_HARNESS_BODY,
        ),
        _ => false,
    }
}

/// Whether an error says that a session had better use no WebSocket.
pub open spec fn disables_ws(error: ErrorView) -> bool {
    match error {
        ErrorView::HttpStatus(code, body) => code == 426 || holds(
            body,
            "websocket_connection_limit_reached"@,
        ),
        _ => false,
    }
}

/// Whether an error says that a session had better use no WebSocket.
pub fn should_disable_ws(error: &LlmError) -> (b: bool)
    ensures
        b == disables_ws(error@),
{
    match error {
        LlmError::HttpStatus(code, body) => *code == 426 || contains(
            body.as_str(),
            "websocket_connection_limit_reached",
        ),
        _ => false,
    }
}

/// The waits of a whole schedule are ten seconds or more each, and come to 440
/// seconds at most, jitter and all.
pub proof fn law_schedule_is_bounded(delays: Seq<u128>)
    requires
        is_schedule(delays, LLM_MIN_DELAY_SECS as nat, LLM_MAX_RETRIES as nat),
    ensures
        delays[0] + delays[1] + delays[2] + delays[3] + delays[4] + delays[5] + delays[6]
            + delays[7] <= 440 * NANOS_PER_SEC,
        forall|i: int| 0 <= i < delays.len() ==> 10 * NANOS_PER_SEC <= #[trigger] delays[i],
{
    assert(fibonacci_secs(10, 0) == 10);
    assert(fibonacci_secs(10, 1) == 10);
    assert(fibonacci_secs(10, 2) == 20);
    assert(fibonacci_secs(10, 3) == 30);
    assert(fibonacci_secs(10, 4) == 50);
    assert(fibonacci_secs(10, 5) == 80);
    assert(fibonacci_secs(10, 6) == 80);
    assert(fibonacci_secs(10, 7) == 80);
    assert forall|i: int| 0 <= i < delays.len() implies 10 * NANOS_PER_SEC
        <= #[trigger] delays[i] by {
        assert(i == 0 || i == 1 || i == 2 || i == 3 || i == 4 || i == 5 || i == 6 || i == 7);
    }
    assert(delays[0] <= 20 * NANOS_PER_SEC);
    assert(delays[1] <= 20 * NANOS_PER_SEC);
    assert(delays[2] <= 30 * NANOS_PER_SEC);
    assert(delays[3] <= 40 * NANOS_PER_SEC);
    assert(delays[4] <= 60 * NANOS_PER_SEC);
    assert(delays[5] <= 90 * NANOS_PER_SEC);
    assert(delays[6] <= 90 * NANOS_PER_SEC);
    assert(delays[7] <= 90 * NANOS_PER_SEC);
}

} // verus!
