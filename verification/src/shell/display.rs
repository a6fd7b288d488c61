//! What a tool hands to the agent and to the interface: its result or its
//! failure, each with a short description of the call.

use vstd::prelude::*;

use crate::shell::diff::{DiffSummary, SummaryView};
use crate::text::{byte_len, chars_of, copy_texts, lines, lines_of, text_of, trim, trim_of, utf8_len, views};
use crate::value::{opt_cbor, Cbor, CborValue};

verus! {

/// How a tool call stands.
#[derive(Clone, Copy, Debug, PartialEq, Eq, Structural)]
pub enum ToolUseStatus {
    InProgress,
    Success,
    Error,
}

/// Counts shown beside a tool call.
#[derive(Clone, Copy, Debug, PartialEq, Eq, Structural)]
pub struct ToolUseStats {
    pub matches: Option<u64>,
    pub lines: Option<u64>,
    pub bytes: Option<u64>,
}

/// What is shown below a tool call.
#[derive(Debug)]
pub enum ToolUsePayload {
    Text { text: String },
    Diff(DiffSummary),
}

/// The description of a tool call for the interface.
#[derive(Debug)]
pub struct ToolUseState {
    pub args: String,
    pub mode: String,
    /// Short remarks shown beside the label.
    pub info_chips: Vec<String>,
    pub status: ToolUseStatus,
    pub status_text: String,
    pub stats: ToolUseStats,
    pub payload: Option<ToolUsePayload>,
}

/// What is shown below a tool call, as mathematics.
pub enum PayloadView {
    Text { text: Seq<char> },
    Diff(SummaryView),
}

/// The description of a tool call, as mathematics.
pub struct StateView {
    pub args: Seq<char>,
    pub mode: Seq<char>,
    pub info_chips: Seq<Seq<char>>,
    pub status: ToolUseStatus,
    pub status_text: Seq<char>,
    pub stats: ToolUseStats,
    pub payload: Option<PayloadView>,
}

impl View for ToolUsePayload {
    type V = PayloadView;

    open spec fn view(&self) -> PayloadView {
        match self {
            ToolUsePayload::Text { text } => PayloadView::Text { text: text@ },
            ToolUsePayload::Diff(summary) => PayloadView::Diff(summary@),
        }
    }
}

/// The view of an optional payload.
pub open spec fn opt_payload(payload: Option<ToolUsePayload>) -> Option<PayloadView> {
    match payload {
        Some(payload) => Some(payload@),
        None => None,
    }
}

impl View for ToolUseState {
    type V = StateView;

    open spec fn view(&self) -> StateView {
        StateView {
            args: self.args@,
            mode: self.mode@,
            info_chips: views(self.info_chips@),
            status: self.status,
            status_text: self.status_text@,
            stats: self.stats,
            payload: opt_payload(self.payload),
        }
    }
}

impl ToolUseState {
    /// A copy of the description.
    pub fn copy(&self) -> (state: ToolUseState)
        ensures
            state@ == self@,
    {
        let payload = match &self.payload {
            Some(ToolUsePayload::Text { text }) => Some(
                ToolUsePayload::Text { text: text.clone() },
            ),
            Some(ToolUsePayload::Diff(summary)) => Some(ToolUsePayload::Diff(summary.copy())),
            None => None,
        };
        ToolUseState {
            args: self.args.clone(),
            mode: self.mode.clone(),
            info_chips: copy_texts(&self.info_chips),
            status: self.status,
            status_text: self.status_text.clone(),
            stats: self.stats,
            payload,
        }
    }
}

/// No counts.
pub open spec fn no_stats() -> ToolUseStats {
    ToolUseStats { matches: None, lines: None, bytes: None }
}

/// A description with a label and a status, and nothing else in it.
pub open spec fn plain_state(
    args: Seq<char>,
    status: ToolUseStatus,
    status_text: Seq<char>,
) -> StateView {
    StateView {
        args,
        mode: seq![],
        info_chips: seq![],
        status,
        status_text,
        stats: no_stats(),
        payload: None,
    }
}

/// A description with a label and a status, and nothing else in it.
pub fn plain_display(args: &str, status: ToolUseStatus, status_text: &str) -> (state: ToolUseState)
    ensures
        state@ == plain_state(args@, status, status_text@),
{
    let mode = String::new();
    assert(mode@ =~= seq![]);
    let info_chips: Vec<String> = Vec::new();
    assert(views(info_chips@) =~= seq![]);
    ToolUseState {
        args: args.to_owned(),
        mode,
        info_chips,
        status,
        status_text: status_text.to_owned(),
        stats: ToolUseStats { matches: None, lines: None, bytes: None },
        payload: None,
    }
}

/// The usual description of a call that went well.
pub fn ok_display(args: &str) -> (state: ToolUseState)
    ensures
        state@ == plain_state(args@, ToolUseStatus::Success, "ok"@),
{
    plain_display(args, ToolUseStatus::Success, "ok")
}

/// The lines and bytes of a text; no counts for an empty one.
pub open spec fn stats_of(text: Seq<char>) -> ToolUseStats {
    if text.len() == 0 {
        no_stats()
    } else {
        ToolUseStats {
            matches: None,
            lines: Some(lines_of(text).len() as u64),
            bytes: Some(utf8_len(text) as u64),
        }
    }
}

/// The lines and bytes of a text; no counts for an empty one.
pub fn text_stats(text: &str) -> (stats: ToolUseStats)
    ensures
        stats == stats_of(text@),
{
    if text.is_empty() {
        return ToolUseStats { matches: None, lines: None, bytes: None };
    }
    let list = lines(text);
    assert(lines_of(text@).len() == list@.len());
    ToolUseStats {
        matches: None,
        lines: Some(list.len() as u64),
        bytes: Some(byte_len(text) as u64),
    }
}

/// What a tool returns when it did its work.
#[derive(Debug)]
pub struct ToolOutput {
    pub result: CborValue,
    pub display: ToolUseState,
}

/// What a tool returns when it did its work, as mathematics.
pub struct OutputView {
    pub result: Cbor,
    pub display: StateView,
}

impl View for ToolOutput {
    type V = OutputView;

    open spec fn view(&self) -> OutputView {
        OutputView { result: self.result@, display: self.display@ }
    }
}

/// What a tool returns when it could not do its work.
#[derive(Debug)]
pub struct ToolFailure {
    pub message: String,
    pub details: Option<CborValue>,
    pub display: ToolUseState,
}

/// What a tool returns when it could not do its work, as mathematics.
pub struct FailureView {
    pub message: Seq<char>,
    pub details: Option<Cbor>,
    pub display: StateView,
}

impl View for ToolFailure {
    type V = FailureView;

    open spec fn view(&self) -> FailureView {
        FailureView {
            message: self.message@,
            details: opt_cbor(self.details),
            display: self.display@,
        }
    }
}

/// The outcome of a tool, as mathematics.
pub open spec fn outcome_view(outcome: Result<ToolOutput, ToolFailure>) -> Result<
    OutputView,
    FailureView,
> {
    match outcome {
        Ok(output) => Ok(output@),
        Err(failure) => Err(failure@),
    }
}

/// Longest label of an error chip, in characters.
pub const MAX_CHIP_CHARS: usize = 64;

/// The first of the lines that is not blank, without the white space at its
/// ends; empty where there is none.
pub open spec fn first_filled(list: Seq<Seq<char>>) -> Seq<char>
    decreases list.len(),
{
    if list.len() == 0 {
        seq![]
    } else if trim_of(list[0]).len() > 0 {
        trim_of(list[0])
    } else {
        first_filled(list.drop_first())
    }
}

/// The short text of an error: one line, cut to a readable length.
pub open spec fn chip_text(message: Seq<char>) -> Seq<char> {
    let first = first_filled(lines_of(message));
    if first.len() == 0 {
        "err"@
    } else if first.len() <= MAX_CHIP_CHARS {
        "err: "@ + first
    } else {
        "err: "@ + first.take(MAX_CHIP_CHARS - 1).push('…')
    }
}

/// Short single-line text for an error. A message of many lines or a very long
/// one is cut so that the chip stays readable.
pub fn error_chip_text(message: &str) -> (chip: String)
    ensures
        chip@ == chip_text(message@),
{
    let list = lines(message);
    let ghost all = views(list@);
    let mut first = String::new();
    let mut i: usize = 0;
    assert(all.skip(0) =~= all);
    while i < list.len()
        invariant_except_break
            first@.len() == 0,
        invariant
            i <= list@.len(),
            all == views(list@),
            first@.len() == 0 ==> first_filled(all) == first_filled(all.skip(i as int)),
            first@.len() > 0 ==> first@ == first_filled(all),
        ensures
            first@ == first_filled(all),
        decreases list.len() - i,
    {
        assert(all.skip(i as int)[0] == list@[i as int]@);
        first = trim(list[i].as_str());
        if !first.as_str().is_empty() {
            break ;
        }
        assert(all.skip(i as int).drop_first() =~= all.skip(i + 1));
        i += 1;
        assert(first@ =~= seq![]);
    }
    if first.as_str().is_empty() {
        return "err".to_owned();
    }
    let mut chip = "err: ".to_owned();
    let chars = chars_of(first.as_str());
    if chars.len() <= MAX_CHIP_CHARS {
        chip.append(first.as_str());
    } else {
        let mut label = text_of(&chars, 0, MAX_CHIP_CHARS - 1);
        assert(label@ =~= first@.take(MAX_CHIP_CHARS - 1));
        label.push('…');
        chip.append(label.as_str());
    }
    chip
}

/// A failure with a message and nothing else said of the call.
pub open spec fn failure(message: Seq<char>) -> FailureView {
    FailureView {
        message,
        details: None,
        display: plain_state(seq![], ToolUseStatus::Error, chip_text(message)),
    }
}

/// A failure with a message and a label.
pub open spec fn failure_with_args(message: Seq<char>, args: Seq<char>) -> FailureView {
    FailureView {
        message,
        details: None,
        display: plain_state(args, ToolUseStatus::Error, chip_text(message)),
    }
}

impl ToolFailure {
    /// A failure with a message.
    pub fn new(message: String) -> (f: Self)
        ensures
            f@ == failure(message@),
    {
        let status_text = error_chip_text(message.as_str());
        let args = String::new();
        assert(args@ =~= seq![]);
        ToolFailure {
            display: plain_display(args.as_str(), ToolUseStatus::Error, status_text.as_str()),
            message,
            details: None,
        }
    }

    /// The failure with a label for the call.
    pub fn with_args(self, args: String) -> (f: Self)
        ensures
            f@ == (FailureView {
                display: StateView { args: args@, ..self@.display },
                ..self@
            }),
    {
        let mut f = self;
        f.display.args = args;
        f
    }

    /// The failure with a mode label.
    pub fn with_mode(self, mode: String) -> (f: Self)
        ensures
            f@ == (FailureView {
                display: StateView { mode: mode@, ..self@.display },
                ..self@
            }),
    {
        let mut f = self;
        f.display.mode = mode;
        f
    }

    /// The failure with a payload.
    pub fn with_payload(self, payload: Option<ToolUsePayload>) -> (f: Self)
        ensures
            f@ == (FailureView {
                display: StateView { payload: opt_payload(payload), ..self@.display },
                ..self@
            }),
    {
        let mut f = self;
        f.display.payload = payload;
        f
    }

    /// The failure with details for the agent.
    pub fn with_details(self, details: CborValue) -> (f: Self)
        ensures
            f@ == (FailureView { details: Some(details@), ..self@ }),
    {
        let mut f = self;
        f.details = Some(details);
        f
    }
}

/// The label of an error is never empty and never longer than its prefix and
/// the longest label.
pub proof fn law_chip_is_short(message: Seq<char>)
    ensures
        3 <= chip_text(message).len() <= 5 + MAX_CHIP_CHARS,
{
    reveal_strlit("err");
    reveal_strlit("err: ");
}

} // verus!
