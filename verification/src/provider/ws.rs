//! Turns over a WebSocket.

use vstd::prelude::*;

use crate::json_text::{written_object, parse_json, parsed_json, write_object};
use crate::provider::body::{
    body_of, build_ws_envelope, build_ws_prewarm_envelope, fingerprint_of, first_sent,
    with_previous, ws_chain_fingerprint, ws_members, BodyView,
};
use crate::provider::context::{
    copy_items, item_views, same_item, ContextItem, ItemView,
};
use crate::provider::http::{
    account_header, bearer, header_views, piece_views, pieces_read, push_header, read_pieces,
    stream_result, update_views, Piece, PieceView, ReadingView, Update,
};
use crate::provider::input::inputs_of;
use crate::provider::request::{
    PayloadView, PreviousResponse, PreviousView, PromptPayload, Transport,
};
use crate::provider::responses::{ConfigView, ResponsesConfig};
use crate::provider::stream::{ErrorView, Extras, LlmError, StreamState, StreamView};
use crate::text::{
    after_prefix, decimal, decimal_of, same_text, strip_prefix, trim_end_matches, without_end,
};
use crate::utf8::strict_text;

verus! {

/// The beta feature that the endpoint is asked for.
pub const OPENAI_BETA_WS: &'static str = "responses_websockets=2026-02-06";

/// How often a connection is kept alive by a ping, in seconds.
pub const KEEPALIVE_PING_SECS: u64 = 25;

/// The address of the endpoint: that of the HTTP one with another scheme.
pub open spec fn ws_url_of(base_url: Seq<char>) -> Result<Seq<char>, ErrorView> {
    let base = without_end(base_url, '/');
    match after_prefix(base, "https://"@) {
        Some(rest) => Ok("wss://"@ + rest + "/codex/responses"@),
        None => match after_prefix(base, "http://"@) {
            Some(rest) => Ok("ws://"@ + rest + "/codex/responses"@),
            None => Err(
                ErrorView::HttpStatus(0, "ws scheme unsupported in base_url: "@ + base_url),
            ),
        },
    }
}

/// The address of the endpoint.
pub fn build_ws_url(base_url: &str) -> (url: Result<String, LlmError>)
    ensures
        match url {
            Ok(url) => ws_url_of(base_url@) == Ok::<Seq<char>, ErrorView>(url@),
            Err(error) => ws_url_of(base_url@) == Err::<Seq<char>, ErrorView>(error@),
        },
{
    let base = trim_end_matches(base_url, '/');
    match strip_prefix(base.as_str(), "https://") {
        Some(rest) => {
            let mut url = "wss://".to_owned();
            url.append(rest.as_str());
            url.append("/codex/responses");
            Ok(url)
        },
        None => match strip_prefix(base.as_str(), "http://") {
            Some(rest) => {
                let mut url = "ws://".to_owned();
                url.append(rest.as_str());
                url.append("/codex/responses");
                Ok(url)
            },
            None => {
                let mut message = "ws scheme unsupported in base_url: ".to_owned();
                message.append(base_url);
                Err(LlmError::HttpStatus(0, message))
            },
        },
    }
}

/// The headers that open a connection.
pub open spec fn ws_headers(config: ConfigView) -> Seq<(Seq<char>, Seq<char>)> {
    seq![
        ("Authorization"@, "Bearer "@ + config.api_key),
        ("OpenAI-Beta"@, OPENAI_BETA_WS@),
    ] + account_header(config.account_id)
}

/// The headers that open a connection.
pub fn build_ws_headers(config: &ResponsesConfig) -> (headers: Vec<(String, String)>)
    ensures
        header_views(headers@) == ws_headers(config@),
{
    let token = bearer(config.api_key.as_str());
    let mut headers: Vec<(String, String)> = Vec::new();
    assert(header_views(headers@) =~= seq![]);
    push_header(&mut headers, "Authorization", token.as_str());
    push_header(&mut headers, "OpenAI-Beta", OPENAI_BETA_WS);
    if let Some(account_id) = &config.account_id {
        push_header(&mut headers, "chatgpt-account-id", account_id.as_str());
    }
    assert(header_views(headers@) =~= ws_headers(config@));
    headers
}

/// Why a connection could not be opened: the answer of the server, or what went
/// wrong before there was one.
#[derive(Debug)]
pub enum ConnectError {
    Http { status: u16, body: Option<Vec<u8>> },
    Transport(String),
}

/// The error for a connection that could not be opened.
pub open spec fn connect_error_of(error: ConnectError) -> ErrorView {
    match error {
        ConnectError::Http { status, body } => ErrorView::HttpStatus(
            status,
            match body {
                Some(bytes) => if vstd::utf8::valid_utf8(bytes@) {
                    vstd::utf8::decode_utf8(bytes@)
                } else {
                    seq![]
                },
                None => seq![],
            },
        ),
        ConnectError::Transport(text) => ErrorView::HttpStatus(
            0,
            "stream error: ws connect: "@ + text@,
        ),
    }
}

/// The error for a connection that could not be opened.
pub fn map_ws_connect_error(error: ConnectError) -> (mapped: LlmError)
    ensures
        mapped@ == connect_error_of(error),
{
    match error {
        ConnectError::Http { status, body } => {
            let text = match body {
                Some(bytes) => strict_text(bytes.as_slice()),
                None => None,
            };
            match text {
                Some(text) => LlmError::HttpStatus(status, text),
                None => {
                    let none = String::new();
                    assert(none@ =~= seq![]);
                    LlmError::HttpStatus(status, none)
                },
            }
        },
        ConnectError::Transport(text) => {
            let mut message = "stream error: ws connect: ".to_owned();
            message.append(text.as_str());
            LlmError::HttpStatus(0, message)
        },
    }
}

/// A frame that comes in over a connection.
#[derive(Debug)]
pub enum WsFrame {
    Text(String),
    /// The connection closes, with a code and a reason where it gives them.
    Close(Option<(u16, String)>),
    /// A ping, a pong, or bytes.
    Other,
    Error(String),
}

/// What a close says.
pub open spec fn close_reason(frame: Option<(u16, String)>) -> Seq<char> {
    match frame {
        Some((code, reason)) => "code="@ + decimal_of(code as nat) + " reason="@ + reason@,
        None => "no close frame"@,
    }
}

/// What a close says.
pub fn close_text(frame: &Option<(u16, String)>) -> (text: String)
    ensures
        text@ == close_reason(*frame),
{
    match frame {
        Some((code, reason)) => {
            let mut text = "code=".to_owned();
            let number = decimal(*code as u64);
            text.append(number.as_str());
            text.append(" reason=");
            text.append(reason.as_str());
            text
        },
        None => "no close frame".to_owned(),
    }
}

/// The error for a connection that closed in the middle of a turn.
pub open spec fn closed_error(reason: Seq<char>) -> ErrorView {
    ErrorView::HttpStatus(0, "stream error: ws closed mid-stream ("@ + reason + ")"@)
}

/// The error for a connection that closed in the middle of a turn.
pub fn closed_failure(reason: &str) -> (error: LlmError)
    ensures
        error@ == closed_error(reason@),
{
    let mut message = "stream error: ws closed mid-stream (".to_owned();
    message.append(reason);
    message.append(")");
    LlmError::HttpStatus(0, message)
}

/// What a frame says to a turn.
pub open spec fn frame_piece(frame: WsFrame) -> PieceView {
    match frame {
        WsFrame::Text(text) => match parsed_json(text@) {
            Ok(event) => PieceView::Event(event),
            Err(_) => PieceView::Ignored,
        },
        WsFrame::Close(close) => PieceView::Failed(closed_error(close_reason(close))),
        WsFrame::Other => PieceView::Ignored,
        WsFrame::Error(text) => PieceView::Failed(
            ErrorView::HttpStatus(0, "stream error: "@ + text@),
        ),
    }
}

/// What a frame says to a turn.
pub fn read_frame(frame: &WsFrame) -> (piece: Piece)
    ensures
        piece@ == frame_piece(*frame),
{
    match frame {
        WsFrame::Text(text) => match parse_json(text.as_str()) {
            Ok(event) => Piece::Event(event),
            Err(_) => Piece::Ignored,
        },
        WsFrame::Close(close) => {
            let reason = close_text(close);
            Piece::Failed(closed_failure(reason.as_str()))
        },
        WsFrame::Other => Piece::Ignored,
        WsFrame::Error(text) => {
            let mut message = "stream error: ".to_owned();
            message.append(text.as_str());
            Piece::Failed(LlmError::HttpStatus(0, message))
        },
    }
}

/// What the frames of a connection say to a turn; the connection is closed
/// behind the last.
pub open spec fn frame_pieces(frames: Seq<WsFrame>) -> Seq<PieceView> {
    frames.map_values(|frame: WsFrame| frame_piece(frame)).push(
        PieceView::Failed(closed_error("stream ended"@)),
    )
}

/// What the frames of a connection say to a turn.
pub fn read_frames(frames: &Vec<WsFrame>) -> (pieces: Vec<Piece>)
    ensures
        piece_views(pieces@) == frame_pieces(frames@),
{
    let ghost all = frames@.map_values(|frame: WsFrame| frame_piece(frame));
    let mut pieces: Vec<Piece> = Vec::new();
    let mut i: usize = 0;
    assert(piece_views(pieces@) =~= all.take(0));
    while i < frames.len()
        invariant
            i <= frames@.len(),
            all == frames@.map_values(|frame: WsFrame| frame_piece(frame)),
            piece_views(pieces@) == all.take(i as int),
        decreases frames.len() - i,
    {
        let ghost before = pieces@;
        let piece = read_frame(&frames[i]);
        pieces.push(piece);
        assert(piece_views(pieces@) =~= piece_views(before).push(piece@));
        i += 1;
        assert(piece_views(pieces@) =~= all.take(i as int));
    }
    assert(all.take(i as int) =~= all);
    let last = Piece::Failed(closed_failure("stream ended"));
    pieces.push(last);
    assert(piece_views(pieces@) =~= all.push(last@));
    pieces
}

/// A turn that was warmed up: the response that a later turn can go on from, and
/// what that turn has to begin with.
#[derive(Debug)]
pub struct PrewarmAnchor {
    pub response_id: String,
    pub context_items: Vec<ContextItem>,
    pub fingerprint: String,
}

/// A turn that was warmed up, as mathematics.
pub struct AnchorView {
    pub response_id: Seq<char>,
    pub context_items: Seq<ItemView>,
    pub fingerprint: Seq<char>,
}

impl View for PrewarmAnchor {
    type V = AnchorView;

    open spec fn view(&self) -> AnchorView {
        AnchorView {
            response_id: self.response_id@,
            context_items: item_views(self.context_items@),
            fingerprint: self.fingerprint@,
        }
    }
}

impl AnchorView {
    /// Whether a turn begins with the conversation that was warmed up.
    pub open spec fn begins(self, request: PayloadView) -> bool {
        self.context_items.is_prefix_of(request.context_items)
    }

    /// Whether a turn with a fingerprint can go on from the warmed up one.
    pub open spec fn fits(self, request: PayloadView, fingerprint: Seq<char>) -> bool {
        self.begins(request) && self.fingerprint == fingerprint
    }

    /// A turn that goes on from the warmed up one.
    pub open spec fn chained(self, request: PayloadView) -> PayloadView {
        PayloadView {
            previous_response: Some(
                PreviousView {
                    id: self.response_id,
                    next_item_index: self.context_items.len() as usize,
                    transport: Some(Transport::Websocket),
                },
            ),
            ..request
        }
    }
}

impl PrewarmAnchor {
    /// Whether a turn with a fingerprint can go on from the warmed up one.
    pub fn fits(&self, request: &PromptPayload, fingerprint: &str) -> (b: bool)
        ensures
            b == self@.fits(request@, fingerprint@),
    {
        let ghost warmed = item_views(self.context_items@);
        let ghost asked = item_views(request.context_items@);
        let n: usize = self.context_items.len();
        if request.context_items.len() < n {
            return false;
        }
        let mut i: usize = 0;
        while i < n
            invariant
                i <= n == self.context_items@.len() <= request.context_items@.len(),
                warmed == item_views(self.context_items@),
                asked == item_views(request.context_items@),
                self@.context_items == warmed && request@.context_items == asked,
                forall|j: int| 0 <= j < i ==> warmed[j] == asked[j],
            decreases n - i,
        {
            if !same_item(&self.context_items[i], &request.context_items[i]) {
                assert(warmed[i as int] != asked[i as int]);
                assert(asked.subrange(0, warmed.len() as int)[i as int] == asked[i as int]);
                return false;
            }
            i += 1;
        }
        assert(warmed.is_prefix_of(asked)) by {
            assert(asked.subrange(0, warmed.len() as int) =~= warmed);
        }
        same_text(self.fingerprint.as_str(), fingerprint)
    }

    /// Whether a turn can go on from the warmed up one.
    pub fn matches(&self, config: &ResponsesConfig, request: &PromptPayload) -> (b: bool)
        ensures
            b == self@.fits(request@, fingerprint_of(config@, request@)),
    {
        let fingerprint = ws_chain_fingerprint(config, request);
        self.fits(request, fingerprint.as_str())
    }
}

/// An open connection.
#[derive(Debug)]
pub struct WsConn {
    /// The credential that the connection was opened with.
    pub bearer: String,
    pub prewarm_anchor: Option<PrewarmAnchor>,
}

/// An open connection, as mathematics.
pub struct ConnView {
    pub bearer: Seq<char>,
    pub prewarm_anchor: Option<AnchorView>,
}

/// The view of an optional anchor.
pub open spec fn opt_anchor(anchor: Option<PrewarmAnchor>) -> Option<AnchorView> {
    match anchor {
        Some(anchor) => Some(anchor@),
        None => None,
    }
}

impl View for WsConn {
    type V = ConnView;

    open spec fn view(&self) -> ConnView {
        ConnView { bearer: self.bearer@, prewarm_anchor: opt_anchor(self.prewarm_anchor) }
    }
}

/// What came back for a turn.
#[derive(Debug)]
pub enum WsReply {
    /// The turn could not be sent.
    NotSent,
    Frames(Vec<WsFrame>),
}

/// A turn over a connection: what was sent, what was shown, and what came of it.
#[derive(Debug)]
pub struct WsRun {
    pub sent: String,
    pub updates: Vec<Update>,
    pub result: Result<StreamState, LlmError>,
}

/// What a stream over a connection comes to: it has to be complete.
pub open spec fn ws_result(reading: ReadingView) -> Result<StreamView, ErrorView> {
    match reading.end {
        Some(Ok(())) => Ok(reading.state),
        Some(Err(error)) => Err(error),
        None => Err(ErrorView::HttpStatus(0, "stream error: ws reader task gone"@)),
    }
}

/// What a reply to a turn says.
pub open spec fn ws_pieces(reply: WsReply) -> Seq<PieceView> {
    match reply {
        WsReply::NotSent => seq![
            PieceView::Failed(ErrorView::HttpStatus(0, "stream error: ws writer task gone"@)),
        ],
        WsReply::Frames(frames) => frame_pieces(frames@),
    }
}

/// Reads a reply to a turn.
pub fn run_envelope(extras: Extras, reply: &WsReply) -> (r: (
    Vec<Update>,
    Result<StreamState, LlmError>,
))
    ensures
        update_views(r.0@) == pieces_read(extras, ws_pieces(*reply)).updates,
        stream_result(r.1) == ws_result(pieces_read(extras, ws_pieces(*reply))),
{
    let pieces = match reply {
        WsReply::NotSent => {
            let mut pieces: Vec<Piece> = Vec::new();
            let last = Piece::Failed(
                LlmError::HttpStatus(0, "stream error: ws writer task gone".to_owned()),
            );
            pieces.push(last);
            assert(piece_views(pieces@) =~= ws_pieces(*reply));
            pieces
        },
        WsReply::Frames(frames) => read_frames(frames),
    };
    let reading = read_pieces(extras, pieces);
    match reading.end {
        Some(Ok(())) => (reading.updates, Ok(reading.state)),
        Some(Err(error)) => (reading.updates, Err(error)),
        None => (
            reading.updates,
            Err(LlmError::HttpStatus(0, "stream error: ws reader task gone".to_owned())),
        ),
    }
}

impl ConnView {
    /// The turn that is sent: one that goes on from the warmed up turn, where it
    /// can and does not go on from another.
    pub open spec fn chosen(self, config: ConfigView, request: PayloadView) -> PayloadView {
        match self.prewarm_anchor {
            Some(anchor) if request.previous_response is None && anchor.fits(
                request,
                fingerprint_of(config, request),
            ) => anchor.chained(request),
            _ => request,
        }
    }

    /// The connection after a turn: one that succeeded uses the warmed up turn
    /// up.
    pub open spec fn after_turn(self, result: Result<StreamView, ErrorView>) -> ConnView {
        if result is Ok {
            ConnView { prewarm_anchor: None, ..self }
        } else {
            self
        }
    }

    /// The connection after a turn was warmed up.
    pub open spec fn after_prewarm(
        self,
        config: ConfigView,
        request: PayloadView,
        result: Result<StreamView, ErrorView>,
    ) -> ConnView {
        match result {
            Ok(state) => ConnView {
                prewarm_anchor: match state.response_id {
                    Some(response_id) => Some(
                        AnchorView {
                            response_id,
                            context_items: request.context_items,
                            fingerprint: fingerprint_of(config, request),
                        },
                    ),
                    None => None,
                },
                ..self
            },
            Err(_) => self,
        }
    }
}

impl WsConn {
    /// What a connection is opened with, and the connection once it is open.
    pub fn connect(config: &ResponsesConfig) -> (r: Result<
        (String, Vec<(String, String)>, WsConn),
        LlmError,
    >)
        ensures
            match r {
                Ok((url, headers, conn)) => {
                    &&& ws_url_of(config@.base_url) == Ok::<Seq<char>, ErrorView>(url@)
                    &&& header_views(headers@) == ws_headers(config@)
                    &&& conn@ == (ConnView { bearer: config@.api_key, prewarm_anchor: None })
                },
                Err(error) => ws_url_of(config@.base_url) == Err::<Seq<char>, ErrorView>(error@),
            },
    {
        match build_ws_url(config.base_url.as_str()) {
            Ok(url) => {
                let headers = build_ws_headers(config);
                let conn = WsConn { bearer: config.api_key.clone(), prewarm_anchor: None };
                Ok((url, headers, conn))
            },
            Err(error) => Err(error),
        }
    }

    /// The turn that is sent.
    pub fn chosen_turn<'a>(&self, config: &ResponsesConfig, request: &PromptPayload<'a>) -> (chosen:
        PromptPayload<'a>)
        ensures
            chosen@ == self@.chosen(config@, request@),
    {
        if request.previous_response.is_none() {
            if let Some(anchor) = &self.prewarm_anchor {
                if anchor.matches(config, request) {
                    let previous = PreviousResponse {
                        id: anchor.response_id.clone(),
                        next_item_index: anchor.context_items.len(),
                        transport: Some(Transport::Websocket),
                    };
                    return with_previous(request, Some(previous));
                }
            }
            with_previous(request, None)
        } else {
            let previous = match &request.previous_response {
                Some(previous) => Some(previous.copy()),
                None => None,
            };
            with_previous(request, previous)
        }
    }

    /// A turn over the connection, given what came back.
    pub fn run_turn(
        &mut self,
        config: &ResponsesConfig,
        request: &PromptPayload,
        reply: &WsReply,
    ) -> (run: WsRun)
        ensures
            run.sent@ == written_object(
                ws_members(None, body_of(config@, old(self)@.chosen(config@, request@))),
            ),
            update_views(run.updates@) == pieces_read(
                config@.extras(),
                ws_pieces(*reply),
            ).updates,
            stream_result(run.result) == ws_result(
                pieces_read(config@.extras(), ws_pieces(*reply)),
            ),
            final(self)@ == old(self)@.after_turn(stream_result(run.result)),
    {
        let chosen = self.chosen_turn(config, request);
        let sent = write_object(&build_ws_envelope(config, &chosen));
        let (updates, result) = run_envelope(config.extras(), reply);
        if result.is_ok() {
            self.prewarm_anchor = None;
        }
        WsRun { sent, updates, result }
    }

    /// Warms up a turn over the connection, given what came back.
    pub fn run_prewarm(
        &mut self,
        config: &ResponsesConfig,
        request: &PromptPayload,
        reply: &WsReply,
    ) -> (run: WsRun)
        ensures
            run.sent@ == written_object(
                ws_members(
                    Some(false),
                    (BodyView { previous_response_id: None, ..body_of(config@, request@) }),
                ),
            ),
            run.updates@.len() == 0,
            stream_result(run.result) == ws_result(
                pieces_read(config@.extras(), ws_pieces(*reply)),
            ),
            final(self)@ == old(self)@.after_prewarm(
                config@,
                request@,
                stream_result(run.result),
            ),
    {
        let sent = write_object(&build_ws_prewarm_envelope(config, request));
        let fingerprint = ws_chain_fingerprint(config, request);
        let (_, result) = run_envelope(config.extras(), reply);
        if let Ok(state) = &result {
            self.prewarm_anchor = match &state.response_id {
                Some(response_id) => Some(
                    PrewarmAnchor {
                        response_id: response_id.clone(),
                        context_items: copy_items(request.context_items),
                        fingerprint,
                    },
                ),
                None => None,
            };
        }
        WsRun { sent, updates: Vec::new(), result }
    }
}

/// A turn that goes on from the warmed up one sends what was not warmed up, and
/// nothing else; together they are the whole conversation.
pub proof fn law_warm_turn_sends_the_rest(
    anchor: AnchorView,
    config: ConfigView,
    request: PayloadView,
)
    requires
        anchor.begins(request),
        request.previous_response is None,
        request.context_items.len() <= usize::MAX,
    ensures
        body_of(config, anchor.chained(request)).previous_response_id == Some(anchor.response_id),
        body_of(config, request).input == inputs_of(
            anchor.context_items,
            config.supports_phase,
        ) + body_of(config, anchor.chained(request)).input,
{
    let n = anchor.context_items.len() as int;
    assert(request.context_items.take(n) =~= anchor.context_items) by {
        assert(request.context_items.subrange(0, n) =~= anchor.context_items);
    }
    crate::provider::input::law_inputs_split(request.context_items, n, config.supports_phase);
    assert(request.context_items.skip(0) =~= request.context_items);
    assert(first_sent(anchor.chained(request)) == n);
}

/// A turn over a connection is not a success unless the server says that it is
/// complete.
pub proof fn law_ws_success_is_complete(extras: Extras, frames: Seq<WsFrame>)
    ensures
        ws_result(pieces_read(extras, frame_pieces(frames))) is Ok ==> (pieces_read(
            extras,
            frame_pieces(frames),
        ).end matches Some(Ok(_))),
        pieces_read(extras, frame_pieces(frames)).end is Some,
{
    let pieces = frame_pieces(frames);
    let front = pieces_read(extras, pieces.drop_last());
    assert(pieces.last() == PieceView::Failed(closed_error("stream ended"@)));
    assert(pieces_read(extras, pieces) == crate::provider::http::piece_read(front, pieces.last()));
}

} // verus!
