//! Requests over HTTP, and the streams that answer them.

use vstd::prelude::*;

use crate::json::{json_views, member, Json, JsonValue};
use crate::json_text::{written_json, written_object, parse_json, parsed_json, write_json};
use crate::provider::body::{
    body_members, body_of, compact_body_of, compact_request_text, request_text, with_previous,
};
use crate::provider::request::{PayloadView, PromptPayload};
use crate::provider::responses::{ConfigView, ResponsesConfig};
use crate::provider::stream::{
    applied, ErrorView, Extras, LlmError, StreamState, StreamView,
};
use crate::text::{
    after_prefix, contains, holds, opt_view, push_text, same_text, strip_prefix, views,
};

verus! {

/// A request over HTTP.
#[derive(Debug)]
pub struct HttpRequest {
    pub url: String,
    pub headers: Vec<(String, String)>,
    pub body: String,
}

/// A request over HTTP, as mathematics.
pub struct HttpRequestView {
    pub url: Seq<char>,
    pub headers: Seq<(Seq<char>, Seq<char>)>,
    pub body: Seq<char>,
}

/// The views of a list of headers.
pub open spec fn header_views(headers: Seq<(String, String)>) -> Seq<(Seq<char>, Seq<char>)> {
    headers.map_values(|h: (String, String)| (h.0@, h.1@))
}

impl View for HttpRequest {
    type V = HttpRequestView;

    open spec fn view(&self) -> HttpRequestView {
        HttpRequestView {
            url: self.url@,
            headers: header_views(self.headers@),
            body: self.body@,
        }
    }
}

/// Adds a header.
pub fn push_header(headers: &mut Vec<(String, String)>, name: &str, value: &str)
    ensures
        header_views(final(headers)@) == header_views(old(headers)@).push((name@, value@)),
{
    let ghost before = headers@;
    let name = name.to_owned();
    let value = value.to_owned();
    headers.push((name, value));
    assert(header_views(headers@) =~= header_views(before).push((name@, value@)));
}

/// The header that names the account, where there is one.
pub open spec fn account_header(account_id: Option<Seq<char>>) -> Seq<(Seq<char>, Seq<char>)> {
    match account_id {
        Some(account_id) => seq![("chatgpt-account-id"@, account_id)],
        None => seq![],
    }
}

/// The headers of a request that is answered by a stream.
pub open spec fn stream_headers(config: ConfigView) -> Seq<(Seq<char>, Seq<char>)> {
    seq![
        ("Content-Type"@, "application/json"@),
        ("Accept"@, "text/event-stream"@),
        ("Authorization"@, "Bearer "@ + config.api_key),
        ("OpenAI-Beta"@, "responses=experimental"@),
    ] + account_header(config.account_id)
}

/// The headers of a request that compacts a conversation.
pub open spec fn compact_headers(config: ConfigView) -> Seq<(Seq<char>, Seq<char>)> {
    seq![
        ("Content-Type"@, "application/json"@),
        ("Authorization"@, "Bearer "@ + config.api_key),
        ("OpenAI-Beta"@, "responses=experimental"@),
    ] + account_header(config.account_id)
}

/// The bearer credential as a header has it.
pub fn bearer(api_key: &str) -> (text: String)
    ensures
        text@ == "Bearer "@ + api_key@,
{
    let mut text = "Bearer ".to_owned();
    text.append(api_key);
    text
}

/// The request for a turn.
pub open spec fn turn_request(config: ConfigView, request: PayloadView) -> HttpRequestView {
    HttpRequestView {
        url: config.surface.responses_url_of(config.base_url),
        headers: stream_headers(config),
        body: written_object(body_members(body_of(config, request))),
    }
}

/// The request for a turn.
pub fn plan_turn_request(config: &ResponsesConfig, request: &PromptPayload) -> (planned: HttpRequest)
    ensures
        planned@ == turn_request(config@, request@),
{
    let token = bearer(config.api_key.as_str());
    let mut headers: Vec<(String, String)> = Vec::new();
    assert(header_views(headers@) =~= seq![]);
    push_header(&mut headers, "Content-Type", "application/json");
    push_header(&mut headers, "Accept", "text/event-stream");
    push_header(&mut headers, "Authorization", token.as_str());
    push_header(&mut headers, "OpenAI-Beta", "responses=experimental");
    if let Some(account_id) = &config.account_id {
        push_header(&mut headers, "chatgpt-account-id", account_id.as_str());
    }
    assert(header_views(headers@) =~= stream_headers(config@));
    HttpRequest {
        url: config.surface.responses_url(config.base_url.as_str()),
        headers,
        body: request_text(config, request),
    }
}

/// The request that compacts a conversation.
pub open spec fn compact_request(config: ConfigView, request: PayloadView) -> HttpRequestView {
    HttpRequestView {
        url: config.surface.compact_url_of(config.base_url),
        headers: compact_headers(config),
        body: written_object(body_members(compact_body_of(config, request))),
    }
}

/// The request that compacts a conversation.
pub fn plan_compact_request(config: &ResponsesConfig, request: &PromptPayload) -> (planned:
    HttpRequest)
    ensures
        planned@ == compact_request(config@, request@),
{
    let token = bearer(config.api_key.as_str());
    let mut headers: Vec<(String, String)> = Vec::new();
    assert(header_views(headers@) =~= seq![]);
    push_header(&mut headers, "Content-Type", "application/json");
    push_header(&mut headers, "Authorization", token.as_str());
    push_header(&mut headers, "OpenAI-Beta", "responses=experimental");
    if let Some(account_id) = &config.account_id {
        push_header(&mut headers, "chatgpt-account-id", account_id.as_str());
    }
    assert(header_views(headers@) =~= compact_headers(config@));
    HttpRequest {
        url: config.surface.compact_url(config.base_url.as_str()),
        headers,
        body: compact_request_text(config, request),
    }
}

/// One piece of a stream.
#[derive(Debug)]
pub enum Piece {
    /// Nothing that counts.
    Ignored,
    /// The stream ends.
    End,
    Event(JsonValue),
    /// The stream broke.
    Failed(LlmError),
}

/// One piece of a stream, as mathematics.
pub enum PieceView {
    Ignored,
    End,
    Event(Json),
    Failed(ErrorView),
}

impl View for Piece {
    type V = PieceView;

    open spec fn view(&self) -> PieceView {
        match self {
            Piece::Ignored => PieceView::Ignored,
            Piece::End => PieceView::End,
            Piece::Event(event) => PieceView::Event(event@),
            Piece::Failed(error) => PieceView::Failed(error@),
        }
    }
}

/// The views of a list of pieces.
pub open spec fn piece_views(pieces: Seq<Piece>) -> Seq<PieceView> {
    pieces.map_values(|p: Piece| p@)
}

/// What the user is shown while a response comes in.
#[derive(Debug, PartialEq, Eq)]
pub struct Update {
    pub text: String,
    pub thinking: Option<String>,
}

/// What the user is shown, as mathematics.
pub struct UpdateView {
    pub text: Seq<char>,
    pub thinking: Option<Seq<char>>,
}

impl View for Update {
    type V = UpdateView;

    open spec fn view(&self) -> UpdateView {
        UpdateView { text: self.text@, thinking: opt_view(self.thinking) }
    }
}

/// The views of a list of updates.
pub open spec fn update_views(updates: Seq<Update>) -> Seq<UpdateView> {
    updates.map_values(|u: Update| u@)
}

/// A stream that is being read, as mathematics.
pub struct ReadingView {
    pub state: StreamView,
    pub updates: Seq<UpdateView>,
    /// How the stream ended, once it has.
    pub end: Option<Result<(), ErrorView>>,
}

/// What one piece of a stream changes; nothing once the stream has ended.
pub open spec fn piece_read(reading: ReadingView, piece: PieceView) -> ReadingView {
    if reading.end is Some {
        reading
    } else {
        match piece {
            PieceView::Ignored => reading,
            PieceView::End => ReadingView { end: Some(Ok(())), ..reading },
            PieceView::Failed(error) => ReadingView { end: Some(Err(error)), ..reading },
            PieceView::Event(event) => {
                let next = applied(reading.state, event);
                ReadingView {
                    state: next.state,
                    updates: if next.updated {
                        reading.updates.push(
                            UpdateView { text: next.state.text(), thinking: next.state.thinking },
                        )
                    } else {
                        reading.updates
                    },
                    end: match next.outcome {
                        Ok(true) => Some(Ok(())),
                        Ok(false) => None,
                        Err(message) => Some(Err(ErrorView::HttpStatus(0, message))),
                    },
                }
            },
        }
    }
}

/// What the pieces of a stream come to.
pub open spec fn pieces_read(extras: Extras, pieces: Seq<PieceView>) -> ReadingView
    decreases pieces.len(),
{
    if pieces.len() == 0 {
        ReadingView { state: StreamView::taking(extras), updates: seq![], end: None }
    } else {
        piece_read(pieces_read(extras, pieces.drop_last()), pieces.last())
    }
}

/// Pieces behind the end of a stream change nothing.
pub proof fn lemma_end_is_final(extras: Extras, pieces: Seq<PieceView>, n: int)
    requires
        0 <= n <= pieces.len(),
        pieces_read(extras, pieces.take(n)).end is Some,
    ensures
        pieces_read(extras, pieces) == pieces_read(extras, pieces.take(n)),
    decreases pieces.len() - n,
{
    if n < pieces.len() {
        assert(pieces.take(n + 1).drop_last() =~= pieces.take(n));
        lemma_end_is_final(extras, pieces, n + 1);
    } else {
        assert(pieces.take(n) =~= pieces);
    }
}

/// A stream that is being read.
#[derive(Debug)]
pub struct Reading {
    pub state: StreamState,
    pub updates: Vec<Update>,
    pub end: Option<Result<(), LlmError>>,
}

/// The view of how a stream ended.
pub open spec fn end_view(end: Option<Result<(), LlmError>>) -> Option<Result<(), ErrorView>> {
    match end {
        Some(Ok(())) => Some(Ok(())),
        Some(Err(error)) => Some(Err(error@)),
        None => None,
    }
}

impl View for Reading {
    type V = ReadingView;

    open spec fn view(&self) -> ReadingView {
        ReadingView {
            state: self.state@,
            updates: update_views(self.updates@),
            end: end_view(self.end),
        }
    }
}

impl Reading {
    /// A stream of which nothing was read.
    pub fn new(extras: Extras) -> (reading: Reading)
        ensures
            reading@ == pieces_read(extras, seq![]),
    {
        let reading = Reading { state: StreamState::taking(extras), updates: Vec::new(), end: None };
        assert(reading@.updates =~= seq![]);
        reading
    }

    /// Reads one piece.
    pub fn read(&mut self, piece: Piece)
        ensures
            final(self)@ == piece_read(old(self)@, piece@),
    {
        if self.end.is_some() {
            return ;
        }
        match piece {
            Piece::Ignored => {},
            Piece::End => {
                self.end = Some(Ok(()));
            },
            Piece::Failed(error) => {
                self.end = Some(Err(error));
            },
            Piece::Event(event) => {
                match self.state.apply_event(&event) {
                    Ok(step) => {
                        if step.updated {
                            let ghost before = self.updates@;
                            let update = Update {
                                text: self.state.text(),
                                thinking: self.state.thinking.clone(),
                            };
                            self.updates.push(update);
                            assert(update_views(self.updates@) =~= update_views(before).push(
                                update@,
                            ));
                        }
                        if step.done {
                            self.end = Some(Ok(()));
                        }
                    },
                    Err(error) => {
                        self.end = Some(Err(error));
                    },
                }
            },
        }
    }
}

/// Reads the pieces of a stream.
pub fn read_pieces(extras: Extras, pieces: Vec<Piece>) -> (reading: Reading)
    ensures
        reading@ == pieces_read(extras, piece_views(pieces@)),
{
    let ghost all = piece_views(pieces@);
    let mut reading = Reading::new(extras);
    assert(all.take(0) =~= seq![]);
    for piece in iter: pieces
        invariant
            all == piece_views(iter.seq()),
            reading@ == pieces_read(extras, all.take(iter.index())),
    {
        let ghost i = iter.index();
        reading.read(piece);
        assert(all.take(i + 1).drop_last() =~= all.take(i));
        assert(all.take(i + 1).last() == piece@);
    }
    assert(all.take(all.len() as int) =~= all);
    reading
}

/// What a line of a stream says: its data as an event, where it holds some and
/// they can be read.
pub open spec fn line_piece(line: Seq<char>) -> PieceView {
    match after_prefix(line, "data: "@) {
        Some(data) => if data == "[DONE]"@ {
            PieceView::End
        } else {
            match parsed_json(data) {
                Ok(event) => PieceView::Event(event),
                Err(_) => PieceView::Ignored,
            }
        },
        None => PieceView::Ignored,
    }
}

/// What a line of a stream says.
pub fn read_line(line: &str) -> (piece: Piece)
    ensures
        piece@ == line_piece(line@),
{
    match strip_prefix(line, "data: ") {
        Some(data) => {
            if same_text(data.as_str(), "[DONE]") {
                Piece::End
            } else {
                match parse_json(data.as_str()) {
                    Ok(event) => Piece::Event(event),
                    Err(_) => Piece::Ignored,
                }
            }
        },
        None => Piece::Ignored,
    }
}

/// What came back for a request: why it failed, or the lines of its answer and
/// why they broke off, where they did.
#[derive(Debug)]
pub enum HttpReply {
    Failed(LlmError),
    Body { lines: Vec<String>, broken: Option<String> },
}

/// What came back for a request, as mathematics.
pub enum ReplyView {
    Failed(ErrorView),
    Body { lines: Seq<Seq<char>>, broken: Option<Seq<char>> },
}

impl View for HttpReply {
    type V = ReplyView;

    open spec fn view(&self) -> ReplyView {
        match self {
            HttpReply::Failed(error) => ReplyView::Failed(error@),
            HttpReply::Body { lines, broken } => ReplyView::Body {
                lines: views(lines@),
                broken: opt_view(*broken),
            },
        }
    }
}

/// What the lines of an answer say.
pub open spec fn line_pieces(lines: Seq<Seq<char>>) -> Seq<PieceView> {
    lines.map_values(|line: Seq<char>| line_piece(line))
}

/// What came back, as a stream.
pub open spec fn reply_pieces(reply: ReplyView) -> Seq<PieceView> {
    match reply {
        ReplyView::Failed(error) => seq![PieceView::Failed(error)],
        ReplyView::Body { lines, broken } => match broken {
            Some(why) => line_pieces(lines).push(PieceView::Failed(ErrorView::Io(why))),
            None => line_pieces(lines),
        },
    }
}

/// What came back, as a stream.
pub fn reply_stream(reply: HttpReply) -> (pieces: Vec<Piece>)
    ensures
        piece_views(pieces@) == reply_pieces(reply@),
{
    let mut pieces: Vec<Piece> = Vec::new();
    match reply {
        HttpReply::Failed(error) => {
            pieces.push(Piece::Failed(error));
            assert(piece_views(pieces@) =~= seq![PieceView::Failed(error@)]);
        },
        HttpReply::Body { lines, broken } => {
            let ghost all = line_pieces(views(lines@));
            let mut i: usize = 0;
            assert(piece_views(pieces@) =~= all.take(0));
            while i < lines.len()
                invariant
                    i <= lines@.len(),
                    all == line_pieces(views(lines@)),
                    piece_views(pieces@) == all.take(i as int),
                decreases lines.len() - i,
            {
                let ghost before = pieces@;
                let piece = read_line(lines[i].as_str());
                pieces.push(piece);
                assert(piece_views(pieces@) =~= piece_views(before).push(piece@));
                i += 1;
                assert(views(lines@)[i - 1] == lines@[i - 1]@);
                assert(piece_views(pieces@) =~= all.take(i as int));
            }
            assert(all.take(i as int) =~= all);
            if let Some(why) = broken {
                pieces.push(Piece::Failed(LlmError::Io(why)));
                assert(piece_views(pieces@) =~= all.push(PieceView::Failed(ErrorView::Io(why@))));
            }
        },
    }
    pieces
}

/// What a stream over HTTP comes to: it may end without a word.
pub open spec fn reading_result(reading: ReadingView) -> Result<StreamView, ErrorView> {
    match reading.end {
        Some(Err(error)) => Err(error),
        _ => Ok(reading.state),
    }
}

/// The view of a response or an error.
pub open spec fn stream_result(r: Result<StreamState, LlmError>) -> Result<StreamView, ErrorView> {
    match r {
        Ok(state) => Ok(state@),
        Err(error) => Err(error@),
    }
}

/// Whether an error says that the response to go on from is not known any more:
/// a refusal of the client's request that mentions it.
pub open spec fn is_stale(error: ErrorView) -> bool {
    match error {
        ErrorView::HttpStatus(code, body) => 400 <= code < 500 && holds(
            body,
            "previous_response"@,
        ),
        _ => false,
    }
}

/// Whether an error says that the response to go on from is not known any more.
pub fn is_stale_chain_error(error: &LlmError) -> (b: bool)
    ensures
        b == is_stale(error@),
{
    match error {
        LlmError::HttpStatus(code, body) => {
            400 <= *code && *code < 500 && contains(body.as_str(), "previous_response")
        },
        _ => false,
    }
}

/// The prompt that is sent in full once the response to go on from is refused.
pub open spec fn full_replay(request: PayloadView) -> PayloadView {
    PayloadView { previous_response: None, share_user_cache_key: false, ..request }
}

/// The prompt that is sent in full.
pub fn full_replay_request<'a>(request: &PromptPayload<'a>) -> (full: PromptPayload<'a>)
    ensures
        full@ == full_replay(request@),
{
    let mut full = with_previous(request, None);
    full.share_user_cache_key = false;
    full
}

/// A turn over HTTP: what was asked, what was shown, and what came of it.
#[derive(Debug)]
pub struct StreamRun {
    pub requests: Vec<HttpRequest>,
    pub updates: Vec<Update>,
    pub result: Result<StreamState, LlmError>,
}

/// A turn over HTTP, as mathematics.
pub struct StreamRunView {
    pub requests: Seq<HttpRequestView>,
    pub updates: Seq<UpdateView>,
    pub result: Result<StreamView, ErrorView>,
}

/// The views of a list of requests.
pub open spec fn request_views(requests: Seq<HttpRequest>) -> Seq<HttpRequestView> {
    requests.map_values(|r: HttpRequest| r@)
}

impl View for StreamRun {
    type V = StreamRunView;

    open spec fn view(&self) -> StreamRunView {
        StreamRunView {
            requests: request_views(self.requests@),
            updates: update_views(self.updates@),
            result: stream_result(self.result),
        }
    }
}

/// Whether a turn that went on from an earlier response has to be asked again in
/// full.
pub open spec fn wants_replay(chained: bool, first: ReadingView) -> bool {
    match reading_result(first) {
        Ok(_) => false,
        Err(error) => chained && is_stale(error),
    }
}

/// Whether a turn has to be asked again in full.
pub fn needs_full_replay(chained: bool, first: &Reading) -> (b: bool)
    ensures
        b == wants_replay(chained, first@),
{
    match &first.end {
        Some(Err(error)) => chained && is_stale_chain_error(error),
        _ => false,
    }
}

/// A response with the mark that the one it went on from was refused.
pub open spec fn marked_stale(result: Result<StreamView, ErrorView>) -> Result<
    StreamView,
    ErrorView,
> {
    match result {
        Ok(state) => Ok(StreamView { stale_chain_fallback: true, ..state }),
        Err(error) => Err(error),
    }
}

/// A turn over HTTP, given how its first stream was read and how a second would
/// be.
pub open spec fn turn_run(
    config: ConfigView,
    request: PayloadView,
    first: ReadingView,
    second: ReadingView,
) -> StreamRunView {
    if wants_replay(request.previous_response is Some, first) {
        StreamRunView {
            requests: seq![
                turn_request(config, request),
                turn_request(config, full_replay(request)),
            ],
            updates: first.updates + second.updates,
            result: marked_stale(reading_result(second)),
        }
    } else {
        StreamRunView {
            requests: seq![turn_request(config, request)],
            updates: first.updates,
            result: reading_result(first),
        }
    }
}

/// What a stream over HTTP comes to.
fn finish_reading(reading: Reading) -> (r: (Vec<Update>, Result<StreamState, LlmError>))
    ensures
        update_views(r.0@) == reading@.updates,
        stream_result(r.1) == reading_result(reading@),
{
    match reading.end {
        Some(Err(error)) => (reading.updates, Err(error)),
        _ => (reading.updates, Ok(reading.state)),
    }
}

/// Puts a turn together out of how its streams were read. The second counts only
/// where the first was refused as stale.
pub fn finish_turn(
    config: &ResponsesConfig,
    request: &PromptPayload,
    first: Reading,
    second: Reading,
) -> (run: StreamRun)
    ensures
        run@ == turn_run(config@, request@, first@, second@),
{
    let mut requests: Vec<HttpRequest> = Vec::new();
    let planned = plan_turn_request(config, request);
    requests.push(planned);
    assert(request_views(requests@) =~= seq![planned@]);
    if needs_full_replay(request.previous_response.is_some(), &first) {
        let full = full_replay_request(request);
        let again = plan_turn_request(config, &full);
        requests.push(again);
        assert(request_views(requests@) =~= seq![planned@, again@]);
        let (mut updates, _) = finish_reading(first);
        let (mut more, result) = finish_reading(second);
        let ghost one = updates@;
        let ghost two = more@;
        updates.append(&mut more);
        assert(update_views(updates@) =~= update_views(one) + update_views(two));
        let result = match result {
            Ok(state) => {
                let mut state = state;
                state.stale_chain_fallback = true;
                Ok(state)
            },
            Err(error) => Err(error),
        };
        StreamRun { requests, updates, result }
    } else {
        let (updates, result) = finish_reading(first);
        StreamRun { requests, updates, result }
    }
}

/// One request for a turn: what is asked, and how the stream that came back
/// reads.
pub fn responses_stream_once(config: &ResponsesConfig, request: &PromptPayload, reply: HttpReply) -> (r: (
    HttpRequest,
    Reading,
))
    ensures
        r.0@ == turn_request(config@, request@),
        r.1@ == pieces_read(config@.extras(), reply_pieces(reply@)),
{
    (plan_turn_request(config, request), read_pieces(config.extras(), reply_stream(reply)))
}

/// A turn over HTTP, given what came back for its request, and what would come
/// back for the request in full. Where the response that the turn goes on from
/// is refused, the turn is asked once more in full.
pub fn responses_stream(
    config: &ResponsesConfig,
    request: &PromptPayload,
    first: HttpReply,
    second: HttpReply,
) -> (run: StreamRun)
    ensures
        run@ == turn_run(
            config@,
            request@,
            pieces_read(config@.extras(), reply_pieces(first@)),
            pieces_read(config@.extras(), reply_pieces(second@)),
        ),
{
    let (_, first) = responses_stream_once(config, request, first);
    let full = full_replay_request(request);
    let (_, second) = responses_stream_once(config, &full, second);
    finish_turn(config, request, first, second)
}

/// The items that a compaction leaves, each as JSON.
pub open spec fn compacted_of(value: Json) -> Result<Seq<Seq<char>>, ErrorView> {
    match member(value, "output"@) {
        Some(Json::Array(items)) => Ok(items.map_values(|item: Json| written_json(item))),
        _ => Err(ErrorView::HttpStatus(0, "compaction response missing output"@)),
    }
}

/// The view of a list of texts or an error.
pub open spec fn texts_result(r: Result<Vec<String>, LlmError>) -> Result<
    Seq<Seq<char>>,
    ErrorView,
> {
    match r {
        Ok(texts) => Ok(views(texts@)),
        Err(error) => Err(error@),
    }
}

/// The items that a compaction leaves, each as JSON.
pub fn compacted_items(value: &JsonValue) -> (items: Result<Vec<String>, LlmError>)
    ensures
        texts_result(items) == compacted_of(value@),
{
    broadcast use crate::json::group_json_views;

    match crate::json::get(value, "output") {
        Some(JsonValue::Array(items)) => {
            let ghost all = json_views(items@).map_values(|item: Json| written_json(item));
            let mut texts: Vec<String> = Vec::new();
            let mut i: usize = 0;
            assert(views(texts@) =~= all.take(0));
            while i < items.len()
                invariant
                    i <= items@.len(),
                    all == json_views(items@).map_values(|item: Json| written_json(item)),
                    views(texts@) == all.take(i as int),
                decreases items.len() - i,
            {
                let text = write_json(&items[i]);
                push_text(&mut texts, text);
                assert(json_views(items@)[i as int] == items@[i as int]@);
                i += 1;
                assert(views(texts@) =~= all.take(i as int));
            }
            assert(all.take(i as int) =~= all);
            Ok(texts)
        },
        _ => Err(LlmError::HttpStatus(0, "compaction response missing output".to_owned())),
    }
}

/// What a compaction comes to, given the text that came back or why none did.
pub open spec fn compaction_of(reply: Result<Seq<char>, ErrorView>) -> Result<
    Seq<Seq<char>>,
    ErrorView,
> {
    match reply {
        Err(error) => Err(error),
        Ok(text) => match parsed_json(text) {
            Ok(value) => compacted_of(value),
            Err(message) => Err(ErrorView::Json(message)),
        },
    }
}

/// The view of a text or an error.
pub open spec fn text_reply(r: Result<String, LlmError>) -> Result<Seq<char>, ErrorView> {
    match r {
        Ok(text) => Ok(text@),
        Err(error) => Err(error@),
    }
}

/// A compaction: its request, and what comes of the text that came back.
pub fn responses_compact(
    config: &ResponsesConfig,
    request: &PromptPayload,
    reply: Result<String, LlmError>,
) -> (run: (HttpRequest, Result<Vec<String>, LlmError>))
    ensures
        run.0@ == compact_request(config@, request@),
        texts_result(run.1) == compaction_of(text_reply(reply)),
{
    let planned = plan_compact_request(config, request);
    let items = match reply {
        Err(error) => Err(error),
        Ok(text) => match parse_json(text.as_str()) {
            Ok(value) => compacted_items(&value),
            Err(message) => Err(LlmError::Json(message)),
        },
    };
    (planned, items)
}

/// A turn is asked at most twice, and a second time only in full and only where
/// it went on from a response that was refused.
pub proof fn law_full_replay_at_most_once(
    config: ConfigView,
    request: PayloadView,
    first: ReadingView,
    second: ReadingView,
)
    ensures
        ({
            let run = turn_run(config, request, first, second);
            &&& 1 <= run.requests.len() <= 2
            &&& run.requests[0] == turn_request(config, request)
            &&& run.requests.len() == 2 ==> {
                &&& run.requests[1] == turn_request(config, full_replay(request))
                &&& request.previous_response is Some
                &&& body_of(config, full_replay(request)).previous_response_id is None
                &&& reading_result(first) matches Err(error) && is_stale(error)
            }
            &&& request.previous_response is None ==> run.requests.len() == 1
            &&& reading_result(first) is Ok ==> run.result == reading_result(first)
        }),
{
}

/// The lines of a stream behind its end are not read.
pub proof fn law_nothing_is_read_behind_the_end(
    extras: Extras,
    pieces: Seq<PieceView>,
    more: Seq<PieceView>,
)
    requires
        pieces_read(extras, pieces).end is Some,
    ensures
        pieces_read(extras, pieces + more) == pieces_read(extras, pieces),
{
    assert((pieces + more).take(pieces.len() as int) =~= pieces);
    lemma_end_is_final(extras, pieces + more, pieces.len() as int);
}

} // verus!
