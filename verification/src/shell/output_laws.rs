//! Laws of what is reported of a shell command.

use vstd::prelude::*;

use vstd::utf8::{decode_utf8, encode_utf8, valid_utf8};

use crate::shell::capture::{
    has_short_lines, joined, law_capture_retains_both_ends, law_chunks_do_not_matter,
    law_text_comes_back, rendered_line, retains, CaptureView, ContentView, DecoderView,
    LineEndingKind, LineView, OutputStream,
};
use crate::shell::command::{
    after_rounds, capture_chunks, chunk_views, finished_output, round_step, wait_parts,
    ExitStatus, PlanView, StatusPoll, TerminationReason, WaitResult, WaitRound,
    WaitStep, WaitView,
};
use crate::shell::display::ToolUseStatus;
use crate::shell::truncate::{MAX_OUTPUT_BYTES, MAX_OUTPUT_LINES};
use crate::text::{join_of, utf8_len};
use crate::utf8::first_scalar_of;
use crate::value::{bool_field, field, lookup, text_field, Cbor};

verus! {

/// The lines of one stream among those of both.
pub open spec fn lines_from(all: Seq<LineView>, stream: OutputStream) -> Seq<ContentView>
    decreases all.len(),
{
    if all.len() == 0 {
        seq![]
    } else if all.last().stream == stream {
        lines_from(all.drop_last(), stream).push(all.last().content)
    } else {
        lines_from(all.drop_last(), stream)
    }
}

/// Lines of one stream.
pub open spec fn of_stream(stream: OutputStream, contents: Seq<ContentView>) -> Seq<LineView> {
    contents.map_values(|content: ContentView| LineView { stream, content })
}

proof fn lemma_lines_from_more(
    all: Seq<LineView>,
    stream: OutputStream,
    contents: Seq<ContentView>,
    other: OutputStream,
)
    ensures
        lines_from(all + of_stream(stream, contents), other) == if stream == other {
            lines_from(all, other) + contents
        } else {
            lines_from(all, other)
        },
    decreases contents.len(),
{
    let more = of_stream(stream, contents);
    if contents.len() == 0 {
        assert(all + more =~= all);
        assert(lines_from(all, other) + contents =~= lines_from(all, other));
    } else {
        let front = contents.drop_last();
        lemma_lines_from_more(all, stream, front, other);
        assert((all + more).drop_last() =~= all + of_stream(stream, front));
        assert((all + more).last() == LineView { stream, content: contents.last() });
        if stream == other {
            assert((lines_from(all, other) + front).push(contents.last()) =~= lines_from(all, other)
                + contents);
        }
    }
}

proof fn lemma_lines_add_up(all: Seq<LineView>)
    ensures
        lines_from(all, OutputStream::Stdout).len() + lines_from(all, OutputStream::Stderr).len()
            == all.len(),
    decreases all.len(),
{
    if all.len() > 0 {
        lemma_lines_add_up(all.drop_last());
    }
}

/// Lines that come are held as they should be, and leave the decoders alone.
proof fn lemma_push_lines(
    m: CaptureView,
    all: Seq<LineView>,
    stream: OutputStream,
    contents: Seq<ContentView>,
)
    requires
        retains(m, all),
        all.len() + contents.len() <= usize::MAX,
    ensures
        retains(m.push_lines(stream, contents), all + of_stream(stream, contents)),
        m.push_lines(stream, contents).stdout == m.stdout,
        m.push_lines(stream, contents).stderr == m.stderr,
    decreases contents.len(),
{
    let more = of_stream(stream, contents);
    if contents.len() == 0 {
        assert(all + more =~= all);
    } else {
        let front = contents.drop_last();
        lemma_push_lines(m, all, stream, front);
        let line = LineView { stream, content: contents.last() };
        law_capture_retains_both_ends(
            m.push_lines(stream, front),
            all + of_stream(stream, front),
            line,
        );
        assert((all + of_stream(stream, front)).push(line) =~= all + more);
    }
}

/// The lines that a decoder finishes are no more than the bytes it is given.
proof fn lemma_lines_are_few(m: DecoderView, bytes: Seq<u8>)
    ensures
        m.walk(bytes).1.len() + (if m.walk(bytes).0.cr {
            1nat
        } else {
            0nat
        }) <= bytes.len() + (if m.cr {
            1nat
        } else {
            0nat
        }),
    decreases bytes.len(),
{
    if bytes.len() > 0 {
        match first_scalar_of(bytes) {
            crate::utf8::Scalar::Char { c, len } => {
                let at = m.accept_char(c).0;
                if 0 < len <= bytes.len() {
                    lemma_lines_are_few(at, bytes.skip(len as int));
                }
            },
            crate::utf8::Scalar::Invalid { len } => {
                let at = m.accept_invalid().0;
                if 0 < len <= bytes.len() {
                    lemma_lines_are_few(at, bytes.skip(len as int));
                }
            },
            crate::utf8::Scalar::Incomplete => {},
        }
    }
}

proof fn lemma_fed_lines_are_few(bytes: Seq<u8>)
    ensures
        DecoderView::fresh().feed(bytes).1.len() <= bytes.len(),
{
    let fresh = DecoderView::fresh();
    assert(fresh.partial + bytes =~= bytes);
    assert((DecoderView { partial: seq![], ..fresh }) =~= fresh);
    lemma_lines_are_few(fresh, bytes);
}

/// Whether a capture holds what was written to both streams: the lines of each, and
/// what waits for the end of its line.
pub open spec fn has_captured(
    m: CaptureView,
    out: Seq<u8>,
    err: Seq<u8>,
    all: Seq<LineView>,
) -> bool {
    &&& retains(m, all)
    &&& (m.stdout, lines_from(all, OutputStream::Stdout)) == DecoderView::fresh().feed(out)
    &&& (m.stderr, lines_from(all, OutputStream::Stderr)) == DecoderView::fresh().feed(err)
}

/// Nothing was written to a fresh capture.
proof fn lemma_fresh_captured()
    ensures
        has_captured(CaptureView::fresh(), seq![], seq![], seq![]),
{
    let fresh = DecoderView::fresh();
    let none = Seq::<u8>::empty();
    assert(fresh.partial + none =~= none);
    assert((DecoderView { partial: seq![], ..fresh }) =~= fresh);
    assert(fresh.feed(none).1 =~= seq![]);
}

/// What is written to a stream is captured as part of that stream: a chunk adds the
/// lines that it finishes, in their order, behind all that came before.
pub proof fn law_chunk_is_captured(
    m: CaptureView,
    out: Seq<u8>,
    err: Seq<u8>,
    all: Seq<LineView>,
    stream: OutputStream,
    chunk: Seq<u8>,
) -> (after: Seq<LineView>)
    requires
        has_captured(m, out, err, all),
        out.len() + err.len() + chunk.len() <= usize::MAX,
    ensures
        all.is_prefix_of(after),
        match stream {
            OutputStream::Stdout => has_captured(
                m.push_bytes(stream, chunk),
                out + chunk,
                err,
                after,
            ),
            OutputStream::Stderr => has_captured(
                m.push_bytes(stream, chunk),
                out,
                err + chunk,
                after,
            ),
        },
{
    let fresh = DecoderView::fresh();
    let decoder = match stream {
        OutputStream::Stdout => m.stdout,
        OutputStream::Stderr => m.stderr,
    };
    let lines = decoder.feed(chunk).1;
    let after = all + of_stream(stream, lines);
    lemma_lines_from_more(all, stream, lines, OutputStream::Stdout);
    lemma_lines_from_more(all, stream, lines, OutputStream::Stderr);
    lemma_lines_add_up(all);
    lemma_lines_add_up(after);
    lemma_fed_lines_are_few(out);
    lemma_fed_lines_are_few(err);
    match stream {
        OutputStream::Stdout => {
            law_chunks_do_not_matter(fresh, out, chunk);
            lemma_fed_lines_are_few(out + chunk);
            let fed = CaptureView { stdout: m.stdout.feed(chunk).0, ..m };
            lemma_push_lines(fed, all, stream, lines);
        },
        OutputStream::Stderr => {
            law_chunks_do_not_matter(fresh, err, chunk);
            lemma_fed_lines_are_few(err + chunk);
            let fed = CaptureView { stderr: m.stderr.feed(chunk).0, ..m };
            lemma_push_lines(fed, all, stream, lines);
        },
    }
    assert(after.subrange(0, all.len() as int) =~= all);
    after
}

/// Whether a capture holds what was written to both streams.
pub open spec fn holds_written(m: CaptureView, out: Seq<u8>, err: Seq<u8>) -> bool {
    exists|all: Seq<LineView>| has_captured(m, out, err, all)
}

proof fn lemma_chunks_are_captured(
    m: CaptureView,
    out: Seq<u8>,
    err: Seq<u8>,
    stream: OutputStream,
    chunks: Seq<Seq<u8>>,
)
    requires
        holds_written(m, out, err),
        out.len() + err.len() + chunks.flatten().len() <= usize::MAX,
    ensures
        match stream {
            OutputStream::Stdout => holds_written(
                capture_chunks(m, stream, chunks),
                out + chunks.flatten(),
                err,
            ),
            OutputStream::Stderr => holds_written(
                capture_chunks(m, stream, chunks),
                out,
                err + chunks.flatten(),
            ),
        },
    decreases chunks.len(),
{
    if chunks.len() == 0 {
        assert(chunks.flatten() =~= seq![]);
        assert(out + chunks.flatten() =~= out);
        assert(err + chunks.flatten() =~= err);
    } else {
        let front = chunks.drop_last();
        front.lemma_flatten_push(chunks.last());
        assert(front.push(chunks.last()) =~= chunks);
        lemma_chunks_are_captured(m, out, err, stream, front);
        let before = capture_chunks(m, stream, front);
        match stream {
            OutputStream::Stdout => {
                let all = choose|all: Seq<LineView>|
                    has_captured(before, out + front.flatten(), err, all);
                let after = law_chunk_is_captured(
                    before,
                    out + front.flatten(),
                    err,
                    all,
                    stream,
                    chunks.last(),
                );
                assert((out + front.flatten()) + chunks.last() =~= out + chunks.flatten());
                assert(has_captured(
                    capture_chunks(m, stream, chunks),
                    out + chunks.flatten(),
                    err,
                    after,
                ));
            },
            OutputStream::Stderr => {
                let all = choose|all: Seq<LineView>|
                    has_captured(before, out, err + front.flatten(), all);
                let after = law_chunk_is_captured(
                    before,
                    out,
                    err + front.flatten(),
                    all,
                    stream,
                    chunks.last(),
                );
                assert((err + front.flatten()) + chunks.last() =~= err + chunks.flatten());
                assert(has_captured(
                    capture_chunks(m, stream, chunks),
                    out,
                    err + chunks.flatten(),
                    after,
                ));
            },
        }
    }
}

/// What comes out of both pipes while they are open is captured, each as part of
/// its own stream.
pub proof fn law_open_pipes_are_captured(
    wait: WaitView,
    out: Seq<u8>,
    err: Seq<u8>,
    stdout: Seq<Seq<u8>>,
    stdout_closed: bool,
    stderr: Seq<Seq<u8>>,
    stderr_closed: bool,
)
    requires
        holds_written(wait.output, out, err),
        wait.stdout_open || stdout.len() == 0,
        wait.stderr_open || stderr.len() == 0,
        out.len() + err.len() + stdout.flatten().len() + stderr.flatten().len() <= usize::MAX,
    ensures
        holds_written(
            wait.read(stdout, stdout_closed, stderr, stderr_closed).output,
            out + stdout.flatten(),
            err + stderr.flatten(),
        ),
        wait.read(stdout, stdout_closed, stderr, stderr_closed).stdout_open == (wait.stdout_open
            && !stdout_closed),
        wait.read(stdout, stdout_closed, stderr, stderr_closed).stderr_open == (wait.stderr_open
            && !stderr_closed),
{
    let none = Seq::<Seq<u8>>::empty();
    assert(none.flatten() =~= seq![]);
    assert(out + none.flatten() =~= out);
    assert(err + none.flatten() =~= err);
    if wait.stdout_open {
        lemma_chunks_are_captured(wait.output, out, err, OutputStream::Stdout, stdout);
    } else {
        assert(stdout =~= none);
    }
    let first = if wait.stdout_open {
        capture_chunks(wait.output, OutputStream::Stdout, stdout)
    } else {
        wait.output
    };
    if wait.stderr_open {
        lemma_chunks_are_captured(
            first,
            out + stdout.flatten(),
            err,
            OutputStream::Stderr,
            stderr,
        );
    } else {
        assert(stderr =~= none);
    }
}

/// What came out of a pipe over some rounds.
pub open spec fn written_in(rounds: Seq<WaitRound>, stream: OutputStream) -> Seq<u8>
    decreases rounds.len(),
{
    if rounds.len() == 0 {
        seq![]
    } else {
        written_in(rounds.drop_last(), stream) + chunk_views(
            match stream {
                OutputStream::Stdout => rounds.last().stdout.chunks@,
                OutputStream::Stderr => rounds.last().stderr.chunks@,
            },
        ).flatten()
    }
}

/// Whether nothing comes out of a pipe once its end was reached.
pub open spec fn pipes_end_once(rounds: Seq<WaitRound>) -> bool {
    forall|i: int, j: int|
        #![trigger rounds[i], rounds[j]]
        0 <= i < j < rounds.len() ==> (rounds[i].stdout.closed ==> rounds[j].stdout.chunks@.len()
            == 0) && (rounds[i].stderr.closed ==> rounds[j].stderr.chunks@.len() == 0)
}

/// Whether a pipe is open after some rounds.
pub open spec fn is_open(rounds: Seq<WaitRound>, stream: OutputStream) -> bool {
    forall|i: int|
        0 <= i < rounds.len() ==> match stream {
            OutputStream::Stdout => !(#[trigger] rounds[i]).stdout.closed,
            OutputStream::Stderr => !rounds[i].stderr.closed,
        }
}

/// Everything that a command writes is captured until the wait for it is over.
pub proof fn law_everything_written_is_captured(start: WaitView, rounds: Seq<WaitRound>)
    requires
        start.output == CaptureView::fresh(),
        start.stdout_open,
        start.stderr_open,
        pipes_end_once(rounds),
        rounds.len() > 0 ==> !after_rounds(start, rounds.drop_last()).1,
        written_in(rounds, OutputStream::Stdout).len() + written_in(
            rounds,
            OutputStream::Stderr,
        ).len() <= usize::MAX,
    ensures
        holds_written(
            after_rounds(start, rounds).0.output,
            written_in(rounds, OutputStream::Stdout),
            written_in(rounds, OutputStream::Stderr),
        ),
        after_rounds(start, rounds).0.stdout_open == is_open(rounds, OutputStream::Stdout),
        after_rounds(start, rounds).0.stderr_open == is_open(rounds, OutputStream::Stderr),
    decreases rounds.len(),
{
    if rounds.len() == 0 {
        lemma_fresh_captured();
        assert(has_captured(start.output, seq![], seq![], seq![]));
    } else {
        let front = rounds.drop_last();
        let last = rounds.last();
        assert(pipes_end_once(front)) by {
            assert forall|i: int, j: int|
                #![trigger front[i], front[j]]
                0 <= i < j < front.len() implies (front[i].stdout.closed
                ==> front[j].stdout.chunks@.len() == 0) && (front[i].stderr.closed
                ==> front[j].stderr.chunks@.len() == 0) by {
                assert(front[i] == rounds[i] && front[j] == rounds[j]);
            }
        }
        law_everything_written_is_captured(start, front);
        let before = after_rounds(start, front).0;
        let n = rounds.len() - 1;
        if !before.stdout_open {
            let i = choose|i: int|
                0 <= i < front.len() && (#[trigger] front[i]).stdout.closed;
            assert(rounds[i] == front[i] && rounds[n] == last);
            assert(last.stdout.chunks@.len() == 0);
        }
        if !before.stderr_open {
            let i = choose|i: int|
                0 <= i < front.len() && (#[trigger] front[i]).stderr.closed;
            assert(rounds[i] == front[i] && rounds[n] == last);
            assert(last.stderr.chunks@.len() == 0);
        }
        law_open_pipes_are_captured(
            before,
            written_in(front, OutputStream::Stdout),
            written_in(front, OutputStream::Stderr),
            chunk_views(last.stdout.chunks@),
            last.stdout.closed,
            chunk_views(last.stderr.chunks@),
            last.stderr.closed,
        );
        let after = after_rounds(start, rounds).0;
        assert(after == round_step(before, last).0);
        assert(is_open(rounds, OutputStream::Stdout) == (is_open(front, OutputStream::Stdout)
            && !last.stdout.closed)) by {
            assert(rounds[n] == last);
            if is_open(front, OutputStream::Stdout) && !last.stdout.closed {
                assert forall|i: int| 0 <= i < rounds.len() implies !(
                #[trigger] rounds[i]).stdout.closed by {
                    if i < n {
                        assert(front[i] == rounds[i]);
                    }
                }
            }
            if is_open(rounds, OutputStream::Stdout) {
                assert forall|i: int| 0 <= i < front.len() implies !(
                #[trigger] front[i]).stdout.closed by {
                    assert(front[i] == rounds[i]);
                }
            }
        }
        assert(is_open(rounds, OutputStream::Stderr) == (is_open(front, OutputStream::Stderr)
            && !last.stderr.closed)) by {
            assert(rounds[n] == last);
            if is_open(front, OutputStream::Stderr) && !last.stderr.closed {
                assert forall|i: int| 0 <= i < rounds.len() implies !rounds[i].stderr.closed by {
                    if i < n {
                        assert(front[i] == rounds[i]);
                    }
                }
            }
            if is_open(rounds, OutputStream::Stderr) {
                assert forall|i: int| 0 <= i < front.len() implies !front[i].stderr.closed by {
                    assert(front[i] == rounds[i]);
                }
            }
        }
    }
}

/// The output of a command when it is over: both streams come to their end.
pub open spec fn at_end(m: CaptureView) -> CaptureView {
    m.end_stream(OutputStream::Stdout).end_stream(OutputStream::Stderr)
}

/// The lines of a text in the UTF-8 of one stream, from its start to its end.
pub open spec fn whole_lines(bytes: Seq<u8>) -> Seq<ContentView> {
    let (fed, first) = DecoderView::fresh().feed(bytes);
    first + fed.end().1
}

/// When a command is over, the lines of each stream are those of all that was
/// written to it; nothing was lost, and nothing got into the other stream.
pub proof fn law_every_line_is_held(m: CaptureView, out: Seq<u8>, err: Seq<u8>) -> (all: Seq<
    LineView,
>)
    requires
        holds_written(m, out, err),
        out.len() + err.len() + 8 <= usize::MAX,
    ensures
        retains(at_end(m), all),
        lines_from(all, OutputStream::Stdout) == whole_lines(out),
        lines_from(all, OutputStream::Stderr) == whole_lines(err),
{
    let all = choose|all: Seq<LineView>| has_captured(m, out, err, all);
    lemma_lines_add_up(all);
    lemma_fed_lines_are_few(out);
    lemma_fed_lines_are_few(err);
    let (ended, last) = m.stdout.end();
    assert(last.len() <= 3);
    let first = CaptureView { stdout: ended, ..m };
    lemma_push_lines(first, all, OutputStream::Stdout, last);
    let with_out = all + of_stream(OutputStream::Stdout, last);
    lemma_lines_from_more(all, OutputStream::Stdout, last, OutputStream::Stdout);
    lemma_lines_from_more(all, OutputStream::Stdout, last, OutputStream::Stderr);
    let middle = m.end_stream(OutputStream::Stdout);
    let (err_ended, err_last) = middle.stderr.end();
    assert(err_last.len() <= 3);
    let second = CaptureView { stderr: err_ended, ..middle };
    lemma_push_lines(second, with_out, OutputStream::Stderr, err_last);
    let whole = with_out + of_stream(OutputStream::Stderr, err_last);
    lemma_lines_from_more(with_out, OutputStream::Stderr, err_last, OutputStream::Stdout);
    lemma_lines_from_more(with_out, OutputStream::Stderr, err_last, OutputStream::Stderr);
    whole
}

/// The lines of a text are all of it: put together with their endings, they are the
/// bytes that were written.
pub proof fn law_lines_are_the_text(bytes: Seq<u8>)
    requires
        valid_utf8(bytes),
        has_short_lines(decode_utf8(bytes)),
    ensures
        encode_utf8(joined(whole_lines(bytes))) == bytes,
        forall|i: int| 0 <= i < whole_lines(bytes).len() ==> (#[trigger] whole_lines(bytes)[i]) is Text,
{
    law_text_comes_back(bytes);
}

/// A line is shown behind the word for its stream: that of standard output or that
/// of standard error. What is out of the ordinary with its end is said in brackets.
pub proof fn law_line_is_shown_with_its_stream(text: Seq<char>)
    ensures
        ({
            let ended = ContentView::Text { text, ending: Some(LineEndingKind::Lf) };
            let open = ContentView::Text { text, ending: None };
            let windows = ContentView::Text { text, ending: Some(LineEndingKind::Crlf) };
            let mac = ContentView::Text { text, ending: Some(LineEndingKind::Cr) };
            let out = OutputStream::Stdout;
            let err = OutputStream::Stderr;
            &&& rendered_line(LineView { stream: out, content: ended }) == "out "@ + text
            &&& rendered_line(LineView { stream: err, content: ended }) == "err "@ + text
            &&& rendered_line(LineView { stream: out, content: open }) == "out(no_nl) "@ + text
            &&& rendered_line(LineView { stream: err, content: open }) == "err(no_nl) "@ + text
            &&& rendered_line(LineView { stream: out, content: windows }) == "out(crlf) "@ + text
            &&& rendered_line(LineView { stream: err, content: windows }) == "err(crlf) "@ + text
            &&& rendered_line(LineView { stream: out, content: mac }) == "out(cr) "@ + text
            &&& rendered_line(LineView { stream: err, content: mac }) == "err(cr) "@ + text
        }),
{
    reveal_strlit("out");
    reveal_strlit("err");
    reveal_strlit(" ");
    reveal_strlit("(");
    reveal_strlit(") ");
    reveal_strlit("no_nl");
    reveal_strlit("crlf");
    reveal_strlit("cr");
    reveal_strlit("out ");
    reveal_strlit("err ");
    reveal_strlit("out(no_nl) ");
    reveal_strlit("err(no_nl) ");
    reveal_strlit("out(crlf) ");
    reveal_strlit("err(crlf) ");
    reveal_strlit("out(cr) ");
    reveal_strlit("err(cr) ");
    assert("out "@ + text =~= "out"@ + " "@ + text);
    assert("err "@ + text =~= "err"@ + " "@ + text);
    assert("out(no_nl) "@ + text =~= "out"@ + "("@ + "no_nl"@ + ") "@ + text);
    assert("err(no_nl) "@ + text =~= "err"@ + "("@ + "no_nl"@ + ") "@ + text);
    assert("out(crlf) "@ + text =~= "out"@ + "("@ + "crlf"@ + ") "@ + text);
    assert("err(crlf) "@ + text =~= "err"@ + "("@ + "crlf"@ + ") "@ + text);
    assert("out(cr) "@ + text =~= "out"@ + "("@ + "cr"@ + ") "@ + text);
    assert("err(cr) "@ + text =~= "err"@ + "("@ + "cr"@ + ") "@ + text);
}

/// Lines as they are shown.
pub open spec fn shown_lines(all: Seq<LineView>) -> Seq<Seq<char>> {
    all.map_values(|line: LineView| rendered_line(line))
}

/// What is found among entries and others behind them.
proof fn lemma_found_in_two(a: Seq<(Cbor, Cbor)>, b: Seq<(Cbor, Cbor)>, key: Seq<char>)
    ensures
        lookup(a + b, key) == match lookup(a, key) {
            Some(value) => Some(value),
            None => lookup(b, key),
        },
    decreases a.len(),
{
    if a.len() == 0 {
        assert(a + b =~= b);
    } else {
        assert((a + b).drop_first() =~= a.drop_first() + b);
        lemma_found_in_two(a.drop_first(), b, key);
    }
}

/// What is found of one entry or none.
proof fn lemma_found_in_one(b: bool, k: &str, value: Cbor, number: Option<int>, key: Seq<char>)
    ensures
        lookup(crate::value::entry_if(b, k, value), key) == if b && k@ == key {
            Some(value)
        } else {
            None
        },
        lookup(crate::shell::command::int_entry(k, number), key) == match number {
            Some(n) if k@ == key => Some(Cbor::Integer(n)),
            _ => None,
        },
        lookup(seq![crate::value::entry(k, value)], key) == if k@ == key {
            Some(value)
        } else {
            None
        },
{
    let none = Seq::<(Cbor, Cbor)>::empty();
    assert(lookup(none, key) is None);
    assert(seq![crate::value::entry(k, value)].drop_first() =~= none);
    if let Some(n) = number {
        assert(seq![crate::value::entry(k, Cbor::Integer(n))].drop_first() =~= none);
    }
}

/// What the report of a command says.
#[verifier::rlimit(60)]
#[verifier::spinoff_prover]
proof fn lemma_report(plan: PlanView, wait: WaitResult, elapsed_nanos: u128)
    ensures
        ({
            let report = finished_output(plan, wait, elapsed_nanos).result;
            let capture = wait.output@;
            &&& text_field(report, "output"@) == Some(
                crate::shell::truncate::truncated_content(
                    capture.shown(),
                    capture.total_lines as nat,
                ),
            )
            &&& field(report, "status"@) == match wait.status_code {
                Some(code) => Some(Cbor::Integer(code as int)),
                None => None,
            }
            &&& field(report, "signal"@) == match wait.signal {
                Some(code) => Some(Cbor::Integer(code as int)),
                None => None,
            }
            &&& (bool_field(report, "timed_out"@) == Some(true)) == wait.timed_out
            &&& (bool_field(report, "truncated"@) == Some(true))
                == crate::shell::truncate::is_truncated(
                capture.shown(),
                capture.total_lines as nat,
                capture.reported_bytes(),
            )
            &&& (bool_field(report, "valid_utf8"@) == Some(false)) == wait.had_invalid_utf8
        }),
{
    reveal_strlit("output");
    reveal_strlit("valid_utf8");
    reveal_strlit("timed_out");
    reveal_strlit("termination_reason");
    reveal_strlit("truncated");
    reveal_strlit("total_lines");
    reveal_strlit("total_bytes");
    reveal_strlit("status");
    reveal_strlit("signal");
    reveal_strlit("duration_seconds");
    assert("output"@.len() == 6 && "status"@.len() == 6 && "signal"@.len() == 6);
    assert("output"@[1] == 'u' && "status"@[1] == 't' && "signal"@[1] == 'i');
    assert("valid_utf8"@.len() == 10 && "timed_out"@.len() == 9 && "truncated"@.len() == 9);
    assert("timed_out"@[1] == 'i' && "truncated"@[1] == 'r');
    assert("termination_reason"@.len() == 18 && "total_lines"@.len() == 11
        && "total_bytes"@.len() == 11 && "duration_seconds"@.len() == 16);
    let capture = wait.output@;
    let content = crate::shell::truncate::truncated_content(
        capture.shown(),
        capture.total_lines as nat,
    );
    let cut = crate::shell::truncate::is_truncated(
        capture.shown(),
        capture.total_lines as nat,
        capture.reported_bytes(),
    );
    let entries = finished_output(plan, wait, elapsed_nanos).result->Dict_0;
    let keys = seq!["output"@, "status"@, "signal"@, "timed_out"@, "truncated"@, "valid_utf8"@];
    let odd = wait.timed_out || wait.signal is Some || wait.status_code != Some(0i32)
        || wait.termination_reason != TerminationReason::Exit;
    let reason = Cbor::Text(crate::shell::command::reason_text(wait.termination_reason));
    let lines = if cut {
        Some(crate::shell::command::as_i64(capture.total_lines as int))
    } else {
        None
    };
    let bytes = if cut {
        Some(crate::shell::command::as_i64(capture.reported_bytes() as usize as int))
    } else {
        None
    };
    let status = match wait.status_code {
        Some(n) => Some(n as int),
        None => None,
    };
    let signal = match wait.signal {
        Some(n) => Some(n as int),
        None => None,
    };
    let seconds = match crate::shell::command::slow_seconds(elapsed_nanos) {
        Some(n) => Some(crate::shell::command::as_i64(n as int)),
        None => None,
    };
    let p1 = seq![crate::value::entry("output", Cbor::Text(content))];
    let p2 = crate::value::entry_if(wait.had_invalid_utf8, "valid_utf8", Cbor::Bool(false));
    let p3 = crate::value::entry_if(wait.timed_out, "timed_out", Cbor::Bool(true));
    let p4 = crate::value::entry_if(odd, "termination_reason", reason);
    let p5 = crate::value::entry_if(cut, "truncated", Cbor::Bool(true));
    let p6 = crate::shell::command::int_entry("total_lines", lines);
    let p7 = crate::shell::command::int_entry("total_bytes", bytes);
    let p8 = crate::shell::command::int_entry("status", status);
    let p9 = crate::shell::command::int_entry("signal", signal);
    let p10 = crate::shell::command::int_entry("duration_seconds", seconds);
    let s2 = p1 + p2;
    let s3 = s2 + p3;
    let s4 = s3 + p4;
    let s5 = s4 + p5;
    let s6 = s5 + p6;
    let s7 = s6 + p7;
    let s8 = s7 + p8;
    let s9 = s8 + p9;
    assert(entries == s9 + p10);
    assert forall|i: int| 0 <= i < keys.len() implies lookup(entries, #[trigger] keys[i]) == (
    if i == 0 {
        Some(Cbor::Text(content))
    } else if i == 1 {
        match status {
            Some(n) => Some(Cbor::Integer(n)),
            None => None,
        }
    } else if i == 2 {
        match signal {
            Some(n) => Some(Cbor::Integer(n)),
            None => None,
        }
    } else if i == 3 {
        if wait.timed_out {
            Some(Cbor::Bool(true))
        } else {
            None
        }
    } else if i == 4 {
        if cut {
            Some(Cbor::Bool(true))
        } else {
            None
        }
    } else {
        if wait.had_invalid_utf8 {
            Some(Cbor::Bool(false))
        } else {
            None
        }
    }) by {
        let key = keys[i];
        lemma_found_in_two(p1, p2, key);
        lemma_found_in_two(s2, p3, key);
        lemma_found_in_two(s3, p4, key);
        lemma_found_in_two(s4, p5, key);
        lemma_found_in_two(s5, p6, key);
        lemma_found_in_two(s6, p7, key);
        lemma_found_in_two(s7, p8, key);
        lemma_found_in_two(s8, p9, key);
        lemma_found_in_two(s9, p10, key);
        lemma_found_in_one(true, "output", Cbor::Text(content), None, key);
        lemma_found_in_one(wait.had_invalid_utf8, "valid_utf8", Cbor::Bool(false), None, key);
        lemma_found_in_one(wait.timed_out, "timed_out", Cbor::Bool(true), None, key);
        lemma_found_in_one(odd, "termination_reason", reason, None, key);
        lemma_found_in_one(cut, "truncated", Cbor::Bool(true), None, key);
        lemma_found_in_one(true, "total_lines", Cbor::Null, lines, key);
        lemma_found_in_one(true, "total_bytes", Cbor::Null, bytes, key);
        lemma_found_in_one(true, "status", Cbor::Null, status, key);
        lemma_found_in_one(true, "signal", Cbor::Null, signal, key);
        lemma_found_in_one(true, "duration_seconds", Cbor::Null, seconds, key);
    }
    assert(keys[0] == "output"@ && keys[1] == "status"@ && keys[2] == "signal"@ && keys[3]
        == "timed_out"@ && keys[4] == "truncated"@ && keys[5] == "valid_utf8"@);
}

/// The report of a command holds its output: where it is not too long, every line
/// that was captured of either stream, in the order in which they came. It tells the
/// exit status, the signal and whether the time was up.
pub proof fn law_report_tells_the_output(
    plan: PlanView,
    wait: WaitResult,
    elapsed_nanos: u128,
    all: Seq<LineView>,
)
    requires
        retains(wait.output@, all),
        all.len() <= MAX_OUTPUT_LINES,
        utf8_len(join_of(shown_lines(all), "\n"@)) <= MAX_OUTPUT_BYTES,
    ensures
        ({
            let report = finished_output(plan, wait, elapsed_nanos).result;
            &&& text_field(report, "output"@) == Some(join_of(shown_lines(all), "\n"@))
            &&& field(report, "status"@) == match wait.status_code {
                Some(code) => Some(Cbor::Integer(code as int)),
                None => None,
            }
            &&& field(report, "signal"@) == match wait.signal {
                Some(code) => Some(Cbor::Integer(code as int)),
                None => None,
            }
            &&& (bool_field(report, "timed_out"@) == Some(true)) == wait.timed_out
            &&& (bool_field(report, "valid_utf8"@) == Some(false)) == wait.had_invalid_utf8
        }),
        finished_output(plan, wait, elapsed_nanos).display.status == if wait.success {
            ToolUseStatus::Success
        } else {
            ToolUseStatus::Error
        },
{
    lemma_report(plan, wait, elapsed_nanos);
    let capture = wait.output@;
    assert(capture.head + capture.tail =~= all);
    assert(capture.shown() =~= shown_lines(all));
    crate::shell::truncate::law_small_output_is_kept(
        shown_lines(all),
        utf8_len(join_of(shown_lines(all), "\n"@)),
    );
}

/// A command that writes text to standard error alone is reported with every line of
/// it, each marked as standard error, however it came and whatever became of the
/// command; and the same holds of standard output.
pub proof fn law_single_stream_is_reported(
    plan: PlanView,
    wait: WaitResult,
    elapsed_nanos: u128,
    start: WaitView,
    rounds: Seq<WaitRound>,
    stream: OutputStream,
)
    requires
        start.output == CaptureView::fresh(),
        start.stdout_open,
        start.stderr_open,
        pipes_end_once(rounds),
        rounds.len() > 0 ==> !after_rounds(start, rounds.drop_last()).1,
        ({
            let end = after_rounds(start, rounds).0;
            wait_parts(wait, end.status, end.timed_out, end.cancelled, at_end(end.output))
        }),
        match stream {
            OutputStream::Stdout => written_in(rounds, OutputStream::Stderr).len() == 0,
            OutputStream::Stderr => written_in(rounds, OutputStream::Stdout).len() == 0,
        },
        written_in(rounds, stream).len() + 8 <= usize::MAX,
        valid_utf8(written_in(rounds, stream)),
        has_short_lines(decode_utf8(written_in(rounds, stream))),
        whole_lines(written_in(rounds, stream)).len() <= MAX_OUTPUT_LINES,
        utf8_len(
            join_of(shown_lines(of_stream(stream, whole_lines(written_in(rounds, stream)))), "\n"@),
        ) <= MAX_OUTPUT_BYTES,
    ensures
        text_field(finished_output(plan, wait, elapsed_nanos).result, "output"@) == Some(
            join_of(shown_lines(of_stream(stream, whole_lines(written_in(rounds, stream)))), "\n"@),
        ),
        encode_utf8(joined(whole_lines(written_in(rounds, stream)))) == written_in(rounds, stream),
        forall|i: int|
            0 <= i < whole_lines(written_in(rounds, stream)).len() ==> (#[trigger] whole_lines(
                written_in(rounds, stream),
            )[i]) is Text,
{
    let out = written_in(rounds, OutputStream::Stdout);
    let err = written_in(rounds, OutputStream::Stderr);
    law_everything_written_is_captured(start, rounds);
    let end = after_rounds(start, rounds).0;
    let all = law_every_line_is_held(end.output, out, err);
    law_lines_are_the_text(written_in(rounds, stream));
    lemma_empty_has_no_lines();
    let none = Seq::<u8>::empty();
    match stream {
        OutputStream::Stdout => {
            assert(err =~= none);
        },
        OutputStream::Stderr => {
            assert(out =~= none);
        },
    }
    lemma_one_stream(all, stream);
    assert(all =~= of_stream(stream, whole_lines(written_in(rounds, stream))));
    law_report_tells_the_output(plan, wait, elapsed_nanos, all);
}

proof fn lemma_empty_has_no_lines()
    ensures
        whole_lines(seq![]) == Seq::<ContentView>::empty(),
{
    let fresh = DecoderView::fresh();
    let none = Seq::<u8>::empty();
    assert(fresh.partial + none =~= none);
    assert((DecoderView { partial: seq![], ..fresh }) =~= fresh);
    assert(whole_lines(none) =~= seq![]);
}

/// Lines that are all of one stream.
proof fn lemma_one_stream(all: Seq<LineView>, stream: OutputStream)
    requires
        match stream {
            OutputStream::Stdout => lines_from(all, OutputStream::Stderr).len() == 0,
            OutputStream::Stderr => lines_from(all, OutputStream::Stdout).len() == 0,
        },
    ensures
        all == of_stream(stream, lines_from(all, stream)),
    decreases all.len(),
{
    if all.len() == 0 {
        assert(all =~= of_stream(stream, lines_from(all, stream)));
    } else {
        lemma_one_stream(all.drop_last(), stream);
        let front = lines_from(all.drop_last(), stream);
        let last = all.last();
        assert(last.stream == stream);
        assert(all.drop_last() == of_stream(stream, front));
        assert(all =~= all.drop_last().push(last));
        assert(of_stream(stream, front.push(last.content)) =~= of_stream(stream, front).push(last));
    }
}

/// A command that ended by itself is reported with the status it ended with, and
/// is a success where that is zero; one that was not stopped is not reported as
/// stopped.
pub proof fn law_exit_is_reported(wait: WaitView, exit: ExitStatus, cancel: bool, now: u128)
    requires
        wait.drain_deadline is None,
        wait.status is None,
        !wait.timed_out,
        !wait.cancelled,
    ensures
        ({
            let (after, next) = wait.decide(StatusPoll::Exited(exit), cancel, now);
            &&& after.status == Some(exit)
            &&& !after.timed_out
            &&& !after.cancelled
            &&& next is Drain
            &&& after.output == wait.output
        }),
{
}

/// A command is killed where it is to be stopped, or where its time is up, and else
/// waited for.
pub proof fn law_running_command_is_waited_for(wait: WaitView, cancel: bool, now: u128)
    requires
        wait.drain_deadline is None,
        wait.status is None,
        !wait.timed_out,
        !wait.cancelled,
    ensures
        ({
            let (after, next) = wait.decide(StatusPoll::Empty, cancel, now);
            &&& cancel ==> next is Kill && after.cancelled && !after.timed_out
            &&& !cancel && wait.deadline <= now ==> next is Kill && after.timed_out
                && !after.cancelled
            &&& !cancel && now < wait.deadline ==> {
                &&& next is Poll || next is Sleep
                &&& !after.timed_out && !after.cancelled && after.drain_deadline is None
                &&& next matches WaitStep::Sleep { nanos } ==> 0 < nanos <= wait.deadline - now
            }
            &&& after.status is None
            &&& after.output == wait.output
            &&& after.stdout_open == wait.stdout_open
            &&& after.stderr_open == wait.stderr_open
        }),
{
}

/// The wait for a command that is over ends when both pipes are closed or the time
/// for its output is up, and not before.
pub proof fn law_rest_of_the_output_is_waited_for(
    wait: WaitView,
    poll: StatusPoll,
    cancel: bool,
    now: u128,
    end: u128,
)
    requires
        wait.drain_deadline == Some(end),
    ensures
        (wait.decide(poll, cancel, now).1 is Done) == ((!wait.stdout_open && !wait.stderr_open)
            || end <= now),
        wait.decide(poll, cancel, now).0.output == wait.output,
{
}

/// What a command is reported to have ended by: being stopped, its time, a signal,
/// or itself.
pub proof fn law_end_is_told(
    r: WaitResult,
    status: Option<ExitStatus>,
    timed_out: bool,
    cancelled: bool,
    output: CaptureView,
)
    requires
        wait_parts(r, status, timed_out, cancelled, output),
    ensures
        r.timed_out == timed_out,
        r.cancelled == cancelled,
        r.output@ == output,
        status matches Some(exit) ==> r.status_code == exit.code && r.signal == exit.signal,
        !timed_out && !cancelled ==> (status matches Some(exit) ==> r.success == (exit.code == Some(
            0i32,
        ))),
        cancelled ==> r.termination_reason == TerminationReason::Cancelled,
        timed_out && !cancelled ==> r.termination_reason == TerminationReason::Timeout,
        !timed_out && !cancelled ==> (status matches Some(exit) ==> r.termination_reason == if exit.signal
            is Some {
            TerminationReason::Signal
        } else {
            TerminationReason::Exit
        }),
{
}

} // verus!
