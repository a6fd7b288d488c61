//! Captured output of a command: two byte streams decoded into lines, of which
//! the first and the last are kept.

use vstd::prelude::*;
use vstd::utf8::{decode_first_scalar, decode_utf8, decode_utf8_encode_utf8, encode_utf8,
    length_of_first_scalar, pop_first_scalar, valid_utf8};

use crate::shell::truncate::{
    selected, truncate_line_oriented_lines, truncates, Truncated, MAX_OUTPUT_BYTES,
};
use crate::text::{byte_len, char_width, lemma_utf8_len_empty, lemma_utf8_len_push, utf8_len, views,
    width_of};
use crate::utf8::{first_scalar, first_scalar_of, is_partial, lemma_first_scalar,
    lemma_first_scalar_extend, Scalar};

verus! {

/// Longest line that is kept, in bytes.
pub const MAX_CAPTURED_LINE_BYTES: usize = 51200;

/// Lines kept at each end.
pub const KEPT_LINES: usize = 1000;

/// How a line ended.
#[derive(Clone, Copy, Debug, PartialEq, Eq, Structural)]
pub enum LineEndingKind {
    Lf,
    Crlf,
    Cr,
}

/// One of the two streams of a command.
#[derive(Clone, Copy, Debug, PartialEq, Eq, Structural)]
pub enum OutputStream {
    Stdout,
    Stderr,
}

/// The content of one captured line.
#[derive(Debug)]
pub enum OutputContent {
    Text { text: String, ending: Option<LineEndingKind> },
    /// A line in which invalid bytes were replaced.
    InvalidUtf8 { text: String, ending: Option<LineEndingKind> },
    /// A line that was too long to keep.
    Truncated {
        invalid_utf8: bool,
        ending: Option<LineEndingKind>,
        original_text_bytes: usize,
    },
}

/// The content of one captured line, as mathematics.
pub enum ContentView {
    Text { text: Seq<char>, ending: Option<LineEndingKind> },
    InvalidUtf8 { text: Seq<char>, ending: Option<LineEndingKind> },
    Truncated {
        invalid_utf8: bool,
        ending: Option<LineEndingKind>,
        original_text_bytes: usize,
    },
}

impl View for OutputContent {
    type V = ContentView;

    open spec fn view(&self) -> ContentView {
        match *self {
            OutputContent::Text { text, ending } => ContentView::Text { text: text@, ending },
            OutputContent::InvalidUtf8 { text, ending } => ContentView::InvalidUtf8 {
                text: text@,
                ending,
            },
            OutputContent::Truncated { invalid_utf8, ending, original_text_bytes } =>
                ContentView::Truncated { invalid_utf8, ending, original_text_bytes },
        }
    }
}

/// The views of a list of contents.
pub open spec fn content_views(list: Seq<OutputContent>) -> Seq<ContentView> {
    list.map_values(|c: OutputContent| c@)
}

/// A sum in machine arithmetic that stops at the largest value.
pub open spec fn sat(n: int) -> usize {
    if n <= usize::MAX {
        n as usize
    } else {
        usize::MAX
    }
}

/// Decodes one stream into lines.
#[derive(Debug)]
pub struct StreamDecoder {
    pub pending_utf8: Vec<u8>,
    pub pending_line: String,
    pub pending_line_original_bytes: usize,
    pub pending_line_invalid: bool,
    pub pending_line_truncated: bool,
    pub pending_cr: bool,
    pub had_invalid_utf8: bool,
}

/// A decoder's state, as mathematics.
#[verifier::ext_equal]
pub struct DecoderView {
    /// The start of a character whose end has not arrived.
    pub partial: Seq<u8>,
    /// The line so far.
    pub line: Seq<char>,
    /// The bytes of the line so far, kept or not.
    pub bytes: usize,
    pub invalid: bool,
    pub truncated: bool,
    /// A carriage return came last: the next character says which ending it is.
    pub cr: bool,
    pub had_invalid: bool,
}

impl View for StreamDecoder {
    type V = DecoderView;

    open spec fn view(&self) -> DecoderView {
        DecoderView {
            partial: self.pending_utf8@,
            line: self.pending_line@,
            bytes: self.pending_line_original_bytes,
            invalid: self.pending_line_invalid,
            truncated: self.pending_line_truncated,
            cr: self.pending_cr,
            had_invalid: self.had_invalid_utf8,
        }
    }
}

impl DecoderView {
    /// What holds of a decoder at all times: a line is kept only while it is
    /// short enough, and a pending carriage return is settled before a partial
    /// character is put aside.
    pub open spec fn wf(self) -> bool {
        &&& self.partial.len() > 0 ==> is_partial(self.partial) && !self.cr
        &&& self.truncated ==> self.line.len() == 0
        &&& !self.truncated ==> self.bytes == utf8_len(self.line) && self.bytes
            <= MAX_CAPTURED_LINE_BYTES
    }

    /// A decoder at the start of a stream.
    pub open spec fn fresh() -> DecoderView {
        DecoderView {
            partial: seq![],
            line: seq![],
            bytes: 0,
            invalid: false,
            truncated: false,
            cr: false,
            had_invalid: false,
        }
    }

    /// One more character of the line. A line that gets too long is dropped,
    /// and only its bytes are counted on.
    pub open spec fn push_char(self, c: char) -> DecoderView {
        let bytes = sat(self.bytes + char_width(c));
        if self.truncated {
            DecoderView { bytes, ..self }
        } else if MAX_CAPTURED_LINE_BYTES < bytes {
            DecoderView { bytes, line: seq![], truncated: true, ..self }
        } else {
            DecoderView { bytes, line: self.line.push(c), ..self }
        }
    }

    /// The line so far, as a finished line.
    pub open spec fn line_content(self, ending: Option<LineEndingKind>) -> ContentView {
        if self.truncated {
            ContentView::Truncated {
                invalid_utf8: self.invalid,
                ending,
                original_text_bytes: self.bytes,
            }
        } else if self.invalid {
            ContentView::InvalidUtf8 { text: self.line, ending }
        } else {
            ContentView::Text { text: self.line, ending }
        }
    }

    /// The decoder at the start of the next line.
    pub open spec fn next_line(self) -> DecoderView {
        DecoderView { line: seq![], bytes: 0, invalid: false, truncated: false, ..self }
    }

    /// The line finished by a carriage return, where one is pending.
    pub open spec fn flush_cr(self) -> (DecoderView, Seq<ContentView>) {
        if self.cr {
            (
                DecoderView { cr: false, ..self }.next_line(),
                seq![self.line_content(Some(LineEndingKind::Cr))],
            )
        } else {
            (self, seq![])
        }
    }

    /// One decoded character.
    pub open spec fn accept_char(self, c: char) -> (DecoderView, Seq<ContentView>) {
        if self.cr && c == '\n' {
            (
                DecoderView { cr: false, ..self }.next_line(),
                seq![self.line_content(Some(LineEndingKind::Crlf))],
            )
        } else {
            let (at, out) = self.flush_cr();
            if c == '\r' {
                (DecoderView { cr: true, ..at }, out)
            } else if c == '\n' {
                (at.next_line(), out.push(at.line_content(Some(LineEndingKind::Lf))))
            } else {
                (at.push_char(c), out)
            }
        }
    }

    /// A sequence of bytes that is no character: a replacement character in
    /// the line, which is marked as invalid.
    pub open spec fn accept_invalid(self) -> (DecoderView, Seq<ContentView>) {
        let (at, out) = self.flush_cr();
        let marked = DecoderView { had_invalid: true, invalid: true, ..at };
        (
            if marked.truncated {
                marked
            } else {
                marked.push_char('\u{fffd}')
            },
            out,
        )
    }

    /// Bytes taken from the start on; what is left of them in the end is the
    /// start of a character.
    pub open spec fn walk(self, bytes: Seq<u8>) -> (DecoderView, Seq<ContentView>)
        decreases bytes.len(),
    {
        if bytes.len() == 0 {
            (self, seq![])
        } else {
            match first_scalar_of(bytes) {
                Scalar::Char { c, len } => {
                    let (at, out) = self.accept_char(c);
                    if 0 < len <= bytes.len() {
                        let (end, more) = at.walk(bytes.skip(len as int));
                        (end, out + more)
                    } else {
                        (at, out)
                    }
                },
                Scalar::Invalid { len } => {
                    let (at, out) = self.accept_invalid();
                    if 0 < len <= bytes.len() {
                        let (end, more) = at.walk(bytes.skip(len as int));
                        (end, out + more)
                    } else {
                        (at, out)
                    }
                },
                Scalar::Incomplete => {
                    let (at, out) = self.flush_cr();
                    (DecoderView { partial: bytes, ..at }, out)
                },
            }
        }
    }

    /// A chunk of the stream: the decoder afterwards and the lines it finished.
    pub open spec fn feed(self, chunk: Seq<u8>) -> (DecoderView, Seq<ContentView>) {
        DecoderView { partial: seq![], ..self }.walk(self.partial + chunk)
    }

    /// The end of the stream: the decoder afterwards and the last lines.
    pub open spec fn end(self) -> (DecoderView, Seq<ContentView>) {
        let (a, out_a) = if self.partial.len() > 0 {
            DecoderView { partial: seq![], ..self }.accept_invalid()
        } else {
            (self, seq![])
        };
        let (b, out_b) = a.flush_cr();
        if b.line.len() > 0 || b.invalid || b.truncated {
            (b.next_line(), out_a + out_b + seq![b.line_content(None)])
        } else {
            (b, out_a + out_b)
        }
    }
}

impl StreamDecoder {
    /// A decoder at the start of a stream.
    pub fn new() -> (decoder: Self)
        ensures
            decoder@ == DecoderView::fresh(),
            decoder@.wf(),
    {
        proof {
            lemma_utf8_len_empty(Seq::<char>::empty());
        }
        let decoder = StreamDecoder {
            pending_utf8: Vec::new(),
            pending_line: String::new(),
            pending_line_original_bytes: 0,
            pending_line_invalid: false,
            pending_line_truncated: false,
            pending_cr: false,
            had_invalid_utf8: false,
        };
        assert(decoder@ =~= DecoderView::fresh());
        decoder
    }

    fn push_char(&mut self, c: char)
        requires
            old(self)@.wf(),
        ensures
            final(self)@ == old(self)@.push_char(c),
            old(self)@.partial.len() == 0 ==> final(self)@.wf(),
    {
        proof {
            lemma_utf8_len_push(self.pending_line@, c);
        }
        let next_len: usize = self.pending_line_original_bytes.saturating_add(width_of(c));
        self.pending_line_original_bytes = next_len;
        if self.pending_line_truncated {
            return ;
        }
        if MAX_CAPTURED_LINE_BYTES < next_len {
            self.pending_line = String::new();
            self.pending_line_truncated = true;
            assert(self.pending_line@ =~= seq![]);
            return ;
        }
        self.pending_line.push(c);
    }

    fn take_pending_line(&mut self, ending: Option<LineEndingKind>) -> (content: OutputContent)
        requires
            old(self)@.wf(),
        ensures
            content@ == old(self)@.line_content(ending),
            final(self)@ == old(self)@.next_line(),
            final(self)@.wf(),
    {
        proof {
            lemma_utf8_len_empty(Seq::<char>::empty());
        }
        let mut text = String::new();
        assert(text@ =~= seq![]);
        core::mem::swap(&mut text, &mut self.pending_line);
        let content = if self.pending_line_truncated {
            OutputContent::Truncated {
                invalid_utf8: self.pending_line_invalid,
                ending,
                original_text_bytes: self.pending_line_original_bytes,
            }
        } else if self.pending_line_invalid {
            OutputContent::InvalidUtf8 { text, ending }
        } else {
            OutputContent::Text { text, ending }
        };
        self.pending_line_original_bytes = 0;
        self.pending_line_truncated = false;
        self.pending_line_invalid = false;
        content
    }

    fn flush_pending_cr_as_cr(&mut self, lines: &mut Vec<OutputContent>)
        requires
            old(self)@.wf(),
        ensures
            final(self)@ == old(self)@.flush_cr().0,
            content_views(final(lines)@) == content_views(old(lines)@) + old(self)@.flush_cr().1,
            final(self)@.wf(),
            !final(self)@.cr,
    {
        let ghost before = lines@;
        if self.pending_cr {
            self.pending_cr = false;
            let line = self.take_pending_line(Some(LineEndingKind::Cr));
            lines.push(line);
            assert(content_views(lines@) =~= content_views(before) + seq![line@]);
        } else {
            assert(content_views(lines@) =~= content_views(before) + seq![]);
        }
    }

    fn accept_char(&mut self, c: char, lines: &mut Vec<OutputContent>)
        requires
            old(self)@.wf(),
            old(self)@.partial.len() == 0,
        ensures
            final(self)@ == old(self)@.accept_char(c).0,
            content_views(final(lines)@) == content_views(old(lines)@) + old(self)@.accept_char(
                c,
            ).1,
            final(self)@.wf(),
            final(self)@.partial.len() == 0,
    {
        let ghost before = lines@;
        if self.pending_cr && c == '\n' {
            self.pending_cr = false;
            let line = self.take_pending_line(Some(LineEndingKind::Crlf));
            lines.push(line);
            assert(content_views(lines@) =~= content_views(before) + seq![line@]);
            return ;
        }
        self.flush_pending_cr_as_cr(lines);
        let ghost flushed = lines@;
        if c == '\r' {
            self.pending_cr = true;
        } else if c == '\n' {
            let line = self.take_pending_line(Some(LineEndingKind::Lf));
            lines.push(line);
            assert(content_views(lines@) =~= content_views(flushed).push(line@));
            assert(content_views(lines@) =~= content_views(before) + old(self)@.accept_char(c).1);
        } else {
            self.push_char(c);
        }
    }

    fn accept_invalid(&mut self, lines: &mut Vec<OutputContent>)
        requires
            old(self)@.wf(),
            old(self)@.partial.len() == 0,
        ensures
            final(self)@ == old(self)@.accept_invalid().0,
            content_views(final(lines)@) == content_views(old(lines)@)
                + old(self)@.accept_invalid().1,
            final(self)@.wf(),
            final(self)@.partial.len() == 0,
    {
        self.flush_pending_cr_as_cr(lines);
        self.had_invalid_utf8 = true;
        self.pending_line_invalid = true;
        if !self.pending_line_truncated {
            self.push_char('\u{fffd}');
        }
    }

    /// Takes a chunk of the stream and returns the lines that it finished.
    pub fn push_bytes(&mut self, bytes: &[u8]) -> (lines: Vec<OutputContent>)
        requires
            old(self)@.wf(),
        ensures
            final(self)@ == old(self)@.feed(bytes@).0,
            content_views(lines@) == old(self)@.feed(bytes@).1,
            final(self)@.wf(),
    {
        let mut lines: Vec<OutputContent> = Vec::new();
        let mut all: Vec<u8> = Vec::new();
        core::mem::swap(&mut all, &mut self.pending_utf8);
        let mut k: usize = 0;
        while k < bytes.len()
            invariant
                k <= bytes@.len(),
                all@ == old(self)@.partial + bytes@.take(k as int),
            decreases bytes.len() - k,
        {
            all.push(bytes[k]);
            k += 1;
            assert(all@ =~= old(self)@.partial + bytes@.take(k as int));
        }
        assert(bytes@.take(k as int) =~= bytes@);
        let ghost total = old(self)@.feed(bytes@);
        let mut at: usize = 0;
        assert(all@.skip(0) =~= all@);
        assert(self@ =~= (DecoderView { partial: seq![], ..old(self)@ }));
        assert(content_views(lines@) + self@.walk(all@).1 =~= total.1);
        while at < all.len()
            invariant_except_break
                self@.partial.len() == 0,
            invariant
                at <= all@.len(),
                self@.wf(),
                self@.partial.len() == 0 ==> self@.walk(all@.skip(at as int)).0 == total.0,
                self@.partial.len() == 0 ==> content_views(lines@) + self@.walk(
                    all@.skip(at as int),
                ).1 == total.1,
            ensures
                self@.wf(),
                self@ == total.0,
                content_views(lines@) == total.1,
            decreases all.len() - at,
        {
            let ghost rest = all@.skip(at as int);
            let ghost here = self@;
            let ghost before = content_views(lines@);
            proof {
                lemma_first_scalar(rest);
            }
            match first_scalar(all.as_slice(), at) {
                Scalar::Char { c, len } => {
                    self.accept_char(c, &mut lines);
                    at += len;
                    proof {
                        assert(rest.skip(len as int) =~= all@.skip(at as int));
                        let more = self@.walk(all@.skip(at as int)).1;
                        assert(content_views(lines@) + more =~= before + (here.accept_char(c).1
                            + more));
                    }
                },
                Scalar::Invalid { len } => {
                    self.accept_invalid(&mut lines);
                    at += len;
                    proof {
                        assert(rest.skip(len as int) =~= all@.skip(at as int));
                        let more = self@.walk(all@.skip(at as int)).1;
                        assert(content_views(lines@) + more =~= before + (here.accept_invalid().1
                            + more));
                    }
                },
                Scalar::Incomplete => {
                    self.flush_pending_cr_as_cr(&mut lines);
                    let mut partial: Vec<u8> = Vec::new();
                    let mut j: usize = at;
                    while j < all.len()
                        invariant
                            at <= j <= all@.len(),
                            partial@ == all@.subrange(at as int, j as int),
                        decreases all.len() - j,
                    {
                        partial.push(all[j]);
                        j += 1;
                        assert(partial@ =~= all@.subrange(at as int, j as int));
                    }
                    assert(partial@ =~= rest);
                    self.pending_utf8 = partial;
                    assert(self@ =~= total.0);
                    break ;
                },
            }
        }
        lines
    }

    /// Ends the stream and returns the last lines.
    pub fn finish(&mut self) -> (lines: Vec<OutputContent>)
        requires
            old(self)@.wf(),
        ensures
            final(self)@ == old(self)@.end().0,
            content_views(lines@) == old(self)@.end().1,
            final(self)@.wf(),
    {
        let mut lines: Vec<OutputContent> = Vec::new();
        let ghost none = content_views(lines@);
        assert(none =~= seq![]);
        if !self.pending_utf8.is_empty() {
            self.pending_utf8.clear();
            assert(self@ =~= (DecoderView { partial: seq![], ..old(self)@ }));
            self.accept_invalid(&mut lines);
        }
        self.flush_pending_cr_as_cr(&mut lines);
        let ghost flushed = lines@;
        if !self.pending_line.as_str().is_empty() || self.pending_line_invalid
            || self.pending_line_truncated {
            let line = self.take_pending_line(None);
            lines.push(line);
            assert(content_views(lines@) =~= content_views(flushed).push(line@));
            assert(content_views(lines@) =~= old(self)@.end().1);
        } else {
            assert(content_views(lines@) =~= old(self)@.end().1);
        }
        lines
    }
}

/// Settling a carriage return early makes no difference to what follows, if
/// what follows is not a line feed.
proof fn lemma_flush_first(m: DecoderView, bytes: Seq<u8>)
    requires
        bytes.len() > 0,
        match first_scalar_of(bytes) {
            Scalar::Char { c, .. } => c != '\n',
            _ => true,
        },
    ensures
        m.walk(bytes).0 == m.flush_cr().0.walk(bytes).0,
        m.walk(bytes).1 == m.flush_cr().1 + m.flush_cr().0.walk(bytes).1,
{
    let flushed = m.flush_cr().0;
    assert(flushed.flush_cr() == (flushed, Seq::<ContentView>::empty()));
    match first_scalar_of(bytes) {
        Scalar::Char { c, len } => {
            lemma_first_scalar(bytes);
            assert(m.accept_char(c).0 == flushed.accept_char(c).0);
            assert(m.accept_char(c).1 =~= m.flush_cr().1 + flushed.accept_char(c).1);
            assert(m.walk(bytes).1 =~= m.flush_cr().1 + flushed.walk(bytes).1);
        },
        Scalar::Invalid { len } => {
            lemma_first_scalar(bytes);
            assert(m.accept_invalid().0 == flushed.accept_invalid().0);
            assert(m.walk(bytes).1 =~= m.flush_cr().1 + flushed.walk(bytes).1);
        },
        Scalar::Incomplete => {
            assert(m.walk(bytes).1 =~= m.flush_cr().1 + flushed.walk(bytes).1);
        },
    }
}

/// Walking two runs of bytes one after the other, with what the first leaves
/// put before the second, is walking them together.
#[verifier::rlimit(40)]
proof fn lemma_walk_concat(m: DecoderView, a: Seq<u8>, b: Seq<u8>)
    requires
        m.partial.len() == 0,
    ensures
        m.walk(a).0.feed(b).0 == m.walk(a + b).0,
        m.walk(a).1 + m.walk(a).0.feed(b).1 == m.walk(a + b).1,
    decreases a.len(),
{
    if a.len() == 0 {
        assert(a + b =~= b);
        assert(m.partial + b =~= b);
        assert((DecoderView { partial: seq![], ..m }) =~= m);
        assert(m.walk(a).1 + m.walk(a).0.feed(b).1 =~= m.walk(a + b).1);
    } else {
        lemma_first_scalar(a);
        lemma_first_scalar_extend(a, b);
        match first_scalar_of(a) {
            Scalar::Char { c, len } => {
                assert((a + b).skip(len as int) =~= a.skip(len as int) + b);
                let rest = a.skip(len as int);
                let (at, lines) = m.accept_char(c);
                lemma_walk_concat(at, rest, b);
                assert(m.walk(a) == (at.walk(rest).0, lines + at.walk(rest).1));
                assert(m.walk(a + b) == (at.walk(rest + b).0, lines + at.walk(rest + b).1));
                assert((lines + at.walk(rest).1) + at.walk(rest).0.feed(b).1 =~= lines + (
                at.walk(rest).1 + at.walk(rest).0.feed(b).1));
            },
            Scalar::Invalid { len } => {
                assert((a + b).skip(len as int) =~= a.skip(len as int) + b);
                let rest = a.skip(len as int);
                let (at, lines) = m.accept_invalid();
                lemma_walk_concat(at, rest, b);
                assert(m.walk(a) == (at.walk(rest).0, lines + at.walk(rest).1));
                assert(m.walk(a + b) == (at.walk(rest + b).0, lines + at.walk(rest + b).1));
                assert((lines + at.walk(rest).1) + at.walk(rest).0.feed(b).1 =~= lines + (
                at.walk(rest).1 + at.walk(rest).0.feed(b).1));
            },
            Scalar::Incomplete => {
                let at = m.flush_cr().0;
                assert((DecoderView { partial: seq![], ..m.walk(a).0 }) =~= at);
                lemma_flush_first(m, a + b);
                assert(m.walk(a).1 + m.walk(a).0.feed(b).1 =~= m.walk(a + b).1);
            },
        }
    }
}

/// How a stream is cut into chunks makes no difference: two chunks give the
/// same lines and leave the same decoder as the two together.
pub proof fn law_chunks_do_not_matter(m: DecoderView, a: Seq<u8>, b: Seq<u8>)
    ensures
        m.feed(a).0.feed(b).0 == m.feed(a + b).0,
        m.feed(a).1 + m.feed(a).0.feed(b).1 == m.feed(a + b).1,
{
    let start = DecoderView { partial: seq![], ..m };
    assert(m.partial + (a + b) =~= (m.partial + a) + b);
    lemma_walk_concat(start, m.partial + a, b);
}

/// The characters that end a line.
pub open spec fn is_break(c: char) -> bool {
    c == '\r' || c == '\n'
}

/// Text of a single line.
pub open spec fn in_one_line(text: Seq<char>) -> bool {
    forall|i: int| 0 <= i < text.len() ==> !is_break(#[trigger] text[i])
}

/// Text of which no line is too long to keep.
pub open spec fn has_short_lines(text: Seq<char>) -> bool {
    forall|i: int, j: int|
        0 <= i <= j <= text.len() && in_one_line(#[trigger] text.subrange(i, j)) ==> utf8_len(
            text.subrange(i, j),
        ) <= MAX_CAPTURED_LINE_BYTES
}

/// The characters of a line's ending.
pub open spec fn ending_text(ending: Option<LineEndingKind>) -> Seq<char> {
    match ending {
        Some(LineEndingKind::Lf) => seq!['\n'],
        Some(LineEndingKind::Crlf) => seq!['\r', '\n'],
        Some(LineEndingKind::Cr) => seq!['\r'],
        None => seq![],
    }
}

/// The text of lines that were kept, each with its ending.
pub open spec fn joined(lines: Seq<ContentView>) -> Seq<char>
    decreases lines.len(),
{
    if lines.len() == 0 {
        seq![]
    } else {
        (match lines[0] {
            ContentView::Text { text, ending } => text + ending_text(ending),
            _ => seq![],
        }) + joined(lines.skip(1))
    }
}

/// Lines that were kept as they were, up to their endings.
pub open spec fn are_whole(lines: Seq<ContentView>) -> bool {
    forall|i: int|
        0 <= i < lines.len() ==> ((#[trigger] lines[i]) matches ContentView::Text { ending, .. }
            && ending is Some)
}

proof fn lemma_joined_concat(a: Seq<ContentView>, b: Seq<ContentView>)
    ensures
        joined(a + b) == joined(a) + joined(b),
    decreases a.len(),
{
    if a.len() == 0 {
        assert(a + b =~= b);
        assert(joined(a) + joined(b) =~= joined(b));
    } else {
        lemma_joined_concat(a.skip(1), b);
        assert((a + b).skip(1) =~= a.skip(1) + b);
        assert((a + b)[0] == a[0]);
        assert(joined(a + b) =~= joined(a) + joined(b));
    }
}

proof fn lemma_joined_one(text: Seq<char>, ending: Option<LineEndingKind>)
    ensures
        joined(seq![ContentView::Text { text, ending }]) == text + ending_text(ending),
{
    let lines = seq![ContentView::Text { text, ending }];
    assert(lines.skip(1) =~= seq![]);
    assert(joined(lines.skip(1)) =~= seq![]);
    assert(joined(lines) =~= text + ending_text(ending));
}

/// What follows in text with short lines has short lines.
proof fn lemma_short_rest(a: Seq<char>, b: Seq<char>)
    requires
        has_short_lines(a + b),
    ensures
        has_short_lines(b),
{
    assert forall|i: int, j: int|
        0 <= i <= j <= b.len() && in_one_line(#[trigger] b.subrange(i, j)) implies utf8_len(
        b.subrange(i, j),
    ) <= MAX_CAPTURED_LINE_BYTES by {
        assert((a + b).subrange(a.len() + i, a.len() + j) =~= b.subrange(i, j));
    }
}

impl DecoderView {
    /// A decoder that has lost nothing of its input so far.
    pub open spec fn lost_nothing(self) -> bool {
        &&& self.wf()
        &&& self.partial.len() == 0
        &&& !self.invalid
        &&& !self.truncated
        &&& !self.had_invalid
        &&& in_one_line(self.line)
    }

    /// The text that waits for the end of its line.
    pub open spec fn waiting(self) -> Seq<char> {
        if self.cr {
            self.line.push('\r')
        } else {
            self.line
        }
    }
}

/// A character is kept in the line that it belongs to.
proof fn lemma_accepts_char(m: DecoderView, c: char, rest: Seq<char>)
    requires
        m.lost_nothing(),
        has_short_lines(m.waiting() + (seq![c] + rest)),
    ensures
        m.accept_char(c).0.lost_nothing(),
        are_whole(m.accept_char(c).1),
        joined(m.accept_char(c).1) + m.accept_char(c).0.waiting() == m.waiting().push(c),
        has_short_lines(m.accept_char(c).0.waiting() + rest),
{
    let (at, out) = m.accept_char(c);
    lemma_utf8_len_empty(Seq::<char>::empty());
    lemma_joined_one(m.line, Some(LineEndingKind::Cr));
    lemma_joined_one(m.line, Some(LineEndingKind::Lf));
    lemma_joined_one(m.line, Some(LineEndingKind::Crlf));
    lemma_joined_one(seq![], Some(LineEndingKind::Lf));
    let none = Seq::<ContentView>::empty();
    assert(joined(none) =~= seq![]);
    let (flushed, first) = m.flush_cr();
    if m.cr && c == '\n' {
        assert(m.waiting().push(c) =~= m.line + seq!['\r', '\n']);
    } else {
        assert(joined(first) + flushed.line =~= m.waiting());
        assert(in_one_line(flushed.line));
        if c == '\r' {
            assert(joined(out) + at.waiting() =~= m.waiting().push(c));
        } else if c == '\n' {
            let line = flushed.line_content(Some(LineEndingKind::Lf));
            assert(out =~= first + seq![line]);
            lemma_joined_concat(first, seq![line]);
            lemma_joined_one(flushed.line, Some(LineEndingKind::Lf));
            assert(joined(out) + at.waiting() =~= m.waiting().push(c));
        } else {
            let line = flushed.line.push(c);
            assert(m.waiting() + (seq![c] + rest) =~= joined(first) + (line + rest));
            lemma_short_rest(joined(first), line + rest);
            assert((line + rest).subrange(0, line.len() as int) =~= line);
            assert(in_one_line(line));
            lemma_utf8_len_push(flushed.line, c);
            assert(at.line == line);
            assert(joined(out) + at.waiting() =~= m.waiting().push(c));
        }
    }
    assert(m.waiting() + (seq![c] + rest) =~= m.waiting().push(c) + rest);
    assert(m.waiting().push(c) + rest =~= joined(out) + (at.waiting() + rest));
    lemma_short_rest(joined(out), at.waiting() + rest);
}

/// Text in UTF-8 is kept line by line.
proof fn lemma_walks_text(m: DecoderView, bytes: Seq<u8>)
    requires
        m.lost_nothing(),
        valid_utf8(bytes),
        has_short_lines(m.waiting() + decode_utf8(bytes)),
    ensures
        m.walk(bytes).0.lost_nothing(),
        are_whole(m.walk(bytes).1),
        joined(m.walk(bytes).1) + m.walk(bytes).0.waiting() == m.waiting() + decode_utf8(bytes),
    decreases bytes.len(),
{
    if bytes.len() == 0 {
        assert(joined(m.walk(bytes).1) + m.waiting() =~= m.waiting() + decode_utf8(bytes));
    } else {
        lemma_first_scalar(bytes);
        let c = decode_first_scalar(bytes) as char;
        let len = length_of_first_scalar(bytes);
        let left = bytes.skip(len);
        assert(left =~= pop_first_scalar(bytes));
        let rest = decode_utf8(left);
        lemma_accepts_char(m, c, rest);
        let (at, out) = m.accept_char(c);
        lemma_walks_text(at, left);
        let more = at.walk(left).1;
        assert(m.walk(bytes) == (at.walk(left).0, out + more));
        lemma_joined_concat(out, more);
        assert(joined(out + more) + at.walk(left).0.waiting() =~= m.waiting() + decode_utf8(
            bytes,
        ));
    }
}

/// Nothing of a stream in UTF-8 is lost: where no line is too long to keep,
/// every line is kept as text, and the lines with their endings are the stream
/// again. Only the last can be without an ending, and then it is not empty.
pub proof fn law_text_comes_back(bytes: Seq<u8>)
    requires
        valid_utf8(bytes),
        has_short_lines(decode_utf8(bytes)),
    ensures
        ({
            let (fed, first) = DecoderView::fresh().feed(bytes);
            let (ended, last) = fed.end();
            let lines = first + last;
            &&& forall|i: int| 0 <= i < lines.len() ==> (#[trigger] lines[i]) is Text
            &&& encode_utf8(joined(lines)) == bytes
            &&& forall|i: int|
                0 <= i < lines.len() && (#[trigger] lines[i])->Text_ending is None ==> i
                    == lines.len() - 1 && lines[i]->Text_text.len() > 0
            &&& !ended.had_invalid
        }),
{
    let fresh = DecoderView::fresh();
    lemma_utf8_len_empty(Seq::<char>::empty());
    assert(fresh.partial + bytes =~= bytes);
    assert((DecoderView { partial: seq![], ..fresh }) =~= fresh);
    assert(fresh.waiting() + decode_utf8(bytes) =~= decode_utf8(bytes));
    lemma_walks_text(fresh, bytes);
    let (fed, first) = fresh.feed(bytes);
    let (ended, last) = fed.end();
    lemma_joined_one(fed.line, Some(LineEndingKind::Cr));
    lemma_joined_one(fed.line, None);
    let none = Seq::<ContentView>::empty();
    assert(joined(none) =~= seq![]);
    if fed.cr {
        assert(last =~= seq![fed.line_content(Some(LineEndingKind::Cr))]);
    } else if fed.line.len() > 0 {
        assert(last =~= seq![fed.line_content(None)]);
    } else {
        assert(last =~= none);
    }
    assert(joined(last) =~= fed.waiting());
    lemma_joined_concat(first, last);
    decode_utf8_encode_utf8(bytes);
    let lines = first + last;
    assert forall|i: int| 0 <= i < lines.len() implies (#[trigger] lines[i]) is Text && (
    lines[i]->Text_ending is None ==> i == lines.len() - 1 && lines[i]->Text_text.len() > 0) by {
        if i < first.len() {
            assert(lines[i] == first[i]);
        } else {
            assert(lines[i] == last[i - first.len()]);
        }
    }
}

/// One captured line.
#[derive(Debug)]
pub struct OutputLine {
    pub stream: OutputStream,
    pub content: OutputContent,
}

/// One captured line, as mathematics.
pub struct LineView {
    pub stream: OutputStream,
    pub content: ContentView,
}

impl View for OutputLine {
    type V = LineView;

    open spec fn view(&self) -> LineView {
        LineView { stream: self.stream, content: self.content@ }
    }
}

/// The views of a list of lines.
pub open spec fn line_views(list: Seq<OutputLine>) -> Seq<LineView> {
    list.map_values(|line: OutputLine| line@)
}

/// The word that a stream's lines start with.
pub open spec fn stream_prefix(stream: OutputStream) -> Seq<char> {
    match stream {
        OutputStream::Stdout => "out"@,
        OutputStream::Stderr => "err"@,
    }
}

/// What is said of a line's ending; nothing of the usual one.
pub open spec fn ending_marker(ending: Option<LineEndingKind>) -> Option<Seq<char>> {
    match ending {
        Some(LineEndingKind::Lf) => None,
        Some(LineEndingKind::Crlf) => Some("crlf"@),
        Some(LineEndingKind::Cr) => Some("cr"@),
        None => Some("no_nl"@),
    }
}

/// A line with its prefix and its markers in brackets.
pub open spec fn formatted(
    prefix: Seq<char>,
    marker: Option<Seq<char>>,
    content: Seq<char>,
) -> Seq<char> {
    match marker {
        Some(marker) => prefix + "("@ + marker + ") "@ + content,
        None => prefix + " "@ + content,
    }
}

/// Two markers, or the one that is there.
pub open spec fn with_ending(first: Seq<char>, ending: Option<LineEndingKind>) -> Seq<char> {
    match ending_marker(ending) {
        Some(marker) => first + ","@ + marker,
        None => first,
    }
}

/// A line as it is shown.
pub open spec fn rendered_line(line: LineView) -> Seq<char> {
    let prefix = stream_prefix(line.stream);
    match line.content {
        ContentView::Text { text, ending } => formatted(prefix, ending_marker(ending), text),
        ContentView::InvalidUtf8 { text, ending } => formatted(
            prefix,
            Some(with_ending("invalid-utf8"@, ending)),
            text,
        ),
        ContentView::Truncated { invalid_utf8, ending, .. } => formatted(
            prefix,
            Some(
                match (invalid_utf8, ending_marker(ending)) {
                    (true, _) => with_ending("invalid-utf8"@, ending) + ",truncated"@,
                    (false, Some(marker)) => marker + ",truncated"@,
                    (false, None) => "truncated"@,
                },
            ),
            seq![],
        ),
    }
}

/// The bytes that a line counts for: those of the line as it is shown, or,
/// where the line was too long to keep, those it had.
pub open spec fn counted_bytes(line: LineView) -> nat {
    match line.content {
        ContentView::Truncated { original_text_bytes, .. } => utf8_len(stream_prefix(line.stream))
            + 1 + original_text_bytes as nat,
        _ => utf8_len(rendered_line(line)),
    }
}

impl OutputStream {
    /// The word that a stream's lines start with.
    pub fn prefix(self) -> (prefix: &'static str)
        ensures
            prefix@ == stream_prefix(self),
    {
        match self {
            OutputStream::Stdout => "out",
            OutputStream::Stderr => "err",
        }
    }
}

/// What is said of a line's ending; nothing of the usual one.
pub fn line_ending_marker(ending: Option<LineEndingKind>) -> (marker: Option<&'static str>)
    ensures
        marker is Some == ending_marker(ending) is Some,
        marker is Some ==> marker->0@ == ending_marker(ending)->0,
{
    match ending {
        Some(LineEndingKind::Lf) => None,
        Some(LineEndingKind::Crlf) => Some("crlf"),
        Some(LineEndingKind::Cr) => Some("cr"),
        None => Some("no_nl"),
    }
}

/// A line with its prefix and its markers in brackets.
pub fn format_output_line(prefix: &str, marker: Option<&str>, content: &str) -> (line: String)
    ensures
        line@ == formatted(
            prefix@,
            match marker {
                Some(marker) => Some(marker@),
                None => None,
            },
            content@,
        ),
{
    let mut line = prefix.to_owned();
    match marker {
        Some(marker) => {
            line.append("(");
            line.append(marker);
            line.append(") ");
        },
        None => {
            line.append(" ");
        },
    }
    line.append(content);
    line
}

/// A line as it is shown.
pub fn render_output_line(line: &OutputLine) -> (text: String)
    ensures
        text@ == rendered_line(line@),
{
    let prefix = line.stream.prefix();
    match &line.content {
        OutputContent::Text { text, ending } => format_output_line(
            prefix,
            line_ending_marker(*ending),
            text.as_str(),
        ),
        OutputContent::InvalidUtf8 { text, ending } => {
            let mut markers = "invalid-utf8".to_owned();
            if let Some(marker) = line_ending_marker(*ending) {
                markers.append(",");
                markers.append(marker);
            }
            format_output_line(prefix, Some(markers.as_str()), text.as_str())
        },
        OutputContent::Truncated { invalid_utf8, ending, .. } => {
            let mut markers = String::new();
            if *invalid_utf8 {
                markers.append("invalid-utf8");
                assert(markers@ =~= "invalid-utf8"@);
            }
            if let Some(marker) = line_ending_marker(*ending) {
                if *invalid_utf8 {
                    markers.append(",");
                }
                markers.append(marker);
                assert(!*invalid_utf8 ==> markers@ =~= marker@);
                markers.append(",truncated");
            } else if *invalid_utf8 {
                markers.append(",truncated");
            } else {
                markers.append("truncated");
                assert(markers@ =~= "truncated"@);
            }
            let empty = "";
            proof {
                reveal_strlit("");
                assert(empty@ =~= seq![]);
            }
            format_output_line(prefix, Some(markers.as_str()), empty)
        },
    }
}

/// The bytes that a line counts for, in machine arithmetic.
pub fn formatted_output_line_len(line: &OutputLine) -> (bytes: usize)
    ensures
        bytes == sat(counted_bytes(line@) as int),
{
    match &line.content {
        OutputContent::Truncated { original_text_bytes, .. } => {
            proof {
                reveal_strlit("out");
                reveal_strlit("err");
                vstd::utf8::is_ascii_chars_encode_utf8("out"@);
                vstd::utf8::is_ascii_chars_encode_utf8("err"@);
            }
            (byte_len(line.stream.prefix()) + 1).saturating_add(*original_text_bytes)
        },
        _ => byte_len(render_output_line(line).as_str()),
    }
}

/// What is captured of a command: the decoders of its two streams, the first
/// and the last lines, and counts of all of them.
#[derive(Debug)]
pub struct CapturedOutput {
    pub stdout: StreamDecoder,
    pub stderr: StreamDecoder,
    pub head_lines: Vec<OutputLine>,
    pub tail_lines: Vec<OutputLine>,
    pub total_lines: usize,
    pub total_bytes: usize,
    pub saw_truncated_line: bool,
}

/// What is captured of a command, as mathematics.
#[verifier::ext_equal]
pub struct CaptureView {
    pub stdout: DecoderView,
    pub stderr: DecoderView,
    pub head: Seq<LineView>,
    pub tail: Seq<LineView>,
    pub total_lines: usize,
    pub total_bytes: usize,
    pub saw_truncated: bool,
}

impl View for CapturedOutput {
    type V = CaptureView;

    open spec fn view(&self) -> CaptureView {
        CaptureView {
            stdout: self.stdout@,
            stderr: self.stderr@,
            head: line_views(self.head_lines@),
            tail: line_views(self.tail_lines@),
            total_lines: self.total_lines,
            total_bytes: self.total_bytes,
            saw_truncated: self.saw_truncated_line,
        }
    }
}

impl CaptureView {
    /// Both decoders are in order.
    pub open spec fn wf(self) -> bool {
        self.stdout.wf() && self.stderr.wf()
    }

    /// A capture with nothing in it.
    pub open spec fn fresh() -> CaptureView {
        CaptureView {
            stdout: DecoderView::fresh(),
            stderr: DecoderView::fresh(),
            head: seq![],
            tail: seq![],
            total_lines: 0,
            total_bytes: 0,
            saw_truncated: false,
        }
    }

    /// One more line: at the head while there is room, else at the tail, whose
    /// oldest line then makes room.
    pub open spec fn push_line(self, line: LineView) -> CaptureView {
        let separator: int = if self.total_lines == 0 {
            0
        } else {
            1
        };
        let longer = self.tail.push(line);
        CaptureView {
            head: if self.total_lines < KEPT_LINES {
                self.head.push(line)
            } else {
                self.head
            },
            tail: if self.total_lines < KEPT_LINES {
                self.tail
            } else if longer.len() > KEPT_LINES {
                longer.drop_first()
            } else {
                longer
            },
            total_lines: sat(self.total_lines + 1),
            total_bytes: sat(self.total_bytes + separator + counted_bytes(line)),
            saw_truncated: self.saw_truncated || line.content is Truncated,
            ..self
        }
    }

    /// Lines of one stream, in order.
    pub open spec fn push_lines(self, stream: OutputStream, contents: Seq<ContentView>)
        -> CaptureView
        decreases contents.len(),
    {
        if contents.len() == 0 {
            self
        } else {
            self.push_lines(stream, contents.drop_last()).push_line(
                LineView { stream, content: contents.last() },
            )
        }
    }

    /// A chunk of one stream.
    pub open spec fn push_bytes(self, stream: OutputStream, bytes: Seq<u8>) -> CaptureView {
        match stream {
            OutputStream::Stdout => {
                let (decoder, lines) = self.stdout.feed(bytes);
                CaptureView { stdout: decoder, ..self }.push_lines(stream, lines)
            },
            OutputStream::Stderr => {
                let (decoder, lines) = self.stderr.feed(bytes);
                CaptureView { stderr: decoder, ..self }.push_lines(stream, lines)
            },
        }
    }

    /// The end of one stream.
    pub open spec fn end_stream(self, stream: OutputStream) -> CaptureView {
        match stream {
            OutputStream::Stdout => {
                let (decoder, lines) = self.stdout.end();
                CaptureView { stdout: decoder, ..self }.push_lines(stream, lines)
            },
            OutputStream::Stderr => {
                let (decoder, lines) = self.stderr.end();
                CaptureView { stderr: decoder, ..self }.push_lines(stream, lines)
            },
        }
    }

    /// The lines that are kept, as they are shown.
    pub open spec fn shown(self) -> Seq<Seq<char>> {
        (self.head + self.tail).map_values(|line: LineView| rendered_line(line))
    }

    /// The bytes that are reported: more than the limit whenever a line was
    /// too long to keep.
    pub open spec fn reported_bytes(self) -> nat {
        if self.saw_truncated && self.total_bytes <= MAX_OUTPUT_BYTES {
            MAX_OUTPUT_BYTES as nat + 1
        } else {
            self.total_bytes as nat
        }
    }
}

impl CapturedOutput {
    /// A capture with nothing in it.
    pub fn new() -> (capture: Self)
        ensures
            capture@ == CaptureView::fresh(),
            capture@.wf(),
    {
        let capture = CapturedOutput {
            stdout: StreamDecoder::new(),
            stderr: StreamDecoder::new(),
            head_lines: Vec::new(),
            tail_lines: Vec::new(),
            total_lines: 0,
            total_bytes: 0,
            saw_truncated_line: false,
        };
        assert(capture@ =~= CaptureView::fresh());
        capture
    }

    /// Adds one finished line.
    pub fn push_line(&mut self, stream: OutputStream, content: OutputContent)
        ensures
            final(self)@ == old(self)@.push_line(LineView { stream, content: content@ }),
    {
        let separator: usize = if self.total_lines == 0 {
            0
        } else {
            1
        };
        let line = OutputLine { stream, content };
        let ghost added = line@;
        self.total_bytes = self.total_bytes.saturating_add(separator).saturating_add(
            formatted_output_line_len(&line),
        );
        let too_long = match &line.content {
            OutputContent::Truncated { .. } => true,
            _ => false,
        };
        if too_long {
            self.saw_truncated_line = true;
        }
        if self.total_lines < KEPT_LINES {
            self.head_lines.push(line);
            assert(line_views(self.head_lines@) =~= old(self)@.head.push(added));
        } else {
            self.tail_lines.push(line);
            assert(line_views(self.tail_lines@) =~= old(self)@.tail.push(added));
            if KEPT_LINES < self.tail_lines.len() {
                let _ = self.tail_lines.remove(0);
                assert(line_views(self.tail_lines@) =~= old(self)@.tail.push(added).drop_first());
            }
        }
        self.total_lines = self.total_lines.saturating_add(1);
    }

    fn push_lines(&mut self, stream: OutputStream, contents: Vec<OutputContent>)
        ensures
            final(self)@ == old(self)@.push_lines(stream, content_views(contents@)),
    {
        let ghost all = content_views(contents@);
        assert(all.take(0) =~= seq![]);
        for content in iter: contents
            invariant
                iter.seq() == contents@,
                all == content_views(contents@),
                self@ == old(self)@.push_lines(stream, all.take(iter.index())),
        {
            assert(all.take(iter.index() + 1).drop_last() =~= all.take(iter.index()));
            self.push_line(stream, content);
        }
        assert(all.take(all.len() as int) =~= all);
    }

    /// Adds a chunk of one stream.
    pub fn push_bytes(&mut self, stream: OutputStream, bytes: &[u8])
        requires
            old(self)@.wf(),
        ensures
            final(self)@ == old(self)@.push_bytes(stream, bytes@),
            final(self)@.wf(),
    {
        let lines = match stream {
            OutputStream::Stdout => self.stdout.push_bytes(bytes),
            OutputStream::Stderr => self.stderr.push_bytes(bytes),
        };
        proof {
            lemma_push_lines_keeps(self@, stream, content_views(lines@));
        }
        self.push_lines(stream, lines);
    }

    /// Ends both streams.
    pub fn finish(&mut self)
        requires
            old(self)@.wf(),
        ensures
            final(self)@ == old(self)@.end_stream(OutputStream::Stdout).end_stream(
                OutputStream::Stderr,
            ),
            final(self)@.wf(),
    {
        let out = self.stdout.finish();
        proof {
            lemma_push_lines_keeps(self@, OutputStream::Stdout, content_views(out@));
        }
        self.push_lines(OutputStream::Stdout, out);
        let err = self.stderr.finish();
        proof {
            lemma_push_lines_keeps(self@, OutputStream::Stderr, content_views(err@));
        }
        self.push_lines(OutputStream::Stderr, err);
    }

    /// Records that a stream held invalid bytes.
    pub fn mark_invalid_utf8(&mut self, stream: OutputStream, had_invalid_utf8: bool)
        ensures
            final(self)@ == (match stream {
                OutputStream::Stdout => CaptureView {
                    stdout: DecoderView {
                        had_invalid: old(self)@.stdout.had_invalid || had_invalid_utf8,
                        ..old(self)@.stdout
                    },
                    ..old(self)@
                },
                OutputStream::Stderr => CaptureView {
                    stderr: DecoderView {
                        had_invalid: old(self)@.stderr.had_invalid || had_invalid_utf8,
                        ..old(self)@.stderr
                    },
                    ..old(self)@
                },
            }),
    {
        if !had_invalid_utf8 {
            return ;
        }
        match stream {
            OutputStream::Stdout => {
                self.stdout.had_invalid_utf8 = true;
            },
            OutputStream::Stderr => {
                self.stderr.had_invalid_utf8 = true;
            },
        }
    }

    /// Whether either stream held invalid bytes.
    pub fn had_invalid_utf8(&self) -> (b: bool)
        ensures
            b == (self@.stdout.had_invalid || self@.stderr.had_invalid),
    {
        self.stdout.had_invalid_utf8 || self.stderr.had_invalid_utf8
    }

    /// The output that is shown, within the limits.
    pub fn truncate(&self) -> (r: Truncated)
        ensures
            truncates(r, self@.shown(), self@.total_lines as nat, self@.reported_bytes()),
    {
        let mut rendered: Vec<String> = Vec::new();
        let mut i: usize = 0;
        while i < self.head_lines.len()
            invariant
                i <= self.head_lines@.len(),
                views(rendered@) == self@.shown().take(i as int),
            decreases self.head_lines.len() - i,
        {
            let ghost before = rendered@;
            rendered.push(render_output_line(&self.head_lines[i]));
            i += 1;
            assert(views(rendered@) =~= views(before).push(rendered_line(self@.head[i - 1])));
            assert(views(rendered@) =~= self@.shown().take(i as int));
        }
        let ghost n = self.head_lines@.len() as int;
        let mut k: usize = 0;
        while k < self.tail_lines.len()
            invariant
                k <= self.tail_lines@.len(),
                n == self@.head.len(),
                views(rendered@) == self@.shown().take(n + k),
            decreases self.tail_lines.len() - k,
        {
            let ghost before = rendered@;
            rendered.push(render_output_line(&self.tail_lines[k]));
            k += 1;
            assert(views(rendered@) =~= views(before).push(rendered_line(self@.tail[k - 1])));
            assert(views(rendered@) =~= self@.shown().take(n + k));
        }
        assert(views(rendered@) =~= self@.shown());
        let bytes: usize = if self.saw_truncated_line && self.total_bytes <= MAX_OUTPUT_BYTES {
            MAX_OUTPUT_BYTES + 1
        } else {
            self.total_bytes
        };
        truncate_line_oriented_lines(&rendered, self.total_lines, bytes)
    }
}

/// Adding lines leaves the decoders alone.
proof fn lemma_push_lines_keeps(m: CaptureView, stream: OutputStream, contents: Seq<ContentView>)
    ensures
        m.push_lines(stream, contents).stdout == m.stdout,
        m.push_lines(stream, contents).stderr == m.stderr,
    decreases contents.len(),
{
    if contents.len() > 0 {
        lemma_push_lines_keeps(m, stream, contents.drop_last());
    }
}

/// Whether a capture holds what it should of the lines that came: the first
/// thousand, the last thousand of the others, and their number.
pub open spec fn retains(m: CaptureView, all: Seq<LineView>) -> bool {
    let n = all.len() as int;
    let kept = KEPT_LINES as int;
    &&& m.total_lines == n
    &&& m.head == if n <= kept {
        all
    } else {
        all.take(kept)
    }
    &&& m.tail == if n <= kept {
        seq![]
    } else if n <= 2 * kept {
        all.skip(kept)
    } else {
        all.skip(n - kept)
    }
}

/// Whatever lines come, the capture holds the first and the last thousand of
/// them.
pub proof fn law_capture_retains_both_ends(m: CaptureView, all: Seq<LineView>, line: LineView)
    requires
        retains(m, all),
        all.len() < usize::MAX,
    ensures
        retains(m.push_line(line), all.push(line)),
{
    let n = all.len() as int;
    let kept = KEPT_LINES as int;
    let after = m.push_line(line);
    if n < kept {
        assert(after.head =~= all.push(line));
    } else {
        assert(all.push(line).take(kept) =~= all.take(kept));
        assert(after.head =~= all.push(line).take(kept));
        if n < 2 * kept {
            assert(all.skip(kept).push(line) =~= all.push(line).skip(kept));
            if n == kept {
                assert(after.tail =~= all.push(line).skip(kept));
            }
        } else {
            if n == 2 * kept {
                assert(all.skip(kept) =~= all.skip(n - kept));
            }
            assert(after.tail =~= all.push(line).skip(n + 1 - kept));
        }
    }
}

/// Dropping the middle of the output early loses nothing that truncation would
/// show: the lines selected from what is kept are those selected from all.
pub proof fn law_capture_loses_nothing_shown(m: CaptureView, all: Seq<LineView>)
    requires
        retains(m, all),
    ensures
        selected(m.shown(), m.total_lines as nat) == selected(
            all.map_values(|line: LineView| rendered_line(line)),
            all.len(),
        ),
{
    let whole = all.map_values(|line: LineView| rendered_line(line));
    let n = all.len() as int;
    let kept = KEPT_LINES as int;
    if n <= 2 * kept {
        assert(m.head + m.tail =~= all);
        assert(m.shown() =~= whole);
    } else {
        assert(m.shown().take(kept) =~= whole.take(kept));
        assert(m.shown().skip(kept) =~= whole.skip(n - kept));
    }
}

} // verus!
