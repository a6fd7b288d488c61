//! Text as sequences of characters: lengths in bytes, lines, joins, decimal
//! numbers and trimming.

use vstd::prelude::*;
use vstd::utf8::{encode_scalar, encode_utf8, encode_utf8_decode_utf8};

verus! {

/// `String::push` appends one character.
pub assume_specification[ String::push ](s: &mut String, c: char)
    ensures
        final(s)@ == old(s)@.push(c),
;

/// The number of bytes that a text takes in UTF-8.
pub open spec fn utf8_len(text: Seq<char>) -> nat {
    encode_utf8(text).len()
}

/// The number of bytes that one character takes in UTF-8.
pub open spec fn char_width(c: char) -> nat {
    if (c as u32) < 0x80 {
        1
    } else if (c as u32) < 0x800 {
        2
    } else if (c as u32) < 0x10000 {
        3
    } else {
        4
    }
}

/// The views of a list of strings.
pub open spec fn views(list: Seq<String>) -> Seq<Seq<char>> {
    list.map_values(|s: String| s@)
}

/// The view of an optional string.
pub open spec fn opt_view(s: Option<String>) -> Option<Seq<char>> {
    match s {
        Some(s) => Some(s@),
        None => None,
    }
}

/// A single character takes as many bytes as its width says.
pub proof fn lemma_scalar_width(c: char)
    ensures
        encode_scalar(c as u32).len() == char_width(c),
{
    vstd::utf8::char_is_scalar(c);
}

/// The bytes of a concatenation are the bytes of the two parts.
pub proof fn lemma_encode_concat(a: Seq<char>, b: Seq<char>)
    ensures
        encode_utf8(a + b) == encode_utf8(a) + encode_utf8(b),
    decreases a.len(),
{
    if a.len() == 0 {
        assert(a + b =~= b);
        assert(encode_utf8(a) + encode_utf8(b) =~= encode_utf8(b));
    } else {
        assert((a + b).drop_first() =~= a.drop_first() + b);
        lemma_encode_concat(a.drop_first(), b);
        assert(encode_utf8(a + b) =~= encode_utf8(a) + encode_utf8(b));
    }
}

/// The length of a concatenation in bytes is the sum of the two lengths.
pub proof fn lemma_utf8_len_concat(a: Seq<char>, b: Seq<char>)
    ensures
        utf8_len(a + b) == utf8_len(a) + utf8_len(b),
{
    lemma_encode_concat(a, b);
}

/// One more character adds its width.
pub proof fn lemma_utf8_len_push(a: Seq<char>, c: char)
    ensures
        utf8_len(a.push(c)) == utf8_len(a) + char_width(c),
{
    assert(a.push(c) =~= a + seq![c]);
    lemma_utf8_len_concat(a, seq![c]);
    lemma_scalar_width(c);
    assert(seq![c].drop_first() =~= Seq::<char>::empty());
    assert(encode_utf8(Seq::<char>::empty()) =~= Seq::<u8>::empty());
    assert(encode_utf8(seq![c]) == encode_scalar(c as u32) + encode_utf8(seq![c].drop_first()));
}

/// The empty text takes no bytes, and only it.
pub proof fn lemma_utf8_len_empty(a: Seq<char>)
    ensures
        utf8_len(a) == 0 <==> a.len() == 0,
        a.len() <= utf8_len(a) <= 4 * a.len(),
    decreases a.len(),
{
    if a.len() > 0 {
        lemma_utf8_len_empty(a.drop_last());
        lemma_utf8_len_push(a.drop_last(), a.last());
        assert(a.drop_last().push(a.last()) =~= a);
    }
}

/// A prefix takes no more bytes than the whole.
pub proof fn lemma_utf8_len_take(a: Seq<char>, n: int)
    requires
        0 <= n <= a.len(),
    ensures
        utf8_len(a) == utf8_len(a.take(n)) + utf8_len(a.skip(n)),
{
    assert(a =~= a.take(n) + a.skip(n));
    lemma_utf8_len_concat(a.take(n), a.skip(n));
}

/// The length in bytes.
pub fn byte_len(text: &str) -> (n: usize)
    ensures
        n == utf8_len(text@),
{
    text.as_bytes().len()
}

/// The width of one character in bytes.
pub fn width_of(c: char) -> (n: usize)
    ensures
        n == char_width(c),
{
    let code: u32 = c as u32;
    if code < 0x80 {
        1
    } else if code < 0x800 {
        2
    } else if code < 0x10000 {
        3
    } else {
        4
    }
}

/// Whether two texts are the same.
pub fn same_text(a: &str, b: &str) -> (same: bool)
    ensures
        same == (a@ == b@),
{
    let x = a.as_bytes();
    let y = b.as_bytes();
    if x.len() != y.len() {
        return false;
    }
    let mut i: usize = 0;
    while i < x.len()
        invariant
            i <= x.len(),
            x@.len() == y@.len(),
            x@ == encode_utf8(a@),
            y@ == encode_utf8(b@),
            forall|j: int| 0 <= j < i ==> x@[j] == y@[j],
        decreases x.len() - i,
    {
        if x[i] != y[i] {
            return false;
        }
        i += 1;
    }
    proof {
        assert(x@ =~= y@);
        encode_utf8_decode_utf8(a@);
        encode_utf8_decode_utf8(b@);
    }
    true
}

/// The characters of a text.
pub fn chars_of(text: &str) -> (chars: Vec<char>)
    ensures
        chars@ == text@,
{
    let mut chars: Vec<char> = Vec::new();
    for c in iter: text.chars()
        invariant
            iter.seq() == text@,
            chars@ == text@.take(iter.index()),
    {
        chars.push(c);
    }
    chars
}

/// The text made of a range of characters.
pub fn text_of(chars: &Vec<char>, from: usize, to: usize) -> (text: String)
    requires
        from <= to <= chars@.len(),
    ensures
        text@ == chars@.subrange(from as int, to as int),
{
    let mut text = String::new();
    let mut i: usize = from;
    while i < to
        invariant
            from <= i <= to <= chars@.len(),
            text@ == chars@.subrange(from as int, i as int),
        decreases to - i,
    {
        text.push(chars[i]);
        i += 1;
        assert(text@ =~= chars@.subrange(from as int, i as int));
    }
    text
}

/// Where a character first stands in a text; the text's length if nowhere.
pub open spec fn position(text: Seq<char>, c: char) -> int
    decreases text.len(),
{
    if text.len() == 0 || text[0] == c {
        0
    } else {
        1 + position(text.drop_first(), c)
    }
}

/// `position` is the least index that holds the character.
pub proof fn lemma_position(text: Seq<char>, c: char)
    ensures
        0 <= position(text, c) <= text.len(),
        forall|j: int| 0 <= j < position(text, c) ==> text[j] != c,
        position(text, c) < text.len() ==> text[position(text, c)] == c,
    decreases text.len(),
{
    if text.len() > 0 && text[0] != c {
        let rest = text.drop_first();
        lemma_position(rest, c);
        assert forall|j: int| 0 <= j < position(text, c) implies text[j] != c by {
            if j > 0 {
                assert(rest[j - 1] == text[j]);
            }
        }
    }
}

/// An index with the property of `position` is `position`.
pub proof fn lemma_position_unique(text: Seq<char>, c: char, p: int)
    requires
        0 <= p <= text.len(),
        forall|j: int| 0 <= j < p ==> text[j] != c,
        p < text.len() ==> text[p] == c,
    ensures
        p == position(text, c),
{
    lemma_position(text, c);
}

/// Finds the first place of a character from `from` on.
pub fn find_char(chars: &Vec<char>, from: usize, c: char) -> (p: usize)
    requires
        from <= chars@.len(),
    ensures
        from <= p <= chars@.len(),
        p - from == position(chars@.skip(from as int), c),
{
    let mut p: usize = from;
    while p < chars.len() && chars[p] != c
        invariant
            from <= p <= chars@.len(),
            forall|j: int| from <= j < p ==> chars@[j] != c,
        decreases chars.len() - p,
    {
        p += 1;
    }
    proof {
        let rest = chars@.skip(from as int);
        assert forall|j: int| 0 <= j < p - from implies rest[j] != c by {
            assert(rest[j] == chars@[j + from]);
        }
        if p < chars@.len() {
            assert(rest[p - from] == chars@[p as int]);
        }
        lemma_position_unique(rest, c, p - from);
    }
    p
}

/// What stands before and after the first occurrence of a character.
pub open spec fn split_at_char(text: Seq<char>, c: char) -> Option<(Seq<char>, Seq<char>)> {
    let p = position(text, c);
    if p < text.len() {
        Some((text.take(p), text.skip(p + 1)))
    } else {
        None
    }
}

/// The view of an optional pair of strings.
pub open spec fn opt_pair_view(pair: Option<(String, String)>) -> Option<(Seq<char>, Seq<char>)> {
    match pair {
        Some((a, b)) => Some((a@, b@)),
        None => None,
    }
}

/// Splits a text at the first occurrence of a character.
pub fn split_once_char(text: &str, c: char) -> (parts: Option<(String, String)>)
    ensures
        opt_pair_view(parts) == split_at_char(text@, c),
{
    let chars = chars_of(text);
    let p = find_char(&chars, 0, c);
    assert(chars@.skip(0) =~= chars@);
    proof {
        lemma_position(text@, c);
    }
    if p < chars.len() {
        let head = text_of(&chars, 0, p);
        let tail = text_of(&chars, p + 1, chars.len());
        assert(head@ =~= text@.take(p as int));
        assert(tail@ =~= text@.skip(p + 1));
        Some((head, tail))
    } else {
        None
    }
}

/// A line without the carriage return at its end.
pub open spec fn without_cr(line: Seq<char>) -> Seq<char> {
    if line.len() > 0 && line.last() == '\r' {
        line.drop_last()
    } else {
        line
    }
}

/// The lines of a text. A line ends with `\n` or `\r\n`, neither of which
/// belongs to it; the last line may have no ending, and then keeps a `\r`.
pub open spec fn lines_of(text: Seq<char>) -> Seq<Seq<char>>
    decreases text.len(),
{
    let p = position(text, '\n');
    if text.len() == 0 {
        seq![]
    } else if p < 0 || p >= text.len() {
        seq![text]
    } else {
        seq![without_cr(text.take(p))] + lines_of(text.skip(p + 1))
    }
}

/// The lines of a text, without their endings.
pub fn lines(text: &str) -> (list: Vec<String>)
    ensures
        views(list@) == lines_of(text@),
{
    let chars = chars_of(text);
    let mut list: Vec<String> = Vec::new();
    let mut at: usize = 0;
    assert(chars@.skip(0) =~= text@);
    assert(views(list@) + lines_of(text@) =~= lines_of(text@));
    while at < chars.len()
        invariant
            at <= chars@.len(),
            chars@ == text@,
            views(list@) + lines_of(chars@.skip(at as int)) == lines_of(text@),
        decreases chars.len() - at,
    {
        let p = find_char(&chars, at, '\n');
        let ghost rest = chars@.skip(at as int);
        let ghost before = list@;
        if p < chars.len() {
            let end: usize = if p > at && chars[p - 1] == '\r' {
                p - 1
            } else {
                p
            };
            let line = text_of(&chars, at, end);
            proof {
                let head = rest.take(p - at);
                if p > at {
                    assert(head.last() == chars@[p - 1]);
                }
                assert(line@ =~= without_cr(head));
                assert(rest.skip(p - at + 1) =~= chars@.skip(p + 1));
            }
            list.push(line);
            assert(views(list@) =~= views(before).push(line@));
            assert(views(before) + (seq![line@] + lines_of(chars@.skip(p + 1))) =~= views(list@)
                + lines_of(chars@.skip(p + 1)));
            at = p + 1;
        } else {
            let line = text_of(&chars, at, chars.len());
            assert(line@ =~= rest);
            list.push(line);
            assert(views(list@) =~= views(before).push(line@));
            at = chars.len();
            assert(chars@.skip(at as int) =~= Seq::<char>::empty());
            assert(views(before) + seq![line@] =~= views(list@) + lines_of(
                Seq::<char>::empty(),
            ));
        }
    }
    assert(chars@.skip(at as int) =~= Seq::<char>::empty());
    assert(views(list@) + lines_of(Seq::<char>::empty()) =~= views(list@));
    list
}

/// The pieces one after another, with the separator between any two.
pub open spec fn join_of(pieces: Seq<Seq<char>>, separator: Seq<char>) -> Seq<char>
    decreases pieces.len(),
{
    if pieces.len() == 0 {
        seq![]
    } else if pieces.len() == 1 {
        pieces[0]
    } else {
        join_of(pieces.drop_last(), separator) + separator + pieces.last()
    }
}

/// Joins pieces with a separator between any two.
pub fn join(pieces: &Vec<String>, separator: &str) -> (text: String)
    ensures
        text@ == join_of(views(pieces@), separator@),
{
    let mut text = String::new();
    let mut i: usize = 0;
    while i < pieces.len()
        invariant
            i <= pieces@.len(),
            text@ == join_of(views(pieces@).take(i as int), separator@),
        decreases pieces.len() - i,
    {
        if i > 0 {
            text.append(separator);
        }
        text.append(pieces[i].as_str());
        i += 1;
        proof {
            let upto = views(pieces@).take(i as int);
            assert(upto.drop_last() =~= views(pieces@).take(i - 1));
            assert(upto.last() == pieces@[i - 1]@);
            if i == 1 {
                assert(text@ =~= upto[0]);
            }
        }
    }
    assert(views(pieces@).take(i as int) =~= views(pieces@));
    text
}

/// The digits of a number in base ten, without leading zeros.
pub open spec fn decimal_of(n: nat) -> Seq<char>
    decreases n,
{
    if n < 10 {
        seq![(('0' as u32 + n) as u32) as char]
    } else {
        decimal_of(n / 10).push((('0' as u32 + n % 10) as u32) as char)
    }
}

/// The digits of an integer in base ten, with a minus sign before a negative
/// one.
pub open spec fn signed_decimal_of(n: int) -> Seq<char> {
    if n < 0 {
        seq!['-'] + decimal_of((-n) as nat)
    } else {
        decimal_of(n as nat)
    }
}

/// The number in base ten.
pub fn decimal(n: u64) -> (text: String)
    ensures
        text@ == decimal_of(n as nat),
    decreases n,
{
    let digit: u8 = 48 + (n % 10) as u8;
    if n < 10 {
        let mut text = String::new();
        text.push(digit as char);
        assert(text@ =~= decimal_of(n as nat));
        text
    } else {
        let mut text = decimal(n / 10);
        text.push(digit as char);
        text
    }
}

/// The integer in base ten.
pub fn signed_decimal(n: i64) -> (text: String)
    ensures
        text@ == signed_decimal_of(n as int),
{
    if n < 0 {
        let magnitude: u64 = (-(n as i128)) as u64;
        let mut text = String::new();
        text.push('-');
        let digits = decimal(magnitude);
        text.append(digits.as_str());
        assert(text@ =~= signed_decimal_of(n as int));
        text
    } else {
        decimal(n as u64)
    }
}

/// Whether a character is white space, as Unicode's `White_Space` property
/// says.
pub open spec fn is_space(c: char) -> bool {
    let u = c as u32;
    ||| 0x09 <= u <= 0x0d
    ||| u == 0x20
    ||| u == 0x85
    ||| u == 0xa0
    ||| u == 0x1680
    ||| 0x2000 <= u <= 0x200a
    ||| u == 0x2028
    ||| u == 0x2029
    ||| u == 0x202f
    ||| u == 0x205f
    ||| u == 0x3000
}

/// Whether a character is white space.
pub fn space(c: char) -> (b: bool)
    ensures
        b == is_space(c),
{
    let u: u32 = c as u32;
    (0x09 <= u && u <= 0x0d) || u == 0x20 || u == 0x85 || u == 0xa0 || u == 0x1680 || (0x2000 <= u
        && u <= 0x200a) || u == 0x2028 || u == 0x2029 || u == 0x202f || u == 0x205f || u == 0x3000
}

/// The text without the white space at its end.
pub open spec fn trim_end_of(text: Seq<char>) -> Seq<char>
    decreases text.len(),
{
    if text.len() > 0 && is_space(text.last()) {
        trim_end_of(text.drop_last())
    } else {
        text
    }
}

/// The text without the white space at its start.
pub open spec fn trim_start_of(text: Seq<char>) -> Seq<char>
    decreases text.len(),
{
    if text.len() > 0 && is_space(text[0]) {
        trim_start_of(text.drop_first())
    } else {
        text
    }
}

/// The text without the white space at its two ends.
pub open spec fn trim_of(text: Seq<char>) -> Seq<char> {
    trim_end_of(trim_start_of(text))
}

/// Removes the white space at the two ends.
pub fn trim(text: &str) -> (trimmed: String)
    ensures
        trimmed@ == trim_of(text@),
{
    let chars = chars_of(text);
    let mut from: usize = 0;
    assert(chars@.skip(0) =~= text@);
    while from < chars.len() && space(chars[from])
        invariant
            from <= chars@.len(),
            trim_start_of(chars@.skip(from as int)) == trim_start_of(text@),
        decreases chars.len() - from,
    {
        from += 1;
        assert(chars@.skip(from - 1).drop_first() =~= chars@.skip(from as int));
    }
    let mut to: usize = chars.len();
    assert(chars@.subrange(from as int, to as int) =~= chars@.skip(from as int));
    while to > from && space(chars[to - 1])
        invariant
            from <= to <= chars@.len(),
            trim_end_of(chars@.subrange(from as int, to as int)) == trim_of(text@),
        decreases to,
    {
        to -= 1;
        assert(chars@.subrange(from as int, to + 1).drop_last() =~= chars@.subrange(
            from as int,
            to as int,
        ));
    }
    text_of(&chars, from, to)
}

/// Whether a text starts with another.
pub fn starts_with(text: &str, prefix: &str) -> (b: bool)
    ensures
        b == prefix@.is_prefix_of(text@),
{
    let whole = chars_of(text);
    let part = chars_of(prefix);
    matches_at(&whole, &part, 0)
}

/// Whether `part` stands in `whole` at an index.
pub open spec fn stands_at(whole: Seq<char>, part: Seq<char>, at: int) -> bool {
    0 <= at && at + part.len() <= whole.len() && whole.subrange(at, at + part.len()) == part
}

/// Whether `part` stands in `whole` at an index.
pub fn matches_at(whole: &Vec<char>, part: &Vec<char>, at: usize) -> (b: bool)
    requires
        at <= whole@.len(),
    ensures
        b == stands_at(whole@, part@, at as int),
        at == 0 ==> b == part@.is_prefix_of(whole@),
{
    let n: usize = whole.len();
    if part.len() > n - at {
        return false;
    }
    let mut i: usize = 0;
    while i < part.len()
        invariant
            i <= part@.len(),
            n == whole@.len(),
            at + part@.len() <= n,
            forall|j: int| 0 <= j < i ==> part@[j] == whole@[at + j],
        decreases part.len() - i,
    {
        if part[i] != whole[at + i] {
            assert(whole@.subrange(at as int, at + part@.len())[i as int] != part@[i as int]);
            return false;
        }
        i += 1;
    }
    assert(whole@.subrange(at as int, at + part@.len()) =~= part@);
    true
}

/// Whether a text holds another.
pub open spec fn holds(whole: Seq<char>, part: Seq<char>) -> bool {
    exists|at: int| stands_at(whole, part, at)
}

/// Whether a text holds another.
pub fn contains(text: &str, part: &str) -> (b: bool)
    ensures
        b == holds(text@, part@),
{
    let whole = chars_of(text);
    let wanted = chars_of(part);
    let mut at: usize = 0;
    while at < whole.len()
        invariant
            at <= whole@.len(),
            whole@ == text@,
            wanted@ == part@,
            forall|j: int| 0 <= j < at ==> !stands_at(whole@, wanted@, j),
        decreases whole.len() - at,
    {
        if matches_at(&whole, &wanted, at) {
            return true;
        }
        at += 1;
    }
    if matches_at(&whole, &wanted, at) {
        return true;
    }
    false
}

/// The longest start of a text that takes at most `max` bytes.
pub open spec fn clip(text: Seq<char>, max: nat) -> Seq<char>
    decreases text.len(),
{
    if utf8_len(text) <= max || text.len() == 0 {
        text
    } else {
        clip(text.drop_last(), max)
    }
}

/// What `clip` gives: a start of the text within the limit, which the next
/// character would pass.
pub proof fn lemma_clip(text: Seq<char>, max: nat)
    ensures
        clip(text, max).len() <= text.len(),
        clip(text, max) == text.take(clip(text, max).len() as int),
        utf8_len(clip(text, max)) <= max,
        clip(text, max).len() == text.len() <==> utf8_len(text) <= max,
        clip(text, max).len() < text.len() ==> utf8_len(
            text.take(clip(text, max).len() as int + 1),
        ) > max,
    decreases text.len(),
{
    lemma_utf8_len_empty(text);
    if utf8_len(text) <= max || text.len() == 0 {
        assert(text.take(text.len() as int) =~= text);
    } else {
        let shorter = text.drop_last();
        lemma_clip(shorter, max);
        let n = clip(shorter, max).len() as int;
        assert(shorter.take(n) =~= text.take(n));
        if n < shorter.len() {
            assert(shorter.take(n + 1) =~= text.take(n + 1));
        } else {
            assert(text.take(n + 1) =~= text);
        }
    }
}

/// The start of a text that ends just before its bytes pass `max` is `clip`.
pub proof fn lemma_clip_unique(text: Seq<char>, max: nat, n: int)
    requires
        0 <= n <= text.len(),
        utf8_len(text.take(n)) <= max,
        n < text.len() ==> utf8_len(text.take(n + 1)) > max,
    ensures
        clip(text, max) == text.take(n),
{
    lemma_clip(text, max);
    let m = clip(text, max).len() as int;
    if m < n {
        lemma_utf8_len_take(text.take(n), m + 1);
        assert(text.take(n).take(m + 1) =~= text.take(m + 1));
    } else if m > n {
        lemma_utf8_len_take(text.take(m), n + 1);
        assert(text.take(m).take(n + 1) =~= text.take(n + 1));
    }
}

/// The longest start of a text that takes at most `max_bytes` bytes.
pub fn utf8_prefix(input: &str, max_bytes: usize) -> (prefix: String)
    ensures
        prefix@ == clip(input@, max_bytes as nat),
{
    let chars = chars_of(input);
    let mut used: usize = 0;
    let mut n: usize = 0;
    assert(chars@.take(0) =~= Seq::<char>::empty());
    while n < chars.len() && width_of(chars[n]) <= max_bytes - used
        invariant
            n <= chars@.len(),
            used <= max_bytes,
            used == utf8_len(chars@.take(n as int)),
        decreases chars.len() - n,
    {
        proof {
            lemma_utf8_len_push(chars@.take(n as int), chars@[n as int]);
            assert(chars@.take(n as int).push(chars@[n as int]) =~= chars@.take(n + 1));
        }
        used = used + width_of(chars[n]);
        n += 1;
    }
    proof {
        if n < chars@.len() {
            lemma_utf8_len_push(chars@.take(n as int), chars@[n as int]);
            assert(chars@.take(n as int).push(chars@[n as int]) =~= chars@.take(n + 1));
        }
        lemma_clip_unique(chars@, max_bytes as nat, n as int);
        assert(chars@.take(n as int) =~= chars@.subrange(0, n as int));
    }
    text_of(&chars, 0, n)
}

/// A piece put in front of a join.
pub proof fn lemma_join_front(first: Seq<char>, rest: Seq<Seq<char>>, separator: Seq<char>)
    requires
        rest.len() > 0,
    ensures
        join_of(seq![first] + rest, separator) == first + separator + join_of(rest, separator),
    decreases rest.len(),
{
    let whole = seq![first] + rest;
    if rest.len() == 1 {
        assert(whole.drop_last() =~= seq![first]);
        assert(join_of(seq![first], separator) == first);
        assert(join_of(rest, separator) == rest[0]);
        assert(whole.last() == rest[0]);
        assert(join_of(whole, separator) =~= first + separator + rest[0]);
    } else {
        assert(whole.drop_last() =~= seq![first] + rest.drop_last());
        lemma_join_front(first, rest.drop_last(), separator);
        assert(join_of(whole, separator) =~= first + separator + join_of(rest, separator));
    }
}

/// Joining the lines of a text again takes no more bytes than the text.
pub proof fn lemma_lines_bytes(text: Seq<char>)
    ensures
        utf8_len(join_of(lines_of(text), "\n"@)) <= utf8_len(text),
    decreases text.len(),
{
    reveal_strlit("\n");
    let p = position(text, '\n');
    lemma_position(text, '\n');
    lemma_utf8_len_empty(Seq::<char>::empty());
    if text.len() > 0 && p < text.len() {
        let head = text.take(p);
        let rest = text.skip(p + 1);
        lemma_lines_bytes(rest);
        assert(text =~= head + "\n"@ + rest);
        lemma_utf8_len_concat(head + "\n"@, rest);
        lemma_utf8_len_concat(head, "\n"@);
        if head.len() > 0 {
            assert(head.drop_last().push(head.last()) =~= head);
            lemma_utf8_len_push(head.drop_last(), head.last());
        }
        let line = without_cr(head);
        if lines_of(rest).len() == 0 {
            assert(lines_of(text) =~= seq![line]);
        } else {
            lemma_join_front(line, lines_of(rest), "\n"@);
            lemma_utf8_len_concat(line + "\n"@, join_of(lines_of(rest), "\n"@));
            lemma_utf8_len_concat(line, "\n"@);
        }
    }
}

/// A last line without an ending stands at the end of the lines.
pub proof fn lemma_lines_last(start: Seq<char>, last: Seq<char>)
    requires
        start.len() == 0 || start.last() == '\n',
        last.len() > 0,
        !last.contains('\n'),
    ensures
        lines_of(start + last) == lines_of(start).push(last),
    decreases start.len(),
{
    let whole = start + last;
    if start.len() == 0 {
        assert(whole =~= last);
        lemma_position(last, '\n');
        assert(lines_of(whole) =~= lines_of(start).push(last));
    } else {
        lemma_position(start, '\n');
        let p = position(start, '\n');
        if p == start.len() {
            assert(start[start.len() - 1] != '\n');
        }
        lemma_position_unique(whole, '\n', p);
        assert(whole.take(p) =~= start.take(p));
        assert(whole.skip(p + 1) =~= start.skip(p + 1) + last);
        if start.skip(p + 1).len() > 0 {
            assert(start.skip(p + 1).last() == start.last());
        }
        lemma_lines_last(start.skip(p + 1), last);
        assert(lines_of(whole) =~= lines_of(start).push(last));
    }
}

/// Copies of strings.
pub fn copy_texts(list: &Vec<String>) -> (copies: Vec<String>)
    ensures
        views(copies@) == views(list@),
{
    let mut out: Vec<String> = Vec::new();
    let mut i: usize = 0;
    assert(views(out@) =~= views(list@).take(0));
    while i < list.len()
        invariant
            i <= list@.len(),
            views(out@) == views(list@).take(i as int),
        decreases list.len() - i,
    {
        let ghost before = out@;
        let text = list[i].clone();
        out.push(text);
        assert(views(out@) =~= views(before).push(text@));
        i += 1;
        assert(views(out@) =~= views(list@).take(i as int));
    }
    assert(views(list@).take(i as int) =~= views(list@));
    out
}

/// Puts a string behind others.
pub fn push_text(list: &mut Vec<String>, text: String)
    ensures
        views(final(list)@) == views(old(list)@).push(text@),
{
    let ghost before = list@;
    list.push(text);
    assert(views(list@) =~= views(before).push(text@));
}

/// A text as Rust's `{:?}` writes it: in quotes, with escapes.
pub uninterp spec fn debug_of(text: Seq<char>) -> Seq<char>;

/// The `Debug` form of a `str`, through `format!`. Which characters it escapes
/// is not stated here, only that the text decides it.
#[verifier::external_body]
pub(crate) fn debug_text(text: &str) -> (shown: String)
    ensures
        shown@ == debug_of(text@),
{
    format!("{:?}", text)
}

/// A text in lower case, as Unicode has it.
pub uninterp spec fn lowercase_of(text: Seq<char>) -> Seq<char>;

/// `str::to_lowercase`. Which characters change is not stated here, only that
/// the text decides it.
#[verifier::external_body]
pub(crate) fn lowercase(text: &str) -> (lower: String)
    ensures
        lower@ == lowercase_of(text@),
{
    text.to_lowercase()
}

/// What stands behind a prefix of a text; nothing where the text has another
/// start.
pub open spec fn after_prefix(text: Seq<char>, prefix: Seq<char>) -> Option<Seq<char>> {
    if prefix.is_prefix_of(text) {
        Some(text.skip(prefix.len() as int))
    } else {
        None
    }
}

/// What stands behind a prefix of a text.
pub fn strip_prefix(text: &str, prefix: &str) -> (rest: Option<String>)
    ensures
        opt_view(rest) == after_prefix(text@, prefix@),
{
    let whole = chars_of(text);
    let part = chars_of(prefix);
    if matches_at(&whole, &part, 0) {
        let rest = text_of(&whole, part.len(), whole.len());
        assert(rest@ =~= text@.skip(prefix@.len() as int));
        Some(rest)
    } else {
        None
    }
}

/// A text without the occurrences of a character at its end.
pub open spec fn without_end(text: Seq<char>, c: char) -> Seq<char>
    decreases text.len(),
{
    if text.len() > 0 && text.last() == c {
        without_end(text.drop_last(), c)
    } else {
        text
    }
}

/// Removes the occurrences of a character at the end of a text.
pub fn trim_end_matches(text: &str, c: char) -> (trimmed: String)
    ensures
        trimmed@ == without_end(text@, c),
{
    let chars = chars_of(text);
    let mut to: usize = chars.len();
    assert(chars@.take(to as int) =~= text@);
    while to > 0 && chars[to - 1] == c
        invariant
            to <= chars@.len(),
            without_end(chars@.take(to as int), c) == without_end(text@, c),
        decreases to,
    {
        to -= 1;
        assert(chars@.take(to + 1).drop_last() =~= chars@.take(to as int));
        assert(chars@.take(to + 1).last() == c);
    }
    let trimmed = text_of(&chars, 0, to);
    assert(trimmed@ =~= chars@.take(to as int));
    trimmed
}

/// Whether a text ends with another.
pub fn ends_with(text: &str, suffix: &str) -> (b: bool)
    ensures
        b == suffix@.is_suffix_of(text@),
{
    let whole = chars_of(text);
    let part = chars_of(suffix);
    if part.len() > whole.len() {
        return false;
    }
    let at = whole.len() - part.len();
    let b = matches_at(&whole, &part, at);
    assert(stands_at(text@, suffix@, at as int) == suffix@.is_suffix_of(text@)) by {
        assert(text@.subrange(at as int, at + suffix@.len()) =~= text@.subrange(
            text@.len() - suffix@.len(),
            text@.len() as int,
        ));
    }
    b
}

} // verus!
