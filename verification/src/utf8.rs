//! Decoding bytes that arrive in chunks and may not be valid UTF-8, one scalar
//! value at a time.

use vstd::prelude::*;
use vstd::utf8::{
    codepoint_width_2, codepoint_width_3, decode_first_codepoint, decode_first_scalar, is_scalar,
    length_of_first_scalar, valid_first_scalar,
};

verus! {

/// `char::from_u32` gives the character of a scalar value, and nothing for any
/// other number.
pub assume_specification[ char::from_u32 ](code: u32) -> (c: Option<char>)
    ensures
        c == if is_scalar(code) {
            Some(code as char)
        } else {
            None
        },
;

/// What stands at the start of some bytes.
#[derive(Clone, Copy, Debug, PartialEq, Eq)]
pub enum Scalar {
    /// A character, and the bytes it takes.
    Char { c: char, len: usize },
    /// Bytes that start no character, however the input goes on.
    Invalid { len: usize },
    /// The start of a character whose end has not arrived.
    Incomplete,
}

/// Whether the second byte of a character may follow the first.
pub open spec fn second_fits(first: u8, second: u8) -> bool {
    if first == 0xe0 {
        0xa0 <= second <= 0xbf
    } else if first == 0xed {
        0x80 <= second <= 0x9f
    } else if first == 0xf0 {
        0x90 <= second <= 0xbf
    } else if first == 0xf4 {
        0x80 <= second <= 0x8f
    } else {
        0x80 <= second <= 0xbf
    }
}

/// Whether bytes are the start of a character, and not the whole of it.
pub open spec fn is_partial(bytes: Seq<u8>) -> bool {
    ||| bytes.len() == 1 && 0xc2 <= bytes[0] <= 0xf4
    ||| bytes.len() == 2 && 0xe0 <= bytes[0] <= 0xf4 && second_fits(bytes[0], bytes[1])
    ||| bytes.len() == 3 && 0xf0 <= bytes[0] <= 0xf4 && second_fits(bytes[0], bytes[1]) && 0x80
        <= bytes[2] <= 0xbf
}

/// How many bytes at the start belong to one invalid sequence: the longest
/// start of a character among them, and at least one byte.
pub open spec fn invalid_len(bytes: Seq<u8>) -> int {
    if bytes.len() >= 3 && is_partial(bytes.take(3)) {
        3
    } else if bytes.len() >= 2 && is_partial(bytes.take(2)) {
        2
    } else {
        1
    }
}

/// What stands at the start of some bytes.
pub open spec fn first_scalar_of(bytes: Seq<u8>) -> Scalar {
    if valid_first_scalar(bytes) {
        Scalar::Char {
            c: decode_first_scalar(bytes) as char,
            len: length_of_first_scalar(bytes) as usize,
        }
    } else if is_partial(bytes) {
        Scalar::Incomplete
    } else {
        Scalar::Invalid { len: invalid_len(bytes) as usize }
    }
}

proof fn lemma_widths(b1: u8, b2: u8, b3: u8, b4: u8)
    ensures
        (b1 & 0x7f) as u32 <= 0x7f,
        codepoint_width_2(b1, b2) <= 0x7ff,
        codepoint_width_3(b1, b2, b3) <= 0xffff,
{
    assert((b1 & 0x7f) <= 0x7f) by (bit_vector);
    assert(((((b1 & 0x1F) as u32) << 6) | ((b2 & 0x3f) as u32)) <= 0x7ff) by (bit_vector);
    assert(((((b1 & 0x0F) as u32) << 12) | (((b2 & 0x3f) as u32) << 6) | ((b3 & 0x3f) as u32))
        <= 0xffff) by (bit_vector);
}

/// The start of a character that is not the whole of it is a partial one.
pub proof fn lemma_start_is_partial(bytes: Seq<u8>, n: int)
    requires
        valid_first_scalar(bytes),
        0 < n < length_of_first_scalar(bytes),
    ensures
        is_partial(bytes.take(n)),
{
    let b1 = bytes[0];
    let b2 = bytes[1];
    let w = length_of_first_scalar(bytes);
    if w == 2 {
        assert(0xc0 <= b1 <= 0xc1 && 0x80 <= b2 <= 0xbf ==> ((((b1 & 0x1F) as u32) << 6) | ((b2
            & 0x3f) as u32)) < 0x80) by (bit_vector);
    } else if w == 3 {
        let b3 = bytes[2];
        assert(b1 == 0xe0 && 0x80 <= b2 <= 0x9f && 0x80 <= b3 <= 0xbf ==> ((((b1 & 0x0F) as u32)
            << 12) | (((b2 & 0x3f) as u32) << 6) | ((b3 & 0x3f) as u32)) < 0x800) by (bit_vector);
        assert(b1 == 0xed && 0xa0 <= b2 <= 0xbf && 0x80 <= b3 <= 0xbf ==> {
            let code = ((((b1 & 0x0F) as u32) << 12) | (((b2 & 0x3f) as u32) << 6) | ((b3
                & 0x3f) as u32));
            0xd800 <= code && code <= 0xdfff
        }) by (bit_vector);
    } else {
        let b3 = bytes[2];
        let b4 = bytes[3];
        assert(b1 == 0xf0 && 0x80 <= b2 <= 0x8f && 0x80 <= b3 <= 0xbf && 0x80 <= b4 <= 0xbf
            ==> ((((b1 & 0x07) as u32) << 18) | (((b2 & 0x3f) as u32) << 12) | (((b3
            & 0x3f) as u32) << 6) | ((b4 & 0x3f) as u32)) < 0x10000) by (bit_vector);
        assert(b1 == 0xf4 && 0x90 <= b2 <= 0xbf && 0x80 <= b3 <= 0xbf && 0x80 <= b4 <= 0xbf
            ==> ((((b1 & 0x07) as u32) << 18) | (((b2 & 0x3f) as u32) << 12) | (((b3
            & 0x3f) as u32) << 6) | ((b4 & 0x3f) as u32)) > 0x10ffff) by (bit_vector);
        assert(0xf5 <= b1 <= 0xf7 ==> ((((b1 & 0x07) as u32) << 18) | (((b2 & 0x3f) as u32) << 12)
            | (((b3 & 0x3f) as u32) << 6) | ((b4 & 0x3f) as u32)) > 0x10ffff) by (bit_vector);
    }
}

/// What stands at the start is within the bytes; only an incomplete character
/// waits for more of them.
pub proof fn lemma_first_scalar(bytes: Seq<u8>)
    requires
        bytes.len() > 0,
    ensures
        match first_scalar_of(bytes) {
            Scalar::Char { len, .. } => 0 < len <= bytes.len(),
            Scalar::Invalid { len } => 0 < len <= bytes.len(),
            Scalar::Incomplete => bytes.len() <= 3,
        },
{
}

/// What has been decided of the first bytes stays decided when more arrive,
/// and an incomplete character turns into one that is not ASCII, into an
/// invalid sequence, or stays incomplete.
pub proof fn lemma_first_scalar_extend(bytes: Seq<u8>, more: Seq<u8>)
    requires
        bytes.len() > 0,
    ensures
        match first_scalar_of(bytes) {
            Scalar::Incomplete => match first_scalar_of(bytes + more) {
                Scalar::Char { c, .. } => c as u32 >= 0x80,
                _ => true,
            },
            decided => first_scalar_of(bytes + more) == decided,
        },
{
    let all = bytes + more;
    assert(all[0] == bytes[0]);
    if valid_first_scalar(bytes) {
        assert(valid_first_scalar(all) && first_scalar_of(all) == first_scalar_of(bytes));
    } else if is_partial(bytes) {
        if valid_first_scalar(all) {
            let w = length_of_first_scalar(all);
            assert(w >= 2);
            vstd::utf8::utf8_byte_ranges_bitwise(all[0]);
            let code = decode_first_codepoint(all);
            assert(code >= 0x80);
            lemma_code_is_scalar(all);
        }
    } else {
        if valid_first_scalar(all) {
            let w = length_of_first_scalar(all);
            if w <= bytes.len() {
                assert(valid_first_scalar(bytes));
            } else {
                lemma_start_is_partial(all, bytes.len() as int);
                assert(all.take(bytes.len() as int) =~= bytes);
            }
        }
        if all.len() >= 3 && is_partial(all.take(3)) {
            if bytes.len() >= 3 {
                assert(all.take(3) =~= bytes.take(3));
            }
        }
        if bytes.len() >= 3 {
            assert(all.take(3) =~= bytes.take(3));
        }
        if bytes.len() >= 2 {
            assert(all.take(2) =~= bytes.take(2));
        }
        assert(!is_partial(all)) by {
            if is_partial(all) {
                if all.len() == bytes.len() {
                    assert(all =~= bytes);
                }
            }
        }
    }
}

/// A decoded code point is a scalar value.
proof fn lemma_code_is_scalar(bytes: Seq<u8>)
    requires
        valid_first_scalar(bytes),
    ensures
        is_scalar(decode_first_scalar(bytes)),
        (decode_first_scalar(bytes) as char) as u32 == decode_first_scalar(bytes),
{
    let b1 = bytes[0];
    let b2 = if bytes.len() > 1 {
        bytes[1]
    } else {
        0
    };
    let b3 = if bytes.len() > 2 {
        bytes[2]
    } else {
        0
    };
    lemma_widths(b1, b2, b3, 0);
}

/// What stands in the bytes from an index on.
pub fn first_scalar(bytes: &[u8], at: usize) -> (scalar: Scalar)
    requires
        at < bytes@.len(),
    ensures
        scalar == first_scalar_of(bytes@.skip(at as int)),
{
    let ghost rest = bytes@.skip(at as int);
    let left: usize = bytes.len() - at;
    let b1: u8 = bytes[at];
    if b1 <= 0x7f {
        assert(b1 <= 0x7f ==> (b1 & 0x7f) == b1) by (bit_vector);
        assert(valid_first_scalar(rest));
        return Scalar::Char { c: b1 as char, len: 1 };
    }
    let b2: u8 = if left > 1 {
        bytes[at + 1]
    } else {
        0
    };
    let b3: u8 = if left > 2 {
        bytes[at + 2]
    } else {
        0
    };
    let b4: u8 = if left > 3 {
        bytes[at + 3]
    } else {
        0
    };
    let tail2 = 0x80 <= b2 && b2 <= 0xbf;
    let tail3 = 0x80 <= b3 && b3 <= 0xbf;
    let tail4 = 0x80 <= b4 && b4 <= 0xbf;
    let mut code: u32 = 0;
    let mut len: usize = 0;
    if 0xc0 <= b1 && b1 <= 0xdf && left > 1 && tail2 {
        code = (((b1 & 0x1f) as u32) << 6) | ((b2 & 0x3f) as u32);
        if code >= 0x80 {
            len = 2;
        }
    } else if 0xe0 <= b1 && b1 <= 0xef && left > 2 && tail2 && tail3 {
        code = (((b1 & 0x0f) as u32) << 12) | (((b2 & 0x3f) as u32) << 6) | ((b3 & 0x3f) as u32);
        if code >= 0x800 && !(0xd800 <= code && code <= 0xdfff) {
            len = 3;
        }
    } else if 0xf0 <= b1 && b1 <= 0xf7 && left > 3 && tail2 && tail3 && tail4 {
        code = (((b1 & 0x07) as u32) << 18) | (((b2 & 0x3f) as u32) << 12) | (((b3 & 0x3f) as u32)
            << 6) | ((b4 & 0x3f) as u32);
        if 0x10000 <= code && code <= 0x10ffff {
            len = 4;
        }
    }
    proof {
        lemma_widths(b1, b2, b3, b4);
        assert(len > 0 ==> valid_first_scalar(rest) && code == decode_first_scalar(rest) && len
            == length_of_first_scalar(rest));
        assert(len == 0 ==> !valid_first_scalar(rest));
        if len > 0 {
            lemma_code_is_scalar(rest);
        }
    }
    if len > 0 {
        if let Some(c) = char::from_u32(code) {
            return Scalar::Char { c, len };
        }
    }
    let second = if b1 == 0xe0 {
        0xa0 <= b2 && b2 <= 0xbf
    } else if b1 == 0xed {
        0x80 <= b2 && b2 <= 0x9f
    } else if b1 == 0xf0 {
        0x90 <= b2 && b2 <= 0xbf
    } else if b1 == 0xf4 {
        0x80 <= b2 && b2 <= 0x8f
    } else {
        tail2
    };
    let partial1 = 0xc2 <= b1 && b1 <= 0xf4;
    let partial2 = left >= 2 && 0xe0 <= b1 && b1 <= 0xf4 && second;
    let partial3 = left >= 3 && 0xf0 <= b1 && b1 <= 0xf4 && second && tail3;
    if (left == 1 && partial1) || (left == 2 && partial2) || (left == 3 && partial3) {
        return Scalar::Incomplete;
    }
    if partial3 {
        Scalar::Invalid { len: 3 }
    } else if partial2 {
        Scalar::Invalid { len: 2 }
    } else {
        Scalar::Invalid { len: 1 }
    }
}

/// The characters of some bytes, with a replacement character for every
/// sequence that is none, and one for a character that the bytes end in.
pub open spec fn lossy_of(bytes: Seq<u8>) -> Seq<char>
    decreases bytes.len(),
{
    if bytes.len() == 0 {
        seq![]
    } else {
        match first_scalar_of(bytes) {
            Scalar::Char { c, len } if 0 < len <= bytes.len() => seq![c] + lossy_of(
                bytes.skip(len as int),
            ),
            Scalar::Invalid { len } if 0 < len <= bytes.len() => seq!['\u{fffd}'] + lossy_of(
                bytes.skip(len as int),
            ),
            _ => seq!['\u{fffd}'],
        }
    }
}

/// The text of some bytes, with what is no UTF-8 in them replaced.
pub fn lossy_text(bytes: &[u8]) -> (text: String)
    ensures
        text@ == lossy_of(bytes@),
{
    let mut text = String::new();
    let mut at: usize = 0;
    assert(bytes@.skip(0) =~= bytes@);
    assert(text@ + lossy_of(bytes@) =~= lossy_of(bytes@));
    while at < bytes.len()
        invariant
            at <= bytes@.len(),
            text@ + lossy_of(bytes@.skip(at as int)) == lossy_of(bytes@),
        decreases bytes.len() - at,
    {
        let ghost rest = bytes@.skip(at as int);
        let ghost before = text@;
        proof {
            lemma_first_scalar(rest);
        }
        match first_scalar(bytes, at) {
            Scalar::Char { c, len } => {
                text.push(c);
                at += len;
                assert(rest.skip(len as int) =~= bytes@.skip(at as int));
                assert(before + (seq![c] + lossy_of(bytes@.skip(at as int))) =~= text@ + lossy_of(
                    bytes@.skip(at as int),
                ));
            },
            Scalar::Invalid { len } => {
                text.push('\u{fffd}');
                at += len;
                assert(rest.skip(len as int) =~= bytes@.skip(at as int));
                assert(before + (seq!['\u{fffd}'] + lossy_of(bytes@.skip(at as int))) =~= text@
                    + lossy_of(bytes@.skip(at as int)));
            },
            Scalar::Incomplete => {
                text.push('\u{fffd}');
                at = bytes.len();
                assert(bytes@.skip(at as int) =~= seq![]);
                assert(before + seq!['\u{fffd}'] =~= text@ + lossy_of(bytes@.skip(at as int)));
            },
        }
    }
    assert(bytes@.skip(at as int) =~= seq![]);
    assert(text@ + lossy_of(seq![]) =~= text@);
    text
}

/// The text of some bytes, where they are UTF-8.
pub fn strict_text(bytes: &[u8]) -> (text: Option<String>)
    ensures
        match text {
            Some(text) => vstd::utf8::valid_utf8(bytes@) && text@ == vstd::utf8::decode_utf8(
                bytes@,
            ),
            None => !vstd::utf8::valid_utf8(bytes@),
        },
{
    let mut text = String::new();
    let mut at: usize = 0;
    assert(bytes@.skip(0) =~= bytes@);
    while at < bytes.len()
        invariant
            at <= bytes@.len(),
            vstd::utf8::valid_utf8(bytes@) == vstd::utf8::valid_utf8(bytes@.skip(at as int)),
            vstd::utf8::valid_utf8(bytes@) ==> vstd::utf8::decode_utf8(bytes@) == text@
                + vstd::utf8::decode_utf8(bytes@.skip(at as int)),
        decreases bytes.len() - at,
    {
        let ghost rest = bytes@.skip(at as int);
        let ghost before = text@;
        proof {
            lemma_first_scalar(rest);
        }
        match first_scalar(bytes, at) {
            Scalar::Char { c, len } => {
                text.push(c);
                at += len;
                proof {
                    assert(vstd::utf8::pop_first_scalar(rest) =~= bytes@.skip(at as int));
                    let more = vstd::utf8::decode_utf8(bytes@.skip(at as int));
                    assert(before + (seq![c] + more) =~= text@ + more);
                }
            },
            _ => {
                return None;
            },
        }
    }
    assert(bytes@.skip(at as int) =~= seq![]);
    assert(text@ + seq![] =~= text@);
    Some(text)
}

} // verus!
