//! Bytes out of URL-safe base64 without padding.

use vstd::prelude::*;

use crate::text::chars_of;

verus! {

/// The six bits that a character of the alphabet stands for.
pub open spec fn sextet_of(c: char) -> Option<u8> {
    if 'A' <= c && c <= 'Z' {
        Some((c as int - 'A' as int) as u8)
    } else if 'a' <= c && c <= 'z' {
        Some((c as int - 'a' as int + 26) as u8)
    } else if '0' <= c && c <= '9' {
        Some((c as int - '0' as int + 52) as u8)
    } else if c == '-' {
        Some(62)
    } else if c == '_' {
        Some(63)
    } else {
        None
    }
}

/// Whether a text is base64: characters of the alphabet, and not one of them
/// alone in its group of four.
pub open spec fn is_base64(text: Seq<char>) -> bool {
    text.len() % 4 != 1 && forall|i: int|
        0 <= i < text.len() ==> sextet_of(#[trigger] text[i]) is Some
}

/// The byte of all bits of a six-bit number and the upper two of the next.
pub open spec fn first_byte(a: u8, b: u8) -> u8 {
    ((a as int % 64) * 4 + (b as int % 64) / 16) as u8
}

/// The byte of the lower four bits of a six-bit number and the upper four of the
/// next.
pub open spec fn second_byte(b: u8, c: u8) -> u8 {
    ((b as int % 16) * 16 + (c as int % 64) / 4) as u8
}

/// The byte of the lower two bits of a six-bit number and all of the next.
pub open spec fn third_byte(c: u8, d: u8) -> u8 {
    ((c as int % 4) * 64 + d as int % 64) as u8
}

/// The bytes that six-bit numbers make: three out of each group of four, and
/// what fits out of a shorter group at the end.
pub open spec fn packed(s: Seq<u8>) -> Seq<u8>
    decreases s.len(),
{
    if s.len() < 2 {
        seq![]
    } else if s.len() == 2 {
        seq![first_byte(s[0], s[1])]
    } else if s.len() == 3 {
        seq![first_byte(s[0], s[1]), second_byte(s[1], s[2])]
    } else {
        seq![first_byte(s[0], s[1]), second_byte(s[1], s[2]), third_byte(s[2], s[3])] + packed(
            s.skip(4),
        )
    }
}

/// The bytes that a text stands for in base64; nothing where it is none.
pub open spec fn decoded(text: Seq<char>) -> Option<Seq<u8>> {
    if is_base64(text) {
        Some(packed(text.map_values(|c: char| sextet_of(c)->Some_0)))
    } else {
        None
    }
}

/// The six bits that a character of the alphabet stands for.
fn sextet(c: char) -> (bits: Option<u8>)
    ensures
        bits == sextet_of(c),
{
    if 'A' <= c && c <= 'Z' {
        Some((c as u32 - 'A' as u32) as u8)
    } else if 'a' <= c && c <= 'z' {
        Some((c as u32 - 'a' as u32 + 26) as u8)
    } else if '0' <= c && c <= '9' {
        Some((c as u32 - '0' as u32 + 52) as u8)
    } else if c == '-' {
        Some(62)
    } else if c == '_' {
        Some(63)
    } else {
        None
    }
}

/// The byte of all bits of a six-bit number and the upper two of the next.
fn pack_first(a: u8, b: u8) -> (byte: u8)
    ensures
        byte == first_byte(a, b),
{
    (a % 64) * 4 + (b % 64) / 16
}

/// The byte of the lower four bits of a six-bit number and the upper four of the
/// next.
fn pack_second(b: u8, c: u8) -> (byte: u8)
    ensures
        byte == second_byte(b, c),
{
    (b % 16) * 16 + (c % 64) / 4
}

/// The byte of the lower two bits of a six-bit number and all of the next.
fn pack_third(c: u8, d: u8) -> (byte: u8)
    ensures
        byte == third_byte(c, d),
{
    (c % 4) * 64 + d % 64
}

/// The bytes that a text stands for in base64.
pub fn base64_url_safe_no_pad_decode(text: &str) -> (bytes: Option<Vec<u8>>)
    ensures
        match bytes {
            Some(bytes) => decoded(text@) == Some(bytes@),
            None => decoded(text@) is None,
        },
{
    let chars = chars_of(text);
    let n: usize = chars.len();
    if n % 4 == 1 {
        return None;
    }
    let mut sextets: Vec<u8> = Vec::new();
    let mut i: usize = 0;
    while i < n
        invariant
            i <= n == chars@.len(),
            chars@ == text@,
            sextets@.len() == i,
            forall|j: int| 0 <= j < i ==> sextet_of(#[trigger] chars@[j]) == Some(sextets@[j]),
        decreases n - i,
    {
        match sextet(chars[i]) {
            Some(bits) => sextets.push(bits),
            None => {
                return None;
            },
        }
        i += 1;
    }
    let ghost all = text@.map_values(|c: char| sextet_of(c)->Some_0);
    assert(sextets@ =~= all);
    let mut out: Vec<u8> = Vec::new();
    let mut at: usize = 0;
    assert(out@ + packed(all.skip(0)) =~= packed(all)) by {
        assert(all.skip(0) =~= all);
    }
    while n - at >= 4
        invariant
            at <= n == sextets@.len(),
            sextets@ == all,
            out@ + packed(all.skip(at as int)) == packed(all),
        decreases n - at,
    {
        let ghost rest = all.skip(at as int);
        let ghost before = out@;
        let first = pack_first(sextets[at], sextets[at + 1]);
        let second = pack_second(sextets[at + 1], sextets[at + 2]);
        let third = pack_third(sextets[at + 2], sextets[at + 3]);
        out.push(first);
        out.push(second);
        out.push(third);
        at += 4;
        assert(rest.skip(4) =~= all.skip(at as int));
        assert(packed(rest) == seq![first, second, third] + packed(all.skip(at as int)));
        assert(out@ + packed(all.skip(at as int)) =~= before + packed(rest));
    }
    let ghost rest = all.skip(at as int);
    let ghost before = out@;
    if n - at >= 2 {
        let first = pack_first(sextets[at], sextets[at + 1]);
        out.push(first);
        if n - at == 3 {
            let second = pack_second(sextets[at + 1], sextets[at + 2]);
            out.push(second);
        }
    }
    assert(out@ =~= before + packed(rest));
    Some(out)
}

} // verus!
