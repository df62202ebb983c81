//! Percent-encoding of request paths.
//!
//! A path travels through URLs as ASCII text. Bytes that are safe in a URL
//! path stand for themselves; every other byte is written as `%` followed by
//! two upper-case hexadecimal digits. Decoding accepts both cases of digit
//! and keeps a `%` that does not start a well-formed escape as it is.

use vstd::prelude::*;

verus! {

/// The byte `%`, which starts an escape.
pub const PERCENT: u8 = 37u8;

/// The byte `/`, which separates the segments of a path.
pub const SLASH: u8 = 47u8;

/// Bytes that are written unchanged: ASCII letters and digits, `-`, `.`, `_`,
/// `~`, and the separator `/`.
pub open spec fn is_safe(b: u8) -> bool {
    ||| 48 <= b <= 57
    ||| 65 <= b <= 90
    ||| 97 <= b <= 122
    ||| b == 45
    ||| b == 46
    ||| b == 95
    ||| b == 126
    ||| b == SLASH
}

/// The upper-case hexadecimal digit for a value below 16.
pub open spec fn hex_digit(n: u8) -> u8
    recommends
        n < 16,
{
    if n < 10 {
        (48 + n) as u8
    } else {
        (55 + n) as u8
    }
}

/// Whether `c` is a hexadecimal digit, of either case.
pub open spec fn is_hex(c: u8) -> bool {
    (48 <= c <= 57) || (65 <= c <= 70) || (97 <= c <= 102)
}

/// The value of the hexadecimal digit `c`.
pub open spec fn hex_value(c: u8) -> int
    recommends
        is_hex(c),
{
    if 48 <= c <= 57 {
        c - 48
    } else if 65 <= c <= 70 {
        c - 55
    } else {
        c - 87
    }
}

/// How one byte is written.
pub open spec fn encoded_byte(b: u8) -> Seq<u8> {
    if is_safe(b) {
        seq![b]
    } else {
        seq![PERCENT, hex_digit(b / 16), hex_digit(b % 16)]
    }
}

/// The percent-encoding of `bytes`: the encodings of its bytes, in order.
pub open spec fn encoded(bytes: Seq<u8>) -> Seq<u8>
    decreases bytes.len(),
{
    if bytes.len() == 0 {
        Seq::empty()
    } else {
        encoded_byte(bytes[0]) + encoded(bytes.skip(1))
    }
}

/// Whether `text` starts with a well-formed escape: `%` and two hexadecimal
/// digits.
pub open spec fn starts_with_escape(text: Seq<u8>) -> bool {
    text.len() >= 3 && text[0] == PERCENT && is_hex(text[1]) && is_hex(text[2])
}

/// The bytes that `text` stands for. A well-formed escape gives the byte it
/// names; any other byte, a stray `%` included, gives itself.
pub open spec fn decoded(text: Seq<u8>) -> Seq<u8>
    decreases text.len(),
{
    if text.len() == 0 {
        Seq::empty()
    } else if starts_with_escape(text) {
        seq![(16 * hex_value(text[1]) + hex_value(text[2])) as u8] + decoded(text.skip(3))
    } else {
        seq![text[0]] + decoded(text.skip(1))
    }
}

/// Whether every byte of `text` is ASCII.
pub open spec fn all_ascii(text: Seq<u8>) -> bool {
    forall|i: int| 0 <= i < text.len() ==> text[i] < 128
}

fn safe(b: u8) -> (r: bool)
    ensures
        r == is_safe(b),
{
    (48 <= b && b <= 57) || (65 <= b && b <= 90) || (97 <= b && b <= 122) || b == 45 || b == 46
        || b == 95 || b == 126 || b == SLASH
}

fn digit_of(n: u8) -> (r: u8)
    requires
        n < 16,
    ensures
        r == hex_digit(n),
        is_hex(r),
        hex_value(r) == n,
        r < 128,
{
    if n < 10 {
        48 + n
    } else {
        55 + n
    }
}

fn value_of(c: u8) -> (r: Option<u8>)
    ensures
        r is Some <==> is_hex(c),
        r is Some ==> r->Some_0 == hex_value(c) && r->Some_0 < 16,
{
    if 48 <= c && c <= 57 {
        Some(c - 48)
    } else if 65 <= c && c <= 70 {
        Some(c - 55)
    } else if 97 <= c && c <= 102 {
        Some(c - 87)
    } else {
        None
    }
}

/// Decoding undoes encoding, one byte at a time.
proof fn lemma_decode_encoded_byte(b: u8, rest: Seq<u8>)
    ensures
        decoded(encoded_byte(b) + rest) == seq![b] + decoded(rest),
{
    let text = encoded_byte(b) + rest;
    if is_safe(b) {
        assert(text[0] == b);
        assert(!starts_with_escape(text));
        assert(text.skip(1) =~= rest);
    } else {
        let hi: u8 = b / 16;
        let lo: u8 = b % 16;
        assert(text[0] == PERCENT);
        assert(text[1] == hex_digit(hi));
        assert(text[2] == hex_digit(lo));
        assert(starts_with_escape(text));
        assert(16 * hex_value(text[1]) + hex_value(text[2]) == b);
        assert(text.skip(3) =~= rest);
    }
}

/// Percent-decoding undoes percent-encoding, for every sequence of bytes.
pub proof fn lemma_decode_encode(bytes: Seq<u8>)
    ensures
        decoded(encoded(bytes)) == bytes,
    decreases bytes.len(),
{
    if bytes.len() == 0 {
        assert(decoded(encoded(bytes)) =~= bytes);
    } else {
        lemma_decode_encode(bytes.skip(1));
        lemma_decode_encoded_byte(bytes[0], encoded(bytes.skip(1)));
        assert(seq![bytes[0]] + bytes.skip(1) =~= bytes);
    }
}

/// An encoding is plain ASCII.
pub proof fn lemma_encoded_is_ascii(bytes: Seq<u8>)
    ensures
        all_ascii(encoded(bytes)),
    decreases bytes.len(),
{
    if bytes.len() > 0 {
        lemma_encoded_is_ascii(bytes.skip(1));
        let head = encoded_byte(bytes[0]);
        let tail = encoded(bytes.skip(1));
        assert forall|i: int| 0 <= i < (head + tail).len() implies (head + tail)[i] < 128 by {
            if i >= head.len() {
                assert((head + tail)[i] == tail[i - head.len()]);
            }
        }
    }
}

/// Encoding goes byte by byte, so it distributes over appending one byte.
proof fn lemma_encoded_push(bytes: Seq<u8>, b: u8)
    ensures
        encoded(bytes.push(b)) == encoded(bytes) + encoded_byte(b),
    decreases bytes.len(),
{
    let longer = bytes.push(b);
    if bytes.len() == 0 {
        assert(longer.skip(1) =~= Seq::<u8>::empty());
        assert(longer[0] == b);
        assert(encoded(longer) == encoded_byte(b) + encoded(longer.skip(1)));
        assert(encoded(longer) =~= encoded(bytes) + encoded_byte(b));
    } else {
        lemma_encoded_push(bytes.skip(1), b);
        assert(bytes.push(b).skip(1) =~= bytes.skip(1).push(b));
        assert(encoded(bytes.push(b)) =~= encoded(bytes) + encoded_byte(b));
    }
}

/// Writes `bytes` in percent-encoded form.
pub fn percent_encode(bytes: &[u8]) -> (text: Vec<u8>)
    ensures
        text@ == encoded(bytes@),
        all_ascii(text@),
        decoded(text@) == bytes@,
{
    let mut text: Vec<u8> = Vec::new();
    let mut i: usize = 0;
    while i < bytes.len()
        invariant
            i <= bytes.len(),
            text@ == encoded(bytes@.take(i as int)),
        decreases bytes.len() - i,
    {
        let b: u8 = bytes[i];
        proof {
            lemma_encoded_push(bytes@.take(i as int), b);
            assert(bytes@.take(i as int).push(b) =~= bytes@.take(i + 1));
        }
        if safe(b) {
            text.push(b);
            assert(text@ =~= encoded(bytes@.take(i as int)) + encoded_byte(b));
        } else {
            let hi: u8 = digit_of(b / 16);
            let lo: u8 = digit_of(b % 16);
            text.push(PERCENT);
            text.push(hi);
            text.push(lo);
            assert(text@ =~= encoded(bytes@.take(i as int)) + encoded_byte(b));
        }
        i = i + 1;
    }
    proof {
        assert(bytes@.take(i as int) =~= bytes@);
        lemma_encoded_is_ascii(bytes@);
        lemma_decode_encode(bytes@);
    }
    text
}

/// Reads percent-encoded `text` back into the bytes it stands for.
pub fn percent_decode(text: &[u8]) -> (bytes: Vec<u8>)
    ensures
        bytes@ == decoded(text@),
{
    let mut bytes: Vec<u8> = Vec::new();
    let mut i: usize = 0;
    assert(text@.skip(0) =~= text@);
    assert(bytes@ + decoded(text@) =~= decoded(text@));
    while i < text.len()
        invariant
            i <= text.len(),
            decoded(text@) == bytes@ + decoded(text@.skip(i as int)),
        decreases text.len() - i,
    {
        let rest: Ghost<Seq<u8>> = Ghost(text@.skip(i as int));
        let c: u8 = text[i];
        let mut step: usize = 1;
        let mut out: u8 = c;
        if c == PERCENT && text.len() - i >= 3 {
            match (value_of(text[i + 1]), value_of(text[i + 2])) {
                (Some(hi), Some(lo)) => {
                    out = 16 * hi + lo;
                    step = 3;
                },
                _ => {},
            }
        }
        proof {
            assert(rest@[0] == c);
            if text.len() - i >= 3 {
                assert(rest@[1] == text@[i + 1]);
                assert(rest@[2] == text@[i + 2]);
            }
            assert(starts_with_escape(rest@) <==> step == 3);
            assert(rest@.skip(step as int) =~= text@.skip(i + step));
            assert(decoded(rest@) == seq![out] + decoded(rest@.skip(step as int)));
            assert(bytes@ + (seq![out] + decoded(text@.skip(i + step))) =~= bytes@.push(out)
                + decoded(text@.skip(i + step)));
        }
        bytes.push(out);
        i = i + step;
    }
    assert(decoded(text@.skip(i as int)) =~= Seq::<u8>::empty());
    assert(bytes@ + Seq::<u8>::empty() =~= bytes@);
    bytes
}

} // verus!
