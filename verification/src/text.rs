//! Splitting of byte strings and text at a separator, and the decoding of
//! UTF-8 bytes into text.

use vstd::prelude::*;
use vstd::slice::*;
use vstd::utf8::*;

verus! {

/// The position of the first `x` in `s`, or the length of `s` if it holds none.
pub open spec fn first_index_of<T>(s: Seq<T>, x: T) -> int
    decreases s.len(),
{
    if s.len() == 0 || s[0] == x {
        0
    } else {
        1 + first_index_of(s.drop_first(), x)
    }
}

/// The pieces of `s` between the occurrences of `sep`, in order. A sequence
/// with `n` separators has `n + 1` pieces, some of them possibly empty.
pub open spec fn split_on<T>(s: Seq<T>, sep: T) -> Seq<Seq<T>>
    decreases s.len(),
{
    let k = first_index_of(s, sep);
    if 0 <= k < s.len() {
        seq![s.take(k)] + split_on(s.skip(k + 1), sep)
    } else {
        seq![s]
    }
}

/// What `first_index_of` returns is in range, is preceded by no `x`, and is an
/// `x` unless it is the length.
pub proof fn lemma_first_index_of<T>(s: Seq<T>, x: T)
    ensures
        0 <= first_index_of(s, x) <= s.len(),
        forall|j: int| 0 <= j < first_index_of(s, x) ==> s[j] != x,
        first_index_of(s, x) < s.len() ==> s[first_index_of(s, x)] == x,
    decreases s.len(),
{
    if s.len() == 0 || s[0] == x {
    } else {
        let rest = s.drop_first();
        lemma_first_index_of(rest, x);
        assert forall|j: int| 0 <= j < first_index_of(s, x) implies s[j] != x by {
            if j > 0 {
                assert(s[j] == rest[j - 1]);
            }
        }
    }
}

/// A position that is preceded by no `x`, and is an `x` or the length, is the
/// one that `first_index_of` returns.
pub proof fn lemma_first_index_is<T>(s: Seq<T>, x: T, k: int)
    requires
        0 <= k <= s.len(),
        forall|j: int| 0 <= j < k ==> s[j] != x,
        k < s.len() ==> s[k] == x,
    ensures
        first_index_of(s, x) == k,
{
    lemma_first_index_of(s, x);
}

/// The position of the first `x` in `s` at or after `from`, or the length of `s`.
pub fn find_byte(s: &[u8], from: usize, x: u8) -> (at: usize)
    requires
        from <= s@.len(),
    ensures
        at as int == from + first_index_of(s@.skip(from as int), x),
        from <= at <= s@.len(),
{
    let mut at: usize = from;
    while at < s.len() && s[at] != x
        invariant
            from <= at <= s@.len(),
            forall|j: int| from <= j < at ==> s@[j] != x,
        decreases s@.len() - at,
    {
        at = at + 1;
    }
    proof {
        lemma_first_index_is(s@.skip(from as int), x, at - from);
    }
    at
}

/// Cuts `s` at every `sep` and returns the pieces in order.
pub fn split_bytes(s: &[u8], sep: u8) -> (pieces: Vec<Vec<u8>>)
    ensures
        pieces@.len() == split_on(s@, sep).len(),
        forall|i: int| 0 <= i < pieces@.len() ==> (#[trigger] pieces@[i])@ == split_on(s@, sep)[i],
{
    let mut pieces: Vec<Vec<u8>> = Vec::new();
    let mut start: usize = 0;
    assert(s@.skip(0) == s@);
    loop
        invariant
            start <= s@.len(),
            split_on(s@, sep).len() == pieces@.len() + split_on(s@.skip(start as int), sep).len(),
            forall|i: int|
                0 <= i < pieces@.len() ==> (#[trigger] pieces@[i])@ == split_on(s@, sep)[i],
            forall|i: int|
                0 <= i < split_on(s@.skip(start as int), sep).len() ==> split_on(
                    s@.skip(start as int),
                    sep,
                )[i] == #[trigger] split_on(s@, sep)[pieces@.len() + i],
        decreases s@.len() - start,
    {
        let at = find_byte(s, start, sep);
        let piece = slice_to_vec(slice_subrange(s, start, at));
        let ghost rest = s@.skip(start as int);
        let ghost done = pieces@.len() as int;
        assert(piece@ == rest.take(at - start));
        if at >= s.len() {
            assert(rest.take(at - start) == rest);
            assert(split_on(rest, sep) == seq![rest]);
            assert(split_on(rest, sep)[0] == split_on(s@, sep)[done + 0]);
            pieces.push(piece);
            return pieces;
        }
        proof {
            let next = s@.skip(at + 1);
            assert(rest.skip(at - start + 1) == next);
            assert(split_on(rest, sep) == seq![rest.take(at - start)] + split_on(next, sep));
            assert(split_on(rest, sep)[0] == split_on(s@, sep)[done + 0]);
            assert forall|i: int| 0 <= i < split_on(next, sep).len() implies split_on(next, sep)[i]
                == #[trigger] split_on(s@, sep)[done + 1 + i] by {
                assert(split_on(next, sep)[i] == split_on(rest, sep)[i + 1]);
                assert(split_on(rest, sep)[i + 1] == split_on(s@, sep)[done + (i + 1)]);
            }
        }
        pieces.push(piece);
        start = at + 1;
    }
}

/// The byte that stands for `|` in UTF-8, and for nothing else.
pub const BAR: u8 = 0x7c;

/// The text that `bytes` encode: their decoding where they are valid UTF-8.
pub open spec fn text_of(bytes: Seq<u8>) -> Option<Seq<char>> {
    if valid_utf8(bytes) {
        Some(decode_utf8(bytes))
    } else {
        None
    }
}

/// The error of `String::from_utf8`; nothing is read from it.
#[verifier::external_type_specification]
#[verifier::external_body]
pub struct ExFromUtf8Error(std::string::FromUtf8Error);

/// `String::from_utf8` of the standard library. It returns the string whose
/// UTF-8 encoding is `bytes` exactly when `bytes` are valid UTF-8, and an
/// error otherwise; neither is proved here.
#[verifier::external_body]
fn string_from_utf8(bytes: Vec<u8>) -> (r: Result<String, std::string::FromUtf8Error>)
    ensures
        r is Ok <==> valid_utf8(bytes@),
        r matches Ok(s) ==> s@ == decode_utf8(bytes@),
{
    String::from_utf8(bytes)
}

/// Decodes UTF-8 bytes into an owned string, or `None` where they are not
/// valid UTF-8.
pub fn decode_text(bytes: Vec<u8>) -> (r: Option<String>)
    ensures
        match text_of(bytes@) {
            Some(text) => r matches Some(s) && s@ == text,
            None => r is None,
        },
{
    match string_from_utf8(bytes) {
        Ok(s) => Some(s),
        Err(_) => None,
    }
}

/// The pieces of `bytes` between the bars, each decoded as text on its own.
pub open spec fn decoded_pieces(bytes: Seq<u8>) -> Seq<Seq<char>> {
    Seq::new(split_on(bytes, BAR).len(), |i: int| decode_utf8(split_on(bytes, BAR)[i]))
}

/// Every piece of `bytes` between the bars is valid UTF-8.
pub open spec fn pieces_valid(bytes: Seq<u8>) -> bool {
    forall|i: int| 0 <= i < split_on(bytes, BAR).len() ==> valid_utf8(#[trigger] split_on(bytes, BAR)[i])
}

/// A bar is a one-byte scalar and continues no other.
proof fn lemma_bar_is_no_continuation(b: u8)
    ensures
        b == BAR ==> is_leading_byte_width_1(b) && !is_continuation_byte(b),
{
}

/// A byte below 0x80 is its own seven data bits.
proof fn lemma_single_byte_scalar(b: u8)
    by (bit_vector)
    requires
        b <= 0x7f,
    ensures
        (b & 0x7f) as u32 == b as u32,
{
}

/// A scalar written in two or more bytes is at least 0x80, so it is no bar.
proof fn lemma_wide_scalar_is_no_bar(c: u32, len: int)
    requires
        2 <= len <= 4,
        not_overlong_encoding(c, len),
    ensures
        c != 0x7c,
{
}

/// The text of valid UTF-8 bytes starts with the character of their first
/// scalar, and goes on with the text of the bytes behind it.
proof fn lemma_decode_step(bytes: Seq<u8>)
    requires
        valid_utf8(bytes),
        bytes.len() > 0,
    ensures
        valid_first_scalar(bytes),
        valid_utf8(pop_first_scalar(bytes)),
        pop_first_scalar(bytes).len() < bytes.len(),
        decode_utf8(bytes) == seq![decode_first_scalar(bytes) as char] + decode_utf8(
            pop_first_scalar(bytes),
        ),
        (decode_first_scalar(bytes) == 0x7c) <==> bytes[0] == BAR,
        1 <= length_of_first_scalar(bytes) <= bytes.len(),
{
    let b = bytes[0];
    if is_leading_byte_width_1(b) {
        lemma_single_byte_scalar(b);
    } else {
        lemma_wide_scalar_is_no_bar(decode_first_codepoint(bytes), length_of_first_codepoint(bytes));
    }
}

/// Text decoded from bytes that hold no bar holds no bar either.
proof fn lemma_decode_without_bar(bytes: Seq<u8>)
    requires
        valid_utf8(bytes),
        forall|j: int| 0 <= j < bytes.len() ==> bytes[j] != BAR,
    ensures
        forall|j: int| 0 <= j < decode_utf8(bytes).len() ==> decode_utf8(bytes)[j] != '|',
    decreases bytes.len(),
{
    if bytes.len() > 0 {
        lemma_decode_step(bytes);
        let rest = pop_first_scalar(bytes);
        let first = decode_first_scalar(bytes);
        assert forall|j: int| 0 <= j < rest.len() implies rest[j] != BAR by {
            assert(rest[j] == bytes[j + length_of_first_scalar(bytes)]);
        }
        lemma_decode_without_bar(rest);
        assert(first as char != '|') by {
            lemma_first_scalar_is_scalar(bytes);
        }
    }
}

/// The first scalar of valid bytes is the number of a character.
proof fn lemma_first_scalar_is_scalar(bytes: Seq<u8>)
    requires
        valid_first_scalar(bytes),
    ensures
        is_scalar(decode_first_scalar(bytes)),
{
    let b0 = bytes[0];
    if is_leading_byte_width_1(b0) {
        lemma_single_byte_scalar(b0);
    } else if is_leading_byte_width_2(b0) {
        lemma_width_2_bound(b0, bytes[1]);
    } else if is_leading_byte_width_3(b0) {
        lemma_width_3_bound(b0, bytes[1], bytes[2]);
    } else {
    }
}

/// Two bytes carry eleven data bits.
proof fn lemma_width_2_bound(b0: u8, b1: u8)
    by (bit_vector)
    ensures
        ((((b0 & 0x1f) as u32) << 6) | ((b1 & 0x3f) as u32)) < 0x800,
{
}

/// Three bytes carry sixteen data bits.
proof fn lemma_width_3_bound(b0: u8, b1: u8, b2: u8)
    by (bit_vector)
    ensures
        ((((b0 & 0x0f) as u32) << 12) | (((b1 & 0x3f) as u32) << 6) | ((b2 & 0x3f) as u32))
            < 0x10000,
{
}

/// Cutting at the bars and decoding commute: bytes are valid UTF-8 exactly
/// when each piece between their bars is, and the text of the whole, cut at
/// `|`, is then the text of each piece.
pub proof fn lemma_split_decode(bytes: Seq<u8>)
    ensures
        valid_utf8(bytes) <==> pieces_valid(bytes),
        valid_utf8(bytes) ==> split_on(decode_utf8(bytes), '|') == decoded_pieces(bytes),
    decreases bytes.len(),
{
    let k = first_index_of(bytes, BAR);
    lemma_first_index_of(bytes, BAR);
    if k >= bytes.len() {
        assert(split_on(bytes, BAR) == seq![bytes]);
        assert(split_on(bytes, BAR)[0] == bytes);
        if valid_utf8(bytes) {
            let text = decode_utf8(bytes);
            lemma_decode_without_bar(bytes);
            lemma_first_index_is(text, '|', text.len() as int);
            assert(split_on(text, '|') == seq![text]);
            assert(split_on(text, '|') == decoded_pieces(bytes));
        }
    } else {
        let head = bytes.take(k);
        let from_bar = bytes.skip(k);
        let tail = bytes.skip(k + 1);
        lemma_split_decode(tail);
        assert(split_on(bytes, BAR) == seq![head] + split_on(tail, BAR));
        assert(split_on(bytes, BAR)[0] == head);
        assert forall|i: int| 0 <= i < split_on(tail, BAR).len() implies split_on(tail, BAR)[i]
            == split_on(bytes, BAR)[i + 1] by {}
        lemma_bar_is_no_continuation(bytes[k]);
        assert(from_bar.len() > 0 && from_bar[0] == BAR);
        assert(from_bar.subrange(1, from_bar.len() as int) == tail);
        assert(bytes.subrange(0, k) == head);
        assert(bytes.subrange(k, bytes.len() as int) == from_bar);
        if valid_utf8(bytes) {
            is_char_boundary_iff_not_is_continuation_byte(bytes, k);
            valid_utf8_split(bytes, k);
            decode_utf8_split(bytes, k);
            lemma_decode_step(from_bar);
            assert(pop_first_scalar(from_bar) == tail);
            assert(pieces_valid(bytes)) by {
                assert forall|i: int| 0 <= i < split_on(bytes, BAR).len() implies valid_utf8(
                    #[trigger] split_on(bytes, BAR)[i],
                ) by {
                    if i > 0 {
                        assert(split_on(bytes, BAR)[i] == split_on(tail, BAR)[i - 1]);
                    }
                }
            }
            let text_head = decode_utf8(head);
            let text_tail = decode_utf8(tail);
            let text = decode_utf8(bytes);
            assert(decode_first_scalar(from_bar) as char == '|');
            assert(text == text_head + (seq!['|'] + text_tail));
            assert forall|j: int| 0 <= j < head.len() implies head[j] != BAR by {
                assert(head[j] == bytes[j]);
            }
            lemma_decode_without_bar(head);
            let n = text_head.len() as int;
            assert(text[n] == '|');
            assert forall|j: int| 0 <= j < n implies text[j] != '|' by {
                assert(text[j] == text_head[j]);
            }
            lemma_first_index_is(text, '|', n);
            assert(text.take(n) == text_head);
            assert(text.skip(n + 1) == text_tail);
            assert(split_on(text, '|') == seq![text_head] + split_on(text_tail, '|'));
            assert(split_on(text, '|') == decoded_pieces(bytes)) by {
                assert(split_on(text_tail, '|') == decoded_pieces(tail));
                assert(split_on(text, '|').len() == decoded_pieces(bytes).len());
                assert forall|i: int| 0 <= i < decoded_pieces(bytes).len() implies split_on(
                    text,
                    '|',
                )[i] == decoded_pieces(bytes)[i] by {
                    if i > 0 {
                        assert(split_on(text, '|')[i] == decoded_pieces(tail)[i - 1]);
                        assert(split_on(bytes, BAR)[i] == split_on(tail, BAR)[i - 1]);
                    }
                }
            }
        }
        if pieces_valid(bytes) {
            assert(valid_utf8(head));
            assert(pieces_valid(tail)) by {
                assert forall|i: int| 0 <= i < split_on(tail, BAR).len() implies valid_utf8(
                    #[trigger] split_on(tail, BAR)[i],
                ) by {
                    assert(split_on(tail, BAR)[i] == split_on(bytes, BAR)[i + 1]);
                }
            }
            assert(valid_utf8(tail));
            let bar = seq![BAR];
            assert(valid_utf8(bar)) by {
                reveal_with_fuel(valid_utf8, 2);
                lemma_single_byte_scalar(BAR);
                assert(pop_first_scalar(bar) == Seq::<u8>::empty());
            }
            valid_utf8_concat(bar, tail);
            valid_utf8_concat(head, bar + tail);
            assert(bytes == head + (bar + tail));
        }
    }
}

} // verus!
