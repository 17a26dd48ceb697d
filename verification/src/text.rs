//! Text and the spans of it that byte offsets mark.
//!
//! A `String` is seen as its sequence of characters. A pattern reports where
//! it matched in byte offsets into the UTF-8 encoding of that sequence, so a
//! span is a pair of offsets that both fall between two characters, and the
//! text of a span is what the bytes between them decode to.
use vstd::prelude::*;
use vstd::utf8::*;

verus! {

/// A value that can be read as a string slice: `str`, `String` and
/// references to them.
pub trait Text {
    /// The characters of this value.
    spec fn text(&self) -> Seq<char>;

    /// This value as a string slice.
    fn as_text(&self) -> (slice: &str)
        ensures
            slice@ == self.text(),
    ;
}

impl Text for str {
    open spec fn text(&self) -> Seq<char> {
        self@
    }

    fn as_text(&self) -> (slice: &str) {
        self
    }
}

impl<'a, T: Text + ?Sized> Text for &'a T {
    open spec fn text(&self) -> Seq<char> {
        (**self).text()
    }

    fn as_text(&self) -> (slice: &str) {
        (**self).as_text()
    }
}

impl Text for String {
    open spec fn text(&self) -> Seq<char> {
        self@
    }

    fn as_text(&self) -> (slice: &str) {
        self.as_str()
    }
}

/// Whether `start..end` is a span of `source`: both offsets lie in the
/// encoding of `source`, in order, each between two characters.
#[verifier::opaque]
pub open spec fn is_span(source: Seq<char>, start: int, end: int) -> bool {
    &&& 0 <= start <= end <= encode_utf8(source).len()
    &&& is_char_boundary(encode_utf8(source), start)
    &&& is_char_boundary(encode_utf8(source), end)
}

/// The characters that the bytes `start..end` of the encoding of `source`
/// decode to.
#[verifier::opaque]
pub open spec fn text_between(source: Seq<char>, start: int, end: int) -> Seq<char> {
    decode_utf8(encode_utf8(source).subrange(start, end))
}

/// The span that covers a whole text is that text.
pub proof fn lemma_whole_span(source: Seq<char>)
    ensures
        is_span(source, 0, encode_utf8(source).len() as int),
        text_between(source, 0, encode_utf8(source).len() as int) == source,
{
    reveal(is_span);
    reveal(text_between);
    let bytes = encode_utf8(source);
    encode_utf8_valid_utf8(source);
    is_char_boundary_start_end_of_seq(bytes);
    assert(bytes.subrange(0, bytes.len() as int) =~= bytes);
    encode_utf8_decode_utf8(source);
}

/// The two ends of a span are spans, and empty ones.
pub proof fn lemma_span_ends(source: Seq<char>, start: int, end: int)
    requires
        is_span(source, start, end),
    ensures
        0 <= start <= end <= encode_utf8(source).len(),
        is_span(source, start, start),
        is_span(source, end, end),
        text_between(source, start, start) == Seq::<char>::empty(),
        text_between(source, end, end) == Seq::<char>::empty(),
{
    reveal(is_span);
    reveal(text_between);
}

/// What lies between the end of one span and the start of a later one is a
/// span.
pub proof fn lemma_span_between(source: Seq<char>, first_end: int, second_start: int)
    requires
        is_span(source, first_end, first_end),
        is_span(source, second_start, second_start),
        first_end <= second_start,
    ensures
        is_span(source, first_end, second_start),
{
    reveal(is_span);
}

/// The bytes of a span are themselves well-formed UTF-8.
pub proof fn lemma_span_is_utf8(source: Seq<char>, start: int, end: int)
    requires
        is_span(source, start, end),
    ensures
        valid_utf8(encode_utf8(source).subrange(start, end)),
        valid_utf8(encode_utf8(source).subrange(0, end)),
        is_char_boundary(encode_utf8(source).subrange(0, end), start),
{
    reveal(is_span);
    let bytes = encode_utf8(source);
    let head = bytes.subrange(0, end);
    encode_utf8_valid_utf8(source);
    valid_utf8_split(bytes, end);
    if start == end {
        is_char_boundary_start_end_of_seq(head);
    } else {
        is_char_boundary_iff_not_is_continuation_byte(bytes, start);
        is_char_boundary_iff_not_is_continuation_byte(head, start);
    }
    valid_utf8_split(head, start);
    assert(head.subrange(start, head.len() as int) =~= bytes.subrange(start, end));
}

/// The text of a span encodes to the bytes of the span.
pub proof fn lemma_span_bytes(source: Seq<char>, start: int, end: int)
    requires
        is_span(source, start, end),
    ensures
        encode_utf8(text_between(source, start, end)) == encode_utf8(source).subrange(start, end),
{
    reveal(text_between);
    lemma_span_is_utf8(source, start, end);
    decode_utf8_encode_utf8(encode_utf8(source).subrange(start, end));
}

/// Two spans that meet make one span, and its text is the text of the first
/// followed by the text of the second.
pub proof fn lemma_spans_join(source: Seq<char>, start: int, mid: int, end: int)
    requires
        is_span(source, start, mid),
        is_span(source, mid, end),
    ensures
        is_span(source, start, end),
        text_between(source, start, end) == text_between(source, start, mid) + text_between(
            source,
            mid,
            end,
        ),
{
    reveal(is_span);
    reveal(text_between);
    let bytes = encode_utf8(source);
    let whole = bytes.subrange(start, end);
    lemma_span_is_utf8(source, start, end);
    if mid == end {
        is_char_boundary_start_end_of_seq(whole);
    } else {
        encode_utf8_valid_utf8(source);
        is_char_boundary_iff_not_is_continuation_byte(bytes, mid);
        if mid == start {
        } else {
            is_char_boundary_iff_not_is_continuation_byte(whole, mid - start);
        }
    }
    decode_utf8_split(whole, mid - start);
    assert(whole.subrange(0, mid - start) =~= bytes.subrange(start, mid));
    assert(whole.subrange(mid - start, whole.len() as int) =~= bytes.subrange(mid, end));
}

/// The part of `text` from a byte offset to its end.
pub fn slice_from<'a>(text: &'a str, start: usize) -> (piece: &'a str)
    requires
        is_span(text@, start as int, start as int),
    ensures
        is_span(text@, start as int, encode_utf8(text@).len() as int),
        piece@ == text_between(text@, start as int, encode_utf8(text@).len() as int),
{
    proof {
        reveal(is_span);
        reveal(text_between);
        lemma_whole_span(text@);
    }
    let (_, piece) = text.split_at(start);
    proof {
        encode_utf8_decode_utf8(piece@);
    }
    piece
}

/// The part of `text` between two byte offsets.
pub fn slice<'a>(text: &'a str, start: usize, end: usize) -> (piece: &'a str)
    requires
        is_span(text@, start as int, end as int),
    ensures
        piece@ == text_between(text@, start as int, end as int),
{
    proof {
        reveal(is_span);
        reveal(text_between);
        lemma_span_is_utf8(text@, start as int, end as int);
    }
    let (head, _) = text.split_at(end);
    let (_, piece) = head.split_at(start);
    proof {
        let bytes = encode_utf8(text@);
        let head_bytes = encode_utf8(head@);
        assert(head_bytes.subrange(start as int, head_bytes.len() as int) =~= bytes.subrange(
            start as int,
            end as int,
        ));
        encode_utf8_decode_utf8(piece@);
    }
    piece
}

} // verus!
