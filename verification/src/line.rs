use std::ops::Range;
use vstd::prelude::*;
use vstd::string::*;
use vstd::utf8::*;

verus! {

broadcast use {vstd::utf8::group_utf8_lib, vstd::slice::group_slice_axioms};

/// The smaller of `end` and `len`: where an extraction that asks for `end`
/// actually stops in a text of `len` bytes.
pub open spec fn clamped(end: int, len: int) -> int {
    if end < len {
        end
    } else {
        len
    }
}

/// Whether the byte range `[start, end)`, with `end` clamped to the text's
/// length, can be cut out of the UTF-8 form of `chars`: the range is not
/// reversed and neither of its ends falls inside a character.
pub open spec fn sliceable(chars: Seq<char>, start: int, end: int) -> bool {
    let bytes = encode_utf8(chars);
    let stop = clamped(end, bytes.len() as int);
    0 <= start <= stop && is_char_boundary(bytes, start) && is_char_boundary(bytes, stop)
}

/// The characters that occupy the byte range `[start, end)` of `chars`, with
/// `end` clamped to the text's length. Empty where the range is not
/// `sliceable`.
pub open spec fn slice(chars: Seq<char>, start: int, end: int) -> Seq<char> {
    let bytes = encode_utf8(chars);
    if sliceable(chars, start, end) {
        decode_utf8(bytes.subrange(start, clamped(end, bytes.len() as int)))
    } else {
        Seq::empty()
    }
}

/// A character boundary of a text is also one of each prefix that reaches it,
/// provided the prefix itself ends on a boundary.
pub proof fn lemma_boundary_in_prefix(bytes: Seq<u8>, start: int, end: int)
    requires
        valid_utf8(bytes),
        0 <= start <= end <= bytes.len(),
        is_char_boundary(bytes, start),
        is_char_boundary(bytes, end),
    ensures
        valid_utf8(bytes.subrange(0, end)),
        is_char_boundary(bytes.subrange(0, end), start),
{
    let head = bytes.subrange(0, end);
    valid_utf8_split(bytes, end);
    if start == end {
        is_char_boundary_start_end_of_seq(head);
    } else {
        is_char_boundary_iff_not_is_continuation_byte(bytes, start);
        is_char_boundary_iff_not_is_continuation_byte(head, start);
    }
}

/// Where two valid texts are joined, a character starts.
pub proof fn lemma_boundary_at_join(a: Seq<u8>, b: Seq<u8>)
    requires
        valid_utf8(a),
        valid_utf8(b),
    ensures
        valid_utf8(a + b),
        is_char_boundary(a + b, a.len() as int),
{
    valid_utf8_concat(a, b);
    if b.len() == 0 {
        assert(a + b =~= a);
        is_char_boundary_start_end_of_seq(a);
    } else {
        is_char_boundary_start_end_of_seq(b);
        is_char_boundary_iff_not_is_continuation_byte(b, 0);
        is_char_boundary_iff_not_is_continuation_byte(a + b, a.len() as int);
    }
}

/// A text cut at a character boundary and put together again is the text.
pub proof fn lemma_slices_rejoin(chars: Seq<char>, at: int)
    requires
        0 <= at <= encode_utf8(chars).len(),
        is_char_boundary(encode_utf8(chars), at),
    ensures
        slice(chars, 0, at) + slice(chars, at, encode_utf8(chars).len() as int) == chars,
{
    let bytes = encode_utf8(chars);
    is_char_boundary_start_end_of_seq(bytes);
    decode_utf8_split(bytes, at);
    encode_utf8_decode_utf8(chars);
}

/// What an extraction gives is as long as the range it was taken from.
pub proof fn lemma_slice_width(chars: Seq<char>, start: int, end: int)
    ensures
        encode_utf8(slice(chars, start, end)).len() == if sliceable(chars, start, end) {
            clamped(end, encode_utf8(chars).len() as int) - start
        } else {
            0
        },
        sliceable(chars, start, end) ==> encode_utf8(slice(chars, start, end)) == encode_utf8(
            chars,
        ).subrange(start, clamped(end, encode_utf8(chars).len() as int)),
{
    let bytes = encode_utf8(chars);
    let stop = clamped(end, bytes.len() as int);
    if sliceable(chars, start, end) {
        lemma_boundary_in_prefix(bytes, start, stop);
        let head = bytes.subrange(0, stop);
        valid_utf8_split(head, start);
        assert(head.subrange(start, head.len() as int) =~= bytes.subrange(start, stop));
    }
}

/// In a text of ASCII characters every byte is a character, so that byte
/// offsets count characters: the text is as long as it has characters, and an
/// extraction is the run of characters between its two ends.
pub proof fn lemma_slice_of_ascii(chars: Seq<char>, start: int, end: int)
    requires
        is_ascii_chars(chars),
    ensures
        encode_utf8(chars).len() == chars.len(),
        slice(chars, start, end) == if 0 <= start <= clamped(end, chars.len() as int) {
            chars.subrange(start, clamped(end, chars.len() as int))
        } else {
            Seq::empty()
        },
{
    let bytes = encode_utf8(chars);
    is_ascii_chars_encode_utf8(chars);
    is_ascii_chars_nat_bound(chars);
    let stop = clamped(end, chars.len() as int);
    if 0 <= start <= stop {
        assert forall|index: int| 0 <= index <= bytes.len() implies is_char_boundary(
            bytes,
            index,
        ) by {
            is_char_boundary_start_end_of_seq(bytes);
            if index < bytes.len() {
                assert(bytes[index] == chars[index] as u8);
                is_char_boundary_iff_not_is_continuation_byte(bytes, index);
            }
        }
        let part = chars.subrange(start, stop);
        assert(is_ascii_chars(part));
        is_ascii_chars_encode_utf8(part);
        assert(encode_utf8(part) =~= bytes.subrange(start, stop)) by {
            assert forall|index: int| 0 <= index < part.len() implies encode_utf8(part)[index]
                == bytes.subrange(start, stop)[index] by {
                assert(part[index] == chars[start + index]);
                assert(bytes[start + index] == chars[start + index] as u8);
            }
        }
        encode_utf8_decode_utf8(part);
    }
}

/// The length of `text` in bytes.
pub fn byte_len(text: &str) -> (n: usize)
    ensures
        n == encode_utf8(text@).len(),
{
    text.as_bytes().len()
}

/// One row of document text.
pub struct Line {
    pub string: String,
}

impl View for Line {
    type V = Seq<char>;

    open spec fn view(&self) -> Seq<char> {
        self.string@
    }
}

impl Line {
    /// The number of bytes the line occupies in UTF-8.
    pub open spec fn spec_len(&self) -> nat {
        encode_utf8(self@).len()
    }

    pub fn from(line: &str) -> (res: Line)
        ensures
            res@ == line@,
    {
        Line { string: line.to_owned() }
    }

    /// The text in the byte range `range`, its end clamped to the line's
    /// length; empty where an end of the range falls inside a character or
    /// the range is reversed.
    pub fn get(&self, range: Range<usize>) -> (res: String)
        ensures
            res@ == slice(self@, range.start as int, range.end as int),
    {
        let text = self.string.as_str();
        let start = range.start;
        let len = byte_len(text);
        let end = if range.end < len {
            range.end
        } else {
            len
        };
        if start <= end && text.is_char_boundary(start) && text.is_char_boundary(end) {
            proof {
                lemma_boundary_in_prefix(text.spec_bytes(), start as int, end as int);
            }
            let (head, _) = text.split_at(end);
            let (_, middle) = head.split_at(start);
            proof {
                assert(middle.spec_bytes() =~= text.spec_bytes().subrange(
                    start as int,
                    end as int,
                ));
            }
            middle.to_owned()
        } else {
            String::new()
        }
    }

    pub fn len(&self) -> (n: usize)
        ensures
            n == self.spec_len(),
    {
        byte_len(self.string.as_str())
    }
}

} // verus!
