use vstd::prelude::*;
use vstd::string::*;
use vstd::utf8::*;

verus! {

broadcast use vstd::utf8::group_utf8_lib;

/// Appends one character to a string by `String::push` of the standard
/// library. Taken on trust from the documentation of `String::push`, and not
/// proved here: the string then holds what it held before, followed by
/// `character`.
#[verifier::external_body]
pub(crate) fn push_char(text: &mut String, character: char)
    ensures
        final(text)@ == old(text)@.push(character),
{
    text.push(character);
}

/// The UTF-8 form of a concatenation is the concatenation of the UTF-8 forms.
pub proof fn lemma_encode_concat(a: Seq<char>, b: Seq<char>)
    ensures
        encode_utf8(a + b) == encode_utf8(a) + encode_utf8(b),
    decreases a.len(),
{
    if a.len() == 0 {
        assert(a + b =~= b);
        assert(encode_utf8(a) + encode_utf8(b) =~= encode_utf8(b));
    } else {
        lemma_encode_concat(a.drop_first(), b);
        assert((a + b).drop_first() =~= a.drop_first() + b);
        assert(encode_utf8(a + b) =~= encode_utf8(a) + encode_utf8(b));
    }
}

/// The character that stands for a digit.
pub open spec fn digit(value: nat) -> char
    recommends
        value < 10,
{
    ((48 + value) as u8) as char
}

/// A number in decimal notation.
pub open spec fn decimal(number: nat) -> Seq<char>
    decreases number,
{
    if number < 10 {
        seq![digit(number)]
    } else {
        decimal(number / 10).push(digit(number % 10))
    }
}

/// `text` with spaces in front of it until it counts `width` characters; a
/// longer text is left as it is.
pub open spec fn padded_left(text: Seq<char>, width: nat) -> Seq<char> {
    if text.len() >= width {
        text
    } else {
        Seq::new((width - text.len()) as nat, |i: int| ' ') + text
    }
}

/// Appends `number` in decimal notation.
pub fn push_decimal(text: &mut String, number: usize)
    ensures
        final(text)@ == old(text)@ + decimal(number as nat),
    decreases number,
{
    if number >= 10 {
        push_decimal(text, number / 10);
    }
    let last: u8 = (number % 10) as u8;
    push_char(text, (48u8 + last) as char);
    assert(text@ =~= old(text)@ + decimal(number as nat));
}

/// Appends `text`, with spaces in front of it until it counts `width`
/// characters.
pub fn push_padded_left(target: &mut String, text: &str, width: usize)
    ensures
        final(target)@ == old(target)@ + padded_left(text@, width as nat),
{
    let count = text.unicode_len();
    let mut missing: usize = if count < width {
        width - count
    } else {
        0
    };
    let ghost total = missing;
    while missing > 0
        invariant
            missing <= total,
            target@ == old(target)@ + Seq::new((total - missing) as nat, |i: int| ' '),
        decreases missing,
    {
        push_char(target, ' ');
        missing = missing - 1;
        assert(target@ =~= old(target)@ + Seq::new((total - missing) as nat, |i: int| ' '));
    }
    target.append(text);
    assert(target@ =~= old(target)@ + padded_left(text@, width as nat));
}

} // verus!
