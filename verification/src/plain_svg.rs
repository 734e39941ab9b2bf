//! SVG documents so plain that reading or drawing them never fails for want of care: filled
//! rectangles of moderate size, and nothing else.

use vstd::prelude::*;
use vstd::string::*;
use vstd::utf8::*;

verus! {

/// The most digits that may follow each other in a plain document.
pub const MAX_PLAIN_DIGITS: usize = 4;

/// Whether a byte is a decimal digit.
pub open spec fn is_digit(byte: u8) -> bool {
    0x30 <= byte <= 0x39
}

/// Whether a byte is white space of XML.
pub open spec fn is_xml_space(byte: u8) -> bool {
    byte == 0x20 || byte == 0x09 || byte == 0x0a || byte == 0x0d
}

/// Whether a plain document may hold a byte: white space or a visible ASCII character, but for
/// those that start a reference (`&`), a declaration (`!`, `?`), a function (`(`) or a relative
/// length (`%`).
pub open spec fn is_plain_byte(byte: u8) -> bool {
    &&& is_xml_space(byte) || 0x20 < byte < 0x7f
    &&& byte != 0x26
    &&& byte != 0x21
    &&& byte != 0x3f
    &&& byte != 0x28
    &&& byte != 0x25
}

/// Whether a word stands in a document at a place.
pub open spec fn spelled_at(bytes: Seq<u8>, at: int, word: Seq<char>) -> bool {
    &&& at + encode_utf8(word).len() <= bytes.len()
    &&& bytes.subrange(at, at + encode_utf8(word).len()) == encode_utf8(word)
}

/// Whether the start of a tag, up to the end of its name, stands in a document at a place.
pub open spec fn tag_at(bytes: Seq<u8>, at: int, tag: Seq<char>) -> bool {
    let end = at + encode_utf8(tag).len();
    &&& spelled_at(bytes, at, tag)
    &&& end < bytes.len()
    &&& is_xml_space(bytes[end]) || bytes[end] == 0x2f || bytes[end] == 0x3e
}

/// Whether a number that is too long for a plain document, or that has an exponent or a unit
/// relative to a font, stands in a document at a place.
pub open spec fn wild_number_at(bytes: Seq<u8>, at: int) -> bool {
    ||| at + MAX_PLAIN_DIGITS < bytes.len() && forall|i: int|
        at <= i <= at + MAX_PLAIN_DIGITS ==> is_digit(#[trigger] bytes[i])
    ||| at + 1 < bytes.len() && (is_digit(bytes[at]) || bytes[at] == 0x2e) && (bytes[at + 1]
        == 0x65 || bytes[at + 1] == 0x45)
}

/// Whether an attribute's name, after white space, ends in a document at a place.
pub open spec fn named_before(bytes: Seq<u8>, at: int, name: Seq<char>) -> bool {
    let start = at - encode_utf8(name).len();
    &&& start > 0
    &&& is_xml_space(bytes[start - 1])
    &&& spelled_at(bytes, start, name)
}

/// Whether what stands in a document at a place may stand in a plain one: a plain byte, which
/// starts no wild number, no tag but those of the document itself and of rectangles without
/// contents, and no value but that of an attribute for a place, a size or a colour.
pub open spec fn plain_at(bytes: Seq<u8>, at: int) -> bool {
    &&& is_plain_byte(bytes[at])
    &&& !wild_number_at(bytes, at)
    &&& bytes[at] == 0x3c ==> if at == 0 {
        tag_at(bytes, at, "<svg"@)
    } else {
        tag_at(bytes, at, "<rect"@) || tag_at(bytes, at, "</svg"@)
    }
    &&& bytes[at] == 0x3d ==> {
        ||| named_before(bytes, at, "xmlns"@)
        ||| named_before(bytes, at, "width"@)
        ||| named_before(bytes, at, "height"@)
        ||| named_before(bytes, at, "x"@)
        ||| named_before(bytes, at, "y"@)
        ||| named_before(bytes, at, "fill"@)
        ||| named_before(bytes, at, "fill-opacity"@)
    }
}

/// Whether a document is plain.
pub open spec fn plain_svg(bytes: Seq<u8>) -> bool {
    forall|at: int| 0 <= at < bytes.len() ==> #[trigger] plain_at(bytes, at)
}

fn is_spelled_at(bytes: &[u8], at: usize, word: &str) -> (result: bool)
    requires
        at <= bytes@.len(),
    ensures
        result == spelled_at(bytes@, at as int, word@),
{
    let letters = word.as_bytes();
    proof {
        encode_utf8_decode_utf8(word@);
    }
    if letters.len() > bytes.len() - at {
        return false;
    }
    let mut i: usize = 0;
    while i < letters.len()
        invariant
            i <= letters@.len(),
            letters@ == encode_utf8(word@),
            at + letters@.len() <= bytes@.len() <= usize::MAX,
            forall|j: int| 0 <= j < i ==> bytes@[at + j] == #[trigger] letters@[j],
        decreases letters@.len() - i,
    {
        if bytes[at + i] != letters[i] {
            proof {
                assert(bytes@.subrange(at as int, at + letters@.len())[i as int] == bytes@[at + i]);
            }
            return false;
        }
        i += 1;
    }
    assert(bytes@.subrange(at as int, at + letters@.len()) =~= letters@);
    true
}

fn is_tag_at(bytes: &[u8], at: usize, tag: &str) -> (result: bool)
    requires
        at <= bytes@.len(),
    ensures
        result == tag_at(bytes@, at as int, tag@),
{
    if !is_spelled_at(bytes, at, tag) {
        return false;
    }
    let length: usize = tag.as_bytes().len();
    proof {
        encode_utf8_decode_utf8(tag@);
    }
    if bytes.len() - at == length {
        return false;
    }
    let end: u8 = bytes[at + length];
    end == 0x20 || end == 0x09 || end == 0x0a || end == 0x0d || end == 0x2f || end == 0x3e
}

fn is_wild_number_at(bytes: &[u8], at: usize) -> (result: bool)
    requires
        at < bytes@.len(),
    ensures
        result == wild_number_at(bytes@, at as int),
{
    let first: u8 = bytes[at];
    if bytes.len() - at > 1 && (0x30 <= first && first <= 0x39 || first == 0x2e) && (bytes[at + 1]
        == 0x65 || bytes[at + 1] == 0x45) {
        return true;
    }
    if bytes.len() - at <= MAX_PLAIN_DIGITS {
        return false;
    }
    let mut i: usize = 0;
    while i <= MAX_PLAIN_DIGITS
        invariant
            i <= MAX_PLAIN_DIGITS + 1,
            at + MAX_PLAIN_DIGITS < bytes@.len() <= usize::MAX,
            forall|j: int| at <= j < at + i ==> is_digit(#[trigger] bytes@[j]),
            !(at + 1 < bytes@.len() && (is_digit(bytes@[at as int]) || bytes@[at as int] == 0x2e)
                && (bytes@[at + 1] == 0x65 || bytes@[at + 1] == 0x45)),
        decreases MAX_PLAIN_DIGITS + 1 - i,
    {
        let byte: u8 = bytes[at + i];
        if byte < 0x30 || byte > 0x39 {
            assert(!is_digit(bytes@[at + i]));
            return false;
        }
        i += 1;
    }
    true
}

fn is_named_before(bytes: &[u8], at: usize, name: &str) -> (result: bool)
    requires
        at <= bytes@.len(),
    ensures
        result == named_before(bytes@, at as int, name@),
{
    let length: usize = name.as_bytes().len();
    proof {
        encode_utf8_decode_utf8(name@);
    }
    if at <= length {
        return false;
    }
    let before: u8 = bytes[at - length - 1];
    (before == 0x20 || before == 0x09 || before == 0x0a || before == 0x0d) && is_spelled_at(
        bytes,
        at - length,
        name,
    )
}

fn is_plain_at(bytes: &[u8], at: usize) -> (result: bool)
    requires
        at < bytes@.len(),
    ensures
        result == plain_at(bytes@, at as int),
{
    let byte: u8 = bytes[at];
    let plain_byte = (byte == 0x20 || byte == 0x09 || byte == 0x0a || byte == 0x0d || 0x20 < byte
        && byte < 0x7f) && byte != 0x26 && byte != 0x21 && byte != 0x3f && byte != 0x28 && byte
        != 0x25;
    if !plain_byte || is_wild_number_at(bytes, at) {
        return false;
    }
    if byte == 0x3c {
        if at == 0 {
            is_tag_at(bytes, at, "<svg")
        } else {
            is_tag_at(bytes, at, "<rect") || is_tag_at(bytes, at, "</svg")
        }
    } else if byte == 0x3d {
        is_named_before(bytes, at, "xmlns") || is_named_before(bytes, at, "width")
            || is_named_before(bytes, at, "height") || is_named_before(bytes, at, "x")
            || is_named_before(bytes, at, "y") || is_named_before(bytes, at, "fill")
            || is_named_before(bytes, at, "fill-opacity")
    } else {
        true
    }
}

/// Whether a document is plain.
pub fn is_plain_svg(bytes: &[u8]) -> (result: bool)
    ensures
        result == plain_svg(bytes@),
{
    let mut at: usize = 0;
    while at < bytes.len()
        invariant
            at <= bytes@.len(),
            forall|i: int| 0 <= i < at ==> #[trigger] plain_at(bytes@, i),
        decreases bytes@.len() - at,
    {
        if !is_plain_at(bytes, at) {
            return false;
        }
        at += 1;
    }
    true
}

/// A plain document is plain ASCII without references, declarations, functions and percentages,
/// starts no tag but its own before the first rectangle, and has no number of five digits.
pub proof fn plain_documents_are_tame(bytes: Seq<u8>, at: int)
    requires
        plain_svg(bytes),
        0 <= at < bytes.len(),
    ensures
        bytes[at] < 0x7f,
        bytes[at] >= 0x20 || bytes[at] == 0x09 || bytes[at] == 0x0a || bytes[at] == 0x0d,
        bytes[at] != 0x26 && bytes[at] != 0x21 && bytes[at] != 0x3f && bytes[at] != 0x28
            && bytes[at] != 0x25,
        at + 4 < bytes.len() ==> exists|i: int|
            at <= i <= at + 4 && !(0x30 <= #[trigger] bytes[i] <= 0x39),
        bytes[at] == 0x3c && at == 0 ==> spelled_at(bytes, 0, "<svg"@),
        bytes[at] == 0x3c && at > 0 ==> spelled_at(bytes, at, "<rect"@) || spelled_at(
            bytes,
            at,
            "</svg"@,
        ),
{
    assert(plain_at(bytes, at));
    if at + 4 < bytes.len() {
        assert(!wild_number_at(bytes, at));
        let i = choose|i: int| at <= i <= at + 4 && !is_digit(#[trigger] bytes[i]);
        assert(!(0x30 <= bytes[i] <= 0x39));
    }
}

/// Small letters and spaces are plain in every order.
pub proof fn words_are_plain(bytes: Seq<u8>)
    requires
        forall|i: int|
            0 <= i < bytes.len() ==> 0x61 <= #[trigger] bytes[i] <= 0x7a || bytes[i] == 0x20,
    ensures
        plain_svg(bytes),
{
    assert forall|at: int| 0 <= at < bytes.len() implies #[trigger] plain_at(bytes, at) by {
        assert(is_plain_byte(bytes[at]));
        assert(!is_digit(bytes[at]));
    }
}

/// Numbers of up to four digits with spaces between them are plain.
pub proof fn short_numbers_are_plain(bytes: Seq<u8>)
    requires
        forall|i: int|
            0 <= i < bytes.len() ==> 0x30 <= #[trigger] bytes[i] <= 0x39 || bytes[i] == 0x20,
        forall|i: int|
            #![trigger bytes[i]]
            0 <= i < bytes.len() - 4 ==> exists|j: int|
                i <= j <= i + 4 && #[trigger] bytes[j] == 0x20,
    ensures
        plain_svg(bytes),
{
    assert forall|at: int| 0 <= at < bytes.len() implies #[trigger] plain_at(bytes, at) by {
        assert(is_plain_byte(bytes[at]));
        if at + 1 < bytes.len() {
            assert(bytes[at + 1] != 0x65 && bytes[at + 1] != 0x45);
        }
        if at + 4 < bytes.len() {
            let j = choose|j: int| at <= j <= at + 4 && #[trigger] bytes[j] == 0x20;
            assert(!is_digit(bytes[j]));
        }
    }
}

} // verus!
