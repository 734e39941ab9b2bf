//! Small operations on text.

use vstd::prelude::*;
use vstd::string::*;
use vstd::utf8::*;

verus! {

/// `String::push` puts one character at the end of the text.
pub assume_specification[ String::push ](text: &mut String, character: char)
    ensures
        final(text)@ == old(text)@.push(character),
;

/// The characters of a text, if there is one.
pub open spec fn optional_text(text: Option<String>) -> Option<Seq<char>> {
    match text {
        Some(text) => Some(text@),
        None => None,
    }
}

/// The characters of a borrowed text, if there is one.
pub open spec fn optional_chars(text: Option<&str>) -> Option<Seq<char>> {
    match text {
        Some(text) => Some(text@),
        None => None,
    }
}

/// The borrowed text, if there is one.
pub fn borrowed(text: &Option<String>) -> (result: Option<&str>)
    ensures
        optional_chars(result) == optional_text(*text),
{
    match text {
        Some(text) => Some(text.as_str()),
        None => None,
    }
}

/// The characters of several texts.
pub open spec fn texts(list: Seq<String>) -> Seq<Seq<char>> {
    Seq::new(list.len(), |i: int| list[i]@)
}

/// The small letter of an ASCII letter; every other character is its own.
pub open spec fn ascii_lowercase(character: char) -> char {
    if 'A' <= character <= 'Z' {
        (character as u32 + 32) as char
    } else {
        character
    }
}

/// Whether two texts differ in nothing but the case of ASCII letters.
pub open spec fn same_but_for_ascii_case(a: Seq<char>, b: Seq<char>) -> bool {
    &&& a.len() == b.len()
    &&& forall|i: int| 0 <= i < a.len() ==> ascii_lowercase(a[i]) == ascii_lowercase(b[i])
}

/// `str::eq_ignore_ascii_case` compares two texts without regard to the case of ASCII letters.
pub assume_specification[ str::eq_ignore_ascii_case ](a: &str, b: &str) -> (result: bool)
    ensures
        result == same_but_for_ascii_case(a@, b@),
;

/// Whether a character has the Unicode property `White_Space`.
pub open spec fn is_white_space(character: char) -> bool {
    let code = character as u32;
    ||| 0x09 <= code <= 0x0d
    ||| code == 0x20
    ||| code == 0x85
    ||| code == 0xa0
    ||| code == 0x1680
    ||| 0x2000 <= code <= 0x200a
    ||| code == 0x2028
    ||| code == 0x2029
    ||| code == 0x202f
    ||| code == 0x205f
    ||| code == 0x3000
}

/// A text without white space at its start and its end.
pub open spec fn trimmed(text: Seq<char>) -> Seq<char>
    decreases text.len(),
{
    if text.len() == 0 {
        text
    } else if is_white_space(text.first()) {
        trimmed(text.skip(1))
    } else if is_white_space(text.last()) {
        trimmed(text.drop_last())
    } else {
        text
    }
}

/// `str::trim` takes the white space from both ends of a text.
pub assume_specification[ str::trim ](text: &str) -> (result: &str)
    ensures
        result@ == trimmed(text@),
;

/// `str::from_utf8` reads bytes as text: it gives the decoded characters of well-formed UTF-8
/// and nothing else.
#[verifier::external_body]
pub(crate) fn text_of_utf8(bytes: &[u8]) -> (text: Option<&str>)
    ensures
        text is Some <==> valid_utf8(bytes@),
        text is Some ==> text->0@ == decode_utf8(bytes@),
{
    std::str::from_utf8(bytes).ok()
}

/// Whether the two texts have the same characters.
pub fn same_text(a: &str, b: &str) -> (result: bool)
    ensures
        result == (a@ == b@),
{
    let left = a.as_bytes();
    let right = b.as_bytes();
    proof {
        encode_utf8_decode_utf8(a@);
        encode_utf8_decode_utf8(b@);
    }
    if left.len() != right.len() {
        return false;
    }
    let mut i: usize = 0;
    while i < left.len()
        invariant
            i <= left@.len(),
            left@.len() == right@.len(),
            left@ == encode_utf8(a@),
            right@ == encode_utf8(b@),
            forall|j: int| 0 <= j < i ==> left@[j] == right@[j],
        decreases left@.len() - i,
    {
        if left[i] != right[i] {
            return false;
        }
        i += 1;
    }
    assert(left@ =~= right@);
    true
}

/// The decimal digit of a number below ten.
pub open spec fn digit(n: nat) -> char {
    (('0' as u32) + n) as char
}

/// A number in decimal notation.
pub open spec fn decimal(n: nat) -> Seq<char>
    decreases n,
{
    if n < 10 {
        seq![digit(n)]
    } else {
        decimal(n / 10).push(digit(n % 10))
    }
}

/// An integer in decimal notation, with a sign where it is negative.
pub open spec fn signed_decimal(n: int) -> Seq<char> {
    if n < 0 {
        seq!['-'] + decimal((-n) as nat)
    } else {
        decimal(n as nat)
    }
}

fn digit_char(n: u64) -> (result: char)
    requires
        n < 10,
    ensures
        result == digit(n as nat),
{
    match n {
        0 => '0',
        1 => '1',
        2 => '2',
        3 => '3',
        4 => '4',
        5 => '5',
        6 => '6',
        7 => '7',
        8 => '8',
        _ => '9',
    }
}

/// Puts `n` in decimal notation at the end of `text`.
pub fn push_decimal(text: &mut String, n: u64)
    ensures
        final(text)@ == old(text)@ + decimal(n as nat),
    decreases n,
{
    if n >= 10 {
        push_decimal(text, n / 10);
    }
    text.push(digit_char(n % 10));
    assert(text@ =~= old(text)@ + decimal(n as nat));
}

/// Puts `n` in decimal notation at the end of `text`, with a sign where it is negative.
pub fn push_signed_decimal(text: &mut String, n: i32)
    ensures
        final(text)@ == old(text)@ + signed_decimal(n as int),
{
    if n < 0 {
        text.push('-');
        push_decimal(text, (-(n as i64)) as u64);
        assert(text@ =~= old(text)@ + signed_decimal(n as int));
    } else {
        push_decimal(text, n as u64);
    }
}

/// Different numbers have different decimal notations.
pub(crate) proof fn lemma_decimal_is_injective(a: nat, b: nat)
    requires
        a != b,
    ensures
        decimal(a) != decimal(b),
    decreases a,
{
    if a < 10 && b < 10 {
        assert(decimal(a)[0] == digit(a));
        assert(decimal(b)[0] == digit(b));
    } else if a < 10 {
        lemma_decimal_is_not_empty(b / 10);
        assert(decimal(b).len() >= 2);
    } else if b < 10 {
        lemma_decimal_is_not_empty(a / 10);
        assert(decimal(a).len() >= 2);
    } else {
        if a / 10 != b / 10 {
            lemma_decimal_is_injective(a / 10, b / 10);
        }
        assert(decimal(a).drop_last() =~= decimal(a / 10));
        assert(decimal(b).drop_last() =~= decimal(b / 10));
        assert(decimal(a).last() == digit(a % 10));
        assert(decimal(b).last() == digit(b % 10));
    }
}

proof fn lemma_decimal_is_not_empty(n: nat)
    ensures
        decimal(n).len() > 0,
{
}

/// The number that decimal digits stand for.
pub open spec fn number_of(digits: Seq<char>) -> int
    decreases digits.len(),
{
    if digits.len() == 0 {
        0
    } else {
        10 * number_of(digits.drop_last()) + (digits.last() as int - 48)
    }
}

/// The decimal notation of a number consists of digits, stands for the number, and does not start
/// with a zero unless it is that of zero.
pub proof fn decimals_stand_for_their_numbers(n: nat)
    ensures
        number_of(decimal(n)) == n,
        decimal(n).len() > 0,
        forall|i: int| 0 <= i < decimal(n).len() ==> '0' <= #[trigger] decimal(n)[i] <= '9',
        n > 0 ==> decimal(n)[0] != '0',
    decreases n,
{
    if n < 10 {
        assert(decimal(n).drop_last() =~= Seq::empty());
        assert(number_of(decimal(n).drop_last()) == 0);
    } else {
        decimals_stand_for_their_numbers(n / 10);
        let digits = decimal(n);
        assert(digits.drop_last() =~= decimal(n / 10));
        assert forall|i: int| 0 <= i < digits.len() implies '0' <= #[trigger] digits[i] <= '9' by {
            if i < digits.len() - 1 {
                assert(digits[i] == decimal(n / 10)[i]);
            }
        }
        assert(digits[0] == decimal(n / 10)[0]);
    }
}

/// A negative number is written as its opposite behind a minus sign.
pub proof fn negative_numbers_have_a_sign(n: int)
    ensures
        n < 0 ==> signed_decimal(n) == seq!['-'] + decimal((-n) as nat),
        n >= 0 ==> signed_decimal(n) == decimal(n as nat),
{
}

/// The white space of ASCII is the space and the five characters from tab to carriage return.
pub proof fn white_space_of_ascii(character: char)
    requires
        (character as u32) < 0x80,
    ensures
        is_white_space(character) <==> character == ' ' || '\t' <= character <= '\r',
{
}

/// Texts are the same but for case where they have the same letters, large or small, in the same
/// order; that is so both ways, and every text is the same as itself.
pub proof fn case_does_not_count(a: Seq<char>, b: Seq<char>)
    ensures
        same_but_for_ascii_case(a, a),
        same_but_for_ascii_case(a, b) <==> same_but_for_ascii_case(b, a),
        same_but_for_ascii_case(a, "svg"@) <==> {
            &&& a.len() == 3
            &&& a[0] == 's' || a[0] == 'S'
            &&& a[1] == 'v' || a[1] == 'V'
            &&& a[2] == 'g' || a[2] == 'G'
        },
{
    reveal_strlit("svg");
    let svg = "svg"@;
    assert(svg.len() == 3 && svg[0] == 's' && svg[1] == 'v' && svg[2] == 'g');
    if a.len() == 3 {
        if same_but_for_ascii_case(a, svg) {
            assert(ascii_lowercase(a[0]) == ascii_lowercase(svg[0]));
            assert(ascii_lowercase(a[1]) == ascii_lowercase(svg[1]));
            assert(ascii_lowercase(a[2]) == ascii_lowercase(svg[2]));
        }
        if (a[0] == 's' || a[0] == 'S') && (a[1] == 'v' || a[1] == 'V') && (a[2] == 'g' || a[2]
            == 'G') {
            assert(ascii_lowercase(a[0]) == 's');
            assert(ascii_lowercase(a[1]) == 'v');
            assert(ascii_lowercase(a[2]) == 'g');
            assert(same_but_for_ascii_case(a, svg));
        }
    }
}

/// White space around a text does not count, and a text without any at its ends stays.
pub proof fn white_space_around_does_not_count(text: Seq<char>, character: char)
    ensures
        is_white_space(character) ==> trimmed(seq![character] + text) == trimmed(text),
        is_white_space(character) ==> trimmed(text.push(character)) == trimmed(text),
        text.len() > 0 && !is_white_space(text.first()) && !is_white_space(text.last())
            ==> trimmed(text) == text,
        trimmed(seq![]) == Seq::<char>::empty(),
    decreases text.len(),
{
    assert((seq![character] + text).skip(1) =~= text);
    let longer = text.push(character);
    assert(longer.drop_last() =~= text);
    if text.len() == 0 {
        assert(longer.skip(1) =~= text);
    } else {
        assert(longer.first() == text.first());
        if is_white_space(text.first()) {
            white_space_around_does_not_count(text.skip(1), character);
            assert(longer.skip(1) =~= text.skip(1).push(character));
        }
    }
}

/// The small letter of each of the 26 large ones comes 32 places after it; no other character
/// changes.
pub proof fn letters_become_small(character: char)
    ensures
        'A' <= character <= 'Z' ==> ascii_lowercase(character) as u32 == character as u32 + 32,
        character < 'A' || character > 'Z' ==> ascii_lowercase(character) == character,
{
}

} // verus!
