//! What the library takes from the standard library on trust: three
//! functions on text for which vstd has no specification. Each is given its
//! contract here and is called directly where it is needed.

use vstd::prelude::*;

verus! {

/// What `str::to_lowercase` makes of a text. It follows the Unicode tables,
/// which are not written out here.
pub uninterp spec fn lowercase(text: Seq<char>) -> Seq<char>;

/// `str::to_lowercase` of std: the result is a function of the text alone,
/// and goes by the name `lowercase`.
pub assume_specification[ str::to_lowercase ](text: &str) -> (lower: String)
    ensures
        lower@ == lowercase(text@),
;

/// Whether a character has the Unicode property White_Space, as the Unicode
/// Character Database lists it: the controls from tab to carriage return,
/// the blank, next line, the no-break blank, the Ogham space mark, the
/// blanks from en quad to hair space, the line and the paragraph separator,
/// the narrow no-break blank, the medium mathematical blank and the
/// ideographic blank.
pub open spec fn is_space(c: char) -> bool {
    let code = c as u32;
    ||| 0x09 <= code <= 0x0D
    ||| code == 0x20
    ||| code == 0x85
    ||| code == 0xA0
    ||| code == 0x1680
    ||| 0x2000 <= code <= 0x200A
    ||| code == 0x2028
    ||| code == 0x2029
    ||| code == 0x202F
    ||| code == 0x205F
    ||| code == 0x3000
}

/// `char::is_whitespace` of std, which tells whether a character has the
/// property White_Space.
pub assume_specification[ char::is_whitespace ](c: char) -> (space: bool)
    ensures
        space == is_space(c),
;

/// `String::push` of std: the character goes to the end of the string.
pub assume_specification[ String::push ](text: &mut String, c: char)
    ensures
        final(text)@ == old(text)@.push(c),
;

} // verus!
