use crate::token::SeparatorKind;
use vstd::prelude::*;

verus! {

/// The transliteration that deunicode gives a character outside printable
/// ASCII, if any.
pub uninterp spec fn deunicode_of(c: char) -> Option<Seq<char>>;

/// Printable ASCII, from space to tilde.
pub open spec fn is_printable_ascii(c: char) -> bool {
    0x20 <= (c as u32) < 0x7f
}

/// The ASCII transliteration of a character: a printable ASCII character
/// stands for itself.
pub open spec fn transliteration_of(c: char) -> Option<Seq<char>> {
    if is_printable_ascii(c) {
        Some(seq![c])
    } else {
        deunicode_of(c)
    }
}

/// Relies on `deunicode::deunicode_char`: its table maps each printable ASCII
/// character to itself (control characters map to the empty string), and the
/// transliteration of any other character depends on the character alone.
#[verifier::external_body]
fn transliterate(c: char) -> (r: Option<&'static str>)
    ensures
        is_printable_ascii(c) ==> r is Some && r.unwrap()@ == seq![c],
        !is_printable_ascii(c) ==> (r is None <==> deunicode_of(c) is None),
        !is_printable_ascii(c) && r is Some ==> deunicode_of(c) == Some(r.unwrap()@),
{
    deunicode::deunicode_char(c)
}

/// The Unicode `White_Space` property.
pub open spec fn is_white_space(c: char) -> bool {
    let u = c as u32;
    ||| 0x09 <= u <= 0x0d
    ||| u == 0x20
    ||| u == 0x85
    ||| u == 0xa0
    ||| u == 0x1680
    ||| 0x2000 <= u <= 0x200a
    ||| u == 0x2028
    ||| u == 0x2029
    ||| u == 0x202f
    ||| u == 0x205f
    ||| u == 0x3000
}

/// Relies on `char::is_whitespace`: true exactly for the characters with the
/// Unicode `White_Space` property.
#[verifier::external_body]
fn char_is_whitespace(c: char) -> (r: bool)
    ensures
        r == is_white_space(c),
{
    c.is_whitespace()
}

/// Letters of the basic Russian Cyrillic alphabet, upper and lower case
/// (`А` to `я`).
pub open spec fn is_cyrillic_letter(c: char) -> bool {
    0x0410 <= (c as u32) <= 0x044f
}

/// Punctuation that marks a weak boundary.
pub open spec fn is_soft_punctuation(c: char) -> bool {
    c == '-' || c == '_' || c == '\'' || c == ':' || c == '/' || c == '\\' || c == '@' || c
        == '"' || c == '+' || c == '~' || c == '=' || c == '^' || c == '*' || c == '#'
}

/// Punctuation that marks a strong boundary.
pub open spec fn is_hard_punctuation(c: char) -> bool {
    c == '.' || c == ';' || c == ',' || c == '!' || c == '?' || c == '(' || c == ')' || c == '['
        || c == ']' || c == '{' || c == '}' || c == '|'
}

/// Separator strength of the first character of a transliteration.
pub open spec fn separator_of_ascii(c: char) -> Option<SeparatorKind> {
    if is_white_space(c) || is_soft_punctuation(c) {
        Some(SeparatorKind::Soft)
    } else if is_hard_punctuation(c) {
        Some(SeparatorKind::Hard)
    } else {
        None
    }
}

/// Separator strength of `c` given its transliteration `translit`.
pub open spec fn separator_from_transliteration(
    c: char,
    translit: Option<Seq<char>>,
) -> Option<SeparatorKind> {
    if is_cyrillic_letter(c) {
        None
    } else {
        match translit {
            Some(t) => if t.len() > 0 {
                separator_of_ascii(t[0])
            } else {
                None
            },
            None => None,
        }
    }
}

/// Separator strength of a character.
pub open spec fn separator_kind_of(c: char) -> Option<SeparatorKind> {
    separator_from_transliteration(c, transliteration_of(c))
}

/// Separator strength of the first character of a transliteration.
pub fn classify_ascii(c: char) -> (r: Option<SeparatorKind>)
    ensures
        r == separator_of_ascii(c),
{
    if char_is_whitespace(c) {
        return Some(SeparatorKind::Soft);
    }
    match c {
        '-' | '_' | '\'' | ':' | '/' | '\\' | '@' | '"' | '+' | '~' | '=' | '^' | '*' | '#' => Some(
            SeparatorKind::Soft,
        ),
        '.' | ';' | ',' | '!' | '?' | '(' | ')' | '[' | ']' | '{' | '}' | '|' => Some(
            SeparatorKind::Hard,
        ),
        _ => None,
    }
}

/// Separator strength of `c`, given the transliteration of `c` that
/// deunicode produced (or `None` where it has none).
/// Cyrillic letters are never separators, whatever their transliteration.
pub fn classify_separator_with(c: char, translit: Option<&str>) -> (r: Option<SeparatorKind>)
    ensures
        r == separator_from_transliteration(
            c,
            match translit {
                Some(t) => Some(t@),
                None => None,
            },
        ),
        is_cyrillic_letter(c) ==> r is None,
{
    if '\u{0410}' <= c && c <= '\u{044f}' {
        return None;
    }
    match translit {
        Some(t) => {
            if t.unicode_len() == 0 {
                None
            } else {
                classify_ascii(t.get_char(0))
            }
        },
        None => None,
    }
}

/// Separator strength of a character: `Soft` for whitespace and connecting
/// punctuation, `Hard` for sentence and clause punctuation, `None` for
/// anything else. Characters are judged by their ASCII transliteration, except
/// Cyrillic letters, which are never separators.
pub fn classify_separator(c: char) -> (r: Option<SeparatorKind>)
    ensures
        r == separator_kind_of(c),
        is_cyrillic_letter(c) ==> r is None,
{
    let translit = transliterate(c);
    classify_separator_with(c, translit)
}

} // verus!
