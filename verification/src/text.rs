//! Character classes and small string utilities shared by the tokenizer,
//! the symbol indexer and the hover resolver.

use vstd::prelude::*;

verus! {

/// Whether a character is alphanumeric in the Unicode sense, as
/// `char::is_alphanumeric` decides it; the class is far too large to write
/// out, so it is only named here.
pub uninterp spec fn is_alnum_of(c: char) -> bool;

/// Relies on `char::is_alphanumeric`: whether the character is a Unicode
/// letter or digit. The result depends on the character alone.
pub assume_specification[ char::is_alphanumeric ](c: char) -> (r: bool)
    ensures
        r == is_alnum_of(c),
;

/// A character that may appear inside an identifier token:
/// a letter, a digit, or an underscore.
pub open spec fn is_ident_char(c: char) -> bool {
    is_alnum_of(c) || c == '_'
}

/// Runtime test for [`is_ident_char`].
pub fn ident_char(c: char) -> (r: bool)
    ensures
        r == is_ident_char(c),
{
    c.is_alphanumeric() || c == '_'
}

/// A whitespace character for the purpose of splitting a line into tokens:
/// the code points with the Unicode `White_Space` property.
pub open spec fn is_space_char(c: char) -> bool {
    let u = c as u32;
    (9 <= u && u <= 13)  // tab, line feed, vertical tab, form feed, carriage return
    || u == 32  // space
    || u == 0x85  // next line
    || u == 0xA0  // no-break space
    || u == 0x1680  // ogham space mark
    || (0x2000 <= u && u <= 0x200A)  // en quad .. hair space
    || u == 0x2028  // line separator
    || u == 0x2029  // paragraph separator
    || u == 0x202F  // narrow no-break space
    || u == 0x205F  // medium mathematical space
    || u == 0x3000  // ideographic space
}

/// Runtime test for [`is_space_char`].
pub fn space_char(c: char) -> (r: bool)
    ensures
        r == is_space_char(c),
{
    let u: u32 = c as u32;
    (9 <= u && u <= 13) || u == 32 || u == 0x85 || u == 0xA0 || u == 0x1680 || (0x2000 <= u && u
        <= 0x200A) || u == 0x2028 || u == 0x2029 || u == 0x202F || u == 0x205F || u == 0x3000
}

/// Uppercase image of a character sequence, as `str::to_uppercase` folds
/// it; full Unicode case mapping is far too large to write out, so it is
/// only named here.
pub uninterp spec fn upper_of(s: Seq<char>) -> Seq<char>;

/// Relies on `str::to_uppercase`: the uppercase equivalent of the string,
/// per the Unicode uppercase mapping. The result depends on the characters
/// alone, and an empty string stays empty.
#[verifier::external_body]
pub(crate) fn to_upper(s: &str) -> (r: String)
    ensures
        r@ == upper_of(s@),
        s@.len() == 0 ==> r@.len() == 0,
{
    s.to_uppercase()
}

/// Whether two string slices spell the same text.
pub fn eq_str(a: &str, b: &str) -> (r: bool)
    ensures
        r == (a@ == b@),
{
    let na: usize = a.unicode_len();
    let nb: usize = b.unicode_len();
    if na != nb {
        proof {
            assert(a@.len() != b@.len());
        }
        return false;
    }
    let mut i: usize = 0;
    while i < na
        invariant
            i <= na,
            na == a@.len(),
            na == b@.len(),
            forall|j: int| 0 <= j < i ==> a@[j] == b@[j],
        decreases na - i,
    {
        if a.get_char(i) != b.get_char(i) {
            return false;
        }
        i = i + 1;
    }
    proof {
        assert(a@ =~= b@);
    }
    true
}

} // verus!
