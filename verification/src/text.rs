//! The few operations on text that the widgets need from the standard
//! library. Their contracts are taken on trust from its documentation.

use vstd::prelude::*;

verus! {

/// The text `s` filled up with blanks on the right to `width` characters;
/// a text that is already that long stays as it is.
pub open spec fn padded(s: Seq<char>, width: nat) -> Seq<char> {
    if s.len() >= width {
        s
    } else {
        s + Seq::new((width - s.len()) as nat, |i: int| ' ')
    }
}

/// The text `s` with every blank replaced by an underscore.
pub open spec fn underscored(s: Seq<char>) -> Seq<char> {
    Seq::new(s.len(), |i: int| if s[i] == ' ' { '_' } else { s[i] })
}

/// The lowercase form of a text as `str::to_lowercase` gives it.
pub uninterp spec fn lowercase_of(s: Seq<char>) -> Seq<char>;

/// Whether a character is a letter or a digit as `char::is_alphanumeric`
/// tells it.
pub uninterp spec fn alphanumeric(c: char) -> bool;

/// The widest text that the formatter fills up to: it refuses a width that
/// is given at run time and does not fit in sixteen bits.
pub const WIDEST_PADDING: usize = 65535;

/// Formats `s` with a minimum width, through `format!`. Trusted: for a
/// width of at most `WIDEST_PADDING` the formatter fills a text that is
/// shorter than the width with blanks on the right and leaves a longer one
/// alone, counting characters. A greater width makes it panic, so the
/// contract leaves it out.
#[verifier::external_body]
pub(crate) fn pad_right(s: &str, width: usize) -> (out: String)
    requires
        width <= WIDEST_PADDING,
    ensures
        out@ == padded(s@, width as nat),
{
    format!("{:1$}", s, width)
}

/// Calls `str::replace` with a blank and an underscore. Trusted: every
/// blank in the text becomes an underscore and nothing else changes.
#[verifier::external_body]
pub(crate) fn replace_blanks(s: &str) -> (out: String)
    ensures
        out@ == underscored(s@),
{
    s.replace(" ", "_")
}

/// Calls `str::to_lowercase`. Trusted: the result depends on the text
/// alone.
#[verifier::external_body]
pub(crate) fn to_lowercase(s: &str) -> (out: String)
    ensures
        out@ == lowercase_of(s@),
{
    s.to_lowercase()
}

/// Calls `char::is_alphanumeric`. Trusted: the answer depends on the
/// character alone.
#[verifier::external_body]
pub(crate) fn is_alphanumeric(c: char) -> (yes: bool)
    ensures
        yes == alphanumeric(c),
{
    c.is_alphanumeric()
}

/// Calls `String::push`. Trusted: the character is appended at the end.
#[verifier::external_body]
pub(crate) fn push_char(s: &mut String, c: char)
    ensures
        final(s)@ == old(s)@.push(c),
{
    s.push(c);
}

/// Calls `String::pop`. Trusted: the last character is removed, and an
/// empty text stays empty.
#[verifier::external_body]
pub(crate) fn pop_char(s: &mut String)
    ensures
        final(s)@ == if old(s)@.len() > 0 {
            old(s)@.drop_last()
        } else {
            old(s)@
        },
{
    s.pop();
}

} // verus!
