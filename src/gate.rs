use vstd::prelude::*;

verus! {

/// What `str::to_uppercase` returns for a text.
pub uninterp spec fn upper_of(s: Seq<char>) -> Seq<char>;

/// What `char::is_alphanumeric` returns.
pub uninterp spec fn is_alnum(c: char) -> bool;

/// What `char::is_alphabetic` returns.
pub uninterp spec fn is_alpha(c: char) -> bool;

/// What `char::is_whitespace` returns.
pub uninterp spec fn is_space(c: char) -> bool;

/// What `char::is_control` returns.
pub uninterp spec fn is_ctrl(c: char) -> bool;

/// An ASCII digit or ASCII letter.
pub open spec fn is_ascii_alnum(c: char) -> bool {
    ('0' <= c && c <= '9') || ('A' <= c && c <= 'Z') || ('a' <= c && c <= 'z')
}

/// Relies on `str::to_uppercase`: the result depends on the text alone, and
/// the empty text stays empty.
#[verifier::external_body]
fn uppercase(s: &str) -> (r: String)
    ensures
        r@ == upper_of(s@),
        s@.len() == 0 ==> r@.len() == 0,
{
    s.to_uppercase()
}

/// Relies on `char::is_alphanumeric`; ASCII digits and letters are alphanumeric.
#[verifier::external_body]
fn alphanumeric(c: char) -> (r: bool)
    ensures
        r == is_alnum(c),
        is_ascii_alnum(c) ==> r,
{
    c.is_alphanumeric()
}

/// Relies on `char::is_alphabetic`.
#[verifier::external_body]
fn alphabetic(c: char) -> (r: bool)
    ensures
        r == is_alpha(c),
{
    c.is_alphabetic()
}

/// Relies on `char::is_whitespace`; the space is white space.
#[verifier::external_body]
fn whitespace(c: char) -> (r: bool)
    ensures
        r == is_space(c),
        c == ' ' ==> r,
{
    c.is_whitespace()
}

/// Relies on `char::is_control` (general category Cc, U+0000..U+001F and
/// U+007F..U+009F).
#[verifier::external_body]
fn control(c: char) -> (r: bool)
    ensures
        r == is_ctrl(c),
        r <==> ((c as u32) < 0x20 || (0x7f <= (c as u32) && (c as u32) < 0xa0)),
{
    c.is_control()
}

/// A character the line keeps: alphanumeric, alphabetic, or white space that
/// is not a control character.
pub open spec fn supported(c: char) -> bool {
    is_alnum(c) || is_alpha(c) || (is_space(c) && !is_ctrl(c))
}

/// The supported characters of `s`, in order.
pub open spec fn kept(s: Seq<char>) -> Seq<char>
    decreases s.len(),
{
    if s.len() == 0 {
        Seq::empty()
    } else if supported(s.last()) {
        kept(s.drop_last()).push(s.last())
    } else {
        kept(s.drop_last())
    }
}

/// Keeps the supported characters of an already uppercased text.
pub fn keep_supported(upper: &str) -> (line: Vec<char>)
    ensures
        line@ == kept(upper@),
{
    broadcast use vstd::string::axiom_spec_iter;
    let mut line: Vec<char> = Vec::new();
    for ch in it: upper.chars()
        invariant
            it.seq() == upper@,
            line@ == kept(upper@.subrange(0, it.index() as int)),
    {
        proof {
            let i = it.index() as int;
            assert(upper@.subrange(0, i + 1).drop_last() == upper@.subrange(0, i));
        }
        if alphanumeric(ch) || alphabetic(ch) || (whitespace(ch) && !control(ch)) {
            line.push(ch);
        }
    }
    proof {
        assert(upper@.subrange(0, upper@.len() as int) == upper@);
    }
    line
}

/// The filtered line of an input text: uppercased, then only its supported
/// characters kept.
pub fn filter_line(input: &str) -> (line: Vec<char>)
    ensures
        line@ == kept(upper_of(input@)),
{
    let upper = uppercase(input);
    keep_supported(upper.as_str())
}

} // verus!
