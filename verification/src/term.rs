//! The trusted boundary around the terminal-styling collaborator: visual
//! width measurement, padding, and styling of cell text.

use vstd::prelude::*;

verus! {

#[verifier::external_type_specification]
#[verifier::external_body]
pub struct ExStyle(console::Style);

/// The number of terminal columns that a string occupies when printed:
/// styling escapes count for nothing and wide glyphs count double. The value
/// depends on the characters alone.
pub uninterp spec fn text_width(s: Seq<char>) -> nat;

/// What `console::pad_str` returns for the given text, target width,
/// alignment and truncation marker. The result depends on the arguments
/// alone.
pub uninterp spec fn padded(
    s: Seq<char>,
    width: int,
    align: crate::style::Alignment,
    truncate: Option<Seq<char>>,
) -> Seq<char>;

/// Relies on `console::measure_text_width`: the width in terminal columns of
/// the visible part of a string, a pure function of its characters.
#[verifier::external_body]
pub(crate) fn measure_width(s: &str) -> (r: usize)
    ensures
        r == text_width(s@),
{
    console::measure_text_width(s)
}

/// Relies on `console::pad_str`: pads (or, given a marker, truncates) the
/// string to `width` visible columns with the given alignment. A string at
/// least as wide as `width` is returned unchanged when no marker is given.
#[verifier::external_body]
pub(crate) fn pad_text(s: &str, width: usize, align: crate::style::Alignment, truncate: Option<&str>) -> (r:
    String)
    ensures
        r@ == padded(
            s@,
            width as int,
            align,
            match truncate {
                Some(t) => Some(t@),
                None => None,
            },
        ),
        text_width(s@) >= width && truncate is None ==> r@ == s@,
{
    let a = match align {
        crate::style::Alignment::Left => console::Alignment::Left,
        crate::style::Alignment::Center => console::Alignment::Center,
        crate::style::Alignment::Right => console::Alignment::Right,
    };
    console::pad_str(s, width, a, truncate).into_owned()
}

/// Relies on `console::Style::apply_to` and the rendering of the styled
/// value: the text is wrapped in styling escape sequences (or returned
/// unchanged when styling is disabled for the process), and those escapes
/// are invisible to `console::measure_text_width`, so the visible width is
/// the width of the text itself.
#[verifier::external_body]
pub(crate) fn apply_style(style: &console::Style, s: &str) -> (r: String)
    ensures
        text_width(r@) == text_width(s@),
{
    style.apply_to(s).to_string()
}

/// Relies on `console::Style::new`: a style with no attribute set.
#[verifier::external_body]
pub(crate) fn plain_style() -> console::Style {
    console::Style::new()
}

/// Relies on `console::Style::new` and `console::Style::bold`: a style whose
/// only attribute is bold.
#[verifier::external_body]
pub(crate) fn bold_style() -> console::Style {
    console::Style::new().bold()
}

/// Relies on `std::io::Write::write_all` on standard output. A failed write
/// aborts, which callers of `Table::display` opt into.
#[verifier::external_body]
pub(crate) fn write_stdout(s: &str) {
    std::io::Write::write_all(&mut std::io::stdout(), s.as_bytes()).unwrap();
}

/// Relies on `std::io::Write::flush` on standard output. A failed flush
/// aborts, which callers of `Table::display` opt into.
#[verifier::external_body]
pub(crate) fn flush_stdout() {
    std::io::Write::flush(&mut std::io::stdout()).unwrap();
}

/// Relies on `alloc::string::String::push`: appends one character.
pub assume_specification[ String::push ](s: &mut String, ch: char)
    ensures
        final(s)@ == old(s)@.push(ch),
;

/// Relies on `alloc::string::String::push_str`: appends a string slice.
pub assume_specification[ String::push_str ](s: &mut String, other: &str)
    ensures
        final(s)@ == old(s)@ + other@,
;

} // verus!
