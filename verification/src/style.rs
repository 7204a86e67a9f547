//! Table-level presentation: alignments, drawing glyphs, padding, and the
//! default styles of head and body cells.

use crate::term;
use vstd::prelude::*;

verus! {

/// A cell's horizontal alignment inside its column.
#[derive(Clone, Copy, PartialEq, Eq, Structural, Debug)]
pub enum Alignment {
    Left,
    Center,
    Right,
}

/// The set of drawing characters and numeric parameters that control
/// rendering. An absent horizontal glyph suppresses its separator line, an
/// absent junction falls back to the horizontal glyph, and an absent
/// vertical glyph is simply not drawn.
#[non_exhaustive]
pub struct TableStyle {
    pub default_header_style: console::Style,
    pub default_text_style: console::Style,
    pub top: Option<char>,
    pub top_mid: Option<char>,
    pub top_left: Option<char>,
    pub top_right: Option<char>,
    pub bottom: Option<char>,
    pub bottom_mid: Option<char>,
    pub bottom_left: Option<char>,
    pub bottom_right: Option<char>,
    pub mid: Option<char>,
    pub mid_left: Option<char>,
    pub mid_mid: Option<char>,
    pub mid_right: Option<char>,
    pub left: Option<char>,
    pub middle: Option<char>,
    pub right: Option<char>,
    pub head: Option<char>,
    pub head_mid: Option<char>,
    pub head_left: Option<char>,
    pub head_right: Option<char>,
    pub truncate_str: Option<String>,
    pub padding_left: u8,
    pub padding_right: u8,
}

/// The frame of the default (and `compact_ascii`) style: rules at the top,
/// the bottom and around head rows only, `+` junctions, `|` verticals, one
/// column of padding on each side, and `...` as the truncation marker.
pub open spec fn compact_ascii_frame(s: TableStyle) -> bool {
    &&& s.top == Some('-')
    &&& s.top_mid == Some('+')
    &&& s.top_left == Some('+')
    &&& s.top_right == Some('+')
    &&& s.bottom == Some('-')
    &&& s.bottom_mid == Some('+')
    &&& s.bottom_left == Some('+')
    &&& s.bottom_right == Some('+')
    &&& s.mid is None
    &&& s.mid_left is None
    &&& s.mid_mid is None
    &&& s.mid_right is None
    &&& s.left == Some('|')
    &&& s.middle == Some('|')
    &&& s.right == Some('|')
    &&& s.head == Some('-')
    &&& s.head_mid == Some('+')
    &&& s.head_left == Some('+')
    &&& s.head_right == Some('+')
    &&& (match s.truncate_str {
        Some(t) => t@ == "..."@,
        None => false,
    })
    &&& s.padding_left == 1
    &&& s.padding_right == 1
}

/// The frame of the `full_unicode` style: box-drawing glyphs with a rule
/// between every pair of rows and `…` as the truncation marker.
pub open spec fn full_unicode_frame(s: TableStyle) -> bool {
    &&& s.top == Some('─')
    &&& s.top_mid == Some('┬')
    &&& s.top_left == Some('┌')
    &&& s.top_right == Some('┐')
    &&& s.bottom == Some('─')
    &&& s.bottom_mid == Some('┴')
    &&& s.bottom_left == Some('└')
    &&& s.bottom_right == Some('┘')
    &&& s.mid == Some('─')
    &&& s.mid_left == Some('├')
    &&& s.mid_mid == Some('┼')
    &&& s.mid_right == Some('┤')
    &&& s.left == Some('│')
    &&& s.middle == Some('│')
    &&& s.right == Some('│')
    &&& s.head == Some('─')
    &&& s.head_mid == Some('┬')
    &&& s.head_left == Some('┌')
    &&& s.head_right == Some('┐')
    &&& (match s.truncate_str {
        Some(t) => t@ == "…"@,
        None => false,
    })
    &&& s.padding_left == 1
    &&& s.padding_right == 1
}

/// The frame of the `full_ascii` style: ASCII glyphs with a rule between
/// every pair of rows and a heavier `=` rule around head rows.
pub open spec fn full_ascii_frame(s: TableStyle) -> bool {
    &&& s.top == Some('-')
    &&& s.top_mid == Some('+')
    &&& s.top_left == Some('+')
    &&& s.top_right == Some('+')
    &&& s.bottom == Some('-')
    &&& s.bottom_mid == Some('+')
    &&& s.bottom_left == Some('+')
    &&& s.bottom_right == Some('+')
    &&& s.mid == Some('-')
    &&& s.mid_left == Some('+')
    &&& s.mid_mid == Some('+')
    &&& s.mid_right == Some('+')
    &&& s.left == Some('|')
    &&& s.middle == Some('|')
    &&& s.right == Some('|')
    &&& s.head == Some('=')
    &&& s.head_mid == Some('+')
    &&& s.head_left == Some('+')
    &&& s.head_right == Some('+')
    &&& (match s.truncate_str {
        Some(t) => t@ == "..."@,
        None => false,
    })
    &&& s.padding_left == 1
    &&& s.padding_right == 1
}

impl Default for TableStyle {
    /// The default style, identical in frame to `compact_ascii`: no rule
    /// between body rows, a bold head.
    fn default() -> (r: TableStyle)
        ensures
            compact_ascii_frame(r),
    {
        TableStyle {
            default_header_style: term::bold_style(),
            default_text_style: term::plain_style(),
            top: Some('-'),
            top_mid: Some('+'),
            top_left: Some('+'),
            top_right: Some('+'),
            bottom: Some('-'),
            bottom_mid: Some('+'),
            bottom_left: Some('+'),
            bottom_right: Some('+'),
            mid: None,
            mid_left: None,
            mid_mid: None,
            mid_right: None,
            left: Some('|'),
            middle: Some('|'),
            right: Some('|'),
            head: Some('-'),
            head_mid: Some('+'),
            head_left: Some('+'),
            head_right: Some('+'),
            truncate_str: Some("...".to_owned()),
            padding_left: 1,
            padding_right: 1,
        }
    }
}

impl TableStyle {
    /// The box-drawing preset.
    pub fn full_unicode() -> (r: TableStyle)
        ensures
            full_unicode_frame(r),
    {
        TableStyle {
            default_header_style: term::bold_style(),
            default_text_style: term::plain_style(),
            top: Some('─'),
            top_mid: Some('┬'),
            top_left: Some('┌'),
            top_right: Some('┐'),
            bottom: Some('─'),
            bottom_mid: Some('┴'),
            bottom_left: Some('└'),
            bottom_right: Some('┘'),
            mid: Some('─'),
            mid_left: Some('├'),
            mid_mid: Some('┼'),
            mid_right: Some('┤'),
            left: Some('│'),
            middle: Some('│'),
            right: Some('│'),
            head: Some('─'),
            head_mid: Some('┬'),
            head_left: Some('┌'),
            head_right: Some('┐'),
            truncate_str: Some("…".to_owned()),
            padding_left: 1,
            padding_right: 1,
        }
    }

    /// The heavy ASCII preset.
    pub fn full_ascii() -> (r: TableStyle)
        ensures
            full_ascii_frame(r),
    {
        TableStyle {
            default_header_style: term::bold_style(),
            default_text_style: term::plain_style(),
            top: Some('-'),
            top_mid: Some('+'),
            top_left: Some('+'),
            top_right: Some('+'),
            bottom: Some('-'),
            bottom_mid: Some('+'),
            bottom_left: Some('+'),
            bottom_right: Some('+'),
            mid: Some('-'),
            mid_left: Some('+'),
            mid_mid: Some('+'),
            mid_right: Some('+'),
            left: Some('|'),
            middle: Some('|'),
            right: Some('|'),
            head: Some('='),
            head_mid: Some('+'),
            head_left: Some('+'),
            head_right: Some('+'),
            truncate_str: Some("...".to_owned()),
            padding_left: 1,
            padding_right: 1,
        }
    }

    /// The compact ASCII preset, which is also the default.
    pub fn compact_ascii() -> (r: TableStyle)
        ensures
            compact_ascii_frame(r),
    {
        TableStyle::default()
    }
}

} // verus!
