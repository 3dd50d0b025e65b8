//! Styled characters: a glyph with its colors and a set of display attributes.

use unicode_width::UnicodeWidthChar;
use vstd::prelude::*;

verus! {

/// A terminal color, as the terminal's control sequences name them.
#[derive(Clone, Copy, Debug, PartialEq, Eq, Structural)]
pub enum Color {
    Reset,
    Black,
    DarkGrey,
    Red,
    DarkRed,
    Green,
    DarkGreen,
    Yellow,
    DarkYellow,
    Blue,
    DarkBlue,
    Magenta,
    DarkMagenta,
    Cyan,
    DarkCyan,
    White,
    Grey,
    Rgb { r: u8, g: u8, b: u8 },
    AnsiValue(u8),
}

/// Index of the attribute that resets all styling (and colors).
pub const ATTR_RESET: u32 = 0;

/// Index of the reverse-video attribute.
pub const ATTR_REVERSE: u32 = 11;

/// Index of the attribute that cancels reverse video.
pub const ATTR_NO_REVERSE: u32 = 20;

/// Number of distinct display attributes.
pub const ATTR_COUNT: u32 = 28;

/// The bit that stands for attribute `i` in an attribute set.
pub open spec fn attr_bit(i: u32) -> u32 {
    1u32 << ((i + 1) as u32)
}

/// A set of display attributes, one bit per attribute index (bit `i + 1` for index `i`).
#[derive(Clone, Copy, Debug, PartialEq, Eq, Structural)]
pub struct Attributes {
    pub bits: u32,
}

impl Attributes {
    /// The empty attribute set.
    pub fn empty() -> (r: Attributes)
        ensures
            r.bits == 0,
    {
        Attributes { bits: 0 }
    }

    pub open spec fn has_spec(self, i: u32) -> bool {
        self.bits & attr_bit(i) != 0
    }

    pub open spec fn with_spec(self, i: u32) -> Attributes {
        Attributes { bits: self.bits | attr_bit(i) }
    }

    pub open spec fn without_spec(self, i: u32) -> Attributes {
        Attributes { bits: self.bits & !attr_bit(i) }
    }

    /// Whether attribute `i` is in the set.
    pub fn has(&self, i: u32) -> (r: bool)
        requires
            i < ATTR_COUNT,
        ensures
            r == self.has_spec(i),
    {
        self.bits & (1u32 << (i + 1)) != 0
    }

    /// Adds attribute `i` to the set.
    pub fn set(&mut self, i: u32)
        requires
            i < ATTR_COUNT,
        ensures
            *final(self) == old(self).with_spec(i),
    {
        self.bits = self.bits | (1u32 << (i + 1));
    }

    /// Removes attribute `i` from the set.
    pub fn unset(&mut self, i: u32)
        requires
            i < ATTR_COUNT,
        ensures
            *final(self) == old(self).without_spec(i),
    {
        self.bits = self.bits & !(1u32 << (i + 1));
    }
}

/// A single renderable glyph with its foreground and background colors and attributes.
#[derive(Clone, Copy, Debug, PartialEq, Eq, Structural)]
pub struct StyledChar {
    pub ch: char,
    pub foreground: Color,
    pub background: Color,
    pub attribute: Attributes,
}

/// A logical line: an ordered sequence of styled characters, possibly empty.
pub type StyledLine = Vec<StyledChar>;

/// The displayed width that the Unicode width tables give to a character,
/// `None` for a control character.
pub uninterp spec fn unicode_width_of(c: char) -> Option<usize>;

/// Relies on `UnicodeWidthChar::width` of unicode-width: the displayed width of one
/// character from the Unicode tables, `None` for control characters. The source
/// (`single_char_width`) gives at most 3 columns.
#[verifier::external_body]
fn unicode_width(c: char) -> (r: Option<usize>)
    ensures
        r == unicode_width_of(c),
        r matches Some(w) ==> w <= 3,
{
    UnicodeWidthChar::width(c)
}

/// Display width of a glyph in terminal columns; control characters take none.
pub open spec fn glyph_width(c: char) -> nat {
    match unicode_width_of(c) {
        Some(w) => w as nat,
        None => 0,
    }
}

/// Display width of a glyph in terminal columns (0 for control characters).
pub fn char_width(c: char) -> (r: usize)
    ensures
        r == glyph_width(c),
        r <= 3,
{
    match unicode_width(c) {
        Some(w) => w,
        None => 0,
    }
}

/// Display width of the characters `s[start..end]`.
pub open spec fn range_width_spec(s: Seq<StyledChar>, start: int, end: int) -> nat
    decreases end - start,
{
    if end <= start {
        0
    } else {
        range_width_spec(s, start, end - 1) + glyph_width(s[end - 1].ch)
    }
}

/// Display width of a whole line.
pub open spec fn line_width_spec(s: Seq<StyledChar>) -> nat {
    range_width_spec(s, 0, s.len() as int)
}

/// Display width of `line[start..end]`.
pub fn range_width(line: &Vec<StyledChar>, start: usize, end: usize) -> (r: usize)
    requires
        start <= end <= line@.len(),
        end - start <= usize::MAX / 3,
    ensures
        r == range_width_spec(line@, start as int, end as int),
{
    let mut total: usize = 0;
    let mut i: usize = start;
    while i < end
        invariant
            start <= i <= end <= line@.len(),
            end - start <= usize::MAX / 3,
            total == range_width_spec(line@, start as int, i as int),
            total <= 3 * (i - start),
        decreases end - i,
    {
        let w = char_width(line[i].ch);
        total = total + w;
        i = i + 1;
    }
    total
}

/// Display width of a whole line.
pub fn line_width(line: &Vec<StyledChar>) -> (r: usize)
    requires
        line@.len() <= usize::MAX / 3,
    ensures
        r == line_width_spec(line@),
{
    range_width(line, 0, line.len())
}

} // verus!
