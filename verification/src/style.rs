//! Terminal colours and text styles, as the user interface draws them.
use vstd::prelude::*;

verus! {

/// A terminal colour.
#[derive(Debug, Clone, Copy, PartialEq, Eq, Structural)]
pub enum TermColor {
    Reset,
    Black,
    Red,
    Green,
    Yellow,
    Blue,
    Magenta,
    Cyan,
    Gray,
    DarkGray,
    LightRed,
    LightGreen,
    LightYellow,
    LightBlue,
    LightMagenta,
    LightCyan,
    White,
    Rgb(u8, u8, u8),
    Indexed(u8),
}

/// Bold text.
pub const BOLD: u16 = 0x0001;

/// Foreground and background swapped.
pub const REVERSED: u16 = 0x0040;

/// How text is drawn: colours, and the modifiers switched on and off (bit
/// sets in the terminal's modifier numbering).
#[derive(Debug, Clone, Copy, PartialEq, Eq, Structural)]
pub struct TextStyle {
    pub fg: Option<TermColor>,
    pub bg: Option<TermColor>,
    pub add_modifier: u16,
    pub sub_modifier: u16,
}

impl TextStyle {
    pub open spec fn spec_new() -> TextStyle {
        TextStyle { fg: None, bg: None, add_modifier: 0, sub_modifier: 0 }
    }

    pub open spec fn with_fg(self, c: TermColor) -> TextStyle {
        TextStyle { fg: Some(c), ..self }
    }

    pub open spec fn with_bg(self, c: TermColor) -> TextStyle {
        TextStyle { bg: Some(c), ..self }
    }

    pub open spec fn with_modifier(self, m: u16) -> TextStyle {
        TextStyle { add_modifier: self.add_modifier | m, sub_modifier: self.sub_modifier & !m, ..self }
    }

    pub open spec fn without_modifier(self, m: u16) -> TextStyle {
        TextStyle { add_modifier: self.add_modifier & !m, sub_modifier: self.sub_modifier | m, ..self }
    }

    /// A style that changes nothing.
    pub fn new() -> (s: TextStyle)
        ensures
            s == TextStyle::spec_new(),
    {
        TextStyle { fg: None, bg: None, add_modifier: 0, sub_modifier: 0 }
    }

    /// This style with the foreground colour set.
    pub fn fg(self, c: TermColor) -> (s: TextStyle)
        ensures
            s == self.with_fg(c),
    {
        TextStyle { fg: Some(c), ..self }
    }

    /// This style with the background colour set.
    pub fn bg(self, c: TermColor) -> (s: TextStyle)
        ensures
            s == self.with_bg(c),
    {
        TextStyle { bg: Some(c), ..self }
    }

    /// This style with the modifiers `m` switched on.
    pub fn add_modifier(self, m: u16) -> (s: TextStyle)
        ensures
            s == self.with_modifier(m),
    {
        TextStyle { add_modifier: self.add_modifier | m, sub_modifier: self.sub_modifier & !m, ..self }
    }

    /// This style with the modifiers `m` switched off.
    pub fn remove_modifier(self, m: u16) -> (s: TextStyle)
        ensures
            s == self.without_modifier(m),
    {
        TextStyle { add_modifier: self.add_modifier & !m, sub_modifier: self.sub_modifier | m, ..self }
    }
}

/// A run of text drawn in one style.
#[derive(Debug, Clone)]
pub struct StyledSpan {
    pub content: String,
    pub style: TextStyle,
}

/// The content and style of each span.
pub open spec fn span_views(v: Seq<StyledSpan>) -> Seq<(Seq<char>, TextStyle)> {
    v.map_values(|s: StyledSpan| (s.content@, s.style))
}

} // verus!
