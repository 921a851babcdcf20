//! Styled terminal text: the palette roles, styles, and lines made of spans.

use vstd::prelude::*;
use crate::net::{Ipv6Kind, MacAddr};

verus! {

/// The colors the terminal output uses, by role or by name.
#[derive(Clone, Copy, PartialEq, Eq, Structural, Debug)]
pub enum Tone {
    /// No color of its own.
    Plain,
    /// Very light gray body text.
    TextDefault,
    /// Bright black punctuation and tree branches.
    Separator,
    /// Soft gold/amber.
    Primary,
    /// Soft sky blue.
    Secondary,
    /// Olive accent for indices.
    Accent,
    /// Pale lime green.
    Ipv4Addr,
    /// Lighter pale lime green.
    Ipv4Prefix,
    /// Bright mint/teal.
    Hostname,
    /// Soft raspberry pink.
    Ipv6Addr,
    /// Pale raspberry pink.
    Ipv6Prefix,
    /// Soft orange.
    MacAddr,
    Green,
    Cyan,
    Yellow,
    Red,
    White,
    Blue,
    BrightBlack,
    BrightGreen,
}

/// A color with text attributes.
#[derive(Clone, Copy, PartialEq, Eq, Structural, Debug)]
pub struct Style {
    pub tone: Tone,
    pub bold: bool,
    pub italic: bool,
    pub dimmed: bool,
}

/// A value whose text the redaction rules of the scanner produce; what is
/// shown for it is decided where it is rendered.
#[derive(PartialEq, Eq, Debug)]
pub enum Secret {
    /// An IPv6 address of a class that has its own redaction.
    Ipv6(Ipv6Kind, [u16; 8]),
    /// A host name.
    Hostname(String),
    /// A hardware address.
    Mac(MacAddr),
}

/// What a span shows.
#[derive(PartialEq, Eq, Debug)]
pub enum Content {
    Text(String),
    Redacted(Secret),
}

/// A run of text in one style.
#[derive(PartialEq, Eq, Debug)]
pub struct Span {
    pub content: Content,
    pub style: Style,
}

/// A style of the given tone without attributes.
pub open spec fn spec_tone(t: Tone) -> Style {
    Style { tone: t, bold: false, italic: false, dimmed: false }
}

/// A style of the given tone without attributes.
pub fn tone(t: Tone) -> (s: Style)
    ensures
        s == spec_tone(t),
{
    Style { tone: t, bold: false, italic: false, dimmed: false }
}

/// A bold style of the given tone.
pub fn bold(t: Tone) -> (s: Style)
    ensures
        s == (Style { tone: t, bold: true, italic: false, dimmed: false }),
{
    Style { tone: t, bold: true, italic: false, dimmed: false }
}

/// Whether `sp` shows the text `t` in style `st`.
pub open spec fn shows(sp: Span, t: Seq<char>, st: Style) -> bool {
    &&& sp.content is Text
    &&& sp.content->Text_0@ == t
    &&& sp.style == st
}

/// The text of a span (empty for a redacted value).
pub open spec fn span_text(sp: Span) -> Seq<char> {
    match sp.content {
        Content::Text(t) => t@,
        Content::Redacted(_) => Seq::empty(),
    }
}

/// The text of a line whose spans are all plain text.
pub open spec fn line_text(l: Seq<Span>) -> Seq<char>
    decreases l.len(),
{
    if l.len() == 0 {
        Seq::empty()
    } else {
        line_text(l.drop_last()) + span_text(l.last())
    }
}

/// A span of text.
pub fn text_span(t: String, st: Style) -> (sp: Span)
    ensures
        shows(sp, t@, st),
{
    Span { content: Content::Text(t), style: st }
}

/// A span of a string literal.
pub fn lit_span(t: &str, st: Style) -> (sp: Span)
    ensures
        shows(sp, t@, st),
{
    Span { content: Content::Text(t.to_owned()), style: st }
}

} // verus!
