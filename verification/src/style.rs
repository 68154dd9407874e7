//! What a piece of text looks like on screen, as plain values.

use crate::git::{Header, HeaderView, Line, LineView, Origin};
use crate::text::{after, first, join, join_after, join_first, split, split_at};
use vstd::prelude::*;

verus! {

/// A colour of the viewer.
#[derive(Clone, Copy, Debug, PartialEq, Eq, Structural)]
pub enum Color {
    White,
    Gray,
    Green,
    Red,
    /// A colour given by its red, green and blue parts.
    Rgb(u8, u8, u8),
}

/// The colour in which the position part of a hunk header is shown.
pub open spec fn header_color() -> Color {
    Color::Rgb(7, 138, 171)
}

/// The colour in which lines of an origin are shown.
pub open spec fn origin_color(origin: Origin) -> Color {
    match origin {
        Origin::Addition => Color::Green,
        Origin::Deletion => Color::Red,
        Origin::Context => Color::White,
    }
}

/// The marker that stands for an origin.
pub open spec fn marker(origin: Origin) -> char {
    match origin {
        Origin::Addition => '+',
        Origin::Deletion => '-',
        Origin::Context => ' ',
    }
}

impl Origin {
    /// The marker that stands for this origin.
    pub fn marker(&self) -> (c: char)
        ensures
            c == marker(*self),
    {
        match self {
            Origin::Addition => '+',
            Origin::Deletion => '-',
            Origin::Context => ' ',
        }
    }

    /// The colour in which lines of this origin are shown.
    pub fn color(&self) -> (color: Color)
        ensures
            color == origin_color(*self),
    {
        match self {
            Origin::Addition => Color::Green,
            Origin::Deletion => Color::Red,
            Origin::Context => Color::White,
        }
    }
}

/// A piece of text with its colour and font.
#[derive(Clone, Debug, PartialEq, Eq)]
pub struct Label {
    pub text: String,
    pub color: Color,
    /// Whether the text is set in the monospace font.
    pub monospace: bool,
}

/// What a [`Label`] holds, with its text as a sequence of characters.
pub struct LabelView {
    pub text: Seq<char>,
    pub color: Color,
    pub monospace: bool,
}

impl View for Label {
    type V = LabelView;

    open spec fn view(&self) -> LabelView {
        LabelView { text: self.text@, color: self.color, monospace: self.monospace }
    }
}

/// The position part of a hunk header: its first four words, as in
/// `@@ -1,3 +1,4 @@`.
pub open spec fn header_position(text: Seq<char>) -> Seq<char> {
    join(first(split(text, ' '), 4), ' ')
}

/// What follows the position part of a hunk header.
pub open spec fn header_synopsis(text: Seq<char>) -> Seq<char> {
    join(after(split(text, ' '), 4), ' ')
}

/// The two labels of a header: its position part in the header colour and
/// what follows in white.
pub open spec fn header_labels(header: HeaderView) -> (LabelView, LabelView) {
    (
        LabelView { text: header_position(header.content), color: header_color(), monospace: true },
        LabelView { text: header_synopsis(header.content), color: Color::White, monospace: true },
    )
}

/// The label of a line: its text in the colour of its origin.
pub open spec fn line_label(line: LineView) -> LabelView {
    LabelView { text: line.content, color: origin_color(line.origin), monospace: true }
}

impl Header {
    /// The two labels of this header; see [`header_labels`].
    pub fn to_labels(&self) -> (labels: (Label, Label))
        ensures
            (labels.0@, labels.1@) == header_labels(self@),
    {
        let words = split_at(self.content.as_str(), ' ');
        (
            Label {
                text: join_first(&words, 4, ' '),
                color: Color::Rgb(7, 138, 171),
                monospace: true,
            },
            Label { text: join_after(&words, 4, ' '), color: Color::White, monospace: true },
        )
    }
}

impl Line {
    /// The label of this line; see [`line_label`].
    pub fn to_richtext(&self) -> (label: Label)
        ensures
            label@ == line_label(self@),
    {
        Label { text: self.content.clone(), color: self.origin.color(), monospace: true }
    }
}

} // verus!
