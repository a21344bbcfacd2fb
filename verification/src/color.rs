//! Colour tags and coloured pieces of text.

use vstd::prelude::*;
use crate::text::copy_bytes;

verus! {

/// One of the eight basic terminal colours.
#[derive(Clone, Copy, PartialEq, Eq, Debug, Structural)]
pub enum Hue {
    Black,
    Red,
    Green,
    Yellow,
    Blue,
    Purple,
    Cyan,
    White,
}

/// A colour tag: a hue, plain or in its bold (bright) form.
#[derive(Clone, Copy, PartialEq, Eq, Debug, Structural)]
pub struct Color {
    pub hue: Hue,
    pub bold: bool,
}

/// The plain form of a hue.
pub open spec fn plain(hue: Hue) -> Color {
    Color { hue, bold: false }
}

/// The bold form of a hue.
pub open spec fn bright(hue: Hue) -> Color {
    Color { hue, bold: true }
}

/// The tag of everything that is absent or switched off.
pub open spec fn dim() -> Color {
    bright(Hue::Black)
}

impl Color {
    /// The plain form of `hue`.
    pub fn plain(hue: Hue) -> (color: Color)
        ensures
            color == plain(hue),
    {
        Color { hue, bold: false }
    }

    /// The bold form of `hue`.
    pub fn bright(hue: Hue) -> (color: Color)
        ensures
            color == bright(hue),
    {
        Color { hue, bold: true }
    }

    /// The tag of everything that is absent or switched off.
    pub fn dim() -> (color: Color)
        ensures
            color == dim(),
    {
        Color { hue: Hue::Black, bold: true }
    }
}

/// A piece of text with the colour it is shown in, if any.
#[derive(PartialEq, Eq, Debug)]
pub struct Segment {
    pub text: Vec<u8>,
    pub color: Option<Color>,
}

/// What a [`Segment`] stands for: its bytes and its colour.
pub ghost struct SegmentView {
    pub text: Seq<u8>,
    pub color: Option<Color>,
}

impl View for Segment {
    type V = SegmentView;

    open spec fn view(&self) -> SegmentView {
        SegmentView { text: self.text@, color: self.color }
    }
}

impl DeepView for Segment {
    type V = SegmentView;

    open spec fn deep_view(&self) -> SegmentView {
        self@
    }
}

/// A segment of coloured text.
pub open spec fn colored(text: Seq<u8>, color: Color) -> SegmentView {
    SegmentView { text, color: Some(color) }
}

/// A segment of text in the terminal's own colour.
pub open spec fn uncolored(text: Seq<u8>) -> SegmentView {
    SegmentView { text, color: None }
}

impl Clone for Segment {
    fn clone(&self) -> (copy: Segment)
        ensures
            copy@ == self@,
    {
        Segment { text: copy_bytes(&self.text), color: self.color }
    }
}

impl Segment {
    /// A segment of coloured text.
    pub fn colored(text: Vec<u8>, color: Color) -> (segment: Segment)
        ensures
            segment@ == colored(text@, color),
    {
        Segment { text, color: Some(color) }
    }

    /// A segment of text in the terminal's own colour.
    pub fn uncolored(text: Vec<u8>) -> (segment: Segment)
        ensures
            segment@ == uncolored(text@),
    {
        Segment { text, color: None }
    }
}

} // verus!
