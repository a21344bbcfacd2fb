//! Lines as bytes, with or without colours.
//!
//! A terminal is told to colour text by escape sequences around it. Where
//! colours are not wanted a line is written as its bare text.

use vstd::prelude::*;
use ansi_term::{Colour, Style};
use crate::color::{Color, Hue, Segment, SegmentView};
use crate::text::push_bytes;

verus! {

/// The digit that stands for a hue in an escape sequence.
pub open spec fn hue_digit(hue: Hue) -> u8 {
    match hue {
        Hue::Black => 48,
        Hue::Red => 49,
        Hue::Green => 50,
        Hue::Yellow => 51,
        Hue::Blue => 52,
        Hue::Purple => 53,
        Hue::Cyan => 54,
        Hue::White => 55,
    }
}

/// The sequence that switches a colour on: escape and an opening bracket,
/// `1;` where the colour is bold, `3` and the digit of the hue, and `m`.
pub open spec fn escape_on(color: Color) -> Seq<u8> {
    if color.bold {
        seq![27u8, 91u8, 49u8, 59u8, 51u8, hue_digit(color.hue), 109u8]
    } else {
        seq![27u8, 91u8, 51u8, hue_digit(color.hue), 109u8]
    }
}

/// The sequence that switches all colours off: escape, `[0m`.
pub open spec fn escape_off() -> Seq<u8> {
    seq![27u8, 91u8, 48u8, 109u8]
}

/// Text between the sequences that switch its colour on and off.
pub open spec fn painted(color: Color, text: Seq<u8>) -> Seq<u8> {
    escape_on(color) + text + escape_off()
}

/// The bytes of a segment: painted where it has a colour and colours are
/// wanted, bare otherwise.
pub open spec fn segment_bytes(segment: SegmentView, colors: bool) -> Seq<u8> {
    match segment.color {
        Some(color) => if colors {
            painted(color, segment.text)
        } else {
            segment.text
        },
        None => segment.text,
    }
}

/// The bytes of a line: those of its segments, one after the other.
pub open spec fn line_bytes(line: Seq<SegmentView>, colors: bool) -> Seq<u8>
    decreases line.len(),
{
    if line.len() == 0 {
        Seq::empty()
    } else {
        line_bytes(line.drop_last(), colors) + segment_bytes(line.last(), colors)
    }
}

/// The bytes of a listing: those of its lines, one after the other.
pub open spec fn listing_bytes(lines: Seq<Seq<SegmentView>>, colors: bool) -> Seq<u8>
    decreases lines.len(),
{
    if lines.len() == 0 {
        Seq::empty()
    } else {
        listing_bytes(lines.drop_last(), colors) + line_bytes(lines.last(), colors)
    }
}

/// The bytes of two lines joined are the bytes of the one and then of the
/// other.
pub proof fn lemma_line_bytes_join(a: Seq<SegmentView>, b: Seq<SegmentView>, colors: bool)
    ensures
        line_bytes(a + b, colors) == line_bytes(a, colors) + line_bytes(b, colors),
    decreases b.len(),
{
    if b.len() > 0 {
        assert((a + b).drop_last() =~= a + b.drop_last());
        lemma_line_bytes_join(a, b.drop_last(), colors);
    }
}

/// The bytes of a line of one segment are the bytes of the segment.
pub proof fn lemma_line_bytes_single(segment: SegmentView, colors: bool)
    ensures
        line_bytes(seq![segment], colors) == segment_bytes(segment, colors),
{
    let line = seq![segment];
    assert(line_bytes(line.drop_last(), colors) =~= Seq::<u8>::empty());
}

/// A segment more on a line puts its bytes behind those of the line.
pub proof fn lemma_line_bytes_push(line: Seq<SegmentView>, segment: SegmentView, colors: bool)
    ensures
        line_bytes(line.push(segment), colors) == line_bytes(line, colors) + segment_bytes(
            segment,
            colors,
        ),
{
    assert(line.push(segment).drop_last() =~= line);
}

/// Paints text with `ansi_term`: `Style::paint` is called on the bytes, for a
/// style with the hue as its foreground colour and with the bold flag, and
/// `write_to` writes the result into a vector. The crate writes the
/// sequence that switches the style on, the bytes as they are, and the
/// sequence that resets the terminal. That these are the sequences stated
/// here, for a foreground colour with or without bold, is taken from the
/// crate and not proved.
#[verifier::external_body]
fn paint(color: Color, text: &Vec<u8>) -> (out: Vec<u8>)
    ensures
        out@ == painted(color, text@),
{
    let colour = match color.hue {
        Hue::Black => Colour::Black,
        Hue::Red => Colour::Red,
        Hue::Green => Colour::Green,
        Hue::Yellow => Colour::Yellow,
        Hue::Blue => Colour::Blue,
        Hue::Purple => Colour::Purple,
        Hue::Cyan => Colour::Cyan,
        Hue::White => Colour::White,
    };
    let style = Style { foreground: Some(colour), is_bold: color.bold, ..Style::default() };
    let mut out = Vec::new();
    let _ = style.paint(text.as_slice()).write_to(&mut out);
    out
}

/// Appends the bytes of a segment to `out`.
pub fn push_segment_bytes(out: &mut Vec<u8>, segment: &Segment, colors: bool)
    ensures
        final(out)@ == old(out)@ + segment_bytes(segment@, colors),
{
    match segment.color {
        Some(color) => {
            if colors {
                let bytes = paint(color, &segment.text);
                push_bytes(out, &bytes);
            } else {
                push_bytes(out, &segment.text);
            }
        },
        None => {
            push_bytes(out, &segment.text);
        },
    }
}

/// Appends the bytes of a line to `out`.
pub fn push_line_bytes(out: &mut Vec<u8>, line: &Vec<Segment>, colors: bool)
    ensures
        final(out)@ == old(out)@ + line_bytes(line.deep_view(), colors),
{
    let ghost views = line.deep_view();
    let mut i: usize = 0;
    while i < line.len()
        invariant
            i <= line.len(),
            views == line.deep_view(),
            out@ == old(out)@ + line_bytes(views.take(i as int), colors),
        decreases line.len() - i,
    {
        assert(views.take(i + 1).drop_last() =~= views.take(i as int));
        push_segment_bytes(out, &line[i], colors);
        i = i + 1;
    }
    assert(views.take(views.len() as int) =~= views);
}

/// The bytes of a line, with the sequences that colour it where `colors`
/// is set and as bare text where it is not.
pub fn write_line(line: &Vec<Segment>, colors: bool) -> (out: Vec<u8>)
    ensures
        out@ == line_bytes(line.deep_view(), colors),
{
    let mut out: Vec<u8> = Vec::new();
    push_line_bytes(&mut out, line, colors);
    out
}

/// The bytes of a listing, line after line.
pub fn write_listing(lines: &Vec<Vec<Segment>>, colors: bool) -> (out: Vec<u8>)
    ensures
        out@ == listing_bytes(lines.deep_view(), colors),
{
    let ghost views = lines.deep_view();
    let mut out: Vec<u8> = Vec::new();
    let mut i: usize = 0;
    while i < lines.len()
        invariant
            i <= lines.len(),
            views == lines.deep_view(),
            out@ == listing_bytes(views.take(i as int), colors),
        decreases lines.len() - i,
    {
        assert(views.take(i + 1).drop_last() =~= views.take(i as int));
        push_line_bytes(&mut out, &lines[i], colors);
        i = i + 1;
    }
    assert(views.take(views.len() as int) =~= views);
    out
}

} // verus!
