//! The ten glyphs that open a line: the kind of the object and its nine
//! permission bits.

use vstd::prelude::*;
use crate::color::{colored, dim, plain, Color, Hue, Segment, SegmentView};
use crate::entry::FileKind;

verus! {

/// How many permission bits are shown.
pub const PERMISSIONS: usize = 9;

/// The character shown for the regular kind and for a permission not given.
pub const DASH: u8 = 45;

/// The glyph of a kind: `d` for a directory, `l` for a symbolic link, a dash
/// for anything else.
pub open spec fn kind_glyph(kind: FileKind) -> SegmentView {
    match kind {
        FileKind::Directory => colored(seq![100u8], plain(Hue::Blue)),
        FileKind::Symlink => colored(seq![108u8], plain(Hue::Green)),
        FileKind::RegularFile => colored(seq![DASH], dim()),
    }
}

/// The permissions in the order they are shown in: for the owner, the group
/// and the others in turn, the bit that allows reading, writing and
/// executing, each with its letter and the colour of its class.
pub open spec fn permission_table() -> Seq<(u32, u8, Color)> {
    seq![
        (0o400u32, 114u8, plain(Hue::Red)),
        (0o200u32, 119u8, plain(Hue::Yellow)),
        (0o100u32, 120u8, plain(Hue::White)),
        (0o040u32, 114u8, plain(Hue::Red)),
        (0o020u32, 119u8, plain(Hue::Yellow)),
        (0o010u32, 120u8, plain(Hue::White)),
        (0o004u32, 114u8, plain(Hue::Red)),
        (0o002u32, 119u8, plain(Hue::Yellow)),
        (0o001u32, 120u8, plain(Hue::White)),
    ]
}

/// The glyph of the permission at `place` of the table: its letter where
/// `mode` has the bit, a dash where it has not.
pub open spec fn permission_glyph(mode: u32, place: int) -> SegmentView {
    let (mask, letter, color) = permission_table()[place];
    if mode & mask != 0 {
        colored(seq![letter], color)
    } else {
        colored(seq![DASH], dim())
    }
}

/// The ten glyphs of a mode and a kind.
pub open spec fn glyphs(mode: u32, kind: FileKind) -> Seq<SegmentView> {
    seq![kind_glyph(kind)] + Seq::new(
        PERMISSIONS as nat,
        |place: int| permission_glyph(mode, place),
    )
}

/// Whether the owner may execute an object of this mode.
pub open spec fn owner_executable(mode: u32) -> bool {
    mode & 0o100u32 != 0
}

/// There are always ten glyphs, each one character in some colour.
pub proof fn lemma_glyphs_shape(mode: u32, kind: FileKind)
    ensures
        glyphs(mode, kind).len() == 10,
        forall|i: int|
            0 <= i < 10 ==> (#[trigger] glyphs(mode, kind)[i]).text.len() == 1 && glyphs(
                mode,
                kind,
            )[i].color.is_some(),
{
}

/// The entry of the permission table at `place`.
fn permission_at(place: usize) -> (entry: (u32, u8, Color))
    requires
        place < PERMISSIONS,
    ensures
        entry == permission_table()[place as int],
{
    let shown: (u8, Color) = if place % 3 == 0 {
        (114u8, Color::plain(Hue::Red))
    } else if place % 3 == 1 {
        (119u8, Color::plain(Hue::Yellow))
    } else {
        (120u8, Color::plain(Hue::White))
    };
    let mask: u32 = if place == 0 {
        0o400
    } else if place == 1 {
        0o200
    } else if place == 2 {
        0o100
    } else if place == 3 {
        0o040
    } else if place == 4 {
        0o020
    } else if place == 5 {
        0o010
    } else if place == 6 {
        0o004
    } else if place == 7 {
        0o002
    } else {
        0o001
    };
    (mask, shown.0, shown.1)
}

/// A segment of one character.
fn glyph(character: u8, color: Color) -> (segment: Segment)
    ensures
        segment@ == colored(seq![character], color),
{
    let mut text: Vec<u8> = Vec::new();
    text.push(character);
    Segment::colored(text, color)
}

/// Whether the owner may execute an object of this mode.
pub fn is_owner_executable(mode: u32) -> (out: bool)
    ensures
        out == owner_executable(mode),
{
    mode & 0o100u32 != 0
}

/// Decodes a mode and a kind into the ten glyphs that open a line.
pub fn decode(mode: u32, kind: FileKind) -> (line: Vec<Segment>)
    ensures
        line.deep_view() == glyphs(mode, kind),
{
    let mut line: Vec<Segment> = Vec::new();
    let first = match kind {
        FileKind::Directory => glyph(100u8, Color::plain(Hue::Blue)),
        FileKind::Symlink => glyph(108u8, Color::plain(Hue::Green)),
        FileKind::RegularFile => glyph(DASH, Color::dim()),
    };
    line.push(first);
    let mut place: usize = 0;
    while place < PERMISSIONS
        invariant
            place <= PERMISSIONS,
            line@.len() == place + 1,
            line@[0]@ == kind_glyph(kind),
            forall|i: int|
                1 <= i <= place ==> (#[trigger] line@[i])@ == permission_glyph(mode, i - 1),
        decreases PERMISSIONS - place,
    {
        let (mask, letter, color) = permission_at(place);
        let next = if mode & mask != 0 {
            glyph(letter, color)
        } else {
            glyph(DASH, Color::dim())
        };
        line.push(next);
        place = place + 1;
    }
    line
}

} // verus!
