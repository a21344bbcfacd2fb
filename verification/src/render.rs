//! Lines of a listing.
//!
//! A line shows one entry: the ten glyphs of its kind and permissions, its
//! age, its size, and its name, set off by colour and a closing mark where
//! it is a directory, a symbolic link or a program. A line is a sequence of
//! segments, so that it can be written with or without colours.

use vstd::prelude::*;
use crate::age::{age_color, age_text, format_age};
use crate::ansi::{
    lemma_line_bytes_join, lemma_line_bytes_push, lemma_line_bytes_single, line_bytes,
};
use crate::clock::clock_seconds;
use crate::color::{colored, plain, uncolored, Color, Hue, Segment, SegmentView};
use crate::entry::{EntryView, FileEntry, FileKind, Metadata};
use crate::permissions::{decode, glyphs, is_owner_executable, owner_executable};
use crate::size::{format_size, size_color, size_text};
use crate::text::copy_bytes;

verus! {

/// The character that ends a line.
pub const NEWLINE: u8 = 10;

/// The character between the size and the name.
pub const SPACE: u8 = 32;

/// The colour of a name: blue for a directory, purple for a symbolic link,
/// green for a file that its owner may execute, none for any other file.
pub open spec fn name_color(metadata: Metadata) -> Option<Color> {
    match metadata.kind {
        FileKind::Directory => Some(plain(Hue::Blue)),
        FileKind::Symlink => Some(plain(Hue::Purple)),
        FileKind::RegularFile => if owner_executable(metadata.mode) {
            Some(plain(Hue::Green))
        } else {
            None
        },
    }
}

/// The mark behind a name: a slash for a directory, an at sign for a symbolic
/// link, a star for a file that its owner may execute, none for any other
/// file.
pub open spec fn name_mark(metadata: Metadata) -> Option<u8> {
    match metadata.kind {
        FileKind::Directory => Some(47u8),
        FileKind::Symlink => Some(64u8),
        FileKind::RegularFile => if owner_executable(metadata.mode) {
            Some(42u8)
        } else {
            None
        },
    }
}

/// The end of a line: a space, the name in its colour, the mark if there is
/// one, and the newline.
pub open spec fn decorated_name(metadata: Metadata, name: Seq<u8>) -> Seq<SegmentView> {
    let shown = seq![
        uncolored(seq![SPACE]),
        SegmentView { text: name, color: name_color(metadata) },
    ];
    let marked = match name_mark(metadata) {
        Some(mark) => shown.push(uncolored(seq![mark])),
        None => shown,
    };
    marked.push(uncolored(seq![NEWLINE]))
}

/// The age field of an object, seen at `now`.
pub open spec fn age_field(metadata: Metadata, now: i64) -> SegmentView {
    colored(
        age_text(metadata.mtime as int, now as int),
        age_color(metadata.mtime as int, now as int),
    )
}

/// The size field of an object.
pub open spec fn size_field(metadata: Metadata) -> SegmentView {
    colored(size_text(metadata.size as nat), size_color(metadata.size as nat))
}

/// The line of an object called `name`, seen at `now`.
pub open spec fn rendered_line(metadata: Metadata, name: Seq<u8>, now: i64) -> Seq<SegmentView> {
    glyphs(metadata.mode, metadata.kind).push(age_field(metadata, now)).push(size_field(metadata))
        + decorated_name(metadata, name)
}

/// What stands for metadata that could not be read: an empty regular file
/// without permissions, changed at the very moment it is looked at.
pub open spec fn placeholder(now: i64) -> Metadata {
    Metadata { kind: FileKind::RegularFile, mode: 0, size: 0, mtime: now }
}

/// The metadata an entry is shown with.
pub open spec fn shown_metadata(entry: EntryView, now: i64) -> Metadata {
    match entry.metadata {
        Some(metadata) => metadata,
        None => placeholder(now),
    }
}

/// The line of an entry, seen at `now`.
pub open spec fn rendered_entry(entry: EntryView, now: i64) -> Seq<SegmentView> {
    rendered_line(shown_metadata(entry, now), entry.name, now)
}

/// The lines of a listing, seen at `now`: one for each entry, in the order
/// of the entries.
pub open spec fn rendered_listing(entries: Seq<EntryView>, now: i64) -> Seq<Seq<SegmentView>> {
    entries.map_values(|entry: EntryView| rendered_entry(entry, now))
}

/// A line has fifteen segments, or sixteen where the name has a mark, and
/// ends in a newline.
pub proof fn lemma_line_shape(metadata: Metadata, name: Seq<u8>, now: i64)
    ensures
        15 <= rendered_line(metadata, name, now).len() <= 16,
        rendered_line(metadata, name, now).last() == uncolored(seq![NEWLINE]),
        rendered_line(metadata, name, now).len() == 16 <==> name_mark(metadata).is_some(),
{
}

/// The characters of the ten glyphs, in a row.
pub open spec fn glyph_text(mode: u32, kind: FileKind) -> Seq<u8> {
    Seq::new(10, |i: int| glyphs(mode, kind)[i].text[0])
}

/// The text behind the size field: a space, the name, the mark if there is
/// one, and the newline.
pub open spec fn name_text(metadata: Metadata, name: Seq<u8>) -> Seq<u8> {
    let shown = seq![SPACE] + name;
    let marked = match name_mark(metadata) {
        Some(mark) => shown.push(mark),
        None => shown,
    };
    marked.push(NEWLINE)
}

/// The text of a line: glyphs, age, size and name, with nothing in between
/// but the space before the name.
pub open spec fn line_text(metadata: Metadata, name: Seq<u8>, now: i64) -> Seq<u8> {
    glyph_text(metadata.mode, metadata.kind) + age_text(metadata.mtime as int, now as int)
        + size_text(metadata.size as nat) + name_text(metadata, name)
}

/// Without colours the bytes of a line of one-character segments are those
/// characters.
proof fn lemma_plain_glyphs(line: Seq<SegmentView>)
    requires
        forall|i: int| 0 <= i < line.len() ==> (#[trigger] line[i]).text.len() == 1,
    ensures
        line_bytes(line, false) == Seq::new(line.len(), |i: int| line[i].text[0]),
    decreases line.len(),
{
    if line.len() > 0 {
        lemma_plain_glyphs(line.drop_last());
    }
}

/// Written without colours, a line is its text.
pub proof fn lemma_plain_line(metadata: Metadata, name: Seq<u8>, now: i64)
    ensures
        line_bytes(rendered_line(metadata, name, now), false) == line_text(metadata, name, now),
{
    let marks = glyphs(metadata.mode, metadata.kind);
    let fields = marks.push(age_field(metadata, now)).push(size_field(metadata));
    let tail = decorated_name(metadata, name);
    lemma_line_bytes_join(fields, tail, false);
    lemma_line_bytes_push(marks.push(age_field(metadata, now)), size_field(metadata), false);
    lemma_line_bytes_push(marks, age_field(metadata, now), false);
    lemma_plain_glyphs(marks);
    let space = uncolored(seq![SPACE]);
    let shown = SegmentView { text: name, color: name_color(metadata) };
    let end = uncolored(seq![NEWLINE]);
    lemma_line_bytes_single(space, false);
    lemma_line_bytes_push(seq![space], shown, false);
    assert(seq![space].push(shown) =~= seq![space, shown]);
    match name_mark(metadata) {
        Some(mark) => {
            lemma_line_bytes_push(seq![space, shown], uncolored(seq![mark]), false);
            lemma_line_bytes_push(seq![space, shown].push(uncolored(seq![mark])), end, false);
        },
        None => {
            lemma_line_bytes_push(seq![space, shown], end, false);
        },
    }
}

/// Appends a segment to a line.
fn push_segment(line: &mut Vec<Segment>, segment: Segment)
    ensures
        final(line).deep_view() == old(line).deep_view().push(segment@),
{
    line.push(segment);
}

/// A segment of one character in the terminal's own colour.
fn bare(character: u8) -> (segment: Segment)
    ensures
        segment@ == uncolored(seq![character]),
{
    let mut text: Vec<u8> = Vec::new();
    text.push(character);
    Segment::uncolored(text)
}

/// What can be shown as a line of a listing.
pub trait Printer {
    /// The metadata that is shown.
    spec fn metadata(&self) -> Metadata;

    /// The line of the object under the name `filename`, seen at `now`.
    fn print(&self, filename: &Vec<u8>, now: i64) -> (line: Vec<Segment>)
        ensures
            line.deep_view() == rendered_line(self.metadata(), filename@, now),
    ;

    /// The age of the object at `now`: text and colour.
    fn relative(&self, now: i64) -> (field: (Vec<u8>, Color))
        ensures
            colored(field.0@, field.1) == age_field(self.metadata(), now),
    ;

    /// The size of the object: text and colour.
    fn formatted_size(&self) -> (field: (Vec<u8>, Color))
        ensures
            colored(field.0@, field.1) == size_field(self.metadata()),
    ;
}

impl Printer for Metadata {
    open spec fn metadata(&self) -> Metadata {
        *self
    }

    fn print(&self, filename: &Vec<u8>, now: i64) -> (line: Vec<Segment>) {
        let mut line = decode(self.mode, self.kind);
        let (age, age_color) = self.relative(now);
        push_segment(&mut line, Segment::colored(age, age_color));
        let (size, size_color) = self.formatted_size();
        push_segment(&mut line, Segment::colored(size, size_color));
        push_segment(&mut line, bare(SPACE));
        let name = copy_bytes(filename);
        match self.kind {
            FileKind::Directory => {
                push_segment(&mut line, Segment::colored(name, Color::plain(Hue::Blue)));
                push_segment(&mut line, bare(47u8));
            },
            FileKind::Symlink => {
                push_segment(&mut line, Segment::colored(name, Color::plain(Hue::Purple)));
                push_segment(&mut line, bare(64u8));
            },
            FileKind::RegularFile => {
                if is_owner_executable(self.mode) {
                    push_segment(&mut line, Segment::colored(name, Color::plain(Hue::Green)));
                    push_segment(&mut line, bare(42u8));
                } else {
                    push_segment(&mut line, Segment::uncolored(name));
                }
            },
        }
        push_segment(&mut line, bare(NEWLINE));
        line
    }

    fn relative(&self, now: i64) -> (field: (Vec<u8>, Color)) {
        format_age(self.mtime, now)
    }

    fn formatted_size(&self) -> (field: (Vec<u8>, Color)) {
        format_size(self.size as u128)
    }
}

/// Renders one entry as a line, seen at `now`. An entry whose metadata could
/// not be read is shown with a placeholder in its stead.
pub fn render(entry: &FileEntry, now: i64) -> (line: Vec<Segment>)
    ensures
        line.deep_view() == rendered_entry(entry@, now),
{
    match entry.metadata {
        Some(metadata) => metadata.print(&entry.name, now),
        None => {
            let stand_in = Metadata { kind: FileKind::RegularFile, mode: 0, size: 0, mtime: now };
            stand_in.print(&entry.name, now)
        },
    }
}

/// Renders every entry of a listing, in order, against one time `now`.
pub fn render_listing(entries: &Vec<FileEntry>, now: i64) -> (lines: Vec<Vec<Segment>>)
    ensures
        lines.deep_view() == rendered_listing(entries.deep_view(), now),
{
    let mut lines: Vec<Vec<Segment>> = Vec::new();
    let mut i: usize = 0;
    while i < entries.len()
        invariant
            i <= entries.len(),
            lines@.len() == i,
            forall|k: int| 0 <= k < i ==> (#[trigger] lines@[k]).deep_view() == rendered_entry(
                entries@[k]@,
                now,
            ),
        decreases entries.len() - i,
    {
        let line = render(&entries[i], now);
        lines.push(line);
        i = i + 1;
    }
    lines
}

/// Renders a listing against one reading of the clock, taken once for all
/// its lines, and returns the reading with them.
pub fn render_listing_now(entries: &Vec<FileEntry>) -> (pass: (i64, Vec<Vec<Segment>>))
    ensures
        pass.1.deep_view() == rendered_listing(entries.deep_view(), pass.0),
{
    let now = clock_seconds();
    (now, render_listing(entries, now))
}

} // verus!
