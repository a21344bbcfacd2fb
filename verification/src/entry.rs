//! Directory entries as plain values.

use vstd::prelude::*;
use crate::text::copy_bytes;

verus! {

/// What kind of object an entry is. Everything that is neither a directory
/// nor a symbolic link counts as a regular file.
#[derive(Clone, Copy, PartialEq, Eq, Debug, Structural)]
pub enum FileKind {
    RegularFile,
    Directory,
    Symlink,
}

/// What is shown of an object besides its name.
#[derive(Clone, Copy, PartialEq, Eq, Debug, Structural)]
pub struct Metadata {
    /// The kind of object.
    pub kind: FileKind,
    /// The permission bits, in their POSIX positions.
    pub mode: u32,
    /// The length in bytes.
    pub size: u64,
    /// The time of the last change, in seconds.
    pub mtime: i64,
}

/// One entry of a directory.
#[derive(PartialEq, Eq, Debug)]
pub struct FileEntry {
    /// The bytes of the name.
    pub name: Vec<u8>,
    /// Whether the name is well-formed text. A name that is not has no place
    /// in the order of names.
    pub name_is_text: bool,
    /// The metadata, where it could be read.
    pub metadata: Option<Metadata>,
}

/// What a [`FileEntry`] stands for.
pub ghost struct EntryView {
    pub name: Seq<u8>,
    pub name_is_text: bool,
    pub metadata: Option<Metadata>,
}

impl View for FileEntry {
    type V = EntryView;

    open spec fn view(&self) -> EntryView {
        EntryView { name: self.name@, name_is_text: self.name_is_text, metadata: self.metadata }
    }
}

impl DeepView for FileEntry {
    type V = EntryView;

    open spec fn deep_view(&self) -> EntryView {
        self@
    }
}

/// The first byte of the names of hidden entries: a full stop.
pub const DOT: u8 = 46;

/// Whether an entry is hidden: its name starts with a full stop.
pub open spec fn hidden(entry: EntryView) -> bool {
    entry.name.len() > 0 && entry.name[0] == DOT
}

impl Clone for FileEntry {
    fn clone(&self) -> (copy: FileEntry)
        ensures
            copy@ == self@,
    {
        FileEntry {
            name: copy_bytes(&self.name),
            name_is_text: self.name_is_text,
            metadata: self.metadata,
        }
    }
}

impl FileEntry {
    /// Whether the entry is hidden: its name starts with a full stop.
    pub fn is_hidden(&self) -> (out: bool)
        ensures
            out == hidden(self@),
    {
        self.name.len() > 0 && self.name[0] == DOT
    }
}

} // verus!
