//! Formatting and ordering of directory listings.
//!
//! A listing is made from plain values: every entry carries its name as
//! bytes and, when it could be read, its metadata. The functions here turn
//! such entries into an ordered sequence of coloured text segments; reading
//! directories and writing to a terminal are left to the caller.
//!
//! - [`sorting`] collects the entries of a directory stream, takes out the
//!   hidden ones and puts the rest in order; [`order`] says what that order
//!   is and what holds of it.
//! - [`render`] makes the line of an entry from the glyphs of
//!   [`permissions`], the field of [`age`] and the field of [`size`].
//! - [`ansi`] turns lines into bytes, with or without colours.

pub mod age;
pub mod ansi;
mod clock;
pub mod color;
pub mod entry;
pub mod order;
pub mod permissions;
pub mod render;
pub mod size;
pub mod sorting;
pub mod text;

pub use age::format_age;
pub use ansi::{write_line, write_listing};
pub use color::{Color, Hue, Segment};
pub use entry::{FileEntry, FileKind, Metadata};
pub use permissions::decode;
pub use render::{render, render_listing, render_listing_now, Printer};
pub use size::format_size;
pub use sorting::{
    collect_and_order, DirRead, ListError, RawFilter, RawSorter, SortType, Sorter,
};
