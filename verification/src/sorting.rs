//! Collecting, filtering and ordering the entries of a directory.
//!
//! A directory is read as a stream of items, each an entry or a failure.
//! The failures are passed over in silence. What is left can be kept in the
//! order of the stream or put in the order of names, sizes or times; the
//! entries that lack the key of that order stay where they are among their
//! neighbours.

use vstd::prelude::*;
use crate::entry::{EntryView, FileEntry};
use crate::order::{
    arranged, bytes_before, comes_after, lemma_unsorted_keeps_order, ordered, present, slot,
    is_visible, visible,
};

verus! {

/// The methods a listing can be ordered by.
#[derive(Clone, Copy, PartialEq, Eq, Debug, Structural)]
pub enum SortType {
    Name,
    Size,
    Modified,
    Unsorted,
}

/// The method that a word chooses: `size`, `name` or `modified`; any other
/// word chooses none.
pub open spec fn named_method(word: Seq<u8>) -> SortType {
    if word == seq![115u8, 105u8, 122u8, 101u8] {
        SortType::Size
    } else if word == seq![110u8, 97u8, 109u8, 101u8] {
        SortType::Name
    } else if word == seq![109u8, 111u8, 100u8, 105u8, 102u8, 105u8, 101u8, 100u8] {
        SortType::Modified
    } else {
        SortType::Unsorted
    }
}

impl SortType {
    /// The method that `word` chooses.
    pub fn from_name(word: &[u8]) -> (method: SortType)
        ensures
            method == named_method(word@),
    {
        if word.len() == 4 && word[0] == 115 && word[1] == 105 && word[2] == 122 && word[3]
            == 101 {
            assert(word@ =~= seq![115u8, 105u8, 122u8, 101u8]);
            SortType::Size
        } else if word.len() == 4 && word[0] == 110 && word[1] == 97 && word[2] == 109 && word[3]
            == 101 {
            assert(word@ =~= seq![110u8, 97u8, 109u8, 101u8]);
            SortType::Name
        } else if word.len() == 8 && word[0] == 109 && word[1] == 111 && word[2] == 100 && word[3]
            == 105 && word[4] == 102 && word[5] == 105 && word[6] == 101 && word[7] == 100 {
            assert(word@ =~= seq![109u8, 111u8, 100u8, 105u8, 102u8, 105u8, 101u8, 100u8]);
            SortType::Modified
        } else {
            SortType::Unsorted
        }
    }
}

/// Whether the bytes `a` stand before the bytes `b`.
pub fn name_before(a: &Vec<u8>, b: &Vec<u8>) -> (out: bool)
    ensures
        out == bytes_before(a@, b@),
{
    let mut i: usize = 0;
    assert(a@.skip(0) =~= a@ && b@.skip(0) =~= b@);
    while i < a.len() && i < b.len()
        invariant
            i <= a.len(),
            i <= b.len(),
            bytes_before(a@, b@) == bytes_before(a@.skip(i as int), b@.skip(i as int)),
        decreases a.len() - i,
    {
        if a[i] != b[i] {
            return a[i] < b[i];
        }
        proof {
            assert(a@.skip(i as int).drop_first() =~= a@.skip(i + 1));
            assert(b@.skip(i as int).drop_first() =~= b@.skip(i + 1));
        }
        i = i + 1;
    }
    i < b.len()
}

/// Whether entry `a` has to stand behind entry `b` under `method`.
pub fn entry_after(a: &FileEntry, b: &FileEntry, method: &SortType) -> (out: bool)
    ensures
        out == comes_after(a@, b@, *method),
{
    match method {
        SortType::Name => a.name_is_text && b.name_is_text && name_before(&b.name, &a.name),
        SortType::Size => match (a.metadata, b.metadata) {
            (Some(x), Some(y)) => y.size < x.size,
            _ => false,
        },
        SortType::Modified => match (a.metadata, b.metadata) {
            (Some(x), Some(y)) => y.mtime < x.mtime,
            _ => false,
        },
        SortType::Unsorted => false,
    }
}

/// Puts `entry` into its slot among the entries placed before it.
fn place(placed: &mut Vec<FileEntry>, entry: FileEntry, method: &SortType)
    ensures
        final(placed).deep_view() == old(placed).deep_view().insert(
            slot(old(placed).deep_view(), entry@, *method) as int,
            entry@,
        ),
{
    let ghost before = placed.deep_view();
    let mut at: usize = placed.len();
    assert(before.take(before.len() as int) =~= before);
    while at > 0 && entry_after(&placed[at - 1], &entry, method)
        invariant
            at <= placed.len(),
            placed.deep_view() == before,
            slot(before, entry@, *method) == slot(before.take(at as int), entry@, *method),
        decreases at,
    {
        assert(before.take(at as int).drop_last() =~= before.take(at - 1));
        at = at - 1;
    }
    placed.insert(at, entry);
}

/// Puts entries in the order of `method`.
pub fn sort_entries(entries: Vec<FileEntry>, method: &SortType) -> (sorted: Vec<FileEntry>)
    ensures
        sorted.deep_view() == ordered(entries.deep_view(), *method),
{
    let ghost all = entries@;
    let ghost views = entries.deep_view();
    let mut sorted: Vec<FileEntry> = Vec::new();
    for entry in it: entries.into_iter()
        invariant
            it.seq() == all,
            views.len() == all.len(),
            forall|k: int| 0 <= k < all.len() ==> (#[trigger] all[k])@ == views[k],
            sorted.deep_view() == ordered(views.take(it.index() as int), *method),
    {
        assert(views.take(it.index() + 1).drop_last() =~= views.take(it.index() as int));
        place(&mut sorted, entry, method);
    }
    assert(views.take(views.len() as int) =~= views);
    sorted
}

/// Takes the entries out of the items of a directory stream, in the order
/// of the stream. An item that failed is dropped.
pub fn collect(stream: Vec<Option<FileEntry>>) -> (entries: Vec<FileEntry>)
    ensures
        entries.deep_view() == present(stream.deep_view()),
{
    let ghost all = stream@;
    let ghost views = stream.deep_view();
    let mut entries: Vec<FileEntry> = Vec::new();
    for item in it: stream.into_iter()
        invariant
            it.seq() == all,
            views.len() == all.len(),
            forall|k: int| 0 <= k < all.len() ==> (#[trigger] all[k]).deep_view() == views[k],
            entries.deep_view() == present(views.take(it.index() as int)),
    {
        assert(views.take(it.index() + 1).drop_last() =~= views.take(it.index() as int));
        match item {
            Some(entry) => {
                entries.push(entry);
            },
            None => {},
        }
    }
    assert(views.take(views.len() as int) =~= views);
    entries
}

/// Drops the hidden entries and keeps the others in their order.
pub fn keep_visible(entries: Vec<FileEntry>) -> (kept: Vec<FileEntry>)
    ensures
        kept.deep_view() == visible(entries.deep_view()),
{
    let ghost all = entries@;
    let ghost views = entries.deep_view();
    let mut kept: Vec<FileEntry> = Vec::new();
    proof {
        reveal(Seq::filter);
    }
    for entry in it: entries.into_iter()
        invariant
            it.seq() == all,
            views.len() == all.len(),
            forall|k: int| 0 <= k < all.len() ==> (#[trigger] all[k])@ == views[k],
            kept.deep_view() == visible(views.take(it.index() as int)),
    {
        proof {
            let seen = views.take(it.index() as int);
            assert(views.take(it.index() + 1) =~= seen.push(entry@));
            seen.lemma_filter_push(entry@, is_visible());
        }
        if !entry.is_hidden() {
            kept.push(entry);
        }
    }
    assert(views.take(views.len() as int) =~= views);
    kept
}

/// The four ways of emptying a directory stream into a listing.
pub trait RawSorter {
    /// The items of the stream, in the order they came in.
    spec fn items(&self) -> Seq<Option<EntryView>>;

    /// Empties the stream into a listing in the order of names, byte by
    /// byte.
    fn sort_by_name(&mut self) -> (entries: Vec<FileEntry>)
        ensures
            entries.deep_view() == ordered(present(old(self).items()), SortType::Name),
            final(self).items() == Seq::<Option<EntryView>>::empty(),
    ;

    /// Empties the stream into a listing in the order of sizes, smallest
    /// first.
    fn sort_by_size(&mut self) -> (entries: Vec<FileEntry>)
        ensures
            entries.deep_view() == ordered(present(old(self).items()), SortType::Size),
            final(self).items() == Seq::<Option<EntryView>>::empty(),
    ;

    /// Empties the stream into a listing in the order of last changes,
    /// oldest first.
    fn sort_by_modified(&mut self) -> (entries: Vec<FileEntry>)
        ensures
            entries.deep_view() == ordered(present(old(self).items()), SortType::Modified),
            final(self).items() == Seq::<Option<EntryView>>::empty(),
    ;

    /// Empties the stream into a listing in the order of the stream.
    fn unsorted(&mut self) -> (entries: Vec<FileEntry>)
        ensures
            entries.deep_view() == present(old(self).items()),
            final(self).items() == Seq::<Option<EntryView>>::empty(),
    ;
}

impl RawSorter for Vec<Option<FileEntry>> {
    open spec fn items(&self) -> Seq<Option<EntryView>> {
        self.deep_view()
    }

    fn sort_by_name(&mut self) -> (entries: Vec<FileEntry>) {
        let entries = self.unsorted();
        sort_entries(entries, &SortType::Name)
    }

    fn sort_by_size(&mut self) -> (entries: Vec<FileEntry>) {
        let entries = self.unsorted();
        sort_entries(entries, &SortType::Size)
    }

    fn sort_by_modified(&mut self) -> (entries: Vec<FileEntry>) {
        let entries = self.unsorted();
        sort_entries(entries, &SortType::Modified)
    }

    fn unsorted(&mut self) -> (entries: Vec<FileEntry>) {
        let mut stream: Vec<Option<FileEntry>> = Vec::new();
        core::mem::swap(self, &mut stream);
        collect(stream)
    }
}

/// A directory stream that can be emptied into an ordered listing.
pub trait Sorter {
    /// The items of the stream, in the order they came in.
    spec fn stream(&self) -> Seq<Option<EntryView>>;

    /// Empties the stream into a listing in the order of `method`.
    fn sort(&mut self, method: &SortType) -> (entries: Vec<FileEntry>)
        ensures
            entries.deep_view() == ordered(present(old(self).stream()), *method),
            final(self).stream() == Seq::<Option<EntryView>>::empty(),
    ;
}

impl Sorter for Vec<Option<FileEntry>> {
    open spec fn stream(&self) -> Seq<Option<EntryView>> {
        self.deep_view()
    }

    fn sort(&mut self, method: &SortType) -> (entries: Vec<FileEntry>) {
        proof {
            lemma_unsorted_keeps_order(present(self.deep_view()));
        }
        match *method {
            SortType::Name => self.sort_by_name(),
            SortType::Size => self.sort_by_size(),
            SortType::Modified => self.sort_by_modified(),
            SortType::Unsorted => self.unsorted(),
        }
    }
}

/// A listing from which the hidden entries can be taken out.
pub trait RawFilter {
    /// The entries of the listing.
    spec fn entries(&self) -> Seq<EntryView>;

    /// Takes the hidden entries out of the listing, keeps the others in
    /// their order, and hands the listing back.
    fn dotfilter(&mut self) -> (kept: &Vec<FileEntry>)
        ensures
            final(self).entries() == visible(old(self).entries()),
            kept.deep_view() == visible(old(self).entries()),
    ;
}

impl RawFilter for Vec<FileEntry> {
    open spec fn entries(&self) -> Seq<EntryView> {
        self.deep_view()
    }

    fn dotfilter(&mut self) -> (kept: &Vec<FileEntry>) {
        let mut all: Vec<FileEntry> = Vec::new();
        core::mem::swap(self, &mut all);
        let mut kept = keep_visible(all);
        core::mem::swap(self, &mut kept);
        self
    }
}

/// What came of reading a directory.
#[derive(PartialEq, Eq, Debug)]
pub enum DirRead {
    /// The directory could not be read at all.
    Unreadable,
    /// The items of the directory stream, each an entry or a failure.
    Stream(Vec<Option<FileEntry>>),
}

/// Why there is no listing.
#[derive(Clone, Copy, PartialEq, Eq, Debug, Structural)]
pub enum ListError {
    /// The directory could not be read.
    Unreadable,
}

/// Makes the listing of a directory from what was read of it: the entries
/// of the stream, without the hidden ones unless `include_hidden` is set,
/// in the order of `method`. A directory that could not be read has no
/// listing.
pub fn collect_and_order(read: DirRead, method: &SortType, include_hidden: bool) -> (listing:
    Result<Vec<FileEntry>, ListError>)
    ensures
        match read {
            DirRead::Unreadable => listing == Err::<Vec<FileEntry>, ListError>(
                ListError::Unreadable,
            ),
            DirRead::Stream(stream) => listing is Ok && listing.unwrap().deep_view() == arranged(
                stream.deep_view(),
                *method,
                include_hidden,
            ),
        },
{
    match read {
        DirRead::Unreadable => Err(ListError::Unreadable),
        DirRead::Stream(stream) => {
            let entries = collect(stream);
            let shown = if include_hidden {
                entries
            } else {
                keep_visible(entries)
            };
            Ok(sort_entries(shown, method))
        },
    }
}

} // verus!
