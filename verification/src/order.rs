//! The order of a listing, as mathematics.
//!
//! Entries are ordered by a key that depends on the method: the bytes of the
//! name, the size, or the time of the last change. An entry may lack its
//! key, because its name is not well-formed text or its metadata could not
//! be read; such an entry comes neither before nor after any other. The
//! order is built by placing the entries one by one, each behind the last
//! entry placed so far that does not come after it.

use vstd::prelude::*;
use crate::entry::{hidden, EntryView};
use crate::sorting::SortType;

verus! {

/// The value an entry is ordered by.
pub ghost enum SortKey {
    /// The entry has no place in the order.
    Missing,
    /// The bytes of a name.
    Text(Seq<u8>),
    /// A size or a time.
    Number(int),
}

/// The key of an entry under a method. Without a method no entry has one.
pub open spec fn sort_key(entry: EntryView, method: SortType) -> SortKey {
    match method {
        SortType::Name => if entry.name_is_text {
            SortKey::Text(entry.name)
        } else {
            SortKey::Missing
        },
        SortType::Size => match entry.metadata {
            Some(metadata) => SortKey::Number(metadata.size as int),
            None => SortKey::Missing,
        },
        SortType::Modified => match entry.metadata {
            Some(metadata) => SortKey::Number(metadata.mtime as int),
            None => SortKey::Missing,
        },
        SortType::Unsorted => SortKey::Missing,
    }
}

/// Whether `a` stands before `b` in the order of byte strings: at the first
/// place where they differ `a` has the smaller byte, or `a` ends there and
/// `b` goes on.
pub open spec fn bytes_before(a: Seq<u8>, b: Seq<u8>) -> bool
    decreases a.len(),
{
    if a.len() == 0 {
        b.len() > 0
    } else if b.len() == 0 {
        false
    } else if a[0] == b[0] {
        bytes_before(a.drop_first(), b.drop_first())
    } else {
        a[0] < b[0]
    }
}

/// Whether key `a` stands before key `b`. A missing key stands before
/// nothing and nothing stands before it.
pub open spec fn key_before(a: SortKey, b: SortKey) -> bool {
    match (a, b) {
        (SortKey::Text(x), SortKey::Text(y)) => bytes_before(x, y),
        (SortKey::Number(x), SortKey::Number(y)) => x < y,
        _ => false,
    }
}

/// Whether entry `a` has to stand behind entry `b`.
pub open spec fn comes_after(a: EntryView, b: EntryView, method: SortType) -> bool {
    key_before(sort_key(b, method), sort_key(a, method))
}

/// Where `entry` goes among the entries `placed` before it: behind the last
/// of them that does not come after it.
pub open spec fn slot(placed: Seq<EntryView>, entry: EntryView, method: SortType) -> nat
    decreases placed.len(),
{
    if placed.len() > 0 && comes_after(placed.last(), entry, method) {
        slot(placed.drop_last(), entry, method)
    } else {
        placed.len()
    }
}

/// The entries in the order of `method`.
pub open spec fn ordered(entries: Seq<EntryView>, method: SortType) -> Seq<EntryView>
    decreases entries.len(),
{
    if entries.len() == 0 {
        entries
    } else {
        let placed = ordered(entries.drop_last(), method);
        placed.insert(slot(placed, entries.last(), method) as int, entries.last())
    }
}

/// The entries that a directory stream gave, without the items that failed.
pub open spec fn present(stream: Seq<Option<EntryView>>) -> Seq<EntryView>
    decreases stream.len(),
{
    if stream.len() == 0 {
        Seq::empty()
    } else {
        let before = present(stream.drop_last());
        match stream.last() {
            Some(entry) => before.push(entry),
            None => before,
        }
    }
}

/// The test that an entry is not hidden.
pub open spec fn is_visible() -> spec_fn(EntryView) -> bool {
    |entry: EntryView| !hidden(entry)
}

/// The entries that are not hidden, in the order they had.
pub open spec fn visible(entries: Seq<EntryView>) -> Seq<EntryView> {
    entries.filter(is_visible())
}

/// The test that an entry has the key `key` under `method`.
pub open spec fn has_key(method: SortType, key: SortKey) -> spec_fn(EntryView) -> bool {
    |entry: EntryView| sort_key(entry, method) == key
}

/// Whether every entry has a key under `method`.
pub open spec fn all_keyed(entries: Seq<EntryView>, method: SortType) -> bool {
    forall|i: int| 0 <= i < entries.len() ==> !(#[trigger] sort_key(entries[i], method) is Missing)
}

/// The listing of a directory stream: what was read, without the hidden
/// entries unless they are asked for, in the order of `method`.
pub open spec fn arranged(
    stream: Seq<Option<EntryView>>,
    method: SortType,
    include_hidden: bool,
) -> Seq<EntryView> {
    let read = present(stream);
    ordered(
        if include_hidden {
            read
        } else {
            visible(read)
        },
        method,
    )
}

/// No byte string stands before itself, and of two byte strings at most one
/// stands before the other.
pub proof fn lemma_bytes_before_asymmetric(a: Seq<u8>, b: Seq<u8>)
    ensures
        !(bytes_before(a, b) && bytes_before(b, a)),
        !bytes_before(a, a),
    decreases a.len(),
{
    if a.len() > 0 {
        lemma_bytes_before_asymmetric(a.drop_first(), a.drop_first());
        if b.len() > 0 && a[0] == b[0] {
            lemma_bytes_before_asymmetric(a.drop_first(), b.drop_first());
        }
    }
}

/// Of two different byte strings one stands before the other.
pub proof fn lemma_bytes_before_total(a: Seq<u8>, b: Seq<u8>)
    ensures
        bytes_before(a, b) || bytes_before(b, a) || a == b,
    decreases a.len(),
{
    if a.len() > 0 && b.len() > 0 && a[0] == b[0] {
        lemma_bytes_before_total(a.drop_first(), b.drop_first());
        if a.drop_first() == b.drop_first() {
            assert(a =~= seq![a[0]] + a.drop_first());
        }
    }
}

/// The order of byte strings is transitive.
pub proof fn lemma_bytes_before_transitive(a: Seq<u8>, b: Seq<u8>, c: Seq<u8>)
    requires
        bytes_before(a, b),
        bytes_before(b, c),
    ensures
        bytes_before(a, c),
    decreases a.len(),
{
    if a.len() > 0 && a[0] == b[0] && b[0] == c[0] {
        lemma_bytes_before_transitive(a.drop_first(), b.drop_first(), c.drop_first());
    }
}

/// No entry comes after itself, and of two entries at most one comes after
/// the other.
pub proof fn lemma_comes_after_asymmetric(a: EntryView, b: EntryView, method: SortType)
    ensures
        !(comes_after(a, b, method) && comes_after(b, a, method)),
        !comes_after(a, a, method),
{
    match (sort_key(a, method), sort_key(b, method)) {
        (SortKey::Text(x), SortKey::Text(y)) => {
            lemma_bytes_before_asymmetric(x, y);
            lemma_bytes_before_asymmetric(x, x);
        },
        (SortKey::Text(x), _) => {
            lemma_bytes_before_asymmetric(x, x);
        },
        _ => {},
    }
}

/// Between entries with keys, not coming after is transitive: where `a` does
/// not come after `b` nor `b` after `c`, `a` does not come after `c`.
pub proof fn lemma_not_after_transitive(a: EntryView, b: EntryView, c: EntryView, method: SortType)
    requires
        !(sort_key(b, method) is Missing),
        !comes_after(a, b, method),
        !comes_after(b, c, method),
    ensures
        !comes_after(a, c, method),
{
    match (sort_key(a, method), sort_key(b, method), sort_key(c, method)) {
        (SortKey::Text(x), SortKey::Text(y), SortKey::Text(z)) => {
            lemma_bytes_before_total(y, x);
            lemma_bytes_before_total(z, y);
            if bytes_before(z, x) && x != y && y != z {
                lemma_bytes_before_transitive(x, y, z);
                lemma_bytes_before_asymmetric(x, z);
            }
        },
        _ => {},
    }
}

/// What the slot of an entry means: every entry behind the slot comes after
/// the new one, and the entry just before the slot does not.
pub proof fn lemma_slot(placed: Seq<EntryView>, entry: EntryView, method: SortType)
    ensures
        slot(placed, entry, method) <= placed.len(),
        forall|i: int|
            slot(placed, entry, method) <= i < placed.len() ==> comes_after(
                #[trigger] placed[i],
                entry,
                method,
            ),
        slot(placed, entry, method) > 0 ==> !comes_after(
            placed[slot(placed, entry, method) - 1],
            entry,
            method,
        ),
    decreases placed.len(),
{
    if placed.len() > 0 && comes_after(placed.last(), entry, method) {
        let before = placed.drop_last();
        lemma_slot(before, entry, method);
        assert forall|i: int| slot(placed, entry, method) <= i < placed.len() implies comes_after(
            #[trigger] placed[i],
            entry,
            method,
        ) by {
            if i < before.len() {
                assert(before[i] == placed[i]);
            }
        }
    }
}

/// Ordering neither adds nor drops an entry.
pub proof fn lemma_ordered_is_permutation(entries: Seq<EntryView>, method: SortType)
    ensures
        ordered(entries, method).len() == entries.len(),
        ordered(entries, method).to_multiset() == entries.to_multiset(),
    decreases entries.len(),
{
    if entries.len() > 0 {
        let before = entries.drop_last();
        let placed = ordered(before, method);
        lemma_ordered_is_permutation(before, method);
        lemma_slot(placed, entries.last(), method);
        vstd::seq_lib::to_multiset_insert(
            placed,
            slot(placed, entries.last(), method) as int,
            entries.last(),
        );
        vstd::seq_lib::to_multiset_build(before, entries.last());
        assert(before.push(entries.last()) =~= entries);
    }
}

/// In the order of a method no entry is followed at once by one that it
/// comes after.
pub proof fn lemma_ordered_neighbours(entries: Seq<EntryView>, method: SortType)
    ensures
        forall|i: int|
            #![trigger ordered(entries, method)[i]]
            0 <= i && i + 1 < ordered(entries, method).len() ==> !comes_after(
                ordered(entries, method)[i],
                ordered(entries, method)[i + 1],
                method,
            ),
    decreases entries.len(),
{
    if entries.len() > 0 {
        let before = entries.drop_last();
        let placed = ordered(before, method);
        let entry = entries.last();
        let at = slot(placed, entry, method) as int;
        let after = ordered(entries, method);
        lemma_ordered_neighbours(before, method);
        lemma_slot(placed, entry, method);
        assert forall|i: int| 0 <= i && i + 1 < after.len() implies !comes_after(
            #[trigger] after[i],
            after[i + 1],
            method,
        ) by {
            if i == at {
                lemma_comes_after_asymmetric(entry, placed[at], method);
            }
        }
    }
}

/// Where every entry has a key, the order is ascending throughout: no entry
/// comes after one that stands behind it.
pub proof fn lemma_ordered_is_ascending(entries: Seq<EntryView>, method: SortType)
    requires
        all_keyed(entries, method),
    ensures
        all_keyed(ordered(entries, method), method),
        forall|i: int, j: int|
            #![trigger ordered(entries, method)[i], ordered(entries, method)[j]]
            0 <= i < j < ordered(entries, method).len() ==> !comes_after(
                ordered(entries, method)[i],
                ordered(entries, method)[j],
                method,
            ),
    decreases entries.len(),
{
    if entries.len() > 0 {
        let before = entries.drop_last();
        let placed = ordered(before, method);
        let entry = entries.last();
        let at = slot(placed, entry, method) as int;
        let after = ordered(entries, method);
        lemma_ordered_is_ascending(before, method);
        lemma_slot(placed, entry, method);
        assert forall|i: int, j: int| 0 <= i < j < after.len() implies !comes_after(
            after[i],
            after[j],
            method,
        ) by {
            if j < at {
                assert(after[i] == placed[i] && after[j] == placed[j]);
            } else if j == at {
                if i < at - 1 {
                    lemma_not_after_transitive(placed[i], placed[at - 1], entry, method);
                }
            } else if i == at {
                lemma_comes_after_asymmetric(entry, placed[j - 1], method);
            }
        }
    }
}

/// The order is stable: the entries that share a key stand in the order of
/// `method` as they stood before. This holds of the entries without a key
/// too, which share the missing one.
pub proof fn lemma_ordered_is_stable(entries: Seq<EntryView>, method: SortType, key: SortKey)
    ensures
        ordered(entries, method).filter(has_key(method, key)) == entries.filter(
            has_key(method, key),
        ),
    decreases entries.len(),
{
    let same = has_key(method, key);
    if entries.len() > 0 {
        let before = entries.drop_last();
        let placed = ordered(before, method);
        let entry = entries.last();
        let at = slot(placed, entry, method) as int;
        lemma_ordered_is_stable(before, method, key);
        lemma_slot(placed, entry, method);
        let front = placed.subrange(0, at);
        let back = placed.subrange(at, placed.len() as int);
        assert(placed =~= front + back);
        Seq::filter_distributes_over_add(front, back, same);
        Seq::filter_distributes_over_add(front.push(entry), back, same);
        front.lemma_filter_push(entry, same);
        before.lemma_filter_push(entry, same);
        assert(before.push(entry) =~= entries);
        if same(entry) {
            assert forall|i: int| 0 <= i < back.len() implies !same(#[trigger] back[i]) by {
                assert(back[i] == placed[at + i]);
                lemma_comes_after_asymmetric(entry, entry, method);
            }
            back.lemma_all_neg_filter_empty(same);
            assert(back.filter(same) =~= Seq::<EntryView>::empty());
        }
    }
}

/// What is left when the hidden entries are taken out: no hidden entry, and
/// every entry that is not hidden. The entries left stand as they stood.
pub proof fn lemma_visible_entries(entries: Seq<EntryView>)
    ensures
        visible(entries).len() <= entries.len(),
        forall|i: int| 0 <= i < visible(entries).len() ==> !hidden(#[trigger] visible(entries)[i]),
        forall|i: int|
            0 <= i < entries.len() && !hidden(entries[i]) ==> visible(entries).contains(
                #[trigger] entries[i],
            ),
        (forall|i: int| 0 <= i < entries.len() ==> !hidden(#[trigger] entries[i])) ==> visible(
            entries,
        ) == entries,
    decreases entries.len(),
{
    let keep = is_visible();
    entries.lemma_filter_len(keep);
    assert forall|i: int| 0 <= i < visible(entries).len() implies !hidden(
        #[trigger] visible(entries)[i],
    ) by {
        entries.lemma_filter_pred(keep, i);
    }
    assert forall|i: int| 0 <= i < entries.len() && !hidden(entries[i]) implies visible(
        entries,
    ).contains(#[trigger] entries[i]) by {
        entries.lemma_filter_contains(keep, i);
    }
    if forall|i: int| 0 <= i < entries.len() ==> !hidden(#[trigger] entries[i]) {
        reveal(Seq::filter);
        if entries.len() > 0 {
            let before = entries.drop_last();
            lemma_visible_entries(before);
            assert(!hidden(entries[entries.len() - 1]));
        }
    }
}

/// Without a method a listing is the stream itself, less its failures and,
/// unless they are asked for, less its hidden entries.
pub proof fn lemma_unsorted_listing(stream: Seq<Option<EntryView>>, include_hidden: bool)
    ensures
        arranged(stream, SortType::Unsorted, include_hidden) == if include_hidden {
            present(stream)
        } else {
            visible(present(stream))
        },
{
    lemma_unsorted_keeps_order(present(stream));
    lemma_unsorted_keeps_order(visible(present(stream)));
}

/// Where every entry of `back` comes after `entry` and the last of `front`
/// does not, the slot of `entry` among the two joined lies between them.
pub proof fn lemma_slot_between(
    front: Seq<EntryView>,
    back: Seq<EntryView>,
    entry: EntryView,
    method: SortType,
)
    requires
        forall|i: int| 0 <= i < back.len() ==> comes_after(#[trigger] back[i], entry, method),
        front.len() > 0 ==> !comes_after(front.last(), entry, method),
    ensures
        slot(front + back, entry, method) == front.len(),
    decreases back.len(),
{
    if back.len() > 0 {
        assert((front + back).drop_last() =~= front + back.drop_last());
        lemma_slot_between(front, back.drop_last(), entry, method);
    }
}

/// Where every entry has a key, it makes no difference whether the hidden
/// entries are taken out before the order is made or after.
pub proof fn lemma_hiding_commutes_with_order(entries: Seq<EntryView>, method: SortType)
    requires
        all_keyed(entries, method),
    ensures
        visible(ordered(entries, method)) == ordered(visible(entries), method),
    decreases entries.len(),
{
    let keep = is_visible();
    if entries.len() == 0 {
        reveal(Seq::filter);
    } else {
        let before = entries.drop_last();
        let entry = entries.last();
        let placed = ordered(before, method);
        let at = slot(placed, entry, method) as int;
        lemma_hiding_commutes_with_order(before, method);
        lemma_ordered_is_ascending(before, method);
        lemma_slot(placed, entry, method);
        let front = placed.subrange(0, at);
        let back = placed.subrange(at, placed.len() as int);
        assert(placed =~= front + back);
        Seq::filter_distributes_over_add(front, back, keep);
        Seq::filter_distributes_over_add(front.push(entry), back, keep);
        front.lemma_filter_push(entry, keep);
        before.lemma_filter_push(entry, keep);
        assert(before.push(entry) =~= entries);
        if keep(entry) {
            let shown_front = front.filter(keep);
            let shown_back = back.filter(keep);
            assert forall|i: int| 0 <= i < shown_back.len() implies comes_after(
                #[trigger] shown_back[i],
                entry,
                method,
            ) by {
                back.lemma_filter_contains_rev(keep, shown_back[i]);
            }
            if shown_front.len() > 0 {
                front.lemma_filter_contains_rev(keep, shown_front.last());
                let k = choose|k: int| 0 <= k < front.len() && front[k] == shown_front.last();
                if k < at - 1 {
                    lemma_not_after_transitive(placed[k], placed[at - 1], entry, method);
                }
            }
            lemma_slot_between(shown_front, shown_back, entry, method);
            assert((shown_front + shown_back).insert(shown_front.len() as int, entry)
                =~= shown_front.push(entry) + shown_back);
            assert(visible(before).push(entry).drop_last() =~= visible(before));
        }
    }
}

/// Without a method the entries stay as they are.
pub proof fn lemma_unsorted_keeps_order(entries: Seq<EntryView>)
    ensures
        ordered(entries, SortType::Unsorted) == entries,
    decreases entries.len(),
{
    if entries.len() > 0 {
        let before = entries.drop_last();
        lemma_unsorted_keeps_order(before);
    }
}

} // verus!
