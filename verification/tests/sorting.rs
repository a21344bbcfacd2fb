use dirlist::ansi::write_listing;
use dirlist::entry::{FileEntry, FileKind, Metadata};
use dirlist::render::render_listing;
use dirlist::sorting::{
    collect, collect_and_order, entry_after, keep_visible, name_before, sort_entries, DirRead,
    ListError, RawFilter, RawSorter, SortType, Sorter,
};

const NOW: i64 = 1_700_000_000;

fn file(name: &str, size: u64, mtime: i64) -> FileEntry {
    FileEntry {
        name: name.as_bytes().to_vec(),
        name_is_text: true,
        metadata: Some(Metadata { kind: FileKind::RegularFile, mode: 0o644, size, mtime }),
    }
}

fn unread(name: &str) -> FileEntry {
    FileEntry { name: name.as_bytes().to_vec(), name_is_text: true, metadata: None }
}

fn malformed(name: &[u8]) -> FileEntry {
    FileEntry {
        name: name.to_vec(),
        name_is_text: false,
        metadata: Some(Metadata { kind: FileKind::RegularFile, mode: 0o644, size: 0, mtime: 0 }),
    }
}

fn names(entries: &[FileEntry]) -> Vec<String> {
    entries.iter().map(|entry| String::from_utf8_lossy(&entry.name).into_owned()).collect()
}

#[test]
fn names_are_ordered_byte_by_byte() {
    let entries = vec![file("b", 0, 0), file("A", 0, 0), file("a", 0, 0)];
    assert_eq!(names(&sort_entries(entries, &SortType::Name)), ["A", "a", "b"]);
}

#[test]
fn a_prefix_stands_before_its_extensions() {
    let entries = vec![file("abc", 0, 0), file("ab", 0, 0), file("", 0, 0), file("abd", 0, 0)];
    assert_eq!(names(&sort_entries(entries, &SortType::Name)), ["", "ab", "abc", "abd"]);
}

#[test]
fn byte_order_of_names() {
    assert!(name_before(&b"A".to_vec(), &b"a".to_vec()));
    assert!(name_before(&b"a".to_vec(), &b"b".to_vec()));
    assert!(!name_before(&b"b".to_vec(), &b"a".to_vec()));
    assert!(!name_before(&b"a".to_vec(), &b"a".to_vec()));
    assert!(name_before(&b"".to_vec(), &b"a".to_vec()));
    assert!(!name_before(&b"a".to_vec(), &b"".to_vec()));
    assert!(name_before(&b"a".to_vec(), &b"aa".to_vec()));
    assert!(name_before(&b"Z".to_vec(), &vec![0xc3, 0xa9]));
    assert!(name_before(&vec![0x7f], &vec![0x80]));
}

#[test]
fn sizes_are_ordered_smallest_first() {
    let entries = vec![file("big", 300, 0), file("small", 1, 0), file("mid", 20, 0)];
    assert_eq!(names(&sort_entries(entries, &SortType::Size)), ["small", "mid", "big"]);
}

#[test]
fn times_are_ordered_oldest_first() {
    let entries = vec![file("new", 0, 30), file("old", 0, -5), file("mid", 0, 7)];
    assert_eq!(names(&sort_entries(entries, &SortType::Modified)), ["old", "mid", "new"]);
}

#[test]
fn equal_sizes_keep_their_order() {
    let entries =
        vec![file("c", 5, 0), file("a", 5, 0), file("z", 1, 0), file("b", 5, 0), file("y", 1, 0)];
    assert_eq!(names(&sort_entries(entries, &SortType::Size)), ["z", "y", "c", "a", "b"]);
}

#[test]
fn equal_times_keep_their_order() {
    let entries = vec![file("q", 0, 9), file("p", 0, 9), file("o", 0, 3), file("n", 0, 9)];
    assert_eq!(names(&sort_entries(entries, &SortType::Modified)), ["o", "q", "p", "n"]);
}

#[test]
fn equal_names_keep_their_order() {
    let entries = vec![file("same", 1, 0), file("aaa", 9, 0), file("same", 2, 0)];
    let sorted = sort_entries(entries, &SortType::Name);
    assert_eq!(sorted, vec![file("aaa", 9, 0), file("same", 1, 0), file("same", 2, 0)]);
}

#[test]
fn unsorted_keeps_the_order_of_the_stream() {
    let entries = vec![file("b", 3, 3), file("a", 1, 1), file("c", 2, 2)];
    assert_eq!(names(&sort_entries(entries, &SortType::Unsorted)), ["b", "a", "c"]);
}

#[test]
fn unread_metadata_is_never_moved_across() {
    let entries = vec![file("five", 5, 0), unread("lost"), file("three", 3, 0)];
    assert_eq!(names(&sort_entries(entries, &SortType::Size)), ["five", "lost", "three"]);
    let entries = vec![unread("lost"), file("five", 5, 0), file("three", 3, 0)];
    assert_eq!(names(&sort_entries(entries, &SortType::Size)), ["lost", "three", "five"]);
}

#[test]
fn malformed_names_are_never_moved_across() {
    let entries = vec![file("z", 0, 0), malformed(&[0xff]), file("a", 0, 0), file("0", 0, 0)];
    let sorted = sort_entries(entries, &SortType::Name);
    assert_eq!(sorted[0], file("z", 0, 0));
    assert_eq!(sorted[1], malformed(&[0xff]));
    assert_eq!(sorted[2], file("0", 0, 0));
    assert_eq!(sorted[3], file("a", 0, 0));
}

#[test]
fn entries_are_compared_by_the_key_of_the_method() {
    let small_late = file("b", 1, 100);
    let big_early = file("a", 9, 1);
    assert!(entry_after(&small_late, &big_early, &SortType::Name));
    assert!(!entry_after(&small_late, &big_early, &SortType::Size));
    assert!(entry_after(&big_early, &small_late, &SortType::Size));
    assert!(entry_after(&small_late, &big_early, &SortType::Modified));
    assert!(!entry_after(&small_late, &big_early, &SortType::Unsorted));
    assert!(!entry_after(&big_early, &small_late, &SortType::Unsorted));
    assert!(!entry_after(&unread("x"), &big_early, &SortType::Size));
    assert!(!entry_after(&big_early, &unread("x"), &SortType::Modified));
    assert!(!entry_after(&malformed(b"zz"), &big_early, &SortType::Name));
}

#[test]
fn sorting_an_empty_listing() {
    assert_eq!(sort_entries(Vec::new(), &SortType::Name), Vec::new());
}

#[test]
fn reversed_input_is_put_right() {
    let mut entries = Vec::new();
    for size in (0..50u64).rev() {
        entries.push(file(&format!("f{}", size), size, 0));
    }
    let sorted = sort_entries(entries, &SortType::Size);
    for (place, entry) in sorted.iter().enumerate() {
        assert_eq!(entry.metadata.unwrap().size, place as u64);
    }
}

#[test]
fn failed_items_are_dropped() {
    let stream = vec![None, Some(file("a", 1, 1)), None, None, Some(file("b", 2, 2)), None];
    assert_eq!(names(&collect(stream)), ["a", "b"]);
    assert_eq!(collect(vec![None, None]), Vec::new());
    assert_eq!(collect(Vec::new()), Vec::new());
}

#[test]
fn hidden_entries_are_taken_out() {
    let entries = vec![
        file(".git", 0, 0),
        file("src", 0, 0),
        file(".", 0, 0),
        file("a.b", 0, 0),
        file("..", 0, 0),
        file("", 0, 0),
        file("README", 0, 0),
    ];
    assert_eq!(names(&keep_visible(entries)), ["src", "a.b", "", "README"]);
}

#[test]
fn hidden_goes_by_the_first_byte_alone() {
    assert!(file(".x", 0, 0).is_hidden());
    assert!(malformed(&[b'.', 0xff]).is_hidden());
    assert!(unread(".lost").is_hidden());
    assert!(!file("x.", 0, 0).is_hidden());
    assert!(!file("", 0, 0).is_hidden());
    assert!(!malformed(&[0xff, b'.']).is_hidden());
}

#[test]
fn dotfilter_changes_the_listing_in_place() {
    let mut entries = vec![file(".a", 0, 0), file("b", 0, 0), file(".c", 0, 0), file("d", 0, 0)];
    assert_eq!(names(entries.dotfilter()), ["b", "d"]);
    assert_eq!(names(&entries), ["b", "d"]);
}

#[test]
fn sort_empties_the_stream() {
    let mut stream = vec![Some(file("b", 2, 0)), None, Some(file("a", 1, 0))];
    let sorted = stream.sort(&SortType::Name);
    assert_eq!(names(&sorted), ["a", "b"]);
    assert!(stream.is_empty());
    assert_eq!(stream.sort(&SortType::Name), Vec::new());
}

#[test]
fn sort_follows_the_method() {
    let stream = || {
        vec![Some(file("b", 1, 30)), Some(file("c", 3, 10)), None, Some(file("a", 2, 20))]
    };
    assert_eq!(names(&stream().sort(&SortType::Name)), ["a", "b", "c"]);
    assert_eq!(names(&stream().sort(&SortType::Size)), ["b", "a", "c"]);
    assert_eq!(names(&stream().sort(&SortType::Modified)), ["c", "a", "b"]);
    assert_eq!(names(&stream().sort(&SortType::Unsorted)), ["b", "c", "a"]);
}

#[test]
fn each_way_of_emptying_a_stream() {
    let stream = || {
        vec![Some(file("b", 1, 30)), None, Some(file("c", 3, 10)), Some(file("a", 2, 20))]
    };
    let mut by_name = stream();
    assert_eq!(names(&by_name.sort_by_name()), ["a", "b", "c"]);
    assert!(by_name.is_empty());
    let mut by_size = stream();
    assert_eq!(names(&by_size.sort_by_size()), ["b", "a", "c"]);
    assert!(by_size.is_empty());
    let mut by_time = stream();
    assert_eq!(names(&by_time.sort_by_modified()), ["c", "a", "b"]);
    assert!(by_time.is_empty());
    let mut as_read = stream();
    assert_eq!(names(&as_read.unsorted()), ["b", "c", "a"]);
    assert!(as_read.is_empty());
}

#[test]
fn hidden_entries_go_before_the_order_is_made() {
    let stream = vec![
        Some(file("zeta", 1, 0)),
        Some(file(".hidden", 0, 0)),
        None,
        Some(file("alpha", 2, 0)),
        Some(file(".other", 5, 0)),
    ];
    let listing = collect_and_order(DirRead::Stream(stream), &SortType::Unsorted, false);
    assert_eq!(names(&listing.unwrap()), ["zeta", "alpha"]);
}

#[test]
fn hidden_entries_stay_when_asked_for() {
    let stream = vec![Some(file("zeta", 1, 0)), Some(file(".hidden", 0, 0)), Some(file("b", 2, 0))];
    let listing = collect_and_order(DirRead::Stream(stream), &SortType::Name, true);
    assert_eq!(names(&listing.unwrap()), [".hidden", "b", "zeta"]);
}

#[test]
fn unreadable_directory_has_no_listing() {
    for include_hidden in [false, true] {
        let listing = collect_and_order(DirRead::Unreadable, &SortType::Name, include_hidden);
        assert_eq!(listing, Err(ListError::Unreadable));
    }
}

#[test]
fn empty_directory_has_an_empty_listing() {
    let listing = collect_and_order(DirRead::Stream(Vec::new()), &SortType::Size, false);
    assert_eq!(listing, Ok(Vec::new()));
}

#[test]
fn listing_of_a_small_directory() {
    let stream = vec![
        Some(FileEntry {
            name: b"sub".to_vec(),
            name_is_text: true,
            metadata: Some(Metadata {
                kind: FileKind::Directory,
                mode: 0o755,
                size: 4096,
                mtime: NOW - 400,
            }),
        }),
        Some(FileEntry {
            name: b".hidden".to_vec(),
            name_is_text: true,
            metadata: Some(Metadata {
                kind: FileKind::RegularFile,
                mode: 0o600,
                size: 0,
                mtime: NOW,
            }),
        }),
        Some(FileEntry {
            name: b"alpha".to_vec(),
            name_is_text: true,
            metadata: Some(Metadata {
                kind: FileKind::RegularFile,
                mode: 0o644,
                size: 1500,
                mtime: NOW - 30,
            }),
        }),
    ];
    let listing = collect_and_order(DirRead::Stream(stream), &SortType::Size, false).unwrap();
    assert_eq!(names(&listing), ["alpha", "sub"]);
    let lines = render_listing(&listing, NOW);
    assert_eq!(lines[1][0].text, b"d".to_vec());
    assert_eq!(lines[1][13].text, b"sub".to_vec());
    assert_eq!(lines[1][14].text, b"/".to_vec());
    assert_eq!(
        String::from_utf8(write_listing(&lines, false)).unwrap(),
        "-rw-r--r-- 30s 1.5K alpha\ndrwxr-xr-x  6m 4.0K sub/\n"
    );
}

#[test]
fn words_choose_the_method() {
    assert_eq!(SortType::from_name(b"size"), SortType::Size);
    assert_eq!(SortType::from_name(b"name"), SortType::Name);
    assert_eq!(SortType::from_name(b"modified"), SortType::Modified);
    assert_eq!(SortType::from_name(b""), SortType::Unsorted);
    assert_eq!(SortType::from_name(b"Size"), SortType::Unsorted);
    assert_eq!(SortType::from_name(b"sizes"), SortType::Unsorted);
    assert_eq!(SortType::from_name(b"nam"), SortType::Unsorted);
    assert_eq!(SortType::from_name(b"modifies"), SortType::Unsorted);
    assert_eq!(SortType::from_name(b"unsorted"), SortType::Unsorted);
}

#[test]
fn entries_are_cloned_whole() {
    let entry = file("copy", 12, 34);
    assert_eq!(entry.clone(), entry);
    assert_eq!(unread("x").clone(), unread("x"));
}
