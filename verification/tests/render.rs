use dirlist::ansi::{write_line, write_listing};
use dirlist::color::{Color, Hue, Segment};
use dirlist::entry::{FileEntry, FileKind, Metadata};
use dirlist::render::{render, render_listing, render_listing_now, Printer};

const NOW: i64 = 1_700_000_000;

fn entry(name: &str, kind: FileKind, mode: u32, size: u64, age: i64) -> FileEntry {
    FileEntry {
        name: name.as_bytes().to_vec(),
        name_is_text: true,
        metadata: Some(Metadata { kind, mode, size, mtime: NOW - age }),
    }
}

fn plain_text(line: &Vec<Segment>) -> String {
    String::from_utf8(write_line(line, false)).unwrap()
}

#[test]
fn line_of_a_plain_file() {
    let line = render(&entry("alpha", FileKind::RegularFile, 0o644, 1500, 30), NOW);
    assert_eq!(plain_text(&line), "-rw-r--r-- 30s 1.5K alpha\n");
    assert_eq!(line.len(), 15);
    assert_eq!(line[13], Segment { text: b"alpha".to_vec(), color: None });
    assert_eq!(line[14], Segment { text: b"\n".to_vec(), color: None });
}

#[test]
fn line_of_a_directory() {
    let line = render(&entry("sub", FileKind::Directory, 0o755, 4096, 7200), NOW);
    assert_eq!(plain_text(&line), "drwxr-xr-x  2h 4.0K sub/\n");
    assert_eq!(line.len(), 16);
    assert_eq!(
        line[0],
        Segment { text: b"d".to_vec(), color: Some(Color { hue: Hue::Blue, bold: false }) }
    );
    assert_eq!(
        line[13],
        Segment { text: b"sub".to_vec(), color: Some(Color { hue: Hue::Blue, bold: false }) }
    );
    assert_eq!(line[14], Segment { text: b"/".to_vec(), color: None });
}

#[test]
fn line_of_a_symbolic_link() {
    let line = render(&entry("link", FileKind::Symlink, 0o777, 11, 90000), NOW);
    assert_eq!(plain_text(&line), "lrwxrwxrwx  1d  11B link@\n");
    assert_eq!(
        line[13],
        Segment { text: b"link".to_vec(), color: Some(Color { hue: Hue::Purple, bold: false }) }
    );
}

#[test]
fn line_of_a_program() {
    let line = render(&entry("run", FileKind::RegularFile, 0o755, 0, 0), NOW);
    assert_eq!(plain_text(&line), "-rwxr-xr-x  0s 0.0B run*\n");
    assert_eq!(
        line[13],
        Segment { text: b"run".to_vec(), color: Some(Color { hue: Hue::Green, bold: false }) }
    );
}

#[test]
fn a_directory_is_never_a_program() {
    let line = render(&entry("d", FileKind::Directory, 0o100, 0, 0), NOW);
    assert_eq!(plain_text(&line), "d--x------  0s 0.0B d/\n");
}

#[test]
fn group_execute_alone_makes_no_program() {
    let line = render(&entry("f", FileKind::RegularFile, 0o010, 0, 0), NOW);
    assert_eq!(plain_text(&line), "------x---  0s 0.0B f\n");
}

#[test]
fn fields_keep_their_colours() {
    let line = render(&entry("alpha", FileKind::RegularFile, 0o644, 1500, 30), NOW);
    assert_eq!(
        line[10],
        Segment { text: b" 30s".to_vec(), color: Some(Color { hue: Hue::White, bold: false }) }
    );
    assert_eq!(
        line[11],
        Segment { text: b" 1.5K".to_vec(), color: Some(Color { hue: Hue::Yellow, bold: false }) }
    );
    assert_eq!(line[12], Segment { text: b" ".to_vec(), color: None });
}

#[test]
fn unread_metadata_gets_a_placeholder() {
    let lost = FileEntry { name: b"gone".to_vec(), name_is_text: true, metadata: None };
    assert_eq!(plain_text(&render(&lost, NOW)), "----------  0s 0.0B gone\n");
}

#[test]
fn names_are_shown_byte_for_byte() {
    let odd = FileEntry {
        name: vec![0xff, b'a', 0x80],
        name_is_text: false,
        metadata: Some(Metadata { kind: FileKind::RegularFile, mode: 0, size: 1, mtime: NOW }),
    };
    let bytes = write_line(&render(&odd, NOW), false);
    let mut expected = b"----------  0s 1.0B ".to_vec();
    expected.extend_from_slice(&[0xff, b'a', 0x80, b'\n']);
    assert_eq!(bytes, expected);
}

#[test]
fn printer_methods_of_metadata() {
    let metadata =
        Metadata { kind: FileKind::RegularFile, mode: 0o600, size: 2048, mtime: NOW - 120 };
    assert_eq!(metadata.relative(NOW), (b"  2m".to_vec(), Color { hue: Hue::Red, bold: false }));
    assert_eq!(
        metadata.formatted_size(),
        (b" 2.0K".to_vec(), Color { hue: Hue::Yellow, bold: false })
    );
    let line = metadata.print(&b"notes".to_vec(), NOW);
    assert_eq!(plain_text(&line), "-rw-------  2m 2.0K notes\n");
}

#[test]
fn listing_keeps_the_order_of_its_entries() {
    let entries = vec![
        entry("b", FileKind::RegularFile, 0o644, 1, 1),
        entry("a", FileKind::Directory, 0o755, 2, 2),
    ];
    let lines = render_listing(&entries, NOW);
    assert_eq!(lines.len(), 2);
    assert_eq!(
        String::from_utf8(write_listing(&lines, false)).unwrap(),
        "-rw-r--r--  1s 1.0B b\ndrwxr-xr-x  2s 2.0B a/\n"
    );
}

#[test]
fn empty_listing_has_no_lines() {
    assert_eq!(render_listing(&Vec::new(), NOW).len(), 0);
}

#[test]
fn one_reading_of_the_clock_serves_every_line() {
    let entries = vec![
        entry("x", FileKind::RegularFile, 0o644, 1, 0),
        entry("y", FileKind::RegularFile, 0o644, 1, 5000),
    ];
    let (now, lines) = render_listing_now(&entries);
    assert!(now > NOW);
    assert_eq!(lines, render_listing(&entries, now));
}
