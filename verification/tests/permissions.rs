use dirlist::color::{Color, Hue, Segment};
use dirlist::entry::FileKind;
use dirlist::permissions::{decode, is_owner_executable};

fn glyph(character: u8, hue: Hue, bold: bool) -> Segment {
    Segment { text: vec![character], color: Some(Color { hue, bold }) }
}

fn dash() -> Segment {
    glyph(b'-', Hue::Black, true)
}

fn read() -> Segment {
    glyph(b'r', Hue::Red, false)
}

fn write() -> Segment {
    glyph(b'w', Hue::Yellow, false)
}

fn execute() -> Segment {
    glyph(b'x', Hue::White, false)
}

fn letters(line: &[Segment]) -> String {
    let mut out = Vec::new();
    for segment in line {
        out.extend_from_slice(&segment.text);
    }
    String::from_utf8(out).unwrap()
}

#[test]
fn regular_file_with_mode_755() {
    let line = decode(0o755, FileKind::RegularFile);
    let expected = vec![
        dash(),
        read(),
        write(),
        execute(),
        read(),
        dash(),
        execute(),
        read(),
        dash(),
        execute(),
    ];
    assert_eq!(line, expected);
}

#[test]
fn kinds_have_their_glyphs() {
    assert_eq!(decode(0, FileKind::Directory)[0], glyph(b'd', Hue::Blue, false));
    assert_eq!(decode(0, FileKind::Symlink)[0], glyph(b'l', Hue::Green, false));
    assert_eq!(decode(0, FileKind::RegularFile)[0], dash());
}

#[test]
fn no_permissions_are_all_dashes() {
    let line = decode(0, FileKind::RegularFile);
    assert_eq!(line.len(), 10);
    for segment in &line {
        assert_eq!(*segment, dash());
    }
}

#[test]
fn all_permissions_are_all_letters() {
    assert_eq!(letters(&decode(0o777, FileKind::Directory)), "drwxrwxrwx");
}

#[test]
fn each_bit_has_its_place() {
    assert_eq!(letters(&decode(0o400, FileKind::RegularFile)), "-r--------");
    assert_eq!(letters(&decode(0o200, FileKind::RegularFile)), "--w-------");
    assert_eq!(letters(&decode(0o100, FileKind::RegularFile)), "---x------");
    assert_eq!(letters(&decode(0o040, FileKind::RegularFile)), "----r-----");
    assert_eq!(letters(&decode(0o020, FileKind::RegularFile)), "-----w----");
    assert_eq!(letters(&decode(0o010, FileKind::RegularFile)), "------x---");
    assert_eq!(letters(&decode(0o004, FileKind::RegularFile)), "-------r--");
    assert_eq!(letters(&decode(0o002, FileKind::RegularFile)), "--------w-");
    assert_eq!(letters(&decode(0o001, FileKind::RegularFile)), "---------x");
}

#[test]
fn bits_above_the_permissions_are_ignored() {
    assert_eq!(letters(&decode(0o100644, FileKind::RegularFile)), "-rw-r--r--");
    assert_eq!(letters(&decode(0o40755, FileKind::Directory)), "drwxr-xr-x");
    assert_eq!(letters(&decode(u32::MAX, FileKind::Symlink)), "lrwxrwxrwx");
}

#[test]
fn owner_execute_bit() {
    assert!(is_owner_executable(0o100));
    assert!(is_owner_executable(0o755));
    assert!(!is_owner_executable(0o644));
    assert!(!is_owner_executable(0o011));
}
