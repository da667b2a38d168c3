use pacup::paclist::{PackageLineKind, PackageListReader};

#[test]
fn test_read_empty_file() {
    let mut reader = PackageListReader::new("");

    let result = reader.next_line();

    assert!(result.is_none());
}

#[test]
fn test_read_empty_file_with_comment() {
    let mut reader = PackageListReader::new("# no packages here\n");

    let result = reader.next_line();

    assert!(result.is_none());
}

fn read_single_entry(content: &str) {
    let mut reader = PackageListReader::new(content);

    let result = reader.next_line();
    let line = result.unwrap().unwrap();

    assert_eq!(line.name(), "xorg");
    assert_eq!(line.kind(), PackageLineKind::Package)
}

#[test]
fn test_read_single_entry() {
    read_single_entry("+xorg\n");
}

#[test]
fn test_read_single_entry_with_comment() {
    read_single_entry("+xorg # the display server\n");
}

#[test]
fn test_read_single_entry_with_empty_lines() {
    read_single_entry("\n\n+xorg\n\n");
}

fn read_multiple_entries(content: &str) {
    let mut reader = PackageListReader::new(content);

    let line = reader.next_line().unwrap().unwrap();
    assert_eq!(line.name(), "xorg");
    assert_eq!(line.kind(), PackageLineKind::Package);

    let line = reader.next_line().unwrap().unwrap();
    assert_eq!(line.name(), "zsh");
    assert_eq!(line.kind(), PackageLineKind::Aur);

    let line = reader.next_line().unwrap().unwrap();
    assert_eq!(line.name(), "grub");
    assert_eq!(line.kind(), PackageLineKind::Package);
}

#[test]
fn test_read_multiple_entries() {
    read_multiple_entries("+xorg\n*zsh\n+grub\n");
}

#[test]
fn test_read_multiple_entries_with_comments() {
    read_multiple_entries("# desktop\n+xorg\n*zsh # shell\n+grub # bootloader\n");
}

#[test]
fn test_read_multiple_entries_with_empty_lines() {
    read_multiple_entries("\n+xorg\n\n*zsh\n\n\n+grub\n\n");
}
