use pacup::errors::{PackageLineParseError, PackageListError};
use pacup::paclist::{PackageLine, PackageLineKind, PackageListReader};

#[test]
fn parse_standard_line() {
    let line = PackageLine::parse("+xorg").unwrap().unwrap();
    assert_eq!(line.name(), "xorg");
    assert_eq!(line.kind(), PackageLineKind::Package);
}

#[test]
fn parse_alternate_line_with_comment() {
    let line = PackageLine::parse("*zsh  # comment").unwrap().unwrap();
    assert_eq!(line.name(), "zsh");
    assert_eq!(line.kind(), PackageLineKind::Aur);
}

#[test]
fn parse_unknown_kind_marker() {
    let err = PackageLine::parse("xorg").unwrap_err();
    assert_eq!(err, PackageLineParseError::UnknownPackageType('x'));
}

#[test]
fn parse_missing_name() {
    let err = PackageLine::parse("+ ").unwrap_err();
    assert_eq!(err, PackageLineParseError::ExpectedPackageName);
}

#[test]
fn parse_trailing_content() {
    let err = PackageLine::parse("+xorg extra").unwrap_err();
    assert_eq!(err, PackageLineParseError::UnexpectedString('e'));
}

#[test]
fn parse_lines_without_records() {
    assert!(PackageLine::parse("").unwrap().is_none());
    assert!(PackageLine::parse("\n").unwrap().is_none());
    assert!(PackageLine::parse("   \t ").unwrap().is_none());
    assert!(PackageLine::parse("# a comment\n").unwrap().is_none());
    assert!(PackageLine::parse("   # indented comment").unwrap().is_none());
}

#[test]
fn parse_terminators_and_spacing() {
    let line = PackageLine::parse("+\t grub \r\n").unwrap().unwrap();
    assert_eq!(line.name(), "grub");
    assert_eq!(line.kind(), PackageLineKind::Package);

    // A single-character name at the very end of the line.
    let line = PackageLine::parse("*z").unwrap().unwrap();
    assert_eq!(line.name(), "z");
    assert_eq!(line.kind(), PackageLineKind::Aur);
}

#[test]
fn reader_reports_one_based_line_numbers() {
    let mut reader = PackageListReader::new("# header\n+xorg\nbad line\n");

    let line = reader.next_line().unwrap().unwrap();
    assert_eq!(line.name(), "xorg");

    let err = reader.next_line().unwrap().unwrap_err();
    assert_eq!(
        err,
        PackageListError::LineParseError(3, PackageLineParseError::UnknownPackageType('b'))
    );
}

#[test]
fn reader_yields_nothing_for_blank_and_comment_manifest() {
    let mut reader = PackageListReader::new("\n  \n# one\n\t\n# two\n\n");
    assert!(reader.next_line().is_none());
    assert!(reader.next_line().is_none());
}
