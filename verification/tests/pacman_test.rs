use pacup::paclist::{PackageLineKind, PackageListReader};
use pacup::pacman::{InstalledSet, Pacman};

#[test]
fn installed_set_from_raw_bytes() {
    let set = InstalledSet::from_raw("xorg\nzsh\n");
    assert!(set.contains("xorg"));
    assert!(set.contains("zsh"));
    assert!(!set.contains(""));
    assert!(!set.contains("grub"));
}

#[test]
fn installed_set_tolerates_carriage_returns_and_blank_lines() {
    let set = InstalledSet::from_raw("xorg\r\n\nzsh\r\n");
    assert!(set.contains("xorg"));
    assert!(set.contains("zsh"));
    assert!(!set.contains(""));
}

#[test]
fn reconciliation_filters_installed_and_tracks_kind() {
    let installed = InstalledSet::from_raw("xorg\n");
    let pacman = Pacman::new();
    let mut transaction = pacman.begin_transaction();
    let mut reader = PackageListReader::new("+xorg\n*zsh\n+grub\n");

    while let Some(line) = reader.next_line_not_in_set(&installed) {
        let line = line.unwrap();
        transaction.add_package(line.name().to_string());
        if line.kind() == PackageLineKind::Aur {
            transaction.make_aur_transaction();
        }
    }

    let names: Vec<&str> = transaction.iter_packages().iter().map(|s| s.as_str()).collect();
    assert_eq!(names, vec!["zsh", "grub"]);
    assert!(transaction.should_use_aur());
    assert_eq!(transaction.missing_package_count(), 2);
    assert!(!transaction.is_empty());
}

#[test]
fn fresh_transaction_is_empty_and_must_be_checked_before_rendering() {
    let pacman = Pacman::new();
    let transaction = pacman.begin_transaction();
    // Rendering an empty transaction is a caller error; `is_empty` is
    // the check every caller owes before `render_invocation`.
    assert!(transaction.is_empty());
    assert_eq!(transaction.missing_package_count(), 0);
}

#[test]
fn render_prefixes_elevation_for_standard_source() {
    let pacman = Pacman::new();
    let mut transaction = pacman.begin_transaction();
    transaction.add_package("xorg".to_string());

    let invocation = transaction.render_invocation();
    assert_eq!(invocation, vec!["/usr/bin/sudo", "/usr/bin/pacman", "-Sy", "xorg"]);
    assert!(transaction.should_sudo());
}

#[test]
fn render_never_prefixes_elevation_for_alternate_source() {
    // Not elevated: the alternate-source helper manages its own elevation.
    let pacman = Pacman::new();
    let mut transaction = pacman.begin_transaction();
    transaction.add_package("zsh".to_string());
    transaction.make_aur_transaction();
    let invocation = transaction.render_invocation();
    assert_eq!(invocation, vec!["/usr/bin/trizen", "-Sy", "zsh"]);

    // Already elevated: still no elevation prefix.
    let mut pacman = Pacman::new();
    pacman.set_user_status(true);
    let mut transaction = pacman.begin_transaction();
    transaction.add_package("zsh".to_string());
    transaction.make_aur_transaction();
    let invocation = transaction.render_invocation();
    assert_eq!(invocation, vec!["/usr/bin/trizen", "-Sy", "zsh"]);
}

#[test]
fn render_skips_elevation_when_already_elevated() {
    let mut pacman = Pacman::new();
    pacman.set_user_status(true);
    let mut transaction = pacman.begin_transaction();
    transaction.add_package("xorg".to_string());

    let invocation = transaction.render_invocation();
    assert_eq!(invocation, vec!["/usr/bin/pacman", "-Sy", "xorg"]);
    assert!(!transaction.should_sudo());
}

#[test]
fn describe_renders_the_full_command_line() {
    let pacman = Pacman::new();
    let mut transaction = pacman.begin_transaction();
    transaction.add_package("xorg".to_string());
    transaction.add_package("grub".to_string());

    assert_eq!(
        transaction.describe(),
        "/usr/bin/sudo /usr/bin/pacman -Sy xorg grub "
    );
}

#[test]
fn transaction_keeps_duplicates_and_order() {
    let pacman = Pacman::new();
    let mut transaction = pacman.begin_transaction();
    transaction.add_package("b".to_string());
    transaction.add_package("a".to_string());
    transaction.add_package("b".to_string());

    let names: Vec<&str> = transaction.iter_packages().iter().map(|s| s.as_str()).collect();
    assert_eq!(names, vec!["b", "a", "b"]);
    assert_eq!(transaction.missing_package_count(), 3);
}
