use devtoolinstaller::manifest::{Entry, Manifest};
use devtoolinstaller::version::Version;

fn entry(name: &str, version: Version) -> Entry {
    Entry::new(String::from(name), version)
}

#[test]
fn test_upsert_is_idempotent() {
    let mut m = Manifest::default();
    m.upsert(entry("gopls", Version::Sem(1, 2, 3)));
    m.upsert(entry("gopls", Version::Sem(1, 2, 3)));
    assert_eq!(m.installed_count(), 1);
    let mut matching = 0;
    for e in &m.packages {
        if e.name == "gopls" {
            matching += 1;
        }
    }
    assert_eq!(matching, 1);
}

#[test]
fn test_upsert_replaces_in_place() {
    let mut m = Manifest::default();
    m.upsert(entry("a", Version::Sem(1, 0, 0)));
    m.upsert(entry("b", Version::Sem(2, 0, 0)));
    m.upsert(entry("a", Version::Sem(9, 9, 9)));
    assert_eq!(m.installed_count(), 2);
    assert_eq!(m.packages[0].name, "a");
    assert!(m.packages[0].version.same(&Version::Sem(9, 9, 9)));
    assert_eq!(m.packages[1].name, "b");
}

#[test]
fn test_remove_then_installed_is_false() {
    let mut m = Manifest::default();
    m.upsert(entry("a", Version::Sem(1, 0, 0)));
    m.upsert(entry("b", Version::Sem(2, 0, 0)));
    m.remove("a");
    assert!(!m.installed("a"));
    assert!(m.installed("b"));
    assert_eq!(m.installed_count(), 1);
}

#[test]
fn test_upsert_after_remove_appends_at_end() {
    let mut m = Manifest::default();
    m.upsert(entry("a", Version::Sem(1, 0, 0)));
    m.upsert(entry("b", Version::Sem(2, 0, 0)));
    m.remove("a");
    m.upsert(entry("a", Version::Sem(3, 0, 0)));
    assert_eq!(m.installed_count(), 2);
    assert_eq!(m.packages[0].name, "b");
    assert_eq!(m.packages[1].name, "a");
    assert!(m.packages[1].version.same(&Version::Sem(3, 0, 0)));
}

#[test]
fn test_remove_of_absent_name_changes_nothing() {
    let mut m = Manifest::default();
    m.upsert(entry("a", Version::Sem(1, 0, 0)));
    m.remove("zzz");
    assert_eq!(m.installed_count(), 1);
    assert!(m.installed("a"));
}

#[test]
fn test_get_on_empty_manifest() {
    let m = Manifest::default();
    assert!(m.get("anything").is_none());
    assert_eq!(m.installed_count(), 0);
    assert!(!m.installed("anything"));
}

#[test]
fn test_get_finds_first_entry() {
    let mut m = Manifest::default();
    m.upsert(entry("a", Version::Date(2023, 1, 22)));
    let e = m.get("a").expect("entry");
    assert_eq!(e.name, "a");
    assert!(e.version.same(&Version::Date(2023, 1, 22)));
}
