use moly::version::{Pull, Version, Versioned};

#[test]
fn test_version_bump() {
    let mut v = Version::new();
    let initial = v;
    v.bump();
    assert_ne!(v, initial);
}

#[test]
fn test_version_wrap() {
    let mut v = Version::from_value(u64::MAX);
    v.bump();
    assert_eq!(v.value(), 1);
}

#[test]
fn test_pull_version() {
    let mut versioned = Versioned::new(10);
    let mut tracker = Version::new();

    assert_eq!(tracker.pull(&versioned), None);

    versioned.set(20);
    assert_eq!(tracker.pull(&versioned), Some(&20));
    assert_eq!(tracker.pull(&versioned), None);
}

#[test]
fn test_pull_option_version() {
    let mut versioned = Versioned::new(10);
    let mut tracker: Option<Version> = None;

    assert_eq!(tracker.pull(&versioned), Some(&10));
    assert_eq!(tracker, Some(versioned.version()));

    assert_eq!(tracker.pull(&versioned), None);

    versioned.set(20);
    assert_eq!(tracker.pull(&versioned), Some(&20));
}

#[test]
fn test_clone_keeps_version() {
    let mut v1 = Versioned::new(10);
    v1.set(20);

    assert_ne!(v1.version(), Version::new());

    let v2 = v1.clone();
    assert_eq!(v2.data(), &20);
    assert_eq!(v2.version(), v1.version());
}

#[test]
fn test_update_bumps_version() {
    let mut versioned = Versioned::new(3);
    let before = versioned.version();
    versioned.update(|d| d + 4);
    assert_eq!(versioned.data(), &7);
    assert_ne!(versioned.version(), before);
}
