use vectorize::registry::{generate_file_id, now_unix_seconds, Registry};

fn sid(s: &str) -> String {
    s.to_string()
}

#[test]
fn register_then_lookup_returns_the_record() {
    let mut reg = Registry::new();
    reg.store_file_metadata(
        &sid("id-1"),
        &sid("photo.png"),
        &sid("uploads/id-1.png"),
        &sid("output/id-1.svg"),
        1000,
    );
    let m = reg.get_file_metadata(&sid("id-1")).expect("registered record is found");
    assert_eq!(m.original_name, "photo.png");
    assert_eq!(m.input_path, "uploads/id-1.png");
    assert_eq!(m.output_path, "output/id-1.svg");
    assert_eq!(m.timestamp, 1000);
}

#[test]
fn unknown_identifier_is_not_found() {
    let mut reg = Registry::new();
    reg.store_file_metadata(&sid("a"), &sid("a.png"), &sid("ua"), &sid("oa"), 1);
    assert!(reg.get_file_metadata(&sid("never-registered")).is_none());
    assert!(reg.remove(&sid("never-registered")).is_none());
}

#[test]
fn reregistration_is_last_write_wins() {
    let mut reg = Registry::new();
    reg.store_file_metadata(&sid("x"), &sid("one.png"), &sid("u1"), &sid("o1"), 10);
    reg.store_file_metadata(&sid("x"), &sid("two.png"), &sid("u2"), &sid("o2"), 20);
    let m = reg.get_file_metadata(&sid("x")).unwrap();
    assert_eq!(m.original_name, "two.png");
    assert_eq!(m.timestamp, 20);
}

#[test]
fn eviction_removes_only_expired_records() {
    let mut reg = Registry::new();
    // retention one hour; now = 5000
    reg.store_file_metadata(&sid("old"), &sid("old.png"), &sid("u-old"), &sid("o-old"), 1000);
    reg.store_file_metadata(&sid("new"), &sid("new.png"), &sid("u-new"), &sid("o-new"), 4000);
    let removed = reg.evict_expired(5000, 3600);
    // age of "old" is 4000 > 3600: expired; age of "new" is 1000: kept
    assert_eq!(removed.len(), 1);
    assert_eq!(removed[0].original_name, "old.png");
    assert_eq!(removed[0].input_path, "u-old");
    assert_eq!(removed[0].output_path, "o-old");
    assert!(reg.get_file_metadata(&sid("old")).is_none());
    assert!(reg.get_file_metadata(&sid("new")).is_some());
}

#[test]
fn eviction_age_is_strict() {
    let mut reg = Registry::new();
    reg.store_file_metadata(&sid("edge"), &sid("e.png"), &sid("u"), &sid("o"), 1400);
    // age exactly equal to the window is not yet expired
    let removed = reg.evict_expired(5000, 3600);
    assert_eq!(removed.len(), 0);
    assert!(reg.get_file_metadata(&sid("edge")).is_some());
    let removed2 = reg.evict_expired(5001, 3600);
    assert_eq!(removed2.len(), 1);
    assert!(reg.get_file_metadata(&sid("edge")).is_none());
}

#[test]
fn generated_identifiers_are_hyphenated_and_fresh() {
    let a = generate_file_id();
    let b = generate_file_id();
    assert_eq!(a.len(), 36);
    assert_eq!(b.len(), 36);
    assert_ne!(a, b);
}

#[test]
fn clock_reads_as_unix_seconds() {
    let t = now_unix_seconds();
    // the sandbox clock is well past 2001
    assert!(t > 1_000_000_000);
}
