use media_index::decimal::Decimal;
use media_index::fileops::{generate_unique_filename, select_files_to_hash,
    select_unlisted_files};

fn s(x: &str) -> String {
    String::from(x)
}

#[test]
fn skip_set_excludes_exactly_the_listed_paths() {
    let entries = vec![
        (s("/d/a.mp4"), true),
        (s("/d/b.mp4"), true),
        (s("/d/sub"), false),
        (s("/d/c.mp4"), true),
    ];
    let skip = vec![s("/d/b.mp4")];
    let r = select_files_to_hash(&entries, &skip);
    assert_eq!(r, vec![s("/d/a.mp4"), s("/d/c.mp4")]);
}

#[test]
fn empty_directory_selects_nothing() {
    let entries: Vec<(String, bool)> = Vec::new();
    let skip = vec![s("/d/b.mp4")];
    let r = select_files_to_hash(&entries, &skip);
    assert!(r.is_empty());
}

#[test]
fn non_regular_entries_are_dropped() {
    let entries = vec![(s("/d/sub"), false), (s("/d/a"), true)];
    let r = select_files_to_hash(&entries, &Vec::new());
    assert_eq!(r, vec![s("/d/a")]);
}

#[test]
fn unlisted_files_are_selected_for_deletion() {
    let entries = vec![s("/d/a"), s("/d/b"), s("/d/c")];
    let keep = vec![s("/d/b")];
    let r = select_unlisted_files(&entries, &keep);
    assert_eq!(r, vec![s("/d/a"), s("/d/c")]);
}

#[test]
fn unique_name_is_the_original_when_free() {
    let existing = vec![s("other.txt")];
    assert_eq!(generate_unique_filename(&existing, &s("a.txt")), "a.txt");
}

#[test]
fn unique_name_takes_first_free_counter() {
    let existing = vec![s("a.txt")];
    assert_eq!(generate_unique_filename(&existing, &s("a.txt")), "1_a.txt");
    let more = vec![s("a.txt"), s("1_a.txt"), s("2_a.txt")];
    assert_eq!(generate_unique_filename(&more, &s("a.txt")), "3_a.txt");
}

#[test]
fn decimal_rendering() {
    assert_eq!(Decimal { mantissa: 25, scale: 1 }.to_text(), "2.5");
    assert_eq!(Decimal { mantissa: 5, scale: 0 }.to_text(), "5");
    assert_eq!(Decimal { mantissa: 5, scale: 3 }.to_text(), "0.005");
    assert_eq!(Decimal { mantissa: 12345, scale: 2 }.to_text(), "123.45");
    assert_eq!(Decimal { mantissa: 0, scale: 0 }.to_text(), "0");
}
