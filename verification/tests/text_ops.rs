use blaze::text::{characters, contains, ends_with, holds_char, same_text, strip_decoration};

#[test]
fn strip_decoration_takes_off_a_caret() {
    assert_eq!(strip_decoration("^1.2.3"), "1.2.3");
}

#[test]
fn strip_decoration_takes_off_a_tilde() {
    assert_eq!(strip_decoration("~0.4.0"), "0.4.0");
}

#[test]
fn strip_decoration_takes_off_a_run_of_marks() {
    assert_eq!(strip_decoration("~^^1.0.0"), "1.0.0");
    assert_eq!(strip_decoration("^~"), "");
}

#[test]
fn strip_decoration_leaves_inner_marks() {
    assert_eq!(strip_decoration("1.^2.3"), "1.^2.3");
    assert_eq!(strip_decoration("^1.2.3~"), "1.2.3~");
}

#[test]
fn strip_decoration_leaves_a_bare_text() {
    assert_eq!(strip_decoration("1.2.3"), "1.2.3");
    assert_eq!(strip_decoration(""), "");
    assert_eq!(strip_decoration("*"), "*");
}

#[test]
fn same_text_compares_characters() {
    assert!(same_text("left-pad", "left-pad"));
    assert!(!same_text("left-pad", "left-pa"));
    assert!(same_text("", ""));
}

#[test]
fn characters_splits_by_character() {
    assert_eq!(characters("a-é"), vec!['a', '-', 'é']);
    assert_eq!(characters(""), Vec::<char>::new());
}

#[test]
fn holds_char_finds_a_character() {
    assert!(holds_char("1.*", '*'));
    assert!(!holds_char("1.2.3", '*'));
    assert!(!holds_char("", '*'));
}

#[test]
fn ends_with_looks_at_the_tail() {
    assert!(ends_with("left-pad-1.3.0.tgz", ".tgz"));
    assert!(!ends_with("left-pad-1.3.0.tgz.part", ".tgz"));
    assert!(!ends_with("tgz", ".tgz"));
    assert!(ends_with("anything", ""));
}

#[test]
fn contains_finds_a_run_of_characters() {
    assert!(contains("left-pad-1.3.0.tgz", "left-pad"));
    assert!(contains("left-pad-1.3.0.tgz", "pad-1"));
    assert!(contains("left-pad-1.3.0.tgz", ".tgz"));
    assert!(!contains("left-pad-1.3.0.tgz", "right"));
    assert!(contains("abc", ""));
    assert!(!contains("ab", "abc"));
    assert!(contains("aab", "ab"));
}
