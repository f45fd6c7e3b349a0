use ls::{hidden_name, names_in_order, valid_name, File, ListError};

#[test]
fn valid_names_are_not_empty_and_hold_no_separator() {
    assert!(valid_name("README.md"));
    assert!(valid_name(".hidden"));
    assert!(valid_name("."));
    assert!(valid_name("na\u{ef}ve \u{1f600}"));
    assert!(!valid_name(""));
    assert!(!valid_name("/"));
    assert!(!valid_name("a/b"));
    assert!(!valid_name("src/"));
}

#[test]
fn hidden_names_start_with_a_dot() {
    assert!(hidden_name(".git"));
    assert!(hidden_name("."));
    assert!(hidden_name(".."));
    assert!(!hidden_name("a.txt"));
    assert!(!hidden_name("a."));
    assert!(!hidden_name(""));
}

#[test]
fn names_compare_byte_by_byte() {
    assert!(names_in_order("a", "b"));
    assert!(!names_in_order("b", "a"));
    assert!(names_in_order("a", "a"));
    assert!(names_in_order("", "a"));
    assert!(!names_in_order("a", ""));
    assert!(names_in_order("a", "ab"));
    assert!(!names_in_order("ab", "a"));
    assert!(names_in_order("B", "a"));
    assert!(!names_in_order("a", "B"));
    assert!(names_in_order(".hidden", "README.md"));
    assert!(names_in_order("README.md", "src"));
    assert!(names_in_order("z", "\u{e9}"));
    assert!(!names_in_order("\u{e9}", "z"));
    assert!(names_in_order("\u{ffff}", "\u{10000}"));
}

#[test]
fn name_order_agrees_with_the_order_of_strings() {
    let names = ["", "a", "A", "ab", "b", ".", "..", "~", "\u{e9}", "\u{4e2d}", "\u{1f600}", "a\u{0}"];
    for a in names.iter() {
        for b in names.iter() {
            assert_eq!(names_in_order(a, b), a <= b);
        }
    }
}

#[test]
fn entry_is_made_of_name_and_metadata() {
    let file = File::new("notes.txt".to_string(), 0o100640, 3, 1000, 50).unwrap();
    assert_eq!(file.name(), "notes.txt");
    assert!(!file.is_dir());
    assert!(!file.is_hide());
    assert_eq!(file.links(), 3);
    assert_eq!(file.user(), 1000);
    assert_eq!(file.group(), 50);
    assert_eq!(file.permissions().to_symbols(), "rw-r-----");
}

#[test]
fn entry_with_a_bad_name_is_refused() {
    assert_eq!(File::new(String::new(), 0o644, 1, 0, 0).err(), Some(ListError::InvalidName));
    assert_eq!(File::new("a/b".to_string(), 0o644, 1, 0, 0).err(), Some(ListError::InvalidName));
    assert!(File::new(".git".to_string(), 0o040755, 1, 0, 0).unwrap().is_hide());
}

#[test]
fn entries_compare_by_name_alone() {
    let a = File::new("a".to_string(), 0o100644, 1, 0, 0).unwrap();
    let other_a = File::new("a".to_string(), 0o040755, 9, 5, 6).unwrap();
    let b = File::new("b".to_string(), 0o100644, 1, 0, 0).unwrap();
    assert!(a == other_a);
    assert!(a != b);
    assert!(a < b);
    assert!(b > a);
    assert!(a <= other_a && a >= other_a);
    assert_eq!(a.partial_cmp(&b), Some(std::cmp::Ordering::Less));
    assert_eq!(b.partial_cmp(&a), Some(std::cmp::Ordering::Greater));
    assert_eq!(a.partial_cmp(&other_a), Some(std::cmp::Ordering::Equal));
}
