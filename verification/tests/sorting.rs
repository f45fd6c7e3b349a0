use ls::{sort_by_name, File};

fn entry(name: &str, links: u64) -> File {
    File::new(name.to_string(), 0o100644, links, 0, 0).unwrap()
}

fn names(entries: &Vec<File>) -> Vec<String> {
    entries.iter().map(|file| file.name().to_string()).collect()
}

#[test]
fn sorts_by_name() {
    let mut entries = vec![entry("src", 1), entry(".hidden", 1), entry("README.md", 1)];
    sort_by_name(&mut entries);
    assert_eq!(names(&entries), vec![".hidden", "README.md", "src"]);
}

#[test]
fn sorted_names_never_decrease() {
    let given = ["m", "b", "z", "a", "Z", "10", "9", "\u{e9}", "ab", "~", "B", "."];
    let mut entries: Vec<File> = given.iter().map(|name| entry(name, 1)).collect();
    sort_by_name(&mut entries);
    let sorted = names(&entries);
    for at in 1..sorted.len() {
        assert!(sorted[at - 1].as_bytes() <= sorted[at].as_bytes());
    }
    let mut expected: Vec<String> = given.iter().map(|name| name.to_string()).collect();
    expected.sort();
    assert_eq!(sorted, expected);
}

#[test]
fn sorting_twice_changes_nothing() {
    let mut entries = vec![entry("c", 1), entry("a", 2), entry("b", 3)];
    sort_by_name(&mut entries);
    let once = names(&entries);
    sort_by_name(&mut entries);
    assert_eq!(names(&entries), once);
    assert_eq!(once, vec!["a", "b", "c"]);
}

#[test]
fn entries_of_one_name_keep_their_order() {
    let mut entries = vec![entry("b", 1), entry("a", 2), entry("b", 3), entry("a", 4)];
    sort_by_name(&mut entries);
    let links: Vec<u64> = entries.iter().map(|file| file.links()).collect();
    assert_eq!(names(&entries), vec!["a", "a", "b", "b"]);
    assert_eq!(links, vec![2, 4, 1, 3]);
}

#[test]
fn sorts_nothing_and_one() {
    let mut none: Vec<File> = Vec::new();
    sort_by_name(&mut none);
    assert!(none.is_empty());
    let mut one = vec![entry("only", 1)];
    sort_by_name(&mut one);
    assert_eq!(names(&one), vec!["only"]);
}

#[test]
fn sorts_what_stands_in_reverse() {
    let mut entries: Vec<File> = (0..50u64).rev().map(|n| entry(&format!("f{:02}", n), n)).collect();
    sort_by_name(&mut entries);
    for (at, file) in entries.iter().enumerate() {
        assert_eq!(file.links(), at as u64);
    }
}
