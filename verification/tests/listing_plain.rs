use ls::{
    collect, decimal_text, format_name, list, long_line, render, short_item, visible, File,
    ListError,
};

fn plain() {
    colored::control::set_override(false);
}

fn entry(name: &str, mode: u32, links: u64) -> File {
    File::new(name.to_string(), mode, links, 0, 0).unwrap()
}

fn scenario() -> Vec<File> {
    vec![
        entry("README.md", 0o100644, 1),
        entry("src", 0o040755, 2),
        entry(".hidden", 0o100600, 1),
    ]
}

fn names(entries: &Vec<File>) -> Vec<String> {
    entries.iter().map(|file| file.name().to_string()).collect()
}

fn some(text: &str) -> Option<String> {
    Some(text.to_string())
}

#[test]
fn hidden_entries_are_skipped_unless_all_are_asked_for() {
    let given = || vec![entry(".git", 0o040755, 1), entry("a.txt", 0o644, 1), entry("b.txt", 0o644, 1)];
    assert_eq!(names(&visible(given(), false)), vec!["a.txt", "b.txt"]);
    assert_eq!(names(&visible(given(), true)), vec![".git", "a.txt", "b.txt"]);
}

#[test]
fn emitted_names_are_sound() {
    for file in visible(scenario(), true).iter() {
        assert!(!file.name().is_empty());
        assert!(!file.name().contains('/'));
    }
}

#[test]
fn short_listing_of_the_scenario() {
    plain();
    assert_eq!(list(scenario(), false, false), Ok("README.md src ".to_string()));
    assert_eq!(list(scenario(), true, false), Ok(".hidden README.md src ".to_string()));
}

#[test]
fn short_listing_of_nothing_is_empty() {
    plain();
    assert_eq!(list(Vec::new(), false, false), Ok(String::new()));
    assert_eq!(list(Vec::new(), true, true), Ok(String::new()));
    assert_eq!(list(vec![entry(".a", 0o644, 1)], false, true), Ok(String::new()));
}

#[test]
fn long_lines_of_the_scenario() {
    plain();
    let mut entries = scenario();
    ls::sort_by_name(&mut entries);
    let shown = visible(entries, true);
    let lines: Vec<String> = shown
        .iter()
        .map(|file| {
            let label = format_name(file.is_dir(), file.name());
            long_line(file, some("alice"), some("staff"), &label).unwrap()
        })
        .collect();
    assert_eq!(
        lines,
        vec![
            "-rw------- 1 alice staff .hidden\n",
            "-rw-r--r-- 1 alice staff README.md\n",
            "drwxr-xr-x 2 alice staff src\n",
        ]
    );
}

#[test]
fn long_line_fails_without_owner_or_group() {
    let file = File::new("f".to_string(), 0o644, 1, 7, 9).unwrap();
    assert_eq!(long_line(&file, None, some("staff"), "f"), Err(ListError::UnknownUser(7)));
    assert_eq!(long_line(&file, None, None, "f"), Err(ListError::UnknownUser(7)));
    assert_eq!(long_line(&file, some("alice"), None, "f"), Err(ListError::UnknownGroup(9)));
    assert_eq!(
        long_line(&file, some("alice"), some("staff"), "f"),
        Ok("-rw-r--r-- 1 alice staff f\n".to_string())
    );
}

#[test]
fn long_line_takes_the_label_as_it_is() {
    let file = File::new("src".to_string(), 0o040750, 12, 0, 0).unwrap();
    assert_eq!(
        long_line(&file, some("root"), some("wheel"), "<src>"),
        Ok("drwxr-x--- 12 root wheel <src>\n".to_string())
    );
}

#[test]
fn short_item_is_label_and_space() {
    assert_eq!(short_item("src"), "src ");
    assert_eq!(short_item(""), " ");
}

#[test]
fn plain_labels_are_the_names() {
    plain();
    assert_eq!(format_name(false, "README.md"), "README.md");
    assert_eq!(format_name(true, "src"), "src");
}

#[test]
fn render_keeps_the_given_order() {
    plain();
    let entries = vec![entry("b", 0o644, 1), entry("a", 0o040755, 1)];
    assert_eq!(render(&entries, false), Ok("b a ".to_string()));
}

#[test]
fn long_listing_names_owner_and_group() {
    plain();
    let owner = users::get_user_by_uid(0).and_then(|u| u.name().to_str().map(String::from));
    let group = users::get_group_by_gid(0).and_then(|g| g.name().to_str().map(String::from));
    let listed = list(scenario(), true, true);
    match (owner, group) {
        (Some(owner), Some(group)) => {
            let expected = format!(
                "-rw------- 1 {o} {g} .hidden\n-rw-r--r-- 1 {o} {g} README.md\ndrwxr-xr-x 2 {o} {g} src\n",
                o = owner,
                g = group
            );
            assert_eq!(listed, Ok(expected));
        }
        (None, _) => assert_eq!(listed, Err(ListError::UnknownUser(0))),
        (Some(_), None) => assert_eq!(listed, Err(ListError::UnknownGroup(0))),
    }
}

#[test]
fn long_listing_fails_on_an_owner_without_a_name() {
    plain();
    let uid = 4_000_000_123;
    let stranger = File::new("x".to_string(), 0o644, 1, uid, 0).unwrap();
    let hidden = File::new(".x".to_string(), 0o644, 1, uid, 0).unwrap();
    if users::get_user_by_uid(uid).is_none() {
        assert_eq!(list(vec![stranger], false, true), Err(ListError::UnknownUser(uid)));
        assert_eq!(list(vec![hidden], false, true), Ok(String::new()));
    }
}

#[test]
fn long_listing_fails_on_a_group_without_a_name() {
    plain();
    let gid = 4_000_000_123;
    let stranger = File::new("x".to_string(), 0o644, 1, 0, gid).unwrap();
    if users::get_user_by_uid(0).is_some() && users::get_group_by_gid(gid).is_none() {
        assert_eq!(list(vec![stranger], false, true), Err(ListError::UnknownGroup(gid)));
    }
}

#[test]
fn collecting_gives_all_entries_in_order() {
    let fetched = vec![Ok(entry("b", 0o644, 1)), Ok(entry("a", 0o644, 1))];
    let collected = collect(fetched).ok().unwrap();
    assert_eq!(names(&collected), vec!["b", "a"]);
    assert!(collect(Vec::new()).ok().unwrap().is_empty());
}

#[test]
fn one_unreadable_entry_fails_the_whole() {
    let fetched = vec![
        Ok(entry("a", 0o644, 1)),
        Err(ListError::MetadataUnavailable),
        Ok(entry("b", 0o644, 1)),
        Err(ListError::InvalidName),
    ];
    assert_eq!(collect(fetched).err(), Some(ListError::MetadataUnavailable));
}

#[test]
fn decimal_of_numbers() {
    assert_eq!(decimal_text(0), "0");
    assert_eq!(decimal_text(7), "7");
    assert_eq!(decimal_text(10), "10");
    assert_eq!(decimal_text(1234567890), "1234567890");
    assert_eq!(decimal_text(u64::MAX), "18446744073709551615");
}
