use ls::{format_name, list, File};

fn coloured() {
    colored::control::set_override(true);
}

#[test]
fn directory_label_is_highlighted() {
    coloured();
    assert_eq!(format_name(true, "src"), "\u{1b}[96msrc\u{1b}[0m");
}

#[test]
fn file_label_is_never_highlighted() {
    coloured();
    assert_eq!(format_name(false, "README.md"), "README.md");
}

#[test]
fn short_listing_highlights_directories() {
    coloured();
    let entries = vec![
        File::new("README.md".to_string(), 0o100644, 1, 0, 0).unwrap(),
        File::new("src".to_string(), 0o040755, 2, 0, 0).unwrap(),
        File::new(".hidden".to_string(), 0o100600, 1, 0, 0).unwrap(),
    ];
    assert_eq!(list(entries, false, false), Ok("README.md \u{1b}[96msrc\u{1b}[0m ".to_string()));
}
