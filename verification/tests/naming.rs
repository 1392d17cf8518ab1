use rfile::upload::sanitize_extension;

#[test]
fn plain_extension_is_kept() {
    assert_eq!(sanitize_extension("photo.png"), "png");
}

#[test]
fn everything_after_the_first_dot_is_the_extension() {
    assert_eq!(sanitize_extension("archive.tar.gz"), "tar.gz");
}

#[test]
fn name_without_dot_yields_fallback_marker() {
    assert_eq!(sanitize_extension("noext"), "badext");
    assert_eq!(sanitize_extension(""), "badext");
    assert_eq!(sanitize_extension("   "), "badext");
}

#[test]
fn surrounding_white_space_is_trimmed() {
    assert_eq!(sanitize_extension("  spaced.txt  "), "txt");
    assert_eq!(sanitize_extension("\u{3000}wide.rs\u{3000}"), "rs");
}

#[test]
fn hidden_file_name_keeps_its_tail() {
    assert_eq!(sanitize_extension(".bashrc"), "bashrc");
}

#[test]
fn traversal_and_separator_characters_are_removed() {
    assert_eq!(sanitize_extension("evil.../../etc:passwd"), "etcpasswd");
}

#[test]
fn leading_dot_of_cleansed_extension_is_stripped() {
    assert_eq!(sanitize_extension("a..b.c"), "b.c");
    assert_eq!(sanitize_extension("x....y"), "y");
}

#[test]
fn overlong_name_yields_nothing() {
    let long = format!("{}.txt", "a".repeat(300));
    assert_eq!(sanitize_extension(&long), "");
    // The cap counts bytes, not characters.
    let wide = format!("{}.txt", "\u{e9}".repeat(130));
    assert_eq!(sanitize_extension(&wide), "");
}

#[test]
fn short_multibyte_name_is_still_split() {
    assert_eq!(sanitize_extension("r\u{e9}sum\u{e9}.pdf"), "pdf");
}
