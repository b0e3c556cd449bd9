use mae::sanitize::sanitize_filename;

#[test]
fn test_sanitize() {
    assert_eq!("foo_", sanitize_filename(&String::from("foo:")));
    assert_eq!("f_oo_", sanitize_filename(&String::from("f/oo:")));
    assert_eq!(
        "no_spaces_allowed",
        sanitize_filename(&String::from("no spaces allowed"))
    );
    assert_eq!(
        "a".repeat(255 - 4) + ".pdf",
        sanitize_filename(&("a".repeat(300) + ".pdf"))
    );
}

#[test]
fn test_sanitize_keeps_dots_and_safe_characters() {
    assert_eq!("a.b.c", sanitize_filename(&String::from("a.b.c")));
    assert_eq!("plain", sanitize_filename(&String::from("plain")));
    assert_eq!("", sanitize_filename(&String::from("")));
}

#[test]
fn test_sanitize_replaces_every_prohibited_character() {
    assert_eq!(
        "a_b_c_d_e_f_g_h_i_j_k_l",
        sanitize_filename(&String::from("a/b\\c?d%e*f:g|h\"i<j>k l"))
    );
}

#[test]
fn test_sanitize_never_truncates_within_the_cap() {
    // A name of at most 255 characters is kept whole, even when it is
    // longer than the cap minus its extension.
    let input = "a".repeat(249) + ".pdf";
    assert_eq!(input, sanitize_filename(&input));
    let exactly = "a".repeat(251) + ".pdf";
    assert_eq!(exactly, sanitize_filename(&exactly));
    let over = "a".repeat(252) + ".pdf";
    assert_eq!("a".repeat(251) + ".pdf", sanitize_filename(&over));
}

#[test]
fn test_sanitize_truncates_without_extension() {
    let long = "x".repeat(300);
    assert_eq!("x".repeat(255), sanitize_filename(&long));
}

#[test]
fn test_sanitize_short_extension_is_sanitized() {
    // Without truncation the extension runs through the character map
    // like everything else.
    assert_eq!("a.p_df", sanitize_filename(&String::from("a.p df")));
}

#[test]
fn test_sanitize_truncated_extension_is_verbatim() {
    // Under truncation the reserved extension is appended untouched,
    // prohibited characters included.
    let input = "b".repeat(300) + ".p df";
    let expected = "b".repeat(250) + ".p df";
    assert_eq!(expected, sanitize_filename(&input));
    assert_eq!(255, sanitize_filename(&input).chars().count());
}

#[test]
fn test_sanitize_leading_dot_is_no_extension() {
    // A name whose final segment starts with its only dot has no
    // recognizable extension.
    assert_eq!(".pdf", sanitize_filename(&String::from(".pdf")));
    let hidden = String::from(".") + &"h".repeat(300);
    assert_eq!(
        String::from(".") + &"h".repeat(254),
        sanitize_filename(&hidden)
    );
}

#[test]
fn test_sanitize_extension_from_final_path_segment() {
    // The extension comes from the last path segment only.
    let input = "dir.ext/".to_string() + &"c".repeat(300);
    assert_eq!(
        String::from("dir.ext_") + &"c".repeat(255 - 8),
        sanitize_filename(&input)
    );
}
