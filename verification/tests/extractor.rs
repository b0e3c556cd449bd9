use mae::date::Date;
use mae::extractor::{Attachment, ExtractError, Extractor};

fn mime_message(date: &str, subject: Option<&str>, attachments: &[(Option<&str>, &str)]) -> Vec<u8> {
    let mut s = String::new();
    s.push_str("From: sender@example.com\r\n");
    s.push_str("To: receiver@example.com\r\n");
    if let Some(subj) = subject {
        s.push_str(&format!("Subject: {}\r\n", subj));
    }
    s.push_str(&format!("Date: {}\r\n", date));
    s.push_str("MIME-Version: 1.0\r\n");
    s.push_str("Content-Type: multipart/mixed; boundary=\"XBOUNDX\"\r\n");
    s.push_str("\r\n");
    s.push_str("--XBOUNDX\r\n");
    s.push_str("Content-Type: text/plain\r\n");
    s.push_str("\r\n");
    s.push_str("message body\r\n");
    for (name, contents) in attachments {
        s.push_str("--XBOUNDX\r\n");
        s.push_str("Content-Type: application/octet-stream\r\n");
        match name {
            Some(n) => {
                s.push_str(&format!(
                    "Content-Disposition: attachment; filename=\"{}\"\r\n",
                    n
                ));
            }
            None => {
                s.push_str("Content-Disposition: attachment\r\n");
            }
        }
        s.push_str("\r\n");
        s.push_str(contents);
        s.push_str("\r\n");
    }
    s.push_str("--XBOUNDX--\r\n");
    s.into_bytes()
}

/// The two-message mailbox the extractor tests run over: an old `.doc`
/// and a newer `.pdf`, one folder each.
fn simple_mailbox() -> Vec<Vec<Vec<u8>>> {
    let old = mime_message(
        "Fri, 5 Jan 2024 09:00:00 +0000",
        Some("memo"),
        &[(Some("old.doc"), "old doc bytes")],
    );
    let new = mime_message(
        "Fri, 12 Jan 2024 10:30:00 +0000",
        Some("test"),
        &[(Some("test.pdf"), "pdf bytes")],
    );
    vec![vec![old], vec![new]]
}

#[test]
fn test_extractor_list_all() {
    let extractor = Extractor::new(String::from("./test/fixtures/simple"), None);
    let attachments = extractor.list(&simple_mailbox()).unwrap();
    assert_eq!(2, attachments.len());
}

#[test]
fn test_extractor_list_with_since() {
    let extractor = Extractor::new(String::from("./test/fixtures/simple"), None)
        .since(Date::new(2024, 01, 10).unwrap());
    let attachments = extractor.list(&simple_mailbox()).unwrap();
    assert_eq!(1, attachments.len());
}

#[test]
fn test_extractor_extract() {
    let extractor = Extractor::new(
        String::from("./test/fixtures/simple"),
        Some(String::from("./test/tmp_output")),
    );
    let plan = extractor.extract(&simple_mailbox()).unwrap();
    assert!(plan
        .iter()
        .any(|f| f.name == "2024-01-12-test-test.pdf"));
}

#[test]
fn test_two_folder_scenario() {
    let folder_a = vec![mime_message(
        "Wed, 10 Jan 2024 08:00:00 +0000",
        Some("alpha"),
        &[(Some("a.pdf"), "contents of a")],
    )];
    let folder_b = vec![mime_message(
        "Fri, 12 Jan 2024 08:00:00 +0000",
        Some("beta"),
        &[(Some("b.doc"), "contents of b"), (Some("c.txt"), "contents of c")],
    )];
    let mailbox = vec![folder_a, folder_b];

    let extractor = Extractor::new(String::from("mailbox"), None);
    assert_eq!(
        vec![String::from("a.pdf"), String::from("b.doc")],
        extractor.list(&mailbox).unwrap()
    );

    let extractor_since = Extractor::new(String::from("mailbox"), None)
        .since(Date::new(2024, 1, 11).unwrap());
    assert_eq!(
        vec![String::from("b.doc")],
        extractor_since.list(&mailbox).unwrap()
    );

    let extractor_out =
        Extractor::new(String::from("mailbox"), Some(String::from("out")));
    let plan = extractor_out.extract(&mailbox).unwrap();
    let names: Vec<String> = plan.iter().map(|f| f.name.clone()).collect();
    assert_eq!(
        vec![
            String::from("2024-01-10-alpha-a.pdf"),
            String::from("2024-01-12-beta-b.doc"),
        ],
        names
    );
}

#[test]
fn test_since_is_inclusive() {
    let mailbox = vec![vec![mime_message(
        "Wed, 10 Jan 2024 23:59:00 +0000",
        Some("edge"),
        &[(Some("edge.pdf"), "x")],
    )]];
    let on_the_day = Extractor::new(String::from("m"), None)
        .since(Date::new(2024, 1, 10).unwrap());
    assert_eq!(1, on_the_day.list(&mailbox).unwrap().len());

    let day_after = Extractor::new(String::from("m"), None)
        .since(Date::new(2024, 1, 11).unwrap());
    assert_eq!(0, day_after.list(&mailbox).unwrap().len());
}

#[test]
fn test_unparseable_message_aborts() {
    let mailbox = vec![vec![mime_message(
        "not a date at all",
        Some("s"),
        &[(Some("a.pdf"), "x")],
    )]];
    let extractor = Extractor::new(String::from("m"), None);
    assert_eq!(Err(ExtractError::MessageParse), extractor.list(&mailbox));
}

#[test]
fn test_missing_subject_with_qualifying_attachment_aborts() {
    let mailbox = vec![vec![mime_message(
        "Fri, 12 Jan 2024 10:00:00 +0000",
        None,
        &[(Some("a.pdf"), "x")],
    )]];
    let extractor = Extractor::new(String::from("m"), None);
    assert_eq!(
        Err(ExtractError::MissingRequiredField),
        extractor.list(&mailbox)
    );
}

#[test]
fn test_missing_subject_without_qualifying_attachment_is_fine() {
    let mailbox = vec![vec![mime_message(
        "Fri, 12 Jan 2024 10:00:00 +0000",
        None,
        &[(Some("notes.txt"), "x")],
    )]];
    let extractor = Extractor::new(String::from("m"), None);
    assert_eq!(0, extractor.list(&mailbox).unwrap().len());
}

#[test]
fn test_unnamed_attachment_defaults_to_untitled() {
    let mailbox = vec![vec![mime_message(
        "Fri, 12 Jan 2024 10:00:00 +0000",
        Some("s"),
        &[(None, "x")],
    )]];
    // "Untitled" matches neither default suffix.
    let extractor = Extractor::new(String::from("m"), None);
    assert_eq!(0, extractor.list(&mailbox).unwrap().len());
    // With an allow-list it can match, the placeholder name is listed.
    let extractor_led = Extractor::new(String::from("m"), None)
        .with_suffixes(vec![String::from("led")]);
    assert_eq!(
        vec![String::from("Untitled")],
        extractor_led.list(&mailbox).unwrap()
    );
}

#[test]
fn test_empty_suffix_override_keeps_defaults() {
    let extractor =
        Extractor::new(String::from("m"), None).with_suffixes(Vec::new());
    assert_eq!(2, extractor.list(&simple_mailbox()).unwrap().len());
}

#[test]
fn test_suffix_match_is_case_sensitive() {
    let mailbox = vec![vec![mime_message(
        "Fri, 12 Jan 2024 10:00:00 +0000",
        Some("s"),
        &[(Some("UPPER.PDF"), "x"), (Some("lower.pdf"), "y")],
    )]];
    let extractor = Extractor::new(String::from("m"), None);
    assert_eq!(
        vec![String::from("lower.pdf")],
        extractor.list(&mailbox).unwrap()
    );
}

#[test]
fn test_extract_twice_plans_the_same_files() {
    let mailbox = simple_mailbox();
    let extractor = Extractor::new(String::from("m"), Some(String::from("out")));
    let first = extractor.extract(&mailbox).unwrap();
    let second = extractor.extract(&mailbox).unwrap();
    let first_names: Vec<String> = first.iter().map(|f| f.name.clone()).collect();
    let second_names: Vec<String> = second.iter().map(|f| f.name.clone()).collect();
    assert_eq!(first_names, second_names);
    assert_eq!(
        first.iter().map(|f| f.contents.clone()).collect::<Vec<_>>(),
        second.iter().map(|f| f.contents.clone()).collect::<Vec<_>>()
    );
}

#[test]
fn test_output_filename_formula() {
    let att = Attachment::new(
        String::from("a.pdf"),
        String::from("my subject"),
        Date::new(2024, 1, 10).unwrap(),
        vec![1, 2, 3],
    );
    assert_eq!(
        "2024-01-10-my_subject-a.pdf",
        mae::extractor::output_filename(&att)
    );
}

#[test]
fn test_output_filename_truncates_keeping_extension() {
    let att = Attachment::new(
        "n".repeat(300) + ".pdf",
        String::from("subj"),
        Date::new(2024, 1, 10).unwrap(),
        Vec::new(),
    );
    let name = mae::extractor::output_filename(&att);
    assert_eq!(255, name.chars().count());
    assert!(name.starts_with("2024-01-10-subj-"));
    assert!(name.ends_with(".pdf"));
}
