use knowcodeextra::admin::polo_notes_content;
use knowcodeextra::notify::notification_body;
use knowcodeextra::notify::notification_url;
use knowcodeextra::qrz::extract_email;
use knowcodeextra::qrz::extract_session_key;

#[test]
fn session_key_is_extracted_from_a_reply() {
    let xml = "<QRZDatabase><Session><Key>abc123</Key></Session></QRZDatabase>";
    assert_eq!(extract_session_key(xml).as_deref(), Ok("abc123"));
}

#[test]
fn session_error_is_reported_with_its_detail() {
    let xml = "<Session><Error>Username/password incorrect</Error></Session>";
    assert_eq!(
        extract_session_key(xml),
        Err("QRZ error: Username/password incorrect".to_string())
    );
}

#[test]
fn unparseable_session_reply_is_reported() {
    assert_eq!(
        extract_session_key("no tags here"),
        Err("Could not parse QRZ session key".to_string())
    );
}

#[test]
fn email_is_extracted_when_present_and_non_empty() {
    assert_eq!(
        extract_email("<email>op@example.org</email>").as_deref(),
        Some("op@example.org")
    );
    assert_eq!(extract_email("<email></email>"), None);
    assert_eq!(extract_email("<Callsign>W6JSV</Callsign>"), None);
}

#[test]
fn notification_text_names_the_callsign_and_outcome() {
    assert_eq!(notification_body("W6JSV", true), "W6JSV submitted - PASSED");
    assert_eq!(notification_body("K1ABC", false), "K1ABC submitted - FAILED");
}

#[test]
fn roster_file_lists_each_member_with_its_number() {
    let members = vec![
        ("W1ABC".to_string(), 1),
        ("W6JSV".to_string(), 42),
        ("K0XYZ".to_string(), 0),
    ];
    let content = polo_notes_content(&members);
    let expected = "# Know Code Extra Club Members\n\
                    # Ham2K PoLo Callsign Notes - https://knowcodeextra.com\n\n\
                    W1ABC 🎉 Know Code Extra #1\n\
                    W6JSV 🎉 Know Code Extra #42\n\
                    K0XYZ 🎉 Know Code Extra #0\n";
    assert_eq!(content, expected);

    let empty: Vec<(String, i32)> = Vec::new();
    let header_only = polo_notes_content(&empty);
    assert!(header_only.ends_with("\n\n"));
    assert!(!header_only.contains("🎉"));

    let negative = polo_notes_content(&vec![("N0PE".to_string(), -7)]);
    assert!(negative.contains("N0PE 🎉 Know Code Extra #-7\n"));
    let large = polo_notes_content(&vec![("W9WWW".to_string(), 1234567890)]);
    assert!(large.contains("#1234567890\n"));
}

#[test]
fn notification_url_joins_base_and_topic() {
    assert_eq!(
        notification_url("https://ntfy.example///", "morse"),
        "https://ntfy.example/morse"
    );
    assert_eq!(
        notification_url("https://ntfy.example", "morse"),
        "https://ntfy.example/morse"
    );
}
