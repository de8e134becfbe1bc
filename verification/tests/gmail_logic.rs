use smcp::servers::workspace::outgoing::{check_attachment_type, AttachmentPlan};
use smcp::servers::workspace::gmail::{
    CheckEmailsParam, CredentialsOutcome, GmailFailure, ManageAction, SendEmailParam,
};
use smcp::servers::workspace::message::{
    display_name, newest, read_message, reply_metadata, sender_name_in_header,
    sender_search_query, summarize_message,
};
use smcp::servers::workspace::outgoing::{
    compose_email, compose_reply, file_extension, from_header, mime_type_for_path,
    missing_sender_error, plan_attachment, reply_address, reply_subject, sent_message,
    thread_headers,
};
use smcp::servers::workspace::GmailService;
use smcp::setup::{check_gmail_input, gmail_credentials_file, CredentialInputError};

#[test]
fn mailbox_names_resolve_case_insensitively() {
    assert_eq!(GmailService::resolve_mailbox_name(None), "INBOX");
    assert_eq!(GmailService::resolve_mailbox_name(Some("SPAM")), "[Gmail]/Spam");
    assert_eq!(GmailService::resolve_mailbox_name(Some("junk")), "[Gmail]/Spam");
    assert_eq!(GmailService::resolve_mailbox_name(Some("Bin")), "[Gmail]/Trash");
    assert_eq!(GmailService::resolve_mailbox_name(Some("sent_mail")), "[Gmail]/Sent Mail");
    assert_eq!(GmailService::resolve_mailbox_name(Some("Draft")), "[Gmail]/Drafts");
    assert_eq!(GmailService::resolve_mailbox_name(Some("ALLMAIL")), "[Gmail]/All Mail");
    assert_eq!(GmailService::resolve_mailbox_name(Some("starred")), "[Gmail]/Starred");
    assert_eq!(GmailService::resolve_mailbox_name(Some("Important")), "[Gmail]/Important");
    assert_eq!(GmailService::resolve_mailbox_name(Some("whatever")), "INBOX");
    assert_eq!(GmailService::mailbox_for_key("trash"), "[Gmail]/Trash");
    assert_eq!(GmailService::mailbox_for_key("TRASH"), "INBOX");
}

fn check(filter: Option<&str>, query: Option<&str>) -> CheckEmailsParam {
    CheckEmailsParam {
        limit: None,
        filter: filter.map(|s| s.to_string()),
        folder: None,
        query: query.map(|s| s.to_string()),
    }
}

#[test]
fn search_queries_follow_filter_and_text() {
    assert_eq!(GmailService::imap_search_query(&check(None, None)), "UNSEEN");
    assert_eq!(GmailService::imap_search_query(&check(Some("All"), None)), "ALL");
    assert_eq!(GmailService::imap_search_query(&check(Some("seen"), None)), "SEEN");
    assert_eq!(GmailService::imap_search_query(&check(Some("FLAGGED"), None)), "FLAGGED");
    assert_eq!(GmailService::imap_search_query(&check(Some("other"), None)), "UNSEEN");
    assert_eq!(
        GmailService::imap_search_query(&check(Some("all"), Some("  Bitwarden  "))),
        "ALL TEXT \"Bitwarden\""
    );
    assert_eq!(GmailService::imap_search_query(&check(Some("all"), Some("   "))), "ALL");
}

#[test]
fn newest_uids_are_clamped_and_descending() {
    let uids = vec![5, 17, 3, 42, 8];
    assert_eq!(GmailService::select_newest_uids(&uids, Some(2)), vec![42, 17]);
    assert_eq!(GmailService::select_newest_uids(&uids, None), vec![42, 17, 8, 5, 3]);
    assert_eq!(GmailService::select_newest_uids(&uids, Some(0)), vec![42]);
    let many: Vec<u32> = (1..=100).collect();
    let top = GmailService::select_newest_uids(&many, Some(500));
    assert_eq!(top.len(), 30);
    assert_eq!(top[0], 100);
    assert_eq!(top[29], 71);
    assert_eq!(GmailService::select_newest_uids(&many, None).len(), 10);
    assert_eq!(GmailService::select_newest_uids(&Vec::new(), Some(5)), Vec::<u32>::new());
    assert_eq!(GmailService::select_newest_uids(&vec![4, 4, 2], Some(5)), vec![4, 2]);
}

#[test]
fn uid_sequence_sets_join_decimals() {
    assert_eq!(GmailService::uid_sequence_set(&vec![42, 17, 0, 4294967295]), "42,17,0,4294967295");
    assert_eq!(GmailService::uid_sequence_set(&vec![7]), "7");
    assert_eq!(GmailService::uid_sequence_set(&Vec::new()), "");
}

#[test]
fn manage_actions_map_to_flag_changes() {
    let p = GmailService::manage_plan("Mark_Read");
    assert_eq!(p.normalized, "mark_read");
    assert_eq!(p.action, Some(ManageAction::MarkRead));
    assert_eq!(ManageAction::MarkRead.store_flags(), "+FLAGS (\\Seen)");
    assert_eq!(ManageAction::MarkUnread.store_flags(), "-FLAGS (\\Seen)");
    assert_eq!(ManageAction::Star.store_flags(), "+FLAGS (\\Flagged)");
    assert_eq!(ManageAction::Unstar.store_flags(), "-FLAGS (\\Flagged)");
    assert_eq!(ManageAction::Trash.store_flags(), "+FLAGS (\\Deleted)");
    assert_eq!(ManageAction::Trash.copy_target(), Some("[Gmail]/Trash"));
    assert_eq!(ManageAction::Star.copy_target(), None);
    assert_eq!(GmailService::manage_plan("unread").action, Some(ManageAction::MarkUnread));
    assert_eq!(GmailService::manage_plan("DELETE").action, Some(ManageAction::Trash));
    assert_eq!(GmailService::manage_plan("archive").action, None);
    assert_eq!(
        GmailService::unknown_action_message("archive"),
        "Unknown action 'archive'. Valid: mark_read, mark_unread, star, unstar, trash"
    );
}

#[test]
fn credentials_come_from_environment_then_file() {
    let file = "GMAIL_EMAIL=file@example.com\nGMAIL_APP_PASSWORD=abcd efgh ijkl mnop\n";
    assert_eq!(
        GmailService::resolve_credentials("", "", Some(file)),
        Ok(("file@example.com".to_string(), "abcdefghijklmnop".to_string()))
    );
    assert_eq!(
        GmailService::resolve_credentials(" env@example.com ", "", Some(file)),
        Ok(("env@example.com".to_string(), "abcdefghijklmnop".to_string()))
    );
    assert_eq!(
        GmailService::resolve_credentials("", "", None),
        Err("Gmail email address not configured. Please use tool `gmail_set_credentials` or run `smcp setup gmail`.".to_string())
    );
    assert_eq!(
        GmailService::resolve_credentials("me@example.com", "   ", None),
        Err("Gmail app password not configured. Please use tool `gmail_set_credentials` or run `smcp setup gmail`.".to_string())
    );
    let two = "GMAIL_EMAIL=\n  GMAIL_EMAIL= second@example.com \r\nGMAIL_APP_PASSWORD=pw\n";
    assert_eq!(
        GmailService::resolve_credentials("", "", Some(two)),
        Ok(("second@example.com".to_string(), "pw".to_string()))
    );
}

#[test]
fn saved_credentials_read_back() {
    let (e, p) = check_gmail_input("  user@gmail.com ", " abcd efgh ijkl mnop ").unwrap();
    assert_eq!(e, "user@gmail.com");
    assert_eq!(p, "abcdefghijklmnop");
    let file = gmail_credentials_file(&e, &p);
    assert_eq!(file, "GMAIL_EMAIL=user@gmail.com\nGMAIL_APP_PASSWORD=abcdefghijklmnop\n");
    assert_eq!(GmailService::resolve_credentials("", "", Some(&file)), Ok((e, p)));
}

#[test]
fn credential_input_is_checked() {
    assert_eq!(check_gmail_input("   ", "pw"), Err(CredentialInputError::InvalidEmail));
    assert_eq!(check_gmail_input("nobody", "pw"), Err(CredentialInputError::InvalidEmail));
    assert_eq!(check_gmail_input("a@b", "  "), Err(CredentialInputError::EmptyPassword));
    assert_eq!(CredentialInputError::InvalidEmail.message(), "Invalid email address.");
    assert_eq!(CredentialInputError::EmptyPassword.message(), "App Password cannot be empty.");
}

#[test]
fn credential_outcomes_report() {
    let saved = CredentialsOutcome::Saved { email: "a@b.c".to_string(), path: "/x".to_string() };
    assert_eq!(saved.status(), "success");
    assert_eq!(saved.message(), "Gmail credentials successfully verified and saved for a@b.c!");
    let failed = CredentialsOutcome::VerificationFailed("boom".to_string());
    assert_eq!(failed.status(), "error");
    assert_eq!(failed.message(), "Verification failed: boom");
    assert_eq!(
        CredentialsOutcome::CreateDirFailed("e".to_string()).message(),
        "Failed to create credentials directory: e"
    );
    assert_eq!(
        CredentialsOutcome::WriteFailed("e".to_string()).message(),
        "Failed to write credentials file: e"
    );
    assert_eq!(
        CredentialsOutcome::Invalid(CredentialInputError::InvalidEmail).message(),
        "Invalid email address."
    );
    assert_eq!(
        CredentialsOutcome::login_test_error("NO"),
        "IMAP authentication failed: NO. Check your App Password."
    );
}

#[test]
fn failures_reply_with_error_objects() {
    let f = GmailFailure::SelectMailbox { mailbox: "INBOX".to_string(), error: "no".to_string() };
    assert_eq!(f.reply(), "{\"error\": \"Failed to select mailbox 'INBOX': no\"}");
    let f = GmailFailure::FetchMessage { uid: 5301, mailbox: "INBOX".to_string(), error: "x".to_string() };
    assert_eq!(f.message(), "Failed to fetch message UID 5301 from 'INBOX': x");
    assert_eq!(
        GmailFailure::Search { query: "ALL".to_string(), error: "bad".to_string() }.message(),
        "Failed to search emails with query 'ALL': bad"
    );
    assert_eq!(GmailFailure::Credentials("m".to_string()).reply(), "{\"error\": \"m\"}");
    assert_eq!(GmailFailure::TlsBuild("t".to_string()).message(), "TLS build failed: t");
    assert_eq!(GmailFailure::ImapConnect("c".to_string()).message(), "IMAP connect failed: c");
    assert_eq!(GmailFailure::ImapLogin("l".to_string()).message(), "IMAP login failed: l");
    assert_eq!(GmailFailure::FetchHeaders("h".to_string()).message(), "Failed to fetch headers: h");
    assert_eq!(GmailFailure::ExecuteAction("a".to_string()).message(), "Failed to execute action: a");
    assert_eq!(GmailFailure::ReplySelect("s".to_string()).message(), "Failed to select mailbox: s");
    assert_eq!(GmailFailure::ReplyFetch("f".to_string()).message(), "Fetch failed: f");
    assert_eq!(
        GmailFailure::OriginalFetch("Fetch failed: f".to_string()).reply(),
        "{\"error\": \"Could not fetch original email: Fetch failed: f\"}"
    );
    assert_eq!(GmailFailure::BuildReply("b".to_string()).message(), "Failed to build reply email: b");
    assert_eq!(GmailFailure::SendReply("s".to_string()).message(), "Failed to send reply email: s");
    assert_eq!(GmailFailure::BuildEmail("b".to_string()).message(), "Failed to build email: b");
    assert_eq!(GmailFailure::SendEmail("s".to_string()).message(), "Failed to send email: s");
    assert_eq!(
        GmailFailure::AttachmentType { path: "p".to_string(), error: "e".to_string() }.message(),
        "Invalid attachment MIME type for 'p': e"
    );
    assert_eq!(GmailFailure::TaskJoin("j".to_string()).message(), "Task join error: j");
    assert_eq!(
        GmailService::no_emails_message("UNSEEN"),
        "No emails found matching query: UNSEEN"
    );
}

#[test]
fn check_summaries_read_headers() {
    let header = b"From: Alice <alice@example.com>\r\nSubject: Hello\r\nDate: Mon, 1 Jan 2024 10:00:00 +0000\r\nSUBJECT: Second\r\n\r\n";
    let s = summarize_message(Some(42), Some(&header[..]), "INBOX");
    assert_eq!(s.uid, 42);
    assert_eq!(s.mailbox, "INBOX");
    assert_eq!(s.from, "Alice <alice@example.com>");
    assert_eq!(s.subject, "Second");
    assert_eq!(s.date, "Mon, 1 Jan 2024 10:00:00 +0000");
    let empty = summarize_message(None, None, "[Gmail]/Spam");
    assert_eq!(empty.uid, 0);
    assert_eq!(empty.from, "");
}

#[test]
fn read_reports_body_and_attachments() {
    let raw = [
        "From: Bob <bob@example.com>\r\n",
        "To: me@example.com\r\n",
        "Subject: Report\r\n",
        "Date: Tue, 2 Jan 2024 09:00:00 +0000\r\n",
        "Message-ID: <m1@example.com>\r\n",
        "Content-Type: multipart/mixed; boundary=XYZ\r\n",
        "\r\n",
        "--XYZ\r\n",
        "Content-Type: text/plain\r\n",
        "\r\n",
        "Hello there\r\n",
        "--XYZ\r\n",
        "Content-Type: application/pdf\r\n",
        "Content-Disposition: attachment; filename=\"report.pdf\"\r\n",
        "\r\n",
        "PDFDATA\r\n",
        "--XYZ--\r\n",
    ]
    .join("");
    let r = read_message(Some(raw.as_bytes()));
    assert_eq!(r.from, "Bob <bob@example.com>");
    assert_eq!(r.to, "me@example.com");
    assert_eq!(r.subject, "Report");
    assert_eq!(r.message_id, "<m1@example.com>");
    assert_eq!(r.body, "Hello there");
    assert_eq!(r.attachments.len(), 1);
    assert_eq!(r.attachments[0].filename, "report.pdf");
    assert_eq!(r.attachments[0].content_type, "application/pdf");
    assert_eq!(r.attachments[0].size_approx, 7);

    let single = "Subject: Plain\r\n\r\n  Just text  \r\n";
    let r = read_message(Some(single.as_bytes()));
    assert_eq!(r.subject, "Plain");
    assert_eq!(r.body, "Just text");

    let none = read_message(None);
    assert_eq!(none.body, "");
    assert!(none.attachments.is_empty());
}

#[test]
fn replies_thread_to_the_original() {
    let header = b"From: \"Carol C\" <carol@example.com>\r\nSubject: Plans\r\nMessage-ID: <a@x>\r\nReferences: <z@x>\r\n\r\n";
    let meta = reply_metadata(Some(&header[..]));
    assert_eq!(meta.from, "\"Carol C\" <carol@example.com>");
    assert_eq!(reply_address(&meta.from), "carol@example.com");
    assert_eq!(reply_address("  plain@example.com "), "plain@example.com");
    assert_eq!(reply_subject("Plans"), "Re: Plans");
    assert_eq!(reply_subject("RE: Plans"), "RE: Plans");
    assert_eq!(reply_subject(&reply_subject("Plans")), "Re: Plans");
    assert_eq!(
        thread_headers("<a@x>", "<z@x>"),
        Some(("<a@x>".to_string(), "<z@x> <a@x>".to_string()))
    );
    assert_eq!(thread_headers("<a@x>", ""), Some(("<a@x>".to_string(), "<a@x>".to_string())));
    assert_eq!(thread_headers("", "<z@x>"), None);

    let from = from_header(Some("Me"), "me@example.com");
    assert_eq!(from, "Me <me@example.com>");
    assert_eq!(from_header(None, "me@example.com"), "me@example.com");
    let m = compose_reply(&from, &meta, "Sure".to_string()).unwrap();
    assert_eq!(m.to, "carol@example.com");
    assert_eq!(m.subject, "Re: Plans");
    assert_eq!(m.thread, Some(("<a@x>".to_string(), "<z@x> <a@x>".to_string())));
    assert!(!m.is_html);

    let bad = compose_reply("not an address", &meta, "x".to_string()).unwrap_err();
    assert!(bad.starts_with("{\"error\": \"Invalid from address: "));
    assert_eq!(
        missing_sender_error(5301),
        "{\"error\": \"Original sender address not found for UID 5301\"}"
    );
}

#[test]
fn sender_names_come_from_sent_mail() {
    assert_eq!(display_name("\"Jane Doe\" <jane@example.com>"), Some("Jane Doe".to_string()));
    assert_eq!(display_name("jane@example.com"), None);
    assert_eq!(display_name(" <jane@example.com>"), None);
    let header = b"from: Jane <jane@example.com>\r\n\r\n";
    assert_eq!(sender_name_in_header(Some(&header[..])), Some("Jane".to_string()));
    assert_eq!(sender_name_in_header(None), None);
    assert_eq!(sender_search_query("me@x.com"), "FROM \"me@x.com\"");
    assert_eq!(newest(&vec![3, 9, 1]), Some(9));
    assert_eq!(newest(&Vec::new()), None);
}

#[test]
fn attachments_are_named_and_typed() {
    assert_eq!(mime_type_for_path("/tmp/report.PDF"), "application/pdf");
    assert_eq!(mime_type_for_path("photo.jpeg"), "image/jpeg");
    assert_eq!(mime_type_for_path("a/b/page.htm"), "text/html");
    assert_eq!(mime_type_for_path("notes.txt"), "text/plain");
    assert_eq!(mime_type_for_path("image.png"), "image/png");
    assert_eq!(mime_type_for_path("archive.tar.gz"), "application/octet-stream");
    assert_eq!(mime_type_for_path(".bashrc"), "application/octet-stream");
    assert_eq!(mime_type_for_path("README"), "application/octet-stream");
    assert_eq!(file_extension("a.b.c"), Some("c".to_string()));
    assert_eq!(file_extension(".hidden"), None);
    assert_eq!(file_extension("trailing."), Some("".to_string()));
    let plan = plan_attachment("/home/u/report.pdf").unwrap();
    assert_eq!(plan.filename, "report.pdf");
    assert_eq!(plan.content_type, "application/pdf");
    assert_eq!(
        plan_attachment("/").unwrap_err(),
        "{\"error\": \"Invalid attachment path: /\"}"
    );
}

#[test]
fn new_emails_are_checked_and_composed() {
    let param = SendEmailParam {
        to: "someone@example.com".to_string(),
        subject: "Subject".to_string(),
        body: "<h1>Hello</h1>".to_string(),
        is_html: Some(true),
        from_name: None,
        attachments: None,
    };
    let m = compose_email("me@example.com", &param, Vec::new()).unwrap();
    assert_eq!(m.to, "someone@example.com");
    assert!(m.is_html);
    assert!(m.thread.is_none());
    let bad = SendEmailParam { to: "nobody".to_string(), ..param };
    let e = compose_email("me@example.com", &bad, Vec::new()).unwrap_err();
    assert!(e.starts_with("{\"error\": \"Invalid recipient address: "));
    assert_eq!(sent_message("a@b.c"), "Email successfully sent to a@b.c");
}

#[test]
fn read_reaches_text_inside_nested_parts() {
    let raw = [
        "From: Ann <ann@example.com>\r\n",
        "Subject: Nested\r\n",
        "Content-Type: multipart/mixed; boundary=OUTER\r\n",
        "\r\n",
        "--OUTER\r\n",
        "Content-Type: multipart/alternative; boundary=INNER\r\n",
        "\r\n",
        "--INNER\r\n",
        "Content-Type: text/plain\r\n",
        "\r\n",
        "Hi\r\n",
        "--INNER\r\n",
        "Content-Type: text/html\r\n",
        "\r\n",
        "<p>Hi</p>\r\n",
        "--INNER--\r\n",
        "--OUTER\r\n",
        "Content-Type: application/pdf\r\n",
        "Content-Disposition: attachment; filename=\"a.pdf\"\r\n",
        "\r\n",
        "PDF\r\n",
        "--OUTER--\r\n",
    ]
    .join("");
    let r = read_message(Some(raw.as_bytes()));
    assert!(r.body.contains("Hi"));
    assert!(r.body.starts_with("Hi"));
    assert!(r.body.ends_with("<p>Hi</p>"));
    assert_eq!(r.attachments.len(), 1);
    assert_eq!(r.attachments[0].filename, "a.pdf");
    assert_eq!(r.attachments[0].content_type, "application/pdf");
}

#[test]
fn replying_to_a_reply_keeps_its_subject() {
    for subject in ["Plans", "Re: Plans", "RE: done", "", "Ünïcode subject"] {
        let once = reply_subject(subject);
        assert_eq!(reply_subject(&once), once);
    }
    assert_eq!(reply_subject("Plans"), "Re: Plans");
    assert_eq!(reply_subject("rE: x"), "rE: x");
}

#[test]
fn attachment_types_are_checked_with_lettre() {
    let good = AttachmentPlan {
        path: "/tmp/a.pdf".to_string(),
        filename: "a.pdf".to_string(),
        content_type: "application/pdf".to_string(),
    };
    assert_eq!(check_attachment_type(&good), None);
    let bad = AttachmentPlan { content_type: "not a type".to_string(), ..good };
    let e = check_attachment_type(&bad).unwrap();
    assert!(e.starts_with("{\"error\": \"Invalid attachment MIME type for '/tmp/a.pdf': "));
}

#[test]
fn credentials_directory_sits_under_home() {
    use_dir(smcp::setup::credentials_dir_components(Some("/home/me".to_string())), "/home/me");
    use_dir(smcp::setup::credentials_dir_components(None), ".");
}

fn use_dir(parts: Vec<String>, base: &str) {
    assert_eq!(parts, vec![base.to_string(), ".config".to_string(), "credentials".to_string()]);
}
