use smcp::servers::workspace::flows::{
    CheckEmailsFlow, CheckReply, Fetched, ManageEmailFlow, ManageReply, ReadEmailFlow, ReadReply,
    ReplyLookupFlow, SaveCredentialsFlow, SenderNameFlow, SenderStep, Step,
};
use smcp::servers::workspace::gmail::{
    CheckEmailsParam, CredentialsOutcome, GmailFailure, ManageEmailParam, ReadEmailParam,
    SetCredentialsParam,
};
use smcp::setup::CredentialInputError;
use smcp::servers::workspace::message::ReplyMetadata;

fn check_param(folder: Option<&str>, filter: Option<&str>, limit: Option<u32>) -> CheckEmailsParam {
    CheckEmailsParam {
        limit,
        filter: filter.map(|s| s.to_string()),
        folder: folder.map(|s| s.to_string()),
        query: None,
    }
}

#[test]
fn check_flow_selects_searches_and_fetches() {
    let flow = CheckEmailsFlow::plan(&check_param(Some("Spam"), Some("all"), Some(2)));
    assert_eq!(flow.mailbox, "[Gmail]/Spam");
    assert_eq!(flow.query, "ALL");

    match flow.on_select(Ok(())) {
        Step::Continue(q) => assert_eq!(q, "ALL"),
        Step::Finish { .. } => panic!("select succeeded"),
    }
    match flow.on_search(Ok(vec![4, 19, 7])) {
        Step::Continue((set, items)) => {
            assert_eq!(set, "19,7");
            assert_eq!(items, "(BODY.PEEK[HEADER.FIELDS (FROM SUBJECT DATE)] FLAGS UID)");
        }
        Step::Finish { .. } => panic!("search found messages"),
    }
    let header = b"From: Ann <ann@example.com>\r\nSubject: Hi\r\nDate: Wed, 3 Jan 2024 08:00:00 +0000\r\n\r\n";
    let fetched = vec![
        Fetched { uid: Some(19), bytes: Some(header.to_vec()) },
        Fetched { uid: None, bytes: None },
    ];
    match flow.on_fetch(Ok(fetched)) {
        CheckReply::Emails(list) => {
            assert_eq!(list.len(), 2);
            assert_eq!(list[0].uid, 19);
            assert_eq!(list[0].mailbox, "[Gmail]/Spam");
            assert_eq!(list[0].from, "Ann <ann@example.com>");
            assert_eq!(list[0].subject, "Hi");
            assert_eq!(list[1].uid, 0);
            assert_eq!(list[1].subject, "");
        }
        other => panic!("unexpected reply {other:?}"),
    }
}

#[test]
fn check_flow_reports_each_failure() {
    let flow = CheckEmailsFlow::plan(&check_param(None, None, None));
    assert_eq!(flow.mailbox, "INBOX");
    assert_eq!(flow.query, "UNSEEN");
    match flow.on_select(Err("no such mailbox".to_string())) {
        Step::Finish { logout, reply: CheckReply::Failed(f) } => {
            assert!(!logout);
            assert_eq!(f.reply(), "{\"error\": \"Failed to select mailbox 'INBOX': no such mailbox\"}");
        }
        other => panic!("unexpected step {other:?}"),
    }
    match flow.on_search(Ok(vec![])) {
        Step::Finish { logout, reply: CheckReply::NoEmails { mailbox, message } } => {
            assert!(logout);
            assert_eq!(mailbox, "INBOX");
            assert_eq!(message, "No emails found matching query: UNSEEN");
        }
        other => panic!("unexpected step {other:?}"),
    }
    match flow.on_search(Err("bad".to_string())) {
        Step::Finish { logout, reply: CheckReply::Failed(GmailFailure::Search { query, error }) } => {
            assert!(!logout);
            assert_eq!(query, "UNSEEN");
            assert_eq!(error, "bad");
        }
        other => panic!("unexpected step {other:?}"),
    }
    match flow.on_fetch(Err("timeout".to_string())) {
        CheckReply::Failed(f) => assert_eq!(f.message(), "Failed to fetch headers: timeout"),
        other => panic!("unexpected reply {other:?}"),
    }
}

#[test]
fn read_flow_fetches_one_uid_and_reports() {
    let flow = ReadEmailFlow::plan(&ReadEmailParam { uid: 305, folder: Some("sent".to_string()) });
    assert_eq!(flow.uid, 305);
    assert_eq!(flow.mailbox, "[Gmail]/Sent Mail");
    match flow.on_select(Ok(())) {
        Step::Continue((set, items)) => {
            assert_eq!(set, "305");
            assert_eq!(items, "BODY[]");
        }
        other => panic!("unexpected step {other:?}"),
    }
    let raw = b"Subject: Notes\r\nFrom: me@example.com\r\n\r\n  body text \r\n".to_vec();
    match flow.on_fetch(Ok(Some(raw))) {
        Step::Finish { logout, reply: ReadReply::Report { uid, mailbox, report } } => {
            assert!(logout);
            assert_eq!(uid, 305);
            assert_eq!(mailbox, "[Gmail]/Sent Mail");
            assert_eq!(report.subject, "Notes");
            assert_eq!(report.body, "body text");
        }
        other => panic!("unexpected step {other:?}"),
    }
    match flow.on_fetch(Ok(None)) {
        Step::Finish { reply: ReadReply::Report { report, .. }, .. } => assert_eq!(report.body, ""),
        other => panic!("unexpected step {other:?}"),
    }
    match flow.on_fetch(Err("gone".to_string())) {
        Step::Finish { logout, reply: ReadReply::Failed(f) } => {
            assert!(!logout);
            assert_eq!(f.message(), "Failed to fetch message UID 305 from '[Gmail]/Sent Mail': gone");
        }
        other => panic!("unexpected step {other:?}"),
    }
}

fn manage_param(action: &str) -> ManageEmailParam {
    ManageEmailParam { uid: 12, action: action.to_string(), folder: None }
}

#[test]
fn manage_flow_plans_commands_per_action() {
    let trash = ManageEmailFlow::plan(&manage_param("Trash"));
    match trash.on_select(Ok(())) {
        Step::Continue(c) => {
            assert_eq!(c.uid_set, "12");
            assert_eq!(c.copy_to, Some("[Gmail]/Trash"));
            assert_eq!(c.store_flags, "+FLAGS (\\Deleted)");
        }
        other => panic!("unexpected step {other:?}"),
    }
    let star = ManageEmailFlow::plan(&manage_param("star"));
    match star.on_select(Ok(())) {
        Step::Continue(c) => {
            assert_eq!(c.copy_to, None);
            assert_eq!(c.store_flags, "+FLAGS (\\Flagged)");
        }
        other => panic!("unexpected step {other:?}"),
    }
    match trash.on_store(Ok(())) {
        ManageReply::Done { action, uid, mailbox } => {
            assert_eq!(action, "trash");
            assert_eq!(uid, 12);
            assert_eq!(mailbox, "INBOX");
        }
        other => panic!("unexpected reply {other:?}"),
    }
    match star.on_store(Err("denied".to_string())) {
        ManageReply::Failed(f) => assert_eq!(f.message(), "Failed to execute action: denied"),
        other => panic!("unexpected reply {other:?}"),
    }
}

#[test]
fn manage_flow_refuses_unknown_actions() {
    let flow = ManageEmailFlow::plan(&manage_param("archive"));
    match flow.on_select(Ok(())) {
        Step::Finish { logout, reply: ManageReply::UnknownAction(m) } => {
            assert!(!logout);
            assert_eq!(m, "Unknown action 'archive'. Valid: mark_read, mark_unread, star, unstar, trash");
        }
        other => panic!("unexpected step {other:?}"),
    }
}

#[test]
fn reply_lookup_flow_reads_the_original() {
    let flow = ReplyLookupFlow::plan(88, Some("starred"));
    assert_eq!(flow.mailbox, "[Gmail]/Starred");
    assert_eq!(
        flow.on_select(Ok(())),
        Ok(("88".to_string(), "(BODY.PEEK[HEADER.FIELDS (FROM SUBJECT MESSAGE-ID REFERENCES)])"))
    );
    assert_eq!(flow.on_select(Err("x".to_string())), Err("Failed to select mailbox: x".to_string()));
    let header = b"From: Zed <zed@example.com>\r\nSubject: Plans\r\nMessage-ID: <p@x>\r\n\r\n".to_vec();
    let meta = flow.on_fetch(Ok(Some(header))).unwrap();
    assert_eq!(meta.from, "Zed <zed@example.com>");
    assert_eq!(meta.message_id, "<p@x>");
    assert_eq!(meta.references, "");
    assert_eq!(flow.on_fetch(Err("t".to_string())).unwrap_err(), "Fetch failed: t");

    let ok = flow.on_lookup(Ok(meta)).unwrap();
    assert_eq!(ok.subject, "Plans");
    let empty = ReplyMetadata {
        from: String::new(),
        subject: String::new(),
        message_id: String::new(),
        references: String::new(),
    };
    assert_eq!(
        flow.on_lookup(Ok(empty)).unwrap_err(),
        "{\"error\": \"Original sender address not found for UID 88\"}"
    );
    assert_eq!(
        flow.on_lookup(Err("Fetch failed: t".to_string())).unwrap_err(),
        "{\"error\": \"Could not fetch original email: Fetch failed: t\"}"
    );
}

#[test]
fn sender_name_flow_walks_the_folders() {
    let mut flow = SenderNameFlow::new("me@example.com");
    assert_eq!(flow.folder, 0);
    match flow.start() {
        SenderStep::Select(f) => assert_eq!(f, "[Gmail]/Sent Mail"),
        other => panic!("unexpected step {other:?}"),
    }
    match flow.on_select(Ok(())) {
        SenderStep::Search(q) => assert_eq!(q, "FROM \"me@example.com\""),
        other => panic!("unexpected step {other:?}"),
    }
    match flow.on_search(Ok(vec![3, 41, 9])) {
        SenderStep::Fetch(set, items) => {
            assert_eq!(set, "41");
            assert_eq!(items, "(BODY.PEEK[HEADER.FIELDS (FROM)])");
        }
        other => panic!("unexpected step {other:?}"),
    }
    let nameless = b"From: me@example.com\r\n\r\n".to_vec();
    match flow.on_fetch(Ok(vec![None, Some(nameless)])) {
        SenderStep::Select(f) => assert_eq!(f, "INBOX"),
        other => panic!("unexpected step {other:?}"),
    }
    assert_eq!(flow.folder, 1);
    let named = b"From: \"Mia Chen\" <me@example.com>\r\n\r\n".to_vec();
    match flow.on_fetch(Ok(vec![Some(named)])) {
        SenderStep::Done(name) => assert_eq!(name, Some("Mia Chen".to_string())),
        other => panic!("unexpected step {other:?}"),
    }
    assert_eq!(flow.folder, 1);
}

#[test]
fn sender_name_flow_gives_up_after_the_last_folder() {
    let mut flow = SenderNameFlow::new("me@example.com");
    match flow.on_select(Err("no folder".to_string())) {
        SenderStep::Select(f) => assert_eq!(f, "INBOX"),
        other => panic!("unexpected step {other:?}"),
    }
    match flow.on_search(Ok(vec![])) {
        SenderStep::Done(name) => assert_eq!(name, None),
        other => panic!("unexpected step {other:?}"),
    }
    assert_eq!(flow.folder, 2);
    match flow.on_search(Err("x".to_string())) {
        SenderStep::Done(name) => assert_eq!(name, None),
        other => panic!("unexpected step {other:?}"),
    }
    assert_eq!(flow.folder, 2);
}

#[test]
fn saving_credentials_tests_the_login_before_writing() {
    let param = SetCredentialsParam {
        email: "  me@example.com ".to_string(),
        app_password: "abcd efgh ijkl mnop".to_string(),
    };
    let (mut flow, email, password) = SaveCredentialsFlow::start(&param).unwrap();
    assert_eq!(email, "me@example.com");
    assert_eq!(password, "abcdefghijklmnop");
    assert!(flow.on_login_test(Ok(())).is_none());
    let content = flow.on_create_dir(Ok(())).unwrap();
    assert_eq!(content, "GMAIL_EMAIL=me@example.com\nGMAIL_APP_PASSWORD=abcdefghijklmnop\n");
    match flow.on_write("/home/me/.config/credentials/workspace-google".to_string(), Ok(())) {
        CredentialsOutcome::Saved { email, path } => {
            assert_eq!(email, "me@example.com");
            assert_eq!(path, "/home/me/.config/credentials/workspace-google");
        }
        other => panic!("unexpected outcome {other:?}"),
    }
    match flow.on_write("p".to_string(), Err("disk full".to_string())) {
        CredentialsOutcome::WriteFailed(e) => assert_eq!(e, "disk full"),
        other => panic!("unexpected outcome {other:?}"),
    }
    match flow.on_create_dir(Err("denied".to_string())) {
        Err(CredentialsOutcome::CreateDirFailed(e)) => assert_eq!(e, "denied"),
        other => panic!("unexpected result {other:?}"),
    }
}

#[test]
fn saving_credentials_stops_at_refused_input_or_failed_login() {
    let bad = SetCredentialsParam { email: "nobody".to_string(), app_password: "x".to_string() };
    match SaveCredentialsFlow::start(&bad) {
        Err(CredentialsOutcome::Invalid(e)) => assert_eq!(e, CredentialInputError::InvalidEmail),
        other => panic!("unexpected start {other:?}"),
    }
    let empty = SetCredentialsParam { email: "a@b".to_string(), app_password: "   ".to_string() };
    match SaveCredentialsFlow::start(&empty) {
        Err(CredentialsOutcome::Invalid(e)) => assert_eq!(e, CredentialInputError::EmptyPassword),
        other => panic!("unexpected start {other:?}"),
    }
    let ok = SetCredentialsParam { email: "a@b".to_string(), app_password: "pw".to_string() };
    let (mut flow, _, _) = SaveCredentialsFlow::start(&ok).unwrap();
    match flow.on_login_test(Err("IMAP authentication failed: no. Check your App Password.".to_string())) {
        Some(o) => assert_eq!(
            o.message(),
            "Verification failed: IMAP authentication failed: no. Check your App Password."
        ),
        None => panic!("the login failed"),
    }
}

#[test]
fn trash_fails_when_the_copy_fails() {
    let flow = ManageEmailFlow::plan(&manage_param("trash"));
    match flow.on_copy(Err("no such mailbox".to_string())) {
        Step::Finish { logout, reply: ManageReply::Failed(f) } => {
            assert!(logout);
            assert_eq!(f.reply(), "{\"error\": \"Failed to move message to trash: no such mailbox\"}");
        }
        other => panic!("unexpected step {other:?}"),
    }
    match flow.on_copy(Ok(())) {
        Step::Continue(()) => {}
        other => panic!("unexpected step {other:?}"),
    }
}
