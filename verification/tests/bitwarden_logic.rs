use smcp::servers::bitwarden::{
    list_items_output, simplify_item, simplify_items, BitwardenService, GetItemParam, Json,
    PasswordSaveOutcome, SavePasswordFlow, SearchParam, SessionStep,
};
use smcp::setup::{bitwarden_credentials_file, bitwarden_value_from_file, check_bitwarden_input};
use smcp::text::error_json;

fn s(v: &str) -> String {
    v.to_string()
}

#[test]
fn master_password_prefers_environment() {
    let files = vec![Some(s("BITWARDEN_MASTER_PASSWORD=from-file\n"))];
    assert_eq!(
        BitwardenService::resolve_master_password(Some(" env-pw "), Some("other"), &files),
        Ok(s("env-pw"))
    );
    assert_eq!(
        BitwardenService::resolve_master_password(Some("  "), Some("other"), &files),
        Ok(s("other"))
    );
    assert_eq!(
        BitwardenService::resolve_master_password(None, None, &files),
        Ok(s("from-file"))
    );
}

#[test]
fn master_password_files_are_searched_in_order() {
    let files = vec![
        None,
        Some(s("SOMETHING=else\n")),
        Some(s("  BW_PASSWORD=  second  \n")),
        Some(s("BITWARDEN_MASTER_PASSWORD=third")),
    ];
    assert_eq!(BitwardenService::resolve_master_password(None, None, &files), Ok(s("second")));
    let raw = vec![Some(s("  just-the-password  \n"))];
    assert_eq!(BitwardenService::resolve_master_password(None, None, &raw), Ok(s("just-the-password")));
    let nothing = vec![Some(s("a=b")), None];
    assert_eq!(
        BitwardenService::resolve_master_password(None, None, &nothing),
        Err(s("Bitwarden master password not found. Please set BW_PASSWORD or BITWARDEN_MASTER_PASSWORD environment variable or create ~/.config/credentials/bitwarden_master_password."))
    );
}

#[test]
fn saved_master_password_reads_back() {
    let p = check_bitwarden_input("  hunter2 \n").unwrap();
    assert_eq!(p, "hunter2");
    let file = bitwarden_credentials_file(&p);
    assert_eq!(file, "BITWARDEN_MASTER_PASSWORD=hunter2\n");
    assert_eq!(bitwarden_value_from_file(&file), Some(s("hunter2")));
    assert_eq!(check_bitwarden_input("   "), None);
    assert_eq!(bitwarden_value_from_file("BITWARDEN_MASTER_PASSWORD=\n"), Some(s("")));
}

#[test]
fn sessions_are_cached() {
    let mut svc = BitwardenService::new();
    assert!(matches!(svc.begin_session(None), SessionStep::NeedUnlock));
    assert!(matches!(svc.begin_session(Some("   ")), SessionStep::NeedUnlock));
    let r = svc.finish_unlock(true, b"  sess-123\n", b"");
    assert_eq!(r, Ok(s("sess-123")));
    match svc.begin_session(Some("other")) {
        SessionStep::Ready(x) => assert_eq!(x, "sess-123"),
        SessionStep::NeedUnlock => panic!("session should be cached"),
    }
    let mut env = BitwardenService::default();
    match env.begin_session(Some(" from-env ")) {
        SessionStep::Ready(x) => assert_eq!(x, "from-env"),
        SessionStep::NeedUnlock => panic!("BW_SESSION should be adopted"),
    }
    match env.begin_session(None) {
        SessionStep::Ready(x) => assert_eq!(x, "from-env"),
        SessionStep::NeedUnlock => panic!("adopted session should be cached"),
    }
}

#[test]
fn failed_unlock_reports_stderr() {
    let mut svc = BitwardenService::new();
    let r = svc.finish_unlock(false, b"", b"Invalid master password.");
    assert_eq!(r, Err(s("bw unlock failed: Invalid master password.")));
    assert!(matches!(svc.begin_session(None), SessionStep::NeedUnlock));
    let lossy = svc.finish_unlock(false, b"", &[0x66, 0xff]);
    assert_eq!(lossy, Err(s("bw unlock failed: f\u{fffd}")));
    assert_eq!(
        BitwardenService::unlock_spawn_error("not found"),
        "Failed to execute bw unlock: not found"
    );
}

#[test]
fn commands_carry_the_session() {
    let args = BitwardenService::command_args(&vec![s("get"), s("item"), s("x")], "tok");
    assert_eq!(args, vec![s("get"), s("item"), s("x"), s("--session"), s("tok")]);
    assert_eq!(BitwardenService::status_args(), vec![s("status")]);
    assert_eq!(BitwardenService::sync_args(), vec![s("sync")]);
    assert_eq!(
        BitwardenService::list_items_args(&SearchParam { query: Some(s("crowdgen")) }),
        vec![s("list"), s("items"), s("--search"), s("crowdgen")]
    );
    assert_eq!(
        BitwardenService::list_items_args(&SearchParam { query: Some(s("")) }),
        vec![s("list"), s("items")]
    );
    assert_eq!(
        BitwardenService::list_items_args(&SearchParam { query: None }),
        vec![s("list"), s("items")]
    );
    assert_eq!(
        BitwardenService::get_args("totp", &GetItemParam { id_or_name: s("CrowdGen") }),
        vec![s("get"), s("totp"), s("CrowdGen")]
    );
}

#[test]
fn command_outcomes_become_replies() {
    assert_eq!(BitwardenService::command_outcome(true, b"{\"ok\":1}", b""), Ok(s("{\"ok\":1}")));
    assert_eq!(BitwardenService::command_outcome(false, b"", b"locked"), Err(s("bw error: locked")));
    assert_eq!(BitwardenService::run_spawn_error("gone"), "Failed to run bw: gone");
    assert_eq!(BitwardenService::passthrough(Ok(s("raw"))), "raw");
    assert_eq!(BitwardenService::passthrough(Err(s("bad"))), "{\"error\": \"bad\"}");
    assert_eq!(BitwardenService::sync_reply(Ok(s("x"))), "{\"status\": \"synced\"}");
    assert_eq!(BitwardenService::sync_reply(Err(s("bad"))), "{\"error\": \"bad\"}");
    assert_eq!(BitwardenService::value_reply(Ok(s("  secret\n"))), "secret");
    assert_eq!(BitwardenService::value_reply(Err(s("bad"))), "Error: bad");
    assert_eq!(error_json("x"), "{\"error\": \"x\"}");
}

fn obj(members: Vec<(&str, Json)>) -> Json {
    Json::Object(members.into_iter().map(|(k, v)| (s(k), v)).collect())
}

fn member<'a>(j: &'a Json, key: &str) -> &'a Json {
    match j {
        Json::Object(m) => &m.iter().find(|(k, _)| k == key).unwrap().1,
        _ => panic!("not an object"),
    }
}

#[test]
fn item_lists_are_simplified() {
    let item = obj(vec![
        ("object", Json::Str(s("item"))),
        ("id", Json::Str(s("abc"))),
        ("name", Json::Str(s("CrowdGen"))),
        ("type", Json::Number(serde_json::Number::from(1))),
        ("login", obj(vec![("username", Json::Str(s("user"))), ("password", Json::Str(s("pw")))])),
    ]);
    let out = simplify_item(item);
    match &out {
        Json::Object(m) => {
            let keys: Vec<&str> = m.iter().map(|(k, _)| k.as_str()).collect();
            assert_eq!(keys, vec!["id", "name", "type", "username"]);
        }
        _ => panic!("not an object"),
    }
    assert!(matches!(member(&out, "id"), Json::Str(v) if v == "abc"));
    assert!(matches!(member(&out, "type"), Json::Number(v) if v.to_string() == "1"));
    assert!(matches!(member(&out, "username"), Json::Str(v) if v == "user"));

    let note = obj(vec![("id", Json::Str(s("n1"))), ("type", Json::Number(serde_json::Number::from(2)))]);
    let out = simplify_item(note);
    assert!(matches!(member(&out, "name"), Json::Null));
    assert!(matches!(member(&out, "username"), Json::Null));

    let list = Json::Array(vec![obj(vec![("id", Json::Str(s("a")))]), Json::Null]);
    match simplify_items(list) {
        Some(Json::Array(items)) => {
            assert_eq!(items.len(), 2);
            assert!(matches!(member(&items[1], "id"), Json::Null));
        }
        _ => panic!("arrays simplify"),
    }
    assert!(simplify_items(Json::Str(s("x"))).is_none());
}

#[test]
fn list_output_keeps_only_safe_fields() {
    let raw = r#"[{"id":"a1","name":"Mail","type":1,"notes":"secret note","login":{"username":"me","password":"hunter2","totp":"JBSW"}},{"id":"n2","name":"Note","type":2}]"#;
    let out = list_items_output(Ok(s(raw)));
    let v: serde_json::Value = serde_json::from_str(&out).unwrap();
    let expected: serde_json::Value = serde_json::from_str(
        r#"[{"id":"a1","name":"Mail","type":1,"username":"me"},{"id":"n2","name":"Note","type":2,"username":null}]"#,
    )
    .unwrap();
    assert_eq!(v, expected);
    assert!(!out.contains("hunter2"));
    assert!(!out.contains("secret note"));
    assert!(!out.contains("JBSW"));
    assert!(out.contains('\n'));
    assert_eq!(list_items_output(Ok(s("not json"))), "not json");
    assert_eq!(list_items_output(Ok(s("{\"a\":1}"))), "{\"a\":1}");
    assert_eq!(list_items_output(Err(s("e"))), "{\"error\": \"e\"}");
}

#[test]
fn login_item_text_is_the_item_json() {
    let p = smcp::servers::bitwarden::CreateLoginItemParam {
        name: s("Site"),
        username: Some(s("me")),
        password: None,
        uri: Some(s("https://x.example")),
        notes: None,
    };
    let text = BitwardenService::login_item_text(&p);
    let v: serde_json::Value = serde_json::from_str(&text).unwrap();
    let expected: serde_json::Value = serde_json::from_str(
        r#"{"type":1,"name":"Site","notes":null,"login":{"username":"me","password":null,"uris":[{"uri":"https://x.example"}]}}"#,
    )
    .unwrap();
    assert_eq!(v, expected);
}

#[test]
fn generate_arguments_follow_switches() {
    let p = smcp::servers::bitwarden::GeneratePasswordParam {
        length: Some(24),
        special: Some(true),
        numbers: Some(false),
        uppercase: Some(true),
        lowercase: None,
    };
    assert_eq!(
        BitwardenService::generate_args(&p),
        vec![s("generate"), s("-u"), s("-s"), s("--length"), s("24")]
    );
    let none = smcp::servers::bitwarden::GeneratePasswordParam {
        length: None,
        special: None,
        numbers: None,
        uppercase: None,
        lowercase: None,
    };
    assert_eq!(BitwardenService::generate_args(&none), vec![s("generate")]);
}

#[test]
fn login_items_are_built_for_bw_create() {
    let p = smcp::servers::bitwarden::CreateLoginItemParam {
        name: s("Site"),
        username: Some(s("me")),
        password: None,
        uri: Some(s("https://example.com")),
        notes: None,
    };
    let item = BitwardenService::login_item(&p);
    assert!(matches!(member(&item, "type"), Json::Number(n) if n.to_string() == "1"));
    assert!(matches!(member(&item, "name"), Json::Str(n) if n == "Site"));
    assert!(matches!(member(&item, "notes"), Json::Null));
    let login = member(&item, "login");
    assert!(matches!(member(login, "username"), Json::Str(n) if n == "me"));
    assert!(matches!(member(login, "password"), Json::Null));
    match member(login, "uris") {
        Json::Array(u) => {
            assert_eq!(u.len(), 1);
            assert!(matches!(member(&u[0], "uri"), Json::Str(x) if x == "https://example.com"));
        }
        _ => panic!("uris is an array"),
    }
    assert_eq!(
        BitwardenService::create_item_args(" eyJ0eXBlIjoxfQ==\n"),
        vec![s("create"), s("item"), s("eyJ0eXBlIjoxfQ==")]
    );
}

#[test]
fn master_password_updates_report() {
    assert_eq!(PasswordSaveOutcome::Empty.status(), "error");
    assert_eq!(PasswordSaveOutcome::Empty.message(), "Master password cannot be empty.");
    assert_eq!(
        PasswordSaveOutcome::VerificationFailed(s("bw unlock failed: x")).message(),
        "Verification failed: bw unlock failed: x"
    );
    assert_eq!(
        PasswordSaveOutcome::CreateDirFailed(s("e")).message(),
        "Failed to create credentials directory: e"
    );
    assert_eq!(PasswordSaveOutcome::WriteFailed(s("e")).message(), "Failed to write credentials file: e");
    let saved = PasswordSaveOutcome::Saved { path: s("/p") };
    assert_eq!(saved.status(), "success");
    assert_eq!(saved.message(), "Bitwarden master password successfully verified and saved!");
}

#[test]
fn saving_the_master_password_tests_the_unlock_first() {
    let (mut flow, password) = SavePasswordFlow::start("  hunter2 ").unwrap();
    assert_eq!(password, "hunter2");
    assert!(flow.on_unlock(Ok(s("session-key"))).is_none());
    assert_eq!(flow.on_create_dir(Ok(())).unwrap(), "BITWARDEN_MASTER_PASSWORD=hunter2\n");
    match flow.on_write(s("/h/.config/credentials/bitwarden_master_password"), Ok(())) {
        PasswordSaveOutcome::Saved { path } => assert_eq!(path, "/h/.config/credentials/bitwarden_master_password"),
        other => panic!("unexpected outcome {other:?}"),
    }
    match flow.on_create_dir(Err(s("read-only"))) {
        Err(o) => assert_eq!(o.message(), "Failed to create credentials directory: read-only"),
        Ok(c) => panic!("unexpected content {c}"),
    }
}

#[test]
fn saving_the_master_password_stops_on_empty_input_or_failed_unlock() {
    match SavePasswordFlow::start("   ") {
        Err(o) => {
            assert_eq!(o.status(), "error");
            assert_eq!(o.message(), "Master password cannot be empty.");
        }
        Ok(_) => panic!("an empty password is refused"),
    }
    let (mut flow, _) = SavePasswordFlow::start("pw").unwrap();
    match flow.on_unlock(Err(s("bw unlock failed: Invalid master password."))) {
        Some(o) => assert_eq!(o.message(), "Verification failed: bw unlock failed: Invalid master password."),
        None => panic!("the unlock failed"),
    }
}

#[test]
fn listings_agreeing_on_shown_fields_give_the_same_list() {
    let a = r#"[{"id":"a1","name":"Mail","type":1,"login":{"username":"me","password":"one","totp":"T1"},"notes":"x"}]"#;
    let b = r#"[{"id":"a1","name":"Mail","type":1,"login":{"username":"me","password":"two"},"notes":"y","fields":[1]}]"#;
    assert_eq!(list_items_output(Ok(s(a))), list_items_output(Ok(s(b))));
}
