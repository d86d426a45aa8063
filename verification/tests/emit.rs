use assume_role::credentials::Credentials;
use assume_role::orchestrate::{render_output, Output};
use assume_role::process::CredentialProcessOutput;
use assume_role::settings::Cmdline;

fn creds() -> Credentials {
    Credentials {
        access_key_id: "AK".to_string(),
        secret_access_key: "SK".to_string(),
        session_token: "TK".to_string(),
        expiration: "2030-01-01T00:00:00Z".to_string(),
    }
}

fn parse(parts: &[&str]) -> Cmdline {
    let mut v = vec!["assume-role".to_string()];
    for p in parts {
        v.push(p.to_string());
    }
    Cmdline::parse(&v, None).unwrap()
}

#[test]
fn emitted_json_is_exactly_the_documented_object() {
    let out = CredentialProcessOutput::from_credentials(&creds());
    assert_eq!(out.version, 1);
    assert_eq!(
        out.to_json(),
        "{\"Version\":1,\"AccessKeyId\":\"AK\",\"SecretAccessKey\":\"SK\",\"SessionToken\":\"TK\",\"Expiration\":\"2030-01-01T00:00:00Z\"}"
    );
}

#[test]
fn emitted_json_round_trips_with_exactly_five_members() {
    let out = CredentialProcessOutput::from_credentials(&creds());
    let text = out.to_json();
    let value: serde_json::Value = serde_json::from_str(&text).expect("valid JSON");
    let obj = value.as_object().expect("an object");
    assert_eq!(obj.len(), 5);
    assert_eq!(obj.get("Version").unwrap().as_i64().unwrap(), 1);
    assert_eq!(obj.get("AccessKeyId").unwrap().as_str().unwrap(), "AK");
    assert_eq!(obj.get("SecretAccessKey").unwrap().as_str().unwrap(), "SK");
    assert_eq!(obj.get("SessionToken").unwrap().as_str().unwrap(), "TK");
    assert_eq!(
        obj.get("Expiration").unwrap().as_str().unwrap(),
        "2030-01-01T00:00:00Z"
    );
}

#[test]
fn json_escaping_round_trips_through_a_json_parser() {
    let tricky = Credentials {
        access_key_id: "a\"b".to_string(),
        secret_access_key: "back\\slash".to_string(),
        session_token: "line\nbreak\tand\rcontrol\u{01}end".to_string(),
        expiration: "2030-01-01T00:00:00Z".to_string(),
    };
    let out = CredentialProcessOutput::from_credentials(&tricky);
    let text = out.to_json();
    let value: serde_json::Value = serde_json::from_str(&text).expect("valid JSON");
    let obj = value.as_object().unwrap();
    assert_eq!(obj.get("AccessKeyId").unwrap().as_str().unwrap(), "a\"b");
    assert_eq!(
        obj.get("SecretAccessKey").unwrap().as_str().unwrap(),
        "back\\slash"
    );
    assert_eq!(
        obj.get("SessionToken").unwrap().as_str().unwrap(),
        "line\nbreak\tand\rcontrol\u{01}end"
    );
}

#[test]
fn process_mode_emits_json_and_writes_no_file() {
    let cmdline = parse(&[
        "--role",
        "arn:aws:iam::111:role/R",
        "--session-name",
        "s1",
        "--credential-process",
    ]);
    let existing = "[default]\nk = v\n".to_string();
    let out = render_output(&cmdline, &creds(), "/tmp/creds".to_string(), Some(&existing)).unwrap();
    match out {
        Output::Stdout(s) => {
            assert_eq!(
                s,
                "{\"Version\":1,\"AccessKeyId\":\"AK\",\"SecretAccessKey\":\"SK\",\"SessionToken\":\"TK\",\"Expiration\":\"2030-01-01T00:00:00Z\"}"
            );
        },
        Output::FileWrite { .. } => panic!("process mode must not write a file"),
    }
}

#[test]
fn file_mode_creates_the_default_profile() {
    let cmdline = parse(&["--role", "arn:aws:iam::111:role/R", "--session-name", "s1"]);
    let out = render_output(&cmdline, &creds(), "/tmp/creds".to_string(), None).unwrap();
    match out {
        Output::FileWrite { path, content } => {
            assert_eq!(path, "/tmp/creds");
            assert_eq!(
                content,
                "[default]\naws_access_key_id = AK\naws_secret_access_key = SK\naws_session_token = TK\n"
            );
        },
        Output::Stdout(_) => panic!("file mode must not print credentials"),
    }
}

#[test]
fn file_mode_appends_new_profile_and_preserves_the_rest() {
    let cmdline = parse(&["--role", "r", "--dest-profile", "work"]);
    let existing = "[default]\na = 1\n[other]\nb = 2\n".to_string();
    let out = render_output(&cmdline, &creds(), "p".to_string(), Some(&existing)).unwrap();
    match out {
        Output::FileWrite { content, .. } => {
            assert_eq!(
                content,
                "[default]\na = 1\n[other]\nb = 2\n[work]\naws_access_key_id = AK\naws_secret_access_key = SK\naws_session_token = TK\n"
            );
        },
        Output::Stdout(_) => panic!("file mode must not print credentials"),
    }
}
