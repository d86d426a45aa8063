use assume_role::credentials::Credentials;
use assume_role::credfile::CredentialFile;
use assume_role::error::Error;

fn creds(ak: &str, sk: &str, tk: &str, exp: &str) -> Credentials {
    Credentials {
        access_key_id: ak.to_string(),
        secret_access_key: sk.to_string(),
        session_token: tk.to_string(),
        expiration: exp.to_string(),
    }
}

#[test]
fn load_missing_file_returns_empty() {
    let cred = CredentialFile::load(None, "assume_role_test_missing.ini").expect(
        "load should succeed",
    );
    assert!(cred.sections.is_empty());
}

#[test]
fn save_of_empty_file_is_empty_text() {
    let cred = CredentialFile::load(None, "whatever").unwrap();
    assert_eq!(cred.save(), "");
}

#[test]
fn set_credentials_on_empty_file_writes_three_keys() {
    let mut file = CredentialFile::load(None, "p").unwrap();
    file.set_credentials("default", &creds("AK", "SK", "TK", "2030-01-01T00:00:00Z"));
    let text = file.save();
    assert_eq!(
        text,
        "[default]\naws_access_key_id = AK\naws_secret_access_key = SK\naws_session_token = TK\n"
    );
}

#[test]
fn round_trip_preserves_other_profiles() {
    let text = "[default]\nk1 = v1\nregion = us-west-2\n\n[other]\nfoo = bar\n".to_string();
    let mut file = CredentialFile::load(Some(&text), "p").unwrap();
    file.set_credentials("work", &creds("AK", "SK", "TK", "x"));
    let out = file.save();
    let reloaded = CredentialFile::load(Some(&out), "p").unwrap();
    assert_eq!(reloaded.sections.len(), 3);
    assert_eq!(reloaded.sections[0].name, "default");
    assert_eq!(reloaded.sections[0].entries.len(), 2);
    assert_eq!(reloaded.sections[0].entries[0].key, "k1");
    assert_eq!(reloaded.sections[0].entries[0].value, "v1");
    assert_eq!(reloaded.sections[0].entries[1].key, "region");
    assert_eq!(reloaded.sections[0].entries[1].value, "us-west-2");
    assert_eq!(reloaded.sections[1].name, "other");
    assert_eq!(reloaded.sections[1].entries.len(), 1);
    assert_eq!(reloaded.sections[1].entries[0].key, "foo");
    assert_eq!(reloaded.sections[1].entries[0].value, "bar");
    assert_eq!(reloaded.sections[2].name, "work");
    assert_eq!(reloaded.sections[2].entries.len(), 3);
}

#[test]
fn set_credentials_overwrites_stale_keys() {
    let text = "[default]\naws_access_key_id = OLD\nregion = us-west-2\n".to_string();
    let mut file = CredentialFile::load(Some(&text), "p").unwrap();
    file.set_credentials("default", &creds("NEWAK", "NEWSK", "NEWTK", "x"));
    let reloaded = CredentialFile::load(Some(&file.save()), "p").unwrap();
    assert_eq!(reloaded.sections.len(), 1);
    let sec = &reloaded.sections[0];
    assert_eq!(sec.name, "default");
    assert_eq!(sec.entries.len(), 3);
    assert_eq!(sec.entries[0].key, "aws_access_key_id");
    assert_eq!(sec.entries[0].value, "NEWAK");
    assert_eq!(sec.entries[1].key, "aws_secret_access_key");
    assert_eq!(sec.entries[1].value, "NEWSK");
    assert_eq!(sec.entries[2].key, "aws_session_token");
    assert_eq!(sec.entries[2].value, "NEWTK");
    assert!(!file.save().contains("region"));
    assert!(!file.save().contains("OLD"));
}

#[test]
fn comments_and_blank_lines_are_skipped() {
    let text = "; a comment\n\n[default]\n# another\nk = v\n".to_string();
    let file = CredentialFile::load(Some(&text), "p").unwrap();
    assert_eq!(file.sections.len(), 1);
    assert_eq!(file.sections[0].entries.len(), 1);
    assert_eq!(file.sections[0].entries[0].key, "k");
    assert_eq!(file.sections[0].entries[0].value, "v");
}

#[test]
fn malformed_file_is_an_error_naming_the_path() {
    let text = "key-before-any-section = v\n".to_string();
    let err = CredentialFile::load(Some(&text), "/home/u/.aws/credentials").unwrap_err();
    assert_eq!(
        err,
        Error::MalformedCredentialFile("/home/u/.aws/credentials".to_string())
    );
    assert_eq!(
        err.message(),
        "unable to load credential file /home/u/.aws/credentials"
    );
    let garbage = "not an ini line\n".to_string();
    assert!(CredentialFile::load(Some(&garbage), "p").is_err());
}

#[test]
fn values_keep_inner_spaces_and_lose_outer_ones() {
    let text = "[a]\n  key  =  some value here  \n".to_string();
    let file = CredentialFile::load(Some(&text), "p").unwrap();
    assert_eq!(file.sections[0].entries[0].key, "key");
    assert_eq!(file.sections[0].entries[0].value, "some value here");
}
