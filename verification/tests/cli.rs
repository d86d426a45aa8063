use assume_role::error::Error;
use assume_role::request::build_assume_role_request;
use assume_role::settings::{resolve_region, Cmdline};

fn argv(parts: &[&str]) -> Vec<String> {
    let mut v = vec!["assume-role".to_string()];
    for p in parts {
        v.push(p.to_string());
    }
    v
}

#[test]
fn parse_happy_path() {
    let args = argv(&["--role", "arn:aws:iam::111:role/R", "--session-name", "s1"]);
    let c = Cmdline::parse(&args, None).unwrap();
    assert_eq!(c.role_arn, "arn:aws:iam::111:role/R");
    assert_eq!(c.session_name, Some("s1".to_string()));
    assert_eq!(c.dest_profile, "default");
    assert!(!c.credential_process);
    assert!(!c.verbose);
    assert_eq!(c.duration, None);
    assert_eq!(c.policies, None);
}

#[test]
fn parse_missing_role_is_usage_error() {
    let args = argv(&["--session-name", "s1"]);
    let err = Cmdline::parse(&args, None).unwrap_err();
    assert_eq!(
        err,
        Error::Usage("missing required option --role".to_string())
    );
}

#[test]
fn parse_unrecognized_option_is_usage_error() {
    let args = argv(&["--role", "r", "--bogus"]);
    let err = Cmdline::parse(&args, None).unwrap_err();
    assert_eq!(err, Error::Usage("unrecognized option: --bogus".to_string()));
}

#[test]
fn parse_missing_value_is_usage_error() {
    let args = argv(&["--role"]);
    let err = Cmdline::parse(&args, None).unwrap_err();
    assert_eq!(
        err,
        Error::Usage("missing value for option: --role".to_string())
    );
}

#[test]
fn parse_duration_and_bad_duration() {
    let args = argv(&["--role", "r", "--duration", "3600"]);
    let c = Cmdline::parse(&args, None).unwrap();
    assert_eq!(c.duration, Some(3600));
    let args = argv(&["--role", "r", "--duration", "1h"]);
    let err = Cmdline::parse(&args, None).unwrap_err();
    assert_eq!(
        err,
        Error::Usage("invalid value for option --duration: 1h".to_string())
    );
    let args = argv(&["--role", "r", "--duration", "-900"]);
    let c = Cmdline::parse(&args, None).unwrap();
    assert_eq!(c.duration, Some(-900));
}

#[test]
fn parse_policies_keep_order() {
    let args = argv(&["--role", "r", "--policy", "arn:a", "--policy", "arn:b"]);
    let c = Cmdline::parse(&args, None).unwrap();
    assert_eq!(c.policies, Some(vec!["arn:a".to_string(), "arn:b".to_string()]));
}

#[test]
fn parse_short_flags_and_booleans() {
    let args = argv(&["-r", "r", "-p", "me", "-s", "sess", "-v", "--credential-process"]);
    let c = Cmdline::parse(&args, None).unwrap();
    assert_eq!(c.role_arn, "r");
    assert_eq!(c.profile, Some("me".to_string()));
    assert_eq!(c.session_name, Some("sess".to_string()));
    assert!(c.verbose);
    assert!(c.credential_process);
}

#[test]
fn credential_file_falls_back_to_environment() {
    let args = argv(&["--role", "r"]);
    let c = Cmdline::parse(&args, Some("/env/creds".to_string())).unwrap();
    assert_eq!(c.credential_file, Some("/env/creds".to_string()));
    let args = argv(&["--role", "r", "--credentials-file", "/cli/creds"]);
    let c = Cmdline::parse(&args, Some("/env/creds".to_string())).unwrap();
    assert_eq!(c.credential_file, Some("/cli/creds".to_string()));
}

#[test]
fn determine_credential_file_prefers_explicit_path() {
    let args = argv(&["--role", "r", "--credentials-file", "/tmp/creds"]);
    let c = Cmdline::parse(&args, None).unwrap();
    assert_eq!(c.determine_credential_file().unwrap(), "/tmp/creds");
}

#[test]
fn default_session_name_has_the_documented_shape() {
    let args = argv(&["--role", "r"]);
    let c = Cmdline::parse(&args, None).unwrap();
    let name = c.session_name();
    let rest = name.strip_prefix("assume-role-").expect("prefix");
    assert!(!rest.is_empty());
    assert!(rest.chars().all(|ch| ch.is_ascii_digit()));
}

#[test]
fn explicit_session_name_is_used_verbatim() {
    let args = argv(&["--role", "r", "--session-name", "mine"]);
    let c = Cmdline::parse(&args, None).unwrap();
    assert_eq!(c.session_name(), "mine");
}

#[test]
fn region_resolution_order() {
    assert_eq!(
        resolve_region(&Some("eu-west-1".to_string()), Some("ap-south-1".to_string())),
        "eu-west-1"
    );
    assert_eq!(
        resolve_region(&None, Some("ap-south-1".to_string())),
        "ap-south-1"
    );
    assert_eq!(resolve_region(&None, None), "us-east-1");
}

#[test]
fn request_includes_exactly_the_set_optionals() {
    let args = argv(&[
        "--role",
        "arn:r",
        "--session-name",
        "s1",
        "--external-id",
        "x",
        "--policy",
        "arn:a",
        "--policy",
        "arn:b",
    ]);
    let c = Cmdline::parse(&args, None).unwrap();
    let r = build_assume_role_request(&c);
    assert_eq!(r.role_arn, "arn:r");
    assert_eq!(r.role_session_name, "s1");
    assert_eq!(r.external_id, Some("x".to_string()));
    assert_eq!(r.policy_arns, Some(vec!["arn:a".to_string(), "arn:b".to_string()]));
    assert_eq!(r.duration_seconds, None);
    assert_eq!(r.serial_number, None);
    assert_eq!(r.token_code, None);
    assert_eq!(r.policy, None);
}

#[test]
fn remote_error_message_has_the_documented_prefix() {
    let err = Error::AssumeRoleFailed("AccessDenied: not allowed".to_string());
    assert_eq!(err.message(), "assume role failed: AccessDenied: not allowed");
    assert!(err.message().starts_with("assume role failed"));
}

#[test]
fn each_error_kind_carries_its_documented_message() {
    assert_eq!(Error::InvalidProxyUri.message(), "invalid proxy_uri");
    assert_eq!(
        Error::NoHomeDirectory.message(),
        "unable to determine home directory"
    );
    assert_eq!(
        Error::NoCredentialsInResponse.message(),
        "no credentials in response"
    );
    assert_eq!(
        Error::Usage("missing required option --role".to_string()).message(),
        "missing required option --role"
    );
}
