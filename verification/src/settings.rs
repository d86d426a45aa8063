//! The resolved tool configuration: a verified command-line parser, the
//! lazily synthesized session name, and resolution of the region and of the
//! destination credential-file path.

use vstd::prelude::*;
use vstd::string::*;

use crate::error::Error;
use crate::strutil::{
    is_dec_digit,
    lemma_dec_digits_are_digits,
    parse_i32,
    spec_dec_digits,
    spec_parse_i32,
    str_eq,
    u64_to_string,
};

verus! {

/// The options recognized on the command line, resolved into one record.
#[derive(Debug)]
pub struct Cmdline {
    /// Source profile used when calling the endpoint.
    pub profile: Option<String>,
    /// Region for the endpoint.
    pub region: Option<String>,
    /// Lifetime in seconds for the temporary credentials.
    pub duration: Option<i32>,
    /// External ID to pass along.
    pub external_id: Option<String>,
    /// Inline session policy document.
    pub policy_json: Option<String>,
    /// Managed session policies, in the order supplied.
    pub policies: Option<Vec<String>>,
    /// The role to assume. Required; never empty after a successful parse.
    pub role_arn: String,
    /// Session name; a default is synthesized at request-build time when
    /// unset.
    pub session_name: Option<String>,
    /// MFA device serial number.
    pub mfa_serial_number: Option<String>,
    /// MFA token code.
    pub mfa_token: Option<String>,
    /// Destination credential file.
    pub credential_file: Option<String>,
    /// Profile whose section receives the new credentials.
    pub dest_profile: String,
    /// Forward proxy URL.
    pub proxy: Option<String>,
    /// Emit credentials on standard output instead of writing a file.
    pub credential_process: bool,
    /// Cache file when emitting on standard output. Declared and accepted,
    /// but deliberately unused: its behavior is unspecified.
    pub credential_process_cache: Option<String>,
    /// Verbose output.
    pub verbose: bool,
}

/// The mathematical value of a `Cmdline`.
#[verifier::ext_equal]
pub struct CmdlineV {
    pub profile: Option<Seq<char>>,
    pub region: Option<Seq<char>>,
    pub duration: Option<int>,
    pub external_id: Option<Seq<char>>,
    pub policy_json: Option<Seq<char>>,
    pub policies: Option<Seq<Seq<char>>>,
    pub role_arn: Seq<char>,
    pub session_name: Option<Seq<char>>,
    pub mfa_serial_number: Option<Seq<char>>,
    pub mfa_token: Option<Seq<char>>,
    pub credential_file: Option<Seq<char>>,
    pub dest_profile: Seq<char>,
    pub proxy: Option<Seq<char>>,
    pub credential_process: bool,
    pub credential_process_cache: Option<Seq<char>>,
    pub verbose: bool,
}

impl View for Cmdline {
    type V = CmdlineV;

    open spec fn view(&self) -> CmdlineV {
        CmdlineV {
            profile: self.profile.deep_view(),
            region: self.region.deep_view(),
            duration: match self.duration {
                Some(d) => Some(d as int),
                None => None,
            },
            external_id: self.external_id.deep_view(),
            policy_json: self.policy_json.deep_view(),
            policies: self.policies.deep_view(),
            role_arn: self.role_arn@,
            session_name: self.session_name.deep_view(),
            mfa_serial_number: self.mfa_serial_number.deep_view(),
            mfa_token: self.mfa_token.deep_view(),
            credential_file: self.credential_file.deep_view(),
            dest_profile: self.dest_profile@,
            proxy: self.proxy.deep_view(),
            credential_process: self.credential_process,
            credential_process_cache: self.credential_process_cache.deep_view(),
            verbose: self.verbose,
        }
    }
}

/// The accumulator a parse starts from: everything unset, the destination
/// profile at its default.
pub open spec fn init_cmdline_v() -> CmdlineV {
    CmdlineV {
        profile: None,
        region: None,
        duration: None,
        external_id: None,
        policy_json: None,
        policies: None,
        role_arn: Seq::empty(),
        session_name: None,
        mfa_serial_number: None,
        mfa_token: None,
        credential_file: None,
        dest_profile: "default"@,
        proxy: None,
        credential_process: false,
        credential_process_cache: None,
        verbose: false,
    }
}

pub open spec fn msg_missing_value(a: Seq<char>) -> Seq<char> {
    "missing value for option: "@ + a
}

pub open spec fn msg_unrecognized(a: Seq<char>) -> Seq<char> {
    "unrecognized option: "@ + a
}

pub open spec fn msg_invalid_duration(v: Seq<char>) -> Seq<char> {
    "invalid value for option --duration: "@ + v
}

pub open spec fn msg_missing_role() -> Seq<char> {
    "missing required option --role"@
}

/// Whether `a` is an option that takes a value in the following argument.
pub open spec fn is_value_flag(a: Seq<char>) -> bool {
    ||| a == "--profile"@
    ||| a == "-p"@
    ||| a == "--region"@
    ||| a == "--duration"@
    ||| a == "--external-id"@
    ||| a == "--policy-json"@
    ||| a == "--policy"@
    ||| a == "--role"@
    ||| a == "-r"@
    ||| a == "--session-name"@
    ||| a == "-s"@
    ||| a == "--mfa-serial-number"@
    ||| a == "--mfa"@
    ||| a == "--credentials-file"@
    ||| a == "--dest-profile"@
    ||| a == "--proxy"@
    ||| a == "--credential-process-cache"@
}

/// The accumulator after a value option `a` set to `v`. Repeated options
/// keep the last value, except `--policy`, which appends.
pub open spec fn update_value_flag(acc: CmdlineV, a: Seq<char>, v: Seq<char>) -> CmdlineV {
    if a == "--profile"@ || a == "-p"@ {
        CmdlineV { profile: Some(v), ..acc }
    } else if a == "--region"@ {
        CmdlineV { region: Some(v), ..acc }
    } else if a == "--external-id"@ {
        CmdlineV { external_id: Some(v), ..acc }
    } else if a == "--policy-json"@ {
        CmdlineV { policy_json: Some(v), ..acc }
    } else if a == "--policy"@ {
        CmdlineV {
            policies: Some(
                match acc.policies {
                    Some(ps) => ps.push(v),
                    None => seq![v],
                },
            ),
            ..acc
        }
    } else if a == "--role"@ || a == "-r"@ {
        CmdlineV { role_arn: v, ..acc }
    } else if a == "--session-name"@ || a == "-s"@ {
        CmdlineV { session_name: Some(v), ..acc }
    } else if a == "--mfa-serial-number"@ {
        CmdlineV { mfa_serial_number: Some(v), ..acc }
    } else if a == "--mfa"@ {
        CmdlineV { mfa_token: Some(v), ..acc }
    } else if a == "--credentials-file"@ {
        CmdlineV { credential_file: Some(v), ..acc }
    } else if a == "--dest-profile"@ {
        CmdlineV { dest_profile: v, ..acc }
    } else if a == "--proxy"@ {
        CmdlineV { proxy: Some(v), ..acc }
    } else {
        CmdlineV { credential_process_cache: Some(v), ..acc }
    }
}

/// One pass over the arguments from position `i` on, folding them into
/// `acc`; at the end the role must have been supplied.
pub open spec fn spec_parse_args_from(args: Seq<Seq<char>>, i: int, acc: CmdlineV) -> Result<
    CmdlineV,
    Seq<char>,
>
    decreases args.len() - i,
{
    if i < 0 || i >= args.len() {
        if acc.role_arn.len() == 0 {
            Err(msg_missing_role())
        } else {
            Ok(acc)
        }
    } else {
        let a = args[i];
        if a == "--credential-process"@ {
            spec_parse_args_from(args, i + 1, CmdlineV { credential_process: true, ..acc })
        } else if a == "--verbose"@ || a == "-v"@ {
            spec_parse_args_from(args, i + 1, CmdlineV { verbose: true, ..acc })
        } else if is_value_flag(a) {
            if i + 1 >= args.len() {
                Err(msg_missing_value(a))
            } else {
                let v = args[i + 1];
                if a == "--duration"@ {
                    match spec_parse_i32(v) {
                        Some(d) => spec_parse_args_from(
                            args,
                            i + 2,
                            CmdlineV { duration: Some(d), ..acc },
                        ),
                        None => Err(msg_invalid_duration(v)),
                    }
                } else {
                    spec_parse_args_from(args, i + 2, update_value_flag(acc, a, v))
                }
            }
        } else {
            Err(msg_unrecognized(a))
        }
    }
}

/// What a whole command line resolves to: the fold over the arguments after
/// the program name, then the environment fallback for the credential file.
pub open spec fn spec_parse(args: Seq<Seq<char>>, env_credential_file: Option<Seq<char>>) -> Result<
    CmdlineV,
    Seq<char>,
> {
    match spec_parse_args_from(args, 1, init_cmdline_v()) {
        Ok(c) => Ok(
            CmdlineV {
                credential_file: if c.credential_file is Some {
                    c.credential_file
                } else {
                    env_credential_file
                },
                ..c
            },
        ),
        Err(m) => Err(m),
    }
}

/// Executable mirror of `is_value_flag`.
fn is_value_flag_exec(a: &str) -> (r: bool)
    ensures
        r == is_value_flag(a@),
{
    str_eq(a, "--profile") || str_eq(a, "-p") || str_eq(a, "--region") || str_eq(a, "--duration")
        || str_eq(a, "--external-id") || str_eq(a, "--policy-json") || str_eq(a, "--policy")
        || str_eq(a, "--role") || str_eq(a, "-r") || str_eq(a, "--session-name") || str_eq(a, "-s")
        || str_eq(a, "--mfa-serial-number") || str_eq(a, "--mfa") || str_eq(a, "--credentials-file")
        || str_eq(a, "--dest-profile") || str_eq(a, "--proxy") || str_eq(
        a,
        "--credential-process-cache",
    )
}

/// Stores the value of one value option, exactly as `update_value_flag`
/// says.
fn apply_value_flag(c: Cmdline, a: &str, v: String) -> (r: Cmdline)
    requires
        is_value_flag(a@),
        a@ != "--duration"@,
    ensures
        r@ == update_value_flag(c@, a@, v@),
{
    let ghost c0 = c@;
    let mut c = c;
    if str_eq(a, "--profile") || str_eq(a, "-p") {
        c.profile = Some(v);
        proof {
            assert(c@ =~= (CmdlineV { profile: Some(v@), ..c0 }));
        }
    } else if str_eq(a, "--region") {
        c.region = Some(v);
        proof {
            assert(c@ =~= (CmdlineV { region: Some(v@), ..c0 }));
        }
    } else if str_eq(a, "--external-id") {
        c.external_id = Some(v);
        proof {
            assert(c@ =~= (CmdlineV { external_id: Some(v@), ..c0 }));
        }
    } else if str_eq(a, "--policy-json") {
        c.policy_json = Some(v);
        proof {
            assert(c@ =~= (CmdlineV { policy_json: Some(v@), ..c0 }));
        }
    } else if str_eq(a, "--policy") {
        let ghost vv = v@;
        let mut ps = match c.policies {
            Some(p) => p,
            None => Vec::new(),
        };
        let ghost ps0 = ps.deep_view();
        ps.push(v);
        proof {
            assert(ps.deep_view() =~= ps0.push(vv));
            if c0.policies is None {
                assert(ps.deep_view() =~= seq![vv]);
            }
        }
        c.policies = Some(ps);
        proof {
            assert(c@ =~= update_value_flag(c0, a@, vv));
        }
    } else if str_eq(a, "--role") || str_eq(a, "-r") {
        c.role_arn = v;
        proof {
            assert(c@ =~= (CmdlineV { role_arn: v@, ..c0 }));
        }
    } else if str_eq(a, "--session-name") || str_eq(a, "-s") {
        c.session_name = Some(v);
        proof {
            assert(c@ =~= (CmdlineV { session_name: Some(v@), ..c0 }));
        }
    } else if str_eq(a, "--mfa-serial-number") {
        c.mfa_serial_number = Some(v);
        proof {
            assert(c@ =~= (CmdlineV { mfa_serial_number: Some(v@), ..c0 }));
        }
    } else if str_eq(a, "--mfa") {
        c.mfa_token = Some(v);
        proof {
            assert(c@ =~= (CmdlineV { mfa_token: Some(v@), ..c0 }));
        }
    } else if str_eq(a, "--credentials-file") {
        c.credential_file = Some(v);
        proof {
            assert(c@ =~= (CmdlineV { credential_file: Some(v@), ..c0 }));
        }
    } else if str_eq(a, "--dest-profile") {
        c.dest_profile = v;
        proof {
            assert(c@ =~= (CmdlineV { dest_profile: v@, ..c0 }));
        }
    } else if str_eq(a, "--proxy") {
        c.proxy = Some(v);
        proof {
            assert(c@ =~= (CmdlineV { proxy: Some(v@), ..c0 }));
        }
    } else {
        c.credential_process_cache = Some(v);
        proof {
            assert(c@ =~= (CmdlineV { credential_process_cache: Some(v@), ..c0 }));
        }
    }
    c
}

impl Cmdline {
    /// Parses the full argument vector (program name first), with the
    /// environment value of the shared-credentials-file variable as the
    /// fallback for `--credentials-file`. Returns a usage error exactly on
    /// the command lines `spec_parse` rejects.
    pub fn parse(args: &Vec<String>, env_credential_file: Option<String>) -> (r: Result<
        Cmdline,
        Error,
    >)
        ensures
            match r {
                Ok(c) => spec_parse(args.deep_view(), env_credential_file.deep_view()) == Ok::<
                    CmdlineV,
                    Seq<char>,
                >(c@),
                Err(e) => {
                    &&& e matches Error::Usage(m)
                    &&& spec_parse(args.deep_view(), env_credential_file.deep_view()) == Err::<
                        CmdlineV,
                        Seq<char>,
                    >(m@)
                },
            },
    {
        let ghost dv = args.deep_view();
        let mut c = Cmdline {
            profile: None,
            region: None,
            duration: None,
            external_id: None,
            policy_json: None,
            policies: None,
            role_arn: String::new(),
            session_name: None,
            mfa_serial_number: None,
            mfa_token: None,
            credential_file: None,
            dest_profile: String::from_str("default"),
            proxy: None,
            credential_process: false,
            credential_process_cache: None,
            verbose: false,
        };
        proof {
            assert(c@ =~= init_cmdline_v());
        }
        let n = args.len();
        let mut i: usize = 1;
        while i < n
            invariant
                n == args@.len(),
                dv == args.deep_view(),
                dv.len() == n,
                1 <= i,
                spec_parse_args_from(dv, 1, init_cmdline_v()) == spec_parse_args_from(
                    dv,
                    i as int,
                    c@,
                ),
            decreases n - i,
        {
            proof {
                assert(dv[i as int] == args@[i as int]@);
                if i + 1 < n {
                    assert(dv[i + 1] == args@[i + 1]@);
                }
            }
            let ghost i0 = i as int;
            let ghost c0 = c@;
            let arg = &args[i];
            if str_eq(arg, "--credential-process") {
                c.credential_process = true;
                proof {
                    assert(c@ =~= (CmdlineV { credential_process: true, ..c0 }));
                }
                i = i + 1;
            } else if str_eq(arg, "--verbose") || str_eq(arg, "-v") {
                c.verbose = true;
                proof {
                    assert(c@ =~= (CmdlineV { verbose: true, ..c0 }));
                }
                i = i + 1;
            } else if is_value_flag_exec(arg.as_str()) {
                if i + 1 >= n {
                    return Err(Error::Usage(String::from_str(
                        "missing value for option: ",
                    ).concat(arg.as_str())));
                }
                let v = args[i + 1].clone();
                if str_eq(arg, "--duration") {
                    match parse_i32(v.as_str()) {
                        Some(d) => {
                            c.duration = Some(d);
                            proof {
                                assert(c@ =~= (CmdlineV { duration: Some(d as int), ..c0 }));
                            }
                            i = i + 2;
                        },
                        None => {
                            return Err(Error::Usage(String::from_str(
                                "invalid value for option --duration: ",
                            ).concat(v.as_str())));
                        },
                    }
                } else {
                    c = apply_value_flag(c, arg.as_str(), v);
                    i = i + 2;
                }
            } else {
                return Err(Error::Usage(String::from_str("unrecognized option: ").concat(
                    arg.as_str(),
                )));
            }
            proof {
                assert(spec_parse_args_from(dv, i0, c0) == spec_parse_args_from(dv, i as int, c@));
            }
        }
        if c.role_arn.as_str().is_empty() {
            return Err(Error::Usage(String::from_str("missing required option --role")));
        }
        if c.credential_file.is_none() {
            c.credential_file = env_credential_file;
        }
        Ok(c)
    }

    /// The session name to send: the explicit one, or a default derived
    /// from the clock at call time, so that repeat invocations get
    /// distinct names.
    pub fn session_name(&self) -> (r: String)
        ensures
            match self.session_name {
                Some(n) => r@ == n@,
                None => is_default_session_name(r@),
            },
    {
        match &self.session_name {
            Some(name) => name.clone(),
            None => {
                let ts = unix_now_secs();
                let mut s = String::from_str("assume-role-");
                s.append(u64_to_string(ts).as_str());
                proof {
                    assert(s@ == default_session_name_of(ts as nat));
                }
                s
            },
        }
    }

    /// The file the new credentials go to: the explicit path if one was
    /// given (on the command line or from the environment), otherwise
    /// `.aws/credentials` under the home directory; an error when no home
    /// directory can be determined.
    pub fn determine_credential_file(&self) -> (r: Result<String, Error>)
        ensures
            match self.credential_file {
                Some(f) => r matches Ok(p) && p@ == f@,
                None => match r {
                    Ok(p) => ends_with(p@, "/.aws/credentials"@),
                    Err(e) => e == Error::NoHomeDirectory,
                },
            },
    {
        match &self.credential_file {
            Some(f) => Ok(f.clone()),
            None => match home_dir() {
                Some(home) => {
                    let ghost h = home@;
                    let p = home.concat("/.aws/credentials");
                    proof {
                        assert(p@.subrange(
                            h.len() as int,
                            p@.len() as int,
                        ) =~= "/.aws/credentials"@);
                    }
                    Ok(p)
                },
                None => Err(Error::NoHomeDirectory),
            },
        }
    }
}

/// The region the endpoint is called in: the explicit setting, else the
/// environment's default region, else the fixed fallback.
pub open spec fn spec_resolve_region(
    explicit: Option<Seq<char>>,
    env_region: Option<Seq<char>>,
) -> Seq<char> {
    match explicit {
        Some(r) => r,
        None => match env_region {
            Some(r) => r,
            None => "us-east-1"@,
        },
    }
}

/// Resolves the region from the explicit setting and the environment.
pub fn resolve_region(explicit: &Option<String>, env_region: Option<String>) -> (r: String)
    ensures
        r@ == spec_resolve_region(explicit.deep_view(), env_region.deep_view()),
{
    match explicit {
        Some(e) => e.clone(),
        None => match env_region {
            Some(e) => e,
            None => String::from_str("us-east-1"),
        },
    }
}

/// The default session name derived from a clock reading.
pub open spec fn default_session_name_of(n: nat) -> Seq<char> {
    "assume-role-"@ + spec_dec_digits(n)
}

/// Whether `s` has the shape of a synthesized default session name.
pub open spec fn is_default_session_name(s: Seq<char>) -> bool {
    exists|n: nat| s == default_session_name_of(n)
}

/// Whether `t` is a suffix of `s`.
pub open spec fn ends_with(s: Seq<char>, t: Seq<char>) -> bool {
    s.len() >= t.len() && s.subrange(s.len() - t.len(), s.len() as int) == t
}

/// Every default session name is `assume-role-` followed by one or more
/// decimal digits and nothing else.
pub proof fn lemma_default_session_name_shape(s: Seq<char>)
    requires
        is_default_session_name(s),
    ensures
        s.len() > 12,
        s.subrange(0, 12) == "assume-role-"@,
        forall|i: int| 12 <= i < s.len() ==> is_dec_digit(#[trigger] s[i]),
{
    reveal_strlit("assume-role-");
    let n = choose|n: nat| s == default_session_name_of(n);
    lemma_dec_digits_are_digits(n);
    assert(s.subrange(0, 12) =~= "assume-role-"@);
    assert forall|i: int| 12 <= i < s.len() implies is_dec_digit(#[trigger] s[i]) by {
        assert(s[i] == spec_dec_digits(n)[i - 12]);
    }
}

/// Relies on `std::time::SystemTime`: the seconds of the system clock
/// since the Unix epoch (zero if the clock reads before the epoch).
/// Nothing can be promised of a clock reading.
#[verifier::external_body]
fn unix_now_secs() -> u64 {
    std::time::SystemTime::now().duration_since(std::time::UNIX_EPOCH).unwrap_or_default().as_secs()
}

/// Relies on `directories::UserDirs`: the user's home directory, if one
/// can be determined and spelled in Unicode. Nothing can be promised of a
/// value that depends on the environment.
#[verifier::external_body]
fn home_dir() -> Option<String> {
    match directories::UserDirs::new() {
        Some(dirs) => dirs.home_dir().to_str().map(|s| s.to_string()),
        None => None,
    }
}

} // verus!
