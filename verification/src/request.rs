//! The request record for the assume-role call: the settings mapped onto
//! the wire fields, each optional present exactly when its setting is.
//! The unverified edge copies this record one field at a time into the
//! endpoint client's builder and sends it.

use vstd::prelude::*;
use vstd::string::*;

use crate::settings::{is_default_session_name, Cmdline};

verus! {

/// The fields of an assume-role request. The role and the session name are
/// always present; every other field is sent only when set, never as an
/// empty string or zero.
pub struct AssumeRoleRequest {
    pub role_arn: String,
    pub role_session_name: String,
    pub duration_seconds: Option<i32>,
    pub external_id: Option<String>,
    pub serial_number: Option<String>,
    pub token_code: Option<String>,
    pub policy_arns: Option<Vec<String>>,
    pub policy: Option<String>,
}

fn clone_opt_string(s: &Option<String>) -> (r: Option<String>)
    ensures
        r.deep_view() == s.deep_view(),
{
    match s {
        Some(v) => Some(v.clone()),
        None => None,
    }
}

fn clone_strings(v: &Vec<String>) -> (r: Vec<String>)
    ensures
        r.deep_view() == v.deep_view(),
{
    let mut r: Vec<String> = Vec::new();
    let mut i: usize = 0;
    while i < v.len()
        invariant
            i <= v@.len(),
            r@.len() == i,
            forall|j: int| 0 <= j < i ==> r@[j]@ == #[trigger] v@[j]@,
        decreases v@.len() - i,
    {
        r.push(v[i].clone());
        i = i + 1;
    }
    proof {
        assert forall|j: int| 0 <= j < v@.len() implies r.deep_view()[j] == #[trigger] v.deep_view()[j] by {
            assert(r.deep_view()[j] == r@[j]@);
            assert(v.deep_view()[j] == v@[j]@);
        }
        assert(r.deep_view() =~= v.deep_view());
    }
    r
}

/// Maps the settings onto the request: the role and a session name (the
/// given one, or a fresh default) always; each optional field exactly when
/// its setting is present, in the order supplied for the policy list.
pub fn build_assume_role_request(cmdline: &Cmdline) -> (r: AssumeRoleRequest)
    ensures
        r.role_arn@ == cmdline.role_arn@,
        match cmdline.session_name {
            Some(n) => r.role_session_name@ == n@,
            None => is_default_session_name(r.role_session_name@),
        },
        r.duration_seconds == cmdline.duration,
        r.external_id.deep_view() == cmdline.external_id.deep_view(),
        r.serial_number.deep_view() == cmdline.mfa_serial_number.deep_view(),
        r.token_code.deep_view() == cmdline.mfa_token.deep_view(),
        r.policy_arns.deep_view() == cmdline.policies.deep_view(),
        r.policy.deep_view() == cmdline.policy_json.deep_view(),
{
    AssumeRoleRequest {
        role_arn: cmdline.role_arn.clone(),
        role_session_name: cmdline.session_name(),
        duration_seconds: cmdline.duration,
        external_id: clone_opt_string(&cmdline.external_id),
        serial_number: clone_opt_string(&cmdline.mfa_serial_number),
        token_code: clone_opt_string(&cmdline.mfa_token),
        policy_arns: match &cmdline.policies {
            Some(ps) => Some(clone_strings(ps)),
            None => None,
        },
        policy: clone_opt_string(&cmdline.policy_json),
    }
}

} // verus!
