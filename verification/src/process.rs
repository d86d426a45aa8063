//! The credential-process emitter: renders a successful response as the
//! one JSON object the downstream consumer reads from standard output,
//! with its five fixed member names.

use vstd::prelude::*;
use vstd::string::*;

use crate::credentials::{Credentials, CredentialsV};
use crate::strutil::{i32_to_string, spec_digit_char, spec_i32_dec};

verus! {

/// What the consumer of `--credential-process` output expects: a version
/// marker (always one) and the four credential strings.
pub struct CredentialProcessOutput {
    pub version: i32,
    pub access_key_id: String,
    pub secret_access_key: String,
    pub session_token: String,
    pub expiration: String,
}

/// The mathematical value of a `CredentialProcessOutput`.
#[verifier::ext_equal]
pub struct CredentialProcessOutputV {
    pub version: int,
    pub access_key_id: Seq<char>,
    pub secret_access_key: Seq<char>,
    pub session_token: Seq<char>,
    pub expiration: Seq<char>,
}

impl View for CredentialProcessOutput {
    type V = CredentialProcessOutputV;

    open spec fn view(&self) -> CredentialProcessOutputV {
        CredentialProcessOutputV {
            version: self.version as int,
            access_key_id: self.access_key_id@,
            secret_access_key: self.secret_access_key@,
            session_token: self.session_token@,
            expiration: self.expiration@,
        }
    }
}

/// The output derived from a response: version one, the three credential
/// strings, and the rendered expiration, all taken over unchanged.
pub open spec fn spec_from_credentials(c: CredentialsV) -> CredentialProcessOutputV {
    CredentialProcessOutputV {
        version: 1,
        access_key_id: c.access_key_id,
        secret_access_key: c.secret_access_key,
        session_token: c.session_token,
        expiration: c.expiration,
    }
}

/// A hexadecimal digit, lower case.
pub open spec fn spec_hex_digit(d: int) -> char {
    if d < 10 {
        spec_digit_char(d)
    } else if d == 10 {
        'a'
    } else if d == 11 {
        'b'
    } else if d == 12 {
        'c'
    } else if d == 13 {
        'd'
    } else if d == 14 {
        'e'
    } else {
        'f'
    }
}

/// How one character appears inside a JSON string literal.
pub open spec fn json_escape_char(c: char) -> Seq<char> {
    if c == '"' {
        "\\\""@
    } else if c == '\\' {
        "\\\\"@
    } else if c == '\n' {
        "\\n"@
    } else if c == '\r' {
        "\\r"@
    } else if c == '\t' {
        "\\t"@
    } else if (c as u32) < 32 {
        "\\u00"@ + seq![
            spec_hex_digit((c as u32 / 16) as int),
            spec_hex_digit((c as u32 % 16) as int),
        ]
    } else {
        seq![c]
    }
}

/// A string with every character escaped as JSON asks.
pub open spec fn json_escape(s: Seq<char>) -> Seq<char>
    decreases s.len(),
{
    if s.len() == 0 {
        Seq::empty()
    } else {
        json_escape(s.drop_last()) + json_escape_char(s.last())
    }
}

/// A JSON string literal: quotes around the escaped characters.
pub open spec fn json_string(s: Seq<char>) -> Seq<char> {
    "\""@ + json_escape(s) + "\""@
}

/// The exact JSON object emitted for `o`: the five members, in this order,
/// with no whitespace.
pub open spec fn spec_emit(o: CredentialProcessOutputV) -> Seq<char> {
    "{\"Version\":"@ + spec_i32_dec(o.version) + ",\"AccessKeyId\":"@ + json_string(
        o.access_key_id,
    ) + ",\"SecretAccessKey\":"@ + json_string(o.secret_access_key) + ",\"SessionToken\":"@
        + json_string(o.session_token) + ",\"Expiration\":"@ + json_string(o.expiration) + "}"@
}

fn hex_digit_str(d: u32) -> (r: &'static str)
    requires
        d < 16,
    ensures
        r@ == seq![spec_hex_digit(d as int)],
{
    proof {
        reveal_strlit("0");
        reveal_strlit("1");
        reveal_strlit("2");
        reveal_strlit("3");
        reveal_strlit("4");
        reveal_strlit("5");
        reveal_strlit("6");
        reveal_strlit("7");
        reveal_strlit("8");
        reveal_strlit("9");
        reveal_strlit("a");
        reveal_strlit("b");
        reveal_strlit("c");
        reveal_strlit("d");
        reveal_strlit("e");
        reveal_strlit("f");
    }
    let r = match d {
        0 => "0",
        1 => "1",
        2 => "2",
        3 => "3",
        4 => "4",
        5 => "5",
        6 => "6",
        7 => "7",
        8 => "8",
        9 => "9",
        10 => "a",
        11 => "b",
        12 => "c",
        13 => "d",
        14 => "e",
        _ => "f",
    };
    proof {
        assert(r@ =~= seq![spec_hex_digit(d as int)]);
    }
    r
}

/// Escapes a whole string for inclusion in a JSON literal.
fn json_escape_str(s: &str) -> (r: String)
    ensures
        r@ == json_escape(s@),
{
    let n = s.unicode_len();
    let mut out = String::new();
    let mut i: usize = 0;
    proof {
        assert(s@.subrange(0, 0) =~= Seq::<char>::empty());
    }
    while i < n
        invariant
            n == s@.len(),
            i <= n,
            out@ == json_escape(s@.subrange(0, i as int)),
        decreases n - i,
    {
        let ghost pre = s@.subrange(0, i as int);
        let ghost out0 = out@;
        let c = s.get_char(i);
        if c == '"' {
            out.append("\\\"");
        } else if c == '\\' {
            out.append("\\\\");
        } else if c == '\n' {
            out.append("\\n");
        } else if c == '\r' {
            out.append("\\r");
        } else if c == '\t' {
            out.append("\\t");
        } else if (c as u32) < 32 {
            out.append("\\u00");
            out.append(hex_digit_str((c as u32) / 16));
            out.append(hex_digit_str((c as u32) % 16));
            proof {
                assert(out@ =~= out0 + json_escape_char(c));
            }
        } else {
            let piece = s.substring_char(i, i + 1);
            out.append(piece);
            proof {
                assert(piece@ =~= seq![c]);
            }
        }
        proof {
            assert(s@.subrange(0, i + 1).drop_last() =~= pre);
            assert(s@.subrange(0, i + 1).last() == s@[i as int]);
            assert(out@ =~= json_escape(s@.subrange(0, i + 1)));
        }
        i = i + 1;
    }
    proof {
        assert(s@.subrange(0, n as int) =~= s@);
    }
    out
}

impl CredentialProcessOutput {
    /// Builds the output record from a response: version one, the strings
    /// taken over unchanged.
    pub fn from_credentials(credentials: &Credentials) -> (r: CredentialProcessOutput)
        ensures
            r@ == spec_from_credentials(credentials@),
    {
        CredentialProcessOutput {
            version: 1,
            access_key_id: credentials.access_key_id.clone(),
            secret_access_key: credentials.secret_access_key.clone(),
            session_token: credentials.session_token.clone(),
            expiration: credentials.expiration.clone(),
        }
    }

    /// Renders the one JSON object to print on standard output, exactly as
    /// `spec_emit` says.
    pub fn to_json(&self) -> (r: String)
        ensures
            r@ == spec_emit(self@),
    {
        let mut out = String::from_str("{\"Version\":");
        out.append(i32_to_string(self.version).as_str());
        out.append(",\"AccessKeyId\":\"");
        out.append(json_escape_str(self.access_key_id.as_str()).as_str());
        out.append("\",\"SecretAccessKey\":\"");
        out.append(json_escape_str(self.secret_access_key.as_str()).as_str());
        out.append("\",\"SessionToken\":\"");
        out.append(json_escape_str(self.session_token.as_str()).as_str());
        out.append("\",\"Expiration\":\"");
        out.append(json_escape_str(self.expiration.as_str()).as_str());
        out.append("\"}");
        proof {
            reveal_strlit(",\"AccessKeyId\":\"");
            reveal_strlit(",\"AccessKeyId\":");
            reveal_strlit("\",\"SecretAccessKey\":\"");
            reveal_strlit(",\"SecretAccessKey\":");
            reveal_strlit("\",\"SessionToken\":\"");
            reveal_strlit(",\"SessionToken\":");
            reveal_strlit("\",\"Expiration\":\"");
            reveal_strlit(",\"Expiration\":");
            reveal_strlit("\"}");
            reveal_strlit("}");
            reveal_strlit("\"");
            assert(out@ =~= spec_emit(self@));
        }
        out
    }
}

} // verus!
