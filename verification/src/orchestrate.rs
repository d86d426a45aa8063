//! The decision at the end of a successful call: what to write, and where.
//! In process mode the credentials become one JSON object for standard
//! output and the credential file is never touched; otherwise the file's
//! text is loaded, the destination profile replaced, and the new text
//! handed back for one write.

use vstd::prelude::*;

use crate::credentials::Credentials;
use crate::credfile::{render_sections, spec_parse_ini, spec_set_credentials, CredentialFile, SectionV};
use crate::error::Error;
use crate::process::{spec_emit, spec_from_credentials, CredentialProcessOutput};
use crate::settings::Cmdline;

verus! {

/// What the caller must do with the result.
pub enum Output {
    /// Print this single line on standard output; write no file.
    Stdout(String),
    /// Write `content` to the file at `path`, truncating.
    FileWrite { path: String, content: String },
}

/// Decides and renders the tool's one output. `existing` is the current
/// text of the destination file, or nothing if the file does not exist;
/// it is only read in file mode.
pub fn render_output(
    cmdline: &Cmdline,
    credentials: &Credentials,
    path: String,
    existing: Option<&String>,
) -> (r: Result<Output, Error>)
    ensures
        cmdline.credential_process ==> (r matches Ok(o) && o matches Output::Stdout(s) && s@
            == spec_emit(spec_from_credentials(credentials@))),
        !cmdline.credential_process ==> {
            let parsed = match existing {
                Some(t) => spec_parse_ini(t@),
                None => Some(Seq::<SectionV>::empty()),
            };
            match parsed {
                Some(ss) => r matches Ok(o) && o matches Output::FileWrite { path: p, content: c }
                    && p@ == path@ && c@ == render_sections(
                    spec_set_credentials(ss, cmdline.dest_profile@, credentials@),
                ),
                None => r matches Err(e) && e matches Error::MalformedCredentialFile(p) && p@
                    == path@,
            }
        },
{
    if cmdline.credential_process {
        let out = CredentialProcessOutput::from_credentials(credentials);
        Ok(Output::Stdout(out.to_json()))
    } else {
        match CredentialFile::load(existing, path.as_str()) {
            Ok(mut file) => {
                file.set_credentials(cmdline.dest_profile.as_str(), credentials);
                let content = file.save();
                Ok(Output::FileWrite { path, content })
            },
            Err(e) => Err(e),
        }
    }
}

} // verus!
