//! Rendering of the final credentials as the shell export artifact, the
//! byte-exact contract with downstream tooling.

use vstd::prelude::*;
use vstd::string::StringExecFns;

verus! {

/// The final temporary credentials for the target role.
#[derive(Clone)]
pub struct TargetCredentials {
    pub access_key_id: String,
    pub secret_access_key: String,
    pub session_token: String,
}

/// The rendered output: the target credentials and the optional account id
/// of the assumed identity.
pub struct AdfsConfig {
    pub target_credentials: TargetCredentials,
    pub account_id: Option<String>,
}

/// The three credential export lines, without a trailing newline.
pub open spec fn spec_render_credentials(
    key: Seq<char>,
    secret: Seq<char>,
    token: Seq<char>,
) -> Seq<char> {
    "export AWS_ACCESS_KEY_ID="@ + key + "\nexport AWS_SECRET_ACCESS_KEY="@ + secret
        + "\nexport AWS_SESSION_TOKEN="@ + token
}

/// The whole artifact: the three credential lines, a newline, then the
/// account line — left empty when the account id is absent.
pub open spec fn spec_render_config(c: AdfsConfig) -> Seq<char> {
    spec_render_credentials(
        c.target_credentials.access_key_id@,
        c.target_credentials.secret_access_key@,
        c.target_credentials.session_token@,
    ) + "\n"@ + (match c.account_id {
        Some(a) => "export AWS_ACCOUNT_ID="@ + a@,
        None => Seq::<char>::empty(),
    })
}

impl TargetCredentials {
    /// The three export lines for these credentials.
    pub fn render(&self) -> (r: String)
        ensures
            r@ == spec_render_credentials(
                self.access_key_id@,
                self.secret_access_key@,
                self.session_token@,
            ),
    {
        let mut out = String::from_str("export AWS_ACCESS_KEY_ID=");
        out.append(self.access_key_id.as_str());
        out.append("\nexport AWS_SECRET_ACCESS_KEY=");
        out.append(self.secret_access_key.as_str());
        out.append("\nexport AWS_SESSION_TOKEN=");
        out.append(self.session_token.as_str());
        assert(out@ =~= spec_render_credentials(
            self.access_key_id@,
            self.secret_access_key@,
            self.session_token@,
        ));
        out
    }
}

impl AdfsConfig {
    /// The whole artifact, byte for byte.
    pub fn render(&self) -> (r: String)
        ensures
            r@ == spec_render_config(*self),
    {
        let mut out = self.target_credentials.render();
        out.append("\n");
        match &self.account_id {
            Some(a) => {
                out.append("export AWS_ACCOUNT_ID=");
                out.append(a.as_str());
            },
            None => {},
        }
        assert(out@ =~= spec_render_config(*self));
        out
    }
}

} // verus!
