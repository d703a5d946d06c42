use vstd::prelude::*;
use vstd::string::StrSliceExecFns;

verus! {

/// The login form's state: what the user has typed and where the last
/// attempt stands.
#[derive(Debug)]
pub struct LoginState {
    pub homeserver: String,
    pub username: String,
    pub password: String,
    pub password_visible: bool,
    pub error: Option<String>,
    pub loading: bool,
}

impl Default for LoginState {
    /// A fresh form, pointed at the default homeserver.
    fn default() -> (r: LoginState)
        ensures
            r.homeserver@ == "matrix.org"@,
            r.username@.len() == 0,
            r.password@.len() == 0,
            !r.password_visible,
            r.error is None,
            !r.loading,
    {
        LoginState {
            homeserver: "matrix.org".to_owned(),
            username: String::new(),
            password: String::new(),
            password_visible: false,
            error: None,
            loading: false,
        }
    }
}

impl LoginState {
    /// Whether the form may be submitted: every field filled in. The
    /// submit path must not run otherwise.
    pub fn can_submit(&self) -> (r: bool)
        ensures
            r == (self.homeserver@.len() > 0 && self.username@.len() > 0 && self.password@.len()
                > 0),
    {
        self.homeserver.as_str().unicode_len() > 0 && self.username.as_str().unicode_len() > 0
            && self.password.as_str().unicode_len() > 0
    }
}

} // verus!
