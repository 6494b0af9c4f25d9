//! The commands and their arguments, and what the arguments decide.
use vstd::prelude::*;

verus! {

/// A command line: one command.
pub struct Cli {
    pub command: Commands,
}

/// The commands.
pub enum Commands {
    /// Check the threads of a file for updates.
    Check(CheckArgs),
    /// Show the results of an earlier check.
    Cached(CachedArgs),
}

/// Arguments of `check`.
pub struct CheckArgs {
    /// Path of the file with thread links.
    pub file: String,
    /// Check even if a check ran less than a day ago.
    pub force: bool,
    /// Session token.
    pub xf_user: Option<String>,
    /// Session token of accounts with two-factor authentication.
    pub xf_tfa_trust: Option<String>,
}

/// Arguments of `cached`.
pub struct CachedArgs {
    /// Which snapshot to show, counting from the newest (0).
    pub offset: Option<i64>,
}

/// The cookie `name=value` for a token that was given.
pub open spec fn cookie_for(name: Seq<char>, token: Option<String>) -> Seq<(Seq<char>, Seq<char>)> {
    match token {
        Some(t) => seq![(name, t@)],
        None => seq![],
    }
}

/// The views of a list of cookies.
pub open spec fn cookie_views(c: Seq<(String, String)>) -> Seq<(Seq<char>, Seq<char>)> {
    c.map_values(|p: (String, String)| (p.0@, p.1@))
}

impl CheckArgs {
    /// The session cookies to send, one per token given: `xf_user`, then
    /// `xf_tfa_trust`. A check that sends any first probes the session.
    pub fn auth_cookies(&self) -> (r: Vec<(String, String)>)
        ensures
            cookie_views(r@) == cookie_for("xf_user"@, self.xf_user) + cookie_for(
                "xf_tfa_trust"@,
                self.xf_tfa_trust,
            ),
    {
        let mut r: Vec<(String, String)> = Vec::new();
        if let Some(t) = &self.xf_user {
            r.push((String::from_str("xf_user"), t.clone()));
        }
        let ghost first = cookie_views(r@);
        assert(first =~= cookie_for("xf_user"@, self.xf_user));
        if let Some(t) = &self.xf_tfa_trust {
            r.push((String::from_str("xf_tfa_trust"), t.clone()));
        }
        assert(cookie_views(r@) =~= first + cookie_for("xf_tfa_trust"@, self.xf_tfa_trust));
        r
    }
}

} // verus!
