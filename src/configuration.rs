use vstd::prelude::*;

verus! {

/// Settings read at startup.
#[derive(Debug, Clone)]
pub struct Settings {
    pub session_cookie_name: SessionCookieName,
    pub database: SQLite3Settings,
    pub listen: String,
    pub port: u16,
}

/// Where the database lives.
#[derive(Debug, Clone)]
pub struct SQLite3Settings {
    pub connection: String,
}

/// Name of the cookie that carries the session.
#[derive(Debug, Clone)]
pub struct SessionCookieName(pub String);

impl Settings {
    /// The address to listen on: `<listen>:<port>`.
    pub fn address(&self) -> (r: String)
        ensures
            r@ == self.listen@ + ":"@ + crate::primitives::decimal_text(self.port as int),
    {
        let mut s = self.listen.clone();
        s.append(":");
        let p = crate::primitives::decimal_string(self.port as i64);
        s.append(p.as_str());
        s
    }
}

} // verus!
