//! The server's settings, from the values of its environment variables.
use vstd::prelude::*;

use crate::numbers::{dec_seq, int_string, parse_u16, parse_u16_spec};
use crate::text::{append_str, chars_of, str_eq, string_of};

verus! {

/// The server's settings.
#[derive(Debug, Clone)]
pub struct AppConfig {
    pub database_url: String,
    pub host: String,
    pub port: u16,
    pub admin_password: String,
    pub session_cookie_name: String,
    pub cookie_secure: bool,
    pub frontend_origin: String,
    pub import_dir: String,
    pub telegram_bot_token: Option<String>,
    pub telegram_webhook_secret: Option<String>,
}

/// The values of the environment variables the settings are read from;
/// `None` where a variable is not set (or not Unicode).
#[derive(Debug, Clone)]
pub struct ConfigValues {
    pub database_url: Option<String>,
    pub host: Option<String>,
    pub port: Option<String>,
    pub admin_password: Option<String>,
    pub session_cookie_name: Option<String>,
    pub cookie_secure: Option<String>,
    pub frontend_origin: Option<String>,
    pub import_dir: Option<String>,
    pub telegram_bot_token: Option<String>,
    pub telegram_webhook_secret: Option<String>,
}

pub open spec fn or_default(v: Option<String>, d: Seq<char>) -> Seq<char> {
    match v {
        Some(s) => s@,
        None => d,
    }
}

/// A token that is set and not empty.
pub open spec fn non_empty(v: Option<String>) -> Option<Seq<char>> {
    match v {
        Some(s) => if s@.len() > 0 {
            Some(s@)
        } else {
            None
        },
        None => None,
    }
}

/// The settings a set of values gives: the database address and the admin
/// password are required, the password at least 8 bytes long in UTF-8;
/// the port is read as a `u16` (8080 where absent or unreadable), the
/// cookie flag as `true` or `false` (false otherwise), and the other values
/// have defaults.
pub open spec fn config_ok(v: ConfigValues, c: AppConfig) -> bool {
    &&& v.database_url matches Some(d) && c.database_url@ == d@
    &&& c.host@ == or_default(v.host, "0.0.0.0"@)
    &&& c.port == match v.port {
        Some(p) => match parse_u16_spec(p@) {
            Some(n) => n,
            None => 8080,
        },
        None => 8080,
    }
    &&& v.admin_password matches Some(a) && c.admin_password@ == a@
    &&& c.session_cookie_name@ == or_default(v.session_cookie_name, "ledger_session"@)
    &&& c.cookie_secure == match v.cookie_secure {
        Some(s) => s@ == "true"@,
        None => false,
    }
    &&& c.frontend_origin@ == or_default(v.frontend_origin, "http://localhost:5173"@)
    &&& c.import_dir@ == or_default(v.import_dir, "./data/imports"@)
    &&& match non_empty(v.telegram_bot_token) {
        Some(t) => c.telegram_bot_token matches Some(x) && x@ == t,
        None => c.telegram_bot_token is None,
    }
    &&& match non_empty(v.telegram_webhook_secret) {
        Some(t) => c.telegram_webhook_secret matches Some(x) && x@ == t,
        None => c.telegram_webhook_secret is None,
    }
}

fn value_or(v: &Option<String>, d: &str) -> (r: String)
    ensures
        r@ == or_default(*v, d@),
{
    match v {
        Some(s) => s.clone(),
        None => string_of(&chars_of(d)),
    }
}

fn token(v: &Option<String>) -> (r: Option<String>)
    ensures
        match non_empty(*v) {
            Some(t) => r matches Some(x) && x@ == t,
            None => r is None,
        },
{
    match v {
        Some(s) => if s.as_str().unicode_len() > 0 {
            Some(s.clone())
        } else {
            None
        },
        None => None,
    }
}

impl AppConfig {
    /// The settings of a set of values (see `config_ok`), or the error for
    /// a missing database address, a missing admin password, or a short
    /// one, in that order.
    pub fn from_values(v: &ConfigValues) -> (r: Result<AppConfig, String>)
        ensures
            match (v.database_url, v.admin_password) {
                (None, _) => r matches Err(m) && m@ == "DATABASE_URL 환경변수가 필요합니다"@,
                (Some(_), None) => r matches Err(m) && m@ == "ADMIN_PASSWORD 환경변수가 필요합니다"@,
                (Some(_), Some(a)) => if vstd::utf8::encode_utf8(a@).len() < 8 {
                    r matches Err(m) && m@ == "ADMIN_PASSWORD는 8자 이상이어야 합니다"@
                } else {
                    r matches Ok(c) && config_ok(*v, c)
                },
            },
    {
        let database_url = match &v.database_url {
            Some(d) => d.clone(),
            None => return Err(string_of(&chars_of("DATABASE_URL 환경변수가 필요합니다"))),
        };
        let host = value_or(&v.host, "0.0.0.0");
        let port: u16 = match &v.port {
            Some(p) => match parse_u16(&chars_of(p.as_str())) {
                Some(n) => n,
                None => 8080,
            },
            None => 8080,
        };
        let admin_password = match &v.admin_password {
            Some(a) => a.clone(),
            None => return Err(string_of(&chars_of("ADMIN_PASSWORD 환경변수가 필요합니다"))),
        };
        if admin_password.as_str().as_bytes().len() < 8 {
            return Err(string_of(&chars_of("ADMIN_PASSWORD는 8자 이상이어야 합니다")));
        }
        let cookie_secure = match &v.cookie_secure {
            Some(s) => str_eq(s.as_str(), "true"),
            None => false,
        };
        Ok(
            AppConfig {
                database_url,
                host,
                port,
                admin_password,
                session_cookie_name: value_or(&v.session_cookie_name, "ledger_session"),
                cookie_secure,
                frontend_origin: value_or(&v.frontend_origin, "http://localhost:5173"),
                import_dir: value_or(&v.import_dir, "./data/imports"),
                telegram_bot_token: token(&v.telegram_bot_token),
                telegram_webhook_secret: token(&v.telegram_webhook_secret),
            },
        )
    }

    /// The address the server listens on, written `host:port`.
    pub fn addr_text(&self) -> (r: String)
        ensures
            r@ == self.host@ + ":"@ + int_string(self.port as int),
    {
        let mut r = self.host.clone();
        append_str(&mut r, ":");
        append_str(&mut r, crate::numbers::i64_to_string(self.port as i64).as_str());
        r
    }
}

} // verus!
