//! Runtime configuration and its defaults.
//!
//! The shell reads the raw settings from the process environment and hands
//! them over as optional strings; which defaults apply, and how the port
//! text is read, is decided here.

use vstd::prelude::*;
use vstd::string::StringExecFns;

use crate::text::all_digits;
use crate::text::digits_val;
use crate::text::str_to_chars;

verus! {

#[derive(Debug)]
pub struct DatabaseConfig {
    pub host: String,
    pub port: u16,
    pub username: String,
    pub password: String,
    pub database: String,
    pub max_connections: u32,
}

#[derive(Debug)]
pub struct RedisConfig {
    pub url: String,
    pub max_connections: u32,
}

#[derive(Debug)]
pub struct ServerConfig {
    pub host: String,
    pub port: u16,
}

#[derive(Debug)]
pub struct AuthConfig {
    pub jwt_secret: String,
    pub jwt_expiration: i64,
}

#[derive(Debug)]
pub struct Config {
    pub database: DatabaseConfig,
    pub redis: RedisConfig,
    pub server: ServerConfig,
    pub auth: AuthConfig,
}

/// The recognized settings, each as the shell found it: absent values get
/// the documented defaults.
#[derive(Debug)]
pub struct ConfigOverrides {
    pub database_username: Option<String>,
    pub database_password: Option<String>,
    pub database_name: Option<String>,
    pub redis_url: Option<String>,
    pub jwt_secret: Option<String>,
    pub port_text: Option<String>,
}

/// The view of an optional setting with its default.
pub open spec fn setting_or(v: Option<String>, dflt: Seq<char>) -> Seq<char> {
    match v {
        Some(s) => s@,
        None => dflt,
    }
}

/// The port named by an optional port text: a nonempty digit string whose
/// value fits sixteen bits, anything else falling back to the default.
pub open spec fn port_of(v: Option<String>, dflt: u16) -> int {
    match v {
        Some(t) => if t@.len() > 0 && all_digits(t@) && digits_val(t@) <= u16::MAX as int {
            digits_val(t@)
        } else {
            dflt as int
        },
        None => dflt as int,
    }
}

fn or_default(v: Option<String>, dflt: &str) -> (r: String)
    ensures
        r@ == setting_or(v, dflt@),
{
    match v {
        Some(s) => s,
        None => String::from_str(dflt),
    }
}

/// Resolves the recognized settings into the full configuration, with the
/// documented defaults: database host `localhost` on port 5432 with pool
/// size 10, redis at `redis://localhost:6379`, the server on `0.0.0.0`
/// port 8080, and a one-day token lifetime.
pub fn resolve(overrides: ConfigOverrides) -> (r: Config)
    ensures
        r.database.host@ == "localhost"@,
        r.database.port == 5432,
        r.database.max_connections == 10,
        r.database.username@ == setting_or(overrides.database_username, "monitor"@),
        r.database.password@ == setting_or(overrides.database_password, "password"@),
        r.database.database@ == setting_or(overrides.database_name, "monitor"@),
        r.redis.url@ == setting_or(overrides.redis_url, "redis://localhost:6379"@),
        r.redis.max_connections == 10,
        r.server.host@ == "0.0.0.0"@,
        r.server.port as int == port_of(overrides.port_text, 8080),
        r.auth.jwt_secret@ == setting_or(overrides.jwt_secret, "your-secret-key"@),
        r.auth.jwt_expiration == 86400,
{
    let server_port: u16 = match overrides.port_text {
        Some(t) => {
            let chars = str_to_chars(t.as_str());
            match crate::text::parse_u16(&chars) {
                Some(p) => p,
                None => 8080,
            }
        },
        None => 8080,
    };
    Config {
        database: DatabaseConfig {
            host: String::from_str("localhost"),
            port: 5432,
            username: or_default(overrides.database_username, "monitor"),
            password: or_default(overrides.database_password, "password"),
            database: or_default(overrides.database_name, "monitor"),
            max_connections: 10,
        },
        redis: RedisConfig {
            url: or_default(overrides.redis_url, "redis://localhost:6379"),
            max_connections: 10,
        },
        server: ServerConfig { host: String::from_str("0.0.0.0"), port: server_port },
        auth: AuthConfig {
            jwt_secret: or_default(overrides.jwt_secret, "your-secret-key"),
            jwt_expiration: 86400,
        },
    }
}

/// The connection string the database layer dials: user, password, host,
/// port and database name in URL form.
pub fn connection_string(db: &DatabaseConfig) -> (r: String)
    ensures
        r@ == "postgres://"@ + db.username@ + ":"@ + db.password@ + "@"@ + db.host@ + ":"@
            + crate::text::dec_digits(db.port as nat) + "/"@ + db.database@,
{
    let mut out: Vec<char> = Vec::new();
    crate::bridge::push_str_chars(&mut out, "postgres://");
    let mut user = str_to_chars(db.username.as_str());
    out.append(&mut user);
    crate::bridge::push_str_chars(&mut out, ":");
    let mut pass = str_to_chars(db.password.as_str());
    out.append(&mut pass);
    crate::bridge::push_str_chars(&mut out, "@");
    let mut host = str_to_chars(db.host.as_str());
    out.append(&mut host);
    crate::bridge::push_str_chars(&mut out, ":");
    crate::bridge::push_u64_chars(&mut out, db.port as u64);
    crate::bridge::push_str_chars(&mut out, "/");
    let mut name = str_to_chars(db.database.as_str());
    out.append(&mut name);
    proof {
        assert(out@ =~= "postgres://"@ + db.username@ + ":"@ + db.password@ + "@"@ + db.host@
            + ":"@ + crate::text::dec_digits(db.port as nat) + "/"@ + db.database@);
    }
    crate::text::chars_to_string(&out)
}

} // verus!
