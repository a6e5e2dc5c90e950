//! The two-section configuration object the engine is started with: database
//! connection parameters and the server bind address, with the connection
//! strings built from them.

use vstd::prelude::*;

verus! {

/// Database connection parameters.
#[derive(Debug)]
pub struct DbConfig {
    pub host: String,
    pub port: u16,
    pub user: String,
    pub password: String,
    pub dbname: String,
    pub max_connections: u32,
}

pub struct DbConfigView {
    pub host: Seq<char>,
    pub port: int,
    pub user: Seq<char>,
    pub password: Seq<char>,
    pub dbname: Seq<char>,
    pub max_connections: int,
}

impl View for DbConfig {
    type V = DbConfigView;

    open spec fn view(&self) -> DbConfigView {
        DbConfigView {
            host: self.host@,
            port: self.port as int,
            user: self.user@,
            password: self.password@,
            dbname: self.dbname@,
            max_connections: self.max_connections as int,
        }
    }
}

/// The server bind address.
#[derive(Debug)]
pub struct ServerConfig {
    pub host: String,
    pub port: u16,
}

pub struct ServerConfigView {
    pub host: Seq<char>,
    pub port: int,
}

impl View for ServerConfig {
    type V = ServerConfigView;

    open spec fn view(&self) -> ServerConfigView {
        ServerConfigView { host: self.host@, port: self.port as int }
    }
}

/// The whole configuration.
#[derive(Debug)]
pub struct Config {
    pub db: DbConfig,
    pub server: ServerConfig,
}

/// The pool size used when the configuration names none.
pub fn default_max_connections() -> (r: u32)
    ensures
        r == 5,
{
    5
}

pub open spec fn digit_char(d: int) -> char {
    ((d + 48) as u8) as char
}

/// The decimal digits of a non-negative number, most significant first.
pub open spec fn dec_digits(n: int) -> Seq<char>
    recommends
        n >= 0,
    decreases n,
{
    if n < 10 {
        seq![digit_char(n)]
    } else {
        dec_digits(n / 10).push(digit_char(n % 10))
    }
}

fn append_digit(s: &mut String, d: u16)
    requires
        d < 10,
    ensures
        final(s)@ == old(s)@.push(digit_char(d as int)),
{
    proof {
        reveal_strlit("0");
        reveal_strlit("1");
        reveal_strlit("2");
        reveal_strlit("3");
        reveal_strlit("4");
        reveal_strlit("5");
        reveal_strlit("6");
        reveal_strlit("7");
        reveal_strlit("8");
        reveal_strlit("9");
    }
    match d {
        0 => s.append("0"),
        1 => s.append("1"),
        2 => s.append("2"),
        3 => s.append("3"),
        4 => s.append("4"),
        5 => s.append("5"),
        6 => s.append("6"),
        7 => s.append("7"),
        8 => s.append("8"),
        _ => s.append("9"),
    }
    proof {
        assert(final(s)@ =~= old(s)@.push(digit_char(d as int)));
    }
}

/// Appends the decimal rendering of `n`.
fn push_decimal(s: &mut String, n: u16)
    ensures
        final(s)@ == old(s)@ + dec_digits(n as int),
    decreases n,
{
    if n >= 10 {
        push_decimal(s, n / 10);
    }
    append_digit(s, n % 10);
    proof {
        assert(final(s)@ =~= old(s)@ + dec_digits(n as int));
    }
}

/// `"postgres://" user ":" password "@" host ":" port "/" dbname`.
pub open spec fn spec_server_url(c: DbConfigView) -> Seq<char> {
    "postgres://"@ + c.user + ":"@ + c.password + "@"@ + c.host + ":"@ + dec_digits(c.port) + "/"@
        + c.dbname
}

/// The server url with the database name appended once more after a slash.
pub open spec fn spec_db_url(c: DbConfigView) -> Seq<char> {
    spec_server_url(c) + "/"@ + c.dbname
}

impl DbConfig {
    /// The connection string of the database server.
    pub fn server_url(&self) -> (r: String)
        ensures
            r@ == spec_server_url(self@),
    {
        let mut s = String::from_str("postgres://");
        s.append(self.user.as_str());
        s.append(":");
        s.append(self.password.as_str());
        s.append("@");
        s.append(self.host.as_str());
        s.append(":");
        push_decimal(&mut s, self.port);
        s.append("/");
        s.append(self.dbname.as_str());
        proof {
            assert(s@ =~= spec_server_url(self@));
        }
        s
    }

    /// The connection string of the database itself.
    pub fn url(&self) -> (r: String)
        ensures
            r@ == spec_db_url(self@),
    {
        let mut s = self.server_url();
        s.append("/");
        s.append(self.dbname.as_str());
        proof {
            assert(s@ =~= spec_db_url(self@));
        }
        s
    }
}

/// `"https://" host ":" port` or `"http://" host ":" port` per the flag.
pub open spec fn spec_bind_url(c: ServerConfigView, https: bool) -> Seq<char> {
    (if https {
        "https://"@
    } else {
        "http://"@
    }) + c.host + ":"@ + dec_digits(c.port)
}

impl ServerConfig {
    /// The address the server is reached under.
    pub fn url(&self, https: bool) -> (r: String)
        ensures
            r@ == spec_bind_url(self@, https),
    {
        let mut s = if https {
            String::from_str("https://")
        } else {
            String::from_str("http://")
        };
        s.append(self.host.as_str());
        s.append(":");
        push_decimal(&mut s, self.port);
        proof {
            assert(s@ =~= spec_bind_url(self@, https));
        }
        s
    }
}

} // verus!
