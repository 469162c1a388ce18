//! Connection settings of the relational backend.

use crate::text::push_char;
use vstd::prelude::*;

verus! {

/// A connection setting that is empty.
#[derive(Clone, Copy, Debug, PartialEq, Eq, Structural)]
pub enum ConnectError {
    EmptyDbName,
    EmptyUser,
    EmptyPassword,
    EmptyHost,
    EmptyPort,
}

impl ConnectError {
    /// The message reported for the error.
    pub fn message(&self) -> (r: &'static str)
        ensures
            *self == ConnectError::EmptyDbName ==> r@ == "ERR: db_name is invalid"@,
            *self == ConnectError::EmptyUser ==> r@ == "ERR: db_user is invalid"@,
            *self == ConnectError::EmptyPassword ==> r@ == "ERR: db_password is invalid"@,
            *self == ConnectError::EmptyHost ==> r@ == "ERR: db_host is invalid"@,
            *self == ConnectError::EmptyPort ==> r@ == "ERR: db_port is invalid"@,
    {
        match self {
            ConnectError::EmptyDbName => "ERR: db_name is invalid",
            ConnectError::EmptyUser => "ERR: db_user is invalid",
            ConnectError::EmptyPassword => "ERR: db_password is invalid",
            ConnectError::EmptyHost => "ERR: db_host is invalid",
            ConnectError::EmptyPort => "ERR: db_port is invalid",
        }
    }
}

/// `postgres://{user}:{pass}@{host}:{port}/{db}`.
pub open spec fn db_url(db: Seq<char>, user: Seq<char>, pass: Seq<char>, host: Seq<char>, port: Seq<char>) -> Seq<char> {
    "postgres://"@ + user + seq![':'] + pass + seq!['@'] + host + seq![':'] + port + seq!['/'] + db
}

fn push_text(s: &mut String, t: &str)
    ensures
        final(s)@ == old(s)@ + t@,
{
    let n = t.unicode_len();
    let ghost start = s@;
    let mut i: usize = 0;
    while i < n
        invariant
            n == t@.len(),
            i <= n,
            s@ == start + t@.take(i as int),
        decreases n - i,
    {
        push_char(s, t.get_char(i));
        i = i + 1;
        assert(s@ =~= start + t@.take(i as int));
    }
    assert(t@.take(n as int) =~= t@);
}

/// Checks that the five settings are non-empty, in the order database,
/// user, password, host, port, and returns the URL to connect with.
pub fn get_conn(db: &str, user: &str, pass: &str, host: &str, port: &str) -> (r: Result<
    String,
    ConnectError,
>)
    ensures
        r is Ok <==> (db@.len() > 0 && user@.len() > 0 && pass@.len() > 0 && host@.len() > 0
            && port@.len() > 0),
        r matches Ok(url) ==> url@ == db_url(db@, user@, pass@, host@, port@),
        r == Err::<String, _>(ConnectError::EmptyDbName) <==> db@.len() == 0,
        r == Err::<String, _>(ConnectError::EmptyUser) <==> (db@.len() > 0 && user@.len() == 0),
        r == Err::<String, _>(ConnectError::EmptyPassword) <==> (db@.len() > 0 && user@.len() > 0
            && pass@.len() == 0),
        r == Err::<String, _>(ConnectError::EmptyHost) <==> (db@.len() > 0 && user@.len() > 0
            && pass@.len() > 0 && host@.len() == 0),
        r == Err::<String, _>(ConnectError::EmptyPort) <==> (db@.len() > 0 && user@.len() > 0
            && pass@.len() > 0 && host@.len() > 0 && port@.len() == 0),
{
    if db.unicode_len() == 0 {
        return Err(ConnectError::EmptyDbName);
    }
    if user.unicode_len() == 0 {
        return Err(ConnectError::EmptyUser);
    }
    if pass.unicode_len() == 0 {
        return Err(ConnectError::EmptyPassword);
    }
    if host.unicode_len() == 0 {
        return Err(ConnectError::EmptyHost);
    }
    if port.unicode_len() == 0 {
        return Err(ConnectError::EmptyPort);
    }
    let mut url = String::from_str("postgres://");
    push_text(&mut url, user);
    push_char(&mut url, ':');
    push_text(&mut url, pass);
    push_char(&mut url, '@');
    push_text(&mut url, host);
    push_char(&mut url, ':');
    push_text(&mut url, port);
    push_char(&mut url, '/');
    push_text(&mut url, db);
    assert(url@ =~= db_url(db@, user@, pass@, host@, port@));
    Ok(url)
}

} // verus!
