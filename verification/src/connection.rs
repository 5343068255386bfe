//! Connection strings: the components of a database URL and the exact
//! text they render to.
//!
//! Parsing a URL into these components is delegated to an external
//! collaborator outside the verified core; the core holds the components
//! as plain values and renders them back.

use vstd::prelude::*;
use vstd::string::StringExecFns;

use crate::tasks::opt_string_view;
use crate::text::{dec_str, u64_dec_string};

verus! {

/// The components of a connection string.
pub struct ConnectionStringInner {
    pub username: Option<String>,
    pub password: Option<String>,
    pub host: Option<String>,
    pub port: Option<u16>,
    pub database: Option<String>,
}

/// A connection string, piece by piece.
pub struct ConnectionString {
    pub inner: ConnectionStringInner,
}

/// The rendered URL: scheme, then user and password followed by `@` when
/// a username is present, then host, port and database.
pub open spec fn connection_url(
    username: Option<Seq<char>>,
    password: Option<Seq<char>>,
    host: Option<Seq<char>>,
    port: Option<u16>,
    database: Option<Seq<char>>,
) -> Seq<char> {
    "postgresql://"@ + (match username {
        Option::Some(u) => u,
        Option::None => Seq::<char>::empty(),
    }) + (match password {
        Option::Some(p) => ":"@ + p,
        Option::None => Seq::<char>::empty(),
    }) + (if username is Some {
        "@"@
    } else {
        Seq::<char>::empty()
    }) + (match host {
        Option::Some(h) => h,
        Option::None => Seq::<char>::empty(),
    }) + (match port {
        Option::Some(p) => ":"@ + dec_str(p as nat),
        Option::None => Seq::<char>::empty(),
    }) + (match database {
        Option::Some(d) => "/"@ + d,
        Option::None => Seq::<char>::empty(),
    })
}

impl ConnectionString {
    /// Assembles a connection string from its components.
    pub fn new(
        username: Option<String>,
        password: Option<String>,
        host: Option<String>,
        port: Option<u16>,
        database: Option<String>,
    ) -> (r: ConnectionString)
        ensures
            opt_string_view(r.inner.username) == opt_string_view(username),
            opt_string_view(r.inner.password) == opt_string_view(password),
            opt_string_view(r.inner.host) == opt_string_view(host),
            r.inner.port == port,
            opt_string_view(r.inner.database) == opt_string_view(database),
    {
        ConnectionString {
            inner: ConnectionStringInner { username, password, host, port, database },
        }
    }

    /// Replaces the database component.
    pub fn set_database(&mut self, database: Option<String>)
        ensures
            opt_string_view(final(self).inner.database) == opt_string_view(database),
            final(self).inner.username == old(self).inner.username,
            final(self).inner.password == old(self).inner.password,
            final(self).inner.host == old(self).inner.host,
            final(self).inner.port == old(self).inner.port,
    {
        self.inner.database = database;
    }

    /// Renders the URL.
    #[verifier::rlimit(100)]
    pub fn to_string(&self) -> (r: String)
        ensures
            r@ == connection_url(
                opt_string_view(self.inner.username),
                opt_string_view(self.inner.password),
                opt_string_view(self.inner.host),
                self.inner.port,
                opt_string_view(self.inner.database),
            ),
    {
        let mut url: String = "postgresql://".to_owned();
        if let Option::Some(username) = &self.inner.username {
            url.append(username.as_str());
        }
        if let Option::Some(password) = &self.inner.password {
            url.append(":");
            url.append(password.as_str());
        }
        if let Option::Some(_) = &self.inner.username {
            url.append("@");
        }
        if let Option::Some(host) = &self.inner.host {
            url.append(host.as_str());
        }
        if let Option::Some(port) = &self.inner.port {
            url.append(":");
            let digits = u64_dec_string(*port as u64);
            url.append(digits.as_str());
        }
        if let Option::Some(database) = &self.inner.database {
            url.append("/");
            url.append(database.as_str());
        }
        proof {
            assert(url@ =~= connection_url(
                opt_string_view(self.inner.username),
                opt_string_view(self.inner.password),
                opt_string_view(self.inner.host),
                self.inner.port,
                opt_string_view(self.inner.database),
            ));
        }
        url
    }
}

} // verus!
