//! What a caller can set for a connection.

use vstd::prelude::*;
use vstd::string::StringExecFns;

use crate::flags::{CapabilityFlags, CLIENT_CONNECT_WITH_DB, CLIENT_SSL};

verus! {

/// The options of a connection.
#[derive(Debug)]
pub struct ConnectionOptions {
    username: Option<String>,
    password: Option<String>,
    initial_database: Option<String>,
    use_ssl: bool,
}

/// The options of a connection as plain values.
pub struct ConnectionOptionsView {
    pub username: Option<Seq<char>>,
    pub password: Option<Seq<char>>,
    pub initial_database: Option<Seq<char>>,
    pub use_ssl: bool,
}

/// A text that may be set, as plain values.
pub open spec fn text_view(text: Option<String>) -> Option<Seq<char>> {
    match text {
        Some(s) => Some(s@),
        None => None,
    }
}

/// A borrowed text that may be set, as plain values.
pub open spec fn str_view(text: Option<&str>) -> Option<Seq<char>> {
    match text {
        Some(s) => Some(s@),
        None => None,
    }
}

impl ConnectionOptionsView {
    /// The options with nothing set.
    pub open spec fn unset() -> ConnectionOptionsView {
        ConnectionOptionsView {
            username: None,
            password: None,
            initial_database: None,
            use_ssl: false,
        }
    }

    /// The capabilities that the options ask for beyond the fixed ones: to
    /// connect with a database where one is named, and SSL where it is
    /// switched on.
    pub open spec fn capabilities(self) -> u32 {
        (if self.initial_database is Some {
            CLIENT_CONNECT_WITH_DB
        } else {
            0u32
        }) | (if self.use_ssl {
            CLIENT_SSL
        } else {
            0u32
        })
    }
}

impl View for ConnectionOptions {
    type V = ConnectionOptionsView;

    closed spec fn view(&self) -> ConnectionOptionsView {
        ConnectionOptionsView {
            username: text_view(self.username),
            password: text_view(self.password),
            initial_database: text_view(self.initial_database),
            use_ssl: self.use_ssl,
        }
    }
}

impl Default for ConnectionOptions {
    fn default() -> (options: ConnectionOptions)
        ensures
            options@ == ConnectionOptionsView::unset(),
    {
        ConnectionOptions { username: None, password: None, initial_database: None, use_ssl: false }
    }
}

impl ConnectionOptions {
    /// A builder with nothing set.
    pub fn build() -> (builder: ConnectionOptionsBuilder)
        ensures
            builder@ == ConnectionOptionsView::unset(),
    {
        ConnectionOptionsBuilder::new()
    }

    /// The name of the user, if one is set.
    pub fn username(&self) -> (name: Option<&str>)
        ensures
            str_view(name) == self@.username,
    {
        match &self.username {
            Some(s) => Some(s.as_str()),
            None => None,
        }
    }

    /// The password, if one is set.
    pub fn password(&self) -> (password: Option<&str>)
        ensures
            str_view(password) == self@.password,
    {
        match &self.password {
            Some(s) => Some(s.as_str()),
            None => None,
        }
    }

    /// The database to connect with, if one is set.
    pub fn initial_database(&self) -> (name: Option<&str>)
        ensures
            str_view(name) == self@.initial_database,
    {
        match &self.initial_database {
            Some(s) => Some(s.as_str()),
            None => None,
        }
    }

    /// Whether SSL is asked for.
    pub fn use_ssl(&self) -> (ssl: bool)
        ensures
            ssl == self@.use_ssl,
    {
        self.use_ssl
    }

    /// The capabilities that the options ask for beyond the fixed ones.
    pub fn get_capabilities(&self) -> (caps: CapabilityFlags)
        ensures
            caps@ == self@.capabilities(),
    {
        let database: u32 = if self.initial_database.is_some() {
            CLIENT_CONNECT_WITH_DB
        } else {
            0
        };
        let ssl: u32 = if self.use_ssl {
            CLIENT_SSL
        } else {
            0
        };
        let bits = database | ssl;
        assert(bits & 0xE1FF_FFFFu32 == bits) by (bit_vector)
            requires
                database == 0x0000_0008u32 || database == 0u32,
                ssl == 0x0000_0800u32 || ssl == 0u32,
                bits == database | ssl,
        ;
        CapabilityFlags::from_bits_truncate(bits)
    }
}

/// Collects the options of a connection one by one.
#[derive(Debug)]
pub struct ConnectionOptionsBuilder {
    username: Option<String>,
    password: Option<String>,
    initial_database: Option<String>,
    use_ssl: bool,
}

impl View for ConnectionOptionsBuilder {
    type V = ConnectionOptionsView;

    closed spec fn view(&self) -> ConnectionOptionsView {
        ConnectionOptionsView {
            username: text_view(self.username),
            password: text_view(self.password),
            initial_database: text_view(self.initial_database),
            use_ssl: self.use_ssl,
        }
    }
}

impl ConnectionOptionsBuilder {
    /// A builder with nothing set.
    pub fn new() -> (builder: ConnectionOptionsBuilder)
        ensures
            builder@ == ConnectionOptionsView::unset(),
    {
        ConnectionOptionsBuilder {
            username: None,
            password: None,
            initial_database: None,
            use_ssl: false,
        }
    }

    /// The options as collected.
    pub fn build(self) -> (options: ConnectionOptions)
        ensures
            options@ == self@,
    {
        ConnectionOptions {
            username: self.username,
            password: self.password,
            initial_database: self.initial_database,
            use_ssl: self.use_ssl,
        }
    }

    /// Sets the name of the user.
    pub fn username(self, user: &str) -> (builder: ConnectionOptionsBuilder)
        ensures
            builder@ == (ConnectionOptionsView { username: Some(user@), ..self@ }),
    {
        let mut builder = self;
        builder.username = Some(String::from_str(user));
        builder
    }

    /// Sets the password.
    pub fn password(self, pass: &str) -> (builder: ConnectionOptionsBuilder)
        ensures
            builder@ == (ConnectionOptionsView { password: Some(pass@), ..self@ }),
    {
        let mut builder = self;
        builder.password = Some(String::from_str(pass));
        builder
    }

    /// Sets the database to connect with.
    pub fn initial_database(self, db: &str) -> (builder: ConnectionOptionsBuilder)
        ensures
            builder@ == (ConnectionOptionsView { initial_database: Some(db@), ..self@ }),
    {
        let mut builder = self;
        builder.initial_database = Some(String::from_str(db));
        builder
    }

    /// Sets whether SSL is asked for.
    pub fn use_ssl(self, ssl: bool) -> (builder: ConnectionOptionsBuilder)
        ensures
            builder@ == (ConnectionOptionsView { use_ssl: ssl, ..self@ }),
    {
        let mut builder = self;
        builder.use_ssl = ssl;
        builder
    }
}

} // verus!
