//! The authentication plugins that a server can name.

use vstd::prelude::*;
use vstd::string::StringExecFns;

use crate::error::{Error, ErrorKind};

verus! {

/// The name of the one plugin that the client knows.
pub open spec fn caching_sha2_password() -> Seq<char> {
    "caching_sha2_password"@
}

/// An authentication plugin, as a server names it in its greeting.
#[derive(Debug)]
pub enum AuthPlugin {
    CachingSha2Password,
    Unknown(String),
}

/// A plugin as plain values.
pub enum AuthPluginView {
    CachingSha2Password,
    Unknown(Seq<char>),
}

impl View for AuthPlugin {
    type V = AuthPluginView;

    open spec fn view(&self) -> AuthPluginView {
        match self {
            AuthPlugin::CachingSha2Password => AuthPluginView::CachingSha2Password,
            AuthPlugin::Unknown(name) => AuthPluginView::Unknown(name@),
        }
    }
}

/// The plugin that a name stands for: the known one for exactly its name,
/// an unknown one for every other name.
pub open spec fn plugin_of_name(name: Seq<char>) -> AuthPluginView {
    if name == caching_sha2_password() {
        AuthPluginView::CachingSha2Password
    } else {
        AuthPluginView::Unknown(name)
    }
}

/// The name that a plugin goes by.
pub open spec fn name_of_plugin(plugin: AuthPluginView) -> Seq<char> {
    match plugin {
        AuthPluginView::CachingSha2Password => caching_sha2_password(),
        AuthPluginView::Unknown(name) => name,
    }
}

/// The response that a plugin gives: the empty one without a password.
/// With a password there is none, as no plugin can hash one.
pub open spec fn plugin_response(password: Option<Seq<char>>) -> Result<Seq<u8>, ErrorKind> {
    match password {
        None => Ok(Seq::empty()),
        Some(_) => Err(ErrorKind::NotSupported),
    }
}

/// Every plugin goes by the name that it was resolved from.
pub proof fn lemma_plugin_keeps_name(name: Seq<char>)
    ensures
        name_of_plugin(plugin_of_name(name)) == name,
{
}

impl AuthPlugin {
    /// Resolves the plugin that a server names.
    pub fn from_name(name: &str) -> (plugin: AuthPlugin)
        ensures
            plugin@ == plugin_of_name(name@),
    {
        let given = String::from_str(name);
        let known = String::from_str("caching_sha2_password");
        if given == known {
            AuthPlugin::CachingSha2Password
        } else {
            AuthPlugin::Unknown(given)
        }
    }

    /// The name of the plugin.
    pub fn name(&self) -> (name: &str)
        ensures
            name@ == name_of_plugin(self@),
    {
        match self {
            AuthPlugin::CachingSha2Password => "caching_sha2_password",
            AuthPlugin::Unknown(x) => x.as_str(),
        }
    }

    /// The authentication response for the data that the server sent: the
    /// empty one where no password is set. A password cannot be answered:
    /// hashing it is not provided.
    pub fn generate_response(&self, password: Option<&str>, server_data: &[u8]) -> (r: Result<
        Vec<u8>,
        Error,
    >)
        ensures
            match r {
                Ok(response) => password is None && response@ == Seq::<u8>::empty(),
                Err(e) => password is Some && e.kind() == ErrorKind::NotSupported,
            },
    {
        match password {
            Some(_) => Err(Error::new(ErrorKind::NotSupported, "password hashing")),
            None => Ok(Vec::new()),
        }
    }
}

} // verus!
