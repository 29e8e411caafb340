use mysql_protocol::conn::auth::AuthPlugin;
use mysql_protocol::error::ErrorKind;
use mysql_protocol::flags::{CLIENT_CONNECT_WITH_DB, CLIENT_SSL};
use mysql_protocol::{ConnectionOptions, ConnectionOptionsBuilder};

#[test]
fn default_options_set_nothing() {
    let opts = ConnectionOptions::default();
    assert_eq!(None, opts.username());
    assert_eq!(None, opts.password());
    assert_eq!(None, opts.initial_database());
    assert!(!opts.use_ssl());
    assert_eq!(0, opts.get_capabilities().bits());
}

#[test]
fn builder_starts_with_nothing_set() {
    let opts = ConnectionOptions::build().build();
    assert_eq!(None, opts.username());
    assert_eq!(None, opts.password());
    assert_eq!(None, opts.initial_database());
    assert!(!opts.use_ssl());
    let opts = ConnectionOptionsBuilder::new().build();
    assert_eq!(None, opts.username());
}

#[test]
fn builder_sets_each_option() {
    let opts = ConnectionOptions::build()
        .username("alice")
        .password("secret")
        .initial_database("shop")
        .use_ssl(true)
        .build();
    assert_eq!(Some("alice"), opts.username());
    assert_eq!(Some("secret"), opts.password());
    assert_eq!(Some("shop"), opts.initial_database());
    assert!(opts.use_ssl());
}

#[test]
fn builder_keeps_what_was_set_last() {
    let opts = ConnectionOptions::build()
        .username("alice")
        .use_ssl(true)
        .username("bob")
        .use_ssl(false)
        .build();
    assert_eq!(Some("bob"), opts.username());
    assert_eq!(None, opts.password());
    assert!(!opts.use_ssl());
}

#[test]
fn options_ask_for_capabilities() {
    let database = ConnectionOptions::build().initial_database("shop").build();
    assert_eq!(CLIENT_CONNECT_WITH_DB, database.get_capabilities().bits());
    let ssl = ConnectionOptions::build().use_ssl(true).build();
    assert_eq!(CLIENT_SSL, ssl.get_capabilities().bits());
    let both = ConnectionOptions::build().use_ssl(true).initial_database("").build();
    assert_eq!(CLIENT_SSL | CLIENT_CONNECT_WITH_DB, both.get_capabilities().bits());
    let neither = ConnectionOptions::build().username("u").password("p").build();
    assert_eq!(0, neither.get_capabilities().bits());
}

#[test]
fn known_plugin_is_resolved_by_its_exact_name() {
    assert!(matches!(AuthPlugin::from_name("caching_sha2_password"), AuthPlugin::CachingSha2Password));
    assert_eq!("caching_sha2_password", AuthPlugin::from_name("caching_sha2_password").name());
}

#[test]
fn other_names_resolve_to_unknown_plugins() {
    for name in ["mysql_native_password", "", "caching_sha2_password ", "CACHING_SHA2_PASSWORD"] {
        match AuthPlugin::from_name(name) {
            AuthPlugin::Unknown(kept) => assert_eq!(name, kept),
            AuthPlugin::CachingSha2Password => panic!("{} was taken for the known plugin", name),
        }
        assert_eq!(name, AuthPlugin::from_name(name).name());
    }
}

#[test]
fn response_without_password_is_empty() {
    let plugin = AuthPlugin::CachingSha2Password;
    assert_eq!(Vec::<u8>::new(), plugin.generate_response(None, &[1, 2, 3]).unwrap());
    assert_eq!(Vec::<u8>::new(), plugin.generate_response(None, &[]).unwrap());
    let unknown = AuthPlugin::Unknown("x".into());
    assert_eq!(Vec::<u8>::new(), unknown.generate_response(None, &[1]).unwrap());
}

#[test]
fn response_with_password_is_not_supported() {
    let plugin = AuthPlugin::CachingSha2Password;
    let e = plugin.generate_response(Some("secret"), &[1, 2, 3]).unwrap_err();
    assert_eq!(ErrorKind::NotSupported, e.kind());
    let e = plugin.generate_response(Some(""), &[]).unwrap_err();
    assert_eq!(ErrorKind::NotSupported, e.kind());
}
