use platform_rs::bootstrap::{
    build_session_layer, build_socket_from_ip_port, get_app_secret, parse_ipv4, AddressError,
    SocketAddress,
};
use platform_rs::environment::{
    parse_u16, parse_u64, parse_u8, parse_usize, read_bool_env_var, read_env_var,
    read_mandatory_env_var, read_numeric_env_var_u16, read_numeric_env_var_u64,
    read_numeric_env_var_usize,
};
use platform_rs::session::{session_lifetime_seconds, CookieStore};

#[test]
fn bool_settings() {
    assert!(read_bool_env_var(Some("true".into()), false));
    assert!(!read_bool_env_var(Some("TRUE".into()), true));
    assert!(!read_bool_env_var(Some("1".into()), true));
    assert!(read_bool_env_var(None, true));
    assert!(!read_bool_env_var(None, false));
}

#[test]
fn text_settings() {
    assert_eq!(read_env_var(Some("db".into()), "0.0.0.0"), "db");
    assert_eq!(read_env_var(None, "0.0.0.0"), "0.0.0.0");
    assert_eq!(read_mandatory_env_var(Some("secret".into())), "secret");
}

#[test]
fn unsigned_parsing_follows_str_parse() {
    assert_eq!(parse_u64("10"), Some(10));
    assert_eq!(parse_u64("+10"), Some(10));
    assert_eq!(parse_u64("007"), Some(7));
    assert_eq!(parse_u64(""), None);
    assert_eq!(parse_u64("+"), None);
    assert_eq!(parse_u64("-1"), None);
    assert_eq!(parse_u64("1 "), None);
    assert_eq!(parse_u64("18446744073709551615"), Some(u64::MAX));
    assert_eq!(parse_u64("18446744073709551616"), None);
    assert_eq!(parse_u8("255"), Some(255));
    assert_eq!(parse_u8("256"), None);
    assert_eq!(parse_u16("65535"), Some(65535));
    assert_eq!(parse_u16("65536"), None);
    assert_eq!(parse_usize("32"), Some(32));
    assert_eq!(parse_u8("٣"), None);
    for text in ["0", "+0", "42", "255", "256", "x", "", "-0", "99999999999999999999"] {
        assert_eq!(parse_u64(text), text.parse::<u64>().ok(), "{text}");
        assert_eq!(parse_u8(text), text.parse::<u8>().ok(), "{text}");
    }
}

#[test]
fn numeric_settings_fall_back_to_default() {
    assert_eq!(read_numeric_env_var_u64(None, 10), 10);
    assert_eq!(read_numeric_env_var_u64(Some("15".into()), 10), 15);
    assert_eq!(read_numeric_env_var_u16(None, 3000), 3000);
    assert_eq!(read_numeric_env_var_u16(Some("8080".into()), 3000), 8080);
    assert_eq!(read_numeric_env_var_usize(None, 32), 32);
}

#[test]
fn ipv4_addresses() {
    assert_eq!(parse_ipv4("0.0.0.0"), Ok([0, 0, 0, 0]));
    assert_eq!(parse_ipv4("127.0.0.1"), Ok([127, 0, 0, 1]));
    assert_eq!(parse_ipv4("+1.2.3.4"), Ok([1, 2, 3, 4]));
    assert_eq!(parse_ipv4("1.2.3"), Err(AddressError::WrongOctetCount));
    assert_eq!(parse_ipv4("1.2.3.4.5"), Err(AddressError::WrongOctetCount));
    assert_eq!(parse_ipv4("1.2.3.x"), Err(AddressError::InvalidOctet));
    assert_eq!(parse_ipv4("1.2.3.4.x"), Err(AddressError::InvalidOctet));
    assert_eq!(parse_ipv4("1..3.4"), Err(AddressError::InvalidOctet));
    assert_eq!(parse_ipv4(""), Err(AddressError::InvalidOctet));
    assert_eq!(parse_ipv4("256.0.0.1"), Err(AddressError::InvalidOctet));
}

#[test]
fn socket_from_ip_and_port() {
    assert_eq!(
        build_socket_from_ip_port("0.0.0.0", 3000),
        SocketAddress { ip: [0, 0, 0, 0], port: 3000 }
    );
    assert_eq!(
        build_socket_from_ip_port("192.168.1.20", 80),
        SocketAddress { ip: [192, 168, 1, 20], port: 80 }
    );
}

#[test]
fn app_secret_is_the_setting_bytes() {
    let setting = "0123456789abcdef0123456789abcdef0123456789abcdef0123456789abcdef";
    let secret = get_app_secret(setting);
    assert_eq!(&secret[..], setting.as_bytes());
}

#[test]
fn session_settings() {
    let settings = build_session_layer(10, true);
    assert_eq!(settings.ttl_seconds, 600);
    assert!(settings.existing_only && settings.same_site_strict && settings.http_only);
    assert!(settings.secure);
    assert!(!build_session_layer(1, false).secure);
    assert_eq!(session_lifetime_seconds(10), 600);
    let _store = CookieStore::new();
}
