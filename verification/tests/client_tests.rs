use coin_server::auth_protocol::Protocol;
use coin_server::client::{parse_option, server_address, ClientConfig};

#[test]
fn build_takes_hostname_and_servicename_after_the_path() {
    let args = vec![
        "server".to_string(),
        "localhost".to_string(),
        "8080".to_string(),
    ];
    let config = ClientConfig::build(args).unwrap();
    assert_eq!(config.hostname(), "localhost");
    assert_eq!(config.servicename(), "8080");
}

#[test]
fn build_rejects_missing_arguments() {
    let only_path = vec!["server".to_string()];
    assert!(matches!(
        ClientConfig::build(only_path),
        Err("Could not get the hostname of the server")
    ));
    let no_service = vec!["server".to_string(), "localhost".to_string()];
    assert!(matches!(
        ClientConfig::build(no_service),
        Err("Could not get the servicename of the server")
    ));
}

#[test]
fn build_ignores_extra_arguments() {
    let args = vec![
        "server".to_string(),
        "host".to_string(),
        "7000".to_string(),
        "extra".to_string(),
    ];
    let config = ClientConfig::build(args).unwrap();
    assert_eq!(config.hostname(), "host");
}

#[test]
fn one_character_lines_are_options_anything_else_is_asked_again() {
    assert_eq!(parse_option("t"), Some('t'));
    assert_eq!(parse_option("  y\n"), Some('y'));
    assert_eq!(parse_option("q\r\n"), Some('q'));
    assert_eq!(parse_option(""), None);
    assert_eq!(parse_option("ty"), None);
    assert_eq!(parse_option("  \n"), None);
}

#[test]
fn the_server_address_is_host_colon_service() {
    assert_eq!(server_address("localhost", "8080"), "localhost:8080");
}

#[test]
fn an_auth_frame_keeps_its_fields() {
    let p = Protocol::new("token-1".to_string(), "insert".to_string());
    assert_eq!(p.auth(), "token-1");
    assert_eq!(p.message(), "insert");
}
