use coin_server::config::FileConfig;
use coin_server::traits::Config;

#[test]
fn test_valid_file() {
    let contents = "port=8080
                    host=localhost
                    initial_coins_count=200";

    let config = FileConfig::new_from_file(contents).unwrap();
    assert_eq!(config.port(), 8080);
    assert_eq!(config.host(), "localhost");
    assert_eq!(config.initial_coins_count(), 200)
}

#[test]
fn test_valid_file_with_whitespace() {
    let contents = "port=8080
                    host=localhost
                    initial_coins_count=200  ";

    let config = FileConfig::new_from_file(contents).unwrap();
    assert_eq!(config.port(), 8080);
    assert_eq!(config.host(), "localhost");
    assert_eq!(config.initial_coins_count(), 200)
}

#[test]
fn test_invalid_key() {
    let contents = "invalid_key=8080
host=localhost
initial_coins_count=200";

    assert!(FileConfig::new_from_file(contents).is_none());
}

#[test]
fn test_invalid_value() {
    let contents = "port=WWWW
host=localhost
initial_coins_count=200";

    assert!(FileConfig::new_from_file(contents).is_none());
}

#[test]
fn a_repeated_key_keeps_its_last_value() {
    let contents = "port=1111
host=first
initial_coins_count=5
host=second";

    let config = FileConfig::new_from_file(contents).unwrap();
    assert_eq!(config.host(), "second");
}

#[test]
fn an_unknown_key_is_ignored_when_the_three_are_present() {
    let contents = "port=8080
host=localhost
color=green
initial_coins_count=200";

    let config = FileConfig::new_from_file(contents).unwrap();
    assert_eq!(config.port(), 8080);
}

#[test]
fn a_line_without_separator_rejects_the_whole_file() {
    let contents = "port=8080
host localhost
initial_coins_count=200";

    assert!(FileConfig::new_from_file(contents).is_none());
}

#[test]
fn a_port_over_its_type_is_rejected() {
    let contents = "port=65536
host=localhost
initial_coins_count=200";

    assert!(FileConfig::new_from_file(contents).is_none());
}

#[test]
fn a_signed_value_is_read_as_from_str_reads_it() {
    let contents = "port=+8080
host=localhost
initial_coins_count=+0";

    let config = FileConfig::new_from_file(contents).unwrap();
    assert_eq!(config.port(), 8080);
    assert_eq!(config.initial_coins_count(), 0);
}

#[test]
fn a_missing_key_is_rejected() {
    let contents = "port=8080
host=localhost";

    assert!(FileConfig::new_from_file(contents).is_none());
}

#[test]
fn an_empty_value_is_rejected_for_counts() {
    let contents = "port=
host=localhost
initial_coins_count=200";

    assert!(FileConfig::new_from_file(contents).is_none());
}
