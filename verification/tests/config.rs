use ddns::config::{parse_config, parse_u16, ConfigError};

#[test]
fn parses_full_config() {
    let text = "port: 8080\nkey: sekrit\nusername: user\npassword: pass\n";
    let c = parse_config(text).unwrap();
    assert_eq!(c.port, 8080);
    assert_eq!(c.key, "sekrit");
    assert_eq!(c.username, "user");
    assert_eq!(c.password, "pass");
}

#[test]
fn accepts_crlf_lines_and_ignores_others() {
    let text = "# settings\r\nport: 53\r\nextra: ignored\r\nkey: k\r\nusername: u\r\npassword: w\r\n";
    let c = parse_config(text).unwrap();
    assert_eq!(c.port, 53);
    assert_eq!(c.key, "k");
}

#[test]
fn last_occurrence_of_a_name_wins() {
    let text = "port: 1\nport: 2\nkey: k\nusername: u\npassword: w";
    let c = parse_config(text).unwrap();
    assert_eq!(c.port, 2);
}

#[test]
fn missing_values_are_fatal_in_order() {
    assert_eq!(parse_config("").unwrap_err(), ConfigError::MissingPort);
    assert_eq!(parse_config("port: 1\n").unwrap_err(), ConfigError::MissingKey);
    assert_eq!(
        parse_config("port: 1\nkey: k\n").unwrap_err(),
        ConfigError::MissingUsername
    );
    assert_eq!(
        parse_config("port: 1\nkey: k\nusername: u\n").unwrap_err(),
        ConfigError::MissingPassword
    );
}

#[test]
fn invalid_port_is_fatal() {
    assert_eq!(
        parse_config("port: none\nkey: k\nusername: u\npassword: w").unwrap_err(),
        ConfigError::BadPort
    );
    assert_eq!(
        parse_config("port: 65536\nkey: k\nusername: u\npassword: w").unwrap_err(),
        ConfigError::BadPort
    );
}

#[test]
fn parses_port_numbers_exactly() {
    assert_eq!(parse_u16("0"), Some(0));
    assert_eq!(parse_u16("00443"), Some(443));
    assert_eq!(parse_u16("65535"), Some(65535));
    assert_eq!(parse_u16("65536"), None);
    assert_eq!(parse_u16("123456789"), None);
    assert_eq!(parse_u16(""), None);
    assert_eq!(parse_u16("8 0"), None);
    assert_eq!(parse_u16("-1"), None);
}
