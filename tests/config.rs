use riptagger::config::ConfigError;

#[test]
fn test_config_error_display() {
    let err1 = ConfigError::MissingKey("album".to_string());
    assert_eq!(err1.to_string(), "Missing key: album");

    let err2 = ConfigError::TypeError("year should be an integer".to_string());
    assert_eq!(err2.to_string(), "Type error: year should be an integer");
}

#[test]
fn it_works() {
    assert_eq!(2 + 2, 4);
}
