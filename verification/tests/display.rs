use processor::display::get_display;
use processor::ConfigurationError;

#[test]
fn it_should_return_cli_display() {
    assert!(get_display("cli").is_ok());
}

#[test]
fn unknown_display_is_a_configuration_error() {
    assert_eq!(
        get_display("fake-display").err(),
        Some(ConfigurationError::UnknownDisplay)
    );
}
