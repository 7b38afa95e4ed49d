use std::time::Duration;
use ud_co2s::error::SessionError;
use ud_co2s::link::{
    activation_command, LinkFailure, LinkRequest, BAUD_RATE, READ_TIMEOUT_MILLIS,
};
use ud_co2s::text::{decode, is_text};

#[test]
fn link_parameters_are_fixed() {
    assert_eq!(BAUD_RATE, 9600);
    assert_eq!(READ_TIMEOUT_MILLIS, 5000);
}

#[test]
fn activation_command_is_sta_crlf() {
    assert_eq!(activation_command(), b"STA\r\n".to_vec());
}

#[test]
fn port_name_is_decoded() {
    let request = LinkRequest::parse(b"PORT1").unwrap();
    assert_eq!(request.port(), "PORT1");
    assert_eq!(request.into_port(), String::from("PORT1"));
}

#[test]
fn port_name_may_hold_any_text() {
    let name = "/dev/tty\u{e9}\u{4e2d}";
    let request = LinkRequest::parse(name.as_bytes()).unwrap();
    assert_eq!(request.port(), name);
}

#[test]
fn empty_port_name_is_invalid_input() {
    assert_eq!(LinkRequest::parse(b""), Err(SessionError::InvalidInput));
}

#[test]
fn undecodable_port_name_is_invalid_input() {
    assert_eq!(LinkRequest::parse(&[0x50, 0xFF, 0x31]), Err(SessionError::InvalidInput));
    assert_eq!(LinkRequest::parse(&[0xC3]), Err(SessionError::InvalidInput));
    assert_eq!(LinkRequest::parse(&[0xED, 0xA0, 0x80]), Err(SessionError::InvalidInput));
}

#[test]
fn settings_carry_the_fixed_parameters() {
    let request = LinkRequest::parse(b"PORT1").unwrap();
    let expected = serialport::new("PORT1", 9600).timeout(Duration::from_millis(5000));
    assert_eq!(request.settings(), expected);
}

#[test]
fn settings_differ_from_untimed_defaults() {
    let request = LinkRequest::parse(b"PORT1").unwrap();
    assert_ne!(request.settings(), serialport::new("PORT1", 9600));
    assert_ne!(
        request.settings(),
        serialport::new("PORT1", 9600).timeout(Duration::from_millis(5001))
    );
    assert_ne!(
        request.settings(),
        serialport::new("PORT1", 19200).timeout(Duration::from_millis(5000))
    );
}

#[test]
fn settings_name_the_requested_port() {
    let one = LinkRequest::parse(b"/dev/ttyUSB0").unwrap();
    let two = LinkRequest::parse(b"/dev/ttyUSB1").unwrap();
    assert_ne!(one.settings(), two.settings());
    assert_eq!(
        two.settings(),
        serialport::new("/dev/ttyUSB1", 9600).timeout(Duration::from_millis(5000))
    );
}

#[test]
fn link_failures_map_to_session_errors() {
    assert_eq!(LinkFailure::Open.error(), SessionError::OpenFailure);
    assert_eq!(LinkFailure::ActivationWrite.error(), SessionError::ActivationWriteFailure);
}

#[test]
fn every_error_has_its_message() {
    assert_eq!(SessionError::InvalidInput.message(), "Failed to get port name.");
    assert_eq!(SessionError::OpenFailure.message(), "Failed to open.");
    assert_eq!(SessionError::ActivationWriteFailure.message(), "Failed to write.");
    assert_eq!(SessionError::ReadFailure.message(), "Error reading line.");
}

#[test]
fn decode_gives_the_text_of_the_bytes() {
    assert_eq!(decode(b"CO2=412"), Some(String::from("CO2=412")));
    assert_eq!(decode("\u{e9}".as_bytes()), Some(String::from("\u{e9}")));
    assert_eq!(decode(b""), Some(String::new()));
    assert_eq!(decode(&[0x80]), None);
}

#[test]
fn is_text_tells_utf8_from_other_bytes() {
    assert!(is_text(b"123"));
    assert!(is_text(b""));
    assert!(is_text("\u{1F600}".as_bytes()));
    assert!(!is_text(&[0xFF]));
    assert!(!is_text(&[0xC0, 0x80]));
    assert!(!is_text(&[0xE2, 0x82]));
}
