//! The serial link to the sensor: what the transport is asked to do when a
//! session is opened, and what it can report back.
//!
//! The link has fixed parameters. Only the port identifier varies; it arrives
//! as bytes and has to be text.

use crate::error::SessionError;
use crate::text::decode;
use serialport::SerialPortBuilder;
use vstd::prelude::*;
use vstd::utf8::{decode_utf8, valid_utf8};

verus! {

/// The line speed of the sensor, in symbols per second.
pub const BAUD_RATE: u32 = 9600;

/// How long one read waits for data, in milliseconds.
pub const READ_TIMEOUT_MILLIS: u64 = 5000;

/// The bytes of the command that makes the sensor start sending: `STA`,
/// carriage return, line feed.
pub open spec fn activation_bytes() -> Seq<u8> {
    seq![0x53u8, 0x54u8, 0x41u8, 0x0Du8, 0x0Au8]
}

/// The command that is written to the device once, right after the port is
/// opened.
pub fn activation_command() -> (command: Vec<u8>)
    ensures
        command@ == activation_bytes(),
{
    let mut command: Vec<u8> = Vec::new();
    command.push(0x53);
    command.push(0x54);
    command.push(0x41);
    command.push(0x0D);
    command.push(0x0A);
    assert(command@ =~= activation_bytes());
    command
}

/// The settings type of `serialport`. Nothing is known of what a value of
/// it holds: it is made by the two calls below and handed on to the
/// transport.
#[verifier::external_type_specification]
#[verifier::external_body]
pub struct ExSerialPortBuilder(serialport::SerialPortBuilder);

/// The settings that `serialport::new` returns for a path and a baud rate.
pub uninterp spec fn builder_for(path: Seq<char>, baud_rate: u32) -> SerialPortBuilder;

/// The settings that `SerialPortBuilder::timeout` returns for settings and a
/// timeout in milliseconds.
pub uninterp spec fn builder_with_timeout(
    builder: SerialPortBuilder,
    millis: u64,
) -> SerialPortBuilder;

/// Calls `serialport::new`, which records the path and the baud rate beside
/// the crate's defaults for everything else and touches no device. Trusted:
/// the settings returned are a function of the two arguments.
#[verifier::external_body]
fn new_builder(path: &str, baud_rate: u32) -> (builder: SerialPortBuilder)
    ensures
        builder == builder_for(path@, baud_rate),
{
    serialport::new(path, baud_rate)
}

/// Calls `SerialPortBuilder::timeout`, which stores the timeout in the
/// settings and changes nothing else. Trusted: the settings returned are a
/// function of the settings given and of the timeout.
#[verifier::external_body]
fn set_timeout(builder: SerialPortBuilder, millis: u64) -> (timed: SerialPortBuilder)
    ensures
        timed == builder_with_timeout(builder, millis),
{
    builder.timeout(std::time::Duration::from_millis(millis))
}

/// The settings with which the port `port` is opened: the fixed baud rate
/// and read timeout, and the transport's defaults for data bits, parity and
/// stop bits.
pub open spec fn settings_for(port: Seq<char>) -> SerialPortBuilder {
    builder_with_timeout(builder_for(port, BAUD_RATE), READ_TIMEOUT_MILLIS)
}

/// True when `bytes` can name a port: they are not empty, and they are text.
pub open spec fn names_port(bytes: Seq<u8>) -> bool {
    bytes.len() > 0 && valid_utf8(bytes)
}

/// A request to establish the link on one port.
#[derive(Debug, PartialEq, Eq)]
pub struct LinkRequest {
    port: String,
}

impl View for LinkRequest {
    type V = Seq<char>;

    /// The port identifier.
    closed spec fn view(&self) -> Seq<char> {
        self.port@
    }
}

impl LinkRequest {
    /// Makes the request to open the port that `port_name` names. The name is
    /// rejected where it is empty or is not text.
    pub fn parse(port_name: &[u8]) -> (request: Result<LinkRequest, SessionError>)
        ensures
            names_port(port_name@) ==> (request matches Ok(r) && r@ == decode_utf8(port_name@)),
            !names_port(port_name@) ==> request == Err::<LinkRequest, SessionError>(
                SessionError::InvalidInput,
            ),
    {
        if port_name.len() == 0 {
            return Err(SessionError::InvalidInput);
        }
        match decode(port_name) {
            Some(port) => Ok(LinkRequest { port }),
            None => Err(SessionError::InvalidInput),
        }
    }

    /// The port identifier.
    pub fn port(&self) -> (port: &str)
        ensures
            port@ == self@,
    {
        self.port.as_str()
    }

    /// The settings to open the port with.
    pub fn settings(&self) -> (settings: SerialPortBuilder)
        ensures
            settings == settings_for(self@),
    {
        set_timeout(new_builder(self.port.as_str(), BAUD_RATE), READ_TIMEOUT_MILLIS)
    }

    /// Gives up the request for the port identifier it holds.
    pub fn into_port(self) -> (port: String)
        ensures
            port@ == self@,
    {
        self.port
    }
}

/// The step at which the transport failed to establish the link.
#[derive(Debug, Clone, Copy, PartialEq, Eq)]
pub enum LinkFailure {
    /// The port could not be opened.
    Open,
    /// The port was opened, but the activation command could not be written.
    ActivationWrite,
}

impl LinkFailure {
    /// The session error that this failure is reported as.
    pub open spec fn spec_error(self) -> SessionError {
        match self {
            LinkFailure::Open => SessionError::OpenFailure,
            LinkFailure::ActivationWrite => SessionError::ActivationWriteFailure,
        }
    }

    /// The session error that this failure is reported as.
    pub fn error(&self) -> (error: SessionError)
        ensures
            error == self.spec_error(),
    {
        match self {
            LinkFailure::Open => SessionError::OpenFailure,
            LinkFailure::ActivationWrite => SessionError::ActivationWriteFailure,
        }
    }
}

} // verus!
