use vstd::prelude::*;

verus! {

/// `serialport::Error`, carried through unchanged by `ObdError::Serial`.
#[verifier::external_type_specification]
#[verifier::external_body]
pub struct ExSerialPortError(serialport::Error);

/// `std::io::Error`, carried through unchanged by `ObdError::Io`.
#[verifier::external_type_specification]
#[verifier::external_body]
pub struct ExIoError(std::io::Error);

/// Everything that can go wrong while talking to the adapter or decoding
/// what it sent back.
#[derive(Debug)]
pub enum ObdError {
    /// The serial port could not be opened or configured.
    Serial(serialport::Error),
    /// Reading from or writing to the port failed.
    Io(std::io::Error),
    /// The adapter did not answer within the port's timeout.
    Timeout,
    /// The adapter answered with an error line.
    ElmError(String),
    /// The ECU returned no data.
    NoData,
    /// A response held text that is not hexadecimal where hex was expected.
    InvalidHex(String),
    /// A response did not have the expected shape.
    ParseError(String),
    /// The PID is not decoded by this library.
    UnsupportedPid(u8),
}

/// The result of an operation on the adapter or of decoding its replies.
pub type Result<T> = core::result::Result<T, ObdError>;

/// The errors that the library itself decides, as plain values: what the
/// contracts say a function returns.
pub enum Fault {
    Timeout,
    Elm(Seq<char>),
    NoData,
    InvalidHex(Seq<char>),
    Parse(Seq<char>),
    UnsupportedPid(u8),
}

/// `e` is the error that `f` describes.
pub open spec fn is_fault(e: ObdError, f: Fault) -> bool {
    match f {
        Fault::Timeout => e is Timeout,
        Fault::Elm(t) => e matches ObdError::ElmError(m) && m@ == t,
        Fault::NoData => e is NoData,
        Fault::InvalidHex(t) => e matches ObdError::InvalidHex(m) && m@ == t,
        Fault::Parse(t) => e matches ObdError::ParseError(m) && m@ == t,
        Fault::UnsupportedPid(p) => e matches ObdError::UnsupportedPid(q) && q == p,
    }
}

} // verus!
