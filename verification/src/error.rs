//! The error type of the library.
use vstd::prelude::*;

verus! {

/// `std::io::Error`, carried through as it is.
#[verifier::external_type_specification]
#[verifier::external_body]
pub struct ExIoError(std::io::Error);

/// `bincode::ErrorKind`, carried through (boxed, as `bincode::Error`).
#[verifier::external_type_specification]
#[verifier::external_body]
pub struct ExBincodeErrorKind(bincode::ErrorKind);

/// What can go wrong in the library's operations.
#[derive(Debug)]
pub enum PeacockError {
    /// An I/O error.
    Io(std::io::Error),
    /// A payload that bincode could not read or write.
    Bincode(Box<bincode::ErrorKind>),
    /// A network error, described.
    Network(String),
    /// No known device has this id.
    DeviceNotFound(String),
    /// A transfer error, described.
    Transfer(String),
    /// Any other error, described.
    General(String),
}

} // verus!
