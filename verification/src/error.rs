//! The failures that buffer construction can report: the platform could not
//! say its page size, the requested size cannot yield a valid capacity, or a
//! platform call failed with an OS error.

use vstd::prelude::*;
use vstd::string::StringExecFns;
use crate::util::{decimal_digits, decimal_string};

verus! {

/// `std::io::Error` carried opaquely inside `ErrorKind::IO`; nothing is
/// assumed about its contents.
#[verifier::external_type_specification]
#[verifier::external_body]
pub struct ExIoError(std::io::Error);

/// Relies on `std::io::Error::last_os_error` to capture the calling thread's
/// most recent OS error value; nothing is promised about which value that is.
pub assume_specification[ std::io::Error::last_os_error ]() -> std::io::Error;

#[derive(Debug)]
pub struct Error(ErrorKind);

#[derive(Debug)]
pub enum ErrorKind {
    /// The platform could not report its page size.
    NoPageSize,
    /// The requested or rounded size is zero or not a power of two.
    InvalidSize(usize),
    /// A platform call failed; the OS error is kept as reported.
    IO(std::io::Error),
}

/// Relies on the std `Display` of `std::io::Error` to render the OS error's
/// text. Which text the platform gives for an error value is not specified,
/// so nothing is promised about the result.
#[verifier::external_body]
fn io_error_text(err: &std::io::Error) -> String {
    err.to_string()
}

impl ErrorKind {
    /// The text that describes this failure, up to the OS error's own text:
    /// the `IO` arm carries an `std::io::Error` whose rendering the platform
    /// chooses, so for it only the prefix is determined.
    pub open spec fn spec_message(self) -> Seq<char> {
        match self {
            ErrorKind::NoPageSize => "could not obtain the system's page size"@,
            ErrorKind::InvalidSize(size) => "the buffer's size: "@ + decimal_digits(size as int)
                + " is invalid; must be > 0 and a power of two"@,
            ErrorKind::IO(_) => "IO error: "@,
        }
    }
}

impl Error {
    /// The classification this error carries.
    pub closed spec fn spec_kind(&self) -> ErrorKind {
        self.0
    }

    /// A human-readable description of the error: exactly the text that
    /// `spec_message` gives, followed — for an `IO` error — by the OS
    /// error's own text.
    pub fn message(&self) -> (r: String)
        ensures
            self.spec_kind().spec_message().is_prefix_of(r@),
            !(self.spec_kind() is IO) ==> r@ == self.spec_kind().spec_message(),
    {
        match &self.0 {
            ErrorKind::NoPageSize => String::from_str("could not obtain the system's page size"),
            ErrorKind::InvalidSize(size) => {
                let mut m = String::from_str("the buffer's size: ");
                let rendered = decimal_string(*size as u64);
                m.append(rendered.as_str());
                m.append(" is invalid; must be > 0 and a power of two");
                m
            },
            ErrorKind::IO(err) => {
                let mut m = String::from_str("IO error: ");
                let rendered = io_error_text(err);
                m.append(rendered.as_str());
                m
            },
        }
    }

    pub fn kind(&self) -> (k: &ErrorKind)
        ensures
            *k == self.spec_kind(),
    {
        &self.0
    }

    pub fn into_kind(self) -> (k: ErrorKind)
        ensures
            k == self.spec_kind(),
    {
        self.0
    }

    pub fn no_page_size() -> (e: Error)
        ensures
            e.spec_kind() == ErrorKind::NoPageSize,
    {
        Error(ErrorKind::NoPageSize)
    }

    pub fn invalid_size(size: usize) -> (e: Error)
        ensures
            e.spec_kind() == ErrorKind::InvalidSize(size),
    {
        Error(ErrorKind::InvalidSize(size))
    }

    pub fn io(err: std::io::Error) -> (e: Error)
        ensures
            e.spec_kind() == ErrorKind::IO(err),
    {
        Error(ErrorKind::IO(err))
    }

    pub fn last_os_error() -> (e: Error)
        ensures
            e.spec_kind() is IO,
    {
        Error::io(std::io::Error::last_os_error())
    }
}

} // verus!
