//! Errors, and the error numbers that they become for the kernel.

use crate::errno::{errno_from, errno_of, EIO, ENOENT};
use vstd::prelude::*;

verus! {

/// A failed system operation.
#[derive(Debug)]
pub enum IoError {
    /// The system gave an error number.
    Os(i32),
    /// Something was missing, and no error number came with it.
    Missing,
    /// Anything else, with a description.
    Other(String),
}

/// A failed request to the daemon.
#[derive(Debug)]
pub enum ClientError {
    Io(IoError),
    Serialize(String),
    Server(String),
    NotFound,
}

/// Why an operation failed.
#[derive(Debug)]
pub enum Error {
    SyncingClient(ClientError),
    Io(IoError),
}

/// The error number of a failed system operation, where it has one.
pub open spec fn raw_os_error_of(e: IoError) -> Option<i32> {
    match e {
        IoError::Os(code) => Some(code),
        _ => None,
    }
}

/// The error number for the kernel of a failed system operation.
pub open spec fn io_errno(e: IoError) -> i32 {
    match e {
        IoError::Os(code) => errno_of(code),
        _ => EIO,
    }
}

/// The error number for the kernel.
pub open spec fn errno_for(e: Error) -> i32 {
    match e {
        Error::Io(io) => io_errno(io),
        Error::SyncingClient(ClientError::NotFound) => ENOENT,
        Error::SyncingClient(ClientError::Io(io)) => io_errno(io),
        Error::SyncingClient(_) => EIO,
    }
}

impl IoError {
    /// The error number, where there is one.
    pub fn raw_os_error(&self) -> (r: Option<i32>)
        ensures
            r == raw_os_error_of(*self),
    {
        match self {
            IoError::Os(code) => Some(*code),
            _ => None,
        }
    }

    /// Whether something was missing.
    pub fn is_not_found(&self) -> (r: bool)
        ensures
            r == match *self {
                IoError::Os(code) => code == ENOENT,
                IoError::Missing => true,
                IoError::Other(_) => false,
            },
    {
        match self {
            IoError::Os(code) => *code == ENOENT,
            IoError::Missing => true,
            IoError::Other(_) => false,
        }
    }

    /// The error number for the kernel.
    pub fn errno(&self) -> (r: i32)
        ensures
            r == io_errno(*self),
    {
        match self {
            IoError::Os(code) => errno_from(*code),
            _ => EIO,
        }
    }
}

impl Error {
    /// An error with an error number.
    pub fn os(code: i32) -> (r: Error)
        ensures
            r == Error::Io(IoError::Os(code)),
    {
        Error::Io(IoError::Os(code))
    }

    /// Whether a system operation failed because something was missing.
    pub fn not_found(&self) -> (r: bool)
        ensures
            r == match *self {
                Error::Io(IoError::Os(code)) => code == ENOENT,
                Error::Io(IoError::Missing) => true,
                _ => false,
            },
    {
        match self {
            Error::Io(error) => error.is_not_found(),
            _ => false,
        }
    }
}

/// The error number for the kernel: that of the system where it gave one, "no such
/// file" where the daemon found nothing, and otherwise an input-output error.
pub fn err_to_errno(err: &Error) -> (r: i32)
    ensures
        r == errno_for(*err),
{
    match err {
        Error::Io(io) => io.errno(),
        Error::SyncingClient(client) => match client {
            ClientError::NotFound => ENOENT,
            ClientError::Io(io) => io.errno(),
            ClientError::Serialize(_) => EIO,
            ClientError::Server(_) => EIO,
        },
    }
}

} // verus!
