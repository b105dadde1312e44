//! Error numbers, open flags and file mode bits of Linux, as they are on x86-64 and on
//! AArch64.

use vstd::prelude::*;

verus! {

pub const EPERM: i32 = 1;

pub const ENOENT: i32 = 2;

pub const EIO: i32 = 5;

pub const EBADF: i32 = 9;

pub const ECHILD: i32 = 10;

pub const EINVAL: i32 = 22;

pub const EPIPE: i32 = 32;

pub const ENOTSUP: i32 = 95;

pub const ETIMEDOUT: i32 = 110;

/// The bits of a mode that say what kind of file it is.
pub const S_IFMT: u32 = 0o170000;

pub const S_IFREG: u32 = 0o100000;

pub const S_IFDIR: u32 = 0o040000;

pub const S_IFLNK: u32 = 0o120000;

/// The permission bits of a mode.
pub const PERM_BITS: u32 = 0o7777;

pub const O_APPEND: i32 = 0o2000;

pub const O_TRUNC: i32 = 0o1000;

/// Only the place of a file is wanted, not the file.
pub const O_PATH: i32 = 0o10000000;

/// How a file is opened.
#[derive(Debug, Clone, Copy, PartialEq, Eq, Structural)]
pub enum AccMode {
    ReadOnly,
    WriteOnly,
    ReadWrite,
}

/// The access mode in the flags of an open request; the lowest two bits, where
/// both set means reading only.
pub open spec fn acc_mode_of(flags: i32) -> AccMode {
    if flags & 3 == 1 {
        AccMode::WriteOnly
    } else if flags & 3 == 2 {
        AccMode::ReadWrite
    } else {
        AccMode::ReadOnly
    }
}

/// `fuser::OpenFlags::acc_mode`: the lowest two bits of the flags, with both set
/// counted as reading only.  Some C libraries count `O_PATH` among the bits.
#[verifier::external_body]
pub(crate) fn acc_mode(flags: i32) -> (r: AccMode)
    requires
        flags & O_PATH == 0,
    ensures
        r == acc_mode_of(flags),
{
    match fuser::OpenFlags(flags).acc_mode() {
        fuser::OpenAccMode::O_RDONLY => AccMode::ReadOnly,
        fuser::OpenAccMode::O_WRONLY => AccMode::WriteOnly,
        fuser::OpenAccMode::O_RDWR => AccMode::ReadWrite,
    }
}

/// The error number that a request is answered with: a positive number stays,
/// any other becomes an input-output error.
pub open spec fn errno_of(code: i32) -> i32 {
    if code > 0 {
        code
    } else {
        EIO
    }
}

/// `fuser::Errno::from_i32`: a positive number stays, any other becomes `EIO`.
#[verifier::external_body]
pub(crate) fn errno_from(code: i32) -> (r: i32)
    ensures
        r == errno_of(code),
{
    fuser::Errno::from_i32(code).code()
}

} // verus!
