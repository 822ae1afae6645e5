//! Error codes that can be returned from syscalls. They do not correspond to
//! POSIX error numbers, but they can be mapped to POSIX values for
//! compatibility. A syscall's result travels in a single register: values
//! with the top bit clear are successful results, and values with it set
//! carry an error code in their low 16 bits.
use vstd::prelude::*;

verus! {

#[derive(Copy, Clone, Debug, PartialEq, Eq, Structural)]
pub enum SystemError {
    /// Used when the error doesn't match a known code
    Unknown,
    /// File operation was performed on an unopened or bad descriptor
    BadFileDescriptor,
    /// A drive does not exist with the specified name
    NoSuchDrive,
    /// The selected drive uses an unregistered filesystem
    NoSuchFileSystem,
    /// File or directory path does not exist
    NoSuchEntity,
    /// Directory operation was performed on a non-directory path or descriptor
    NotDirectory,
    /// Directory was not empty
    NotEmpty,
    /// Pipe was closed at the other end
    BrokenPipe,
    /// File does not support seek operation
    InvalidSeek,
    /// Unsupported IOCTL command
    UnsupportedCommand,
    /// An error occurred while reading / writing
    IOError,
    /// The process cannot open any more file handles
    MaxFilesExceeded,
}

/// The number of each error.
pub open spec fn error_number(e: SystemError) -> u32 {
    match e {
        SystemError::Unknown => 0,
        SystemError::BadFileDescriptor => 1,
        SystemError::NoSuchDrive => 2,
        SystemError::NoSuchFileSystem => 3,
        SystemError::NoSuchEntity => 4,
        SystemError::NotDirectory => 5,
        SystemError::NotEmpty => 6,
        SystemError::BrokenPipe => 7,
        SystemError::InvalidSeek => 8,
        SystemError::UnsupportedCommand => 9,
        SystemError::IOError => 10,
        SystemError::MaxFilesExceeded => 11,
    }
}

/// The error whose number is `n`; any number without one is `Unknown`.
pub open spec fn error_of_number(n: int) -> SystemError {
    if n == 1 {
        SystemError::BadFileDescriptor
    } else if n == 2 {
        SystemError::NoSuchDrive
    } else if n == 3 {
        SystemError::NoSuchFileSystem
    } else if n == 4 {
        SystemError::NoSuchEntity
    } else if n == 5 {
        SystemError::NotDirectory
    } else if n == 6 {
        SystemError::NotEmpty
    } else if n == 7 {
        SystemError::BrokenPipe
    } else if n == 8 {
        SystemError::InvalidSeek
    } else if n == 9 {
        SystemError::UnsupportedCommand
    } else if n == 10 {
        SystemError::IOError
    } else if n == 11 {
        SystemError::MaxFilesExceeded
    } else {
        SystemError::Unknown
    }
}

impl SystemError {
    /// Extract the SystemError value from a numeric code: the low 16 bits
    /// hold the error's number.
    pub fn from_code(code: u32) -> (r: SystemError)
        ensures
            r == error_of_number((code % 0x10000) as int),
    {
        let n = code & 0xffff;
        assert(code & 0xffff == code % 0x10000) by (bit_vector);
        match n {
            1 => SystemError::BadFileDescriptor,
            2 => SystemError::NoSuchDrive,
            3 => SystemError::NoSuchFileSystem,
            4 => SystemError::NoSuchEntity,
            5 => SystemError::NotDirectory,
            6 => SystemError::NotEmpty,
            7 => SystemError::BrokenPipe,
            8 => SystemError::InvalidSeek,
            9 => SystemError::UnsupportedCommand,
            10 => SystemError::IOError,
            11 => SystemError::MaxFilesExceeded,
            _ => SystemError::Unknown,
        }
    }

    /// Convert a SystemError to be sent as a number in a register: the
    /// error's number with the top bit set.
    pub fn to_code(&self) -> (r: u32)
        ensures
            r == 0x80000000 + error_number(*self),
    {
        let n: u32 = match self {
            SystemError::Unknown => 0,
            SystemError::BadFileDescriptor => 1,
            SystemError::NoSuchDrive => 2,
            SystemError::NoSuchFileSystem => 3,
            SystemError::NoSuchEntity => 4,
            SystemError::NotDirectory => 5,
            SystemError::NotEmpty => 6,
            SystemError::BrokenPipe => 7,
            SystemError::InvalidSeek => 8,
            SystemError::UnsupportedCommand => 9,
            SystemError::IOError => 10,
            SystemError::MaxFilesExceeded => 11,
        };
        assert(n < 16 ==> 0x80000000u32 | n == 0x80000000u32 + n) by (bit_vector);
        0x80000000 | n
    }
}

/// Decode a syscall's result register: the low 31 bits as a value when the
/// top bit is clear, else the error it carries.
pub fn result_from_code(code: u32) -> (r: Result<u32, SystemError>)
    ensures
        code < 0x80000000 ==> r == Ok::<u32, SystemError>(code),
        code >= 0x80000000 ==> r == Err::<u32, SystemError>(error_of_number((code % 0x10000) as int)),
{
    assert(code & 0x80000000 == 0 <==> code < 0x80000000) by (bit_vector);
    assert(code < 0x80000000 ==> code & 0x7fffffff == code) by (bit_vector);
    if code & 0x80000000 == 0 {
        Ok(code & 0x7fffffff)
    } else {
        Err(SystemError::from_code(code))
    }
}

/// An error sent through a register comes back as the same error.
pub proof fn lemma_error_code_round_trip(e: SystemError)
    ensures
        0x80000000 + error_number(e) >= 0x80000000,
        error_of_number(((0x80000000 + error_number(e)) % 0x10000) as int) == e,
{
}

} // verus!
