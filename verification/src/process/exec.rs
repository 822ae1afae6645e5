//! Choosing how an executable file is interpreted.
use vstd::prelude::*;
use super::subsystem::{DosSubsystemMetadata, Subsystem};

verus! {

/// Used to force the kernel to interpret an executable as a specific format
#[derive(Copy, Clone, Debug, PartialEq, Eq, Structural)]
pub enum InterpretationMode {
    /// Try to determine the executable type from magic numbers
    Detect,
    /// Assume it's a flat binary
    BIN,
    /// Assume it's an ELF program
    ELF,
    /// Assume it's a COM program
    COM,
    /// Assume it's a DOS MZ executable
    DOS,
}

impl InterpretationMode {
    /// The mode requested by a syscall argument; unknown values detect.
    pub fn from_u32(raw: u32) -> (r: InterpretationMode)
        ensures
            r == if raw == 1 {
                InterpretationMode::BIN
            } else if raw == 2 {
                InterpretationMode::ELF
            } else if raw == 3 {
                InterpretationMode::COM
            } else if raw == 4 {
                InterpretationMode::DOS
            } else {
                InterpretationMode::Detect
            },
    {
        match raw {
            1 => InterpretationMode::BIN,
            2 => InterpretationMode::ELF,
            3 => InterpretationMode::COM,
            4 => InterpretationMode::DOS,
            _ => InterpretationMode::Detect,
        }
    }
}

/// The type of executable running in a process, used for memmapping the
/// file, initializing memory, and determining the subsystem.
#[derive(Copy, Clone, Debug, PartialEq, Eq, Structural)]
pub enum ExecFormat {
    /// Native 32-bit binary
    BIN,
    /// Native 32-bit ELF program
    ELF,
    /// Header-less 16-bit binary
    COM,
    /// MZ executable
    DOS,
}

/// The format announced by the first four bytes of a file: "MZ" starts a DOS
/// executable, 0x7f "ELF" an ELF program, and anything else is a flat binary.
pub open spec fn format_of_header(header: Seq<u8>) -> ExecFormat {
    if header[0] == 0x4d && header[1] == 0x5a {
        ExecFormat::DOS
    } else if header[0] == 0x7f && header[1] == 0x45 && header[2] == 0x4c && header[3] == 0x46 {
        ExecFormat::ELF
    } else {
        ExecFormat::BIN
    }
}

/// Detect the format of an executable from the first bytes of its file.
pub fn detect_exec_format(header: &[u8; 4]) -> (r: ExecFormat)
    ensures
        r == format_of_header(header@),
{
    if header[0] == 0x4d && header[1] == 0x5a {
        ExecFormat::DOS
    } else if header[0] == 0x7f && header[1] == 0x45 && header[2] == 0x4c && header[3] == 0x46 {
        ExecFormat::ELF
    } else {
        ExecFormat::BIN
    }
}

/// The format to run a file as: the forced one, or the detected one.
pub fn get_exec_format(interp_mode: InterpretationMode, header: &[u8; 4]) -> (r: ExecFormat)
    ensures
        r == match interp_mode {
            InterpretationMode::Detect => format_of_header(header@),
            InterpretationMode::BIN => ExecFormat::BIN,
            InterpretationMode::ELF => ExecFormat::ELF,
            InterpretationMode::COM => ExecFormat::COM,
            InterpretationMode::DOS => ExecFormat::DOS,
        },
{
    match interp_mode {
        InterpretationMode::Detect => detect_exec_format(header),
        InterpretationMode::BIN => ExecFormat::BIN,
        InterpretationMode::ELF => ExecFormat::ELF,
        InterpretationMode::COM => ExecFormat::COM,
        InterpretationMode::DOS => ExecFormat::DOS,
    }
}

/// The subsystem a program of the given format runs in: DOS and COM
/// programs run in a DOS environment.
pub fn subsystem_for_format(format: ExecFormat) -> (r: Subsystem)
    ensures
        r == match format {
            ExecFormat::DOS | ExecFormat::COM => Subsystem::DOS(DosSubsystemMetadata {
                ds: 0, es: 0, fs: 0, gs: 0, ss: 0, interrupts_enabled: false,
            }),
            _ => Subsystem::Native,
        },
{
    match format {
        ExecFormat::DOS | ExecFormat::COM => Subsystem::DOS(DosSubsystemMetadata::new()),
        _ => Subsystem::Native,
    }
}

} // verus!
