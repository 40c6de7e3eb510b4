//! Codes of the S7 protocol that the client interface names: the kind of
//! the connecting station, the function of a job, and the memory areas.

use vstd::prelude::*;
use vstd::std_specs::convert::TryFromSpecImpl;
use crate::error::S7Error;

verus! {

/// The kind of station that opens a connection.
#[derive(Debug, Clone, Copy, PartialEq, Eq, Structural)]
pub enum CommunicationType {
    /// A programming device (`0x01`).
    PG,
    /// An operator panel (`0x02`).
    OP,
    /// A basic Step 7 connection (`0x03`).
    Step7Basic,
}

impl CommunicationType {
    /// The byte that stands for this communication type.
    pub open spec fn spec_code(self) -> u8 {
        match self {
            CommunicationType::PG => 0x01,
            CommunicationType::OP => 0x02,
            CommunicationType::Step7Basic => 0x03,
        }
    }

    /// The byte that stands for this communication type.
    pub fn code(&self) -> (r: u8)
        ensures
            r == self.spec_code(),
    {
        match self {
            CommunicationType::PG => 0x01,
            CommunicationType::OP => 0x02,
            CommunicationType::Step7Basic => 0x03,
        }
    }
}

/// The function that a job asks for.
#[derive(Debug, Clone, Copy, PartialEq, Eq, Structural)]
pub enum FunctionCode {
    /// Reading variables (`0x04`).
    ReadVar,
    /// Writing variables (`0x05`).
    WriteVar,
    /// Asking for a download (`0x1a`).
    RequestDownload,
    /// One block of a download (`0x1b`).
    Download,
    /// The end of a download (`0x1c`).
    DownloadEnded,
}

impl FunctionCode {
    /// The byte that stands for this function code.
    pub open spec fn spec_code(self) -> u8 {
        match self {
            FunctionCode::ReadVar => 0x04,
            FunctionCode::WriteVar => 0x05,
            FunctionCode::RequestDownload => 0x1a,
            FunctionCode::Download => 0x1b,
            FunctionCode::DownloadEnded => 0x1c,
        }
    }

    /// The function code that `value` stands for; any other byte is rejected
    /// and recorded in the error.
    pub open spec fn spec_from_code(value: u8) -> Result<FunctionCode, S7Error> {
        if value == 0x04 {
            Ok(FunctionCode::ReadVar)
        } else if value == 0x05 {
            Ok(FunctionCode::WriteVar)
        } else if value == 0x1a {
            Ok(FunctionCode::RequestDownload)
        } else if value == 0x1b {
            Ok(FunctionCode::Download)
        } else if value == 0x1c {
            Ok(FunctionCode::DownloadEnded)
        } else {
            Err(S7Error::InvalidFunctionCode(value))
        }
    }

    /// The byte that stands for this function code.
    pub fn code(&self) -> (r: u8)
        ensures
            r == self.spec_code(),
    {
        match self {
            FunctionCode::ReadVar => 0x04,
            FunctionCode::WriteVar => 0x05,
            FunctionCode::RequestDownload => 0x1a,
            FunctionCode::Download => 0x1b,
            FunctionCode::DownloadEnded => 0x1c,
        }
    }

    /// Every function code is recovered from its code.
    pub proof fn lemma_code_round_trip(self)
        ensures
            FunctionCode::spec_from_code(self.spec_code()) == Ok::<FunctionCode, S7Error>(self),
    {
    }
}

impl TryFrom<u8> for FunctionCode {
    type Error = S7Error;

    /// Converts a code; the result is what `try_from_spec` says.
    fn try_from(value: u8) -> (r: Result<Self, S7Error>) {
        match value {
            0x04 => Ok(FunctionCode::ReadVar),
            0x05 => Ok(FunctionCode::WriteVar),
            0x1a => Ok(FunctionCode::RequestDownload),
            0x1b => Ok(FunctionCode::Download),
            0x1c => Ok(FunctionCode::DownloadEnded),
            _ => Err(S7Error::InvalidFunctionCode(value)),
        }
    }
}

impl TryFromSpecImpl<u8> for FunctionCode {
    open spec fn obeys_try_from_spec() -> bool {
        true
    }

    open spec fn try_from_spec(value: u8) -> Result<Self, S7Error> {
        FunctionCode::spec_from_code(value)
    }
}

/// A memory area of the controller.
#[derive(Debug, Clone, Copy, PartialEq, Eq, Structural)]
pub enum AreaCode {
    /// System information (`0x03`).
    SysInfo,
    /// System flags (`0x05`).
    SysFlags,
    /// Analog inputs (`0x06`).
    AnaInput,
    /// Analog outputs (`0x07`).
    AnaOutput,
    /// The periphery (`0x80`).
    P,
    /// The process image of the inputs (`0x81`).
    Inputs,
    /// The process image of the outputs (`0x82`).
    Outputs,
    /// The flag memory (`0x83`).
    Flags,
    /// Data blocks (`0x84`).
    DB,
    /// Instance data blocks (`0x85`).
    DI,
    /// Local data (`0x86`).
    Local,
    /// Data of the calling block (`0x87`).
    V,
}

impl AreaCode {
    /// The byte that stands for this area code.
    pub open spec fn spec_code(self) -> u8 {
        match self {
            AreaCode::SysInfo => 0x03,
            AreaCode::SysFlags => 0x05,
            AreaCode::AnaInput => 0x06,
            AreaCode::AnaOutput => 0x07,
            AreaCode::P => 0x80,
            AreaCode::Inputs => 0x81,
            AreaCode::Outputs => 0x82,
            AreaCode::Flags => 0x83,
            AreaCode::DB => 0x84,
            AreaCode::DI => 0x85,
            AreaCode::Local => 0x86,
            AreaCode::V => 0x87,
        }
    }

    /// The byte that stands for this area code.
    pub fn code(&self) -> (r: u8)
        ensures
            r == self.spec_code(),
    {
        match self {
            AreaCode::SysInfo => 0x03,
            AreaCode::SysFlags => 0x05,
            AreaCode::AnaInput => 0x06,
            AreaCode::AnaOutput => 0x07,
            AreaCode::P => 0x80,
            AreaCode::Inputs => 0x81,
            AreaCode::Outputs => 0x82,
            AreaCode::Flags => 0x83,
            AreaCode::DB => 0x84,
            AreaCode::DI => 0x85,
            AreaCode::Local => 0x86,
            AreaCode::V => 0x87,
        }
    }
}

} // verus!
