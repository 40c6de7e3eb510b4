//! The one-byte codes of the S7 wire format, each as a closed enumeration
//! with its conversion to and from the byte.

use vstd::prelude::*;
use vstd::std_specs::convert::TryFromSpecImpl;
use crate::error::S7Error;

verus! {

/// The function that an S7 parameter section asks for or answers.
#[derive(Debug, Clone, Copy, PartialEq, Eq, Structural)]
pub enum ParameterType {
    /// Communication setup, which negotiates the PDU size (`0xf0`).
    Setup,
    /// Reading variables (`0x04`).
    ReadVar,
    /// Writing variables (`0x05`).
    WriteVar,
    /// Opening a block upload (`0x1d`).
    StartUpload,
    /// One step of a block upload (`0x1e`).
    Upload,
    /// Closing a block upload (`0x1f`).
    EndUpload,
}

impl ParameterType {
    /// The byte that stands for this parameter type on the wire.
    pub open spec fn spec_code(self) -> u8 {
        match self {
            ParameterType::Setup => 0xf0,
            ParameterType::ReadVar => 0x04,
            ParameterType::WriteVar => 0x05,
            ParameterType::StartUpload => 0x1d,
            ParameterType::Upload => 0x1e,
            ParameterType::EndUpload => 0x1f,
        }
    }

    /// The parameter type that `value` stands for; any other byte is rejected
    /// and recorded in the error.
    pub open spec fn spec_from_code(value: u8) -> Result<ParameterType, S7Error> {
        if value == 0xf0 {
            Ok(ParameterType::Setup)
        } else if value == 0x04 {
            Ok(ParameterType::ReadVar)
        } else if value == 0x05 {
            Ok(ParameterType::WriteVar)
        } else if value == 0x1d {
            Ok(ParameterType::StartUpload)
        } else if value == 0x1e {
            Ok(ParameterType::Upload)
        } else if value == 0x1f {
            Ok(ParameterType::EndUpload)
        } else {
            Err(S7Error::InvalidParameterType(value))
        }
    }

    /// The byte that stands for this parameter type on the wire.
    pub fn code(&self) -> (r: u8)
        ensures
            r == self.spec_code(),
    {
        match self {
            ParameterType::Setup => 0xf0,
            ParameterType::ReadVar => 0x04,
            ParameterType::WriteVar => 0x05,
            ParameterType::StartUpload => 0x1d,
            ParameterType::Upload => 0x1e,
            ParameterType::EndUpload => 0x1f,
        }
    }

    /// Every parameter type is recovered from its code.
    pub proof fn lemma_code_round_trip(self)
        ensures
            ParameterType::spec_from_code(self.spec_code()) == Ok::<ParameterType, S7Error>(self),
    {
    }

    /// A byte that decodes to a value is that value's code.
    pub proof fn lemma_code_parsed(self, value: u8)
        requires
            ParameterType::spec_from_code(value) == Ok::<ParameterType, S7Error>(self),
        ensures
            self.spec_code() == value,
    {
    }
}

impl TryFrom<u8> for ParameterType {
    type Error = S7Error;

    /// Converts a code; the result is what `try_from_spec` says.
    fn try_from(value: u8) -> (r: Result<Self, S7Error>) {
        match value {
            0xf0 => Ok(ParameterType::Setup),
            0x04 => Ok(ParameterType::ReadVar),
            0x05 => Ok(ParameterType::WriteVar),
            0x1d => Ok(ParameterType::StartUpload),
            0x1e => Ok(ParameterType::Upload),
            0x1f => Ok(ParameterType::EndUpload),
            _ => Err(S7Error::InvalidParameterType(value)),
        }
    }
}

impl TryFromSpecImpl<u8> for ParameterType {
    open spec fn obeys_try_from_spec() -> bool {
        true
    }

    open spec fn try_from_spec(value: u8) -> Result<Self, S7Error> {
        ParameterType::spec_from_code(value)
    }
}

/// The variable specification that opens a parameter item.
#[derive(Debug, Clone, Copy, PartialEq, Eq, Structural)]
pub enum VarSpec {
    /// A single bit (`0x01`).
    Bit,
    /// A byte (`0x02`).
    Byte,
    /// A 16-bit word (`0x04`).
    Word,
    /// A 32-bit double word (`0x06`).
    DWord,
}

impl VarSpec {
    /// The byte that stands for this variable specification on the wire.
    pub open spec fn spec_code(self) -> u8 {
        match self {
            VarSpec::Bit => 0x01,
            VarSpec::Byte => 0x02,
            VarSpec::Word => 0x04,
            VarSpec::DWord => 0x06,
        }
    }

    /// The variable specification that `value` stands for; any other byte is rejected
    /// and recorded in the error.
    pub open spec fn spec_from_code(value: u8) -> Result<VarSpec, S7Error> {
        if value == 0x01 {
            Ok(VarSpec::Bit)
        } else if value == 0x02 {
            Ok(VarSpec::Byte)
        } else if value == 0x04 {
            Ok(VarSpec::Word)
        } else if value == 0x06 {
            Ok(VarSpec::DWord)
        } else {
            Err(S7Error::InvalidVarSpec(value))
        }
    }

    /// The byte that stands for this variable specification on the wire.
    pub fn code(&self) -> (r: u8)
        ensures
            r == self.spec_code(),
    {
        match self {
            VarSpec::Bit => 0x01,
            VarSpec::Byte => 0x02,
            VarSpec::Word => 0x04,
            VarSpec::DWord => 0x06,
        }
    }

    /// Every variable specification is recovered from its code.
    pub proof fn lemma_code_round_trip(self)
        ensures
            VarSpec::spec_from_code(self.spec_code()) == Ok::<VarSpec, S7Error>(self),
    {
    }

    /// A byte that decodes to a value is that value's code.
    pub proof fn lemma_code_parsed(self, value: u8)
        requires
            VarSpec::spec_from_code(value) == Ok::<VarSpec, S7Error>(self),
        ensures
            self.spec_code() == value,
    {
    }
}

impl TryFrom<u8> for VarSpec {
    type Error = S7Error;

    /// Converts a code; the result is what `try_from_spec` says.
    fn try_from(value: u8) -> (r: Result<Self, S7Error>) {
        match value {
            0x01 => Ok(VarSpec::Bit),
            0x02 => Ok(VarSpec::Byte),
            0x04 => Ok(VarSpec::Word),
            0x06 => Ok(VarSpec::DWord),
            _ => Err(S7Error::InvalidVarSpec(value)),
        }
    }
}

impl TryFromSpecImpl<u8> for VarSpec {
    open spec fn obeys_try_from_spec() -> bool {
        true
    }

    open spec fn try_from_spec(value: u8) -> Result<Self, S7Error> {
        VarSpec::spec_from_code(value)
    }
}

/// The addressing syntax of a parameter item.
#[derive(Debug, Clone, Copy, PartialEq, Eq, Structural)]
pub enum SyntaxId {
    /// S7Any addressing: area, data block number and offset (`0x10`).
    S7Any,
}

impl SyntaxId {
    /// The byte that stands for this syntax identifier on the wire.
    pub open spec fn spec_code(self) -> u8 {
        match self {
            SyntaxId::S7Any => 0x10,
        }
    }

    /// The syntax identifier that `value` stands for; any other byte is rejected
    /// and recorded in the error.
    pub open spec fn spec_from_code(value: u8) -> Result<SyntaxId, S7Error> {
        if value == 0x10 {
            Ok(SyntaxId::S7Any)
        } else {
            Err(S7Error::InvalidSyntaxId(value))
        }
    }

    /// The byte that stands for this syntax identifier on the wire.
    pub fn code(&self) -> (r: u8)
        ensures
            r == self.spec_code(),
    {
        match self {
            SyntaxId::S7Any => 0x10,
        }
    }

    /// Every syntax identifier is recovered from its code.
    pub proof fn lemma_code_round_trip(self)
        ensures
            SyntaxId::spec_from_code(self.spec_code()) == Ok::<SyntaxId, S7Error>(self),
    {
    }

    /// A byte that decodes to a value is that value's code.
    pub proof fn lemma_code_parsed(self, value: u8)
        requires
            SyntaxId::spec_from_code(value) == Ok::<SyntaxId, S7Error>(self),
        ensures
            self.spec_code() == value,
    {
    }
}

impl TryFrom<u8> for SyntaxId {
    type Error = S7Error;

    /// Converts a code; the result is what `try_from_spec` says.
    fn try_from(value: u8) -> (r: Result<Self, S7Error>) {
        match value {
            0x10 => Ok(SyntaxId::S7Any),
            _ => Err(S7Error::InvalidSyntaxId(value)),
        }
    }
}

impl TryFromSpecImpl<u8> for SyntaxId {
    open spec fn obeys_try_from_spec() -> bool {
        true
    }

    open spec fn try_from_spec(value: u8) -> Result<Self, S7Error> {
        SyntaxId::spec_from_code(value)
    }
}

/// The memory area that a parameter item addresses.
#[derive(Debug, Clone, Copy, PartialEq, Eq, Structural)]
pub enum Area {
    /// The process image of the inputs (`0x81`).
    Inputs,
    /// The process image of the outputs (`0x82`).
    Outputs,
    /// The flag memory (`0x83`).
    Flags,
    /// A data block, chosen by its number (`0x84`).
    DataBlocks,
}

impl Area {
    /// The byte that stands for this memory area on the wire.
    pub open spec fn spec_code(self) -> u8 {
        match self {
            Area::Inputs => 0x81,
            Area::Outputs => 0x82,
            Area::Flags => 0x83,
            Area::DataBlocks => 0x84,
        }
    }

    /// The memory area that `value` stands for; any other byte is rejected
    /// and recorded in the error.
    pub open spec fn spec_from_code(value: u8) -> Result<Area, S7Error> {
        if value == 0x81 {
            Ok(Area::Inputs)
        } else if value == 0x82 {
            Ok(Area::Outputs)
        } else if value == 0x83 {
            Ok(Area::Flags)
        } else if value == 0x84 {
            Ok(Area::DataBlocks)
        } else {
            Err(S7Error::InvalidArea(value))
        }
    }

    /// The byte that stands for this memory area on the wire.
    pub fn code(&self) -> (r: u8)
        ensures
            r == self.spec_code(),
    {
        match self {
            Area::Inputs => 0x81,
            Area::Outputs => 0x82,
            Area::Flags => 0x83,
            Area::DataBlocks => 0x84,
        }
    }

    /// Every memory area is recovered from its code.
    pub proof fn lemma_code_round_trip(self)
        ensures
            Area::spec_from_code(self.spec_code()) == Ok::<Area, S7Error>(self),
    {
    }

    /// A byte that decodes to a value is that value's code.
    pub proof fn lemma_code_parsed(self, value: u8)
        requires
            Area::spec_from_code(value) == Ok::<Area, S7Error>(self),
        ensures
            self.spec_code() == value,
    {
    }
}

impl TryFrom<u8> for Area {
    type Error = S7Error;

    /// Converts a code; the result is what `try_from_spec` says.
    fn try_from(value: u8) -> (r: Result<Self, S7Error>) {
        match value {
            0x81 => Ok(Area::Inputs),
            0x82 => Ok(Area::Outputs),
            0x83 => Ok(Area::Flags),
            0x84 => Ok(Area::DataBlocks),
            _ => Err(S7Error::InvalidArea(value)),
        }
    }
}

impl TryFromSpecImpl<u8> for Area {
    open spec fn obeys_try_from_spec() -> bool {
        true
    }

    open spec fn try_from_spec(value: u8) -> Result<Self, S7Error> {
        Area::spec_from_code(value)
    }
}

/// The outcome that a payload item reports.
#[derive(Debug, Clone, Copy, PartialEq, Eq, Structural)]
pub enum ReturnCode {
    /// The access succeeded (`0x00`).
    Success,
    /// The hardware reported a fault (`0x01`).
    HardwareError,
    /// The object may not be accessed (`0x03`).
    AccessError,
    /// The address is out of range (`0x05`).
    OutOfRange,
    /// The data type is not supported (`0x06`).
    NotSupported,
}

impl ReturnCode {
    /// The byte that stands for this return code on the wire.
    pub open spec fn spec_code(self) -> u8 {
        match self {
            ReturnCode::Success => 0x00,
            ReturnCode::HardwareError => 0x01,
            ReturnCode::AccessError => 0x03,
            ReturnCode::OutOfRange => 0x05,
            ReturnCode::NotSupported => 0x06,
        }
    }

    /// The return code that `value` stands for; any other byte is rejected
    /// and recorded in the error.
    pub open spec fn spec_from_code(value: u8) -> Result<ReturnCode, S7Error> {
        if value == 0x00 {
            Ok(ReturnCode::Success)
        } else if value == 0x01 {
            Ok(ReturnCode::HardwareError)
        } else if value == 0x03 {
            Ok(ReturnCode::AccessError)
        } else if value == 0x05 {
            Ok(ReturnCode::OutOfRange)
        } else if value == 0x06 {
            Ok(ReturnCode::NotSupported)
        } else {
            Err(S7Error::InvalidReturnCode(value))
        }
    }

    /// The byte that stands for this return code on the wire.
    pub fn code(&self) -> (r: u8)
        ensures
            r == self.spec_code(),
    {
        match self {
            ReturnCode::Success => 0x00,
            ReturnCode::HardwareError => 0x01,
            ReturnCode::AccessError => 0x03,
            ReturnCode::OutOfRange => 0x05,
            ReturnCode::NotSupported => 0x06,
        }
    }

    /// Every return code is recovered from its code.
    pub proof fn lemma_code_round_trip(self)
        ensures
            ReturnCode::spec_from_code(self.spec_code()) == Ok::<ReturnCode, S7Error>(self),
    {
    }

    /// A byte that decodes to a value is that value's code.
    pub proof fn lemma_code_parsed(self, value: u8)
        requires
            ReturnCode::spec_from_code(value) == Ok::<ReturnCode, S7Error>(self),
        ensures
            self.spec_code() == value,
    {
    }
}

impl TryFrom<u8> for ReturnCode {
    type Error = S7Error;

    /// Converts a code; the result is what `try_from_spec` says.
    fn try_from(value: u8) -> (r: Result<Self, S7Error>) {
        match value {
            0x00 => Ok(ReturnCode::Success),
            0x01 => Ok(ReturnCode::HardwareError),
            0x03 => Ok(ReturnCode::AccessError),
            0x05 => Ok(ReturnCode::OutOfRange),
            0x06 => Ok(ReturnCode::NotSupported),
            _ => Err(S7Error::InvalidReturnCode(value)),
        }
    }
}

impl TryFromSpecImpl<u8> for ReturnCode {
    open spec fn obeys_try_from_spec() -> bool {
        true
    }

    open spec fn try_from_spec(value: u8) -> Result<Self, S7Error> {
        ReturnCode::spec_from_code(value)
    }
}

/// The unit in which a value is carried.
#[derive(Debug, Clone, Copy, PartialEq, Eq, Structural)]
pub enum TransportSize {
    /// Single bits (`0x01`).
    Bit,
    /// Bytes (`0x02`).
    Byte,
    /// 16-bit words (`0x04`).
    Word,
    /// 32-bit double words (`0x06`).
    DWord,
}

impl TransportSize {
    /// The byte that stands for this transport size on the wire.
    pub open spec fn spec_code(self) -> u8 {
        match self {
            TransportSize::Bit => 0x01,
            TransportSize::Byte => 0x02,
            TransportSize::Word => 0x04,
            TransportSize::DWord => 0x06,
        }
    }

    /// The transport size that `value` stands for; any other byte is rejected
    /// and recorded in the error.
    pub open spec fn spec_from_code(value: u8) -> Result<TransportSize, S7Error> {
        if value == 0x01 {
            Ok(TransportSize::Bit)
        } else if value == 0x02 {
            Ok(TransportSize::Byte)
        } else if value == 0x04 {
            Ok(TransportSize::Word)
        } else if value == 0x06 {
            Ok(TransportSize::DWord)
        } else {
            Err(S7Error::InvalidTransportSize(value))
        }
    }

    /// The byte that stands for this transport size on the wire.
    pub fn code(&self) -> (r: u8)
        ensures
            r == self.spec_code(),
    {
        match self {
            TransportSize::Bit => 0x01,
            TransportSize::Byte => 0x02,
            TransportSize::Word => 0x04,
            TransportSize::DWord => 0x06,
        }
    }

    /// Every transport size is recovered from its code.
    pub proof fn lemma_code_round_trip(self)
        ensures
            TransportSize::spec_from_code(self.spec_code()) == Ok::<TransportSize, S7Error>(self),
    {
    }

    /// A byte that decodes to a value is that value's code.
    pub proof fn lemma_code_parsed(self, value: u8)
        requires
            TransportSize::spec_from_code(value) == Ok::<TransportSize, S7Error>(self),
        ensures
            self.spec_code() == value,
    {
    }
}

impl TryFrom<u8> for TransportSize {
    type Error = S7Error;

    /// Converts a code; the result is what `try_from_spec` says.
    fn try_from(value: u8) -> (r: Result<Self, S7Error>) {
        match value {
            0x01 => Ok(TransportSize::Bit),
            0x02 => Ok(TransportSize::Byte),
            0x04 => Ok(TransportSize::Word),
            0x06 => Ok(TransportSize::DWord),
            _ => Err(S7Error::InvalidTransportSize(value)),
        }
    }
}

impl TryFromSpecImpl<u8> for TransportSize {
    open spec fn obeys_try_from_spec() -> bool {
        true
    }

    open spec fn try_from_spec(value: u8) -> Result<Self, S7Error> {
        TransportSize::spec_from_code(value)
    }
}

impl TransportSize {
    /// The number of bits that one unit of this transport size spans.
    pub open spec fn spec_bits(self) -> u16 {
        match self {
            TransportSize::Bit => 1,
            TransportSize::Byte => 8,
            TransportSize::Word => 16,
            TransportSize::DWord => 32,
        }
    }

    /// The transport size whose unit spans `bits` bits, if there is one.
    pub open spec fn spec_from_bits(bits: u16) -> Option<TransportSize> {
        if bits == 1 {
            Some(TransportSize::Bit)
        } else if bits == 8 {
            Some(TransportSize::Byte)
        } else if bits == 16 {
            Some(TransportSize::Word)
        } else if bits == 32 {
            Some(TransportSize::DWord)
        } else {
            None
        }
    }

    /// The number of bits that one unit of this transport size spans.
    pub fn bits(&self) -> (r: u16)
        ensures
            r == self.spec_bits(),
    {
        match self {
            TransportSize::Bit => 1,
            TransportSize::Byte => 8,
            TransportSize::Word => 16,
            TransportSize::DWord => 32,
        }
    }

    /// The transport size whose unit spans `bits` bits, if there is one.
    pub fn from_bits(bits: u16) -> (r: Option<TransportSize>)
        ensures
            r == TransportSize::spec_from_bits(bits),
    {
        match bits {
            1 => Some(TransportSize::Bit),
            8 => Some(TransportSize::Byte),
            16 => Some(TransportSize::Word),
            32 => Some(TransportSize::DWord),
            _ => None,
        }
    }

    /// A transport size is recovered from its width.
    pub proof fn lemma_bits_round_trip(self)
        ensures
            TransportSize::spec_from_bits(self.spec_bits()) == Some(self),
    {
    }
}

} // verus!
