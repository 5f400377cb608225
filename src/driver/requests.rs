//! Command opcodes and the parameters of the modelled commands.
use vstd::prelude::*;

verus! {

/// Commands understood by the controller.
#[derive(Clone, Copy, Debug, PartialEq, Eq, Structural)]
pub enum Command {
    GetFirmwareVersion,
    SAMConfiguration,
    InDataExchange,
    InListPassiveTarget,
}

impl Command {
    /// The opcode of the command on the wire.
    pub open spec fn code(self) -> u8 {
        match self {
            Command::GetFirmwareVersion => 0x02,
            Command::SAMConfiguration => 0x14,
            Command::InDataExchange => 0x40,
            Command::InListPassiveTarget => 0x4A,
        }
    }

    pub fn opcode(self) -> (r: u8)
        ensures
            r == self.code(),
    {
        match self {
            Command::GetFirmwareVersion => 0x02,
            Command::SAMConfiguration => 0x14,
            Command::InDataExchange => 0x40,
            Command::InListPassiveTarget => 0x4A,
        }
    }
}

/// Tag-level commands passed through `InDataExchange`.
#[derive(Clone, Copy, Debug, PartialEq, Eq, Structural)]
pub enum NTAGCommand {
    Read,
}

impl NTAGCommand {
    pub open spec fn code(self) -> u8 {
        match self {
            NTAGCommand::Read => 0x30,
        }
    }

    pub fn opcode(self) -> (r: u8)
        ensures
            r == self.code(),
    {
        match self {
            NTAGCommand::Read => 0x30,
        }
    }
}

/// Secure-access-module configuration modes.
#[derive(Clone, Copy, Debug, PartialEq, Eq, Structural)]
pub enum SAMMode {
    Normal,
    VirtualCard { timeout: u8 },
    WiredCard,
    DualCard,
}

/// Card types (baud rate and modulation) to poll for.
#[derive(Clone, Copy, Debug, PartialEq, Eq, Structural)]
pub enum CardType {
    IsoTypeA,
    FelicaSpeed212,
    FelicaSpeed424,
    IsoTypeB,
    Jewel,
}

impl CardType {
    pub open spec fn code(self) -> u8 {
        match self {
            CardType::IsoTypeA => 0x00,
            CardType::FelicaSpeed212 => 0x01,
            CardType::FelicaSpeed424 => 0x02,
            CardType::IsoTypeB => 0x03,
            CardType::Jewel => 0x04,
        }
    }

    pub fn opcode(self) -> (r: u8)
        ensures
            r == self.code(),
    {
        match self {
            CardType::IsoTypeA => 0x00,
            CardType::FelicaSpeed212 => 0x01,
            CardType::FelicaSpeed424 => 0x02,
            CardType::IsoTypeB => 0x03,
            CardType::Jewel => 0x04,
        }
    }
}

} // verus!
