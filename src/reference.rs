//! Registers, opcodes, condition flags and the machine's fixed addresses.
use vstd::prelude::*;

verus! {

/// Address at which execution starts.
pub const PC_START: u16 = 0x3000;

/// Keyboard status register: bit 15 set when a character is ready.
pub const MR_KBSR: u16 = 0xFE00;

/// Keyboard data register: the last character polled.
pub const MR_KBDR: u16 = 0xFE02;

/// Number of registers in the bank.
pub const REG_COUNT: usize = 10;

/// Why execution stopped, or could not go on, after an instruction.
#[derive(Debug, Clone, Copy, PartialEq, Eq, Structural)]
pub enum Signal {
    /// The HALT trap ran: a clean end of the program.
    Halted,
    /// A GETC or IN trap needs one byte of input; see `CPU::deliver_key`.
    AwaitingInput,
    /// A register field outside the register set.
    InvalidRegister,
    /// An opcode outside the sixteen defined ones.
    InvalidOpcode,
    /// RTI, which this machine does not implement.
    UnimplementedOpcode,
    /// The reserved opcode.
    ReservedOpcode,
    /// A TRAP vector with no handler.
    UnknownTrap,
    /// The console failed to read or write.
    IoFailure,
}

impl Signal {
    /// True for every signal that ends the program with an error.
    pub open spec fn is_fault(self) -> bool {
        !(self is Halted) && !(self is AwaitingInput)
    }
}

/// A register of the bank.
#[derive(Debug, Clone, Copy, PartialEq, Eq, Structural)]
pub enum REG {
    R0,
    R1,
    R2,
    R3,
    R4,
    R5,
    R6,
    R7,
    PC,
    COND,
}

impl REG {
    /// Position of the register in the bank.
    pub open spec fn index_spec(self) -> usize {
        match self {
            REG::R0 => 0,
            REG::R1 => 1,
            REG::R2 => 2,
            REG::R3 => 3,
            REG::R4 => 4,
            REG::R5 => 5,
            REG::R6 => 6,
            REG::R7 => 7,
            REG::PC => 8,
            REG::COND => 9,
        }
    }

    /// Position of the register in the bank.
    #[verifier::when_used_as_spec(index_spec)]
    pub fn index(self) -> (r: usize)
        ensures
            r == self.index_spec(),
            r < REG_COUNT,
    {
        match self {
            REG::R0 => 0,
            REG::R1 => 1,
            REG::R2 => 2,
            REG::R3 => 3,
            REG::R4 => 4,
            REG::R5 => 5,
            REG::R6 => 6,
            REG::R7 => 7,
            REG::PC => 8,
            REG::COND => 9,
        }
    }

    /// The register at position `reg` of the bank; positions 0 to 9 exist.
    pub fn new(reg: u16) -> (r: Result<REG, Signal>)
        ensures
            reg < 10 <==> r is Ok,
            r is Ok ==> r->Ok_0.index_spec() == reg as usize,
            r is Err ==> r->Err_0 == Signal::InvalidRegister,
    {
        match reg {
            0 => Ok(REG::R0),
            1 => Ok(REG::R1),
            2 => Ok(REG::R2),
            3 => Ok(REG::R3),
            4 => Ok(REG::R4),
            5 => Ok(REG::R5),
            6 => Ok(REG::R6),
            7 => Ok(REG::R7),
            8 => Ok(REG::PC),
            9 => Ok(REG::COND),
            _ => Err(Signal::InvalidRegister),
        }
    }
}

/// An operation code: bits 15 to 12 of an instruction word.
#[derive(Debug, Clone, Copy, PartialEq, Eq, Structural)]
pub enum OP {
    BR,
    ADD,
    LD,
    ST,
    JSR,
    AND,
    LDR,
    STR,
    RTI,
    NOT,
    LDI,
    STI,
    JMP,
    RES,
    LEA,
    TRAP,
}

impl OP {
    /// The four-bit code of the operation.
    pub open spec fn code(self) -> nat {
        match self {
            OP::BR => 0,
            OP::ADD => 1,
            OP::LD => 2,
            OP::ST => 3,
            OP::JSR => 4,
            OP::AND => 5,
            OP::LDR => 6,
            OP::STR => 7,
            OP::RTI => 8,
            OP::NOT => 9,
            OP::LDI => 10,
            OP::STI => 11,
            OP::JMP => 12,
            OP::RES => 13,
            OP::LEA => 14,
            OP::TRAP => 15,
        }
    }

    /// The operation with code `op`; codes 0 to 15 exist.
    pub fn new(op: u16) -> (r: Result<OP, Signal>)
        ensures
            op < 16 <==> r is Ok,
            r is Ok ==> r->Ok_0.code() == op,
            r is Err ==> r->Err_0 == Signal::InvalidOpcode,
    {
        match op {
            0 => Ok(OP::BR),
            1 => Ok(OP::ADD),
            2 => Ok(OP::LD),
            3 => Ok(OP::ST),
            4 => Ok(OP::JSR),
            5 => Ok(OP::AND),
            6 => Ok(OP::LDR),
            7 => Ok(OP::STR),
            8 => Ok(OP::RTI),
            9 => Ok(OP::NOT),
            10 => Ok(OP::LDI),
            11 => Ok(OP::STI),
            12 => Ok(OP::JMP),
            13 => Ok(OP::RES),
            14 => Ok(OP::LEA),
            15 => Ok(OP::TRAP),
            _ => Err(Signal::InvalidOpcode),
        }
    }
}

/// A condition flag; the COND register holds exactly one of them.
#[derive(Debug, Clone, Copy, PartialEq, Eq, Structural)]
pub enum FL {
    POS,
    ZRO,
    NEG,
}

impl FL {
    /// The flag's bit in the COND register.
    pub open spec fn bits_spec(self) -> u16 {
        match self {
            FL::POS => 1,
            FL::ZRO => 2,
            FL::NEG => 4,
        }
    }

    /// The flag's bit in the COND register.
    #[verifier::when_used_as_spec(bits_spec)]
    pub fn bits(self) -> (r: u16)
        ensures
            r == self.bits_spec(),
    {
        match self {
            FL::POS => 1,
            FL::ZRO => 2,
            FL::NEG => 4,
        }
    }

    /// The flag that describes `value` read as a signed word.
    pub open spec fn of(value: u16) -> FL {
        if value == 0 {
            FL::ZRO
        } else if value < 0x8000 {
            FL::POS
        } else {
            FL::NEG
        }
    }
}

} // verus!
