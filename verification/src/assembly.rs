//! The instruction set and its numeric encoding.
//!
//! A memory cell is one signed integer. An instruction with an operand is
//! stored as the base of its opcode plus the operand, so each opcode owns a
//! band of [`BAND_WIDTH`] consecutive values; an instruction without an operand
//! has one fixed value. `DAT` is not an instruction of the machine: its payload
//! is the cell.

use vstd::prelude::*;
use vstd::string::StringExecFns;
use crate::text::{decimal_text, push_decimal};

verus! {

/// The number of operand values that fit in one opcode's band. An operand is
/// legal for encoding when it lies in `0..BAND_WIDTH`; a larger one would run
/// into the next opcode's band, so it is refused rather than wrapped.
pub const BAND_WIDTH: i64 = 1000;

pub const CODE_HLT: i64 = 1;

pub const CODE_INP: i64 = 901;

pub const CODE_OUT: i64 = 902;

pub const CODE_LDR: i64 = 4000;

pub const CODE_BWN: i64 = 10000;

pub const BASE_ADD: i64 = 1000;

pub const BASE_SUB: i64 = 2000;

pub const BASE_STA: i64 = 3000;

pub const BASE_LDA: i64 = 5000;

pub const BASE_BRA: i64 = 6000;

pub const BASE_BRZ: i64 = 7000;

pub const BASE_BRP: i64 = 8000;

pub const BASE_BWA: i64 = 11000;

pub const BASE_BWO: i64 = 12000;

pub const BASE_BWX: i64 = 13000;

/// An operand that is either a value or the name of a label.
#[derive(Clone, Copy, Debug, PartialEq, Eq, Hash)]
pub enum DataOrLabel<'a, Data> {
    Data(Data),
    Label(&'a str),
}

/// One instruction, with an operand of type `Data` where the opcode takes one.
#[derive(Clone, Copy, Debug, PartialEq, Eq, Hash)]
pub enum Instruction<Data> {
    /// Add the addressed cell to the accumulator.
    ADD(Data),
    /// Subtract the addressed cell from the accumulator.
    SUB(Data),
    /// Store the accumulator in the addressed cell.
    STA(Data),
    /// Load the addressed cell into the accumulator.
    LDA(Data),
    /// Load the cell that the accumulator addresses into the accumulator.
    LDR,
    /// Branch always.
    BRA(Data),
    /// Branch if the accumulator is zero.
    BRZ(Data),
    /// Branch if the accumulator is zero or positive.
    BRP(Data),
    /// Complement the accumulator bit by bit.
    BWN,
    /// Bitwise AND of the accumulator with the addressed cell.
    BWA(Data),
    /// Bitwise OR of the accumulator with the addressed cell.
    BWO(Data),
    /// Bitwise XOR of the accumulator with the addressed cell.
    BWX(Data),
    /// Take the pending input into the accumulator.
    INP,
    /// Output the accumulator.
    OUT,
    /// Stop the machine.
    HLT,
    /// A cell of data; the payload is stored as it is.
    DAT(Data),
}

/// The failure of [`Instruction::decode`].
#[derive(Clone, Copy, Debug, PartialEq, Eq)]
pub enum DecodeError {
    /// The value is no fixed code and lies in no opcode's band.
    Unknown(i64),
}

impl<Data> Instruction<Data> {
    /// The operand of the instruction, if its opcode has one.
    pub open spec fn operand(self) -> Option<Data> {
        match self {
            Instruction::ADD(d) | Instruction::SUB(d) | Instruction::STA(d) | Instruction::LDA(d)
            | Instruction::BRA(d) | Instruction::BRZ(d) | Instruction::BRP(d) | Instruction::BWA(d)
            | Instruction::BWO(d) | Instruction::BWX(d) | Instruction::DAT(d) => Some(d),
            _ => None,
        }
    }

    /// The three letters that name the opcode.
    pub open spec fn mnemonic(self) -> Seq<char> {
        match self {
            Instruction::ADD(_) => seq!['A', 'D', 'D'],
            Instruction::SUB(_) => seq!['S', 'U', 'B'],
            Instruction::STA(_) => seq!['S', 'T', 'A'],
            Instruction::LDA(_) => seq!['L', 'D', 'A'],
            Instruction::LDR => seq!['L', 'D', 'R'],
            Instruction::BRA(_) => seq!['B', 'R', 'A'],
            Instruction::BRZ(_) => seq!['B', 'R', 'Z'],
            Instruction::BRP(_) => seq!['B', 'R', 'P'],
            Instruction::BWN => seq!['B', 'W', 'N'],
            Instruction::BWA(_) => seq!['B', 'W', 'A'],
            Instruction::BWO(_) => seq!['B', 'W', 'O'],
            Instruction::BWX(_) => seq!['B', 'W', 'X'],
            Instruction::INP => seq!['I', 'N', 'P'],
            Instruction::OUT => seq!['O', 'U', 'T'],
            Instruction::HLT => seq!['H', 'L', 'T'],
            Instruction::DAT(_) => seq!['D', 'A', 'T'],
        }
    }

    /// The name of the opcode.
    pub fn name(&self) -> (text: &'static str)
        ensures
            text@ == self.mnemonic(),
    {
        proof {
            reveal_strlit("ADD");
            reveal_strlit("SUB");
            reveal_strlit("STA");
            reveal_strlit("LDA");
            reveal_strlit("LDR");
            reveal_strlit("BRA");
            reveal_strlit("BRZ");
            reveal_strlit("BRP");
            reveal_strlit("BWN");
            reveal_strlit("BWA");
            reveal_strlit("BWO");
            reveal_strlit("BWX");
            reveal_strlit("INP");
            reveal_strlit("OUT");
            reveal_strlit("HLT");
            reveal_strlit("DAT");
        }
        let text = match self {
            Instruction::ADD(_) => "ADD",
            Instruction::SUB(_) => "SUB",
            Instruction::STA(_) => "STA",
            Instruction::LDA(_) => "LDA",
            Instruction::LDR => "LDR",
            Instruction::BRA(_) => "BRA",
            Instruction::BRZ(_) => "BRZ",
            Instruction::BRP(_) => "BRP",
            Instruction::BWN => "BWN",
            Instruction::BWA(_) => "BWA",
            Instruction::BWO(_) => "BWO",
            Instruction::BWX(_) => "BWX",
            Instruction::INP => "INP",
            Instruction::OUT => "OUT",
            Instruction::HLT => "HLT",
            Instruction::DAT(_) => "DAT",
        };
        assert(text@ =~= self.mnemonic());
        text
    }

    /// The same instruction with `f` of its operand in place of the operand.
    pub open spec fn map_operand<T>(self, f: spec_fn(Data) -> T) -> Instruction<T> {
        match self {
            Instruction::ADD(d) => Instruction::ADD(f(d)),
            Instruction::SUB(d) => Instruction::SUB(f(d)),
            Instruction::STA(d) => Instruction::STA(f(d)),
            Instruction::LDA(d) => Instruction::LDA(f(d)),
            Instruction::LDR => Instruction::LDR,
            Instruction::BRA(d) => Instruction::BRA(f(d)),
            Instruction::BRZ(d) => Instruction::BRZ(f(d)),
            Instruction::BRP(d) => Instruction::BRP(f(d)),
            Instruction::BWN => Instruction::BWN,
            Instruction::BWA(d) => Instruction::BWA(f(d)),
            Instruction::BWO(d) => Instruction::BWO(f(d)),
            Instruction::BWX(d) => Instruction::BWX(f(d)),
            Instruction::INP => Instruction::INP,
            Instruction::OUT => Instruction::OUT,
            Instruction::HLT => Instruction::HLT,
            Instruction::DAT(d) => Instruction::DAT(f(d)),
        }
    }
}

impl Instruction<i64> {
    /// The instruction as it is written: the mnemonic and, where the opcode
    /// has an operand, a space and the operand in decimal.
    pub open spec fn text(self) -> Seq<char> {
        match self.operand() {
            Some(operand) => self.mnemonic() + seq![' '] + decimal_text(operand as int),
            None => self.mnemonic(),
        }
    }

    /// Writes the instruction as text.
    pub fn to_text(&self) -> (text: String)
        ensures
            text@ == self.text(),
    {
        let mut text = String::from_str(self.name());
        let operand = match self {
            Instruction::ADD(d) | Instruction::SUB(d) | Instruction::STA(d) | Instruction::LDA(d)
            | Instruction::BRA(d) | Instruction::BRZ(d) | Instruction::BRP(d) | Instruction::BWA(d)
            | Instruction::BWO(d) | Instruction::BWX(d) | Instruction::DAT(d) => Some(*d),
            _ => None,
        };
        if let Some(value) = operand {
            proof {
                reveal_strlit(" ");
            }
            text.append(" ");
            assert(text@ =~= self.mnemonic() + seq![' ']);
            push_decimal(&mut text, value);
        }
        text
    }

    /// The operand, for the opcodes that take an address.
    pub open spec fn address(self) -> Option<i64> {
        match self {
            Instruction::ADD(a) | Instruction::SUB(a) | Instruction::STA(a) | Instruction::LDA(a)
            | Instruction::BRA(a) | Instruction::BRZ(a) | Instruction::BRP(a) | Instruction::BWA(a)
            | Instruction::BWO(a) | Instruction::BWX(a) => Some(a),
            _ => None,
        }
    }

    /// Whether the instruction has a cell value: an address must fit in its band.
    pub open spec fn encodable(self) -> bool {
        match self.address() {
            Some(a) => 0 <= a < BAND_WIDTH,
            None => true,
        }
    }

    /// The cell value of the instruction.
    pub open spec fn encoding(self) -> int {
        match self {
            Instruction::HLT => CODE_HLT as int,
            Instruction::INP => CODE_INP as int,
            Instruction::OUT => CODE_OUT as int,
            Instruction::LDR => CODE_LDR as int,
            Instruction::BWN => CODE_BWN as int,
            Instruction::ADD(a) => BASE_ADD + a,
            Instruction::SUB(a) => BASE_SUB + a,
            Instruction::STA(a) => BASE_STA + a,
            Instruction::LDA(a) => BASE_LDA + a,
            Instruction::BRA(a) => BASE_BRA + a,
            Instruction::BRZ(a) => BASE_BRZ + a,
            Instruction::BRP(a) => BASE_BRP + a,
            Instruction::BWA(a) => BASE_BWA + a,
            Instruction::BWO(a) => BASE_BWO + a,
            Instruction::BWX(a) => BASE_BWX + a,
            Instruction::DAT(d) => d as int,
        }
    }

    /// The instruction that a cell value stands for. The fixed codes come
    /// first, then the bands; no value stands for `DAT`.
    pub open spec fn decoding(value: i64) -> Option<Instruction<i64>> {
        if value == CODE_HLT {
            Some(Instruction::HLT)
        } else if value == CODE_INP {
            Some(Instruction::INP)
        } else if value == CODE_OUT {
            Some(Instruction::OUT)
        } else if value == CODE_LDR {
            Some(Instruction::LDR)
        } else if value == CODE_BWN {
            Some(Instruction::BWN)
        } else if BASE_ADD <= value < BASE_ADD + BAND_WIDTH {
            Some(Instruction::ADD((value - BASE_ADD) as i64))
        } else if BASE_SUB <= value < BASE_SUB + BAND_WIDTH {
            Some(Instruction::SUB((value - BASE_SUB) as i64))
        } else if BASE_STA <= value < BASE_STA + BAND_WIDTH {
            Some(Instruction::STA((value - BASE_STA) as i64))
        } else if BASE_LDA <= value < BASE_LDA + BAND_WIDTH {
            Some(Instruction::LDA((value - BASE_LDA) as i64))
        } else if BASE_BRA <= value < BASE_BRA + BAND_WIDTH {
            Some(Instruction::BRA((value - BASE_BRA) as i64))
        } else if BASE_BRZ <= value < BASE_BRZ + BAND_WIDTH {
            Some(Instruction::BRZ((value - BASE_BRZ) as i64))
        } else if BASE_BRP <= value < BASE_BRP + BAND_WIDTH {
            Some(Instruction::BRP((value - BASE_BRP) as i64))
        } else if BASE_BWA <= value < BASE_BWA + BAND_WIDTH {
            Some(Instruction::BWA((value - BASE_BWA) as i64))
        } else if BASE_BWO <= value < BASE_BWO + BAND_WIDTH {
            Some(Instruction::BWO((value - BASE_BWO) as i64))
        } else if BASE_BWX <= value < BASE_BWX + BAND_WIDTH {
            Some(Instruction::BWX((value - BASE_BWX) as i64))
        } else {
            None
        }
    }

    /// Tells whether every operand of the instruction fits in its band.
    pub fn is_encodable(&self) -> (ok: bool)
        ensures
            ok == self.encodable(),
    {
        match self {
            Instruction::ADD(a) | Instruction::SUB(a) | Instruction::STA(a) | Instruction::LDA(a)
            | Instruction::BRA(a) | Instruction::BRZ(a) | Instruction::BRP(a) | Instruction::BWA(a)
            | Instruction::BWO(a) | Instruction::BWX(a) => 0 <= *a && *a < BAND_WIDTH,
            _ => true,
        }
    }

    /// Packs the instruction into one cell value. The operand must fit in
    /// the band of the opcode; [`Instruction::checked_encode`] tests that.
    pub fn encode(self) -> (value: i64)
        requires
            self.encodable(),
        ensures
            value == self.encoding(),
    {
        match self {
            Instruction::HLT => CODE_HLT,
            Instruction::INP => CODE_INP,
            Instruction::OUT => CODE_OUT,
            Instruction::LDR => CODE_LDR,
            Instruction::BWN => CODE_BWN,
            Instruction::ADD(a) => BASE_ADD + a,
            Instruction::SUB(a) => BASE_SUB + a,
            Instruction::STA(a) => BASE_STA + a,
            Instruction::LDA(a) => BASE_LDA + a,
            Instruction::BRA(a) => BASE_BRA + a,
            Instruction::BRZ(a) => BASE_BRZ + a,
            Instruction::BRP(a) => BASE_BRP + a,
            Instruction::BWA(a) => BASE_BWA + a,
            Instruction::BWO(a) => BASE_BWO + a,
            Instruction::BWX(a) => BASE_BWX + a,
            Instruction::DAT(d) => d,
        }
    }

    /// Packs the instruction into one cell value, or refuses it where an
    /// operand does not fit in its band.
    pub fn checked_encode(self) -> (value: Option<i64>)
        ensures
            value == (if self.encodable() {
                Some(self.encoding() as i64)
            } else {
                None
            }),
    {
        if self.is_encodable() {
            Some(self.encode())
        } else {
            None
        }
    }

    /// Unpacks a cell value into the instruction that it stands for.
    pub fn decode(value: i64) -> (decoded: Result<Instruction<i64>, DecodeError>)
        ensures
            decoded == (match Self::decoding(value) {
                Some(instruction) => Ok::<Instruction<i64>, DecodeError>(instruction),
                None => Err::<Instruction<i64>, DecodeError>(DecodeError::Unknown(value)),
            }),
    {
        if value == CODE_HLT {
            Ok(Instruction::HLT)
        } else if value == CODE_INP {
            Ok(Instruction::INP)
        } else if value == CODE_OUT {
            Ok(Instruction::OUT)
        } else if value == CODE_LDR {
            Ok(Instruction::LDR)
        } else if value == CODE_BWN {
            Ok(Instruction::BWN)
        } else if BASE_ADD <= value && value < BASE_ADD + BAND_WIDTH {
            Ok(Instruction::ADD(value - BASE_ADD))
        } else if BASE_SUB <= value && value < BASE_SUB + BAND_WIDTH {
            Ok(Instruction::SUB(value - BASE_SUB))
        } else if BASE_STA <= value && value < BASE_STA + BAND_WIDTH {
            Ok(Instruction::STA(value - BASE_STA))
        } else if BASE_LDA <= value && value < BASE_LDA + BAND_WIDTH {
            Ok(Instruction::LDA(value - BASE_LDA))
        } else if BASE_BRA <= value && value < BASE_BRA + BAND_WIDTH {
            Ok(Instruction::BRA(value - BASE_BRA))
        } else if BASE_BRZ <= value && value < BASE_BRZ + BAND_WIDTH {
            Ok(Instruction::BRZ(value - BASE_BRZ))
        } else if BASE_BRP <= value && value < BASE_BRP + BAND_WIDTH {
            Ok(Instruction::BRP(value - BASE_BRP))
        } else if BASE_BWA <= value && value < BASE_BWA + BAND_WIDTH {
            Ok(Instruction::BWA(value - BASE_BWA))
        } else if BASE_BWO <= value && value < BASE_BWO + BAND_WIDTH {
            Ok(Instruction::BWO(value - BASE_BWO))
        } else if BASE_BWX <= value && value < BASE_BWX + BAND_WIDTH {
            Ok(Instruction::BWX(value - BASE_BWX))
        } else {
            Err(DecodeError::Unknown(value))
        }
    }
}

/// Decoding undoes encoding: an instruction of the machine whose operand fits
/// in its band is what its own cell value stands for. `DAT` is left out, since
/// its payload is the cell and no value decodes to it.
pub proof fn lemma_decode_inverts_encode(instruction: Instruction<i64>)
    requires
        instruction.encodable(),
        !(instruction is DAT),
    ensures
        i64::MIN <= instruction.encoding() <= i64::MAX,
        Instruction::decoding(instruction.encoding() as i64) == Some(instruction),
{
}

/// Encoding undoes decoding: whatever a cell value stands for is an
/// instruction of the machine, fits in its band, and has that value.
pub proof fn lemma_encode_inverts_decode(value: i64)
    requires
        Instruction::decoding(value) is Some,
    ensures
        Instruction::decoding(value)->0.encodable(),
        !(Instruction::decoding(value)->0 is DAT),
        Instruction::decoding(value)->0.encoding() == value,
{
}

/// No two instructions of the machine share a cell value.
pub proof fn lemma_encoding_is_injective(a: Instruction<i64>, b: Instruction<i64>)
    requires
        a.encodable(),
        b.encodable(),
        !(a is DAT),
        !(b is DAT),
        a.encoding() == b.encoding(),
    ensures
        a == b,
{
    lemma_decode_inverts_encode(a);
    lemma_decode_inverts_encode(b);
}

} // verus!
