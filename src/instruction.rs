//! Instructions, errors, and their mathematical models.
use vstd::prelude::*;

verus! {

/// One parsed line of assembly.
#[derive(Debug, PartialEq, Eq)]
pub enum Instruction {
    /// `@address`: loads a literal address into the address register.
    Ainstruction { address: String },
    /// `dest=comp;jump`: an ALU computation, optionally stored and/or followed by a jump.
    Cinstruction { destination: String, computation: String, jump_type: String },
}

/// Why a line could not be parsed or encoded.
#[derive(Debug, PartialEq, Eq)]
pub enum AssemblerError {
    /// The line is empty, or a computation instruction has an empty computation field.
    MalformedInstruction,
    /// A destination, computation or jump mnemonic that its table does not hold.
    UnknownMnemonic { mnemonic: String },
    /// An address that is not a non-negative integer below 2^15.
    AddressOutOfRange { address: String },
}

/// The model of an [`Instruction`]: its fields as character sequences.
pub ghost enum InstructionModel {
    Address { address: Seq<char> },
    Computation { destination: Seq<char>, computation: Seq<char>, jump_type: Seq<char> },
}

/// The model of an [`AssemblerError`].
pub ghost enum ErrorModel {
    MalformedInstruction,
    UnknownMnemonic { mnemonic: Seq<char> },
    AddressOutOfRange { address: Seq<char> },
}

impl View for Instruction {
    type V = InstructionModel;

    open spec fn view(&self) -> InstructionModel {
        match self {
            Instruction::Ainstruction { address } => InstructionModel::Address { address: address@ },
            Instruction::Cinstruction { destination, computation, jump_type } =>
                InstructionModel::Computation {
                    destination: destination@,
                    computation: computation@,
                    jump_type: jump_type@,
                },
        }
    }
}

impl View for AssemblerError {
    type V = ErrorModel;

    open spec fn view(&self) -> ErrorModel {
        match self {
            AssemblerError::MalformedInstruction => ErrorModel::MalformedInstruction,
            AssemblerError::UnknownMnemonic { mnemonic } => ErrorModel::UnknownMnemonic {
                mnemonic: mnemonic@,
            },
            AssemblerError::AddressOutOfRange { address } => ErrorModel::AddressOutOfRange {
                address: address@,
            },
        }
    }
}

/// The model of a result whose success value has a view.
pub open spec fn result_model<T: View>(r: Result<T, AssemblerError>) -> Result<T::V, ErrorModel> {
    match r {
        Ok(v) => Ok(v@),
        Err(e) => Err(e@),
    }
}

} // verus!
