//! An assembler core for a 16-bit two-instruction-set machine: it parses one
//! cleaned line of assembly into an instruction and encodes that instruction
//! as a 16-character binary word.
pub mod cleaning;
pub mod encoder;
pub mod instruction;
pub mod laws;
pub mod parser;
pub mod tables;
pub mod text;

pub use cleaning::{remove_all_comments, remove_all_empty_lines, remove_comment, remove_white_spaces};
pub use encoder::{address_to_binary, instruction_to_binary};
pub use instruction::{AssemblerError, Instruction};
pub use parser::{get_instruction, get_instructions_from_lines};
pub use tables::{
    get_compuation_to_binary_map, get_destination_to_binary_map, get_jump_type_to_binary_map,
    lookup,
};
